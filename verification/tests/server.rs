use static_index::config::{build_config, parse_port_str, port_from_env, resolve_root, ConfigError};
use static_index::listing::{handle_listing, render_listing, target_dir, RequestError};
use static_index::routes::{build_route_table, build_routes, find_route, HttpMethod, Route, ScanEntry};

fn entry(name: &str, is_dir: bool) -> ScanEntry {
    ScanEntry { name: name.to_string(), is_dir }
}

#[test]
fn route_table_has_root_and_one_route_per_directory() {
    let entries = vec![entry("A", true), entry("B", true), entry("f.txt", false)];
    let routes = build_routes(&entries);
    let paths: Vec<&str> = routes.iter().map(|r: &Route| r.path.as_str()).collect();
    assert_eq!(paths, vec!["/", "/A", "/B"]);
    for r in &routes {
        assert_eq!(r.method, HttpMethod::Get);
    }
}

#[test]
fn route_table_of_empty_root_is_just_the_root_route() {
    let routes = build_routes(&vec![]);
    assert_eq!(routes.len(), 1);
    assert_eq!(routes[0].path, "/");
}

#[test]
fn file_entries_never_produce_routes() {
    let entries = vec![entry("one.txt", false), entry("two.html", false)];
    let routes = build_routes(&entries);
    assert_eq!(routes.len(), 1);
    assert_eq!(routes[0].path, "/");
}

#[test]
fn failed_root_scan_is_startup_fatal() {
    let r = build_route_table(None);
    assert!(matches!(r, Err(ConfigError::UnreadableRoot)));
}

#[test]
fn successful_root_scan_builds_the_table() {
    let r = build_route_table(Some(vec![entry("A", true), entry("f.txt", false)]));
    let routes = r.unwrap();
    let paths: Vec<&str> = routes.iter().map(|r: &Route| r.path.as_str()).collect();
    assert_eq!(paths, vec!["/", "/A"]);
}

#[test]
fn find_route_matches_exact_literals_only() {
    let routes = build_routes(&vec![entry("A", true), entry("B", true)]);
    assert_eq!(find_route(&routes, "/"), Some(0));
    assert_eq!(find_route(&routes, "/A"), Some(1));
    assert_eq!(find_route(&routes, "/B"), Some(2));
    assert_eq!(find_route(&routes, "/A/"), None);
    assert_eq!(find_route(&routes, "/AB"), None);
    assert_eq!(find_route(&routes, ""), None);
}

#[test]
fn unmatched_path_yields_not_found_not_a_crash() {
    let routes = build_routes(&vec![entry("A", true), entry("B", true)]);
    assert_eq!(find_route(&routes, "/nonexistent"), None);
    let r = handle_listing(None);
    assert!(matches!(r, Err(RequestError::NotFound)));
}

#[test]
fn listing_of_two_entries_has_exactly_their_two_items() {
    let body = render_listing(&vec!["x".to_string(), "y".to_string()]);
    assert_eq!(
        body,
        "<html><body><h1>Arch Linux</h1><ul>\
         <li><a href=\"x\">x</a></li>\
         <li><a href=\"y\">y</a></li>\
         </ul></body></html>"
    );
    assert_eq!(body.matches("<li>").count(), 2);
}

#[test]
fn listing_does_not_filter_entries_by_type() {
    let names = vec!["A".to_string(), "B".to_string(), "f.txt".to_string()];
    let resp = handle_listing(Some(names)).unwrap();
    assert!(resp.body.contains("<li><a href=\"A\">A</a></li>"));
    assert!(resp.body.contains("<li><a href=\"B\">B</a></li>"));
    assert!(resp.body.contains("<li><a href=\"f.txt\">f.txt</a></li>"));
    assert_eq!(resp.body.matches("<li>").count(), 3);
}

#[test]
fn listing_of_no_entries_is_an_empty_list() {
    let body = render_listing(&vec![]);
    assert_eq!(body, "<html><body><h1>Arch Linux</h1><ul></ul></body></html>");
}

#[test]
fn repeated_requests_render_byte_identical_bodies() {
    let names = vec!["pkg-1.0.tar".to_string(), "pkg-2.0.tar".to_string()];
    let first = handle_listing(Some(names.clone())).unwrap();
    let second = handle_listing(Some(names)).unwrap();
    assert_eq!(first.body.as_bytes(), second.body.as_bytes());
}

#[test]
fn response_metadata_matches_the_body() {
    let resp = handle_listing(Some(vec!["x".to_string()])).unwrap();
    assert_eq!(resp.content_type(), "text/html");
    assert_eq!(resp.content_length(), resp.body.len());
}

#[test]
fn target_dir_appends_the_request_path_verbatim() {
    let t = target_dir("/srv/static", "/A");
    assert_eq!(t, "/srv/static/A");
    let root_req = target_dir("/srv/static", "/");
    assert_eq!(root_req, "/srv/static/");
}

#[test]
fn resolve_root_substitutes_the_home_directory() {
    let root = resolve_root("/home/user");
    assert_eq!(root, "/home/user/.config/arch-jlake-co/static");
}

#[test]
fn port_parses_like_the_standard_parser() {
    assert_eq!(parse_port_str("80"), Ok(80));
    assert_eq!(parse_port_str("65535"), Ok(65535));
    assert_eq!(parse_port_str("+443"), Ok(443));
    assert_eq!(parse_port_str("00080"), Ok(80));
    assert_eq!(parse_port_str("65536"), Err(ConfigError::InvalidPort));
    assert_eq!(parse_port_str("999999999999"), Err(ConfigError::InvalidPort));
    assert_eq!(parse_port_str(""), Err(ConfigError::InvalidPort));
    assert_eq!(parse_port_str("+"), Err(ConfigError::InvalidPort));
    assert_eq!(parse_port_str("-1"), Err(ConfigError::InvalidPort));
    assert_eq!(parse_port_str("8o80"), Err(ConfigError::InvalidPort));
    assert_eq!(parse_port_str("8080 "), Err(ConfigError::InvalidPort));
}

#[test]
fn absent_port_variable_means_the_default_port() {
    assert_eq!(port_from_env(&None), Ok(80));
    assert_eq!(port_from_env(&Some("8080".to_string())), Ok(8080));
    assert_eq!(
        port_from_env(&Some("eighty".to_string())),
        Err(ConfigError::InvalidPort)
    );
}

#[test]
fn startup_fails_on_a_missing_home_or_bad_port() {
    let r = build_config(None, None);
    assert!(matches!(r, Err(ConfigError::MissingHome)));
    let r = build_config(Some("/home/user".to_string()), Some("not-a-port".to_string()));
    assert!(matches!(r, Err(ConfigError::InvalidPort)));
}

#[test]
fn startup_succeeds_with_a_home_and_a_valid_port() {
    let c = build_config(Some("/home/user".to_string()), Some("8080".to_string())).unwrap();
    assert_eq!(c.root, "/home/user/.config/arch-jlake-co/static");
    assert_eq!(c.port, 8080);
    let c = build_config(Some("/home/user".to_string()), None).unwrap();
    assert_eq!(c.port, 80);
}
