//! The route table: built once at startup from a one-level scan of the root
//! directory, never mutated afterwards. Every route is a GET route bound to
//! the one shared listing handler, so a route is just its literal path;
//! matching is by exact literal comparison, with no wildcards, so insertion
//! order has no observable effect.

use crate::config::ConfigError;
use vstd::prelude::*;

verus! {

/// The one HTTP method the table registers.
#[derive(Clone, Copy, Debug, PartialEq, Eq, Structural)]
pub enum HttpMethod {
    Get,
}

/// One registered route: a method and a literal path pattern. The handler is
/// the same stateless listing handler for every route, so it carries no
/// per-route data and is not stored here.
pub struct Route {
    pub method: HttpMethod,
    pub path: String,
}

/// One immediate child of the root directory, as the startup scan hands it in:
/// its base name and whether it is itself a directory.
pub struct ScanEntry {
    pub name: String,
    pub is_dir: bool,
}

/// The route path registered for a child directory: a slash, then the child's
/// base name.
pub open spec fn route_path_of(name: Seq<char>) -> Seq<char> {
    "/"@ + name
}

/// The route paths the scan's directory entries contribute, in scan order;
/// entries that are not directories contribute none.
pub open spec fn dir_route_paths(entries: Seq<ScanEntry>) -> Seq<Seq<char>>
    decreases entries.len(),
{
    if entries.len() == 0 {
        Seq::empty()
    } else {
        let rest = dir_route_paths(entries.drop_first());
        if entries[0].is_dir {
            seq![route_path_of(entries[0].name@)] + rest
        } else {
            rest
        }
    }
}

/// Every path the table holds for a given scan: the root route first, then
/// one route per directory entry in scan order.
pub open spec fn route_table_paths(entries: Seq<ScanEntry>) -> Seq<Seq<char>> {
    seq!["/"@] + dir_route_paths(entries)
}

/// The paths of a built table, for stating what `build_routes` returns.
pub open spec fn paths_of(routes: Seq<Route>) -> Seq<Seq<char>> {
    routes.map_values(|r: Route| r.path@)
}

/// Extending the scan by one entry appends that entry's route, if any.
proof fn lemma_dir_route_paths_push(entries: Seq<ScanEntry>, e: ScanEntry)
    ensures
        dir_route_paths(entries.push(e)) == if e.is_dir {
            dir_route_paths(entries).push(route_path_of(e.name@))
        } else {
            dir_route_paths(entries)
        },
    decreases entries.len(),
{
    let pushed = entries.push(e);
    assert(pushed.len() == entries.len() + 1);
    assert(pushed[0] == if entries.len() == 0 {
        e
    } else {
        entries[0]
    });
    if entries.len() == 0 {
        assert(pushed.drop_first() =~= Seq::<ScanEntry>::empty());
        assert(dir_route_paths(Seq::<ScanEntry>::empty()) == Seq::<Seq<char>>::empty());
        assert(dir_route_paths(entries) == Seq::<Seq<char>>::empty());
        if e.is_dir {
            assert(dir_route_paths(pushed) == seq![route_path_of(e.name@)] + Seq::<
                Seq<char>,
            >::empty());
            assert(seq![route_path_of(e.name@)] + Seq::<Seq<char>>::empty() =~= Seq::<
                Seq<char>,
            >::empty().push(route_path_of(e.name@)));
        } else {
            assert(dir_route_paths(pushed) == Seq::<Seq<char>>::empty());
        }
    } else {
        assert(pushed.drop_first() =~= entries.drop_first().push(e));
        lemma_dir_route_paths_push(entries.drop_first(), e);
        let rest = dir_route_paths(entries.drop_first());
        assert(dir_route_paths(pushed.drop_first()) == if e.is_dir {
            rest.push(route_path_of(e.name@))
        } else {
            rest
        });
        if entries[0].is_dir {
            assert(dir_route_paths(entries) == seq![route_path_of(entries[0].name@)] + rest);
            assert(dir_route_paths(pushed) == seq![route_path_of(entries[0].name@)]
                + dir_route_paths(pushed.drop_first()));
            if e.is_dir {
                assert(seq![route_path_of(entries[0].name@)] + rest.push(route_path_of(e.name@))
                    =~= (seq![route_path_of(entries[0].name@)] + rest).push(
                    route_path_of(e.name@),
                ));
            }
        } else {
            assert(dir_route_paths(entries) == rest);
            assert(dir_route_paths(pushed) == dir_route_paths(pushed.drop_first()));
        }
    }
}

proof fn lemma_dir_route_paths_membership(entries: Seq<ScanEntry>, p: Seq<char>)
    ensures
        dir_route_paths(entries).contains(p) <==> exists|i: int|
            0 <= i < entries.len() && entries[i].is_dir && p == route_path_of(entries[i].name@),
    decreases entries.len(),
{
    if entries.len() == 0 {
    } else {
        let rest = entries.drop_first();
        lemma_dir_route_paths_membership(rest, p);
        let paths = dir_route_paths(entries);
        if entries[0].is_dir {
            assert(paths == seq![route_path_of(entries[0].name@)] + dir_route_paths(rest));
            if p == route_path_of(entries[0].name@) {
                assert(paths[0] == p);
                assert(paths.contains(p));
            }
            if paths.contains(p) && p != route_path_of(entries[0].name@) {
                let k = choose|k: int| 0 <= k < paths.len() && paths[k] == p;
                assert(dir_route_paths(rest)[k - 1] == p);
                assert(dir_route_paths(rest).contains(p));
            }
        } else {
            assert(paths == dir_route_paths(rest));
        }
        if exists|i: int| 0 <= i < rest.len() && rest[i].is_dir && p == route_path_of(rest[i].name@) {
            let i = choose|i: int|
                0 <= i < rest.len() && rest[i].is_dir && p == route_path_of(rest[i].name@);
            assert(entries[i + 1] == rest[i]);
        }
        if dir_route_paths(rest).contains(p) {
            if entries[0].is_dir {
                let k = choose|k: int|
                    0 <= k < dir_route_paths(rest).len() && dir_route_paths(rest)[k] == p;
                assert(paths[k + 1] == p);
            }
            assert(paths.contains(p));
        }
        if exists|i: int|
            0 <= i < entries.len() && entries[i].is_dir && p == route_path_of(entries[i].name@) {
            let i = choose|i: int|
                0 <= i < entries.len() && entries[i].is_dir && p == route_path_of(
                    entries[i].name@,
                );
            if i > 0 {
                assert(rest[i - 1] == entries[i]);
                assert(dir_route_paths(rest).contains(p));
            }
        }
    }
}

/// A path stands in the route table exactly when it is the root route or the
/// route of some directory entry of the scan: file entries never produce
/// routes.
pub proof fn lemma_route_table_membership(entries: Seq<ScanEntry>, p: Seq<char>)
    ensures
        route_table_paths(entries).contains(p) <==> (p == "/"@ || exists|i: int|
            0 <= i < entries.len() && entries[i].is_dir && p == route_path_of(entries[i].name@)),
{
    lemma_dir_route_paths_membership(entries, p);
    let table = route_table_paths(entries);
    assert(table[0] == "/"@);
    if p == "/"@ {
        assert(table.contains(p));
    }
    if dir_route_paths(entries).contains(p) {
        let k = choose|k: int|
            0 <= k < dir_route_paths(entries).len() && dir_route_paths(entries)[k] == p;
        assert(table[k + 1] == p);
        assert(table.contains(p));
    }
    if table.contains(p) && p != "/"@ {
        let k = choose|k: int| 0 <= k < table.len() && table[k] == p;
        assert(k > 0);
        assert(dir_route_paths(entries)[k - 1] == p);
        assert(dir_route_paths(entries).contains(p));
    }
}

/// Builds the route table for a scanned root: always the root route, then one
/// GET route per child directory, in scan order, none for plain files.
pub fn build_routes(entries: &Vec<ScanEntry>) -> (r: Vec<Route>)
    ensures
        paths_of(r@) == route_table_paths(entries@),
        forall|i: int| 0 <= i < r@.len() ==> r@[i].method == HttpMethod::Get,
{
    let mut routes: Vec<Route> = Vec::new();
    let mut root_path = String::new();
    root_path.append("/");
    routes.push(Route { method: HttpMethod::Get, path: root_path });
    proof {
        assert(paths_of(routes@) =~= seq!["/"@] + dir_route_paths(entries@.take(0)));
    }
    let mut i: usize = 0;
    while i < entries.len()
        invariant
            i <= entries@.len(),
            paths_of(routes@) == seq!["/"@] + dir_route_paths(entries@.take(i as int)),
            forall|k: int| 0 <= k < routes@.len() ==> routes@[k].method == HttpMethod::Get,
        decreases entries@.len() - i,
    {
        let e = &entries[i];
        if e.is_dir {
            let mut p = String::new();
            p.append("/");
            p.append(e.name.as_str());
            proof {
                assert(p@ =~= route_path_of(e.name@));
            }
            routes.push(Route { method: HttpMethod::Get, path: p });
        }
        proof {
            assert(entries@.take(i + 1) =~= entries@.take(i as int).push(entries@[i as int]));
            lemma_dir_route_paths_push(entries@.take(i as int), entries@[i as int]);
            if entries@[i as int].is_dir {
                assert(paths_of(routes@) =~= (seq!["/"@] + dir_route_paths(
                    entries@.take(i as int),
                )).push(route_path_of(entries@[i as int].name@)));
                assert((seq!["/"@] + dir_route_paths(entries@.take(i as int))).push(
                    route_path_of(entries@[i as int].name@),
                ) =~= seq!["/"@] + dir_route_paths(entries@.take(i as int)).push(
                    route_path_of(entries@[i as int].name@),
                ));
            }
        }
        i += 1;
    }
    proof {
        assert(entries@.take(entries@.len() as int) =~= entries@);
    }
    routes
}

/// Builds the route table from the startup scan's outcome. A root that could
/// not be read as a directory (the scan failed) is a startup-fatal
/// misconfiguration: the caller must abort before binding any socket.
pub fn build_route_table(scan: Option<Vec<ScanEntry>>) -> (r: Result<Vec<Route>, ConfigError>)
    ensures
        r is Ok <==> scan is Some,
        r is Err ==> r->Err_0 == ConfigError::UnreadableRoot,
        r is Ok ==> paths_of(r->Ok_0@) == route_table_paths(scan->0@),
        r is Ok ==> forall|i: int|
            0 <= i < r->Ok_0@.len() ==> r->Ok_0@[i].method == HttpMethod::Get,
{
    match scan {
        None => Err(ConfigError::UnreadableRoot),
        Some(entries) => Ok(build_routes(&entries)),
    }
}

/// Character-by-character string equality, so that route matching can compare
/// a request path against a stored pattern.
fn str_eq(a: &str, b: &str) -> (r: bool)
    ensures
        r <==> a@ == b@,
{
    let na = a.unicode_len();
    let nb = b.unicode_len();
    if na != nb {
        return false;
    }
    let mut i: usize = 0;
    while i < na
        invariant
            i <= na,
            na == a@.len(),
            na == b@.len(),
            forall|k: int| 0 <= k < i ==> a@[k] == b@[k],
        decreases na - i,
    {
        if a.get_char(i) != b.get_char(i) {
            return false;
        }
        i += 1;
    }
    proof {
        assert(a@ =~= b@);
    }
    true
}

/// Matches a request path against the table by exact literal comparison: the
/// first route whose path equals the request path, or nothing when no route
/// matches and the request falls through to the static file server.
pub fn find_route(routes: &Vec<Route>, path: &str) -> (r: Option<usize>)
    ensures
        r is Some ==> {
            &&& r->0 < routes@.len()
            &&& routes@[r->0 as int].path@ == path@
            &&& forall|k: int| 0 <= k < r->0 ==> routes@[k].path@ != path@
        },
        r is None ==> forall|k: int| 0 <= k < routes@.len() ==> routes@[k].path@ != path@,
{
    let mut i: usize = 0;
    while i < routes.len()
        invariant
            i <= routes@.len(),
            forall|k: int| 0 <= k < i ==> routes@[k].path@ != path@,
        decreases routes@.len() - i,
    {
        if str_eq(routes[i].path.as_str(), path) {
            return Some(i);
        }
        i += 1;
    }
    None
}

} // verus!
