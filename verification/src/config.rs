//! Startup configuration: resolving the root path from the home directory and
//! parsing the listening port. Every failure here is startup-fatal: the server
//! must not bind a socket with a broken configuration, so the caller aborts on
//! any `ConfigError`.

use vstd::prelude::*;

verus! {

/// A startup-fatal configuration failure.
#[derive(Clone, Copy, Debug, PartialEq, Eq, Structural)]
pub enum ConfigError {
    /// The home-directory variable is not set, so the root path cannot be resolved.
    MissingHome,
    /// The port variable is set but is not a decimal port number.
    InvalidPort,
    /// The root path does not exist, is not a directory, or cannot be read.
    UnreadableRoot,
}

/// The fixed part of the root path, appended to the home directory.
pub open spec fn root_suffix() -> Seq<char> {
    "/.config/arch-jlake-co/static"@
}

/// The port served when no port variable is set.
pub const DEFAULT_PORT: u16 = 80;

/// Resolves the root path: the home-directory placeholder at the head of the
/// configured template is replaced by the actual home directory.
pub fn resolve_root(home: &str) -> (r: String)
    ensures
        r@ == home@ + root_suffix(),
{
    let mut r = String::new();
    r.append(home);
    r.append("/.config/arch-jlake-co/static");
    proof {
        assert(r@ =~= home@ + root_suffix());
    }
    r
}

/// A decimal digit.
pub open spec fn is_dec_digit(c: char) -> bool {
    '0' <= c && c <= '9'
}

/// The value of a decimal digit.
pub open spec fn dec_digit_val(c: char) -> int {
    c as int - '0' as int
}

/// Whether every character of `s` is a decimal digit.
pub open spec fn all_dec_digits(s: Seq<char>) -> bool {
    forall|i: int| 0 <= i < s.len() ==> is_dec_digit(s[i])
}

/// The value of a sequence of decimal digits, most significant first.
pub open spec fn digits_val(s: Seq<char>) -> int
    decreases s.len(),
{
    if s.len() == 0 {
        0
    } else {
        digits_val(s.drop_last()) * 10 + dec_digit_val(s.last())
    }
}

/// The digit portion of a port string: everything after an optional leading
/// plus sign, as the standard integer parser accepts it.
pub open spec fn port_digits(s: Seq<char>) -> Seq<char> {
    if s.len() > 0 && s[0] == '+' {
        s.drop_first()
    } else {
        s
    }
}

/// Whether `s` is a port number: an optional plus sign, then at least one
/// decimal digit, with a value that fits a sixteen-bit port.
pub open spec fn is_valid_port_str(s: Seq<char>) -> bool {
    let d = port_digits(s);
    &&& d.len() > 0
    &&& all_dec_digits(d)
    &&& digits_val(d) <= u16::MAX
}

/// The port a valid port string denotes.
pub open spec fn port_value(s: Seq<char>) -> int {
    digits_val(port_digits(s))
}

proof fn lemma_digits_val_nonneg(s: Seq<char>)
    requires
        all_dec_digits(s),
    ensures
        digits_val(s) >= 0,
    decreases s.len(),
{
    if s.len() > 0 {
        assert(all_dec_digits(s.drop_last()));
        lemma_digits_val_nonneg(s.drop_last());
    }
}

/// Appending one digit multiplies the value by ten and adds the digit.
proof fn lemma_digits_val_take_step(s: Seq<char>, j: int)
    requires
        0 <= j < s.len(),
    ensures
        digits_val(s.take(j + 1)) == digits_val(s.take(j)) * 10 + dec_digit_val(s[j]),
{
    assert(s.take(j + 1).drop_last() =~= s.take(j));
    assert(s.take(j + 1).last() == s[j]);
}

/// A prefix of a digit string never exceeds the whole string's value.
proof fn lemma_digits_val_prefix_le(s: Seq<char>, j: int)
    requires
        all_dec_digits(s),
        0 <= j <= s.len(),
    ensures
        digits_val(s.take(j)) <= digits_val(s),
    decreases s.len() - j,
{
    if j == s.len() {
        assert(s.take(j) =~= s);
    } else {
        lemma_digits_val_take_step(s, j);
        assert(all_dec_digits(s.take(j))) by {
            assert(forall|i: int| 0 <= i < j ==> s.take(j)[i] == s[i]);
        }
        lemma_digits_val_nonneg(s.take(j));
        lemma_digits_val_prefix_le(s, j + 1);
    }
}

/// Parses a port string exactly as the standard unsigned parser does: an
/// optional leading plus sign, then decimal digits, rejecting anything else
/// and any value over the largest port.
pub fn parse_port_str(s: &str) -> (r: Result<u16, ConfigError>)
    ensures
        r is Ok <==> is_valid_port_str(s@),
        r is Ok ==> r->Ok_0 == port_value(s@),
        r is Err ==> r->Err_0 == ConfigError::InvalidPort,
{
    let n = s.unicode_len();
    let start: usize = if n > 0 && s.get_char(0) == '+' {
        1
    } else {
        0
    };
    let ghost d = port_digits(s@);
    proof {
        assert(d.len() == n - start);
        assert(forall|k: int| 0 <= k < d.len() ==> d[k] == s@[k + start]);
    }
    if start >= n {
        return Err(ConfigError::InvalidPort);
    }
    let mut acc: u32 = 0;
    let mut i: usize = start;
    while i < n
        invariant
            start <= i <= n,
            start < n,
            n == s@.len(),
            d == port_digits(s@),
            d.len() == n - start,
            forall|k: int| 0 <= k < d.len() ==> d[k] == s@[k + start],
            forall|k: int| 0 <= k < i - start ==> is_dec_digit(d[k]),
            acc == digits_val(d.take(i - start)),
            acc <= u16::MAX,
        decreases n - i,
    {
        let c = s.get_char(i);
        let v = c as u32;
        if v < 48 || v > 57 {
            proof {
                assert(d[i - start] == c);
                assert(!is_dec_digit(c));
            }
            return Err(ConfigError::InvalidPort);
        }
        proof {
            assert(is_dec_digit(c));
            assert(dec_digit_val(c) == v - 48);
            lemma_digits_val_take_step(d, i - start);
        }
        acc = acc * 10 + (v - 48);
        if acc > u16::MAX as u32 {
            proof {
                if all_dec_digits(d) {
                    lemma_digits_val_prefix_le(d, i - start + 1);
                }
            }
            return Err(ConfigError::InvalidPort);
        }
        i += 1;
    }
    proof {
        assert(d.take(d.len() as int) =~= d);
        assert(all_dec_digits(d));
        assert(is_valid_port_str(s@));
    }
    Ok(acc as u16)
}

/// Reads the port from the optional port variable's value: absent means the
/// default port, a malformed value is startup-fatal.
pub fn port_from_env(port_var: &Option<String>) -> (r: Result<u16, ConfigError>)
    ensures
        port_var is None ==> r == Result::<u16, ConfigError>::Ok(DEFAULT_PORT),
        port_var is Some ==> (r is Ok <==> is_valid_port_str(port_var->0@)),
        port_var is Some && r is Ok ==> r->Ok_0 == port_value(port_var->0@),
        r is Err ==> r->Err_0 == ConfigError::InvalidPort,
{
    match port_var {
        None => Ok(DEFAULT_PORT),
        Some(s) => parse_port_str(s.as_str()),
    }
}

/// The immutable per-process configuration, assembled once at startup.
pub struct Config {
    /// The root directory whose contents are served.
    pub root: String,
    /// The TCP port to listen on.
    pub port: u16,
}

/// Assembles the configuration from the environment's values: the home
/// directory (required) and the port variable (optional). Any failure is
/// startup-fatal; the caller must abort rather than serve.
pub fn build_config(home_var: Option<String>, port_var: Option<String>) -> (r: Result<
    Config,
    ConfigError,
>)
    ensures
        r is Ok <==> home_var is Some && (port_var is None || is_valid_port_str(port_var->0@)),
        r is Err && r->Err_0 == ConfigError::MissingHome <==> home_var is None,
        home_var is Some ==> ((r is Err && r->Err_0 == ConfigError::InvalidPort) <==> (
        port_var is Some && !is_valid_port_str(port_var->0@))),
        r is Ok ==> {
            &&& r->Ok_0.root@ == home_var->0@ + root_suffix()
            &&& (port_var is None ==> r->Ok_0.port == DEFAULT_PORT)
            &&& (port_var is Some ==> r->Ok_0.port == port_value(port_var->0@))
        },
{
    let home = match home_var {
        None => {
            return Err(ConfigError::MissingHome);
        },
        Some(h) => h,
    };
    let port = match port_from_env(&port_var) {
        Err(e) => {
            return Err(e);
        },
        Ok(p) => p,
    };
    let root = resolve_root(home.as_str());
    Ok(Config { root, port })
}

} // verus!
