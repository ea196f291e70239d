//! Deriving the loopback TCP port from a configured redirect URL.
//!
//! A redirect URL has the shape `scheme://host:port/path`.  The port is the
//! decimal digit run standing between the last `:` that is followed by at
//! least one digit and a `/`, and that closing `/`.  A URL without such a
//! `:digits/` pattern yields [`AuthError::ConfigError`].

use vstd::prelude::*;
use vstd::string::*;

use crate::errors::AuthError;

verus! {

/// Is `c` a decimal digit?
pub open spec fn is_digit(c: char) -> bool {
    48 <= c as u32 && c as u32 <= 57
}

/// The end of the digit run that starts at `i`: the first index `j >= i`
/// where the sequence ends or a non-digit stands.
pub open spec fn run_end(s: Seq<char>, i: int) -> int
    decreases s.len() - i when 0 <= i <= s.len()
{
    if i == s.len() {
        i
    } else if is_digit(s[i]) {
        run_end(s, i + 1)
    } else {
        i
    }
}

/// Does the pattern `:digits/` (with at least one digit) start at index `i`?
pub open spec fn port_match_at(s: Seq<char>, i: int) -> bool {
    &&& 0 <= i < s.len()
    &&& s[i] == ':'
    &&& i + 1 < run_end(s, i + 1)
    &&& run_end(s, i + 1) < s.len()
    &&& s[run_end(s, i + 1)] == '/'
}

/// The largest `j <= i` where the port pattern matches, if any.
pub open spec fn last_match_from(s: Seq<char>, i: int) -> Option<int>
    decreases i + 1 when -1 <= i
{
    if i < 0 {
        None
    } else if port_match_at(s, i) {
        Some(i)
    } else {
        last_match_from(s, i - 1)
    }
}

/// The port component of `s`: the digit run of the last `:digits/` match.
pub open spec fn port_of(s: Seq<char>) -> Option<Seq<char>> {
    match last_match_from(s, s.len() - 1) {
        Some(i) => Some(s.subrange(i + 1, run_end(s, i + 1))),
        None => None,
    }
}

pub(crate) proof fn lemma_run_end_bounds(s: Seq<char>, i: int)
    requires
        0 <= i <= s.len(),
    ensures
        i <= run_end(s, i) <= s.len(),
        forall|m: int| i <= m < run_end(s, i) ==> is_digit(s[m]),
        run_end(s, i) < s.len() ==> !is_digit(s[run_end(s, i)]),
    decreases s.len() - i,
{
    if i < s.len() && is_digit(s[i]) {
        lemma_run_end_bounds(s, i + 1);
    }
}

/// A run of digits over `[i, j)` with a non-digit (or the end) at `j` ends
/// exactly at `j`.
pub(crate) proof fn lemma_run_end_exact(s: Seq<char>, i: int, j: int)
    requires
        0 <= i <= j <= s.len(),
        forall|m: int| i <= m < j ==> is_digit(s[m]),
        j < s.len() ==> !is_digit(s[j]),
    ensures
        run_end(s, i) == j,
    decreases j - i,
{
    if i < j {
        assert(is_digit(s[i]));
        lemma_run_end_exact(s, i + 1, j);
    }
}

/// If no index in `(k, i]` matches, the search below `i` equals the search
/// below `k`.
proof fn lemma_last_match_skip(s: Seq<char>, i: int, k: int)
    requires
        -1 <= k <= i,
        forall|m: int| k < m <= i ==> !port_match_at(s, m),
    ensures
        last_match_from(s, i) == last_match_from(s, k),
    decreases i - k,
{
    if k < i {
        lemma_last_match_skip(s, i - 1, k);
    }
}

/// Extracts the decimal port from a redirect URL of the shape
/// `scheme://host:port/path`.
///
/// Returns the digit run of the last `:digits/` pattern in `url`, as a
/// string; a URL lacking any such pattern is rejected with
/// [`AuthError::ConfigError`].
pub fn extract_port(url: &str) -> (r: Result<String, AuthError>)
    ensures
        match r {
            Ok(p) => port_of(url@) == Some(p@),
            Err(e) => e == AuthError::ConfigError && port_of(url@) is None,
        },
{
    let n = url.unicode_len();
    // A local copy of the characters, for random access.
    let mut v: Vec<char> = Vec::new();
    let mut k: usize = 0;
    while k < n
        invariant
            n == url@.len(),
            k <= n,
            v@ == url@.subrange(0, k as int),
        decreases n - k,
    {
        v.push(url.get_char(k));
        k += 1;
    }
    assert(v@ =~= url@);

    let mut i: usize = n;
    while i > 0
        invariant
            n == url@.len(),
            v@ == url@,
            i <= n,
            forall|m: int| i <= m < n ==> !port_match_at(url@, m),
        decreases i,
    {
        i -= 1;
        if v[i] == ':' {
            // Measure the digit run that follows the colon.
            let mut j: usize = i + 1;
            while j < n && (v[j] as u32) >= 48 && (v[j] as u32) <= 57
                invariant
                    n == url@.len(),
                    v@ == url@,
                    i + 1 <= j <= n,
                    forall|m: int| i + 1 <= m < j ==> is_digit(url@[m]),
                decreases n - j,
            {
                j += 1;
            }
            proof {
                lemma_run_end_exact(url@, i + 1, j as int);
            }
            if j > i + 1 && j < n && v[j] == '/' {
                assert(port_match_at(url@, i as int));
                proof {
                    lemma_last_match_skip(url@, n as int - 1, i as int);
                }
                let p = url.substring_char(i + 1, j);
                let port = String::from_str(p);
                assert(port@ == url@.subrange(i + 1, run_end(url@, i + 1)));
                return Ok(port);
            }
            assert(!port_match_at(url@, i as int));
        } else {
            assert(!port_match_at(url@, i as int));
        }
    }
    proof {
        lemma_last_match_skip(url@, n as int - 1, -1);
    }
    Err(AuthError::ConfigError)
}

/// For a redirect URL assembled as `scheme://host:digits/path` where the
/// scheme, host and path hold no `:`, the extracted port is exactly that
/// digit run.
pub proof fn lemma_port_of_wellformed_url(
    scheme: Seq<char>,
    host: Seq<char>,
    digits: Seq<char>,
    path: Seq<char>,
)
    requires
        digits.len() > 0,
        forall|m: int| 0 <= m < digits.len() ==> is_digit(digits[m]),
        forall|m: int| 0 <= m < scheme.len() ==> scheme[m] != ':',
        forall|m: int| 0 <= m < host.len() ==> host[m] != ':',
        forall|m: int| 0 <= m < path.len() ==> path[m] != ':',
    ensures
        port_of(scheme + seq![':', '/', '/'] + host + seq![':'] + digits + seq!['/'] + path)
            == Some(digits),
{
    let s = scheme + seq![':', '/', '/'] + host + seq![':'] + digits + seq!['/'] + path;
    let c: int = scheme.len() + 3 + host.len() as int;
    assert(s.len() == scheme.len() + 3 + host.len() + 1 + digits.len() + 1 + path.len());
    assert(':' as u32 == 58);
    assert('/' as u32 == 47);
    assert(s[c] == ':');
    assert forall|m: int| c + 1 <= m < c + 1 + digits.len() implies is_digit(s[m]) by {
        assert(s[m] == digits[m - (c + 1)]);
    }
    assert(s[c + 1 + digits.len()] == '/');
    assert(!is_digit('/'));
    lemma_run_end_exact(s, c + 1, c + 1 + digits.len());
    assert(port_match_at(s, c));
    assert forall|m: int| c < m < s.len() implies !port_match_at(s, m) by {
        if c < m < c + 1 + digits.len() {
            assert(s[m] == digits[m - (c + 1)]);
            assert(is_digit(s[m]));
            assert(s[m] != ':');
        } else if m == c + 1 + digits.len() {
            assert(s[m] == '/');
            assert(s[m] != ':');
        } else {
            assert(s[m] == path[m - (c + 2 + digits.len())]);
        }
    }
    lemma_last_match_skip(s, s.len() - 1, c);
    assert(last_match_from(s, c) == Some(c));
    assert(s.subrange(c + 1, c + 1 + digits.len()) =~= digits);
}

} // verus!
