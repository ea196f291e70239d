//! Extracting the authorization code and state token from the raw
//! path+query string that the loopback listener captured.
//!
//! The identity provider redirects the browser to a URL whose query holds,
//! by convention, three `key=value` assignments in a fixed order: the
//! authorization code, the state token, and a session-context parameter.
//! The parser collects every assignment's value, left to right, and accepts
//! the callback only when exactly three are present.

use vstd::prelude::*;
use vstd::string::*;

use crate::errors::AuthError;

verus! {

/// The end of the value that starts at `i`: the first index `j >= i` where
/// the sequence ends or an `&` stands.
pub open spec fn value_end(s: Seq<char>, i: int) -> int
    decreases s.len() - i when 0 <= i <= s.len()
{
    if i == s.len() {
        i
    } else if s[i] == '&' {
        i
    } else {
        value_end(s, i + 1)
    }
}

proof fn lemma_value_end_bounds(s: Seq<char>, i: int)
    requires
        0 <= i <= s.len(),
    ensures
        i <= value_end(s, i) <= s.len(),
    decreases s.len() - i,
{
    if i < s.len() && s[i] != '&' {
        lemma_value_end_bounds(s, i + 1);
    }
}

/// A value run over `[i, j)` free of `&`, closed by an `&` or the end, ends
/// exactly at `j`.
pub(crate) proof fn lemma_value_end_exact(s: Seq<char>, i: int, j: int)
    requires
        0 <= i <= j <= s.len(),
        forall|m: int| i <= m < j ==> s[m] != '&',
        j < s.len() ==> s[j] == '&',
    ensures
        value_end(s, i) == j,
    decreases j - i,
{
    if i < j {
        lemma_value_end_exact(s, i + 1, j);
    }
}

/// Every assignment value in `s` from position `i` on, in left-to-right
/// order.  An assignment is a `=` followed by at least one character other
/// than `&`; its value runs to the next `&` or to the end of the string.
pub open spec fn assignment_values(s: Seq<char>, i: int) -> Seq<Seq<char>>
    decreases s.len() - i when 0 <= i <= s.len()
    via assignment_values_decreases
{
    if i >= s.len() {
        Seq::empty()
    } else if s[i] == '=' && i + 1 < s.len() && s[i + 1] != '&' {
        seq![s.subrange(i + 1, value_end(s, i + 1))] + assignment_values(
            s,
            value_end(s, i + 1),
        )
    } else {
        assignment_values(s, i + 1)
    }
}

#[via_fn]
proof fn assignment_values_decreases(s: Seq<char>, i: int) {
    if 0 <= i < s.len() && s[i] == '=' && i + 1 < s.len() && s[i + 1] != '&' {
        lemma_value_end_bounds(s, i + 2);
        assert(value_end(s, i + 1) == value_end(s, i + 2));
    }
}

/// Each collected value is non-empty.
pub proof fn lemma_assignment_values_nonempty(s: Seq<char>, i: int, k: int)
    requires
        0 <= i <= s.len(),
        0 <= k < assignment_values(s, i).len(),
    ensures
        assignment_values(s, i)[k].len() > 0,
    decreases s.len() - i,
{
    if i < s.len() {
        if s[i] == '=' && i + 1 < s.len() && s[i + 1] != '&' {
            lemma_value_end_bounds(s, i + 2);
            let j = value_end(s, i + 1);
            assert(value_end(s, i + 1) == value_end(s, i + 2));
            assert(j >= i + 2);
            if k > 0 {
                lemma_assignment_values_nonempty(s, j, k - 1);
            }
        } else {
            lemma_assignment_values_nonempty(s, i + 1, k);
        }
    }
}

/// The authorization code and state token captured from a callback.
///
/// Both fields are non-empty; a callback from which they cannot both be
/// extracted fails to parse.
#[derive(Debug, Clone, PartialEq, Eq)]
pub struct AuthCode {
    pub code: String,
    pub state: String,
}

/// Collects every assignment value of `s`, left to right.
fn collect_values(s: &str) -> (r: Vec<String>)
    ensures
        r@.len() == assignment_values(s@, 0).len(),
        forall|k: int|
            0 <= k < r@.len() ==> r@[k]@ == assignment_values(s@, 0)[k],
{
    let n = s.unicode_len();
    let mut v: Vec<char> = Vec::new();
    let mut k: usize = 0;
    while k < n
        invariant
            n == s@.len(),
            k <= n,
            v@ == s@.subrange(0, k as int),
        decreases n - k,
    {
        v.push(s.get_char(k));
        k += 1;
    }
    assert(v@ =~= s@);

    let mut vals: Vec<String> = Vec::new();
    let mut i: usize = 0;
    while i < n
        invariant
            n == s@.len(),
            v@ == s@,
            i <= n,
            assignment_values(s@, 0) =~= vals@.map_values(|x: String| x@) + assignment_values(
                s@,
                i as int,
            ),
        decreases n - i,
    {
        if v[i] == '=' && i + 1 < n && v[i + 1] != '&' {
            let mut j: usize = i + 1;
            while j < n && v[j] != '&'
                invariant
                    n == s@.len(),
                    v@ == s@,
                    i + 1 <= j <= n,
                    forall|m: int| i + 1 <= m < j ==> s@[m] != '&',
                decreases n - j,
            {
                j += 1;
            }
            proof {
                lemma_value_end_exact(s@, i + 1, j as int);
            }
            let piece = String::from_str(s.substring_char(i + 1, j));
            let ghost old_vals = vals@;
            vals.push(piece);
            proof {
                assert(vals@.map_values(|x: String| x@) =~= old_vals.map_values(
                    |x: String| x@,
                ).push(piece@));
                assert(assignment_values(s@, i as int) == seq![
                    s@.subrange(i + 1, j as int),
                ] + assignment_values(s@, j as int));
            }
            i = j;
        } else {
            proof {
                assert(assignment_values(s@, i as int) == assignment_values(s@, i + 1));
            }
            i += 1;
        }
    }
    vals
}

/// Parses the raw path+query string returned by the loopback listener.
///
/// Exactly three assignments must be present; the first value becomes the
/// authorization code and the second the state token.  Any other count
/// fails with [`AuthError::InvalidCallback`].
pub fn parse_callback(s: &str) -> (r: Result<AuthCode, AuthError>)
    ensures
        match r {
            Ok(a) => {
                &&& assignment_values(s@, 0).len() == 3
                &&& a.code@ == assignment_values(s@, 0)[0]
                &&& a.state@ == assignment_values(s@, 0)[1]
                &&& a.code@.len() > 0
                &&& a.state@.len() > 0
            },
            Err(e) => e == AuthError::InvalidCallback && assignment_values(s@, 0).len() != 3,
        },
{
    let mut vals = collect_values(s);
    if vals.len() != 3 {
        return Err(AuthError::InvalidCallback);
    }
    proof {
        lemma_assignment_values_nonempty(s@, 0, 0);
        lemma_assignment_values_nonempty(s@, 0, 1);
    }
    let state = vals.remove(1);
    let code = vals.remove(0);
    Ok(AuthCode { code, state })
}

} // verus!
