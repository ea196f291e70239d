//! Pure helpers of the audit-item menus.
//!
//! The menus themselves are interactive request/response plumbing and live
//! with the I/O shell; what stands here is the part worth stating exactly:
//! which directory object types may be added to the audit list, how the
//! short object identifier is cut out of a colon-separated id, and which
//! ids a multi-selection picks.

use vstd::prelude::*;
use vstd::string::*;

verus! {

/// Character-for-character string equality.
pub fn str_eq(a: &str, b: &str) -> (r: bool)
    ensures
        r == (a@ == b@),
{
    let na = a.unicode_len();
    let nb = b.unicode_len();
    if na != nb {
        proof {
            assert(a@ != b@);
        }
        return false;
    }
    let mut k: usize = 0;
    while k < na
        invariant
            na == a@.len(),
            na == b@.len(),
            k <= na,
            forall|m: int| 0 <= m < k ==> a@[m] == b@[m],
        decreases na - k,
    {
        if a.get_char(k) != b.get_char(k) {
            return false;
        }
        k += 1;
    }
    proof {
        assert(a@ =~= b@);
    }
    true
}

/// May a directory object of this type be audited as a user?
pub fn is_supported_user_type(t: &str) -> (r: bool)
    ensures
        r == (t@ == "User"@ || t@ == "Shared"@ || t@ == "Public"@),
{
    str_eq(t, "User") || str_eq(t, "Shared") || str_eq(t, "Public")
}

/// May a directory object of this type be audited as a group?
pub fn is_supported_group_type(t: &str) -> (r: bool)
    ensures
        r == (t@ == "Office365"@ || t@ == "Security"@ || t@ == "Distribution"@ || t@
            == "DynamicDistribution"@),
{
    str_eq(t, "Office365") || str_eq(t, "Security") || str_eq(t, "Distribution") || str_eq(
        t,
        "DynamicDistribution",
    )
}

/// The end of the colon-free run that starts at `i`.
pub open spec fn field_end(s: Seq<char>, i: int) -> int
    decreases s.len() - i when 0 <= i <= s.len()
{
    if i == s.len() {
        i
    } else if s[i] == ':' {
        i
    } else {
        field_end(s, i + 1)
    }
}

pub(crate) proof fn lemma_field_end_bounds(s: Seq<char>, i: int)
    requires
        0 <= i <= s.len(),
    ensures
        i <= field_end(s, i) <= s.len(),
    decreases s.len() - i,
{
    if i < s.len() && s[i] != ':' {
        lemma_field_end_bounds(s, i + 1);
    }
}

pub(crate) proof fn lemma_field_end_exact(s: Seq<char>, i: int, j: int)
    requires
        0 <= i <= j <= s.len(),
        forall|m: int| i <= m < j ==> s[m] != ':',
        j < s.len() ==> s[j] == ':',
    ensures
        field_end(s, i) == j,
    decreases j - i,
{
    if i < j {
        lemma_field_end_exact(s, i + 1, j);
    }
}

/// The colon-separated fields of `s` from position `i` on.
pub open spec fn fields_from(s: Seq<char>, i: int) -> Seq<Seq<char>>
    decreases s.len() - i when 0 <= i <= s.len()
    via fields_from_decreases
{
    let j = field_end(s, i);
    if j == s.len() {
        seq![s.subrange(i, j)]
    } else {
        seq![s.subrange(i, j)] + fields_from(s, j + 1)
    }
}

#[via_fn]
proof fn fields_from_decreases(s: Seq<char>, i: int) {
    if 0 <= i <= s.len() {
        lemma_field_end_bounds(s, i);
    }
}

/// Splits `s` at every colon, as the audit id format asks.
pub fn split_colon(s: &str) -> (r: Vec<String>)
    ensures
        r@.len() == fields_from(s@, 0).len(),
        forall|k: int| 0 <= k < r@.len() ==> r@[k]@ == fields_from(s@, 0)[k],
{
    let n = s.unicode_len();
    let mut v: Vec<char> = Vec::new();
    let mut k: usize = 0;
    while k < n
        invariant
            n == s@.len(),
            k <= n,
            v@ == s@.subrange(0, k as int),
        decreases n - k,
    {
        v.push(s.get_char(k));
        k += 1;
    }
    assert(v@ =~= s@);

    let mut out: Vec<String> = Vec::new();
    let mut i: usize = 0;
    loop
        invariant
            n == s@.len(),
            v@ == s@,
            i <= n,
            fields_from(s@, 0) =~= out@.map_values(|x: String| x@) + fields_from(s@, i as int),
        decreases n - i,
    {
        let mut j: usize = i;
        while j < n && v[j] != ':'
            invariant
                n == s@.len(),
                v@ == s@,
                i <= j <= n,
                forall|m: int| i <= m < j ==> s@[m] != ':',
            decreases n - j,
        {
            j += 1;
        }
        proof {
            lemma_field_end_exact(s@, i as int, j as int);
        }
        let piece = String::from_str(s.substring_char(i, j));
        let ghost old_out = out@;
        out.push(piece);
        proof {
            assert(out@.map_values(|x: String| x@) =~= old_out.map_values(
                |x: String| x@,
            ).push(piece@));
        }
        if j == n {
            return out;
        }
        i = j + 1;
    }
}

/// Is `x` one of the values of `v`?
fn contains_index(v: &Vec<usize>, x: usize) -> (r: bool)
    ensures
        r == v@.contains(x),
{
    let n = v.len();
    let mut k: usize = 0;
    while k < n
        invariant
            n == v@.len(),
            k <= n,
            forall|m: int| 0 <= m < k ==> v@[m] != x,
        decreases n - k,
    {
        if v[k] == x {
            assert(v@.contains(x));
            return true;
        }
        k += 1;
    }
    assert(!v@.contains(x));
    false
}

/// The ids a selection picks: for each position of `ids`, in order, the id
/// standing there when the position is marked and an id is present.
pub open spec fn picked_ids(ids: Seq<Option<String>>, marked: Seq<usize>, i: int) -> Seq<
    Seq<char>,
>
    decreases ids.len() - i when 0 <= i <= ids.len()
{
    if i >= ids.len() {
        Seq::empty()
    } else {
        let rest = picked_ids(ids, marked, i + 1);
        match ids[i] {
            Some(id) => if marked.contains(i as usize) {
                seq![id@] + rest
            } else {
                rest
            },
            None => rest,
        }
    }
}

/// Collects the ids at the marked positions, in position order, skipping
/// positions that hold no id.
pub fn select_marked_ids(ids: &Vec<Option<String>>, marked: &Vec<usize>) -> (r: Vec<String>)
    ensures
        r@.len() == picked_ids(ids@, marked@, 0).len(),
        forall|k: int| 0 <= k < r@.len() ==> r@[k]@ == picked_ids(ids@, marked@, 0)[k],
{
    let n = ids.len();
    let mut out: Vec<String> = Vec::new();
    let mut i: usize = 0;
    while i < n
        invariant
            n == ids@.len(),
            i <= n,
            picked_ids(ids@, marked@, 0) =~= out@.map_values(|x: String| x@) + picked_ids(
                ids@,
                marked@,
                i as int,
            ),
        decreases n - i,
    {
        if let Some(id) = &ids[i] {
            if contains_index(marked, i) {
                let ghost old_out = out@;
                out.push(id.clone());
                proof {
                    assert(out@.map_values(|x: String| x@) =~= old_out.map_values(
                        |x: String| x@,
                    ).push(id@));
                }
            }
        }
        i += 1;
    }
    out
}

/// The short object identifier: the fourth colon-separated field of the
/// remote object id, when the id has that many fields.
pub fn short_object_id(id: &str) -> (r: Option<String>)
    ensures
        match r {
            Some(p) => fields_from(id@, 0).len() > 3 && p@ == fields_from(id@, 0)[3],
            None => fields_from(id@, 0).len() <= 3,
        },
{
    let fields = split_colon(id);
    if fields.len() > 3 {
        let mut fields = fields;
        let p = fields.remove(3);
        Some(p)
    } else {
        None
    }
}

} // verus!
