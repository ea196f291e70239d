//! The persisted credential document.
//!
//! A token record is stored as one JSON object with a fixed key order:
//! `{"accessToken":"...","tokenType":"...","refreshToken":"...",
//! "expiresIn":N,"expiresOn":"..."}`.  String values escape `"` and `\`
//! with a backslash; the lifetime is a bare decimal.  The store owns this
//! document exclusively, so the decoder accepts exactly this canonical
//! shape; anything else is a storage fault.  Decoding inverts encoding,
//! which is proved here: a saved record loads back with identical fields.

use vstd::prelude::*;
use vstd::string::*;

use crate::errors::AuthError;
use crate::redirect::{is_digit, lemma_run_end_bounds, lemma_run_end_exact, run_end};
use crate::token::{TokenRecord, TokenRecordView};

verus! {

/// How one character of a string value is written: `"` and `\` take a
/// leading backslash, everything else stands as itself.
pub open spec fn esc_char(c: char) -> Seq<char> {
    if c == '"' || c == '\\' {
        seq!['\\', c]
    } else {
        seq![c]
    }
}

/// A string value as written: each character escaped.
pub open spec fn esc(s: Seq<char>) -> Seq<char>
    decreases s.len(),
{
    if s.len() == 0 {
        Seq::empty()
    } else {
        esc_char(s[0]) + esc(s.drop_first())
    }
}

/// The decimal digit character of `d`.
pub open spec fn digit_char(d: int) -> char {
    if d == 0 {
        '0'
    } else if d == 1 {
        '1'
    } else if d == 2 {
        '2'
    } else if d == 3 {
        '3'
    } else if d == 4 {
        '4'
    } else if d == 5 {
        '5'
    } else if d == 6 {
        '6'
    } else if d == 7 {
        '7'
    } else if d == 8 {
        '8'
    } else {
        '9'
    }
}

/// The value of a decimal digit character.
pub open spec fn digit_val(c: char) -> int {
    c as u32 - 48
}

/// The decimal digits of `n`, most significant first.
pub open spec fn dec_digits(n: nat) -> Seq<char>
    decreases n,
{
    if n < 10 {
        seq![digit_char(n as int)]
    } else {
        dec_digits(n / 10) + seq![digit_char((n % 10) as int)]
    }
}

/// The number a digit sequence denotes.
pub open spec fn dec_val(s: Seq<char>) -> int
    decreases s.len(),
{
    if s.len() == 0 {
        0
    } else {
        dec_val(s.drop_last()) * 10 + digit_val(s.last())
    }
}

/// Does `lit` stand at index `i` of `s`?
pub open spec fn match_lit(s: Seq<char>, i: int, lit: Seq<char>) -> bool {
    &&& 0 <= i
    &&& i + lit.len() <= s.len()
    &&& s.subrange(i, i + lit.len()) == lit
}

/// Reads a string value from index `i` up to its unescaped closing quote:
/// the unescaped content and the index after the quote.  Nothing is read
/// when the value is unterminated or holds an invalid escape.
pub open spec fn scan_str(s: Seq<char>, i: int) -> Option<(Seq<char>, int)>
    decreases s.len() - i when 0 <= i <= s.len()
{
    if i == s.len() {
        None
    } else if s[i] == '"' {
        Some((Seq::empty(), i + 1))
    } else if s[i] == '\\' {
        if i + 1 < s.len() && (s[i + 1] == '"' || s[i + 1] == '\\') {
            match scan_str(s, i + 2) {
                Some(p) => Some((seq![s[i + 1]] + p.0, p.1)),
                None => None,
            }
        } else {
            None
        }
    } else {
        match scan_str(s, i + 1) {
            Some(p) => Some((seq![s[i]] + p.0, p.1)),
            None => None,
        }
    }
}

/// The document from the expiry key on.
pub open spec fn enc_from_expires_on(r: TokenRecordView) -> Seq<char> {
    ",\"expiresOn\":\""@ + esc(r.expires_on) + seq!['"'] + "}"@
}

/// The document from the lifetime key on.
pub open spec fn enc_from_expires_in(r: TokenRecordView) -> Seq<char> {
    ",\"expiresIn\":"@ + dec_digits(r.expires_in as nat) + enc_from_expires_on(r)
}

/// The document from the refresh-token key on.
pub open spec fn enc_from_refresh(r: TokenRecordView) -> Seq<char> {
    ",\"refreshToken\":\""@ + esc(r.refresh_token) + seq!['"'] + enc_from_expires_in(r)
}

/// The document from the token-type key on.
pub open spec fn enc_from_type(r: TokenRecordView) -> Seq<char> {
    ",\"tokenType\":\""@ + esc(r.token_type) + seq!['"'] + enc_from_refresh(r)
}

/// The whole document of a record.
pub open spec fn encode_spec(r: TokenRecordView) -> Seq<char> {
    "{\"accessToken\":\""@ + esc(r.access_token) + seq!['"'] + enc_from_type(r)
}

/// The record a document denotes, if it has exactly the canonical shape.
pub open spec fn decode_spec(s: Seq<char>) -> Option<TokenRecordView> {
    let d1 = "{\"accessToken\":\""@;
    let d2 = ",\"tokenType\":\""@;
    let d3 = ",\"refreshToken\":\""@;
    let d4 = ",\"expiresIn\":"@;
    let d5 = ",\"expiresOn\":\""@;
    let d6 = "}"@;
    if !match_lit(s, 0, d1) {
        None
    } else {
        match scan_str(s, d1.len() as int) {
            None => None,
            Some(p1) => if !match_lit(s, p1.1, d2) {
                None
            } else {
                match scan_str(s, p1.1 + d2.len()) {
                    None => None,
                    Some(p2) => if !match_lit(s, p2.1, d3) {
                        None
                    } else {
                        match scan_str(s, p2.1 + d3.len()) {
                            None => None,
                            Some(p3) => if !match_lit(s, p3.1, d4) {
                                None
                            } else {
                                let dstart = p3.1 + d4.len();
                                let dend = run_end(s, dstart);
                                if !(0 <= dstart <= s.len()) || dend == dstart || dec_val(
                                    s.subrange(dstart, dend),
                                ) > u64::MAX {
                                    None
                                } else {
                                    if !match_lit(s, dend, d5) {
                                        None
                                    } else {
                                        match scan_str(s, dend + d5.len()) {
                                            None => None,
                                            Some(p4) => if !(match_lit(s, p4.1, d6) && p4.1
                                                + d6.len() == s.len()) {
                                                None
                                            } else {
                                                Some(
                                                    TokenRecordView {
                                                        access_token: p1.0,
                                                        token_type: p2.0,
                                                        refresh_token: p3.0,
                                                        expires_in: dec_val(
                                                            s.subrange(dstart, dend),
                                                        ) as u64,
                                                        expires_on: p4.0,
                                                    },
                                                )
                                            },
                                        }
                                    }
                                }
                            },
                        }
                    },
                }
            },
        }
    }
}

/// Escaping distributes over concatenation.
pub proof fn lemma_esc_append(a: Seq<char>, b: Seq<char>)
    ensures
        esc(a + b) == esc(a) + esc(b),
    decreases a.len(),
{
    if a.len() == 0 {
        assert(a + b =~= b);
        assert(esc(a) + esc(b) =~= esc(b));
    } else {
        assert((a + b).drop_first() =~= a.drop_first() + b);
        assert((a + b)[0] == a[0]);
        lemma_esc_append(a.drop_first(), b);
        assert(esc(a + b) =~= esc(a) + esc(b));
    }
}

/// A digit character reads back as its digit.
proof fn lemma_digit_roundtrip(d: int)
    requires
        0 <= d <= 9,
    ensures
        is_digit(digit_char(d)),
        digit_val(digit_char(d)) == d,
{
    assert('0' as u32 == 48);
    assert('1' as u32 == 49);
    assert('2' as u32 == 50);
    assert('3' as u32 == 51);
    assert('4' as u32 == 52);
    assert('5' as u32 == 53);
    assert('6' as u32 == 54);
    assert('7' as u32 == 55);
    assert('8' as u32 == 56);
    assert('9' as u32 == 57);
}

/// Every character of a decimal rendering is a digit.
proof fn lemma_dec_digits_are_digits(n: nat)
    ensures
        dec_digits(n).len() >= 1,
        forall|k: int| 0 <= k < dec_digits(n).len() ==> is_digit(#[trigger] dec_digits(n)[k]),
    decreases n,
{
    if n < 10 {
        lemma_digit_roundtrip(n as int);
    } else {
        lemma_dec_digits_are_digits(n / 10);
        lemma_digit_roundtrip((n % 10) as int);
        assert forall|k: int| 0 <= k < dec_digits(n).len() implies is_digit(
            #[trigger] dec_digits(n)[k],
        ) by {
            if k < dec_digits(n / 10).len() {
                assert(dec_digits(n)[k] == dec_digits(n / 10)[k]);
            } else {
                assert(dec_digits(n)[k] == digit_char((n % 10) as int));
            }
        }
    }
}

/// Reading back the decimal rendering of `n` yields `n`.
proof fn lemma_dec_val_of_digits(n: nat)
    ensures
        dec_val(dec_digits(n)) == n,
    decreases n,
{
    if n < 10 {
        lemma_digit_roundtrip(n as int);
        let ds = dec_digits(n);
        assert(ds == seq![digit_char(n as int)]);
        assert(ds.drop_last() =~= Seq::<char>::empty());
        assert(dec_val(ds) == dec_val(ds.drop_last()) * 10 + digit_val(ds.last()));
        assert(dec_val(ds.drop_last()) == 0);
        assert(ds.last() == digit_char(n as int));
    } else {
        lemma_dec_val_of_digits(n / 10);
        lemma_digit_roundtrip((n % 10) as int);
        let ds = dec_digits(n);
        assert(ds == dec_digits(n / 10) + seq![digit_char((n % 10) as int)]);
        assert(ds.drop_last() =~= dec_digits(n / 10));
        assert(ds.last() == digit_char((n % 10) as int));
        assert(dec_val(ds) == dec_val(ds.drop_last()) * 10 + digit_val(ds.last()));
        assert(n == (n / 10) * 10 + n % 10) by {
            vstd::arithmetic::div_mod::lemma_fundamental_div_mod(n as int, 10);
        }
    }
}

/// Splits a known suffix: when everything from `i` on reads `a + b`, then
/// `a` stands at `i` and `b` at `i + a.len()`.
proof fn lemma_split_suffix(s: Seq<char>, i: int, a: Seq<char>, b: Seq<char>)
    requires
        0 <= i <= s.len(),
        s.subrange(i, s.len() as int) == a + b,
    ensures
        i + a.len() + b.len() == s.len(),
        s.subrange(i, i + a.len()) =~= a,
        s.subrange(i + a.len(), s.len() as int) =~= b,
        match_lit(s, i, a),
{
    assert(s.subrange(i, s.len() as int).len() == a.len() + b.len());
    assert forall|m: int| 0 <= m < a.len() implies s.subrange(i, i + a.len())[m] == a[m] by {
        assert(s.subrange(i, s.len() as int)[m] == (a + b)[m]);
    }
    assert forall|m: int| 0 <= m < b.len() implies s.subrange(
        i + a.len(),
        s.len() as int,
    )[m] == b[m] by {
        assert(s.subrange(i, s.len() as int)[a.len() + m] == (a + b)[a.len() + m]);
        assert(s.subrange(i, s.len() as int)[a.len() + m] == s[i + a.len() + m]);
        assert((a + b)[a.len() + m] == b[m]);
        assert(s.subrange(i + a.len(), s.len() as int)[m] == s[i + a.len() + m]);
    }
    assert(s.subrange(i, i + a.len()) =~= a);
    assert(s.subrange(i + a.len(), s.len() as int) =~= b);
    assert(s.subrange(i, i + a.len()) == a);
}

/// Scanning a written string value recovers it: when everything from `i`
/// on reads `esc(v)` then a quote then `rest`, the scan returns `v` and
/// stops right after the quote.
proof fn lemma_scan_esc(s: Seq<char>, i: int, v: Seq<char>, rest: Seq<char>)
    requires
        0 <= i <= s.len(),
        s.subrange(i, s.len() as int) == esc(v) + seq!['"'] + rest,
    ensures
        scan_str(s, i) == Some((v, i + esc(v).len() + 1)),
        i + esc(v).len() + 1 <= s.len(),
        s.subrange(i + esc(v).len() + 1, s.len() as int) =~= rest,
    decreases v.len(),
{
    assert(esc(v) + seq!['"'] + rest =~= esc(v) + (seq!['"'] + rest));
    lemma_split_suffix(s, i, esc(v), seq!['"'] + rest);
    if v.len() == 0 {
        assert(esc(v).len() == 0);
        assert(s.subrange(i, s.len() as int) =~= seq!['"'] + rest);
        lemma_split_suffix(s, i, seq!['"'], rest);
        assert(s.subrange(i, i + 1)[0] == s[i]);
        assert(s[i] == '"');
    } else {
        let c = v[0];
        let tail = v.drop_first();
        assert(esc(v) == esc_char(c) + esc(tail));
        assert(esc(v) + (seq!['"'] + rest) =~= esc_char(c) + (esc(tail) + seq!['"'] + rest));
        lemma_split_suffix(s, i, esc_char(c), esc(tail) + seq!['"'] + rest);
        lemma_scan_esc(s, i + esc_char(c).len(), tail, rest);
        assert(seq![c] + tail =~= v);
        if c == '"' || c == '\\' {
            assert(esc_char(c) == seq!['\\', c]);
            assert(s[i] == '\\');
            assert(s[i + 1] == c);
            assert(s[i] != '"');
        } else {
            assert(esc_char(c) == seq![c]);
            assert(s[i] == c);
        }
    }
}

/// The tail of the document that follows the lifetime digits begins with
/// a comma, so the digit run stops exactly there.
proof fn lemma_tail_after_digits(r: TokenRecordView)
    ensures
        enc_from_expires_on(r).len() > 0,
        enc_from_expires_on(r)[0] == ',',
{
    reveal_strlit(",\"expiresOn\":\"");
    let d5 = ",\"expiresOn\":\""@;
    assert(enc_from_expires_on(r)[0] == d5[0]);
}

/// One string field of the document: when everything from `i` on reads a
/// key literal, a written value with its closing quote, and a rest, then
/// the literal matches at `i`, scanning after it recovers the value, and
/// the rest follows.
proof fn lemma_field_step(s: Seq<char>, i: int, lit: Seq<char>, v: Seq<char>, rest: Seq<char>)
    requires
        0 <= i <= s.len(),
        s.subrange(i, s.len() as int) == lit + esc(v) + seq!['"'] + rest,
    ensures
        match_lit(s, i, lit),
        scan_str(s, i + lit.len()) == Some((v, i + lit.len() + esc(v).len() + 1)),
        i + lit.len() + esc(v).len() + 1 <= s.len(),
        s.subrange(i + lit.len() + esc(v).len() + 1, s.len() as int) =~= rest,
{
    assert(lit + esc(v) + seq!['"'] + rest =~= lit + (esc(v) + seq!['"'] + rest));
    lemma_split_suffix(s, i, lit, esc(v) + seq!['"'] + rest);
    lemma_scan_esc(s, i + lit.len(), v, rest);
}

/// The lifetime region: when everything from `i` on reads the key
/// literal, the decimal rendering of `n` and a rest that starts with a
/// comma, then the literal matches at `i`, the digit run after it ends
/// exactly at the rest and reads back as `n`, and the rest follows.
proof fn lemma_number_step(s: Seq<char>, i: int, lit: Seq<char>, n: nat, rest: Seq<char>)
    requires
        0 <= i <= s.len(),
        s.subrange(i, s.len() as int) == lit + dec_digits(n) + rest,
        rest.len() > 0,
        rest[0] == ',',
    ensures
        match_lit(s, i, lit),
        i + lit.len() < run_end(s, i + lit.len()),
        run_end(s, i + lit.len()) == i + lit.len() + dec_digits(n).len(),
        dec_val(s.subrange(i + lit.len(), i + lit.len() + dec_digits(n).len())) == n,
        s.subrange(i + lit.len() + dec_digits(n).len(), s.len() as int) =~= rest,
{
    assert(lit + dec_digits(n) + rest =~= lit + (dec_digits(n) + rest));
    lemma_split_suffix(s, i, lit, dec_digits(n) + rest);
    let p: int = i + lit.len();
    lemma_split_suffix(s, p, dec_digits(n), rest);
    lemma_dec_digits_are_digits(n);
    let j: int = p + dec_digits(n).len();
    assert(s.subrange(j, s.len() as int)[0] == s[j]);
    assert(s[j] == ',');
    assert(',' as u32 == 44);
    assert(!is_digit(','));
    assert forall|m: int| p <= m < j implies is_digit(s[m]) by {
        assert(s.subrange(p, j)[m - p] == s[m]);
        assert(s.subrange(p, j)[m - p] == dec_digits(n)[m - p]);
    }
    lemma_run_end_exact(s, p, j);
    lemma_dec_val_of_digits(n);
    assert(s.subrange(p, j) == dec_digits(n));
}

/// The closing brace: when everything from `i` on reads exactly `lit`,
/// the literal matches at `i` and ends the document.
proof fn lemma_final_lit(s: Seq<char>, i: int, lit: Seq<char>)
    requires
        0 <= i <= s.len(),
        s.subrange(i, s.len() as int) == lit,
    ensures
        match_lit(s, i, lit),
        i + lit.len() == s.len(),
{
    assert(s.subrange(i, s.len() as int) =~= lit + Seq::<char>::empty());
    lemma_split_suffix(s, i, lit, Seq::<char>::empty());
}

/// Evaluates the decoder once every structural fact about the document is
/// known: the decoded record is exactly the one the parts spell.
#[verifier::rlimit(100)]
proof fn lemma_decode_eval(
    s: Seq<char>,
    at: Seq<char>,
    tt: Seq<char>,
    rt: Seq<char>,
    ei: u64,
    eo: Seq<char>,
    j1: int,
    j2: int,
    j3: int,
    j4: int,
    j5: int,
)
    requires
        match_lit(s, 0, "{\"accessToken\":\""@),
        scan_str(s, "{\"accessToken\":\""@.len() as int) == Some((at, j1)),
        match_lit(s, j1, ",\"tokenType\":\""@),
        scan_str(s, j1 + ",\"tokenType\":\""@.len()) == Some((tt, j2)),
        match_lit(s, j2, ",\"refreshToken\":\""@),
        scan_str(s, j2 + ",\"refreshToken\":\""@.len()) == Some((rt, j3)),
        match_lit(s, j3, ",\"expiresIn\":"@),
        run_end(s, j3 + ",\"expiresIn\":"@.len()) == j4,
        j3 + ",\"expiresIn\":"@.len() < j4,
        dec_val(s.subrange(j3 + ",\"expiresIn\":"@.len(), j4)) == ei,
        match_lit(s, j4, ",\"expiresOn\":\""@),
        scan_str(s, j4 + ",\"expiresOn\":\""@.len()) == Some((eo, j5)),
        match_lit(s, j5, "}"@),
        j5 + "}"@.len() == s.len(),
    ensures
        decode_spec(s) == Some(
            TokenRecordView {
                access_token: at,
                token_type: tt,
                refresh_token: rt,
                expires_in: ei,
                expires_on: eo,
            },
        ),
{
    let dstart = j3 + ",\"expiresIn\":"@.len();
    assert(0 <= dstart <= s.len());
    assert(dec_val(s.subrange(dstart, j4)) <= u64::MAX);
}

/// Decoding inverts encoding: the canonical document of any record reads
/// back as exactly that record, field for field.
#[verifier::rlimit(100)]
pub proof fn lemma_decode_encode(r: TokenRecordView)
    ensures
        decode_spec(encode_spec(r)) == Some(r),
{
    let d1 = "{\"accessToken\":\""@;
    let d2 = ",\"tokenType\":\""@;
    let d3 = ",\"refreshToken\":\""@;
    let d4 = ",\"expiresIn\":"@;
    let d5 = ",\"expiresOn\":\""@;
    let d6 = "}"@;
    let a = esc(r.access_token);
    let t = esc(r.token_type);
    let f = esc(r.refresh_token);
    let n = dec_digits(r.expires_in as nat);
    let e = esc(r.expires_on);
    let s = encode_spec(r);

    assert(s.subrange(0, s.len() as int) =~= s);
    lemma_field_step(s, 0, d1, r.access_token, enc_from_type(r));
    let j1: int = d1.len() + a.len() as int + 1;

    lemma_field_step(s, j1, d2, r.token_type, enc_from_refresh(r));
    let j2: int = j1 + d2.len() + t.len() + 1;

    lemma_field_step(s, j2, d3, r.refresh_token, enc_from_expires_in(r));
    let j3: int = j2 + d3.len() + f.len() + 1;

    lemma_tail_after_digits(r);
    lemma_number_step(s, j3, d4, r.expires_in as nat, enc_from_expires_on(r));
    let j4: int = j3 + d4.len() + n.len();

    lemma_field_step(s, j4, d5, r.expires_on, d6);
    let j5: int = j4 + d5.len() + e.len() + 1;

    lemma_final_lit(s, j5, d6);

    lemma_decode_eval(
        s,
        r.access_token,
        r.token_type,
        r.refresh_token,
        r.expires_in,
        r.expires_on,
        j1,
        j2,
        j3,
        j4,
        j5,
    );
}

/// Relies on `String::push`: appends the one character to the string.
#[verifier::external_body]
fn push_char(s: &mut String, c: char)
    ensures
        final(s)@ == old(s)@.push(c),
{
    s.push(c);
}

/// Appends the written (escaped) form of `s` to `out`.
fn append_escaped(out: &mut String, s: &str)
    ensures
        final(out)@ == old(out)@ + esc(s@),
{
    let n = s.unicode_len();
    let mut k: usize = 0;
    while k < n
        invariant
            n == s@.len(),
            k <= n,
            out@ == old(out)@ + esc(s@.subrange(0, k as int)),
        decreases n - k,
    {
        let c = s.get_char(k);
        proof {
            let prefix = s@.subrange(0, k as int);
            lemma_esc_append(prefix, seq![c]);
            assert(s@.subrange(0, k + 1 as int) =~= prefix + seq![c]);
            assert(seq![c].drop_first() =~= Seq::<char>::empty());
            assert(esc(Seq::<char>::empty()) == Seq::<char>::empty());
            assert(seq![c][0] == c);
            assert(esc(seq![c]) =~= esc_char(c));
        }
        if c == '"' || c == '\\' {
            push_char(out, '\\');
            push_char(out, c);
            proof {
                assert(out@ =~= old(out)@ + esc(s@.subrange(0, k + 1 as int)));
            }
        } else {
            push_char(out, c);
            proof {
                assert(out@ =~= old(out)@ + esc(s@.subrange(0, k + 1 as int)));
            }
        }
        k += 1;
    }
    proof {
        assert(s@.subrange(0, n as int) =~= s@);
    }
}

/// Appends the decimal rendering of `v` to `out`.
fn append_u64(out: &mut String, v: u64)
    ensures
        final(out)@ == old(out)@ + dec_digits(v as nat),
    decreases v,
{
    if v >= 10 {
        append_u64(out, v / 10);
    }
    let d = (v % 10) as u8;
    let c = match d {
        0 => '0',
        1 => '1',
        2 => '2',
        3 => '3',
        4 => '4',
        5 => '5',
        6 => '6',
        7 => '7',
        8 => '8',
        _ => '9',
    };
    assert(c == digit_char((v % 10) as int));
    push_char(out, c);
    proof {
        if v < 10 {
            assert(dec_digits(v as nat) =~= seq![digit_char((v % 10) as int)]);
            assert(out@ =~= old(out)@ + dec_digits(v as nat));
        } else {
            assert(dec_digits(v as nat) == dec_digits((v / 10) as nat) + seq![
                digit_char((v % 10) as int),
            ]);
            assert(out@ =~= old(out)@ + dec_digits(v as nat));
        }
    }
}

/// Writes the record as its canonical persisted document.
pub fn encode_record(rec: &TokenRecord) -> (out: String)
    ensures
        out@ == encode_spec(rec@),
{
    let mut out = String::new();
    out.append("{\"accessToken\":\"");
    append_escaped(&mut out, rec.access_token.as_str());
    out.append("\"");
    out.append(",\"tokenType\":\"");
    append_escaped(&mut out, rec.token_type.as_str());
    out.append("\"");
    out.append(",\"refreshToken\":\"");
    append_escaped(&mut out, rec.refresh_token.as_str());
    out.append("\"");
    out.append(",\"expiresIn\":");
    append_u64(&mut out, rec.expires_in);
    out.append(",\"expiresOn\":\"");
    append_escaped(&mut out, rec.expires_on.as_str());
    out.append("\"");
    out.append("}");
    proof {
        reveal_strlit("\"");
        assert("\""@ =~= seq!['"']);
        assert(out@ =~= encode_spec(rec@));
    }
    out
}

/// The characters of `s`, for random access.
fn to_chars(s: &str) -> (v: Vec<char>)
    ensures
        v@ == s@,
{
    let n = s.unicode_len();
    let mut v: Vec<char> = Vec::new();
    let mut k: usize = 0;
    while k < n
        invariant
            n == s@.len(),
            k <= n,
            v@ == s@.subrange(0, k as int),
        decreases n - k,
    {
        v.push(s.get_char(k));
        k += 1;
    }
    assert(v@ =~= s@);
    v
}

/// Does `lit` stand at index `i` of `v`?
fn lit_at(v: &Vec<char>, i: usize, lit: &str) -> (r: bool)
    ensures
        r == match_lit(v@, i as int, lit@),
{
    let ll = lit.unicode_len();
    let n = v.len();
    if i > n || ll > n - i {
        return false;
    }
    let mut k: usize = 0;
    while k < ll
        invariant
            ll == lit@.len(),
            n == v@.len(),
            i + ll <= n,
            k <= ll,
            forall|m: int| 0 <= m < k ==> v@[i + m] == lit@[m],
        decreases ll - k,
    {
        if v[i + k] != lit.get_char(k) {
            proof {
                assert(v@.subrange(i as int, i + ll)[k as int] == v@[i + k]);
            }
            return false;
        }
        k += 1;
    }
    proof {
        assert(v@.subrange(i as int, i + ll) =~= lit@);
    }
    true
}

/// `o` with `p` put before its value.
pub open spec fn prepend_scan(p: Seq<char>, o: Option<(Seq<char>, int)>) -> Option<
    (Seq<char>, int),
> {
    match o {
        Some(q) => Some((p + q.0, q.1)),
        None => None,
    }
}

/// Reads a string value of `v` from `i` to its unescaped closing quote.
fn scan_str_exec(v: &Vec<char>, i: usize) -> (r: Option<(String, usize)>)
    requires
        i <= v@.len(),
    ensures
        match r {
            Some(p) => scan_str(v@, i as int) == Some((p.0@, p.1 as int)) && p.1 <= v@.len(),
            None => scan_str(v@, i as int) is None,
        },
{
    let n = v.len();
    let mut cur: usize = i;
    let mut out = String::new();
    loop
        invariant
            n == v@.len(),
            i <= cur <= n,
            scan_str(v@, i as int) == prepend_scan(out@, scan_str(v@, cur as int)),
        decreases n - cur,
    {
        if cur == n {
            return None;
        }
        let c = v[cur];
        if c == '"' {
            proof {
                assert(scan_str(v@, cur as int) == Some((Seq::<char>::empty(), cur + 1 as int)));
                assert(out@ + Seq::<char>::empty() =~= out@);
            }
            return Some((out, cur + 1));
        } else if c == '\\' {
            if cur + 1 < n && (v[cur + 1] == '"' || v[cur + 1] == '\\') {
                let d = v[cur + 1];
                proof {
                    let inner = scan_str(v@, cur + 2 as int);
                    assert(scan_str(v@, cur as int) == prepend_scan(seq![d], inner));
                    match inner {
                        Some(q) => {
                            assert(out@ + (seq![d] + q.0) =~= out@.push(d) + q.0);
                        },
                        None => {},
                    }
                }
                push_char(&mut out, d);
                cur = cur + 2;
            } else {
                return None;
            }
        } else {
            proof {
                let inner = scan_str(v@, cur + 1 as int);
                assert(scan_str(v@, cur as int) == prepend_scan(seq![c], inner));
                match inner {
                    Some(q) => {
                        assert(out@ + (seq![c] + q.0) =~= out@.push(c) + q.0);
                    },
                    None => {},
                }
            }
            push_char(&mut out, c);
            cur = cur + 1;
        }
    }
}

/// Skipping over digits does not move the end of the run.
proof fn lemma_run_end_skip(s: Seq<char>, i: int, k: int)
    requires
        0 <= i <= k <= s.len(),
        forall|m: int| i <= m < k ==> is_digit(s[m]),
    ensures
        run_end(s, i) == run_end(s, k),
    decreases k - i,
{
    if i < k {
        lemma_run_end_skip(s, i + 1, k);
    }
}

/// A longer digit run never denotes a smaller number.
proof fn lemma_dec_val_extend(s: Seq<char>, i: int, k: int, j: int)
    requires
        0 <= i <= k <= j <= s.len(),
        forall|m: int| i <= m < j ==> is_digit(s[m]),
    ensures
        dec_val(s.subrange(i, j)) >= dec_val(s.subrange(i, k)),
        dec_val(s.subrange(i, j)) >= 0,
    decreases j - k,
{
    if k == j {
        lemma_dec_val_nonneg(s, i, j);
    } else {
        lemma_dec_val_extend(s, i, k, j - 1);
        lemma_dec_val_nonneg(s, i, j - 1);
        assert(s.subrange(i, j).drop_last() =~= s.subrange(i, j - 1));
        assert(s.subrange(i, j).last() == s[j - 1]);
        assert(digit_val(s[j - 1]) >= 0);
        assert(dec_val(s.subrange(i, j)) == dec_val(s.subrange(i, j - 1)) * 10 + digit_val(
            s[j - 1],
        ));
    }
}

/// A digit run denotes a number, never something negative.
proof fn lemma_dec_val_nonneg(s: Seq<char>, i: int, j: int)
    requires
        0 <= i <= j <= s.len(),
        forall|m: int| i <= m < j ==> is_digit(s[m]),
    ensures
        dec_val(s.subrange(i, j)) >= 0,
    decreases j - i,
{
    if i < j {
        lemma_dec_val_nonneg(s, i, j - 1);
        assert(s.subrange(i, j).drop_last() =~= s.subrange(i, j - 1));
        assert(s.subrange(i, j).last() == s[j - 1]);
    }
}

/// Reads the digit run of `v` that starts at `i`: its value and its end.
/// Nothing is read when no digit stands at `i` or the value does not fit.
fn scan_u64_exec(v: &Vec<char>, i: usize) -> (r: Option<(u64, usize)>)
    requires
        i <= v@.len(),
    ensures
        match r {
            Some(p) => {
                &&& p.1 as int == run_end(v@, i as int)
                &&& i < p.1
                &&& p.0 == dec_val(v@.subrange(i as int, p.1 as int))
            },
            None => run_end(v@, i as int) == i || dec_val(
                v@.subrange(i as int, run_end(v@, i as int)),
            ) > u64::MAX,
        },
{
    let n = v.len();
    let mut k: usize = i;
    let mut val: u64 = 0;
    if k == n || !((v[k] as u32) >= 48 && (v[k] as u32) <= 57) {
        assert(run_end(v@, i as int) == i as int);
        return None;
    }
    while k < n && (v[k] as u32) >= 48 && (v[k] as u32) <= 57
        invariant
            n == v@.len(),
            i <= k <= n,
            forall|m: int| i <= m < k ==> is_digit(v@[m]),
            val == dec_val(v@.subrange(i as int, k as int)),
        decreases n - k,
    {
        let d = ((v[k] as u32) - 48) as u64;
        proof {
            lemma_run_end_bounds(v@, k as int);
        }
        if val > (u64::MAX - d) / 10 {
            proof {
                let ghost j = run_end(v@, i as int);
                assert(val * 10 + d > u64::MAX) by (nonlinear_arith)
                    requires
                        val > (u64::MAX - d) / 10,
                        d <= 9,
                        (u64::MAX - d) / 10 >= 0,
                ;
                assert(v@.subrange(i as int, k + 1 as int).drop_last() =~= v@.subrange(
                    i as int,
                    k as int,
                ));
                assert(v@.subrange(i as int, k + 1 as int).last() == v@[k as int]);
                assert(dec_val(v@.subrange(i as int, k + 1 as int)) == val * 10 + d);
                lemma_run_end_bounds(v@, i as int);
                lemma_run_end_skip(v@, i as int, k + 1);
                lemma_run_end_bounds(v@, k + 1);
                assert(j >= k + 1);
                lemma_dec_val_extend(v@, i as int, k + 1, j);
            }
            return None;
        }
        proof {
            assert(v@.subrange(i as int, k + 1 as int).drop_last() =~= v@.subrange(
                i as int,
                k as int,
            ));
            assert(v@.subrange(i as int, k + 1 as int).last() == v@[k as int]);
            assert((val * 10 + d) as int == dec_val(v@.subrange(i as int, k + 1 as int)));
        }
        val = val * 10 + d;
        k += 1;
    }
    proof {
        lemma_run_end_exact(v@, i as int, k as int);
    }
    Some((val, k))
}

/// Reads a persisted credential document back into a record.
///
/// Exactly the canonical shape written by [`encode_record`] is accepted;
/// anything else is a storage fault, distinct from the file being absent.
#[verifier::rlimit(100)]
pub fn decode_record(s: &str) -> (r: Result<TokenRecord, AuthError>)
    ensures
        match r {
            Ok(rec) => decode_spec(s@) == Some(rec@),
            Err(e) => e == AuthError::StorageError && decode_spec(s@) is None,
        },
{
    let v = to_chars(s);
    let n = v.len();
    if !lit_at(&v, 0, "{\"accessToken\":\"") {
        return Err(AuthError::StorageError);
    }
    let l1 = "{\"accessToken\":\"".unicode_len();
    let p1 = scan_str_exec(&v, l1);
    if p1.is_none() {
        return Err(AuthError::StorageError);
    }
    let (access_token, j1) = p1.unwrap();

    if !lit_at(&v, j1, ",\"tokenType\":\"") {
        return Err(AuthError::StorageError);
    }
    let l2 = ",\"tokenType\":\"".unicode_len();
    let p2 = scan_str_exec(&v, j1 + l2);
    if p2.is_none() {
        return Err(AuthError::StorageError);
    }
    let (token_type, j2) = p2.unwrap();

    if !lit_at(&v, j2, ",\"refreshToken\":\"") {
        return Err(AuthError::StorageError);
    }
    let l3 = ",\"refreshToken\":\"".unicode_len();
    let p3 = scan_str_exec(&v, j2 + l3);
    if p3.is_none() {
        return Err(AuthError::StorageError);
    }
    let (refresh_token, j3) = p3.unwrap();

    if !lit_at(&v, j3, ",\"expiresIn\":") {
        return Err(AuthError::StorageError);
    }
    let l4 = ",\"expiresIn\":".unicode_len();
    let pn = scan_u64_exec(&v, j3 + l4);
    if pn.is_none() {
        return Err(AuthError::StorageError);
    }
    let (expires_in, j4) = pn.unwrap();

    if !lit_at(&v, j4, ",\"expiresOn\":\"") {
        return Err(AuthError::StorageError);
    }
    let l5 = ",\"expiresOn\":\"".unicode_len();
    let p4 = scan_str_exec(&v, j4 + l5);
    if p4.is_none() {
        return Err(AuthError::StorageError);
    }
    let (expires_on, j5) = p4.unwrap();

    if !lit_at(&v, j5, "}") {
        return Err(AuthError::StorageError);
    }
    let l6 = "}".unicode_len();
    if j5 + l6 != n {
        return Err(AuthError::StorageError);
    }

    let rec = TokenRecord { access_token, token_type, refresh_token, expires_in, expires_on };
    proof {
        lemma_decode_eval(
            s@,
            rec.access_token@,
            rec.token_type@,
            rec.refresh_token@,
            rec.expires_in,
            rec.expires_on@,
            j1 as int,
            j2 as int,
            j3 as int,
            j4 as int,
            j5 as int,
        );
    }
    Ok(rec)
}

} // verus!
