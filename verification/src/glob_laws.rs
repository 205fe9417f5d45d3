//! Laws of the two glob matchers: what `*` and literal patterns match, and
//! that the catalog matcher ignores ASCII case and, on ASCII text, agrees
//! with the case-sensitive matcher on lower-cased text.
use vstd::prelude::*;
use crate::glob::{glob_from, glob_spec};
use crate::billing_rate_store::{ascii_lower, glob_ci_from, glob_ci_spec};
use vstd::utf8::{encode_scalar, encode_utf8, is_ascii_chars, is_ascii_chars_encode_utf8, leading_byte_width_1};

verus! {

/// A lone `*` matches every value, the empty one included.
pub proof fn law_star_matches_everything(v: Seq<char>)
    ensures
        glob_spec(seq!['*'], v),
{
    lemma_star_matches_from(seq!['*'], v, 0);
}

proof fn lemma_star_matches_from(p: Seq<char>, v: Seq<char>, j: int)
    requires
        p == seq!['*'],
        0 <= j <= v.len(),
    ensures
        glob_from(p, v, 0, j),
    decreases v.len() - j,
{
    if j < v.len() {
        lemma_star_matches_from(p, v, j + 1);
    } else {
        assert(glob_from(p, v, 1, j));
    }
}

/// A pattern with neither `*` nor `?` matches exactly the value equal to it.
pub proof fn law_literal_pattern_matches_only_itself(p: Seq<char>, v: Seq<char>)
    requires
        forall|t: int| 0 <= t < p.len() ==> #[trigger] p[t] != '*' && p[t] != '?',
    ensures
        glob_spec(p, v) <==> p == v,
{
    lemma_literal_from(p, v, 0, 0);
    if glob_spec(p, v) {
        assert(p =~= v);
    }
}

proof fn lemma_literal_from(p: Seq<char>, v: Seq<char>, i: int, j: int)
    requires
        forall|t: int| 0 <= t < p.len() ==> #[trigger] p[t] != '*' && p[t] != '?',
        0 <= i <= p.len(),
        0 <= j <= v.len(),
        i == j,
    ensures
        glob_from(p, v, i, j) <==> (p.len() == v.len() && forall|t: int| i <= t < p.len() ==> p[t] == v[t]),
    decreases p.len() - i,
{
    if i < p.len() && j < v.len() {
        lemma_literal_from(p, v, i + 1, j + 1);
        assert(p[i] != '*' && p[i] != '?');
    } else if i < p.len() {
        assert(p[i] != '*' && p[i] != '?');
    }
}


/// Bytes ASCII lower-cased.
pub open spec fn lower_bytes(s: Seq<u8>) -> Seq<u8> {
    s.map_values(|b: u8| ascii_lower(b))
}

proof fn lemma_ci_from(p: Seq<u8>, v: Seq<u8>, i: int, j: int)
    requires
        0 <= i <= p.len(),
        0 <= j <= v.len(),
    ensures
        glob_ci_from(p, v, i, j) == glob_ci_from(lower_bytes(p), lower_bytes(v), i, j),
    decreases p.len() - i, v.len() - j,
{
    let lp = lower_bytes(p);
    let lv = lower_bytes(v);
    if i < p.len() {
        assert(lp[i] == ascii_lower(p[i]));
        if j < v.len() {
            assert(lv[j] == ascii_lower(v[j]));
            lemma_ci_from(p, v, i + 1, j + 1);
        }
        lemma_ci_from(p, v, i + 1, j);
        if j < v.len() {
            lemma_ci_from(p, v, i, j + 1);
        }
    }
}

/// The catalog matcher ignores ASCII case: lower-casing the pattern and the
/// value (as bytes) never changes whether they match.
pub proof fn law_catalog_glob_ignores_ascii_case(p: Seq<u8>, v: Seq<u8>)
    ensures
        glob_ci_from(p, v, 0, 0) == glob_ci_from(lower_bytes(p), lower_bytes(v), 0, 0),
{
    lemma_ci_from(p, v, 0, 0);
}

/// `char::to_ascii_lowercase`: `A`..=`Z` become `a`..=`z`; every other
/// character stays.
pub open spec fn ascii_lower_char(c: char) -> char {
    if 'A' <= c && c <= 'Z' {
        ((c as u32) + 32) as char
    } else {
        c
    }
}

/// `char::to_ascii_uppercase`: `a`..=`z` become `A`..=`Z`; every other
/// character stays.
pub open spec fn ascii_upper_char(c: char) -> char {
    if 'a' <= c && c <= 'z' {
        ((c as u32) - 32) as char
    } else {
        c
    }
}

/// `str::to_ascii_lowercase`.
pub open spec fn ascii_lowercase(s: Seq<char>) -> Seq<char> {
    s.map_values(|c: char| ascii_lower_char(c))
}

/// `str::to_ascii_uppercase`.
pub open spec fn ascii_uppercase(s: Seq<char>) -> Seq<char> {
    s.map_values(|c: char| ascii_upper_char(c))
}

proof fn lemma_case_chars(c: char)
    ensures
        ascii_lower_char(c) as u32 == (if 65 <= c as u32 <= 90 { c as u32 + 32 } else { c as u32 as int }),
        ascii_upper_char(c) as u32 == (if 97 <= c as u32 <= 122 { c as u32 - 32 } else { c as u32 as int }),
{
}

proof fn lemma_lower_byte_of_scalar(c: char, d: char)
    requires
        d == ascii_lower_char(c) || d == ascii_upper_char(c),
    ensures
        lower_bytes(encode_scalar(d as u32)) == lower_bytes(encode_scalar(c as u32)),
{
    lemma_case_chars(c);
    if d != c {
        let x = c as u32;
        let y = d as u32;
        assert(x <= 0x7f && y <= 0x7f);
        assert(leading_byte_width_1(x) == x as u8) by (bit_vector)
            requires
                x <= 0x7f,
        ;
        assert(leading_byte_width_1(y) == y as u8) by (bit_vector)
            requires
                y <= 0x7f,
        ;
        assert(lower_bytes(encode_scalar(y)) =~= seq![ascii_lower(y as u8)]);
        assert(lower_bytes(encode_scalar(x)) =~= seq![ascii_lower(x as u8)]);
    }
}

proof fn lemma_lower_bytes_concat(a: Seq<u8>, b: Seq<u8>)
    ensures
        lower_bytes(a + b) == lower_bytes(a) + lower_bytes(b),
{
    assert(lower_bytes(a + b) =~= lower_bytes(a) + lower_bytes(b));
}

proof fn lemma_case_keeps_lowered_encoding(s: Seq<char>, upper: bool)
    ensures
        lower_bytes(encode_utf8(if upper { ascii_uppercase(s) } else { ascii_lowercase(s) })) == lower_bytes(
            encode_utf8(s),
        ),
    decreases s.len(),
{
    let t = if upper { ascii_uppercase(s) } else { ascii_lowercase(s) };
    if s.len() > 0 {
        let rest = s.drop_first();
        let trest = if upper { ascii_uppercase(rest) } else { ascii_lowercase(rest) };
        assert(t.drop_first() =~= trest);
        lemma_case_keeps_lowered_encoding(rest, upper);
        lemma_lower_byte_of_scalar(s[0], t[0]);
        lemma_lower_bytes_concat(encode_scalar(t[0] as u32), encode_utf8(trest));
        lemma_lower_bytes_concat(encode_scalar(s[0] as u32), encode_utf8(rest));
    } else {
        assert(t =~= s);
    }
}

/// Case does not matter to the catalog matcher: lower-casing the pattern
/// and upper-casing the value (ASCII only, as `to_ascii_lowercase` and
/// `to_ascii_uppercase` do) never changes whether `glob_matches` accepts.
pub proof fn law_glob_matches_ignores_case(pattern: Seq<char>, value: Seq<char>)
    ensures
        glob_ci_spec(pattern, value) == glob_ci_spec(ascii_lowercase(pattern), ascii_uppercase(value)),
{
    let p = encode_utf8(pattern);
    let v = encode_utf8(value);
    let lp = encode_utf8(ascii_lowercase(pattern));
    let uv = encode_utf8(ascii_uppercase(value));
    lemma_case_keeps_lowered_encoding(pattern, false);
    lemma_case_keeps_lowered_encoding(value, true);
    law_catalog_glob_ignores_ascii_case(p, v);
    law_catalog_glob_ignores_ascii_case(lp, uv);
}

proof fn lemma_ascii_glob_from(p: Seq<char>, v: Seq<char>, i: int, j: int)
    requires
        is_ascii_chars(p),
        is_ascii_chars(v),
        0 <= i <= p.len(),
        0 <= j <= v.len(),
    ensures
        glob_ci_from(encode_utf8(p), encode_utf8(v), i, j) == glob_from(ascii_lowercase(p), ascii_lowercase(v), i, j),
    decreases p.len() - i, v.len() - j,
{
    is_ascii_chars_encode_utf8(p);
    is_ascii_chars_encode_utf8(v);
    let bp = encode_utf8(p);
    let bv = encode_utf8(v);
    let lp = ascii_lowercase(p);
    let lv = ascii_lowercase(v);
    if i < p.len() {
        assert(bp[i] == p[i] as u8);
        lemma_case_chars(p[i]);
        assert(p[i] as u32 <= 0x7f);
        assert((bp[i] == 42u8) == (lp[i] == '*'));
        assert((bp[i] == 63u8) == (lp[i] == '?'));
        if j < v.len() {
            assert(bv[j] == v[j] as u8);
            lemma_case_chars(v[j]);
            assert(v[j] as u32 <= 0x7f);
            assert((ascii_lower(bp[i]) == ascii_lower(bv[j])) == (lp[i] as u32 == lv[j] as u32));
            lemma_ascii_glob_from(p, v, i + 1, j + 1);
            lemma_ascii_glob_from(p, v, i, j + 1);
        }
        lemma_ascii_glob_from(p, v, i + 1, j);
    }
}

/// On ASCII text the catalog matcher is the case-sensitive model matcher
/// applied to the lower-cased pattern and value.
pub proof fn law_catalog_glob_is_lowercased_model_glob(pattern: Seq<char>, value: Seq<char>)
    requires
        is_ascii_chars(pattern),
        is_ascii_chars(value),
    ensures
        glob_ci_spec(pattern, value) == glob_spec(ascii_lowercase(pattern), ascii_lowercase(value)),
{
    lemma_ascii_glob_from(pattern, value, 0, 0);
}

} // verus!
