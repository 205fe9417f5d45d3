//! Character-level text helpers with their mathematical meaning: Unicode
//! whitespace trimming, searching, line splitting and string building.
use vstd::prelude::*;

verus! {

/// The Unicode `White_Space` property, which `char::is_whitespace` tests.
pub open spec fn is_ws(c: char) -> bool {
    ||| c == '\t'
    ||| c == '\n'
    ||| c == '\u{0B}'
    ||| c == '\u{0C}'
    ||| c == '\r'
    ||| c == ' '
    ||| c == '\u{85}'
    ||| c == '\u{A0}'
    ||| c == '\u{1680}'
    ||| ('\u{2000}' <= c && c <= '\u{200A}')
    ||| c == '\u{2028}'
    ||| c == '\u{2029}'
    ||| c == '\u{202F}'
    ||| c == '\u{205F}'
    ||| c == '\u{3000}'
}

/// First index at or after `i` that holds no whitespace (or `s.len()`).
pub open spec fn first_non_ws_from(s: Seq<char>, i: int) -> int
    decreases s.len() - i,
{
    if 0 <= i < s.len() && is_ws(s[i]) {
        first_non_ws_from(s, i + 1)
    } else {
        i
    }
}

/// End of `s[..j]` once trailing whitespace is removed.
pub open spec fn last_non_ws_to(s: Seq<char>, j: int) -> int
    decreases j,
{
    if 0 < j <= s.len() && is_ws(s[j - 1]) {
        last_non_ws_to(s, j - 1)
    } else {
        j
    }
}

/// `s` without leading whitespace.
pub open spec fn trim_start(s: Seq<char>) -> Seq<char> {
    s.skip(first_non_ws_from(s, 0))
}

/// `s` without trailing whitespace.
pub open spec fn trim_end(s: Seq<char>) -> Seq<char> {
    s.take(last_non_ws_to(s, s.len() as int))
}

/// `s` without leading and trailing whitespace.
pub open spec fn trim(s: Seq<char>) -> Seq<char> {
    trim_end(trim_start(s))
}

/// First index at or after `i` holding `c`.
pub open spec fn find_char_from(s: Seq<char>, c: char, i: int) -> Option<int>
    decreases s.len() - i,
{
    if i < 0 || i >= s.len() {
        None
    } else if s[i] == c {
        Some(i)
    } else {
        find_char_from(s, c, i + 1)
    }
}

/// First index at or after `i` where the pair `a`, `b` starts.
pub open spec fn find_pair_from(s: Seq<char>, a: char, b: char, i: int) -> Option<int>
    decreases s.len() - i,
{
    if i < 0 || i + 1 >= s.len() {
        None
    } else if s[i] == a && s[i + 1] == b {
        Some(i)
    } else {
        find_pair_from(s, a, b, i + 1)
    }
}

/// A found character lies inside the searched range.
pub proof fn lemma_find_char_bounds(s: Seq<char>, c: char, i: int)
    ensures
        find_char_from(s, c, i) matches Some(k) ==> 0 <= i <= k < s.len() && s[k] == c,
        find_char_from(s, c, i) matches Some(k) ==> forall|t: int| i <= t < k ==> s[t] != c,
    decreases s.len() - i,
{
    if 0 <= i < s.len() && s[i] != c {
        lemma_find_char_bounds(s, c, i + 1);
    }
}

/// A line as `str::lines` yields it when it ended with a newline: one
/// trailing carriage return is dropped.
pub open spec fn strip_cr(l: Seq<char>) -> Seq<char> {
    if l.len() > 0 && l.last() == '\r' {
        l.drop_last()
    } else {
        l
    }
}

/// The lines of `s[i..]` as `str::lines` yields them.
pub open spec fn lines_from(s: Seq<char>, i: int) -> Seq<Seq<char>>
    decreases s.len() - i,
{
    if i < 0 || i >= s.len() {
        Seq::empty()
    } else {
        proof {
            lemma_find_char_bounds(s, '\n', i);
        }
        match find_char_from(s, '\n', i) {
            Some(k) => seq![strip_cr(s.subrange(i, k))] + lines_from(s, k + 1),
            None => seq![s.subrange(i, s.len() as int)],
        }
    }
}

/// The lines of `s` as `str::lines` yields them.
pub open spec fn lines(s: Seq<char>) -> Seq<Seq<char>> {
    lines_from(s, 0)
}

/// The pieces of `s[i..]` between occurrences of `c`, as `str::split` yields
/// them (always at least one piece).
pub open spec fn split_from(s: Seq<char>, c: char, i: int) -> Seq<Seq<char>>
    decreases s.len() - i,
{
    if i < 0 || i > s.len() {
        Seq::empty()
    } else {
        proof {
            lemma_find_char_bounds(s, c, i);
        }
        match find_char_from(s, c, i) {
            Some(k) => seq![s.subrange(i, k)] + split_from(s, c, k + 1),
            None => seq![s.subrange(i, s.len() as int)],
        }
    }
}

/// Whether `c` is whitespace.
pub fn is_whitespace_char(c: char) -> (r: bool)
    ensures
        r == is_ws(c),
{
    c == '\t' || c == '\n' || c == '\u{0B}' || c == '\u{0C}' || c == '\r' || c == ' ' || c
        == '\u{85}' || c == '\u{A0}' || c == '\u{1680}' || ('\u{2000}' <= c && c <= '\u{200A}')
        || c == '\u{2028}' || c == '\u{2029}' || c == '\u{202F}' || c == '\u{205F}' || c
        == '\u{3000}'
}

/// Collects the characters of `s` into a vector.
pub fn chars_of(s: &str) -> (r: Vec<char>)
    ensures
        r@ == s@,
{
    let mut r: Vec<char> = Vec::new();
    for c in it: s.chars()
        invariant
            r@ == it.seq().take(it.index() as int),
            it.seq() == s@,
    {
        r.push(c);
    }
    r
}

/// `s[from..to]` as a new vector.
pub fn slice_vec(s: &Vec<char>, from: usize, to: usize) -> (r: Vec<char>)
    requires
        from <= to <= s@.len(),
    ensures
        r@ == s@.subrange(from as int, to as int),
{
    let mut r: Vec<char> = Vec::new();
    let mut i = from;
    while i < to
        invariant
            from <= i <= to <= s@.len(),
            r@ == s@.subrange(from as int, i as int),
        decreases to - i,
    {
        r.push(s[i]);
        i += 1;
    }
    r
}

/// Index of the first non-whitespace character at or after `i`.
pub fn first_non_ws(s: &Vec<char>, i: usize) -> (r: usize)
    requires
        i <= s@.len(),
    ensures
        r as int == first_non_ws_from(s@, i as int),
        i <= r <= s@.len(),
{
    let mut k = i;
    while k < s.len() && is_whitespace_char(s[k])
        invariant
            i <= k <= s@.len(),
            first_non_ws_from(s@, k as int) == first_non_ws_from(s@, i as int),
        decreases s@.len() - k,
    {
        k += 1;
    }
    k
}

/// End of `s[..j]` with trailing whitespace removed.
pub fn last_non_ws(s: &Vec<char>, j: usize) -> (r: usize)
    requires
        j <= s@.len(),
    ensures
        r as int == last_non_ws_to(s@, j as int),
        r <= j,
{
    let mut k = j;
    while k > 0 && is_whitespace_char(s[k - 1])
        invariant
            k <= j <= s@.len(),
            last_non_ws_to(s@, k as int) == last_non_ws_to(s@, j as int),
        decreases k,
    {
        k -= 1;
    }
    k
}

/// `s` without leading and trailing whitespace.
pub fn trim_vec(s: &Vec<char>) -> (r: Vec<char>)
    ensures
        r@ == trim(s@),
{
    let a = first_non_ws(s, 0);
    let t = slice_vec(s, a, s.len());
    let b = last_non_ws(&t, t.len());
    slice_vec(&t, 0, b)
}

/// `s` without trailing whitespace.
pub fn trim_end_vec(s: &Vec<char>) -> (r: Vec<char>)
    ensures
        r@ == trim_end(s@),
{
    let b = last_non_ws(s, s.len());
    slice_vec(s, 0, b)
}

/// `s` without leading whitespace.
pub fn trim_start_vec(s: &Vec<char>) -> (r: Vec<char>)
    ensures
        r@ == trim_start(s@),
{
    let a = first_non_ws(s, 0);
    slice_vec(s, a, s.len())
}

/// First index at or after `i` holding `c`.
pub fn find_char(s: &Vec<char>, c: char, i: usize) -> (r: Option<usize>)
    requires
        i <= s@.len(),
    ensures
        match r {
            Some(k) => find_char_from(s@, c, i as int) == Some(k as int),
            None => find_char_from(s@, c, i as int) is None,
        },
{
    let mut k = i;
    while k < s.len()
        invariant
            i <= k <= s@.len(),
            find_char_from(s@, c, k as int) == find_char_from(s@, c, i as int),
        decreases s@.len() - k,
    {
        if s[k] == c {
            return Some(k);
        }
        k += 1;
    }
    None
}

/// First index at or after `i` where `a` followed by `b` starts.
pub fn find_pair(s: &Vec<char>, a: char, b: char, i: usize) -> (r: Option<usize>)
    requires
        i <= s@.len(),
    ensures
        match r {
            Some(k) => find_pair_from(s@, a, b, i as int) == Some(k as int) && k + 1 < s@.len(),
            None => find_pair_from(s@, a, b, i as int) is None,
        },
{
    if s.len() < 2 {
        return None;
    }
    let mut k = i;
    while k < s.len() - 1
        invariant
            s@.len() >= 2,
            i <= k <= s@.len(),
            find_pair_from(s@, a, b, k as int) == find_pair_from(s@, a, b, i as int),
        decreases s@.len() - k,
    {
        if s[k] == a && s[k + 1] == b {
            return Some(k);
        }
        k += 1;
    }
    None
}

/// The character sequences held by a vector of character vectors.
pub open spec fn seqs_of(v: Seq<Vec<char>>) -> Seq<Seq<char>> {
    v.map_values(|x: Vec<char>| x@)
}

/// `l` without one trailing carriage return.
pub fn strip_cr_vec(l: Vec<char>) -> (r: Vec<char>)
    ensures
        r@ == strip_cr(l@),
{
    let mut l = l;
    if l.len() > 0 && l[l.len() - 1] == '\r' {
        l.pop();
    }
    l
}

/// The lines of `s` as `str::lines` yields them.
pub fn lines_vec(s: &Vec<char>) -> (r: Vec<Vec<char>>)
    ensures
        seqs_of(r@) == lines(s@),
{
    let mut r: Vec<Vec<char>> = Vec::new();
    let mut i: usize = 0;
    while i < s.len()
        invariant_except_break
            i <= s@.len(),
            seqs_of(r@) + lines_from(s@, i as int) == lines(s@),
        ensures
            seqs_of(r@) == lines(s@),
        decreases s@.len() - i,
    {
        proof {
            lemma_find_char_bounds(s@, '\n', i as int);
        }
        match find_char(s, '\n', i) {
            Some(k) => {
                let line = strip_cr_vec(slice_vec(s, i, k));
                let ghost before = seqs_of(r@);
                r.push(line);
                proof {
                    assert(seqs_of(r@) =~= before.push(line@));
                    assert(before + lines_from(s@, i as int) =~= seqs_of(r@) + lines_from(
                        s@,
                        k + 1,
                    ));
                }
                i = k + 1;
            },
            None => {
                let line = slice_vec(s, i, s.len());
                let ghost before = seqs_of(r@);
                r.push(line);
                proof {
                    assert(seqs_of(r@) =~= before.push(line@));
                    assert(before + lines_from(s@, i as int) =~= seqs_of(r@));
                }
                break;
            },
        }
    }
    proof {
        if i >= s.len() {
            assert(seqs_of(r@) + lines_from(s@, i as int) =~= seqs_of(r@));
        }
    }
    r
}

/// The pieces of `s` between occurrences of `c`, as `str::split` yields them.
pub fn split_vec(s: &Vec<char>, c: char) -> (r: Vec<Vec<char>>)
    ensures
        seqs_of(r@) == split_from(s@, c, 0),
        r@.len() >= 1,
{
    let mut r: Vec<Vec<char>> = Vec::new();
    let mut i: usize = 0;
    loop
        invariant_except_break
            i <= s@.len(),
            seqs_of(r@) + split_from(s@, c, i as int) == split_from(s@, c, 0),
        ensures
            seqs_of(r@) == split_from(s@, c, 0),
            r@.len() >= 1,
        decreases s@.len() - i,
    {
        proof {
            lemma_find_char_bounds(s@, c, i as int);
        }
        match find_char(s, c, i) {
            Some(k) => {
                assert(k < s.len());
                let piece = slice_vec(s, i, k);
                let ghost before = seqs_of(r@);
                r.push(piece);
                proof {
                    assert(seqs_of(r@) =~= before.push(piece@));
                    assert(before + split_from(s@, c, i as int) =~= seqs_of(r@) + split_from(
                        s@,
                        c,
                        k + 1,
                    ));
                }
                i = k + 1;
            },
            None => {
                let piece = slice_vec(s, i, s.len());
                let ghost before = seqs_of(r@);
                r.push(piece);
                proof {
                    assert(seqs_of(r@) =~= before.push(piece@));
                    assert(before + split_from(s@, c, i as int) =~= seqs_of(r@));
                }
                break;
            },
        }
    }
    r
}

/// Whether `s` starts with the characters of `prefix`.
pub fn starts_with_lit(s: &Vec<char>, prefix: &str) -> (r: bool)
    ensures
        r == (prefix@.len() <= s@.len() && s@.take(prefix@.len() as int) == prefix@),
{
    let p = chars_of(prefix);
    if p.len() > s.len() {
        return false;
    }
    let mut i: usize = 0;
    while i < p.len()
        invariant
            p@ == prefix@,
            p@.len() <= s@.len(),
            i <= p@.len(),
            forall|t: int| 0 <= t < i ==> s@[t] == p@[t],
        decreases p@.len() - i,
    {
        if s[i] != p[i] {
            proof {
                assert(s@.take(p@.len() as int)[i as int] != p@[i as int]);
            }
            return false;
        }
        i += 1;
    }
    assert(s@.take(p@.len() as int) =~= p@);
    true
}

/// Whether `s` holds exactly the characters of `lit`.
pub fn eq_lit(s: &Vec<char>, lit: &str) -> (r: bool)
    ensures
        r == (s@ == lit@),
{
    let p = chars_of(lit);
    if p.len() != s.len() {
        return false;
    }
    let mut i: usize = 0;
    while i < p.len()
        invariant
            p@ == lit@,
            p@.len() == s@.len(),
            i <= p@.len(),
            forall|t: int| 0 <= t < i ==> s@[t] == p@[t],
        decreases p@.len() - i,
    {
        if s[i] != p[i] {
            return false;
        }
        i += 1;
    }
    assert(s@ =~= p@);
    true
}

/// Appends one character to `s`: `String::push`.
#[verifier::external_body]
pub(crate) fn push_char(s: &mut String, c: char)
    ensures
        final(s)@ == old(s)@.push(c),
{
    s.push(c);
}

/// A `String` holding the characters of `lit`: `str::to_string`.
pub fn string_of(lit: &str) -> (r: String)
    ensures
        r@ == lit@,
{
    lit.to_owned()
}

/// Appends the characters of `v` to `s`.
pub fn push_chars(s: &mut String, v: &Vec<char>)
    ensures
        final(s)@ == old(s)@ + v@,
{
    let mut i: usize = 0;
    while i < v.len()
        invariant
            i <= v@.len(),
            s@ == old(s)@ + v@.take(i as int),
        decreases v@.len() - i,
    {
        push_char(s, v[i]);
        i += 1;
        proof {
            assert(v@.take(i as int) =~= v@.take(i - 1).push(v@[i - 1]));
        }
    }
    assert(v@.take(v@.len() as int) =~= v@);
}

/// Appends the characters of `lit` to `s`.
pub fn push_lit(s: &mut String, lit: &str)
    ensures
        final(s)@ == old(s)@ + lit@,
{
    let v = chars_of(lit);
    push_chars(s, &v);
}

/// A `String` holding the characters of `v`.
pub fn string_from_chars(v: &Vec<char>) -> (r: String)
    ensures
        r@ == v@,
{
    let mut s = string_of("");
    proof {
        reveal_strlit("");
    }
    push_chars(&mut s, v);
    s
}


/// `s` with every trailing `c` removed (`str::trim_end_matches` with a char).
pub open spec fn strip_trailing(s: Seq<char>, c: char) -> Seq<char>
    decreases s.len(),
{
    if s.len() > 0 && s.last() == c {
        strip_trailing(s.drop_last(), c)
    } else {
        s
    }
}

/// Whether `s` ends with `suffix`.
pub open spec fn ends_with(s: Seq<char>, suffix: Seq<char>) -> bool {
    suffix.len() <= s.len() && s.skip(s.len() - suffix.len()) == suffix
}

/// `s` with every trailing `c` removed.
pub fn strip_trailing_vec(s: &Vec<char>, c: char) -> (r: Vec<char>)
    ensures
        r@ == strip_trailing(s@, c),
{
    let mut k = s.len();
    assert(s@.take(k as int) =~= s@);
    while k > 0 && s[k - 1] == c
        invariant
            k <= s@.len(),
            strip_trailing(s@.take(k as int), c) == strip_trailing(s@, c),
        decreases k,
    {
        assert(s@.take(k as int).drop_last() =~= s@.take(k - 1));
        k -= 1;
    }
    slice_vec(s, 0, k)
}

/// Whether `s` ends with the characters of `lit`.
pub fn ends_with_lit(s: &Vec<char>, lit: &str) -> (r: bool)
    ensures
        r == ends_with(s@, lit@),
{
    let p = chars_of(lit);
    if p.len() > s.len() {
        return false;
    }
    let off = s.len() - p.len();
    let mut i: usize = 0;
    while i < p.len()
        invariant
            p@ == lit@,
            off + p.len() == s.len(),
            i <= p@.len(),
            forall|t: int| 0 <= t < i ==> s@[off + t] == p@[t],
        decreases p@.len() - i,
    {
        if s[off + i] != p[i] {
            proof {
                assert(s@.skip(off as int)[i as int] != p@[i as int]);
            }
            return false;
        }
        i += 1;
    }
    assert(s@.skip(off as int) =~= p@);
    true
}

/// Appends the characters of `v` to a new string that starts as `lit`.
pub fn concat_chars_lit(v: &Vec<char>, lit: &str) -> (r: String)
    ensures
        r@ == v@ + lit@,
{
    let mut out = string_from_chars(v);
    push_lit(&mut out, lit);
    out
}


/// Whether `t` occurs in `s` starting at `i`.
pub open spec fn occurs_at(s: Seq<char>, t: Seq<char>, i: int) -> bool {
    0 <= i && i + t.len() <= s.len() && s.subrange(i, i + t.len()) == t
}

/// Whether `t` occurs somewhere in `s` (`str::contains`).
pub open spec fn contains_seq(s: Seq<char>, t: Seq<char>) -> bool {
    exists|i: int| #[trigger] occurs_at(s, t, i)
}

fn occurs_at_exec(s: &Vec<char>, t: &Vec<char>, i: usize) -> (r: bool)
    requires
        i <= s@.len(),
    ensures
        r == occurs_at(s@, t@, i as int),
{
    if t.len() > s.len() - i {
        return false;
    }
    let mut k: usize = 0;
    while k < t.len()
        invariant
            i + t.len() <= s.len(),
            k <= t@.len(),
            forall|u: int| 0 <= u < k ==> s@[i + u] == t@[u],
        decreases t@.len() - k,
    {
        if s[i + k] != t[k] {
            proof {
                assert(s@.subrange(i as int, i + t@.len())[k as int] != t@[k as int]);
            }
            return false;
        }
        k += 1;
    }
    assert(s@.subrange(i as int, i + t@.len()) =~= t@);
    true
}

/// Whether the characters of `lit` occur in `s`.
pub fn contains_lit(s: &Vec<char>, lit: &str) -> (r: bool)
    ensures
        r == contains_seq(s@, lit@),
{
    let t = chars_of(lit);
    let mut i: usize = 0;
    loop
        invariant_except_break
            t@ == lit@,
            i <= s@.len(),
            forall|u: int| 0 <= u < i ==> !#[trigger] occurs_at(s@, t@, u),
        ensures
            t@ == lit@,
            forall|u: int| 0 <= u <= s@.len() ==> !#[trigger] occurs_at(s@, t@, u),
        decreases s@.len() - i,
    {
        if occurs_at_exec(s, &t, i) {
            return true;
        }
        if i == s.len() {
            break;
        }
        i += 1;
    }
    proof {
        assert forall|u: int| !#[trigger] occurs_at(s@, t@, u) by {
            if u > s@.len() as int {
                assert(!(u + t@.len() <= s@.len()));
            }
        }
    }
    false
}

/// `s` with every leading copy of `p` removed (`str::trim_start_matches`).
pub open spec fn strip_leading_all(s: Seq<char>, p: Seq<char>) -> Seq<char>
    decreases s.len(),
{
    if p.len() > 0 && p.len() <= s.len() && s.take(p.len() as int) == p {
        strip_leading_all(s.skip(p.len() as int), p)
    } else {
        s
    }
}

/// `s` with every leading copy of `lit` removed.
pub fn strip_leading_all_vec(s: &Vec<char>, lit: &str) -> (r: Vec<char>)
    ensures
        r@ == strip_leading_all(s@, lit@),
{
    let p = chars_of(lit);
    let mut cur = slice_vec(s, 0, s.len());
    assert(cur@ =~= s@);
    if p.len() == 0 {
        return cur;
    }
    while starts_with_lit(&cur, lit)
        invariant
            p@ == lit@,
            p@.len() > 0,
            strip_leading_all(cur@, p@) == strip_leading_all(s@, p@),
        decreases cur@.len(),
    {
        let ghost before = cur@;
        cur = slice_vec(&cur, p.len(), cur.len());
        proof {
            assert(cur@ =~= before.skip(p@.len() as int));
        }
    }
    cur
}

} // verus!
