//! User-account rules: reserved internal user names, roles, and the
//! canonical form of a list of group names (trimmed, ASCII lower-cased,
//! without empty entries or duplicates, in ascending order).
use vstd::prelude::*;
use crate::text::{first_non_ws_from, is_ws, last_non_ws_to, trim, trim_vec, chars_of, string_from_chars, seqs_of};

verus! {

/// The role of a user account.
#[derive(Clone, Copy, Debug, PartialEq, Eq, Structural)]
pub enum UserRole {
    SuperAdmin,
    Admin,
    User,
}

/// Whether a role administers users (and sees everyone's usage): the super
/// administrator and administrators do, ordinary users do not.
pub open spec fn manages_users(role: UserRole) -> bool {
    role != UserRole::User
}

impl UserRole {
    /// Whether this role administers users (see [`manages_users`]).
    pub fn can_manage_users(&self) -> (r: bool)
        ensures
            r == manages_users(*self),
    {
        match self {
            UserRole::User => false,
            _ => true,
        }
    }
}

/// ASCII lower-casing of one character.
pub open spec fn ascii_lower_char(c: char) -> char {
    if 'A' <= c && c <= 'Z' {
        ((c as u32) + 32) as char
    } else {
        c
    }
}

/// ASCII lower-casing of a character sequence.
pub open spec fn ascii_lower_seq(s: Seq<char>) -> Seq<char> {
    s.map_values(|c: char| ascii_lower_char(c))
}

/// `char::to_ascii_lowercase`.
pub fn ascii_lower_char_exec(c: char) -> (r: char)
    ensures
        r == ascii_lower_char(c),
{
    if 'A' <= c && c <= 'Z' {
        ((c as u8) + 32) as char
    } else {
        c
    }
}


/// Lexicographic order on character sequences, comparing code points; for
/// strings this is the order of `str`'s `<` (UTF-8 preserves code-point order).
pub open spec fn seq_lt(a: Seq<char>, b: Seq<char>) -> bool
    decreases a.len(),
{
    if a.len() == 0 {
        b.len() > 0
    } else if b.len() == 0 {
        false
    } else if a[0] < b[0] {
        true
    } else if a[0] == b[0] {
        seq_lt(a.drop_first(), b.drop_first())
    } else {
        false
    }
}

/// Every element is strictly below every later one.
pub open spec fn strictly_sorted(s: Seq<Seq<char>>) -> bool {
    forall|i: int, j: int| 0 <= i < j < s.len() ==> #[trigger] seq_lt(s[i], s[j])
}

pub proof fn lemma_seq_lt_irreflexive(a: Seq<char>)
    ensures
        !seq_lt(a, a),
    decreases a.len(),
{
    if a.len() > 0 {
        lemma_seq_lt_irreflexive(a.drop_first());
    }
}

pub proof fn lemma_seq_lt_total(a: Seq<char>, b: Seq<char>)
    ensures
        a != b ==> seq_lt(a, b) || seq_lt(b, a),
    decreases a.len(),
{
    if a.len() > 0 && b.len() > 0 && a[0] == b[0] {
        lemma_seq_lt_total(a.drop_first(), b.drop_first());
        if a.drop_first() == b.drop_first() {
            assert(a =~= seq![a[0]] + a.drop_first());
            assert(b =~= seq![b[0]] + b.drop_first());
        }
    }
    if a.len() == 0 && b.len() == 0 {
        assert(a =~= b);
    }
}

pub proof fn lemma_seq_lt_asymmetric(a: Seq<char>, b: Seq<char>)
    ensures
        seq_lt(a, b) ==> !seq_lt(b, a),
    decreases a.len(),
{
    if a.len() > 0 && b.len() > 0 && a[0] == b[0] {
        lemma_seq_lt_asymmetric(a.drop_first(), b.drop_first());
    }
}

pub proof fn lemma_seq_lt_transitive(a: Seq<char>, b: Seq<char>, c: Seq<char>)
    requires
        seq_lt(a, b),
        seq_lt(b, c),
    ensures
        seq_lt(a, c),
    decreases a.len(),
{
    if a.len() > 0 && b.len() > 0 && c.len() > 0 && a[0] == b[0] && b[0] == c[0] {
        lemma_seq_lt_transitive(a.drop_first(), b.drop_first(), c.drop_first());
    }
}

/// Whether `a < b` in the order of `seq_lt`.
pub fn chars_lt(a: &Vec<char>, b: &Vec<char>) -> (r: bool)
    ensures
        r == seq_lt(a@, b@),
{
    let mut i: usize = 0;
    assert(a@.skip(0) =~= a@ && b@.skip(0) =~= b@);
    while i < a.len() && i < b.len() && a[i] == b[i]
        invariant
            i <= a@.len(),
            i <= b@.len(),
            seq_lt(a@, b@) == seq_lt(a@.skip(i as int), b@.skip(i as int)),
        decreases a@.len() - i,
    {
        proof {
            assert(a@.skip(i as int).drop_first() =~= a@.skip(i + 1));
            assert(b@.skip(i as int).drop_first() =~= b@.skip(i + 1));
        }
        i += 1;
    }
    if i == a.len() {
        i < b.len()
    } else if i == b.len() {
        false
    } else {
        a[i] < b[i]
    }
}


proof fn lemma_insert_keeps_sorted(old_s: Seq<Seq<char>>, k: int, x: Seq<char>)
    requires
        strictly_sorted(old_s),
        0 <= k <= old_s.len(),
        forall|t: int| 0 <= t < k ==> #[trigger] seq_lt(old_s[t], x),
        k < old_s.len() ==> seq_lt(x, old_s[k]),
    ensures
        strictly_sorted(old_s.insert(k, x)),
{
    let n = old_s.insert(k, x);
    assert forall|i: int, j: int| 0 <= i < j < n.len() implies #[trigger] seq_lt(n[i], n[j]) by {
        if j < k {
            assert(seq_lt(old_s[i], old_s[j]));
        } else if j == k {
            assert(seq_lt(old_s[i], x));
        } else if i < k {
            assert(seq_lt(old_s[i], old_s[j - 1]));
        } else if i == k {
            if j - 1 > k {
                assert(seq_lt(old_s[k], old_s[j - 1]));
                lemma_seq_lt_transitive(x, old_s[k], old_s[j - 1]);
            }
        } else {
            assert(seq_lt(old_s[i - 1], old_s[j - 1]));
        }
    }
}

/// Inserts `x` at its place in the strictly sorted `v`, unless `v` holds it.
pub fn insert_sorted(v: &mut Vec<Vec<char>>, x: Vec<char>)
    requires
        strictly_sorted(seqs_of(old(v)@)),
    ensures
        strictly_sorted(seqs_of(final(v)@)),
        forall|s: Seq<char>|
            #[trigger] seqs_of(final(v)@).contains(s) <==> (seqs_of(old(v)@).contains(s) || s
                == x@),
{
    let ghost old_s = seqs_of(v@);
    let mut k: usize = 0;
    while k < v.len() && chars_lt(&v[k], &x)
        invariant
            k <= v@.len(),
            seqs_of(v@) == old_s,
            forall|t: int| 0 <= t < k ==> #[trigger] seq_lt(old_s[t], x@),
        decreases v@.len() - k,
    {
        k += 1;
    }
    if k < v.len() && !chars_lt(&x, &v[k]) {
        proof {
            lemma_seq_lt_total(v@[k as int]@, x@);
            assert(old_s[k as int] == x@);
            assert forall|s: Seq<char>| #[trigger]
                seqs_of(v@).contains(s) <==> (old_s.contains(s) || s == x@) by {
                if s == x@ {
                    assert(old_s[k as int] == s);
                }
            }
        }
        return;
    }
    let ghost xv = x@;
    v.insert(k, x);
    proof {
        assert(seqs_of(v@) =~= old_s.insert(k as int, xv));
        lemma_insert_keeps_sorted(old_s, k as int, xv);
        let n = old_s.insert(k as int, xv);
        assert forall|s: Seq<char>| #[trigger]
            n.contains(s) <==> (old_s.contains(s) || s == xv) by {
            if n.contains(s) {
                let i = choose|i: int| 0 <= i < n.len() && n[i] == s;
                if i < k {
                    assert(old_s[i] == s);
                } else if i > k {
                    assert(old_s[i - 1] == s);
                }
            }
            if old_s.contains(s) {
                let i = choose|i: int| 0 <= i < old_s.len() && old_s[i] == s;
                if i < k {
                    assert(n[i] == s);
                } else {
                    assert(n[i + 1] == s);
                }
            }
            if s == xv {
                assert(n[k as int] == s);
            }
        }
    }
}


/// The canonical form of one group name: trimmed, then ASCII lower-cased.
pub open spec fn canonical_group(s: Seq<char>) -> Seq<char> {
    ascii_lower_seq(trim(s))
}

/// The character sequences of a sequence of strings.
pub open spec fn string_views(v: Seq<String>) -> Seq<Seq<char>> {
    v.map_values(|s: String| s@)
}

/// `r` is the canonical list of `groups`: in strictly ascending order, it
/// holds exactly the non-empty canonical forms of the entries of `groups`.
pub open spec fn is_canonical_groups_of(r: Seq<Seq<char>>, groups: Seq<Seq<char>>) -> bool {
    &&& strictly_sorted(r)
    &&& forall|s: Seq<char>|
        #[trigger] r.contains(s) <==> (s.len() > 0 && exists|i: int|
            0 <= i < groups.len() && #[trigger] canonical_group(groups[i]) == s)
}

fn ascii_lower_vec(s: &Vec<char>) -> (r: Vec<char>)
    ensures
        r@ == ascii_lower_seq(s@),
{
    let mut r: Vec<char> = Vec::new();
    let mut i: usize = 0;
    while i < s.len()
        invariant
            i <= s@.len(),
            r@ == ascii_lower_seq(s@.take(i as int)),
        decreases s@.len() - i,
    {
        r.push(ascii_lower_char_exec(s[i]));
        i += 1;
        proof {
            assert(ascii_lower_seq(s@.take(i as int)) =~= ascii_lower_seq(s@.take(i - 1)).push(
                ascii_lower_char(s@[i - 1]),
            ));
        }
    }
    assert(s@.take(s@.len() as int) =~= s@);
    r
}

/// The canonical list of a list of group names: each name trimmed and ASCII
/// lower-cased, empty names dropped, duplicates removed, in ascending order.
pub fn canonicalize_groups(groups: &Vec<String>) -> (r: Vec<String>)
    ensures
        is_canonical_groups_of(string_views(r@), string_views(groups@)),
{
    let ghost g = string_views(groups@);
    let mut acc: Vec<Vec<char>> = Vec::new();
    let mut i: usize = 0;
    while i < groups.len()
        invariant
            i <= groups@.len(),
            g == string_views(groups@),
            strictly_sorted(seqs_of(acc@)),
            forall|s: Seq<char>|
                #[trigger] seqs_of(acc@).contains(s) <==> (s.len() > 0 && exists|t: int|
                    0 <= t < i && #[trigger] canonical_group(g[t]) == s),
        decreases groups@.len() - i,
    {
        let raw = chars_of(groups[i].as_str());
        let c = ascii_lower_vec(&trim_vec(&raw));
        let ghost before = seqs_of(acc@);
        if c.len() > 0 {
            insert_sorted(&mut acc, c);
        }
        proof {
            assert(canonical_group(g[i as int]) == c@);
            assert forall|s: Seq<char>| #[trigger]
                seqs_of(acc@).contains(s) <==> (s.len() > 0 && exists|t: int|
                    0 <= t < i + 1 && #[trigger] canonical_group(g[t]) == s) by {
                if s.len() > 0 && exists|t: int|
                    0 <= t < i + 1 && #[trigger] canonical_group(g[t]) == s {
                    let t = choose|t: int| 0 <= t < i + 1 && #[trigger] canonical_group(g[t]) == s;
                    if t < i {
                        assert(before.contains(s));
                    }
                }
            }
        }
        i += 1;
    }
    let mut r: Vec<String> = Vec::new();
    let mut j: usize = 0;
    while j < acc.len()
        invariant
            j <= acc@.len(),
            string_views(r@) == seqs_of(acc@).take(j as int),
        decreases acc@.len() - j,
    {
        let one = string_from_chars(&acc[j]);
        let ghost prev = r@;
        r.push(one);
        j += 1;
        proof {
            assert(r@ == prev.push(one));
            assert(string_views(prev) =~= seqs_of(acc@).take(j - 1));
            assert(string_views(r@) =~= string_views(prev).push(one@));
            assert(seqs_of(acc@).take(j as int) =~= seqs_of(acc@).take(j - 1).push(acc@[j - 1]@));
        }
    }
    proof {
        assert(seqs_of(acc@).take(acc@.len() as int) =~= seqs_of(acc@));
    }
    r
}


/// One price of a billing plan as an administrator gives it: in nano-USD or
/// USD text, for a duration.
#[derive(Clone, Debug)]
pub struct BillingPlanPriceInput {
    pub price_nano_usd: Option<String>,
    pub price_usd: Option<String>,
    pub duration_seconds: i64,
}

/// A billing plan as an administrator gives it.
#[derive(Clone, Debug)]
pub struct BillingPlanInput {
    pub name: String,
    pub description: String,
    pub limit_5h_nano_usd: Option<String>,
    pub limit_24h_nano_usd: Option<String>,
    pub limit_7d_nano_usd: Option<String>,
    pub limit_30d_nano_usd: Option<String>,
    pub group_ids: Vec<String>,
    pub multiplier: String,
    pub listed: bool,
    pub prices: Vec<BillingPlanPriceInput>,
}

/// Why the group registry refused a change.
#[derive(Clone, Debug)]
pub enum GroupStoreError {
    NotFound,
    NameExists,
    InvalidName,
    InvalidDescription,
    InvalidBillingRatio,
    InvalidReorder(String),
    CannotDeleteDefault,
    PlanRequiresGroup,
    Storage(String),
}

/// A rule that rewrites the model of requests made with an API key: models
/// matching the regular expression `pattern` are sent as `replace`.
#[derive(Clone, Debug)]
pub struct ModelRedirectRule {
    pub pattern: String,
    pub replace: String,
}


proof fn lemma_first_non_ws(s: Seq<char>, i: int)
    requires
        0 <= i <= s.len(),
    ensures
        i <= first_non_ws_from(s, i) <= s.len(),
        first_non_ws_from(s, i) < s.len() ==> !is_ws(s[first_non_ws_from(s, i)]),
    decreases s.len() - i,
{
    if i < s.len() && is_ws(s[i]) {
        lemma_first_non_ws(s, i + 1);
    }
}

proof fn lemma_last_non_ws(s: Seq<char>, j: int)
    requires
        0 <= j <= s.len(),
    ensures
        0 <= last_non_ws_to(s, j) <= j,
        last_non_ws_to(s, j) > 0 ==> !is_ws(s[last_non_ws_to(s, j) - 1]),
    decreases j,
{
    if j > 0 && is_ws(s[j - 1]) {
        lemma_last_non_ws(s, j - 1);
    }
}

/// A trimmed text starts and ends with non-whitespace.
proof fn lemma_trim_ends(x: Seq<char>)
    ensures
        trim(x).len() > 0 ==> !is_ws(trim(x)[0]) && !is_ws(trim(x).last()),
{
    let a = first_non_ws_from(x, 0);
    lemma_first_non_ws(x, 0);
    let u = x.skip(a);
    let b = last_non_ws_to(u, u.len() as int);
    lemma_last_non_ws(u, u.len() as int);
    if trim(x).len() > 0 {
        assert(trim(x) == u.take(b));
        assert(trim(x)[0] == x[a]);
        assert(trim(x).last() == u[b - 1]);
    }
}

/// A text that starts and ends with non-whitespace is its own trim.
proof fn lemma_trim_fixed(y: Seq<char>)
    requires
        y.len() > 0 ==> !is_ws(y[0]) && !is_ws(y.last()),
    ensures
        trim(y) == y,
{
    if y.len() > 0 {
        assert(first_non_ws_from(y, 0) == 0);
        assert(y.skip(0) =~= y);
        assert(last_non_ws_to(y, y.len() as int) == y.len());
        assert(y.take(y.len() as int) =~= y);
    } else {
        assert(first_non_ws_from(y, 0) == 0);
        assert(y.skip(0) =~= y);
        assert(y.take(0) =~= y);
    }
}

proof fn lemma_lower_char(c: char)
    ensures
        is_ws(ascii_lower_char(c)) == is_ws(c),
        ascii_lower_char(ascii_lower_char(c)) == ascii_lower_char(c),
{
    if 'A' <= c && c <= 'Z' {
        assert('a' <= ascii_lower_char(c) && ascii_lower_char(c) <= 'z');
    }
}

/// A canonical group name is its own canonical form.
pub proof fn lemma_canonical_group_fixed(x: Seq<char>)
    ensures
        canonical_group(canonical_group(x)) == canonical_group(x),
{
    let t = trim(x);
    let y = canonical_group(x);
    lemma_trim_ends(x);
    if y.len() > 0 {
        lemma_lower_char(t[0]);
        lemma_lower_char(t.last());
        assert(y[0] == ascii_lower_char(t[0]));
        assert(y.last() == ascii_lower_char(t.last()));
    }
    lemma_trim_fixed(y);
    assert forall|k: int| 0 <= k < y.len() implies #[trigger] ascii_lower_seq(y)[k] == y[k] by {
        lemma_lower_char(t[k]);
    }
    assert(ascii_lower_seq(y) =~= y);
}

/// Two strictly sorted lists holding the same names are equal.
pub proof fn lemma_sorted_lists_equal(a: Seq<Seq<char>>, b: Seq<Seq<char>>)
    requires
        strictly_sorted(a),
        strictly_sorted(b),
        forall|s: Seq<char>| a.contains(s) <==> b.contains(s),
    ensures
        a == b,
    decreases a.len(),
{
    if a.len() == 0 {
        if b.len() > 0 {
            assert(b.contains(b[0]));
        }
        assert(a =~= b);
    } else {
        assert(a.contains(a[0]));
        let k = choose|k: int| 0 <= k < b.len() && b[k] == a[0];
        assert(b.contains(b[0]));
        let m = choose|m: int| 0 <= m < a.len() && a[m] == b[0];
        if k > 0 {
            assert(seq_lt(b[0], b[k]));
            if m > 0 {
                assert(seq_lt(a[0], a[m]));
                lemma_seq_lt_asymmetric(a[0], b[0]);
            } else {
                lemma_seq_lt_irreflexive(a[0]);
            }
        }
        assert(a[0] == b[0]);
        let a1 = a.drop_first();
        let b1 = b.drop_first();
        assert(strictly_sorted(a1)) by {
            assert forall|i: int, j: int| 0 <= i < j < a1.len() implies #[trigger] seq_lt(a1[i], a1[j]) by {
                assert(seq_lt(a[i + 1], a[j + 1]));
            }
        }
        assert(strictly_sorted(b1)) by {
            assert forall|i: int, j: int| 0 <= i < j < b1.len() implies #[trigger] seq_lt(b1[i], b1[j]) by {
                assert(seq_lt(b[i + 1], b[j + 1]));
            }
        }
        assert forall|s: Seq<char>| a1.contains(s) <==> b1.contains(s) by {
            if a1.contains(s) {
                let i = choose|i: int| 0 <= i < a1.len() && a1[i] == s;
                assert(seq_lt(a[0], a[i + 1]));
                lemma_seq_lt_irreflexive(s);
                assert(a.contains(s));
                let j = choose|j: int| 0 <= j < b.len() && b[j] == s;
                assert(j != 0);
                assert(b1[j - 1] == s);
            }
            if b1.contains(s) {
                let i = choose|i: int| 0 <= i < b1.len() && b1[i] == s;
                assert(seq_lt(b[0], b[i + 1]));
                lemma_seq_lt_irreflexive(s);
                assert(b.contains(s));
                let j = choose|j: int| 0 <= j < a.len() && a[j] == s;
                assert(j != 0);
                assert(a1[j - 1] == s);
            }
        }
        lemma_sorted_lists_equal(a1, b1);
        assert(a =~= seq![a[0]] + a1);
        assert(b =~= seq![b[0]] + b1);
    }
}

/// A list of groups has exactly one canonical form.
pub proof fn law_canonical_groups_unique(groups: Seq<Seq<char>>, r1: Seq<Seq<char>>, r2: Seq<Seq<char>>)
    requires
        is_canonical_groups_of(r1, groups),
        is_canonical_groups_of(r2, groups),
    ensures
        r1 == r2,
{
    assert forall|s: Seq<char>| r1.contains(s) <==> r2.contains(s) by {
        assert(r1.contains(s) == r2.contains(s));
    }
    lemma_sorted_lists_equal(r1, r2);
}

/// Canonicalizing a canonical list changes nothing.
pub proof fn law_canonicalize_groups_idempotent(groups: Seq<Seq<char>>, r: Seq<Seq<char>>, r2: Seq<Seq<char>>)
    requires
        is_canonical_groups_of(r, groups),
        is_canonical_groups_of(r2, r),
    ensures
        r2 == r,
{
    assert forall|s: Seq<char>| r2.contains(s) <==> r.contains(s) by {
        if r.contains(s) {
            let i = choose|i: int| 0 <= i < r.len() && r[i] == s;
            assert(r.contains(r[i]));
            let k = choose|k: int| 0 <= k < groups.len() && #[trigger] canonical_group(groups[k]) == s;
            lemma_canonical_group_fixed(groups[k]);
            assert(canonical_group(r[i]) == s);
            assert(r2.contains(s));
        }
        if r2.contains(s) {
            let i = choose|i: int| 0 <= i < r.len() && #[trigger] canonical_group(r[i]) == s;
            assert(r.contains(r[i]));
            let k = choose|k: int| 0 <= k < groups.len() && #[trigger] canonical_group(groups[k]) == r[i];
            lemma_canonical_group_fixed(groups[k]);
        }
    }
    lemma_sorted_lists_equal(r2, r);
}

} // verus!
