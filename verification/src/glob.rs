//! Case-sensitive glob matching for model patterns.
//!
//! Matching is anchored to the whole value; `*` matches any sequence of zero
//! or more characters, `?` matches exactly one character, and every other
//! character matches only itself. Both wildcards match any Unicode scalar
//! value, newline included.
use crate::text::chars_of;
use vstd::prelude::*;

verus! {

/// Whether `p[i..]` matches `v[j..]` under the glob rules.
pub open spec fn glob_from(p: Seq<char>, v: Seq<char>, i: int, j: int) -> bool
    recommends
        0 <= i <= p.len(),
        0 <= j <= v.len(),
    decreases p.len() - i, v.len() - j,
    when 0 <= i <= p.len() && 0 <= j <= v.len()
{
    if i == p.len() {
        j == v.len()
    } else if p[i] == '*' {
        glob_from(p, v, i + 1, j) || (j < v.len() && glob_from(p, v, i, j + 1))
    } else if p[i] == '?' {
        j < v.len() && glob_from(p, v, i + 1, j + 1)
    } else {
        j < v.len() && p[i] == v[j] && glob_from(p, v, i + 1, j + 1)
    }
}

/// The whole of `pattern` matches the whole of `value`.
pub open spec fn glob_spec(pattern: Seq<char>, value: Seq<char>) -> bool {
    glob_from(pattern, value, 0, 0)
}

/// `p[a..a+len]` holds no `*` and matches `v[k..k+len]` character by character.
pub open spec fn literal_run(p: Seq<char>, v: Seq<char>, a: int, k: int, len: int) -> bool {
    &&& 0 <= a && a + len <= p.len()
    &&& 0 <= k && k + len <= v.len()
    &&& forall|t: int|
        0 <= t < len ==> #[trigger] p[a + t] != '*' && (p[a + t] == '?' || p[a + t] == v[k + t])
}

/// `p[a..b]` holds no `*`.
pub open spec fn star_free(p: Seq<char>, a: int, b: int) -> bool {
    forall|t: int| a <= t < b ==> #[trigger] p[t] != '*'
}

/// Every character of `p[i..]` is `*`.
pub open spec fn all_stars_from(p: Seq<char>, i: int) -> bool {
    forall|t: int| i <= t < p.len() ==> #[trigger] p[t] == '*'
}

/// Against an exhausted value, a pattern suffix matches iff it is all stars.
proof fn lemma_exhausted_value(p: Seq<char>, v: Seq<char>, i: int)
    requires
        0 <= i <= p.len(),
    ensures
        glob_from(p, v, i, v.len() as int) == all_stars_from(p, i),
    decreases p.len() - i,
{
    if i < p.len() {
        lemma_exhausted_value(p, v, i + 1);
        if p[i] == '*' {
            assert(all_stars_from(p, i) == all_stars_from(p, i + 1));
        }
    }
}

/// A star-free pattern segment of length `len` consumes exactly `len` value
/// characters, one by one.
proof fn lemma_star_free_segment(p: Seq<char>, v: Seq<char>, a: int, k: int, len: int)
    requires
        0 <= a,
        0 <= len,
        a + len <= p.len(),
        0 <= k <= v.len(),
        star_free(p, a, a + len),
    ensures
        glob_from(p, v, a, k) == (literal_run(p, v, a, k, len) && glob_from(
            p,
            v,
            a + len,
            k + len,
        )),
    decreases len,
{
    if len > 0 {
        assert(p[a] != '*');
        if k < v.len() {
            lemma_star_free_segment(p, v, a + 1, k + 1, len - 1);
            if literal_run(p, v, a + 1, k + 1, len - 1) && (p[a] == '?' || p[a] == v[k]) {
                assert forall|t: int| 0 <= t < len implies #[trigger] p[a + t] != '*' && (p[a
                    + t] == '?' || p[a + t] == v[k + t]) by {
                    if t > 0 {
                        assert(p[(a + 1) + (t - 1)] != '*');
                    }
                }
            }
            if literal_run(p, v, a, k, len) {
                assert forall|t: int| 0 <= t < len - 1 implies #[trigger] p[(a + 1) + t] != '*'
                    && (p[(a + 1) + t] == '?' || p[(a + 1) + t] == v[(k + 1) + t]) by {
                    assert(p[a + (t + 1)] != '*');
                }
                assert(p[a + 0] == '?' || p[a + 0] == v[k + 0]);
            }
        } else {
            assert(!literal_run(p, v, a, k, len));
        }
    } else {
        assert(literal_run(p, v, a, k, len));
    }
}

/// A star at `i` matches iff the rest matches from some later value position.
proof fn lemma_star(p: Seq<char>, v: Seq<char>, i: int, j: int)
    requires
        0 <= i < p.len(),
        0 <= j <= v.len(),
        p[i] == '*',
    ensures
        glob_from(p, v, i, j) == (exists|k: int| j <= k <= v.len() && #[trigger] glob_from(
            p,
            v,
            i + 1,
            k,
        )),
    decreases v.len() - j,
{
    if j < v.len() {
        lemma_star(p, v, i, j + 1);
    }
    if exists|k: int| j <= k <= v.len() && #[trigger] glob_from(p, v, i + 1, k) {
        let k = choose|k: int| j <= k <= v.len() && #[trigger] glob_from(p, v, i + 1, k);
        if k > j {
            assert(glob_from(p, v, i, j + 1));
        }
    }
    if glob_from(p, v, i, j) {
        if !glob_from(p, v, i + 1, j) {
            let k = choose|k: int| j + 1 <= k <= v.len() && #[trigger] glob_from(p, v, i + 1, k);
            assert(glob_from(p, v, i + 1, k));
        }
    }
}

/// The matcher's state after a star: the star at `s` is being tried against
/// the value from `sm`; `p[s+1..pi]` has matched `v[sm..vi]` literally; and
/// the whole match succeeds iff the rest after the star matches from some
/// position at or after `sm`.
spec fn star_state(ps: Seq<char>, vs: Seq<char>, s: int, pi: int, vi: int, sm: int, result: bool) -> bool {
    &&& 0 <= s < pi <= ps.len()
    &&& 0 <= sm <= vi <= vs.len()
    &&& ps[s] == '*'
    &&& pi - (s + 1) == vi - sm
    &&& literal_run(ps, vs, s + 1, sm, pi - (s + 1))
    &&& result == (exists|k: int| sm <= k <= vs.len() && #[trigger] glob_from(ps, vs, s + 1, k))
}

proof fn lemma_segment_star_free(ps: Seq<char>, vs: Seq<char>, s: int, pi: int, sm: int)
    requires
        0 <= s < pi <= ps.len(),
        0 <= sm,
        literal_run(ps, vs, s + 1, sm, pi - (s + 1)),
    ensures
        star_free(ps, s + 1, pi),
{
    assert forall|t: int| s + 1 <= t < pi implies #[trigger] ps[t] != '*' by {
        assert(ps[(s + 1) + (t - (s + 1))] != '*');
    }
}

/// One more literal character matches after the star.
proof fn lemma_star_state_advance(ps: Seq<char>, vs: Seq<char>, s: int, pi: int, vi: int, sm: int, result: bool)
    requires
        star_state(ps, vs, s, pi, vi, sm, result),
        pi < ps.len(),
        vi < vs.len(),
        ps[pi] != '*',
        ps[pi] == '?' || ps[pi] == vs[vi],
    ensures
        star_state(ps, vs, s, pi + 1, vi + 1, sm, result),
{
    let len = pi - (s + 1);
    assert forall|t: int| 0 <= t < len + 1 implies #[trigger] ps[(s + 1) + t] != '*' && (ps[(s + 1)
        + t] == '?' || ps[(s + 1) + t] == vs[sm + t]) by {
        if t < len {
            assert(ps[(s + 1) + t] != '*');
        }
    }
}

/// A star reached with no earlier star to fall back on.
proof fn lemma_first_star(ps: Seq<char>, vs: Seq<char>, pi: int, vi: int, result: bool)
    requires
        0 <= pi < ps.len(),
        0 <= vi <= vs.len(),
        ps[pi] == '*',
        result == glob_from(ps, vs, pi, vi),
    ensures
        star_state(ps, vs, pi, pi + 1, vi, vi, result),
{
    lemma_star(ps, vs, pi, vi);
    assert(literal_run(ps, vs, pi + 1, vi, 0));
}

/// A later star replaces the earlier one: the earlier star's alternatives
/// all pass through this one.
proof fn lemma_next_star(ps: Seq<char>, vs: Seq<char>, s: int, pi: int, vi: int, sm: int, result: bool)
    requires
        star_state(ps, vs, s, pi, vi, sm, result),
        pi < ps.len(),
        ps[pi] == '*',
    ensures
        star_state(ps, vs, pi, pi + 1, vi, vi, result),
{
    let len = pi - (s + 1);
    lemma_star(ps, vs, pi, vi);
    lemma_segment_star_free(ps, vs, s, pi, sm);
    lemma_star_free_segment(ps, vs, s + 1, sm, len);
    if result {
        let k = choose|k: int| sm <= k <= vs.len() && #[trigger] glob_from(ps, vs, s + 1, k);
        lemma_star_free_segment(ps, vs, s + 1, k, len);
        lemma_star(ps, vs, pi, k + len);
        let k2 = choose|k2: int| k + len <= k2 <= vs.len() && #[trigger] glob_from(ps, vs, pi + 1, k2);
        assert(vi <= k2);
    }
    if exists|k: int| vi <= k <= vs.len() && #[trigger] glob_from(ps, vs, pi + 1, k) {
        assert(glob_from(ps, vs, pi, vi));
        assert(glob_from(ps, vs, s + 1, sm));
    }
    assert(literal_run(ps, vs, pi + 1, vi, 0));
}

/// On a mismatch after a star, the star swallows one more value character.
proof fn lemma_star_backtrack(ps: Seq<char>, vs: Seq<char>, s: int, pi: int, vi: int, sm: int, result: bool)
    requires
        star_state(ps, vs, s, pi, vi, sm, result),
        vi < vs.len(),
        !(pi < ps.len() && ps[pi] != '*' && (ps[pi] == '?' || ps[pi] == vs[vi])),
        !(pi < ps.len() && ps[pi] == '*'),
    ensures
        star_state(ps, vs, s, s + 1, sm + 1, sm + 1, result),
{
    let len = pi - (s + 1);
    lemma_segment_star_free(ps, vs, s, pi, sm);
    lemma_star_free_segment(ps, vs, s + 1, sm, len);
    assert(!glob_from(ps, vs, pi, vi));
    assert(!glob_from(ps, vs, s + 1, sm));
    if result {
        let k = choose|k: int| sm <= k <= vs.len() && #[trigger] glob_from(ps, vs, s + 1, k);
        assert(k != sm);
        assert(sm + 1 <= k);
    }
    if exists|k: int| sm + 1 <= k <= vs.len() && #[trigger] glob_from(ps, vs, s + 1, k) {
        let k = choose|k: int| sm + 1 <= k <= vs.len() && #[trigger] glob_from(ps, vs, s + 1, k);
        assert(sm <= k);
    }
    assert(literal_run(ps, vs, s + 1, sm + 1, 0));
}

/// Once the value is used up after a star, the match depends only on the
/// pattern's remaining characters.
proof fn lemma_star_state_end(ps: Seq<char>, vs: Seq<char>, s: int, pi: int, vi: int, sm: int, result: bool)
    requires
        star_state(ps, vs, s, pi, vi, sm, result),
        vi == vs.len(),
    ensures
        result == glob_from(ps, vs, pi, vi),
{
    let len = pi - (s + 1);
    lemma_segment_star_free(ps, vs, s, pi, sm);
    lemma_star_free_segment(ps, vs, s + 1, sm, len);
    if result {
        let k = choose|k: int| sm <= k <= vs.len() && #[trigger] glob_from(ps, vs, s + 1, k);
        if k > sm {
            lemma_star_free_segment(ps, vs, s + 1, k, len);
        }
    }
}

/// Returns true when `value` matches the anchored, case-sensitive glob
/// `pattern` (`*` = any sequence, `?` = exactly one character).
pub fn case_sensitive_glob_match(pattern: &str, value: &str) -> (r: bool)
    ensures
        r == glob_spec(pattern@, value@),
{
    let p = chars_of(pattern);
    let v = chars_of(value);
    let ghost ps = p@;
    let ghost vs = v@;
    if p.len() == 1 && p[0] == '*' {
        proof {
            lemma_star(ps, vs, 0, 0);
            lemma_exhausted_value(ps, vs, 1);
            assert(glob_from(ps, vs, 1, vs.len() as int));
        }
        return true;
    }
    let ghost result = glob_spec(ps, vs);
    let mut pi: usize = 0;
    let mut vi: usize = 0;
    let mut last_star: Option<usize> = None;
    let mut sm: usize = 0;

    while vi < v.len()
        invariant
            ps == p@,
            vs == v@,
            result == glob_spec(ps, vs),
            ps == pattern@,
            vs == value@,
            pi <= p.len(),
            vi <= v.len(),
            last_star is None ==> result == glob_from(ps, vs, pi as int, vi as int),
            last_star matches Some(s) ==> star_state(ps, vs, s as int, pi as int, vi as int, sm as int, result),
        decreases (if last_star is None { 1int } else { 0int }), v.len() - sm, v.len() - vi, p.len() - pi,
    {
        if pi < p.len() && p[pi] != '*' && (p[pi] == '?' || p[pi] == v[vi]) {
            proof {
                if let Some(s) = last_star {
                    lemma_star_state_advance(ps, vs, s as int, pi as int, vi as int, sm as int, result);
                }
            }
            pi += 1;
            vi += 1;
        } else if pi < p.len() && p[pi] == '*' {
            proof {
                match last_star {
                    Some(s) => lemma_next_star(ps, vs, s as int, pi as int, vi as int, sm as int, result),
                    None => lemma_first_star(ps, vs, pi as int, vi as int, result),
                }
            }
            last_star = Some(pi);
            pi += 1;
            sm = vi;
        } else if let Some(s) = last_star {
            proof {
                lemma_star_backtrack(ps, vs, s as int, pi as int, vi as int, sm as int, result);
            }
            sm += 1;
            vi = sm;
            pi = s + 1;
        } else {
            proof {
                assert(!glob_from(ps, vs, pi as int, vi as int));
            }
            return false;
        }
    }

    proof {
        if let Some(s) = last_star {
            lemma_star_state_end(ps, vs, s as int, pi as int, vi as int, sm as int, result);
        }
    }

    while pi < p.len() && p[pi] == '*'
        invariant
            ps == p@,
            vs == v@,
            pi <= p.len(),
            vi == v.len(),
            result == glob_from(ps, vs, pi as int, vi as int),
        decreases p.len() - pi,
    {
        pi += 1;
    }
    proof {
        lemma_exhausted_value(ps, vs, pi as int);
        if pi < p.len() {
            assert(!all_stars_from(ps, pi as int));
        }
    }
    pi == p.len()
}

} // verus!
