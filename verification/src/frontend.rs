//! Which embedded dashboard asset answers a request path.
use vstd::prelude::*;
use crate::text::{chars_of, eq_lit, starts_with_lit, string_from_chars};

verus! {

/// `s` with every leading `c` removed.
pub open spec fn strip_leading(s: Seq<char>, c: char) -> Seq<char>
    decreases s.len(),
{
    if s.len() > 0 && s[0] == c {
        strip_leading(s.drop_first(), c)
    } else {
        s
    }
}

/// How a request for a dashboard page is answered.
#[derive(Clone, Debug)]
pub enum FrontendTarget {
    /// Not found: not a `GET`, or an `api` path.
    NotFound,
    /// The single-page application's `index.html`.
    Index,
    /// This asset when it exists, else `index.html`.
    AssetOrIndex(String),
}

/// The answer for a request: `GET` only; the path without leading slashes;
/// the empty path is the index; `api` and `api/...` are never pages.
pub open spec fn frontend_target_of(is_get: bool, path: Seq<char>) -> Option<Option<Seq<char>>> {
    let p = strip_leading(path, '/');
    if !is_get {
        None
    } else if p.len() == 0 {
        Some(None)
    } else if p == "api"@ || (p.len() >= 4 && p.take(4) == "api/"@) {
        None
    } else {
        Some(Some(p))
    }
}

/// How a request with this method and path is answered (`None`: not found;
/// `Some(None)`: the index; `Some(Some(p))`: asset `p` if it exists).
pub fn frontend_target(is_get: bool, path: &str) -> (r: FrontendTarget)
    ensures
        match frontend_target_of(is_get, path@) {
            None => r is NotFound,
            Some(None) => r is Index,
            Some(Some(p)) => r matches FrontendTarget::AssetOrIndex(a) && a@ == p,
        },
{
    proof {
        reveal_strlit("api/");
    }
    if !is_get {
        return FrontendTarget::NotFound;
    }
    let v = chars_of(path);
    let mut i: usize = 0;
    assert(v@.skip(0) =~= v@);
    while i < v.len() && v[i] == '/'
        invariant
            i <= v@.len(),
            strip_leading(v@.skip(i as int), '/') == strip_leading(v@, '/'),
        decreases v@.len() - i,
    {
        proof {
            assert(v@.skip(i as int).drop_first() =~= v@.skip(i + 1));
        }
        i += 1;
    }
    let p = crate::text::slice_vec(&v, i, v.len());
    assert(p@ =~= v@.skip(i as int));
    assert(strip_leading(p@, '/') == p@);
    if p.len() == 0 {
        return FrontendTarget::Index;
    }
    if eq_lit(&p, "api") || starts_with_lit(&p, "api/") {
        return FrontendTarget::NotFound;
    }
    FrontendTarget::AssetOrIndex(string_from_chars(&p))
}

} // verus!
