//! The rules of the API-key and balance caches: when an entry is stale, and
//! which entries an invalidation drops. The caches themselves, whose entries
//! are account records and whose clock is the process's, are kept by the
//! application.
use vstd::prelude::*;

verus! {

/// Whether an entry cached at `cached_at_ms` is stale at `now_ms`: more than
/// `ttl_ms` have passed since (a clock that went back counts as no time).
pub open spec fn is_stale(cached_at_ms: u64, now_ms: u64, ttl_ms: u64) -> bool {
    now_ms > cached_at_ms && now_ms - cached_at_ms > ttl_ms
}

/// Whether a cached entry is stale (see [`is_stale`]).
pub fn entry_is_stale(cached_at_ms: u64, now_ms: u64, ttl_ms: u64) -> (r: bool)
    ensures
        r == is_stale(cached_at_ms, now_ms, ttl_ms),
{
    now_ms > cached_at_ms && now_ms - cached_at_ms > ttl_ms
}

/// What an invalidation of the API-key cache names.
#[derive(Debug)]
pub enum KeyInvalidation {
    /// One key, by its id.
    KeyId(String),
    /// Every key of one user.
    UserId(String),
    /// Every key among these ids.
    KeyIds(Vec<String>),
    /// The entry under one key prefix.
    Prefix(String),
    /// Every entry.
    All,
}

/// Whether `key_id` is one of `ids`.
pub open spec fn lists_key(ids: Seq<String>, key_id: Seq<char>) -> bool {
    exists|i: int| 0 <= i < ids.len() && #[trigger] ids[i]@ == key_id
}

/// Whether the entry under `prefix`, for key `key_id` of user `user_id`,
/// survives invalidation `inv`.
pub open spec fn survives(inv: KeyInvalidation, prefix: Seq<char>, key_id: Seq<char>, user_id: Seq<char>) -> bool {
    match inv {
        KeyInvalidation::KeyId(id) => key_id != id@,
        KeyInvalidation::UserId(u) => user_id != u@,
        KeyInvalidation::KeyIds(ids) => !lists_key(ids@, key_id),
        KeyInvalidation::Prefix(p) => prefix != p@,
        KeyInvalidation::All => false,
    }
}

/// Whether an entry survives an invalidation (see [`survives`]).
pub fn entry_survives(inv: &KeyInvalidation, prefix: &String, key_id: &String, user_id: &String) -> (r: bool)
    ensures
        r == survives(*inv, prefix@, key_id@, user_id@),
{
    match inv {
        KeyInvalidation::KeyId(id) => *key_id != *id,
        KeyInvalidation::UserId(u) => *user_id != *u,
        KeyInvalidation::KeyIds(ids) => {
            let mut i: usize = 0;
            while i < ids.len()
                invariant
                    i <= ids@.len(),
                    *inv == KeyInvalidation::KeyIds(*ids),
                    forall|j: int| 0 <= j < i ==> #[trigger] ids@[j]@ != key_id@,
                decreases ids@.len() - i,
            {
                if ids[i] == *key_id {
                    proof {
                        assert(ids@[i as int]@ == key_id@);
                        assert(*inv == KeyInvalidation::KeyIds(*ids));
                        assert(lists_key(ids@, key_id@));
                    }
                    return false;
                }
                i += 1;
            }
            proof {
                assert(!lists_key(ids@, key_id@));
            }
            true
        },
        KeyInvalidation::Prefix(p) => *prefix != *p,
        KeyInvalidation::All => false,
    }
}

} // verus!
