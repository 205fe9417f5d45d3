//! Rules shared by the dashboard's session handling.
use vstd::prelude::*;
use crate::text::{chars_of, starts_with_lit};

verus! {

/// The prefix reserved for the accounts the service creates for itself.
pub open spec fn reserved_prefix() -> Seq<char> {
    "_monoize_"@
}

/// Whether `username` starts with the reserved prefix `_monoize_`.
pub fn is_reserved_internal_username(username: &str) -> (r: bool)
    ensures
        r == (reserved_prefix().len() <= username@.len() && username@.take(
            reserved_prefix().len() as int,
        ) == reserved_prefix()),
{
    let v = chars_of(username);
    starts_with_lit(&v, "_monoize_")
}

} // verus!
