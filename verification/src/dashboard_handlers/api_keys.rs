//! API-key management: request bodies and the group-list rule.
use vstd::prelude::*;
use crate::decimal::{i64_to_decimal, signed_decimal_of};
use crate::error::{app_error, AppError, STATUS_BAD_REQUEST, STATUS_FORBIDDEN, STATUS_NOT_FOUND};
use crate::text::{push_chars, push_lit, string_of};
use crate::users::{canonicalize_groups, is_canonical_groups_of, string_views};

verus! {

/// Body of a request to delete several API keys.
#[derive(Clone, Debug)]
pub struct BatchDeleteApiKeysRequest {
    pub ids: Vec<String>,
}

/// Body of a request to move balance to a key's sub-account, in nano-USD or
/// USD text.
#[derive(Clone, Debug)]
pub struct TransferToSubAccountRequest {
    pub amount_nano_usd: Option<String>,
    pub amount_usd: Option<String>,
}

/// Replaces an API key's group list by its canonical form.
pub fn canonicalize_dashboard_api_key_allowed_groups(groups: &mut Vec<String>)
    ensures
        is_canonical_groups_of(string_views(final(groups)@), string_views(old(groups)@)),
{
    let c = canonicalize_groups(groups);
    *groups = c;
}


/// Whether a user who holds `existing` keys is refused another: at or above
/// the configured maximum (read as an unsigned count, as the store does),
/// the answer is 403 `max_api_keys_reached`.
pub fn api_key_limit_error(existing: usize, max_per_user: i64) -> (r: Option<AppError>)
    ensures
        existing >= (max_per_user as usize) ==> (r matches Some(e) && e.status == 403 && e.code@
            == "max_api_keys_reached"@ && e.message@ == "maximum of "@ + signed_decimal_of(
            max_per_user as int,
        ) + " API keys allowed per user"@),
        existing < (max_per_user as usize) ==> r is None,
{
    if existing >= max_per_user as usize {
        let mut m = string_of("maximum of ");
        push_chars(&mut m, &i64_to_decimal(max_per_user));
        push_lit(&mut m, " API keys allowed per user");
        Some(AppError::new(STATUS_FORBIDDEN, string_of("max_api_keys_reached"), m))
    } else {
        None
    }
}

/// Whether a transfer amount is refused: only positive amounts move.
pub fn transfer_amount_error(amount_nano: i128) -> (r: Option<AppError>)
    ensures
        amount_nano <= 0 ==> (r matches Some(e) && e.status == 400 && e.code@ == "invalid_request"@
            && e.message@ == "transfer amount must be positive"@),
        amount_nano > 0 ==> r is None,
{
    if amount_nano <= 0 {
        Some(app_error(STATUS_BAD_REQUEST, "invalid_request", "transfer amount must be positive"))
    } else {
        None
    }
}

/// Whether a user may move balance into a key's sub-account: their own key,
/// or any key for an administrator. Others are told the key does not exist.
pub fn transfer_access_error(key_owner_id: &str, user_id: &str, is_admin: bool) -> (r: Option<AppError>)
    ensures
        (key_owner_id@ == user_id@ || is_admin) ==> r is None,
        !(key_owner_id@ == user_id@ || is_admin) ==> (r matches Some(e) && e.status == 404 && e.code@
            == "not_found"@ && e.message@ == "API key not found"@),
{
    let owner = string_of(key_owner_id);
    let user = string_of(user_id);
    if owner != user && !is_admin {
        Some(app_error(STATUS_NOT_FOUND, "not_found", "API key not found"))
    } else {
        None
    }
}

} // verus!
