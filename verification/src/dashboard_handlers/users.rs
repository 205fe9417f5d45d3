//! Administrator user management: request bodies and the group-list rule.
use vstd::prelude::*;
use crate::custom_transforms::frontmatter::byte_len;
use crate::dashboard_handlers::{is_valid_username, valid_username};
use crate::dashboard_handlers::auth::{is_reserved, registration_input_error, registration_refusal};
use crate::dashboard_handlers::session_helpers::is_reserved_internal_username;
use crate::error::{app_error, AppError, STATUS_BAD_REQUEST, STATUS_FORBIDDEN, STATUS_INTERNAL_SERVER_ERROR, STATUS_NOT_FOUND};
use crate::text::{chars_of, contains_lit, contains_seq, occurs_at, string_of};
use crate::users::{canonicalize_groups, is_canonical_groups_of, string_views};

verus! {

/// Body of an administrator's request to create a user; without
/// `allowed_groups` the user may use every group.
#[derive(Clone, Debug)]
pub struct CreateUserRequest {
    pub username: String,
    pub password: String,
    pub role: Option<String>,
    pub allowed_groups: Vec<String>,
}

/// Body of an administrator's request to change a user. An absent field
/// leaves the user unchanged; for `email` and `billing_plan_id`,
/// `Some(None)` clears the value.
#[derive(Clone, Debug)]
pub struct UpdateUserRequest {
    pub username: Option<String>,
    pub password: Option<String>,
    pub role: Option<String>,
    pub enabled: Option<bool>,
    pub balance_nano_usd: Option<String>,
    pub balance_usd: Option<String>,
    pub balance_unlimited: Option<bool>,
    pub email: Option<Option<String>>,
    pub allowed_groups: Option<Vec<String>>,
    pub billing_plan_id: Option<Option<String>>,
}

/// Replaces a user's group list by its canonical form.
pub fn canonicalize_dashboard_user_allowed_groups(groups: &mut Vec<String>)
    ensures
        is_canonical_groups_of(string_views(final(groups)@), string_views(old(groups)@)),
{
    let c = canonicalize_groups(groups);
    *groups = c;
}


/// Why an administrator may not create this user, in the order checked:
/// the role is one they may not assign (403), then the user name and
/// password rules of registration (400); `None` when nothing stands in the
/// way.
pub fn user_creation_refusal(role_forbidden: bool, username: &str, password: &str) -> (r: Option<AppError>)
    ensures
        role_forbidden ==> (r matches Some(e) && e.status == 403 && e.code@ == "forbidden"@
            && e.message@ == "you cannot assign this role"@),
        !role_forbidden ==> match registration_refusal(username@, password@) {
            Some((code, message)) => r matches Some(e) && e.status == 400 && e.code@ == code
                && e.message@ == message,
            None => r is None,
        },
{
    if role_forbidden {
        return Some(app_error(STATUS_FORBIDDEN, "forbidden", "you cannot assign this role"));
    }
    registration_input_error(username, password)
}

/// Why an administrator may not apply this change to a user, in the order
/// checked: only a super administrator may change a super administrator's
/// account; a role they may not assign; an invalid or reserved new user
/// name; a new password under 8 bytes.
pub open spec fn user_update_refusal_spec(
    target_is_super_admin: bool,
    actor_is_super_admin: bool,
    role_forbidden: bool,
    username: Option<Seq<char>>,
    password: Option<Seq<char>>,
) -> Option<(u16, Seq<char>, Seq<char>)> {
    if target_is_super_admin && !actor_is_super_admin {
        Some((403, "forbidden"@, "only super admin can modify super admin accounts"@))
    } else if role_forbidden {
        Some((403, "forbidden"@, "you cannot assign this role"@))
    } else if username matches Some(u) && !valid_username(u) {
        Some((400, "invalid_username"@, "username must be 3-22 characters, only letters, digits and underscores"@))
    } else if username matches Some(u) && is_reserved(u) {
        Some((400, "reserved_username"@, "username prefix _monoize_ is reserved"@))
    } else if password matches Some(p) && byte_len(p) < 8 {
        Some((400, "invalid_password"@, "password must be at least 8 characters"@))
    } else {
        None
    }
}

/// The error a user update is refused with before the store is asked, or
/// `None` (see `user_update_refusal_spec`).
pub fn user_update_refusal(
    target_is_super_admin: bool,
    actor_is_super_admin: bool,
    role_forbidden: bool,
    username: Option<&str>,
    password: Option<&str>,
) -> (r: Option<AppError>)
    ensures
        match user_update_refusal_spec(
            target_is_super_admin,
            actor_is_super_admin,
            role_forbidden,
            match username { Some(u) => Some(u@), None => None },
            match password { Some(p) => Some(p@), None => None },
        ) {
            Some((status, code, message)) => r matches Some(e) && e.status == status && e.code@ == code
                && e.message@ == message,
            None => r is None,
        },
{
    if target_is_super_admin && !actor_is_super_admin {
        return Some(app_error(STATUS_FORBIDDEN, "forbidden", "only super admin can modify super admin accounts"));
    }
    if role_forbidden {
        return Some(app_error(STATUS_FORBIDDEN, "forbidden", "you cannot assign this role"));
    }
    if let Some(u) = username {
        if !is_valid_username(u) {
            return Some(app_error(STATUS_BAD_REQUEST, "invalid_username", "username must be 3-22 characters, only letters, digits and underscores"));
        }
        if is_reserved_internal_username(u) {
            return Some(app_error(STATUS_BAD_REQUEST, "reserved_username", "username prefix _monoize_ is reserved"));
        }
    }
    if let Some(p) = password {
        if p.len() < 8 {
            return Some(app_error(STATUS_BAD_REQUEST, "invalid_password", "password must be at least 8 characters"));
        }
    }
    None
}

proof fn lemma_plan_message_mentions_not_found(e: Seq<char>)
    requires
        contains_seq(e, "billing plan not found"@),
    ensures
        contains_seq(e, "not found"@),
{
    reveal_strlit("billing plan not found");
    reveal_strlit("not found");
    let lit = "billing plan not found"@;
    let tail = "not found"@;
    let i = choose|i: int| #[trigger] occurs_at(e, lit, i);
    assert forall|k: int| 0 <= k < 9 implies #[trigger] e.subrange(i + 13, i + 22)[k] == tail[k] by {
        assert(e.subrange(i, i + 22)[13 + k] == lit[13 + k]);
    }
    assert(e.subrange(i + 13, i + 22) =~= tail);
    assert(occurs_at(e, tail, i + 13));
}

/// How a failed user update is answered, by what the store's message says:
/// `not found` gives 404, else `invalid` gives 400 `invalid_balance`, else
/// 500; the message is passed on. (A missing billing plan is reported by the
/// store as `billing plan not found`, so it is answered 404 as well.)
pub fn admin_update_error(e: String) -> (r: AppError)
    ensures
        contains_seq(e@, "not found"@) ==> r.status == 404 && r.code@ == "not_found"@,
        !contains_seq(e@, "not found"@) && contains_seq(e@, "invalid"@) ==> r.status == 400
            && r.code@ == "invalid_balance"@,
        !contains_seq(e@, "not found"@) && !contains_seq(e@, "invalid"@) ==> r.status == 500
            && r.code@ == "internal_error"@,
        r.message@ == e@,
{
    let v = chars_of(e.as_str());
    proof {
        if contains_seq(e@, "billing plan not found"@) {
            lemma_plan_message_mentions_not_found(e@);
        }
    }
    if contains_lit(&v, "not found") {
        AppError::new(STATUS_NOT_FOUND, string_of("not_found"), e)
    } else if contains_lit(&v, "billing plan not found") {
        AppError::new(STATUS_BAD_REQUEST, string_of("invalid_billing_plan"), e)
    } else if contains_lit(&v, "invalid") {
        AppError::new(STATUS_BAD_REQUEST, string_of("invalid_balance"), e)
    } else {
        AppError::new(STATUS_INTERNAL_SERVER_ERROR, string_of("internal_error"), e)
    }
}

/// Why an administrator may not delete a user: super administrator accounts
/// are never deleted, and nobody deletes their own account.
pub fn user_deletion_refusal(target_is_super_admin: bool, actor_id: &str, target_id: &str) -> (r: Option<AppError>)
    ensures
        target_is_super_admin ==> (r matches Some(e) && e.status == 403 && e.message@
            == "cannot delete super admin account"@),
        !target_is_super_admin && actor_id@ == target_id@ ==> (r matches Some(e) && e.status == 403
            && e.message@ == "cannot delete your own account"@),
        !target_is_super_admin && actor_id@ != target_id@ ==> r is None,
{
    if target_is_super_admin {
        return Some(app_error(STATUS_FORBIDDEN, "forbidden", "cannot delete super admin account"));
    }
    let a = string_of(actor_id);
    let t = string_of(target_id);
    if a == t {
        Some(app_error(STATUS_FORBIDDEN, "forbidden", "cannot delete your own account"))
    } else {
        None
    }
}

} // verus!
