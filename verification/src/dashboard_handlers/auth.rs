//! Sign-up, sign-in and session cookies: the request and response bodies and
//! the checks made on them before any account is touched.
use vstd::prelude::*;
use crate::custom_transforms::frontmatter::byte_len;
use crate::dashboard_handlers::{is_valid_username, valid_username};
use crate::dashboard_handlers::session_helpers::{is_reserved_internal_username, reserved_prefix};
use crate::decimal::{decimal_of, u64_to_decimal};
use crate::error::{app_error, AppError, STATUS_BAD_REQUEST, STATUS_FORBIDDEN, STATUS_UNAUTHORIZED};
use crate::text::{chars_of, find_char, find_char_from, lemma_find_char_bounds, push_chars, push_lit, slice_vec, string_from_chars, string_of, trim, trim_vec};
use crate::users::UserRole;

verus! {

/// Body of a registration request.
#[derive(Clone, Debug)]
pub struct RegisterRequest {
    pub username: String,
    pub password: String,
}

/// Body of a login request.
#[derive(Clone, Debug)]
pub struct LoginRequest {
    pub username: String,
    pub password: String,
}

/// A user as the dashboard shows it.
#[derive(Clone, Debug)]
pub struct UserResponse {
    pub id: String,
    pub username: String,
    pub role: UserRole,
    pub created_at: String,
    pub last_login_at: Option<String>,
    pub enabled: bool,
    pub balance_nano_usd: String,
    pub balance_usd: String,
    pub balance_unlimited: bool,
    pub email: Option<String>,
    pub allowed_groups: Vec<String>,
}

/// Reply to a successful login or registration: the session token and user.
#[derive(Clone, Debug)]
pub struct AuthResponse {
    pub token: String,
    pub user: UserResponse,
}

/// Body of a request to change one's own account; `Some(None)` clears the
/// e-mail address, an absent field leaves it.
#[derive(Clone, Debug)]
pub struct UpdateMeRequest {
    pub email: Option<Option<String>>,
}

/// Whether `username` starts with the reserved prefix.
pub open spec fn is_reserved(username: Seq<char>) -> bool {
    reserved_prefix().len() <= username.len() && username.take(reserved_prefix().len() as int)
        == reserved_prefix()
}

/// Why a registration is refused before the account store is asked: the
/// code and message of the 400 answer, or `None` when the input passes.
pub open spec fn registration_refusal(username: Seq<char>, password: Seq<char>) -> Option<(Seq<char>, Seq<char>)> {
    if !valid_username(username) {
        Some(("invalid_username"@, "username must be 3-22 characters, only letters, digits and underscores"@))
    } else if is_reserved(username) {
        Some(("reserved_username"@, "username prefix _monoize_ is reserved"@))
    } else if byte_len(password) < 8 {
        Some(("invalid_password"@, "password must be at least 8 characters"@))
    } else {
        None
    }
}

/// The error a registration with these credentials is refused with before
/// the account store is asked (status 400), or `None`.
pub fn registration_input_error(username: &str, password: &str) -> (r: Option<AppError>)
    ensures
        match registration_refusal(username@, password@) {
            Some((code, message)) => r matches Some(e) && e.status == 400 && e.code@ == code
                && e.message@ == message,
            None => r is None,
        },
{
    if !is_valid_username(username) {
        return Some(app_error(STATUS_BAD_REQUEST, "invalid_username", "username must be 3-22 characters, only letters, digits and underscores"));
    }
    if is_reserved_internal_username(username) {
        return Some(app_error(STATUS_BAD_REQUEST, "reserved_username", "username prefix _monoize_ is reserved"));
    }
    if password.len() < 8 {
        return Some(app_error(STATUS_BAD_REQUEST, "invalid_password", "password must be at least 8 characters"));
    }
    None
}

/// The error a login under a reserved user name is refused with (403), or
/// `None` for any other name.
pub fn login_input_error(username: &str) -> (r: Option<AppError>)
    ensures
        is_reserved(username@) ==> (r matches Some(e) && e.status == 403 && e.code@
            == "reserved_username"@ && e.message@ == "username prefix _monoize_ is reserved"@),
        !is_reserved(username@) ==> r is None,
{
    if is_reserved_internal_username(username) {
        Some(app_error(STATUS_FORBIDDEN, "reserved_username", "username prefix _monoize_ is reserved"))
    } else {
        None
    }
}

/// The role of a newly registered account: the very first account is the
/// super administrator, every later one an ordinary user.
pub fn registration_role(existing_users: u64) -> (r: UserRole)
    ensures
        r == (if existing_users == 0 {
            UserRole::SuperAdmin
        } else {
            UserRole::User
        }),
{
    if existing_users == 0 {
        UserRole::SuperAdmin
    } else {
        UserRole::User
    }
}

/// The first entry of a comma-separated list, trimmed.
pub open spec fn first_list_entry(v: Seq<char>) -> Seq<char> {
    match find_char_from(v, ',', 0) {
        Some(k) => trim(v.take(k)),
        None => trim(v),
    }
}

/// The client address of a request: the first entry of `X-Forwarded-For`,
/// trimmed, else `X-Real-IP`, trimmed (each as readable header text).
pub fn extract_client_ip(forwarded_for: Option<&str>, real_ip: Option<&str>) -> (r: Option<String>)
    ensures
        match forwarded_for {
            Some(f) => r matches Some(ip) && ip@ == first_list_entry(f@),
            None => match real_ip {
                Some(x) => r matches Some(ip) && ip@ == trim(x@),
                None => r is None,
            },
        },
{
    match forwarded_for {
        Some(f) => {
            let v = chars_of(f);
            proof {
                lemma_find_char_bounds(v@, ',', 0);
            }
            let first = match find_char(&v, ',', 0) {
                Some(k) => slice_vec(&v, 0, k),
                None => slice_vec(&v, 0, v.len()),
            };
            proof {
                assert(v@.subrange(0, v@.len() as int) =~= v@);
                assert(v@.subrange(0, v@.len() as int) =~= v@.take(v@.len() as int));
            }
            let t = trim_vec(&first);
            Some(string_from_chars(&t))
        },
        None => match real_ip {
            Some(x) => {
                let t = trim_vec(&chars_of(x));
                Some(string_from_chars(&t))
            },
            None => None,
        },
    }
}

/// `ttl_days` in seconds, negative values counting as zero.
pub open spec fn cookie_max_age(ttl_days: i64) -> nat {
    if ttl_days < 0 {
        0
    } else {
        (ttl_days * 86400) as nat
    }
}

/// The `Set-Cookie` value that stores session `token` for `ttl_days` days.
pub fn build_session_cookie(token: &str, ttl_days: i64) -> (r: String)
    requires
        ttl_days * 86400 <= i64::MAX,
    ensures
        r@ == "monoize_session="@ + token@ + "; HttpOnly; SameSite=Strict; Secure; Path=/; Max-Age="@
            + decimal_of(cookie_max_age(ttl_days)),
{
    let days: i64 = if ttl_days < 0 {
        0
    } else {
        ttl_days
    };
    let max_age = (days * 86400) as u64;
    let digits = u64_to_decimal(max_age);
    let mut out = string_of("monoize_session=");
    push_lit(&mut out, token);
    push_lit(&mut out, "; HttpOnly; SameSite=Strict; Secure; Path=/; Max-Age=");
    push_chars(&mut out, &digits);
    out
}

/// The `Set-Cookie` value that removes the session cookie.
pub fn clear_session_cookie() -> (r: String)
    ensures
        r@ == "monoize_session=; HttpOnly; SameSite=Strict; Secure; Path=/; Max-Age=0"@,
{
    string_of("monoize_session=; HttpOnly; SameSite=Strict; Secure; Path=/; Max-Age=0")
}

/// The refusal of a registration while sign-up is closed: once an account
/// exists, registering needs registration to be enabled (403
/// `registration_disabled`). The first account can always register.
pub fn registration_closed_error(existing_users: u64, registration_enabled: bool) -> (r: Option<AppError>)
    ensures
        (existing_users > 0 && !registration_enabled) ==> (r matches Some(e) && e.status == 403 && e.code@
            == "registration_disabled"@ && e.message@ == "user registration is currently disabled"@),
        !(existing_users > 0 && !registration_enabled) ==> r is None,
{
    if existing_users > 0 && !registration_enabled {
        Some(app_error(STATUS_FORBIDDEN, "registration_disabled", "user registration is currently disabled"))
    } else {
        None
    }
}

/// How a sign-in ends, as (status, code, message) of the refusal: an
/// unknown user name and a wrong password get the same 401
/// `invalid_credentials`, a disabled account 403 `account_disabled`; `None`
/// when the sign-in succeeds. The password is only checked for an enabled
/// account.
pub open spec fn login_refusal(user_found: bool, enabled: bool, password_ok: bool) -> Option<
    (u16, Seq<char>, Seq<char>),
> {
    if !user_found {
        Some((401u16, "invalid_credentials"@, "invalid username or password"@))
    } else if !enabled {
        Some((403u16, "account_disabled"@, "your account has been disabled"@))
    } else if !password_ok {
        Some((401u16, "invalid_credentials"@, "invalid username or password"@))
    } else {
        None
    }
}

/// The error a sign-in is refused with (see [`login_refusal`]), or `None`.
pub fn login_error(user_found: bool, enabled: bool, password_ok: bool) -> (r: Option<AppError>)
    ensures
        match login_refusal(user_found, enabled, password_ok) {
            Some((status, code, message)) => r matches Some(e) && e.status == status && e.code@ == code
                && e.message@ == message,
            None => r is None,
        },
{
    if !user_found || (enabled && !password_ok) {
        Some(app_error(STATUS_UNAUTHORIZED, "invalid_credentials", "invalid username or password"))
    } else if !enabled {
        Some(app_error(STATUS_FORBIDDEN, "account_disabled", "your account has been disabled"))
    } else {
        None
    }
}

/// A sign-in does not tell an unknown user name from a wrong password: both
/// are refused with the same error.
pub proof fn law_unknown_user_and_wrong_password_look_alike(enabled: bool, password_ok: bool)
    ensures
        login_refusal(false, enabled, password_ok) == login_refusal(true, true, false),
{
}

} // verus!
