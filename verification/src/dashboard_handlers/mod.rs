//! Dashboard request handling: the rules the dashboard endpoints apply to
//! their inputs (user names, session tokens, pagination, model-listing URLs)
//! and the request and response bodies they exchange.
use vstd::prelude::*;
use std::collections::HashMap;
use crate::custom_transforms::frontmatter::byte_len;
use crate::handlers::{redirect_target, resolve_upstream_model};
use crate::monoize_routing::MonoizeModelEntry;
use crate::text::{chars_of, strip_trailing, strip_trailing_vec, concat_chars_lit, string_from_chars, slice_vec, starts_with_lit};
use crate::users::UserRole;

pub mod session_helpers;
pub mod users;
pub mod api_keys;
pub mod groups;
pub mod auth;
pub mod billing_plans;
pub mod model_prices;
pub mod analytics_request_logs;
pub mod performance;
pub mod providers;

verus! {

/// A character allowed in a user name: an ASCII letter or digit, or `_`.
pub open spec fn username_char(c: char) -> bool {
    ('a' <= c && c <= 'z') || ('A' <= c && c <= 'Z') || ('0' <= c && c <= '9') || c == '_'
}

/// 3 to 22 bytes, each an ASCII letter, digit or underscore.
pub open spec fn valid_username(s: Seq<char>) -> bool {
    &&& 3 <= byte_len(s) <= 22
    &&& forall|i: int| 0 <= i < s.len() ==> #[trigger] username_char(s[i])
}

/// Whether `username` is 3 to 22 bytes of ASCII letters, digits and `_`.
pub fn is_valid_username(username: &str) -> (r: bool)
    ensures
        r == valid_username(username@),
{
    let n = username.len();
    if n < 3 || n > 22 {
        return false;
    }
    let v = chars_of(username);
    let mut i: usize = 0;
    while i < v.len()
        invariant
            v@ == username@,
            3 <= byte_len(username@) <= 22,
            i <= v@.len(),
            forall|t: int| 0 <= t < i ==> #[trigger] username_char(v@[t]),
        decreases v@.len() - i,
    {
        let c = v[i];
        if !(('a' <= c && c <= 'z') || ('A' <= c && c <= 'Z') || ('0' <= c && c <= '9') || c == '_') {
            proof {
                assert(!username_char(username@[i as int]));
            }
            return false;
        }
        i += 1;
    }
    true
}

/// Body of a registration request.
#[derive(Clone, Debug)]
pub struct RegisterRequest {
    pub username: String,
    pub password: String,
}

/// Body of a login request.
#[derive(Clone, Debug)]
pub struct LoginRequest {
    pub username: String,
    pub password: String,
}

/// A user as the dashboard shows it.
#[derive(Clone, Debug)]
pub struct UserResponse {
    pub id: String,
    pub username: String,
    pub role: UserRole,
    pub created_at: String,
    pub last_login_at: Option<String>,
    pub enabled: bool,
    pub balance_nano_usd: String,
    pub balance_usd: String,
    pub balance_unlimited: bool,
}

/// Reply to a successful login or registration: the session token and user.
#[derive(Clone, Debug)]
pub struct AuthResponse {
    pub token: String,
    pub user: UserResponse,
}

/// Body of an administrator's request to create a user.
#[derive(Clone, Debug)]
pub struct CreateUserRequest {
    pub username: String,
    pub password: String,
    pub role: Option<String>,
}

/// Body of an administrator's request to change a user; absent fields stay.
#[derive(Clone, Debug)]
pub struct UpdateUserRequest {
    pub username: Option<String>,
    pub password: Option<String>,
    pub role: Option<String>,
    pub enabled: Option<bool>,
    pub balance_nano_usd: Option<String>,
    pub balance_usd: Option<String>,
    pub balance_unlimited: Option<bool>,
}

/// Body of a request to delete several API keys.
#[derive(Clone, Debug)]
pub struct BatchDeleteApiKeysRequest {
    pub ids: Vec<String>,
}

/// Body of a request to change the site settings; absent fields stay.
#[derive(Clone, Debug)]
pub struct UpdateSettingsRequest {
    pub registration_enabled: Option<bool>,
    pub default_user_role: Option<String>,
    pub session_ttl_days: Option<i64>,
    pub api_key_max_per_user: Option<i64>,
    pub site_name: Option<String>,
    pub site_description: Option<String>,
    pub api_base_url: Option<String>,
    pub reasoning_suffix_map: Option<HashMap<String, String>>,
}

/// An API key created without an explicit quota setting is unlimited.
pub fn default_quota_unlimited() -> (r: bool)
    ensures
        r,
{
    true
}

/// The group an API key joins when the request names none.
pub fn default_group() -> (r: String)
    ensures
        r@ == "default"@,
{
    string_of_default()
}

fn string_of_default() -> (r: String)
    ensures
        r@ == "default"@,
{
    crate::text::string_of("default")
}

/// The session token of an `Authorization` header value: what follows
/// `Bearer `, if the value starts with it.
pub open spec fn bearer_token(value: Seq<char>) -> Option<Seq<char>> {
    if value.len() >= 7 && value.take(7) == "Bearer "@ {
        Some(value.skip(7))
    } else {
        None
    }
}

/// The session token carried by the `Authorization` header, if any.
pub fn extract_session_token(authorization: Option<&str>) -> (r: Option<String>)
    ensures
        r matches Some(t) ==> authorization matches Some(a) && bearer_token(a@) == Some(t@),
        r is None ==> (authorization matches Some(a) ==> bearer_token(a@) is None),
{
    proof {
        reveal_strlit("Bearer ");
    }
    match authorization {
        None => None,
        Some(a) => {
            let v = chars_of(a);
            if starts_with_lit(&v, "Bearer ") {
                let rest = slice_vec(&v, 7, v.len());
                Some(string_from_chars(&rest))
            } else {
                None
            }
        },
    }
}

/// The model whose price applies to a provider's model entry: the non-blank
/// redirect target, trimmed, else the logical model.
pub fn provider_pricing_model(logical_model: &str, model_entry: &MonoizeModelEntry) -> (r: String)
    ensures
        r@ == (match redirect_target(*model_entry) {
            Some(t) => t,
            None => logical_model@,
        }),
{
    resolve_upstream_model(logical_model, model_entry)
}

/// Body of a request to list the models of an unsaved channel.
#[derive(Clone, Debug)]
pub struct FetchChannelModelsRequest {
    pub base_url: String,
    pub api_key: String,
}

/// `base_url` without trailing slashes, followed by `/v1/models`.
pub fn build_models_list_url(base_url: &str) -> (r: String)
    ensures
        r@ == strip_trailing(base_url@, '/') + "/v1/models"@,
{
    let base = strip_trailing_vec(&chars_of(base_url), '/');
    concat_chars_lit(&base, "/v1/models")
}

/// Query of a request-log listing.
#[derive(Clone, Debug)]
pub struct RequestLogsQuery {
    pub limit: i64,
    pub offset: i64,
    pub model: Option<String>,
    pub status: Option<String>,
    pub api_key_id: Option<String>,
    pub username: Option<String>,
    pub search: Option<String>,
}

/// Page size of a request-log listing that names none.
pub fn default_logs_limit() -> (r: i64)
    ensures
        r == 50,
{
    50
}

/// The page a request-log listing reads: the limit clamped to 1..=200 and
/// the offset raised to at least 0.
pub fn request_logs_page(limit: i64, offset: i64) -> (r: (i64, i64))
    ensures
        r.0 == (if limit < 1 {
            1
        } else if limit > 200 {
            200
        } else {
            limit
        }),
        r.1 == (if offset < 0 {
            0
        } else {
            offset
        }),
{
    let l = if limit < 1 {
        1
    } else if limit > 200 {
        200
    } else {
        limit
    };
    let o = if offset < 0 {
        0
    } else {
        offset
    };
    (l, o)
}

} // verus!
