//! Who a forwarded request acts for: internal dashboard sources, the
//! resolved authorization of an API key, and the shape an API-key token
//! must have before the key store is asked.
use vstd::prelude::*;
use crate::custom_transforms::frontmatter::byte_len;
use crate::text::{chars_of, starts_with_lit};
use crate::transforms::TransformRuleConfig;
use crate::users::{ModelRedirectRule, UserRole};

verus! {

/// Requests the service makes on a dashboard user's behalf.
#[derive(Clone, Copy, Debug, PartialEq, Eq, Structural)]
pub enum InternalRequestSource {
    Playground,
}

impl InternalRequestSource {
    /// The request kind recorded for such a request.
    pub fn request_kind(self) -> (r: &'static str)
        ensures
            r@ == "playground"@,
    {
        match self {
            InternalRequestSource::Playground => "playground",
        }
    }
}

/// The authorization a forwarded request carries: the tenant and user, the
/// key it came with, and the limits and rules that key imposes. The price
/// ceiling is in nano units of the multiplier (10^9 = 1.0).
#[derive(Clone, Debug)]
pub struct AuthResult {
    pub tenant_id: String,
    pub user_id: Option<String>,
    pub username: Option<String>,
    pub user_role: UserRole,
    pub api_key_id: Option<String>,
    pub api_key_name: Option<String>,
    pub internal_source: Option<InternalRequestSource>,
    pub max_multiplier_nano: Option<i128>,
    pub transforms: Vec<TransformRuleConfig>,
    pub model_redirects: Vec<ModelRedirectRule>,
    pub effective_groups: Option<Vec<String>>,
    pub model_limits_enabled: bool,
    pub model_limits: Vec<String>,
    pub ip_whitelist: Vec<String>,
    pub sub_account_enabled: bool,
    pub sub_account_balance_nano: String,
    pub reasoning_envelope_enabled: bool,
}

/// Authenticates forwarded requests; it holds no state of its own.
#[derive(Clone, Copy, Debug)]
pub struct AuthState {}

impl AuthState {
    /// The authenticator.
    pub fn new() -> (r: Self)
        ensures
            r == (AuthState {}),
    {
        AuthState {}
    }
}

impl Default for AuthState {
    fn default() -> (r: Self)
        ensures
            r == (AuthState {}),
    {
        AuthState::new()
    }
}

/// Whether `token` can be an API key at all: it starts with `sk-` and is at
/// least 12 bytes long. Other tokens are refused without asking the store.
pub open spec fn api_key_token_shape(token: Seq<char>) -> bool {
    token.len() >= 3 && token.take(3) == "sk-"@ && byte_len(token) >= 12
}

/// Whether `token` has the shape of an API key.
pub fn is_api_key_token(token: &str) -> (r: bool)
    ensures
        r == api_key_token_shape(token@),
{
    proof {
        reveal_strlit("sk-");
    }
    let v = chars_of(token);
    starts_with_lit(&v, "sk-") && token.len() >= 12
}

/// What the key store gives for a valid API key: the key's own settings.
#[derive(Debug)]
pub struct ApiKeyGrant {
    pub id: String,
    pub name: String,
    pub max_multiplier_nano: Option<i128>,
    pub transforms: Vec<TransformRuleConfig>,
    pub model_redirects: Vec<ModelRedirectRule>,
    pub model_limits_enabled: bool,
    pub model_limits: Vec<String>,
    pub ip_whitelist: Vec<String>,
    pub sub_account_enabled: bool,
    pub sub_account_balance_nano: String,
    pub reasoning_envelope_enabled: bool,
}

/// The account that owns a valid API key.
#[derive(Debug)]
pub struct KeyOwner {
    pub id: String,
    pub username: String,
    pub role: UserRole,
}

/// Whether `a` is the authorization a valid key gives: the owner is the
/// tenant and user, the key's settings are the request's limits and rules,
/// the groups are the resolved list, and there is no internal source.
pub open spec fn authorizes(a: AuthResult, key: ApiKeyGrant, owner: KeyOwner, groups: Vec<String>) -> bool {
    &&& a.tenant_id@ == owner.id@
    &&& (a.user_id matches Some(u) && u@ == owner.id@)
    &&& (a.username matches Some(n) && n@ == owner.username@)
    &&& a.user_role == owner.role
    &&& (a.api_key_id matches Some(k) && k@ == key.id@)
    &&& (a.api_key_name matches Some(n) && n@ == key.name@)
    &&& a.internal_source is None
    &&& a.max_multiplier_nano == key.max_multiplier_nano
    &&& a.transforms == key.transforms
    &&& a.model_redirects == key.model_redirects
    &&& a.effective_groups == Some(groups)
    &&& a.model_limits_enabled == key.model_limits_enabled
    &&& a.model_limits == key.model_limits
    &&& a.ip_whitelist == key.ip_whitelist
    &&& a.sub_account_enabled == key.sub_account_enabled
    &&& a.sub_account_balance_nano == key.sub_account_balance_nano
    &&& a.reasoning_envelope_enabled == key.reasoning_envelope_enabled
}

/// The authorization of a request made with a valid API key: the owner is
/// the tenant and user, the key's settings are the request's limits and
/// rules, and `effective_groups` (the owner's and key's groups resolved by
/// the account rules) is always a concrete list; no internal source.
pub fn auth_result_for_key(key: ApiKeyGrant, owner: KeyOwner, effective_groups: Vec<String>) -> (r: AuthResult)
    ensures
        authorizes(r, key, owner, effective_groups),
{
    AuthResult {
        tenant_id: owner.id.clone(),
        user_id: Some(owner.id),
        username: Some(owner.username),
        user_role: owner.role,
        api_key_id: Some(key.id),
        api_key_name: Some(key.name),
        internal_source: None,
        max_multiplier_nano: key.max_multiplier_nano,
        transforms: key.transforms,
        model_redirects: key.model_redirects,
        effective_groups: Some(effective_groups),
        model_limits_enabled: key.model_limits_enabled,
        model_limits: key.model_limits,
        ip_whitelist: key.ip_whitelist,
        sub_account_enabled: key.sub_account_enabled,
        sub_account_balance_nano: key.sub_account_balance_nano,
        reasoning_envelope_enabled: key.reasoning_envelope_enabled,
    }
}

/// How a bearer token authenticates: a token without the API-key shape is
/// refused at once; one with it is looked up (the lookup is the caller's),
/// and a found key yields its owner's authorization, a missing one none.
pub fn authenticate_with_lookup(
    token: &str,
    found: Option<(ApiKeyGrant, KeyOwner, Vec<String>)>,
) -> (r: Option<AuthResult>)
    ensures
        !api_key_token_shape(token@) ==> r is None,
        api_key_token_shape(token@) ==> match found {
            Some((k, o, g)) => r matches Some(a) && authorizes(a, k, o, g),
            None => r is None,
        },
{
    if !is_api_key_token(token) {
        return None;
    }
    match found {
        Some((key, owner, groups)) => Some(auth_result_for_key(key, owner, groups)),
        None => None,
    }
}

} // verus!
