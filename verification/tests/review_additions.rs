use monoize::api_key_cache::{entry_is_stale, entry_survives, KeyInvalidation};
use monoize::app::{effective_probe_enabled, runtime_health_settings, HealthSettings};
use monoize::auth::{auth_result_for_key, authenticate_with_lookup, ApiKeyGrant, KeyOwner};
use monoize::custom_transforms::sandbox::{read_outcome, OutcomeData};
use monoize::dashboard_handlers::analytics_request_logs::usage_owner_filter;
use monoize::dashboard_handlers::auth::{login_error, registration_closed_error};
use monoize::db::{statement_text, DbBackend};
use monoize::handlers::{balance_guard, model_glob_match, BillingErrorKind};
use monoize::json::{JsonNumber, JsonValue};
use monoize::users::UserRole;

fn s(v: &str) -> JsonValue {
    JsonValue::Str(v.to_string())
}

fn obj(members: Vec<(&str, JsonValue)>) -> JsonValue {
    JsonValue::Object(members.into_iter().map(|(k, v)| (k.to_string(), v)).collect())
}

#[test]
fn model_globs_match_across_line_feeds() {
    assert!(model_glob_match("a*", "a\nb"));
    assert!(model_glob_match("a?b", "a\nb"));
    assert!(model_glob_match("gpt-4.1*", "gpt-4.1-mini"));
    assert!(!model_glob_match("gpt-4.1*", "gpt-401"));
    assert!(!model_glob_match("GPT-*", "gpt-4"));
    assert!(model_glob_match("a+b", "a+b"));
}

#[test]
fn sqlite_statements_use_numbered_question_marks() {
    assert_eq!(statement_text(DbBackend::Sqlite, "SELECT * FROM t WHERE a = $1 AND b = $12"), "SELECT * FROM t WHERE a = ?1 AND b = ?12");
    assert_eq!(statement_text(DbBackend::Sqlite, "SELECT '$' || $x, $"), "SELECT '$' || $x, $");
    assert_eq!(statement_text(DbBackend::Postgres, "SELECT $1"), "SELECT $1");
}

#[test]
fn registration_closes_once_an_account_exists() {
    assert!(registration_closed_error(0, false).is_none());
    assert!(registration_closed_error(3, true).is_none());
    let e = registration_closed_error(3, false).unwrap();
    assert_eq!((e.status, e.code.as_str()), (403, "registration_disabled"));
}

#[test]
fn sign_in_refusals_do_not_tell_unknown_users_from_wrong_passwords() {
    let unknown = login_error(false, true, true).unwrap();
    let wrong = login_error(true, true, false).unwrap();
    assert_eq!((unknown.status, unknown.code.as_str(), unknown.message.as_str()), (wrong.status, wrong.code.as_str(), wrong.message.as_str()));
    assert_eq!(unknown.status, 401);
    let disabled = login_error(true, false, false).unwrap();
    assert_eq!((disabled.status, disabled.code.as_str()), (403, "account_disabled"));
    assert!(login_error(true, true, true).is_none());
}

#[test]
fn only_administrators_see_everyones_usage() {
    assert_eq!(usage_owner_filter(UserRole::Admin, "u1"), None);
    assert_eq!(usage_owner_filter(UserRole::SuperAdmin, "u1"), None);
    assert_eq!(usage_owner_filter(UserRole::User, "u1"), Some("u1".to_string()));
}

#[test]
fn runtime_health_settings_are_at_least_one() {
    let stored = HealthSettings {
        passive_failure_threshold: 0,
        passive_cooldown_seconds: 30,
        passive_window_seconds: 0,
        passive_min_samples: 5,
        passive_rate_limit_cooldown_seconds: 0,
        active_enabled: true,
        active_interval_seconds: 0,
        active_success_threshold: 2,
        request_timeout_ms: 0,
    };
    let r = runtime_health_settings(&stored);
    assert_eq!(r.passive_failure_threshold, 1);
    assert_eq!(r.passive_cooldown_seconds, 30);
    assert_eq!(r.passive_window_seconds, 1);
    assert_eq!(r.passive_min_samples, 5);
    assert_eq!(r.passive_rate_limit_cooldown_seconds, 1);
    assert!(r.active_enabled);
    assert_eq!(r.active_interval_seconds, 1);
    assert_eq!(r.active_success_threshold, 2);
    assert_eq!(r.request_timeout_ms, 1);
    assert!(!effective_probe_enabled(Some(false), true));
    assert!(effective_probe_enabled(None, true));
}

fn grant() -> ApiKeyGrant {
    ApiKeyGrant {
        id: "k1".to_string(),
        name: "main".to_string(),
        max_multiplier_nano: Some(2_000_000_000),
        transforms: vec![],
        model_redirects: vec![],
        model_limits_enabled: true,
        model_limits: vec!["gpt-4o".to_string()],
        ip_whitelist: vec![],
        sub_account_enabled: false,
        sub_account_balance_nano: "0".to_string(),
        reasoning_envelope_enabled: false,
    }
}

fn owner() -> KeyOwner {
    KeyOwner { id: "u1".to_string(), username: "alice".to_string(), role: UserRole::User }
}

#[test]
fn a_valid_key_authorizes_for_its_owner() {
    let a = auth_result_for_key(grant(), owner(), vec!["default".to_string()]);
    assert_eq!(a.tenant_id, "u1");
    assert_eq!(a.user_id.as_deref(), Some("u1"));
    assert_eq!(a.username.as_deref(), Some("alice"));
    assert_eq!(a.api_key_id.as_deref(), Some("k1"));
    assert_eq!(a.max_multiplier_nano, Some(2_000_000_000));
    assert_eq!(a.effective_groups, Some(vec!["default".to_string()]));
    assert!(a.internal_source.is_none());
    assert!(authenticate_with_lookup("short", Some((grant(), owner(), vec![]))).is_none());
    assert!(authenticate_with_lookup("sk-0123456789", None).is_none());
    assert!(authenticate_with_lookup("sk-0123456789", Some((grant(), owner(), vec![]))).is_some());
}

#[test]
fn sandbox_outcome_documents_are_read() {
    let doc = obj(vec![("state", obj(vec![("n", JsonValue::Number(JsonNumber::PosInt(1)))])), ("out", obj(vec![("t", s("data")), ("data", obj(vec![]))]))]);
    let (data, state) = read_outcome("request", &doc).unwrap();
    assert!(matches!(data, OutcomeData::Single(JsonValue::Object(ref m)) if m.is_empty()));
    assert!(matches!(state, JsonValue::Object(ref m) if m.len() == 1));

    let doc = obj(vec![("out", obj(vec![("t", s("array")), ("items", JsonValue::Array(vec![obj(vec![]), obj(vec![])]))]))]);
    let (data, state) = read_outcome("stream", &doc).unwrap();
    assert!(matches!(data, OutcomeData::Fanout(ref items) if items.len() == 2));
    assert!(matches!(state, JsonValue::Object(ref m) if m.is_empty()));

    assert_eq!(read_outcome("stream", &obj(vec![])).unwrap_err(), "sandbox outcome is missing 'out'");
    assert_eq!(
        read_outcome("request", &obj(vec![("out", obj(vec![]))])).unwrap_err(),
        "transform returned a value of type 'invalid'; expected undefined or an object"
    );
    let dropped = obj(vec![("out", obj(vec![("t", s("null"))]))]);
    assert!(matches!(read_outcome("stream", &dropped).unwrap().0, OutcomeData::Dropped));
}

#[test]
fn cache_entries_go_stale_after_their_ttl_and_invalidations_drop_what_they_name() {
    assert!(!entry_is_stale(1_000, 1_500, 500));
    assert!(entry_is_stale(1_000, 1_501, 500));
    assert!(!entry_is_stale(2_000, 1_000, 0));
    let p = "sk-abcdefghi".to_string();
    let k = "k1".to_string();
    let u = "u1".to_string();
    assert!(!entry_survives(&KeyInvalidation::KeyId("k1".to_string()), &p, &k, &u));
    assert!(entry_survives(&KeyInvalidation::KeyId("k2".to_string()), &p, &k, &u));
    assert!(!entry_survives(&KeyInvalidation::UserId("u1".to_string()), &p, &k, &u));
    assert!(!entry_survives(&KeyInvalidation::KeyIds(vec!["k0".to_string(), "k1".to_string()]), &p, &k, &u));
    assert!(entry_survives(&KeyInvalidation::KeyIds(vec![]), &p, &k, &u));
    assert!(!entry_survives(&KeyInvalidation::Prefix(p.clone()), &p, &k, &u));
    assert!(!entry_survives(&KeyInvalidation::All, &p, &k, &u));
}

#[test]
fn the_balance_guard_passes_internal_traffic_and_refuses_users_who_may_not_spend() {
    assert!(balance_guard(false, Err((BillingErrorKind::InsufficientBalance, String::new()))).is_ok());
    assert!(balance_guard(true, Ok(())).is_ok());
    let e = balance_guard(true, Err((BillingErrorKind::InsufficientBalance, String::new()))).unwrap_err();
    assert_eq!((e.status, e.code.as_str()), (402, "insufficient_balance"));
    let e = balance_guard(true, Err((BillingErrorKind::Internal, "db down".to_string()))).unwrap_err();
    assert_eq!((e.status, e.message.as_str()), (500, "db down"));
}
