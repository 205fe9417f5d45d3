use monoize::dashboard_handlers::providers::{billing_matrix_models, candidate_pricing_profiles, metadata_pricing_profile};
use monoize::dashboard_handlers::users::{admin_update_error, user_creation_refusal, user_deletion_refusal, user_update_refusal};
use monoize::dashboard_handlers::api_keys::{api_key_limit_error, transfer_access_error, transfer_amount_error};
use monoize::dashboard_handlers;
use monoize::dashboard_handlers::api_keys::canonicalize_dashboard_api_key_allowed_groups;
use monoize::dashboard_handlers::auth::{
    build_session_cookie, clear_session_cookie, extract_client_ip, login_input_error,
    registration_input_error, registration_role,
};
use monoize::dashboard_handlers::analytics_request_logs::{
    analytics_window, default_analytics_buckets, default_analytics_range_hours, AnalyticsQuery,
};
use monoize::dashboard_handlers::billing_plans::{
    default_multiplier, map_plan_error, plan_input, BillingPlanPriceRequest, CreateBillingPlanRequest,
};
use monoize::dashboard_handlers::groups::map_group_error;
use monoize::dashboard_handlers::model_prices::{
    map_sync_error, model_price_path_id, price_sync_runs_limit, PriceSyncError, PriceSyncRunsQuery,
};
use monoize::dashboard_handlers::performance::{brick_status, brick_statuses, BrickStatus, HourBucket};
use monoize::dashboard_handlers::providers::{
    build_gemini_models_list_url, build_models_list_url, extract_model_ids, fetch_channel_key_source,
    provider_has_billable_pricing, provider_pricing_model, stored_channel_api_key,
    FetchChannelModelsRequest, FetchKeySource,
};
use monoize::dashboard_handlers::session_helpers::is_reserved_internal_username;
use monoize::dashboard_handlers::users::{canonicalize_dashboard_user_allowed_groups, CreateUserRequest};
use monoize::monoize_routing::{MonoizeModelEntry, MonoizeProviderType};
use monoize::users::{canonicalize_groups, GroupStoreError, UserRole};

fn entry(redirect: Option<&str>) -> MonoizeModelEntry {
    MonoizeModelEntry {
        redirect: redirect.map(|r| r.to_string()),
        multiplier_nano: 1_000_000_000,
    }
}

#[test]
fn dashboard_handlers_build_models_list_url_adds_v1_when_missing() {
    assert_eq!(
        dashboard_handlers::build_models_list_url("https://openrouter.ai/api"),
        "https://openrouter.ai/api/v1/models"
    );
}

#[test]
fn build_models_list_url_keeps_user_provided_v1_suffix() {
    assert_eq!(
        dashboard_handlers::build_models_list_url("https://openrouter.ai/api/v1"),
        "https://openrouter.ai/api/v1/v1/models"
    );
    assert_eq!(
        dashboard_handlers::build_models_list_url("https://openrouter.ai/api/v1/"),
        "https://openrouter.ai/api/v1/v1/models"
    );
}

#[test]
fn dashboard_handlers_provider_pricing_model_uses_redirect_when_present() {
    let entry = entry(Some("  gpt-5-target  "));
    assert_eq!(
        dashboard_handlers::provider_pricing_model("gpt-5-logical", &entry),
        "gpt-5-target"
    );
}

#[test]
fn dashboard_handlers_provider_pricing_model_falls_back_to_logical_when_redirect_blank() {
    let entry = entry(Some("   "));
    assert_eq!(
        dashboard_handlers::provider_pricing_model("gpt-5-logical", &entry),
        "gpt-5-logical"
    );
}

#[test]
fn tests_build_models_list_url_adds_v1_when_missing() {
    assert_eq!(
        build_models_list_url("https://openrouter.ai/api"),
        "https://openrouter.ai/api/v1/models"
    );
}

#[test]
fn build_models_list_url_avoids_duplicate_v1_suffix() {
    assert_eq!(
        build_models_list_url("https://openrouter.ai/api/v1"),
        "https://openrouter.ai/api/v1/models"
    );
    assert_eq!(
        build_models_list_url("https://openrouter.ai/api/v1/"),
        "https://openrouter.ai/api/v1/models"
    );
}

#[test]
fn tests_provider_pricing_model_uses_redirect_when_present() {
    let entry = entry(Some("  gpt-5-target  "));
    assert_eq!(
        provider_pricing_model("gpt-5-logical", &entry),
        "gpt-5-target"
    );
}

#[test]
fn tests_provider_pricing_model_falls_back_to_logical_when_redirect_blank() {
    let entry = entry(Some("   "));
    assert_eq!(
        provider_pricing_model("gpt-5-logical", &entry),
        "gpt-5-logical"
    );
}

#[test]
fn provider_has_billable_pricing_accepts_logical_fallback_when_redirect_target_is_unpriced() {
    let entry = entry(Some("gpt-5-target"));
    let priced_ids = vec!["gpt-5-logical".to_string()];
    let reasoning_suffix_map: Vec<(String, String)> = Vec::new();

    assert!(provider_has_billable_pricing(
        "gpt-5-logical",
        &entry,
        &priced_ids,
        &reasoning_suffix_map,
    ));
}

#[test]
fn provider_has_billable_pricing_strips_reasoning_suffix_before_lookup() {
    let entry = entry(None);
    let priced_ids = vec!["gpt-5-mini".to_string()];
    let reasoning_suffix_map = vec![("-thinking".to_string(), "high".to_string())];

    assert!(provider_has_billable_pricing(
        "gpt-5-mini-thinking",
        &entry,
        &priced_ids,
        &reasoning_suffix_map,
    ));
}

#[test]
fn provider_without_any_price_is_not_billable() {
    let entry = entry(Some("other"));
    let priced_ids = vec!["gpt-5".to_string()];
    let map = vec![("-thinking".to_string(), "high".to_string())];
    assert!(!provider_has_billable_pricing("mistral", &entry, &priced_ids, &map));
    // a suffix alone is never cut down to nothing
    assert!(!provider_has_billable_pricing("-thinking", &entry, &vec!["".to_string()], &map));
}

#[test]
fn gemini_models_list_url_variants() {
    assert_eq!(
        build_gemini_models_list_url("https://generativelanguage.googleapis.com"),
        "https://generativelanguage.googleapis.com/v1beta/models"
    );
    assert_eq!(
        build_gemini_models_list_url("https://x.dev/v1beta//"),
        "https://x.dev/v1beta/models"
    );
    assert_eq!(build_gemini_models_list_url("https://x.dev/v1"), "https://x.dev/v1/models");
}

#[test]
fn brick_status_thresholds_match_dh9b() {
    assert_eq!(brick_status(0, 0), BrickStatus::Empty);
    assert_eq!(brick_status(100, 99), BrickStatus::Up);
    assert_eq!(brick_status(100, 98), BrickStatus::Degraded);
    assert_eq!(brick_status(100, 95), BrickStatus::Degraded);
    assert_eq!(brick_status(100, 94), BrickStatus::Down);
    assert_eq!(brick_status(1, 1), BrickStatus::Up);
    assert_eq!(brick_status(1, 0), BrickStatus::Down);
}

#[test]
fn brick_labels_and_bucketing() {
    assert_eq!(BrickStatus::Empty.as_str(), "empty");
    assert_eq!(BrickStatus::Degraded.as_str(), "degraded");
    let rows = vec![
        HourBucket { hour_idx: -3, finished_count: 10, success_count: 10 },
        HourBucket { hour_idx: 1, finished_count: 100, success_count: 90 },
        HourBucket { hour_idx: 99, finished_count: i64::MAX, success_count: i64::MAX },
        HourBucket { hour_idx: 2, finished_count: 1, success_count: 1 },
    ];
    let s = brick_statuses(&rows, 3);
    assert_eq!(s, vec![BrickStatus::Up, BrickStatus::Down, BrickStatus::Up]);
}

#[test]
fn dashboard_create_user_allowed_groups_default_to_unrestricted_and_canonicalize() {
    let mut body = CreateUserRequest {
        username: "alice".to_string(),
        password: "password123".to_string(),
        role: Some("user".to_string()),
        allowed_groups: Vec::new(),
    };

    assert!(body.allowed_groups.is_empty());

    body.allowed_groups = vec![
        " Beta ".to_string(),
        "alpha".to_string(),
        "ALPHA".to_string(),
        "".to_string(),
    ];
    canonicalize_dashboard_user_allowed_groups(&mut body.allowed_groups);

    assert_eq!(
        body.allowed_groups,
        vec!["alpha".to_string(), "beta".to_string()]
    );
}

#[test]
fn dashboard_create_api_key_allowed_groups_default_to_inherit_and_canonicalize() {
    let mut allowed_groups: Vec<String> = Vec::new();
    assert!(allowed_groups.is_empty());
    allowed_groups = vec![
        " Beta ".to_string(),
        "alpha".to_string(),
        "ALPHA".to_string(),
        "".to_string(),
    ];
    canonicalize_dashboard_api_key_allowed_groups(&mut allowed_groups);
    assert_eq!(allowed_groups, vec!["alpha".to_string(), "beta".to_string()]);
}

#[test]
fn dashboard_update_api_key_allowed_groups_is_partial_and_canonicalized_when_present() {
    let omitted: Option<Vec<String>> = None;
    assert!(omitted.is_none());
    let mut present: Option<Vec<String>> = Some(vec![
        " Beta ".to_string(),
        "alpha".to_string(),
        "ALPHA".to_string(),
        "".to_string(),
    ]);
    canonicalize_dashboard_api_key_allowed_groups(present.as_mut().expect("allowed_groups present"));
    assert_eq!(present, Some(vec!["alpha".to_string(), "beta".to_string()]));
}

#[test]
fn canonical_groups_sort_by_code_point_and_are_stable_under_repetition() {
    let once = canonicalize_groups(&vec![
        "zeta".to_string(),
        "\tGamma\n".to_string(),
        "gamma".to_string(),
        "Z".to_string(),
        "   ".to_string(),
    ]);
    assert_eq!(once, vec!["gamma".to_string(), "z".to_string(), "zeta".to_string()]);
    let twice = canonicalize_groups(&once);
    assert_eq!(twice, once);
}

#[test]
fn usernames_follow_the_rules() {
    assert!(dashboard_handlers::is_valid_username("abc"));
    assert!(dashboard_handlers::is_valid_username("User_123"));
    assert!(!dashboard_handlers::is_valid_username("ab"));
    assert!(!dashboard_handlers::is_valid_username("a-b-c"));
    assert!(!dashboard_handlers::is_valid_username("abcdefghijklmnopqrstuvw"));
    assert!(!dashboard_handlers::is_valid_username("héllo"));
    assert!(is_reserved_internal_username("_monoize_probe"));
    assert!(!is_reserved_internal_username("monoize_probe"));
}

#[test]
fn registration_checks_come_in_order() {
    let e = registration_input_error("a!", "short").expect("refused");
    assert_eq!((e.status, e.code.as_str()), (400, "invalid_username"));
    let e = registration_input_error("_monoize_x", "password123").expect("refused");
    assert_eq!(e.code, "reserved_username");
    let e = registration_input_error("alice", "1234567").expect("refused");
    assert_eq!(e.code, "invalid_password");
    assert_eq!(e.message, "password must be at least 8 characters");
    assert!(registration_input_error("alice", "12345678").is_none());
    let e = login_input_error("_monoize_probe").expect("refused");
    assert_eq!(e.status, 403);
    assert!(login_input_error("alice").is_none());
    assert_eq!(registration_role(0), UserRole::SuperAdmin);
    assert_eq!(registration_role(3), UserRole::User);
}

#[test]
fn session_cookie_text() {
    assert_eq!(
        build_session_cookie("tok", 7),
        "monoize_session=tok; HttpOnly; SameSite=Strict; Secure; Path=/; Max-Age=604800"
    );
    assert_eq!(
        build_session_cookie("tok", -2),
        "monoize_session=tok; HttpOnly; SameSite=Strict; Secure; Path=/; Max-Age=0"
    );
    assert_eq!(
        clear_session_cookie(),
        "monoize_session=; HttpOnly; SameSite=Strict; Secure; Path=/; Max-Age=0"
    );
}

#[test]
fn client_ip_prefers_forwarded_for() {
    assert_eq!(
        extract_client_ip(Some(" 10.0.0.1 , 10.0.0.2"), Some("9.9.9.9")),
        Some("10.0.0.1".to_string())
    );
    assert_eq!(extract_client_ip(None, Some(" 9.9.9.9 ")), Some("9.9.9.9".to_string()));
    assert_eq!(extract_client_ip(None, None), None);
}

#[test]
fn bearer_token_extraction() {
    assert_eq!(
        dashboard_handlers::extract_session_token(Some("Bearer abc")),
        Some("abc".to_string())
    );
    assert_eq!(dashboard_handlers::extract_session_token(Some("Basic abc")), None);
    assert_eq!(dashboard_handlers::extract_session_token(None), None);
}

#[test]
fn request_log_paging_and_defaults() {
    assert_eq!(dashboard_handlers::request_logs_page(0, -5), (1, 0));
    assert_eq!(dashboard_handlers::request_logs_page(500, 10), (200, 10));
    assert_eq!(dashboard_handlers::default_logs_limit(), 50);
    assert!(dashboard_handlers::default_quota_unlimited());
    assert_eq!(dashboard_handlers::default_group(), "default");
    assert_eq!(default_analytics_buckets(), 8);
    assert_eq!(default_analytics_range_hours(), 24);
    assert_eq!(analytics_window(&AnalyticsQuery { buckets: 100, range_hours: 0 }), (48, 1));
}

#[test]
fn plan_errors_are_answered_by_kind() {
    let e = map_plan_error("plan_name_exists".to_string());
    assert_eq!((e.status, e.code.as_str()), (409, "plan_name_exists"));
    let e = map_plan_error("invalid_plan_limits".to_string());
    assert_eq!((e.status, e.code.as_str(), e.message.as_str()), (400, "invalid_plan_limits", "invalid_plan_limits"));
    let e = map_plan_error("insufficient_balance".to_string());
    assert_eq!(e.status, 402);
    let e = map_plan_error("disk on fire".to_string());
    assert_eq!((e.status, e.code.as_str(), e.message.as_str()), (500, "internal_error", "disk on fire"));
    assert_eq!(default_multiplier(), "1");
}

#[test]
fn plan_input_carries_every_field() {
    let body = CreateBillingPlanRequest {
        name: "pro".to_string(),
        description: "d".to_string(),
        limit_5h_nano_usd: Some("5".to_string()),
        limit_24h_nano_usd: None,
        limit_7d_nano_usd: None,
        limit_30d_nano_usd: Some("30".to_string()),
        group_ids: vec!["g".to_string()],
        multiplier: "1.5".to_string(),
        listed: true,
        prices: vec![
            BillingPlanPriceRequest { price_nano_usd: Some("1".to_string()), price_usd: None, duration_seconds: 60 },
            BillingPlanPriceRequest { price_nano_usd: None, price_usd: Some("2".to_string()), duration_seconds: 120 },
        ],
    };
    let input = plan_input(body);
    assert_eq!(input.name, "pro");
    assert_eq!(input.limit_30d_nano_usd, Some("30".to_string()));
    assert_eq!(input.prices.len(), 2);
    assert_eq!(input.prices[1].price_usd, Some("2".to_string()));
    assert_eq!(input.prices[1].duration_seconds, 120);
}

#[test]
fn group_and_sync_errors_are_answered_by_kind() {
    let e = map_group_error(GroupStoreError::NameExists);
    assert_eq!((e.status, e.code.as_str()), (409, "group_name_exists"));
    let e = map_group_error(GroupStoreError::InvalidReorder("bad order".to_string()));
    assert_eq!((e.status, e.message.as_str()), (400, "bad order"));
    let e = map_sync_error(PriceSyncError::Upstream("down".to_string()));
    assert_eq!((e.status, e.code.as_str()), (502, "upstream_fetch_failed"));
    assert_eq!(price_sync_runs_limit(&PriceSyncRunsQuery { limit: None }), 20);
    assert_eq!(model_price_path_id("/openai/gpt-5").ok(), Some("openai/gpt-5".to_string()));
    assert_eq!(model_price_path_id("/").err().map(|e| e.status), Some(400));
}

#[test]
fn channel_key_source_and_stored_keys() {
    let mut body = FetchChannelModelsRequest {
        provider_type: MonoizeProviderType::Responses,
        base_url: "https://x".to_string(),
        api_key: Some("  sk-given ".to_string()),
        provider_id: None,
        channel_id: None,
    };
    assert!(matches!(fetch_channel_key_source(&body), Ok(FetchKeySource::Given(k)) if k == "sk-given"));
    body.api_key = Some("   ".to_string());
    assert_eq!(fetch_channel_key_source(&body).err().map(|e| e.message), Some("api_key is required for unsaved channels".to_string()));
    body.provider_id = Some(" p ".to_string());
    body.channel_id = Some("c".to_string());
    assert!(matches!(fetch_channel_key_source(&body), Ok(FetchKeySource::Stored { provider_id, channel_id }) if provider_id == "p" && channel_id == "c"));
    assert_eq!(stored_channel_api_key(Some(" stored-secret ")).ok(), Some("stored-secret".to_string()));
    assert_eq!(stored_channel_api_key(None).err().map(|e| e.message), Some("stored channel key could not be resolved".to_string()));
}

#[test]
fn listed_model_ids_are_unique_and_sorted() {
    let ids = vec!["zeta-model".to_string(), "alpha-model".to_string(), "alpha-model".to_string()];
    assert_eq!(
        extract_model_ids(MonoizeProviderType::Responses, &ids),
        vec!["alpha-model".to_string(), "zeta-model".to_string()]
    );
    let names = vec!["models/gemini-2.5-pro".to_string(), "gemini-2.5-pro".to_string(), "models/a".to_string()];
    assert_eq!(
        extract_model_ids(MonoizeProviderType::Gemini, &names),
        vec!["a".to_string(), "gemini-2.5-pro".to_string()]
    );
}

#[test]
fn admin_user_changes_are_guarded() {
    let e = user_creation_refusal(true, "alice", "password123").expect("refused");
    assert_eq!((e.status, e.message.as_str()), (403, "you cannot assign this role"));
    assert!(user_creation_refusal(false, "alice", "password123").is_none());
    let e = user_update_refusal(true, false, false, None, None).expect("refused");
    assert_eq!(e.message, "only super admin can modify super admin accounts");
    let e = user_update_refusal(true, true, false, Some("x"), None).expect("refused");
    assert_eq!(e.code, "invalid_username");
    let e = user_update_refusal(false, false, false, None, Some("short")).expect("refused");
    assert_eq!(e.code, "invalid_password");
    assert!(user_update_refusal(false, false, false, Some("bob_2"), Some("longenough")).is_none());
    let e = admin_update_error("billing plan not found".to_string());
    assert_eq!((e.status, e.code.as_str()), (404, "not_found"));
    let e = admin_update_error("invalid balance value".to_string());
    assert_eq!((e.status, e.code.as_str()), (400, "invalid_balance"));
    let e = admin_update_error("db locked".to_string());
    assert_eq!(e.status, 500);
    assert_eq!(user_deletion_refusal(true, "a", "b").map(|e| e.message), Some("cannot delete super admin account".to_string()));
    assert_eq!(user_deletion_refusal(false, "a", "a").map(|e| e.message), Some("cannot delete your own account".to_string()));
    assert!(user_deletion_refusal(false, "a", "b").is_none());
}

#[test]
fn api_key_limits_and_transfers() {
    let e = api_key_limit_error(5, 5).expect("at the limit");
    assert_eq!((e.status, e.message.as_str()), (403, "maximum of 5 API keys allowed per user"));
    assert!(api_key_limit_error(4, 5).is_none());
    assert!(api_key_limit_error(0, 0).is_some());
    assert!(transfer_amount_error(0).is_some());
    assert!(transfer_amount_error(1).is_none());
    assert!(transfer_access_error("u1", "u1", false).is_none());
    assert!(transfer_access_error("u1", "u2", true).is_none());
    assert_eq!(transfer_access_error("u1", "u2", false).map(|e| e.status), Some(404));
}

#[test]
fn metadata_names_a_pricing_profile_only_when_not_blank() {
    assert_eq!(metadata_pricing_profile(&Some("  openai ".to_string())), Some("openai".to_string()));
    assert_eq!(metadata_pricing_profile(&Some("   ".to_string())), None);
    assert_eq!(metadata_pricing_profile(&None), None);
}

#[test]
fn candidate_profiles_put_the_selected_one_first_without_repeats() {
    assert_eq!(candidate_pricing_profiles(Some("openai"), Some("anthropic".to_string())), vec!["openai", "anthropic"]);
    assert_eq!(candidate_pricing_profiles(Some("openai"), Some("openai".to_string())), vec!["openai"]);
    assert_eq!(candidate_pricing_profiles(None, Some("openai".to_string())), vec!["openai"]);
    assert_eq!(candidate_pricing_profiles(Some("openai"), None), vec!["openai"]);
    assert!(candidate_pricing_profiles(None, None).is_empty());
}

#[test]
fn matrix_models_try_the_served_model_then_the_logical_one() {
    let suffixes = vec![("-high".to_string(), "high".to_string())];
    assert_eq!(billing_matrix_models("gpt-5-high", &entry(None), &suffixes), vec!["gpt-5"]);
    assert_eq!(billing_matrix_models("alias", &entry(Some(" gpt-4o ")), &suffixes), vec!["gpt-4o", "alias"]);
}
