use monoize::handlers::{validate_embeddings_request, EmbeddingsRequestShape, JsonShape};
use monoize::handlers::{channel_probe_due, effective_probe_interval, effective_probe_threshold, mark_channel_probe_result, probe_model};
use monoize::handlers::should_replace_stream_usage;
use monoize::handlers::{plan_usage_charge, resolve_max_multiplier, ChargePlan};
use monoize::handlers::{auth_bearer_token, balance_refusal, upstream_error_to_app, BillingErrorKind};
use monoize::app::scale_charge_with_multiplier;
use monoize::config::ProviderType;
use monoize::handlers::{
    calculate_charge_nano, filter_eligible_channels, finish_reason_to_chat, has_enabled_response_rules,
    is_non_retryable_client_error, is_retryable_error, mark_channel_retryable_failure,
    mark_channel_success, max_channel_attempts, model_glob_match, non_negative_i128_to_u64,
    provider_extra_headers, resolve_model_suffix, resolve_upstream_model, upstream_path,
    upstream_path_for_model, weighted_shuffle_channels, shuffle_channels_with_seeds,
};
use monoize::model_registry_store::ModelPricing;
use monoize::monoize_routing::{ChannelHealthState, ChannelHealthTable, MonoizeChannel, MonoizeModelEntry};
use monoize::settings::normalize_pricing_model_key;
use monoize::transforms::{Phase, TransformRuleConfig};
use monoize::urp::{FinishReason, Usage};

fn repr(m: f64) -> String {
    format!("{m:.18}")
}

#[test]
fn calculate_charge_nano_uses_model_price_and_multiplier() {
    let usage = Usage {
        prompt_tokens: 15,
        completion_tokens: 5,
        reasoning_tokens: None,
        cached_tokens: Some(0),
        extra_body: vec![],
    };
    let pricing = ModelPricing {
        input_cost_per_token_nano: 2500,
        output_cost_per_token_nano: 10000,
        cache_read_input_cost_per_token_nano: None,
        output_cost_per_reasoning_token_nano: None,
    };

    let charged = calculate_charge_nano(&usage, &pricing, &repr(1.234_567_891));

    assert_eq!(charged, Some(108_024));
}

#[test]
fn calculate_charge_nano_handles_cached_and_reasoning_tokens() {
    let usage = Usage {
        prompt_tokens: 100,
        completion_tokens: 80,
        reasoning_tokens: Some(30),
        cached_tokens: Some(60),
        extra_body: vec![],
    };
    let pricing = ModelPricing {
        input_cost_per_token_nano: 1000,
        output_cost_per_token_nano: 2000,
        cache_read_input_cost_per_token_nano: Some(100),
        output_cost_per_reasoning_token_nano: Some(3000),
    };

    let charged = calculate_charge_nano(&usage, &pricing, &repr(1.0));

    assert_eq!(charged, Some(236_000));
}

#[test]
fn scale_charge_quantizes_multiplier_to_nano_precision() {
    let base = 1_000_000_000i128;
    let charged = scale_charge_with_multiplier(base, &repr(1.000_000_000_9));
    assert_eq!(charged, Some(1_000_000_000));
}

#[test]
fn scaling_by_one_keeps_a_charge_and_truncates_toward_zero() {
    assert_eq!(scale_charge_with_multiplier(-7, "1.000000000000000000"), Some(-7));
    assert_eq!(scale_charge_with_multiplier(3, "0.500000000000000000"), Some(1));
    assert_eq!(scale_charge_with_multiplier(-3, "0.500000000000000000"), Some(-1));
    assert_eq!(scale_charge_with_multiplier(i128::MAX, "2.0"), None);
    assert_eq!(non_negative_i128_to_u64(-4), 0);
    assert_eq!(non_negative_i128_to_u64(i128::MAX), u64::MAX);
}

#[test]
fn resolve_upstream_model_prefers_non_empty_redirect() {
    let entry = MonoizeModelEntry {
        redirect: Some("  gpt-5-target  ".to_string()),
        multiplier_nano: 1_000_000_000,
    };
    assert_eq!(
        resolve_upstream_model("gpt-5-logical", &entry),
        "gpt-5-target".to_string()
    );
}

#[test]
fn resolve_upstream_model_falls_back_to_requested_when_redirect_blank() {
    let entry = MonoizeModelEntry {
        redirect: Some("   ".to_string()),
        multiplier_nano: 1_000_000_000,
    };
    assert_eq!(
        resolve_upstream_model("gpt-5-logical", &entry),
        "gpt-5-logical".to_string()
    );
}

#[test]
fn upstream_paths_and_headers() {
    assert_eq!(upstream_path(ProviderType::ChatCompletion), "/v1/chat/completions");
    assert_eq!(
        upstream_path_for_model(ProviderType::Gemini, " gemini-2.5 ", true),
        "/v1beta/models/gemini-2.5:streamGenerateContent?alt=sse"
    );
    assert_eq!(upstream_path_for_model(ProviderType::Messages, "x", false), "/v1/messages");
    assert_eq!(provider_extra_headers(ProviderType::Messages), vec![("anthropic-version", "2023-06-01")]);
    assert!(provider_extra_headers(ProviderType::Responses).is_empty());
    assert_eq!(finish_reason_to_chat(FinishReason::ToolCalls), "tool_calls");
    assert_eq!(finish_reason_to_chat(FinishReason::Other), "stop");
}

fn channel(id: &str, weight: i32, enabled: bool) -> MonoizeChannel {
    MonoizeChannel {
        id: id.to_string(),
        name: id.to_string(),
        base_url: "https://example.com".to_string(),
        api_key: "secret".to_string(),
        weight,
        enabled,
        passive_failure_count_threshold_override: None,
        passive_cooldown_seconds_override: None,
        passive_window_seconds_override: None,
        passive_rate_limit_cooldown_seconds_override: None,
    }
}

#[test]
fn weighted_shuffle_keeps_every_channel() {
    let channels = vec![channel("a", 5, true), channel("b", 0, true), channel("c", 1, true)];
    let mut ids: Vec<String> = weighted_shuffle_channels(channels).into_iter().map(|c| c.id).collect();
    ids.sort();
    assert_eq!(ids, vec!["a", "b", "c"]);
}

#[test]
fn failures_trip_a_channel_and_success_restores_it() {
    let mut table = ChannelHealthTable::new();
    assert!(!mark_channel_retryable_failure(&mut table, "a", 100, 3, 60));
    assert!(!mark_channel_retryable_failure(&mut table, "a", 101, 3, 60));
    assert!(table.get("a").healthy);
    assert!(mark_channel_retryable_failure(&mut table, "a", 102, 3, 60));
    let state = table.get("a");
    assert!(!state.healthy);
    assert_eq!(state.failure_count, 3);
    assert_eq!(state.cooldown_until, Some(162));
    assert!(!state.is_candidate_at(161));
    assert!(state.is_candidate_at(162));
    assert_eq!(table.get("b"), ChannelHealthState::new());

    let channels = vec![channel("a", 1, true), channel("b", 1, true), channel("c", 0, true), channel("d", 1, false)];
    let eligible: Vec<String> = filter_eligible_channels(&table, &channels, 150).into_iter().map(|c| c.id).collect();
    assert_eq!(eligible, vec!["b"]);
    let eligible: Vec<String> = filter_eligible_channels(&table, &channels, 170).into_iter().map(|c| c.id).collect();
    assert_eq!(eligible, vec!["a", "b"]);

    assert!(mark_channel_success(&mut table, "a", 200));
    let state = table.get("a");
    assert!(state.healthy);
    assert_eq!(state.failure_count, 0);
    assert_eq!(state.last_success_at, Some(200));
    assert!(!mark_channel_success(&mut table, "a", 201));
}

#[test]
fn retry_classification_and_attempt_limits() {
    assert!(is_non_retryable_client_error(Some(422)));
    assert!(!is_non_retryable_client_error(Some(429)));
    assert!(!is_non_retryable_client_error(None));
    assert!(is_retryable_error(true, None));
    assert!(is_retryable_error(false, Some(503)));
    assert!(!is_retryable_error(false, Some(404)));
    assert_eq!(max_channel_attempts(-1, 5), 5);
    assert_eq!(max_channel_attempts(1, 5), 2);
    assert_eq!(max_channel_attempts(-7, 5), 1);
    assert_eq!(max_channel_attempts(10, 3), 3);
}

#[test]
fn model_suffixes_select_a_known_model_and_effort() {
    let known = vec!["gpt-5".to_string(), "gpt-5-mini".to_string()];
    let table = vec![
        ("-thinking".to_string(), "high".to_string()),
        ("-mini-thinking".to_string(), "low".to_string()),
    ];
    assert_eq!(resolve_model_suffix("gpt-5", &known, &table), None);
    assert_eq!(
        resolve_model_suffix("gpt-5-mini-thinking", &known, &table),
        Some(("gpt-5".to_string(), "low".to_string()))
    );
    assert_eq!(
        resolve_model_suffix("gpt-5-high", &known, &table),
        Some(("gpt-5".to_string(), "high".to_string()))
    );
    assert_eq!(
        resolve_model_suffix("gpt-5-max", &known, &table),
        Some(("gpt-5".to_string(), "xhigh".to_string()))
    );
    assert_eq!(resolve_model_suffix("mistral-high", &known, &table), None);
}

#[test]
fn pricing_keys_cut_the_longest_suffix() {
    let table = vec![
        ("-thinking".to_string(), "high".to_string()),
        ("-nothinking".to_string(), "none".to_string()),
    ];
    assert_eq!(normalize_pricing_model_key("gpt-5-nothinking", &table), "gpt-5");
    assert_eq!(normalize_pricing_model_key("gpt-5", &table), "gpt-5");
    assert_eq!(normalize_pricing_model_key("-thinking", &table), "-thinking");
}

fn rule(model: &str, phase: Phase, enabled: bool) -> TransformRuleConfig {
    TransformRuleConfig {
        transform: "t".to_string(),
        enabled,
        phase,
        models: Some(vec![model.to_string()]),
        config: "{}".to_string(),
    }
}

#[test]
fn model_globs_escape_regex_syntax() {
    assert!(model_glob_match("*", "anything at all"));
    assert!(model_glob_match("gpt-4.1*", "gpt-4.1-mini"));
    assert!(!model_glob_match("gpt-4.1*", "gpt-4x1-mini"));
    assert!(model_glob_match("mistral-?-opus", "mistral-4-opus"));
    assert!(!model_glob_match("mistral", "mistral-4"));
    assert!(model_glob_match("a+b", "a+b"));
    assert!(!model_glob_match("a+b", "aab"));
}

#[test]
fn response_rules_must_be_enabled_and_match() {
    let rules = vec![rule("gpt-*", Phase::Request, true), rule("mistral-*", Phase::Response, false)];
    assert!(!has_enabled_response_rules(&rules, "mistral-4"));
    let rules = vec![rule("mistral-*", Phase::Response, true)];
    assert!(has_enabled_response_rules(&rules, "mistral-4"));
    assert!(!has_enabled_response_rules(&rules, "gpt-5"));
}

#[test]
fn stream_usage_keeps_the_largest_total() {
    let small = Usage { prompt_tokens: 1, completion_tokens: 1, reasoning_tokens: None, cached_tokens: None, extra_body: vec![] };
    let big = Usage { prompt_tokens: u64::MAX, completion_tokens: 5, reasoning_tokens: None, cached_tokens: None, extra_body: vec![] };
    assert!(should_replace_stream_usage(None, &small));
    assert!(should_replace_stream_usage(Some(&small), &big));
    assert!(!should_replace_stream_usage(Some(&big), &small));
    assert!(should_replace_stream_usage(Some(&big), &big));
}

#[test]
fn forwarding_errors() {
    assert_eq!(auth_bearer_token(Some("Bearer sk-abc")).ok(), Some("sk-abc".to_string()));
    assert_eq!(auth_bearer_token(Some("sk-abc")).err().map(|e| e.message), Some("invalid auth".to_string()));
    assert_eq!(auth_bearer_token(None).err().map(|e| e.message), Some("missing auth".to_string()));
    let e = upstream_error_to_app(None, "boom".to_string());
    assert_eq!((e.status, e.code.as_str(), e.message.as_str()), (502, "upstream_error", "boom"));
    assert_eq!(upstream_error_to_app(Some(429), "slow".to_string()).status, 429);
    assert_eq!(balance_refusal(BillingErrorKind::InsufficientBalance, String::new()).status, 402);
    assert_eq!(balance_refusal(BillingErrorKind::NotFound, String::new()).message, "user not found");
    assert_eq!(balance_refusal(BillingErrorKind::Internal, "x".to_string()).message, "x");
}

#[test]
fn active_probes_restore_channels() {
    let mut table = ChannelHealthTable::new();
    assert!(!channel_probe_due(&table, "a", 0, 30));
    assert!(mark_channel_retryable_failure(&mut table, "a", 100, 1, 60));
    assert!(!channel_probe_due(&table, "a", 159, 30));
    assert!(channel_probe_due(&table, "a", 160, 30));
    mark_channel_probe_result(&mut table, "a", 160, true, 2, 60);
    assert!(!table.get("a").healthy);
    assert_eq!(table.get("a").probe_success_count, 1);
    assert!(!channel_probe_due(&table, "a", 189, 30));
    assert!(channel_probe_due(&table, "a", 190, 30));
    mark_channel_probe_result(&mut table, "a", 190, true, 2, 60);
    let s = table.get("a");
    assert!(s.healthy);
    assert_eq!((s.failure_count, s.probe_success_count, s.last_success_at), (0, 0, Some(190)));
    mark_channel_probe_result(&mut table, "a", 200, false, 2, 60);
    let s = table.get("a");
    assert!(!s.healthy);
    assert_eq!(s.cooldown_until, Some(260));
}

#[test]
fn probe_settings_resolution() {
    assert_eq!(effective_probe_interval(Some(0), 30), 1);
    assert_eq!(effective_probe_interval(None, 30), 30);
    assert_eq!(effective_probe_threshold(None, 0), 1);
    assert_eq!(effective_probe_threshold(Some(3), 1), 3);
    assert_eq!(probe_model(None, Some("m".to_string()), Some("first".to_string())), Some("m".to_string()));
    assert_eq!(probe_model(None, None, Some("first".to_string())), Some("first".to_string()));
}

#[test]
fn embeddings_requests_are_checked_in_order() {
    let mut r = EmbeddingsRequestShape {
        is_object: true,
        model: Some("text-embed".to_string()),
        input: Some(JsonShape::TextArray),
        encoding_format: None,
    };
    assert_eq!(validate_embeddings_request(&r).ok(), Some("text-embed".to_string()));
    r.encoding_format = Some(Some("base64".to_string()));
    assert!(validate_embeddings_request(&r).is_ok());
    r.encoding_format = Some(None);
    assert_eq!(
        validate_embeddings_request(&r).err().map(|e| e.message),
        Some("encoding_format must be 'float' or 'base64'".to_string())
    );
    r.input = Some(JsonShape::Other);
    assert_eq!(
        validate_embeddings_request(&r).err().map(|e| e.message),
        Some("input must be string or array of strings".to_string())
    );
    r.model = Some("  ".to_string());
    assert_eq!(validate_embeddings_request(&r).err().map(|e| e.message), Some("missing model".to_string()));
    r.is_object = false;
    assert_eq!(validate_embeddings_request(&r).err().map(|e| e.status), Some(400));
}

#[test]
fn usage_is_charged_only_for_a_user_with_pricing_and_a_positive_total() {
    let usage = Usage {
        prompt_tokens: 15,
        completion_tokens: 5,
        reasoning_tokens: None,
        cached_tokens: Some(0),
        extra_body: vec![],
    };
    let pricing = ModelPricing {
        input_cost_per_token_nano: 2500,
        output_cost_per_token_nano: 10000,
        cache_read_input_cost_per_token_nano: None,
        output_cost_per_reasoning_token_nano: None,
    };
    assert_eq!(plan_usage_charge(false, Some(&pricing), &usage, &repr(1.0)), ChargePlan::NotBilled);
    assert_eq!(plan_usage_charge(true, None, &usage, &repr(1.0)), ChargePlan::NotBilled);
    match plan_usage_charge(true, Some(&pricing), &usage, &repr(1.234_567_891)) {
        ChargePlan::Charge(c) => assert_eq!(c.final_charge, 108_024),
        other => panic!("expected a charge, got {other:?}"),
    }
    match plan_usage_charge(true, Some(&pricing), &usage, &repr(0.0)) {
        ChargePlan::RecordOnly(c) => assert_eq!(c.final_charge, 0),
        other => panic!("expected a record without charge, got {other:?}"),
    }
}

#[test]
fn a_request_multiplier_only_lowers_the_key_ceiling() {
    assert_eq!(resolve_max_multiplier(Some(2_000_000_000), Some(1_500_000_000)), Some(1_500_000_000));
    assert_eq!(resolve_max_multiplier(Some(2_000_000_000), Some(3_000_000_000)), Some(2_000_000_000));
    assert_eq!(resolve_max_multiplier(Some(2_000_000_000), None), Some(2_000_000_000));
    assert_eq!(resolve_max_multiplier(None, Some(700_000_000)), Some(700_000_000));
    assert_eq!(resolve_max_multiplier(None, None), None);
}

#[test]
fn pruning_channels_drops_their_records_and_model_scoped_records() {
    let mut table = ChannelHealthTable::new();
    let mut tripped = ChannelHealthState::new();
    tripped.healthy = false;
    tripped.failure_count = 4;
    table.set("a", tripped);
    table.set("a::gpt-4o", tripped);
    table.set("ab", tripped);
    table.set("b", tripped);
    table.prune_channels(&vec!["a".to_string(), "c".to_string()]);
    assert_eq!(table.get("a"), ChannelHealthState::new());
    assert_eq!(table.get("a::gpt-4o"), ChannelHealthState::new());
    assert_eq!(table.get("ab"), tripped);
    assert_eq!(table.get("b"), tripped);
}

#[test]
fn seeded_shuffle_draws_by_weight_without_replacement() {
    let ids = |seeds: Vec<u64>| -> Vec<String> {
        let channels = vec![channel("a", 1, true), channel("b", 3, true), channel("c", 0, true)];
        shuffle_channels_with_seeds(channels, &seeds).into_iter().map(|c| c.id).collect()
    };
    assert_eq!(ids(vec![0, 0, 0]), vec!["a", "c", "b"]);
    assert_eq!(ids(vec![]), vec!["a", "c", "b"]);
    assert_eq!(ids(vec![4, 3, 9]), vec!["c", "b", "a"]);
    assert_eq!(ids(vec![6, 1]), vec!["b", "c", "a"]);
}
