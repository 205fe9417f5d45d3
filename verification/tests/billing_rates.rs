use monoize::billing_rate_store::{
    glob_matches, plan_catalog_sync, provider_dashboard_rate_matrix_is_complete, rates_matching_model,
    select_pricing_profile, upsert_billing_rate_fields, DbBillingRateRecord, PricingProfilePattern,
    UpsertBillingRateInput,
};
use monoize::json::{JsonNumber, JsonValue};

fn match_json(threshold: Option<JsonValue>) -> JsonValue {
    match threshold {
        Some(v) => JsonValue::Object(vec![("context_threshold_tokens".to_string(), v)]),
        None => JsonValue::Object(vec![]),
    }
}

#[test]
fn glob_matching_is_case_insensitive_and_orderable() {
    assert!(glob_matches("gpt-*", "GPT-5.5"));
    assert!(glob_matches("mistral-sonnet-4?", "mistral-sonnet-45"));
    assert!(!glob_matches("mistral-opus-*", "mistral-sonnet-4"));
}

#[test]
fn pricing_profile_selection_uses_ordered_first_match() {
    let patterns = vec![
        PricingProfilePattern {
            pattern: "gpt-*".to_string(),
            pricing_profile: "first".to_string(),
        },
        PricingProfilePattern {
            pattern: "gpt-image-*".to_string(),
            pricing_profile: "second".to_string(),
        },
        PricingProfilePattern {
            pattern: "*".to_string(),
            pricing_profile: "fallback".to_string(),
        },
    ];

    assert_eq!(
        select_pricing_profile(&patterns, "gpt-image-2"),
        Some("first")
    );
    assert_eq!(
        select_pricing_profile(&patterns, "mistral-opus-4"),
        Some("fallback")
    );
}

#[test]
fn pricing_profile_selection_without_match_is_none() {
    let patterns = vec![PricingProfilePattern {
        pattern: "gpt-*".to_string(),
        pricing_profile: "openai".to_string(),
    }];
    assert_eq!(select_pricing_profile(&patterns, "mistral-3"), None);
    assert_eq!(select_pricing_profile(&[], "gpt-5"), None);
}

#[test]
fn catalog_glob_edge_cases() {
    assert!(glob_matches("", ""));
    assert!(!glob_matches("", "a"));
    assert!(glob_matches("*", ""));
    assert!(glob_matches("a*b*c", "AxxBYYc"));
    assert!(!glob_matches("a?c", "ac"));
    assert!(glob_matches("A?C", "abc"));
}

fn rate(id: &str, kind: &str, class: &str, tier: Option<&str>, threshold: Option<JsonValue>) -> DbBillingRateRecord {
    DbBillingRateRecord {
        id: id.to_string(),
        source: "catalog".to_string(),
        pricing_profile: "openai".to_string(),
        model_pattern: None,
        provider_type: None,
        rate_kind: kind.to_string(),
        usage_class: class.to_string(),
        unit: "token".to_string(),
        unit_price_nano_usd: "1250".to_string(),
        context_tier: tier.map(|t| t.to_string()),
        service_tier: None,
        modality: None,
        cache_ttl: None,
        match_json: match_json(threshold),
        priority: 0,
        enabled: true,
        raw_json: JsonValue::Object(vec![]),
        updated_at: "2026-01-01T00:00:00Z".to_string(),
    }
}

#[test]
fn unit_price_parses_or_names_the_rate() {
    let mut r = rate("r1", "token", "output", None, None);
    assert_eq!(r.unit_price_nano(), Ok(1250));
    r.unit_price_nano_usd = "12.5".to_string();
    assert_eq!(
        r.unit_price_nano(),
        Err("invalid unit_price_nano_usd for r1".to_string())
    );
}

#[test]
fn rates_are_filtered_by_model_pattern_in_order() {
    let mut a = rate("a", "token", "input_uncached", None, None);
    a.model_pattern = Some("gpt-*".to_string());
    let mut b = rate("b", "token", "output", None, None);
    b.model_pattern = Some("mistral-*".to_string());
    let c = rate("c", "token", "output", None, None);
    let kept = rates_matching_model(vec![a, b, c], "GPT-5");
    let ids: Vec<&str> = kept.iter().map(|r| r.id.as_str()).collect();
    assert_eq!(ids, vec!["a", "c"]);
}

#[test]
fn rate_matrix_requires_input_and_output() {
    let only_input = vec![rate("a", "token", "input_uncached", None, None)];
    assert!(!provider_dashboard_rate_matrix_is_complete(&only_input));
    let both = vec![
        rate("a", "token", "input_uncached", None, None),
        rate("b", "token", "output", Some("default"), None),
    ];
    assert!(provider_dashboard_rate_matrix_is_complete(&both));
}

#[test]
fn rate_matrix_tiers_need_threshold_and_both_classes() {
    let mut rates = vec![
        rate("a", "token", "input_uncached", None, None),
        rate("b", "token", "output", None, None),
        rate("c", "token", "input_uncached", Some("long"), None),
    ];
    assert!(!provider_dashboard_rate_matrix_is_complete(&rates));
    rates.push(rate("d", "token", "output", Some("long"), None));
    assert!(!provider_dashboard_rate_matrix_is_complete(&rates));
    rates[2].match_json = match_json(Some(JsonValue::Str("two hundred".to_string())));
    assert!(!provider_dashboard_rate_matrix_is_complete(&rates));
    rates[2].match_json = match_json(Some(JsonValue::Str("200000".to_string())));
    assert!(provider_dashboard_rate_matrix_is_complete(&rates));
    rates[2].match_json = match_json(Some(JsonValue::Number(JsonNumber::PosInt(200_000))));
    assert!(provider_dashboard_rate_matrix_is_complete(&rates));
}

#[test]
fn catalog_sync_skips_manual_ids() {
    let catalog = vec!["a".to_string(), "b".to_string(), "c".to_string()];
    let manual = vec!["b".to_string()];
    let plan = plan_catalog_sync(&catalog, &manual);
    assert_eq!(plan.insert, vec![true, false, true]);
    assert_eq!(plan.upserted, 2);
    assert_eq!(plan.skipped, 1);
}

fn empty_input() -> UpsertBillingRateInput {
    UpsertBillingRateInput {
        source: None,
        pricing_profile: None,
        model_pattern: None,
        provider_type: None,
        rate_kind: None,
        usage_class: None,
        unit: None,
        unit_price_nano_usd: None,
        context_tier: None,
        service_tier: None,
        modality: None,
        cache_ttl: None,
        match_json: None,
        priority: None,
        enabled: None,
        raw_json: None,
    }
}

#[test]
fn upsert_requires_fields_in_order() {
    assert_eq!(
        upsert_billing_rate_fields("  ", empty_input(), None).err(),
        Some("id must not be empty".to_string())
    );
    assert_eq!(
        upsert_billing_rate_fields("r", empty_input(), None).err(),
        Some("pricing_profile is required".to_string())
    );
    let mut input = empty_input();
    input.pricing_profile = Some("p".to_string());
    input.rate_kind = Some("token".to_string());
    input.usage_class = Some("output".to_string());
    input.unit = Some("token".to_string());
    assert_eq!(
        upsert_billing_rate_fields("r", input.clone(), None).err(),
        Some("unit_price_nano_usd is required".to_string())
    );
    input.unit_price_nano_usd = Some("x1".to_string());
    assert_eq!(
        upsert_billing_rate_fields("r", input, None).err(),
        Some("unit_price_nano_usd must be an integer string".to_string())
    );
}

#[test]
fn upsert_merges_with_stored_rate_and_defaults() {
    let mut input = empty_input();
    input.unit_price_nano_usd = Some("99".to_string());
    input.model_pattern = Some(None);
    let mut stored = rate("r", "token", "output", Some("long"), None);
    stored.model_pattern = Some("gpt-*".to_string());
    stored.priority = 7;
    let f = upsert_billing_rate_fields("r", input, Some(stored)).expect("accepted");
    assert_eq!(f.source, "manual");
    assert_eq!(f.pricing_profile, "openai");
    assert_eq!(f.unit_price_nano_usd, "99");
    assert_eq!(f.model_pattern, None);
    assert_eq!(f.context_tier, Some("long".to_string()));
    assert_eq!(f.priority, 7);

    let mut fresh = empty_input();
    fresh.pricing_profile = Some("p".to_string());
    fresh.rate_kind = Some("token".to_string());
    fresh.usage_class = Some("output".to_string());
    fresh.unit = Some("token".to_string());
    fresh.unit_price_nano_usd = Some("-5".to_string());
    let f = upsert_billing_rate_fields("r", fresh, None).expect("accepted");
    assert!(matches!(&f.match_json, JsonValue::Object(m) if m.is_empty()));
    assert!(matches!(&f.raw_json, JsonValue::Object(m) if m.is_empty()));
    assert_eq!(f.priority, 0);
    assert!(f.enabled);
}
