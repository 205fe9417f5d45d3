use monoize::handlers::{
    build_monoize_attempts, collect_provider_attempts, find_model_entry,
    mark_channel_retryable_failure, MonoizeAttempt,
};
use monoize::monoize_routing::{
    ChannelHealthTable, MonoizeChannel, MonoizeModelEntry, MonoizeProvider, MonoizeProviderType,
};
use monoize::transforms::{Phase, TransformRuleConfig};

fn channel(id: &str, weight: i32, enabled: bool) -> MonoizeChannel {
    MonoizeChannel {
        id: id.to_string(),
        name: id.to_string(),
        base_url: format!("https://{id}.example.com"),
        api_key: format!("key-{id}"),
        weight,
        enabled,
        passive_failure_count_threshold_override: None,
        passive_cooldown_seconds_override: None,
        passive_window_seconds_override: None,
        passive_rate_limit_cooldown_seconds_override: None,
    }
}

fn entry(redirect: Option<&str>, multiplier_nano: i128) -> MonoizeModelEntry {
    MonoizeModelEntry { redirect: redirect.map(str::to_string), multiplier_nano }
}

fn provider(id: &str, models: Vec<(&str, MonoizeModelEntry)>, channels: Vec<MonoizeChannel>, max_retries: i32) -> MonoizeProvider {
    MonoizeProvider {
        id: id.to_string(),
        name: id.to_string(),
        provider_type: MonoizeProviderType::ChatCompletion,
        models: models.into_iter().map(|(k, v)| (k.to_string(), v)).collect(),
        channels,
        max_retries,
        transforms: vec![TransformRuleConfig {
            transform: "strip_reasoning".to_string(),
            enabled: true,
            phase: Phase::Request,
            models: None,
            config: "{}".to_string(),
        }],
        enabled: true,
    }
}

fn channel_ids(attempts: &[MonoizeAttempt]) -> Vec<String> {
    let mut ids: Vec<String> = attempts.iter().map(|a| a.channel_id.clone()).collect();
    ids.sort();
    ids
}

#[test]
fn provider_attempts_follow_its_channels_and_budget() {
    let table = ChannelHealthTable::new();
    let p = provider(
        "p1",
        vec![("gpt-5", entry(Some("  gpt-5-2025  "), 1_500_000_000))],
        vec![channel("a", 1, true), channel("b", 3, true), channel("c", 1, false), channel("d", 0, true)],
        -1,
    );
    let mut out = Vec::new();
    collect_provider_attempts(&table, 0, "gpt-5", None, &p, &mut out);
    assert_eq!(channel_ids(&out), vec!["a", "b"]);
    for a in &out {
        assert_eq!(a.provider_id, "p1");
        assert_eq!(a.provider_type, MonoizeProviderType::ChatCompletion);
        assert_eq!(a.upstream_model, "gpt-5-2025");
        assert_eq!(a.model_multiplier_nano, 1_500_000_000);
        assert_eq!(a.base_url, format!("https://{}.example.com", a.channel_id));
        assert_eq!(a.api_key, format!("key-{}", a.channel_id));
        assert_eq!(a.provider_transforms.len(), 1);
        assert_eq!(a.provider_transforms[0].transform, "strip_reasoning");
    }

    let limited = provider("p2", vec![("gpt-5", entry(None, 1))], vec![channel("a", 1, true), channel("b", 1, true)], 0);
    let mut out = Vec::new();
    collect_provider_attempts(&table, 0, "gpt-5", None, &limited, &mut out);
    assert_eq!(out.len(), 1);
    assert_eq!(out[0].upstream_model, "gpt-5");
}

#[test]
fn provider_contributes_nothing_when_it_cannot_serve() {
    let table = ChannelHealthTable::new();
    let mut p = provider("p", vec![("gpt-5", entry(None, 2_000_000_000))], vec![channel("a", 1, true)], -1);
    let mut out = Vec::new();
    collect_provider_attempts(&table, 0, "mistral", None, &p, &mut out);
    assert!(out.is_empty());
    collect_provider_attempts(&table, 0, "gpt-5", Some(1_999_999_999), &p, &mut out);
    assert!(out.is_empty());
    collect_provider_attempts(&table, 0, "gpt-5", Some(2_000_000_000), &p, &mut out);
    assert_eq!(out.len(), 1);
    p.enabled = false;
    collect_provider_attempts(&table, 0, "gpt-5", None, &p, &mut out);
    assert_eq!(out.len(), 1);
}

#[test]
fn resting_channels_are_skipped_until_their_cooldown_ends() {
    let mut table = ChannelHealthTable::new();
    assert!(mark_channel_retryable_failure(&mut table, "a", 100, 1, 60));
    let p = provider("p", vec![("m", entry(None, 1))], vec![channel("a", 1, true), channel("b", 1, true)], -1);
    let mut out = Vec::new();
    collect_provider_attempts(&table, 120, "m", None, &p, &mut out);
    assert_eq!(channel_ids(&out), vec!["b"]);
    let mut out = Vec::new();
    collect_provider_attempts(&table, 160, "m", None, &p, &mut out);
    assert_eq!(channel_ids(&out), vec!["a", "b"]);
}

#[test]
fn attempts_keep_provider_order() {
    let table = ChannelHealthTable::new();
    let providers = vec![
        provider("first", vec![("m", entry(None, 1))], vec![channel("a", 1, true)], -1),
        provider("skipped", vec![("other", entry(None, 1))], vec![channel("x", 1, true)], -1),
        provider("second", vec![("m", entry(Some("m-up"), 1))], vec![channel("b", 1, true), channel("c", 1, true)], 5),
    ];
    let attempts = build_monoize_attempts(&table, 0, "m", None, &providers);
    assert_eq!(attempts.len(), 3);
    assert_eq!(attempts[0].provider_id, "first");
    assert_eq!(attempts[0].upstream_model, "m");
    assert_eq!(attempts[1].provider_id, "second");
    assert_eq!(attempts[2].provider_id, "second");
    assert_eq!(attempts[2].upstream_model, "m-up");
    assert_eq!(channel_ids(&attempts[1..]), vec!["b", "c"]);
}

#[test]
fn model_entries_are_found_by_name() {
    let models = vec![("a".to_string(), entry(None, 1)), ("b".to_string(), entry(Some("bb"), 2))];
    assert_eq!(find_model_entry(&models, "b").map(|e| e.multiplier_nano), Some(2));
    assert!(find_model_entry(&models, "c").is_none());
}
