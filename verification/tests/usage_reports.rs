use monoize::json::{JsonNumber, JsonValue};
use monoize::breakdown::{build_billing_breakdown, build_probe_billing_breakdown, build_probe_usage_breakdown};
use monoize::handlers::{calculate_charge_components, MonoizeAttempt};
use monoize::model_registry_store::ModelPricing;
use monoize::monoize_routing::MonoizeProviderType;
use monoize::urp::Usage;
use monoize::usage::{
    build_usage_breakdown, map_get_u64, parse_u64_value, parse_usage_from_chat_object,
    parse_usage_from_embeddings_object, parse_usage_from_gemini_object,
    parse_usage_from_messages_object, parse_usage_from_responses_object,
};

fn n(v: u64) -> JsonValue {
    JsonValue::Number(JsonNumber::PosInt(v))
}

fn s(v: &str) -> JsonValue {
    JsonValue::Str(v.to_string())
}

fn obj(members: Vec<(&str, JsonValue)>) -> JsonValue {
    JsonValue::Object(members.into_iter().map(|(k, v)| (k.to_string(), v)).collect())
}

fn keys(u: &Usage) -> Vec<String> {
    u.extra_body.iter().map(|(k, _)| k.clone()).collect()
}

#[test]
fn chat_usage_reads_counts_and_details() {
    let body = obj(vec![(
        "usage",
        obj(vec![
            ("prompt_tokens", n(10)),
            ("completion_tokens", n(5)),
            ("total_tokens", n(15)),
            ("prompt_tokens_details", obj(vec![("cached_tokens", n(3))])),
            ("completion_tokens_details", obj(vec![("reasoning_tokens", n(2))])),
        ]),
    )]);
    let u = parse_usage_from_chat_object(&body).expect("usage");
    assert_eq!(u.prompt_tokens, 10);
    assert_eq!(u.completion_tokens, 5);
    assert_eq!(u.cached_tokens, Some(3));
    assert_eq!(u.reasoning_tokens, Some(2));
    assert_eq!(keys(&u), vec!["prompt_tokens_details", "completion_tokens_details", "total_tokens"]);
    assert!(matches!(u.extra_body[2].1, JsonValue::Number(JsonNumber::PosInt(15))));
}

#[test]
fn chat_usage_needs_both_counts() {
    let missing = obj(vec![("usage", obj(vec![("prompt_tokens", n(10))]))]);
    assert!(parse_usage_from_chat_object(&missing).is_none());
    let negative = obj(vec![(
        "usage",
        obj(vec![
            ("prompt_tokens", JsonValue::Number(JsonNumber::NegInt(-1))),
            ("completion_tokens", n(1)),
        ]),
    )]);
    assert!(parse_usage_from_chat_object(&negative).is_none());
    let not_object = obj(vec![("usage", n(3))]);
    assert!(parse_usage_from_chat_object(&not_object).is_none());
    assert!(parse_usage_from_chat_object(&JsonValue::Null).is_none());
}

#[test]
fn responses_usage_reads_nested_response() {
    let event = obj(vec![(
        "response",
        obj(vec![(
            "usage",
            obj(vec![
                ("input_tokens", n(40)),
                ("output_tokens", n(12)),
                ("input_tokens_details", obj(vec![("cached_tokens", n(8))])),
                ("output_tokens_details", obj(vec![("reasoning_tokens", n(4))])),
                ("total_tokens", n(52)),
            ]),
        )]),
    )]);
    let u = parse_usage_from_responses_object(&event).expect("usage");
    assert_eq!((u.prompt_tokens, u.completion_tokens), (40, 12));
    assert_eq!(u.cached_tokens, Some(8));
    assert_eq!(u.reasoning_tokens, Some(4));
    assert_eq!(keys(&u), vec!["input_tokens_details", "output_tokens_details", "total_tokens"]);
}

#[test]
fn responses_usage_falls_back_to_chat_names() {
    let body = obj(vec![(
        "usage",
        obj(vec![
            ("prompt_tokens", n(7)),
            ("completion_tokens", n(3)),
            ("prompt_tokens_details", obj(vec![("cached_tokens", n(1))])),
        ]),
    )]);
    let u = parse_usage_from_responses_object(&body).expect("usage");
    assert_eq!((u.prompt_tokens, u.completion_tokens, u.cached_tokens), (7, 3, Some(1)));
    assert_eq!(u.reasoning_tokens, None);
}

#[test]
fn messages_usage_reads_message_start() {
    let event = obj(vec![(
        "message",
        obj(vec![(
            "usage",
            obj(vec![
                ("input_tokens", n(20)),
                ("output_tokens", n(1)),
                ("cache_read_input_tokens", n(6)),
                ("cache_creation_input_tokens", n(2)),
            ]),
        )]),
    )]);
    let u = parse_usage_from_messages_object(&event).expect("usage");
    assert_eq!((u.prompt_tokens, u.completion_tokens, u.cached_tokens), (20, 1, Some(6)));
    assert_eq!(u.reasoning_tokens, None);
    assert_eq!(keys(&u), vec!["cache_creation_input_tokens", "cache_read_input_tokens"]);
}

#[test]
fn gemini_usage_accepts_snake_case() {
    let body = obj(vec![(
        "usageMetadata",
        obj(vec![
            ("prompt_token_count", n(9)),
            ("candidates_token_count", n(4)),
            ("thoughts_token_count", n(2)),
            ("totalTokenCount", n(15)),
        ]),
    )]);
    let u = parse_usage_from_gemini_object(&body).expect("usage");
    assert_eq!((u.prompt_tokens, u.completion_tokens), (9, 4));
    assert_eq!(u.reasoning_tokens, Some(2));
    assert_eq!(u.cached_tokens, None);
    assert_eq!(keys(&u), vec!["thoughts_token_count", "totalTokenCount"]);
}

#[test]
fn gemini_camel_case_wins_even_when_unreadable() {
    let body = obj(vec![(
        "usageMetadata",
        obj(vec![("promptTokenCount", s("9")), ("prompt_token_count", n(9)), ("candidatesTokenCount", n(1))]),
    )]);
    assert!(parse_usage_from_gemini_object(&body).is_none());
}

#[test]
fn embeddings_usage_keeps_total() {
    let body = obj(vec![("usage", obj(vec![("prompt_tokens", n(11)), ("total_tokens", n(11))]))]);
    let u = parse_usage_from_embeddings_object(&body).expect("usage");
    assert_eq!((u.prompt_tokens, u.completion_tokens), (11, 0));
    assert_eq!(keys(&u), vec!["total_tokens"]);
    assert!(matches!(u.extra_body[0].1, JsonValue::Number(JsonNumber::PosInt(11))));
    let no_total = obj(vec![("usage", obj(vec![("prompt_tokens", n(11))]))]);
    assert!(parse_usage_from_embeddings_object(&no_total).is_none());
}

#[test]
fn counts_may_be_text() {
    assert_eq!(parse_u64_value(&s("42")), Some(42));
    assert_eq!(parse_u64_value(&s("+7")), Some(7));
    assert_eq!(parse_u64_value(&s("-7")), None);
    assert_eq!(parse_u64_value(&n(5)), Some(5));
    assert_eq!(parse_u64_value(&JsonValue::Number(JsonNumber::NegInt(-5))), None);
    assert_eq!(parse_u64_value(&JsonValue::Number(JsonNumber::Float("1.5".to_string()))), None);
    let map = vec![("a".to_string(), s("3")), ("b".to_string(), JsonValue::Bool(true))];
    assert_eq!(map_get_u64(&map, "a"), Some(3));
    assert_eq!(map_get_u64(&map, "b"), None);
    assert_eq!(map_get_u64(&map, "c"), None);
}

#[test]
fn breakdown_prefers_reported_counts_then_details() {
    let usage = Usage {
        prompt_tokens: 100,
        completion_tokens: 30,
        reasoning_tokens: None,
        cached_tokens: None,
        extra_body: vec![
            (
                "prompt_tokens_details".to_string(),
                obj(vec![("cached_tokens", s("40")), ("audio_tokens", n(5)), ("text_tokens", n(95))]),
            ),
            ("completion_tokens_details".to_string(), obj(vec![("reasoning_tokens", n(50))])),
        ],
    };
    let b = build_usage_breakdown(&usage);
    assert_eq!(b.input.total_tokens, 100);
    assert_eq!(b.input.cached_tokens, Some(40));
    assert_eq!(b.input.uncached_tokens, 60);
    assert_eq!(b.input.audio_tokens, Some(5));
    assert_eq!(b.input.text_tokens, Some(95));
    assert_eq!(b.input.image_tokens, None);
    assert_eq!(b.input.cache_creation_tokens, None);
    assert_eq!(b.output.reasoning_tokens, Some(50));
    assert_eq!(b.output.non_reasoning_tokens, 0);
}

#[test]
fn breakdown_uses_anthropic_cache_members() {
    let usage = Usage {
        prompt_tokens: 10,
        completion_tokens: 4,
        reasoning_tokens: Some(1),
        cached_tokens: None,
        extra_body: vec![
            ("cache_creation_input_tokens".to_string(), n(2)),
            ("cache_read_input_tokens".to_string(), n(3)),
        ],
    };
    let b = build_usage_breakdown(&usage);
    assert_eq!(b.input.cached_tokens, Some(3));
    assert_eq!(b.input.uncached_tokens, 7);
    assert_eq!(b.input.cache_creation_tokens, Some(2));
    assert_eq!(b.output.reasoning_tokens, Some(1));
    assert_eq!(b.output.non_reasoning_tokens, 3);
    let reported = Usage { cached_tokens: Some(9), ..usage };
    assert_eq!(build_usage_breakdown(&reported).input.cached_tokens, Some(9));
}

#[test]
fn billing_breakdown_reports_each_side_of_the_charge() {
    let usage = Usage {
        prompt_tokens: 100,
        completion_tokens: 80,
        reasoning_tokens: Some(30),
        cached_tokens: Some(60),
        extra_body: vec![],
    };
    let pricing = ModelPricing {
        input_cost_per_token_nano: 1000,
        output_cost_per_token_nano: 2000,
        cache_read_input_cost_per_token_nano: Some(100),
        output_cost_per_reasoning_token_nano: Some(3000),
    };
    let components = calculate_charge_components(&usage, &pricing, "2.000000000000000000").unwrap();
    let attempt = MonoizeAttempt {
        provider_id: "p1".to_string(),
        provider_type: MonoizeProviderType::ChatCompletion,
        channel_id: "c1".to_string(),
        base_url: "https://example.test".to_string(),
        api_key: "k".to_string(),
        upstream_model: "gpt-4o-2024".to_string(),
        model_multiplier_nano: 1_500_000_000,
        provider_transforms: vec![],
    };
    let b = build_billing_breakdown("gpt-4o", &attempt, &pricing, &components);
    assert_eq!(b.logical_model, "gpt-4o");
    assert_eq!(b.upstream_model, "gpt-4o-2024");
    assert_eq!(b.provider_id, "p1");
    assert_eq!(b.provider_multiplier_nano, 1_500_000_000);
    assert_eq!(b.input.total_tokens, 100);
    assert_eq!(b.input.cached_tokens, 60);
    assert_eq!(b.input.billed_uncached_tokens, 40);
    assert_eq!(b.input.billed_cached_tokens, 60);
    assert_eq!(b.input.cached_unit_price_nano, Some(100));
    assert_eq!(b.input.uncached_charge_nano, 40_000);
    assert_eq!(b.input.cached_charge_nano, 6_000);
    assert_eq!(b.input.total_charge_nano, 46_000);
    assert_eq!(b.output.reasoning_tokens, 30);
    assert_eq!(b.output.billed_non_reasoning_tokens, 50);
    assert_eq!(b.output.non_reasoning_charge_nano, 100_000);
    assert_eq!(b.output.reasoning_charge_nano, 90_000);
    assert_eq!(b.output.total_charge_nano, 190_000);
    assert_eq!(b.base_charge_nano, 236_000);
    assert_eq!(b.final_charge_nano, 472_000);
}

#[test]
fn probe_breakdowns_bill_plain_text_tokens() {
    let u = build_probe_usage_breakdown(12, 3);
    assert_eq!(u.input.total_tokens, 12);
    assert_eq!(u.input.uncached_tokens, 12);
    assert_eq!(u.input.cached_tokens, Some(0));
    assert_eq!(u.input.cache_creation_tokens, None);
    assert_eq!(u.output.non_reasoning_tokens, 3);
    assert_eq!(u.output.reasoning_tokens, None);

    let b = build_probe_billing_breakdown("prov".to_string(), "m".to_string(), 1_000_000_000, 12, 3, 10, 20, 99);
    assert_eq!(b.logical_model, "m");
    assert_eq!(b.upstream_model, "m");
    assert_eq!(b.provider_id, "prov");
    assert_eq!(b.input.total_charge_nano, 120);
    assert_eq!(b.output.total_charge_nano, 60);
    assert_eq!(b.base_charge_nano, 180);
    assert_eq!(b.final_charge_nano, 99);

    let overflow = build_probe_billing_breakdown("p".to_string(), "m".to_string(), 0, u64::MAX, 1, i128::MAX, 5, 0);
    assert_eq!(overflow.input.total_charge_nano, 0);
    assert_eq!(overflow.output.total_charge_nano, 5);
    assert_eq!(overflow.base_charge_nano, 5);
}
