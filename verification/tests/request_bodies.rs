use monoize::config::UnknownFieldPolicy;
use monoize::forwarding::DownstreamProtocol;
use monoize::json::{JsonNumber, JsonValue};
use monoize::request_body::{known_request_fields, merge_known_and_extra, split_body};

fn n(v: u64) -> JsonValue {
    JsonValue::Number(JsonNumber::PosInt(v))
}

fn s(v: &str) -> JsonValue {
    JsonValue::Str(v.to_string())
}

fn members(v: Vec<(&str, JsonValue)>) -> Vec<(String, JsonValue)> {
    v.into_iter().map(|(k, v)| (k.to_string(), v)).collect()
}

fn body() -> JsonValue {
    JsonValue::Object(members(vec![("model", s("gpt-4o")), ("temperature", n(1)), ("messages", JsonValue::Array(vec![])), ("user", s("u1"))]))
}

#[test]
fn known_fields_follow_the_downstream_protocol() {
    assert_eq!(known_request_fields(DownstreamProtocol::ChatCompletions).len(), 8);
    assert_eq!(known_request_fields(DownstreamProtocol::AnthropicMessages).len(), 8);
    let responses = known_request_fields(DownstreamProtocol::Responses);
    assert_eq!(responses.len(), 13);
    assert!(responses.contains(&"previous_response_id"));
    assert!(!responses.contains(&"messages"));
}

#[test]
fn preserving_split_keeps_unknown_members_apart() {
    let fields = known_request_fields(DownstreamProtocol::ChatCompletions);
    let (known, extra) = split_body(UnknownFieldPolicy::Preserve, &body(), &fields).unwrap();
    assert_eq!(format!("{known:?}"), format!("{:?}", JsonValue::Object(members(vec![("model", s("gpt-4o")), ("messages", JsonValue::Array(vec![]))]))));
    assert_eq!(format!("{extra:?}"), format!("{:?}", members(vec![("temperature", n(1)), ("user", s("u1"))])));

    let merged = merge_known_and_extra(known, extra);
    assert_eq!(
        format!("{merged:?}"),
        format!("{:?}", JsonValue::Object(members(vec![("model", s("gpt-4o")), ("messages", JsonValue::Array(vec![])), ("temperature", n(1)), ("user", s("u1"))])))
    );
}

#[test]
fn ignoring_split_drops_unknown_members() {
    let fields = known_request_fields(DownstreamProtocol::ChatCompletions);
    let (_, extra) = split_body(UnknownFieldPolicy::Ignore, &body(), &fields).unwrap();
    assert!(extra.is_empty());
}

#[test]
fn rejecting_split_refuses_unknown_members_only() {
    let fields = known_request_fields(DownstreamProtocol::ChatCompletions);
    let err = split_body(UnknownFieldPolicy::Reject, &body(), &fields).unwrap_err();
    assert_eq!(err.status, 400);
    assert_eq!(err.code, "unknown_field");
    let clean = JsonValue::Object(members(vec![("model", s("m")), ("stream", JsonValue::Bool(true))]));
    let (_, extra) = split_body(UnknownFieldPolicy::Reject, &clean, &fields).unwrap();
    assert!(extra.is_empty());
}

#[test]
fn a_body_that_is_no_object_is_refused() {
    let fields = known_request_fields(DownstreamProtocol::Responses);
    let err = split_body(UnknownFieldPolicy::Preserve, &JsonValue::Array(vec![]), &fields).unwrap_err();
    assert_eq!(err.status, 400);
    assert_eq!(err.code, "invalid_request");
    assert_eq!(err.message, "body must be object");
}

#[test]
fn extra_members_replace_known_ones_of_the_same_name() {
    let known = JsonValue::Object(members(vec![("model", s("a"))]));
    let merged = merge_known_and_extra(known, members(vec![("model", s("b")), ("x", n(2))]));
    assert_eq!(format!("{merged:?}"), format!("{:?}", JsonValue::Object(members(vec![("model", s("b")), ("x", n(2))]))));
    let merged = merge_known_and_extra(JsonValue::Null, members(vec![("x", n(2))]));
    assert_eq!(format!("{merged:?}"), format!("{:?}", JsonValue::Object(members(vec![("x", n(2))]))));
}
