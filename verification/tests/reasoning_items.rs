use monoize::json::{JsonNumber, JsonValue, TextPiece};
use monoize::reasoning::{
    extract_chat_reasoning_deltas, extract_chat_reasoning_from_detail,
    extract_reasoning_text_and_signature, extract_responses_message_text,
    normalize_chat_reasoning_delta_object,
};

fn s(v: &str) -> JsonValue {
    JsonValue::Str(v.to_string())
}

fn obj(members: Vec<(&str, JsonValue)>) -> JsonValue {
    JsonValue::Object(members.into_iter().map(|(k, v)| (k.to_string(), v)).collect())
}

fn members(members: Vec<(&str, JsonValue)>) -> Vec<(String, JsonValue)> {
    members.into_iter().map(|(k, v)| (k.to_string(), v)).collect()
}

fn texts(pieces: &[TextPiece]) -> Vec<String> {
    pieces
        .iter()
        .map(|p| match p {
            TextPiece::Text(t) => t.clone(),
            TextPiece::Encoded(_) => "<encoded>".to_string(),
        })
        .collect()
}

fn str_member<'a>(v: &'a JsonValue, key: &str) -> Option<&'a str> {
    v.get(key).and_then(|x| x.as_str())
}

#[test]
fn reasoning_item_text_falls_back_to_summary() {
    let item = obj(vec![
        ("type", s("reasoning")),
        ("id", s("rs_1")),
        (
            "summary",
            JsonValue::Array(vec![
                obj(vec![("type", s("summary_text")), ("text", s("first"))]),
                obj(vec![("type", s("other")), ("text", s("skipped"))]),
                obj(vec![("type", s("summary_text")), ("text", s(""))]),
                obj(vec![("type", s("summary_text")), ("text", s("second"))]),
            ]),
        ),
    ]);
    let (text, sig) = extract_reasoning_text_and_signature(&item);
    assert_eq!(text, "first\nsecond");
    assert_eq!(sig, "rs_1");

    let direct = obj(vec![("text", s("plain")), ("signature", s("sig")), ("id", s("rs_2"))]);
    assert_eq!(extract_reasoning_text_and_signature(&direct), ("plain".to_string(), "sig".to_string()));
    assert_eq!(extract_reasoning_text_and_signature(&JsonValue::Null), (String::new(), String::new()));
}

#[test]
fn message_text_concatenates_output_text_parts() {
    let item = obj(vec![
        ("type", s("message")),
        (
            "content",
            JsonValue::Array(vec![
                obj(vec![("type", s("output_text")), ("text", s("Hello, "))]),
                obj(vec![("type", s("refusal")), ("refusal", s("no"))]),
                obj(vec![("type", s("output_text")), ("text", s("world"))]),
            ]),
        ),
    ]);
    assert_eq!(extract_responses_message_text(&item), "Hello, world");
    let not_message = obj(vec![("type", s("reasoning")), ("content", JsonValue::Array(vec![]))]);
    assert_eq!(extract_responses_message_text(&not_message), "");
}

#[test]
fn chat_reasoning_details_give_texts_and_signatures() {
    let delta = obj(vec![
        (
            "reasoning_details",
            JsonValue::Array(vec![
                obj(vec![("type", s("reasoning.text")), ("text", s("think")), ("signature", s("sig1"))]),
                obj(vec![("type", s("reasoning.encrypted")), ("data", s("blob"))]),
                obj(vec![("type", s("reasoning.encrypted")), ("data", JsonValue::Null)]),
                obj(vec![("type", s("reasoning.encrypted")), ("data", JsonValue::Number(JsonNumber::PosInt(7)))]),
                obj(vec![("type", s("reasoning.summary")), ("summary", s("sum"))]),
                s("not an object"),
            ]),
        ),
        ("reasoning", s("ignored because details gave text")),
        ("reasoning_content", s("more")),
        ("reasoning_opaque", s("opaque")),
    ]);
    let (text_parts, sig_parts) = extract_chat_reasoning_deltas(&delta);
    assert_eq!(text_parts, vec!["think", "sum", "more"]);
    assert_eq!(texts(&sig_parts), vec!["sig1", "blob", "<encoded>", "opaque"]);
    assert!(matches!(sig_parts[2], TextPiece::Encoded(JsonValue::Number(JsonNumber::PosInt(7)))));
}

#[test]
fn chat_reasoning_uses_plain_reasoning_without_details() {
    let delta = obj(vec![("reasoning", s("plain")), ("reasoning_content", s(""))]);
    let (text_parts, sig_parts) = extract_chat_reasoning_deltas(&delta);
    assert_eq!(text_parts, vec!["plain"]);
    assert!(sig_parts.is_empty());

    let mut text_out = vec!["kept".to_string()];
    let mut sig_out = Vec::new();
    extract_chat_reasoning_from_detail(&obj(vec![("type", s("unknown"))]), &mut text_out, &mut sig_out);
    assert_eq!(text_out, vec!["kept"]);
    assert!(sig_out.is_empty());
}

#[test]
fn chat_delta_is_normalized_to_details() {
    let mut delta = members(vec![
        ("role", s("assistant")),
        ("reasoning_content", s("why")),
        ("reasoning_opaque", s("enc")),
    ]);
    normalize_chat_reasoning_delta_object(&mut delta);
    assert_eq!(delta.len(), 2);
    assert_eq!(delta[0].0, "role");
    assert_eq!(delta[1].0, "reasoning_details");
    match &delta[1].1 {
        JsonValue::Array(items) => {
            assert_eq!(items.len(), 2);
            assert_eq!(str_member(&items[0], "type"), Some("reasoning.text"));
            assert_eq!(str_member(&items[0], "text"), Some("why"));
            assert!(matches!(items[0].get("signature"), Some(JsonValue::Null)));
            assert_eq!(str_member(&items[1], "type"), Some("reasoning.encrypted"));
            assert_eq!(str_member(&items[1], "data"), Some("enc"));
            assert_eq!(str_member(&items[1], "format"), Some("unknown"));
        }
        other => panic!("unexpected {other:?}"),
    }

    let mut existing = members(vec![
        ("reasoning_details", JsonValue::Array(vec![])),
        ("reasoning_content", s("dropped")),
    ]);
    normalize_chat_reasoning_delta_object(&mut existing);
    assert_eq!(existing.len(), 1);
    assert!(matches!(&existing[0].1, JsonValue::Array(items) if items.is_empty()));

    let mut empty = members(vec![("reasoning_content", s("")), ("content", s("x"))]);
    normalize_chat_reasoning_delta_object(&mut empty);
    assert_eq!(empty.len(), 1);
    assert_eq!(empty[0].0, "content");
}
