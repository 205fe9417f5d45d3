use monoize::chat_responses_stream::ChatResponsesStream;
use monoize::gemini_stream::{gemini_chunk_items, GeminiChatStream, GeminiItem, GeminiResponsesStream};
use monoize::json::{JsonNumber, JsonValue, TextPiece};
use monoize::messages_responses_stream::MessagesResponsesStream;
use monoize::responses_stream::{OutputItem, ResponsesEvent, ResponsesStreamState};
use monoize::urp::FinishReason;

fn s(v: &str) -> JsonValue {
    JsonValue::Str(v.to_string())
}

fn n(v: u64) -> JsonValue {
    JsonValue::Number(JsonNumber::PosInt(v))
}

fn obj(members: Vec<(&str, JsonValue)>) -> JsonValue {
    JsonValue::Object(members.into_iter().map(|(k, v)| (k.to_string(), v)).collect())
}

fn arr(items: Vec<JsonValue>) -> JsonValue {
    JsonValue::Array(items)
}

fn text(p: &TextPiece) -> String {
    match p {
        TextPiece::Text(t) => t.clone(),
        TextPiece::Encoded(_) => "<json>".to_string(),
    }
}

fn describe(e: &ResponsesEvent) -> String {
    match e {
        ResponsesEvent::OutputTextDelta(t) => format!("text:{t}"),
        ResponsesEvent::ReasoningTextDelta(t) => format!("reasoning:{t}"),
        ResponsesEvent::ReasoningSignatureDelta(p) => format!("signature:{}", text(p)),
        ResponsesEvent::FunctionCallAdded { call_id, name } => format!("added:{call_id}:{name}"),
        ResponsesEvent::FunctionCallArgumentsDelta { call_id, name, delta } => {
            format!("args:{call_id}:{name}:{}", text(delta))
        }
    }
}

fn describe_all(events: &[ResponsesEvent]) -> Vec<String> {
    events.iter().map(describe).collect()
}

fn chat_chunk(delta: JsonValue) -> JsonValue {
    obj(vec![("choices", arr(vec![obj(vec![("index", n(0)), ("delta", delta)])]))])
}

fn tool_call(index: Option<u64>, id: Option<&str>, name: Option<&str>, args: Option<&str>) -> JsonValue {
    let mut members = Vec::new();
    if let Some(i) = index {
        members.push(("index", n(i)));
    }
    if let Some(i) = id {
        members.push(("id", s(i)));
    }
    let mut function = Vec::new();
    if let Some(nm) = name {
        function.push(("name", s(nm)));
    }
    if let Some(a) = args {
        function.push(("arguments", s(a)));
    }
    members.push(("function", obj(function)));
    obj(members)
}

#[test]
fn chat_stream_becomes_responses_events() {
    let mut stream = ChatResponsesStream::new();
    let e1 = stream.on_chunk(&chat_chunk(obj(vec![("content", s("Hel"))])));
    assert_eq!(describe_all(&e1), vec!["text:Hel"]);
    let e2 = stream.on_chunk(&chat_chunk(obj(vec![
        ("content", s("lo")),
        ("reasoning_content", s("hmm")),
        ("reasoning_opaque", s("sig")),
    ])));
    assert_eq!(describe_all(&e2), vec!["text:lo", "reasoning:hmm", "signature:sig"]);
    let e3 = stream.on_chunk(&chat_chunk(obj(vec![(
        "tool_calls",
        arr(vec![tool_call(Some(0), Some("call_1"), Some("lookup"), Some("{\"q\""))]),
    )])));
    assert_eq!(describe_all(&e3), vec!["added:call_1:lookup", "args:call_1:lookup:{\"q\""]);
    // A later delta names only its index.
    let e4 = stream.on_chunk(&chat_chunk(obj(vec![(
        "tool_calls",
        arr(vec![tool_call(Some(0), None, None, Some(":1}"))]),
    )])));
    assert_eq!(describe_all(&e4), vec!["args:call_1:lookup::1}"]);
    // Non-chat data and an empty delta do nothing.
    assert!(stream.on_chunk(&JsonValue::Null).is_empty());
    assert!(stream.on_chunk(&chat_chunk(obj(vec![("content", s(""))]))).is_empty());

    assert_eq!(stream.state.output_text, "Hello");
    assert_eq!(stream.state.reasoning_text, "hmm");
    let items = stream.state.output_items();
    assert_eq!(items.len(), 3);
    assert!(matches!(&items[0], OutputItem::Reasoning { text, signature } if text == "hmm" && signature.len() == 1));
    match &items[1] {
        OutputItem::FunctionCall { call_id, name, arguments } => {
            assert_eq!(call_id, "call_1");
            assert_eq!(name, "lookup");
            let joined: String = arguments.iter().map(text).collect();
            assert_eq!(joined, "{\"q\":1}");
        }
        other => panic!("unexpected {other:?}"),
    }
    assert!(matches!(&items[2], OutputItem::Message { text } if text == "Hello"));
}

#[test]
fn chat_tool_calls_without_ids_follow_order() {
    let mut stream = ChatResponsesStream::new();
    stream.on_chunk(&chat_chunk(obj(vec![(
        "tool_calls",
        arr(vec![tool_call(None, Some("a"), Some("f"), None), tool_call(None, Some("b"), Some("g"), None)]),
    )])));
    // Without id or index, position 1 of two refers to the second call.
    let e = stream.on_chunk(&chat_chunk(obj(vec![(
        "tool_calls",
        arr(vec![tool_call(None, None, None, Some("x")), tool_call(None, None, None, Some("y"))]),
    )])));
    assert_eq!(describe_all(&e), vec!["args:a:f:x", "args:b:g:y"]);
    // A lone delta goes to the latest call.
    let e = stream.on_chunk(&chat_chunk(obj(vec![("tool_calls", arr(vec![tool_call(None, None, None, Some("z"))]))])));
    assert_eq!(describe_all(&e), vec!["args:b:g:z"]);
    // A call first seen without a name takes the first name given.
    let e = stream.on_chunk(&chat_chunk(obj(vec![(
        "tool_calls",
        arr(vec![tool_call(None, Some("c"), None, None), tool_call(None, Some("c"), Some("h"), Some("1"))]),
    )])));
    assert_eq!(describe_all(&e), vec!["added:c:", "args:c:h:1"]);
}

fn gemini_chunk(parts: Vec<JsonValue>) -> JsonValue {
    obj(vec![("candidates", arr(vec![obj(vec![("content", obj(vec![("parts", arr(parts))]))])]))])
}

#[test]
fn gemini_parts_become_items() {
    let chunk = gemini_chunk(vec![
        obj(vec![("text", s("plan")), ("thought", JsonValue::Bool(true)), ("thoughtSignature", s("sg"))]),
        obj(vec![("text", s(""))]),
        obj(vec![("text", s("answer"))]),
        obj(vec![("functionCall", obj(vec![("name", s("lookup")), ("args", obj(vec![("q", n(1))]))]))]),
        obj(vec![("functionCall", obj(vec![("id", s("x")), ("name", s(""))]))]),
    ]);
    let items = gemini_chunk_items(&chunk);
    assert_eq!(items.len(), 4);
    assert!(matches!(&items[0], GeminiItem::Thought(t) if t == "plan"));
    assert!(matches!(&items[1], GeminiItem::Signature(TextPiece::Text(t)) if t == "sg"));
    assert!(matches!(&items[2], GeminiItem::Text(t) if t == "answer"));
    assert!(matches!(&items[3], GeminiItem::Call { id, name, args: JsonValue::Object(_) } if id == "lookup" && name == "lookup"));
    assert!(gemini_chunk_items(&obj(vec![("candidates", arr(vec![]))])).is_empty());

    let mut chat = GeminiChatStream::new();
    assert_eq!(chat.finish_reason(), FinishReason::Stop);
    chat.on_chunk(&gemini_chunk(vec![obj(vec![("text", s("hi"))])]));
    assert_eq!(chat.finish_reason(), FinishReason::Stop);
    chat.on_chunk(&chunk);
    assert_eq!(chat.finish_reason(), FinishReason::ToolCalls);
}

#[test]
fn gemini_stream_becomes_responses_events() {
    let mut stream = GeminiResponsesStream::new();
    let events = stream.on_chunk(&gemini_chunk(vec![
        obj(vec![("text", s("")), ("thought", JsonValue::Bool(true))]),
        obj(vec![("text", s("ok"))]),
        obj(vec![("functionCall", obj(vec![("name", s("f")), ("args", obj(vec![]))]))]),
        obj(vec![("functionCall", obj(vec![("id", s("")), ("name", s("g"))]))]),
    ]));
    assert_eq!(
        describe_all(&events),
        vec!["text:ok", "added:f:f", "args:f:f:<json>", "added:call_2:g", "args:call_2:g:<json>"]
    );
    match &events[4] {
        ResponsesEvent::FunctionCallArgumentsDelta { delta: TextPiece::Encoded(JsonValue::Null), .. } => {}
        other => panic!("unexpected {other:?}"),
    }
}

#[test]
fn messages_stream_becomes_responses_events() {
    let mut stream = MessagesResponsesStream::new();
    let start = obj(vec![
        ("type", s("content_block_start")),
        ("content_block", obj(vec![("type", s("tool_use")), ("id", s("toolu_1")), ("name", s("search"))])),
    ]);
    let (e, stop) = stream.on_event(&start);
    assert_eq!(describe_all(&e), vec!["added:toolu_1:search"]);
    assert!(!stop);
    let delta = |d: JsonValue| obj(vec![("type", s("content_block_delta")), ("delta", d)]);
    let (e, _) = stream.on_event(&delta(obj(vec![("type", s("input_json_delta")), ("partial_json", s("{}"))])));
    assert_eq!(describe_all(&e), vec!["args:toolu_1:search:{}"]);
    let (e, _) = stream.on_event(&obj(vec![("type", s("content_block_stop"))]));
    assert!(e.is_empty());
    let (e, _) = stream.on_event(&delta(obj(vec![("type", s("input_json_delta")), ("partial_json", s("x"))])));
    assert!(e.is_empty());
    let (e, _) = stream.on_event(&delta(obj(vec![("type", s("text_delta")), ("text", s("Hi"))])));
    assert_eq!(describe_all(&e), vec!["text:Hi"]);
    let (e, _) = stream.on_event(&delta(obj(vec![("type", s("thinking_delta")), ("thinking", s("t"))])));
    assert_eq!(describe_all(&e), vec!["reasoning:t"]);
    let (e, _) = stream.on_event(&delta(obj(vec![("type", s("signature_delta")), ("signature", s(""))])));
    assert!(e.is_empty());
    let (e, stop) = stream.on_event(&obj(vec![("type", s("message_stop"))]));
    assert!(e.is_empty());
    assert!(stop);
    assert_eq!(stream.state.output_text, "Hi");
}

#[test]
fn output_items_skip_empty_reasoning() {
    let state = ResponsesStreamState::new();
    let items = state.output_items();
    assert_eq!(items.len(), 1);
    assert!(matches!(&items[0], OutputItem::Message { text } if text.is_empty()));
}
