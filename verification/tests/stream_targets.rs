use monoize::chat_stream::{rewrite_chat_chunk, AnyChatStream, ChatDelta};
use monoize::json::{JsonNumber, JsonValue, TextPiece};
use monoize::messages_stream::{
    AnthropicBlocks, BlockKind, GeminiMessagesStream, MessagesEvent, ResponsesMessagesStream,
};
use monoize::responses_passthrough::ResponsesPassthrough;
use monoize::responses_stream::OutputItem;
use monoize::sse::is_done_marker;
use monoize::urp::FinishReason;

fn s(v: &str) -> JsonValue {
    JsonValue::Str(v.to_string())
}

fn n(v: u64) -> JsonValue {
    JsonValue::Number(JsonNumber::PosInt(v))
}

fn obj(members: Vec<(&str, JsonValue)>) -> JsonValue {
    JsonValue::Object(members.into_iter().map(|(k, v)| (k.to_string(), v)).collect())
}

fn arr(items: Vec<JsonValue>) -> JsonValue {
    JsonValue::Array(items)
}

fn piece(p: &TextPiece) -> String {
    match p {
        TextPiece::Text(t) => t.clone(),
        TextPiece::Encoded(_) => "<json>".to_string(),
    }
}

fn msg(e: &MessagesEvent) -> String {
    match e {
        MessagesEvent::BlockStart { index, block: BlockKind::Text } => format!("start:{index}:text"),
        MessagesEvent::BlockStart { index, block: BlockKind::Thinking } => format!("start:{index}:thinking"),
        MessagesEvent::BlockStart { index, block: BlockKind::ToolUse { id, name } } => {
            format!("start:{index}:tool:{id}:{name}")
        }
        MessagesEvent::TextDelta { index, text } => format!("text:{index}:{text}"),
        MessagesEvent::ThinkingDelta { index, thinking } => format!("thinking:{index}:{thinking}"),
        MessagesEvent::SignatureDelta { index, signature } => format!("sig:{index}:{}", piece(signature)),
        MessagesEvent::InputJsonDelta { index, partial_json } => format!("json:{index}:{}", piece(partial_json)),
        MessagesEvent::BlockStop { index } => format!("stop:{index}"),
        MessagesEvent::MessageStart => "message_start".to_string(),
        MessagesEvent::MessageDelta { tool_use } => format!("message_delta:{tool_use}"),
        MessagesEvent::MessageStop => "message_stop".to_string(),
    }
}

fn msgs(events: &[MessagesEvent]) -> Vec<String> {
    events.iter().map(msg).collect()
}

fn chat(d: &ChatDelta) -> String {
    match d {
        ChatDelta::Content(t) => format!("content:{t}"),
        ChatDelta::ReasoningText(t) => format!("reasoning:{t}"),
        ChatDelta::ReasoningSignature(p) => format!("sig:{}", piece(p)),
        ChatDelta::ToolCall { index, id, name, arguments } => format!("tool:{index}:{id}:{name}:{}", piece(arguments)),
    }
}

fn chats(deltas: &[ChatDelta]) -> Vec<String> {
    deltas.iter().map(chat).collect()
}

fn gemini_chunk(parts: Vec<JsonValue>) -> JsonValue {
    obj(vec![("candidates", arr(vec![obj(vec![("content", obj(vec![("parts", arr(parts))]))])]))])
}

fn chat_chunk(delta: JsonValue) -> JsonValue {
    obj(vec![("choices", arr(vec![obj(vec![("delta", delta)])]))])
}

#[test]
fn done_marker_ignores_surrounding_space() {
    assert!(is_done_marker("[DONE]"));
    assert!(is_done_marker("  [DONE]\n"));
    assert!(!is_done_marker("[done]"));
    assert!(!is_done_marker("{}"));
}

#[test]
fn gemini_parts_open_blocks_in_order() {
    let mut stream = GeminiMessagesStream::new();
    let events = stream.on_chunk(&gemini_chunk(vec![
        obj(vec![("text", s("think")), ("thought", JsonValue::Bool(true)), ("thoughtSignature", s("sg"))]),
        obj(vec![("text", s("hello"))]),
        obj(vec![("functionCall", obj(vec![("name", s("f")), ("args", obj(vec![]))]))]),
        obj(vec![("text", s(" again"))]),
    ]));
    assert_eq!(
        msgs(&events),
        vec![
            "start:0:thinking", "thinking:0:think", "sig:0:sg", "start:1:text", "text:1:hello",
            "start:2:tool:f:f", "json:2:<json>", "text:1: again",
        ]
    );
    assert!(stream.saw_tool_use);
    assert_eq!(stream.blocks.started, vec![0, 1, 2]);
}

#[test]
fn chat_chunks_become_message_blocks() {
    let mut blocks = AnthropicBlocks::new();
    let e = blocks.on_chat_chunk(&chat_chunk(obj(vec![("reasoning_content", s("r")), ("content", s("c"))])));
    assert_eq!(msgs(&e), vec!["start:0:thinking", "thinking:0:r", "start:1:text", "text:1:c"]);
    let tc = |id: &str, name: &str, args: &str| {
        obj(vec![("id", s(id)), ("function", obj(vec![("name", s(name)), ("arguments", s(args))]))])
    };
    let e = blocks.on_chat_chunk(&chat_chunk(obj(vec![("tool_calls", arr(vec![tc("c1", "f", "{}"), tc("", "g", "x")]))])));
    assert_eq!(msgs(&e), vec!["start:2:tool:c1:f", "json:2:{}"]);
    let e = blocks.on_chat_chunk(&chat_chunk(obj(vec![("tool_calls", arr(vec![tc("c1", "", "")]))])));
    assert!(e.is_empty());
    assert!(blocks.stops_for_tool_use());
    assert!(!AnthropicBlocks::new().stops_for_tool_use());
}

#[test]
fn responses_events_become_message_blocks() {
    let mut stream = ResponsesMessagesStream::new();
    let added = obj(vec![
        ("output_index", n(3)),
        ("item", obj(vec![("type", s("function_call")), ("call_id", s("call_9")), ("name", s("lookup"))])),
    ]);
    assert_eq!(msgs(&stream.on_event("response.output_item.added", &added)), vec!["start:0:tool:call_9:lookup"]);
    let delta = obj(vec![("output_index", n(3)), ("delta", s("{\"a\""))]);
    assert_eq!(
        msgs(&stream.on_event("response.function_call_arguments.delta", &delta)),
        vec!["json:0:{\"a\""]
    );
    let text = obj(vec![("delta", s("Hi"))]);
    assert_eq!(msgs(&stream.on_event("response.output_text.delta", &text)), vec!["start:1:text", "text:1:Hi"]);
    let message_done = obj(vec![(
        "item",
        obj(vec![
            ("type", s("message")),
            ("content", arr(vec![obj(vec![("type", s("output_text")), ("text", s("Hi"))])])),
        ]),
    )]);
    assert!(stream.on_event("response.output_item.done", &message_done).is_empty());
    let reasoning_done = obj(vec![("item", obj(vec![("type", s("reasoning")), ("text", s("why")), ("id", s("rs"))]))]);
    assert_eq!(
        msgs(&stream.on_event("response.output_item.done", &reasoning_done)),
        vec!["start:2:thinking", "thinking:2:why", "sig:2:rs"]
    );
    assert!(stream.on_event("response.unknown", &text).is_empty());
}

#[test]
fn responses_events_become_chat_deltas() {
    let mut stream = AnyChatStream::new();
    assert_eq!(chats(&stream.on_responses_event("response.output_text.delta", &obj(vec![("text", s("Hi"))]), false)), vec!["content:Hi"]);
    assert!(stream.saw_responses_text_delta);
    let added = obj(vec![
        ("output_index", n(1)),
        ("item", obj(vec![("type", s("function_call")), ("call_id", s("a")), ("name", s("f"))])),
    ]);
    assert_eq!(chats(&stream.on_responses_event("response.output_item.added", &added, false)), vec!["tool:0:a:f:"]);
    let args = obj(vec![("output_index", n(1)), ("delta", s("{}"))]);
    assert_eq!(chats(&stream.on_responses_event("response.function_call_arguments.delta", &args, false)), vec!["tool:0:a:f:{}"]);
    let done = obj(vec![("item", obj(vec![("type", s("function_call")), ("call_id", s("b")), ("arguments", s("[1]"))]))]);
    assert_eq!(chats(&stream.on_responses_event("response.output_item.done", &done, false)), vec!["tool:1:b::[1]"]);
    let message_done = obj(vec![(
        "item",
        obj(vec![
            ("type", s("message")),
            ("content", arr(vec![obj(vec![("type", s("output_text")), ("text", s("Hi"))])])),
        ]),
    )]);
    assert!(stream.on_responses_event("response.output_item.done", &message_done, false).is_empty());
    assert_eq!(stream.finish_reason(), FinishReason::ToolCalls);

    let mut grok = AnyChatStream::new();
    grok.on_responses_event("response.output_text.delta", &obj(vec![("delta", s("x"))]), true);
    assert!(!grok.saw_responses_text_delta);
    assert!(grok.on_responses_event("response.output_item.done", &message_done, true).is_empty());
    assert_eq!(grok.finish_reason(), FinishReason::Stop);
}

#[test]
fn messages_events_become_chat_deltas() {
    let mut stream = AnyChatStream::new();
    let start = obj(vec![
        ("type", s("content_block_start")),
        ("content_block", obj(vec![("type", s("tool_use")), ("id", s("t1")), ("name", s("search"))])),
    ]);
    assert_eq!(chats(&stream.on_messages_event(&start)), vec!["tool:0:t1:search:"]);
    let delta = |d: JsonValue| obj(vec![("type", s("content_block_delta")), ("delta", d)]);
    assert_eq!(
        chats(&stream.on_messages_event(&delta(obj(vec![("type", s("input_json_delta")), ("partial_json", s("{"))])))),
        vec!["tool:0:t1:search:{"]
    );
    assert_eq!(
        chats(&stream.on_messages_event(&delta(obj(vec![("type", s("thinking_delta")), ("thinking", s("hm"))])))),
        vec!["reasoning:hm"]
    );
    assert!(stream.on_messages_event(&delta(obj(vec![("type", s("text_delta")), ("text", s(""))]))).is_empty());
}

#[test]
fn gemini_chunks_become_chat_deltas() {
    let mut stream = AnyChatStream::new();
    let d = stream.on_gemini_chunk(&gemini_chunk(vec![
        obj(vec![("text", s("")), ("thought", JsonValue::Bool(true))]),
        obj(vec![("text", s("ok"))]),
        obj(vec![("functionCall", obj(vec![("name", s("f"))]))]),
        obj(vec![("functionCall", obj(vec![("name", s("f"))]))]),
    ]));
    assert_eq!(chats(&d), vec!["reasoning:", "content:ok", "tool:0:f:f:<json>", "tool:0:f:f:<json>"]);
    assert_eq!(stream.finish_reason(), FinishReason::ToolCalls);
}

#[test]
fn passed_through_chat_chunks_are_completed() {
    let chunk = obj(vec![
        ("id", s("upstream")),
        ("model", s("gpt-5-2025")),
        ("choices", arr(vec![obj(vec![("delta", obj(vec![("reasoning_content", s("r"))]))])])),
    ]);
    let out = rewrite_chat_chunk(chunk, "gpt-5", "chatcmpl_1", 1_700_000_000);
    let get = |k: &str| out.get(k);
    assert!(matches!(get("model"), Some(JsonValue::Str(m)) if m == "gpt-5"));
    assert!(matches!(get("id"), Some(JsonValue::Str(m)) if m == "upstream"));
    assert!(matches!(get("object"), Some(JsonValue::Str(m)) if m == "chat.completion.chunk"));
    assert!(matches!(get("created"), Some(JsonValue::Number(JsonNumber::PosInt(1_700_000_000)))));
    let delta = match get("choices") {
        Some(JsonValue::Array(items)) => items[0].get("delta").expect("delta"),
        other => panic!("unexpected {other:?}"),
    };
    assert!(delta.get("reasoning_content").is_none());
    assert!(matches!(delta.get("reasoning_details"), Some(JsonValue::Array(items)) if items.len() == 1));
    assert!(matches!(rewrite_chat_chunk(JsonValue::Null, "m", "i", -1), JsonValue::Null));
}

#[test]
fn passthrough_summarises_the_response() {
    let mut p = ResponsesPassthrough::new();
    p.on_event("response.output_item.added", &obj(vec![
        ("output_index", n(0)),
        ("item", obj(vec![("type", s("function_call")), ("call_id", s("c")), ("name", s(""))])),
    ]));
    p.on_event("response.function_call_arguments.delta", &obj(vec![("output_index", n(0)), ("name", s("f")), ("delta", s("{\"x\":"))]));
    p.on_event("response.function_call_arguments.delta", &obj(vec![("call_id", s("c")), ("delta", s("1}"))]));
    p.on_event("response.function_call_arguments.done", &obj(vec![("call_id", s("c")), ("arguments", s("ignored"))]));
    p.on_event("response.reasoning_text.delta", &obj(vec![("delta", s("th"))]));
    p.on_event("response.output_item.done", &obj(vec![("item", obj(vec![("type", s("reasoning")), ("text", s("other")), ("signature", s("sg"))]))]));
    p.on_event("response.output_item.done", &obj(vec![(
        "item",
        obj(vec![
            ("type", s("message")),
            ("content", arr(vec![obj(vec![("type", s("output_text")), ("text", s("done"))])])),
        ]),
    )]));
    assert_eq!(p.closing_text_delta(), Some("done".to_string()));
    let items = p.output_items();
    assert_eq!(items.len(), 3);
    assert!(matches!(&items[0], OutputItem::Reasoning { text, signature } if text == "th" && piece(&signature[0]) == "sg"));
    assert!(matches!(&items[1], OutputItem::FunctionCall { call_id, name, arguments } if call_id == "c" && name == "f" && piece(&arguments[0]) == "{\"x\":1}"));
    assert!(matches!(&items[2], OutputItem::Message { text } if text == "done"));

    let mut q = ResponsesPassthrough::new();
    q.on_event("response.output_text.delta", &obj(vec![("text", s("a"))]));
    assert_eq!(q.closing_text_delta(), None);
    assert_eq!(q.output_text, "a");
}
