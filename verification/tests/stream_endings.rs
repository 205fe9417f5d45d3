use monoize::chat_stream::{AnyChatStream, ChatClosing};
use monoize::json::JsonValue;
use monoize::messages_stream::{messages_opening_events, AnthropicBlocks, GeminiMessagesStream, MessagesEvent, ResponsesMessagesStream};
use monoize::responses_passthrough::ResponsesPassthrough;
use monoize::responses_stream::{responses_opening_events, LifecycleEvent, OutputItem, ResponsesStreamState};
use monoize::sse::events_before_done;
use monoize::urp::FinishReason;

fn s(v: &str) -> JsonValue {
    JsonValue::Str(v.to_string())
}

fn obj(members: Vec<(&str, JsonValue)>) -> JsonValue {
    JsonValue::Object(members.into_iter().map(|(k, v)| (k.to_string(), v)).collect())
}

fn life(e: &LifecycleEvent) -> String {
    let item = |i: &OutputItem| match i {
        OutputItem::Reasoning { .. } => "reasoning".to_string(),
        OutputItem::FunctionCall { call_id, .. } => format!("call:{call_id}"),
        OutputItem::Message { text } => format!("message:{text}"),
    };
    match e {
        LifecycleEvent::Created => "created".to_string(),
        LifecycleEvent::InProgress => "in_progress".to_string(),
        LifecycleEvent::ItemAdded(i) => format!("added:{}", item(i)),
        LifecycleEvent::TextDelta(t) => format!("delta:{t}"),
        LifecycleEvent::ItemDone(i) => format!("done:{}", item(i)),
        LifecycleEvent::TextDone => "text_done".to_string(),
        LifecycleEvent::Completed(items) => format!("completed:{}", items.iter().map(item).collect::<Vec<_>>().join(",")),
    }
}

#[test]
fn streams_are_read_up_to_the_first_done_marker() {
    let datas: Vec<String> = vec!["{}".into(), " [DONE] ".into(), "{}".into(), "[DONE]".into()];
    assert_eq!(events_before_done(&datas), 1);
    assert_eq!(events_before_done(&vec!["{}".to_string()]), 1);
    assert_eq!(events_before_done(&vec![]), 0);
}

#[test]
fn chat_streams_close_with_a_finish_chunk_then_done() {
    let mut stream = AnyChatStream::new();
    assert_eq!(stream.closing_frames(), vec![ChatClosing::Finish(FinishReason::Stop), ChatClosing::Done]);
    let added = obj(vec![("item", obj(vec![("type", s("function_call")), ("call_id", s("a")), ("name", s("f"))]))]);
    stream.on_responses_event("response.output_item.added", &added, false);
    assert_eq!(stream.closing_frames(), vec![ChatClosing::Finish(FinishReason::ToolCalls), ChatClosing::Done]);
}

#[test]
fn messages_streams_stop_every_block_in_start_order() {
    assert!(matches!(messages_opening_events().as_slice(), [MessagesEvent::MessageStart]));
    let mut blocks = AnthropicBlocks::new();
    let mut events = Vec::new();
    blocks.add_thinking("r".to_string(), &mut events);
    blocks.add_text("t".to_string(), &mut events);
    blocks.add_tool_input(&"c1".to_string(), &"f".to_string(), monoize::json::TextPiece::Text("{}".to_string()), &mut events);
    let closing = blocks.closing_events(blocks.stops_for_tool_use());
    let names: Vec<String> = closing
        .iter()
        .map(|e| match e {
            MessagesEvent::BlockStop { index } => format!("stop:{index}"),
            MessagesEvent::MessageDelta { tool_use } => format!("delta:{tool_use}"),
            MessagesEvent::MessageStop => "message_stop".to_string(),
            other => format!("{other:?}"),
        })
        .collect();
    assert_eq!(names, vec!["stop:0", "stop:1", "stop:2", "delta:true", "message_stop"]);
    let empty = AnthropicBlocks::new().closing_events(false);
    assert_eq!(empty.len(), 2);
    assert!(matches!(empty[0], MessagesEvent::MessageDelta { tool_use: false }));
}

#[test]
fn converted_responses_streams_close_with_calls_message_and_completion() {
    let opening: Vec<String> = responses_opening_events().iter().map(life).collect();
    assert_eq!(opening, vec!["created", "in_progress"]);
    let mut st = ResponsesStreamState::new();
    let mut events = Vec::new();
    st.add_output_text("hi", &mut events);
    st.open_call(&"c1".to_string(), &"f".to_string(), &mut events);
    let closing: Vec<String> = st.closing_events().iter().map(life).collect();
    assert_eq!(closing, vec!["done:call:c1", "done:message:hi", "text_done", "completed:call:c1,message:hi"]);
}

#[test]
fn passed_through_responses_close_with_the_message() {
    let mut p = ResponsesPassthrough::new();
    let closing: Vec<String> = p.closing_events().iter().map(life).collect();
    assert_eq!(closing, vec!["added:message:", "delta:", "done:message:", "text_done", "completed:message:"]);
    p.on_event("response.output_text.delta", &obj(vec![("text", s("a"))]));
    let closing: Vec<String> = p.closing_events().iter().map(life).collect();
    assert_eq!(closing, vec!["added:message:a", "done:message:a", "text_done", "completed:message:a"]);
}

#[test]
fn converted_messages_streams_pick_their_stop_reason() {
    let g = GeminiMessagesStream::new();
    assert!(matches!(g.closing_events().as_slice(), [MessagesEvent::MessageDelta { tool_use: false }, MessagesEvent::MessageStop]));
    let r = ResponsesMessagesStream::new();
    assert!(matches!(r.closing_events().as_slice(), [MessagesEvent::MessageDelta { tool_use: false }, MessagesEvent::MessageStop]));
}
