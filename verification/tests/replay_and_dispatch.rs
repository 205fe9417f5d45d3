use monoize::chat_stream::ChatDelta;
use monoize::config::ProviderType;
use monoize::forwarding::{
    after_upstream_failure, needs_buffered_response, no_upstream_error, stream_adapter_for,
    DownstreamProtocol, FailureAction, StreamAdapter,
};
use monoize::json::{JsonNumber, JsonValue, TextPiece};
use monoize::messages_stream::{BlockKind, MessagesEvent};
use monoize::synthetic_stream::{
    synthetic_chat_deltas, synthetic_messages_events, synthetic_responses_events, ResponsePart,
    SyntheticEvent,
};
use monoize::transforms::{Phase, TransformRuleConfig};
use monoize::urp::FinishReason;

fn call(id: &str, name: &str, args: &str) -> ResponsePart {
    ResponsePart::ToolCall { call_id: id.to_string(), name: name.to_string(), arguments: args.to_string() }
}

fn parts() -> Vec<ResponsePart> {
    vec![
        ResponsePart::Reasoning("think".to_string()),
        ResponsePart::ReasoningEncrypted(JsonValue::Str("sig".to_string())),
        ResponsePart::Text("Hello ".to_string()),
        call("c1", "f", "{}"),
        ResponsePart::Other,
        ResponsePart::Refusal("world".to_string()),
        call("c2", "g", ""),
    ]
}

#[test]
fn complete_response_replays_as_responses_events() {
    let events = synthetic_responses_events(&parts());
    let names: Vec<String> = events
        .iter()
        .map(|e| match e {
            SyntheticEvent::ReasoningTextDelta(t) => format!("reasoning:{t}"),
            SyntheticEvent::ReasoningSignatureDelta(TextPiece::Text(t)) => format!("sig:{t}"),
            SyntheticEvent::ReasoningSignatureDelta(TextPiece::Encoded(_)) => "sig:<json>".to_string(),
            SyntheticEvent::FunctionCallAdded { call_id, .. } => format!("added:{call_id}"),
            SyntheticEvent::FunctionCallArgumentsDelta { call_id, delta, .. } => format!("args:{call_id}:{delta}"),
            SyntheticEvent::FunctionCallDone { call_id, .. } => format!("done:{call_id}"),
            SyntheticEvent::OutputTextDelta(t) => format!("text:{t}"),
        })
        .collect();
    assert_eq!(
        names,
        vec!["reasoning:think", "sig:sig", "added:c1", "args:c1:{}", "done:c1", "added:c2", "done:c2", "text:Hello world"]
    );
    assert!(synthetic_responses_events(&vec![ResponsePart::Text(String::new())]).is_empty());
}

#[test]
fn complete_response_replays_as_chat_deltas() {
    let (deltas, reason) = synthetic_chat_deltas(&parts(), Some(FinishReason::Length));
    assert_eq!(reason, FinishReason::ToolCalls);
    let indices: Vec<usize> = deltas
        .iter()
        .filter_map(|d| match d {
            ChatDelta::ToolCall { index, .. } => Some(*index),
            _ => None,
        })
        .collect();
    assert_eq!(indices, vec![0, 1]);
    assert_eq!(deltas.len(), 6);
    let (_, reason) = synthetic_chat_deltas(&vec![ResponsePart::Text("x".to_string())], Some(FinishReason::Length));
    assert_eq!(reason, FinishReason::Length);
    let (_, reason) = synthetic_chat_deltas(&vec![], None);
    assert_eq!(reason, FinishReason::Stop);
}

#[test]
fn complete_response_replays_as_message_blocks() {
    let encrypted = ResponsePart::ReasoningEncrypted(JsonValue::Number(JsonNumber::PosInt(5)));
    let (events, tool) = synthetic_messages_events(&vec![
        ResponsePart::Reasoning(String::new()),
        encrypted,
        ResponsePart::ReasoningEncrypted(JsonValue::Str(String::new())),
        ResponsePart::Text(String::new()),
        call("c", "f", ""),
        ResponsePart::Text("hi".to_string()),
    ]);
    assert!(tool);
    let kinds: Vec<String> = events
        .iter()
        .map(|e| match e {
            MessagesEvent::BlockStart { index, block: BlockKind::Thinking } => format!("start:{index}:thinking"),
            MessagesEvent::BlockStart { index, block: BlockKind::Text } => format!("start:{index}:text"),
            MessagesEvent::BlockStart { index, block: BlockKind::ToolUse { id, .. } } => format!("start:{index}:tool:{id}"),
            MessagesEvent::BlockStop { index } => format!("stop:{index}"),
            MessagesEvent::SignatureDelta { index, .. } => format!("sig:{index}"),
            MessagesEvent::TextDelta { index, text } => format!("text:{index}:{text}"),
            other => format!("{other:?}"),
        })
        .collect();
    assert_eq!(
        kinds,
        vec![
            "start:0:thinking", "stop:0", "start:1:thinking", "sig:1", "stop:1", "start:2:tool:c", "stop:2",
            "start:3:text", "text:3:hi", "stop:3",
        ]
    );
}

#[test]
fn stream_adapters_follow_protocol_and_provider() {
    assert_eq!(stream_adapter_for(DownstreamProtocol::Responses, ProviderType::Grok).ok(), Some(StreamAdapter::ResponsesPassthrough));
    assert_eq!(stream_adapter_for(DownstreamProtocol::Responses, ProviderType::Gemini).ok(), Some(StreamAdapter::GeminiToResponses));
    assert_eq!(
        stream_adapter_for(DownstreamProtocol::ChatCompletions, ProviderType::Messages).ok(),
        Some(StreamAdapter::AnyToChat(ProviderType::Messages))
    );
    assert_eq!(
        stream_adapter_for(DownstreamProtocol::AnthropicMessages, ProviderType::Gemini).ok(),
        Some(StreamAdapter::GeminiToMessages)
    );
    let err = stream_adapter_for(DownstreamProtocol::Responses, ProviderType::Group).unwrap_err();
    assert_eq!((err.status, err.code.as_str(), err.message.as_str()), (400, "provider_type_not_supported", "group is virtual"));
}

#[test]
fn failed_attempts_retry_only_transient_errors() {
    assert_eq!(after_upstream_failure(true, None), FailureAction::TryNext);
    assert_eq!(after_upstream_failure(false, Some(503)), FailureAction::TryNext);
    assert_eq!(after_upstream_failure(false, Some(401)), FailureAction::Fail);
    assert_eq!(after_upstream_failure(true, Some(400)), FailureAction::Fail);
    assert_eq!(after_upstream_failure(false, Some(404)), FailureAction::Fail);
    let err = no_upstream_error("gpt-5");
    assert_eq!(err.status, 502);
    assert_eq!(err.code, "upstream_error");
    assert_eq!(err.message, "No available upstream provider for model: gpt-5");
}

#[test]
fn response_rules_force_buffering() {
    let rule = TransformRuleConfig {
        transform: "t".to_string(),
        enabled: true,
        phase: Phase::Response,
        models: None,
        config: "{}".to_string(),
    };
    assert!(needs_buffered_response(&vec![], &vec![rule], "any"));
    assert!(!needs_buffered_response(&vec![], &vec![], "any"));
}
