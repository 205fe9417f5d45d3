//! The decisions of a forwarded request around its upstream attempts: which
//! stream adapter turns the upstream stream into the downstream protocol,
//! what a failed attempt leads to, and the error when every attempt failed.
use vstd::prelude::*;
use crate::config::ProviderType;
use crate::error::{app_error, AppError, STATUS_BAD_GATEWAY, STATUS_BAD_REQUEST};
use crate::handlers::{
    has_enabled_response_rules, is_non_retryable_client_error, is_retryable_error, response_rule_applies,
};
use crate::text::{push_lit, string_of};
use crate::transforms::TransformRuleConfig;

verus! {

/// The protocol a client speaks.
#[derive(Clone, Copy, Debug, PartialEq, Eq, Structural)]
pub enum DownstreamProtocol {
    Responses,
    ChatCompletions,
    AnthropicMessages,
}

/// The adapter that turns an upstream stream into the downstream protocol.
#[derive(Clone, Copy, Debug, PartialEq, Eq, Structural)]
pub enum StreamAdapter {
    /// A responses (or Grok) stream passed through as responses events.
    ResponsesPassthrough,
    /// A chat completion stream as responses events.
    ChatToResponses,
    /// An Anthropic messages stream as responses events.
    MessagesToResponses,
    /// A Gemini stream as responses events.
    GeminiToResponses,
    /// A Gemini stream as chat completion chunks.
    GeminiToChat,
    /// Any other stream of the given provider type as chat completion chunks.
    AnyToChat(ProviderType),
    /// A Gemini stream as Anthropic messages events.
    GeminiToMessages,
    /// Any other stream of the given provider type as messages events.
    AnyToMessages(ProviderType),
}

/// The adapter for a client protocol and an upstream provider type; a
/// virtual group provider cannot be streamed as responses.
pub open spec fn adapter_for(downstream: DownstreamProtocol, provider: ProviderType) -> Option<StreamAdapter> {
    match downstream {
        DownstreamProtocol::Responses => match provider {
            ProviderType::Responses | ProviderType::Grok => Some(StreamAdapter::ResponsesPassthrough),
            ProviderType::ChatCompletion => Some(StreamAdapter::ChatToResponses),
            ProviderType::Messages => Some(StreamAdapter::MessagesToResponses),
            ProviderType::Gemini => Some(StreamAdapter::GeminiToResponses),
            ProviderType::Group => None,
        },
        DownstreamProtocol::ChatCompletions => match provider {
            ProviderType::Gemini => Some(StreamAdapter::GeminiToChat),
            other => Some(StreamAdapter::AnyToChat(other)),
        },
        DownstreamProtocol::AnthropicMessages => match provider {
            ProviderType::Gemini => Some(StreamAdapter::GeminiToMessages),
            other => Some(StreamAdapter::AnyToMessages(other)),
        },
    }
}

/// The stream adapter for a client protocol and an upstream provider type;
/// 400 `provider_type_not_supported` (`group is virtual`) for a group
/// provider streamed as responses.
pub fn stream_adapter_for(downstream: DownstreamProtocol, provider: ProviderType) -> (r: Result<StreamAdapter, AppError>)
    ensures
        match adapter_for(downstream, provider) {
            Some(a) => r == Ok::<StreamAdapter, AppError>(a),
            None => r matches Err(e) && e.status == 400 && e.code@ == "provider_type_not_supported"@
                && e.message@ == "group is virtual"@,
        },
{
    match downstream {
        DownstreamProtocol::Responses => match provider {
            ProviderType::Responses | ProviderType::Grok => Ok(StreamAdapter::ResponsesPassthrough),
            ProviderType::ChatCompletion => Ok(StreamAdapter::ChatToResponses),
            ProviderType::Messages => Ok(StreamAdapter::MessagesToResponses),
            ProviderType::Gemini => Ok(StreamAdapter::GeminiToResponses),
            ProviderType::Group => Err(
                app_error(STATUS_BAD_REQUEST, "provider_type_not_supported", "group is virtual"),
            ),
        },
        DownstreamProtocol::ChatCompletions => match provider {
            ProviderType::Gemini => Ok(StreamAdapter::GeminiToChat),
            other => Ok(StreamAdapter::AnyToChat(other)),
        },
        DownstreamProtocol::AnthropicMessages => match provider {
            ProviderType::Gemini => Ok(StreamAdapter::GeminiToMessages),
            other => Ok(StreamAdapter::AnyToMessages(other)),
        },
    }
}

/// What a failed upstream attempt leads to.
#[derive(Clone, Copy, Debug, PartialEq, Eq, Structural)]
pub enum FailureAction {
    /// Give up and answer with this attempt's error.
    Fail,
    /// Record the failure against the channel and try the next attempt.
    TryNext,
}

/// A client error no other channel would answer differently ends the
/// request; a network failure or an overload or server status moves on to
/// the next attempt; anything else ends the request.
pub fn after_upstream_failure(is_network: bool, status: Option<u16>) -> (r: FailureAction)
    ensures
        r == (if !(status matches Some(c) && (c == 400 || c == 401 || c == 403 || c == 422)) && (is_network
            || (status matches Some(c) && (c == 429 || c == 500 || c == 502 || c == 503 || c == 504))) {
            FailureAction::TryNext
        } else {
            FailureAction::Fail
        }),
{
    if is_non_retryable_client_error(status) {
        FailureAction::Fail
    } else if is_retryable_error(is_network, status) {
        FailureAction::TryNext
    } else {
        FailureAction::Fail
    }
}

/// The error when no attempt succeeded: 502 `upstream_error`, `No available
/// upstream provider for model: <model>`.
pub fn no_upstream_error(model: &str) -> (r: AppError)
    ensures
        r.status == 502,
        r.code@ == "upstream_error"@,
        r.message@ == "No available upstream provider for model: "@ + model@,
        r.error_type@ == "invalid_request_error"@,
        r.param is None,
{
    let mut message = string_of("No available upstream provider for model: ");
    push_lit(&mut message, model);
    AppError::new(STATUS_BAD_GATEWAY, string_of("upstream_error"), message)
}

/// Whether some enabled response-phase rule applies to `model`.
pub open spec fn has_response_rule(rules: Seq<TransformRuleConfig>, model: Seq<char>) -> bool {
    exists|i: int| 0 <= i < rules.len() && response_rule_applies(#[trigger] rules[i], model)
}

/// Whether an attempt must be answered from a buffered (non-streaming)
/// upstream response so that response transform rules can run: the
/// provider's or the key's rules have an enabled response rule for the model.
pub fn needs_buffered_response(
    provider_rules: &Vec<TransformRuleConfig>,
    key_rules: &Vec<TransformRuleConfig>,
    model: &str,
) -> (r: bool)
    ensures
        r == (has_response_rule(provider_rules@, model@) || has_response_rule(key_rules@, model@)),
{
    has_enabled_response_rules(provider_rules.as_slice(), model) || has_enabled_response_rules(
        key_rules.as_slice(),
        model,
    )
}

} // verus!
