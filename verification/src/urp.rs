//! The unified request/response vocabulary shared by every provider format.
use vstd::prelude::*;
use crate::json::{members_model, JsonModel, JsonValue};

verus! {

/// Token usage reported for one upstream exchange, with the provider's own
/// detail members kept as they came.
#[derive(Debug)]
pub struct Usage {
    pub prompt_tokens: u64,
    pub completion_tokens: u64,
    pub reasoning_tokens: Option<u64>,
    pub cached_tokens: Option<u64>,
    pub extra_body: Vec<(String, JsonValue)>,
}

/// The content of a [`Usage`].
pub struct UsageModel {
    pub prompt_tokens: u64,
    pub completion_tokens: u64,
    pub reasoning_tokens: Option<u64>,
    pub cached_tokens: Option<u64>,
    pub extra_body: Seq<(Seq<char>, JsonModel)>,
}

impl View for Usage {
    type V = UsageModel;

    open spec fn view(&self) -> UsageModel {
        UsageModel {
            prompt_tokens: self.prompt_tokens,
            completion_tokens: self.completion_tokens,
            reasoning_tokens: self.reasoning_tokens,
            cached_tokens: self.cached_tokens,
            extra_body: members_model(self.extra_body@),
        }
    }
}

/// Why generation stopped.
#[derive(Clone, Copy, Debug, PartialEq, Eq, Structural)]
pub enum FinishReason {
    Stop,
    Length,
    ToolCalls,
    ContentFilter,
    Other,
}

} // verus!
