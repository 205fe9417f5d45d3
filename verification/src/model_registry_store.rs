//! Per-token model prices, in nano-USD.
use vstd::prelude::*;

verus! {

/// Prices of one model in nano-USD per token.
#[derive(Clone, Copy, Debug, PartialEq, Eq, Structural)]
pub struct ModelPricing {
    pub input_cost_per_token_nano: i128,
    pub output_cost_per_token_nano: i128,
    pub cache_read_input_cost_per_token_nano: Option<i128>,
    pub output_cost_per_reasoning_token_nano: Option<i128>,
}

} // verus!
