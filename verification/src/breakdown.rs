//! The billing breakdowns stored with a request log: what was charged for
//! each side of a request, from the charge components and the model's
//! pricing, and the fixed breakdowns of an active channel probe.
use crate::handlers::{non_negative_i128_to_u64, ChargeComponents, MonoizeAttempt};
use crate::model_registry_store::ModelPricing;
use crate::usage::{InputBreakdown, OutputBreakdown, UsageBreakdown};
use vstd::prelude::*;

verus! {

/// The input side of a billing breakdown, in tokens and nano-USD.
#[derive(Clone, Copy, Debug, PartialEq, Eq, Structural)]
pub struct InputCharges {
    pub total_tokens: u64,
    pub cached_tokens: u64,
    pub billed_uncached_tokens: u64,
    pub billed_cached_tokens: u64,
    pub unit_price_nano: i128,
    pub cached_unit_price_nano: Option<i128>,
    pub uncached_charge_nano: i128,
    pub cached_charge_nano: i128,
    pub total_charge_nano: i128,
}

/// The output side of a billing breakdown, in tokens and nano-USD.
#[derive(Clone, Copy, Debug, PartialEq, Eq, Structural)]
pub struct OutputCharges {
    pub total_tokens: u64,
    pub reasoning_tokens: u64,
    pub billed_non_reasoning_tokens: u64,
    pub billed_reasoning_tokens: u64,
    pub unit_price_nano: i128,
    pub reasoning_unit_price_nano: Option<i128>,
    pub non_reasoning_charge_nano: i128,
    pub reasoning_charge_nano: i128,
    pub total_charge_nano: i128,
}

/// The billing breakdown of one request (format version 1, in nano-USD).
/// The provider multiplier is held in billionths.
#[derive(Debug)]
pub struct BillingBreakdown {
    pub logical_model: String,
    pub upstream_model: String,
    pub provider_id: String,
    pub provider_multiplier_nano: i128,
    pub input: InputCharges,
    pub output: OutputCharges,
    pub base_charge_nano: i128,
    pub final_charge_nano: i128,
}

/// A signed figure as a token count: negatives become zero, and figures
/// past `u64::MAX` become `u64::MAX`.
pub open spec fn token_count(v: i128) -> u64 {
    if v <= 0 {
        0
    } else if v > u64::MAX {
        u64::MAX
    } else {
        v as u64
    }
}

/// The input side of the breakdown of `c`, priced by `p`.
pub open spec fn input_charges_of(p: ModelPricing, c: ChargeComponents) -> InputCharges {
    InputCharges {
        total_tokens: token_count(c.prompt_tokens),
        cached_tokens: token_count(c.cached_tokens),
        billed_uncached_tokens: token_count(c.billed_uncached_prompt_tokens),
        billed_cached_tokens: token_count(c.billed_cached_prompt_tokens),
        unit_price_nano: p.input_cost_per_token_nano,
        cached_unit_price_nano: p.cache_read_input_cost_per_token_nano,
        uncached_charge_nano: c.uncached_prompt_charge,
        cached_charge_nano: c.cached_prompt_charge,
        total_charge_nano: c.prompt_charge,
    }
}

/// The output side of the breakdown of `c`, priced by `p`.
pub open spec fn output_charges_of(p: ModelPricing, c: ChargeComponents) -> OutputCharges {
    OutputCharges {
        total_tokens: token_count(c.completion_tokens),
        reasoning_tokens: token_count(c.reasoning_tokens),
        billed_non_reasoning_tokens: token_count(c.billed_non_reasoning_completion_tokens),
        billed_reasoning_tokens: token_count(c.billed_reasoning_completion_tokens),
        unit_price_nano: p.output_cost_per_token_nano,
        reasoning_unit_price_nano: p.output_cost_per_reasoning_token_nano,
        non_reasoning_charge_nano: c.non_reasoning_completion_charge,
        reasoning_charge_nano: c.reasoning_completion_charge,
        total_charge_nano: c.completion_charge,
    }
}

/// The billing breakdown of a request for `logical_model`, served by
/// `attempt`, priced by `pricing` and charged as `components` say.
pub fn build_billing_breakdown(
    logical_model: &str,
    attempt: &MonoizeAttempt,
    pricing: &ModelPricing,
    components: &ChargeComponents,
) -> (r: BillingBreakdown)
    ensures
        r.logical_model@ == logical_model@,
        r.upstream_model@ == attempt.upstream_model@,
        r.provider_id@ == attempt.provider_id@,
        r.provider_multiplier_nano == attempt.model_multiplier_nano,
        r.input == input_charges_of(*pricing, *components),
        r.output == output_charges_of(*pricing, *components),
        r.base_charge_nano == components.base_charge,
        r.final_charge_nano == components.final_charge,
{
    let input = InputCharges {
        total_tokens: non_negative_i128_to_u64(components.prompt_tokens),
        cached_tokens: non_negative_i128_to_u64(components.cached_tokens),
        billed_uncached_tokens: non_negative_i128_to_u64(components.billed_uncached_prompt_tokens),
        billed_cached_tokens: non_negative_i128_to_u64(components.billed_cached_prompt_tokens),
        unit_price_nano: pricing.input_cost_per_token_nano,
        cached_unit_price_nano: pricing.cache_read_input_cost_per_token_nano,
        uncached_charge_nano: components.uncached_prompt_charge,
        cached_charge_nano: components.cached_prompt_charge,
        total_charge_nano: components.prompt_charge,
    };
    let output = OutputCharges {
        total_tokens: non_negative_i128_to_u64(components.completion_tokens),
        reasoning_tokens: non_negative_i128_to_u64(components.reasoning_tokens),
        billed_non_reasoning_tokens: non_negative_i128_to_u64(components.billed_non_reasoning_completion_tokens),
        billed_reasoning_tokens: non_negative_i128_to_u64(components.billed_reasoning_completion_tokens),
        unit_price_nano: pricing.output_cost_per_token_nano,
        reasoning_unit_price_nano: pricing.output_cost_per_reasoning_token_nano,
        non_reasoning_charge_nano: components.non_reasoning_completion_charge,
        reasoning_charge_nano: components.reasoning_completion_charge,
        total_charge_nano: components.completion_charge,
    };
    BillingBreakdown {
        logical_model: logical_model.to_owned(),
        upstream_model: attempt.upstream_model.clone(),
        provider_id: attempt.provider_id.clone(),
        provider_multiplier_nano: attempt.model_multiplier_nano,
        input,
        output,
        base_charge_nano: components.base_charge,
        final_charge_nano: components.final_charge,
    }
}

/// The usage breakdown of an active probe: every prompt token is uncached
/// text, every completion token is non-reasoning text.
pub open spec fn probe_usage_of(prompt_tokens: u64, completion_tokens: u64) -> UsageBreakdown {
    UsageBreakdown {
        input: InputBreakdown {
            total_tokens: prompt_tokens,
            uncached_tokens: prompt_tokens,
            text_tokens: Some(prompt_tokens),
            cached_tokens: Some(0),
            cache_creation_tokens: None,
            audio_tokens: None,
            image_tokens: None,
        },
        output: OutputBreakdown {
            total_tokens: completion_tokens,
            non_reasoning_tokens: completion_tokens,
            text_tokens: Some(completion_tokens),
            reasoning_tokens: None,
            audio_tokens: None,
            image_tokens: None,
        },
    }
}

/// The usage breakdown recorded for an active probe.
pub fn build_probe_usage_breakdown(prompt_tokens: u64, completion_tokens: u64) -> (r: UsageBreakdown)
    ensures
        r == probe_usage_of(prompt_tokens, completion_tokens),
{
    UsageBreakdown {
        input: InputBreakdown {
            total_tokens: prompt_tokens,
            uncached_tokens: prompt_tokens,
            text_tokens: Some(prompt_tokens),
            cached_tokens: Some(0),
            cache_creation_tokens: None,
            audio_tokens: None,
            image_tokens: None,
        },
        output: OutputBreakdown {
            total_tokens: completion_tokens,
            non_reasoning_tokens: completion_tokens,
            text_tokens: Some(completion_tokens),
            reasoning_tokens: None,
            audio_tokens: None,
            image_tokens: None,
        },
    }
}

/// `v` when it fits in an `i128`, else zero.
pub open spec fn or_zero(v: int) -> i128 {
    if i128::MIN <= v <= i128::MAX {
        v as i128
    } else {
        0
    }
}

/// The probe's prompt charge: tokens times the input rate, zero on overflow.
pub open spec fn probe_prompt_charge(prompt_tokens: u64, input_rate_nano: i128) -> i128 {
    or_zero(prompt_tokens * input_rate_nano)
}

/// The probe's completion charge: tokens times the output rate, zero on
/// overflow.
pub open spec fn probe_completion_charge(completion_tokens: u64, output_rate_nano: i128) -> i128 {
    or_zero(completion_tokens * output_rate_nano)
}

/// `a * b` when it fits in an `i128`, else zero.
fn mul_or_zero(a: u64, b: i128) -> (r: i128)
    ensures
        r == or_zero(a * b),
{
    match (a as i128).checked_mul(b) {
        Some(v) => v,
        None => 0,
    }
}

/// The billing breakdown recorded for an active probe of `upstream_model`
/// on provider `provider_name`: nothing cached, nothing reasoned, each side
/// charged at its rate (zero where the product overflows), the base charge
/// their sum (zero on overflow), and the final charge as given.
pub fn build_probe_billing_breakdown(
    provider_name: String,
    upstream_model: String,
    provider_multiplier_nano: i128,
    prompt_tokens: u64,
    completion_tokens: u64,
    input_rate_nano: i128,
    output_rate_nano: i128,
    final_charge_nano: i128,
) -> (r: BillingBreakdown)
    ensures
        r.logical_model@ == upstream_model@,
        r.upstream_model@ == upstream_model@,
        r.provider_id@ == provider_name@,
        r.provider_multiplier_nano == provider_multiplier_nano,
        r.input == (InputCharges {
            total_tokens: prompt_tokens,
            cached_tokens: 0,
            billed_uncached_tokens: prompt_tokens,
            billed_cached_tokens: 0,
            unit_price_nano: input_rate_nano,
            cached_unit_price_nano: None,
            uncached_charge_nano: probe_prompt_charge(prompt_tokens, input_rate_nano),
            cached_charge_nano: 0,
            total_charge_nano: probe_prompt_charge(prompt_tokens, input_rate_nano),
        }),
        r.output == (OutputCharges {
            total_tokens: completion_tokens,
            reasoning_tokens: 0,
            billed_non_reasoning_tokens: completion_tokens,
            billed_reasoning_tokens: 0,
            unit_price_nano: output_rate_nano,
            reasoning_unit_price_nano: None,
            non_reasoning_charge_nano: probe_completion_charge(completion_tokens, output_rate_nano),
            reasoning_charge_nano: 0,
            total_charge_nano: probe_completion_charge(completion_tokens, output_rate_nano),
        }),
        r.base_charge_nano == or_zero(
            probe_prompt_charge(prompt_tokens, input_rate_nano) + probe_completion_charge(
                completion_tokens,
                output_rate_nano,
            ),
        ),
        r.final_charge_nano == final_charge_nano,
{
    let prompt_charge = mul_or_zero(prompt_tokens, input_rate_nano);
    let completion_charge = mul_or_zero(completion_tokens, output_rate_nano);
    let base_charge = match prompt_charge.checked_add(completion_charge) {
        Some(v) => v,
        None => 0,
    };
    BillingBreakdown {
        logical_model: upstream_model.clone(),
        upstream_model,
        provider_id: provider_name,
        provider_multiplier_nano,
        input: InputCharges {
            total_tokens: prompt_tokens,
            cached_tokens: 0,
            billed_uncached_tokens: prompt_tokens,
            billed_cached_tokens: 0,
            unit_price_nano: input_rate_nano,
            cached_unit_price_nano: None,
            uncached_charge_nano: prompt_charge,
            cached_charge_nano: 0,
            total_charge_nano: prompt_charge,
        },
        output: OutputCharges {
            total_tokens: completion_tokens,
            reasoning_tokens: 0,
            billed_non_reasoning_tokens: completion_tokens,
            billed_reasoning_tokens: 0,
            unit_price_nano: output_rate_nano,
            reasoning_unit_price_nano: None,
            non_reasoning_charge_nano: completion_charge,
            reasoning_charge_nano: 0,
            total_charge_nano: completion_charge,
        },
        base_charge_nano: base_charge,
        final_charge_nano,
    }
}

} // verus!
