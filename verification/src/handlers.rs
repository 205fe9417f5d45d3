//! Forwarding logic: usage billing, upstream paths, model and reasoning-suffix
//! resolution, channel health and eligibility, weighted channel order, retry
//! classification, and transform-rule model globs.
use crate::app::{fits_i128, scale_charge_with_multiplier, scaled_charge_spec};
use crate::glob::{case_sensitive_glob_match, glob_spec};
use crate::config::ProviderType;
use crate::model_registry_store::ModelPricing;
use crate::monoize_routing::{
    after_probe, after_retryable_failure, after_success, health_of, is_candidate, probe_due,
    saturating_inc, ChannelHealthState, ChannelHealthTable, MonoizeChannel, MonoizeModelEntry,
    MonoizeProvider, MonoizeProviderType,
};
use crate::transforms::{clone_rules, same_rules, Phase, TransformRuleConfig};
use crate::text::{chars_of, push_chars, push_lit, string_from_chars, string_of, trim, trim_vec};
use crate::urp::{FinishReason, Usage};
use crate::settings::strips;
use crate::users::string_views;
use crate::text::{ends_with, ends_with_lit, slice_vec, starts_with_lit};
use crate::error::{app_error, AppError, STATUS_BAD_REQUEST, STATUS_BAD_GATEWAY, STATUS_INTERNAL_SERVER_ERROR, STATUS_PAYMENT_REQUIRED, STATUS_UNAUTHORIZED};
use vstd::multiset::Multiset;
use vstd::prelude::*;

verus! {

/// Every intermediate figure of one usage charge, in tokens and nano-USD.
#[derive(Clone, Copy, Debug, PartialEq, Eq, Structural)]
pub struct ChargeComponents {
    pub prompt_tokens: i128,
    pub completion_tokens: i128,
    pub cached_tokens: i128,
    pub reasoning_tokens: i128,
    pub billed_uncached_prompt_tokens: i128,
    pub billed_cached_prompt_tokens: i128,
    pub billed_non_reasoning_completion_tokens: i128,
    pub billed_reasoning_completion_tokens: i128,
    pub uncached_prompt_charge: i128,
    pub cached_prompt_charge: i128,
    pub non_reasoning_completion_charge: i128,
    pub reasoning_completion_charge: i128,
    pub prompt_charge: i128,
    pub completion_charge: i128,
    pub base_charge: i128,
    pub final_charge: i128,
}

/// The larger of `x` and zero.
pub open spec fn clamp0(x: int) -> int {
    if x < 0 {
        0
    } else {
        x
    }
}

/// Prompt side of a charge: (billed uncached tokens, billed cached tokens,
/// uncached charge, cached charge). Cached tokens are billed at the cache
/// rate when the model has one; otherwise every prompt token is billed at
/// the input rate.
pub open spec fn prompt_side(usage: Usage, pricing: ModelPricing) -> (int, int, int, int) {
    let prompt = usage.prompt_tokens as int;
    let cached = match usage.cached_tokens {
        Some(c) => c as int,
        None => 0,
    };
    match pricing.cache_read_input_cost_per_token_nano {
        Some(rate) => (
            clamp0(prompt - cached),
            cached,
            clamp0(prompt - cached) * pricing.input_cost_per_token_nano,
            cached * rate,
        ),
        None => (prompt, 0, prompt * pricing.input_cost_per_token_nano, 0),
    }
}

/// Completion side of a charge: (billed non-reasoning tokens, billed
/// reasoning tokens, non-reasoning charge, reasoning charge). Reasoning
/// tokens are billed at the reasoning rate when the model has one.
pub open spec fn completion_side(usage: Usage, pricing: ModelPricing) -> (int, int, int, int) {
    let completion = usage.completion_tokens as int;
    let reasoning = match usage.reasoning_tokens {
        Some(r) => r as int,
        None => 0,
    };
    match pricing.output_cost_per_reasoning_token_nano {
        Some(rate) => (
            clamp0(completion - reasoning),
            reasoning,
            clamp0(completion - reasoning) * pricing.output_cost_per_token_nano,
            reasoning * rate,
        ),
        None => (completion, 0, completion * pricing.output_cost_per_token_nano, 0),
    }
}

/// The charge for `usage` at `pricing` scaled by the multiplier written by
/// `multiplier_repr`; `None` when a figure leaves the `i128` range or the
/// multiplier text is not a decimal number.
pub open spec fn charge_spec(usage: Usage, pricing: ModelPricing, multiplier_repr: Seq<char>) -> Option<
    ChargeComponents,
> {
    let (bu, bc, uc, cc) = prompt_side(usage, pricing);
    let (bn, br, nc, rc) = completion_side(usage, pricing);
    let prompt_charge = uc + cc;
    let completion_charge = nc + rc;
    let base = prompt_charge + completion_charge;
    if fits_i128(uc) && fits_i128(cc) && fits_i128(prompt_charge) && fits_i128(nc) && fits_i128(rc)
        && fits_i128(completion_charge) && fits_i128(base) {
        match scaled_charge_spec(base, multiplier_repr) {
            Some(fin) => Some(
                ChargeComponents {
                    prompt_tokens: usage.prompt_tokens as i128,
                    completion_tokens: usage.completion_tokens as i128,
                    cached_tokens: (match usage.cached_tokens {
                        Some(c) => c as int,
                        None => 0,
                    }) as i128,
                    reasoning_tokens: (match usage.reasoning_tokens {
                        Some(r) => r as int,
                        None => 0,
                    }) as i128,
                    billed_uncached_prompt_tokens: bu as i128,
                    billed_cached_prompt_tokens: bc as i128,
                    billed_non_reasoning_completion_tokens: bn as i128,
                    billed_reasoning_completion_tokens: br as i128,
                    uncached_prompt_charge: uc as i128,
                    cached_prompt_charge: cc as i128,
                    non_reasoning_completion_charge: nc as i128,
                    reasoning_completion_charge: rc as i128,
                    prompt_charge: prompt_charge as i128,
                    completion_charge: completion_charge as i128,
                    base_charge: base as i128,
                    final_charge: fin as i128,
                },
            ),
            None => None,
        }
    } else {
        None
    }
}

/// The multiplier ceiling a request is routed under (nano units): the
/// smaller of the key's ceiling and the requested one when both are given,
/// else whichever is given.
pub open spec fn routed_ceiling(ceiling: Option<i128>, requested: Option<i128>) -> Option<i128> {
    match (ceiling, requested) {
        (Some(c), Some(q)) => Some(if q < c { q } else { c }),
        (Some(c), None) => Some(c),
        (None, Some(q)) => Some(q),
        (None, None) => None,
    }
}

/// The multiplier ceiling a request is routed under (see [`routed_ceiling`]).
pub fn resolve_max_multiplier(ceiling: Option<i128>, requested: Option<i128>) -> (r: Option<i128>)
    ensures
        r == routed_ceiling(ceiling, requested),
{
    match (ceiling, requested) {
        (Some(c), Some(q)) => Some(if q < c { q } else { c }),
        (Some(c), None) => Some(c),
        (None, Some(q)) => Some(q),
        (None, None) => None,
    }
}

/// A request never gets a ceiling above its key's.
pub proof fn law_request_cannot_raise_key_ceiling(c: i128, requested: Option<i128>)
    ensures
        routed_ceiling(Some(c), requested) matches Some(m) && m <= c,
{
}

/// What billing does with one usage report.
#[derive(Clone, Copy, Debug, PartialEq, Eq, Structural)]
pub enum ChargePlan {
    /// Nothing is billed or recorded: no user, no pricing for the upstream
    /// model, or a figure out of range.
    NotBilled,
    /// The breakdown is recorded, but the charge is not positive.
    RecordOnly(ChargeComponents),
    /// The user is charged `final_charge`, and the breakdown recorded.
    Charge(ChargeComponents),
}

/// What billing does with `usage`: nothing without a user, a price for the
/// upstream model, or a charge in range; otherwise the charge is made when
/// it is positive, and only recorded when it is not.
pub open spec fn charge_plan(has_user: bool, pricing: Option<ModelPricing>, usage: Usage, multiplier_repr: Seq<char>) -> ChargePlan {
    if !has_user {
        ChargePlan::NotBilled
    } else {
        match pricing {
            None => ChargePlan::NotBilled,
            Some(p) => match charge_spec(usage, p, multiplier_repr) {
                None => ChargePlan::NotBilled,
                Some(c) => if c.final_charge <= 0 {
                    ChargePlan::RecordOnly(c)
                } else {
                    ChargePlan::Charge(c)
                },
            },
        }
    }
}

/// What billing does with `usage` (see [`charge_plan`]).
pub fn plan_usage_charge(has_user: bool, pricing: Option<&ModelPricing>, usage: &Usage, multiplier_repr: &str) -> (r: ChargePlan)
    ensures
        r == charge_plan(has_user, match pricing { Some(p) => Some(*p), None => None }, *usage, multiplier_repr@),
{
    if !has_user {
        return ChargePlan::NotBilled;
    }
    let p = match pricing {
        Some(p) => p,
        None => return ChargePlan::NotBilled,
    };
    match calculate_charge_components(usage, p, multiplier_repr) {
        None => ChargePlan::NotBilled,
        Some(c) => if c.final_charge <= 0 {
            ChargePlan::RecordOnly(c)
        } else {
            ChargePlan::Charge(c)
        },
    }
}

/// A charge is only ever made for a positive amount.
pub proof fn law_charges_are_positive(has_user: bool, pricing: Option<ModelPricing>, usage: Usage, multiplier_repr: Seq<char>)
    ensures
        charge_plan(has_user, pricing, usage, multiplier_repr) matches ChargePlan::Charge(c) ==> c.final_charge > 0,
        !has_user ==> charge_plan(has_user, pricing, usage, multiplier_repr) == ChargePlan::NotBilled,
{
}

/// Checked `a * b`.
fn mul_i128(a: i128, b: i128) -> (r: Option<i128>)
    ensures
        match r {
            Some(x) => fits_i128(a * b) && x == a * b,
            None => !fits_i128(a * b),
        },
{
    a.checked_mul(b)
}

/// Checked `a + b`.
fn add_i128(a: i128, b: i128) -> (r: Option<i128>)
    ensures
        match r {
            Some(x) => fits_i128(a + b) && x == a + b,
            None => !fits_i128(a + b),
        },
{
    a.checked_add(b)
}

/// All figures of the charge for `usage` at `pricing`, scaled by the
/// provider multiplier written by `multiplier_repr`.
pub fn calculate_charge_components(usage: &Usage, pricing: &ModelPricing, multiplier_repr: &str) -> (r:
    Option<ChargeComponents>)
    ensures
        r == charge_spec(*usage, *pricing, multiplier_repr@),
{
    let prompt_tokens = usage.prompt_tokens as i128;
    let completion_tokens = usage.completion_tokens as i128;
    let cached_tokens: i128 = match usage.cached_tokens {
        Some(c) => c as i128,
        None => 0,
    };
    let reasoning_tokens: i128 = match usage.reasoning_tokens {
        Some(r) => r as i128,
        None => 0,
    };
    let uncached_prompt_tokens: i128 = if prompt_tokens - cached_tokens < 0 {
        0
    } else {
        prompt_tokens - cached_tokens
    };
    let non_reasoning_completion_tokens: i128 = if completion_tokens - reasoning_tokens < 0 {
        0
    } else {
        completion_tokens - reasoning_tokens
    };

    let (billed_uncached, billed_cached, uncached_charge, cached_charge) = match pricing.cache_read_input_cost_per_token_nano {
        Some(cached_rate) => {
            let uc = mul_i128(uncached_prompt_tokens, pricing.input_cost_per_token_nano);
            let cc = mul_i128(cached_tokens, cached_rate);
            match (uc, cc) {
                (Some(u), Some(c)) => (uncached_prompt_tokens, cached_tokens, u, c),
                _ => return None,
            }
        },
        None => {
            match mul_i128(prompt_tokens, pricing.input_cost_per_token_nano) {
                Some(u) => (prompt_tokens, 0i128, u, 0i128),
                None => return None,
            }
        },
    };
    let prompt_charge = match add_i128(uncached_charge, cached_charge) {
        Some(x) => x,
        None => return None,
    };

    let (billed_non_reasoning, billed_reasoning, non_reasoning_charge, reasoning_charge) = match pricing.output_cost_per_reasoning_token_nano {
        Some(reasoning_rate) => {
            let nc = mul_i128(non_reasoning_completion_tokens, pricing.output_cost_per_token_nano);
            let rc = mul_i128(reasoning_tokens, reasoning_rate);
            match (nc, rc) {
                (Some(n), Some(r)) => (non_reasoning_completion_tokens, reasoning_tokens, n, r),
                _ => return None,
            }
        },
        None => {
            match mul_i128(completion_tokens, pricing.output_cost_per_token_nano) {
                Some(n) => (completion_tokens, 0i128, n, 0i128),
                None => return None,
            }
        },
    };
    let completion_charge = match add_i128(non_reasoning_charge, reasoning_charge) {
        Some(x) => x,
        None => return None,
    };
    let base_charge = match add_i128(prompt_charge, completion_charge) {
        Some(x) => x,
        None => return None,
    };
    let final_charge = match scale_charge_with_multiplier(base_charge, multiplier_repr) {
        Some(x) => x,
        None => return None,
    };
    Some(
        ChargeComponents {
            prompt_tokens,
            completion_tokens,
            cached_tokens,
            reasoning_tokens,
            billed_uncached_prompt_tokens: billed_uncached,
            billed_cached_prompt_tokens: billed_cached,
            billed_non_reasoning_completion_tokens: billed_non_reasoning,
            billed_reasoning_completion_tokens: billed_reasoning,
            uncached_prompt_charge: uncached_charge,
            cached_prompt_charge: cached_charge,
            non_reasoning_completion_charge: non_reasoning_charge,
            reasoning_completion_charge: reasoning_charge,
            prompt_charge,
            completion_charge,
            base_charge,
            final_charge,
        },
    )
}

/// The final nano-USD charge for `usage` at `pricing` and the multiplier
/// written by `multiplier_repr`.
pub fn calculate_charge_nano(usage: &Usage, pricing: &ModelPricing, multiplier_repr: &str) -> (r: Option<i128>)
    ensures
        r == (match charge_spec(*usage, *pricing, multiplier_repr@) {
            Some(c) => Some(c.final_charge),
            None => None,
        }),
{
    match calculate_charge_components(usage, pricing, multiplier_repr) {
        Some(parts) => Some(parts.final_charge),
        None => None,
    }
}

/// A signed amount as an unsigned count: negatives become zero.
pub fn non_negative_i128_to_u64(value: i128) -> (r: u64)
    ensures
        r == (if value <= 0 {
            0
        } else if value > u64::MAX {
            u64::MAX
        } else {
            value as u64
        }),
{
    if value <= 0 {
        0
    } else if value > u64::MAX as i128 {
        u64::MAX
    } else {
        value as u64
    }
}

/// The request path of a provider type's generation endpoint.
pub open spec fn upstream_path_spec(provider_type: ProviderType) -> Seq<char> {
    match provider_type {
        ProviderType::Responses => "/v1/responses"@,
        ProviderType::ChatCompletion => "/v1/chat/completions"@,
        ProviderType::Messages => "/v1/messages"@,
        ProviderType::Gemini => "/v1beta/models"@,
        ProviderType::Grok => "/v1/responses"@,
        ProviderType::Group => "/v1/responses"@,
    }
}

/// The request path of a provider type's generation endpoint.
pub fn upstream_path(provider_type: ProviderType) -> (r: &'static str)
    ensures
        r@ == upstream_path_spec(provider_type),
{
    match provider_type {
        ProviderType::Responses => "/v1/responses",
        ProviderType::ChatCompletion => "/v1/chat/completions",
        ProviderType::Messages => "/v1/messages",
        ProviderType::Gemini => "/v1beta/models",
        ProviderType::Grok => "/v1/responses",
        ProviderType::Group => "/v1/responses",
    }
}

/// The request path for `model`: Gemini names the (trimmed) model and the
/// streaming or one-shot method in the path; other types use their fixed
/// endpoint.
pub fn upstream_path_for_model(provider_type: ProviderType, model: &str, stream: bool) -> (r: String)
    ensures
        r@ == (match provider_type {
            ProviderType::Gemini => if stream {
                "/v1beta/models/"@ + trim(model@) + ":streamGenerateContent?alt=sse"@
            } else {
                "/v1beta/models/"@ + trim(model@) + ":generateContent"@
            },
            _ => upstream_path_spec(provider_type),
        }),
{
    match provider_type {
        ProviderType::Gemini => {
            let m = trim_vec(&chars_of(model));
            let mut s = string_of("/v1beta/models/");
            push_chars(&mut s, &m);
            if stream {
                push_lit(&mut s, ":streamGenerateContent?alt=sse");
            } else {
                push_lit(&mut s, ":generateContent");
            }
            s
        },
        _ => string_of(upstream_path(provider_type)),
    }
}

/// Extra headers a provider type requires on every request.
pub fn provider_extra_headers(provider_type: ProviderType) -> (r: Vec<(&'static str, &'static str)>)
    ensures
        provider_type == ProviderType::Messages ==> r@.len() == 1 && r@[0].0@ == "anthropic-version"@
            && r@[0].1@ == "2023-06-01"@,
        provider_type != ProviderType::Messages ==> r@.len() == 0,
{
    match provider_type {
        ProviderType::Messages => vec![("anthropic-version", "2023-06-01")],
        _ => Vec::new(),
    }
}

/// The Chat Completions name of a finish reason.
pub fn finish_reason_to_chat(reason: FinishReason) -> (r: &'static str)
    ensures
        r@ == (match reason {
            FinishReason::Stop => "stop"@,
            FinishReason::Length => "length"@,
            FinishReason::ToolCalls => "tool_calls"@,
            FinishReason::ContentFilter => "content_filter"@,
            FinishReason::Other => "stop"@,
        }),
{
    match reason {
        FinishReason::Stop => "stop",
        FinishReason::Length => "length",
        FinishReason::ToolCalls => "tool_calls",
        FinishReason::ContentFilter => "content_filter",
        FinishReason::Other => "stop",
    }
}

/// The model entry's redirect, trimmed, when it is not blank.
pub open spec fn redirect_target(entry: MonoizeModelEntry) -> Option<Seq<char>> {
    match entry.redirect {
        Some(r) => if trim(r@).len() > 0 {
            Some(trim(r@))
        } else {
            None
        },
        None => None,
    }
}

/// The model name sent upstream: the non-blank redirect, else the requested
/// model.
pub fn resolve_upstream_model(requested_model: &str, model_entry: &MonoizeModelEntry) -> (r: String)
    ensures
        r@ == (match redirect_target(*model_entry) {
            Some(t) => t,
            None => requested_model@,
        }),
{
    match &model_entry.redirect {
        Some(redirect) => {
            let t = trim_vec(&chars_of(redirect.as_str()));
            if t.len() > 0 {
                return string_from_chars(&t);
            }
        },
        None => {},
    }
    string_from_chars(&chars_of(requested_model))
}

/// The weight a channel draws with: its configured weight, at least one.
pub open spec fn draw_weight(c: MonoizeChannel) -> int {
    if c.weight < 1 {
        1
    } else {
        c.weight as int
    }
}

/// Total draw weight of `cs[..k]`.
pub open spec fn weight_prefix(cs: Seq<MonoizeChannel>, k: int) -> int
    decreases k,
{
    if k <= 0 || k > cs.len() {
        0
    } else {
        weight_prefix(cs, k - 1) + draw_weight(cs[k - 1])
    }
}

/// Draw weights are positive, so prefixes grow with `k`.
proof fn lemma_weight_prefix_bounds(cs: Seq<MonoizeChannel>, k: int)
    requires
        0 <= k <= cs.len(),
    ensures
        k <= weight_prefix(cs, k) <= k * 0x8000_0000,
    decreases k,
{
    if k > 0 {
        lemma_weight_prefix_bounds(cs, k - 1);
    }
}

/// The index a draw of `target` selects: the first channel whose cumulative
/// weight exceeds `target`, or 0 when none does.
pub open spec fn weighted_index(cs: Seq<MonoizeChannel>, target: int) -> int {
    if exists|k: int| 0 <= k < cs.len() && target < #[trigger] weight_prefix(cs, k + 1) {
        choose|k: int|
            0 <= k < cs.len() && target < #[trigger] weight_prefix(cs, k + 1) && forall|j: int|
                0 <= j < k ==> target >= #[trigger] weight_prefix(cs, j + 1)
    } else {
        0
    }
}

/// Total draw weight of `channels`.
fn total_weight(channels: &Vec<MonoizeChannel>) -> (r: u64)
    requires
        channels@.len() <= u32::MAX,
    ensures
        r == weight_prefix(channels@, channels@.len() as int),
{
    let mut total: u64 = 0;
    let mut i: usize = 0;
    while i < channels.len()
        invariant
            i <= channels@.len() <= u32::MAX,
            total == weight_prefix(channels@, i as int),
        decreases channels@.len() - i,
    {
        proof {
            lemma_weight_prefix_bounds(channels@, i + 1);
        }
        let w: u64 = if channels[i].weight < 1 {
            1
        } else {
            channels[i].weight as u64
        };
        total = total + w;
        i += 1;
    }
    total
}

/// The first channel whose cumulative draw weight exceeds `target`, or 0.
pub fn pick_weighted(channels: &Vec<MonoizeChannel>, target: u64) -> (r: usize)
    requires
        channels@.len() <= u32::MAX,
    ensures
        r == weighted_index(channels@, target as int),
        channels@.len() > 0 ==> r < channels@.len(),
{
    let mut cumulative: u64 = 0;
    let mut i: usize = 0;
    while i < channels.len()
        invariant
            i <= channels@.len() <= u32::MAX,
            cumulative == weight_prefix(channels@, i as int),
            forall|j: int| 0 <= j < i ==> target >= #[trigger] weight_prefix(channels@, j + 1),
        decreases channels@.len() - i,
    {
        proof {
            lemma_weight_prefix_bounds(channels@, i + 1);
        }
        let w: u64 = if channels[i].weight < 1 {
            1
        } else {
            channels[i].weight as u64
        };
        cumulative = cumulative + w;
        if target < cumulative {
            proof {
                let k = i as int;
                assert(target < weight_prefix(channels@, k + 1));
                let c = weighted_index(channels@, target as int);
                if c != k {
                    assert(0 <= c < channels@.len() && target < weight_prefix(channels@, c + 1));
                    if c < k {
                        assert(target >= weight_prefix(channels@, c + 1));
                    } else {
                        assert(target >= weight_prefix(channels@, k + 1));
                    }
                }
            }
            return i;
        }
        i += 1;
    }
    0
}

/// A process-seeded random number: the bits of a fresh version-4 UUID
/// (`uuid::Uuid::new_v4`, then `as_u128`). Nothing is promised of the value.
#[verifier::external_body]
fn random_u128() -> u128 {
    uuid::Uuid::new_v4().as_u128()
}

/// A random draw below `bound` (0 when `bound` is at most 1).
pub fn random_u64(bound: u64) -> (r: u64)
    ensures
        bound <= 1 ==> r == 0,
        bound > 1 ==> r < bound,
{
    if bound <= 1 {
        return 0;
    }
    let seed = random_u128() as u64;
    seed % bound
}

/// Swapping out index `i` keeps every other element.
proof fn lemma_swap_remove_multiset<A>(s: Seq<A>, i: int)
    requires
        0 <= i < s.len(),
    ensures
        s.update(i, s.last()).drop_last().to_multiset().insert(s[i]) == s.to_multiset(),
{
    broadcast use vstd::seq_lib::group_to_multiset_ensures;

    let u = s.update(i, s.last());
    assert(u.drop_last().push(u.last()) =~= u);
    assert(u.update(i, s[i]) =~= s);
    assert(u.remove(i) =~= s.remove(i));
    let mu = u.to_multiset();
    let ms = s.to_multiset();
    assert(u.remove(i).to_multiset() =~= mu.remove(u[i]));
    assert(s.remove(i).to_multiset() =~= ms.remove(s[i]));
    assert(mu.count(u[i]) > 0) by {
        assert(u.contains(u[i]));
    }
    assert(ms.count(s[i]) > 0) by {
        assert(s.contains(s[i]));
    }
    assert(mu =~= ms.remove(s[i]).insert(s.last()));
    assert(u.drop_last().to_multiset() =~= mu.remove(s.last()));
    assert(u.drop_last().to_multiset().insert(s[i]) =~= ms);
}

/// `cs` without its element at `k`, the last element moved into its place
/// (`Vec::swap_remove`).
pub open spec fn swap_removed(cs: Seq<MonoizeChannel>, k: int) -> Seq<MonoizeChannel> {
    if 0 <= k < cs.len() {
        cs.update(k, cs.last()).drop_last()
    } else {
        cs.drop_last()
    }
}

/// The seed of draw `i`: the given one, or 0 once they run out.
pub open spec fn seed_at(seeds: Seq<u64>, i: int) -> u64 {
    if 0 <= i < seeds.len() {
        seeds[i]
    } else {
        0
    }
}

/// The order weighted draws without replacement give: draw `i` takes its
/// seed modulo the remaining total draw weight and picks the channel
/// [`weighted_index`] selects, which is swap-removed from the rest.
pub open spec fn shuffled_by(cs: Seq<MonoizeChannel>, seeds: Seq<u64>, i: int) -> Seq<MonoizeChannel>
    decreases cs.len(),
{
    if cs.len() == 0 {
        Seq::empty()
    } else {
        let total = weight_prefix(cs, cs.len() as int);
        let k = weighted_index(cs, seed_at(seeds, i) as int % total);
        seq![cs[k]] + shuffled_by(swap_removed(cs, k), seeds, i + 1)
    }
}

/// Orders channels by weighted draws without replacement, draw `i` using
/// `seeds[i]` (0 once the seeds run out); see [`shuffled_by`].
pub fn shuffle_channels_with_seeds(channels: Vec<MonoizeChannel>, seeds: &Vec<u64>) -> (r: Vec<MonoizeChannel>)
    requires
        channels@.len() <= u32::MAX,
    ensures
        r@ == shuffled_by(channels@, seeds@, 0),
        r@.to_multiset() == channels@.to_multiset(),
{
    broadcast use vstd::seq_lib::group_to_multiset_ensures;

    let ghost initial = channels@;
    let mut channels = channels;
    let mut ordered: Vec<MonoizeChannel> = Vec::new();
    let mut i: usize = 0;
    while channels.len() > 0
        invariant
            channels@.len() <= u32::MAX,
            ordered@ + shuffled_by(channels@, seeds@, i as int) == shuffled_by(initial, seeds@, 0),
            ordered@.len() == i,
            i + channels@.len() == initial.len(),
            initial.len() <= u32::MAX,
            ordered@.to_multiset().add(channels@.to_multiset()) == initial.to_multiset(),
        decreases channels@.len(),
    {
        let total = total_weight(&channels);
        proof {
            lemma_weight_prefix_bounds(channels@, channels@.len() as int);
        }
        let seed: u64 = if i < seeds.len() {
            seeds[i]
        } else {
            0
        };
        let target = seed % total;
        let chosen = pick_weighted(&channels, target);
        let ghost before_channels = channels@;
        let ghost before_ordered = ordered@;
        let picked = channels.swap_remove(chosen);
        proof {
            lemma_swap_remove_multiset(before_channels, chosen as int);
            assert(channels@ =~= swap_removed(before_channels, chosen as int));
        }
        ordered.push(picked);
        proof {
            broadcast use vstd::seq_lib::group_to_multiset_ensures;

            assert(ordered@ =~= before_ordered.push(picked));
            assert(before_ordered.push(picked).to_multiset() =~= before_ordered.to_multiset().insert(picked));
            assert(ordered@.to_multiset().add(channels@.to_multiset()) =~= before_ordered.to_multiset().add(
                before_channels.to_multiset(),
            ));
            assert(ordered@ + shuffled_by(channels@, seeds@, i + 1) =~= before_ordered + shuffled_by(
                before_channels,
                seeds@,
                i as int,
            ));
        }
        i = i + 1;
    }
    proof {
        broadcast use vstd::seq_lib::group_to_multiset_ensures, vstd::multiset::group_multiset_properties;

        assert(channels@.to_multiset() =~= Multiset::empty());
        assert(ordered@.to_multiset().add(channels@.to_multiset()) =~= ordered@.to_multiset());
        assert(ordered@ + shuffled_by(channels@, seeds@, i as int) =~= ordered@);
    }
    ordered
}

/// Orders channels by repeated weighted random draws without replacement:
/// the result is the order [`shuffled_by`] gives for some seeds, and holds
/// exactly the given channels. Which seeds is left to chance.
pub fn weighted_shuffle_channels(channels: Vec<MonoizeChannel>) -> (r: Vec<MonoizeChannel>)
    requires
        channels@.len() <= u32::MAX,
    ensures
        exists|seeds: Seq<u64>| r@ == shuffled_by(channels@, seeds, 0),
        r@.to_multiset() == channels@.to_multiset(),
{
    let mut seeds: Vec<u64> = Vec::new();
    let mut k: usize = 0;
    while k < channels.len()
        invariant
            k <= channels@.len(),
        decreases channels@.len() - k,
    {
        seeds.push(random_u128() as u64);
        k += 1;
    }
    let r = shuffle_channels_with_seeds(channels, &seeds);
    r
}

/// Whether a transform rule's model glob accepts `model`: anchored and
/// case-sensitive, `*` any run of characters and `?` exactly one, both
/// matching a line feed too.
pub open spec fn model_glob_spec(pattern: Seq<char>, model: Seq<char>) -> bool {
    glob_spec(pattern, model)
}

/// Whether a transform rule's model glob accepts `model` (see
/// [`model_glob_spec`]).
pub fn model_glob_match(pattern: &str, model: &str) -> (r: bool)
    ensures
        r == model_glob_spec(pattern@, model@),
{
    case_sensitive_glob_match(pattern, model)
}

/// A rule that is enabled, runs on responses and accepts `model`.
pub open spec fn response_rule_applies(rule: TransformRuleConfig, model: Seq<char>) -> bool {
    &&& rule.enabled
    &&& rule.phase == Phase::Response
    &&& match rule.models {
        None => true,
        Some(patterns) => exists|j: int|
            0 <= j < patterns@.len() && model_glob_spec(#[trigger] patterns@[j]@, model),
    }
}

/// Whether any enabled response-phase rule applies to `model`.
#[verifier::loop_isolation(false)]
pub fn has_enabled_response_rules(rules: &[TransformRuleConfig], model: &str) -> (r: bool)
    ensures
        r == exists|i: int| 0 <= i < rules@.len() && response_rule_applies(#[trigger] rules@[i], model@),
{
    let mut i: usize = 0;
    while i < rules.len()
        invariant
            i <= rules@.len(),
            forall|k: int| 0 <= k < i ==> !response_rule_applies(#[trigger] rules@[k], model@),
        decreases rules@.len() - i,
    {
        let rule = &rules[i];
        if rule.enabled && rule.phase == Phase::Response {
            match &rule.models {
                None => {
                    assert(response_rule_applies(rules@[i as int], model@));
                    return true;
                },
                Some(patterns) => {
                    let mut j: usize = 0;
                    while j < patterns.len()
                        invariant
                            j <= patterns@.len(),
                            forall|t: int| 0 <= t < j ==> !model_glob_spec(#[trigger] patterns@[t]@, model@),
                        decreases patterns@.len() - j,
                    {
                        if model_glob_match(patterns[j].as_str(), model) {
                            assert(response_rule_applies(rules@[i as int], model@));
                            return true;
                        }
                        j += 1;
                    }
                },
            }
        }
        i += 1;
    }
    false
}


/// Records a successful call through `channel_id` at `now`; tells whether the
/// channel was unhealthy before.
pub fn mark_channel_success(health: &mut ChannelHealthTable, channel_id: &str, now: i64) -> (was_unhealthy: bool)
    ensures
        final(health)@ == old(health)@.insert(
            channel_id@,
            after_success(health_of(old(health)@, channel_id@), now),
        ),
        was_unhealthy == !health_of(old(health)@, channel_id@).healthy,
{
    let mut entry = health.get(channel_id);
    let was_unhealthy = entry.mark_success(now);
    health.set(channel_id, entry);
    was_unhealthy
}

/// Records a retryable failure of `channel_id` at `now`: once `threshold`
/// failures came in a row the channel rests for `cooldown_seconds`. Tells
/// whether that happened.
pub fn mark_channel_retryable_failure(
    health: &mut ChannelHealthTable,
    channel_id: &str,
    now: i64,
    threshold: u32,
    cooldown_seconds: u64,
) -> (tripped: bool)
    requires
        cooldown_seconds <= i64::MAX,
        now + cooldown_seconds <= i64::MAX,
    ensures
        final(health)@ == old(health)@.insert(
            channel_id@,
            after_retryable_failure(health_of(old(health)@, channel_id@), now, threshold, cooldown_seconds),
        ),
        tripped == (saturating_inc(health_of(old(health)@, channel_id@).failure_count) >= threshold),
{
    let mut entry = health.get(channel_id);
    let tripped = entry.mark_retryable_failure(now, threshold, cooldown_seconds);
    health.set(channel_id, entry);
    tripped
}

/// Whether a channel may be routed to at `now`: enabled, with a positive
/// weight, and healthy or past its cooldown.
pub open spec fn channel_eligible(c: MonoizeChannel, m: Map<Seq<char>, ChannelHealthState>, now: i64) -> bool {
    c.enabled && c.weight > 0 && is_candidate(health_of(m, c.id@), now)
}

/// The eligible channels of `cs`, in their order.
pub open spec fn eligible_channels(
    cs: Seq<MonoizeChannel>,
    m: Map<Seq<char>, ChannelHealthState>,
    now: i64,
) -> Seq<MonoizeChannel>
    decreases cs.len(),
{
    if cs.len() == 0 {
        Seq::empty()
    } else {
        let rest = eligible_channels(cs.drop_last(), m, now);
        if channel_eligible(cs.last(), m, now) {
            rest.push(cs.last())
        } else {
            rest
        }
    }
}

/// The channels that may be routed to at `now`, in their configured order.
pub fn filter_eligible_channels(
    health: &ChannelHealthTable,
    channels: &Vec<MonoizeChannel>,
    now: i64,
) -> (r: Vec<MonoizeChannel>)
    ensures
        r@ == eligible_channels(channels@, health@, now),
{
    let mut out: Vec<MonoizeChannel> = Vec::new();
    let mut i: usize = 0;
    while i < channels.len()
        invariant
            i <= channels@.len(),
            out@ == eligible_channels(channels@.take(i as int), health@, now),
        decreases channels@.len() - i,
    {
        let channel = &channels[i];
        proof {
            assert(channels@.take(i + 1).drop_last() =~= channels@.take(i as int));
        }
        if channel.enabled && channel.weight > 0 {
            let state = health.get(channel.id.as_str());
            if state.is_candidate_at(now) {
                out.push(channel.clone());
            }
        }
        i += 1;
    }
    assert(channels@.take(channels@.len() as int) =~= channels@);
    out
}

/// Every channel `filter_eligible_channels` keeps is enabled, has a positive
/// weight and may be tried at `now`; and it is one of the given channels.
pub proof fn law_eligible_channels_are_routable(
    cs: Seq<MonoizeChannel>,
    m: Map<Seq<char>, ChannelHealthState>,
    now: i64,
    k: int,
)
    requires
        0 <= k < eligible_channels(cs, m, now).len(),
    ensures
        channel_eligible(eligible_channels(cs, m, now)[k], m, now),
        cs.contains(eligible_channels(cs, m, now)[k]),
    decreases cs.len(),
{
    let rest = eligible_channels(cs.drop_last(), m, now);
    if k < rest.len() {
        law_eligible_channels_are_routable(cs.drop_last(), m, now, k);
        let c = rest[k];
        let j = choose|j: int| 0 <= j < cs.drop_last().len() && cs.drop_last()[j] == c;
        assert(cs[j] == c);
    } else {
        assert(cs[cs.len() - 1] == cs.last());
    }
}

/// An enabled channel with positive weight that the health table does not
/// know, or knows as healthy, is kept.
pub proof fn law_healthy_enabled_channel_is_kept(
    cs: Seq<MonoizeChannel>,
    m: Map<Seq<char>, ChannelHealthState>,
    now: i64,
    j: int,
)
    requires
        0 <= j < cs.len(),
        cs[j].enabled,
        cs[j].weight > 0,
        health_of(m, cs[j].id@).healthy,
    ensures
        eligible_channels(cs, m, now).contains(cs[j]),
    decreases cs.len(),
{
    if j < cs.len() - 1 {
        law_healthy_enabled_channel_is_kept(cs.drop_last(), m, now, j);
        let rest = eligible_channels(cs.drop_last(), m, now);
        let t = choose|t: int| 0 <= t < rest.len() && rest[t] == cs[j];
        if channel_eligible(cs.last(), m, now) {
            assert(rest.push(cs.last())[t] == cs[j]);
        }
    } else {
        let r = eligible_channels(cs, m, now);
        assert(r[r.len() - 1] == cs[j]);
    }
}

/// A success makes a channel routable again at any time, whatever its
/// history, and clears its failure streak.
pub proof fn law_success_restores_channel(s: ChannelHealthState, now: i64, later: i64)
    ensures
        is_candidate(after_success(s, now), later),
        after_success(s, now).failure_count == 0,
{
}

/// A success erases what failures before it recorded: after a success, the
/// record is the same whether or not a failure came first.
pub proof fn law_success_undoes_failure(
    s: ChannelHealthState,
    t1: i64,
    threshold: u32,
    cooldown_seconds: u64,
    t2: i64,
)
    ensures
        after_success(after_retryable_failure(s, t1, threshold, cooldown_seconds), t2)
            == after_success(s, t2),
{
}

/// Recording a success or failure for one channel leaves every other
/// channel's health as it was.
pub proof fn law_marking_is_local(
    m: Map<Seq<char>, ChannelHealthState>,
    id: Seq<char>,
    other: Seq<char>,
    s: ChannelHealthState,
)
    requires
        other != id,
    ensures
        health_of(m.insert(id, s), other) == health_of(m, other),
{
}

/// `n` retryable failures in a row, all at `now`.
pub open spec fn after_failures(
    s: ChannelHealthState,
    n: nat,
    now: i64,
    threshold: u32,
    cooldown_seconds: u64,
) -> ChannelHealthState
    decreases n,
{
    if n == 0 {
        s
    } else {
        after_retryable_failure(
            after_failures(s, (n - 1) as nat, now, threshold, cooldown_seconds),
            now,
            threshold,
            cooldown_seconds,
        )
    }
}

/// A channel with no failures stays healthy through fewer than `threshold`
/// failures in a row; the `threshold`-th one makes it rest until
/// `now + cooldown_seconds`, during which it is not routed to, and after
/// which it is again.
pub proof fn law_consecutive_failures_trip_at_threshold(
    s: ChannelHealthState,
    now: i64,
    threshold: u32,
    cooldown_seconds: u64,
    n: nat,
    t: i64,
)
    requires
        s.healthy,
        s.failure_count == 0,
        1 <= threshold,
        n <= threshold,
        now + cooldown_seconds <= i64::MAX,
    ensures
        n < threshold ==> after_failures(s, n, now, threshold, cooldown_seconds).healthy
            && after_failures(s, n, now, threshold, cooldown_seconds).failure_count == n,
        n == threshold ==> !after_failures(s, n, now, threshold, cooldown_seconds).healthy
            && (is_candidate(after_failures(s, n, now, threshold, cooldown_seconds), t) <==> t
            >= now + cooldown_seconds),
    decreases n,
{
    if n > 0 {
        law_consecutive_failures_trip_at_threshold(s, now, threshold, cooldown_seconds, (n - 1) as nat, t);
    }
}

/// Whether an upstream failure is a client error that no other channel would
/// answer differently: 400, 401, 403 or 422.
pub fn is_non_retryable_client_error(status: Option<u16>) -> (r: bool)
    ensures
        r == (status matches Some(code) && (code == 400 || code == 401 || code == 403 || code
            == 422)),
{
    match status {
        Some(code) => code == 400 || code == 401 || code == 403 || code == 422,
        None => false,
    }
}

/// Whether an upstream failure is worth another channel: a network failure,
/// or status 429, 500, 502, 503 or 504.
pub fn is_retryable_error(is_network: bool, status: Option<u16>) -> (r: bool)
    ensures
        r == (is_network || (status matches Some(code) && (code == 429 || code == 500 || code
            == 502 || code == 503 || code == 504))),
{
    if is_network {
        return true;
    }
    match status {
        Some(code) => code == 429 || code == 500 || code == 502 || code == 503 || code == 504,
        None => false,
    }
}

/// How many of `channel_count` ordered channels a provider tries: all of
/// them when `max_retries` is -1, else one more than the (non-negative)
/// retry count, but no more than there are.
pub fn max_channel_attempts(max_retries: i32, channel_count: usize) -> (r: usize)
    ensures
        r == (if max_retries == -1 {
            channel_count as int
        } else {
            let tries = (if max_retries < 0 { 0 } else { max_retries as int }) + 1;
            if tries < channel_count { tries } else { channel_count as int }
        }),
{
    if max_retries == -1 {
        channel_count
    } else {
        let retries: usize = if max_retries < 0 { 0 } else { max_retries as usize };
        if retries + 1 < channel_count {
            retries + 1
        } else {
            channel_count
        }
    }
}


/// A (suffix, effort) table as character sequences.
pub open spec fn pair_views(v: Seq<(String, String)>) -> Seq<(Seq<char>, Seq<char>)> {
    v.map_values(|e: (String, String)| (e.0@, e.1@))
}

/// `model` with `suffix` cut off.
pub open spec fn cut_suffix(model: Seq<char>, suffix: Seq<char>) -> Seq<char> {
    model.take(model.len() - suffix.len())
}

/// Whether cutting `suffix` from `model` leaves a non-empty known model.
pub open spec fn suffix_applies(model: Seq<char>, suffix: Seq<char>, known: Seq<Seq<char>>) -> bool {
    strips(model, suffix) && known.contains(cut_suffix(model, suffix))
}

/// Index of the table entry that applies with the longest suffix, the
/// earliest among equally long ones; -1 if none applies.
pub open spec fn longest_applicable(
    model: Seq<char>,
    entries: Seq<(Seq<char>, Seq<char>)>,
    known: Seq<Seq<char>>,
) -> int
    decreases entries.len(),
{
    if entries.len() == 0 {
        -1
    } else {
        let r = longest_applicable(model, entries.drop_last(), known);
        let k = entries.last().0;
        if suffix_applies(model, k, known) && (r < 0 || k.len() > entries[r].0.len()) {
            entries.len() - 1
        } else {
            r
        }
    }
}

/// Index of the first entry that applies; -1 if none does.
pub open spec fn first_applicable(
    model: Seq<char>,
    entries: Seq<(Seq<char>, Seq<char>)>,
    known: Seq<Seq<char>>,
) -> int
    decreases entries.len(),
{
    if entries.len() == 0 {
        -1
    } else {
        let r = first_applicable(model, entries.drop_last(), known);
        if r < 0 && suffix_applies(model, entries.last().0, known) {
            entries.len() - 1
        } else {
            r
        }
    }
}

/// The reasoning-effort suffixes every deployment understands, in the order
/// they are tried: `-none`, `-minimum`, `-low`, `-medium`, `-high`, `-xhigh`,
/// and `-max` (which selects `xhigh`).
pub open spec fn builtin_effort_suffixes() -> Seq<(Seq<char>, Seq<char>)> {
    seq![
        ("-none"@, "none"@),
        ("-minimum"@, "minimum"@),
        ("-low"@, "low"@),
        ("-medium"@, "medium"@),
        ("-high"@, "high"@),
        ("-xhigh"@, "xhigh"@),
        ("-max"@, "xhigh"@),
    ]
}

/// How a requested model that no enabled provider serves is read as a known
/// model plus a reasoning effort: the configured suffixes are tried longest
/// first, then the built-in ones in order; the first whose removal leaves a
/// non-empty known model wins. `None` when the model is known as it is, or
/// when no suffix applies.
pub open spec fn suffix_resolution(
    model: Seq<char>,
    known: Seq<Seq<char>>,
    entries: Seq<(Seq<char>, Seq<char>)>,
) -> Option<(Seq<char>, Seq<char>)> {
    if known.contains(model) {
        None
    } else {
        let c = longest_applicable(model, entries, known);
        if c >= 0 {
            Some((cut_suffix(model, entries[c].0), entries[c].1))
        } else {
            let b = first_applicable(model, builtin_effort_suffixes(), known);
            if b >= 0 {
                Some((cut_suffix(model, builtin_effort_suffixes()[b].0), builtin_effort_suffixes()[b].1))
            } else {
                None
            }
        }
    }
}

proof fn lemma_first_applicable_prefix(
    model: Seq<char>,
    s: Seq<(Seq<char>, Seq<char>)>,
    known: Seq<Seq<char>>,
    n: int,
)
    requires
        0 <= n <= s.len(),
        first_applicable(model, s.take(n), known) >= 0,
    ensures
        first_applicable(model, s, known) == first_applicable(model, s.take(n), known),
    decreases s.len() - n,
{
    if n < s.len() {
        assert(s.drop_last().take(n) =~= s.take(n));
        lemma_first_applicable_prefix(model, s.drop_last(), known, n);
    } else {
        assert(s.take(n) =~= s);
    }
}

/// The built-in reasoning-effort words and the effort each selects: every
/// word names its own effort, except `max`, which selects `xhigh`.
pub open spec fn effort_words() -> Seq<(Seq<char>, Seq<char>)> {
    seq![
        ("none"@, "none"@),
        ("minimum"@, "minimum"@),
        ("low"@, "low"@),
        ("medium"@, "medium"@),
        ("high"@, "high"@),
        ("xhigh"@, "xhigh"@),
        ("max"@, "xhigh"@),
    ]
}

/// Whether `w` holds no `-`.
pub open spec fn dashless(w: Seq<char>) -> bool {
    forall|k: int| 0 <= k < w.len() ==> #[trigger] w[k] != '-'
}

proof fn lemma_effort_words()
    ensures
        effort_words().len() == 7,
        forall|j: int| 0 <= j < 7 ==> #[trigger] effort_words()[j].0.len() > 0 && dashless(effort_words()[j].0),
        forall|i: int, j: int| 0 <= i < j < 7 ==> #[trigger] effort_words()[i].0 != #[trigger] effort_words()[j].0,
        forall|j: int|
            0 <= j < 7 ==> #[trigger] builtin_effort_suffixes()[j] == (seq!['-'] + effort_words()[j].0, effort_words()[j].1),
        builtin_effort_suffixes().len() == 7,
{
    reveal_strlit("none");
    reveal_strlit("minimum");
    reveal_strlit("low");
    reveal_strlit("medium");
    reveal_strlit("high");
    reveal_strlit("xhigh");
    reveal_strlit("max");
    reveal_strlit("-none");
    reveal_strlit("-minimum");
    reveal_strlit("-low");
    reveal_strlit("-medium");
    reveal_strlit("-high");
    reveal_strlit("-xhigh");
    reveal_strlit("-max");
    let w = effort_words();
    assert(seq!['-'] + "none"@ =~= "-none"@);
    assert(seq!['-'] + "minimum"@ =~= "-minimum"@);
    assert(seq!['-'] + "low"@ =~= "-low"@);
    assert(seq!['-'] + "medium"@ =~= "-medium"@);
    assert(seq!['-'] + "high"@ =~= "-high"@);
    assert(seq!['-'] + "xhigh"@ =~= "-xhigh"@);
    assert(seq!['-'] + "max"@ =~= "-max"@);
    assert(w[0].0[0] != w[4].0[0]);
    assert(w[2].0[0] != w[6].0[0]);
    assert forall|j: int| 0 <= j < 7 implies #[trigger] w[j].0.len() > 0 && dashless(w[j].0) by {
        assert(dashless("none"@));
        assert(dashless("minimum"@));
        assert(dashless("low"@));
        assert(dashless("medium"@));
        assert(dashless("high"@));
        assert(dashless("xhigh"@));
        assert(dashless("max"@));
    }
}

/// A model ending in `-` + `e` does not end in `-` + `f` when `e` and `f`
/// are different words without `-`.
proof fn lemma_dash_words(m: Seq<char>, e: Seq<char>, f: Seq<char>)
    requires
        dashless(e),
        dashless(f),
        e != f,
    ensures
        !ends_with(m + seq!['-'] + e, seq!['-'] + f),
{
    let model = m + seq!['-'] + e;
    let s = seq!['-'] + f;
    let n = model.len();
    if ends_with(model, s) {
        let tail = model.skip(n - s.len());
        assert(tail == s);
        if f.len() == e.len() {
            assert(e =~= f) by {
                assert forall|k: int| 0 <= k < e.len() implies e[k] == f[k] by {
                    assert(model[n - e.len() + k] == e[k]);
                    assert(tail[k + 1] == s[k + 1]);
                }
            }
        } else if f.len() < e.len() {
            let k = e.len() - f.len() - 1;
            assert(model[n - s.len()] == e[k]);
            assert(tail[0] == s[0]);
        } else {
            let k = f.len() - e.len() - 1;
            assert(model[m.len() as int] == '-');
            assert(tail[k + 1] == model[m.len() as int]);
            assert(s[k + 1] == f[k]);
        }
    }
}

proof fn lemma_longest_none(model: Seq<char>, entries: Seq<(Seq<char>, Seq<char>)>, known: Seq<Seq<char>>)
    requires
        forall|j: int| 0 <= j < entries.len() ==> !suffix_applies(model, #[trigger] entries[j].0, known),
    ensures
        longest_applicable(model, entries, known) == -1,
    decreases entries.len(),
{
    if entries.len() > 0 {
        assert(!suffix_applies(model, entries[entries.len() - 1].0, known));
        lemma_longest_none(model, entries.drop_last(), known);
    }
}

proof fn lemma_first_at(model: Seq<char>, s: Seq<(Seq<char>, Seq<char>)>, known: Seq<Seq<char>>, b: int)
    requires
        0 <= b <= s.len(),
        b < s.len() ==> suffix_applies(model, s[b].0, known),
        forall|j: int| 0 <= j < b ==> !suffix_applies(model, #[trigger] s[j].0, known),
    ensures
        first_applicable(model, s, known) == (if b < s.len() { b } else { -1 }),
    decreases s.len(),
{
    if s.len() > 0 {
        if b == s.len() {
            assert(!suffix_applies(model, s[s.len() - 1].0, known));
            lemma_first_at(model, s.drop_last(), known, b - 1);
        } else if b == s.len() - 1 {
            lemma_first_at(model, s.drop_last(), known, b);
        } else {
            lemma_first_at(model, s.drop_last(), known, b);
        }
    }
}

/// A built-in effort suffix selects its effort: when the requested model is
/// a known model `m` with `-` and a built-in effort word appended (`-none`,
/// `-minimum`, `-low`, `-medium`, `-high`, `-xhigh`, or `-max`), the
/// requested name is not itself known, and no configured suffix applies, the
/// request resolves to `m` with that word's effort (`-max` selects `xhigh`,
/// every other word its own effort).
pub proof fn law_builtin_effort_suffix_selects_its_effort(
    m: Seq<char>,
    word: Seq<char>,
    effort: Seq<char>,
    known: Seq<Seq<char>>,
    entries: Seq<(Seq<char>, Seq<char>)>,
)
    requires
        seq![
            ("none"@, "none"@),
            ("minimum"@, "minimum"@),
            ("low"@, "low"@),
            ("medium"@, "medium"@),
            ("high"@, "high"@),
            ("xhigh"@, "xhigh"@),
            ("max"@, "xhigh"@),
        ].contains((word, effort)),
        m.len() > 0,
        known.contains(m),
        !known.contains(m + seq!['-'] + word),
        forall|j: int|
            0 <= j < entries.len() ==> !(#[trigger] entries[j].0.len() < m.len() + 1 + word.len() && (m + seq!['-']
                + word).skip(m.len() + 1 + word.len() - entries[j].0.len()) == entries[j].0 && known.contains(
                (m + seq!['-'] + word).take(m.len() + 1 + word.len() - entries[j].0.len()),
            )),
    ensures
        suffix_resolution(m + seq!['-'] + word, known, entries) == Some((m, effort)),
{
    let model = m + seq!['-'] + word;
    let w = effort_words();
    lemma_effort_words();
    assert(w =~= seq![
        ("none"@, "none"@),
        ("minimum"@, "minimum"@),
        ("low"@, "low"@),
        ("medium"@, "medium"@),
        ("high"@, "high"@),
        ("xhigh"@, "xhigh"@),
        ("max"@, "xhigh"@),
    ]);
    let b = choose|b: int| 0 <= b < w.len() && w[b] == (word, effort);
    assert forall|j: int| 0 <= j < entries.len() implies !suffix_applies(model, #[trigger] entries[j].0, known) by {
        assert(model.len() == m.len() + 1 + word.len());
    }
    lemma_longest_none(model, entries, known);
    let bs = builtin_effort_suffixes();
    assert(bs[b] == (seq!['-'] + word, effort));
    assert forall|j: int| 0 <= j < b implies !suffix_applies(model, #[trigger] bs[j].0, known) by {
        assert(w[j].0 != w[b].0);
        lemma_dash_words(m, word, w[j].0);
        assert(bs[j].0 == seq!['-'] + w[j].0);
    }
    let suffix = seq!['-'] + word;
    assert(model.skip(model.len() - suffix.len()) =~= suffix);
    assert(cut_suffix(model, suffix) =~= m);
    assert(suffix_applies(model, bs[b].0, known));
    lemma_first_at(model, bs, known, b);
}

fn string_pair(a: &str, b: &str) -> (r: (String, String))
    ensures
        r.0@ == a@,
        r.1@ == b@,
{
    (string_of(a), string_of(b))
}

fn builtin_effort_suffix_table() -> (r: Vec<(String, String)>)
    ensures
        pair_views(r@) == builtin_effort_suffixes(),
{
    let mut v: Vec<(String, String)> = Vec::new();
    v.push(string_pair("-none", "none"));
    v.push(string_pair("-minimum", "minimum"));
    v.push(string_pair("-low", "low"));
    v.push(string_pair("-medium", "medium"));
    v.push(string_pair("-high", "high"));
    v.push(string_pair("-xhigh", "xhigh"));
    v.push(string_pair("-max", "xhigh"));
    assert(pair_views(v@) =~= builtin_effort_suffixes());
    v
}

/// Whether `names` holds the characters `s`.
pub fn contains_name(names: &Vec<String>, s: &Vec<char>) -> (r: bool)
    ensures
        r == string_views(names@).contains(s@),
{
    let key = string_from_chars(s);
    let mut i: usize = 0;
    while i < names.len()
        invariant
            i <= names@.len(),
            key@ == s@,
            forall|t: int| 0 <= t < i ==> #[trigger] string_views(names@)[t] != s@,
        decreases names@.len() - i,
    {
        if names[i] == key {
            proof {
                assert(string_views(names@)[i as int] == s@);
            }
            return true;
        }
        i += 1;
    }
    false
}

/// Whether cutting `suffix` from `m` leaves a non-empty known model.
fn suffix_applies_exec(m: &Vec<char>, suffix: &str, known: &Vec<String>) -> (r: bool)
    ensures
        r == suffix_applies(m@, suffix@, string_views(known@)),
{
    let k = chars_of(suffix);
    if k.len() < m.len() && ends_with_lit(m, suffix) {
        let base = slice_vec(m, 0, m.len() - k.len());
        contains_name(known, &base)
    } else {
        false
    }
}

/// Reads a requested model that no enabled provider serves as a known model
/// plus a reasoning effort (see `suffix_resolution`); `known_models` are the
/// models the enabled providers serve, `suffix_entries` the configured
/// (suffix, effort) table.
pub fn resolve_model_suffix(
    model: &str,
    known_models: &Vec<String>,
    suffix_entries: &Vec<(String, String)>,
) -> (r: Option<(String, String)>)
    ensures
        match r {
            Some(p) => suffix_resolution(model@, string_views(known_models@), pair_views(suffix_entries@))
                == Some((p.0@, p.1@)),
            None => suffix_resolution(model@, string_views(known_models@), pair_views(suffix_entries@))
                is None,
        },
{
    let m = chars_of(model);
    if contains_name(known_models, &m) {
        return None;
    }
    let ghost entries = pair_views(suffix_entries@);
    let ghost known = string_views(known_models@);
    let mut best: usize = 0;
    let mut found = false;
    let mut i: usize = 0;
    while i < suffix_entries.len()
        invariant
            m@ == model@,
            entries == pair_views(suffix_entries@),
            known == string_views(known_models@),
            i <= suffix_entries@.len(),
            found ==> longest_applicable(m@, entries.take(i as int), known) == best as int
                && best < i && suffix_applies(m@, entries[best as int].0, known),
            !known.contains(m@),
            !found ==> longest_applicable(m@, entries.take(i as int), known) == -1,
        decreases suffix_entries@.len() - i,
    {
        proof {
            assert(entries.take(i + 1).drop_last() =~= entries.take(i as int));
            assert(entries.take(i + 1).last() == entries[i as int]);
            if found {
                assert(entries.take(i + 1)[best as int] == entries[best as int]);
            }
        }
        let suffix = suffix_entries[i].0.as_str();
        if suffix_applies_exec(&m, suffix, known_models) {
            let len_here = chars_of(suffix).len();
            if !found || len_here > chars_of(suffix_entries[best].0.as_str()).len() {
                best = i;
                found = true;
            }
        }
        i += 1;
    }
    proof {
        assert(entries.take(suffix_entries@.len() as int) =~= entries);
    }
    if found {
        let suffix = suffix_entries[best].0.as_str();
        let k = chars_of(suffix);
        let base = slice_vec(&m, 0, m.len() - k.len());
        return Some((string_from_chars(&base), suffix_entries[best].1.clone()));
    }
    let builtins = builtin_effort_suffix_table();
    let mut j: usize = 0;
    while j < builtins.len()
        invariant
            m@ == model@,
            known == string_views(known_models@),
            pair_views(builtins@) == builtin_effort_suffixes(),
            j <= builtins@.len(),
            !known.contains(m@),
            longest_applicable(m@, pair_views(suffix_entries@), known) == -1,
            first_applicable(m@, builtin_effort_suffixes().take(j as int), known) == -1,
        decreases builtins@.len() - j,
    {
        proof {
            assert(builtin_effort_suffixes().take(j + 1).drop_last() =~= builtin_effort_suffixes().take(j as int));
            assert(builtin_effort_suffixes().take(j + 1).last() == builtin_effort_suffixes()[j as int]);
        }
        let suffix = builtins[j].0.as_str();
        if suffix_applies_exec(&m, suffix, known_models) {
            proof {
                assert(pair_views(builtins@)[j as int] == (builtins@[j as int].0@, builtins@[j as int].1@));
                assert(first_applicable(m@, builtin_effort_suffixes().take(j + 1), known) == j);
                lemma_first_applicable_prefix(m@, builtin_effort_suffixes(), known, j + 1);
            }
            let k = chars_of(suffix);
            let base = slice_vec(&m, 0, m.len() - k.len());
            return Some((string_from_chars(&base), builtins[j].1.clone()));
        }
        j += 1;
    }
    proof {
        assert(builtin_effort_suffixes().take(builtins@.len() as int) =~= builtin_effort_suffixes());
    }
    None
}


/// The API error answered for a failed upstream call: the upstream's status
/// (502 when there was none), code `upstream_error`, and its message.
pub fn upstream_error_to_app(status: Option<u16>, message: String) -> (r: AppError)
    ensures
        r.status == (match status {
            Some(s) => s,
            None => 502,
        }),
        r.code@ == "upstream_error"@,
        r.message@ == message@,
{
    let code = match status {
        Some(s) => s,
        None => STATUS_BAD_GATEWAY,
    };
    AppError::new(code, string_of("upstream_error"), message)
}

/// Why the account store refused to let a user spend.
#[derive(Clone, Copy, Debug, PartialEq, Eq, Structural)]
pub enum BillingErrorKind {
    InsufficientBalance,
    NotFound,
    Internal,
}

/// The API error answered when a user may not spend before a request is
/// forwarded: 402 for an exhausted balance, 401 for an unknown user, else
/// 500 with the store's message.
pub fn balance_refusal(kind: BillingErrorKind, message: String) -> (r: AppError)
    ensures
        match kind {
            BillingErrorKind::InsufficientBalance => r.status == 402 && r.code@ == "insufficient_balance"@
                && r.message@ == "insufficient balance"@,
            BillingErrorKind::NotFound => r.status == 401 && r.code@ == "unauthorized"@ && r.message@
                == "user not found"@,
            BillingErrorKind::Internal => r.status == 500 && r.code@ == "internal_error"@ && r.message@
                == message@,
        },
{
    match kind {
        BillingErrorKind::InsufficientBalance => app_error(STATUS_PAYMENT_REQUIRED, "insufficient_balance", "insufficient balance"),
        BillingErrorKind::NotFound => app_error(STATUS_UNAUTHORIZED, "unauthorized", "user not found"),
        BillingErrorKind::Internal => AppError::new(STATUS_INTERNAL_SERVER_ERROR, string_of("internal_error"), message),
    }
}


/// The balance guard every forwarded request passes: a request with no user
/// (internal traffic) always passes; a user's request passes when the
/// account store finds the user may spend (`spend_check` is its answer),
/// and is otherwise refused as [`balance_refusal`] says.
pub fn balance_guard(has_user: bool, spend_check: Result<(), (BillingErrorKind, String)>) -> (r: Result<(), AppError>)
    ensures
        !has_user ==> r is Ok,
        has_user ==> match spend_check {
            Ok(()) => r is Ok,
            Err((kind, message)) => r matches Err(e) && match kind {
                BillingErrorKind::InsufficientBalance => e.status == 402 && e.code@ == "insufficient_balance"@
                    && e.message@ == "insufficient balance"@,
                BillingErrorKind::NotFound => e.status == 401 && e.code@ == "unauthorized"@ && e.message@
                    == "user not found"@,
                BillingErrorKind::Internal => e.status == 500 && e.code@ == "internal_error"@ && e.message@
                    == message@,
            },
        },
{
    if !has_user {
        return Ok(());
    }
    match spend_check {
        Ok(()) => Ok(()),
        Err((kind, message)) => Err(balance_refusal(kind, message)),
    }
}

/// Prompt plus completion tokens, saturating at `u64::MAX`.
pub open spec fn usage_total(u: Usage) -> int {
    if u.prompt_tokens + u.completion_tokens > u64::MAX {
        u64::MAX as int
    } else {
        u.prompt_tokens + u.completion_tokens
    }
}

/// Whether a usage report seen on a stream replaces the one kept so far: it
/// does when nothing is kept yet or its token total is at least as large.
pub fn should_replace_stream_usage(existing: Option<&Usage>, incoming: &Usage) -> (r: bool)
    ensures
        r == (match existing {
            Some(e) => usage_total(*incoming) >= usage_total(*e),
            None => true,
        }),
{
    let new_total = incoming.prompt_tokens.saturating_add(incoming.completion_tokens);
    match existing {
        Some(e) => new_total >= e.prompt_tokens.saturating_add(e.completion_tokens),
        None => true,
    }
}

/// The kept usage's token total never shrinks as reports arrive.
pub proof fn law_kept_stream_usage_never_shrinks(existing: Usage, incoming: Usage)
    ensures
        usage_total(
            if usage_total(incoming) >= usage_total(existing) {
                incoming
            } else {
                existing
            },
        ) >= usage_total(existing),
{
}

/// The API key a forwarded request carries: its `Authorization` header must
/// be present and start with `Bearer `; otherwise 401 `missing auth` or
/// `invalid auth`.
pub fn auth_bearer_token(authorization: Option<&str>) -> (r: Result<String, AppError>)
    ensures
        match authorization {
            None => r matches Err(e) && e.status == 401 && e.code@ == "unauthorized"@ && e.message@
                == "missing auth"@,
            Some(a) => if a@.len() >= 7 && a@.take(7) == "Bearer "@ {
                r matches Ok(t) && t@ == a@.skip(7)
            } else {
                r matches Err(e) && e.status == 401 && e.code@ == "unauthorized"@ && e.message@
                    == "invalid auth"@
            },
        },
{
    proof {
        reveal_strlit("Bearer ");
    }
    match authorization {
        None => Err(app_error(STATUS_UNAUTHORIZED, "unauthorized", "missing auth")),
        Some(a) => {
            let v = chars_of(a);
            if starts_with_lit(&v, "Bearer ") {
                let rest = slice_vec(&v, 7, v.len());
                Ok(string_from_chars(&rest))
            } else {
                Err(app_error(STATUS_UNAUTHORIZED, "unauthorized", "invalid auth"))
            }
        },
    }
}


/// Whether an active probe of `channel_id` is due at `now`.
pub fn channel_probe_due(health: &ChannelHealthTable, channel_id: &str, now: i64, interval_seconds: u64) -> (r: bool)
    ensures
        r == probe_due(health_of(health@, channel_id@), now, interval_seconds),
{
    health.get(channel_id).is_probe_due(now, interval_seconds)
}

/// Records the result of an active probe of `channel_id` at `now`.
pub fn mark_channel_probe_result(
    health: &mut ChannelHealthTable,
    channel_id: &str,
    now: i64,
    ok: bool,
    success_threshold: u32,
    cooldown_seconds: u64,
)
    requires
        cooldown_seconds <= i64::MAX,
        now + cooldown_seconds <= i64::MAX,
    ensures
        final(health)@ == old(health)@.insert(
            channel_id@,
            after_probe(health_of(old(health)@, channel_id@), now, ok, success_threshold, cooldown_seconds),
        ),
{
    let mut entry = health.get(channel_id);
    entry.record_probe(now, ok, success_threshold, cooldown_seconds);
    health.set(channel_id, entry);
}

/// A provider's probe interval: its own setting, else the service's; at
/// least one second.
pub fn effective_probe_interval(provider_override: Option<u64>, default_seconds: u64) -> (r: u64)
    ensures
        r == (match provider_override {
            Some(v) => if v < 1 { 1 } else { v },
            None => if default_seconds < 1 { 1 } else { default_seconds },
        }),
{
    let v = match provider_override {
        Some(v) => v,
        None => default_seconds,
    };
    if v < 1 {
        1
    } else {
        v
    }
}

/// A provider's probe success threshold: its own setting, else the
/// service's; at least one.
pub fn effective_probe_threshold(provider_override: Option<u32>, default_threshold: u32) -> (r: u32)
    ensures
        r == (match provider_override {
            Some(v) => if v < 1 { 1 } else { v },
            None => if default_threshold < 1 { 1 } else { default_threshold },
        }),
        r >= 1,
{
    let v = match provider_override {
        Some(v) => v,
        None => default_threshold,
    };
    if v < 1 {
        1
    } else {
        v
    }
}

/// The model an active probe asks for: the provider's probe model, else the
/// service's, else the first model the provider lists.
pub fn probe_model(
    provider_override: Option<String>,
    service_default: Option<String>,
    first_model: Option<String>,
) -> (r: Option<String>)
    ensures
        r == (match provider_override {
            Some(m) => Some(m),
            None => match service_default {
                Some(m) => Some(m),
                None => first_model,
            },
        }),
{
    match provider_override {
        Some(m) => Some(m),
        None => match service_default {
            Some(m) => Some(m),
            None => first_model,
        },
    }
}

/// Healthy channels are never probed: probes only look after channels that
/// failed.
pub proof fn law_healthy_channels_are_not_probed(s: ChannelHealthState, now: i64, interval_seconds: u64)
    requires
        s.healthy,
    ensures
        !probe_due(s, now, interval_seconds),
{
}

/// A failed probe leaves the channel unhealthy, out of routing until
/// `now + cooldown_seconds` and back in from then on.
pub proof fn law_failed_probe_rests_channel(
    s: ChannelHealthState,
    now: i64,
    success_threshold: u32,
    cooldown_seconds: u64,
    t: i64,
)
    requires
        now + cooldown_seconds <= i64::MAX,
    ensures
        !after_probe(s, now, false, success_threshold, cooldown_seconds).healthy,
        is_candidate(after_probe(s, now, false, success_threshold, cooldown_seconds), t) <==> t >= now
            + cooldown_seconds,
{
}

/// `n` successful probes in a row, all at `now`.
pub open spec fn after_successful_probes(
    s: ChannelHealthState,
    n: nat,
    now: i64,
    success_threshold: u32,
    cooldown_seconds: u64,
) -> ChannelHealthState
    decreases n,
{
    if n == 0 {
        s
    } else {
        after_probe(
            after_successful_probes(s, (n - 1) as nat, now, success_threshold, cooldown_seconds),
            now,
            true,
            success_threshold,
            cooldown_seconds,
        )
    }
}

/// An unhealthy channel with no probe successes yet stays unhealthy through
/// fewer than `success_threshold` successful probes, and the
/// `success_threshold`-th makes it healthy, with its failures forgotten.
pub proof fn law_probe_successes_restore_at_threshold(
    s: ChannelHealthState,
    now: i64,
    success_threshold: u32,
    cooldown_seconds: u64,
    n: nat,
)
    requires
        !s.healthy,
        s.probe_success_count == 0,
        1 <= success_threshold,
        n <= success_threshold,
    ensures
        n < success_threshold ==> !after_successful_probes(s, n, now, success_threshold, cooldown_seconds).healthy
            && after_successful_probes(s, n, now, success_threshold, cooldown_seconds).probe_success_count == n,
        n == success_threshold ==> after_successful_probes(s, n, now, success_threshold, cooldown_seconds).healthy
            && after_successful_probes(s, n, now, success_threshold, cooldown_seconds).failure_count == 0,
    decreases n,
{
    if n > 0 {
        law_probe_successes_restore_at_threshold(s, now, success_threshold, cooldown_seconds, (n - 1) as nat);
    }
}


/// The JSON shape of one value, as far as request checks read it.
#[derive(Clone, Copy, Debug, PartialEq, Eq, Structural)]
pub enum JsonShape {
    /// A string.
    Text,
    /// An array of strings (possibly empty).
    TextArray,
    /// Anything else.
    Other,
}

/// What an embeddings request body holds, as its checks read it: whether it
/// is an object, its `model` when that is a string, the shape of `input`
/// (absent: `None`), and `encoding_format` when present (`Some(None)` when it
/// is not a string).
#[derive(Clone, Debug)]
pub struct EmbeddingsRequestShape {
    pub is_object: bool,
    pub model: Option<String>,
    pub input: Option<JsonShape>,
    pub encoding_format: Option<Option<String>>,
}

/// The refusal of an embeddings request, in the order checked, or the
/// model it names.
pub open spec fn embeddings_check(r: EmbeddingsRequestShape) -> Result<Seq<char>, Seq<char>> {
    if !r.is_object {
        Err("body must be object"@)
    } else if !(r.model matches Some(m) && trim(m@).len() > 0) {
        Err("missing model"@)
    } else if r.input is None {
        Err("missing input"@)
    } else if r.input == Some(JsonShape::Other) {
        Err("input must be string or array of strings"@)
    } else if (r.encoding_format matches Some(f) && !(f matches Some(t) && (t@ == "float"@ || t@
        == "base64"@))) {
        Err("encoding_format must be 'float' or 'base64'"@)
    } else {
        Ok(r.model->0@)
    }
}

/// Checks an embeddings request before it is routed: the model it names,
/// or a 400 `invalid_request` saying what is wrong.
pub fn validate_embeddings_request(r: &EmbeddingsRequestShape) -> (res: Result<String, AppError>)
    ensures
        match embeddings_check(*r) {
            Ok(m) => res matches Ok(model) && model@ == m,
            Err(msg) => res matches Err(e) && e.status == 400 && e.code@ == "invalid_request"@
                && e.message@ == msg,
        },
{
    if !r.is_object {
        return Err(app_error(STATUS_BAD_REQUEST, "invalid_request", "body must be object"));
    }
    let model = match &r.model {
        Some(m) => {
            if trim_vec(&chars_of(m.as_str())).len() == 0 {
                return Err(app_error(STATUS_BAD_REQUEST, "invalid_request", "missing model"));
            }
            m
        },
        None => return Err(app_error(STATUS_BAD_REQUEST, "invalid_request", "missing model")),
    };
    match r.input {
        None => return Err(app_error(STATUS_BAD_REQUEST, "invalid_request", "missing input")),
        Some(JsonShape::Other) => return Err(app_error(STATUS_BAD_REQUEST, "invalid_request", "input must be string or array of strings")),
        _ => {},
    }
    match &r.encoding_format {
        Some(f) => {
            let ok = match f {
                Some(t) => {
                    let v = chars_of(t.as_str());
                    crate::text::eq_lit(&v, "float") || crate::text::eq_lit(&v, "base64")
                },
                None => false,
            };
            if !ok {
                return Err(app_error(STATUS_BAD_REQUEST, "invalid_request", "encoding_format must be 'float' or 'base64'"));
            }
        },
        None => {},
    }
    Ok(model.clone())
}

/// One upstream try planned for a request: a channel of a provider that
/// serves the requested model, with what the forwarding needs of both.
#[derive(Debug)]
pub struct MonoizeAttempt {
    pub provider_id: String,
    pub provider_type: MonoizeProviderType,
    pub channel_id: String,
    pub base_url: String,
    pub api_key: String,
    pub upstream_model: String,
    pub model_multiplier_nano: i128,
    pub provider_transforms: Vec<TransformRuleConfig>,
}

/// The entry of the first model named `model` at or after position `i`.
pub open spec fn model_entry_from(models: Seq<(String, MonoizeModelEntry)>, model: Seq<char>, i: int) -> Option<
    MonoizeModelEntry,
>
    decreases models.len() - i,
{
    if i < 0 || i >= models.len() {
        None
    } else if models[i].0@ == model {
        Some(models[i].1)
    } else {
        model_entry_from(models, model, i + 1)
    }
}

/// The entry a provider keeps for `model`.
pub open spec fn model_entry_of(models: Seq<(String, MonoizeModelEntry)>, model: Seq<char>) -> Option<
    MonoizeModelEntry,
> {
    model_entry_from(models, model, 0)
}

/// The entry under which a provider serves `model` to a request whose
/// multiplier ceiling is `max_multiplier_nano`: none when the provider is
/// disabled, does not list the model, or prices it above the ceiling.
pub open spec fn serving_entry(p: MonoizeProvider, model: Seq<char>, max_multiplier_nano: Option<i128>) -> Option<
    MonoizeModelEntry,
> {
    if !p.enabled {
        None
    } else {
        match model_entry_of(p.models@, model) {
            Some(e) => match max_multiplier_nano {
                Some(m) => if e.multiplier_nano > m {
                    None
                } else {
                    Some(e)
                },
                None => Some(e),
            },
            None => None,
        }
    }
}

/// How many of `n` channels one request may try: all of them for
/// `max_retries == -1`, else one more than the (non-negative) retries, at most `n`.
pub open spec fn attempt_budget(max_retries: i32, n: int) -> int {
    if max_retries == -1 {
        n
    } else {
        let tries = (if max_retries < 0 { 0 } else { max_retries as int }) + 1;
        if tries < n { tries } else { n }
    }
}

/// The model name sent upstream for `model` under `e`.
pub open spec fn upstream_of(e: MonoizeModelEntry, model: Seq<char>) -> Seq<char> {
    match redirect_target(e) {
        Some(t) => t,
        None => model,
    }
}

/// `a` is the attempt of channel `c` of provider `p` serving `model` under `e`.
pub open spec fn attempt_for(
    a: MonoizeAttempt,
    p: MonoizeProvider,
    e: MonoizeModelEntry,
    model: Seq<char>,
    c: MonoizeChannel,
) -> bool {
    &&& a.provider_id@ == p.id@
    &&& a.provider_type == p.provider_type
    &&& a.channel_id@ == c.id@
    &&& a.base_url@ == c.base_url@
    &&& a.api_key@ == c.api_key@
    &&& a.upstream_model@ == upstream_of(e, model)
    &&& a.model_multiplier_nano == e.multiplier_nano
    &&& same_rules(a.provider_transforms@, p.transforms@)
}

/// `block` is what one provider contributes to a request's attempt list:
/// nothing when it does not serve the model; else one attempt per channel for
/// the first `attempt_budget` channels of some ordering of its eligible
/// channels.
pub open spec fn provider_block(
    health: Map<Seq<char>, ChannelHealthState>,
    now: i64,
    model: Seq<char>,
    max_multiplier_nano: Option<i128>,
    p: MonoizeProvider,
    block: Seq<MonoizeAttempt>,
) -> bool {
    match serving_entry(p, model, max_multiplier_nano) {
        None => block.len() == 0,
        Some(e) => {
            let eligible = eligible_channels(p.channels@, health, now);
            &&& block.len() == attempt_budget(p.max_retries, eligible.len() as int)
            &&& exists|ordered: Seq<MonoizeChannel>|
                #[trigger] ordered.to_multiset() == eligible.to_multiset() && ordered.len()
                    == eligible.len() && forall|i: int|
                    0 <= i < block.len() ==> attempt_for(block[i], p, e, model, ordered[i])
        },
    }
}

/// There are never more eligible channels than channels.
pub proof fn lemma_eligible_channels_len(cs: Seq<MonoizeChannel>, m: Map<Seq<char>, ChannelHealthState>, now: i64)
    ensures
        eligible_channels(cs, m, now).len() <= cs.len(),
    decreases cs.len(),
{
    if cs.len() > 0 {
        lemma_eligible_channels_len(cs.drop_last(), m, now);
    }
}

/// Every planned attempt goes to a channel of its provider that is enabled,
/// has a positive weight and may be tried now, for a model the provider
/// serves within the request's multiplier ceiling.
pub proof fn law_attempts_use_eligible_channels(
    health: Map<Seq<char>, ChannelHealthState>,
    now: i64,
    model: Seq<char>,
    max_multiplier_nano: Option<i128>,
    p: MonoizeProvider,
    block: Seq<MonoizeAttempt>,
    k: int,
)
    requires
        provider_block(health, now, model, max_multiplier_nano, p, block),
        0 <= k < block.len(),
    ensures
        serving_entry(p, model, max_multiplier_nano) is Some,
        exists|c: MonoizeChannel|
            #![trigger p.channels@.contains(c)]
            p.channels@.contains(c) && channel_eligible(c, health, now) && attempt_for(
                block[k],
                p,
                serving_entry(p, model, max_multiplier_nano)->Some_0,
                model,
                c,
            ),
{
    broadcast use vstd::seq_lib::group_to_multiset_ensures;

    let e = serving_entry(p, model, max_multiplier_nano)->Some_0;
    let eligible = eligible_channels(p.channels@, health, now);
    let ordered = choose|ordered: Seq<MonoizeChannel>|
        #[trigger] ordered.to_multiset() == eligible.to_multiset() && ordered.len() == eligible.len()
            && forall|i: int| 0 <= i < block.len() ==> attempt_for(block[i], p, e, model, ordered[i]);
    let c = ordered[k];
    assert(ordered.contains(c));
    assert(eligible.to_multiset().count(c) > 0);
    assert(eligible.contains(c));
    let t = choose|t: int| 0 <= t < eligible.len() && eligible[t] == c;
    law_eligible_channels_are_routable(p.channels@, health, now, t);
    assert(p.channels@.contains(c));
}

/// The entry a provider keeps for `model`: the first one under that name.
pub fn find_model_entry<'a>(models: &'a Vec<(String, MonoizeModelEntry)>, model: &str) -> (r: Option<
    &'a MonoizeModelEntry,
>)
    ensures
        match r {
            Some(e) => model_entry_of(models@, model@) == Some(*e),
            None => model_entry_of(models@, model@) is None,
        },
{
    let key = string_of(model);
    let mut i: usize = 0;
    while i < models.len()
        invariant
            i <= models.len(),
            key@ == model@,
            model_entry_of(models@, model@) == model_entry_from(models@, model@, i as int),
        decreases models.len() - i,
    {
        if models[i].0 == key {
            return Some(&models[i].1);
        }
        i += 1;
    }
    None
}

/// Appends to `out` the attempts `provider` contributes for `model`: when it
/// is enabled, lists the model and does not price it above the request's
/// ceiling, its eligible channels in a weighted random order, as many as its
/// retry budget allows.
pub fn collect_provider_attempts(
    health: &ChannelHealthTable,
    now: i64,
    model: &str,
    max_multiplier_nano: Option<i128>,
    provider: &MonoizeProvider,
    out: &mut Vec<MonoizeAttempt>,
)
    requires
        provider.channels@.len() <= u32::MAX,
    ensures
        final(out)@.len() >= old(out)@.len(),
        final(out)@.take(old(out)@.len() as int) == old(out)@,
        provider_block(
            health@,
            now,
            model@,
            max_multiplier_nano,
            *provider,
            final(out)@.skip(old(out)@.len() as int),
        ),
{
    let ghost initial = out@;
    proof {
        assert(out@.skip(initial.len() as int) =~= Seq::<MonoizeAttempt>::empty());
        assert(out@.take(initial.len() as int) =~= initial);
    }
    if !provider.enabled {
        return;
    }
    let entry = match find_model_entry(&provider.models, model) {
        Some(e) => e,
        None => return,
    };
    if let Some(m) = max_multiplier_nano {
        if entry.multiplier_nano > m {
            return;
        }
    }
    let channels = filter_eligible_channels(health, &provider.channels, now);
    proof {
        lemma_eligible_channels_len(provider.channels@, health@, now);
    }
    let ghost eligible = channels@;
    let ordered = weighted_shuffle_channels(channels);
    proof {
        broadcast use vstd::seq_lib::group_to_multiset_ensures;
        assert(ordered@.len() == ordered@.to_multiset().len());
        assert(eligible.len() == eligible.to_multiset().len());
    }
    let max_attempts = max_channel_attempts(provider.max_retries, ordered.len());
    let upstream_model = resolve_upstream_model(model, entry);
    let mut i: usize = 0;
    while i < max_attempts
        invariant
            i <= max_attempts,
            max_attempts <= ordered@.len(),
            out@.len() == initial.len() + i,
            out@.take(initial.len() as int) == initial,
            upstream_model@ == upstream_of(*entry, model@),
            forall|j: int|
                0 <= j < i ==> attempt_for(
                    #[trigger] out@[initial.len() + j],
                    *provider,
                    *entry,
                    model@,
                    ordered@[j],
                ),
        decreases max_attempts - i,
    {
        let channel = &ordered[i];
        let attempt = MonoizeAttempt {
            provider_id: provider.id.clone(),
            provider_type: provider.provider_type,
            channel_id: channel.id.clone(),
            base_url: channel.base_url.clone(),
            api_key: channel.api_key.clone(),
            upstream_model: upstream_model.clone(),
            model_multiplier_nano: entry.multiplier_nano,
            provider_transforms: clone_rules(&provider.transforms),
        };
        let ghost before = out@;
        out.push(attempt);
        proof {
            assert(out@.take(initial.len() as int) =~= before.take(initial.len() as int));
            assert forall|j: int| 0 <= j < i + 1 implies attempt_for(
                #[trigger] out@[initial.len() + j],
                *provider,
                *entry,
                model@,
                ordered@[j],
            ) by {
                if j < i {
                    assert(out@[initial.len() + j] == before[initial.len() + j]);
                }
            }
        }
        i += 1;
    }
    proof {
        let block = out@.skip(initial.len() as int);
        assert(block.len() == attempt_budget(provider.max_retries, eligible.len() as int));
        assert forall|k: int| 0 <= k < block.len() implies attempt_for(
            block[k],
            *provider,
            *entry,
            model@,
            ordered@[k],
        ) by {
            assert(block[k] == out@[initial.len() + k]);
        }
        assert(ordered@.to_multiset() == eligible.to_multiset());
    }
}

/// The attempt list of a request: the blocks of the providers, in provider
/// order (see [`collect_provider_attempts`]).
pub fn build_monoize_attempts(
    health: &ChannelHealthTable,
    now: i64,
    model: &str,
    max_multiplier_nano: Option<i128>,
    providers: &Vec<MonoizeProvider>,
) -> (r: Vec<MonoizeAttempt>)
    requires
        forall|i: int| 0 <= i < providers@.len() ==> (#[trigger] providers@[i]).channels@.len() <= u32::MAX,
    ensures
        exists|blocks: Seq<Seq<MonoizeAttempt>>|
            #![trigger blocks.flatten()]
            blocks.len() == providers@.len() && blocks.flatten() == r@ && forall|i: int|
                0 <= i < blocks.len() ==> provider_block(
                    health@,
                    now,
                    model@,
                    max_multiplier_nano,
                    providers@[i],
                    #[trigger] blocks[i],
                ),
{
    let mut attempts: Vec<MonoizeAttempt> = Vec::new();
    let ghost mut blocks: Seq<Seq<MonoizeAttempt>> = Seq::empty();
    let mut i: usize = 0;
    while i < providers.len()
        invariant
            i <= providers@.len(),
            forall|k: int| 0 <= k < providers@.len() ==> (#[trigger] providers@[k]).channels@.len() <= u32::MAX,
            blocks.len() == i,
            blocks.flatten_alt() == attempts@,
            forall|k: int|
                0 <= k < i ==> provider_block(
                    health@,
                    now,
                    model@,
                    max_multiplier_nano,
                    providers@[k],
                    #[trigger] blocks[k],
                ),
        decreases providers@.len() - i,
    {
        let ghost before = attempts@;
        collect_provider_attempts(health, now, model, max_multiplier_nano, &providers[i], &mut attempts);
        proof {
            let b = attempts@.skip(before.len() as int);
            let nb = blocks.push(b);
            assert(nb.drop_last() =~= blocks);
            assert(attempts@ =~= before + b);
            assert(nb.flatten_alt() == blocks.flatten_alt() + b);
            assert forall|k: int| 0 <= k < i + 1 implies provider_block(
                health@,
                now,
                model@,
                max_multiplier_nano,
                providers@[k],
                #[trigger] nb[k],
            ) by {
                if k < i {
                    assert(nb[k] == blocks[k]);
                }
            }
            blocks = nb;
        }
        i += 1;
    }
    proof {
        blocks.lemma_flatten_and_flatten_alt_are_equivalent();
        assert(blocks.flatten() == attempts@);
    }
    attempts
}

} // verus!
