//! Usage reports as each wire format writes them: the `usage` member of an
//! OpenAI chat, responses or embeddings body, of an Anthropic message, and the
//! `usageMetadata` of a Gemini response.
use vstd::prelude::*;
use crate::json::{
    get, get_in, is_object, members_model, opt_get, opt_model, opt_or, opt_u64, or_else, u64_in, JsonModel,
    JsonNumber, JsonValue,
};
use crate::decimal::{parse_u64, parse_u64_spec};
use crate::json::{lookup, member};
use crate::text::string_of;
use crate::urp::{Usage, UsageModel};

verus! {

/// `acc` with the member `key` of `usage` appended, when `usage` has one.
pub open spec fn with_member(
    acc: Seq<(Seq<char>, JsonModel)>,
    usage: JsonModel,
    key: Seq<char>,
) -> Seq<(Seq<char>, JsonModel)> {
    match get(usage, key) {
        Some(v) => acc.push((key, v)),
        None => acc,
    }
}

/// The usage an OpenAI chat completion (or chunk) reports: `usage` must be an
/// object with `prompt_tokens` and `completion_tokens` as non-negative
/// integers.
pub open spec fn chat_usage(obj: JsonModel) -> Option<UsageModel> {
    match get(obj, "usage"@) {
        Some(usage) if is_object(usage) => match (
            u64_in(get(usage, "prompt_tokens"@)),
            u64_in(get(usage, "completion_tokens"@)),
        ) {
            (Some(p), Some(c)) => Some(
                UsageModel {
                    prompt_tokens: p,
                    completion_tokens: c,
                    reasoning_tokens: u64_in(
                        get_in(get(usage, "completion_tokens_details"@), "reasoning_tokens"@),
                    ),
                    cached_tokens: u64_in(
                        get_in(get(usage, "prompt_tokens_details"@), "cached_tokens"@),
                    ),
                    extra_body: with_member(
                        with_member(
                            with_member(seq![], usage, "prompt_tokens_details"@),
                            usage,
                            "completion_tokens_details"@,
                        ),
                        usage,
                        "total_tokens"@,
                    ),
                },
            ),
            _ => None,
        },
        _ => None,
    }
}

/// The usage an OpenAI responses body (or a stream event wrapping one under
/// `response`) reports: input and output tokens under either naming.
pub open spec fn responses_usage(obj: JsonModel) -> Option<UsageModel> {
    match or_else(get(obj, "usage"@), get_in(get(obj, "response"@), "usage"@)) {
        Some(usage) => match (
            u64_in(or_else(get(usage, "input_tokens"@), get(usage, "prompt_tokens"@))),
            u64_in(or_else(get(usage, "output_tokens"@), get(usage, "completion_tokens"@))),
        ) {
            (Some(p), Some(c)) => Some(
                UsageModel {
                    prompt_tokens: p,
                    completion_tokens: c,
                    reasoning_tokens: u64_in(
                        or_else(
                            get_in(get(usage, "output_tokens_details"@), "reasoning_tokens"@),
                            get_in(get(usage, "completion_tokens_details"@), "reasoning_tokens"@),
                        ),
                    ),
                    cached_tokens: u64_in(
                        or_else(
                            get_in(get(usage, "input_tokens_details"@), "cached_tokens"@),
                            get_in(get(usage, "prompt_tokens_details"@), "cached_tokens"@),
                        ),
                    ),
                    extra_body: with_member(
                        with_member(
                            with_member(
                                with_member(
                                    with_member(seq![], usage, "input_tokens_details"@),
                                    usage,
                                    "output_tokens_details"@,
                                ),
                                usage,
                                "prompt_tokens_details"@,
                            ),
                            usage,
                            "completion_tokens_details"@,
                        ),
                        usage,
                        "total_tokens"@,
                    ),
                },
            ),
            _ => None,
        },
        None => None,
    }
}

/// The usage an Anthropic message (or a `message_start` event wrapping one
/// under `message`) reports.
pub open spec fn messages_usage(obj: JsonModel) -> Option<UsageModel> {
    match or_else(get(obj, "usage"@), get_in(get(obj, "message"@), "usage"@)) {
        Some(usage) if is_object(usage) => match (
            u64_in(get(usage, "input_tokens"@)),
            u64_in(get(usage, "output_tokens"@)),
        ) {
            (Some(p), Some(c)) => Some(
                UsageModel {
                    prompt_tokens: p,
                    completion_tokens: c,
                    reasoning_tokens: None,
                    cached_tokens: u64_in(get(usage, "cache_read_input_tokens"@)),
                    extra_body: with_member(
                        with_member(seq![], usage, "cache_creation_input_tokens"@),
                        usage,
                        "cache_read_input_tokens"@,
                    ),
                },
            ),
            _ => None,
        },
        _ => None,
    }
}

/// The usage a Gemini response reports in `usageMetadata`, under camel-case
/// or snake-case names.
pub open spec fn gemini_usage(obj: JsonModel) -> Option<UsageModel> {
    match get(obj, "usageMetadata"@) {
        Some(usage) if is_object(usage) => match (
            u64_in(or_else(get(usage, "promptTokenCount"@), get(usage, "prompt_token_count"@))),
            u64_in(
                or_else(get(usage, "candidatesTokenCount"@), get(usage, "candidates_token_count"@)),
            ),
        ) {
            (Some(p), Some(c)) => Some(
                UsageModel {
                    prompt_tokens: p,
                    completion_tokens: c,
                    reasoning_tokens: u64_in(
                        or_else(get(usage, "thoughtsTokenCount"@), get(usage, "thoughts_token_count"@)),
                    ),
                    cached_tokens: u64_in(
                        or_else(
                            get(usage, "cachedContentTokenCount"@),
                            get(usage, "cached_content_token_count"@),
                        ),
                    ),
                    extra_body: with_member(
                        with_member(
                            with_member(
                                with_member(
                                    with_member(
                                        with_member(seq![], usage, "cachedContentTokenCount"@),
                                        usage,
                                        "cached_content_token_count"@,
                                    ),
                                    usage,
                                    "thoughtsTokenCount"@,
                                ),
                                usage,
                                "thoughts_token_count"@,
                            ),
                            usage,
                            "totalTokenCount"@,
                        ),
                        usage,
                        "total_token_count"@,
                    ),
                },
            ),
            _ => None,
        },
        _ => None,
    }
}

/// The usage an OpenAI embeddings response reports: prompt tokens, no
/// completion, and its `total_tokens` kept as a detail.
pub open spec fn embeddings_usage(obj: JsonModel) -> Option<UsageModel> {
    match get(obj, "usage"@) {
        Some(usage) if is_object(usage) => match (
            u64_in(get(usage, "prompt_tokens"@)),
            u64_in(get(usage, "total_tokens"@)),
        ) {
            (Some(p), Some(t)) => Some(
                UsageModel {
                    prompt_tokens: p,
                    completion_tokens: 0,
                    reasoning_tokens: None,
                    cached_tokens: None,
                    extra_body: seq![("total_tokens"@, JsonModel::PosInt(t))],
                },
            ),
            _ => None,
        },
        _ => None,
    }
}

/// Appends a copy of the member `key` of `usage` to `extra`, when there is one.
fn keep_member(extra: &mut Vec<(String, JsonValue)>, usage: &JsonValue, key: &str)
    ensures
        members_model(final(extra)@) == with_member(members_model(old(extra)@), usage@, key@),
{
    if let Some(v) = usage.get(key) {
        let copy = v.deep_clone();
        extra.push((string_of(key), copy));
        proof {
            assert(members_model(final(extra)@) =~= members_model(old(extra)@).push((key@, v@)));
        }
    } else {
        proof {
            assert(members_model(final(extra)@) =~= members_model(old(extra)@));
        }
    }
}

/// Reads the usage of an OpenAI chat completion body or stream chunk.
pub fn parse_usage_from_chat_object(obj: &JsonValue) -> (r: Option<Usage>)
    ensures
        match r {
            Some(u) => chat_usage(obj@) == Some(u@),
            None => chat_usage(obj@) is None,
        },
{
    let usage = match obj.get("usage") {
        Some(u) => u,
        None => return None,
    };
    if !usage.is_object() {
        return None;
    }
    let prompt_tokens = match opt_u64(usage.get("prompt_tokens")) {
        Some(n) => n,
        None => return None,
    };
    let completion_tokens = match opt_u64(usage.get("completion_tokens")) {
        Some(n) => n,
        None => return None,
    };
    let cached_tokens = opt_u64(opt_get(usage.get("prompt_tokens_details"), "cached_tokens"));
    let reasoning_tokens = opt_u64(opt_get(usage.get("completion_tokens_details"), "reasoning_tokens"));
    let mut extra_body: Vec<(String, JsonValue)> = Vec::new();
    proof {
        assert(members_model(extra_body@) =~= seq![]);
    }
    keep_member(&mut extra_body, usage, "prompt_tokens_details");
    keep_member(&mut extra_body, usage, "completion_tokens_details");
    keep_member(&mut extra_body, usage, "total_tokens");
    Some(Usage { prompt_tokens, completion_tokens, reasoning_tokens, cached_tokens, extra_body })
}

/// Reads the usage of an OpenAI responses body or stream event.
pub fn parse_usage_from_responses_object(obj: &JsonValue) -> (r: Option<Usage>)
    ensures
        match r {
            Some(u) => responses_usage(obj@) == Some(u@),
            None => responses_usage(obj@) is None,
        },
{
    let usage = match opt_or(obj.get("usage"), opt_get(obj.get("response"), "usage")) {
        Some(u) => u,
        None => return None,
    };
    let prompt_tokens = match opt_u64(opt_or(usage.get("input_tokens"), usage.get("prompt_tokens"))) {
        Some(n) => n,
        None => return None,
    };
    let completion_tokens = match opt_u64(
        opt_or(usage.get("output_tokens"), usage.get("completion_tokens")),
    ) {
        Some(n) => n,
        None => return None,
    };
    let cached_tokens = opt_u64(
        opt_or(
            opt_get(usage.get("input_tokens_details"), "cached_tokens"),
            opt_get(usage.get("prompt_tokens_details"), "cached_tokens"),
        ),
    );
    let reasoning_tokens = opt_u64(
        opt_or(
            opt_get(usage.get("output_tokens_details"), "reasoning_tokens"),
            opt_get(usage.get("completion_tokens_details"), "reasoning_tokens"),
        ),
    );
    let mut extra_body: Vec<(String, JsonValue)> = Vec::new();
    proof {
        assert(members_model(extra_body@) =~= seq![]);
    }
    keep_member(&mut extra_body, usage, "input_tokens_details");
    keep_member(&mut extra_body, usage, "output_tokens_details");
    keep_member(&mut extra_body, usage, "prompt_tokens_details");
    keep_member(&mut extra_body, usage, "completion_tokens_details");
    keep_member(&mut extra_body, usage, "total_tokens");
    Some(Usage { prompt_tokens, completion_tokens, reasoning_tokens, cached_tokens, extra_body })
}

/// Reads the usage of an Anthropic message or `message_start` event.
pub fn parse_usage_from_messages_object(obj: &JsonValue) -> (r: Option<Usage>)
    ensures
        match r {
            Some(u) => messages_usage(obj@) == Some(u@),
            None => messages_usage(obj@) is None,
        },
{
    let usage = match opt_or(obj.get("usage"), opt_get(obj.get("message"), "usage")) {
        Some(u) => u,
        None => return None,
    };
    if !usage.is_object() {
        return None;
    }
    let prompt_tokens = match opt_u64(usage.get("input_tokens")) {
        Some(n) => n,
        None => return None,
    };
    let completion_tokens = match opt_u64(usage.get("output_tokens")) {
        Some(n) => n,
        None => return None,
    };
    let cached_tokens = opt_u64(usage.get("cache_read_input_tokens"));
    let mut extra_body: Vec<(String, JsonValue)> = Vec::new();
    proof {
        assert(members_model(extra_body@) =~= seq![]);
    }
    keep_member(&mut extra_body, usage, "cache_creation_input_tokens");
    keep_member(&mut extra_body, usage, "cache_read_input_tokens");
    Some(
        Usage {
            prompt_tokens,
            completion_tokens,
            reasoning_tokens: None,
            cached_tokens,
            extra_body,
        },
    )
}

/// Reads the `usageMetadata` of a Gemini response or stream chunk.
pub fn parse_usage_from_gemini_object(obj: &JsonValue) -> (r: Option<Usage>)
    ensures
        match r {
            Some(u) => gemini_usage(obj@) == Some(u@),
            None => gemini_usage(obj@) is None,
        },
{
    let usage = match obj.get("usageMetadata") {
        Some(u) => u,
        None => return None,
    };
    if !usage.is_object() {
        return None;
    }
    let prompt_tokens = match opt_u64(
        opt_or(usage.get("promptTokenCount"), usage.get("prompt_token_count")),
    ) {
        Some(n) => n,
        None => return None,
    };
    let completion_tokens = match opt_u64(
        opt_or(usage.get("candidatesTokenCount"), usage.get("candidates_token_count")),
    ) {
        Some(n) => n,
        None => return None,
    };
    let cached_tokens = opt_u64(
        opt_or(usage.get("cachedContentTokenCount"), usage.get("cached_content_token_count")),
    );
    let reasoning_tokens = opt_u64(
        opt_or(usage.get("thoughtsTokenCount"), usage.get("thoughts_token_count")),
    );
    let mut extra_body: Vec<(String, JsonValue)> = Vec::new();
    proof {
        assert(members_model(extra_body@) =~= seq![]);
    }
    keep_member(&mut extra_body, usage, "cachedContentTokenCount");
    keep_member(&mut extra_body, usage, "cached_content_token_count");
    keep_member(&mut extra_body, usage, "thoughtsTokenCount");
    keep_member(&mut extra_body, usage, "thoughts_token_count");
    keep_member(&mut extra_body, usage, "totalTokenCount");
    keep_member(&mut extra_body, usage, "total_token_count");
    Some(Usage { prompt_tokens, completion_tokens, reasoning_tokens, cached_tokens, extra_body })
}

/// Reads the usage of an OpenAI embeddings response.
pub fn parse_usage_from_embeddings_object(obj: &JsonValue) -> (r: Option<Usage>)
    ensures
        match r {
            Some(u) => embeddings_usage(obj@) == Some(u@),
            None => embeddings_usage(obj@) is None,
        },
{
    let usage = match obj.get("usage") {
        Some(u) => u,
        None => return None,
    };
    if !usage.is_object() {
        return None;
    }
    let prompt_tokens = match opt_u64(usage.get("prompt_tokens")) {
        Some(n) => n,
        None => return None,
    };
    let total_tokens = match opt_u64(usage.get("total_tokens")) {
        Some(n) => n,
        None => return None,
    };
    let mut extra_body: Vec<(String, JsonValue)> = Vec::new();
    extra_body.push((string_of("total_tokens"), JsonValue::Number(JsonNumber::PosInt(total_tokens))));
    proof {
        assert(members_model(extra_body@) =~= seq![("total_tokens"@, JsonModel::PosInt(total_tokens))]);
    }
    Some(
        Usage {
            prompt_tokens,
            completion_tokens: 0,
            reasoning_tokens: None,
            cached_tokens: None,
            extra_body,
        },
    )
}

/// The input side of a usage breakdown.
#[derive(Clone, Copy, Debug, PartialEq, Eq, Structural)]
pub struct InputBreakdown {
    pub total_tokens: u64,
    pub uncached_tokens: u64,
    pub text_tokens: Option<u64>,
    pub cached_tokens: Option<u64>,
    pub cache_creation_tokens: Option<u64>,
    pub audio_tokens: Option<u64>,
    pub image_tokens: Option<u64>,
}

/// The output side of a usage breakdown.
#[derive(Clone, Copy, Debug, PartialEq, Eq, Structural)]
pub struct OutputBreakdown {
    pub total_tokens: u64,
    pub non_reasoning_tokens: u64,
    pub text_tokens: Option<u64>,
    pub reasoning_tokens: Option<u64>,
    pub audio_tokens: Option<u64>,
    pub image_tokens: Option<u64>,
}

/// The token breakdown stored with a request log (format version 1; the
/// provider's raw detail members go beside it as they are).
#[derive(Clone, Copy, Debug, PartialEq, Eq, Structural)]
pub struct UsageBreakdown {
    pub input: InputBreakdown,
    pub output: OutputBreakdown,
}

/// A token count written as a non-negative integer or as decimal text.
pub open spec fn count_value(v: JsonModel) -> Option<u64> {
    match v {
        JsonModel::PosInt(n) => Some(n),
        JsonModel::Str(s) => parse_u64_spec(s),
        _ => None,
    }
}

/// `count_value` applied to an optional value.
pub open spec fn count_in(v: Option<JsonModel>) -> Option<u64> {
    match v {
        Some(m) => count_value(m),
        None => None,
    }
}

/// The value when it is an object.
pub open spec fn object_in(v: Option<JsonModel>) -> Option<JsonModel> {
    match v {
        Some(m) => if is_object(m) {
            Some(m)
        } else {
            None
        },
        None => None,
    }
}

/// The first of two optional counts that is present.
pub open spec fn first_count(a: Option<u64>, b: Option<u64>) -> Option<u64> {
    match a {
        Some(n) => Some(n),
        None => b,
    }
}

/// `a - b`, or 0 when `b` is larger.
pub open spec fn saturating_sub(a: u64, b: u64) -> u64 {
    if a >= b {
        (a - b) as u64
    } else {
        0
    }
}

/// The breakdown of a usage report: cached and reasoning counts come from the
/// report's own fields first, then from its detail members (under the
/// responses or the chat naming), then, for cached input, from Anthropic's
/// `cache_read_input_tokens`.
pub open spec fn usage_breakdown(u: UsageModel) -> UsageBreakdown {
    let extra = u.extra_body;
    let input_details = object_in(
        or_else(lookup(extra, "input_tokens_details"@), lookup(extra, "prompt_tokens_details"@)),
    );
    let output_details = object_in(
        or_else(lookup(extra, "output_tokens_details"@), lookup(extra, "completion_tokens_details"@)),
    );
    let input_cached = first_count(
        first_count(u.cached_tokens, count_in(get_in(input_details, "cached_tokens"@))),
        count_in(lookup(extra, "cache_read_input_tokens"@)),
    );
    let output_reasoning = first_count(
        u.reasoning_tokens,
        count_in(get_in(output_details, "reasoning_tokens"@)),
    );
    UsageBreakdown {
        input: InputBreakdown {
            total_tokens: u.prompt_tokens,
            uncached_tokens: saturating_sub(
                u.prompt_tokens,
                match input_cached {
                    Some(n) => n,
                    None => 0,
                },
            ),
            text_tokens: count_in(get_in(input_details, "text_tokens"@)),
            cached_tokens: input_cached,
            cache_creation_tokens: count_in(lookup(extra, "cache_creation_input_tokens"@)),
            audio_tokens: count_in(get_in(input_details, "audio_tokens"@)),
            image_tokens: count_in(get_in(input_details, "image_tokens"@)),
        },
        output: OutputBreakdown {
            total_tokens: u.completion_tokens,
            non_reasoning_tokens: saturating_sub(
                u.completion_tokens,
                match output_reasoning {
                    Some(n) => n,
                    None => 0,
                },
            ),
            text_tokens: count_in(get_in(output_details, "text_tokens"@)),
            reasoning_tokens: output_reasoning,
            audio_tokens: count_in(get_in(output_details, "audio_tokens"@)),
            image_tokens: count_in(get_in(output_details, "image_tokens"@)),
        },
    }
}

/// Reads a token count written as a non-negative integer or as decimal text.
pub fn parse_u64_value(value: &JsonValue) -> (r: Option<u64>)
    ensures
        r == count_value(value@),
{
    match value {
        JsonValue::Number(JsonNumber::PosInt(n)) => Some(*n),
        JsonValue::Str(s) => parse_u64(s.as_str()),
        _ => None,
    }
}

/// `parse_u64_value` applied to an optional value.
fn count_of(v: Option<&JsonValue>) -> (r: Option<u64>)
    ensures
        r == count_in(opt_model(v)),
{
    match v {
        Some(x) => parse_u64_value(x),
        None => None,
    }
}

/// The value when it is an object.
fn object_of(v: Option<&JsonValue>) -> (r: Option<&JsonValue>)
    ensures
        opt_model(r) == object_in(opt_model(v)),
{
    match v {
        Some(x) => if x.is_object() {
            Some(x)
        } else {
            None
        },
        None => None,
    }
}

/// The count stored under `key` in an object: `map.get(key)` read as a count.
pub fn map_get_u64(map: &Vec<(String, JsonValue)>, key: &str) -> (r: Option<u64>)
    ensures
        r == count_in(lookup(members_model(map@), key@)),
{
    count_of(member(map, key))
}

/// Splits a usage report into the input and output figures kept with a
/// request log.
pub fn build_usage_breakdown(usage: &Usage) -> (r: UsageBreakdown)
    ensures
        r == usage_breakdown(usage@),
{
    let extra = &usage.extra_body;
    let input_details = object_of(
        opt_or(member(extra, "input_tokens_details"), member(extra, "prompt_tokens_details")),
    );
    let output_details = object_of(
        opt_or(member(extra, "output_tokens_details"), member(extra, "completion_tokens_details")),
    );
    let input_cached = match usage.cached_tokens {
        Some(n) => Some(n),
        None => match count_of(opt_get(input_details, "cached_tokens")) {
            Some(n) => Some(n),
            None => map_get_u64(extra, "cache_read_input_tokens"),
        },
    };
    let input_cache_creation = map_get_u64(extra, "cache_creation_input_tokens");
    let input_audio = count_of(opt_get(input_details, "audio_tokens"));
    let input_image = count_of(opt_get(input_details, "image_tokens"));
    let input_text = count_of(opt_get(input_details, "text_tokens"));
    let output_reasoning = match usage.reasoning_tokens {
        Some(n) => Some(n),
        None => count_of(opt_get(output_details, "reasoning_tokens")),
    };
    let output_audio = count_of(opt_get(output_details, "audio_tokens"));
    let output_image = count_of(opt_get(output_details, "image_tokens"));
    let output_text = count_of(opt_get(output_details, "text_tokens"));
    let cached_or_zero: u64 = match input_cached {
        Some(n) => n,
        None => 0,
    };
    let reasoning_or_zero: u64 = match output_reasoning {
        Some(n) => n,
        None => 0,
    };
    UsageBreakdown {
        input: InputBreakdown {
            total_tokens: usage.prompt_tokens,
            uncached_tokens: usage.prompt_tokens.saturating_sub(cached_or_zero),
            text_tokens: input_text,
            cached_tokens: input_cached,
            cache_creation_tokens: input_cache_creation,
            audio_tokens: input_audio,
            image_tokens: input_image,
        },
        output: OutputBreakdown {
            total_tokens: usage.completion_tokens,
            non_reasoning_tokens: usage.completion_tokens.saturating_sub(reasoning_or_zero),
            text_tokens: output_text,
            reasoning_tokens: output_reasoning,
            audio_tokens: output_audio,
            image_tokens: output_image,
        },
    }
}

/// Gemini's cached-content count is billed as cached: a usage report whose
/// `usageMetadata` gives prompt, candidate and cached-content counts (in
/// Gemini's camel-case names) reads as that many prompt, completion and
/// cached tokens, whatever any snake-case spelling says.
pub proof fn law_gemini_cached_content_counts_as_cached(
    obj: JsonModel,
    usage: JsonModel,
    p: u64,
    c: u64,
    n: u64,
)
    requires
        get(obj, "usageMetadata"@) == Some(usage),
        is_object(usage),
        get(usage, "promptTokenCount"@) == Some(JsonModel::PosInt(p)),
        get(usage, "candidatesTokenCount"@) == Some(JsonModel::PosInt(c)),
        get(usage, "cachedContentTokenCount"@) == Some(JsonModel::PosInt(n)),
    ensures
        gemini_usage(obj) matches Some(u) && u.prompt_tokens == p && u.completion_tokens == c
            && u.cached_tokens == Some(n),
{
}

/// The snake-case cached-content count stands in only when the camel-case
/// one is absent; with neither, no token is cached.
pub proof fn law_gemini_snake_case_cached_count_is_a_fallback(
    obj: JsonModel,
    usage: JsonModel,
    p: u64,
    c: u64,
    cached: Option<JsonModel>,
)
    requires
        get(obj, "usageMetadata"@) == Some(usage),
        is_object(usage),
        get(usage, "promptTokenCount"@) == Some(JsonModel::PosInt(p)),
        get(usage, "candidatesTokenCount"@) == Some(JsonModel::PosInt(c)),
        get(usage, "cachedContentTokenCount"@) is None,
        get(usage, "cached_content_token_count"@) == cached,
    ensures
        gemini_usage(obj) matches Some(u) && u.prompt_tokens == p && u.completion_tokens == c
            && u.cached_tokens == (match cached {
                Some(JsonModel::PosInt(k)) => Some(k),
                _ => None,
            }),
{
}

} // verus!
