//! Provider administration: model-listing URLs, which API key a model
//! listing uses, the model ids a listing yields, and whether a provider's
//! model has a price.
use vstd::prelude::*;
pub use crate::billing_rate_store::provider_dashboard_rate_matrix_is_complete;
use crate::error::{app_error, AppError, STATUS_BAD_REQUEST};
use crate::handlers::{contains_name, redirect_target, resolve_upstream_model};
use crate::monoize_routing::{MonoizeModelEntry, MonoizeProviderType};
use crate::settings::{normalize_pricing_model_key, pricing_model_key, suffix_keys};
use crate::text::{
    chars_of, concat_chars_lit, ends_with, ends_with_lit, slice_vec, starts_with_lit, string_from_chars,
    strip_trailing, strip_trailing_vec, trim, trim_vec,
};
use crate::users::{insert_sorted, string_views, strictly_sorted};

verus! {

/// The model whose price applies to a provider's model entry: the non-blank
/// redirect target, trimmed, else the logical model.
pub fn provider_pricing_model(logical_model: &str, model_entry: &MonoizeModelEntry) -> (r: String)
    ensures
        r@ == (match redirect_target(*model_entry) {
            Some(t) => t,
            None => logical_model@,
        }),
{
    resolve_upstream_model(logical_model, model_entry)
}

/// Whether a provider's model can be billed: the pricing key of its upstream
/// model, or of its logical model, has a price.
pub open spec fn billable(
    logical: Seq<char>,
    upstream: Seq<char>,
    priced: Seq<Seq<char>>,
    suffixes: Seq<Seq<char>>,
) -> bool {
    priced.contains(pricing_model_key(upstream, suffixes)) || priced.contains(
        pricing_model_key(logical, suffixes),
    )
}

/// Whether a provider's model entry can be billed: `priced_ids` are the
/// models with a price, `reasoning_suffix_map` the (suffix, effort) table
/// whose suffixes are not part of a priced name.
pub fn provider_has_billable_pricing(
    logical_model: &str,
    model_entry: &MonoizeModelEntry,
    priced_ids: &Vec<String>,
    reasoning_suffix_map: &Vec<(String, String)>,
) -> (r: bool)
    ensures
        r == billable(
            logical_model@,
            match redirect_target(*model_entry) {
                Some(t) => t,
                None => logical_model@,
            },
            string_views(priced_ids@),
            suffix_keys(reasoning_suffix_map@),
        ),
{
    let upstream = provider_pricing_model(logical_model, model_entry);
    let upstream_key = normalize_pricing_model_key(upstream.as_str(), reasoning_suffix_map);
    if contains_name(priced_ids, &chars_of(upstream_key.as_str())) {
        return true;
    }
    let logical_key = normalize_pricing_model_key(logical_model, reasoning_suffix_map);
    contains_name(priced_ids, &chars_of(logical_key.as_str()))
}

/// The pricing profile a model's metadata names: its models.dev provider,
/// trimmed, when that is not blank.
pub fn metadata_pricing_profile(models_dev_provider: &Option<String>) -> (r: Option<String>)
    ensures
        match r {
            Some(s) => non_blank(*models_dev_provider) == Some(s@),
            None => non_blank(*models_dev_provider) is None,
        },
{
    non_blank_exec(models_dev_provider)
}

/// The pricing profiles whose rates are tried for a model, in order: the
/// profile its name selects, then the one its metadata names unless that is
/// the same.
pub open spec fn candidate_profiles(selected: Option<Seq<char>>, metadata: Option<Seq<char>>) -> Seq<Seq<char>> {
    let first: Seq<Seq<char>> = match selected {
        Some(p) => seq![p],
        None => Seq::empty(),
    };
    match metadata {
        Some(m) => if first.contains(m) {
            first
        } else {
            first.push(m)
        },
        None => first,
    }
}

/// The pricing profiles whose rate matrix decides whether a model is billable
/// (see [`candidate_profiles`]).
pub fn candidate_pricing_profiles(selected: Option<&str>, metadata: Option<String>) -> (r: Vec<String>)
    ensures
        string_views(r@) == candidate_profiles(
            match selected {
                Some(p) => Some(p@),
                None => None,
            },
            match metadata {
                Some(m) => Some(m@),
                None => None,
            },
        ),
{
    let mut out: Vec<String> = Vec::new();
    match selected {
        Some(p) => {
            out.push(p.to_owned());
        },
        None => {},
    }
    proof {
        assert(string_views(out@) =~= candidate_profiles(
            match selected {
                Some(p) => Some(p@),
                None => None,
            },
            None,
        ));
    }
    match metadata {
        Some(m) => {
            let dup = out.len() > 0 && out[0] == m;
            proof {
                if out.len() > 0 {
                    assert(string_views(out@)[0] == out@[0]@);
                    assert(string_views(out@).contains(m@) <==> out@[0]@ == m@);
                } else {
                    assert(!string_views(out@).contains(m@));
                }
            }
            if !dup {
                let ghost before = out@;
                out.push(m);
                proof {
                    assert(string_views(out@) =~= string_views(before).push(out@[out@.len() - 1]@));
                }
            }
        },
        None => {},
    }
    out
}

/// The models whose rate matrix is looked up for a channel's model, in order:
/// its upstream pricing key, then its logical one when that differs.
pub open spec fn matrix_models(upstream_key: Seq<char>, logical_key: Seq<char>) -> Seq<Seq<char>> {
    if upstream_key == logical_key {
        seq![upstream_key]
    } else {
        seq![upstream_key, logical_key]
    }
}

/// The pricing keys under which a channel's model may have a complete rate
/// matrix: that of the model it is served as, then that of the logical model
/// when it differs (see [`matrix_models`]).
pub fn billing_matrix_models(
    logical_model: &str,
    model_entry: &MonoizeModelEntry,
    reasoning_suffix_map: &Vec<(String, String)>,
) -> (r: Vec<String>)
    ensures
        string_views(r@) == matrix_models(
            pricing_model_key(
                match redirect_target(*model_entry) {
                    Some(t) => t,
                    None => logical_model@,
                },
                suffix_keys(reasoning_suffix_map@),
            ),
            pricing_model_key(logical_model@, suffix_keys(reasoning_suffix_map@)),
        ),
{
    let upstream = provider_pricing_model(logical_model, model_entry);
    let upstream_key = normalize_pricing_model_key(upstream.as_str(), reasoning_suffix_map);
    let logical_key = normalize_pricing_model_key(logical_model, reasoning_suffix_map);
    let same = upstream_key == logical_key;
    let mut out: Vec<String> = Vec::new();
    out.push(upstream_key);
    if !same {
        out.push(logical_key);
    }
    proof {
        assert(string_views(out@) =~= matrix_models(out@[0]@, if same { out@[0]@ } else { out@[1]@ }));
    }
    out
}

/// The model-listing URL of an OpenAI-style base URL: trailing slashes
/// dropped, then `/models` when it already ends in `/v1`, else `/v1/models`.
pub open spec fn models_list_url(base: Seq<char>) -> Seq<char> {
    let b = strip_trailing(base, '/');
    if ends_with(b, "/v1"@) {
        b + "/models"@
    } else {
        b + "/v1/models"@
    }
}

/// The model-listing URL of an OpenAI-style base URL.
pub fn build_models_list_url(base_url: &str) -> (r: String)
    ensures
        r@ == models_list_url(base_url@),
{
    let base = strip_trailing_vec(&chars_of(base_url), '/');
    if ends_with_lit(&base, "/v1") {
        concat_chars_lit(&base, "/models")
    } else {
        concat_chars_lit(&base, "/v1/models")
    }
}

/// The model-listing URL of a Gemini base URL: trailing slashes dropped,
/// then `/models` when it already ends in `/v1beta` or `/v1`, else
/// `/v1beta/models`.
pub open spec fn gemini_models_list_url(base: Seq<char>) -> Seq<char> {
    let b = strip_trailing(base, '/');
    if ends_with(b, "/v1beta"@) || ends_with(b, "/v1"@) {
        b + "/models"@
    } else {
        b + "/v1beta/models"@
    }
}

/// The model-listing URL of a Gemini base URL.
pub fn build_gemini_models_list_url(base_url: &str) -> (r: String)
    ensures
        r@ == gemini_models_list_url(base_url@),
{
    let base = strip_trailing_vec(&chars_of(base_url), '/');
    if ends_with_lit(&base, "/v1beta") || ends_with_lit(&base, "/v1") {
        concat_chars_lit(&base, "/models")
    } else {
        concat_chars_lit(&base, "/v1beta/models")
    }
}

/// Body of a request to list the models of a channel: the key is given, or
/// read from the saved channel named by `provider_id` and `channel_id`.
#[derive(Clone, Debug)]
pub struct FetchChannelModelsRequest {
    pub provider_type: MonoizeProviderType,
    pub base_url: String,
    pub api_key: Option<String>,
    pub provider_id: Option<String>,
    pub channel_id: Option<String>,
}

/// Body of a request to test a channel, optionally with a model.
#[derive(Clone, Debug)]
pub struct TestChannelRequest {
    pub model: Option<String>,
}

/// Where the API key of a model listing comes from.
#[derive(Clone, Debug)]
pub enum FetchKeySource {
    /// The key given in the request, trimmed.
    Given(String),
    /// The key saved for this channel of this provider (ids trimmed).
    Stored { provider_id: String, channel_id: String },
}

/// An optional text that is not blank, trimmed.
pub open spec fn non_blank(v: Option<String>) -> Option<Seq<char>> {
    match v {
        Some(s) => if trim(s@).len() > 0 {
            Some(trim(s@))
        } else {
            None
        },
        None => None,
    }
}

fn non_blank_exec(v: &Option<String>) -> (r: Option<String>)
    ensures
        match r {
            Some(s) => non_blank(*v) == Some(s@),
            None => non_blank(*v) is None,
        },
{
    match v {
        Some(s) => {
            let t = trim_vec(&chars_of(s.as_str()));
            if t.len() > 0 {
                Some(string_from_chars(&t))
            } else {
                None
            }
        },
        None => None,
    }
}

/// Where a model listing takes its key from: a non-blank given key, else the
/// saved channel when both ids are non-blank; else the request is refused
/// with 400 `invalid_input`.
pub fn fetch_channel_key_source(body: &FetchChannelModelsRequest) -> (r: Result<FetchKeySource, AppError>)
    ensures
        match non_blank(body.api_key) {
            Some(k) => r matches Ok(FetchKeySource::Given(g)) && g@ == k,
            None => match (non_blank(body.provider_id), non_blank(body.channel_id)) {
                (Some(p), Some(c)) => r matches Ok(FetchKeySource::Stored { provider_id, channel_id })
                    && provider_id@ == p && channel_id@ == c,
                _ => r matches Err(e) && e.status == 400 && e.code@ == "invalid_input"@
                    && e.message@ == "api_key is required for unsaved channels"@,
            },
        },
{
    if let Some(k) = non_blank_exec(&body.api_key) {
        return Ok(FetchKeySource::Given(k));
    }
    let p = non_blank_exec(&body.provider_id);
    let c = non_blank_exec(&body.channel_id);
    match (p, c) {
        (Some(provider_id), Some(channel_id)) => Ok(FetchKeySource::Stored { provider_id, channel_id }),
        _ => Err(app_error(STATUS_BAD_REQUEST, "invalid_input", "api_key is required for unsaved channels")),
    }
}

/// The key of a saved channel, trimmed, given what the store held for it
/// (`None` when the provider or channel does not exist); a blank key is
/// refused like a missing one.
pub fn stored_channel_api_key(stored: Option<&str>) -> (r: Result<String, AppError>)
    ensures
        match stored {
            None => r matches Err(e) && e.status == 400 && e.code@ == "invalid_input"@ && e.message@
                == "stored channel key could not be resolved"@,
            Some(k) => if trim(k@).len() > 0 {
                r matches Ok(key) && key@ == trim(k@)
            } else {
                r matches Err(e) && e.status == 400 && e.code@ == "invalid_input"@ && e.message@
                    == "api_key is required for unsaved channels"@
            },
        },
{
    match stored {
        None => Err(app_error(STATUS_BAD_REQUEST, "invalid_input", "stored channel key could not be resolved")),
        Some(k) => {
            let t = trim_vec(&chars_of(k));
            if t.len() > 0 {
                Ok(string_from_chars(&t))
            } else {
                Err(app_error(STATUS_BAD_REQUEST, "invalid_input", "api_key is required for unsaved channels"))
            }
        },
    }
}

/// A model id as a listing reports it: Gemini names lose a leading
/// `models/`, other ids stay as they are.
pub open spec fn listed_model_id(provider_type: MonoizeProviderType, raw: Seq<char>) -> Seq<char> {
    if provider_type == MonoizeProviderType::Gemini && raw.len() >= 7 && raw.take(7) == "models/"@ {
        raw.skip(7)
    } else {
        raw
    }
}

/// The model ids of a listing, from the raw ids (or Gemini names) it held:
/// normalized, without duplicates, in ascending order.
pub fn extract_model_ids(provider_type: MonoizeProviderType, raw_ids: &Vec<String>) -> (r: Vec<String>)
    ensures
        strictly_sorted(string_views(r@)),
        forall|s: Seq<char>|
            #[trigger] string_views(r@).contains(s) <==> exists|i: int|
                0 <= i < raw_ids@.len() && #[trigger] listed_model_id(provider_type, raw_ids@[i]@) == s,
{
    proof {
        reveal_strlit("models/");
    }
    let mut acc: Vec<Vec<char>> = Vec::new();
    let mut i: usize = 0;
    while i < raw_ids.len()
        invariant
            i <= raw_ids@.len(),
            strictly_sorted(crate::text::seqs_of(acc@)),
            forall|s: Seq<char>|
                #[trigger] crate::text::seqs_of(acc@).contains(s) <==> exists|t: int|
                    0 <= t < i && #[trigger] listed_model_id(provider_type, raw_ids@[t]@) == s,
        decreases raw_ids@.len() - i,
    {
        let raw = chars_of(raw_ids[i].as_str());
        proof {
            reveal_strlit("models/");
        }
        let id = if provider_type == MonoizeProviderType::Gemini && starts_with_lit(&raw, "models/") {
            slice_vec(&raw, 7, raw.len())
        } else {
            slice_vec(&raw, 0, raw.len())
        };
        proof {
            assert(raw@.subrange(7, raw@.len() as int) =~= raw@.skip(7));
            assert(raw@.subrange(0, raw@.len() as int) =~= raw@);
            assert(listed_model_id(provider_type, raw_ids@[i as int]@) == id@);
        }
        let ghost before = crate::text::seqs_of(acc@);
        insert_sorted(&mut acc, id);
        proof {
            assert forall|s: Seq<char>| #[trigger]
                crate::text::seqs_of(acc@).contains(s) <==> exists|t: int|
                    0 <= t < i + 1 && #[trigger] listed_model_id(provider_type, raw_ids@[t]@) == s by {
                if exists|t: int| 0 <= t < i + 1 && #[trigger] listed_model_id(provider_type, raw_ids@[t]@) == s {
                    let t = choose|t: int| 0 <= t < i + 1 && #[trigger] listed_model_id(provider_type, raw_ids@[t]@) == s;
                    if t < i {
                        assert(before.contains(s));
                    }
                }
            }
        }
        i += 1;
    }
    let mut r: Vec<String> = Vec::new();
    let mut j: usize = 0;
    while j < acc.len()
        invariant
            j <= acc@.len(),
            string_views(r@) == crate::text::seqs_of(acc@).take(j as int),
        decreases acc@.len() - j,
    {
        let one = string_from_chars(&acc[j]);
        let ghost prev = r@;
        r.push(one);
        j += 1;
        proof {
            assert(string_views(prev) =~= crate::text::seqs_of(acc@).take(j - 1));
            assert(string_views(r@) =~= string_views(prev).push(one@));
            assert(crate::text::seqs_of(acc@).take(j as int) =~= crate::text::seqs_of(acc@).take(j - 1).push(acc@[j - 1]@));
        }
    }
    proof {
        assert(crate::text::seqs_of(acc@).take(acc@.len() as int) =~= crate::text::seqs_of(acc@));
    }
    r
}


/// Trailing slashes on a base URL do not change its model-listing URL, for
/// OpenAI-style and Gemini providers alike.
pub proof fn law_models_list_url_ignores_trailing_slash(base: Seq<char>)
    ensures
        models_list_url(base.push('/')) == models_list_url(base),
        gemini_models_list_url(base.push('/')) == gemini_models_list_url(base),
{
    assert(base.push('/').drop_last() =~= base);
    assert(strip_trailing(base.push('/'), '/') == strip_trailing(base, '/'));
}

} // verus!
