//! Billing-rate catalog logic: ASCII case-insensitive model-pattern matching
//! and the ordered pricing-profile lookup.
use vstd::prelude::*;
use vstd::utf8::encode_utf8;
use crate::decimal::{parse_i128, parse_i128_spec};
use crate::handlers::contains_name;
use crate::text::{chars_of, eq_lit, push_lit, string_of, trim, trim_vec};
use crate::users::string_views;
use crate::json::{get, JsonModel, JsonValue};
use crate::usage::{count_in, parse_u64_value};

verus! {

/// ASCII lower-casing of one byte (`eq_ignore_ascii_case` compares these).
pub open spec fn ascii_lower(b: u8) -> u8 {
    if 65 <= b <= 90 {
        (b + 32) as u8
    } else {
        b
    }
}

/// Whether byte pattern `p[i..]` matches byte value `v[j..]`: `*` is any byte
/// sequence, `?` any one byte, other bytes compare ASCII case-insensitively.
pub open spec fn glob_ci_from(p: Seq<u8>, v: Seq<u8>, i: int, j: int) -> bool
    decreases p.len() - i, v.len() - j,
    when 0 <= i <= p.len() && 0 <= j <= v.len()
{
    if i == p.len() {
        j == v.len()
    } else if p[i] == 42u8 {
        glob_ci_from(p, v, i + 1, j) || (j < v.len() && glob_ci_from(p, v, i, j + 1))
    } else if p[i] == 63u8 {
        j < v.len() && glob_ci_from(p, v, i + 1, j + 1)
    } else {
        j < v.len() && ascii_lower(p[i]) == ascii_lower(v[j]) && glob_ci_from(p, v, i + 1, j + 1)
    }
}

/// The UTF-8 bytes of `pattern` match the UTF-8 bytes of `value`.
pub open spec fn glob_ci_spec(pattern: Seq<char>, value: Seq<char>) -> bool {
    glob_ci_from(encode_utf8(pattern), encode_utf8(value), 0, 0)
}

/// One entry of the ordered pricing-profile table: a model glob and the
/// profile it selects.
#[derive(Clone, Debug)]
pub struct PricingProfilePattern {
    pub pattern: String,
    pub pricing_profile: String,
}

fn glob_ci_inner(p: &[u8], v: &[u8], i: usize, j: usize) -> (r: bool)
    requires
        i <= p@.len(),
        j <= v@.len(),
    ensures
        r == glob_ci_from(p@, v@, i as int, j as int),
    decreases p@.len() - i, v@.len() - j,
{
    if i == p.len() {
        return j == v.len();
    }
    let ch = p[i];
    if ch == 42u8 {
        glob_ci_inner(p, v, i + 1, j) || (j < v.len() && glob_ci_inner(p, v, i, j + 1))
    } else if ch == 63u8 {
        j < v.len() && glob_ci_inner(p, v, i + 1, j + 1)
    } else {
        j < v.len() && lower_byte(ch) == lower_byte(v[j]) && glob_ci_inner(p, v, i + 1, j + 1)
    }
}

fn lower_byte(b: u8) -> (r: u8)
    ensures
        r == ascii_lower(b),
{
    if 65 <= b && b <= 90 {
        b + 32
    } else {
        b
    }
}

/// ASCII case-insensitive glob over the UTF-8 bytes of `pattern` and `value`.
pub fn glob_matches(pattern: &str, value: &str) -> (r: bool)
    ensures
        r == glob_ci_spec(pattern@, value@),
{
    let p = pattern.as_bytes();
    let v = value.as_bytes();
    glob_ci_inner(p, v, 0, 0)
}

/// The pricing profile of the first entry, in table order, whose pattern
/// matches `model`.
pub fn select_pricing_profile<'a>(patterns: &'a [PricingProfilePattern], model: &str) -> (r: Option<&'a str>)
    ensures
        match r {
            Some(profile) => exists|i: int|
                0 <= i < patterns@.len() && glob_ci_spec(#[trigger] patterns@[i].pattern@, model@)
                    && (forall|k: int| 0 <= k < i ==> !glob_ci_spec(#[trigger] patterns@[k].pattern@, model@))
                    && profile@ == patterns@[i].pricing_profile@,
            None => forall|i: int| 0 <= i < patterns@.len() ==> !glob_ci_spec(#[trigger] patterns@[i].pattern@, model@),
        },
{
    let mut i: usize = 0;
    while i < patterns.len()
        invariant
            i <= patterns@.len(),
            forall|k: int| 0 <= k < i ==> !glob_ci_spec(#[trigger] patterns@[k].pattern@, model@),
        decreases patterns@.len() - i,
    {
        let entry = &patterns[i];
        if glob_matches(entry.pattern.as_str(), model) {
            return Some(entry.pricing_profile.as_str());
        }
        i += 1;
    }
    None
}

/// Catalog rates are enabled unless they say otherwise.
pub fn default_true() -> (r: bool)
    ensures
        r,
{
    true
}


/// One stored billing rate; `updated_at` is RFC 3339 text.
#[derive(Debug)]
pub struct DbBillingRateRecord {
    pub id: String,
    pub source: String,
    pub pricing_profile: String,
    pub model_pattern: Option<String>,
    pub provider_type: Option<String>,
    pub rate_kind: String,
    pub usage_class: String,
    pub unit: String,
    pub unit_price_nano_usd: String,
    pub context_tier: Option<String>,
    pub service_tier: Option<String>,
    pub modality: Option<String>,
    pub cache_ttl: Option<String>,
    pub match_json: JsonValue,
    pub priority: i32,
    pub enabled: bool,
    pub raw_json: JsonValue,
    pub updated_at: String,
}

impl DbBillingRateRecord {
    /// The unit price in nano-USD; a price that is not an `i128` integer is
    /// reported as `invalid unit_price_nano_usd for <id>`.
    pub fn unit_price_nano(&self) -> (r: Result<i128, String>)
        ensures
            match parse_i128_spec(self.unit_price_nano_usd@) {
                Some(v) => r == Ok::<i128, String>(v),
                None => r matches Err(m) && m@ == "invalid unit_price_nano_usd for "@ + self.id@,
            },
    {
        match parse_i128(self.unit_price_nano_usd.as_str()) {
            Some(v) => Ok(v),
            None => {
                let mut m = string_of("invalid unit_price_nano_usd for ");
                push_lit(&mut m, self.id.as_str());
                Err(m)
            },
        }
    }
}

/// Whether a rate applies to `model`: it has no model pattern, or its
/// pattern matches the model.
pub open spec fn rate_applies_to(r: DbBillingRateRecord, model: Seq<char>) -> bool {
    match r.model_pattern {
        None => true,
        Some(p) => glob_ci_spec(p@, model),
    }
}

/// The rates of `rates` that apply to `model`, in their order.
pub open spec fn rates_for_model(rates: Seq<DbBillingRateRecord>, model: Seq<char>) -> Seq<DbBillingRateRecord>
    decreases rates.len(),
{
    if rates.len() == 0 {
        Seq::empty()
    } else {
        let rest = rates_for_model(rates.drop_last(), model);
        if rate_applies_to(rates.last(), model) {
            rest.push(rates.last())
        } else {
            rest
        }
    }
}

/// The rates that apply to `model`, in their order (the store has already
/// narrowed them to one enabled pricing profile and provider type).
pub fn rates_matching_model(rates: Vec<DbBillingRateRecord>, model: &str) -> (r: Vec<DbBillingRateRecord>)
    ensures
        r@ == rates_for_model(rates@, model@),
{
    let ghost initial = rates@;
    let total: usize = rates.len();
    let mut rest = rates;
    let mut out: Vec<DbBillingRateRecord> = Vec::new();
    let mut n: usize = 0;
    while rest.len() > 0
        invariant
            initial.len() == total,
            n + rest@.len() == initial.len(),
            rest@ == initial.skip(n as int),
            out@ == rates_for_model(initial.take(n as int), model@),
        decreases rest@.len(),
    {
        let rate = rest.remove(0);
        proof {
            assert(rate == initial[n as int]);
            assert(initial.take(n + 1).drop_last() =~= initial.take(n as int));
            assert(initial.take(n + 1).last() == rate);
        }
        let keep = match &rate.model_pattern {
            None => true,
            Some(p) => glob_matches(p.as_str(), model),
        };
        if keep {
            out.push(rate);
        }
        n += 1;
        proof {
            assert(rest@ =~= initial.skip(n as int));
        }
    }
    proof {
        assert(initial.take(n as int) =~= initial);
    }
    out
}

/// Whether `r` is a per-token rate of usage class `class`.
pub open spec fn token_rate(r: DbBillingRateRecord, class: Seq<char>) -> bool {
    r.rate_kind@ == "token"@ && r.usage_class@ == class
}

/// The context tier of a rate.
pub open spec fn tier_of(r: DbBillingRateRecord) -> Option<Seq<char>> {
    match r.context_tier {
        Some(t) => Some(t@),
        None => None,
    }
}

/// Whether a rate belongs to a context tier other than `default`.
pub open spec fn special_tier(r: DbBillingRateRecord) -> bool {
    tier_of(r) matches Some(t) && t != "default"@
}

/// Whether some per-token rate of class `class` belongs to tier `tier`.
pub open spec fn tier_covered(rates: Seq<DbBillingRateRecord>, class: Seq<char>, tier: Seq<char>) -> bool {
    exists|j: int| 0 <= j < rates.len() && #[trigger] token_rate(rates[j], class) && tier_of(rates[j]) == Some(tier)
}

/// Whether a rate states the context threshold: its `match_json` has a
/// `context_threshold_tokens` that reads as a token count.
pub open spec fn states_threshold(r: DbBillingRateRecord) -> bool {
    count_in(get(r.match_json@, "context_threshold_tokens"@)) is Some
}

/// Whether a model's rates form a billable matrix: per-token input and
/// output rates exist; and when rates name context tiers other than
/// `default`, some rate states the context threshold and every such tier has
/// both an input and an output rate.
pub open spec fn rate_matrix_complete(rates: Seq<DbBillingRateRecord>) -> bool {
    &&& exists|i: int| 0 <= i < rates.len() && #[trigger] token_rate(rates[i], "input_uncached"@)
    &&& exists|i: int| 0 <= i < rates.len() && #[trigger] token_rate(rates[i], "output"@)
    &&& ((forall|i: int| 0 <= i < rates.len() ==> !#[trigger] special_tier(rates[i])) || (
    (exists|i: int| 0 <= i < rates.len() && #[trigger] states_threshold(rates[i]))
        && forall|i: int|
        0 <= i < rates.len() && #[trigger] special_tier(rates[i]) ==> tier_covered(
            rates,
            "input_uncached"@,
            tier_of(rates[i])->0,
        ) && tier_covered(rates, "output"@, tier_of(rates[i])->0)))
}

/// The `context_threshold_tokens` of a rate's `match_json`, as a count.
fn parse_threshold(match_json: &JsonValue) -> (r: Option<u64>)
    ensures
        r == count_in(get(match_json@, "context_threshold_tokens"@)),
{
    match match_json.get("context_threshold_tokens") {
        Some(v) => parse_u64_value(v),
        None => None,
    }
}

fn is_token_rate(r: &DbBillingRateRecord, class: &str) -> (b: bool)
    ensures
        b == token_rate(*r, class@),
{
    eq_lit(&chars_of(r.rate_kind.as_str()), "token") && eq_lit(&chars_of(r.usage_class.as_str()), class)
}

fn has_token_rate(rates: &Vec<DbBillingRateRecord>, class: &str) -> (b: bool)
    ensures
        b == exists|i: int| 0 <= i < rates@.len() && #[trigger] token_rate(rates@[i], class@),
{
    let mut i: usize = 0;
    while i < rates.len()
        invariant
            i <= rates@.len(),
            forall|t: int| 0 <= t < i ==> !#[trigger] token_rate(rates@[t], class@),
        decreases rates@.len() - i,
    {
        if is_token_rate(&rates[i], class) {
            return true;
        }
        i += 1;
    }
    false
}

fn same_tier(r: &DbBillingRateRecord, tier: &String) -> (b: bool)
    ensures
        b == (tier_of(*r) == Some(tier@)),
{
    match &r.context_tier {
        Some(t) => *t == *tier,
        None => false,
    }
}

fn covers_tier(rates: &Vec<DbBillingRateRecord>, class: &str, tier: &String) -> (b: bool)
    ensures
        b == tier_covered(rates@, class@, tier@),
{
    let mut j: usize = 0;
    while j < rates.len()
        invariant
            j <= rates@.len(),
            forall|t: int| 0 <= t < j ==> !(#[trigger] token_rate(rates@[t], class@) && tier_of(rates@[t]) == Some(tier@)),
        decreases rates@.len() - j,
    {
        if is_token_rate(&rates[j], class) && same_tier(&rates[j], tier) {
            return true;
        }
        j += 1;
    }
    false
}

/// Whether a model's rates form a billable matrix (see
/// `rate_matrix_complete`).
pub fn provider_dashboard_rate_matrix_is_complete(rates: &Vec<DbBillingRateRecord>) -> (b: bool)
    ensures
        b == rate_matrix_complete(rates@),
{
    if !has_token_rate(rates, "input_uncached") || !has_token_rate(rates, "output") {
        return false;
    }
    let mut any_special = false;
    let mut any_threshold = false;
    let mut all_covered = true;
    let mut i: usize = 0;
    while i < rates.len()
        invariant
            i <= rates@.len(),
            any_special == exists|t: int| 0 <= t < i && #[trigger] special_tier(rates@[t]),
            any_threshold == exists|t: int| 0 <= t < i && #[trigger] states_threshold(rates@[t]),
            all_covered == forall|t: int|
                0 <= t < i && #[trigger] special_tier(rates@[t]) ==> tier_covered(
                    rates@,
                    "input_uncached"@,
                    tier_of(rates@[t])->0,
                ) && tier_covered(rates@, "output"@, tier_of(rates@[t])->0),
        decreases rates@.len() - i,
    {
        let r = &rates[i];
        let threshold = parse_threshold(&r.match_json);
        assert(states_threshold(rates@[i as int]) == threshold.is_some());
        if threshold.is_some() {
            any_threshold = true;
        }
        match &r.context_tier {
            Some(t) => {
                let special = !eq_lit(&chars_of(t.as_str()), "default");
                assert(special == special_tier(rates@[i as int]));
                if special {
                    any_special = true;
                    if !(covers_tier(rates, "input_uncached", t) && covers_tier(rates, "output", t)) {
                        all_covered = false;
                    }
                }
            },
            None => {
                assert(!special_tier(rates@[i as int]));
            },
        }
        i += 1;
    }
    !any_special || (any_threshold && all_covered)
}

/// The outcome of loading the bundled rate catalog.
#[derive(Clone, Debug)]
pub struct BillingRateSyncResult {
    pub success: bool,
    pub upserted: usize,
    pub skipped: usize,
    pub deleted: u64,
    pub fetched_at: String,
}

/// Which catalog rates a sync writes: every one whose id no manual rate
/// holds (manual rates win), with the counts written and skipped.
pub struct CatalogSyncPlan {
    pub insert: Vec<bool>,
    pub upserted: usize,
    pub skipped: usize,
}

/// How many of the first `n` catalog ids a manual rate holds.
pub open spec fn manual_overlap(catalog: Seq<Seq<char>>, manual: Seq<Seq<char>>, n: int) -> int
    decreases n,
{
    if n <= 0 {
        0
    } else {
        manual_overlap(catalog, manual, n - 1) + if manual.contains(catalog[n - 1]) {
            1int
        } else {
            0int
        }
    }
}

/// Plans a catalog sync: each catalog rate is written unless a manual rate
/// has its id, in which case it is skipped.
pub fn plan_catalog_sync(catalog_ids: &Vec<String>, manual_ids: &Vec<String>) -> (r: CatalogSyncPlan)
    ensures
        r.insert@.len() == catalog_ids@.len(),
        forall|i: int|
            0 <= i < catalog_ids@.len() ==> #[trigger] r.insert@[i] == !string_views(manual_ids@).contains(
                catalog_ids@[i]@,
            ),
        r.skipped == manual_overlap(string_views(catalog_ids@), string_views(manual_ids@), catalog_ids@.len() as int),
        r.upserted + r.skipped == catalog_ids@.len(),
{
    let mut insert: Vec<bool> = Vec::new();
    let mut upserted: usize = 0;
    let mut skipped: usize = 0;
    let mut i: usize = 0;
    while i < catalog_ids.len()
        invariant
            i <= catalog_ids@.len(),
            insert@.len() == i,
            forall|t: int|
                0 <= t < i ==> #[trigger] insert@[t] == !string_views(manual_ids@).contains(catalog_ids@[t]@),
            skipped == manual_overlap(string_views(catalog_ids@), string_views(manual_ids@), i as int),
            upserted + skipped == i,
        decreases catalog_ids@.len() - i,
    {
        let manual = contains_name(manual_ids, &chars_of(catalog_ids[i].as_str()));
        proof {
            assert(string_views(catalog_ids@)[i as int] == catalog_ids@[i as int]@);
        }
        if manual {
            skipped += 1;
        } else {
            upserted += 1;
        }
        insert.push(!manual);
        i += 1;
    }
    CatalogSyncPlan { insert, upserted, skipped }
}


/// A change to a billing rate: absent fields keep the stored value (or the
/// default); for the optional columns `Some(None)` clears the value. JSON
/// columns are given as JSON text.
#[derive(Clone, Debug)]
pub struct UpsertBillingRateInput {
    pub source: Option<String>,
    pub pricing_profile: Option<String>,
    pub model_pattern: Option<Option<String>>,
    pub provider_type: Option<Option<String>>,
    pub rate_kind: Option<String>,
    pub usage_class: Option<String>,
    pub unit: Option<String>,
    pub unit_price_nano_usd: Option<String>,
    pub context_tier: Option<Option<String>>,
    pub service_tier: Option<Option<String>>,
    pub modality: Option<Option<String>>,
    pub cache_ttl: Option<Option<String>>,
    pub match_json: Option<JsonValue>,
    pub priority: Option<i32>,
    pub enabled: Option<bool>,
    pub raw_json: Option<JsonValue>,
}

/// The columns an upsert writes.
#[derive(Debug)]
pub struct BillingRateFields {
    pub source: String,
    pub pricing_profile: String,
    pub model_pattern: Option<String>,
    pub provider_type: Option<String>,
    pub rate_kind: String,
    pub usage_class: String,
    pub unit: String,
    pub unit_price_nano_usd: String,
    pub context_tier: Option<String>,
    pub service_tier: Option<String>,
    pub modality: Option<String>,
    pub cache_ttl: Option<String>,
    pub match_json: JsonValue,
    pub priority: i32,
    pub enabled: bool,
    pub raw_json: JsonValue,
}

/// The given value, else the stored one.
pub open spec fn given_or<T>(given: Option<T>, stored: Option<T>) -> Option<T> {
    match given {
        Some(v) => Some(v),
        None => stored,
    }
}

/// The given optional column, else the stored one.
pub open spec fn given_or_stored<T>(given: Option<Option<T>>, stored: Option<T>) -> Option<T> {
    match given {
        Some(v) => v,
        None => stored,
    }
}

/// The JSON document `{}`.
pub open spec fn empty_object() -> JsonModel {
    JsonModel::Object(seq![])
}

/// The given document, else the stored one, else `{}`.
fn json_or_empty(v: Option<JsonValue>) -> (r: JsonValue)
    ensures
        r@ == (match v { Some(x) => x@, None => empty_object() }),
        v matches Some(x) ==> r == x,
{
    match v {
        Some(x) => x,
        None => {
            let r = JsonValue::Object(Vec::new());
            proof {
                assert(r@->Object_0 =~= seq![]);
            }
            r
        },
    }
}

/// An absent value as the default.
pub open spec fn or_default<T>(v: Option<T>, d: T) -> T {
    match v {
        Some(x) => x,
        None => d,
    }
}

/// What an upsert of rate `id` refuses, in the order it checks: a blank id,
/// then each required column neither given nor stored, then a price that is
/// not an integer.
pub open spec fn upsert_refusal(
    id: Seq<char>,
    input: UpsertBillingRateInput,
    existing: Option<DbBillingRateRecord>,
) -> Option<Seq<char>> {
    let ex_profile = match existing { Some(r) => Some(r.pricing_profile), None => None };
    let ex_kind = match existing { Some(r) => Some(r.rate_kind), None => None };
    let ex_class = match existing { Some(r) => Some(r.usage_class), None => None };
    let ex_unit = match existing { Some(r) => Some(r.unit), None => None };
    let ex_price = match existing { Some(r) => Some(r.unit_price_nano_usd), None => None };
    if trim(id).len() == 0 {
        Some("id must not be empty"@)
    } else if given_or(input.pricing_profile, ex_profile) is None {
        Some("pricing_profile is required"@)
    } else if given_or(input.rate_kind, ex_kind) is None {
        Some("rate_kind is required"@)
    } else if given_or(input.usage_class, ex_class) is None {
        Some("usage_class is required"@)
    } else if given_or(input.unit, ex_unit) is None {
        Some("unit is required"@)
    } else if given_or(input.unit_price_nano_usd, ex_price) is None {
        Some("unit_price_nano_usd is required"@)
    } else if parse_i128_spec(given_or(input.unit_price_nano_usd, ex_price)->0@) is None {
        Some("unit_price_nano_usd must be an integer string"@)
    } else {
        None
    }
}

/// The columns an accepted upsert writes: each given value, else the stored
/// one, else its default (source `manual`, which is never taken from the
/// stored rate; JSON `{}`; priority 0; enabled).
pub open spec fn upsert_columns(
    input: UpsertBillingRateInput,
    existing: Option<DbBillingRateRecord>,
    f: BillingRateFields,
) -> bool {
    match existing {
        Some(r) => {
            &&& f.source@ == (match input.source { Some(s) => s@, None => "manual"@ })
            &&& f.pricing_profile == or_default(input.pricing_profile, r.pricing_profile)
            &&& f.model_pattern == given_or_stored(input.model_pattern, r.model_pattern)
            &&& f.provider_type == given_or_stored(input.provider_type, r.provider_type)
            &&& f.rate_kind == or_default(input.rate_kind, r.rate_kind)
            &&& f.usage_class == or_default(input.usage_class, r.usage_class)
            &&& f.unit == or_default(input.unit, r.unit)
            &&& f.unit_price_nano_usd == or_default(input.unit_price_nano_usd, r.unit_price_nano_usd)
            &&& f.context_tier == given_or_stored(input.context_tier, r.context_tier)
            &&& f.service_tier == given_or_stored(input.service_tier, r.service_tier)
            &&& f.modality == given_or_stored(input.modality, r.modality)
            &&& f.cache_ttl == given_or_stored(input.cache_ttl, r.cache_ttl)
            &&& f.match_json == or_default(input.match_json, r.match_json)
            &&& f.priority == or_default(input.priority, r.priority)
            &&& f.enabled == or_default(input.enabled, r.enabled)
            &&& f.raw_json == or_default(input.raw_json, r.raw_json)
        },
        None => {
            &&& f.source@ == (match input.source { Some(s) => s@, None => "manual"@ })
            &&& Some(f.pricing_profile) == input.pricing_profile
            &&& f.model_pattern == or_default(input.model_pattern, None)
            &&& f.provider_type == or_default(input.provider_type, None)
            &&& Some(f.rate_kind) == input.rate_kind
            &&& Some(f.usage_class) == input.usage_class
            &&& Some(f.unit) == input.unit
            &&& Some(f.unit_price_nano_usd) == input.unit_price_nano_usd
            &&& f.context_tier == or_default(input.context_tier, None)
            &&& f.service_tier == or_default(input.service_tier, None)
            &&& f.modality == or_default(input.modality, None)
            &&& f.cache_ttl == or_default(input.cache_ttl, None)
            &&& f.match_json@ == (match input.match_json { Some(v) => v@, None => empty_object() })
            &&& f.priority == or_default(input.priority, 0i32)
            &&& f.enabled == or_default(input.enabled, true)
            &&& f.raw_json@ == (match input.raw_json { Some(v) => v@, None => empty_object() })
        },
    }
}

fn pick<T>(given: Option<T>, stored: Option<T>) -> (r: Option<T>)
    ensures
        r == given_or(given, stored),
{
    match given {
        Some(v) => Some(v),
        None => stored,
    }
}

fn pick_column<T>(given: Option<Option<T>>, stored: Option<T>) -> (r: Option<T>)
    ensures
        r == given_or_stored(given, stored),
{
    match given {
        Some(v) => v,
        None => stored,
    }
}

fn text_or(v: Option<String>, d: &str) -> (r: String)
    ensures
        r@ == (match v { Some(s) => s@, None => d@ }),
        v matches Some(s) ==> r == s,
{
    match v {
        Some(s) => s,
        None => string_of(d),
    }
}

/// The columns an upsert of rate `id` writes, from the change and the rate
/// stored under that id (if any); or the reason it is refused.
pub fn upsert_billing_rate_fields(
    id: &str,
    input: UpsertBillingRateInput,
    existing: Option<DbBillingRateRecord>,
) -> (r: Result<BillingRateFields, String>)
    ensures
        match upsert_refusal(id@, input, existing) {
            Some(m) => r matches Err(e) && e@ == m,
            None => r matches Ok(f) && upsert_columns(input, existing, f),
        },
{
    if trim_vec(&chars_of(id)).len() == 0 {
        return Err(string_of("id must not be empty"));
    }
    let (ex_profile, ex_pattern, ex_type, ex_kind, ex_class, ex_unit, ex_price, ex_context, ex_service, ex_modality, ex_ttl, ex_match, ex_priority, ex_enabled, ex_raw) = match existing {
        Some(r) => (
            Some(r.pricing_profile),
            r.model_pattern,
            r.provider_type,
            Some(r.rate_kind),
            Some(r.usage_class),
            Some(r.unit),
            Some(r.unit_price_nano_usd),
            r.context_tier,
            r.service_tier,
            r.modality,
            r.cache_ttl,
            Some(r.match_json),
            Some(r.priority),
            Some(r.enabled),
            Some(r.raw_json),
        ),
        None => (None, None, None, None, None, None, None, None, None, None, None, None, None, None, None),
    };
    let UpsertBillingRateInput {
        source,
        pricing_profile,
        model_pattern,
        provider_type,
        rate_kind,
        usage_class,
        unit,
        unit_price_nano_usd,
        context_tier,
        service_tier,
        modality,
        cache_ttl,
        match_json,
        priority,
        enabled,
        raw_json,
    } = input;
    let source = text_or(source, "manual");
    let pricing_profile = match pick(pricing_profile, ex_profile) {
        Some(v) => v,
        None => return Err(string_of("pricing_profile is required")),
    };
    let rate_kind = match pick(rate_kind, ex_kind) {
        Some(v) => v,
        None => return Err(string_of("rate_kind is required")),
    };
    let usage_class = match pick(usage_class, ex_class) {
        Some(v) => v,
        None => return Err(string_of("usage_class is required")),
    };
    let unit = match pick(unit, ex_unit) {
        Some(v) => v,
        None => return Err(string_of("unit is required")),
    };
    let unit_price_nano_usd = match pick(unit_price_nano_usd, ex_price) {
        Some(v) => v,
        None => return Err(string_of("unit_price_nano_usd is required")),
    };
    if parse_i128(unit_price_nano_usd.as_str()).is_none() {
        return Err(string_of("unit_price_nano_usd must be an integer string"));
    }
    let match_json = json_or_empty(pick(match_json, ex_match));
    let raw_json = json_or_empty(pick(raw_json, ex_raw));
    let priority = match pick(priority, ex_priority) {
        Some(p) => p,
        None => 0,
    };
    let enabled = match pick(enabled, ex_enabled) {
        Some(e) => e,
        None => true,
    };
    Ok(BillingRateFields {
        source,
        pricing_profile,
        model_pattern: pick_column(model_pattern, ex_pattern),
        provider_type: pick_column(provider_type, ex_type),
        rate_kind,
        usage_class,
        unit,
        unit_price_nano_usd,
        context_tier: pick_column(context_tier, ex_context),
        service_tier: pick_column(service_tier, ex_service),
        modality: pick_column(modality, ex_modality),
        cache_ttl: pick_column(cache_ttl, ex_ttl),
        match_json,
        priority,
        enabled,
        raw_json,
    })
}

} // verus!
