//! Application-level computations: nano-precision multiplier scaling, price
//! text, and the runtime configuration drawn from the environment's values.
use crate::decimal::{parse_i128, parse_i128_chars, parse_i128_spec};
use crate::text::{chars_of, split_from, split_vec, string_of, trim, trim_vec};
use vstd::prelude::*;

verus! {

/// Nano units per whole unit.
pub const NANO_SCALE: i128 = 1_000_000_000;

/// Integer division rounding toward zero, as Rust's `/` does, for `d > 0`.
pub open spec fn trunc_div(x: int, d: int) -> int {
    if x >= 0 {
        x / d
    } else {
        -((-x) / d)
    }
}

/// The value lies in the `i128` range.
pub open spec fn fits_i128(x: int) -> bool {
    i128::MIN <= x <= i128::MAX
}

/// The first nine characters of `s`, right-padded with `0` to nine.
pub open spec fn nine_digit_fraction(s: Seq<char>) -> Seq<char> {
    Seq::new(9, |i: int| if i < s.len() { s[i] } else { '0' })
}

/// The multiplier, in nano units, written by `repr` (a decimal rendering
/// such as `1.234567891000000000`): the whole part times 10^9 plus the first
/// nine fraction digits.
pub open spec fn multiplier_nano_spec(repr: Seq<char>) -> Option<int> {
    let pieces = split_from(repr, '.', 0);
    let whole = pieces[0];
    let frac = if pieces.len() > 1 {
        pieces[1]
    } else {
        seq!['0']
    };
    match (parse_i128_spec(whole), parse_i128_spec(nine_digit_fraction(frac))) {
        (Some(w), Some(f)) => if fits_i128(w * 1_000_000_000) && fits_i128(
            w * 1_000_000_000 + f,
        ) {
            Some(w * 1_000_000_000 + f)
        } else {
            None
        },
        _ => None,
    }
}

/// `base_nano` scaled by the multiplier written by `repr`, quantized to nano
/// precision and rounded toward zero.
pub open spec fn scaled_charge_spec(base_nano: int, repr: Seq<char>) -> Option<int> {
    match multiplier_nano_spec(repr) {
        Some(m) => if fits_i128(base_nano * m) {
            Some(trunc_div(base_nano * m, 1_000_000_000))
        } else {
            None
        },
        None => None,
    }
}

/// The multiplier in nano units written by `repr`.
pub fn multiplier_nano(repr: &str) -> (r: Option<i128>)
    ensures
        match r {
            Some(m) => multiplier_nano_spec(repr@) == Some(m as int),
            None => multiplier_nano_spec(repr@) is None,
        },
{
    let v = chars_of(repr);
    let pieces = split_vec(&v, '.');
    assert(pieces@[0]@ == split_from(repr@, '.', 0)[0]);
    let zero: Vec<char> = vec!['0'];
    assert(zero@ =~= seq!['0']);
    let frac_src: &Vec<char> = if pieces.len() > 1 {
        assert(pieces@[1]@ == split_from(repr@, '.', 0)[1]);
        &pieces[1]
    } else {
        &zero
    };
    let mut frac9: Vec<char> = Vec::new();
    let mut i: usize = 0;
    while i < 9
        invariant
            i <= 9,
            frac9@.len() == i,
            forall|t: int| 0 <= t < i ==> frac9@[t] == nine_digit_fraction(frac_src@)[t],
        decreases 9 - i,
    {
        if i < frac_src.len() {
            frac9.push(frac_src[i]);
        } else {
            frac9.push('0');
        }
        i += 1;
    }
    assert(frac9@ =~= nine_digit_fraction(frac_src@));
    let whole = match parse_i128_chars(&pieces[0]) {
        Some(w) => w,
        None => return None,
    };
    let frac = match parse_i128_chars(&frac9) {
        Some(f) => f,
        None => return None,
    };
    match whole.checked_mul(NANO_SCALE) {
        Some(w) => w.checked_add(frac),
        None => None,
    }
}

/// `base_nano` scaled by the multiplier written by `repr` (the 18-digit
/// decimal rendering of the multiplier), quantized to nano precision.
pub fn scale_charge_with_multiplier(base_nano: i128, repr: &str) -> (r: Option<i128>)
    ensures
        match r {
            Some(x) => scaled_charge_spec(base_nano as int, repr@) == Some(x as int),
            None => scaled_charge_spec(base_nano as int, repr@) is None,
        },
{
    let m = match multiplier_nano(repr) {
        Some(m) => m,
        None => return None,
    };
    match base_nano.checked_mul(m) {
        Some(p) => p.checked_div(NANO_SCALE),
        None => None,
    }
}

/// A price in nano-USD read from optional text.
pub fn parse_pricing_i128(raw: Option<String>) -> (r: Option<i128>)
    ensures
        r == (match raw {
            Some(s) => parse_i128_spec(s@),
            None => None,
        }),
{
    match raw {
        Some(v) => parse_i128(v.as_str()),
        None => None,
    }
}


/// Where the service listens, where it serves metrics, and which database
/// it uses.
#[derive(Clone, Debug)]
pub struct RuntimeConfig {
    pub listen: String,
    pub metrics_path: String,
    pub database_dsn: String,
}

/// The configured texts of the runtime settings, as the environment gave
/// them, if at all.
#[derive(Clone, Debug)]
pub struct RuntimeEnv {
    pub listen: Option<String>,
    pub metrics_path: Option<String>,
    pub database_dsn: Option<String>,
    pub database_url: Option<String>,
}

/// A configured text that is not blank (kept untrimmed).
pub open spec fn present(v: Option<String>) -> Option<Seq<char>> {
    match v {
        Some(s) => if trim(s@).len() > 0 {
            Some(s@)
        } else {
            None
        },
        None => None,
    }
}

fn take_present(v: Option<String>) -> (r: Option<String>)
    ensures
        match r {
            Some(s) => present(v) == Some(s@),
            None => present(v) is None,
        },
{
    match v {
        Some(s) => {
            let t = trim_vec(&chars_of(s.as_str()));
            if t.len() > 0 {
                Some(s)
            } else {
                None
            }
        },
        None => None,
    }
}

/// The database a configuration names: `MONOIZE_DATABASE_DSN`, else
/// `DATABASE_URL`, else the local SQLite file `./data/monoize.db`; blank
/// values count as absent.
pub open spec fn configured_dsn(env: RuntimeEnv) -> Seq<char> {
    match present(env.database_dsn) {
        Some(d) => d,
        None => match present(env.database_url) {
            Some(u) => u,
            None => "sqlite://./data/monoize.db"@,
        },
    }
}

impl RuntimeConfig {
    /// The runtime settings from their configured texts: a blank or absent
    /// value takes its default (`0.0.0.0:8080`, `/metrics`, and the database
    /// as `configured_dsn` says).
    pub fn from_env(env: RuntimeEnv) -> (r: Self)
        ensures
            r.listen@ == (match present(env.listen) {
                Some(l) => l,
                None => "0.0.0.0:8080"@,
            }),
            r.metrics_path@ == (match present(env.metrics_path) {
                Some(m) => m,
                None => "/metrics"@,
            }),
            r.database_dsn@ == configured_dsn(env),
    {
        let ghost e = env;
        let RuntimeEnv { listen, metrics_path, database_dsn, database_url } = env;
        let listen = match take_present(listen) {
            Some(l) => l,
            None => string_of("0.0.0.0:8080"),
        };
        let metrics_path = match take_present(metrics_path) {
            Some(m) => m,
            None => string_of("/metrics"),
        };
        let database_dsn = match take_present(database_dsn) {
            Some(d) => d,
            None => match take_present(database_url) {
                Some(u) => u,
                None => string_of("sqlite://./data/monoize.db"),
            },
        };
        RuntimeConfig { listen, metrics_path, database_dsn }
    }
}


/// A multiplier of exactly one leaves a charge as it is.
pub proof fn law_unit_multiplier_keeps_charge(base_nano: int, repr: Seq<char>)
    requires
        multiplier_nano_spec(repr) == Some(1_000_000_000int),
        fits_i128(base_nano * 1_000_000_000),
    ensures
        scaled_charge_spec(base_nano, repr) == Some(base_nano),
{
    if base_nano >= 0 {
        assert((base_nano * 1_000_000_000) / 1_000_000_000 == base_nano) by (nonlinear_arith);
    } else {
        assert((-(base_nano * 1_000_000_000)) / 1_000_000_000 == -base_nano) by (nonlinear_arith);
    }
}

/// For a non-negative base, a larger multiplier never gives a smaller
/// charge, and no charge is negative.
pub proof fn law_charge_monotone_in_multiplier(base_nano: int, repr1: Seq<char>, repr2: Seq<char>)
    requires
        base_nano >= 0,
        multiplier_nano_spec(repr1) matches Some(m1) && m1 >= 0,
        multiplier_nano_spec(repr2) matches Some(m2) && m2 >= multiplier_nano_spec(repr1)->0,
        scaled_charge_spec(base_nano, repr1) is Some,
        scaled_charge_spec(base_nano, repr2) is Some,
    ensures
        0 <= scaled_charge_spec(base_nano, repr1)->0 <= scaled_charge_spec(base_nano, repr2)->0,
{
    let m1 = multiplier_nano_spec(repr1)->0;
    let m2 = multiplier_nano_spec(repr2)->0;
    assert(0 <= base_nano * m1 <= base_nano * m2) by (nonlinear_arith)
        requires
            base_nano >= 0,
            0 <= m1 <= m2,
    ;
    assert((base_nano * m1) / 1_000_000_000 <= (base_nano * m2) / 1_000_000_000) by (nonlinear_arith)
        requires
            0 <= base_nano * m1 <= base_nano * m2,
    ;
    assert(0 <= (base_nano * m1) / 1_000_000_000) by (nonlinear_arith)
        requires
            0 <= base_nano * m1,
    ;
}

/// The integer channel-health settings the runtime runs with (the failure
/// rate threshold, a float, is clamped to 0.01..=1 by the application).
#[derive(Clone, Copy, Debug, PartialEq, Eq, Structural)]
pub struct HealthSettings {
    pub passive_failure_threshold: u32,
    pub passive_cooldown_seconds: u64,
    pub passive_window_seconds: u64,
    pub passive_min_samples: u32,
    pub passive_rate_limit_cooldown_seconds: u64,
    pub active_enabled: bool,
    pub active_interval_seconds: u64,
    pub active_success_threshold: u32,
    pub request_timeout_ms: u64,
}

/// `v`, raised to at least 1.
pub open spec fn at_least_one(v: int) -> int {
    if v < 1 {
        1
    } else {
        v
    }
}

fn one_or_more_u32(v: u32) -> (r: u32)
    ensures
        r == at_least_one(v as int),
{
    if v < 1 {
        1
    } else {
        v
    }
}

fn one_or_more_u64(v: u64) -> (r: u64)
    ensures
        r == at_least_one(v as int),
{
    if v < 1 {
        1
    } else {
        v
    }
}

/// The settings the runtime takes from the stored ones: every count,
/// duration and timeout raised to at least 1; whether active probing is on
/// is kept.
pub fn runtime_health_settings(stored: &HealthSettings) -> (r: HealthSettings)
    ensures
        r.passive_failure_threshold == at_least_one(stored.passive_failure_threshold as int),
        r.passive_cooldown_seconds == at_least_one(stored.passive_cooldown_seconds as int),
        r.passive_window_seconds == at_least_one(stored.passive_window_seconds as int),
        r.passive_min_samples == at_least_one(stored.passive_min_samples as int),
        r.passive_rate_limit_cooldown_seconds == at_least_one(stored.passive_rate_limit_cooldown_seconds as int),
        r.active_enabled == stored.active_enabled,
        r.active_interval_seconds == at_least_one(stored.active_interval_seconds as int),
        r.active_success_threshold == at_least_one(stored.active_success_threshold as int),
        r.request_timeout_ms == at_least_one(stored.request_timeout_ms as int),
{
    HealthSettings {
        passive_failure_threshold: one_or_more_u32(stored.passive_failure_threshold),
        passive_cooldown_seconds: one_or_more_u64(stored.passive_cooldown_seconds),
        passive_window_seconds: one_or_more_u64(stored.passive_window_seconds),
        passive_min_samples: one_or_more_u32(stored.passive_min_samples),
        passive_rate_limit_cooldown_seconds: one_or_more_u64(stored.passive_rate_limit_cooldown_seconds),
        active_enabled: stored.active_enabled,
        active_interval_seconds: one_or_more_u64(stored.active_interval_seconds),
        active_success_threshold: one_or_more_u32(stored.active_success_threshold),
        request_timeout_ms: one_or_more_u64(stored.request_timeout_ms),
    }
}

/// Whether a provider's channels are probed: its own setting, else the
/// runtime's.
pub fn effective_probe_enabled(provider_override: Option<bool>, runtime_enabled: bool) -> (r: bool)
    ensures
        r == (match provider_override {
            Some(v) => v,
            None => runtime_enabled,
        }),
{
    match provider_override {
        Some(v) => v,
        None => runtime_enabled,
    }
}

} // verus!
