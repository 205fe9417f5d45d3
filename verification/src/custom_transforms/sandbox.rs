//! Limits and decisions of the script sandbox that runs custom transforms:
//! the resource limits and their configuration, what a finished invocation's
//! outcome means, and the level of a script's console message.
use vstd::prelude::*;
use crate::decimal::{parse_u64, parse_u64_spec, parse_usize, parse_usize_spec};
use crate::text::{chars_of, eq_lit, push_lit, string_from_chars, string_of, trim, trim_vec};
use crate::json::{array_in, get, is_object, opt_model, str_in, JsonModel, JsonValue};

verus! {

/// The resources one invocation may use.
#[derive(Clone, Copy, Debug, PartialEq, Eq, Structural)]
pub struct SandboxLimits {
    pub memory_limit_bytes: usize,
    pub stack_limit_bytes: usize,
    pub timeout_ms: u64,
    pub fetch_max_bytes: usize,
    pub fetch_max_calls: u32,
}

/// The limits used where none are configured: 32 MiB of memory, 1 MiB of
/// stack, 10 seconds, 8 MiB per fetched body and 16 fetches.
pub open spec fn default_limits() -> SandboxLimits {
    SandboxLimits {
        memory_limit_bytes: 33554432,
        stack_limit_bytes: 1048576,
        timeout_ms: 10000,
        fetch_max_bytes: 8388608,
        fetch_max_calls: 16,
    }
}

impl Default for SandboxLimits {
    fn default() -> (r: Self)
        ensures
            r == default_limits(),
    {
        SandboxLimits {
            memory_limit_bytes: 33554432,
            stack_limit_bytes: 1048576,
            timeout_ms: 10000,
            fetch_max_bytes: 8388608,
            fetch_max_calls: 16,
        }
    }
}

/// The configured texts of the sandbox limits, each as the environment gave
/// it, if at all.
#[derive(Clone, Debug)]
pub struct SandboxEnv {
    pub memory_limit_bytes: Option<String>,
    pub stack_limit_bytes: Option<String>,
    pub timeout_ms: Option<String>,
    pub fetch_max_bytes: Option<String>,
    pub fetch_max_calls: Option<String>,
}

/// A configured size: the trimmed text read as a positive `usize`, else the
/// default.
pub open spec fn configured_usize(raw: Option<String>, default: usize) -> usize {
    match raw {
        Some(s) => match parse_usize_spec(trim(s@)) {
            Some(v) => if v > 0 {
                v
            } else {
                default
            },
            None => default,
        },
        None => default,
    }
}

/// A configured count: the trimmed text read as a positive `u64`, else the
/// default.
pub open spec fn configured_u64(raw: Option<String>, default: u64) -> u64 {
    match raw {
        Some(s) => match parse_u64_spec(trim(s@)) {
            Some(v) => if v > 0 {
                v
            } else {
                default
            },
            None => default,
        },
        None => default,
    }
}

fn env_usize(raw: &Option<String>, default: usize) -> (r: usize)
    ensures
        r == configured_usize(*raw, default),
{
    match raw {
        Some(s) => {
            let t = string_from_chars(&trim_vec(&chars_of(s.as_str())));
            match parse_usize(t.as_str()) {
                Some(v) => if v > 0 {
                    v
                } else {
                    default
                },
                None => default,
            }
        },
        None => default,
    }
}

fn env_u64(raw: &Option<String>, default: u64) -> (r: u64)
    ensures
        r == configured_u64(*raw, default),
{
    match raw {
        Some(s) => {
            let t = string_from_chars(&trim_vec(&chars_of(s.as_str())));
            match parse_u64(t.as_str()) {
                Some(v) => if v > 0 {
                    v
                } else {
                    default
                },
                None => default,
            }
        },
        None => default,
    }
}

impl SandboxLimits {
    /// The limits as configured: each value that reads as a positive number
    /// replaces its default; the fetch count keeps the low 32 bits of the
    /// number read.
    pub fn from_env(env: &SandboxEnv) -> (r: Self)
        ensures
            r.memory_limit_bytes == configured_usize(env.memory_limit_bytes, 33554432),
            r.stack_limit_bytes == configured_usize(env.stack_limit_bytes, 1048576),
            r.timeout_ms == configured_u64(env.timeout_ms, 10000),
            r.fetch_max_bytes == configured_usize(env.fetch_max_bytes, 8388608),
            r.fetch_max_calls == configured_u64(env.fetch_max_calls, 16) as u32,
    {
        let defaults = SandboxLimits::default();
        SandboxLimits {
            memory_limit_bytes: env_usize(&env.memory_limit_bytes, defaults.memory_limit_bytes),
            stack_limit_bytes: env_usize(&env.stack_limit_bytes, defaults.stack_limit_bytes),
            timeout_ms: env_u64(&env.timeout_ms, defaults.timeout_ms),
            fetch_max_bytes: env_usize(&env.fetch_max_bytes, defaults.fetch_max_bytes),
            fetch_max_calls: env_u64(&env.fetch_max_calls, defaults.fetch_max_calls as u64) as u32,
        }
    }
}

/// What a successful invocation did with its payload.
#[derive(Clone, Copy, Debug, PartialEq, Eq, Structural)]
pub enum SandboxDataKind {
    /// One object replaces the payload.
    Single,
    /// A stream event is dropped.
    Dropped,
    /// A stream event becomes several objects.
    Fanout,
}

/// The meaning of an invocation's outcome, given the invocation `kind`
/// (`request`, `response` or `stream`), the outcome tag, the reported type
/// name, whether the returned data is an object (absent: no data), and
/// whether every fanned-out item is an object (absent: no item list).
pub open spec fn outcome_meaning(
    kind: Seq<char>,
    tag: Seq<char>,
    reported_type: Option<Seq<char>>,
    data_is_object: Option<bool>,
    items_all_objects: Option<bool>,
) -> Result<SandboxDataKind, Seq<char>> {
    if tag == "data"@ {
        match data_is_object {
            None => Err("sandbox outcome is missing 'data'"@),
            Some(false) => Err("transform result payload must be an object"@),
            Some(true) => Ok(SandboxDataKind::Single),
        }
    } else if kind == "stream"@ && tag == "null"@ {
        Ok(SandboxDataKind::Dropped)
    } else if kind == "stream"@ && tag == "array"@ {
        match items_all_objects {
            None => Err("sandbox outcome is missing 'items'"@),
            Some(false) => Err("every element of a stream fan-out array must be an object"@),
            Some(true) => Ok(SandboxDataKind::Fanout),
        }
    } else if tag == "null"@ {
        Err("transform returned null; a "@ + kind + " transform must return undefined or an object"@)
    } else if tag == "array"@ {
        Err("transform returned an array; a "@ + kind + " transform must return undefined or an object"@)
    } else {
        Err("transform returned a value of type '"@ + (match reported_type {
            Some(t) => t,
            None => tag,
        }) + "'; expected undefined or an object"@)
    }
}

/// What an invocation's outcome means, or why it is refused.
pub fn classify_outcome(
    kind: &str,
    tag: &str,
    reported_type: Option<&str>,
    data_is_object: Option<bool>,
    items_all_objects: Option<bool>,
) -> (r: Result<SandboxDataKind, String>)
    ensures
        match outcome_meaning(
            kind@,
            tag@,
            match reported_type {
                Some(t) => Some(t@),
                None => None,
            },
            data_is_object,
            items_all_objects,
        ) {
            Ok(d) => r == Ok::<SandboxDataKind, String>(d),
            Err(m) => r matches Err(e) && e@ == m,
        },
{
    let t = chars_of(tag);
    let k = chars_of(kind);
    if eq_lit(&t, "data") {
        return match data_is_object {
            None => Err(string_of("sandbox outcome is missing 'data'")),
            Some(false) => Err(string_of("transform result payload must be an object")),
            Some(true) => Ok(SandboxDataKind::Single),
        };
    }
    let is_stream = eq_lit(&k, "stream");
    if is_stream && eq_lit(&t, "null") {
        return Ok(SandboxDataKind::Dropped);
    }
    if is_stream && eq_lit(&t, "array") {
        return match items_all_objects {
            None => Err(string_of("sandbox outcome is missing 'items'")),
            Some(false) => Err(string_of("every element of a stream fan-out array must be an object")),
            Some(true) => Ok(SandboxDataKind::Fanout),
        };
    }
    if eq_lit(&t, "null") {
        let mut m = string_of("transform returned null; a ");
        push_lit(&mut m, kind);
        push_lit(&mut m, " transform must return undefined or an object");
        return Err(m);
    }
    if eq_lit(&t, "array") {
        let mut m = string_of("transform returned an array; a ");
        push_lit(&mut m, kind);
        push_lit(&mut m, " transform must return undefined or an object");
        return Err(m);
    }
    let mut m = string_of("transform returned a value of type '");
    match reported_type {
        Some(name) => push_lit(&mut m, name),
        None => push_lit(&mut m, tag),
    }
    push_lit(&mut m, "'; expected undefined or an object");
    Err(m)
}

/// The level a script's console message is logged at.
#[derive(Clone, Copy, Debug, PartialEq, Eq, Structural)]
pub enum ConsoleLogLevel {
    Info,
    Warn,
    Error,
}

/// `warn` and `error` keep their level; every other console level logs as
/// information.
pub fn console_log_level(level: &str) -> (r: ConsoleLogLevel)
    ensures
        r == (if level@ == "warn"@ {
            ConsoleLogLevel::Warn
        } else if level@ == "error"@ {
            ConsoleLogLevel::Error
        } else {
            ConsoleLogLevel::Info
        }),
{
    let v = chars_of(level);
    if eq_lit(&v, "warn") {
        ConsoleLogLevel::Warn
    } else if eq_lit(&v, "error") {
        ConsoleLogLevel::Error
    } else {
        ConsoleLogLevel::Info
    }
}

/// What a successful invocation hands back.
#[derive(Debug)]
pub enum OutcomeData {
    /// One object replaces the payload.
    Single(JsonValue),
    /// A stream event is dropped.
    Dropped,
    /// A stream event becomes these objects.
    Fanout(Vec<JsonValue>),
}

/// The content of an [`OutcomeData`].
pub enum OutcomeDataModel {
    Single(JsonModel),
    Dropped,
    Fanout(Seq<JsonModel>),
}

impl View for OutcomeData {
    type V = OutcomeDataModel;

    open spec fn view(&self) -> OutcomeDataModel {
        match self {
            OutcomeData::Single(v) => OutcomeDataModel::Single(v@),
            OutcomeData::Dropped => OutcomeDataModel::Dropped,
            OutcomeData::Fanout(items) => OutcomeDataModel::Fanout(Seq::new(items.len() as nat, |i: int| items@[i]@)),
        }
    }
}

/// Whether every item is an object.
pub open spec fn all_objects(items: Seq<JsonModel>) -> bool {
    forall|i: int| 0 <= i < items.len() ==> is_object(#[trigger] items[i])
}

/// What an invocation of `kind` produced, read from its outcome document:
/// the script's final `state` (`{}` when absent) and, from the required
/// `out` member, the tag `t` (`invalid` when absent), the returned `data`,
/// the fanned-out `items` and the reported `type`, which
/// [`outcome_meaning`] judges.
pub open spec fn document_outcome(kind: Seq<char>, doc: JsonModel) -> Result<(OutcomeDataModel, JsonModel), Seq<char>> {
    let state = match get(doc, "state"@) {
        Some(s) => s,
        None => JsonModel::Object(seq![]),
    };
    match get(doc, "out"@) {
        None => Err("sandbox outcome is missing 'out'"@),
        Some(out) => {
            let tag = match str_in(get(out, "t"@)) {
                Some(t) => t,
                None => "invalid"@,
            };
            let data = get(out, "data"@);
            let items = array_in(get(out, "items"@));
            let meaning = outcome_meaning(
                kind,
                tag,
                str_in(get(out, "type"@)),
                match data {
                    Some(d) => Some(is_object(d)),
                    None => None,
                },
                match items {
                    Some(l) => Some(all_objects(l)),
                    None => None,
                },
            );
            match meaning {
                Err(m) => Err(m),
                Ok(SandboxDataKind::Single) => Ok((
                    OutcomeDataModel::Single(match data {
                        Some(d) => d,
                        None => JsonModel::Null,
                    }),
                    state,
                )),
                Ok(SandboxDataKind::Dropped) => Ok((OutcomeDataModel::Dropped, state)),
                Ok(SandboxDataKind::Fanout) => Ok((
                    OutcomeDataModel::Fanout(match items {
                        Some(l) => l,
                        None => seq![],
                    }),
                    state,
                )),
            }
        },
    }
}

fn copy_opt(v: Option<&JsonValue>) -> (r: Option<JsonValue>)
    ensures
        match r {
            Some(x) => opt_model(v) == Some(x@),
            None => v is None,
        },
{
    match v {
        Some(x) => Some(x.deep_clone()),
        None => None,
    }
}

/// Reads the outcome document of an invocation of `kind` (see
/// [`document_outcome`]): the data and the final state, or why the outcome
/// is refused.
pub fn read_outcome(kind: &str, doc: &JsonValue) -> (r: Result<(OutcomeData, JsonValue), String>)
    ensures
        match document_outcome(kind@, doc@) {
            Ok((d, st)) => r matches Ok((rd, rs)) && rd@ == d && rs@ == st,
            Err(m) => r matches Err(e) && e@ == m,
        },
{
    proof {
        reveal_strlit("state");
        reveal_strlit("out");
        reveal_strlit("t");
        reveal_strlit("data");
        reveal_strlit("items");
        reveal_strlit("type");
        reveal_strlit("invalid");
    }
    let state = match doc.get("state") {
        Some(s) => s.deep_clone(),
        None => {
            let e = JsonValue::Object(Vec::new());
            proof {
                assert(e@->Object_0 =~= seq![]);
            }
            e
        },
    };
    let out = match doc.get("out") {
        Some(o) => o,
        None => {
            return Err(string_of("sandbox outcome is missing 'out'"));
        },
    };
    let tag: &str = match out.get("t") {
        Some(t) => match t.as_str() {
            Some(s) => s,
            None => "invalid",
        },
        None => "invalid",
    };
    let reported: Option<&str> = match out.get("type") {
        Some(t) => t.as_str(),
        None => None,
    };
    let data = out.get("data");
    let data_is_object: Option<bool> = match data {
        Some(d) => Some(d.is_object()),
        None => None,
    };
    let items: Option<&Vec<JsonValue>> = match out.get("items") {
        Some(l) => l.as_array(),
        None => None,
    };
    let ghost items_m = array_in(get(out@, "items"@));
    let mut items_all: Option<bool> = None;
    let mut copied: Vec<JsonValue> = Vec::new();
    match items {
        Some(list) => {
            let ghost lm = Seq::new(list.len() as nat, |i: int| list@[i]@);
            let mut all = true;
            let mut i: usize = 0;
            while i < list.len()
                invariant
                    i <= list@.len(),
                    lm == Seq::new(list.len() as nat, |i: int| list@[i]@),
                    all == (forall|j: int| 0 <= j < i ==> is_object(#[trigger] lm[j])),
                    copied@.len() == i,
                    forall|j: int| 0 <= j < i ==> #[trigger] copied@[j]@ == lm[j],
                decreases list@.len() - i,
            {
                let ghost old_all = all;
                let obj = list[i].is_object();
                proof {
                    assert(lm[i as int] == list@[i as int]@);
                }
                if !obj {
                    all = false;
                }
                copied.push(list[i].deep_clone());
                proof {
                    assert(forall|j: int| 0 <= j < i ==> copied@[j]@ == lm[j]);
                    if all {
                        assert forall|j: int| 0 <= j < i + 1 implies is_object(#[trigger] lm[j]) by {
                            if j < i {
                                assert(old_all);
                            }
                        }
                    } else if obj {
                        assert(!old_all);
                        let w = choose|j: int| 0 <= j < i && !is_object(#[trigger] lm[j]);
                        assert(!is_object(lm[w]));
                    }
                }
                i += 1;
            }
            items_all = Some(all);
            proof {
                assert(Seq::new(copied.len() as nat, |j: int| copied@[j]@) =~= lm);
            }
        },
        None => {},
    }
    match classify_outcome(kind, tag, reported, data_is_object, items_all) {
        Err(e) => Err(e),
        Ok(SandboxDataKind::Single) => {
            let d = match copy_opt(data) {
                Some(x) => x,
                None => JsonValue::Null,
            };
            Ok((OutcomeData::Single(d), state))
        },
        Ok(SandboxDataKind::Dropped) => Ok((OutcomeData::Dropped, state)),
        Ok(SandboxDataKind::Fanout) => {
            proof {
                if items is None {
                    assert(Seq::new(copied.len() as nat, |j: int| copied@[j]@) =~= Seq::<JsonModel>::empty());
                }
            }
            Ok((OutcomeData::Fanout(copied), state))
        },
    }
}

} // verus!
