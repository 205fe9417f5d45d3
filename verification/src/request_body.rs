//! Splitting a downstream request body into the members the unified request
//! understands and the rest, under the configured policy for unknown
//! members, and merging them back before decoding.
use crate::config::UnknownFieldPolicy;
use crate::error::{app_error, AppError, STATUS_BAD_REQUEST};
use crate::forwarding::DownstreamProtocol;
use crate::json::{insert_member, key_index_from, lookup, lookup_from, map_insert, members_model, JsonModel, JsonValue};
use crate::text::string_of;
use vstd::prelude::*;

verus! {

/// The names of `keys`.
pub open spec fn key_names(keys: Seq<&str>) -> Seq<Seq<char>> {
    keys.map_values(|k: &str| k@)
}

/// The members of `ms` whose name is among `names` (when `known`), or not
/// among them (when not), in their order.
pub open spec fn members_where(ms: Seq<(Seq<char>, JsonModel)>, names: Seq<Seq<char>>, known: bool) -> Seq<
    (Seq<char>, JsonModel),
>
    decreases ms.len(),
{
    if ms.len() == 0 {
        Seq::empty()
    } else {
        let rest = members_where(ms.drop_last(), names, known);
        if names.contains(ms.last().0) == known {
            rest.push(ms.last())
        } else {
            rest
        }
    }
}

/// What splitting a body gives: an error for a body that is no object, or
/// for unknown members under the rejecting policy; otherwise the known
/// members as an object and the unknown ones, which the ignoring policy
/// drops.
pub open spec fn split_spec(policy: UnknownFieldPolicy, body: JsonModel, names: Seq<Seq<char>>) -> Result<
    (JsonModel, Seq<(Seq<char>, JsonModel)>),
    Seq<char>,
> {
    match body {
        JsonModel::Object(ms) => {
            let known = members_where(ms, names, true);
            let extra = members_where(ms, names, false);
            if extra.len() > 0 && policy == UnknownFieldPolicy::Reject {
                Err("unknown_field"@)
            } else if policy == UnknownFieldPolicy::Ignore {
                Ok((JsonModel::Object(known), Seq::empty()))
            } else {
                Ok((JsonModel::Object(known), extra))
            }
        },
        _ => Err("invalid_request"@),
    }
}

/// Whether `name` is one of `keys`.
fn is_known_key(keys: &[&str], name: &String) -> (r: bool)
    ensures
        r == key_names(keys@).contains(name@),
{
    let mut i: usize = 0;
    while i < keys.len()
        invariant
            i <= keys@.len(),
            forall|j: int| 0 <= j < i ==> keys@[j]@ != name@,
        decreases keys@.len() - i,
    {
        let k = string_of(keys[i]);
        if *name == k {
            proof {
                assert(key_names(keys@)[i as int] == name@);
            }
            return true;
        }
        i += 1;
    }
    proof {
        assert forall|j: int| 0 <= j < key_names(keys@).len() implies key_names(keys@)[j] != name@ by {
            assert(key_names(keys@)[j] == keys@[j]@);
        }
    }
    false
}

/// Splits a request body into the members named in `known_keys` and the
/// others, as [`split_spec`] says. Errors are 400s: `invalid_request` for a
/// body that is no object, `unknown_field` for unknown members the policy
/// rejects.
pub fn split_body(policy: UnknownFieldPolicy, value: &JsonValue, known_keys: &[&str]) -> (r: Result<
    (JsonValue, Vec<(String, JsonValue)>),
    AppError,
>)
    ensures
        match (r, split_spec(policy, value@, key_names(known_keys@))) {
            (Ok((known, extra)), Ok((k, x))) => known@ == k && members_model(extra@) == x,
            (Err(e), Err(code)) => e.status == STATUS_BAD_REQUEST && e.code@ == code,
            _ => false,
        },
{
    let members = match value {
        JsonValue::Object(ms) => ms,
        _ => {
            proof {
                reveal_strlit("invalid_request");
            }
            return Err(app_error(STATUS_BAD_REQUEST, "invalid_request", "body must be object"));
        },
    };
    let ghost ms = members_model(members@);
    proof {
        let ghost vm = match value@ {
            JsonModel::Object(m) => m,
            _ => Seq::empty(),
        };
        assert(vm =~= ms);
        assert(value@ == JsonModel::Object(ms));
    }
    let ghost names = key_names(known_keys@);
    let mut known: Vec<(String, JsonValue)> = Vec::new();
    let mut extra: Vec<(String, JsonValue)> = Vec::new();
    let mut i: usize = 0;
    while i < members.len()
        invariant
            i <= members@.len(),
            ms == members_model(members@),
            names == key_names(known_keys@),
            members_model(known@) == members_where(ms.take(i as int), names, true),
            members_model(extra@) == members_where(ms.take(i as int), names, false),
        decreases members@.len() - i,
    {
        let name = &members[i].0;
        let v = members[i].1.deep_clone();
        let ghost vm = v@;
        proof {
            assert(ms.take(i + 1).drop_last() =~= ms.take(i as int));
            assert(ms.take(i + 1).last() == (name@, vm));
        }
        if is_known_key(known_keys, name) {
            known.push((name.clone(), v));
        } else {
            extra.push((name.clone(), v));
        }
        i += 1;
        proof {
            assert(members_model(known@) =~= members_where(ms.take(i as int), names, true));
            assert(members_model(extra@) =~= members_where(ms.take(i as int), names, false));
        }
    }
    proof {
        assert(ms.take(members@.len() as int) =~= ms);
    }
    if extra.len() > 0 {
        match policy {
            UnknownFieldPolicy::Reject => {
                proof {
                    reveal_strlit("unknown_field");
                }
                return Err(app_error(STATUS_BAD_REQUEST, "unknown_field", "unknown fields present"));
            },
            UnknownFieldPolicy::Ignore => {
                extra = Vec::new();
                proof {
                    assert(members_model(extra@) =~= Seq::empty());
                }
            },
            UnknownFieldPolicy::Preserve => {},
        }
    }
    let ghost km = members_model(known@);
    let obj = JsonValue::Object(known);
    proof {
        let ghost om = match obj@ {
            JsonModel::Object(m) => m,
            _ => Seq::empty(),
        };
        assert(om =~= km);
    }
    Ok((obj, extra))
}

/// The members of `entries` after inserting each member of `extra` in turn;
/// a later member replaces an earlier one of the same name.
pub open spec fn insert_all(entries: Seq<(Seq<char>, JsonModel)>, extra: Seq<(Seq<char>, JsonModel)>) -> Seq<
    (Seq<char>, JsonModel),
>
    decreases extra.len(),
{
    if extra.len() == 0 {
        entries
    } else {
        map_insert(insert_all(entries, extra.drop_last()), extra.last().0, extra.last().1)
    }
}

/// The members of `v` when it is an object; none otherwise.
pub open spec fn object_members(v: JsonModel) -> Seq<(Seq<char>, JsonModel)> {
    match v {
        JsonModel::Object(ms) => ms,
        _ => Seq::empty(),
    }
}

/// The body the unified request is decoded from: the known members (none
/// when they are not an object) with each extra member inserted in turn.
pub fn merge_known_and_extra(known: JsonValue, extra: Vec<(String, JsonValue)>) -> (r: JsonValue)
    ensures
        r@ == JsonModel::Object(insert_all(object_members(known@), members_model(extra@))),
{
    let ghost xm = members_model(extra@);
    let mut obj: Vec<(String, JsonValue)> = match known {
        JsonValue::Object(ms) => ms,
        _ => Vec::new(),
    };
    proof {
        assert(members_model(obj@) =~= object_members(known@));
    }
    let mut i: usize = 0;
    while i < extra.len()
        invariant
            i <= extra@.len(),
            xm == members_model(extra@),
            members_model(obj@) == insert_all(object_members(known@), xm.take(i as int)),
        decreases extra@.len() - i,
    {
        let v = extra[i].1.deep_clone();
        proof {
            assert(xm.take(i + 1).drop_last() =~= xm.take(i as int));
        }
        insert_member(&mut obj, extra[i].0.as_str(), v);
        i += 1;
    }
    proof {
        assert(xm.take(extra@.len() as int) =~= xm);
    }
    let ghost om = members_model(obj@);
    let r = JsonValue::Object(obj);
    proof {
        let ghost rm = object_members(r@);
        assert(rm =~= om);
    }
    r
}

/// The body members the unified request understands for `protocol`; the
/// rest are unknown members.
pub fn known_request_fields(protocol: DownstreamProtocol) -> (r: Vec<&'static str>)
    ensures
        r@ == (match protocol {
            DownstreamProtocol::Responses => seq![
                "model",
                "input",
                "tools",
                "tool_choice",
                "stream",
                "include",
                "store",
                "conversation",
                "previous_response_id",
                "background",
                "max_output_tokens",
                "parallel_tool_calls",
                "max_multiplier",
            ],
            DownstreamProtocol::ChatCompletions => seq![
                "model",
                "messages",
                "tools",
                "tool_choice",
                "stream",
                "max_tokens",
                "parallel_tool_calls",
                "max_multiplier",
            ],
            DownstreamProtocol::AnthropicMessages => seq![
                "model",
                "messages",
                "max_tokens",
                "stream",
                "tools",
                "tool_choice",
                "parallel_tool_calls",
                "max_multiplier",
            ],
        }),
{
    match protocol {
        DownstreamProtocol::Responses => vec![
            "model",
            "input",
            "tools",
            "tool_choice",
            "stream",
            "include",
            "store",
            "conversation",
            "previous_response_id",
            "background",
            "max_output_tokens",
            "parallel_tool_calls",
            "max_multiplier",
        ],
        DownstreamProtocol::ChatCompletions => vec![
            "model",
            "messages",
            "tools",
            "tool_choice",
            "stream",
            "max_tokens",
            "parallel_tool_calls",
            "max_multiplier",
        ],
        DownstreamProtocol::AnthropicMessages => vec![
            "model",
            "messages",
            "max_tokens",
            "stream",
            "tools",
            "tool_choice",
            "parallel_tool_calls",
            "max_multiplier",
        ],
    }
}

/// No two members of `ms` share a name.
pub open spec fn unique_names(ms: Seq<(Seq<char>, JsonModel)>) -> bool {
    forall|i: int, j: int| 0 <= i < j < ms.len() ==> #[trigger] ms[i].0 != #[trigger] ms[j].0
}

/// Whether a member of `ms` is named `k`.
pub open spec fn has_name(ms: Seq<(Seq<char>, JsonModel)>, k: Seq<char>) -> bool {
    exists|i: int| 0 <= i < ms.len() && #[trigger] ms[i].0 == k
}

proof fn lemma_key_index_absent(ms: Seq<(Seq<char>, JsonModel)>, k: Seq<char>, j: int)
    requires
        0 <= j,
        !has_name(ms, k),
    ensures
        key_index_from(ms, k, j) is None,
    decreases ms.len() - j,
{
    if j < ms.len() {
        assert(ms[j].0 != k);
        lemma_key_index_absent(ms, k, j + 1);
    }
}

proof fn lemma_lookup_absent(ms: Seq<(Seq<char>, JsonModel)>, k: Seq<char>, j: int)
    requires
        0 <= j,
        !has_name(ms, k),
    ensures
        lookup_from(ms, k, j) is None,
    decreases ms.len() - j,
{
    if j < ms.len() {
        assert(ms[j].0 != k);
        lemma_lookup_absent(ms, k, j + 1);
    }
}

proof fn lemma_lookup_unique(ms: Seq<(Seq<char>, JsonModel)>, i: int, j: int)
    requires
        unique_names(ms),
        0 <= j <= i < ms.len(),
    ensures
        lookup_from(ms, ms[i].0, j) == Some(ms[i].1),
    decreases i - j,
{
    if j < i {
        assert(ms[j].0 != ms[i].0);
        lemma_lookup_unique(ms, i, j + 1);
    }
}

/// Every member `members_where` keeps is a member of `ms` with a name on
/// the chosen side.
proof fn lemma_members_where_from(ms: Seq<(Seq<char>, JsonModel)>, names: Seq<Seq<char>>, known: bool)
    ensures
        forall|x: int|
            0 <= x < members_where(ms, names, known).len() ==> (exists|i: int|
                0 <= i < ms.len() && ms[i] == #[trigger] members_where(ms, names, known)[x])
                && names.contains(members_where(ms, names, known)[x].0) == known,
    decreases ms.len(),
{
    if ms.len() > 0 {
        let rest = ms.drop_last();
        lemma_members_where_from(rest, names, known);
        let w = members_where(ms, names, known);
        assert forall|x: int| 0 <= x < w.len() implies (exists|i: int| 0 <= i < ms.len() && ms[i] == #[trigger] w[x])
            && names.contains(w[x].0) == known by {
            if x < members_where(rest, names, known).len() {
                let i = choose|i: int| 0 <= i < rest.len() && rest[i] == members_where(rest, names, known)[x];
                assert(ms[i] == w[x]);
            } else {
                assert(ms[ms.len() - 1] == w[x]);
            }
        }
    }
}

/// Every member of `ms` is kept on the side its name falls on.
proof fn lemma_members_where_to(ms: Seq<(Seq<char>, JsonModel)>, names: Seq<Seq<char>>, i: int)
    requires
        0 <= i < ms.len(),
    ensures
        members_where(ms, names, names.contains(ms[i].0)).contains(ms[i]),
    decreases ms.len(),
{
    let b = names.contains(ms[i].0);
    let rest = ms.drop_last();
    if i < ms.len() - 1 {
        lemma_members_where_to(rest, names, i);
        let r = members_where(rest, names, b);
        let j = choose|j: int| 0 <= j < r.len() && r[j] == rest[i];
        let w = members_where(ms, names, b);
        assert(w[j] == ms[i]);
    } else {
        let w = members_where(ms, names, b);
        assert(w[w.len() - 1] == ms[i]);
    }
}

/// `members_where` keeps distinct names distinct.
proof fn lemma_members_where_unique(ms: Seq<(Seq<char>, JsonModel)>, names: Seq<Seq<char>>, known: bool)
    requires
        unique_names(ms),
    ensures
        unique_names(members_where(ms, names, known)),
    decreases ms.len(),
{
    if ms.len() > 0 {
        let rest = ms.drop_last();
        assert(unique_names(rest));
        lemma_members_where_unique(rest, names, known);
        lemma_members_where_from(rest, names, known);
        let r = members_where(rest, names, known);
        let last = ms.last();
        if names.contains(last.0) == known {
            let w = r.push(last);
            assert forall|a: int, b: int| 0 <= a < b < w.len() implies #[trigger] w[a].0 != #[trigger] w[b].0 by {
                if b == w.len() - 1 {
                    assert(r[a] == w[a]);
                    let i = choose|i: int| 0 <= i < rest.len() && rest[i] == #[trigger] r[a];
                    assert(ms[i] == rest[i]);
                    assert(ms[ms.len() - 1].0 != ms[i].0);
                } else {
                    assert(r[a] == w[a] && r[b] == w[b]);
                }
            }
        }
    }
}

/// Inserting members whose names are new and distinct appends them.
proof fn lemma_insert_all_appends(entries: Seq<(Seq<char>, JsonModel)>, extra: Seq<(Seq<char>, JsonModel)>)
    requires
        unique_names(extra),
        forall|a: int, b: int| 0 <= a < entries.len() && 0 <= b < extra.len() ==> #[trigger] entries[a].0 != #[trigger] extra[b].0,
    ensures
        insert_all(entries, extra) == entries + extra,
    decreases extra.len(),
{
    if extra.len() > 0 {
        let front = extra.drop_last();
        assert(unique_names(front));
        assert forall|a: int, b: int| 0 <= a < entries.len() && 0 <= b < front.len() implies #[trigger] entries[a].0 != #[trigger] front[b].0 by {
            assert(front[b] == extra[b]);
        }
        lemma_insert_all_appends(entries, front);
        let base = entries + front;
        let last = extra.last();
        assert forall|i: int| 0 <= i < base.len() implies #[trigger] base[i].0 != last.0 by {
            if i < entries.len() {
                assert(entries[i].0 != extra[extra.len() - 1].0);
            } else {
                assert(base[i] == extra[i - entries.len()]);
            }
        }
        lemma_key_index_absent(base, last.0, 0);
        assert(base.push(last) =~= entries + extra);
    }
}

/// Unknown member preservation: under the preserving policy, merging the
/// two parts a body is split into gives every name of the body the value it
/// had there, and no other name a value.
pub proof fn law_preserved_members_survive_decoding(ms: Seq<(Seq<char>, JsonModel)>, names: Seq<Seq<char>>, k: Seq<char>)
    requires
        unique_names(ms),
    ensures
        split_spec(UnknownFieldPolicy::Preserve, JsonModel::Object(ms), names) matches Ok((known, extra))
            && lookup(insert_all(object_members(known), extra), k) == lookup(ms, k),
{
    let known = members_where(ms, names, true);
    let extra = members_where(ms, names, false);
    lemma_members_where_unique(ms, names, true);
    lemma_members_where_unique(ms, names, false);
    lemma_members_where_from(ms, names, true);
    lemma_members_where_from(ms, names, false);
    assert forall|a: int, b: int| 0 <= a < known.len() && 0 <= b < extra.len() implies #[trigger] known[a].0 != #[trigger] extra[b].0 by {
        assert(names.contains(known[a].0));
        assert(!names.contains(extra[b].0));
    }
    lemma_insert_all_appends(known, extra);
    let merged = known + extra;
    assert forall|i: int, j: int| 0 <= i < j < merged.len() implies #[trigger] merged[i].0 != #[trigger] merged[j].0 by {
        if j < known.len() {
        } else if i >= known.len() {
            assert(merged[i] == extra[i - known.len()] && merged[j] == extra[j - known.len()]);
        } else {
            assert(merged[i] == known[i] && merged[j] == extra[j - known.len()]);
        }
    }
    if has_name(ms, k) {
        let i = choose|i: int| 0 <= i < ms.len() && #[trigger] ms[i].0 == k;
        lemma_lookup_unique(ms, i, 0);
        lemma_members_where_to(ms, names, i);
        let side = members_where(ms, names, names.contains(k));
        let x = choose|x: int| 0 <= x < side.len() && side[x] == ms[i];
        let p = if names.contains(k) { x } else { known.len() + x };
        assert(merged[p] == ms[i]);
        lemma_lookup_unique(merged, p, 0);
    } else {
        lemma_lookup_absent(ms, k, 0);
        assert forall|p: int| 0 <= p < merged.len() implies #[trigger] merged[p].0 != k by {
            if p < known.len() {
                let i = choose|i: int| 0 <= i < ms.len() && ms[i] == #[trigger] known[p];
                assert(ms[i].0 != k);
            } else {
                let q = p - known.len();
                assert(merged[p] == extra[q]);
                let i = choose|i: int| 0 <= i < ms.len() && ms[i] == #[trigger] extra[q];
                assert(ms[i].0 != k);
            }
        }
        lemma_lookup_absent(merged, k, 0);
    }
}

} // verus!
