//! An OpenAI chat completion stream re-emitted as a responses stream: each
//! chunk's content, reasoning and tool-call deltas become responses events.
use vstd::prelude::*;
use crate::json::{
    array_in, get, get_in, opt_get, opt_model, opt_or, opt_str, opt_u64, or_else, pieces_model,
    u64_in, JsonModel, JsonValue, PieceModel, TextPiece, piece_from, piece_of,
};
use crate::reasoning::{delta_pieces, delta_texts, extract_chat_reasoning_deltas, text_or_empty};
use crate::responses_stream::{
    call_index, events_model, with_arguments, with_call, with_call_name, with_output, with_reasoning,
    with_signature, CallModel, EventModel, ResponsesEvent, ResponsesModel, ResponsesStreamState,
    empty_stream,
};
use crate::text::string_of;
use crate::users::string_views;

verus! {

/// The chat-to-responses stream: the responses state and, for tool-call
/// deltas that give only an index, the call id seen under each index.
#[derive(Debug)]
pub struct ChatResponsesStream {
    pub state: ResponsesStreamState,
    pub call_id_by_index: Vec<(u64, String)>,
}

/// The content of a [`ChatResponsesStream`].
pub struct ChatResponsesModel {
    pub state: ResponsesModel,
    pub by_index: Seq<(u64, Seq<char>)>,
}

pub open spec fn index_entries(v: Seq<(u64, String)>) -> Seq<(u64, Seq<char>)> {
    v.map_values(|e: (u64, String)| (e.0, e.1@))
}

impl View for ChatResponsesStream {
    type V = ChatResponsesModel;

    open spec fn view(&self) -> ChatResponsesModel {
        ChatResponsesModel { state: self.state@, by_index: index_entries(self.call_id_by_index@) }
    }
}

/// The position of the entry for index `k` at or after position `i`.
pub open spec fn index_position_from(m: Seq<(u64, Seq<char>)>, k: u64, i: int) -> Option<int>
    decreases m.len() - i,
{
    if i < 0 || i >= m.len() {
        None
    } else if m[i].0 == k {
        Some(i)
    } else {
        index_position_from(m, k, i + 1)
    }
}

/// The call id recorded for index `k`.
pub open spec fn index_lookup(m: Seq<(u64, Seq<char>)>, k: u64) -> Option<Seq<char>> {
    match index_position_from(m, k, 0) {
        Some(i) => Some(m[i].1),
        None => None,
    }
}

/// Records `id` for index `k`, in place of any earlier id.
pub open spec fn index_insert(m: Seq<(u64, Seq<char>)>, k: u64, id: Seq<char>) -> Seq<(u64, Seq<char>)> {
    match index_position_from(m, k, 0) {
        Some(i) => m.update(i, (k, id)),
        None => m.push((k, id)),
    }
}

/// The call id recorded for index `k`.
pub fn index_find(v: &Vec<(u64, String)>, k: u64) -> (r: Option<String>)
    ensures
        match r {
            Some(id) => index_lookup(index_entries(v@), k) == Some(id@),
            None => index_lookup(index_entries(v@), k) is None,
        },
{
    let ghost m = index_entries(v@);
    let mut i: usize = 0;
    while i < v.len()
        invariant
            i <= v@.len(),
            m == index_entries(v@),
            index_position_from(m, k, 0) == index_position_from(m, k, i as int),
        decreases v@.len() - i,
    {
        if v[i].0 == k {
            return Some(v[i].1.clone());
        }
        i += 1;
    }
    None
}

/// Records `id` for index `k` (see [`index_insert`]).
pub fn index_record(v: &mut Vec<(u64, String)>, k: u64, id: &String)
    ensures
        index_entries(final(v)@) == index_insert(index_entries(old(v)@), k, id@),
{
    let ghost m = index_entries(v@);
    let mut i: usize = 0;
    while i < v.len()
        invariant
            i <= v@.len(),
            v@ == old(v)@,
            m == index_entries(v@),
            index_position_from(m, k, 0) == index_position_from(m, k, i as int),
        decreases v@.len() - i,
    {
        if v[i].0 == k {
            v.set(i, (k, id.clone()));
            proof {
                assert(index_entries(v@) =~= m.update(i as int, (k, id@)));
            }
            return;
        }
        i += 1;
    }
    v.push((k, id.clone()));
    proof {
        assert(index_entries(v@) =~= m.push((k, id@)));
    }
}

/// The `delta` of a chunk's first choice, or null.
pub open spec fn chat_delta(data: JsonModel) -> JsonModel {
    match array_in(get(data, "choices"@)) {
        Some(cs) => if cs.len() > 0 {
            match get(cs[0], "delta"@) {
                Some(d) => d,
                None => JsonModel::Null,
            }
        } else {
            JsonModel::Null
        },
        None => JsonModel::Null,
    }
}

/// Each reasoning text in turn (see [`with_reasoning`]).
pub open spec fn with_reasonings(st: ResponsesModel, ts: Seq<Seq<char>>) -> (ResponsesModel, Seq<EventModel>)
    decreases ts.len(),
{
    if ts.len() == 0 {
        (st, seq![])
    } else {
        let (s1, e1) = with_reasonings(st, ts.drop_last());
        let (s2, e2) = with_reasoning(s1, ts.last());
        (s2, e1 + e2)
    }
}

/// Each signature piece in turn (see [`with_signature`]).
pub open spec fn with_signatures(st: ResponsesModel, ps: Seq<PieceModel>) -> (ResponsesModel, Seq<EventModel>)
    decreases ps.len(),
{
    if ps.len() == 0 {
        (st, seq![])
    } else {
        let (s1, e1) = with_signatures(st, ps.drop_last());
        let (s2, e2) = with_signature(s1, ps.last());
        (s2, e1 + e2)
    }
}

/// The id a tool-call delta at position `pos` of `count` refers to: its own
/// `id` (or `call_id`); else the id seen under its `index`; else, when it is
/// the chunk's only tool call, the latest call; else the call opened at the
/// same position. Empty when none applies.
pub open spec fn tool_call_id(cm: ChatResponsesModel, tc: JsonModel, pos: int, count: int) -> Seq<char> {
    let calls = cm.state.calls;
    let given = text_or_empty(or_else(get(tc, "id"@), get(tc, "call_id"@)));
    let by_index = match u64_in(get(tc, "index"@)) {
        Some(k) => index_lookup(cm.by_index, k),
        None => None,
    };
    let id1 = if given.len() == 0 && by_index is Some {
        by_index->0
    } else {
        given
    };
    let id2 = if id1.len() == 0 && count == 1 && calls.len() > 0 {
        calls.last().call_id
    } else {
        id1
    };
    if id2.len() == 0 && 0 <= pos < calls.len() {
        calls[pos].call_id
    } else {
        id2
    }
}

/// One tool-call delta: the call is opened if new, named if it had no name,
/// and its argument text (a string as it is, any other value encoded)
/// appended and announced under the call's name.
pub open spec fn tool_call_step(cm: ChatResponsesModel, tc: JsonModel, pos: int, count: int) -> (
    ChatResponsesModel,
    Seq<EventModel>,
) {
    let id = tool_call_id(cm, tc, pos, count);
    if id.len() == 0 {
        (cm, seq![])
    } else {
        let by_index = match u64_in(get(tc, "index"@)) {
            Some(k) => index_insert(cm.by_index, k, id),
            None => cm.by_index,
        };
        let function = get(tc, "function"@);
        let name = text_or_empty(get_in(function, "name"@));
        let args = match get_in(function, "arguments"@) {
            Some(v) => piece_of(v),
            None => seq![],
        };
        let (s1, e1) = with_call(cm.state, id, name);
        let i = call_index(s1.calls, id)->0;
        let s2 = if name.len() > 0 && s1.calls[i].name.len() == 0 {
            with_call_name(s1, i, name)
        } else {
            s1
        };
        let (s3, e3) = if args.len() > 0 {
            with_arguments(s2, i, s2.calls[i].name, args[0])
        } else {
            (s2, seq![])
        };
        (ChatResponsesModel { state: s3, by_index }, e1 + e3)
    }
}

/// The first `n` of a chunk's `count` tool-call deltas, in order.
pub open spec fn tool_call_steps(cm: ChatResponsesModel, tcs: Seq<JsonModel>, n: int) -> (
    ChatResponsesModel,
    Seq<EventModel>,
)
    decreases n,
{
    if n <= 0 {
        (cm, seq![])
    } else {
        let (c1, e1) = tool_call_steps(cm, tcs, n - 1);
        let (c2, e2) = tool_call_step(c1, tcs[n - 1], n - 1, tcs.len() as int);
        (c2, e1 + e2)
    }
}

/// What one chat completion chunk does: its content, then its reasoning
/// texts, then its reasoning signature pieces, then its tool-call deltas.
pub open spec fn chat_chunk_step(cm: ChatResponsesModel, data: JsonModel) -> (ChatResponsesModel, Seq<EventModel>) {
    let delta = chat_delta(data);
    let (s1, e1) = with_output(cm.state, text_or_empty(get(delta, "content"@)));
    let (s2, e2) = with_reasonings(s1, delta_texts(delta));
    let (s3, e3) = with_signatures(s2, delta_pieces(delta));
    let c3 = ChatResponsesModel { state: s3, by_index: cm.by_index };
    let (c4, e4) = match array_in(get(delta, "tool_calls"@)) {
        Some(tcs) => tool_call_steps(c3, tcs, tcs.len() as int),
        None => (c3, seq![]),
    };
    (c4, e1 + e2 + e3 + e4)
}

/// The text of an optional string member, or the empty string.
pub fn text_of(v: Option<&JsonValue>) -> (r: String)
    ensures
        r@ == text_or_empty(opt_model(v)),
{
    match opt_str(v) {
        Some(s) => string_of(s),
        None => {
            proof {
                reveal_strlit("");
            }
            let r = string_of("");
            proof {
                assert(r@ =~= seq![]);
            }
            r
        },
    }
}

impl ChatResponsesStream {
    /// A stream that has seen nothing yet.
    pub fn new() -> (r: Self)
        ensures
            r@.state == empty_stream(),
            r@.by_index == Seq::<(u64, Seq<char>)>::empty(),
    {
        let r = ChatResponsesStream { state: ResponsesStreamState::new(), call_id_by_index: Vec::new() };
        proof {
            assert(r@.by_index =~= Seq::<(u64, Seq<char>)>::empty());
        }
        r
    }

    fn index_position(&self, k: u64) -> (r: Option<usize>)
        ensures
            match r {
                Some(i) => i < self.call_id_by_index@.len() && index_position_from(self@.by_index, k, 0)
                    == Some(i as int),
                None => index_position_from(self@.by_index, k, 0) is None,
            },
    {
        let mut i: usize = 0;
        while i < self.call_id_by_index.len()
            invariant
                i <= self.call_id_by_index@.len(),
                index_position_from(self@.by_index, k, 0) == index_position_from(self@.by_index, k, i as int),
            decreases self.call_id_by_index@.len() - i,
        {
            if self.call_id_by_index[i].0 == k {
                return Some(i);
            }
            i += 1;
        }
        None
    }

    fn lookup_index(&self, k: u64) -> (r: Option<String>)
        ensures
            match r {
                Some(id) => index_lookup(self@.by_index, k) == Some(id@),
                None => index_lookup(self@.by_index, k) is None,
            },
    {
        match self.index_position(k) {
            Some(i) => Some(self.call_id_by_index[i].1.clone()),
            None => None,
        }
    }

    fn record_index(&mut self, k: u64, id: &String)
        ensures
            final(self)@.by_index == index_insert(old(self)@.by_index, k, id@),
            final(self)@.state == old(self)@.state,
    {
        match self.index_position(k) {
            Some(i) => {
                self.call_id_by_index.set(i, (k, id.clone()));
                proof {
                    assert(self@.by_index =~= old(self)@.by_index.update(i as int, (k, id@)));
                }
            },
            None => {
                self.call_id_by_index.push((k, id.clone()));
                proof {
                    assert(self@.by_index =~= old(self)@.by_index.push((k, id@)));
                }
            },
        }
    }

    /// The id a tool-call delta refers to (see [`tool_call_id`]).
    fn resolve_call_id(&self, tc: &JsonValue, pos: usize, count: usize) -> (r: String)
        ensures
            r@ == tool_call_id(self@, tc@, pos as int, count as int),
    {
        let given = text_of(opt_or(tc.get("id"), tc.get("call_id")));
        let mut id = given;
        if id.as_str().is_empty() {
            if let Some(k) = opt_u64(tc.get("index")) {
                if let Some(existing) = self.lookup_index(k) {
                    id = existing;
                }
            }
        }
        let n = self.state.calls.len();
        if id.as_str().is_empty() && count == 1 && n > 0 {
            id = self.state.calls[n - 1].call_id.clone();
        }
        if id.as_str().is_empty() && pos < n {
            id = self.state.calls[pos].call_id.clone();
        }
        id
    }

    /// Applies one tool-call delta (see [`tool_call_step`]).
    pub fn on_tool_call(&mut self, tc: &JsonValue, pos: usize, count: usize, events: &mut Vec<ResponsesEvent>)
        ensures
            final(self)@ == tool_call_step(old(self)@, tc@, pos as int, count as int).0,
            events_model(final(events)@) == events_model(old(events)@) + tool_call_step(
                old(self)@,
                tc@,
                pos as int,
                count as int,
            ).1,
    {
        let id = self.resolve_call_id(tc, pos, count);
        if id.as_str().is_empty() {
            proof {
                assert(events_model(final(events)@) =~= events_model(old(events)@) + seq![]);
            }
            return;
        }
        if let Some(k) = opt_u64(tc.get("index")) {
            self.record_index(k, &id);
        }
        let function = tc.get("function");
        let name = text_of(opt_get(function, "name"));
        let args = match opt_get(function, "arguments") {
            Some(v) => piece_from(v),
            None => None,
        };
        let ghost c0 = self@;
        let ghost e0 = events_model(events@);
        let i = self.state.open_call(&id, &name, events);
        let ghost s1 = self.state@;
        proof {
            assert(self.state.calls@.len() == self.state@.calls.len());
            assert(self.state@.calls[i as int] == self.state.calls@[i as int]@);
        }
        if !name.as_str().is_empty() && self.state.calls[i].name.as_str().is_empty() {
            self.state.rename_call(i, &name);
        }
        let ghost s2 = self.state@;
        let ghost e2 = events_model(events@);
        proof {
            assert(s2 == (if name@.len() > 0 && s1.calls[i as int].name.len() == 0 {
                with_call_name(s1, i as int, name@)
            } else {
                s1
            }));
            assert(self.state.calls@.len() == self.state@.calls.len());
            assert(self.state@.calls[i as int] == self.state.calls@[i as int]@);
        }
        match args {
            Some(p) => {
                let current = self.state.calls[i].name.clone();
                self.state.add_arguments(i, &current, p, events);
            },
            None => {},
        }
        proof {
            let step = tool_call_step(old(self)@, tc@, pos as int, count as int);
            assert(c0.state == old(self)@.state);
            assert(e2 == e0 + with_call(c0.state, id@, name@).1);
            assert(events_model(events@) =~= events_model(old(events)@) + step.1);
        }
    }

    /// Applies one chat completion chunk (see [`chat_chunk_step`]) and gives
    /// the events to send.
    pub fn on_chunk(&mut self, data: &JsonValue) -> (r: Vec<ResponsesEvent>)
        ensures
            final(self)@ == chat_chunk_step(old(self)@, data@).0,
            events_model(r@) == chat_chunk_step(old(self)@, data@).1,
    {
        let mut events: Vec<ResponsesEvent> = Vec::new();
        proof {
            assert(events_model(events@) =~= seq![]);
        }
        let null = JsonValue::Null;
        let delta: &JsonValue = match opt_get(first_choice(data), "delta") {
            Some(d) => d,
            None => &null,
        };
        let ghost dm = delta@;
        proof {
            assert(dm == chat_delta(data@));
        }
        let content = text_of(delta.get("content"));
        self.state.add_output_text(content.as_str(), &mut events);
        let (texts, pieces) = extract_chat_reasoning_deltas(delta);
        add_reasonings(&mut self.state, &texts, &mut events);
        add_signatures(&mut self.state, &pieces, &mut events);
        let ghost c3 = self@;
        let ghost e3 = events_model(events@);
        if let Some(v) = delta.get("tool_calls") {
            if let Some(tcs) = v.as_array() {
                let count = tcs.len();
                let ghost tms = Seq::new(count as nat, |t: int| tcs@[t]@);
                proof {
                    assert(e3 + seq![] =~= e3);
                }
                let mut k: usize = 0;
                while k < count
                    invariant
                        k <= count,
                        count == tcs@.len(),
                        tms == Seq::new(count as nat, |t: int| tcs@[t]@),
                        (self@, events_model(events@)) == (
                            tool_call_steps(c3, tms, k as int).0,
                            e3 + tool_call_steps(c3, tms, k as int).1,
                        ),
                    decreases count - k,
                {
                    self.on_tool_call(&tcs[k], k, count, &mut events);
                    proof {
                        let prev = tool_call_steps(c3, tms, k as int);
                        assert(tms[k as int] == tcs@[k as int]@);
                        assert(events_model(events@) =~= e3 + (prev.1 + tool_call_step(
                            prev.0,
                            tms[k as int],
                            k as int,
                            count as int,
                        ).1));
                    }
                    k += 1;
                }
                proof {
                    assert(events_model(events@) =~= chat_chunk_step(old(self)@, data@).1);
                }
            } else {
                proof {
                    assert(events_model(events@) =~= chat_chunk_step(old(self)@, data@).1);
                }
            }
        } else {
            proof {
                assert(events_model(events@) =~= chat_chunk_step(old(self)@, data@).1);
            }
        }
        events
    }
}

/// Adds each reasoning text in turn (see [`with_reasonings`]).
fn add_reasonings(state: &mut ResponsesStreamState, texts: &Vec<String>, events: &mut Vec<ResponsesEvent>)
    ensures
        final(state)@ == with_reasonings(old(state)@, string_views(texts@)).0,
        events_model(final(events)@) == events_model(old(events)@) + with_reasonings(
            old(state)@,
            string_views(texts@),
        ).1,
{
    let ghost ts = string_views(texts@);
    let ghost e0 = events_model(events@);
    proof {
        assert(ts.take(0) =~= seq![]);
        assert(e0 + seq![] =~= e0);
    }
    let mut i: usize = 0;
    while i < texts.len()
        invariant
            i <= texts.len(),
            ts == string_views(texts@),
            e0 == events_model(old(events)@),
            state@ == with_reasonings(old(state)@, ts.take(i as int)).0,
            events_model(events@) == e0 + with_reasonings(old(state)@, ts.take(i as int)).1,
        decreases texts.len() - i,
    {
        state.add_reasoning_text(texts[i].as_str(), events);
        proof {
            assert(ts.take(i + 1).drop_last() =~= ts.take(i as int));
            assert(ts.take(i + 1).last() == texts@[i as int]@);
            let prev = with_reasonings(old(state)@, ts.take(i as int));
            assert(events_model(events@) =~= e0 + (prev.1 + with_reasoning(prev.0, texts@[i as int]@).1));
        }
        i += 1;
    }
    proof {
        assert(ts.take(texts.len() as int) =~= ts);
    }
}

/// Adds each signature piece in turn (see [`with_signatures`]).
fn add_signatures(state: &mut ResponsesStreamState, pieces: &Vec<TextPiece>, events: &mut Vec<ResponsesEvent>)
    ensures
        final(state)@ == with_signatures(old(state)@, pieces_model(pieces@)).0,
        events_model(final(events)@) == events_model(old(events)@) + with_signatures(
            old(state)@,
            pieces_model(pieces@),
        ).1,
{
    let ghost ps = pieces_model(pieces@);
    let ghost e0 = events_model(events@);
    proof {
        assert(ps.take(0) =~= seq![]);
        assert(e0 + seq![] =~= e0);
    }
    let mut j: usize = 0;
    while j < pieces.len()
        invariant
            j <= pieces.len(),
            ps == pieces_model(pieces@),
            e0 == events_model(old(events)@),
            state@ == with_signatures(old(state)@, ps.take(j as int)).0,
            events_model(events@) == e0 + with_signatures(old(state)@, ps.take(j as int)).1,
        decreases pieces.len() - j,
    {
        let p = pieces[j].copy_piece();
        state.add_reasoning_signature(p, events);
        proof {
            assert(ps.take(j + 1).drop_last() =~= ps.take(j as int));
            assert(ps.take(j + 1).last() == pieces@[j as int]@);
            let prev = with_signatures(old(state)@, ps.take(j as int));
            assert(events_model(events@) =~= e0 + (prev.1 + with_signature(prev.0, pieces@[j as int]@).1));
        }
        j += 1;
    }
    proof {
        assert(ps.take(pieces.len() as int) =~= ps);
    }
}

/// The first choice of a chunk.
pub fn first_choice(data: &JsonValue) -> (r: Option<&JsonValue>)
    ensures
        opt_model(r) == (match array_in(get(data@, "choices"@)) {
            Some(cs) => if cs.len() > 0 {
                Some(cs[0])
            } else {
                None
            },
            None => None,
        }),
{
    match data.get("choices") {
        Some(v) => match v.as_array() {
            Some(cs) => if cs.len() > 0 {
                Some(&cs[0])
            } else {
                None
            },
            None => None,
        },
        None => None,
    }
}

} // verus!
