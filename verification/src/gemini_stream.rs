//! Gemini streaming responses: what each chunk's parts say (thoughts and
//! their signatures, text, function calls), and those parts re-emitted as
//! an OpenAI chat completion stream or an OpenAI responses stream.
use vstd::prelude::*;
use crate::decimal::{decimal_of, u128_to_decimal};
use crate::json::{
    array_in, get, get_in, is_object, opt_get, opt_model, opt_or, opt_str, or_else, piece_from,
    piece_of, pieces_model, str_in, JsonModel, JsonValue, PieceModel, TextPiece,
};
use crate::reasoning::text_or_empty;
use crate::chat_responses_stream::text_of;
use crate::responses_stream::{
    call_index, events_model, with_arguments, with_call, with_output, with_reasoning, with_signature,
    EventModel, ResponsesEvent, ResponsesModel, ResponsesStreamState,
};
use crate::text::{push_chars, push_lit, string_of};
use crate::urp::FinishReason;

verus! {

/// One thing a Gemini part says.
#[derive(Debug)]
pub enum GeminiItem {
    /// The text of a thought part (possibly empty).
    Thought(String),
    /// The signature of a thought part.
    Signature(TextPiece),
    /// Non-empty answer text.
    Text(String),
    /// A function call with a name; its arguments go out as their JSON text.
    Call { id: String, name: String, args: JsonValue },
}

/// The content of a [`GeminiItem`].
pub enum GeminiItemModel {
    Thought(Seq<char>),
    Signature(PieceModel),
    Text(Seq<char>),
    Call { id: Seq<char>, name: Seq<char>, args: JsonModel },
}

impl View for GeminiItem {
    type V = GeminiItemModel;

    open spec fn view(&self) -> GeminiItemModel {
        match self {
            GeminiItem::Thought(t) => GeminiItemModel::Thought(t@),
            GeminiItem::Signature(p) => GeminiItemModel::Signature(p@),
            GeminiItem::Text(t) => GeminiItemModel::Text(t@),
            GeminiItem::Call { id, name, args } => GeminiItemModel::Call { id: id@, name: name@, args: args@ },
        }
    }
}

pub open spec fn gemini_items_model(v: Seq<GeminiItem>) -> Seq<GeminiItemModel> {
    v.map_values(|e: GeminiItem| e@)
}

/// What the text of a part says: a thought part gives its text and, when it
/// carries one, its signature (a non-empty string as it is, any other value
/// encoded); any other part gives its text when it is not empty.
pub open spec fn text_items(part: JsonModel) -> Seq<GeminiItemModel> {
    match str_in(get(part, "text"@)) {
        Some(text) => if get(part, "thought"@) == Some(JsonModel::Bool(true)) {
            seq![GeminiItemModel::Thought(text)] + match get(part, "thoughtSignature"@) {
                Some(sig) => piece_of(sig).map_values(|p: PieceModel| GeminiItemModel::Signature(p)),
                None => seq![],
            }
        } else if text.len() > 0 {
            seq![GeminiItemModel::Text(text)]
        } else {
            seq![]
        },
        None => seq![],
    }
}

/// What the `functionCall` of a part says: a call when it is an object with
/// a non-empty name; its id is its `id`, else its name.
pub open spec fn call_items(part: JsonModel) -> Seq<GeminiItemModel> {
    match get(part, "functionCall"@) {
        Some(fc) => {
            let name = text_or_empty(get(fc, "name"@));
            if is_object(fc) && name.len() > 0 {
                seq![
                    GeminiItemModel::Call {
                        id: text_or_empty(or_else(get(fc, "id"@), get(fc, "name"@))),
                        name,
                        args: match get(fc, "args"@) {
                            Some(a) => a,
                            None => JsonModel::Null,
                        },
                    },
                ]
            } else {
                seq![]
            }
        },
        None => seq![],
    }
}

/// What the parts say, in order.
pub open spec fn parts_items(parts: Seq<JsonModel>) -> Seq<GeminiItemModel>
    decreases parts.len(),
{
    if parts.len() == 0 {
        seq![]
    } else {
        parts_items(parts.drop_last()) + text_items(parts.last()) + call_items(parts.last())
    }
}

/// What a Gemini stream chunk says: the parts of its first candidate.
pub open spec fn chunk_items(data: JsonModel) -> Seq<GeminiItemModel> {
    match array_in(get(data, "candidates"@)) {
        Some(cs) => if cs.len() > 0 {
            match array_in(get_in(get(cs[0], "content"@), "parts"@)) {
                Some(ps) => parts_items(ps),
                None => seq![],
            }
        } else {
            seq![]
        },
        None => seq![],
    }
}

/// Appends what the text of a part says.
fn push_text_items(part: &JsonValue, out: &mut Vec<GeminiItem>)
    ensures
        gemini_items_model(final(out)@) == gemini_items_model(old(out)@) + text_items(part@),
{
    match opt_str(part.get("text")) {
        Some(text) => {
            let thought = match part.get("thought") {
                Some(JsonValue::Bool(b)) => *b,
                _ => false,
            };
            if thought {
                out.push(GeminiItem::Thought(string_of(text)));
                let ghost mid = out@;
                match part.get("thoughtSignature") {
                    Some(sig) => match piece_from(sig) {
                        Some(p) => {
                            out.push(GeminiItem::Signature(p));
                            proof {
                                assert(piece_of(sig@).map_values(|p: PieceModel| GeminiItemModel::Signature(p))
                                    =~= seq![GeminiItemModel::Signature(out@.last()@->Signature_0)]);
                            }
                        },
                        None => {
                            proof {
                                assert(piece_of(sig@).map_values(|p: PieceModel| GeminiItemModel::Signature(p))
                                    =~= seq![]);
                            }
                        },
                    },
                    None => {},
                }
                proof {
                    assert(gemini_items_model(out@) =~= gemini_items_model(old(out)@) + text_items(part@));
                }
            } else if !text.is_empty() {
                out.push(GeminiItem::Text(string_of(text)));
                proof {
                    assert(gemini_items_model(out@) =~= gemini_items_model(old(out)@) + text_items(part@));
                }
            } else {
                proof {
                    assert(gemini_items_model(out@) =~= gemini_items_model(old(out)@) + text_items(part@));
                }
            }
        },
        None => {
            proof {
                assert(gemini_items_model(out@) =~= gemini_items_model(old(out)@) + text_items(part@));
            }
        },
    }
}

/// Appends what the `functionCall` of a part says.
fn push_call_items(part: &JsonValue, out: &mut Vec<GeminiItem>)
    ensures
        gemini_items_model(final(out)@) == gemini_items_model(old(out)@) + call_items(part@),
{
    match part.get("functionCall") {
        Some(fc) => {
            let name = text_of(fc.get("name"));
            if fc.is_object() && !name.as_str().is_empty() {
                let id = text_of(opt_or(fc.get("id"), fc.get("name")));
                let args = match fc.get("args") {
                    Some(a) => a.deep_clone(),
                    None => JsonValue::Null,
                };
                out.push(GeminiItem::Call { id, name, args });
            }
            proof {
                assert(gemini_items_model(out@) =~= gemini_items_model(old(out)@) + call_items(part@));
            }
        },
        None => {
            proof {
                assert(gemini_items_model(out@) =~= gemini_items_model(old(out)@) + call_items(part@));
            }
        },
    }
}

/// What a Gemini stream chunk says (see [`chunk_items`]).
pub fn gemini_chunk_items(data: &JsonValue) -> (r: Vec<GeminiItem>)
    ensures
        gemini_items_model(r@) == chunk_items(data@),
{
    let mut out: Vec<GeminiItem> = Vec::new();
    proof {
        assert(gemini_items_model(out@) =~= seq![]);
    }
    let candidate = match data.get("candidates") {
        Some(v) => match v.as_array() {
            Some(cs) => if cs.len() > 0 {
                &cs[0]
            } else {
                return out;
            },
            None => return out,
        },
        None => return out,
    };
    let parts = match opt_get(candidate.get("content"), "parts") {
        Some(v) => match v.as_array() {
            Some(ps) => ps,
            None => return out,
        },
        None => return out,
    };
    let ghost pms = Seq::new(parts.len() as nat, |i: int| parts@[i]@);
    proof {
        assert(pms.take(0) =~= seq![]);
    }
    let mut i: usize = 0;
    while i < parts.len()
        invariant
            i <= parts.len(),
            pms == Seq::new(parts.len() as nat, |k: int| parts@[k]@),
            gemini_items_model(out@) == parts_items(pms.take(i as int)),
        decreases parts.len() - i,
    {
        push_text_items(&parts[i], &mut out);
        push_call_items(&parts[i], &mut out);
        proof {
            assert(pms.take(i + 1).drop_last() =~= pms.take(i as int));
            assert(pms.take(i + 1).last() == parts@[i as int]@);
        }
        i += 1;
    }
    proof {
        assert(pms.take(parts.len() as int) =~= pms);
    }
    out
}

/// Whether some item is a function call.
pub open spec fn has_call(items: Seq<GeminiItemModel>) -> bool {
    exists|i: int| 0 <= i < items.len() && #[trigger] items[i] is Call
}

/// The Gemini-to-chat stream: the chat deltas are the chunk's items (a
/// thought as a reasoning text detail, a signature as an encrypted detail,
/// text as content, a call as a tool call whose arguments are the JSON text
/// of its `args`); the stream remembers whether a call was seen.
#[derive(Debug)]
pub struct GeminiChatStream {
    pub saw_tool_call: bool,
}

impl GeminiChatStream {
    pub fn new() -> (r: Self)
        ensures
            !r.saw_tool_call,
    {
        GeminiChatStream { saw_tool_call: false }
    }

    /// The items of one chunk, to be sent as chat deltas in order.
    pub fn on_chunk(&mut self, data: &JsonValue) -> (r: Vec<GeminiItem>)
        ensures
            gemini_items_model(r@) == chunk_items(data@),
            final(self).saw_tool_call == (old(self).saw_tool_call || has_call(chunk_items(data@))),
    {
        let items = gemini_chunk_items(data);
        let mut i: usize = 0;
        let mut saw = false;
        while i < items.len()
            invariant
                i <= items.len(),
                saw == exists|k: int| 0 <= k < i && #[trigger] items@[k]@ is Call,
            decreases items.len() - i,
        {
            let is_call = match &items[i] {
                GeminiItem::Call { .. } => true,
                _ => false,
            };
            proof {
                assert(is_call == (items@[i as int]@ is Call));
            }
            if is_call {
                saw = true;
            }
            i += 1;
        }
        proof {
            let m = gemini_items_model(items@);
            if saw {
                let k = choose|k: int| 0 <= k < items@.len() && #[trigger] items@[k]@ is Call;
                assert(m[k] is Call);
            }
            if has_call(m) {
                let k = choose|k: int| 0 <= k < m.len() && #[trigger] m[k] is Call;
                assert(items@[k]@ is Call);
            }
        }
        if saw {
            self.saw_tool_call = true;
        }
        items
    }

    /// Why the chat completion finished: tool calls when a call was seen,
    /// else a normal stop.
    pub fn finish_reason(&self) -> (r: FinishReason)
        ensures
            r == (if self.saw_tool_call {
                FinishReason::ToolCalls
            } else {
                FinishReason::Stop
            }),
    {
        if self.saw_tool_call {
            FinishReason::ToolCalls
        } else {
            FinishReason::Stop
        }
    }
}

/// The key of a Gemini call in the responses stream: its id, or
/// `call_<n>` with `n` one more than the calls opened so far.
pub open spec fn gemini_call_key(st: ResponsesModel, id: Seq<char>) -> Seq<char> {
    if id.len() == 0 {
        "call_"@ + decimal_of((st.calls.len() + 1) as nat)
    } else {
        id
    }
}

/// One item in the responses stream: thought text as reasoning, a signature
/// as reasoning signature, text as output, and a call opened under its key
/// with the JSON text of its arguments appended and announced under the
/// call's own name.
pub open spec fn gemini_item_step(st: ResponsesModel, item: GeminiItemModel) -> (ResponsesModel, Seq<EventModel>) {
    match item {
        GeminiItemModel::Thought(t) => with_reasoning(st, t),
        GeminiItemModel::Signature(p) => with_signature(st, p),
        GeminiItemModel::Text(t) => with_output(st, t),
        GeminiItemModel::Call { id, name, args } => {
            let key = gemini_call_key(st, id);
            let (s1, e1) = with_call(st, key, name);
            let (s2, e2) = with_arguments(s1, call_index(s1.calls, key)->0, name, PieceModel::Encoded(args));
            (s2, e1 + e2)
        },
    }
}

/// The items in turn.
pub open spec fn gemini_items_steps(st: ResponsesModel, items: Seq<GeminiItemModel>) -> (
    ResponsesModel,
    Seq<EventModel>,
)
    decreases items.len(),
{
    if items.len() == 0 {
        (st, seq![])
    } else {
        let (s1, e1) = gemini_items_steps(st, items.drop_last());
        let (s2, e2) = gemini_item_step(s1, items.last());
        (s2, e1 + e2)
    }
}

/// Applies one item to a responses stream (see [`gemini_item_step`]).
pub fn gemini_item_to_responses(state: &mut ResponsesStreamState, item: GeminiItem, events: &mut Vec<ResponsesEvent>)
    ensures
        final(state)@ == gemini_item_step(old(state)@, item@).0,
        events_model(final(events)@) == events_model(old(events)@) + gemini_item_step(old(state)@, item@).1,
{
    match item {
        GeminiItem::Thought(t) => state.add_reasoning_text(t.as_str(), events),
        GeminiItem::Signature(p) => state.add_reasoning_signature(p, events),
        GeminiItem::Text(t) => state.add_output_text(t.as_str(), events),
        GeminiItem::Call { id, name, args } => {
            let key = if id.as_str().is_empty() {
                let mut k = string_of("call_");
                let n = u128_to_decimal(state.calls.len() as u128 + 1);
                push_chars(&mut k, &n);
                proof {
                    assert(state.calls@.len() == state@.calls.len());
                }
                k
            } else {
                id
            };
            let ghost e0 = events_model(events@);
            let i = state.open_call(&key, &name, events);
            state.add_arguments(i, &name, TextPiece::Encoded(args), events);
            proof {
                assert(events_model(events@) =~= events_model(old(events)@) + gemini_item_step(old(state)@, item@).1);
            }
        },
    }
}

/// The Gemini-to-responses stream.
#[derive(Debug)]
pub struct GeminiResponsesStream {
    pub state: ResponsesStreamState,
}

impl GeminiResponsesStream {
    pub fn new() -> (r: Self)
        ensures
            r.state@ == crate::responses_stream::empty_stream(),
    {
        GeminiResponsesStream { state: ResponsesStreamState::new() }
    }

    /// Applies one Gemini chunk and gives the responses events to send.
    pub fn on_chunk(&mut self, data: &JsonValue) -> (r: Vec<ResponsesEvent>)
        ensures
            final(self).state@ == gemini_items_steps(old(self).state@, chunk_items(data@)).0,
            events_model(r@) == gemini_items_steps(old(self).state@, chunk_items(data@)).1,
    {
        let mut items = gemini_chunk_items(data);
        let ghost all = gemini_items_model(items@);
        let mut events: Vec<ResponsesEvent> = Vec::new();
        proof {
            assert(events_model(events@) =~= seq![]);
            assert(all.take(0) =~= seq![]);
        }
        let n = items.len();
        let mut i: usize = 0;
        while i < n
            invariant
                i <= n,
                n == all.len(),
                items@.len() == n - i,
                gemini_items_model(items@) == all.skip(i as int),
                self.state@ == gemini_items_steps(old(self).state@, all.take(i as int)).0,
                events_model(events@) == gemini_items_steps(old(self).state@, all.take(i as int)).1,
            decreases n - i,
        {
            let ghost before = items@;
            let item = items.remove(0);
            proof {
                assert(items@ =~= before.subrange(1, before.len() as int));
                assert(gemini_items_model(items@) =~= gemini_items_model(before).skip(1));
                assert(all.skip(i as int).skip(1) =~= all.skip(i + 1));
                assert(gemini_items_model(items@) =~= all.skip(i + 1));
                assert(item@ == gemini_items_model(before)[0]);
                assert(all.take(i + 1).drop_last() =~= all.take(i as int));
                assert(all.take(i + 1).last() == all[i as int]);
            }
            gemini_item_to_responses(&mut self.state, item, &mut events);
            i += 1;
        }
        proof {
            assert(all.take(n as int) =~= all);
        }
        events
    }
}

} // verus!
