//! An OpenAI chat completion stream built from a responses, Grok, Anthropic
//! messages or Gemini stream: the chat deltas each upstream event gives rise
//! to, the tool-call positions, and how the completion finishes.
use vstd::prelude::*;
use crate::chat_responses_stream::{index_entries, index_find, index_insert, index_lookup, index_record, text_of};
use crate::gemini_stream::{chunk_items, gemini_chunk_items, gemini_items_model, GeminiItem, GeminiItemModel};
use crate::json::{
    get, insert_member, key_index, lookup, map_insert, member_index, members_model, opt_model, opt_str,
    opt_u64, str_in, u64_in, JsonModel, JsonNumber, JsonValue, PieceModel, TextPiece,
};
use crate::reasoning::{normalize_chat_reasoning_delta_object, normalized_delta};
use crate::messages_responses_stream::member_or_null;
use crate::messages_stream::{event_item, first_str};
use crate::reasoning::{
    extract_reasoning_text_and_signature, extract_responses_message_text, is_text, message_text,
    reasoning_signature, reasoning_text, text_or_empty,
};
use crate::text::string_of;
use crate::urp::FinishReason;

verus! {

/// One chat completion delta to send.
#[derive(Debug)]
pub enum ChatDelta {
    /// `{"content": text}`
    Content(String),
    /// A `reasoning.text` detail.
    ReasoningText(String),
    /// A `reasoning.encrypted` detail.
    ReasoningSignature(TextPiece),
    /// One tool call at position `index` of the calls seen.
    ToolCall { index: usize, id: String, name: String, arguments: TextPiece },
}

/// The content of a [`ChatDelta`].
pub enum ChatDeltaModel {
    Content(Seq<char>),
    ReasoningText(Seq<char>),
    ReasoningSignature(PieceModel),
    ToolCall { index: usize, id: Seq<char>, name: Seq<char>, arguments: PieceModel },
}

impl View for ChatDelta {
    type V = ChatDeltaModel;

    open spec fn view(&self) -> ChatDeltaModel {
        match self {
            ChatDelta::Content(t) => ChatDeltaModel::Content(t@),
            ChatDelta::ReasoningText(t) => ChatDeltaModel::ReasoningText(t@),
            ChatDelta::ReasoningSignature(p) => ChatDeltaModel::ReasoningSignature(p@),
            ChatDelta::ToolCall { index, id, name, arguments } => ChatDeltaModel::ToolCall {
                index: *index,
                id: id@,
                name: name@,
                arguments: arguments@,
            },
        }
    }
}

pub open spec fn deltas_model(v: Seq<ChatDelta>) -> Seq<ChatDeltaModel> {
    v.map_values(|d: ChatDelta| d@)
}

/// What the chat stream remembers: whether a tool call or a responses text
/// delta was seen, the call ids in the order first seen, the last name seen
/// for each, and the call id of each responses output index.
#[derive(Debug)]
pub struct AnyChatStream {
    pub saw_tool_call: bool,
    pub saw_responses_text_delta: bool,
    pub call_order: Vec<String>,
    pub call_names: Vec<(String, String)>,
    pub call_ids_by_output_index: Vec<(u64, String)>,
}

/// The content of an [`AnyChatStream`].
pub struct AnyChatModel {
    pub saw_tool_call: bool,
    pub saw_text_delta: bool,
    pub order: Seq<Seq<char>>,
    pub names: Seq<(Seq<char>, Seq<char>)>,
    pub by_index: Seq<(u64, Seq<char>)>,
}

impl View for AnyChatStream {
    type V = AnyChatModel;

    open spec fn view(&self) -> AnyChatModel {
        AnyChatModel {
            saw_tool_call: self.saw_tool_call,
            saw_text_delta: self.saw_responses_text_delta,
            order: self.call_order@.map_values(|s: String| s@),
            names: self.call_names@.map_values(|e: (String, String)| (e.0@, e.1@)),
            by_index: index_entries(self.call_ids_by_output_index@),
        }
    }
}

/// The position of `id` in `order` at or after position `i`.
pub open spec fn position_from(order: Seq<Seq<char>>, id: Seq<char>, i: int) -> Option<int>
    decreases order.len() - i,
{
    if i < 0 || i >= order.len() {
        None
    } else if order[i] == id {
        Some(i)
    } else {
        position_from(order, id, i + 1)
    }
}

/// The order with `id` appended when it is not there yet.
pub open spec fn order_with(order: Seq<Seq<char>>, id: Seq<char>) -> Seq<Seq<char>> {
    if position_from(order, id, 0) is Some {
        order
    } else {
        order.push(id)
    }
}

/// The position of the entry for `id` at or after position `i`.
pub open spec fn name_position_from(names: Seq<(Seq<char>, Seq<char>)>, id: Seq<char>, i: int) -> Option<int>
    decreases names.len() - i,
{
    if i < 0 || i >= names.len() {
        None
    } else if names[i].0 == id {
        Some(i)
    } else {
        name_position_from(names, id, i + 1)
    }
}

/// The name recorded for `id`.
pub open spec fn name_of(names: Seq<(Seq<char>, Seq<char>)>, id: Seq<char>) -> Option<Seq<char>> {
    match name_position_from(names, id, 0) {
        Some(i) => Some(names[i].1),
        None => None,
    }
}

/// `name` recorded for `id` when it is not empty.
pub open spec fn names_with(names: Seq<(Seq<char>, Seq<char>)>, id: Seq<char>, name: Seq<char>) -> Seq<
    (Seq<char>, Seq<char>),
> {
    if name.len() == 0 {
        names
    } else {
        match name_position_from(names, id, 0) {
            Some(i) => names.update(i, (id, name)),
            None => names.push((id, name)),
        }
    }
}

/// A tool call sent at the position of `id` among the calls seen (after
/// adding it when new).
pub open spec fn with_tool_call(m: AnyChatModel, id: Seq<char>, name: Seq<char>, args: PieceModel) -> (
    AnyChatModel,
    Seq<ChatDeltaModel>,
) {
    let order = order_with(m.order, id);
    let index = position_from(order, id, 0)->0 as usize;
    (
        AnyChatModel { saw_tool_call: true, order, ..m },
        seq![ChatDeltaModel::ToolCall { index, id, name, arguments: args }],
    )
}

/// `index` recorded for `id` when the event has an output index.
pub open spec fn by_index_with(m: AnyChatModel, data: JsonModel, id: Seq<char>) -> Seq<(u64, Seq<char>)> {
    match u64_in(get(data, "output_index"@)) {
        Some(k) => index_insert(m.by_index, k, id),
        None => m.by_index,
    }
}

/// The call id an arguments event refers to: its `call_id`, else the call
/// of its output index, else none.
pub open spec fn arguments_call_id(m: AnyChatModel, data: JsonModel) -> Seq<char> {
    match str_in(get(data, "call_id"@)) {
        Some(s) => s,
        None => match u64_in(get(data, "output_index"@)) {
            Some(k) => match index_lookup(m.by_index, k) {
                Some(c) => c,
                None => seq![],
            },
            None => seq![],
        },
    }
}

/// The name given for a call, else the one recorded, else empty.
pub open spec fn given_or_recorded_name(m: AnyChatModel, given: Option<JsonModel>, id: Seq<char>) -> Seq<char> {
    match str_in(given) {
        Some(n) => n,
        None => match name_of(m.names, id) {
            Some(n) => n,
            None => seq![],
        },
    }
}

/// One delta when `t` is not empty.
pub open spec fn nonempty_delta(t: Seq<char>, d: ChatDeltaModel) -> Seq<ChatDeltaModel> {
    if t.len() > 0 {
        seq![d]
    } else {
        seq![]
    }
}

/// A function-call item announced by a responses or Grok stream: with an
/// id, it is recorded (its name and output index too) and sent with empty
/// arguments.
pub open spec fn call_added_step(m: AnyChatModel, data: JsonModel) -> (AnyChatModel, Seq<ChatDeltaModel>) {
    let item = event_item(data);
    if is_text(get(item, "type"@), "function_call"@) {
        let id = text_or_empty(get(item, "call_id"@));
        let name = text_or_empty(get(item, "name"@));
        if id.len() > 0 {
            let m1 = AnyChatModel {
                names: names_with(m.names, id, name),
                by_index: by_index_with(m, data, id),
                ..m
            };
            with_tool_call(m1, id, name, PieceModel::Text(seq![]))
        } else {
            (m, seq![])
        }
    } else {
        (m, seq![])
    }
}

/// An arguments delta of a responses (or, without recording names, Grok)
/// stream, sent as a tool call.
pub open spec fn call_arguments_step(m: AnyChatModel, data: JsonModel, record_name: bool) -> (
    AnyChatModel,
    Seq<ChatDeltaModel>,
) {
    let id = arguments_call_id(m, data);
    if id.len() == 0 {
        (m, seq![])
    } else {
        let name = given_or_recorded_name(m, get(data, "name"@), id);
        let m1 = if record_name {
            AnyChatModel { names: names_with(m.names, id, name), ..m }
        } else {
            m
        };
        with_tool_call(m1, id, name, PieceModel::Text(text_or_empty(get(data, "delta"@))))
    }
}

/// A completed output item of a responses stream: a function call (sent
/// when its arguments are not empty), a message (its text, unless text came
/// as deltas), or a reasoning item (its text and signature).
pub open spec fn chat_item_done_step(m: AnyChatModel, data: JsonModel) -> (AnyChatModel, Seq<ChatDeltaModel>) {
    let item = event_item(data);
    if is_text(get(item, "type"@), "function_call"@) {
        let id = text_or_empty(get(item, "call_id"@));
        if id.len() == 0 {
            (m, seq![])
        } else {
            let name = given_or_recorded_name(m, get(item, "name"@), id);
            let m1 = AnyChatModel {
                order: order_with(m.order, id),
                names: names_with(m.names, id, name),
                by_index: by_index_with(m, data, id),
                ..m
            };
            let args = text_or_empty(get(item, "arguments"@));
            if args.len() > 0 {
                with_tool_call(m1, id, name, PieceModel::Text(args))
            } else {
                (m1, seq![])
            }
        }
    } else if is_text(get(item, "type"@), "message"@) {
        if m.saw_text_delta {
            (m, seq![])
        } else {
            let text = message_text(item);
            (m, nonempty_delta(text, ChatDeltaModel::Content(text)))
        }
    } else if is_text(get(item, "type"@), "reasoning"@) {
        let text = reasoning_text(item);
        let sig = reasoning_signature(item);
        (
            m,
            nonempty_delta(text, ChatDeltaModel::ReasoningText(text)) + nonempty_delta(
                sig,
                ChatDeltaModel::ReasoningSignature(PieceModel::Text(sig)),
            ),
        )
    } else {
        (m, seq![])
    }
}

/// What one responses (or, with `grok`, Grok) stream event does in the chat
/// stream. Grok streams do not record the names of argument deltas, do not
/// mark text deltas, and have no completed items.
pub open spec fn responses_chat_step(m: AnyChatModel, event: Seq<char>, data: JsonModel, grok: bool) -> (
    AnyChatModel,
    Seq<ChatDeltaModel>,
) {
    if event == "response.output_text.delta"@ {
        let t = first_str(get(data, "text"@), get(data, "delta"@));
        if t.len() > 0 {
            (
                AnyChatModel { saw_text_delta: if grok { m.saw_text_delta } else { true }, ..m },
                seq![ChatDeltaModel::Content(t)],
            )
        } else {
            (m, seq![])
        }
    } else if event == "response.reasoning_text.delta"@ {
        let t = first_str(get(data, "delta"@), get(data, "text"@));
        (m, nonempty_delta(t, ChatDeltaModel::ReasoningText(t)))
    } else if event == "response.reasoning_signature.delta"@ {
        let t = text_or_empty(get(data, "delta"@));
        (m, nonempty_delta(t, ChatDeltaModel::ReasoningSignature(PieceModel::Text(t))))
    } else if event == "response.output_item.added"@ {
        call_added_step(m, data)
    } else if event == "response.function_call_arguments.delta"@ {
        call_arguments_step(m, data, !grok)
    } else if event == "response.output_item.done"@ && !grok {
        chat_item_done_step(m, data)
    } else {
        (m, seq![])
    }
}

/// What one Anthropic messages stream event does in the chat stream: text,
/// thinking and signature deltas; a tool-use block start announces the call;
/// input JSON goes to the latest call.
pub open spec fn messages_chat_step(m: AnyChatModel, data: JsonModel) -> (AnyChatModel, Seq<ChatDeltaModel>) {
    let ty = text_or_empty(get(data, "type"@));
    if ty == "content_block_delta"@ {
        let delta = member_or_null(data, "delta"@);
        let dt = text_or_empty(get(delta, "type"@));
        if dt == "text_delta"@ {
            let t = text_or_empty(get(delta, "text"@));
            (m, nonempty_delta(t, ChatDeltaModel::Content(t)))
        } else if dt == "thinking_delta"@ {
            let t = text_or_empty(get(delta, "thinking"@));
            (m, nonempty_delta(t, ChatDeltaModel::ReasoningText(t)))
        } else if dt == "signature_delta"@ {
            let t = text_or_empty(get(delta, "signature"@));
            (m, nonempty_delta(t, ChatDeltaModel::ReasoningSignature(PieceModel::Text(t))))
        } else if dt == "input_json_delta"@ {
            let id = if m.order.len() > 0 {
                m.order.last()
            } else {
                seq![]
            };
            let partial = text_or_empty(get(delta, "partial_json"@));
            if id.len() > 0 && partial.len() > 0 {
                let name = match name_of(m.names, id) {
                    Some(n) => n,
                    None => seq![],
                };
                with_tool_call(m, id, name, PieceModel::Text(partial))
            } else {
                (m, seq![])
            }
        } else {
            (m, seq![])
        }
    } else if ty == "content_block_start"@ {
        let cb = member_or_null(data, "content_block"@);
        if is_text(get(cb, "type"@), "tool_use"@) {
            let id = text_or_empty(get(cb, "id"@));
            let name = text_or_empty(get(cb, "name"@));
            if id.len() > 0 {
                with_tool_call(
                    AnyChatModel { names: names_with(m.names, id, name), ..m },
                    id,
                    name,
                    PieceModel::Text(seq![]),
                )
            } else {
                (m, seq![])
            }
        } else {
            (m, seq![])
        }
    } else {
        (m, seq![])
    }
}

/// One Gemini item in the chat stream: a thought as reasoning text, its
/// signature, text as content, and a call (with its arguments' JSON text).
pub open spec fn gemini_chat_item_step(m: AnyChatModel, item: GeminiItemModel) -> (AnyChatModel, Seq<ChatDeltaModel>) {
    match item {
        GeminiItemModel::Thought(t) => (m, seq![ChatDeltaModel::ReasoningText(t)]),
        GeminiItemModel::Signature(p) => (m, seq![ChatDeltaModel::ReasoningSignature(p)]),
        GeminiItemModel::Text(t) => (m, seq![ChatDeltaModel::Content(t)]),
        GeminiItemModel::Call { id, name, args } => with_tool_call(m, id, name, PieceModel::Encoded(args)),
    }
}

/// The items in turn.
pub open spec fn gemini_chat_items_steps(m: AnyChatModel, items: Seq<GeminiItemModel>) -> (
    AnyChatModel,
    Seq<ChatDeltaModel>,
)
    decreases items.len(),
{
    if items.len() == 0 {
        (m, seq![])
    } else {
        let (m1, d1) = gemini_chat_items_steps(m, items.drop_last());
        let (m2, d2) = gemini_chat_item_step(m1, items.last());
        (m2, d1 + d2)
    }
}

/// The state of a new stream.
pub open spec fn fresh_chat_stream() -> AnyChatModel {
    AnyChatModel {
        saw_tool_call: false,
        saw_text_delta: false,
        order: seq![],
        names: seq![],
        by_index: seq![],
    }
}

fn lit_eq(s: &String, lit: &str) -> (r: bool)
    ensures
        r == (s@ == lit@),
{
    *s == string_of(lit)
}

fn type_is(v: &JsonValue, lit: &str) -> (r: bool)
    ensures
        r == is_text(get(v@, "type"@), lit@),
{
    match opt_str(v.get("type")) {
        Some(t) => string_of(t) == string_of(lit),
        None => false,
    }
}

fn empty_string() -> (r: String)
    ensures
        r@ == Seq::<char>::empty(),
{
    proof {
        reveal_strlit("");
    }
    let r = string_of("");
    proof {
        assert(r@ =~= Seq::<char>::empty());
    }
    r
}

fn first_string(a: Option<&JsonValue>, b: Option<&JsonValue>) -> (r: String)
    ensures
        r@ == first_str(opt_model(a), opt_model(b)),
{
    match opt_str(a) {
        Some(s) => string_of(s),
        None => text_of(b),
    }
}

fn push_nonempty(t: String, d: ChatDelta, out: &mut Vec<ChatDelta>)
    ensures
        deltas_model(final(out)@) == deltas_model(old(out)@) + nonempty_delta(t@, d@),
{
    if !t.as_str().is_empty() {
        let ghost dm = d@;
        out.push(d);
        proof {
            assert(deltas_model(final(out)@) =~= deltas_model(old(out)@) + seq![dm]);
        }
    } else {
        proof {
            assert(deltas_model(final(out)@) =~= deltas_model(old(out)@) + seq![]);
        }
    }
}

impl AnyChatStream {
    pub fn new() -> (r: Self)
        ensures
            r@ == fresh_chat_stream(),
    {
        let r = AnyChatStream {
            saw_tool_call: false,
            saw_responses_text_delta: false,
            call_order: Vec::new(),
            call_names: Vec::new(),
            call_ids_by_output_index: Vec::new(),
        };
        proof {
            assert(r@.order =~= seq![]);
            assert(r@.names =~= seq![]);
            assert(r@.by_index =~= seq![]);
        }
        r
    }

    /// Why the completion finished: tool calls when one was sent, else a
    /// normal stop.
    pub fn finish_reason(&self) -> (r: FinishReason)
        ensures
            r == (if self.saw_tool_call {
                FinishReason::ToolCalls
            } else {
                FinishReason::Stop
            }),
    {
        if self.saw_tool_call {
            FinishReason::ToolCalls
        } else {
            FinishReason::Stop
        }
    }

    fn position(&self, id: &String) -> (r: Option<usize>)
        ensures
            match r {
                Some(i) => i < self.call_order@.len() && position_from(self@.order, id@, 0) == Some(i as int),
                None => position_from(self@.order, id@, 0) is None,
            },
    {
        let mut i: usize = 0;
        while i < self.call_order.len()
            invariant
                i <= self.call_order@.len(),
                position_from(self@.order, id@, 0) == position_from(self@.order, id@, i as int),
            decreases self.call_order@.len() - i,
        {
            if self.call_order[i] == *id {
                return Some(i);
            }
            i += 1;
        }
        None
    }

    fn recorded_name(&self, id: &String) -> (r: Option<String>)
        ensures
            match r {
                Some(n) => name_of(self@.names, id@) == Some(n@),
                None => name_of(self@.names, id@) is None,
            },
    {
        let mut i: usize = 0;
        while i < self.call_names.len()
            invariant
                i <= self.call_names@.len(),
                name_position_from(self@.names, id@, 0) == name_position_from(self@.names, id@, i as int),
            decreases self.call_names@.len() - i,
        {
            if self.call_names[i].0 == *id {
                return Some(self.call_names[i].1.clone());
            }
            i += 1;
        }
        None
    }

    fn record_name(&mut self, id: &String, name: &String)
        ensures
            final(self)@ == (AnyChatModel { names: names_with(old(self)@.names, id@, name@), ..old(self)@ }),
    {
        if name.as_str().is_empty() {
            return;
        }
        let ghost names = self@.names;
        let mut i: usize = 0;
        while i < self.call_names.len()
            invariant
                i <= self.call_names@.len(),
                self@ == old(self)@,
                name@.len() > 0,
                names == self@.names,
                name_position_from(names, id@, 0) == name_position_from(names, id@, i as int),
            decreases self.call_names@.len() - i,
        {
            if self.call_names[i].0 == *id {
                proof {
                    assert(names[i as int].0 == id@);
                    assert(name_position_from(names, id@, i as int) == Some(i as int));
                }
                self.call_names.set(i, (id.clone(), name.clone()));
                proof {
                    assert(self@.names =~= names.update(i as int, (id@, name@)));
                }
                return;
            }
            i += 1;
        }
        self.call_names.push((id.clone(), name.clone()));
        proof {
            assert(self@.names =~= names.push((id@, name@)));
        }
    }

    fn record_output_index(&mut self, data: &JsonValue, id: &String)
        ensures
            final(self)@ == (AnyChatModel { by_index: by_index_with(old(self)@, data@, id@), ..old(self)@ }),
    {
        if let Some(k) = opt_u64(data.get("output_index")) {
            index_record(&mut self.call_ids_by_output_index, k, id);
        }
    }

    fn ensure_in_order(&mut self, id: &String) -> (r: usize)
        ensures
            final(self)@ == (AnyChatModel { order: order_with(old(self)@.order, id@), ..old(self)@ }),
            position_from(final(self)@.order, id@, 0) == Some(r as int),
    {
        match self.position(id) {
            Some(i) => i,
            None => {
                let n = self.call_order.len();
                let ghost order = self@.order;
                self.call_order.push(id.clone());
                proof {
                    assert(self@.order =~= order.push(id@));
                    lemma_position_after_push(order, id@, 0);
                }
                n
            },
        }
    }

    /// Sends a tool call (see [`with_tool_call`]).
    fn send_tool_call(&mut self, id: &String, name: &String, args: TextPiece, out: &mut Vec<ChatDelta>)
        ensures
            final(self)@ == with_tool_call(old(self)@, id@, name@, args@).0,
            deltas_model(final(out)@) == deltas_model(old(out)@) + with_tool_call(old(self)@, id@, name@, args@).1,
    {
        let ghost am = args@;
        let index = self.ensure_in_order(id);
        self.saw_tool_call = true;
        out.push(ChatDelta::ToolCall { index, id: id.clone(), name: name.clone(), arguments: args });
        proof {
            assert(deltas_model(final(out)@) =~= deltas_model(old(out)@) + seq![
                ChatDeltaModel::ToolCall { index, id: id@, name: name@, arguments: am },
            ]);
        }
    }

    fn on_call_added(&mut self, data: &JsonValue, out: &mut Vec<ChatDelta>)
        ensures
            final(self)@ == call_added_step(old(self)@, data@).0,
            deltas_model(final(out)@) == deltas_model(old(out)@) + call_added_step(old(self)@, data@).1,
    {
        proof {
            assert(deltas_model(old(out)@) + seq![] =~= deltas_model(old(out)@));
        }
        let item = match data.get("item") {
            Some(i) => i,
            None => data,
        };
        if type_is(item, "function_call") {
            let id = text_of(item.get("call_id"));
            let name = text_of(item.get("name"));
            if !id.as_str().is_empty() {
                self.record_name(&id, &name);
                self.record_output_index(data, &id);
                self.send_tool_call(&id, &name, TextPiece::Text(empty_string()), out);
            }
        }
    }

    fn on_call_arguments(&mut self, data: &JsonValue, record_name: bool, out: &mut Vec<ChatDelta>)
        ensures
            final(self)@ == call_arguments_step(old(self)@, data@, record_name).0,
            deltas_model(final(out)@) == deltas_model(old(out)@) + call_arguments_step(old(self)@, data@, record_name).1,
    {
        let id = match opt_str(data.get("call_id")) {
            Some(s) => string_of(s),
            None => match opt_u64(data.get("output_index")) {
                Some(k) => match index_find(&self.call_ids_by_output_index, k) {
                    Some(c) => c,
                    None => empty_string(),
                },
                None => empty_string(),
            },
        };
        if id.as_str().is_empty() {
            proof {
                assert(deltas_model(out@) =~= deltas_model(old(out)@) + seq![]);
            }
            return;
        }
        let name = match opt_str(data.get("name")) {
            Some(n) => string_of(n),
            None => match self.recorded_name(&id) {
                Some(n) => n,
                None => empty_string(),
            },
        };
        if record_name {
            self.record_name(&id, &name);
        }
        let delta = text_of(data.get("delta"));
        self.send_tool_call(&id, &name, TextPiece::Text(delta), out);
    }

    fn on_item_done(&mut self, data: &JsonValue, out: &mut Vec<ChatDelta>)
        ensures
            final(self)@ == chat_item_done_step(old(self)@, data@).0,
            deltas_model(final(out)@) == deltas_model(old(out)@) + chat_item_done_step(old(self)@, data@).1,
    {
        proof {
            reveal_strlit("function_call");
            reveal_strlit("message");
            reveal_strlit("reasoning");
            assert(deltas_model(old(out)@) + seq![] =~= deltas_model(old(out)@));
        }
        let item = match data.get("item") {
            Some(i) => i,
            None => data,
        };
        if type_is(item, "function_call") {
            let id = text_of(item.get("call_id"));
            if id.as_str().is_empty() {
                return;
            }
            let name = match opt_str(item.get("name")) {
                Some(n) => string_of(n),
                None => match self.recorded_name(&id) {
                    Some(n) => n,
                    None => empty_string(),
                },
            };
            self.ensure_in_order(&id);
            self.record_name(&id, &name);
            self.record_output_index(data, &id);
            let args = text_of(item.get("arguments"));
            if !args.as_str().is_empty() {
                self.send_tool_call(&id, &name, TextPiece::Text(args), out);
            } else {
                proof {
                    assert(order_with(order_with(old(self)@.order, id@), id@) == order_with(
                        old(self)@.order,
                        id@,
                    )) by {
                        lemma_order_with_idempotent(old(self)@.order, id@);
                    }
                }
            }
            proof {
                lemma_order_with_idempotent(old(self)@.order, id@);
            }
        } else if type_is(item, "message") {
            if !self.saw_responses_text_delta {
                let text = extract_responses_message_text(item);
                let ghost tm = text@;
                push_nonempty(text.clone(), ChatDelta::Content(text), out);
            }
        } else if type_is(item, "reasoning") {
            let (text, sig) = extract_reasoning_text_and_signature(item);
            push_nonempty(text.clone(), ChatDelta::ReasoningText(text), out);
            push_nonempty(sig.clone(), ChatDelta::ReasoningSignature(TextPiece::Text(sig)), out);
            proof {
                assert(deltas_model(out@) =~= deltas_model(old(out)@) + chat_item_done_step(old(self)@, data@).1);
            }
        }
    }

    /// Applies one responses (or, with `grok`, Grok) stream event named
    /// `event` (see [`responses_chat_step`]) and gives the chat deltas to send.
    pub fn on_responses_event(&mut self, event: &str, data: &JsonValue, grok: bool) -> (r: Vec<ChatDelta>)
        ensures
            final(self)@ == responses_chat_step(old(self)@, event@, data@, grok).0,
            deltas_model(r@) == responses_chat_step(old(self)@, event@, data@, grok).1,
    {
        proof {
            reveal_strlit("response.output_text.delta");
            reveal_strlit("response.reasoning_text.delta");
            reveal_strlit("response.reasoning_signature.delta");
            reveal_strlit("response.output_item.added");
            reveal_strlit("response.function_call_arguments.delta");
            reveal_strlit("response.output_item.done");
        }
        let mut out: Vec<ChatDelta> = Vec::new();
        proof {
            assert(deltas_model(out@) =~= seq![]);
        }
        let name = string_of(event);
        if lit_eq(&name, "response.output_text.delta") {
            let t = first_string(data.get("text"), data.get("delta"));
            if !t.as_str().is_empty() {
                if !grok {
                    self.saw_responses_text_delta = true;
                }
                out.push(ChatDelta::Content(t));
                proof {
                    assert(deltas_model(out@) =~= responses_chat_step(old(self)@, event@, data@, grok).1);
                }
            }
        } else if lit_eq(&name, "response.reasoning_text.delta") {
            let t = first_string(data.get("delta"), data.get("text"));
            push_nonempty(t.clone(), ChatDelta::ReasoningText(t), &mut out);
        } else if lit_eq(&name, "response.reasoning_signature.delta") {
            let t = text_of(data.get("delta"));
            push_nonempty(t.clone(), ChatDelta::ReasoningSignature(TextPiece::Text(t)), &mut out);
        } else if lit_eq(&name, "response.output_item.added") {
            self.on_call_added(data, &mut out);
        } else if lit_eq(&name, "response.function_call_arguments.delta") {
            self.on_call_arguments(data, !grok, &mut out);
        } else if lit_eq(&name, "response.output_item.done") && !grok {
            self.on_item_done(data, &mut out);
        }
        proof {
            assert(deltas_model(out@) =~= responses_chat_step(old(self)@, event@, data@, grok).1);
        }
        out
    }

    /// Applies one Anthropic messages stream event (see
    /// [`messages_chat_step`]) and gives the chat deltas to send.
    pub fn on_messages_event(&mut self, data: &JsonValue) -> (r: Vec<ChatDelta>)
        ensures
            final(self)@ == messages_chat_step(old(self)@, data@).0,
            deltas_model(r@) == messages_chat_step(old(self)@, data@).1,
    {
        proof {
            reveal_strlit("content_block_delta");
            reveal_strlit("content_block_start");
            reveal_strlit("text_delta");
            reveal_strlit("thinking_delta");
            reveal_strlit("signature_delta");
            reveal_strlit("input_json_delta");
        }
        let mut out: Vec<ChatDelta> = Vec::new();
        proof {
            assert(deltas_model(out@) =~= seq![]);
        }
        let ty = text_of(data.get("type"));
        let null = JsonValue::Null;
        if lit_eq(&ty, "content_block_delta") {
            let delta = match data.get("delta") {
                Some(d) => d,
                None => &null,
            };
            let dt = text_of(delta.get("type"));
            if lit_eq(&dt, "text_delta") {
                let t = text_of(delta.get("text"));
                push_nonempty(t.clone(), ChatDelta::Content(t), &mut out);
            } else if lit_eq(&dt, "thinking_delta") {
                let t = text_of(delta.get("thinking"));
                push_nonempty(t.clone(), ChatDelta::ReasoningText(t), &mut out);
            } else if lit_eq(&dt, "signature_delta") {
                let t = text_of(delta.get("signature"));
                push_nonempty(t.clone(), ChatDelta::ReasoningSignature(TextPiece::Text(t)), &mut out);
            } else if lit_eq(&dt, "input_json_delta") {
                let n = self.call_order.len();
                let id = if n > 0 {
                    self.call_order[n - 1].clone()
                } else {
                    empty_string()
                };
                let partial = text_of(delta.get("partial_json"));
                if !id.as_str().is_empty() && !partial.as_str().is_empty() {
                    let name = match self.recorded_name(&id) {
                        Some(nm) => nm,
                        None => empty_string(),
                    };
                    proof {
                        assert(self@.order.last() == id@);
                    }
                    self.send_tool_call(&id, &name, TextPiece::Text(partial), &mut out);
                }
            }
        } else if lit_eq(&ty, "content_block_start") {
            let cb = match data.get("content_block") {
                Some(c) => c,
                None => &null,
            };
            if type_is(cb, "tool_use") {
                let id = text_of(cb.get("id"));
                let name = text_of(cb.get("name"));
                if !id.as_str().is_empty() {
                    self.record_name(&id, &name);
                    self.send_tool_call(&id, &name, TextPiece::Text(empty_string()), &mut out);
                }
            }
        }
        proof {
            assert(deltas_model(out@) =~= messages_chat_step(old(self)@, data@).1);
        }
        out
    }

    /// Applies one Gemini chunk (see [`gemini_chat_item_step`]) and gives the
    /// chat deltas to send.
    pub fn on_gemini_chunk(&mut self, data: &JsonValue) -> (r: Vec<ChatDelta>)
        ensures
            final(self)@ == gemini_chat_items_steps(old(self)@, chunk_items(data@)).0,
            deltas_model(r@) == gemini_chat_items_steps(old(self)@, chunk_items(data@)).1,
    {
        let mut items = gemini_chunk_items(data);
        let ghost all = gemini_items_model(items@);
        let mut out: Vec<ChatDelta> = Vec::new();
        proof {
            assert(deltas_model(out@) =~= seq![]);
            assert(all.take(0) =~= seq![]);
        }
        let n = items.len();
        let mut i: usize = 0;
        while i < n
            invariant
                i <= n,
                n == all.len(),
                items@.len() == n - i,
                gemini_items_model(items@) == all.skip(i as int),
                self@ == gemini_chat_items_steps(old(self)@, all.take(i as int)).0,
                deltas_model(out@) == gemini_chat_items_steps(old(self)@, all.take(i as int)).1,
            decreases n - i,
        {
            let ghost before = items@;
            let ghost out_before = deltas_model(out@);
            let item = items.remove(0);
            proof {
                assert(items@ =~= before.subrange(1, before.len() as int));
                assert(gemini_items_model(items@) =~= gemini_items_model(before).skip(1));
                assert(all.skip(i as int).skip(1) =~= all.skip(i + 1));
                assert(item@ == gemini_items_model(before)[0]);
                assert(gemini_items_model(before)[0] == all.skip(i as int)[0]);
                assert(all.take(i + 1).drop_last() =~= all.take(i as int));
                assert(all.take(i + 1).last() == all[i as int]);
            }
            match item {
                GeminiItem::Thought(t) => {
                    out.push(ChatDelta::ReasoningText(t));
                },
                GeminiItem::Signature(p) => {
                    out.push(ChatDelta::ReasoningSignature(p));
                },
                GeminiItem::Text(t) => {
                    out.push(ChatDelta::Content(t));
                },
                GeminiItem::Call { id, name, args } => {
                    self.send_tool_call(&id, &name, TextPiece::Encoded(args), &mut out);
                },
            }
            proof {
                let prev = gemini_chat_items_steps(old(self)@, all.take(i as int));
                assert(deltas_model(out@) =~= prev.1 + gemini_chat_item_step(prev.0, all[i as int]).1);
            }
            i += 1;
        }
        proof {
            assert(all.take(n as int) =~= all);
        }
        out
    }
}

/// A JSON number for `n`, as the parser would classify it.
pub open spec fn number_model(n: i64) -> JsonModel {
    if n >= 0 {
        JsonModel::PosInt(n as u64)
    } else {
        JsonModel::NegInt(n)
    }
}

/// `members` with `key` set to `v` when it has no such member.
pub open spec fn with_default(members: Seq<(Seq<char>, JsonModel)>, key: Seq<char>, v: JsonModel) -> Seq<
    (Seq<char>, JsonModel),
> {
    if lookup(members, key) is Some {
        members
    } else {
        map_insert(members, key, v)
    }
}

/// A choice with its `delta` object in `reasoning_details` form.
pub open spec fn normalized_choice(c: JsonModel) -> JsonModel {
    match c {
        JsonModel::Object(members) => match key_index(members, "delta"@) {
            Some(i) => match members[i].1 {
                JsonModel::Object(d) => JsonModel::Object(
                    members.update(i, ("delta"@, JsonModel::Object(normalized_delta(d)))),
                ),
                _ => c,
            },
            None => c,
        },
        _ => c,
    }
}

/// `choices` with its first choice normalized.
pub open spec fn normalized_choices(v: JsonModel) -> JsonModel {
    match v {
        JsonModel::Array(items) => if items.len() > 0 {
            JsonModel::Array(items.update(0, normalized_choice(items[0])))
        } else {
            v
        },
        _ => v,
    }
}

/// A chat completion chunk passed through: an object gets the requested
/// `model`, an `id`, `object` and `created` where it has none, and its first
/// choice's delta in `reasoning_details` form; anything else is unchanged.
pub open spec fn rewritten_chunk(c: JsonModel, model: Seq<char>, id: Seq<char>, created: i64) -> JsonModel {
    match c {
        JsonModel::Object(m) => {
            let m1 = map_insert(m, "model"@, JsonModel::Str(model));
            let m2 = with_default(m1, "id"@, JsonModel::Str(id));
            let m3 = with_default(m2, "object"@, JsonModel::Str("chat.completion.chunk"@));
            let m4 = with_default(m3, "created"@, number_model(created));
            match key_index(m4, "choices"@) {
                Some(i) => JsonModel::Object(m4.update(i, ("choices"@, normalized_choices(m4[i].1)))),
                None => JsonModel::Object(m4),
            }
        },
        _ => c,
    }
}

fn set_default(members: &mut Vec<(String, JsonValue)>, key: &str, v: JsonValue)
    ensures
        members_model(final(members)@) == with_default(members_model(old(members)@), key@, v@),
{
    match crate::json::member(members, key) {
        Some(_) => {},
        None => insert_member(members, key, v),
    }
}

fn normalize_choice(c: JsonValue) -> (r: JsonValue)
    ensures
        r@ == normalized_choice(c@),
{
    let ghost cm = c@;
    match c {
        JsonValue::Object(mut members) => {
            proof {
                assert(cm->Object_0 =~= members_model(members@));
            }
            match member_index(&members, "delta") {
                Some(i) => {
                    proof {
                        crate::json::lemma_key_index_found(members_model(members@), "delta"@, 0);
                    }
                    let ghost whole = members@;
                    let (k, d) = members.remove(i);
                    let ghost dmodel = d@;
                    proof {
                        assert(k@ == members_model(whole)[i as int].0);
                        assert(dmodel == cm->Object_0[i as int].1);
                    }
                    match d {
                        JsonValue::Object(mut dm) => {
                            let ghost before = members_model(dm@);
                            proof {
                                assert(dmodel->Object_0 =~= before);
                            }
                            normalize_chat_reasoning_delta_object(&mut dm);
                            members.insert(i, (k, JsonValue::Object(dm)));
                            let r = JsonValue::Object(members);
                            proof {
                                assert(k@ == "delta"@);
                                assert(JsonValue::Object(dm)@->Object_0 =~= members_model(dm@));
                                assert(r@->Object_0 =~= cm->Object_0.update(
                                    i as int,
                                    ("delta"@, JsonModel::Object(normalized_delta(before))),
                                ));
                            }
                            r
                        },
                        other => {
                            let ghost om = other@;
                            members.insert(i, (k, other));
                            let r = JsonValue::Object(members);
                            proof {
                                assert(r@->Object_0 =~= cm->Object_0);
                            }
                            r
                        },
                    }
                },
                None => {
                    let r = JsonValue::Object(members);
                    proof {
                        assert(r@->Object_0 =~= cm->Object_0);
                    }
                    r
                },
            }
        },
        other => other,
    }
}

fn normalize_choices(v: JsonValue) -> (r: JsonValue)
    ensures
        r@ == normalized_choices(v@),
{
    let ghost vm = v@;
    match v {
        JsonValue::Array(mut items) => {
            if items.len() > 0 {
                let first = items.remove(0);
                let f = normalize_choice(first);
                items.insert(0, f);
                let r = JsonValue::Array(items);
                proof {
                    assert(r@->Array_0 =~= vm->Array_0.update(0, normalized_choice(vm->Array_0[0])));
                }
                r
            } else {
                let r = JsonValue::Array(items);
                proof {
                    assert(r@->Array_0 =~= vm->Array_0);
                }
                r
            }
        },
        other => other,
    }
}

/// A chat completion chunk as it is passed through (see
/// [`rewritten_chunk`]).
pub fn rewrite_chat_chunk(chunk: JsonValue, model: &str, id: &str, created: i64) -> (r: JsonValue)
    ensures
        r@ == rewritten_chunk(chunk@, model@, id@, created),
{
    let ghost cm = chunk@;
    match chunk {
        JsonValue::Object(mut members) => {
            proof {
                assert(cm->Object_0 =~= members_model(members@));
                reveal_strlit("chat.completion.chunk");
            }
            insert_member(&mut members, "model", JsonValue::Str(string_of(model)));
            set_default(&mut members, "id", JsonValue::Str(string_of(id)));
            set_default(&mut members, "object", JsonValue::Str(string_of("chat.completion.chunk")));
            let number = if created >= 0 {
                JsonValue::Number(JsonNumber::PosInt(created as u64))
            } else {
                JsonValue::Number(JsonNumber::NegInt(created))
            };
            set_default(&mut members, "created", number);
            let ghost m4 = members_model(members@);
            match member_index(&members, "choices") {
                Some(i) => {
                    proof {
                        crate::json::lemma_key_index_found(m4, "choices"@, 0);
                    }
                    let ghost whole = members@;
                    let (k, v) = members.remove(i);
                    proof {
                        assert(k@ == members_model(whole)[i as int].0);
                        assert(v@ == m4[i as int].1);
                    }
                    let v2 = normalize_choices(v);
                    members.insert(i, (k, v2));
                    let r = JsonValue::Object(members);
                    proof {
                        assert(r@->Object_0 =~= m4.update(i as int, ("choices"@, normalized_choices(m4[i as int].1))));
                    }
                    r
                },
                None => {
                    let r = JsonValue::Object(members);
                    proof {
                        assert(r@->Object_0 =~= m4);
                    }
                    r
                },
            }
        },
        other => other,
    }
}

/// After appending an id absent from `order`, it is found at the end.
pub proof fn lemma_position_after_push(order: Seq<Seq<char>>, id: Seq<char>, i: int)
    requires
        0 <= i <= order.len(),
        position_from(order, id, i) is None,
    ensures
        position_from(order.push(id), id, i) == Some(order.len() as int),
    decreases order.len() - i,
{
    if i < order.len() {
        lemma_position_after_push(order, id, i + 1);
    }
}

/// Adding an id twice is adding it once.
pub proof fn lemma_order_with_idempotent(order: Seq<Seq<char>>, id: Seq<char>)
    ensures
        order_with(order_with(order, id), id) == order_with(order, id),
{
    if position_from(order, id, 0) is None {
        lemma_position_after_push(order, id, 0);
    }
}

/// Every call already in `old` stands at the same position in `new`.
pub open spec fn keeps_positions(old: Seq<Seq<char>>, new: Seq<Seq<char>>) -> bool {
    forall|id: Seq<char>| #[trigger] position_from(old, id, 0) is Some ==> position_from(new, id, 0) == position_from(old, id, 0)
}

/// Every tool call in `ds` carries the position of its id in `order`.
pub open spec fn indices_match(order: Seq<Seq<char>>, ds: Seq<ChatDeltaModel>) -> bool {
    forall|k: int|
        0 <= k < ds.len() ==> (#[trigger] ds[k] matches ChatDeltaModel::ToolCall { index, id, .. } ==> position_from(
            order,
            id,
            0,
        ) == Some(index as int))
}

proof fn lemma_position_kept_by_push(order: Seq<Seq<char>>, x: Seq<char>, id: Seq<char>, i: int)
    requires
        0 <= i,
        position_from(order, id, i) is Some,
    ensures
        position_from(order.push(x), id, i) == position_from(order, id, i),
    decreases order.len() - i,
{
    if i < order.len() && order[i] != id {
        lemma_position_kept_by_push(order, x, id, i + 1);
    }
}

proof fn lemma_order_with_keeps(order: Seq<Seq<char>>, x: Seq<char>)
    ensures
        keeps_positions(order, order_with(order, x)),
        position_from(order_with(order, x), x, 0) is Some,
        order_with(order, x).len() <= order.len() + 1,
{
    if position_from(order, x, 0) is None {
        lemma_position_after_push(order, x, 0);
        assert forall|id: Seq<char>| #[trigger] position_from(order, id, 0) is Some implies position_from(
            order_with(order, x),
            id,
            0,
        ) == position_from(order, id, 0) by {
            lemma_position_kept_by_push(order, x, id, 0);
        }
    }
}

proof fn lemma_position_bound(order: Seq<Seq<char>>, id: Seq<char>, i: int)
    requires
        0 <= i,
        position_from(order, id, i) is Some,
    ensures
        i <= position_from(order, id, i)->0 < order.len(),
    decreases order.len() - i,
{
    if i < order.len() && order[i] != id {
        lemma_position_bound(order, id, i + 1);
    }
}

proof fn lemma_tool_call_step(m: AnyChatModel, id: Seq<char>, name: Seq<char>, args: PieceModel)
    requires
        m.order.len() <= usize::MAX || (position_from(m.order, id, 0) is Some && m.order.len() <= usize::MAX + 1),
    ensures
        keeps_positions(m.order, with_tool_call(m, id, name, args).0.order),
        indices_match(with_tool_call(m, id, name, args).0.order, with_tool_call(m, id, name, args).1),
        with_tool_call(m, id, name, args).0.order.len() <= m.order.len() + 1,
{
    lemma_order_with_keeps(m.order, id);
    let order = order_with(m.order, id);
    lemma_position_bound(order, id, 0);
    if position_from(m.order, id, 0) is Some {
        assert(order == m.order);
    }
}

proof fn lemma_keeps_trans(a: Seq<Seq<char>>, b: Seq<Seq<char>>, c: Seq<Seq<char>>)
    requires
        keeps_positions(a, b),
        keeps_positions(b, c),
    ensures
        keeps_positions(a, c),
{
    assert forall|id: Seq<char>| #[trigger] position_from(a, id, 0) is Some implies position_from(c, id, 0)
        == position_from(a, id, 0) by {
        assert(position_from(b, id, 0) == position_from(a, id, 0));
    }
}

/// A tool call keeps its index for the whole chat stream: no responses,
/// Grok or messages event moves a call already seen, and every tool call sent
/// carries the position of its id among the calls seen so far.
pub proof fn law_tool_call_index_is_stable(m: AnyChatModel, event: Seq<char>, data: JsonModel, grok: bool)
    requires
        m.order.len() <= usize::MAX,
    ensures
        keeps_positions(m.order, responses_chat_step(m, event, data, grok).0.order),
        indices_match(responses_chat_step(m, event, data, grok).0.order, responses_chat_step(m, event, data, grok).1),
        keeps_positions(m.order, messages_chat_step(m, data).0.order),
        indices_match(messages_chat_step(m, data).0.order, messages_chat_step(m, data).1),
{
    assert(keeps_positions(m.order, m.order));
    assert(indices_match(m.order, seq![]));
    let item = event_item(data);
    let id = text_or_empty(get(item, "call_id"@));
    let name = text_or_empty(get(item, "name"@));
    lemma_tool_call_step(AnyChatModel { names: names_with(m.names, id, name), by_index: by_index_with(m, data, id), ..m }, id, name, PieceModel::Text(seq![]));
    let aid = arguments_call_id(m, data);
    let aname = given_or_recorded_name(m, get(data, "name"@), aid);
    lemma_tool_call_step(AnyChatModel { names: names_with(m.names, aid, aname), ..m }, aid, aname, PieceModel::Text(text_or_empty(get(data, "delta"@))));
    lemma_tool_call_step(m, aid, aname, PieceModel::Text(text_or_empty(get(data, "delta"@))));
    let dname = given_or_recorded_name(m, get(item, "name"@), id);
    let m1 = AnyChatModel {
        order: order_with(m.order, id),
        names: names_with(m.names, id, dname),
        by_index: by_index_with(m, data, id),
        ..m
    };
    lemma_order_with_keeps(m.order, id);
    lemma_tool_call_step(m1, id, dname, PieceModel::Text(text_or_empty(get(item, "arguments"@))));
    lemma_keeps_trans(m.order, m1.order, with_tool_call(m1, id, dname, PieceModel::Text(text_or_empty(get(item, "arguments"@)))).0.order);
    assert(indices_match(m1.order, seq![]));
    let lid = if m.order.len() > 0 { m.order.last() } else { seq![] };
    let lname = match name_of(m.names, lid) {
        Some(n) => n,
        None => seq![],
    };
    let delta = member_or_null(data, "delta"@);
    lemma_tool_call_step(m, lid, lname, PieceModel::Text(text_or_empty(get(delta, "partial_json"@))));
    let cb = member_or_null(data, "content_block"@);
    let bid = text_or_empty(get(cb, "id"@));
    let bname = text_or_empty(get(cb, "name"@));
    lemma_tool_call_step(AnyChatModel { names: names_with(m.names, bid, bname), ..m }, bid, bname, PieceModel::Text(seq![]));
}

/// What a chat stream ends with, after the last delta.
#[derive(Clone, Copy, Debug, PartialEq, Eq, Structural)]
pub enum ChatClosing {
    /// A chunk with an empty delta and this finish reason.
    Finish(FinishReason),
    /// The `[DONE]` marker.
    Done,
}

/// How a chat stream closes: the finish chunk (tool calls when one was sent,
/// else a normal stop), then `[DONE]`.
pub open spec fn chat_closing(m: AnyChatModel) -> Seq<ChatClosing> {
    seq![
        ChatClosing::Finish(if m.saw_tool_call {
            FinishReason::ToolCalls
        } else {
            FinishReason::Stop
        }),
        ChatClosing::Done,
    ]
}

impl AnyChatStream {
    /// What the stream closes with (see [`chat_closing`]).
    pub fn closing_frames(&self) -> (r: Vec<ChatClosing>)
        ensures
            r@ == chat_closing(self@),
    {
        let r = vec![ChatClosing::Finish(self.finish_reason()), ChatClosing::Done];
        proof {
            assert(r@ =~= chat_closing(self@));
        }
        r
    }
}

/// Anthropic text reaches a chat client as content and thinking as
/// reasoning: a `content_block_delta` whose delta is a `text_delta` with
/// non-empty text `t` sends exactly the content `t`, and one whose delta is a
/// `thinking_delta` with non-empty thinking `t` sends exactly the reasoning
/// text `t`; neither changes what the stream remembers.
pub proof fn law_messages_text_is_content_and_thinking_is_reasoning(
    m: AnyChatModel,
    data: JsonModel,
    delta: JsonModel,
    t: Seq<char>,
)
    requires
        get(data, "type"@) == Some(JsonModel::Str("content_block_delta"@)),
        get(data, "delta"@) == Some(delta),
        t.len() > 0,
    ensures
        (get(delta, "type"@) == Some(JsonModel::Str("text_delta"@)) && get(delta, "text"@) == Some(
            JsonModel::Str(t),
        )) ==> messages_chat_step(m, data) == (m, seq![ChatDeltaModel::Content(t)]),
        (get(delta, "type"@) == Some(JsonModel::Str("thinking_delta"@)) && get(delta, "thinking"@) == Some(
            JsonModel::Str(t),
        )) ==> messages_chat_step(m, data) == (m, seq![ChatDeltaModel::ReasoningText(t)]),
{
    reveal_strlit("text_delta");
    reveal_strlit("thinking_delta");
    reveal_strlit("content_block_delta");
    reveal_strlit("content_block_start");
    reveal_strlit("signature_delta");
    reveal_strlit("input_json_delta");
    assert("thinking_delta"@[1] != "text_delta"@[1]);
    assert("thinking_delta"@ != "text_delta"@);
}

} // verus!
