//! A responses stream passed through as it comes, with the text, reasoning
//! and function calls tracked so that the completed response can be
//! summarised at its end.
use vstd::prelude::*;
use crate::chat_responses_stream::{index_entries, index_find, index_insert, index_lookup, index_record, text_of};
use crate::json::{get, opt_str, opt_u64, str_in, u64_in, JsonModel, JsonValue, PieceModel, TextPiece};
use crate::messages_stream::event_item;
use crate::reasoning::{
    extract_reasoning_text_and_signature, extract_responses_message_text, is_text, message_text,
    reasoning_signature, reasoning_text, text_or_empty,
};
use crate::responses_stream::{items_model, lifecycle_model, LifecycleEvent, LifecycleModel, OutputItem, OutputItemModel};
use crate::text::{push_lit, string_of};

verus! {

/// A function call seen on the stream.
#[derive(Debug)]
pub struct SeenCall {
    pub call_id: String,
    pub name: String,
    pub arguments: String,
}

/// What the passthrough has seen: output text, reasoning text and
/// signature, the calls in the order first seen, the call id of each output
/// index, and whether output text arrived as deltas.
#[derive(Debug)]
pub struct ResponsesPassthrough {
    pub output_text: String,
    pub reasoning_text: String,
    pub reasoning_signature: String,
    pub calls: Vec<SeenCall>,
    pub call_ids_by_output_index: Vec<(u64, String)>,
    pub saw_text_delta: bool,
}

/// The content of a [`SeenCall`].
pub struct SeenCallModel {
    pub call_id: Seq<char>,
    pub name: Seq<char>,
    pub arguments: Seq<char>,
}

/// The content of a [`ResponsesPassthrough`].
pub struct PassthroughModel {
    pub output_text: Seq<char>,
    pub reasoning_text: Seq<char>,
    pub reasoning_signature: Seq<char>,
    pub calls: Seq<SeenCallModel>,
    pub by_index: Seq<(u64, Seq<char>)>,
    pub saw_text_delta: bool,
}

pub open spec fn seen_calls_model(v: Seq<SeenCall>) -> Seq<SeenCallModel> {
    v.map_values(|c: SeenCall| SeenCallModel { call_id: c.call_id@, name: c.name@, arguments: c.arguments@ })
}

impl View for ResponsesPassthrough {
    type V = PassthroughModel;

    open spec fn view(&self) -> PassthroughModel {
        PassthroughModel {
            output_text: self.output_text@,
            reasoning_text: self.reasoning_text@,
            reasoning_signature: self.reasoning_signature@,
            calls: seen_calls_model(self.calls@),
            by_index: index_entries(self.call_ids_by_output_index@),
            saw_text_delta: self.saw_text_delta,
        }
    }
}

/// The position of call `id` at or after position `i`.
pub open spec fn seen_position_from(calls: Seq<SeenCallModel>, id: Seq<char>, i: int) -> Option<int>
    decreases calls.len() - i,
{
    if i < 0 || i >= calls.len() {
        None
    } else if calls[i].call_id == id {
        Some(i)
    } else {
        seen_position_from(calls, id, i + 1)
    }
}

/// The position of call `id`.
pub open spec fn seen_position(calls: Seq<SeenCallModel>, id: Seq<char>) -> Option<int> {
    seen_position_from(calls, id, 0)
}

/// The first of two members that is a string.
pub open spec fn either_str(a: Option<JsonModel>, b: Option<JsonModel>) -> Option<Seq<char>> {
    match str_in(a) {
        Some(s) => Some(s),
        None => str_in(b),
    }
}

/// `current` unless it is empty and `given` is not.
pub open spec fn fill(current: Seq<char>, given: Seq<char>) -> Seq<char> {
    if current.len() == 0 && given.len() > 0 {
        given
    } else {
        current
    }
}

/// The call an arguments event refers to: its `call_id`, else the call of
/// its output index.
pub open spec fn passthrough_call_id(m: PassthroughModel, data: JsonModel) -> Option<Seq<char>> {
    match str_in(get(data, "call_id"@)) {
        Some(s) => Some(s),
        None => match u64_in(get(data, "output_index"@)) {
            Some(k) => index_lookup(m.by_index, k),
            None => None,
        },
    }
}

/// `by_index` with the event's output index (if any) recorded for `id`.
pub open spec fn passthrough_index_with(m: PassthroughModel, data: JsonModel, id: Seq<char>) -> Seq<(u64, Seq<char>)> {
    match u64_in(get(data, "output_index"@)) {
        Some(k) => index_insert(m.by_index, k, id),
        None => m.by_index,
    }
}

/// A reasoning item fills the reasoning text and signature that are still
/// empty.
pub open spec fn reasoning_item_step(m: PassthroughModel, item: JsonModel) -> PassthroughModel {
    PassthroughModel {
        reasoning_text: fill(m.reasoning_text, reasoning_text(item)),
        reasoning_signature: fill(m.reasoning_signature, reasoning_signature(item)),
        ..m
    }
}

/// An announced output item: a function call with an id is recorded (when
/// new, with its name and arguments) under its output index; a reasoning
/// item fills empty reasoning.
pub open spec fn item_added_step(m: PassthroughModel, data: JsonModel) -> PassthroughModel {
    let item = event_item(data);
    if is_text(get(item, "type"@), "function_call"@) {
        match str_in(get(item, "call_id"@)) {
            Some(id) => {
                let calls = if seen_position(m.calls, id) is Some {
                    m.calls
                } else {
                    m.calls.push(
                        SeenCallModel {
                            call_id: id,
                            name: text_or_empty(get(item, "name"@)),
                            arguments: text_or_empty(get(item, "arguments"@)),
                        },
                    )
                };
                PassthroughModel { calls, by_index: passthrough_index_with(m, data, id), ..m }
            },
            None => m,
        }
    } else if is_text(get(item, "type"@), "reasoning"@) {
        reasoning_item_step(m, item)
    } else {
        m
    }
}

/// An arguments delta: the call (added when new) takes the name if it had
/// none, and the delta is appended to its arguments.
pub open spec fn arguments_delta_step(m: PassthroughModel, data: JsonModel) -> PassthroughModel {
    match passthrough_call_id(m, data) {
        Some(id) => {
            let name = text_or_empty(get(data, "name"@));
            let delta = text_or_empty(get(data, "delta"@));
            let calls = if seen_position(m.calls, id) is Some {
                m.calls
            } else {
                m.calls.push(SeenCallModel { call_id: id, name, arguments: seq![] })
            };
            let i = seen_position(calls, id)->0;
            PassthroughModel {
                calls: calls.update(
                    i,
                    SeenCallModel { name: fill(calls[i].name, name), arguments: calls[i].arguments + delta, ..calls[i] },
                ),
                ..m
            }
        },
        None => m,
    }
}

/// The end of a call's arguments: a known call with no arguments yet takes
/// the final ones.
pub open spec fn arguments_done_step(m: PassthroughModel, data: JsonModel) -> PassthroughModel {
    match passthrough_call_id(m, data) {
        Some(id) => match seen_position(m.calls, id) {
            Some(i) => PassthroughModel {
                calls: m.calls.update(
                    i,
                    SeenCallModel {
                        arguments: fill(m.calls[i].arguments, text_or_empty(get(data, "arguments"@))),
                        ..m.calls[i]
                    },
                ),
                ..m
            },
            None => m,
        },
        None => m,
    }
}

/// A completed output item: a function call with an id is added, or fills a
/// known call's empty name and arguments, and is recorded under its output
/// index; a reasoning item fills empty reasoning; a message adds its text
/// when text did not arrive as deltas.
pub open spec fn item_done_step(m: PassthroughModel, data: JsonModel) -> PassthroughModel {
    let item = event_item(data);
    if is_text(get(item, "type"@), "function_call"@) {
        match str_in(get(item, "call_id"@)) {
            Some(id) => {
                let name = text_or_empty(get(item, "name"@));
                let args = text_or_empty(get(item, "arguments"@));
                let calls = match seen_position(m.calls, id) {
                    Some(i) => m.calls.update(
                        i,
                        SeenCallModel {
                            name: fill(m.calls[i].name, name),
                            arguments: fill(m.calls[i].arguments, args),
                            ..m.calls[i]
                        },
                    ),
                    None => m.calls.push(SeenCallModel { call_id: id, name, arguments: args }),
                };
                PassthroughModel { calls, by_index: passthrough_index_with(m, data, id), ..m }
            },
            None => m,
        }
    } else if is_text(get(item, "type"@), "reasoning"@) {
        reasoning_item_step(m, item)
    } else if is_text(get(item, "type"@), "message"@) {
        if m.saw_text_delta {
            m
        } else {
            PassthroughModel { output_text: m.output_text + message_text(item), ..m }
        }
    } else {
        m
    }
}

/// What one passed-through event named `event` changes.
pub open spec fn passthrough_step(m: PassthroughModel, event: Seq<char>, data: JsonModel) -> PassthroughModel {
    if event == "response.output_text.delta"@ {
        match either_str(get(data, "text"@), get(data, "delta"@)) {
            Some(t) => PassthroughModel { output_text: m.output_text + t, saw_text_delta: true, ..m },
            None => m,
        }
    } else if event == "response.reasoning_text.delta"@ {
        match either_str(get(data, "delta"@), get(data, "text"@)) {
            Some(t) => PassthroughModel { reasoning_text: m.reasoning_text + t, ..m },
            None => m,
        }
    } else if event == "response.reasoning_signature.delta"@ {
        match str_in(get(data, "delta"@)) {
            Some(t) => PassthroughModel { reasoning_signature: m.reasoning_signature + t, ..m },
            None => m,
        }
    } else if event == "response.output_item.added"@ {
        item_added_step(m, data)
    } else if event == "response.function_call_arguments.delta"@ {
        arguments_delta_step(m, data)
    } else if event == "response.function_call_arguments.done"@ {
        arguments_done_step(m, data)
    } else if event == "response.output_item.done"@ {
        item_done_step(m, data)
    } else {
        m
    }
}

/// The output of the summarised response: a reasoning item when there is
/// reasoning text or signature, each call, then the message.
pub open spec fn passthrough_output(m: PassthroughModel) -> Seq<OutputItemModel> {
    let reasoning = if m.reasoning_text.len() > 0 || m.reasoning_signature.len() > 0 {
        seq![
            OutputItemModel::Reasoning {
                text: m.reasoning_text,
                signature: seq![PieceModel::Text(m.reasoning_signature)],
            },
        ]
    } else {
        seq![]
    };
    reasoning + m.calls.map_values(
        |c: SeenCallModel|
            OutputItemModel::FunctionCall {
                call_id: c.call_id,
                name: c.name,
                arguments: seq![PieceModel::Text(c.arguments)],
            },
    ) + seq![OutputItemModel::Message { text: m.output_text }]
}

fn is_event(s: &String, lit: &str) -> (r: bool)
    ensures
        r == (s@ == lit@),
{
    *s == string_of(lit)
}

fn type_is(v: &JsonValue, lit: &str) -> (r: bool)
    ensures
        r == is_text(get(v@, "type"@), lit@),
{
    match opt_str(v.get("type")) {
        Some(t) => string_of(t) == string_of(lit),
        None => false,
    }
}

fn either_string(a: Option<&JsonValue>, b: Option<&JsonValue>) -> (r: Option<String>)
    ensures
        match r {
            Some(s) => either_str(crate::json::opt_model(a), crate::json::opt_model(b)) == Some(s@),
            None => either_str(crate::json::opt_model(a), crate::json::opt_model(b)) is None,
        },
{
    match opt_str(a) {
        Some(s) => Some(string_of(s)),
        None => match opt_str(b) {
            Some(s) => Some(string_of(s)),
            None => None,
        },
    }
}

impl ResponsesPassthrough {
    pub fn new() -> (r: Self)
        ensures
            r@.output_text.len() == 0,
            r@.reasoning_text.len() == 0,
            r@.reasoning_signature.len() == 0,
            r@.calls.len() == 0,
            r@.by_index.len() == 0,
            !r@.saw_text_delta,
    {
        proof {
            reveal_strlit("");
        }
        ResponsesPassthrough {
            output_text: string_of(""),
            reasoning_text: string_of(""),
            reasoning_signature: string_of(""),
            calls: Vec::new(),
            call_ids_by_output_index: Vec::new(),
            saw_text_delta: false,
        }
    }

    fn position(&self, id: &String) -> (r: Option<usize>)
        ensures
            match r {
                Some(i) => i < self.calls@.len() && seen_position(self@.calls, id@) == Some(i as int),
                None => seen_position(self@.calls, id@) is None,
            },
    {
        let mut i: usize = 0;
        while i < self.calls.len()
            invariant
                i <= self.calls@.len(),
                seen_position(self@.calls, id@) == seen_position_from(self@.calls, id@, i as int),
            decreases self.calls@.len() - i,
        {
            if self.calls[i].call_id == *id {
                return Some(i);
            }
            i += 1;
        }
        None
    }

    fn record_index(&mut self, data: &JsonValue, id: &String)
        ensures
            final(self)@ == (PassthroughModel { by_index: passthrough_index_with(old(self)@, data@, id@), ..old(self)@ }),
    {
        if let Some(k) = opt_u64(data.get("output_index")) {
            index_record(&mut self.call_ids_by_output_index, k, id);
        }
    }

    fn on_reasoning_item(&mut self, item: &JsonValue)
        ensures
            final(self)@ == reasoning_item_step(old(self)@, item@),
    {
        let (text, sig) = extract_reasoning_text_and_signature(item);
        if self.reasoning_text.as_str().is_empty() && !text.as_str().is_empty() {
            self.reasoning_text = text;
        }
        if self.reasoning_signature.as_str().is_empty() && !sig.as_str().is_empty() {
            self.reasoning_signature = sig;
        }
    }

    /// Replaces call `i` by `c`.
    fn set_call(&mut self, i: usize, c: SeenCall)
        requires
            i < old(self).calls@.len(),
        ensures
            final(self)@ == (PassthroughModel {
                calls: old(self)@.calls.update(
                    i as int,
                    SeenCallModel { call_id: c.call_id@, name: c.name@, arguments: c.arguments@ },
                ),
                ..old(self)@
            }),
    {
        let ghost cm = SeenCallModel { call_id: c.call_id@, name: c.name@, arguments: c.arguments@ };
        let mut calls = Vec::new();
        std::mem::swap(&mut calls, &mut self.calls);
        calls.set(i, c);
        self.calls = calls;
        proof {
            assert(self@.calls =~= old(self)@.calls.update(i as int, cm));
        }
    }

    fn add_call(&mut self, c: SeenCall)
        ensures
            final(self)@ == (PassthroughModel {
                calls: old(self)@.calls.push(
                    SeenCallModel { call_id: c.call_id@, name: c.name@, arguments: c.arguments@ },
                ),
                ..old(self)@
            }),
    {
        let ghost cm = SeenCallModel { call_id: c.call_id@, name: c.name@, arguments: c.arguments@ };
        self.calls.push(c);
        proof {
            assert(self@.calls =~= old(self)@.calls.push(cm));
        }
    }

    fn on_item_added(&mut self, data: &JsonValue)
        ensures
            final(self)@ == item_added_step(old(self)@, data@),
    {
        proof {
            reveal_strlit("function_call");
            reveal_strlit("reasoning");
        }
        let item = match data.get("item") {
            Some(i) => i,
            None => data,
        };
        if type_is(item, "function_call") {
            if let Some(id) = opt_str(item.get("call_id")) {
                let id = string_of(id);
                if self.position(&id).is_none() {
                    let name = text_of(item.get("name"));
                    let arguments = text_of(item.get("arguments"));
                    self.add_call(SeenCall { call_id: id.clone(), name, arguments });
                }
                self.record_index(data, &id);
            }
        } else if type_is(item, "reasoning") {
            self.on_reasoning_item(item);
        }
    }

    fn resolve_call_id(&self, data: &JsonValue) -> (r: Option<String>)
        ensures
            match r {
                Some(id) => passthrough_call_id(self@, data@) == Some(id@),
                None => passthrough_call_id(self@, data@) is None,
            },
    {
        match opt_str(data.get("call_id")) {
            Some(s) => Some(string_of(s)),
            None => match opt_u64(data.get("output_index")) {
                Some(k) => index_find(&self.call_ids_by_output_index, k),
                None => None,
            },
        }
    }

    fn on_arguments_delta(&mut self, data: &JsonValue)
        ensures
            final(self)@ == arguments_delta_step(old(self)@, data@),
    {
        if let Some(id) = self.resolve_call_id(data) {
            let name = text_of(data.get("name"));
            let delta = text_of(data.get("delta"));
            if self.position(&id).is_none() {
                proof {
                    reveal_strlit("");
                }
                let empty = string_of("");
                proof {
                    assert(empty@ =~= Seq::<char>::empty());
                }
                self.add_call(SeenCall { call_id: id.clone(), name: name.clone(), arguments: empty });
                proof {
                    lemma_seen_position_after_push(old(self)@.calls, id@, 0, SeenCallModel {
                        call_id: id@,
                        name: name@,
                        arguments: seq![],
                    });
                }
            }
            let i = match self.position(&id) {
                Some(i) => i,
                None => {
                    return;
                },
            };
            let current = &self.calls[i];
            let new_name = if current.name.as_str().is_empty() && !name.as_str().is_empty() {
                name
            } else {
                current.name.clone()
            };
            let mut args = current.arguments.clone();
            push_lit(&mut args, delta.as_str());
            let c = SeenCall { call_id: current.call_id.clone(), name: new_name, arguments: args };
            self.set_call(i, c);
        }
    }

    fn on_arguments_done(&mut self, data: &JsonValue)
        ensures
            final(self)@ == arguments_done_step(old(self)@, data@),
    {
        if let Some(id) = self.resolve_call_id(data) {
            if let Some(i) = self.position(&id) {
                let args = text_of(data.get("arguments"));
                let current = &self.calls[i];
                if current.arguments.as_str().is_empty() && !args.as_str().is_empty() {
                    let c = SeenCall { call_id: current.call_id.clone(), name: current.name.clone(), arguments: args };
                    self.set_call(i, c);
                } else {
                    proof {
                        let m = old(self)@;
                        assert(m.calls.update(i as int, SeenCallModel { arguments: fill(m.calls[i as int].arguments, args@), ..m.calls[i as int] }) =~= m.calls);
                    }
                }
            }
        }
    }

    fn on_item_done(&mut self, data: &JsonValue)
        ensures
            final(self)@ == item_done_step(old(self)@, data@),
    {
        proof {
            reveal_strlit("function_call");
            reveal_strlit("reasoning");
            reveal_strlit("message");
        }
        let item = match data.get("item") {
            Some(i) => i,
            None => data,
        };
        if type_is(item, "function_call") {
            if let Some(id) = opt_str(item.get("call_id")) {
                let id = string_of(id);
                let name = text_of(item.get("name"));
                let args = text_of(item.get("arguments"));
                match self.position(&id) {
                    Some(i) => {
                        let current = &self.calls[i];
                        let new_name = if current.name.as_str().is_empty() && !name.as_str().is_empty() {
                            name
                        } else {
                            current.name.clone()
                        };
                        let new_args = if current.arguments.as_str().is_empty() && !args.as_str().is_empty() {
                            args
                        } else {
                            current.arguments.clone()
                        };
                        let c = SeenCall { call_id: current.call_id.clone(), name: new_name, arguments: new_args };
                        self.set_call(i, c);
                    },
                    None => {
                        self.add_call(SeenCall { call_id: id.clone(), name, arguments: args });
                    },
                }
                self.record_index(data, &id);
            }
        } else if type_is(item, "reasoning") {
            self.on_reasoning_item(item);
        } else if type_is(item, "message") {
            if !self.saw_text_delta {
                let text = extract_responses_message_text(item);
                push_lit(&mut self.output_text, text.as_str());
            }
        }
    }

    /// Notes one passed-through event named `event` (see
    /// [`passthrough_step`]).
    pub fn on_event(&mut self, event: &str, data: &JsonValue)
        ensures
            final(self)@ == passthrough_step(old(self)@, event@, data@),
    {
        proof {
            reveal_strlit("response.output_text.delta");
            reveal_strlit("response.reasoning_text.delta");
            reveal_strlit("response.reasoning_signature.delta");
            reveal_strlit("response.output_item.added");
            reveal_strlit("response.function_call_arguments.delta");
            reveal_strlit("response.function_call_arguments.done");
            reveal_strlit("response.output_item.done");
        }
        let name = string_of(event);
        if is_event(&name, "response.output_text.delta") {
            if let Some(t) = either_string(data.get("text"), data.get("delta")) {
                push_lit(&mut self.output_text, t.as_str());
                self.saw_text_delta = true;
            }
        } else if is_event(&name, "response.reasoning_text.delta") {
            if let Some(t) = either_string(data.get("delta"), data.get("text")) {
                push_lit(&mut self.reasoning_text, t.as_str());
            }
        } else if is_event(&name, "response.reasoning_signature.delta") {
            if let Some(t) = opt_str(data.get("delta")) {
                push_lit(&mut self.reasoning_signature, t);
            }
        } else if is_event(&name, "response.output_item.added") {
            self.on_item_added(data);
        } else if is_event(&name, "response.function_call_arguments.delta") {
            self.on_arguments_delta(data);
        } else if is_event(&name, "response.function_call_arguments.done") {
            self.on_arguments_done(data);
        } else if is_event(&name, "response.output_item.done") {
            self.on_item_done(data);
        }
    }

    /// The output items of the summarised response (see
    /// [`passthrough_output`]).
    pub fn output_items(&self) -> (r: Vec<OutputItem>)
        ensures
            items_model(r@) == passthrough_output(self@),
    {
        let mut items: Vec<OutputItem> = Vec::new();
        if !self.reasoning_text.as_str().is_empty() || !self.reasoning_signature.as_str().is_empty() {
            let mut sig = Vec::new();
            sig.push(TextPiece::Text(self.reasoning_signature.clone()));
            items.push(OutputItem::Reasoning { text: self.reasoning_text.clone(), signature: sig });
            proof {
                assert(crate::json::pieces_model(sig@) =~= seq![PieceModel::Text(self@.reasoning_signature)]);
            }
        }
        let ghost head = items_model(items@);
        proof {
            assert(head =~= (if self@.reasoning_text.len() > 0 || self@.reasoning_signature.len() > 0 {
                seq![
                    OutputItemModel::Reasoning {
                        text: self@.reasoning_text,
                        signature: seq![PieceModel::Text(self@.reasoning_signature)],
                    },
                ]
            } else {
                seq![]
            }));
        }
        let ghost call_items = self@.calls.map_values(
            |c: SeenCallModel|
                OutputItemModel::FunctionCall {
                    call_id: c.call_id,
                    name: c.name,
                    arguments: seq![PieceModel::Text(c.arguments)],
                },
        );
        let mut i: usize = 0;
        while i < self.calls.len()
            invariant
                i <= self.calls@.len(),
                call_items == self@.calls.map_values(
                    |c: SeenCallModel|
                        OutputItemModel::FunctionCall {
                            call_id: c.call_id,
                            name: c.name,
                            arguments: seq![PieceModel::Text(c.arguments)],
                        },
                ),
                items_model(items@) == head + call_items.take(i as int),
            decreases self.calls@.len() - i,
        {
            let c = &self.calls[i];
            let mut args = Vec::new();
            args.push(TextPiece::Text(c.arguments.clone()));
            let ghost before = items@;
            items.push(OutputItem::FunctionCall { call_id: c.call_id.clone(), name: c.name.clone(), arguments: args });
            proof {
                assert(crate::json::pieces_model(args@) =~= seq![PieceModel::Text(c.arguments@)]);
                assert(items@ =~= before.push(items@[items@.len() - 1]));
                assert(items_model(items@) =~= items_model(before).push(items@[items@.len() - 1]@));
                assert(call_items.take(i + 1) =~= call_items.take(i as int).push(call_items[i as int]));
                assert(items_model(items@) =~= head + call_items.take(i + 1));
            }
            i += 1;
        }
        items.push(OutputItem::Message { text: self.output_text.clone() });
        proof {
            assert(call_items.take(self.calls@.len() as int) =~= call_items);
            assert(items_model(items@) =~= passthrough_output(self@));
        }
        items
    }

    /// The output text to send as one delta at the end, when none arrived
    /// as deltas.
    pub fn closing_text_delta(&self) -> (r: Option<String>)
        ensures
            match r {
                Some(t) => !self@.saw_text_delta && t@ == self@.output_text,
                None => self@.saw_text_delta,
            },
    {
        if self.saw_text_delta {
            None
        } else {
            Some(self.output_text.clone())
        }
    }
}

/// After appending a call absent from `calls`, it is found at the end.
pub proof fn lemma_seen_position_after_push(calls: Seq<SeenCallModel>, id: Seq<char>, i: int, c: SeenCallModel)
    requires
        0 <= i <= calls.len(),
        seen_position_from(calls, id, i) is None,
        c.call_id == id,
    ensures
        seen_position_from(calls.push(c), id, i) == Some(calls.len() as int),
    decreases calls.len() - i,
{
    if i < calls.len() {
        lemma_seen_position_after_push(calls, id, i + 1, c);
    }
}

/// How a passed-through responses stream closes: the assistant message is
/// added, its text sent when no text delta came, the message and its text
/// done, and the response completes with its summarised output items.
pub open spec fn passthrough_closing(m: PassthroughModel) -> Seq<LifecycleModel> {
    let msg = OutputItemModel::Message { text: m.output_text };
    seq![LifecycleModel::ItemAdded(msg)] + (if m.saw_text_delta {
        Seq::<LifecycleModel>::empty()
    } else {
        seq![LifecycleModel::TextDelta(m.output_text)]
    }) + seq![
        LifecycleModel::ItemDone(msg),
        LifecycleModel::TextDone,
        LifecycleModel::Completed(passthrough_output(m)),
    ]
}

impl ResponsesPassthrough {
    /// The events the passed-through stream closes with (see
    /// [`passthrough_closing`]).
    pub fn closing_events(&self) -> (r: Vec<LifecycleEvent>)
        ensures
            lifecycle_model(r@) == passthrough_closing(self@),
    {
        let mut r: Vec<LifecycleEvent> = Vec::new();
        r.push(LifecycleEvent::ItemAdded(OutputItem::Message { text: self.output_text.clone() }));
        if !self.saw_text_delta {
            r.push(LifecycleEvent::TextDelta(self.output_text.clone()));
        }
        r.push(LifecycleEvent::ItemDone(OutputItem::Message { text: self.output_text.clone() }));
        r.push(LifecycleEvent::TextDone);
        r.push(LifecycleEvent::Completed(self.output_items()));
        proof {
            assert(lifecycle_model(r@) =~= passthrough_closing(self@));
        }
        r
    }
}

} // verus!
