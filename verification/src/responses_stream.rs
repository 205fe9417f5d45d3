//! The OpenAI responses event stream built from another provider's stream:
//! the running text, reasoning and tool calls, the events each upstream
//! chunk gives rise to, and the output items of the completed response.
use vstd::prelude::*;
use crate::json::{pieces_model, PieceModel, TextPiece};
use crate::text::{push_lit, string_of};

verus! {

/// A function call being streamed: its id, name and the argument text so far.
#[derive(Debug)]
pub struct ToolCallRecord {
    pub call_id: String,
    pub name: String,
    pub arguments: Vec<TextPiece>,
}

/// The content of a [`ToolCallRecord`].
pub struct CallModel {
    pub call_id: Seq<char>,
    pub name: Seq<char>,
    pub arguments: Seq<PieceModel>,
}

impl View for ToolCallRecord {
    type V = CallModel;

    open spec fn view(&self) -> CallModel {
        CallModel { call_id: self.call_id@, name: self.name@, arguments: pieces_model(self.arguments@) }
    }
}

pub open spec fn calls_model(v: Seq<ToolCallRecord>) -> Seq<CallModel> {
    v.map_values(|c: ToolCallRecord| c@)
}

/// What a responses stream has accumulated: output text, reasoning text and
/// signature, and the function calls in the order they were opened (each id
/// once).
#[derive(Debug)]
pub struct ResponsesStreamState {
    pub output_text: String,
    pub reasoning_text: String,
    pub reasoning_signature: Vec<TextPiece>,
    pub calls: Vec<ToolCallRecord>,
}

/// The content of a [`ResponsesStreamState`].
pub struct ResponsesModel {
    pub output_text: Seq<char>,
    pub reasoning_text: Seq<char>,
    pub reasoning_signature: Seq<PieceModel>,
    pub calls: Seq<CallModel>,
}

impl View for ResponsesStreamState {
    type V = ResponsesModel;

    open spec fn view(&self) -> ResponsesModel {
        ResponsesModel {
            output_text: self.output_text@,
            reasoning_text: self.reasoning_text@,
            reasoning_signature: pieces_model(self.reasoning_signature@),
            calls: calls_model(self.calls@),
        }
    }
}

/// One event of the responses stream (its sequence number is given when it
/// is sent).
#[derive(Debug)]
pub enum ResponsesEvent {
    /// `response.output_text.delta`
    OutputTextDelta(String),
    /// `response.reasoning_text.delta`
    ReasoningTextDelta(String),
    /// `response.reasoning_signature.delta`
    ReasoningSignatureDelta(TextPiece),
    /// `response.output_item.added` for a function call, with empty arguments
    FunctionCallAdded { call_id: String, name: String },
    /// `response.function_call_arguments.delta`
    FunctionCallArgumentsDelta { call_id: String, name: String, delta: TextPiece },
}

/// The content of a [`ResponsesEvent`].
pub enum EventModel {
    OutputTextDelta(Seq<char>),
    ReasoningTextDelta(Seq<char>),
    ReasoningSignatureDelta(PieceModel),
    FunctionCallAdded { call_id: Seq<char>, name: Seq<char> },
    FunctionCallArgumentsDelta { call_id: Seq<char>, name: Seq<char>, delta: PieceModel },
}

impl View for ResponsesEvent {
    type V = EventModel;

    open spec fn view(&self) -> EventModel {
        match self {
            ResponsesEvent::OutputTextDelta(t) => EventModel::OutputTextDelta(t@),
            ResponsesEvent::ReasoningTextDelta(t) => EventModel::ReasoningTextDelta(t@),
            ResponsesEvent::ReasoningSignatureDelta(p) => EventModel::ReasoningSignatureDelta(p@),
            ResponsesEvent::FunctionCallAdded { call_id, name } => EventModel::FunctionCallAdded {
                call_id: call_id@,
                name: name@,
            },
            ResponsesEvent::FunctionCallArgumentsDelta { call_id, name, delta } =>
                EventModel::FunctionCallArgumentsDelta { call_id: call_id@, name: name@, delta: delta@ },
        }
    }
}

pub open spec fn events_model(v: Seq<ResponsesEvent>) -> Seq<EventModel> {
    v.map_values(|e: ResponsesEvent| e@)
}

/// One item of the completed response's output.
#[derive(Debug)]
pub enum OutputItem {
    Reasoning { text: String, signature: Vec<TextPiece> },
    FunctionCall { call_id: String, name: String, arguments: Vec<TextPiece> },
    Message { text: String },
}

/// The content of an [`OutputItem`].
pub enum OutputItemModel {
    Reasoning { text: Seq<char>, signature: Seq<PieceModel> },
    FunctionCall { call_id: Seq<char>, name: Seq<char>, arguments: Seq<PieceModel> },
    Message { text: Seq<char> },
}

impl View for OutputItem {
    type V = OutputItemModel;

    open spec fn view(&self) -> OutputItemModel {
        match self {
            OutputItem::Reasoning { text, signature } => OutputItemModel::Reasoning {
                text: text@,
                signature: pieces_model(signature@),
            },
            OutputItem::FunctionCall { call_id, name, arguments } => OutputItemModel::FunctionCall {
                call_id: call_id@,
                name: name@,
                arguments: pieces_model(arguments@),
            },
            OutputItem::Message { text } => OutputItemModel::Message { text: text@ },
        }
    }
}

pub open spec fn items_model(v: Seq<OutputItem>) -> Seq<OutputItemModel> {
    v.map_values(|e: OutputItem| e@)
}

/// The stream before any upstream chunk.
pub open spec fn empty_stream() -> ResponsesModel {
    ResponsesModel {
        output_text: seq![],
        reasoning_text: seq![],
        reasoning_signature: seq![],
        calls: seq![],
    }
}

/// Output text: appended and announced when it is not empty.
pub open spec fn with_output(st: ResponsesModel, t: Seq<char>) -> (ResponsesModel, Seq<EventModel>) {
    if t.len() > 0 {
        (ResponsesModel { output_text: st.output_text + t, ..st }, seq![EventModel::OutputTextDelta(t)])
    } else {
        (st, seq![])
    }
}

/// Reasoning text: appended and announced when it is not empty.
pub open spec fn with_reasoning(st: ResponsesModel, t: Seq<char>) -> (ResponsesModel, Seq<EventModel>) {
    if t.len() > 0 {
        (
            ResponsesModel { reasoning_text: st.reasoning_text + t, ..st },
            seq![EventModel::ReasoningTextDelta(t)],
        )
    } else {
        (st, seq![])
    }
}

/// A reasoning signature piece: appended and announced.
pub open spec fn with_signature(st: ResponsesModel, p: PieceModel) -> (ResponsesModel, Seq<EventModel>) {
    (
        ResponsesModel { reasoning_signature: st.reasoning_signature.push(p), ..st },
        seq![EventModel::ReasoningSignatureDelta(p)],
    )
}

/// The position of the call with id `id` at or after position `i`.
pub open spec fn call_index_from(calls: Seq<CallModel>, id: Seq<char>, i: int) -> Option<int>
    decreases calls.len() - i,
{
    if i < 0 || i >= calls.len() {
        None
    } else if calls[i].call_id == id {
        Some(i)
    } else {
        call_index_from(calls, id, i + 1)
    }
}

/// The position of the call with id `id`.
pub open spec fn call_index(calls: Seq<CallModel>, id: Seq<char>) -> Option<int> {
    call_index_from(calls, id, 0)
}

/// A call opened under `id`: when no call has that id yet, it is added with
/// `name` and no arguments, and announced.
pub open spec fn with_call(st: ResponsesModel, id: Seq<char>, name: Seq<char>) -> (ResponsesModel, Seq<EventModel>) {
    if call_index(st.calls, id) is Some {
        (st, seq![])
    } else {
        (
            ResponsesModel {
                calls: st.calls.push(CallModel { call_id: id, name, arguments: seq![] }),
                ..st
            },
            seq![EventModel::FunctionCallAdded { call_id: id, name }],
        )
    }
}

/// The call at position `i` named `name`.
pub open spec fn with_call_name(st: ResponsesModel, i: int, name: Seq<char>) -> ResponsesModel {
    ResponsesModel { calls: st.calls.update(i, CallModel { name, ..st.calls[i] }), ..st }
}

/// An argument piece for the call at position `i`: appended, and announced
/// under the name `name`.
pub open spec fn with_arguments(st: ResponsesModel, i: int, name: Seq<char>, p: PieceModel) -> (
    ResponsesModel,
    Seq<EventModel>,
) {
    (
        ResponsesModel {
            calls: st.calls.update(
                i,
                CallModel { arguments: st.calls[i].arguments.push(p), ..st.calls[i] },
            ),
            ..st
        },
        seq![EventModel::FunctionCallArgumentsDelta { call_id: st.calls[i].call_id, name, delta: p }],
    )
}

/// The output of the completed response: a reasoning item when there is
/// reasoning text or signature, then each call in the order it was opened,
/// then the assistant message.
pub open spec fn output_items(st: ResponsesModel) -> Seq<OutputItemModel> {
    let reasoning = if st.reasoning_text.len() > 0 || st.reasoning_signature.len() > 0 {
        seq![OutputItemModel::Reasoning { text: st.reasoning_text, signature: st.reasoning_signature }]
    } else {
        seq![]
    };
    reasoning + st.calls.map_values(
        |c: CallModel|
            OutputItemModel::FunctionCall { call_id: c.call_id, name: c.name, arguments: c.arguments },
    ) + seq![OutputItemModel::Message { text: st.output_text }]
}

/// A copy of a piece list.
pub fn copy_pieces(v: &Vec<TextPiece>) -> (r: Vec<TextPiece>)
    ensures
        pieces_model(r@) == pieces_model(v@),
{
    let mut r: Vec<TextPiece> = Vec::new();
    let mut i: usize = 0;
    while i < v.len()
        invariant
            i <= v.len(),
            r@.len() == i,
            pieces_model(r@) == pieces_model(v@.take(i as int)),
        decreases v.len() - i,
    {
        let ghost before = r@;
        r.push(v[i].copy_piece());
        proof {
            assert(r@ =~= before.push(r@[i as int]));
            assert(v@.take(i + 1) =~= v@.take(i as int).push(v@[i as int]));
            assert(pieces_model(r@) =~= pieces_model(before).push(r@[i as int]@));
            assert(pieces_model(v@.take(i + 1)) =~= pieces_model(v@.take(i as int)).push(v@[i as int]@));
        }
        i += 1;
    }
    proof {
        assert(v@.take(v.len() as int) =~= v@);
    }
    r
}

impl ResponsesStreamState {
    /// A stream that has seen nothing yet.
    pub fn new() -> (r: Self)
        ensures
            r@ == empty_stream(),
    {
        let r = ResponsesStreamState {
            output_text: string_of(""),
            reasoning_text: string_of(""),
            reasoning_signature: Vec::new(),
            calls: Vec::new(),
        };
        proof {
            reveal_strlit("");
            assert(r@.output_text =~= seq![]);
            assert(r@.reasoning_text =~= seq![]);
            assert(r@.reasoning_signature =~= seq![]);
            assert(r@.calls =~= seq![]);
        }
        r
    }

    /// Adds output text (see [`with_output`]).
    pub fn add_output_text(&mut self, t: &str, events: &mut Vec<ResponsesEvent>)
        ensures
            final(self)@ == with_output(old(self)@, t@).0,
            events_model(final(events)@) == events_model(old(events)@) + with_output(old(self)@, t@).1,
    {
        if !t.is_empty() {
            push_lit(&mut self.output_text, t);
            events.push(ResponsesEvent::OutputTextDelta(string_of(t)));
            proof {
                assert(events_model(final(events)@) =~= events_model(old(events)@) + seq![
                    EventModel::OutputTextDelta(t@),
                ]);
            }
        } else {
            proof {
                assert(events_model(final(events)@) =~= events_model(old(events)@) + seq![]);
            }
        }
    }

    /// Adds reasoning text (see [`with_reasoning`]).
    pub fn add_reasoning_text(&mut self, t: &str, events: &mut Vec<ResponsesEvent>)
        ensures
            final(self)@ == with_reasoning(old(self)@, t@).0,
            events_model(final(events)@) == events_model(old(events)@) + with_reasoning(old(self)@, t@).1,
    {
        if !t.is_empty() {
            push_lit(&mut self.reasoning_text, t);
            events.push(ResponsesEvent::ReasoningTextDelta(string_of(t)));
            proof {
                assert(events_model(final(events)@) =~= events_model(old(events)@) + seq![
                    EventModel::ReasoningTextDelta(t@),
                ]);
            }
        } else {
            proof {
                assert(events_model(final(events)@) =~= events_model(old(events)@) + seq![]);
            }
        }
    }

    /// Adds a reasoning signature piece (see [`with_signature`]).
    pub fn add_reasoning_signature(&mut self, p: TextPiece, events: &mut Vec<ResponsesEvent>)
        ensures
            final(self)@ == with_signature(old(self)@, p@).0,
            events_model(final(events)@) == events_model(old(events)@) + with_signature(old(self)@, p@).1,
    {
        let ghost pm = p@;
        let copy = p.copy_piece();
        self.reasoning_signature.push(p);
        events.push(ResponsesEvent::ReasoningSignatureDelta(copy));
        proof {
            assert(pieces_model(self.reasoning_signature@) =~= pieces_model(old(self).reasoning_signature@).push(pm));
            assert(events_model(final(events)@) =~= events_model(old(events)@) + seq![
                EventModel::ReasoningSignatureDelta(pm),
            ]);
        }
    }

    /// The position of the call with id `id`.
    pub fn find_call(&self, id: &String) -> (r: Option<usize>)
        ensures
            match r {
                Some(i) => i < self.calls@.len() && call_index(self@.calls, id@) == Some(i as int),
                None => call_index(self@.calls, id@) is None,
            },
    {
        let mut i: usize = 0;
        while i < self.calls.len()
            invariant
                i <= self.calls@.len(),
                call_index(self@.calls, id@) == call_index_from(self@.calls, id@, i as int),
            decreases self.calls@.len() - i,
        {
            if self.calls[i].call_id == *id {
                return Some(i);
            }
            i += 1;
        }
        None
    }

    /// Opens a call (see [`with_call`]); gives its position.
    pub fn open_call(&mut self, id: &String, name: &String, events: &mut Vec<ResponsesEvent>) -> (r: usize)
        ensures
            final(self)@ == with_call(old(self)@, id@, name@).0,
            events_model(final(events)@) == events_model(old(events)@) + with_call(old(self)@, id@, name@).1,
            r < final(self)@.calls.len(),
            call_index(final(self)@.calls, id@) == Some(r as int),
    {
        match self.find_call(id) {
            Some(i) => {
                proof {
                    assert(events_model(final(events)@) =~= events_model(old(events)@) + seq![]);
                }
                i
            },
            None => {
                let n = self.calls.len();
                self.calls.push(ToolCallRecord { call_id: id.clone(), name: name.clone(), arguments: Vec::new() });
                events.push(ResponsesEvent::FunctionCallAdded { call_id: id.clone(), name: name.clone() });
                proof {
                    let added = CallModel { call_id: id@, name: name@, arguments: seq![] };
                    assert(pieces_model(Seq::<TextPiece>::empty()) =~= seq![]);
                    assert(self@.calls =~= old(self)@.calls.push(added));
                    assert(events_model(final(events)@) =~= events_model(old(events)@) + seq![
                        EventModel::FunctionCallAdded { call_id: id@, name: name@ },
                    ]);
                    assert forall|k: int| 0 <= k < n implies #[trigger] self@.calls[k].call_id != id@ by {
                        lemma_call_index_absent(old(self)@.calls, id@, 0, k);
                    }
                    lemma_call_index_at(self@.calls, id@, 0, n as int);
                }
                n
            },
        }
    }

    /// Names the call at position `i` (see [`with_call_name`]).
    pub fn rename_call(&mut self, i: usize, name: &String)
        requires
            i < old(self).calls@.len(),
        ensures
            final(self)@ == with_call_name(old(self)@, i as int, name@),
    {
        let mut calls = Vec::new();
        std::mem::swap(&mut calls, &mut self.calls);
        let mut call = calls.remove(i);
        call.name = name.clone();
        calls.insert(i, call);
        self.calls = calls;
        proof {
            assert(self@.calls =~= old(self)@.calls.update(
                i as int,
                CallModel { name: name@, ..old(self)@.calls[i as int] },
            ));
        }
    }

    /// Adds an argument piece to the call at position `i`, announced under
    /// `name` (see [`with_arguments`]).
    pub fn add_arguments(&mut self, i: usize, name: &String, p: TextPiece, events: &mut Vec<ResponsesEvent>)
        requires
            i < old(self).calls@.len(),
        ensures
            final(self)@ == with_arguments(old(self)@, i as int, name@, p@).0,
            events_model(final(events)@) == events_model(old(events)@) + with_arguments(
                old(self)@,
                i as int,
                name@,
                p@,
            ).1,
    {
        let ghost pm = p@;
        let copy = p.copy_piece();
        let mut calls = Vec::new();
        std::mem::swap(&mut calls, &mut self.calls);
        let mut call = calls.remove(i);
        let ghost before_args = call.arguments@;
        call.arguments.push(p);
        let call_id = call.call_id.clone();
        proof {
            assert(pieces_model(call.arguments@) =~= pieces_model(before_args).push(pm));
        }
        calls.insert(i, call);
        self.calls = calls;
        events.push(ResponsesEvent::FunctionCallArgumentsDelta { call_id, name: name.clone(), delta: copy });
        proof {
            let c = old(self)@.calls[i as int];
            assert(self@.calls =~= old(self)@.calls.update(
                i as int,
                CallModel { arguments: c.arguments.push(pm), ..c },
            ));
            assert(events_model(final(events)@) =~= events_model(old(events)@) + seq![
                EventModel::FunctionCallArgumentsDelta { call_id: c.call_id, name: name@, delta: pm },
            ]);
        }
    }

    /// The output items of the completed response (see [`output_items`]).
    pub fn output_items(&self) -> (r: Vec<OutputItem>)
        ensures
            items_model(r@) == output_items(self@),
    {
        let mut items: Vec<OutputItem> = Vec::new();
        if !self.reasoning_text.as_str().is_empty() || self.reasoning_signature.len() > 0 {
            items.push(
                OutputItem::Reasoning {
                    text: self.reasoning_text.clone(),
                    signature: copy_pieces(&self.reasoning_signature),
                },
            );
        }
        let ghost head = items_model(items@);
        proof {
            assert(head =~= (if self@.reasoning_text.len() > 0 || self@.reasoning_signature.len() > 0 {
                seq![OutputItemModel::Reasoning { text: self@.reasoning_text, signature: self@.reasoning_signature }]
            } else {
                seq![]
            }));
        }
        let ghost call_items = self@.calls.map_values(
            |c: CallModel|
                OutputItemModel::FunctionCall { call_id: c.call_id, name: c.name, arguments: c.arguments },
        );
        let mut i: usize = 0;
        while i < self.calls.len()
            invariant
                i <= self.calls@.len(),
                call_items == self@.calls.map_values(
                    |c: CallModel|
                        OutputItemModel::FunctionCall {
                            call_id: c.call_id,
                            name: c.name,
                            arguments: c.arguments,
                        },
                ),
                items_model(items@) == head + call_items.take(i as int),
            decreases self.calls@.len() - i,
        {
            let c = &self.calls[i];
            let ghost before = items@;
            items.push(
                OutputItem::FunctionCall {
                    call_id: c.call_id.clone(),
                    name: c.name.clone(),
                    arguments: copy_pieces(&c.arguments),
                },
            );
            proof {
                assert(items@ =~= before.push(items@[items@.len() - 1]));
                assert(items_model(items@) =~= items_model(before).push(items@[items@.len() - 1]@));
                assert(call_items.take(i + 1) =~= call_items.take(i as int).push(call_items[i as int]));
                assert(items@[items@.len() - 1]@ == call_items[i as int]);
                assert(items_model(items@) =~= head + call_items.take(i + 1));
            }
            i += 1;
        }
        items.push(OutputItem::Message { text: self.output_text.clone() });
        proof {
            assert(call_items.take(self.calls@.len() as int) =~= call_items);
            assert(items_model(items@) =~= output_items(self@));
        }
        items
    }
}

/// A call id absent from the calls at or after `i` differs from each of them.
pub proof fn lemma_call_index_absent(calls: Seq<CallModel>, id: Seq<char>, i: int, k: int)
    requires
        0 <= i <= k < calls.len(),
        call_index_from(calls, id, i) is None,
    ensures
        calls[k].call_id != id,
    decreases k - i,
{
    if i < k {
        lemma_call_index_absent(calls, id, i + 1, k);
    }
}

/// A call id found nowhere before position `n` is found at `n`.
pub proof fn lemma_call_index_at(calls: Seq<CallModel>, id: Seq<char>, i: int, n: int)
    requires
        0 <= i <= n < calls.len(),
        calls[n].call_id == id,
        forall|k: int| i <= k < n ==> #[trigger] calls[k].call_id != id,
    ensures
        call_index_from(calls, id, i) == Some(n),
    decreases n - i,
{
    if i < n {
        lemma_call_index_at(calls, id, i + 1, n);
    }
}

/// An event that opens or closes a responses stream.
#[derive(Debug)]
pub enum LifecycleEvent {
    /// `response.created`, with the response in progress
    Created,
    /// `response.in_progress`
    InProgress,
    /// `response.output_item.added`
    ItemAdded(OutputItem),
    /// `response.output_text.delta`
    TextDelta(String),
    /// `response.output_item.done`
    ItemDone(OutputItem),
    /// `response.output_text.done`
    TextDone,
    /// `response.completed`, with the response's output items
    Completed(Vec<OutputItem>),
}

/// The content of a [`LifecycleEvent`].
pub enum LifecycleModel {
    Created,
    InProgress,
    ItemAdded(OutputItemModel),
    TextDelta(Seq<char>),
    ItemDone(OutputItemModel),
    TextDone,
    Completed(Seq<OutputItemModel>),
}

impl View for LifecycleEvent {
    type V = LifecycleModel;

    open spec fn view(&self) -> LifecycleModel {
        match self {
            LifecycleEvent::Created => LifecycleModel::Created,
            LifecycleEvent::InProgress => LifecycleModel::InProgress,
            LifecycleEvent::ItemAdded(i) => LifecycleModel::ItemAdded(i@),
            LifecycleEvent::TextDelta(t) => LifecycleModel::TextDelta(t@),
            LifecycleEvent::ItemDone(i) => LifecycleModel::ItemDone(i@),
            LifecycleEvent::TextDone => LifecycleModel::TextDone,
            LifecycleEvent::Completed(items) => LifecycleModel::Completed(items_model(items@)),
        }
    }
}

pub open spec fn lifecycle_model(v: Seq<LifecycleEvent>) -> Seq<LifecycleModel> {
    v.map_values(|e: LifecycleEvent| e@)
}

/// How every responses stream opens: the response is created, then in
/// progress.
pub open spec fn responses_opening() -> Seq<LifecycleModel> {
    seq![LifecycleModel::Created, LifecycleModel::InProgress]
}

/// The events a responses stream opens with (see [`responses_opening`]).
pub fn responses_opening_events() -> (r: Vec<LifecycleEvent>)
    ensures
        lifecycle_model(r@) == responses_opening(),
{
    let r = vec![LifecycleEvent::Created, LifecycleEvent::InProgress];
    proof {
        assert(lifecycle_model(r@) =~= responses_opening());
    }
    r
}

/// How a stream converted into the responses protocol closes: each call is
/// done, in the order it was opened, then the assistant message, then the
/// output text, and the response completes with all its output items.
pub open spec fn converted_closing(st: ResponsesModel) -> Seq<LifecycleModel> {
    st.calls.map_values(
        |c: CallModel|
            LifecycleModel::ItemDone(
                OutputItemModel::FunctionCall { call_id: c.call_id, name: c.name, arguments: c.arguments },
            ),
    ) + seq![
        LifecycleModel::ItemDone(OutputItemModel::Message { text: st.output_text }),
        LifecycleModel::TextDone,
        LifecycleModel::Completed(output_items(st)),
    ]
}

impl ResponsesStreamState {
    /// The events the converted stream closes with (see
    /// [`converted_closing`]).
    pub fn closing_events(&self) -> (r: Vec<LifecycleEvent>)
        ensures
            lifecycle_model(r@) == converted_closing(self@),
    {
        let ghost dones = self@.calls.map_values(
            |c: CallModel|
                LifecycleModel::ItemDone(
                    OutputItemModel::FunctionCall { call_id: c.call_id, name: c.name, arguments: c.arguments },
                ),
        );
        let mut r: Vec<LifecycleEvent> = Vec::new();
        let mut i: usize = 0;
        while i < self.calls.len()
            invariant
                i <= self.calls@.len(),
                dones == self@.calls.map_values(
                    |c: CallModel|
                        LifecycleModel::ItemDone(
                            OutputItemModel::FunctionCall {
                                call_id: c.call_id,
                                name: c.name,
                                arguments: c.arguments,
                            },
                        ),
                ),
                lifecycle_model(r@) == dones.take(i as int),
            decreases self.calls@.len() - i,
        {
            let c = &self.calls[i];
            let ghost before = r@;
            r.push(
                LifecycleEvent::ItemDone(
                    OutputItem::FunctionCall {
                        call_id: c.call_id.clone(),
                        name: c.name.clone(),
                        arguments: copy_pieces(&c.arguments),
                    },
                ),
            );
            proof {
                assert(lifecycle_model(r@) =~= lifecycle_model(before).push(r@[i as int]@));
                assert(dones.take(i + 1) =~= dones.take(i as int).push(dones[i as int]));
            }
            i += 1;
        }
        let ghost head = r@;
        r.push(LifecycleEvent::ItemDone(OutputItem::Message { text: self.output_text.clone() }));
        r.push(LifecycleEvent::TextDone);
        r.push(LifecycleEvent::Completed(self.output_items()));
        proof {
            assert(dones.take(self@.calls.len() as int) =~= dones);
            assert(lifecycle_model(r@) =~= converted_closing(self@));
        }
        r
    }
}

} // verus!
