//! A complete upstream response replayed as a stream of the client's
//! protocol: the events each part of the response gives rise to.
use vstd::prelude::*;
use crate::chat_stream::{deltas_model, ChatDelta, ChatDeltaModel};
use crate::json::{piece_from, piece_of, JsonModel, JsonValue, PieceModel, TextPiece};
use crate::messages_stream::{msg_events_model, BlockKind, BlockKindModel, MessagesEvent, MessagesEventModel};
use crate::text::push_lit;
use crate::text::string_of;
use crate::urp::FinishReason;

verus! {

/// One part of a complete response's message, as the replay reads it.
#[derive(Debug)]
pub enum ResponsePart {
    Reasoning(String),
    ReasoningEncrypted(JsonValue),
    Text(String),
    Refusal(String),
    ToolCall { call_id: String, name: String, arguments: String },
    /// A part the replay does not show.
    Other,
}

/// The content of a [`ResponsePart`].
pub enum PartModel {
    Reasoning(Seq<char>),
    ReasoningEncrypted(JsonModel),
    Text(Seq<char>),
    Refusal(Seq<char>),
    ToolCall { call_id: Seq<char>, name: Seq<char>, arguments: Seq<char> },
    Other,
}

impl View for ResponsePart {
    type V = PartModel;

    open spec fn view(&self) -> PartModel {
        match self {
            ResponsePart::Reasoning(c) => PartModel::Reasoning(c@),
            ResponsePart::ReasoningEncrypted(d) => PartModel::ReasoningEncrypted(d@),
            ResponsePart::Text(c) => PartModel::Text(c@),
            ResponsePart::Refusal(c) => PartModel::Refusal(c@),
            ResponsePart::ToolCall { call_id, name, arguments } => PartModel::ToolCall {
                call_id: call_id@,
                name: name@,
                arguments: arguments@,
            },
            ResponsePart::Other => PartModel::Other,
        }
    }
}

pub open spec fn parts_model(v: Seq<ResponsePart>) -> Seq<PartModel> {
    v.map_values(|p: ResponsePart| p@)
}

/// One replayed responses event.
#[derive(Debug)]
pub enum SyntheticEvent {
    /// `response.reasoning_text.delta`
    ReasoningTextDelta(String),
    /// `response.reasoning_signature.delta`
    ReasoningSignatureDelta(TextPiece),
    /// `response.output_item.added` for a function call
    FunctionCallAdded { call_id: String, name: String, arguments: String },
    /// `response.function_call_arguments.delta`
    FunctionCallArgumentsDelta { call_id: String, name: String, delta: String },
    /// `response.output_item.done` for a function call
    FunctionCallDone { call_id: String, name: String, arguments: String },
    /// `response.output_text.delta`
    OutputTextDelta(String),
}

/// The content of a [`SyntheticEvent`].
pub enum SyntheticModel {
    ReasoningTextDelta(Seq<char>),
    ReasoningSignatureDelta(PieceModel),
    FunctionCallAdded { call_id: Seq<char>, name: Seq<char>, arguments: Seq<char> },
    FunctionCallArgumentsDelta { call_id: Seq<char>, name: Seq<char>, delta: Seq<char> },
    FunctionCallDone { call_id: Seq<char>, name: Seq<char>, arguments: Seq<char> },
    OutputTextDelta(Seq<char>),
}

impl View for SyntheticEvent {
    type V = SyntheticModel;

    open spec fn view(&self) -> SyntheticModel {
        match self {
            SyntheticEvent::ReasoningTextDelta(t) => SyntheticModel::ReasoningTextDelta(t@),
            SyntheticEvent::ReasoningSignatureDelta(p) => SyntheticModel::ReasoningSignatureDelta(p@),
            SyntheticEvent::FunctionCallAdded { call_id, name, arguments } => SyntheticModel::FunctionCallAdded {
                call_id: call_id@,
                name: name@,
                arguments: arguments@,
            },
            SyntheticEvent::FunctionCallArgumentsDelta { call_id, name, delta } =>
                SyntheticModel::FunctionCallArgumentsDelta { call_id: call_id@, name: name@, delta: delta@ },
            SyntheticEvent::FunctionCallDone { call_id, name, arguments } => SyntheticModel::FunctionCallDone {
                call_id: call_id@,
                name: name@,
                arguments: arguments@,
            },
            SyntheticEvent::OutputTextDelta(t) => SyntheticModel::OutputTextDelta(t@),
        }
    }
}

pub open spec fn synthetic_model(v: Seq<SyntheticEvent>) -> Seq<SyntheticModel> {
    v.map_values(|e: SyntheticEvent| e@)
}

/// The responses events of one part: non-empty reasoning text; an encrypted
/// reasoning's signature; a tool call announced, its non-empty arguments
/// sent, and completed. Text and refusals wait for the end.
pub open spec fn part_events(p: PartModel) -> Seq<SyntheticModel> {
    match p {
        PartModel::Reasoning(c) => if c.len() > 0 {
            seq![SyntheticModel::ReasoningTextDelta(c)]
        } else {
            seq![]
        },
        PartModel::ReasoningEncrypted(d) => piece_of(d).map_values(|x: PieceModel| SyntheticModel::ReasoningSignatureDelta(x)),
        PartModel::ToolCall { call_id, name, arguments } => seq![
            SyntheticModel::FunctionCallAdded { call_id, name, arguments },
        ] + (if arguments.len() > 0 {
            seq![SyntheticModel::FunctionCallArgumentsDelta { call_id, name, delta: arguments }]
        } else {
            seq![]
        }) + seq![SyntheticModel::FunctionCallDone { call_id, name, arguments }],
        _ => seq![],
    }
}

/// The text a part adds to the message.
pub open spec fn part_text(p: PartModel) -> Seq<char> {
    match p {
        PartModel::Text(c) => c,
        PartModel::Refusal(c) => c,
        _ => seq![],
    }
}

/// The events of the parts, and their text.
pub open spec fn parts_events(ps: Seq<PartModel>) -> (Seq<SyntheticModel>, Seq<char>)
    decreases ps.len(),
{
    if ps.len() == 0 {
        (seq![], seq![])
    } else {
        let (e, t) = parts_events(ps.drop_last());
        (e + part_events(ps.last()), t + part_text(ps.last()))
    }
}

/// The responses replay of a message: each part's events, then all its
/// text in one delta when there is any.
pub open spec fn synthetic_responses(ps: Seq<PartModel>) -> Seq<SyntheticModel> {
    let (e, t) = parts_events(ps);
    e + if t.len() > 0 {
        seq![SyntheticModel::OutputTextDelta(t)]
    } else {
        seq![]
    }
}

/// The responses events to replay a message (see [`synthetic_responses`]).
pub fn synthetic_responses_events(parts: &Vec<ResponsePart>) -> (r: Vec<SyntheticEvent>)
    ensures
        synthetic_model(r@) == synthetic_responses(parts_model(parts@)),
{
    let ghost ps = parts_model(parts@);
    let mut out: Vec<SyntheticEvent> = Vec::new();
    proof {
        reveal_strlit("");
    }
    let mut text = string_of("");
    proof {
        assert(ps.take(0) =~= seq![]);
        assert(synthetic_model(out@) =~= seq![]);
        assert(text@ =~= seq![]);
    }
    let mut i: usize = 0;
    while i < parts.len()
        invariant
            i <= parts.len(),
            ps == parts_model(parts@),
            synthetic_model(out@) == parts_events(ps.take(i as int)).0,
            text@ == parts_events(ps.take(i as int)).1,
        decreases parts.len() - i,
    {
        let ghost before = synthetic_model(out@);
        match &parts[i] {
            ResponsePart::Reasoning(c) => {
                if !c.as_str().is_empty() {
                    out.push(SyntheticEvent::ReasoningTextDelta(c.clone()));
                }
            },
            ResponsePart::ReasoningEncrypted(d) => {
                match piece_from(d) {
                    Some(p) => {
                        out.push(SyntheticEvent::ReasoningSignatureDelta(p));
                    },
                    None => {},
                }
            },
            ResponsePart::ToolCall { call_id, name, arguments } => {
                out.push(SyntheticEvent::FunctionCallAdded {
                    call_id: call_id.clone(),
                    name: name.clone(),
                    arguments: arguments.clone(),
                });
                if !arguments.as_str().is_empty() {
                    out.push(SyntheticEvent::FunctionCallArgumentsDelta {
                        call_id: call_id.clone(),
                        name: name.clone(),
                        delta: arguments.clone(),
                    });
                }
                out.push(SyntheticEvent::FunctionCallDone {
                    call_id: call_id.clone(),
                    name: name.clone(),
                    arguments: arguments.clone(),
                });
            },
            ResponsePart::Text(c) => {
                push_lit(&mut text, c.as_str());
            },
            ResponsePart::Refusal(c) => {
                push_lit(&mut text, c.as_str());
            },
            ResponsePart::Other => {},
        }
        proof {
            assert(ps.take(i + 1).drop_last() =~= ps.take(i as int));
            assert(ps.take(i + 1).last() == parts@[i as int]@);
            assert(synthetic_model(out@) =~= before + part_events(parts@[i as int]@));
        }
        i += 1;
    }
    proof {
        assert(ps.take(parts.len() as int) =~= ps);
    }
    if !text.as_str().is_empty() {
        out.push(SyntheticEvent::OutputTextDelta(text));
    }
    proof {
        assert(synthetic_model(out@) =~= synthetic_responses(ps));
    }
    out
}

/// The chat deltas of one part, the `k`-th tool call so far at `k`.
pub open spec fn part_chat_deltas(p: PartModel, k: usize) -> Seq<ChatDeltaModel> {
    match p {
        PartModel::Reasoning(c) => if c.len() > 0 {
            seq![ChatDeltaModel::ReasoningText(c)]
        } else {
            seq![]
        },
        PartModel::ReasoningEncrypted(d) => piece_of(d).map_values(|x: PieceModel| ChatDeltaModel::ReasoningSignature(x)),
        PartModel::ToolCall { call_id, name, arguments } => seq![
            ChatDeltaModel::ToolCall { index: k, id: call_id, name, arguments: PieceModel::Text(arguments) },
        ],
        PartModel::Text(c) => if c.len() > 0 {
            seq![ChatDeltaModel::Content(c)]
        } else {
            seq![]
        },
        PartModel::Refusal(c) => if c.len() > 0 {
            seq![ChatDeltaModel::Content(c)]
        } else {
            seq![]
        },
        PartModel::Other => seq![],
    }
}

/// The chat deltas of the parts and how many tool calls they hold.
pub open spec fn parts_chat(ps: Seq<PartModel>) -> (Seq<ChatDeltaModel>, nat)
    decreases ps.len(),
{
    if ps.len() == 0 {
        (seq![], 0)
    } else {
        let (d, k) = parts_chat(ps.drop_last());
        (
            d + part_chat_deltas(ps.last(), k as usize),
            if ps.last() is ToolCall {
                k + 1
            } else {
                k
            },
        )
    }
}

/// The chat replay of a message: its deltas, and the finish reason (tool
/// calls when it holds any, else the response's own reason, a normal stop
/// when it gave none).
pub fn synthetic_chat_deltas(parts: &Vec<ResponsePart>, reason: Option<FinishReason>) -> (r: (
    Vec<ChatDelta>,
    FinishReason,
))
    ensures
        deltas_model(r.0@) == parts_chat(parts_model(parts@)).0,
        r.1 == (if parts_chat(parts_model(parts@)).1 > 0 {
            FinishReason::ToolCalls
        } else {
            match reason {
                Some(f) => f,
                None => FinishReason::Stop,
            }
        }),
{
    let ghost ps = parts_model(parts@);
    let mut out: Vec<ChatDelta> = Vec::new();
    proof {
        assert(ps.take(0) =~= seq![]);
        assert(deltas_model(out@) =~= seq![]);
    }
    let mut tools: usize = 0;
    let mut i: usize = 0;
    while i < parts.len()
        invariant
            i <= parts.len(),
            tools <= i,
            ps == parts_model(parts@),
            deltas_model(out@) == parts_chat(ps.take(i as int)).0,
            tools as nat == parts_chat(ps.take(i as int)).1,
        decreases parts.len() - i,
    {
        let ghost before = deltas_model(out@);
        proof {
            assert(ps.take(i + 1).drop_last() =~= ps.take(i as int));
            assert(ps.take(i + 1).last() == parts@[i as int]@);
        }
        match &parts[i] {
            ResponsePart::Reasoning(c) => {
                if !c.as_str().is_empty() {
                    out.push(ChatDelta::ReasoningText(c.clone()));
                }
            },
            ResponsePart::ReasoningEncrypted(d) => {
                match piece_from(d) {
                    Some(p) => {
                        out.push(ChatDelta::ReasoningSignature(p));
                    },
                    None => {},
                }
            },
            ResponsePart::ToolCall { call_id, name, arguments } => {
                out.push(ChatDelta::ToolCall {
                    index: tools,
                    id: call_id.clone(),
                    name: name.clone(),
                    arguments: TextPiece::Text(arguments.clone()),
                });
                tools = tools + 1;
            },
            ResponsePart::Text(c) => {
                if !c.as_str().is_empty() {
                    out.push(ChatDelta::Content(c.clone()));
                }
            },
            ResponsePart::Refusal(c) => {
                if !c.as_str().is_empty() {
                    out.push(ChatDelta::Content(c.clone()));
                }
            },
            ResponsePart::Other => {},
        }
        proof {
            assert(deltas_model(out@) =~= before + part_chat_deltas(parts@[i as int]@, (tools as nat - (if parts@[i as int]@ is ToolCall { 1nat } else { 0nat })) as usize));
        }
        i += 1;
    }
    proof {
        assert(ps.take(parts.len() as int) =~= ps);
    }
    let finish = if tools > 0 {
        FinishReason::ToolCalls
    } else {
        match reason {
            Some(f) => f,
            None => FinishReason::Stop,
        }
    };
    (out, finish)
}

/// The messages events of one part, its block (if any) at index `i`: a
/// thinking block for reasoning (with its non-empty text) and for an
/// encrypted reasoning with a signature; a tool-use block with its non-empty
/// input; a text block for non-empty text or refusal. Each block is started,
/// filled and stopped.
pub open spec fn part_blocks(p: PartModel, i: usize) -> Seq<MessagesEventModel> {
    match p {
        PartModel::Reasoning(c) => seq![
            MessagesEventModel::BlockStart { index: i, block: BlockKindModel::Thinking },
        ] + (if c.len() > 0 {
            seq![MessagesEventModel::ThinkingDelta { index: i, thinking: c }]
        } else {
            seq![]
        }) + seq![MessagesEventModel::BlockStop { index: i }],
        PartModel::ReasoningEncrypted(d) => if piece_of(d).len() > 0 {
            seq![
                MessagesEventModel::BlockStart { index: i, block: BlockKindModel::Thinking },
                MessagesEventModel::SignatureDelta { index: i, signature: piece_of(d)[0] },
                MessagesEventModel::BlockStop { index: i },
            ]
        } else {
            seq![]
        },
        PartModel::ToolCall { call_id, name, arguments } => seq![
            MessagesEventModel::BlockStart {
                index: i,
                block: BlockKindModel::ToolUse { id: call_id, name },
            },
        ] + (if arguments.len() > 0 {
            seq![MessagesEventModel::InputJsonDelta { index: i, partial_json: PieceModel::Text(arguments) }]
        } else {
            seq![]
        }) + seq![MessagesEventModel::BlockStop { index: i }],
        PartModel::Text(c) => text_block(c, i),
        PartModel::Refusal(c) => text_block(c, i),
        PartModel::Other => seq![],
    }
}

/// A text block holding `c`, when `c` is not empty.
pub open spec fn text_block(c: Seq<char>, i: usize) -> Seq<MessagesEventModel> {
    if c.len() > 0 {
        seq![
            MessagesEventModel::BlockStart { index: i, block: BlockKindModel::Text },
            MessagesEventModel::TextDelta { index: i, text: c },
            MessagesEventModel::BlockStop { index: i },
        ]
    } else {
        seq![]
    }
}

/// The messages events of the parts, the number of blocks they open, and
/// whether one is a tool call.
pub open spec fn parts_messages(ps: Seq<PartModel>) -> (Seq<MessagesEventModel>, nat, bool)
    decreases ps.len(),
{
    if ps.len() == 0 {
        (seq![], 0, false)
    } else {
        let (e, n, tool) = parts_messages(ps.drop_last());
        let b = part_blocks(ps.last(), n as usize);
        (e + b, if b.len() > 0 { n + 1 } else { n }, tool || ps.last() is ToolCall)
    }
}

/// The messages replay of a message: its blocks in order, and whether it
/// stops for tool use (else at the end of its turn).
pub fn synthetic_messages_events(parts: &Vec<ResponsePart>) -> (r: (Vec<MessagesEvent>, bool))
    ensures
        msg_events_model(r.0@) == parts_messages(parts_model(parts@)).0,
        r.1 == parts_messages(parts_model(parts@)).2,
{
    let ghost ps = parts_model(parts@);
    let mut out: Vec<MessagesEvent> = Vec::new();
    proof {
        assert(ps.take(0) =~= seq![]);
        assert(msg_events_model(out@) =~= seq![]);
    }
    let mut index: usize = 0;
    let mut saw_tool_use = false;
    let mut i: usize = 0;
    while i < parts.len()
        invariant
            i <= parts.len(),
            index <= i,
            ps == parts_model(parts@),
            msg_events_model(out@) == parts_messages(ps.take(i as int)).0,
            index as nat == parts_messages(ps.take(i as int)).1,
            saw_tool_use == parts_messages(ps.take(i as int)).2,
        decreases parts.len() - i,
    {
        let ghost before = msg_events_model(out@);
        let ghost at = index;
        proof {
            assert(ps.take(i + 1).drop_last() =~= ps.take(i as int));
            assert(ps.take(i + 1).last() == parts@[i as int]@);
        }
        match &parts[i] {
            ResponsePart::Reasoning(c) => {
                out.push(MessagesEvent::BlockStart { index, block: BlockKind::Thinking });
                if !c.as_str().is_empty() {
                    out.push(MessagesEvent::ThinkingDelta { index, thinking: c.clone() });
                }
                out.push(MessagesEvent::BlockStop { index });
                index = index + 1;
            },
            ResponsePart::ReasoningEncrypted(d) => {
                match piece_from(d) {
                    Some(p) => {
                        out.push(MessagesEvent::BlockStart { index, block: BlockKind::Thinking });
                        out.push(MessagesEvent::SignatureDelta { index, signature: p });
                        out.push(MessagesEvent::BlockStop { index });
                        index = index + 1;
                    },
                    None => {},
                }
            },
            ResponsePart::ToolCall { call_id, name, arguments } => {
                saw_tool_use = true;
                out.push(MessagesEvent::BlockStart {
                    index,
                    block: BlockKind::ToolUse { id: call_id.clone(), name: name.clone() },
                });
                if !arguments.as_str().is_empty() {
                    out.push(MessagesEvent::InputJsonDelta { index, partial_json: TextPiece::Text(arguments.clone()) });
                }
                out.push(MessagesEvent::BlockStop { index });
                index = index + 1;
            },
            ResponsePart::Text(c) | ResponsePart::Refusal(c) => {
                if !c.as_str().is_empty() {
                    out.push(MessagesEvent::BlockStart { index, block: BlockKind::Text });
                    out.push(MessagesEvent::TextDelta { index, text: c.clone() });
                    out.push(MessagesEvent::BlockStop { index });
                    index = index + 1;
                }
            },
            ResponsePart::Other => {},
        }
        proof {
            assert(msg_events_model(out@) =~= before + part_blocks(parts@[i as int]@, at));
        }
        i += 1;
    }
    proof {
        assert(ps.take(parts.len() as int) =~= ps);
    }
    (out, saw_tool_use)
}

/// The block an event belongs to, or -1 for an event of the whole message.
pub open spec fn event_block(e: MessagesEventModel) -> int {
    match e {
        MessagesEventModel::BlockStart { index, .. } => index as int,
        MessagesEventModel::TextDelta { index, .. } => index as int,
        MessagesEventModel::ThinkingDelta { index, .. } => index as int,
        MessagesEventModel::SignatureDelta { index, .. } => index as int,
        MessagesEventModel::InputJsonDelta { index, .. } => index as int,
        MessagesEventModel::BlockStop { index } => index as int,
        _ => -1,
    }
}

/// The tool input the events stream into block `i`: the text of its input
/// JSON deltas, concatenated in order.
pub open spec fn block_input(es: Seq<MessagesEventModel>, i: usize) -> Seq<char>
    decreases es.len(),
{
    if es.len() == 0 {
        seq![]
    } else {
        block_input(es.drop_last(), i) + match es.last() {
            MessagesEventModel::InputJsonDelta { index, partial_json: PieceModel::Text(t) } => if index == i {
                t
            } else {
                seq![]
            },
            _ => seq![],
        }
    }
}

proof fn lemma_block_input_concat(a: Seq<MessagesEventModel>, b: Seq<MessagesEventModel>, i: usize)
    ensures
        block_input(a + b, i) == block_input(a, i) + block_input(b, i),
    decreases b.len(),
{
    if b.len() == 0 {
        assert(a + b =~= a);
    } else {
        assert((a + b).drop_last() =~= a + b.drop_last());
        lemma_block_input_concat(a, b.drop_last(), i);
    }
}

proof fn lemma_block_input_elsewhere(es: Seq<MessagesEventModel>, i: usize)
    requires
        forall|j: int| 0 <= j < es.len() ==> event_block(#[trigger] es[j]) != i as int,
    ensures
        block_input(es, i) == Seq::<char>::empty(),
    decreases es.len(),
{
    if es.len() > 0 {
        assert(event_block(es[es.len() - 1]) != i as int);
        lemma_block_input_elsewhere(es.drop_last(), i);
    }
}

proof fn lemma_part_blocks_index(p: PartModel, i: usize)
    ensures
        forall|j: int| 0 <= j < part_blocks(p, i).len() ==> event_block(#[trigger] part_blocks(p, i)[j]) == i as int,
{
}

/// Every event of the replay belongs to a block numbered below the number of
/// blocks opened, and no more blocks are opened than there are parts.
proof fn lemma_parts_messages_bounds(ps: Seq<PartModel>)
    requires
        ps.len() <= usize::MAX,
    ensures
        parts_messages(ps).1 <= ps.len(),
        forall|j: int|
            0 <= j < parts_messages(ps).0.len() ==> 0 <= event_block(#[trigger] parts_messages(ps).0[j]) < parts_messages(ps).1,
    decreases ps.len(),
{
    if ps.len() > 0 {
        let prev = parts_messages(ps.drop_last());
        lemma_parts_messages_bounds(ps.drop_last());
        let n = prev.1;
        let b = part_blocks(ps.last(), n as usize);
        lemma_part_blocks_index(ps.last(), n as usize);
        assert(n as usize as int == n);
        let e = prev.0 + b;
        assert forall|j: int| 0 <= j < e.len() implies 0 <= event_block(#[trigger] e[j]) < parts_messages(ps).1 by {
            if j < prev.0.len() {
                assert(e[j] == prev.0[j]);
            } else {
                assert(e[j] == b[j - prev.0.len()]);
            }
        }
    }
}

/// A replayed tool call arrives with its arguments: for every tool-call part,
/// the replay opens a tool-use block for that call (its id and name) whose
/// input deltas, concatenated, give back the call's arguments; and a replay
/// with a tool call stops for tool use.
pub proof fn law_replayed_tool_call_carries_its_arguments(ps: Seq<PartModel>, k: int)
    requires
        0 <= k < ps.len(),
        ps.len() <= usize::MAX,
        ps[k] is ToolCall,
    ensures
        exists|i: usize|
            #![trigger block_input(parts_messages(ps).0, i)]
            parts_messages(ps).0.contains(
                MessagesEventModel::BlockStart {
                    index: i,
                    block: BlockKindModel::ToolUse { id: ps[k]->ToolCall_call_id, name: ps[k]->ToolCall_name },
                },
            ) && block_input(parts_messages(ps).0, i) == ps[k]->ToolCall_arguments,
        parts_messages(ps).2,
    decreases ps.len(),
{
    let prev = parts_messages(ps.drop_last());
    let n = prev.1;
    lemma_parts_messages_bounds(ps.drop_last());
    assert(n as usize as int == n);
    let b = part_blocks(ps.last(), n as usize);
    lemma_part_blocks_index(ps.last(), n as usize);
    let es = prev.0 + b;
    assert(parts_messages(ps).0 == es);
    if k == ps.len() - 1 {
        let i = n as usize;
        let start = MessagesEventModel::BlockStart {
            index: i,
            block: BlockKindModel::ToolUse { id: ps[k]->ToolCall_call_id, name: ps[k]->ToolCall_name },
        };
        assert(b[0] == start);
        assert(es[prev.0.len() as int] == start);
        lemma_block_input_concat(prev.0, b, i);
        lemma_block_input_elsewhere(prev.0, i);
        let args = ps[k]->ToolCall_arguments;
        reveal_with_fuel(block_input, 4);
        if args.len() > 0 {
            assert(b.len() == 3);
            assert(b.drop_last().drop_last().drop_last() =~= Seq::<MessagesEventModel>::empty());
            assert(b.drop_last().drop_last() =~= seq![start]);
            assert(b.drop_last().last() == MessagesEventModel::InputJsonDelta { index: i, partial_json: PieceModel::Text(args) });
            assert(block_input(b.drop_last().drop_last(), i) =~= Seq::<char>::empty());
            assert(block_input(b.drop_last(), i) =~= args);
            assert(block_input(b, i) =~= args);
        } else {
            assert(b.len() == 2);
            assert(b.drop_last().drop_last() =~= Seq::<MessagesEventModel>::empty());
            assert(block_input(b.drop_last(), i) =~= Seq::<char>::empty());
            assert(block_input(b, i) =~= args);
        }
        assert(block_input(es, i) == args);
    } else {
        let rest = ps.drop_last();
        assert(rest[k] == ps[k]);
        law_replayed_tool_call_carries_its_arguments(rest, k);
        let i = choose|i: usize|
            #![trigger block_input(prev.0, i)]
            prev.0.contains(
                MessagesEventModel::BlockStart {
                    index: i,
                    block: BlockKindModel::ToolUse { id: ps[k]->ToolCall_call_id, name: ps[k]->ToolCall_name },
                },
            ) && block_input(prev.0, i) == ps[k]->ToolCall_arguments;
        let start = MessagesEventModel::BlockStart {
            index: i,
            block: BlockKindModel::ToolUse { id: ps[k]->ToolCall_call_id, name: ps[k]->ToolCall_name },
        };
        let w = choose|w: int| 0 <= w < prev.0.len() && prev.0[w] == start;
        assert(event_block(prev.0[w]) < n);
        assert(es[w] == start);
        lemma_block_input_concat(prev.0, b, i);
        lemma_block_input_elsewhere(b, i);
        assert(block_input(es, i) == ps[k]->ToolCall_arguments);
    }
}

} // verus!
