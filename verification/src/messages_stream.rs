//! An Anthropic messages event stream built from another provider's stream:
//! content blocks opened as text, thinking and tool use first appear, the
//! deltas sent into them, and how the message ends.
use vstd::prelude::*;
use crate::chat_responses_stream::{
    chat_delta, index_entries, index_find, index_insert, index_lookup, index_record, text_of,
};
use crate::gemini_stream::{chunk_items, gemini_chunk_items, gemini_items_model, GeminiItem, GeminiItemModel};
use crate::json::{
    array_in, get, get_in, opt_get, opt_or, pieces_model, or_else, JsonModel, JsonValue, PieceModel,
    TextPiece,
};
use crate::reasoning::{
    delta_pieces, delta_texts, extract_chat_reasoning_deltas, extract_reasoning_text_and_signature,
    extract_responses_message_text, is_text, message_text, reasoning_signature, reasoning_text, text_or_empty,
};
use crate::json::{opt_u64, str_in, u64_in};
use crate::text::string_of;
use crate::users::string_views;

verus! {

/// The kind of a content block.
#[derive(Debug)]
pub enum BlockKind {
    Text,
    Thinking,
    ToolUse { id: String, name: String },
}

/// One event of the messages stream.
#[derive(Debug)]
pub enum MessagesEvent {
    /// `content_block_start`
    BlockStart { index: usize, block: BlockKind },
    /// `content_block_delta` with a `text_delta`
    TextDelta { index: usize, text: String },
    /// `content_block_delta` with a `thinking_delta`
    ThinkingDelta { index: usize, thinking: String },
    /// `content_block_delta` with a `signature_delta`
    SignatureDelta { index: usize, signature: TextPiece },
    /// `content_block_delta` with an `input_json_delta`
    InputJsonDelta { index: usize, partial_json: TextPiece },
    /// `content_block_stop`
    BlockStop { index: usize },
    /// `message_start`, announcing the assistant message
    MessageStart,
    /// `message_delta`: the message stops for tool use, or at the end of its turn
    MessageDelta { tool_use: bool },
    /// `message_stop`
    MessageStop,
}

/// The content of a [`BlockKind`].
pub enum BlockKindModel {
    Text,
    Thinking,
    ToolUse { id: Seq<char>, name: Seq<char> },
}

/// The content of a [`MessagesEvent`].
pub enum MessagesEventModel {
    BlockStart { index: usize, block: BlockKindModel },
    TextDelta { index: usize, text: Seq<char> },
    ThinkingDelta { index: usize, thinking: Seq<char> },
    SignatureDelta { index: usize, signature: PieceModel },
    InputJsonDelta { index: usize, partial_json: PieceModel },
    BlockStop { index: usize },
    MessageStart,
    MessageDelta { tool_use: bool },
    MessageStop,
}

impl View for MessagesEvent {
    type V = MessagesEventModel;

    open spec fn view(&self) -> MessagesEventModel {
        match self {
            MessagesEvent::BlockStart { index, block } => MessagesEventModel::BlockStart {
                index: *index,
                block: match block {
                    BlockKind::Text => BlockKindModel::Text,
                    BlockKind::Thinking => BlockKindModel::Thinking,
                    BlockKind::ToolUse { id, name } => BlockKindModel::ToolUse { id: id@, name: name@ },
                },
            },
            MessagesEvent::TextDelta { index, text } => MessagesEventModel::TextDelta { index: *index, text: text@ },
            MessagesEvent::ThinkingDelta { index, thinking } => MessagesEventModel::ThinkingDelta {
                index: *index,
                thinking: thinking@,
            },
            MessagesEvent::SignatureDelta { index, signature } => MessagesEventModel::SignatureDelta {
                index: *index,
                signature: signature@,
            },
            MessagesEvent::InputJsonDelta { index, partial_json } => MessagesEventModel::InputJsonDelta {
                index: *index,
                partial_json: partial_json@,
            },
            MessagesEvent::BlockStop { index } => MessagesEventModel::BlockStop { index: *index },
            MessagesEvent::MessageStart => MessagesEventModel::MessageStart,
            MessagesEvent::MessageDelta { tool_use } => MessagesEventModel::MessageDelta { tool_use: *tool_use },
            MessagesEvent::MessageStop => MessagesEventModel::MessageStop,
        }
    }
}

pub open spec fn msg_events_model(v: Seq<MessagesEvent>) -> Seq<MessagesEventModel> {
    v.map_values(|e: MessagesEvent| e@)
}

/// The content blocks of a message being streamed: the indices started, in
/// order (each block's index is the number of blocks started before it),
/// the text and thinking blocks, and the tool-use block of each call id.
#[derive(Debug)]
pub struct AnthropicBlocks {
    pub started: Vec<usize>,
    pub text_index: Option<usize>,
    pub thinking_index: Option<usize>,
    pub tool_indices: Vec<(String, usize)>,
}

/// The content of an [`AnthropicBlocks`].
pub struct BlocksModel {
    pub started: Seq<usize>,
    pub text_index: Option<usize>,
    pub thinking_index: Option<usize>,
    pub tools: Seq<(Seq<char>, usize)>,
}

impl View for AnthropicBlocks {
    type V = BlocksModel;

    open spec fn view(&self) -> BlocksModel {
        BlocksModel {
            started: self.started@,
            text_index: self.text_index,
            thinking_index: self.thinking_index,
            tools: self.tool_indices@.map_values(|e: (String, usize)| (e.0@, e.1)),
        }
    }
}

/// No block started yet.
pub open spec fn no_blocks() -> BlocksModel {
    BlocksModel { started: seq![], text_index: None, thinking_index: None, tools: seq![] }
}

/// The index the next block gets.
pub open spec fn next_index(b: BlocksModel) -> usize {
    b.started.len() as usize
}

/// The text block, started (and announced) when there is none yet.
pub open spec fn ensure_text(b: BlocksModel) -> (BlocksModel, usize, Seq<MessagesEventModel>) {
    match b.text_index {
        Some(i) => (b, i, seq![]),
        None => {
            let i = next_index(b);
            (
                BlocksModel { started: b.started.push(i), text_index: Some(i), ..b },
                i,
                seq![MessagesEventModel::BlockStart { index: i, block: BlockKindModel::Text }],
            )
        },
    }
}

/// The thinking block, started (and announced) when there is none yet.
pub open spec fn ensure_thinking(b: BlocksModel) -> (BlocksModel, usize, Seq<MessagesEventModel>) {
    match b.thinking_index {
        Some(i) => (b, i, seq![]),
        None => {
            let i = next_index(b);
            (
                BlocksModel { started: b.started.push(i), thinking_index: Some(i), ..b },
                i,
                seq![MessagesEventModel::BlockStart { index: i, block: BlockKindModel::Thinking }],
            )
        },
    }
}

/// The position of the tool block of call `id` at or after position `k`.
pub open spec fn tool_position_from(tools: Seq<(Seq<char>, usize)>, id: Seq<char>, k: int) -> Option<int>
    decreases tools.len() - k,
{
    if k < 0 || k >= tools.len() {
        None
    } else if tools[k].0 == id {
        Some(k)
    } else {
        tool_position_from(tools, id, k + 1)
    }
}

/// The tool-use block of call `id`, started (and announced with `name`)
/// when there is none yet.
pub open spec fn ensure_tool(b: BlocksModel, id: Seq<char>, name: Seq<char>) -> (
    BlocksModel,
    usize,
    Seq<MessagesEventModel>,
) {
    match tool_position_from(b.tools, id, 0) {
        Some(k) => (b, b.tools[k].1, seq![]),
        None => {
            let i = next_index(b);
            (
                BlocksModel { started: b.started.push(i), tools: b.tools.push((id, i)), ..b },
                i,
                seq![
                    MessagesEventModel::BlockStart {
                        index: i,
                        block: BlockKindModel::ToolUse { id, name },
                    },
                ],
            )
        },
    }
}

/// Thinking text sent into the thinking block.
pub open spec fn with_thinking(b: BlocksModel, t: Seq<char>) -> (BlocksModel, Seq<MessagesEventModel>) {
    let (b1, i, e1) = ensure_thinking(b);
    (b1, e1.push(MessagesEventModel::ThinkingDelta { index: i, thinking: t }))
}

/// A signature piece sent into the thinking block.
pub open spec fn with_thinking_signature(b: BlocksModel, p: PieceModel) -> (BlocksModel, Seq<MessagesEventModel>) {
    let (b1, i, e1) = ensure_thinking(b);
    (b1, e1.push(MessagesEventModel::SignatureDelta { index: i, signature: p }))
}

/// Text sent into the text block.
pub open spec fn with_text(b: BlocksModel, t: Seq<char>) -> (BlocksModel, Seq<MessagesEventModel>) {
    let (b1, i, e1) = ensure_text(b);
    (b1, e1.push(MessagesEventModel::TextDelta { index: i, text: t }))
}

/// Input JSON sent into the tool block of call `id`.
pub open spec fn with_tool_input(b: BlocksModel, id: Seq<char>, name: Seq<char>, p: PieceModel) -> (
    BlocksModel,
    Seq<MessagesEventModel>,
) {
    let (b1, i, e1) = ensure_tool(b, id, name);
    (b1, e1.push(MessagesEventModel::InputJsonDelta { index: i, partial_json: p }))
}

impl AnthropicBlocks {
    pub fn new() -> (r: Self)
        ensures
            r@ == no_blocks(),
    {
        let r = AnthropicBlocks { started: Vec::new(), text_index: None, thinking_index: None, tool_indices: Vec::new() };
        proof {
            assert(r@.started =~= seq![]);
            assert(r@.tools =~= seq![]);
        }
        r
    }

    /// The text block (see [`ensure_text`]).
    pub fn ensure_text_block(&mut self, events: &mut Vec<MessagesEvent>) -> (r: usize)
        ensures
            (final(self)@, r) == (ensure_text(old(self)@).0, ensure_text(old(self)@).1),
            msg_events_model(final(events)@) == msg_events_model(old(events)@) + ensure_text(old(self)@).2,
    {
        match self.text_index {
            Some(i) => {
                proof {
                    assert(msg_events_model(events@) =~= msg_events_model(old(events)@) + seq![]);
                }
                i
            },
            None => {
                let i = self.started.len();
                self.started.push(i);
                self.text_index = Some(i);
                events.push(MessagesEvent::BlockStart { index: i, block: BlockKind::Text });
                proof {
                    assert(msg_events_model(events@) =~= msg_events_model(old(events)@) + seq![
                        MessagesEventModel::BlockStart { index: i, block: BlockKindModel::Text },
                    ]);
                }
                i
            },
        }
    }

    /// The thinking block (see [`ensure_thinking`]).
    pub fn ensure_thinking_block(&mut self, events: &mut Vec<MessagesEvent>) -> (r: usize)
        ensures
            (final(self)@, r) == (ensure_thinking(old(self)@).0, ensure_thinking(old(self)@).1),
            msg_events_model(final(events)@) == msg_events_model(old(events)@) + ensure_thinking(old(self)@).2,
    {
        match self.thinking_index {
            Some(i) => {
                proof {
                    assert(msg_events_model(events@) =~= msg_events_model(old(events)@) + seq![]);
                }
                i
            },
            None => {
                let i = self.started.len();
                self.started.push(i);
                self.thinking_index = Some(i);
                events.push(MessagesEvent::BlockStart { index: i, block: BlockKind::Thinking });
                proof {
                    assert(msg_events_model(events@) =~= msg_events_model(old(events)@) + seq![
                        MessagesEventModel::BlockStart { index: i, block: BlockKindModel::Thinking },
                    ]);
                }
                i
            },
        }
    }

    /// The tool-use block of call `id` (see [`ensure_tool`]).
    pub fn ensure_tool_block(&mut self, id: &String, name: &String, events: &mut Vec<MessagesEvent>) -> (r: usize)
        ensures
            (final(self)@, r) == (ensure_tool(old(self)@, id@, name@).0, ensure_tool(old(self)@, id@, name@).1),
            msg_events_model(final(events)@) == msg_events_model(old(events)@) + ensure_tool(
                old(self)@,
                id@,
                name@,
            ).2,
    {
        let ghost tools = self@.tools;
        let mut k: usize = 0;
        while k < self.tool_indices.len()
            invariant
                k <= self.tool_indices@.len(),
                tools == self@.tools,
                self@ == old(self)@,
                events@ == old(events)@,
                tool_position_from(tools, id@, 0) == tool_position_from(tools, id@, k as int),
            decreases self.tool_indices@.len() - k,
        {
            if self.tool_indices[k].0 == *id {
                proof {
                    assert(msg_events_model(events@) =~= msg_events_model(old(events)@) + seq![]);
                }
                return self.tool_indices[k].1;
            }
            k += 1;
        }
        let i = self.started.len();
        self.started.push(i);
        self.tool_indices.push((id.clone(), i));
        events.push(MessagesEvent::BlockStart { index: i, block: BlockKind::ToolUse { id: id.clone(), name: name.clone() } });
        proof {
            assert(self@.tools =~= tools.push((id@, i)));
            assert(msg_events_model(events@) =~= msg_events_model(old(events)@) + seq![
                MessagesEventModel::BlockStart { index: i, block: BlockKindModel::ToolUse { id: id@, name: name@ } },
            ]);
        }
        i
    }

    /// Sends thinking text (see [`with_thinking`]).
    pub fn add_thinking(&mut self, t: String, events: &mut Vec<MessagesEvent>)
        ensures
            final(self)@ == with_thinking(old(self)@, t@).0,
            msg_events_model(final(events)@) == msg_events_model(old(events)@) + with_thinking(old(self)@, t@).1,
    {
        let ghost tm = t@;
        let i = self.ensure_thinking_block(events);
        let ghost mid = events@;
        events.push(MessagesEvent::ThinkingDelta { index: i, thinking: t });
        proof {
            assert(msg_events_model(events@) =~= msg_events_model(mid).push(
                MessagesEventModel::ThinkingDelta { index: i, thinking: tm },
            ));
        }
    }

    /// Sends a signature piece (see [`with_thinking_signature`]).
    pub fn add_signature(&mut self, p: TextPiece, events: &mut Vec<MessagesEvent>)
        ensures
            final(self)@ == with_thinking_signature(old(self)@, p@).0,
            msg_events_model(final(events)@) == msg_events_model(old(events)@) + with_thinking_signature(
                old(self)@,
                p@,
            ).1,
    {
        let ghost pm = p@;
        let i = self.ensure_thinking_block(events);
        let ghost mid = events@;
        events.push(MessagesEvent::SignatureDelta { index: i, signature: p });
        proof {
            assert(msg_events_model(events@) =~= msg_events_model(mid).push(
                MessagesEventModel::SignatureDelta { index: i, signature: pm },
            ));
        }
    }

    /// Sends text (see [`with_text`]).
    pub fn add_text(&mut self, t: String, events: &mut Vec<MessagesEvent>)
        ensures
            final(self)@ == with_text(old(self)@, t@).0,
            msg_events_model(final(events)@) == msg_events_model(old(events)@) + with_text(old(self)@, t@).1,
    {
        let ghost tm = t@;
        let i = self.ensure_text_block(events);
        let ghost mid = events@;
        events.push(MessagesEvent::TextDelta { index: i, text: t });
        proof {
            assert(msg_events_model(events@) =~= msg_events_model(mid).push(
                MessagesEventModel::TextDelta { index: i, text: tm },
            ));
        }
    }

    /// Sends tool input (see [`with_tool_input`]).
    pub fn add_tool_input(&mut self, id: &String, name: &String, p: TextPiece, events: &mut Vec<MessagesEvent>)
        ensures
            final(self)@ == with_tool_input(old(self)@, id@, name@, p@).0,
            msg_events_model(final(events)@) == msg_events_model(old(events)@) + with_tool_input(
                old(self)@,
                id@,
                name@,
                p@,
            ).1,
    {
        let ghost pm = p@;
        let i = self.ensure_tool_block(id, name, events);
        let ghost mid = events@;
        events.push(MessagesEvent::InputJsonDelta { index: i, partial_json: p });
        proof {
            assert(msg_events_model(events@) =~= msg_events_model(mid).push(
                MessagesEventModel::InputJsonDelta { index: i, partial_json: pm },
            ));
        }
    }
}

/// One Gemini item in the messages stream: thoughts and their signatures
/// into the thinking block, text into the text block, and a call's JSON
/// arguments into its tool-use block.
pub open spec fn gemini_msg_item_step(b: BlocksModel, item: GeminiItemModel) -> (BlocksModel, Seq<MessagesEventModel>) {
    match item {
        GeminiItemModel::Thought(t) => with_thinking(b, t),
        GeminiItemModel::Signature(p) => with_thinking_signature(b, p),
        GeminiItemModel::Text(t) => with_text(b, t),
        GeminiItemModel::Call { id, name, args } => with_tool_input(b, id, name, PieceModel::Encoded(args)),
    }
}

/// The items in turn.
pub open spec fn gemini_msg_items_steps(b: BlocksModel, items: Seq<GeminiItemModel>) -> (
    BlocksModel,
    Seq<MessagesEventModel>,
)
    decreases items.len(),
{
    if items.len() == 0 {
        (b, seq![])
    } else {
        let (b1, e1) = gemini_msg_items_steps(b, items.drop_last());
        let (b2, e2) = gemini_msg_item_step(b1, items.last());
        (b2, e1 + e2)
    }
}

/// The Gemini-to-messages stream.
#[derive(Debug)]
pub struct GeminiMessagesStream {
    pub blocks: AnthropicBlocks,
    pub saw_tool_use: bool,
}

impl GeminiMessagesStream {
    pub fn new() -> (r: Self)
        ensures
            r.blocks@ == no_blocks(),
            !r.saw_tool_use,
    {
        GeminiMessagesStream { blocks: AnthropicBlocks::new(), saw_tool_use: false }
    }

    /// Applies one Gemini chunk and gives the messages events to send.
    pub fn on_chunk(&mut self, data: &JsonValue) -> (r: Vec<MessagesEvent>)
        ensures
            final(self).blocks@ == gemini_msg_items_steps(old(self).blocks@, chunk_items(data@)).0,
            msg_events_model(r@) == gemini_msg_items_steps(old(self).blocks@, chunk_items(data@)).1,
            final(self).saw_tool_use == (old(self).saw_tool_use || crate::gemini_stream::has_call(chunk_items(data@))),
    {
        let mut items = gemini_chunk_items(data);
        let ghost all = gemini_items_model(items@);
        let mut events: Vec<MessagesEvent> = Vec::new();
        proof {
            assert(msg_events_model(events@) =~= seq![]);
            assert(all.take(0) =~= seq![]);
        }
        let n = items.len();
        let mut saw = false;
        let mut i: usize = 0;
        while i < n
            invariant
                i <= n,
                n == all.len(),
                items@.len() == n - i,
                gemini_items_model(items@) == all.skip(i as int),
                self.blocks@ == gemini_msg_items_steps(old(self).blocks@, all.take(i as int)).0,
                msg_events_model(events@) == gemini_msg_items_steps(old(self).blocks@, all.take(i as int)).1,
                self.saw_tool_use == old(self).saw_tool_use,
                saw == exists|k: int| 0 <= k < i && #[trigger] all[k] is Call,
            decreases n - i,
        {
            let ghost before = items@;
            let item = items.remove(0);
            proof {
                assert(items@ =~= before.subrange(1, before.len() as int));
                assert(gemini_items_model(items@) =~= gemini_items_model(before).skip(1));
                assert(all.skip(i as int).skip(1) =~= all.skip(i + 1));
                assert(item@ == gemini_items_model(before)[0]);
                assert(gemini_items_model(before)[0] == all.skip(i as int)[0]);
                assert(item@ == all[i as int]);
                assert(all.take(i + 1).drop_last() =~= all.take(i as int));
                assert(all.take(i + 1).last() == all[i as int]);
            }
            match item {
                GeminiItem::Thought(t) => self.blocks.add_thinking(t, &mut events),
                GeminiItem::Signature(p) => self.blocks.add_signature(p, &mut events),
                GeminiItem::Text(t) => self.blocks.add_text(t, &mut events),
                GeminiItem::Call { id, name, args } => {
                    saw = true;
                    self.blocks.add_tool_input(&id, &name, TextPiece::Encoded(args), &mut events);
                },
            }
            i += 1;
        }
        proof {
            assert(all.take(n as int) =~= all);
        }
        if saw {
            self.saw_tool_use = true;
        }
        events
    }
}

/// Each thinking text in turn.
pub open spec fn with_thinkings(b: BlocksModel, ts: Seq<Seq<char>>) -> (BlocksModel, Seq<MessagesEventModel>)
    decreases ts.len(),
{
    if ts.len() == 0 {
        (b, seq![])
    } else {
        let (b1, e1) = with_thinkings(b, ts.drop_last());
        let (b2, e2) = with_thinking(b1, ts.last());
        (b2, e1 + e2)
    }
}

/// Each signature piece in turn.
pub open spec fn with_thinking_signatures(b: BlocksModel, ps: Seq<PieceModel>) -> (BlocksModel, Seq<MessagesEventModel>)
    decreases ps.len(),
{
    if ps.len() == 0 {
        (b, seq![])
    } else {
        let (b1, e1) = with_thinking_signatures(b, ps.drop_last());
        let (b2, e2) = with_thinking_signature(b1, ps.last());
        (b2, e1 + e2)
    }
}

/// One tool-call delta of a chat chunk: ignored without an id; else the
/// call's tool-use block, and its argument text when that is a non-empty
/// string.
pub open spec fn chat_msg_tool_step(b: BlocksModel, tc: JsonModel) -> (BlocksModel, Seq<MessagesEventModel>) {
    let id = text_or_empty(or_else(get(tc, "id"@), get(tc, "call_id"@)));
    if id.len() == 0 {
        (b, seq![])
    } else {
        let function = get(tc, "function"@);
        let name = text_or_empty(get_in(function, "name"@));
        let args = text_or_empty(get_in(function, "arguments"@));
        if args.len() > 0 {
            with_tool_input(b, id, name, PieceModel::Text(args))
        } else {
            let (b1, _i, e1) = ensure_tool(b, id, name);
            (b1, e1)
        }
    }
}

/// The first `n` tool-call deltas in turn.
pub open spec fn chat_msg_tool_steps(b: BlocksModel, tcs: Seq<JsonModel>, n: int) -> (BlocksModel, Seq<MessagesEventModel>)
    decreases n,
{
    if n <= 0 {
        (b, seq![])
    } else {
        let (b1, e1) = chat_msg_tool_steps(b, tcs, n - 1);
        let (b2, e2) = chat_msg_tool_step(b1, tcs[n - 1]);
        (b2, e1 + e2)
    }
}

/// What one chat completion chunk does in the messages stream: its reasoning
/// texts and signature pieces into the thinking block, its non-empty content
/// into the text block, then its tool-call deltas.
pub open spec fn chat_msg_step(b: BlocksModel, data: JsonModel) -> (BlocksModel, Seq<MessagesEventModel>) {
    let delta = chat_delta(data);
    let (b1, e1) = with_thinkings(b, delta_texts(delta));
    let (b2, e2) = with_thinking_signatures(b1, delta_pieces(delta));
    let t = text_or_empty(get(delta, "content"@));
    let (b3, e3) = if t.len() > 0 {
        with_text(b2, t)
    } else {
        (b2, seq![])
    };
    let (b4, e4) = match array_in(get(delta, "tool_calls"@)) {
        Some(tcs) => chat_msg_tool_steps(b3, tcs, tcs.len() as int),
        None => (b3, seq![]),
    };
    (b4, e1 + e2 + e3 + e4)
}

impl AnthropicBlocks {
    /// Whether a tool-use block was started: the message then stops for tool
    /// use, else at the end of its turn.
    pub fn stops_for_tool_use(&self) -> (r: bool)
        ensures
            r == (self@.tools.len() > 0),
    {
        self.tool_indices.len() > 0
    }

    fn add_thinkings(&mut self, texts: Vec<String>, events: &mut Vec<MessagesEvent>)
        ensures
            final(self)@ == with_thinkings(old(self)@, string_views(texts@)).0,
            msg_events_model(final(events)@) == msg_events_model(old(events)@) + with_thinkings(
                old(self)@,
                string_views(texts@),
            ).1,
    {
        let ghost ts = string_views(texts@);
        let ghost e0 = msg_events_model(events@);
        proof {
            assert(ts.take(0) =~= seq![]);
            assert(e0 + seq![] =~= e0);
        }
        let mut i: usize = 0;
        while i < texts.len()
            invariant
                i <= texts.len(),
                ts == string_views(texts@),
                e0 == msg_events_model(old(events)@),
                self@ == with_thinkings(old(self)@, ts.take(i as int)).0,
                msg_events_model(events@) == e0 + with_thinkings(old(self)@, ts.take(i as int)).1,
            decreases texts.len() - i,
        {
            self.add_thinking(texts[i].clone(), events);
            proof {
                assert(ts.take(i + 1).drop_last() =~= ts.take(i as int));
                assert(ts.take(i + 1).last() == texts@[i as int]@);
                let prev = with_thinkings(old(self)@, ts.take(i as int));
                assert(msg_events_model(events@) =~= e0 + (prev.1 + with_thinking(prev.0, texts@[i as int]@).1));
            }
            i += 1;
        }
        proof {
            assert(ts.take(texts.len() as int) =~= ts);
        }
    }

    fn add_signatures(&mut self, pieces: Vec<TextPiece>, events: &mut Vec<MessagesEvent>)
        ensures
            final(self)@ == with_thinking_signatures(old(self)@, pieces_model(pieces@)).0,
            msg_events_model(final(events)@) == msg_events_model(old(events)@) + with_thinking_signatures(
                old(self)@,
                pieces_model(pieces@),
            ).1,
    {
        let ghost ps = pieces_model(pieces@);
        let ghost e0 = msg_events_model(events@);
        proof {
            assert(ps.take(0) =~= seq![]);
            assert(e0 + seq![] =~= e0);
        }
        let mut j: usize = 0;
        while j < pieces.len()
            invariant
                j <= pieces.len(),
                ps == pieces_model(pieces@),
                e0 == msg_events_model(old(events)@),
                self@ == with_thinking_signatures(old(self)@, ps.take(j as int)).0,
                msg_events_model(events@) == e0 + with_thinking_signatures(old(self)@, ps.take(j as int)).1,
            decreases pieces.len() - j,
        {
            self.add_signature(pieces[j].copy_piece(), events);
            proof {
                assert(ps.take(j + 1).drop_last() =~= ps.take(j as int));
                assert(ps.take(j + 1).last() == pieces@[j as int]@);
                let prev = with_thinking_signatures(old(self)@, ps.take(j as int));
                assert(msg_events_model(events@) =~= e0 + (prev.1 + with_thinking_signature(
                    prev.0,
                    pieces@[j as int]@,
                ).1));
            }
            j += 1;
        }
        proof {
            assert(ps.take(pieces.len() as int) =~= ps);
        }
    }

    fn on_chat_tool_call(&mut self, tc: &JsonValue, events: &mut Vec<MessagesEvent>)
        ensures
            final(self)@ == chat_msg_tool_step(old(self)@, tc@).0,
            msg_events_model(final(events)@) == msg_events_model(old(events)@) + chat_msg_tool_step(old(self)@, tc@).1,
    {
        let id = text_of(opt_or(tc.get("id"), tc.get("call_id")));
        if id.as_str().is_empty() {
            proof {
                assert(msg_events_model(events@) =~= msg_events_model(old(events)@) + seq![]);
            }
            return;
        }
        let function = tc.get("function");
        let name = text_of(opt_get(function, "name"));
        let args = text_of(opt_get(function, "arguments"));
        if !args.as_str().is_empty() {
            self.add_tool_input(&id, &name, TextPiece::Text(args), events);
        } else {
            self.ensure_tool_block(&id, &name, events);
        }
    }

    /// Applies one chat completion chunk (see [`chat_msg_step`]) and gives
    /// the messages events to send.
    pub fn on_chat_chunk(&mut self, data: &JsonValue) -> (r: Vec<MessagesEvent>)
        ensures
            final(self)@ == chat_msg_step(old(self)@, data@).0,
            msg_events_model(r@) == chat_msg_step(old(self)@, data@).1,
    {
        let mut events: Vec<MessagesEvent> = Vec::new();
        proof {
            assert(msg_events_model(events@) =~= seq![]);
        }
        let null = JsonValue::Null;
        let delta: &JsonValue = match opt_get(crate::chat_responses_stream::first_choice(data), "delta") {
            Some(d) => d,
            None => &null,
        };
        proof {
            assert(delta@ == chat_delta(data@));
        }
        let (texts, pieces) = extract_chat_reasoning_deltas(delta);
        self.add_thinkings(texts, &mut events);
        self.add_signatures(pieces, &mut events);
        let t = text_of(delta.get("content"));
        let ghost e2 = msg_events_model(events@);
        if !t.as_str().is_empty() {
            self.add_text(t, &mut events);
        } else {
            proof {
                assert(msg_events_model(events@) =~= e2 + seq![]);
            }
        }
        let ghost b3 = self@;
        let ghost e3 = msg_events_model(events@);
        proof {
            assert(e3 + seq![] =~= e3);
        }
        if let Some(v) = delta.get("tool_calls") {
            if let Some(tcs) = v.as_array() {
                let count = tcs.len();
                let ghost tms = Seq::new(count as nat, |t: int| tcs@[t]@);
                let mut k: usize = 0;
                while k < count
                    invariant
                        k <= count,
                        count == tcs@.len(),
                        tms == Seq::new(count as nat, |t: int| tcs@[t]@),
                        self@ == chat_msg_tool_steps(b3, tms, k as int).0,
                        msg_events_model(events@) == e3 + chat_msg_tool_steps(b3, tms, k as int).1,
                    decreases count - k,
                {
                    self.on_chat_tool_call(&tcs[k], &mut events);
                    proof {
                        let prev = chat_msg_tool_steps(b3, tms, k as int);
                        assert(tms[k as int] == tcs@[k as int]@);
                        assert(msg_events_model(events@) =~= e3 + (prev.1 + chat_msg_tool_step(
                            prev.0,
                            tms[k as int],
                        ).1));
                    }
                    k += 1;
                }
            }
        }
        proof {
            assert(msg_events_model(events@) =~= chat_msg_step(old(self)@, data@).1);
        }
        events
    }
}

/// The first of two members that is a string, or the empty string.
pub open spec fn first_str(a: Option<JsonModel>, b: Option<JsonModel>) -> Seq<char> {
    match str_in(a) {
        Some(s) => s,
        None => text_or_empty(b),
    }
}

/// The item an output-item event carries: its `item`, else the event itself.
pub open spec fn event_item(data: JsonModel) -> JsonModel {
    match get(data, "item"@) {
        Some(i) => i,
        None => data,
    }
}

/// The responses-to-messages stream: the blocks, the call id of each output
/// index, and whether output text arrived as deltas.
#[derive(Debug)]
pub struct ResponsesMessagesStream {
    pub blocks: AnthropicBlocks,
    pub call_ids_by_output_index: Vec<(u64, String)>,
    pub saw_text_delta: bool,
}

/// The content of a [`ResponsesMessagesStream`].
pub struct ResponsesMessagesModel {
    pub blocks: BlocksModel,
    pub by_index: Seq<(u64, Seq<char>)>,
    pub saw_text_delta: bool,
}

impl View for ResponsesMessagesStream {
    type V = ResponsesMessagesModel;

    open spec fn view(&self) -> ResponsesMessagesModel {
        ResponsesMessagesModel {
            blocks: self.blocks@,
            by_index: index_entries(self.call_ids_by_output_index@),
            saw_text_delta: self.saw_text_delta,
        }
    }
}

/// A call's tool-use block, with `args` sent into it when not empty.
pub open spec fn with_tool_args(b: BlocksModel, id: Seq<char>, name: Seq<char>, args: Seq<char>) -> (
    BlocksModel,
    Seq<MessagesEventModel>,
) {
    if args.len() > 0 {
        with_tool_input(b, id, name, PieceModel::Text(args))
    } else {
        let (b1, _i, e1) = ensure_tool(b, id, name);
        (b1, e1)
    }
}

/// A completed or announced function-call item: recorded under its output
/// index, its block started, and its arguments (if any) sent.
pub open spec fn call_item_step(m: ResponsesMessagesModel, data: JsonModel, item: JsonModel, args: Seq<char>) -> (
    ResponsesMessagesModel,
    Seq<MessagesEventModel>,
) {
    let call_id = text_or_empty(get(item, "call_id"@));
    let name = text_or_empty(get(item, "name"@));
    if call_id.len() == 0 {
        (m, seq![])
    } else {
        let by_index = match u64_in(get(data, "output_index"@)) {
            Some(k) => index_insert(m.by_index, k, call_id),
            None => m.by_index,
        };
        let (b1, e1) = with_tool_args(m.blocks, call_id, name, args);
        (ResponsesMessagesModel { blocks: b1, by_index, saw_text_delta: m.saw_text_delta }, e1)
    }
}

/// A completed output item: a function call (with its arguments), a message
/// (its text, unless text arrived as deltas), or a reasoning item (its text
/// and signature).
pub open spec fn item_done_step(m: ResponsesMessagesModel, data: JsonModel) -> (
    ResponsesMessagesModel,
    Seq<MessagesEventModel>,
) {
    let item = event_item(data);
    if is_text(get(item, "type"@), "function_call"@) {
        call_item_step(m, data, item, text_or_empty(get(item, "arguments"@)))
    } else if is_text(get(item, "type"@), "message"@) {
        let text = message_text(item);
        if !m.saw_text_delta && text.len() > 0 {
            let (b1, e1) = with_text(m.blocks, text);
            (ResponsesMessagesModel { blocks: b1, ..m }, e1)
        } else {
            (m, seq![])
        }
    } else if is_text(get(item, "type"@), "reasoning"@) {
        let text = reasoning_text(item);
        let sig = reasoning_signature(item);
        let (b1, e1) = if text.len() > 0 {
            with_thinking(m.blocks, text)
        } else {
            (m.blocks, seq![])
        };
        let (b2, e2) = if sig.len() > 0 {
            with_thinking_signature(b1, PieceModel::Text(sig))
        } else {
            (b1, seq![])
        };
        (ResponsesMessagesModel { blocks: b2, ..m }, e1 + e2)
    } else {
        (m, seq![])
    }
}

/// What one responses stream event (by name) does in the messages stream.
pub open spec fn responses_msg_step(m: ResponsesMessagesModel, event: Seq<char>, data: JsonModel) -> (
    ResponsesMessagesModel,
    Seq<MessagesEventModel>,
) {
    if event == "response.output_text.delta"@ {
        let t = first_str(get(data, "text"@), get(data, "delta"@));
        if t.len() > 0 {
            let (b1, e1) = with_text(m.blocks, t);
            (ResponsesMessagesModel { blocks: b1, by_index: m.by_index, saw_text_delta: true }, e1)
        } else {
            (m, seq![])
        }
    } else if event == "response.reasoning_text.delta"@ {
        let t = first_str(get(data, "delta"@), get(data, "text"@));
        if t.len() > 0 {
            let (b1, e1) = with_thinking(m.blocks, t);
            (ResponsesMessagesModel { blocks: b1, ..m }, e1)
        } else {
            (m, seq![])
        }
    } else if event == "response.reasoning_signature.delta"@ {
        let t = text_or_empty(get(data, "delta"@));
        if t.len() > 0 {
            let (b1, e1) = with_thinking_signature(m.blocks, PieceModel::Text(t));
            (ResponsesMessagesModel { blocks: b1, ..m }, e1)
        } else {
            (m, seq![])
        }
    } else if event == "response.output_item.added"@ {
        let item = event_item(data);
        if is_text(get(item, "type"@), "function_call"@) {
            call_item_step(m, data, item, seq![])
        } else {
            (m, seq![])
        }
    } else if event == "response.function_call_arguments.delta"@ {
        let call_id = match str_in(get(data, "call_id"@)) {
            Some(s) => s,
            None => match u64_in(get(data, "output_index"@)) {
                Some(k) => match index_lookup(m.by_index, k) {
                    Some(c) => c,
                    None => seq![],
                },
                None => seq![],
            },
        };
        if call_id.len() > 0 {
            let (b1, e1) = with_tool_args(
                m.blocks,
                call_id,
                text_or_empty(get(data, "name"@)),
                text_or_empty(get(data, "delta"@)),
            );
            (ResponsesMessagesModel { blocks: b1, ..m }, e1)
        } else {
            (m, seq![])
        }
    } else if event == "response.output_item.done"@ {
        item_done_step(m, data)
    } else {
        (m, seq![])
    }
}

/// The first of two members that is a string, or the empty string.
fn first_str_of(a: Option<&JsonValue>, b: Option<&JsonValue>) -> (r: String)
    ensures
        r@ == first_str(crate::json::opt_model(a), crate::json::opt_model(b)),
{
    match crate::json::opt_str(a) {
        Some(s) => string_of(s),
        None => text_of(b),
    }
}

fn type_is(item: &JsonValue, lit: &str) -> (r: bool)
    ensures
        r == is_text(get(item@, "type"@), lit@),
{
    match crate::json::opt_str(item.get("type")) {
        Some(t) => string_of(t) == string_of(lit),
        None => false,
    }
}

impl AnthropicBlocks {
    fn add_tool_args(&mut self, id: &String, name: &String, args: String, events: &mut Vec<MessagesEvent>)
        ensures
            final(self)@ == with_tool_args(old(self)@, id@, name@, args@).0,
            msg_events_model(final(events)@) == msg_events_model(old(events)@) + with_tool_args(
                old(self)@,
                id@,
                name@,
                args@,
            ).1,
    {
        if !args.as_str().is_empty() {
            self.add_tool_input(id, name, TextPiece::Text(args), events);
        } else {
            self.ensure_tool_block(id, name, events);
        }
    }
}

impl ResponsesMessagesStream {
    pub fn new() -> (r: Self)
        ensures
            r@.blocks == no_blocks(),
            r@.by_index == Seq::<(u64, Seq<char>)>::empty(),
            !r@.saw_text_delta,
    {
        let r = ResponsesMessagesStream {
            blocks: AnthropicBlocks::new(),
            call_ids_by_output_index: Vec::new(),
            saw_text_delta: false,
        };
        proof {
            assert(r@.by_index =~= Seq::<(u64, Seq<char>)>::empty());
        }
        r
    }

    fn on_call_item(&mut self, data: &JsonValue, item: &JsonValue, args: String, events: &mut Vec<MessagesEvent>)
        ensures
            final(self)@ == call_item_step(old(self)@, data@, item@, args@).0,
            msg_events_model(final(events)@) == msg_events_model(old(events)@) + call_item_step(
                old(self)@,
                data@,
                item@,
                args@,
            ).1,
    {
        let call_id = text_of(item.get("call_id"));
        let name = text_of(item.get("name"));
        if call_id.as_str().is_empty() {
            proof {
                assert(msg_events_model(events@) =~= msg_events_model(old(events)@) + seq![]);
            }
            return;
        }
        if let Some(k) = opt_u64(data.get("output_index")) {
            index_record(&mut self.call_ids_by_output_index, k, &call_id);
        }
        self.blocks.add_tool_args(&call_id, &name, args, events);
    }

    fn on_item_done(&mut self, data: &JsonValue, events: &mut Vec<MessagesEvent>)
        ensures
            final(self)@ == item_done_step(old(self)@, data@).0,
            msg_events_model(final(events)@) == msg_events_model(old(events)@) + item_done_step(old(self)@, data@).1,
    {
        proof {
            reveal_strlit("function_call");
            reveal_strlit("message");
            reveal_strlit("reasoning");
            assert(msg_events_model(old(events)@) + seq![] =~= msg_events_model(old(events)@));
        }
        let item = match data.get("item") {
            Some(i) => i,
            None => data,
        };
        if type_is(item, "function_call") {
            let args = text_of(item.get("arguments"));
            self.on_call_item(data, item, args, events);
        } else if type_is(item, "message") {
            let text = extract_responses_message_text(item);
            if !self.saw_text_delta && !text.as_str().is_empty() {
                self.blocks.add_text(text, events);
            }
        } else if type_is(item, "reasoning") {
            let (text, sig) = extract_reasoning_text_and_signature(item);
            let ghost e0 = msg_events_model(events@);
            if !text.as_str().is_empty() {
                self.blocks.add_thinking(text, events);
            }
            let ghost e1 = msg_events_model(events@);
            if !sig.as_str().is_empty() {
                self.blocks.add_signature(TextPiece::Text(sig), events);
            }
            proof {
                assert(msg_events_model(events@) =~= msg_events_model(old(events)@) + item_done_step(
                    old(self)@,
                    data@,
                ).1);
            }
        }
    }

    /// Applies one responses stream event named `event` (see
    /// [`responses_msg_step`]) and gives the messages events to send.
    pub fn on_event(&mut self, event: &str, data: &JsonValue) -> (r: Vec<MessagesEvent>)
        ensures
            final(self)@ == responses_msg_step(old(self)@, event@, data@).0,
            msg_events_model(r@) == responses_msg_step(old(self)@, event@, data@).1,
    {
        proof {
            reveal_strlit("response.output_text.delta");
            reveal_strlit("response.reasoning_text.delta");
            reveal_strlit("response.reasoning_signature.delta");
            reveal_strlit("response.output_item.added");
            reveal_strlit("response.function_call_arguments.delta");
            reveal_strlit("response.output_item.done");
            reveal_strlit("function_call");
        }
        let mut events: Vec<MessagesEvent> = Vec::new();
        proof {
            assert(msg_events_model(events@) =~= seq![]);
        }
        let name = string_of(event);
        if name == string_of("response.output_text.delta") {
            let t = first_str_of(data.get("text"), data.get("delta"));
            if !t.as_str().is_empty() {
                self.saw_text_delta = true;
                self.blocks.add_text(t, &mut events);
            }
        } else if name == string_of("response.reasoning_text.delta") {
            let t = first_str_of(data.get("delta"), data.get("text"));
            if !t.as_str().is_empty() {
                self.blocks.add_thinking(t, &mut events);
            }
        } else if name == string_of("response.reasoning_signature.delta") {
            let t = text_of(data.get("delta"));
            if !t.as_str().is_empty() {
                self.blocks.add_signature(TextPiece::Text(t), &mut events);
            }
        } else if name == string_of("response.output_item.added") {
            let item = match data.get("item") {
                Some(i) => i,
                None => data,
            };
            if type_is(item, "function_call") {
                proof {
                    reveal_strlit("");
                }
                let none = string_of("");
                proof {
                    assert(none@ =~= seq![]);
                }
                self.on_call_item(data, item, none, &mut events);
                proof {
                    assert(msg_events_model(events@) =~= seq![] + call_item_step(old(self)@, data@, item@, seq![]).1);
                }
            }
        } else if name == string_of("response.function_call_arguments.delta") {
            let call_id = match crate::json::opt_str(data.get("call_id")) {
                Some(s) => string_of(s),
                None => match opt_u64(data.get("output_index")) {
                    Some(k) => match index_find(&self.call_ids_by_output_index, k) {
                        Some(c) => c,
                        None => {
                            proof {
                                reveal_strlit("");
                            }
                            string_of("")
                        },
                    },
                    None => {
                        proof {
                            reveal_strlit("");
                        }
                        string_of("")
                    },
                },
            };
            if !call_id.as_str().is_empty() {
                let fname = text_of(data.get("name"));
                let delta = text_of(data.get("delta"));
                self.blocks.add_tool_args(&call_id, &fname, delta, &mut events);
            }
        } else if name == string_of("response.output_item.done") {
            self.on_item_done(data, &mut events);
            proof {
                assert(msg_events_model(events@) =~= seq![] + item_done_step(old(self)@, data@).1);
            }
        }
        proof {
            assert(msg_events_model(events@) =~= responses_msg_step(old(self)@, event@, data@).1);
        }
        events
    }
}

/// The blocks are numbered in the order they were started, and the text,
/// thinking and tool-use blocks recorded are among them.
pub open spec fn blocks_wf(b: BlocksModel) -> bool {
    &&& forall|k: int| 0 <= k < b.started.len() ==> #[trigger] b.started[k] == k
    &&& (b.text_index matches Some(i) ==> i < b.started.len())
    &&& (b.thinking_index matches Some(i) ==> i < b.started.len())
    &&& forall|k: int| 0 <= k < b.tools.len() ==> #[trigger] b.tools[k].1 < b.started.len()
}

/// Each event of `es`, sent while the blocks went from `b` to `b1`, either
/// starts the one new block, numbered after all earlier ones, or goes into
/// a block of its kind that has been started.
pub open spec fn events_in_blocks(b: BlocksModel, b1: BlocksModel, es: Seq<MessagesEventModel>) -> bool {
    forall|k: int|
        0 <= k < es.len() ==> match #[trigger] es[k] {
            MessagesEventModel::BlockStart { index, .. } => index == b.started.len() && b1.started
                == b.started.push(index),
            MessagesEventModel::TextDelta { index, .. } => b1.text_index == Some(index) && index < b1.started.len(),
            MessagesEventModel::ThinkingDelta { index, .. } => b1.thinking_index == Some(index) && index
                < b1.started.len(),
            MessagesEventModel::SignatureDelta { index, .. } => b1.thinking_index == Some(index) && index
                < b1.started.len(),
            MessagesEventModel::InputJsonDelta { index, .. } => index < b1.started.len(),
            _ => false,
        }
}

proof fn lemma_tool_position_found(tools: Seq<(Seq<char>, usize)>, id: Seq<char>, k: int)
    requires
        0 <= k,
        tool_position_from(tools, id, k) is Some,
    ensures
        k <= tool_position_from(tools, id, k)->0 < tools.len(),
        tools[tool_position_from(tools, id, k)->0].0 == id,
    decreases tools.len() - k,
{
    if k < tools.len() && tools[k].0 != id {
        lemma_tool_position_found(tools, id, k + 1);
    }
}

/// Content blocks are opened once each and numbered in order: from
/// well-formed blocks, sending thinking, a signature, text or tool input
/// keeps them well-formed, starts at most one block (numbered after every
/// earlier one), and sends the delta into a started block of its kind; tool
/// input goes into the block of its call.
pub proof fn law_deltas_go_into_started_blocks(
    b: BlocksModel,
    t: Seq<char>,
    p: PieceModel,
    id: Seq<char>,
    name: Seq<char>,
)
    requires
        blocks_wf(b),
        b.started.len() < usize::MAX,
    ensures
        blocks_wf(with_thinking(b, t).0) && events_in_blocks(b, with_thinking(b, t).0, with_thinking(b, t).1),
        blocks_wf(with_thinking_signature(b, p).0) && events_in_blocks(
            b,
            with_thinking_signature(b, p).0,
            with_thinking_signature(b, p).1,
        ),
        blocks_wf(with_text(b, t).0) && events_in_blocks(b, with_text(b, t).0, with_text(b, t).1),
        blocks_wf(with_tool_input(b, id, name, p).0) && events_in_blocks(
            b,
            with_tool_input(b, id, name, p).0,
            with_tool_input(b, id, name, p).1,
        ),
        with_tool_input(b, id, name, p).1.last() matches MessagesEventModel::InputJsonDelta { index, .. } && (exists|k: int|
            0 <= k < with_tool_input(b, id, name, p).0.tools.len() && #[trigger] with_tool_input(
                b,
                id,
                name,
                p,
            ).0.tools[k] == (id, index)),
{
    let n = b.started.len();
    let i = n as usize;
    assert(i as int == n);
    let pushed = b.started.push(i);
    assert forall|k: int| 0 <= k < pushed.len() implies #[trigger] pushed[k] == k by {
        if k < n {
            assert(pushed[k] == b.started[k]);
        }
    }
    match tool_position_from(b.tools, id, 0) {
        Some(k) => {
            lemma_tool_position_found(b.tools, id, 0);
            assert(with_tool_input(b, id, name, p).0.tools[k] == (id, b.tools[k].1));
        },
        None => {
            let b1 = with_tool_input(b, id, name, p).0;
            assert(b1.tools[b.tools.len() as int] == (id, i));
            assert forall|k: int| 0 <= k < b1.tools.len() implies #[trigger] b1.tools[k].1 < b1.started.len() by {
                if k < b.tools.len() {
                    assert(b1.tools[k] == b.tools[k]);
                }
            }
        },
    }
}

/// How a converted messages stream opens: the assistant message is announced.
pub open spec fn messages_opening() -> Seq<MessagesEventModel> {
    seq![MessagesEventModel::MessageStart]
}

/// The events a converted messages stream opens with (see
/// [`messages_opening`]).
pub fn messages_opening_events() -> (r: Vec<MessagesEvent>)
    ensures
        msg_events_model(r@) == messages_opening(),
{
    let r = vec![MessagesEvent::MessageStart];
    proof {
        assert(msg_events_model(r@) =~= messages_opening());
    }
    r
}

/// How a converted messages stream closes: every started block is stopped,
/// in the order the blocks were started, then the message's stop reason
/// (tool use or end of turn) and the message stop.
pub open spec fn messages_closing(b: BlocksModel, tool_use: bool) -> Seq<MessagesEventModel> {
    b.started.map_values(|i: usize| MessagesEventModel::BlockStop { index: i }) + seq![
        MessagesEventModel::MessageDelta { tool_use },
        MessagesEventModel::MessageStop,
    ]
}

impl AnthropicBlocks {
    /// The events the stream closes with (see [`messages_closing`]).
    pub fn closing_events(&self, tool_use: bool) -> (r: Vec<MessagesEvent>)
        ensures
            msg_events_model(r@) == messages_closing(self@, tool_use),
    {
        let ghost stops = self@.started.map_values(|i: usize| MessagesEventModel::BlockStop { index: i });
        let mut r: Vec<MessagesEvent> = Vec::new();
        let mut k: usize = 0;
        while k < self.started.len()
            invariant
                k <= self@.started.len(),
                stops == self@.started.map_values(|i: usize| (MessagesEventModel::BlockStop { index: i })),
                msg_events_model(r@) == stops.take(k as int),
            decreases self@.started.len() - k,
        {
            let ghost before = r@;
            r.push(MessagesEvent::BlockStop { index: self.started[k] });
            proof {
                assert(msg_events_model(r@) =~= msg_events_model(before).push(r@[k as int]@));
                assert(stops.take(k + 1) =~= stops.take(k as int).push(stops[k as int]));
                assert(msg_events_model(r@) =~= stops.take(k + 1));
            }
            k += 1;
        }
        r.push(MessagesEvent::MessageDelta { tool_use });
        r.push(MessagesEvent::MessageStop);
        proof {
            assert(stops.take(self@.started.len() as int) =~= stops);
            assert(msg_events_model(r@) =~= messages_closing(self@, tool_use));
        }
        r
    }
}

/// Every block is stopped exactly once, in start order: from well-formed
/// blocks, the closing events stop blocks 0, 1, … in turn, one stop per
/// started block, and then end the message.
pub proof fn law_closing_stops_each_block_once(b: BlocksModel, tool_use: bool)
    requires
        blocks_wf(b),
    ensures
        messages_closing(b, tool_use).len() == b.started.len() + 2,
        forall|k: int|
            0 <= k < b.started.len() ==> #[trigger] messages_closing(b, tool_use)[k]
                == (MessagesEventModel::BlockStop { index: k as usize }),
        messages_closing(b, tool_use)[b.started.len() as int] == (MessagesEventModel::MessageDelta { tool_use }),
        messages_closing(b, tool_use)[b.started.len() + 1int] == MessagesEventModel::MessageStop,
{
    let c = messages_closing(b, tool_use);
    assert forall|k: int| 0 <= k < b.started.len() implies #[trigger] c[k] == MessagesEventModel::BlockStop {
        index: k as usize,
    } by {
        assert(b.started[k] == k);
    }
}

impl GeminiMessagesStream {
    /// The events the stream closes with: every started block stopped in
    /// start order, then a stop for tool use when a call was seen, else at
    /// the end of the turn (see [`messages_closing`]).
    pub fn closing_events(&self) -> (r: Vec<MessagesEvent>)
        ensures
            msg_events_model(r@) == messages_closing(self.blocks@, self.saw_tool_use),
    {
        self.blocks.closing_events(self.saw_tool_use)
    }
}

impl ResponsesMessagesStream {
    /// The events the stream closes with: every started block stopped in
    /// start order, then a stop for tool use when a tool-use block was
    /// started, else at the end of the turn (see [`messages_closing`]).
    pub fn closing_events(&self) -> (r: Vec<MessagesEvent>)
        ensures
            msg_events_model(r@) == messages_closing(self@.blocks, self@.blocks.tools.len() > 0),
    {
        self.blocks.closing_events(self.blocks.stops_for_tool_use())
    }
}

} // verus!
