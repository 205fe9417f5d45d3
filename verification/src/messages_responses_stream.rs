//! An Anthropic messages stream re-emitted as an OpenAI responses stream:
//! text, thinking and signature deltas, and tool-use blocks with their
//! streamed JSON input.
use vstd::prelude::*;
use crate::json::{get, str_in, JsonModel, JsonValue, PieceModel, TextPiece};
use crate::reasoning::text_or_empty;
use crate::chat_responses_stream::text_of;
use crate::responses_stream::{
    call_index, empty_stream, events_model, with_arguments, with_call, with_output, with_reasoning,
    with_signature, EventModel, ResponsesEvent, ResponsesModel, ResponsesStreamState,
};
use crate::text::string_of;

verus! {

/// The messages-to-responses stream: the responses state and the tool-use
/// block whose input is streaming.
#[derive(Debug)]
pub struct MessagesResponsesStream {
    pub state: ResponsesStreamState,
    pub current_tool_call_id: Option<String>,
}

/// The content of a [`MessagesResponsesStream`].
pub struct MessagesResponsesModel {
    pub state: ResponsesModel,
    pub current: Option<Seq<char>>,
}

impl View for MessagesResponsesStream {
    type V = MessagesResponsesModel;

    open spec fn view(&self) -> MessagesResponsesModel {
        MessagesResponsesModel {
            state: self.state@,
            current: match self.current_tool_call_id {
                Some(id) => Some(id@),
                None => None,
            },
        }
    }
}

/// A member, or null.
pub open spec fn member_or_null(v: JsonModel, key: Seq<char>) -> JsonModel {
    match get(v, key) {
        Some(m) => m,
        None => JsonModel::Null,
    }
}

/// A `content_block_start` event: a `tool_use` block with an id opens that
/// call and makes it the one whose input streams; one without an id leaves
/// no call current.
pub open spec fn block_start_step(m: MessagesResponsesModel, data: JsonModel) -> (MessagesResponsesModel, Seq<EventModel>) {
    let cb = member_or_null(data, "content_block"@);
    if text_or_empty(get(cb, "type"@)) == "tool_use"@ {
        let id = text_or_empty(get(cb, "id"@));
        let name = text_or_empty(get(cb, "name"@));
        if id.len() == 0 {
            (MessagesResponsesModel { state: m.state, current: None }, seq![])
        } else {
            let (s1, e1) = with_call(m.state, id, name);
            (MessagesResponsesModel { state: s1, current: Some(id) }, e1)
        }
    } else {
        (m, seq![])
    }
}

/// A `content_block_delta` event: text as output, thinking as reasoning, a
/// non-empty signature as reasoning signature, and partial JSON input
/// appended to the current call (when it is known) and announced under its
/// name.
pub open spec fn block_delta_step(st: ResponsesModel, current: Option<Seq<char>>, data: JsonModel) -> (
    ResponsesModel,
    Seq<EventModel>,
) {
    let delta = member_or_null(data, "delta"@);
    let dt = text_or_empty(get(delta, "type"@));
    if dt == "text_delta"@ {
        with_output(st, text_or_empty(get(delta, "text"@)))
    } else if dt == "thinking_delta"@ {
        with_reasoning(st, text_or_empty(get(delta, "thinking"@)))
    } else if dt == "signature_delta"@ {
        let s = text_or_empty(get(delta, "signature"@));
        if s.len() > 0 {
            with_signature(st, PieceModel::Text(s))
        } else {
            (st, seq![])
        }
    } else if dt == "input_json_delta"@ {
        match (str_in(get(delta, "partial_json"@)), current) {
            (Some(p), Some(id)) => match call_index(st.calls, id) {
                Some(i) => with_arguments(st, i, st.calls[i].name, PieceModel::Text(p)),
                None => (st, seq![]),
            },
            _ => (st, seq![]),
        }
    } else {
        (st, seq![])
    }
}

/// What one messages stream event does; the flag tells whether the stream
/// ends (`message_stop`).
pub open spec fn messages_event_step(m: MessagesResponsesModel, data: JsonModel) -> (
    MessagesResponsesModel,
    Seq<EventModel>,
    bool,
) {
    let ty = text_or_empty(get(data, "type"@));
    if ty == "content_block_start"@ {
        let (m1, e1) = block_start_step(m, data);
        (m1, e1, false)
    } else if ty == "content_block_delta"@ {
        let (s1, e1) = block_delta_step(m.state, m.current, data);
        (MessagesResponsesModel { state: s1, current: m.current }, e1, false)
    } else if ty == "content_block_stop"@ {
        (MessagesResponsesModel { state: m.state, current: None }, seq![], false)
    } else if ty == "message_stop"@ {
        (m, seq![], true)
    } else {
        (m, seq![], false)
    }
}

fn is_lit(s: &String, lit: &str) -> (r: bool)
    ensures
        r == (s@ == lit@),
{
    *s == string_of(lit)
}

impl MessagesResponsesStream {
    pub fn new() -> (r: Self)
        ensures
            r@.state == empty_stream(),
            r@.current is None,
    {
        MessagesResponsesStream { state: ResponsesStreamState::new(), current_tool_call_id: None }
    }

    fn on_block_start(&mut self, data: &JsonValue, events: &mut Vec<ResponsesEvent>)
        ensures
            final(self)@ == block_start_step(old(self)@, data@).0,
            events_model(final(events)@) == events_model(old(events)@) + block_start_step(old(self)@, data@).1,
    {
        let null = JsonValue::Null;
        let cb = match data.get("content_block") {
            Some(c) => c,
            None => &null,
        };
        let ty = text_of(cb.get("type"));
        proof {
            assert(events_model(old(events)@) + seq![] =~= events_model(old(events)@));
        }
        if is_lit(&ty, "tool_use") {
            let id = text_of(cb.get("id"));
            let name = text_of(cb.get("name"));
            if id.as_str().is_empty() {
                self.current_tool_call_id = None;
            } else {
                self.state.open_call(&id, &name, events);
                self.current_tool_call_id = Some(id);
            }
        }
    }

    fn on_block_delta(&mut self, data: &JsonValue, events: &mut Vec<ResponsesEvent>)
        ensures
            final(self)@.state == block_delta_step(old(self)@.state, old(self)@.current, data@).0,
            final(self)@.current == old(self)@.current,
            events_model(final(events)@) == events_model(old(events)@) + block_delta_step(
                old(self)@.state,
                old(self)@.current,
                data@,
            ).1,
    {
        proof {
            reveal_strlit("text_delta");
            reveal_strlit("thinking_delta");
            reveal_strlit("signature_delta");
            reveal_strlit("input_json_delta");
            assert(events_model(old(events)@) + seq![] =~= events_model(old(events)@));
        }
        let null = JsonValue::Null;
        let delta = match data.get("delta") {
            Some(d) => d,
            None => &null,
        };
        let dt = text_of(delta.get("type"));
        if is_lit(&dt, "text_delta") {
            let t = text_of(delta.get("text"));
            self.state.add_output_text(t.as_str(), events);
        } else if is_lit(&dt, "thinking_delta") {
            let t = text_of(delta.get("thinking"));
            self.state.add_reasoning_text(t.as_str(), events);
        } else if is_lit(&dt, "signature_delta") {
            let s = text_of(delta.get("signature"));
            if !s.as_str().is_empty() {
                self.state.add_reasoning_signature(TextPiece::Text(s), events);
            }
        } else if is_lit(&dt, "input_json_delta") {
            if let Some(JsonValue::Str(p)) = delta.get("partial_json") {
                if let Some(id) = &self.current_tool_call_id {
                    if let Some(i) = self.state.find_call(id) {
                        proof {
                            assert(self.state.calls@.len() == self.state@.calls.len());
                            assert(self.state@.calls[i as int] == self.state.calls@[i as int]@);
                        }
                        let name = self.state.calls[i].name.clone();
                        self.state.add_arguments(i, &name, TextPiece::Text(p.clone()), events);
                    }
                }
            }
        }
    }

    /// Applies one messages stream event; gives the responses events to send
    /// and whether the stream has ended (see [`messages_event_step`]).
    pub fn on_event(&mut self, data: &JsonValue) -> (r: (Vec<ResponsesEvent>, bool))
        ensures
            final(self)@ == messages_event_step(old(self)@, data@).0,
            events_model(r.0@) == messages_event_step(old(self)@, data@).1,
            r.1 == messages_event_step(old(self)@, data@).2,
    {
        proof {
            reveal_strlit("content_block_start");
            reveal_strlit("content_block_delta");
            reveal_strlit("content_block_stop");
            reveal_strlit("message_stop");
        }
        let mut events: Vec<ResponsesEvent> = Vec::new();
        proof {
            assert(events_model(events@) =~= seq![]);
            assert(seq![] + seq![] =~= Seq::<EventModel>::empty());
        }
        let ty = text_of(data.get("type"));
        if is_lit(&ty, "content_block_start") {
            self.on_block_start(data, &mut events);
            proof {
                assert(seq![] + block_start_step(old(self)@, data@).1 =~= block_start_step(old(self)@, data@).1);
            }
            (events, false)
        } else if is_lit(&ty, "content_block_delta") {
            self.on_block_delta(data, &mut events);
            proof {
                let st = old(self)@;
                assert(seq![] + block_delta_step(st.state, st.current, data@).1 =~= block_delta_step(
                    st.state,
                    st.current,
                    data@,
                ).1);
            }
            (events, false)
        } else if is_lit(&ty, "content_block_stop") {
            self.current_tool_call_id = None;
            (events, false)
        } else if is_lit(&ty, "message_stop") {
            (events, true)
        } else {
            (events, false)
        }
    }
}

} // verus!
