//! Reading reasoning and message text out of provider stream items: OpenAI
//! responses reasoning items and messages, and the reasoning fields of chat
//! completion deltas.
use vstd::prelude::*;
use crate::json::{
    array_in, get, insert_member, is_object, lookup, map_insert, map_remove, member, members_model,
    opt_str, pieces_model, remove_member, str_in, JsonModel, JsonValue, PieceModel, TextPiece,
};
use crate::users::string_views;
use crate::text::{push_char, push_lit, string_of};

verus! {

/// The text of a string member, or nothing.
pub open spec fn text_or_empty(v: Option<JsonModel>) -> Seq<char> {
    match str_in(v) {
        Some(s) => s,
        None => seq![],
    }
}

/// Whether an optional member is the string `lit`.
pub open spec fn is_text(v: Option<JsonModel>, lit: Seq<char>) -> bool {
    str_in(v) == Some(lit)
}

/// The non-empty text of a `summary_text` part.
pub open spec fn summary_text(part: JsonModel) -> Option<Seq<char>> {
    if is_text(get(part, "type"@), "summary_text"@) {
        match str_in(get(part, "text"@)) {
            Some(t) => if t.len() > 0 {
                Some(t)
            } else {
                None
            },
            None => None,
        }
    } else {
        None
    }
}

/// The texts of the `summary_text` parts, in order.
pub open spec fn summary_texts(parts: Seq<JsonModel>) -> Seq<Seq<char>>
    decreases parts.len(),
{
    if parts.len() == 0 {
        seq![]
    } else {
        let rest = summary_texts(parts.drop_last());
        match summary_text(parts.last()) {
            Some(t) => rest.push(t),
            None => rest,
        }
    }
}

/// The texts joined with a newline between each two.
pub open spec fn join_lines(parts: Seq<Seq<char>>) -> Seq<char>
    decreases parts.len(),
{
    if parts.len() == 0 {
        seq![]
    } else if parts.len() == 1 {
        parts[0]
    } else {
        join_lines(parts.drop_last()) + seq!['\n'] + parts.last()
    }
}

/// The text of a reasoning item: its `text`, or else its non-empty summary
/// texts joined by newlines.
pub open spec fn reasoning_text(item: JsonModel) -> Seq<char> {
    let direct = text_or_empty(get(item, "text"@));
    if direct.len() > 0 {
        direct
    } else {
        match array_in(get(item, "summary"@)) {
            Some(parts) => join_lines(summary_texts(parts)),
            None => direct,
        }
    }
}

/// The signature of a reasoning item: its `signature`, or else its `id`.
pub open spec fn reasoning_signature(item: JsonModel) -> Seq<char> {
    let sig = text_or_empty(get(item, "signature"@));
    if sig.len() > 0 {
        sig
    } else {
        text_or_empty(get(item, "id"@))
    }
}

/// The text of an `output_text` part of a message.
pub open spec fn output_text(part: JsonModel) -> Seq<char> {
    if is_text(get(part, "type"@), "output_text"@) {
        text_or_empty(get(part, "text"@))
    } else {
        seq![]
    }
}

/// The `output_text` parts' texts, concatenated.
pub open spec fn output_texts(parts: Seq<JsonModel>) -> Seq<char>
    decreases parts.len(),
{
    if parts.len() == 0 {
        seq![]
    } else {
        output_texts(parts.drop_last()) + output_text(parts.last())
    }
}

/// The text of a responses `message` item; nothing for any other item.
pub open spec fn message_text(item: JsonModel) -> Seq<char> {
    if is_text(get(item, "type"@), "message"@) {
        match array_in(get(item, "content"@)) {
            Some(parts) => output_texts(parts),
            None => seq![],
        }
    } else {
        seq![]
    }
}

/// Whether an optional string is `lit`.
fn str_is(v: Option<&str>, lit: &str) -> (r: bool)
    ensures
        r == (match v {
            Some(s) => s@ == lit@,
            None => false,
        }),
{
    match v {
        Some(s) => string_of(s) == string_of(lit),
        None => false,
    }
}

/// The string of an optional member, or the empty string.
fn string_member(item: &JsonValue, key: &str) -> (r: String)
    ensures
        r@ == text_or_empty(get(item@, key@)),
{
    match item.get(key) {
        Some(v) => match v.as_str() {
            Some(s) => string_of(s),
            None => {
                proof {
                    reveal_strlit("");
                }
                string_of("")
            },
        },
        None => {
            proof {
                reveal_strlit("");
            }
            string_of("")
        },
    }
}

/// The text and the signature of an OpenAI responses reasoning item.
pub fn extract_reasoning_text_and_signature(item: &JsonValue) -> (r: (String, String))
    ensures
        r.0@ == reasoning_text(item@),
        r.1@ == reasoning_signature(item@),
{
    let mut text = string_member(item, "text");
    if text.as_str().is_empty() {
        if let Some(v) = item.get("summary") {
            if let Some(parts) = v.as_array() {
                let ghost ps = Seq::new(parts.len() as nat, |i: int| parts@[i]@);
                let mut joined = string_of("");
                proof {
                    reveal_strlit("");
                    assert(ps.take(0) =~= seq![]);
                }
                let mut count: usize = 0;
                let mut i: usize = 0;
                while i < parts.len()
                    invariant
                        i <= parts.len(),
                        count <= i,
                        ps == Seq::new(parts.len() as nat, |k: int| parts@[k]@),
                        count as int == summary_texts(ps.take(i as int)).len(),
                        joined@ == join_lines(summary_texts(ps.take(i as int))),
                    decreases parts.len() - i,
                {
                    let part = &parts[i];
                    let ghost before = summary_texts(ps.take(i as int));
                    proof {
                        assert(ps.take(i + 1).drop_last() =~= ps.take(i as int));
                        assert(ps.take(i + 1).last() == part@);
                    }
                    if str_is(opt_str(part.get("type")), "summary_text") {
                        if let Some(t) = opt_str(part.get("text")) {
                            if !t.is_empty() {
                                if count > 0 {
                                    push_char(&mut joined, '\n');
                                }
                                push_lit(&mut joined, t);
                                proof {
                                    assert(before.push(t@).drop_last() =~= before);
                                    if count > 0 {
                                        assert(joined@ =~= join_lines(before) + seq!['\n'] + t@);
                                    } else {
                                        assert(joined@ =~= t@);
                                    }
                                }
                                count = count + 1;
                            }
                        }
                    }
                    i += 1;
                }
                proof {
                    assert(ps.take(parts.len() as int) =~= ps);
                }
                if count > 0 {
                    text = joined;
                } else {
                    proof {
                        assert(summary_texts(ps) =~= seq![]);
                    }
                }
            }
        }
    }
    let mut signature = string_member(item, "signature");
    if signature.as_str().is_empty() {
        signature = string_member(item, "id");
    }
    (text, signature)
}

/// The text of an OpenAI responses `message` item: its `output_text` parts
/// concatenated; empty for any other item.
pub fn extract_responses_message_text(item: &JsonValue) -> (r: String)
    ensures
        r@ == message_text(item@),
{
    let mut out = string_of("");
    proof {
        reveal_strlit("");
    }
    if !str_is(opt_str(item.get("type")), "message") {
        return out;
    }
    if let Some(c) = item.get("content") {
        if let Some(parts) = c.as_array() {
            let ghost ps = Seq::new(parts.len() as nat, |i: int| parts@[i]@);
            proof {
                assert(ps.take(0) =~= seq![]);
            }
            let mut i: usize = 0;
            while i < parts.len()
                invariant
                    i <= parts.len(),
                    ps == Seq::new(parts.len() as nat, |k: int| parts@[k]@),
                    out@ == output_texts(ps.take(i as int)),
                decreases parts.len() - i,
            {
                let part = &parts[i];
                proof {
                    assert(ps.take(i + 1).drop_last() =~= ps.take(i as int));
                    assert(ps.take(i + 1).last() == part@);
                }
                if str_is(opt_str(part.get("type")), "output_text") {
                    if let Some(t) = opt_str(part.get("text")) {
                        push_lit(&mut out, t);
                    }
                }
                proof {
                    assert(out@ =~= output_texts(ps.take(i as int)) + output_text(part@));
                }
                i += 1;
            }
            proof {
                assert(ps.take(parts.len() as int) =~= ps);
            }
        }
    }
    out
}

/// The text of a string member, as a one-item list when it is not empty.
pub open spec fn nonempty_text(v: Option<JsonModel>) -> Seq<Seq<char>> {
    match str_in(v) {
        Some(t) => if t.len() > 0 {
            seq![t]
        } else {
            seq![]
        },
        None => seq![],
    }
}

/// `nonempty_text` as signature pieces.
pub open spec fn nonempty_piece(v: Option<JsonModel>) -> Seq<PieceModel> {
    match str_in(v) {
        Some(t) => if t.len() > 0 {
            seq![PieceModel::Text(t)]
        } else {
            seq![]
        },
        None => seq![],
    }
}

/// The reasoning texts one entry of `reasoning_details` contributes.
pub open spec fn detail_texts(detail: JsonModel) -> Seq<Seq<char>> {
    if !is_object(detail) {
        seq![]
    } else {
        let ty = text_or_empty(get(detail, "type"@));
        if ty == "reasoning.text"@ {
            nonempty_text(get(detail, "text"@))
        } else if ty == "reasoning.summary"@ {
            nonempty_text(get(detail, "summary"@))
        } else {
            seq![]
        }
    }
}

/// The signature pieces one entry of `reasoning_details` contributes: the
/// signature of a text entry, or the data of an encrypted entry (a non-empty
/// string as it is; null or an empty string as nothing; any other value
/// encoded).
pub open spec fn detail_pieces(detail: JsonModel) -> Seq<PieceModel> {
    if !is_object(detail) {
        seq![]
    } else {
        let ty = text_or_empty(get(detail, "type"@));
        if ty == "reasoning.text"@ {
            nonempty_piece(get(detail, "signature"@))
        } else if ty == "reasoning.encrypted"@ {
            match get(detail, "data"@) {
                Some(JsonModel::Str(s)) => if s.len() > 0 {
                    seq![PieceModel::Text(s)]
                } else {
                    seq![]
                },
                Some(JsonModel::Null) => seq![],
                Some(other) => seq![PieceModel::Encoded(other)],
                None => seq![],
            }
        } else {
            seq![]
        }
    }
}

/// The texts of all entries, in order.
pub open spec fn details_texts(ds: Seq<JsonModel>) -> Seq<Seq<char>>
    decreases ds.len(),
{
    if ds.len() == 0 {
        seq![]
    } else {
        details_texts(ds.drop_last()) + detail_texts(ds.last())
    }
}

/// The signature pieces of all entries, in order.
pub open spec fn details_pieces(ds: Seq<JsonModel>) -> Seq<PieceModel>
    decreases ds.len(),
{
    if ds.len() == 0 {
        seq![]
    } else {
        details_pieces(ds.drop_last()) + detail_pieces(ds.last())
    }
}

/// The reasoning texts of a chat completion delta: those of its
/// `reasoning_details`, or else its `reasoning`; then its
/// `reasoning_content`.
pub open spec fn delta_texts(delta: JsonModel) -> Seq<Seq<char>> {
    let from_details = match array_in(get(delta, "reasoning_details"@)) {
        Some(ds) => details_texts(ds),
        None => seq![],
    };
    let with_reasoning = if from_details.len() == 0 {
        nonempty_text(get(delta, "reasoning"@))
    } else {
        from_details
    };
    with_reasoning + nonempty_text(get(delta, "reasoning_content"@))
}

/// The signature pieces of a chat completion delta: those of its
/// `reasoning_details`, then its `reasoning_opaque`.
pub open spec fn delta_pieces(delta: JsonModel) -> Seq<PieceModel> {
    let from_details = match array_in(get(delta, "reasoning_details"@)) {
        Some(ds) => details_pieces(ds),
        None => seq![],
    };
    from_details + nonempty_piece(get(delta, "reasoning_opaque"@))
}

/// Appends the member `key` of `obj` to `out` when it is a non-empty string.
fn push_nonempty_text(out: &mut Vec<String>, obj: &JsonValue, key: &str)
    ensures
        string_views(final(out)@) == string_views(old(out)@) + nonempty_text(get(obj@, key@)),
{
    if let Some(t) = opt_str(obj.get(key)) {
        if !t.is_empty() {
            out.push(string_of(t));
            proof {
                assert(string_views(final(out)@) =~= string_views(old(out)@) + seq![t@]);
            }
            return;
        }
    }
    proof {
        assert(string_views(final(out)@) =~= string_views(old(out)@) + nonempty_text(get(obj@, key@)));
    }
}

/// Appends the member `key` of `obj` to `out` as a text piece when it is a
/// non-empty string.
fn push_nonempty_piece(out: &mut Vec<TextPiece>, obj: &JsonValue, key: &str)
    ensures
        pieces_model(final(out)@) == pieces_model(old(out)@) + nonempty_piece(get(obj@, key@)),
{
    if let Some(t) = opt_str(obj.get(key)) {
        if !t.is_empty() {
            out.push(TextPiece::Text(string_of(t)));
            proof {
                assert(pieces_model(final(out)@) =~= pieces_model(old(out)@) + seq![
                    PieceModel::Text(t@),
                ]);
            }
            return;
        }
    }
    proof {
        assert(pieces_model(final(out)@) =~= pieces_model(old(out)@) + nonempty_piece(get(obj@, key@)));
    }
}

/// Adds what one entry of a chat delta's `reasoning_details` says to the
/// reasoning texts and signature pieces collected so far.
pub fn extract_chat_reasoning_from_detail(
    detail: &JsonValue,
    text_out: &mut Vec<String>,
    sig_out: &mut Vec<TextPiece>,
)
    ensures
        string_views(final(text_out)@) == string_views(old(text_out)@) + detail_texts(detail@),
        pieces_model(final(sig_out)@) == pieces_model(old(sig_out)@) + detail_pieces(detail@),
{
    proof {
        assert(string_views(old(text_out)@) + seq![] =~= string_views(old(text_out)@));
        assert(pieces_model(old(sig_out)@) + seq![] =~= pieces_model(old(sig_out)@));
        reveal_strlit("reasoning.text");
        reveal_strlit("reasoning.encrypted");
        reveal_strlit("reasoning.summary");
    }
    if !detail.is_object() {
        return;
    }
    let ty = string_member(detail, "type");
    if ty == string_of("reasoning.text") {
        push_nonempty_text(text_out, detail, "text");
        push_nonempty_piece(sig_out, detail, "signature");
    } else if ty == string_of("reasoning.encrypted") {
        match detail.get("data") {
            Some(JsonValue::Str(s)) => {
                if !s.as_str().is_empty() {
                    sig_out.push(TextPiece::Text(s.clone()));
                    proof {
                        assert(pieces_model(final(sig_out)@) =~= pieces_model(old(sig_out)@) + seq![
                            PieceModel::Text(s@),
                        ]);
                    }
                }
            },
            Some(JsonValue::Null) => {},
            Some(other) => {
                sig_out.push(TextPiece::Encoded(other.deep_clone()));
                proof {
                    assert(pieces_model(final(sig_out)@) =~= pieces_model(old(sig_out)@) + seq![
                        PieceModel::Encoded(other@),
                    ]);
                }
            },
            None => {},
        }
        proof {
            assert(ty@.len() != "reasoning.text"@.len());
            assert(ty@.len() != "reasoning.summary"@.len());
        }
    } else if ty == string_of("reasoning.summary") {
        proof {
            assert(ty@.len() != "reasoning.text"@.len());
        }
        push_nonempty_text(text_out, detail, "summary");
    }
}

/// The reasoning texts and signature pieces of a chat completion delta.
pub fn extract_chat_reasoning_deltas(delta: &JsonValue) -> (r: (Vec<String>, Vec<TextPiece>))
    ensures
        string_views(r.0@) == delta_texts(delta@),
        pieces_model(r.1@) == delta_pieces(delta@),
{
    let mut text_parts: Vec<String> = Vec::new();
    let mut sig_parts: Vec<TextPiece> = Vec::new();
    proof {
        assert(string_views(text_parts@) =~= seq![]);
        assert(pieces_model(sig_parts@) =~= seq![]);
    }
    if let Some(v) = delta.get("reasoning_details") {
        if let Some(details) = v.as_array() {
            let ghost ds = Seq::new(details.len() as nat, |i: int| details@[i]@);
            proof {
                assert(ds.take(0) =~= seq![]);
            }
            let mut i: usize = 0;
            while i < details.len()
                invariant
                    i <= details.len(),
                    ds == Seq::new(details.len() as nat, |k: int| details@[k]@),
                    string_views(text_parts@) == details_texts(ds.take(i as int)),
                    pieces_model(sig_parts@) == details_pieces(ds.take(i as int)),
                decreases details.len() - i,
            {
                proof {
                    assert(ds.take(i + 1).drop_last() =~= ds.take(i as int));
                    assert(ds.take(i + 1).last() == details@[i as int]@);
                }
                extract_chat_reasoning_from_detail(&details[i], &mut text_parts, &mut sig_parts);
                i += 1;
            }
            proof {
                assert(ds.take(details.len() as int) =~= ds);
            }
        }
    }
    if text_parts.len() == 0 {
        push_nonempty_text(&mut text_parts, delta, "reasoning");
        proof {
            assert(seq![] + nonempty_text(get(delta@, "reasoning"@)) =~= nonempty_text(
                get(delta@, "reasoning"@),
            ));
        }
    }
    push_nonempty_text(&mut text_parts, delta, "reasoning_content");
    push_nonempty_piece(&mut sig_parts, delta, "reasoning_opaque");
    (text_parts, sig_parts)
}

/// A `reasoning.text` entry of `reasoning_details` (no signature).
pub open spec fn text_detail(text: Seq<char>) -> JsonModel {
    JsonModel::Object(
        seq![
            ("type"@, JsonModel::Str("reasoning.text"@)),
            ("text"@, JsonModel::Str(text)),
            ("signature"@, JsonModel::Null),
            ("format"@, JsonModel::Str("unknown"@)),
        ],
    )
}

/// A `reasoning.encrypted` entry of `reasoning_details`.
pub open spec fn encrypted_detail(data: JsonModel) -> JsonModel {
    JsonModel::Object(
        seq![
            ("type"@, JsonModel::Str("reasoning.encrypted"@)),
            ("data"@, data),
            ("format"@, JsonModel::Str("unknown"@)),
        ],
    )
}

/// The `reasoning_details` entries that stand for a delta's
/// `reasoning_content` and `reasoning_opaque`, when they are non-empty strings.
pub open spec fn synthesized_details(m: Seq<(Seq<char>, JsonModel)>) -> Seq<JsonModel> {
    let from_text = match str_in(lookup(m, "reasoning_content"@)) {
        Some(t) => if t.len() > 0 {
            seq![text_detail(t)]
        } else {
            seq![]
        },
        None => seq![],
    };
    let from_sig = match str_in(lookup(m, "reasoning_opaque"@)) {
        Some(sig) => if sig.len() > 0 {
            seq![encrypted_detail(JsonModel::Str(sig))]
        } else {
            seq![]
        },
        None => seq![],
    };
    from_text + from_sig
}

/// A chat delta in the `reasoning_details` form: when it has no such array,
/// one is made from `reasoning_content` and `reasoning_opaque` (if that gives
/// any entry); those two members are then dropped.
pub open spec fn normalized_delta(m: Seq<(Seq<char>, JsonModel)>) -> Seq<(Seq<char>, JsonModel)> {
    let details = synthesized_details(m);
    let with_details = if array_in(lookup(m, "reasoning_details"@)) is None && details.len() > 0 {
        map_insert(m, "reasoning_details"@, JsonModel::Array(details))
    } else {
        m
    };
    map_remove(map_remove(with_details, "reasoning_content"@), "reasoning_opaque"@)
}

/// A string member.
fn str_value(lit: &str) -> (r: JsonValue)
    ensures
        r@ == JsonModel::Str(lit@),
{
    JsonValue::Str(string_of(lit))
}

/// The `reasoning.text` entry for `text`.
fn text_detail_value(text: &str) -> (r: JsonValue)
    ensures
        r@ == text_detail(text@),
{
    let members = vec![
        (string_of("type"), str_value("reasoning.text")),
        (string_of("text"), str_value(text)),
        (string_of("signature"), JsonValue::Null),
        (string_of("format"), str_value("unknown")),
    ];
    let ghost mm = members@;
    let r = JsonValue::Object(members);
    proof {
        assert(mm.len() == 4);
        assert(mm[2].1@ == JsonModel::Null);
        assert(r@->Object_0[2] == (mm[2].0@, mm[2].1@));
        assert(r@->Object_0 =~= text_detail(text@)->Object_0);
    }
    r
}

/// The `reasoning.encrypted` entry for `data`.
fn encrypted_detail_value(data: JsonValue) -> (r: JsonValue)
    ensures
        r@ == encrypted_detail(data@),
{
    let ghost dm = data@;
    let members = vec![
        (string_of("type"), str_value("reasoning.encrypted")),
        (string_of("data"), data),
        (string_of("format"), str_value("unknown")),
    ];
    let r = JsonValue::Object(members);
    proof {
        assert(r@->Object_0 =~= encrypted_detail(dm)->Object_0);
    }
    r
}

/// Rewrites a chat completion delta's reasoning into `reasoning_details`
/// form (see [`normalized_delta`]).
pub fn normalize_chat_reasoning_delta_object(delta: &mut Vec<(String, JsonValue)>)
    ensures
        members_model(final(delta)@) == normalized_delta(members_model(old(delta)@)),
{
    let ghost m = members_model(delta@);
    let has_details = match member(delta, "reasoning_details") {
        Some(v) => v.as_array().is_some(),
        None => false,
    };
    if !has_details {
        let mut details: Vec<JsonValue> = Vec::new();
        if let Some(text) = opt_str(member(delta, "reasoning_content")) {
            if !text.is_empty() {
                details.push(text_detail_value(text));
            }
        }
        if let Some(sig) = opt_str(member(delta, "reasoning_opaque")) {
            if !sig.is_empty() {
                details.push(encrypted_detail_value(str_value(sig)));
            }
        }
        let ghost dms = Seq::new(details.len() as nat, |i: int| details@[i]@);
        proof {
            assert(dms =~= synthesized_details(m));
        }
        if details.len() > 0 {
            let arr = JsonValue::Array(details);
            proof {
                assert(arr@->Array_0 =~= dms);
            }
            insert_member(delta, "reasoning_details", arr);
        }
    }
    remove_member(delta, "reasoning_content");
    remove_member(delta, "reasoning_opaque");
}

} // verus!
