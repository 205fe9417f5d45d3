//! JSON documents held as plain values, with the lookups that the request
//! handlers make in them.
//!
//! A document arrives already parsed; its numbers keep the distinction the
//! parser makes between non-negative integers, negative integers and the rest,
//! which are carried as their text.
use vstd::prelude::*;
use crate::text::string_of;

verus! {

/// A JSON number as the parser classifies it.
#[derive(Clone, Debug)]
pub enum JsonNumber {
    /// A non-negative integer that fits in 64 bits.
    PosInt(u64),
    /// A negative integer that fits in 64 bits.
    NegInt(i64),
    /// Any other number, by its text.
    Float(String),
}

/// A parsed JSON document. Object members keep their order; a parsed object
/// never holds a key twice.
#[derive(Debug)]
pub enum JsonValue {
    Null,
    Bool(bool),
    Number(JsonNumber),
    Str(String),
    Array(Vec<JsonValue>),
    Object(Vec<(String, JsonValue)>),
}

/// The mathematical content of a [`JsonValue`].
pub enum JsonModel {
    Null,
    Bool(bool),
    PosInt(u64),
    NegInt(i64),
    Float(Seq<char>),
    Str(Seq<char>),
    Array(Seq<JsonModel>),
    Object(Seq<(Seq<char>, JsonModel)>),
}

pub open spec fn json_model(v: JsonValue) -> JsonModel
    decreases v,
{
    match v {
        JsonValue::Null => JsonModel::Null,
        JsonValue::Bool(b) => JsonModel::Bool(b),
        JsonValue::Number(JsonNumber::PosInt(n)) => JsonModel::PosInt(n),
        JsonValue::Number(JsonNumber::NegInt(n)) => JsonModel::NegInt(n),
        JsonValue::Number(JsonNumber::Float(t)) => JsonModel::Float(t@),
        JsonValue::Str(s) => JsonModel::Str(s@),
        JsonValue::Array(items) => JsonModel::Array(
            Seq::new(
                items.len() as nat,
                |i: int|
                    if 0 <= i < items.len() {
                        json_model(items@[i])
                    } else {
                        JsonModel::Null
                    },
            ),
        ),
        JsonValue::Object(entries) => JsonModel::Object(
            Seq::new(
                entries.len() as nat,
                |i: int|
                    if 0 <= i < entries.len() {
                        (entries@[i].0@, json_model(entries@[i].1))
                    } else {
                        (Seq::empty(), JsonModel::Null)
                    },
            ),
        ),
    }
}

impl View for JsonValue {
    type V = JsonModel;

    open spec fn view(&self) -> JsonModel {
        json_model(*self)
    }
}

/// The members of an object, keys and values by their models.
pub open spec fn members_model(entries: Seq<(String, JsonValue)>) -> Seq<(Seq<char>, JsonModel)> {
    Seq::new(entries.len(), |i: int| (entries[i].0@, entries[i].1@))
}

/// The value of the first member named `key` at or after position `i`.
pub open spec fn lookup_from(entries: Seq<(Seq<char>, JsonModel)>, key: Seq<char>, i: int) -> Option<
    JsonModel,
>
    decreases entries.len() - i,
{
    if i < 0 || i >= entries.len() {
        None
    } else if entries[i].0 == key {
        Some(entries[i].1)
    } else {
        lookup_from(entries, key, i + 1)
    }
}

/// The position of the first member named `key` at or after position `i`.
pub open spec fn key_index_from(entries: Seq<(Seq<char>, JsonModel)>, key: Seq<char>, i: int) -> Option<
    int,
>
    decreases entries.len() - i,
{
    if i < 0 || i >= entries.len() {
        None
    } else if entries[i].0 == key {
        Some(i)
    } else {
        key_index_from(entries, key, i + 1)
    }
}

/// The position of the member named `key`.
pub open spec fn key_index(entries: Seq<(Seq<char>, JsonModel)>, key: Seq<char>) -> Option<int> {
    key_index_from(entries, key, 0)
}

/// A position `key_index_from` gives holds a member named `key`.
pub proof fn lemma_key_index_found(entries: Seq<(Seq<char>, JsonModel)>, key: Seq<char>, j: int)
    requires
        key_index_from(entries, key, j) is Some,
    ensures
        0 <= j <= key_index_from(entries, key, j)->0 < entries.len(),
        entries[key_index_from(entries, key, j)->0].0 == key,
    decreases entries.len() - j,
{
    if !(j < 0 || j >= entries.len()) && entries[j].0 != key {
        lemma_key_index_found(entries, key, j + 1);
    }
}

/// `map.insert(key, v)`: the member named `key` takes the value `v` in place,
/// or a new member is appended.
pub open spec fn map_insert(entries: Seq<(Seq<char>, JsonModel)>, key: Seq<char>, v: JsonModel) -> Seq<
    (Seq<char>, JsonModel),
> {
    match key_index(entries, key) {
        Some(i) => entries.update(i, (key, v)),
        None => entries.push((key, v)),
    }
}

/// `map.remove(key)`: the member named `key` is dropped.
pub open spec fn map_remove(entries: Seq<(Seq<char>, JsonModel)>, key: Seq<char>) -> Seq<
    (Seq<char>, JsonModel),
> {
    match key_index(entries, key) {
        Some(i) => entries.remove(i),
        None => entries,
    }
}

/// The value of the member named `key`.
pub open spec fn lookup(entries: Seq<(Seq<char>, JsonModel)>, key: Seq<char>) -> Option<JsonModel> {
    lookup_from(entries, key, 0)
}

/// `value.get(key)`: the member named `key` of an object; nothing for any other value.
pub open spec fn get(v: JsonModel, key: Seq<char>) -> Option<JsonModel> {
    match v {
        JsonModel::Object(entries) => lookup(entries, key),
        _ => None,
    }
}

/// `get` applied to an optional value.
pub open spec fn get_in(v: Option<JsonModel>, key: Seq<char>) -> Option<JsonModel> {
    match v {
        Some(m) => get(m, key),
        None => None,
    }
}

/// The first of two optional values that is present.
pub open spec fn or_else(a: Option<JsonModel>, b: Option<JsonModel>) -> Option<JsonModel> {
    match a {
        Some(m) => Some(m),
        None => b,
    }
}

/// `value.as_u64()`: a non-negative integer.
pub open spec fn as_u64(v: JsonModel) -> Option<u64> {
    match v {
        JsonModel::PosInt(n) => Some(n),
        _ => None,
    }
}

/// `as_u64` applied to an optional value.
pub open spec fn u64_in(v: Option<JsonModel>) -> Option<u64> {
    match v {
        Some(m) => as_u64(m),
        None => None,
    }
}

/// `value.as_str()`: the text of a string.
pub open spec fn as_str(v: JsonModel) -> Option<Seq<char>> {
    match v {
        JsonModel::Str(s) => Some(s),
        _ => None,
    }
}

/// `as_str` applied to an optional value.
pub open spec fn str_in(v: Option<JsonModel>) -> Option<Seq<char>> {
    match v {
        Some(m) => as_str(m),
        None => None,
    }
}

/// `value.as_array()`: the items of an array.
pub open spec fn as_array(v: JsonModel) -> Option<Seq<JsonModel>> {
    match v {
        JsonModel::Array(items) => Some(items),
        _ => None,
    }
}

/// `as_array` applied to an optional value.
pub open spec fn array_in(v: Option<JsonModel>) -> Option<Seq<JsonModel>> {
    match v {
        Some(m) => as_array(m),
        None => None,
    }
}

/// Whether a value is an object.
pub open spec fn is_object(v: JsonModel) -> bool {
    v is Object
}

/// The model of an optional borrowed value.
pub open spec fn opt_model(r: Option<&JsonValue>) -> Option<JsonModel> {
    match r {
        Some(v) => Some(v@),
        None => None,
    }
}

impl JsonNumber {
    /// A copy of the number.
    pub fn copy_number(&self) -> (r: JsonNumber)
        ensures
            json_model(JsonValue::Number(r)) == json_model(JsonValue::Number(*self)),
    {
        match self {
            JsonNumber::PosInt(n) => JsonNumber::PosInt(*n),
            JsonNumber::NegInt(n) => JsonNumber::NegInt(*n),
            JsonNumber::Float(t) => JsonNumber::Float(t.clone()),
        }
    }
}

impl JsonValue {
    /// A copy of the whole document.
    #[verifier::loop_isolation(false)]
    pub fn deep_clone(&self) -> (r: JsonValue)
        ensures
            r@ == self@,
        decreases self,
    {
        match self {
            JsonValue::Null => JsonValue::Null,
            JsonValue::Bool(b) => JsonValue::Bool(*b),
            JsonValue::Number(n) => JsonValue::Number(n.copy_number()),
            JsonValue::Str(s) => JsonValue::Str(s.clone()),
            JsonValue::Array(items) => {
                let mut out: Vec<JsonValue> = Vec::new();
                let mut i: usize = 0;
                while i < items.len()
                    invariant
                        i <= items.len(),
                        out.len() == i,
                        forall|j: int| 0 <= j < i ==> (#[trigger] out@[j])@ == items@[j]@,
                    decreases items.len() - i,
                {
                    proof {
                        assert(decreases_to!(*self => self->Array_0));
                        assert(decreases_to!(*items => items[i as int]));
                    }
                    let c = items[i].deep_clone();
                    out.push(c);
                    i += 1;
                }
                let r = JsonValue::Array(out);
                proof {
                    assert(r@->Array_0 =~= self@->Array_0);
                }
                r
            },
            JsonValue::Object(entries) => {
                let mut out: Vec<(String, JsonValue)> = Vec::new();
                let mut i: usize = 0;
                while i < entries.len()
                    invariant
                        i <= entries.len(),
                        out.len() == i,
                        forall|j: int|
                            0 <= j < i ==> (#[trigger] out@[j]).0@ == entries@[j].0@ && out@[j].1@
                                == entries@[j].1@,
                    decreases entries.len() - i,
                {
                    proof {
                        assert(decreases_to!(*self => self->Object_0));
                        assert(decreases_to!(*entries => entries[i as int]));
                        assert(decreases_to!(entries[i as int] => entries[i as int].1));
                    }
                    let k = entries[i].0.clone();
                    let c = entries[i].1.deep_clone();
                    out.push((k, c));
                    i += 1;
                }
                let r = JsonValue::Object(out);
                proof {
                    assert(r@->Object_0 =~= self@->Object_0);
                }
                r
            },
        }
    }

    /// `value.get(key)`.
    pub fn get(&self, key: &str) -> (r: Option<&JsonValue>)
        ensures
            opt_model(r) == get(self@, key@),
    {
        match self {
            JsonValue::Object(entries) => {
                proof {
                    assert(self@->Object_0 =~= members_model(entries@));
                }
                member(entries, key)
            },
            _ => None,
        }
    }

    /// `value.as_u64()`.
    pub fn as_u64(&self) -> (r: Option<u64>)
        ensures
            r == as_u64(self@),
    {
        match self {
            JsonValue::Number(JsonNumber::PosInt(n)) => Some(*n),
            _ => None,
        }
    }

    /// `value.as_str()`.
    pub fn as_str(&self) -> (r: Option<&str>)
        ensures
            match r {
                Some(s) => as_str(self@) == Some(s@),
                None => as_str(self@) is None,
            },
    {
        match self {
            JsonValue::Str(s) => Some(s.as_str()),
            _ => None,
        }
    }

    /// `value.as_array()`.
    pub fn as_array(&self) -> (r: Option<&Vec<JsonValue>>)
        ensures
            match r {
                Some(items) => as_array(self@) == Some(Seq::new(items.len() as nat, |i: int| items@[i]@)),
                None => as_array(self@) is None,
            },
    {
        match self {
            JsonValue::Array(items) => {
                proof {
                    assert(self@->Array_0 =~= Seq::new(items.len() as nat, |i: int| items@[i]@));
                }
                Some(items)
            },
            _ => None,
        }
    }

    /// Whether the value is an object.
    pub fn is_object(&self) -> (r: bool)
        ensures
            r == is_object(self@),
    {
        match self {
            JsonValue::Object(_) => true,
            _ => false,
        }
    }
}

/// The value of the first member named `key`.
pub fn member<'a>(entries: &'a Vec<(String, JsonValue)>, key: &str) -> (r: Option<&'a JsonValue>)
    ensures
        opt_model(r) == lookup(members_model(entries@), key@),
{
    let k = string_of(key);
    let ghost m = members_model(entries@);
    let mut i: usize = 0;
    while i < entries.len()
        invariant
            i <= entries.len(),
            k@ == key@,
            m == members_model(entries@),
            lookup(m, key@) == lookup_from(m, key@, i as int),
        decreases entries.len() - i,
    {
        if entries[i].0 == k {
            proof {
                assert(m[i as int] == (entries@[i as int].0@, entries@[i as int].1@));
            }
            return Some(&entries[i].1);
        }
        i += 1;
    }
    None
}

/// The position of the member named `key`.
pub fn member_index(entries: &Vec<(String, JsonValue)>, key: &str) -> (r: Option<usize>)
    ensures
        match r {
            Some(i) => i < entries@.len() && key_index(members_model(entries@), key@) == Some(i as int),
            None => key_index(members_model(entries@), key@) is None,
        },
{
    let k = string_of(key);
    let ghost m = members_model(entries@);
    let mut i: usize = 0;
    while i < entries.len()
        invariant
            i <= entries.len(),
            k@ == key@,
            m == members_model(entries@),
            key_index(m, key@) == key_index_from(m, key@, i as int),
        decreases entries.len() - i,
    {
        if entries[i].0 == k {
            return Some(i);
        }
        i += 1;
    }
    None
}

/// `map.insert(key, v)` on an object's members.
pub fn insert_member(entries: &mut Vec<(String, JsonValue)>, key: &str, v: JsonValue)
    ensures
        members_model(final(entries)@) == map_insert(members_model(old(entries)@), key@, v@),
{
    let ghost vm = v@;
    match member_index(entries, key) {
        Some(i) => {
            entries.set(i, (string_of(key), v));
            proof {
                assert(members_model(final(entries)@) =~= members_model(old(entries)@).update(
                    i as int,
                    (key@, vm),
                ));
            }
        },
        None => {
            entries.push((string_of(key), v));
            proof {
                assert(members_model(final(entries)@) =~= members_model(old(entries)@).push((key@, vm)));
            }
        },
    }
}

/// `map.remove(key)` on an object's members.
pub fn remove_member(entries: &mut Vec<(String, JsonValue)>, key: &str)
    ensures
        members_model(final(entries)@) == map_remove(members_model(old(entries)@), key@),
{
    match member_index(entries, key) {
        Some(i) => {
            let _removed = entries.remove(i);
            proof {
                assert(members_model(final(entries)@) =~= members_model(old(entries)@).remove(i as int));
            }
        },
        None => {},
    }
}

impl Clone for JsonValue {
    fn clone(&self) -> (r: Self)
        ensures
            r@ == self@,
    {
        self.deep_clone()
    }
}

/// `value.and_then(|v| v.get(key))`.
pub fn opt_get<'a>(v: Option<&'a JsonValue>, key: &str) -> (r: Option<&'a JsonValue>)
    ensures
        opt_model(r) == get_in(opt_model(v), key@),
{
    match v {
        Some(x) => x.get(key),
        None => None,
    }
}

/// `a.or_else(|| b)`.
pub fn opt_or<'a>(a: Option<&'a JsonValue>, b: Option<&'a JsonValue>) -> (r: Option<&'a JsonValue>)
    ensures
        opt_model(r) == or_else(opt_model(a), opt_model(b)),
{
    match a {
        Some(x) => Some(x),
        None => b,
    }
}

/// `value.and_then(|v| v.as_str())`.
pub fn opt_str<'a>(v: Option<&'a JsonValue>) -> (r: Option<&'a str>)
    ensures
        match r {
            Some(s) => str_in(opt_model(v)) == Some(s@),
            None => str_in(opt_model(v)) is None,
        },
{
    match v {
        Some(x) => x.as_str(),
        None => None,
    }
}

/// `value.and_then(|v| v.as_u64())`.
pub fn opt_u64(v: Option<&JsonValue>) -> (r: Option<u64>)
    ensures
        r == u64_in(opt_model(v)),
{
    match v {
        Some(x) => x.as_u64(),
        None => None,
    }
}

/// A piece of text: text as it came, or a JSON value whose compact JSON text
/// is the piece.
#[derive(Debug)]
pub enum TextPiece {
    Text(String),
    Encoded(JsonValue),
}

/// The content of a [`TextPiece`].
pub enum PieceModel {
    Text(Seq<char>),
    Encoded(JsonModel),
}

impl View for TextPiece {
    type V = PieceModel;

    open spec fn view(&self) -> PieceModel {
        match self {
            TextPiece::Text(s) => PieceModel::Text(s@),
            TextPiece::Encoded(v) => PieceModel::Encoded(v@),
        }
    }
}

pub open spec fn pieces_model(v: Seq<TextPiece>) -> Seq<PieceModel> {
    v.map_values(|p: TextPiece| p@)
}

/// The piece a member stands for: a non-empty string as it is; an empty
/// string as nothing; any other value encoded.
pub open spec fn piece_of(v: JsonModel) -> Seq<PieceModel> {
    match v {
        JsonModel::Str(s) => if s.len() > 0 {
            seq![PieceModel::Text(s)]
        } else {
            seq![]
        },
        other => seq![PieceModel::Encoded(other)],
    }
}

impl TextPiece {
    /// A copy of the piece.
    pub fn copy_piece(&self) -> (r: TextPiece)
        ensures
            r@ == self@,
    {
        match self {
            TextPiece::Text(s) => TextPiece::Text(s.clone()),
            TextPiece::Encoded(v) => TextPiece::Encoded(v.deep_clone()),
        }
    }
}

/// The piece a member stands for (see [`piece_of`]).
pub fn piece_from(v: &JsonValue) -> (r: Option<TextPiece>)
    ensures
        match r {
            Some(p) => piece_of(v@) == seq![p@],
            None => piece_of(v@) == Seq::<PieceModel>::empty(),
        },
{
    match v {
        JsonValue::Str(s) => {
            if s.as_str().is_empty() {
                None
            } else {
                Some(TextPiece::Text(s.clone()))
            }
        },
        _ => Some(TextPiece::Encoded(v.deep_clone())),
    }
}

} // verus!
