//! Frontmatter parser for custom JS transforms.
//!
//! The source must begin with one block comment whose first non-empty
//! normalized line is `@monoize-transform`, followed by `key: value` lines.
use crate::text::{
    chars_of, eq_lit, find_char, find_char_from, find_pair, find_pair_from, lines, lines_vec,
    push_chars, push_lit, seqs_of, slice_vec, split_from, split_vec, starts_with_lit,
    string_from_chars, string_of, trim, trim_end, trim_end_vec, trim_start, trim_start_vec, trim_vec,
};
use crate::transforms::{Phase, TransformScope};
use vstd::prelude::*;
use vstd::utf8::encode_utf8;

verus! {

pub const CUSTOM_TRANSFORM_ID_PREFIX: &'static str = "js:";

pub const CUSTOM_TRANSFORM_ID_MAX_LEN: usize = 64;

/// Who may attach a custom transform.
#[derive(Debug, Clone, Copy, PartialEq, Eq, Structural)]
pub enum CustomTransformVisibility {
    Admin,
    User,
}

/// The visibility named by `raw`, if any.
pub open spec fn visibility_of(raw: Seq<char>) -> Option<CustomTransformVisibility> {
    if raw == "admin"@ {
        Some(CustomTransformVisibility::Admin)
    } else if raw == "user"@ {
        Some(CustomTransformVisibility::User)
    } else {
        None
    }
}

impl CustomTransformVisibility {
    /// The wire name of the visibility.
    pub fn as_str(&self) -> (r: &'static str)
        ensures
            r@ == (match *self {
                CustomTransformVisibility::Admin => "admin"@,
                CustomTransformVisibility::User => "user"@,
            }),
    {
        match self {
            CustomTransformVisibility::Admin => "admin",
            CustomTransformVisibility::User => "user",
        }
    }

    /// Parses a wire name; anything but `admin` or `user` is rejected.
    pub fn parse(raw: &str) -> (r: Option<Self>)
        ensures
            r == visibility_of(raw@),
    {
        let v = chars_of(raw);
        if eq_lit(&v, "admin") {
            Some(CustomTransformVisibility::Admin)
        } else if eq_lit(&v, "user") {
            Some(CustomTransformVisibility::User)
        } else {
            None
        }
    }
}

/// Metadata declared by a custom transform's frontmatter.
#[derive(Debug, Clone)]
pub struct CustomTransformMeta {
    pub id: String,
    pub name: String,
    pub description: String,
    pub author: String,
    pub phases: Vec<Phase>,
    pub scopes: Vec<TransformScope>,
    pub visibility: CustomTransformVisibility,
}

/// The mathematical content of a [`CustomTransformMeta`].
pub struct MetaSpec {
    pub id: Seq<char>,
    pub name: Seq<char>,
    pub description: Seq<char>,
    pub author: Seq<char>,
    pub phases: Seq<Phase>,
    pub scopes: Seq<TransformScope>,
    pub visibility: CustomTransformVisibility,
}

impl CustomTransformMeta {
    pub open spec fn spec_meta(&self) -> MetaSpec {
        MetaSpec {
            id: self.id@,
            name: self.name@,
            description: self.description@,
            author: self.author@,
            phases: self.phases@,
            scopes: self.scopes@,
            visibility: self.visibility,
        }
    }
}

/// A character allowed in an id segment.
pub open spec fn id_char(c: char) -> bool {
    ('a' <= c && c <= 'z') || ('0' <= c && c <= '9')
}

/// Every `-`-separated segment is non-empty and made of id characters.
pub open spec fn id_segments_ok(pieces: Seq<Seq<char>>) -> bool {
    forall|i: int|
        0 <= i < pieces.len() ==> #[trigger] pieces[i].len() > 0 && (forall|t: int|
            0 <= t < pieces[i].len() ==> id_char(pieces[i][t]))
}

/// The UTF-8 length of `s`, as `str::len` reports it.
pub open spec fn byte_len(s: Seq<char>) -> usize {
    encode_utf8(s).len() as usize
}

/// `^js:[a-z0-9]+(-[a-z0-9]+)*$`, at most 64 bytes including the prefix.
pub open spec fn valid_transform_id(id: Seq<char>) -> bool {
    &&& byte_len(id) <= 64
    &&& id.len() >= 3
    &&& id.take(3) == "js:"@
    &&& id.len() > 3
    &&& id_segments_ok(split_from(id.skip(3), '-', 0))
}

/// `^js:[a-z0-9]+(-[a-z0-9]+)*$`, at most 64 characters including prefix.
#[verifier::loop_isolation(false)]
pub fn is_valid_custom_transform_id(id: &str) -> (r: bool)
    ensures
        r == valid_transform_id(id@),
{
    if id.len() > CUSTOM_TRANSFORM_ID_MAX_LEN {
        return false;
    }
    let v = chars_of(id);
    if !starts_with_lit(&v, "js:") {
        proof {
            reveal_strlit("js:");
        }
        return false;
    }
    proof {
        reveal_strlit("js:");
    }
    let body = slice_vec(&v, 3, v.len());
    assert(body@ =~= id@.skip(3));
    if body.len() == 0 {
        return false;
    }
    let pieces = split_vec(&body, '-');
    let mut i: usize = 0;
    while i < pieces.len()
        invariant
            i <= pieces@.len(),
            seqs_of(pieces@) == split_from(body@, '-', 0),
            forall|k: int|
                0 <= k < i ==> #[trigger] seqs_of(pieces@)[k].len() > 0 && (forall|t: int|
                    0 <= t < seqs_of(pieces@)[k].len() ==> id_char(seqs_of(pieces@)[k][t])),
        decreases pieces@.len() - i,
    {
        let piece = &pieces[i];
        if piece.len() == 0 {
            proof {
                assert(seqs_of(pieces@)[i as int].len() == 0);
            }
            return false;
        }
        let mut t: usize = 0;
        while t < piece.len()
            invariant
                t <= piece@.len(),
                piece@ == seqs_of(pieces@)[i as int],
                forall|u: int| 0 <= u < t ==> id_char(piece@[u]),
            decreases piece@.len() - t,
        {
            let c = piece[t];
            if !(('a' <= c && c <= 'z') || ('0' <= c && c <= '9')) {
                proof {
                    assert(!id_char(seqs_of(pieces@)[i as int][t as int]));
                }
                return false;
            }
            t += 1;
        }
        i += 1;
    }
    assert(id_segments_ok(seqs_of(pieces@)));
    true
}

/// Why a frontmatter block was rejected.
pub enum FrontmatterErrorSpec {
    NoOpener,
    NotTerminated,
    BadFirstLine,
    NotKeyValue(Seq<char>),
    UnknownKey(Seq<char>),
    DuplicatedKey(Seq<char>),
    MissingKey(Seq<char>),
    BadId(Seq<char>),
    TooLong(Seq<char>, Seq<char>),
    BadPhase(Seq<char>),
    BadScope(Seq<char>),
    DuplicatedScope(Seq<char>),
    EmptyScopes,
    BadVisibility(Seq<char>),
}

/// The human-readable rejection reason for each error.
pub open spec fn frontmatter_message(e: FrontmatterErrorSpec) -> Seq<char> {
    match e {
        FrontmatterErrorSpec::NoOpener => "source must begin with a /* ... */ frontmatter block comment"@,
        FrontmatterErrorSpec::NotTerminated => "frontmatter block comment is not terminated with */"@,
        FrontmatterErrorSpec::BadFirstLine => "the first frontmatter line must be exactly '@monoize-transform'"@,
        FrontmatterErrorSpec::NotKeyValue(line) => "frontmatter line '"@ + line
            + "' is not in 'key: value' form"@,
        FrontmatterErrorSpec::UnknownKey(key) => "unknown frontmatter key '"@ + key + "'"@,
        FrontmatterErrorSpec::DuplicatedKey(key) => "duplicated frontmatter key '"@ + key + "'"@,
        FrontmatterErrorSpec::MissingKey(key) => "required frontmatter key '"@ + key
            + "' is missing or empty"@,
        FrontmatterErrorSpec::BadId(id) => "id '"@ + id
            + "' must match ^js:[a-z0-9]+(-[a-z0-9]+)*$ and be at most 64 characters"@,
        FrontmatterErrorSpec::TooLong(key, max) => "frontmatter '"@ + key + "' must be at most "@
            + max + " characters"@,
        FrontmatterErrorSpec::BadPhase(phase) => "phase '"@ + phase
            + "' must be one of request, response, both"@,
        FrontmatterErrorSpec::BadScope(scope) => "scope '"@ + scope
            + "' must be one of provider, global, api_key"@,
        FrontmatterErrorSpec::DuplicatedScope(scope) => "duplicated scope '"@ + scope + "'"@,
        FrontmatterErrorSpec::EmptyScopes => "scopes must not be empty"@,
        FrontmatterErrorSpec::BadVisibility(v) => "visibility '"@ + v
            + "' must be one of admin, user"@,
    }
}

/// The comment body: what lies between the `/*` (or `/**`) opener at the
/// start of the trimmed source and the first `*/`.
pub open spec fn frontmatter_body(source: Seq<char>) -> Result<Seq<char>, FrontmatterErrorSpec> {
    let t = trim_start(source);
    let after = if t.len() >= 3 && t.take(3) == "/**"@ {
        Some(t.skip(3))
    } else if t.len() >= 2 && t.take(2) == "/*"@ {
        Some(t.skip(2))
    } else {
        None
    };
    match after {
        None => Err(FrontmatterErrorSpec::NoOpener),
        Some(a) => match find_pair_from(a, '*', '/', 0) {
            None => Err(FrontmatterErrorSpec::NotTerminated),
            Some(k) => Ok(a.take(k)),
        },
    }
}

/// A line with leading whitespace, one optional `*`, one optional space and
/// trailing whitespace removed; empty results are dropped.
pub open spec fn normalize_line(l: Seq<char>) -> Option<Seq<char>> {
    let t = trim_start(l);
    let t2 = if t.len() > 0 && t[0] == '*' {
        t.skip(1)
    } else {
        t
    };
    let t3 = if t2.len() > 0 && t2[0] == ' ' {
        t2.skip(1)
    } else {
        t2
    };
    let t4 = trim_end(t3);
    if t4.len() == 0 {
        None
    } else {
        Some(t4)
    }
}

/// The normalized non-empty lines, in order.
pub open spec fn normalized_lines(ls: Seq<Seq<char>>) -> Seq<Seq<char>>
    decreases ls.len(),
{
    if ls.len() == 0 {
        Seq::empty()
    } else {
        normalized_lines(ls.drop_last()) + match normalize_line(ls.last()) {
            Some(x) => seq![x],
            None => Seq::empty(),
        }
    }
}

/// Slot index of a recognized frontmatter key.
pub open spec fn key_index(k: Seq<char>) -> Option<int> {
    if k == "id"@ {
        Some(0)
    } else if k == "name"@ {
        Some(1)
    } else if k == "description"@ {
        Some(2)
    } else if k == "author"@ {
        Some(3)
    } else if k == "phase"@ {
        Some(4)
    } else if k == "scopes"@ {
        Some(5)
    } else if k == "visibility"@ {
        Some(6)
    } else {
        None
    }
}

/// Reads the `key: value` lines `ls[i..]` into the seven slots, rejecting
/// malformed lines, unknown keys and repeated keys.
pub open spec fn fold_key_values(
    ls: Seq<Seq<char>>,
    i: int,
    slots: Seq<Option<Seq<char>>>,
) -> Result<Seq<Option<Seq<char>>>, FrontmatterErrorSpec>
    decreases ls.len() - i,
{
    if i < 0 || i >= ls.len() {
        Ok(slots)
    } else {
        let line = ls[i];
        match find_char_from(line, ':', 0) {
            None => Err(FrontmatterErrorSpec::NotKeyValue(line)),
            Some(c) => {
                let key = trim(line.take(c));
                let value = trim(line.skip(c + 1));
                match key_index(key) {
                    None => Err(FrontmatterErrorSpec::UnknownKey(key)),
                    Some(idx) => if slots[idx] is Some {
                        Err(FrontmatterErrorSpec::DuplicatedKey(key))
                    } else {
                        fold_key_values(ls, i + 1, slots.update(idx, Some(value)))
                    },
                }
            },
        }
    }
}

/// A present, non-empty value.
pub open spec fn required_value(key: Seq<char>, v: Option<Seq<char>>) -> Result<Seq<char>, FrontmatterErrorSpec> {
    match v {
        Some(x) => if x.len() > 0 {
            Ok(x)
        } else {
            Err(FrontmatterErrorSpec::MissingKey(key))
        },
        None => Err(FrontmatterErrorSpec::MissingKey(key)),
    }
}

/// A present, non-empty value of at most `max` characters.
pub open spec fn bounded_value(
    key: Seq<char>,
    v: Option<Seq<char>>,
    max: nat,
    max_text: Seq<char>,
) -> Result<Seq<char>, FrontmatterErrorSpec> {
    match required_value(key, v) {
        Err(e) => Err(e),
        Ok(x) => if x.len() > max {
            Err(FrontmatterErrorSpec::TooLong(key, max_text))
        } else {
            Ok(x)
        },
    }
}

/// The phases named by the `phase` key.
pub open spec fn phases_of(raw: Option<Seq<char>>) -> Result<Seq<Phase>, FrontmatterErrorSpec> {
    match raw {
        None => Ok(seq![Phase::Request, Phase::Response]),
        Some(p) => if p == "both"@ {
            Ok(seq![Phase::Request, Phase::Response])
        } else if p == "request"@ {
            Ok(seq![Phase::Request])
        } else if p == "response"@ {
            Ok(seq![Phase::Response])
        } else {
            Err(FrontmatterErrorSpec::BadPhase(p))
        },
    }
}

/// The scope named by one trimmed `scopes` entry.
pub open spec fn scope_of(entry: Seq<char>) -> Option<TransformScope> {
    if entry == "provider"@ {
        Some(TransformScope::Provider)
    } else if entry == "global"@ {
        Some(TransformScope::Global)
    } else if entry == "api_key"@ {
        Some(TransformScope::ApiKey)
    } else {
        None
    }
}

/// Reads the comma-separated entries `pieces[i..]` after `acc`, rejecting
/// unknown and repeated scopes.
pub open spec fn fold_scopes(pieces: Seq<Seq<char>>, i: int, acc: Seq<TransformScope>) -> Result<
    Seq<TransformScope>,
    FrontmatterErrorSpec,
>
    decreases pieces.len() - i,
{
    if i < 0 || i >= pieces.len() {
        if acc.len() == 0 {
            Err(FrontmatterErrorSpec::EmptyScopes)
        } else {
            Ok(acc)
        }
    } else {
        let entry = trim(pieces[i]);
        match scope_of(entry) {
            None => Err(FrontmatterErrorSpec::BadScope(entry)),
            Some(scope) => if acc.contains(scope) {
                Err(FrontmatterErrorSpec::DuplicatedScope(entry))
            } else {
                fold_scopes(pieces, i + 1, acc.push(scope))
            },
        }
    }
}

/// The scopes named by the `scopes` key.
pub open spec fn scopes_of(raw: Option<Seq<char>>) -> Result<Seq<TransformScope>, FrontmatterErrorSpec> {
    match raw {
        None => Ok(seq![TransformScope::Provider, TransformScope::Global, TransformScope::ApiKey]),
        Some(r) => fold_scopes(split_from(r, ',', 0), 0, Seq::empty()),
    }
}

/// The visibility named by the `visibility` key.
pub open spec fn visibility_value(raw: Option<Seq<char>>) -> Result<CustomTransformVisibility, FrontmatterErrorSpec> {
    match raw {
        None => Ok(CustomTransformVisibility::Admin),
        Some(r) => match visibility_of(r) {
            Some(v) => Ok(v),
            None => Err(FrontmatterErrorSpec::BadVisibility(r)),
        },
    }
}

/// Builds the metadata from the seven key slots, checking each value in turn.
pub open spec fn meta_from_slots(slots: Seq<Option<Seq<char>>>) -> Result<MetaSpec, FrontmatterErrorSpec> {
    match required_value("id"@, slots[0]) {
        Err(e) => Err(e),
        Ok(id) => if !valid_transform_id(id) {
            Err(FrontmatterErrorSpec::BadId(id))
        } else {
            match bounded_value("name"@, slots[1], 100, "100"@) {
                Err(e) => Err(e),
                Ok(name) => match bounded_value("description"@, slots[2], 500, "500"@) {
                    Err(e) => Err(e),
                    Ok(description) => match bounded_value("author"@, slots[3], 100, "100"@) {
                        Err(e) => Err(e),
                        Ok(author) => match phases_of(slots[4]) {
                            Err(e) => Err(e),
                            Ok(phases) => match scopes_of(slots[5]) {
                                Err(e) => Err(e),
                                Ok(scopes) => match visibility_value(slots[6]) {
                                    Err(e) => Err(e),
                                    Ok(visibility) => Ok(
                                        MetaSpec {
                                            id,
                                            name,
                                            description,
                                            author,
                                            phases,
                                            scopes,
                                            visibility,
                                        },
                                    ),
                                },
                            },
                        },
                    },
                },
            }
        },
    }
}

/// Seven empty key slots.
pub open spec fn empty_slots() -> Seq<Option<Seq<char>>> {
    seq![None, None, None, None, None, None, None]
}

/// What `parse_frontmatter` makes of `source`.
pub open spec fn frontmatter_spec(source: Seq<char>) -> Result<MetaSpec, FrontmatterErrorSpec> {
    match frontmatter_body(source) {
        Err(e) => Err(e),
        Ok(body) => {
            let nl = normalized_lines(lines(body));
            if nl.len() == 0 || nl[0] != "@monoize-transform"@ {
                Err(FrontmatterErrorSpec::BadFirstLine)
            } else {
                match fold_key_values(nl, 1, empty_slots()) {
                    Err(e) => Err(e),
                    Ok(slots) => meta_from_slots(slots),
                }
            }
        },
    }
}

/// Why a frontmatter block was rejected (executable form).
pub enum FrontmatterError {
    NoOpener,
    NotTerminated,
    BadFirstLine,
    NotKeyValue(Vec<char>),
    UnknownKey(Vec<char>),
    DuplicatedKey(Vec<char>),
    MissingKey(Vec<char>),
    BadId(Vec<char>),
    TooLong(Vec<char>, Vec<char>),
    BadPhase(Vec<char>),
    BadScope(Vec<char>),
    DuplicatedScope(Vec<char>),
    EmptyScopes,
    BadVisibility(Vec<char>),
}

impl View for FrontmatterError {
    type V = FrontmatterErrorSpec;

    open spec fn view(&self) -> FrontmatterErrorSpec {
        match self {
            FrontmatterError::NoOpener => FrontmatterErrorSpec::NoOpener,
            FrontmatterError::NotTerminated => FrontmatterErrorSpec::NotTerminated,
            FrontmatterError::BadFirstLine => FrontmatterErrorSpec::BadFirstLine,
            FrontmatterError::NotKeyValue(x) => FrontmatterErrorSpec::NotKeyValue(x@),
            FrontmatterError::UnknownKey(x) => FrontmatterErrorSpec::UnknownKey(x@),
            FrontmatterError::DuplicatedKey(x) => FrontmatterErrorSpec::DuplicatedKey(x@),
            FrontmatterError::MissingKey(x) => FrontmatterErrorSpec::MissingKey(x@),
            FrontmatterError::BadId(x) => FrontmatterErrorSpec::BadId(x@),
            FrontmatterError::TooLong(x, y) => FrontmatterErrorSpec::TooLong(x@, y@),
            FrontmatterError::BadPhase(x) => FrontmatterErrorSpec::BadPhase(x@),
            FrontmatterError::BadScope(x) => FrontmatterErrorSpec::BadScope(x@),
            FrontmatterError::DuplicatedScope(x) => FrontmatterErrorSpec::DuplicatedScope(x@),
            FrontmatterError::EmptyScopes => FrontmatterErrorSpec::EmptyScopes,
            FrontmatterError::BadVisibility(x) => FrontmatterErrorSpec::BadVisibility(x@),
        }
    }
}

/// `lit` + `x` + `tail` as a `String`.
fn quoted_message(lit: &str, x: &Vec<char>, tail: &str) -> (r: String)
    ensures
        r@ == lit@ + x@ + tail@,
{
    let mut s = string_of(lit);
    push_chars(&mut s, x);
    push_lit(&mut s, tail);
    s
}

impl FrontmatterError {
    /// The human-readable rejection reason.
    pub fn message(&self) -> (r: String)
        ensures
            r@ == frontmatter_message(self@),
    {
        match self {
            FrontmatterError::NoOpener => string_of(
                "source must begin with a /* ... */ frontmatter block comment",
            ),
            FrontmatterError::NotTerminated => string_of(
                "frontmatter block comment is not terminated with */",
            ),
            FrontmatterError::BadFirstLine => string_of(
                "the first frontmatter line must be exactly '@monoize-transform'",
            ),
            FrontmatterError::NotKeyValue(line) => quoted_message(
                "frontmatter line '",
                line,
                "' is not in 'key: value' form",
            ),
            FrontmatterError::UnknownKey(key) => quoted_message(
                "unknown frontmatter key '",
                key,
                "'",
            ),
            FrontmatterError::DuplicatedKey(key) => quoted_message(
                "duplicated frontmatter key '",
                key,
                "'",
            ),
            FrontmatterError::MissingKey(key) => quoted_message(
                "required frontmatter key '",
                key,
                "' is missing or empty",
            ),
            FrontmatterError::BadId(id) => quoted_message(
                "id '",
                id,
                "' must match ^js:[a-z0-9]+(-[a-z0-9]+)*$ and be at most 64 characters",
            ),
            FrontmatterError::TooLong(key, max) => {
                let mut s = quoted_message("frontmatter '", key, "' must be at most ");
                push_chars(&mut s, max);
                push_lit(&mut s, " characters");
                s
            },
            FrontmatterError::BadPhase(phase) => quoted_message(
                "phase '",
                phase,
                "' must be one of request, response, both",
            ),
            FrontmatterError::BadScope(scope) => quoted_message(
                "scope '",
                scope,
                "' must be one of provider, global, api_key",
            ),
            FrontmatterError::DuplicatedScope(scope) => quoted_message(
                "duplicated scope '",
                scope,
                "'",
            ),
            FrontmatterError::EmptyScopes => string_of("scopes must not be empty"),
            FrontmatterError::BadVisibility(v) => quoted_message(
                "visibility '",
                v,
                "' must be one of admin, user",
            ),
        }
    }
}

/// The comment body between the opener and the first `*/`.
fn frontmatter_body_exec(source: &Vec<char>) -> (r: Result<Vec<char>, FrontmatterError>)
    ensures
        match r {
            Ok(body) => frontmatter_body(source@) == Ok::<Seq<char>, FrontmatterErrorSpec>(body@),
            Err(e) => frontmatter_body(source@) == Err::<Seq<char>, FrontmatterErrorSpec>(e@),
        },
{
    let t = trim_start_vec(source);
    proof {
        reveal_strlit("/**");
        reveal_strlit("/*");
    }
    let after = if starts_with_lit(&t, "/**") {
        slice_vec(&t, 3, t.len())
    } else if starts_with_lit(&t, "/*") {
        slice_vec(&t, 2, t.len())
    } else {
        return Err(FrontmatterError::NoOpener);
    };
    proof {
        assert(after@ =~= t@.skip(if t@.len() >= 3 && t@.take(3) == "/**"@ { 3int } else { 2int }));
    }
    match find_pair(&after, '*', '/', 0) {
        None => Err(FrontmatterError::NotTerminated),
        Some(k) => {
            let body = slice_vec(&after, 0, k);
            assert(body@ =~= after@.take(k as int));
            Ok(body)
        },
    }
}

/// One line normalized, or `None` when nothing is left of it.
fn normalize_frontmatter_line(l: &Vec<char>) -> (r: Option<Vec<char>>)
    ensures
        match r {
            Some(x) => normalize_line(l@) == Some(x@),
            None => normalize_line(l@) is None,
        },
{
    let t = trim_start_vec(l);
    let t2 = if t.len() > 0 && t[0] == '*' {
        slice_vec(&t, 1, t.len())
    } else {
        t
    };
    let t3 = if t2.len() > 0 && t2[0] == ' ' {
        slice_vec(&t2, 1, t2.len())
    } else {
        t2
    };
    proof {
        assert(t2@ =~= (if t@.len() > 0 && t@[0] == '*' { t@.skip(1) } else { t@ }));
        assert(t3@ =~= (if t2@.len() > 0 && t2@[0] == ' ' { t2@.skip(1) } else { t2@ }));
    }
    let t4 = trim_end_vec(&t3);
    if t4.len() == 0 {
        None
    } else {
        Some(t4)
    }
}

/// The normalized non-empty lines, in order.
fn normalized_lines_exec(ls: &Vec<Vec<char>>) -> (r: Vec<Vec<char>>)
    ensures
        seqs_of(r@) == normalized_lines(seqs_of(ls@)),
{
    let mut r: Vec<Vec<char>> = Vec::new();
    let mut i: usize = 0;
    while i < ls.len()
        invariant
            i <= ls@.len(),
            seqs_of(r@) == normalized_lines(seqs_of(ls@).take(i as int)),
        decreases ls@.len() - i,
    {
        let ghost before = seqs_of(r@);
        proof {
            assert(seqs_of(ls@).take(i + 1).drop_last() =~= seqs_of(ls@).take(i as int));
        }
        match normalize_frontmatter_line(&ls[i]) {
            Some(x) => {
                r.push(x);
                assert(seqs_of(r@) =~= before + seq![x@]);
            },
            None => {
                assert(before + Seq::<Seq<char>>::empty() =~= before);
            },
        }
        i += 1;
    }
    assert(seqs_of(ls@).take(ls@.len() as int) =~= seqs_of(ls@));
    r
}

/// The character sequence held by an optional vector.
pub open spec fn opt_view(o: Option<Vec<char>>) -> Option<Seq<char>> {
    match o {
        Some(v) => Some(v@),
        None => None,
    }
}

/// The character sequences held by the key slots.
pub open spec fn slots_view(s: Seq<Option<Vec<char>>>) -> Seq<Option<Seq<char>>> {
    s.map_values(|o: Option<Vec<char>>| opt_view(o))
}

/// Slot index of a recognized frontmatter key.
fn key_index_exec(key: &Vec<char>) -> (r: Option<usize>)
    ensures
        match r {
            Some(i) => key_index(key@) == Some(i as int) && i < 7,
            None => key_index(key@) is None,
        },
{
    if eq_lit(key, "id") {
        Some(0)
    } else if eq_lit(key, "name") {
        Some(1)
    } else if eq_lit(key, "description") {
        Some(2)
    } else if eq_lit(key, "author") {
        Some(3)
    } else if eq_lit(key, "phase") {
        Some(4)
    } else if eq_lit(key, "scopes") {
        Some(5)
    } else if eq_lit(key, "visibility") {
        Some(6)
    } else {
        None
    }
}

/// Reads the `key: value` lines after the marker line into seven slots.
fn fold_key_values_exec(ls: &Vec<Vec<char>>) -> (r: Result<Vec<Option<Vec<char>>>, FrontmatterError>)
    ensures
        match r {
            Ok(slots) => fold_key_values(seqs_of(ls@), 1, empty_slots()) == Ok::<
                Seq<Option<Seq<char>>>,
                FrontmatterErrorSpec,
            >(slots_view(slots@)) && slots@.len() == 7,
            Err(e) => fold_key_values(seqs_of(ls@), 1, empty_slots()) == Err::<
                Seq<Option<Seq<char>>>,
                FrontmatterErrorSpec,
            >(e@),
        },
{
    let mut slots: Vec<Option<Vec<char>>> = vec![None, None, None, None, None, None, None];
    assert(slots_view(slots@) =~= empty_slots());
    let mut i: usize = 1;
    while i < ls.len()
        invariant
            1 <= i,
            slots@.len() == 7,
            fold_key_values(seqs_of(ls@), i as int, slots_view(slots@)) == fold_key_values(
                seqs_of(ls@),
                1,
                empty_slots(),
            ),
        decreases ls@.len() - i,
    {
        let line = &ls[i];
        assert(line@ == seqs_of(ls@)[i as int]);
        match find_char(line, ':', 0) {
            None => {
                let whole = slice_vec(line, 0, line.len());
                assert(whole@ =~= line@);
                return Err(FrontmatterError::NotKeyValue(whole));
            },
            Some(c) => {
                proof {
                    crate::text::lemma_find_char_bounds(line@, ':', 0);
                }
                assert(c < line.len());
                let key_raw = slice_vec(line, 0, c);
                let value_raw = slice_vec(line, c + 1, line.len());
                assert(key_raw@ =~= line@.take(c as int));
                assert(value_raw@ =~= line@.skip(c + 1));
                let key = trim_vec(&key_raw);
                let value = trim_vec(&value_raw);
                match key_index_exec(&key) {
                    None => {
                        return Err(FrontmatterError::UnknownKey(key));
                    },
                    Some(idx) => {
                        if slots[idx].is_some() {
                            return Err(FrontmatterError::DuplicatedKey(key));
                        }
                        let ghost before = slots_view(slots@);
                        slots.set(idx, Some(value));
                        assert(slots_view(slots@) =~= before.update(idx as int, Some(value@)));
                    },
                }
            },
        }
        i += 1;
    }
    Ok(slots)
}

/// A present, non-empty value.
fn require_value(key: &str, v: Option<Vec<char>>) -> (r: Result<Vec<char>, FrontmatterError>)
    ensures
        match r {
            Ok(x) => required_value(key@, opt_view(v)) == Ok::<
                Seq<char>,
                FrontmatterErrorSpec,
            >(x@),
            Err(e) => required_value(key@, opt_view(v)) == Err::<
                Seq<char>,
                FrontmatterErrorSpec,
            >(e@),
        },
{
    match v {
        Some(x) => {
            if x.len() > 0 {
                Ok(x)
            } else {
                Err(FrontmatterError::MissingKey(chars_of(key)))
            }
        },
        None => Err(FrontmatterError::MissingKey(chars_of(key))),
    }
}

/// A present, non-empty value of at most `max` characters.
fn require_bounded(key: &str, v: Option<Vec<char>>, max: usize, max_text: &str) -> (r: Result<
    Vec<char>,
    FrontmatterError,
>)
    ensures
        match r {
            Ok(x) => bounded_value(key@, opt_view(v), max as nat, max_text@) == Ok::<
                Seq<char>,
                FrontmatterErrorSpec,
            >(x@),
            Err(e) => bounded_value(key@, opt_view(v), max as nat, max_text@) == Err::<
                Seq<char>,
                FrontmatterErrorSpec,
            >(e@),
        },
{
    let x = require_value(key, v)?;
    if x.len() > max {
        return Err(FrontmatterError::TooLong(chars_of(key), chars_of(max_text)));
    }
    Ok(x)
}

/// The phases named by the `phase` key.
fn phases_exec(raw: Option<Vec<char>>) -> (r: Result<Vec<Phase>, FrontmatterError>)
    ensures
        match r {
            Ok(x) => phases_of(opt_view(raw)) == Ok::<Seq<Phase>, FrontmatterErrorSpec>(
                x@,
            ),
            Err(e) => phases_of(opt_view(raw)) == Err::<Seq<Phase>, FrontmatterErrorSpec>(
                e@,
            ),
        },
{
    match raw {
        None => {
            let v = vec![Phase::Request, Phase::Response];
            assert(v@ =~= seq![Phase::Request, Phase::Response]);
            Ok(v)
        },
        Some(p) => {
            if eq_lit(&p, "both") {
                let v = vec![Phase::Request, Phase::Response];
                assert(v@ =~= seq![Phase::Request, Phase::Response]);
                Ok(v)
            } else if eq_lit(&p, "request") {
                let v = vec![Phase::Request];
                assert(v@ =~= seq![Phase::Request]);
                Ok(v)
            } else if eq_lit(&p, "response") {
                let v = vec![Phase::Response];
                assert(v@ =~= seq![Phase::Response]);
                Ok(v)
            } else {
                Err(FrontmatterError::BadPhase(p))
            }
        },
    }
}

/// Whether `scope` already occurs in `acc`.
fn contains_scope(acc: &Vec<TransformScope>, scope: TransformScope) -> (r: bool)
    ensures
        r == acc@.contains(scope),
{
    let mut i: usize = 0;
    while i < acc.len()
        invariant
            i <= acc@.len(),
            forall|k: int| 0 <= k < i ==> acc@[k] != scope,
        decreases acc@.len() - i,
    {
        if acc[i] == scope {
            assert(acc@[i as int] == scope);
            return true;
        }
        i += 1;
    }
    false
}

/// Parses a comma-separated list of scopes.
fn parse_scopes(raw: &Vec<char>) -> (r: Result<Vec<TransformScope>, FrontmatterError>)
    ensures
        match r {
            Ok(x) => fold_scopes(split_from(raw@, ',', 0), 0, Seq::empty()) == Ok::<
                Seq<TransformScope>,
                FrontmatterErrorSpec,
            >(x@),
            Err(e) => fold_scopes(split_from(raw@, ',', 0), 0, Seq::empty()) == Err::<
                Seq<TransformScope>,
                FrontmatterErrorSpec,
            >(e@),
        },
{
    let pieces = split_vec(raw, ',');
    let mut scopes: Vec<TransformScope> = Vec::new();
    let mut i: usize = 0;
    while i < pieces.len()
        invariant
            i <= pieces@.len(),
            seqs_of(pieces@) == split_from(raw@, ',', 0),
            fold_scopes(seqs_of(pieces@), i as int, scopes@) == fold_scopes(
                seqs_of(pieces@),
                0,
                Seq::empty(),
            ),
        decreases pieces@.len() - i,
    {
        let entry = trim_vec(&pieces[i]);
        assert(entry@ == trim(seqs_of(pieces@)[i as int]));
        let scope = if eq_lit(&entry, "provider") {
            TransformScope::Provider
        } else if eq_lit(&entry, "global") {
            TransformScope::Global
        } else if eq_lit(&entry, "api_key") {
            TransformScope::ApiKey
        } else {
            return Err(FrontmatterError::BadScope(entry));
        };
        if contains_scope(&scopes, scope) {
            return Err(FrontmatterError::DuplicatedScope(entry));
        }
        scopes.push(scope);
        i += 1;
    }
    if scopes.len() == 0 {
        return Err(FrontmatterError::EmptyScopes);
    }
    Ok(scopes)
}

/// The scopes named by the `scopes` key.
fn scopes_exec(raw: Option<Vec<char>>) -> (r: Result<Vec<TransformScope>, FrontmatterError>)
    ensures
        match r {
            Ok(x) => scopes_of(opt_view(raw)) == Ok::<
                Seq<TransformScope>,
                FrontmatterErrorSpec,
            >(x@),
            Err(e) => scopes_of(opt_view(raw)) == Err::<
                Seq<TransformScope>,
                FrontmatterErrorSpec,
            >(e@),
        },
{
    match raw {
        None => {
            let v = vec![TransformScope::Provider, TransformScope::Global, TransformScope::ApiKey];
            assert(v@ =~= seq![TransformScope::Provider, TransformScope::Global, TransformScope::ApiKey]);
            Ok(v)
        },
        Some(r) => parse_scopes(&r),
    }
}

/// The visibility named by the `visibility` key.
fn visibility_exec(raw: Option<Vec<char>>) -> (r: Result<CustomTransformVisibility, FrontmatterError>)
    ensures
        match r {
            Ok(x) => visibility_value(opt_view(raw)) == Ok::<
                CustomTransformVisibility,
                FrontmatterErrorSpec,
            >(x),
            Err(e) => visibility_value(opt_view(raw)) == Err::<
                CustomTransformVisibility,
                FrontmatterErrorSpec,
            >(e@),
        },
{
    match raw {
        None => Ok(CustomTransformVisibility::Admin),
        Some(r) => {
            if eq_lit(&r, "admin") {
                Ok(CustomTransformVisibility::Admin)
            } else if eq_lit(&r, "user") {
                Ok(CustomTransformVisibility::User)
            } else {
                Err(FrontmatterError::BadVisibility(r))
            }
        },
    }
}

/// Moves the value out of slot `i`.
fn take_slot(slots: &mut Vec<Option<Vec<char>>>, i: usize) -> (r: Option<Vec<char>>)
    requires
        i < old(slots)@.len(),
    ensures
        opt_view(r) == slots_view(old(slots)@)[i as int],
        final(slots)@.len() == old(slots)@.len(),
        forall|k: int| 0 <= k < old(slots)@.len() && k != i ==> #[trigger] slots_view(final(slots)@)[k] == slots_view(old(slots)@)[k],
{
    let ghost before = slots_view(slots@);
    let mut taken: Option<Vec<char>> = None;
    std::mem::swap(&mut taken, &mut slots[i]);
    proof {
        assert forall|k: int| 0 <= k < before.len() && k != i implies #[trigger] slots_view(slots@)[k] == before[k] by {}
    }
    taken
}

/// Parses the frontmatter block with a structured error.
pub fn parse_frontmatter_checked(source: &str) -> (r: Result<CustomTransformMeta, FrontmatterError>)
    ensures
        match r {
            Ok(meta) => frontmatter_spec(source@) == Ok::<MetaSpec, FrontmatterErrorSpec>(meta.spec_meta()),
            Err(e) => frontmatter_spec(source@) == Err::<MetaSpec, FrontmatterErrorSpec>(e@),
        },
{
    let src = chars_of(source);
    let body = frontmatter_body_exec(&src)?;
    let raw_lines = lines_vec(&body);
    let nl = normalized_lines_exec(&raw_lines);
    if nl.len() == 0 || !eq_lit(&nl[0], "@monoize-transform") {
        proof {
            if nl@.len() > 0 {
                assert(nl@[0]@ == seqs_of(nl@)[0]);
            }
        }
        return Err(FrontmatterError::BadFirstLine);
    }
    proof {
        assert(nl@[0]@ == seqs_of(nl@)[0]);
    }
    let mut slots = fold_key_values_exec(&nl)?;
    let ghost sv = slots_view(slots@);
    let id_raw = take_slot(&mut slots, 0);
    let name_raw = take_slot(&mut slots, 1);
    let description_raw = take_slot(&mut slots, 2);
    let author_raw = take_slot(&mut slots, 3);
    let phase_raw = take_slot(&mut slots, 4);
    let scopes_raw = take_slot(&mut slots, 5);
    let visibility_raw = take_slot(&mut slots, 6);
    proof {
        reveal_strlit("id");
    }
    let id = require_value("id", id_raw)?;
    let id_string = string_from_chars(&id);
    if !is_valid_custom_transform_id(id_string.as_str()) {
        return Err(FrontmatterError::BadId(id));
    }
    let name = require_bounded("name", name_raw, 100, "100")?;
    let description = require_bounded("description", description_raw, 500, "500")?;
    let author = require_bounded("author", author_raw, 100, "100")?;
    let phases = phases_exec(phase_raw)?;
    let scopes = scopes_exec(scopes_raw)?;
    let visibility = visibility_exec(visibility_raw)?;
    Ok(
        CustomTransformMeta {
            id: id_string,
            name: string_from_chars(&name),
            description: string_from_chars(&description),
            author: string_from_chars(&author),
            phases,
            scopes,
            visibility,
        },
    )
}

/// Parses the frontmatter block; the error is a human-readable rejection
/// reason.
pub fn parse_frontmatter(source: &str) -> (r: Result<CustomTransformMeta, String>)
    ensures
        match r {
            Ok(meta) => frontmatter_spec(source@) == Ok::<MetaSpec, FrontmatterErrorSpec>(meta.spec_meta()),
            Err(m) => frontmatter_spec(source@) matches Err(e) && m@ == frontmatter_message(e),
        },
{
    match parse_frontmatter_checked(source) {
        Ok(meta) => Ok(meta),
        Err(e) => Err(e.message()),
    }
}

} // verus!
