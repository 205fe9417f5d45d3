//! Database connection strings: which backend a DSN selects, whether a
//! SQLite DSN is in memory, how a SQLite file DSN is opened, and which file
//! a SQLite DSN needs to exist.
use vstd::prelude::*;
use crate::text::{
    chars_of, concat_chars_lit, contains_lit, contains_seq, find_char, find_char_from,
    lemma_find_char_bounds, push_chars, slice_vec, starts_with_lit, string_from_chars, string_of,
    strip_leading_all, strip_leading_all_vec, trim, trim_vec,
};

verus! {

/// The database engines the service can use.
#[derive(Clone, Copy, Debug, PartialEq, Eq, Structural)]
pub enum DbBackend {
    Sqlite,
    Postgres,
}

/// Whether `s` starts with `p`.
pub open spec fn has_prefix(s: Seq<char>, p: Seq<char>) -> bool {
    p.len() <= s.len() && s.take(p.len() as int) == p
}

/// The backend a DSN selects, by its scheme once trimmed; any other scheme
/// is refused with `unsupported database DSN scheme: <dsn>`.
pub open spec fn backend_of(dsn: Seq<char>) -> Result<DbBackend, Seq<char>> {
    let t = trim(dsn);
    if has_prefix(t, "sqlite://"@) || has_prefix(t, "sqlite::memory:"@) {
        Ok(DbBackend::Sqlite)
    } else if has_prefix(t, "postgres://"@) || has_prefix(t, "postgresql://"@) {
        Ok(DbBackend::Postgres)
    } else {
        Err("unsupported database DSN scheme: "@ + t)
    }
}

/// The backend a DSN selects.
pub fn dsn_backend(dsn: &str) -> (r: Result<DbBackend, String>)
    ensures
        match backend_of(dsn@) {
            Ok(b) => r == Ok::<DbBackend, String>(b),
            Err(m) => r matches Err(e) && e@ == m,
        },
{
    let t = trim_vec(&chars_of(dsn));
    if starts_with_lit(&t, "sqlite://") || starts_with_lit(&t, "sqlite::memory:") {
        Ok(DbBackend::Sqlite)
    } else if starts_with_lit(&t, "postgres://") || starts_with_lit(&t, "postgresql://") {
        Ok(DbBackend::Postgres)
    } else {
        let mut m = string_of("unsupported database DSN scheme: ");
        push_chars(&mut m, &t);
        Err(m)
    }
}

/// Whether a SQLite DSN names an in-memory database.
pub open spec fn memory_dsn(dsn: Seq<char>) -> bool {
    let t = trim(dsn);
    has_prefix(t, "sqlite::memory:"@) || contains_seq(t, ":memory:"@) || contains_seq(t, "mode=memory"@)
}

/// Whether a SQLite DSN names an in-memory database.
pub fn is_sqlite_memory_dsn(dsn: &str) -> (r: bool)
    ensures
        r == memory_dsn(dsn@),
{
    let t = trim_vec(&chars_of(dsn));
    starts_with_lit(&t, "sqlite::memory:") || contains_lit(&t, ":memory:") || contains_lit(&t, "mode=memory")
}

/// The DSN a SQLite file database is opened with: as given when it carries
/// options, else with `?mode=rwc` so that a missing file is created.
pub fn sqlite_file_dsn(dsn: &str) -> (r: String)
    ensures
        r@ == (if contains_seq(dsn@, "?"@) {
            dsn@
        } else {
            dsn@ + "?mode=rwc"@
        }),
{
    let v = chars_of(dsn);
    if contains_lit(&v, "?") {
        string_of(dsn)
    } else {
        concat_chars_lit(&v, "?mode=rwc")
    }
}

/// The file a SQLite DSN needs on disk: for a trimmed `sqlite://` DSN that
/// is not in memory, what follows the scheme (all leading copies removed) up
/// to the first `?`, unless that is empty.
pub open spec fn sqlite_file_of(dsn: Seq<char>) -> Option<Seq<char>> {
    let t = trim(dsn);
    if !has_prefix(t, "sqlite://"@) || contains_seq(t, ":memory:"@) || contains_seq(t, "mode=memory"@) {
        None
    } else {
        let rest = strip_leading_all(t, "sqlite://"@);
        let path = match find_char_from(rest, '?', 0) {
            Some(k) => rest.take(k),
            None => rest,
        };
        if path.len() == 0 {
            None
        } else {
            Some(path)
        }
    }
}

/// The file a SQLite DSN needs on disk, if any.
pub fn sqlite_file_path(dsn: &str) -> (r: Option<String>)
    ensures
        match sqlite_file_of(dsn@) {
            Some(p) => r matches Some(s) && s@ == p,
            None => r is None,
        },
{
    let t = trim_vec(&chars_of(dsn));
    if !starts_with_lit(&t, "sqlite://") || contains_lit(&t, ":memory:") || contains_lit(&t, "mode=memory") {
        return None;
    }
    let rest = strip_leading_all_vec(&t, "sqlite://");
    proof {
        lemma_find_char_bounds(rest@, '?', 0);
    }
    let path = match find_char(&rest, '?', 0) {
        Some(k) => slice_vec(&rest, 0, k),
        None => slice_vec(&rest, 0, rest.len()),
    };
    proof {
        assert(rest@.subrange(0, rest@.len() as int) =~= rest@);
    }
    if path.len() == 0 {
        None
    } else {
        Some(string_from_chars(&path))
    }
}

/// Whether `c` is an ASCII digit.
pub open spec fn is_digit(c: char) -> bool {
    '0' <= c && c <= '9'
}

/// The SQL text a statement is sent with: for SQLite, every `$` directly
/// followed by a digit becomes `?` (so `$N` placeholders become `?N`);
/// other backends take the text as written.
pub open spec fn statement_sql(backend: DbBackend, sql: Seq<char>) -> Seq<char> {
    if backend == DbBackend::Sqlite {
        Seq::new(
            sql.len(),
            |i: int|
                if sql[i] == '$' && i + 1 < sql.len() && is_digit(sql[i + 1]) {
                    '?'
                } else {
                    sql[i]
                },
        )
    } else {
        sql
    }
}

/// The SQL text of a statement for `backend` (see [`statement_sql`]).
pub fn statement_text(backend: DbBackend, sql: &str) -> (r: String)
    ensures
        r@ == statement_sql(backend, sql@),
{
    if backend != DbBackend::Sqlite {
        return sql.to_owned();
    }
    let cs = chars_of(sql);
    let mut out: Vec<char> = Vec::new();
    let mut i: usize = 0;
    while i < cs.len()
        invariant
            i <= cs@.len(),
            cs@ == sql@,
            backend == DbBackend::Sqlite,
            out@ == statement_sql(backend, sql@).take(i as int),
        decreases cs@.len() - i,
    {
        let c = cs[i];
        let next_digit = i + 1 < cs.len() && '0' <= cs[i + 1] && cs[i + 1] <= '9';
        if c == '$' && next_digit {
            out.push('?');
        } else {
            out.push(c);
        }
        proof {
            assert(out@ =~= statement_sql(backend, sql@).take(i + 1));
        }
        i += 1;
    }
    proof {
        assert(statement_sql(backend, sql@).take(cs@.len() as int) =~= statement_sql(backend, sql@));
    }
    string_from_chars(&out)
}

} // verus!
