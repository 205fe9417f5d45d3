//! Request-log listing and usage analytics: queries and their bounds.
use vstd::prelude::*;
use crate::users::{manages_users, UserRole};

verus! {

/// Query of a request-log listing, with an optional time window.
#[derive(Clone, Debug)]
pub struct RequestLogsQuery {
    pub limit: i64,
    pub offset: i64,
    pub model: Option<String>,
    pub status: Option<String>,
    pub api_key_id: Option<String>,
    pub username: Option<String>,
    pub search: Option<String>,
    pub time_from: Option<String>,
    pub time_to: Option<String>,
}

/// Page size of a request-log listing that names none.
pub fn default_logs_limit() -> (r: i64)
    ensures
        r == 50,
{
    50
}

/// Query of the analytics view: how many buckets, over how many hours.
#[derive(Clone, Debug)]
pub struct AnalyticsQuery {
    pub buckets: i64,
    pub range_hours: i64,
}

/// Buckets of an analytics query that names none.
pub fn default_analytics_buckets() -> (r: i64)
    ensures
        r == 8,
{
    8
}

/// Hours covered by an analytics query that names none.
pub fn default_analytics_range_hours() -> (r: i64)
    ensures
        r == 24,
{
    24
}

/// `x` clamped to `lo..=hi`.
pub open spec fn clamped(x: int, lo: int, hi: int) -> int {
    if x < lo {
        lo
    } else if x > hi {
        hi
    } else {
        x
    }
}

/// The window an analytics query reads: 1 to 48 buckets over 1 to 720 hours.
pub fn analytics_window(query: &AnalyticsQuery) -> (r: (i64, i64))
    ensures
        r.0 == clamped(query.buckets as int, 1, 48),
        r.1 == clamped(query.range_hours as int, 1, 720),
{
    let b = if query.buckets < 1 {
        1
    } else if query.buckets > 48 {
        48
    } else {
        query.buckets
    };
    let h = if query.range_hours < 1 {
        1
    } else if query.range_hours > 720 {
        720
    } else {
        query.range_hours
    };
    (b, h)
}

/// The page a request-log listing reads: the limit clamped to 1..=200, the
/// offset raised to at least 0.
pub fn request_logs_window(query: &RequestLogsQuery) -> (r: (i64, i64))
    ensures
        r.0 == clamped(query.limit as int, 1, 200),
        r.1 == (if query.offset < 0 {
            0
        } else {
            query.offset as int
        }),
{
    crate::dashboard_handlers::request_logs_page(query.limit, query.offset)
}

/// Whose usage a dashboard user sees: administrators see everyone's (no
/// filter), every other user only their own.
pub fn usage_owner_filter(role: UserRole, user_id: &str) -> (r: Option<String>)
    ensures
        manages_users(role) ==> r is None,
        !manages_users(role) ==> (r matches Some(id) && id@ == user_id@),
{
    if role.can_manage_users() {
        None
    } else {
        Some(user_id.to_owned())
    }
}

} // verus!
