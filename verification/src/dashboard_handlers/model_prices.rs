//! Model-price endpoints: the model id a path names, the sync-run listing
//! size, and how a failed price sync is answered.
use vstd::prelude::*;
use crate::error::{AppError, STATUS_BAD_GATEWAY, STATUS_BAD_REQUEST, STATUS_INTERNAL_SERVER_ERROR};
use crate::text::{chars_of, slice_vec, string_from_chars, string_of};

verus! {

/// Query of the sync-run listing.
#[derive(Clone, Debug)]
pub struct PriceSyncRunsQuery {
    pub limit: Option<u64>,
}

/// How many sync runs a listing asks for: the given limit, else 20.
pub fn price_sync_runs_limit(query: &PriceSyncRunsQuery) -> (r: u64)
    ensures
        r == (match query.limit {
            Some(l) => l,
            None => 20,
        }),
{
    match query.limit {
        Some(l) => l,
        None => 20,
    }
}

/// The model id a request path carries: the path with one leading `/`
/// removed (ids may themselves contain slashes).
pub open spec fn path_model_id(path: Seq<char>) -> Seq<char> {
    if path.len() > 0 && path[0] == '/' {
        path.skip(1)
    } else {
        path
    }
}

/// The model id named by a request path; `Err` when it is empty, which an
/// upsert refuses with 400 `invalid_request`.
pub fn model_price_path_id(path: &str) -> (r: Result<String, AppError>)
    ensures
        match r {
            Ok(id) => id@ == path_model_id(path@) && id@.len() > 0,
            Err(e) => path_model_id(path@).len() == 0 && e.status == 400 && e.code@
                == "invalid_request"@ && e.message@ == "model_id must not be empty"@,
        },
{
    let v = chars_of(path);
    let id = if v.len() > 0 && v[0] == '/' {
        slice_vec(&v, 1, v.len())
    } else {
        slice_vec(&v, 0, v.len())
    };
    proof {
        assert(v@.subrange(1, v@.len() as int) =~= v@.skip(1));
        assert(v@.subrange(0, v@.len() as int) =~= v@);
    }
    if id.len() == 0 {
        return Err(AppError::new(STATUS_BAD_REQUEST, string_of("invalid_request"), string_of("model_id must not be empty")));
    }
    Ok(string_from_chars(&id))
}

/// Why a price sync failed.
#[derive(Clone, Debug)]
pub enum PriceSyncError {
    InvalidRequest(String),
    Upstream(String),
    Storage(String),
}

/// The API error answered for a failed price sync: 400 `invalid_request`,
/// 502 `upstream_fetch_failed` or 500 `internal_error`, with its message.
pub fn map_sync_error(error: PriceSyncError) -> (r: AppError)
    ensures
        match error {
            PriceSyncError::InvalidRequest(m) => r.status == 400 && r.code@ == "invalid_request"@
                && r.message@ == m@,
            PriceSyncError::Upstream(m) => r.status == 502 && r.code@ == "upstream_fetch_failed"@
                && r.message@ == m@,
            PriceSyncError::Storage(m) => r.status == 500 && r.code@ == "internal_error"@
                && r.message@ == m@,
        },
{
    match error {
        PriceSyncError::InvalidRequest(message) => AppError::new(STATUS_BAD_REQUEST, string_of("invalid_request"), message),
        PriceSyncError::Upstream(message) => AppError::new(STATUS_BAD_GATEWAY, string_of("upstream_fetch_failed"), message),
        PriceSyncError::Storage(message) => AppError::new(STATUS_INTERNAL_SERVER_ERROR, string_of("internal_error"), message),
    }
}

} // verus!
