//! Group registry endpoints: how a refused change is answered.
use vstd::prelude::*;
use crate::error::{app_error, AppError, STATUS_BAD_REQUEST, STATUS_CONFLICT, STATUS_INTERNAL_SERVER_ERROR, STATUS_NOT_FOUND};
use crate::text::string_of;
use crate::users::GroupStoreError;

verus! {

/// The status, code and message answered for a group-registry error.
pub open spec fn group_error_answer(e: GroupStoreError) -> (u16, Seq<char>, Seq<char>) {
    match e {
        GroupStoreError::NotFound => (404, "not_found"@, "group not found"@),
        GroupStoreError::NameExists => (409, "group_name_exists"@, "a group with this name already exists"@),
        GroupStoreError::InvalidName => (400, "invalid_group_name"@, "group name must be 1-64 characters after trimming"@),
        GroupStoreError::InvalidDescription => (400, "invalid_group_description"@, "group description must be at most 256 characters after trimming"@),
        GroupStoreError::InvalidBillingRatio => (400, "invalid_request"@, "billing_ratio must be a non-negative base-10 decimal string with at most 9 fractional digits"@),
        GroupStoreError::InvalidReorder(m) => (400, "invalid_request"@, m@),
        GroupStoreError::CannotDeleteDefault => (400, "cannot_delete_default_group"@, "the default group cannot be deleted"@),
        GroupStoreError::PlanRequiresGroup => (409, "group_required_by_plan"@, "a billing plan must retain at least one eligible group"@),
        GroupStoreError::Storage(m) => (500, "internal_error"@, m@),
    }
}

/// The API error answered for a group-registry error.
pub fn map_group_error(error: GroupStoreError) -> (r: AppError)
    ensures
        r.status == group_error_answer(error).0,
        r.code@ == group_error_answer(error).1,
        r.message@ == group_error_answer(error).2,
        r.error_type@ == "invalid_request_error"@,
        r.param is None,
{
    match error {
        GroupStoreError::NotFound => app_error(STATUS_NOT_FOUND, "not_found", "group not found"),
        GroupStoreError::NameExists => app_error(STATUS_CONFLICT, "group_name_exists", "a group with this name already exists"),
        GroupStoreError::InvalidName => app_error(STATUS_BAD_REQUEST, "invalid_group_name", "group name must be 1-64 characters after trimming"),
        GroupStoreError::InvalidDescription => app_error(STATUS_BAD_REQUEST, "invalid_group_description", "group description must be at most 256 characters after trimming"),
        GroupStoreError::InvalidBillingRatio => app_error(STATUS_BAD_REQUEST, "invalid_request", "billing_ratio must be a non-negative base-10 decimal string with at most 9 fractional digits"),
        GroupStoreError::InvalidReorder(message) => AppError::new(STATUS_BAD_REQUEST, string_of("invalid_request"), message),
        GroupStoreError::CannotDeleteDefault => app_error(STATUS_BAD_REQUEST, "cannot_delete_default_group", "the default group cannot be deleted"),
        GroupStoreError::PlanRequiresGroup => app_error(STATUS_CONFLICT, "group_required_by_plan", "a billing plan must retain at least one eligible group"),
        GroupStoreError::Storage(message) => AppError::new(STATUS_INTERNAL_SERVER_ERROR, string_of("internal_error"), message),
    }
}

} // verus!
