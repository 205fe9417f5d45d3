//! The API error shape returned to clients: an HTTP status, a machine code,
//! a message, an error type and an optional offending parameter.
use crate::text::string_of;
use vstd::prelude::*;

verus! {

pub const STATUS_BAD_REQUEST: u16 = 400;

pub const STATUS_UNAUTHORIZED: u16 = 401;

pub const STATUS_PAYMENT_REQUIRED: u16 = 402;

pub const STATUS_FORBIDDEN: u16 = 403;

pub const STATUS_NOT_FOUND: u16 = 404;

pub const STATUS_CONFLICT: u16 = 409;

pub const STATUS_UNPROCESSABLE_ENTITY: u16 = 422;

pub const STATUS_TOO_MANY_REQUESTS: u16 = 429;

pub const STATUS_INTERNAL_SERVER_ERROR: u16 = 500;

pub const STATUS_BAD_GATEWAY: u16 = 502;

pub const STATUS_SERVICE_UNAVAILABLE: u16 = 503;

pub const STATUS_GATEWAY_TIMEOUT: u16 = 504;

/// An error answered to an API client.
#[derive(Debug, Clone)]
pub struct AppError {
    pub status: u16,
    pub code: String,
    pub message: String,
    pub error_type: String,
    pub param: Option<String>,
}

impl AppError {
    /// An `invalid_request_error` with no parameter.
    pub fn new(status: u16, code: String, message: String) -> (r: Self)
        ensures
            r.status == status,
            r.code@ == code@,
            r.message@ == message@,
            r.error_type@ == "invalid_request_error"@,
            r.param is None,
    {
        AppError { status, code, message, error_type: string_of("invalid_request_error"), param: None }
    }

    /// The same error with another error type.
    pub fn with_type(self, error_type: String) -> (r: Self)
        ensures
            r.status == self.status,
            r.code@ == self.code@,
            r.message@ == self.message@,
            r.error_type@ == error_type@,
            r.param == self.param,
    {
        let mut e = self;
        e.error_type = error_type;
        e
    }

    /// The same error naming the offending parameter.
    pub fn with_param(self, param: String) -> (r: Self)
        ensures
            r.status == self.status,
            r.code@ == self.code@,
            r.message@ == self.message@,
            r.error_type@ == self.error_type@,
            r.param == Some(param),
    {
        let mut e = self;
        e.param = Some(param);
        e
    }
}

/// An error built from literal code and message.
pub fn app_error(status: u16, code: &str, message: &str) -> (r: AppError)
    ensures
        r.status == status,
        r.code@ == code@,
        r.message@ == message@,
        r.error_type@ == "invalid_request_error"@,
        r.param is None,
{
    AppError::new(status, string_of(code), string_of(message))
}

} // verus!
