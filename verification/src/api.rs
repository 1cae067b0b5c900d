//! The error every handler answers with: an HTTP status and a message.
use vstd::prelude::*;

verus! {

/// An API error: the status code and the message sent to the client.
#[derive(Debug)]
pub struct ApiError {
    pub status: u16,
    pub message: String,
}

pub const BAD_REQUEST: u16 = 400;
pub const FORBIDDEN: u16 = 403;
pub const NOT_FOUND: u16 = 404;
pub const CONFLICT: u16 = 409;
pub const PAYLOAD_TOO_LARGE: u16 = 413;
pub const INTERNAL: u16 = 500;
pub const BAD_GATEWAY: u16 = 502;
pub const SERVICE_UNAVAILABLE: u16 = 503;

impl ApiError {
    pub fn new(status: u16, message: &str) -> (e: ApiError)
        ensures
            e.status == status,
            e.message@ == message@,
    {
        ApiError { status, message: message.to_owned() }
    }
}

/// The error `status` with `message`, as a value to compare results with.
pub open spec fn api_error_is(e: ApiError, status: u16, message: Seq<char>) -> bool {
    e.status == status && e.message@ == message
}

} // verus!
