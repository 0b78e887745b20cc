//! The error-response body handed back for a failed request: a status code
//! and a message, the latter falling back to a fixed phrase where the status
//! has no registered reason.

use vstd::prelude::*;

verus! {

/// The inner payload: the numeric status code and its message.
#[derive(Debug)]
pub struct JsonError {
    pub code: u16,
    pub message: String,
}

/// The whole response body.
#[derive(Debug)]
pub struct ErrorResponse {
    pub error: JsonError,
}

impl ErrorResponse {
    /// Builds the body for a status code, with the status's own reason where
    /// one is known and a fixed phrase otherwise.
    pub fn for_status(code: u16, reason: Option<String>) -> (r: ErrorResponse)
        ensures
            r.error.code == code,
            match reason {
                Some(m) => r.error.message@ == m@,
                None => r.error.message@ == "Something went wrong"@,
            },
    {
        let message = match reason {
            Some(m) => m,
            None => "Something went wrong".to_owned(),
        };
        ErrorResponse { error: JsonError { code, message } }
    }
}

} // verus!
