//! The closed failure taxonomy shared by every client adapter.
//!
//! Every adapter operation returns either a success value or exactly one of
//! these three kinds; no raw transport failure escapes an adapter boundary.

use vstd::prelude::*;

verus! {

/// One of the three failure kinds a gateway operation can report.
///
/// - `ExternalService`: the downstream service was unreachable, returned a
///   non-success status, or returned a payload that failed to parse.
/// - `BadRequest`: the caller's input failed validation before any outbound
///   call was made.
/// - `NotFound`: a lookup by identifier found zero matching records.
#[derive(Debug, Clone)]
pub enum AppError {
    ExternalService(String),
    BadRequest(String),
    NotFound(String),
}

/// The transport status code each taxonomy kind maps to.
pub open spec fn spec_status_code(e: AppError) -> u16 {
    match e {
        AppError::ExternalService(_) => 502,
        AppError::BadRequest(_) => 400,
        AppError::NotFound(_) => 404,
    }
}

/// The human-readable form of an error: a fixed per-kind prefix followed by
/// the detail text.
pub open spec fn spec_describe(e: AppError) -> Seq<char> {
    match e {
        AppError::ExternalService(d) => "External service error: "@ + d@,
        AppError::BadRequest(d) => "Bad request: "@ + d@,
        AppError::NotFound(d) => "Not found: "@ + d@,
    }
}

impl AppError {
    /// The single status-code mapping table the router applies, regardless of
    /// which backend produced the failure.
    pub fn status_code(&self) -> (code: u16)
        ensures
            code == spec_status_code(*self),
    {
        match self {
            AppError::ExternalService(_) => 502,
            AppError::BadRequest(_) => 400,
            AppError::NotFound(_) => 404,
        }
    }

    /// The message body the router sends along with the status code.
    pub fn describe(&self) -> (msg: String)
        ensures
            msg@ == spec_describe(*self),
    {
        match self {
            AppError::ExternalService(d) => "External service error: ".to_owned().concat(d.as_str()),
            AppError::BadRequest(d) => "Bad request: ".to_owned().concat(d.as_str()),
            AppError::NotFound(d) => "Not found: ".to_owned().concat(d.as_str()),
        }
    }

    /// The detail text carried by any of the three kinds.
    pub fn detail(&self) -> (d: &String)
        ensures
            *self matches AppError::ExternalService(x) ==> d == x,
            *self matches AppError::BadRequest(x) ==> d == x,
            *self matches AppError::NotFound(x) ==> d == x,
    {
        match self {
            AppError::ExternalService(d) => d,
            AppError::BadRequest(d) => d,
            AppError::NotFound(d) => d,
        }
    }
}

} // verus!
