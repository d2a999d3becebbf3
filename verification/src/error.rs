//! Outcomes that handlers report, and the HTTP status each one maps to.

use vstd::prelude::*;

verus! {

/// The HTTP statuses this service answers with.
#[derive(Clone, Copy, Debug, PartialEq, Eq, Structural)]
pub enum Status {
    /// 200
    Success,
    /// 404
    NotFound,
    /// 500
    InternalServerError,
    /// 503
    ServiceUnavailable,
    /// 507
    InsufficientStorage,
}

impl Status {
    /// The numeric code of the status.
    pub open spec fn spec_code(self) -> u16 {
        match self {
            Status::Success => 200,
            Status::NotFound => 404,
            Status::InternalServerError => 500,
            Status::ServiceUnavailable => 503,
            Status::InsufficientStorage => 507,
        }
    }

    /// The numeric code of the status.
    #[verifier::when_used_as_spec(spec_code)]
    pub fn code(self) -> (code: u16)
        ensures
            code == self.spec_code(),
    {
        match self {
            Status::Success => 200,
            Status::NotFound => 404,
            Status::InternalServerError => 500,
            Status::ServiceUnavailable => 503,
            Status::InsufficientStorage => 507,
        }
    }

    /// Whether the code lies in 200..=299.
    pub fn is_success(self) -> (yes: bool)
        ensures
            yes == (200 <= self.spec_code() <= 299),
    {
        match self {
            Status::Success => true,
            _ => false,
        }
    }
}

/// Either a status chosen on purpose, or a failure whose cause is kept for
/// the log and never shown to the client.
#[derive(Debug)]
pub enum ErrorOption {
    /// A status that a handler decided on.
    Status(Status),
    /// An unexpected failure, with its description.
    Failure(String),
}

impl ErrorOption {
    /// The status a client sees: the chosen one, or 500 for any failure.
    pub open spec fn spec_status(self) -> Status {
        match self {
            ErrorOption::Status(status) => status,
            ErrorOption::Failure(_) => Status::InternalServerError,
        }
    }

    /// Wraps a status that was chosen on purpose.
    pub fn from_status(status: Status) -> (wrapped: ErrorOption)
        ensures
            wrapped == ErrorOption::Status(status),
    {
        ErrorOption::Status(status)
    }

    /// Wraps the description of an unexpected failure.
    pub fn from_failure(cause: String) -> (wrapped: ErrorOption)
        ensures
            wrapped == ErrorOption::Failure(cause),
    {
        ErrorOption::Failure(cause)
    }

    /// The status a client sees: the chosen one, or 500 for any failure.
    pub fn status(&self) -> (status: Status)
        ensures
            status == self.spec_status(),
    {
        match self {
            ErrorOption::Status(status) => *status,
            ErrorOption::Failure(_) => Status::InternalServerError,
        }
    }
}

} // verus!
