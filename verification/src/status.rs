//! The outcome of a traced operation: a canonical code with an optional
//! free-text description.
use vstd::prelude::*;

verus! {

/// The closed set of canonical outcome codes; `Ok` is the default.
#[derive(Debug, PartialEq, Eq, Clone, Copy, Structural)]
pub enum CanonicalCode {
    Okay,
    Cancelled,
    Unknown,
    Argument,
    DeadlineExceeded,
    NotFound,
    AlreadyExists,
    PermissionDenied,
    ResourceExhausted,
    FailedPrecondition,
    Aborted,
    OutOfRange,
    Unimplemented,
    Internal,
    Unavailable,
    DataLoss,
    Unauthenticated,
}

/// A canonical code plus an optional description.
#[derive(Debug, PartialEq, Eq)]
pub struct Status {
    canonical_code: CanonicalCode,
    description: Option<String>,
}

impl Clone for Status {
    fn clone(&self) -> (r: Self)
        ensures
            r.code() == self.code(),
            r.spec_description() is Some <==> self.spec_description() is Some,
            r.spec_description() is Some ==> r.spec_description().unwrap()@
                == self.spec_description().unwrap()@,
    {
        let description = match &self.description {
            None => None,
            Some(d) => Some(d.clone()),
        };
        Status { canonical_code: self.canonical_code, description }
    }
}

impl Status {
    /// The status's canonical code.
    pub closed spec fn code(self) -> CanonicalCode {
        self.canonical_code
    }

    /// The status's description, if one was attached.
    pub closed spec fn spec_description(self) -> Option<String> {
        self.description
    }

    /// The same status with a description attached.
    pub fn with_description(self, description: String) -> (r: Self)
        ensures
            r.code() == self.code(),
            r.spec_description() == Some(description),
    {
        Status { canonical_code: self.canonical_code, description: Some(description) }
    }

    /// The description's text, if one was attached.
    pub fn description(&self) -> (r: Option<&String>)
        ensures
            r is Some <==> self.spec_description() is Some,
            r is Some ==> *r.unwrap() == self.spec_description().unwrap(),
    {
        self.description.as_ref()
    }

    /// The status's canonical code.
    pub fn canonical_code(&self) -> (r: CanonicalCode)
        ensures
            r == self.code(),
    {
        self.canonical_code
    }

    pub fn ok() -> (r: Self)
        ensures
            r.code() == CanonicalCode::Okay,
            r.spec_description() is None,
    {
        Status { canonical_code: CanonicalCode::Okay, description: None }
    }

    pub fn cancelled() -> (r: Self)
        ensures
            r.code() == CanonicalCode::Cancelled,
            r.spec_description() is None,
    {
        Status { canonical_code: CanonicalCode::Cancelled, description: None }
    }

    pub fn unknown() -> (r: Self)
        ensures
            r.code() == CanonicalCode::Unknown,
            r.spec_description() is None,
    {
        Status { canonical_code: CanonicalCode::Unknown, description: None }
    }

    pub fn argument() -> (r: Self)
        ensures
            r.code() == CanonicalCode::Argument,
            r.spec_description() is None,
    {
        Status { canonical_code: CanonicalCode::Argument, description: None }
    }

    pub fn deadline_exceeded() -> (r: Self)
        ensures
            r.code() == CanonicalCode::DeadlineExceeded,
            r.spec_description() is None,
    {
        Status { canonical_code: CanonicalCode::DeadlineExceeded, description: None }
    }

    pub fn not_found() -> (r: Self)
        ensures
            r.code() == CanonicalCode::NotFound,
            r.spec_description() is None,
    {
        Status { canonical_code: CanonicalCode::NotFound, description: None }
    }

    pub fn already_exists() -> (r: Self)
        ensures
            r.code() == CanonicalCode::AlreadyExists,
            r.spec_description() is None,
    {
        Status { canonical_code: CanonicalCode::AlreadyExists, description: None }
    }

    pub fn permission_denied() -> (r: Self)
        ensures
            r.code() == CanonicalCode::PermissionDenied,
            r.spec_description() is None,
    {
        Status { canonical_code: CanonicalCode::PermissionDenied, description: None }
    }

    pub fn resource_exhausted() -> (r: Self)
        ensures
            r.code() == CanonicalCode::ResourceExhausted,
            r.spec_description() is None,
    {
        Status { canonical_code: CanonicalCode::ResourceExhausted, description: None }
    }

    pub fn failed_precondition() -> (r: Self)
        ensures
            r.code() == CanonicalCode::FailedPrecondition,
            r.spec_description() is None,
    {
        Status { canonical_code: CanonicalCode::FailedPrecondition, description: None }
    }

    pub fn aborted() -> (r: Self)
        ensures
            r.code() == CanonicalCode::Aborted,
            r.spec_description() is None,
    {
        Status { canonical_code: CanonicalCode::Aborted, description: None }
    }

    pub fn out_of_range() -> (r: Self)
        ensures
            r.code() == CanonicalCode::OutOfRange,
            r.spec_description() is None,
    {
        Status { canonical_code: CanonicalCode::OutOfRange, description: None }
    }

    pub fn unimplemented() -> (r: Self)
        ensures
            r.code() == CanonicalCode::Unimplemented,
            r.spec_description() is None,
    {
        Status { canonical_code: CanonicalCode::Unimplemented, description: None }
    }

    pub fn internal() -> (r: Self)
        ensures
            r.code() == CanonicalCode::Internal,
            r.spec_description() is None,
    {
        Status { canonical_code: CanonicalCode::Internal, description: None }
    }

    pub fn unavailable() -> (r: Self)
        ensures
            r.code() == CanonicalCode::Unavailable,
            r.spec_description() is None,
    {
        Status { canonical_code: CanonicalCode::Unavailable, description: None }
    }

    pub fn data_loss() -> (r: Self)
        ensures
            r.code() == CanonicalCode::DataLoss,
            r.spec_description() is None,
    {
        Status { canonical_code: CanonicalCode::DataLoss, description: None }
    }

    pub fn unauthenticated() -> (r: Self)
        ensures
            r.code() == CanonicalCode::Unauthenticated,
            r.spec_description() is None,
    {
        Status { canonical_code: CanonicalCode::Unauthenticated, description: None }
    }

    /// Whether the code is `Ok`, whatever the description says.
    pub fn is_ok(&self) -> (r: bool)
        ensures
            r == (self.code() == CanonicalCode::Okay),
    {
        match self.canonical_code {
            CanonicalCode::Okay => true,
            _ => false,
        }
    }
}

} // verus!
