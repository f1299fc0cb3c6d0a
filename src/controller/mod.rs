//! Handlers for each namespace, and the domain errors they report.

use vstd::prelude::*;

pub mod comment;
pub mod mandela;
pub mod topic;
pub mod user;

verus! {

/// A recoverable failure, reported in the response envelope.
#[derive(PartialEq, Eq, Structural, Clone, Copy, Debug)]
pub enum ApiError {
    /// No user with that id, or the password does not match.
    WrongUserPassword,
    /// The parameters do not have the shape the operation expects.
    BadParams,
    /// The namespace of the method is not registered.
    UnknownMethod,
    /// The namespace has no such operation.
    UnknownOperation,
    /// No group has the given code.
    UnknownGroup,
    /// The requested row does not exist.
    NotFound,
    /// The listing filter is not one of the known modes.
    UnknownFilter,
    /// A referenced row does not exist.
    MissingReference,
    /// The store cannot take more rows.
    StoreFull,
    /// The current time could not be read.
    ClockUnavailable,
}

impl ApiError {
    pub open spec fn spec_code(self) -> i32 {
        match self {
            ApiError::WrongUserPassword => 1,
            ApiError::BadParams => 2,
            ApiError::UnknownMethod => 3,
            ApiError::UnknownOperation => 4,
            ApiError::UnknownGroup => 5,
            ApiError::NotFound => 6,
            ApiError::UnknownFilter => 7,
            ApiError::MissingReference => 8,
            ApiError::StoreFull => 9,
            ApiError::ClockUnavailable => 10,
        }
    }

    /// The stable numeric code of this error.
    #[verifier::when_used_as_spec(spec_code)]
    pub fn code(self) -> (r: i32)
        ensures
            r == self.spec_code(),
    {
        match self {
            ApiError::WrongUserPassword => 1,
            ApiError::BadParams => 2,
            ApiError::UnknownMethod => 3,
            ApiError::UnknownOperation => 4,
            ApiError::UnknownGroup => 5,
            ApiError::NotFound => 6,
            ApiError::UnknownFilter => 7,
            ApiError::MissingReference => 8,
            ApiError::StoreFull => 9,
            ApiError::ClockUnavailable => 10,
        }
    }

    pub open spec fn spec_message(self) -> Seq<char> {
        match self {
            ApiError::WrongUserPassword => "wrong user or password"@,
            ApiError::BadParams => "bad parameters"@,
            ApiError::UnknownMethod => "unknown method"@,
            ApiError::UnknownOperation => "unknown operation"@,
            ApiError::UnknownGroup => "unknown group code"@,
            ApiError::NotFound => "not found"@,
            ApiError::UnknownFilter => "unknown filter"@,
            ApiError::MissingReference => "referenced row does not exist"@,
            ApiError::StoreFull => "store is full"@,
            ApiError::ClockUnavailable => "clock unavailable"@,
        }
    }

    /// A human-readable description of this error.
    pub fn message(self) -> (r: &'static str)
        ensures
            r@ == self.spec_message(),
    {
        match self {
            ApiError::WrongUserPassword => "wrong user or password",
            ApiError::BadParams => "bad parameters",
            ApiError::UnknownMethod => "unknown method",
            ApiError::UnknownOperation => "unknown operation",
            ApiError::UnknownGroup => "unknown group code",
            ApiError::NotFound => "not found",
            ApiError::UnknownFilter => "unknown filter",
            ApiError::MissingReference => "referenced row does not exist",
            ApiError::StoreFull => "store is full",
            ApiError::ClockUnavailable => "clock unavailable",
        }
    }
}

} // verus!
