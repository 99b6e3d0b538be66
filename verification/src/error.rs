//! The service's error taxonomy: bad input from the user, trouble on the
//! server, and the distinguished geographic case of a trip outside every
//! covered area.

use vstd::prelude::*;

verus! {

#[derive(Debug, Clone, Copy, PartialEq, Eq, Structural)]
pub enum ErrorType {
    /// Bad user input.
    User,
    /// Something went wrong on the server.
    Server,
    /// The requested trip area is not covered by any routing graph.
    NoCoverageForArea,
}

impl ErrorType {
    /// The numeric code each error type is reported under.
    pub fn code(&self) -> (r: u32)
        ensures
            r == self.spec_code(),
    {
        match self {
            ErrorType::User => 400,
            ErrorType::Server => 500,
            ErrorType::NoCoverageForArea => 1701,
        }
    }

    pub open spec fn spec_code(self) -> u32 {
        match self {
            ErrorType::User => 400,
            ErrorType::Server => 500,
            ErrorType::NoCoverageForArea => 1701,
        }
    }

    /// The error type a numeric code names; codes name types one-to-one.
    pub fn from_code(value: u32) -> (r: Option<ErrorType>)
        ensures
            r is Some <==> (value == 400 || value == 500 || value == 1701),
            r is Some ==> r.unwrap().spec_code() == value,
    {
        match value {
            400 => Some(ErrorType::User),
            500 => Some(ErrorType::Server),
            1701 => Some(ErrorType::NoCoverageForArea),
            _ => None,
        }
    }
}

/// A service error: its type, and the message of whatever failed.
#[derive(Debug, Clone, PartialEq, Eq)]
pub struct Error {
    pub error_type: ErrorType,
    pub message: String,
}

impl Error {
    /// An error with some logic or state on the service; the user can do
    /// little but try again later.
    pub fn server(message: String) -> (r: Self)
        ensures
            r.error_type == ErrorType::Server,
            r.message == message,
    {
        Self { error_type: ErrorType::Server, message }
    }

    /// An error with meaningful output for the user: invalid input, or a
    /// request the server does not support.
    pub fn user(message: String) -> (r: Self)
        ensures
            r.error_type == ErrorType::User,
            r.message == message,
    {
        Self { error_type: ErrorType::User, message }
    }

    /// The same error filed under another type.
    pub fn error_type(self, error_type: ErrorType) -> (r: Self)
        ensures
            r.error_type == error_type,
            r.message == self.message,
    {
        Self { error_type, message: self.message }
    }
}

} // verus!
