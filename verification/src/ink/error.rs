//! Errors coming back out of Ink.

use vstd::prelude::*;

use crate::text::{owned, push_str};

verus! {

/// The kind of failure Ink reported.
///
/// These mirror the status codes Ink actually returns. By far the most
/// common is [`ErrorKind::InvalidArgument`]: it covers a brush size that is
/// not finite and positive, stroke inputs that go backwards in time, and
/// inputs that disagree about which optional fields they carry.
#[derive(Debug, Clone, Copy, PartialEq, Eq, Hash, Structural)]
#[non_exhaustive]
pub enum ErrorKind {
    /// An argument was outside the range Ink accepts.
    InvalidArgument,
    /// The object was not in a state where the call made sense, such as
    /// updating the shape of a stroke that was never started.
    FailedPrecondition,
    /// An index was past the end.
    OutOfRange,
    /// Something Ink knows about but has not implemented.
    Unimplemented,
    /// A lookup found nothing.
    NotFound,
    /// Ink hit an internal inconsistency.
    Internal,
    /// Anything else, including a status code this crate does not know yet.
    Unknown,
}

/// The kind a non-zero status code stands for.
pub open spec fn kind_of_status(code: i32) -> ErrorKind {
    if code == 3 {
        ErrorKind::InvalidArgument
    } else if code == 5 {
        ErrorKind::NotFound
    } else if code == 9 {
        ErrorKind::FailedPrecondition
    } else if code == 11 {
        ErrorKind::OutOfRange
    } else if code == 12 {
        ErrorKind::Unimplemented
    } else if code == 13 {
        ErrorKind::Internal
    } else {
        ErrorKind::Unknown
    }
}

/// How a kind of failure is described.
pub open spec fn kind_description(kind: ErrorKind) -> Seq<char> {
    match kind {
        ErrorKind::InvalidArgument => "invalid argument"@,
        ErrorKind::FailedPrecondition => "failed precondition"@,
        ErrorKind::OutOfRange => "out of range"@,
        ErrorKind::Unimplemented => "unimplemented"@,
        ErrorKind::NotFound => "not found"@,
        ErrorKind::Internal => "internal error"@,
        ErrorKind::Unknown => "error"@,
    }
}

impl ErrorKind {
    /// The kind a non-zero status code stands for.
    pub fn from_status(code: i32) -> (kind: ErrorKind)
        ensures
            kind == kind_of_status(code),
    {
        match code {
            3 => ErrorKind::InvalidArgument,
            5 => ErrorKind::NotFound,
            9 => ErrorKind::FailedPrecondition,
            11 => ErrorKind::OutOfRange,
            12 => ErrorKind::Unimplemented,
            13 => ErrorKind::Internal,
            _ => ErrorKind::Unknown,
        }
    }

    /// A short description of the kind of failure.
    pub fn describe(self) -> (text: &'static str)
        ensures
            text@ == kind_description(self),
    {
        match self {
            ErrorKind::InvalidArgument => "invalid argument",
            ErrorKind::FailedPrecondition => "failed precondition",
            ErrorKind::OutOfRange => "out of range",
            ErrorKind::Unimplemented => "unimplemented",
            ErrorKind::NotFound => "not found",
            ErrorKind::Internal => "internal error",
            ErrorKind::Unknown => "error",
        }
    }
}

/// A failure reported by Ink, with the message it came with.
#[derive(Debug, Clone, PartialEq, Eq)]
pub struct Error {
    kind: ErrorKind,
    message: String,
}

/// How an error reads: the description alone when there is no message,
/// else the description, a colon and the message.
pub open spec fn error_text(kind: ErrorKind, message: Seq<char>) -> Seq<char> {
    if message.len() == 0 {
        kind_description(kind)
    } else {
        kind_description(kind) + ": "@ + message
    }
}

impl Error {
    pub closed spec fn spec_kind(&self) -> ErrorKind {
        self.kind
    }

    pub closed spec fn spec_message(&self) -> Seq<char> {
        self.message@
    }

    pub fn new(kind: ErrorKind, message: &str) -> (e: Error)
        ensures
            e.spec_kind() == kind,
            e.spec_message() == message@,
    {
        Error { kind, message: owned(message) }
    }

    /// What sort of failure this was.
    pub fn kind(&self) -> (k: ErrorKind)
        ensures
            k == self.spec_kind(),
    {
        self.kind
    }

    /// Ink's own description of the failure. May be empty.
    pub fn message(&self) -> (m: &str)
        ensures
            m@ == self.spec_message(),
    {
        self.message.as_str()
    }

    /// The message, as `Display` gives it.
    pub fn to_string(&self) -> (s: String)
        ensures
            s@ == error_text(self.spec_kind(), self.spec_message()),
    {
        let mut s = String::new();
        push_str(&mut s, self.kind.describe());
        if self.message.as_str().unicode_len() != 0 {
            push_str(&mut s, ": ");
            push_str(&mut s, self.message.as_str());
        }
        s
    }
}

/// What a status code returned by Ink says: success for zero, else an error
/// of the kind the code stands for, carrying the message Ink recorded.
pub fn check(code: i32, message: &str) -> (r: Result<(), Error>)
    ensures
        r is Ok <==> code == 0,
        r matches Err(e) ==> e.spec_kind() == kind_of_status(code) && e.spec_message() == message@,
{
    if code == 0 {
        return Ok(());
    }
    Err(Error::new(ErrorKind::from_status(code), message))
}

} // verus!
