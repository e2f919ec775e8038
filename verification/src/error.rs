//! The error that a rejected action is answered with.

use vstd::prelude::*;

verus! {

/// What went wrong, in broad terms.
#[derive(Debug, Clone, Copy, PartialEq, Eq, Structural)]
pub enum ErrorKind {
    /// The request does not fit the table it is made on.
    DataInvalid,
}

/// An error with its kind and a message for the user.
#[derive(Debug, Clone)]
pub struct Error {
    kind: ErrorKind,
    message: String,
}

/// What an [`Error`] says.
pub struct ErrorView {
    pub kind: ErrorKind,
    pub message: Seq<char>,
}

impl View for Error {
    type V = ErrorView;

    closed spec fn view(&self) -> ErrorView {
        ErrorView { kind: self.kind, message: self.message@ }
    }
}

/// The error of kind [`ErrorKind::DataInvalid`] with the given message.
pub open spec fn data_invalid(message: Seq<char>) -> ErrorView {
    ErrorView { kind: ErrorKind::DataInvalid, message }
}

impl Error {
    /// An error of the given kind with the given message.
    pub fn new(kind: ErrorKind, message: String) -> (r: Error)
        ensures
            r@ == (ErrorView { kind, message: message@ }),
    {
        Error { kind, message }
    }

    /// The kind of the error.
    pub fn kind(&self) -> (r: ErrorKind)
        ensures
            r == self@.kind,
    {
        self.kind
    }

    /// The message of the error.
    pub fn message(&self) -> (r: &str)
        ensures
            r@ == self@.message,
    {
        self.message.as_str()
    }
}

/// An error about invalid data says the message that it is given, whole and
/// unchanged, and is of no other kind.
pub proof fn law_error_says_its_message(message: Seq<char>)
    ensures
        data_invalid(message).message == message,
        data_invalid(message).kind == ErrorKind::DataInvalid,
{
}

} // verus!
