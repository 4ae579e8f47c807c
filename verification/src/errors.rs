//! The error that a refused statement is answered with.

use vstd::prelude::*;

verus! {

#[derive(Debug, Clone, Copy, PartialEq, Eq, Structural)]
pub enum ErrorKind {
    NotFound,
    AlreadyExists,
    PermissionDenied,
    InvalidInput,
    InvalidData,
    Other,
}

/// An error: its kind, and the message shown to the user.
#[derive(Debug, PartialEq)]
pub struct DbError {
    pub kind: ErrorKind,
    pub message: String,
}

#[verifier::ext_equal]
pub ghost struct ErrorView {
    pub kind: ErrorKind,
    pub message: Seq<char>,
}

impl View for DbError {
    type V = ErrorView;

    open spec fn view(&self) -> ErrorView {
        ErrorView { kind: self.kind, message: self.message@ }
    }
}

/// The view of an error with this kind and message.
pub open spec fn error(kind: ErrorKind, message: Seq<char>) -> ErrorView {
    ErrorView { kind, message }
}

} // verus!
