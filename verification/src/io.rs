//! Failed operations of the operating system, as plain values.
use vstd::prelude::*;
use vstd::string::*;

verus! {

/// The kinds of failure that decisions rest on.
#[derive(Debug, Clone, Copy, PartialEq, Eq, Structural)]
pub enum IoKind {
    /// Something does not exist.
    NotFound,
    /// Something is not permitted.
    PermissionDenied,
    /// Something exists already.
    AlreadyExists,
    /// The reader of a pipe is gone.
    BrokenPipe,
    /// The operation was interrupted.
    Interrupted,
    /// The operation would block.
    WouldBlock,
    /// An argument is not valid.
    InvalidInput,
    /// Data is not valid.
    InvalidData,
    /// Data ends too early.
    UnexpectedEof,
    /// Anything else.
    Other,
}

/// A failed operation.
#[derive(Debug, PartialEq, Eq)]
pub struct IoError {
    /// The kind of failure.
    pub kind: IoKind,
    /// The error number, where the failure has one.
    pub code: Option<i32>,
    /// The words for it.
    pub message: String,
}

/// What an [`IoError`] says.
pub struct IoErrorView {
    /// The kind of failure.
    pub kind: IoKind,
    /// The error number, where the failure has one.
    pub code: Option<i32>,
    /// The words for it.
    pub message: Seq<char>,
}

impl View for IoError {
    type V = IoErrorView;

    open spec fn view(&self) -> IoErrorView {
        IoErrorView { kind: self.kind, code: self.code, message: self.message@ }
    }
}

/// The text of an error behind some words.
pub open spec fn context(words: Seq<char>, message: Seq<char>) -> Seq<char> {
    words + ": "@ + message
}

/// Puts some words before the text of an error.
pub fn with_context(words: &str, message: &str) -> (r: String)
    ensures
        r@ == context(words@, message@),
{
    let mut s: String = words.to_owned();
    s.append(": ");
    s.append(message);
    s
}

} // verus!
