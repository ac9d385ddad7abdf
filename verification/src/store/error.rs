//! Failures at the persistence boundary and their neutral classification.
use vstd::prelude::*;
use vstd::string::*;

use crate::errno;
use crate::io;
use crate::io::{with_context, IoError, IoErrorView, IoKind};
use crate::model::{StorageLoadFailure, StorageLoadFailureKind};
use crate::numbers;
use crate::text;
use crate::views;

verus! {

broadcast use crate::views::group_views;

/// Stable storage failure classes used at the persistence boundary.
///
/// `Unavailable` retains an optional operating system error as its source. In
/// particular, resource and permission failures must never be relabeled as record
/// damage.
#[derive(Debug, PartialEq, Eq)]
pub enum StorageError {
    /// Bytes or mutually related facts contradict a supported storage schema.
    Corrupt(String),
    /// A well-formed schema header names a version that cannot be read.
    Unsupported(String),
    /// Storage could not be safely or currently accessed without claiming damage.
    Unavailable {
        /// What was being done.
        message: String,
        /// The failed operation.
        source: Option<IoError>,
    },
    /// The advisory recorder/delete lock is held by another operation.
    Busy(String),
}

/// What a [`StorageError`] says.
pub enum ErrorView {
    /// Bytes or mutually related facts contradict a supported storage schema.
    Corrupt(Seq<char>),
    /// A well-formed schema header names a version that cannot be read.
    Unsupported(Seq<char>),
    /// Storage could not be accessed: what was being done and the failed operation.
    Unavailable(Seq<char>, Option<IoErrorView>),
    /// The advisory recorder/delete lock is held by another operation.
    Busy(Seq<char>),
}

impl View for StorageError {
    type V = ErrorView;

    open spec fn view(&self) -> ErrorView {
        match self {
            StorageError::Corrupt(message) => ErrorView::Corrupt(message@),
            StorageError::Unsupported(message) => ErrorView::Unsupported(message@),
            StorageError::Unavailable { message, source } => ErrorView::Unavailable(
                message@,
                views::opt(*source),
            ),
            StorageError::Busy(message) => ErrorView::Busy(message@),
        }
    }
}

impl ErrorView {
    /// The text for the failure.
    pub open spec fn text(self) -> Seq<char> {
        match self {
            ErrorView::Corrupt(message) => "corrupt record: "@ + message,
            ErrorView::Unsupported(message) => message,
            ErrorView::Unavailable(message, Some(source)) => io::context(message, source.message),
            ErrorView::Unavailable(message, None) => message,
            ErrorView::Busy(message) => message,
        }
    }

    /// The text for the failure, followed by that of the failed operation.
    pub open spec fn full_text(self) -> Seq<char> {
        match self {
            ErrorView::Unavailable(_, Some(source)) => io::context(self.text(), source.message),
            _ => self.text(),
        }
    }

    /// The neutral classification of the failure.
    pub open spec fn kind(self) -> StorageLoadFailureKind {
        match self {
            ErrorView::Corrupt(_) => StorageLoadFailureKind::Corrupt,
            ErrorView::Unsupported(_) => StorageLoadFailureKind::Unsupported,
            ErrorView::Unavailable(_, _) => StorageLoadFailureKind::Unavailable,
            ErrorView::Busy(_) => StorageLoadFailureKind::Busy,
        }
    }
}

impl StorageError {
    /// Gives the text for the failure.
    pub fn message(&self) -> (r: String)
        ensures
            r@ == self@.text(),
    {
        match self {
            StorageError::Corrupt(message) => {
                let mut s: String = "corrupt record: ".to_owned();
                s.append(message.as_str());
                s
            },
            StorageError::Unsupported(message) => message.clone(),
            StorageError::Unavailable { message, source } => match source {
                Some(source) => with_context(message.as_str(), source.message.as_str()),
                None => message.clone(),
            },
            StorageError::Busy(message) => message.clone(),
        }
    }

    /// Gives the text for the failure, followed by that of the failed operation.
    pub fn full_message(&self) -> (r: String)
        ensures
            r@ == self@.full_text(),
    {
        let s: String = self.message();
        match self {
            StorageError::Unavailable { message, source } => match source {
                Some(source) => with_context(s.as_str(), source.message.as_str()),
                None => s,
            },
            _ => s,
        }
    }
}

/// Gives the failure for a damaged record.
pub fn corrupt(message: String) -> (r: StorageError)
    ensures
        r@ == ErrorView::Corrupt(message@),
{
    StorageError::Corrupt(message)
}

/// Gives the failure for a record of a later version.
pub fn unsupported(message: String) -> (r: StorageError)
    ensures
        r@ == ErrorView::Unsupported(message@),
{
    StorageError::Unsupported(message)
}

/// Gives the failure for storage that cannot be accessed.
pub fn unavailable(message: String) -> (r: StorageError)
    ensures
        r@ == ErrorView::Unavailable(message@, None),
{
    StorageError::Unavailable { message, source: None }
}

/// Gives the failure for storage that cannot be accessed because of a failed
/// operation.
pub fn unavailable_io(message: String, source: IoError) -> (r: StorageError)
    ensures
        r@ == ErrorView::Unavailable(message@, Some(source@)),
{
    StorageError::Unavailable { message, source: Some(source) }
}

/// What a failed lock amounts to: only contention makes storage busy.
pub open spec fn lock_failure(source: IoErrorView) -> ErrorView {
    if source.code == Some(errno::linux_errno().eagain) || source.code == Some(
        errno::linux_errno().ewouldblock,
    ) {
        ErrorView::Busy("storage busy: another recorder or delete operation holds the lock"@)
    } else {
        ErrorView::Unavailable("acquire storage lock"@, Some(source))
    }
}

/// Gives what a failed lock amounts to.
pub fn lock_error(source: IoError) -> (r: StorageError)
    ensures
        r@ == lock_failure(source@),
{
    let e: errno::Errno = errno::errno();
    if source.code == Some(e.eagain) || source.code == Some(e.ewouldblock) {
        StorageError::Busy(
            "storage busy: another recorder or delete operation holds the lock".to_owned(),
        )
    } else {
        unavailable_io("acquire storage lock".to_owned(), source)
    }
}

/// Whether a directory could not be opened because it is a link or no directory.
pub open spec fn not_real_directory(code: Option<i32>) -> bool {
    code == Some(errno::linux_errno().eloop) || code == Some(errno::linux_errno().enotdir)
}

/// Says whether a directory could not be opened because it is a link or no
/// directory.
pub fn unsafe_directory(error: &IoError) -> (r: bool)
    ensures
        r == not_real_directory(error.code),
{
    let e: errno::Errno = errno::errno();
    error.code == Some(e.eloop) || error.code == Some(e.enotdir)
}

/// What a file that a record requires amounts to when it cannot be opened: one that
/// is missing is damage, and anything else is not.
pub open spec fn missing_file(display: Seq<char>, error: IoErrorView) -> ErrorView {
    if error.kind is NotFound {
        ErrorView::Corrupt(io::context(display, error.message))
    } else {
        ErrorView::Unavailable(display, Some(error))
    }
}

/// Gives what a file that a record requires amounts to when it cannot be opened.
pub fn required_record_file_error(display: &str, error: IoError) -> (r: StorageError)
    ensures
        r@ == missing_file(display@, error@),
{
    if error.kind == IoKind::NotFound {
        corrupt(with_context(display, error.message.as_str()))
    } else {
        unavailable_io(display.to_owned(), error)
    }
}

/// The failure for a key that does not name exactly one record, given its spelling.
pub open spec fn selection_failure(spelled: Seq<char>, count: nat) -> ErrorView {
    ErrorView::Unavailable(
        "record "@ + spelled + ": expected one safe ID/label match, found "@ + numbers::decimal(
            count,
        )
            + "; unknown labels require an exact recognizable directory ID; unsafe entries cannot be selected"@,
        None,
    )
}

/// Gives the failure for a key that does not name exactly one record.
pub fn selection_error(key: &str, count: usize) -> (r: StorageError)
    ensures
        r@ == selection_failure(text::debug_text(key@), count as nat),
{
    let mut s: String = "record ".to_owned();
    s.append(text::debug_string(key).as_str());
    s.append(": expected one safe ID/label match, found ");
    s.append(numbers::decimal_string(count as u128).as_str());
    s.append(
        "; unknown labels require an exact recognizable directory ID; unsafe entries cannot be selected",
    );
    unavailable(s)
}

/// How far an atomic replacement had come.
#[derive(Debug, Clone, Copy, PartialEq, Eq, Structural)]
pub enum CommitStage {
    /// The new file is not visible.
    BeforePublish,
    /// The new file is visible, but may not survive a crash.
    PublishedDurabilityUnknown,
    /// The new file is visible and durable.
    Durable,
}

/// A failed atomic replacement.
#[derive(Debug, PartialEq, Eq)]
pub struct CommitFailure {
    /// The file that was to be replaced.
    pub file: String,
    /// What was being done.
    pub operation: String,
    /// How far the replacement had come.
    pub stage: CommitStage,
    /// The failed operation.
    pub source: IoError,
}

/// What a [`CommitFailure`] says.
pub struct CommitView {
    /// The file that was to be replaced.
    pub file: Seq<char>,
    /// What was being done.
    pub operation: Seq<char>,
    /// How far the replacement had come.
    pub stage: CommitStage,
    /// The failed operation.
    pub source: IoErrorView,
}

impl View for CommitFailure {
    type V = CommitView;

    open spec fn view(&self) -> CommitView {
        CommitView {
            file: self.file@,
            operation: self.operation@,
            stage: self.stage,
            source: self.source@,
        }
    }
}

impl CommitView {
    /// The text for the failure.
    pub open spec fn text(self) -> Seq<char> {
        match self.stage {
            CommitStage::BeforePublish => "atomic replace of "@ + self.file
                + " failed before publish during "@ + self.operation + ": "@ + self.source.message,
            CommitStage::PublishedDurabilityUnknown => "atomic replace of "@ + self.file
                + " was published but directory durability is unknown during "@ + self.operation
                + ": "@ + self.source.message,
            CommitStage::Durable => "atomic replace of "@ + self.file + " was durable but "@
                + self.operation + " failed: "@ + self.source.message,
        }
    }
}

impl CommitFailure {
    /// Describes a failed atomic replacement.
    pub fn new(file: &str, operation: &str, stage: CommitStage, source: IoError) -> (r: CommitFailure)
        ensures
            r@ == (CommitView { file: file@, operation: operation@, stage, source: source@ }),
    {
        CommitFailure { file: file.to_owned(), operation: operation.to_owned(), stage, source }
    }

    /// Gives the text for the failure.
    pub fn message(&self) -> (r: String)
        ensures
            r@ == self@.text(),
    {
        let mut s: String = "atomic replace of ".to_owned();
        s.append(self.file.as_str());
        match self.stage {
            CommitStage::BeforePublish => {
                s.append(" failed before publish during ");
                s.append(self.operation.as_str());
                s.append(": ");
            },
            CommitStage::PublishedDurabilityUnknown => {
                s.append(" was published but directory durability is unknown during ");
                s.append(self.operation.as_str());
                s.append(": ");
            },
            CommitStage::Durable => {
                s.append(" was durable but ");
                s.append(self.operation.as_str());
                s.append(" failed: ");
            },
        }
        s.append(self.source.message.as_str());
        s
    }
}

/// What caused a failure.
#[derive(Debug, PartialEq, Eq)]
pub enum Cause {
    /// A storage failure.
    Storage(StorageError),
    /// A failed atomic replacement.
    Commit(CommitFailure),
    /// Anything else, in words.
    Other(String),
}

/// What a [`Cause`] says.
pub enum CauseView {
    /// A storage failure.
    Storage(ErrorView),
    /// A failed atomic replacement.
    Commit(CommitView),
    /// Anything else, in words.
    Other(Seq<char>),
}

impl View for Cause {
    type V = CauseView;

    open spec fn view(&self) -> CauseView {
        match self {
            Cause::Storage(error) => CauseView::Storage(error@),
            Cause::Commit(failure) => CauseView::Commit(failure@),
            Cause::Other(message) => CauseView::Other(message@),
        }
    }
}

/// A failure of an operation on storage.
#[derive(Debug, PartialEq, Eq)]
pub struct Failure {
    /// What was being done, if that says more than the cause.
    pub context: Option<String>,
    /// What caused it.
    pub cause: Cause,
}

/// What a [`Failure`] says.
pub struct FailureView {
    /// What was being done, if that says more than the cause.
    pub context: Option<Seq<char>>,
    /// What caused it.
    pub cause: CauseView,
}

impl View for Failure {
    type V = FailureView;

    open spec fn view(&self) -> FailureView {
        FailureView { context: views::opt(self.context), cause: self.cause@ }
    }
}

impl FailureView {
    /// The neutral classification of the failure.
    pub open spec fn kind(self) -> StorageLoadFailureKind {
        match self.cause {
            CauseView::Storage(error) => error.kind(),
            _ => StorageLoadFailureKind::Unavailable,
        }
    }

    /// The text for the failure with everything that caused it.
    pub open spec fn text(self) -> Seq<char> {
        let cause = match self.cause {
            CauseView::Storage(error) => error.full_text(),
            CauseView::Commit(failure) => io::context(failure.text(), failure.source.message),
            CauseView::Other(message) => message,
        };
        match self.context {
            Some(words) => io::context(words, cause),
            None => cause,
        }
    }
}

impl Failure {
    /// Gives the failure that a storage failure causes.
    pub fn storage(error: StorageError) -> (r: Failure)
        ensures
            r@ == (FailureView { context: None, cause: CauseView::Storage(error@) }),
    {
        Failure { context: None, cause: Cause::Storage(error) }
    }

    /// Gives the failure that a failed atomic replacement causes.
    pub fn commit(failure: CommitFailure) -> (r: Failure)
        ensures
            r@ == (FailureView { context: None, cause: CauseView::Commit(failure@) }),
    {
        Failure { context: None, cause: Cause::Commit(failure) }
    }

    /// Gives a failure in words.
    pub fn other(message: String) -> (r: Failure)
        ensures
            r@ == (FailureView { context: None, cause: CauseView::Other(message@) }),
    {
        Failure { context: None, cause: Cause::Other(message) }
    }

    /// Gives the text for the failure with everything that caused it.
    pub fn message(&self) -> (r: String)
        ensures
            r@ == self@.text(),
    {
        let cause: String = match &self.cause {
            Cause::Storage(error) => error.full_message(),
            Cause::Commit(failure) => with_context(
                failure.message().as_str(),
                failure.source.message.as_str(),
            ),
            Cause::Other(message) => message.clone(),
        };
        match &self.context {
            Some(words) => with_context(words.as_str(), cause.as_str()),
            None => cause,
        }
    }
}

/// Gives the neutral classification of a failure.
pub fn storage_load_failure_kind(error: &Failure) -> (r: StorageLoadFailureKind)
    ensures
        r == error@.kind(),
{
    match &error.cause {
        Cause::Storage(StorageError::Corrupt(_)) => StorageLoadFailureKind::Corrupt,
        Cause::Storage(StorageError::Unsupported(_)) => StorageLoadFailureKind::Unsupported,
        Cause::Storage(StorageError::Unavailable { message, source }) =>
            StorageLoadFailureKind::Unavailable,
        Cause::Storage(StorageError::Busy(_)) => StorageLoadFailureKind::Busy,
        _ => StorageLoadFailureKind::Unavailable,
    }
}

/// Gives the neutral failure that a consumer sees.
pub fn neutral_load_failure(error: &Failure) -> (r: StorageLoadFailure)
    ensures
        r.kind == error@.kind(),
        r.message@ == error@.text(),
{
    StorageLoadFailure { kind: storage_load_failure_kind(error), message: error.message() }
}

} // verus!
