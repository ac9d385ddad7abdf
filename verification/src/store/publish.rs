//! Atomic publication of the files of a record.
use vstd::prelude::*;
use vstd::string::*;
use vstd::utf8::*;

use crate::capture::completion;
use crate::capture::record;
use crate::capture::record::{Captured, Concluded, SessionView};
use crate::capture::signals::SignalRange;
use crate::errno;
use crate::io;
use crate::io::{with_context, IoError, IoErrorView, IoKind};
use crate::model::{Event, EventView, Metadata};
use crate::store::checksum;
use crate::store::checksum::{
    check, hex_string, invalid_data, same_file, Checksum, FileCheck, FileIdentity,
};
use crate::store::contract;
use crate::store::contract::{
    validate_metadata_contract, validate_run_contract, validate_run_contract_facts, EventFacts,
};
use crate::store::error::{CauseView, CommitFailure, CommitStage, CommitView, Failure, FailureView};
use crate::store::events;
use crate::store::events::{EventReadMode, EventStreamReadback, Finalized, StreamView};
use crate::text;
use crate::views;

verus! {

broadcast use crate::views::group_views;

/// Whether a name is one ordinary component of a path.
pub open spec fn ordinary(name: Seq<char>) -> bool {
    name.len() > 0 && name != "."@ && name != ".."@ && !name.contains('/') && !name.contains('\0')
}

/// What is wrong with a name that is not one ordinary component of a path.
pub open spec fn component_fault(name: Seq<char>) -> Option<IoErrorView> {
    if ordinary(name) {
        None
    } else {
        Some(
            IoErrorView {
                kind: IoKind::InvalidInput,
                code: None,
                message: if name.contains('\0') {
                    "storage file name contains NUL"@
                } else {
                    "storage file name is not one ordinary path component"@
                },
            },
        )
    }
}

/// Checks that a name is one ordinary component of a path.
pub fn ordinary_component(name: &str) -> (r: Option<IoError>)
    ensures
        views::opt(r) == component_fault(name@),
{
    if text::contains_char(name, '\0') {
        return Some(
            IoError {
                kind: IoKind::InvalidInput,
                code: None,
                message: "storage file name contains NUL".to_owned(),
            },
        );
    }
    if name.unicode_len() == 0 || text::same(name, ".") || text::same(name, "..")
        || text::contains_char(name, '/') {
        return Some(
            IoError {
                kind: IoKind::InvalidInput,
                code: None,
                message: "storage file name is not one ordinary path component".to_owned(),
            },
        );
    }
    None
}

/// The name of a temporary file, from random bytes.
pub open spec fn staging_text(random: Seq<u8>) -> Seq<char> {
    ".rundelta-tmp-"@ + checksum::hex(random)
}

/// Gives the name of a temporary file, from random bytes.
pub fn staging_name(random: &[u8]) -> (r: String)
    ensures
        r@ == staging_text(random@),
{
    let mut s: String = ".rundelta-tmp-".to_owned();
    s.append(hex_string(random).as_str());
    s
}

/// Whether bytes are one ordinary component of a path.
pub open spec fn ordinary_bytes(name: Seq<u8>) -> bool {
    name.len() > 0 && name != seq!['.' as u8] && name != seq!['.' as u8, '.' as u8]
        && !name.contains('/' as u8)
}

/// Checks that bytes are one ordinary component of a path.
pub fn beneath_component(name: &Vec<u8>) -> (r: Option<IoError>)
    ensures
        match r {
            None => ordinary_bytes(name@),
            Some(e) => !ordinary_bytes(name@) && e@ == (IoErrorView {
                kind: IoKind::InvalidInput,
                code: None,
                message: "storage access requires exactly one ordinary path component"@,
            }),
        },
{
    let mut slash: bool = false;
    for i in 0..name.len()
        invariant
            slash == (exists|j: int| 0 <= j < i && name@[j] == '/' as u8),
    {
        if name[i] == 47 {
            slash = true;
            assert(name@[i as int] == '/' as u8);
        }
    }
    let n: usize = name.len();
    let dot: bool = n == 1 && name[0] == 46;
    let dots: bool = n == 2 && name[0] == 46 && name[1] == 46;
    proof {
        assert(slash == name@.contains('/' as u8));
        assert(dot == (name@ =~= seq!['.' as u8]));
        assert(dots == (name@ =~= seq!['.' as u8, '.' as u8]));
    }
    if n == 0 || dot || dots || slash {
        return Some(
            IoError {
                kind: IoKind::InvalidInput,
                code: None,
                message: "storage access requires exactly one ordinary path component".to_owned(),
            },
        );
    }
    None
}

/// Says whether the kernel lacks the call that keeps a path beneath a directory, so
/// that an older one has to do.
pub fn needs_older_open(error: &IoError) -> (r: bool)
    ensures
        r == (error.code == Some(errno::linux_errno().enosys)),
{
    error.code == Some(errno::errno().enosys)
}

/// Whether an anonymous file cannot be created here, so that a named one has to do.
pub open spec fn anonymous_unsupported(code: Option<i32>) -> bool {
    let e = errno::linux_errno();
    code == Some(e.eopnotsupp) || code == Some(e.einval) || code == Some(e.enosys) || code == Some(
        e.eisdir,
    )
}

/// Whether an anonymous file cannot be given a name here. A missing entry counts only
/// now that the anonymous file exists.
pub open spec fn link_unsupported(code: Option<i32>) -> bool {
    let e = errno::linux_errno();
    anonymous_unsupported(code) || code == Some(e.eperm) || code == Some(e.exdev) || code == Some(
        e.enoent,
    )
}

/// Says whether an anonymous file cannot be created here.
pub fn tmpfile_is_unsupported(error: &IoError) -> (r: bool)
    ensures
        r == anonymous_unsupported(error.code),
{
    let e: errno::Errno = errno::errno();
    error.code == Some(e.eopnotsupp) || error.code == Some(e.einval) || error.code == Some(e.enosys)
        || error.code == Some(e.eisdir)
}

/// Says whether an anonymous file cannot be given a name here.
pub fn tmpfile_link_is_unsupported(error: &IoError) -> (r: bool)
    ensures
        r == link_unsupported(error.code),
{
    let e: errno::Errno = errno::errno();
    tmpfile_is_unsupported(error) || error.code == Some(e.eperm) || error.code == Some(e.exdev)
        || error.code == Some(e.enoent)
}

/// How many random names are tried.
pub const NAME_ATTEMPTS: usize = 32;

/// The search for a name that is not taken.
pub struct NameSearch {
    /// How many names were taken.
    pub taken: usize,
    /// Whether a file that exists is to be named, rather than one to be created.
    pub linking: bool,
}

/// How the search for a name goes on.
pub enum SearchStep {
    /// The name was not taken.
    Found,
    /// Another name is to be tried.
    Again,
    /// No name was found.
    Fail(IoError),
}

impl NameSearch {
    /// The failure once every name was taken.
    pub open spec fn exhausted(self) -> IoErrorView {
        IoErrorView {
            kind: IoKind::AlreadyExists,
            code: None,
            message: if self.linking {
                "could not link an anonymous file under a unique staging name"@
            } else {
                "could not allocate a unique random staging name"@
            },
        }
    }

    /// Starts a search.
    pub fn new(linking: bool) -> (r: NameSearch)
        ensures
            r == (NameSearch { taken: 0, linking }),
    {
        NameSearch { taken: 0, linking }
    }

    /// Takes what came of one name. A taken name lets another be tried, as long as there
    /// are attempts left; any other failure ends the search.
    pub fn step(&mut self, failure: Option<IoError>) -> (r: SearchStep)
        requires
            old(self).taken < NAME_ATTEMPTS,
        ensures
            final(self).linking == old(self).linking,
            match failure {
                None => r is Found && *final(self) == *old(self),
                Some(e) => if !(e.kind is AlreadyExists) {
                    (r matches SearchStep::Fail(x) && x == e) && *final(self) == *old(self)
                } else {
                    &&& final(self).taken == old(self).taken + 1
                    &&& if final(self).taken < NAME_ATTEMPTS {
                        r is Again
                    } else {
                        r matches SearchStep::Fail(x) && x@ == old(self).exhausted()
                    }
                },
            },
    {
        match failure {
            None => SearchStep::Found,
            Some(e) => {
                if e.kind != IoKind::AlreadyExists {
                    return SearchStep::Fail(e);
                }
                self.taken = self.taken + 1;
                if self.taken < NAME_ATTEMPTS {
                    SearchStep::Again
                } else {
                    let message: &str = if self.linking {
                        "could not link an anonymous file under a unique staging name"
                    } else {
                        "could not allocate a unique random staging name"
                    };
                    SearchStep::Fail(
                        IoError {
                            kind: IoKind::AlreadyExists,
                            code: None,
                            message: message.to_owned(),
                        },
                    )
                }
            },
        }
    }
}

/// One step of an atomic replacement.
#[derive(Debug, Clone, Copy, PartialEq, Eq, Structural)]
pub enum AtomicStep {
    /// Create a temporary file.
    Create,
    /// Write the temporary file.
    Write,
    /// Make the temporary file durable.
    FileSync,
    /// Give the anonymous temporary file a name.
    Link,
    /// Create a temporary file with a name instead.
    FallbackCreate,
    /// Copy the anonymous temporary file to it.
    FallbackCopy,
    /// Make the copy durable.
    FallbackFileSync,
    /// See that the name is still that of the temporary file.
    Verify,
    /// Keep a handle of the temporary file.
    Retain,
    /// Rename the temporary file to its destination.
    Rename,
    /// Make the directory durable.
    DirectorySync,
    /// Nothing: the replacement is durable.
    Published,
    /// Nothing: the replacement failed.
    Failed,
}

impl AtomicStep {
    /// The words for a step.
    pub open spec fn words(self) -> Seq<char> {
        match self {
            AtomicStep::Create => "create temporary file"@,
            AtomicStep::Write => "write temporary file"@,
            AtomicStep::FileSync => "sync temporary file"@,
            AtomicStep::Link => "link anonymous temporary file"@,
            AtomicStep::FallbackCreate => "create named temporary file"@,
            AtomicStep::FallbackCopy => "copy anonymous temporary file to named fallback"@,
            AtomicStep::FallbackFileSync => "sync named fallback temporary file"@,
            AtomicStep::Verify => "verify temporary file identity"@,
            AtomicStep::Retain => "retain temporary file handle"@,
            AtomicStep::Rename => "rename temporary file"@,
            AtomicStep::DirectorySync => "sync containing directory"@,
            AtomicStep::Published => ""@,
            AtomicStep::Failed => ""@,
        }
    }

    /// Gives the words for a step.
    pub fn operation(self) -> (r: &'static str)
        ensures
            r@ == self.words(),
    {
        match self {
            AtomicStep::Create => "create temporary file",
            AtomicStep::Write => "write temporary file",
            AtomicStep::FileSync => "sync temporary file",
            AtomicStep::Link => "link anonymous temporary file",
            AtomicStep::FallbackCreate => "create named temporary file",
            AtomicStep::FallbackCopy => "copy anonymous temporary file to named fallback",
            AtomicStep::FallbackFileSync => "sync named fallback temporary file",
            AtomicStep::Verify => "verify temporary file identity",
            AtomicStep::Retain => "retain temporary file handle",
            AtomicStep::Rename => "rename temporary file",
            AtomicStep::DirectorySync => "sync containing directory",
            AtomicStep::Published => "",
            AtomicStep::Failed => "",
        }
    }

    /// Whether nothing is left to do.
    pub open spec fn over(self) -> bool {
        self is Published || self is Failed
    }

    /// How far a replacement has come when this step fails.
    pub open spec fn stage(self) -> CommitStage {
        if self is DirectorySync {
            CommitStage::PublishedDurabilityUnknown
        } else {
            CommitStage::BeforePublish
        }
    }

    /// The step after this one, given whether the temporary file has a name.
    pub open spec fn next(self, named: bool) -> AtomicStep {
        match self {
            AtomicStep::Create => AtomicStep::Write,
            AtomicStep::Write => AtomicStep::FileSync,
            AtomicStep::FileSync => if named {
                AtomicStep::Verify
            } else {
                AtomicStep::Link
            },
            AtomicStep::Link => AtomicStep::Verify,
            AtomicStep::FallbackCreate => AtomicStep::FallbackCopy,
            AtomicStep::FallbackCopy => AtomicStep::FallbackFileSync,
            AtomicStep::FallbackFileSync => AtomicStep::Verify,
            AtomicStep::Verify => AtomicStep::Retain,
            AtomicStep::Retain => AtomicStep::Rename,
            AtomicStep::Rename => AtomicStep::DirectorySync,
            AtomicStep::DirectorySync => AtomicStep::Published,
            AtomicStep::Published => AtomicStep::Published,
            AtomicStep::Failed => AtomicStep::Failed,
        }
    }
}

/// The progress of an atomic replacement of one file.
#[derive(Debug, PartialEq, Eq)]
pub struct AtomicStaging {
    /// The file that is replaced.
    pub display: String,
    /// What is to be done.
    pub step: AtomicStep,
}

impl AtomicStaging {
    /// The step after one that has this result: only an anonymous file that cannot be
    /// given a name has another way on.
    pub open spec fn after(self, failure: Option<IoErrorView>, named: bool) -> AtomicStep {
        match failure {
            None => self.step.next(named),
            Some(e) => if self.step is Link && link_unsupported(e.code) {
                AtomicStep::FallbackCreate
            } else {
                AtomicStep::Failed
            },
        }
    }

    /// Starts to replace a file.
    pub fn begin(name: &str) -> (r: Result<AtomicStaging, CommitFailure>)
        ensures
            match r {
                Ok(staging) => ordinary(name@) && staging.display@ == name@ && staging.step
                    is Create,
                Err(e) => component_fault(name@) matches Some(source) && e@ == (CommitView {
                    file: name@,
                    operation: "validate destination"@,
                    stage: CommitStage::BeforePublish,
                    source,
                }),
            },
    {
        match ordinary_component(name) {
            None => Ok(AtomicStaging { display: name.to_owned(), step: AtomicStep::Create }),
            Some(e) => Err(
                CommitFailure::new(name, "validate destination", CommitStage::BeforePublish, e),
            ),
        }
    }

    /// Takes the result of the step that was to be done; `named` says whether the
    /// temporary file has a name.
    pub fn publish(&mut self, failure: Option<IoError>, named: bool) -> (r: Option<CommitFailure>)
        requires
            !old(self).step.over(),
        ensures
            final(self).display == old(self).display,
            final(self).step == old(self).after(views::opt(failure), named),
            views::opt(r) == (if final(self).step is Failed {
                Some(
                    CommitView {
                        file: old(self).display@,
                        operation: old(self).step.words(),
                        stage: old(self).step.stage(),
                        source: (failure->0)@,
                    },
                )
            } else {
                None
            }),
    {
        match failure {
            None => {
                self.step = match self.step {
                    AtomicStep::Create => AtomicStep::Write,
                    AtomicStep::Write => AtomicStep::FileSync,
                    AtomicStep::FileSync => if named {
                        AtomicStep::Verify
                    } else {
                        AtomicStep::Link
                    },
                    AtomicStep::Link => AtomicStep::Verify,
                    AtomicStep::FallbackCreate => AtomicStep::FallbackCopy,
                    AtomicStep::FallbackCopy => AtomicStep::FallbackFileSync,
                    AtomicStep::FallbackFileSync => AtomicStep::Verify,
                    AtomicStep::Verify => AtomicStep::Retain,
                    AtomicStep::Retain => AtomicStep::Rename,
                    AtomicStep::Rename => AtomicStep::DirectorySync,
                    AtomicStep::DirectorySync => AtomicStep::Published,
                    AtomicStep::Published => AtomicStep::Published,
                    AtomicStep::Failed => AtomicStep::Failed,
                };
                None
            },
            Some(e) => {
                if self.step == AtomicStep::Link && tmpfile_link_is_unsupported(&e) {
                    self.step = AtomicStep::FallbackCreate;
                    return None;
                }
                let operation: &str = self.step.operation();
                let stage: CommitStage = if self.step == AtomicStep::DirectorySync {
                    CommitStage::PublishedDurabilityUnknown
                } else {
                    CommitStage::BeforePublish
                };
                self.step = AtomicStep::Failed;
                Some(CommitFailure::new(self.display.as_str(), operation, stage, e))
            },
        }
    }
}

/// A replacement that fails before its file was renamed says so, and one that fails
/// afterwards says that the file is published.
pub proof fn failure_stage_tells_publication(
    staging: AtomicStaging,
    failure: IoErrorView,
    named: bool,
)
    requires
        !staging.step.over(),
        staging.after(Some(failure), named) is Failed,
    ensures
        staging.step.stage() is BeforePublish <==> !(staging.step is DirectorySync),
        staging.step.next(named) is DirectorySync ==> staging.step is Rename,
{
}

/// A replacement becomes durable only by making the directory durable, which comes
/// only after the rename, which comes only after the temporary file was identified.
pub proof fn durable_only_in_order(staging: AtomicStaging, failure: Option<IoErrorView>, named: bool)
    requires
        !staging.step.over(),
    ensures
        staging.after(failure, named) is Published ==> failure is None && staging.step
            is DirectorySync,
        staging.after(failure, named) is DirectorySync ==> failure is None && staging.step is Rename,
        staging.after(failure, named) is Rename ==> failure is None && staging.step is Retain,
        staging.after(failure, named) is Retain ==> failure is None && staging.step is Verify,
{
}

/// The check and the facts of an event file.
#[derive(Debug, PartialEq, Eq)]
pub struct EventFileSummary {
    /// The check of its bytes.
    pub check: FileCheck,
    /// What its events amount to.
    pub facts: EventFacts,
}

impl EventFileSummary {
    /// Whether this is the check and the facts of what was staged.
    pub open spec fn sums(self, staged: (Seq<u8>, EventFacts)) -> bool {
        self.check@.covers(staged.0) && self.facts == staged.1
    }
}

/// An event file of which some lines were staged.
pub struct EventJsonlStaging {
    checksum: Checksum,
    facts: EventFacts,
}

impl View for EventJsonlStaging {
    type V = (Seq<u8>, EventFacts);

    closed spec fn view(&self) -> (Seq<u8>, EventFacts) {
        (self.checksum@, self.facts)
    }
}

impl EventJsonlStaging {
    /// The length of the file is that of what was staged.
    pub closed spec fn wf(self) -> bool {
        self.checksum.wf()
    }

    /// Starts an event file.
    pub fn begin() -> (r: EventJsonlStaging)
        ensures
            r.wf(),
            r@ == (Seq::<u8>::empty(), EventFacts::none()),
    {
        EventJsonlStaging { checksum: Checksum::new(), facts: EventFacts::default() }
    }

    /// Notes that the line of an event was written.
    pub fn push(&mut self, line: &[u8], event: &Event) -> (r: Result<(), IoError>)
        requires
            old(self).wf(),
            old(self)@.1.count < usize::MAX,
        ensures
            final(self).wf(),
            match r {
                Ok(_) => final(self)@ == (old(self)@.0 + line@, old(self)@.1.with(event@)),
                Err(e) => old(self)@.0.len() + line@.len() > u64::MAX && e@
                    == checksum::count_failure(),
            },
    {
        match self.checksum.update(line) {
            Err(e) => Err(e),
            Ok(_) => {
                self.facts.observe(event);
                Ok(())
            },
        }
    }

    /// Gives the check and the facts of the file.
    pub fn summary(self) -> (r: EventFileSummary)
        requires
            self.wf(),
        ensures
            r.sums(self@),
    {
        EventFileSummary { check: self.checksum.finish(), facts: self.facts }
    }
}

/// What was observed of a published event file.
#[derive(Debug)]
pub struct EventReadback {
    /// Why the published name could not be opened.
    pub open_failure: Option<IoError>,
    /// The opened file before it was read.
    pub opened: Result<FileIdentity, IoError>,
    /// The file that was staged, before the published one was read.
    pub held: Result<FileIdentity, IoError>,
    /// Why the published name is not that of the staged file, before it was read.
    pub entry: Option<IoError>,
    /// What was read.
    pub streamed: Result<EventStreamReadback, IoError>,
    /// Why the published name is not that of the staged file, after it was read.
    pub entry_after: Option<IoError>,
    /// The opened file after it was read.
    pub opened_after: Result<FileIdentity, IoError>,
    /// The file that was staged, after the published one was read.
    pub held_after: Result<FileIdentity, IoError>,
}

/// A failure in the read-back of the event file.
pub open spec fn event_commit(operation: Seq<char>, stage: CommitStage, source: IoErrorView) -> CauseView {
    CauseView::Commit(CommitView { file: "events.jsonl"@, operation, stage, source })
}

/// What is wrong with the identity of a published event file.
pub open spec fn identity_fault(r: EventReadback, stage: CommitStage) -> Option<CauseView> {
    if r.open_failure is Some {
        Some(event_commit("read back published file"@, stage, (r.open_failure->0)@))
    } else if r.opened is Err {
        Some(event_commit("inspect published file"@, stage, (r.opened->Err_0)@))
    } else if r.held is Err {
        Some(event_commit("inspect retained file"@, stage, (r.held->Err_0)@))
    } else if !(r.opened->Ok_0).regular || !checksum::same_inode(r.opened->Ok_0, r.held->Ok_0) {
        Some(
            event_commit(
                "verify published file identity"@,
                stage,
                checksum::invalid("published file no longer identifies the staged regular file"@),
            ),
        )
    } else if r.entry is Some {
        Some(event_commit("verify published file identity"@, stage, (r.entry->0)@))
    } else {
        None
    }
}

/// What is wrong with what was read of a published event file.
pub open spec fn readback_fault(
    r: EventReadback,
    expected: EventFileSummary,
    stage: CommitStage,
) -> Option<CauseView> {
    if r.streamed is Err {
        Some(event_commit("read back published file"@, stage, (r.streamed->Err_0)@))
    } else if r.entry_after is Some {
        Some(event_commit("verify published file identity"@, stage, (r.entry_after->0)@))
    } else if r.opened_after is Err {
        Some(event_commit("inspect published file"@, stage, (r.opened_after->Err_0)@))
    } else if r.held_after is Err {
        Some(event_commit("inspect retained file"@, stage, (r.held_after->Err_0)@))
    } else if !checksum::same_inode(r.opened_after->Ok_0, r.held_after->Ok_0) {
        Some(
            event_commit(
                "verify published file identity"@,
                stage,
                checksum::invalid("published file identity changed during read-back"@),
            ),
        )
    } else if (r.streamed->Ok_0).check@ != expected.check@ {
        Some(
            event_commit(
                "verify read-back bytes"@,
                stage,
                checksum::invalid("published bytes differ from the staged bytes"@),
            ),
        )
    } else {
        match (r.streamed->Ok_0).decoded {
            Err(e) => Some(CauseView::Storage(e@)),
            Ok(d) => if d.facts != expected.facts {
                Some(
                    event_commit(
                        "verify read-back event facts"@,
                        stage,
                        checksum::invalid("published event facts differ from the staged events"@),
                    ),
                )
            } else {
                None
            },
        }
    }
}

/// Gives the failure of a step of the read-back of the event file.
fn event_failure(operation: &str, stage: CommitStage, source: IoError) -> (r: Failure)
    ensures
        r@ == (FailureView { context: None, cause: event_commit(operation@, stage, source@) }),
{
    Failure::commit(CommitFailure::new("events.jsonl", operation, stage, source))
}

/// Checks that a published event file is the one that was staged, with the bytes and
/// the events that were staged. What was observed after a failure does not count.
pub fn read_back_published_events(
    readback: EventReadback,
    expected: &EventFileSummary,
    stage: CommitStage,
) -> (r: Result<EventFileSummary, Failure>)
    ensures
        match r {
            Ok(summary) => identity_fault(readback, stage) is None && readback_fault(
                readback,
                *expected,
                stage,
            ) is None && summary.check@ == expected.check@ && summary.facts == expected.facts,
            Err(e) => e@ == (FailureView {
                context: None,
                cause: match identity_fault(readback, stage) {
                    Some(cause) => cause,
                    None => readback_fault(readback, *expected, stage)->0,
                },
            }) && (identity_fault(readback, stage) is Some || readback_fault(
                readback,
                *expected,
                stage,
            ) is Some),
        },
{
    let EventReadback {
        open_failure,
        opened,
        held,
        entry,
        streamed,
        entry_after,
        opened_after,
        held_after,
    } = readback;
    match open_failure {
        Some(e) => {
            return Err(event_failure("read back published file", stage, e));
        },
        None => {},
    }
    let opened: FileIdentity = match opened {
        Err(e) => {
            return Err(event_failure("inspect published file", stage, e));
        },
        Ok(identity) => identity,
    };
    let held: FileIdentity = match held {
        Err(e) => {
            return Err(event_failure("inspect retained file", stage, e));
        },
        Ok(identity) => identity,
    };
    if !opened.regular || !same_file(&opened, &held) {
        return Err(
            event_failure(
                "verify published file identity",
                stage,
                invalid_data("published file no longer identifies the staged regular file"),
            ),
        );
    }
    match entry {
        Some(e) => {
            return Err(event_failure("verify published file identity", stage, e));
        },
        None => {},
    }
    let streamed: EventStreamReadback = match streamed {
        Err(e) => {
            return Err(event_failure("read back published file", stage, e));
        },
        Ok(streamed) => streamed,
    };
    match entry_after {
        Some(e) => {
            return Err(event_failure("verify published file identity", stage, e));
        },
        None => {},
    }
    let opened_after: FileIdentity = match opened_after {
        Err(e) => {
            return Err(event_failure("inspect published file", stage, e));
        },
        Ok(identity) => identity,
    };
    let held_after: FileIdentity = match held_after {
        Err(e) => {
            return Err(event_failure("inspect retained file", stage, e));
        },
        Ok(identity) => identity,
    };
    if !same_file(&opened_after, &held_after) {
        return Err(
            event_failure(
                "verify published file identity",
                stage,
                invalid_data("published file identity changed during read-back"),
            ),
        );
    }
    let EventStreamReadback { check, decoded } = streamed;
    if !check.same_as(&expected.check) {
        return Err(
            event_failure(
                "verify read-back bytes",
                stage,
                invalid_data("published bytes differ from the staged bytes"),
            ),
        );
    }
    match decoded {
        Err(e) => Err(Failure::storage(e)),
        Ok(d) => if d.facts != expected.facts {
            Err(
                event_failure(
                    "verify read-back event facts",
                    stage,
                    invalid_data("published event facts differ from the staged events"),
                ),
            )
        } else {
            Ok(EventFileSummary { check, facts: d.facts })
        },
    }
}

/// Says whether two byte sequences are equal.
fn same_bytes(a: &Vec<u8>, b: &Vec<u8>) -> (r: bool)
    ensures
        r == (a@ == b@),
{
    if a.len() != b.len() {
        return false;
    }
    for i in 0..a.len()
        invariant
            a@.len() == b@.len(),
            forall|j: int| 0 <= j < i ==> a@[j] == b@[j],
    {
        if a[i] != b[i] {
            return false;
        }
    }
    assert(a@ =~= b@);
    true
}

/// Checks that a published file holds the bytes that were staged.
pub fn read_back_exact(
    name: &str,
    actual: Result<Vec<u8>, IoError>,
    expected: &Vec<u8>,
    stage: CommitStage,
) -> (r: Result<Vec<u8>, CommitFailure>)
    ensures
        match r {
            Ok(bytes) => bytes@ == expected@ && (actual matches Ok(a) && a@ == expected@),
            Err(e) => e@ == (match actual {
                Err(source) => CommitView {
                    file: name@,
                    operation: "read back published file"@,
                    stage,
                    source: source@,
                },
                Ok(_) => CommitView {
                    file: name@,
                    operation: "verify read-back bytes"@,
                    stage,
                    source: checksum::invalid("published bytes differ from the staged bytes"@),
                },
            }) && !(actual matches Ok(a) && a@ == expected@),
        },
{
    match actual {
        Err(e) => Err(CommitFailure::new(name, "read back published file", stage, e)),
        Ok(bytes) => if same_bytes(&bytes, expected) {
            Ok(bytes)
        } else {
            Err(
                CommitFailure::new(
                    name,
                    "verify read-back bytes",
                    stage,
                    invalid_data("published bytes differ from the staged bytes"),
                ),
            )
        },
    }
}

/// Whether an event has another schema version than the current one.
pub open spec fn has_older_event(events: Seq<Event>) -> bool {
    exists|i: int| 0 <= i < events.len() && (#[trigger] events[i]).schema_version != 2
}

/// Why a record cannot be finalized.
pub open spec fn finish_fault(m: Metadata, events: Seq<Event>) -> Option<Seq<char>> {
    if m.schema_version != 3 || has_older_event(events) {
        Some("writer requires metadata schema 3 and event schema 2"@)
    } else {
        match contract::run_fault(m, EventFacts::of(views::each(events)), true) {
            Some(message) => Some(io::context("cannot finalize inconsistent metadata"@, message)),
            None => None,
        }
    }
}

/// Checks metadata and events before a record is finalized.
pub fn check_finish(metadata: &Metadata, events: &[Event]) -> (r: Result<(), String>)
    requires
        metadata.wf(),
    ensures
        match r {
            Ok(_) => finish_fault(*metadata, events@) is None,
            Err(message) => finish_fault(*metadata, events@) == Some(message@),
        },
{
    let mut older: bool = false;
    for i in 0..events.len()
        invariant
            older == (exists|j: int| 0 <= j < i && (#[trigger] events@[j]).schema_version != 2),
    {
        if events[i].schema_version != 2 {
            older = true;
            assert(events@[i as int].schema_version != 2);
        }
    }
    if metadata.schema_version != 3 || older {
        return Err("writer requires metadata schema 3 and event schema 2".to_owned());
    }
    match validate_run_contract(metadata, events, true) {
        Ok(_) => Ok(()),
        Err(v) => Err(with_context("cannot finalize inconsistent metadata", v.message.as_str())),
    }
}

/// Why a record cannot be finalized after its events were read back.
pub open spec fn reread_fault(m: Metadata, facts: EventFacts, stage: CommitStage) -> Option<CauseView> {
    match contract::run_fault(m, facts, true) {
        Some(message) => Some(
            CauseView::Other(io::context("cannot finalize inconsistent metadata"@, message)),
        ),
        None => if facts.count != m.parsed_events {
            Some(
                event_commit(
                    "verify read-back event count"@,
                    stage,
                    checksum::invalid("published event count differs from metadata"@),
                ),
            )
        } else {
            None
        },
    }
}

/// Checks metadata against the events that were read back.
pub fn check_reread(metadata: &Metadata, facts: &EventFacts, stage: CommitStage) -> (r: Result<
    (),
    Failure,
>)
    requires
        metadata.wf(),
    ensures
        match r {
            Ok(_) => reread_fault(*metadata, *facts, stage) is None,
            Err(e) => reread_fault(*metadata, *facts, stage) == Some(e@.cause) && e@.context is None,
        },
{
    match validate_run_contract_facts(metadata, facts, true) {
        Err(v) => {
            return Err(
                Failure::other(
                    with_context("cannot finalize inconsistent metadata", v.message.as_str()),
                ),
            );
        },
        Ok(_) => {},
    }
    if facts.count != metadata.parsed_events {
        return Err(
            event_failure(
                "verify read-back event count",
                stage,
                invalid_data("published event count differs from metadata"),
            ),
        );
    }
    Ok(())
}

/// Gives the marker that finalizes a record.
pub fn finalized_marker(metadata: &Metadata, events: &EventFileSummary, bytes: &Vec<u8>) -> (r:
    Finalized)
    ensures
        r.schema_version == 1,
        r.run_id@ == metadata.id@,
        r.event_count == events.facts.count,
        r.events@ == events.check@,
        r.metadata@.covers(bytes@),
{
    Finalized {
        schema_version: 1,
        run_id: metadata.id.clone(),
        event_count: events.facts.count,
        events: events.check.copy(),
        metadata: check(bytes.as_slice()),
    }
}

/// What finalizing a record does next.
#[derive(Debug)]
pub enum FinishAction {
    /// Write and publish the events.
    PublishEvents,
    /// Read the published events back.
    ReadBackEvents,
    /// Write and publish the metadata.
    PublishMetadata,
    /// Read the published metadata back.
    ReadBackMetadata,
    /// Write and publish the marker.
    PublishMarker(Finalized),
    /// Report that the record is finalized, or why it is not.
    Done(Result<(), Failure>),
}

/// What came of an action.
#[derive(Debug)]
pub enum FinishEvent {
    /// The events that were staged and how far they are published, or why not.
    EventsPublished(Result<(EventFileSummary, CommitStage), Failure>),
    /// What was observed of the published events.
    EventsRead(EventReadback),
    /// The metadata that was staged and how far it is published, or why not.
    MetadataPublished(Result<(Vec<u8>, CommitStage), Failure>),
    /// The published metadata, or why it could not be read.
    MetadataRead(Result<Vec<u8>, IoError>),
    /// Why the marker is not published.
    MarkerPublished(Option<Failure>),
}

/// How far finalizing a record has come.
#[derive(Debug)]
pub enum FinishPhase {
    /// Its events are being published.
    Events,
    /// These events are being read back.
    EventsBack(EventFileSummary, CommitStage),
    /// These events were read back; its metadata is being published.
    Metadata(EventFileSummary),
    /// These events and this metadata were published; the metadata is being read back.
    MetadataBack(EventFileSummary, Vec<u8>, CommitStage),
    /// Its marker is being published.
    Marker,
    /// It is finalized, or cannot be.
    Done,
}

impl FinishPhase {
    /// Whether a phase waits for an event.
    pub open spec fn awaits(self, event: FinishEvent) -> bool {
        match event {
            FinishEvent::EventsPublished(_) => self is Events,
            FinishEvent::EventsRead(_) => self is EventsBack,
            FinishEvent::MetadataPublished(_) => self is Metadata,
            FinishEvent::MetadataRead(_) => self is MetadataBack,
            FinishEvent::MarkerPublished(_) => self is Marker,
        }
    }

    /// What an event leads to: a failure ends everything, and the marker comes last,
    /// with what was read back of everything before it.
    pub open spec fn leads(self, m: Metadata, event: FinishEvent, next: FinishPhase, action: FinishAction) -> bool {
        match (self, event) {
            (FinishPhase::Events, FinishEvent::EventsPublished(Ok((summary, stage)))) => next
                == FinishPhase::EventsBack(summary, stage) && action is ReadBackEvents,
            (FinishPhase::Events, FinishEvent::EventsPublished(Err(e))) => next is Done && (
            action matches FinishAction::Done(Err(x)) && x == e),
            (FinishPhase::EventsBack(summary, stage), FinishEvent::EventsRead(readback)) => {
                let identity = identity_fault(readback, stage);
                let read = readback_fault(readback, summary, stage);
                let reread = reread_fault(m, summary.facts, stage);
                if identity is None && read is None && reread is None {
                    &&& next matches FinishPhase::Metadata(back)
                    &&& back.check@ == summary.check@
                    &&& back.facts == summary.facts
                    &&& action is PublishMetadata
                } else {
                    &&& next is Done
                    &&& action matches FinishAction::Done(Err(x))
                    &&& x@ == (FailureView {
                        context: None,
                        cause: if identity is Some {
                            identity->0
                        } else if read is Some {
                            read->0
                        } else {
                            reread->0
                        },
                    })
                }
            },
            (FinishPhase::Metadata(summary), FinishEvent::MetadataPublished(Ok((bytes, stage)))) =>
                next == FinishPhase::MetadataBack(summary, bytes, stage) && action
                is ReadBackMetadata,
            (FinishPhase::Metadata(_), FinishEvent::MetadataPublished(Err(e))) => next is Done && (
            action matches FinishAction::Done(Err(x)) && x == e),
            (FinishPhase::MetadataBack(summary, bytes, stage), FinishEvent::MetadataRead(read)) =>
            if read matches Ok(back) && back@ == bytes@ {
                &&& next is Marker
                &&& action matches FinishAction::PublishMarker(marker)
                &&& marker.schema_version == 1
                &&& marker.run_id@ == m.id@
                &&& marker.event_count == summary.facts.count
                &&& marker.events@ == summary.check@
                &&& marker.metadata@.covers(bytes@)
            } else {
                &&& next is Done
                &&& action matches FinishAction::Done(Err(x))
                &&& x@ == (FailureView {
                    context: None,
                    cause: CauseView::Commit(
                        CommitView {
                            file: "metadata.json"@,
                            operation: if read is Err {
                                "read back published file"@
                            } else {
                                "verify read-back bytes"@
                            },
                            stage,
                            source: match read {
                                Err(e) => e@,
                                Ok(_) => checksum::invalid(
                                    "published bytes differ from the staged bytes"@,
                                ),
                            },
                        },
                    ),
                })
            },
            (FinishPhase::Marker, FinishEvent::MarkerPublished(None)) => next is Done && (action
                matches FinishAction::Done(Ok(_))),
            (FinishPhase::Marker, FinishEvent::MarkerPublished(Some(e))) => next is Done && (action
                matches FinishAction::Done(Err(x)) && x == e),
            _ => true,
        }
    }

    /// Starts to finalize a record, unless its facts contradict each other.
    pub fn start(metadata: &Metadata, events: &[Event]) -> (r: (FinishPhase, FinishAction))
        requires
            metadata.wf(),
        ensures
            match finish_fault(*metadata, events@) {
                None => r.0 is Events && r.1 is PublishEvents,
                Some(message) => r.0 is Done && (r.1 matches FinishAction::Done(Err(x)) && x@ == (
                FailureView { context: None, cause: CauseView::Other(message) })),
            },
    {
        match check_finish(metadata, events) {
            Ok(_) => (FinishPhase::Events, FinishAction::PublishEvents),
            Err(message) => (FinishPhase::Done, FinishAction::Done(Err(Failure::other(message)))),
        }
    }

    /// Takes what came of the last action and gives the next one.
    pub fn step(self, metadata: &Metadata, event: FinishEvent) -> (r: (FinishPhase, FinishAction))
        requires
            metadata.wf(),
            self.awaits(event),
        ensures
            self.leads(*metadata, event, r.0, r.1),
    {
        match (self, event) {
            (FinishPhase::Events, FinishEvent::EventsPublished(Ok((summary, stage)))) => (
                FinishPhase::EventsBack(summary, stage),
                FinishAction::ReadBackEvents,
            ),
            (FinishPhase::Events, FinishEvent::EventsPublished(Err(e))) => (
                FinishPhase::Done,
                FinishAction::Done(Err(e)),
            ),
            (FinishPhase::EventsBack(summary, stage), FinishEvent::EventsRead(readback)) => {
                match read_back_published_events(readback, &summary, stage) {
                    Err(e) => (FinishPhase::Done, FinishAction::Done(Err(e))),
                    Ok(back) => match check_reread(metadata, &back.facts, stage) {
                        Err(e) => (FinishPhase::Done, FinishAction::Done(Err(e))),
                        Ok(_) => (FinishPhase::Metadata(back), FinishAction::PublishMetadata),
                    },
                }
            },
            (FinishPhase::Metadata(summary), FinishEvent::MetadataPublished(Ok((bytes, stage)))) => (
                FinishPhase::MetadataBack(summary, bytes, stage),
                FinishAction::ReadBackMetadata,
            ),
            (FinishPhase::Metadata(_), FinishEvent::MetadataPublished(Err(e))) => (
                FinishPhase::Done,
                FinishAction::Done(Err(e)),
            ),
            (FinishPhase::MetadataBack(summary, bytes, stage), FinishEvent::MetadataRead(read)) => {
                match read_back_exact("metadata.json", read, &bytes, stage) {
                    Err(e) => (FinishPhase::Done, FinishAction::Done(Err(Failure::commit(e)))),
                    Ok(back) => (
                        FinishPhase::Marker,
                        FinishAction::PublishMarker(finalized_marker(metadata, &summary, &back)),
                    ),
                }
            },
            (FinishPhase::Marker, FinishEvent::MarkerPublished(None)) => (
                FinishPhase::Done,
                FinishAction::Done(Ok(())),
            ),
            (FinishPhase::Marker, FinishEvent::MarkerPublished(Some(e))) => (
                FinishPhase::Done,
                FinishAction::Done(Err(e)),
            ),
            (phase, _) => (phase, FinishAction::Done(Ok(()))),
        }
    }
}

/// Whether the initial metadata of a record was written.
#[derive(Debug, Clone, Copy, PartialEq, Eq, Structural)]
pub enum InitialMetadata {
    /// It was not.
    Unwritten,
    /// Writing it failed, which is final: it may have been published.
    Failed,
    /// It was.
    Written,
}

/// Why initial metadata cannot be written.
pub open spec fn initial_fault(
    state: InitialMetadata,
    id: Seq<char>,
    name: Seq<char>,
    m: Metadata,
) -> Option<Seq<char>> {
    if !(state is Unwritten) {
        Some("initial metadata was already written or its publication failed"@)
    } else if m.id@ != id || m.name@ != name {
        Some("metadata identity does not match the active record writer"@)
    } else {
        match contract::metadata_fault(m) {
            Some(message) => Some(io::context("invalid metadata contract"@, message)),
            None => if m.state@ != "running"@ {
                Some("initial metadata must describe a running capture"@)
            } else {
                None
            },
        }
    }
}

/// Checks initial metadata before it is written.
pub fn check_initial(state: InitialMetadata, id: &str, name: &str, metadata: &Metadata) -> (r: Result<
    (),
    String,
>)
    requires
        metadata.wf(),
    ensures
        match r {
            Ok(_) => initial_fault(state, id@, name@, *metadata) is None,
            Err(message) => initial_fault(state, id@, name@, *metadata) == Some(message@),
        },
{
    if state != InitialMetadata::Unwritten {
        return Err("initial metadata was already written or its publication failed".to_owned());
    }
    if !text::same(metadata.id.as_str(), id) || !text::same(metadata.name.as_str(), name) {
        return Err("metadata identity does not match the active record writer".to_owned());
    }
    match validate_metadata_contract(metadata) {
        Err(v) => {
            return Err(with_context("invalid metadata contract", v.message.as_str()));
        },
        Ok(_) => {},
    }
    if !text::same(metadata.state.as_str(), "running") {
        return Err("initial metadata must describe a running capture".to_owned());
    }
    Ok(())
}

/// Why the writer of a record cannot finalize it.
pub open spec fn writer_fault(
    state: InitialMetadata,
    id: Seq<char>,
    name: Seq<char>,
    m: Metadata,
) -> Option<Seq<char>> {
    if !(state is Written) {
        Some("record finalization requires successfully written initial metadata"@)
    } else if m.id@ != id || m.name@ != name {
        Some("metadata identity does not match the active record writer"@)
    } else {
        None
    }
}

/// Checks that the writer of a record may finalize it.
pub fn check_writer(state: InitialMetadata, id: &str, name: &str, metadata: &Metadata) -> (r: Result<
    (),
    String,
>)
    ensures
        match r {
            Ok(_) => writer_fault(state, id@, name@, *metadata) is None,
            Err(message) => writer_fault(state, id@, name@, *metadata) == Some(message@),
        },
{
    if state != InitialMetadata::Written {
        return Err(
            "record finalization requires successfully written initial metadata".to_owned(),
        );
    }
    if !text::same(metadata.id.as_str(), id) || !text::same(metadata.name.as_str(), name) {
        return Err("metadata identity does not match the active record writer".to_owned());
    }
    Ok(())
}

/// The marker that finalizing a record publishes covers the metadata that was read
/// back, and names the check and the number of the events that were read back.
pub proof fn marker_comes_last(m: Metadata, phase: FinishPhase, event: FinishEvent, next: FinishPhase, action: FinishAction)
    requires
        phase.awaits(event),
        phase.leads(m, event, next, action),
        action is PublishMarker,
        !(phase is Done),
    ensures
        phase matches FinishPhase::MetadataBack(summary, bytes, stage) && event
            matches FinishEvent::MetadataRead(Ok(back)) && back@ == bytes@ && (
        action->PublishMarker_0).metadata@.covers(back@) && (action->PublishMarker_0).events@
            == summary.check@ && (action->PublishMarker_0).event_count == summary.facts.count,
{
}

/// A recording of any trace is never refused when it is finalized.
pub proof fn recordings_can_be_finalized(
    initial_cwd: Seq<char>,
    lines: Seq<Seq<char>>,
    begun: Metadata,
    captured: Captured,
    session: SessionView,
    r: Concluded,
    range: SignalRange,
)
    requires
        lines.len() <= usize::MAX,
        completion::trace_start(initial_cwd).push_lines(lines).gives(captured.parsed),
        2 * captured.parsed.events@.len() <= usize::MAX,
        record::concludes(begun, captured, session, r, range),
        begun.schema_version == 3,
        contract::request_fault(begun) is None,
    ensures
        finish_fault(r.metadata, r.events@) is None,
{
    contract::concluded_runs_meet_the_contract(
        initial_cwd,
        lines,
        begun,
        captured,
        session,
        r,
        range,
    );
}

/// What an [`EventJsonlStaging`] holds after the lines of the first `n` events.
pub open spec fn staged_upto(lines: Seq<Seq<u8>>, events: Seq<EventView>, n: int) -> (
    Seq<u8>,
    EventFacts,
)
    decreases n,
{
    if n <= 0 {
        (Seq::empty(), EventFacts::none())
    } else {
        let before = staged_upto(lines, events, n - 1);
        (before.0 + lines[n - 1], before.1.with(events[n - 1]))
    }
}

/// What an [`events::EventStream`] holds after the first `n` lines, each decoded to its
/// event.
pub open spec fn streamed_upto(
    mode: EventReadMode,
    lines: Seq<Seq<u8>>,
    events: Seq<EventView>,
    n: int,
) -> StreamView
    decreases n,
{
    if n <= 0 {
        StreamView::start(mode)
    } else {
        streamed_upto(mode, lines, events, n - 1).took(lines[n - 1]).decoded(
            Ok(events[n - 1]),
        )
    }
}

/// Events that were staged are read back: lines that end and are text, and that are
/// decoded to the events that they were written for, have the bytes and the facts that
/// were staged, and nothing is wrong with them.
pub proof fn staged_events_read_back(
    mode: EventReadMode,
    lines: Seq<Seq<u8>>,
    events: Seq<EventView>,
    n: int,
)
    requires
        0 <= n <= lines.len(),
        lines.len() == events.len(),
        forall|i: int|
            0 <= i < lines.len() ==> valid_utf8(#[trigger] lines[i]) && lines[i].len() > 0
                && lines[i].last() == 10,
    ensures
        ({
            let staged = staged_upto(lines, events, n);
            let streamed = streamed_upto(mode, lines, events, n);
            &&& streamed.bytes == staged.0
            &&& streamed.facts == staged.1
            &&& streamed.facts == EventFacts::upto(events, n)
            &&& streamed.fault() is None
            &&& streamed.events == (match mode {
                EventReadMode::CollectEvents => Some(events.take(n)),
                EventReadMode::ValidateOnly => None,
            })
        }),
    decreases n,
{
    if n > 0 {
        staged_events_read_back(mode, lines, events, n - 1);
        assert(valid_utf8(lines[n - 1]));
        assert(events.take(n) =~= events.take(n - 1).push(events[n - 1]));
    } else {
        assert(events.take(0) =~= Seq::<EventView>::empty());
    }
}

} // verus!
