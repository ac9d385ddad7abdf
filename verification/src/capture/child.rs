//! Ownership of a supervised child until it has been reaped.
use vstd::prelude::*;
use vstd::string::*;

use crate::capture::facts::ProcessExit;
use crate::errno;
use crate::io;
use crate::io::{with_context, IoError};
use crate::views;

verus! {

/// The signal disposition of `SIGCHLD` before a child is spawned.
#[derive(Debug, Clone, Copy, PartialEq, Eq, Structural)]
pub struct ChildDisposition {
    /// Whether the disposition is the default one.
    pub default_action: bool,
    /// Whether exited children are not kept.
    pub discards_children: bool,
}

/// Proof checked immediately before spawning a direct child. A default `SIGCHLD`
/// disposition that keeps exited children retains them until this owner reaps
/// them; an ignored signal, automatic reaping, or an inherited handler cannot
/// provide that guarantee.
#[derive(Debug, Clone, Copy, PartialEq, Eq)]
pub struct ChildWaitability {
    waitable: bool,
}

impl ChildWaitability {
    /// Whether children are kept until they are reaped.
    pub open spec fn keeps(action: ChildDisposition) -> bool {
        action.default_action && !action.discards_children
    }

    /// Checks the disposition of `SIGCHLD`.
    pub fn from_action(action: ChildDisposition) -> (r: Result<ChildWaitability, String>)
        ensures
            match r {
                Ok(_) => ChildWaitability::keeps(action),
                Err(message) => !ChildWaitability::keeps(action) && message@
                    == "SIGCHLD disposition cannot safely supervise child lifetimes: requires SIG_DFL without SA_NOCLDWAIT"@,
            },
    {
        if !action.default_action || action.discards_children {
            Err(
                "SIGCHLD disposition cannot safely supervise child lifetimes: requires SIG_DFL without SA_NOCLDWAIT".to_owned(),
            )
        } else {
            Ok(ChildWaitability { waitable: true })
        }
    }
}

/// Whether a spawned child is still owned.
#[derive(Debug, Clone, Copy, PartialEq, Eq, Structural)]
pub enum ChildOwnership {
    /// No other reaper or auto-reaping signal disposition can release the PID.
    Waitable,
    /// A successful wait consumed the owned child.
    Reaped,
    /// `ESRCH` or `ECHILD` disproved ownership; no cleanup may signal it.
    Lost,
}

impl ChildOwnership {
    /// The ownership once the handle of a new child could not be opened.
    pub open spec fn unopened(code: Option<i32>) -> ChildOwnership {
        if code == Some(errno::linux_errno().esrch) {
            ChildOwnership::Lost
        } else {
            ChildOwnership::Waitable
        }
    }

    /// Gives the ownership once the handle of a new child could not be opened.
    pub fn after_open_failure(error: &IoError) -> (r: ChildOwnership)
        ensures
            r == ChildOwnership::unopened(error.code),
    {
        if error.code == Some(errno::errno().esrch) {
            ChildOwnership::Lost
        } else {
            ChildOwnership::Waitable
        }
    }

    /// The ownership after a wait: nothing, or the error number that came back.
    pub open spec fn waited(self, failure: Option<Option<i32>>) -> ChildOwnership {
        match failure {
            None => ChildOwnership::Reaped,
            Some(code) => if code == Some(errno::linux_errno().echild) {
                ChildOwnership::Lost
            } else {
                self
            },
        }
    }

    /// Notes the result of a wait.
    pub fn observe_wait(&mut self, result: &Result<ProcessExit, IoError>)
        ensures
            *final(self) == old(self).waited(
                match *result {
                    Ok(_) => None,
                    Err(error) => Some(error.code),
                },
            ),
    {
        match result {
            Ok(_) => {
                *self = ChildOwnership::Reaped;
            },
            Err(error) => {
                if error.code == Some(errno::errno().echild) {
                    *self = ChildOwnership::Lost;
                }
            },
        }
    }

    /// Whether cleanup may signal and wait for the child.
    pub open spec fn owned(self) -> bool {
        self is Waitable
    }

    /// Says whether cleanup may signal and wait for the child.
    pub fn may_signal(self) -> (r: bool)
        ensures
            r == self.owned(),
    {
        self == ChildOwnership::Waitable
    }
}

/// What a failed signal to a child amounts to: a child that is already gone is no
/// failure.
pub open spec fn signal_fault(words: Seq<char>, code: Option<i32>, message: Seq<char>) -> Option<
    Seq<char>,
> {
    if code == Some(errno::linux_errno().esrch) {
        None
    } else {
        Some(io::context(words, message))
    }
}

/// Gives what the result of a signal to a child amounts to.
pub fn signal_error(words: &str, result: &Result<(), IoError>) -> (r: Option<String>)
    ensures
        views::opt(r) == (match *result {
            Ok(_) => None,
            Err(error) => signal_fault(words@, error.code, error.message@),
        }),
{
    match result {
        Ok(_) => None,
        Err(error) => {
            if error.code == Some(errno::errno().esrch) {
                None
            } else {
                Some(with_context(words, error.message.as_str()))
            }
        },
    }
}

/// What a termination and the wait behind it amount to.
pub open spec fn termination(terminate: Option<Seq<char>>, reap: Result<ProcessExit, Seq<char>>) -> Result<
    ProcessExit,
    Seq<char>,
> {
    match (terminate, reap) {
        (None, Ok(exit)) => Ok(exit),
        (Some(error), Ok(_)) => Err(error),
        (None, Err(error)) => Err(error),
        (Some(t), Err(r)) => Err(t + "; additionally failed to reap collector: "@ + r),
    }
}

/// A result over the text of its error.
pub open spec fn plain<T>(result: Result<T, String>) -> Result<T, Seq<char>> {
    match result {
        Ok(value) => Ok(value),
        Err(error) => Err(error@),
    }
}

/// Gives what a termination and the wait behind it amount to.
pub fn combine_termination(
    terminate: Option<String>,
    reap: Result<ProcessExit, String>,
) -> (r: Result<ProcessExit, String>)
    ensures
        plain(r) == termination(views::opt(terminate), plain(reap)),
{
    match (terminate, reap) {
        (None, Ok(exit)) => Ok(exit),
        (Some(error), Ok(_)) => Err(error),
        (None, Err(error)) => Err(error),
        (Some(t), Err(r)) => {
            let mut s: String = t;
            s.append("; additionally failed to reap collector: ");
            s.append(r.as_str());
            Err(s)
        },
    }
}

/// An error with that of the cleanup after it.
pub open spec fn cleanup_text(primary: Seq<char>, cleanup: Option<Seq<char>>) -> Seq<char> {
    match cleanup {
        None => primary,
        Some(error) => primary + "; collector termination/reap also failed: "@ + error,
    }
}

/// Adds the error of a cleanup to the error that called for it.
pub fn with_cleanup_error(primary: String, cleanup: Option<String>) -> (r: String)
    ensures
        r@ == cleanup_text(primary@, views::opt(cleanup)),
{
    match cleanup {
        None => primary,
        Some(error) => {
            let mut s: String = primary;
            s.append("; collector termination/reap also failed: ");
            s.append(error.as_str());
            s
        },
    }
}

/// Why a child is brought to its end.
pub enum EndReason {
    /// It is ready to be waited for.
    Finish,
    /// Something else went wrong.
    Abort(String),
    /// It is to be terminated.
    Cancel,
}

/// What the end of a child waits for.
pub enum EndPhase {
    /// An ordinary wait.
    Waiting,
    /// The signal that terminates it; behind it the error that called for it stands, if
    /// there is one.
    Killing(Option<String>),
    /// The wait behind the signal, with that error and the error of the signal.
    Reaping(Option<String>, Option<String>),
    /// Nothing more.
    Done,
}

/// What is to be done next to bring a child to its end.
pub enum EndAction {
    /// Wait for it.
    Wait,
    /// Terminate it.
    Kill,
    /// Report its status.
    Report(Result<ProcessExit, String>),
}

/// What came of an action.
pub enum EndEvent {
    /// It was waited for.
    Waited(Result<ProcessExit, IoError>),
    /// It was signalled.
    Killed(Result<(), IoError>),
}

/// The error for a child that is no longer owned.
pub open spec fn disowned_text() -> Seq<char> {
    "collector child ownership is no longer available for termination/reaping"@
}

/// Whether a child comes to its end with an error behind which it is terminated, as far
/// as it is still owned.
pub open spec fn cleans_up(
    ownership: ChildOwnership,
    primary: Seq<char>,
    next: ChildEnding,
    action: EndAction,
) -> bool {
    &&& next.ownership == ownership
    &&& if ownership.owned() {
        &&& next.phase matches EndPhase::Killing(Some(error))
        &&& error@ == primary
        &&& action is Kill
    } else {
        &&& next.phase is Done
        &&& action matches EndAction::Report(Err(error))
        &&& error@ == primary
    }
}

/// A child that is brought to its end.
///
/// It is terminated only while it is owned: the number of a child that was reaped or
/// lost may belong to another process.
pub struct ChildEnding {
    /// Whether the child is still owned.
    pub ownership: ChildOwnership,
    /// What is waited for.
    pub phase: EndPhase,
}

impl ChildEnding {
    /// Whether a reason begins an end.
    pub open spec fn begins(
        ownership: ChildOwnership,
        reason: EndReason,
        next: ChildEnding,
        action: EndAction,
    ) -> bool {
        match reason {
            EndReason::Finish => next == (ChildEnding { ownership, phase: EndPhase::Waiting })
                && action is Wait,
            EndReason::Abort(error) => cleans_up(ownership, error@, next, action),
            EndReason::Cancel => {
                &&& next.ownership == ownership
                &&& if ownership.owned() {
                    next.phase == EndPhase::Killing(None) && action is Kill
                } else {
                    &&& next.phase is Done
                    &&& action matches EndAction::Report(Err(error))
                    &&& error@ == disowned_text()
                }
            },
        }
    }

    /// Whether an event is waited for.
    pub open spec fn awaits(self, event: EndEvent) -> bool {
        match event {
            EndEvent::Waited(_) => self.phase is Waiting || self.phase is Reaping,
            EndEvent::Killed(_) => self.phase is Killing,
        }
    }

    /// What an event leads to.
    pub open spec fn leads(self, event: EndEvent, next: ChildEnding, action: EndAction) -> bool {
        match (self.phase, event) {
            (EndPhase::Waiting, EndEvent::Waited(Ok(exit))) => {
                &&& next.ownership == self.ownership.waited(None)
                &&& next.phase is Done
                &&& action == EndAction::Report(Ok(exit))
            },
            (EndPhase::Waiting, EndEvent::Waited(Err(e))) => cleans_up(
                self.ownership.waited(Some(e.code)),
                io::context("failed waiting for collector"@, e.message@),
                next,
                action,
            ),
            (EndPhase::Killing(primary), EndEvent::Killed(result)) => {
                &&& next.ownership == self.ownership
                &&& next.phase matches EndPhase::Reaping(p, terminate)
                &&& p == primary
                &&& views::opt(terminate) == (match result {
                    Ok(_) => None,
                    Err(e) => signal_fault("failed to terminate collector"@, e.code, e.message@),
                })
                &&& action is Wait
            },
            (EndPhase::Reaping(primary, terminate), EndEvent::Waited(result)) => {
                let ended = termination(
                    views::opt(terminate),
                    match result {
                        Ok(exit) => Ok(exit),
                        Err(e) => Err(
                            io::context("failed to reap collector after termination"@, e.message@),
                        ),
                    },
                );
                &&& next.ownership == self.ownership.waited(
                    match result {
                        Ok(_) => None,
                        Err(e) => Some(e.code),
                    },
                )
                &&& next.phase is Done
                &&& action matches EndAction::Report(r)
                &&& plain(r) == (match views::opt(primary) {
                    None => ended,
                    Some(error) => Err(
                        cleanup_text(
                            error,
                            match ended {
                                Ok(_) => None,
                                Err(cleanup) => Some(cleanup),
                            },
                        ),
                    ),
                })
            },
            _ => true,
        }
    }

    /// Terminates a child behind an error, as far as it is owned.
    fn clean_up(ownership: ChildOwnership, primary: String) -> (r: (ChildEnding, EndAction))
        ensures
            cleans_up(ownership, primary@, r.0, r.1),
    {
        if ownership.may_signal() {
            (ChildEnding { ownership, phase: EndPhase::Killing(Some(primary)) }, EndAction::Kill)
        } else {
            (ChildEnding { ownership, phase: EndPhase::Done }, EndAction::Report(Err(primary)))
        }
    }

    /// Begins to bring a child to its end.
    pub fn begin(ownership: ChildOwnership, reason: EndReason) -> (r: (ChildEnding, EndAction))
        ensures
            ChildEnding::begins(ownership, reason, r.0, r.1),
    {
        match reason {
            EndReason::Finish => (
                ChildEnding { ownership, phase: EndPhase::Waiting },
                EndAction::Wait,
            ),
            EndReason::Abort(error) => ChildEnding::clean_up(ownership, error),
            EndReason::Cancel => if ownership.may_signal() {
                (ChildEnding { ownership, phase: EndPhase::Killing(None) }, EndAction::Kill)
            } else {
                (
                    ChildEnding { ownership, phase: EndPhase::Done },
                    EndAction::Report(
                        Err(
                            "collector child ownership is no longer available for termination/reaping".to_owned(),
                        ),
                    ),
                )
            },
        }
    }

    /// Takes what came of the action that was asked for and gives the next.
    pub fn step(self, event: EndEvent) -> (r: (ChildEnding, EndAction))
        requires
            self.awaits(event),
        ensures
            self.leads(event, r.0, r.1),
    {
        let ChildEnding { ownership, phase } = self;
        let mut ownership: ChildOwnership = ownership;
        match (phase, event) {
            (EndPhase::Reaping(primary, terminate), EndEvent::Waited(result)) => {
                ownership.observe_wait(&result);
                let reap: Result<ProcessExit, String> = match result {
                    Ok(exit) => Ok(exit),
                    Err(e) => Err(
                        with_context(
                            "failed to reap collector after termination",
                            e.message.as_str(),
                        ),
                    ),
                };
                let ended: Result<ProcessExit, String> = combine_termination(terminate, reap);
                let report: Result<ProcessExit, String> = match primary {
                    None => ended,
                    Some(error) => {
                        let cleanup: Option<String> = match ended {
                            Ok(_) => None,
                            Err(cleanup) => Some(cleanup),
                        };
                        Err(with_cleanup_error(error, cleanup))
                    },
                };
                (ChildEnding { ownership, phase: EndPhase::Done }, EndAction::Report(report))
            },
            (EndPhase::Killing(primary), EndEvent::Killed(result)) => {
                let terminate: Option<String> = signal_error(
                    "failed to terminate collector",
                    &result,
                );
                (
                    ChildEnding { ownership, phase: EndPhase::Reaping(primary, terminate) },
                    EndAction::Wait,
                )
            },
            (_, EndEvent::Waited(result)) => {
                ownership.observe_wait(&result);
                match result {
                    Ok(exit) => (
                        ChildEnding { ownership, phase: EndPhase::Done },
                        EndAction::Report(Ok(exit)),
                    ),
                    Err(e) => ChildEnding::clean_up(
                        ownership,
                        with_context("failed waiting for collector", e.message.as_str()),
                    ),
                }
            },
            (phase, _) => (ChildEnding { ownership, phase }, EndAction::Wait),
        }
    }
}

/// A child that was reaped or lost is never signalled, neither at the beginning of its
/// end nor on the way, and nobody comes to own it again.
pub proof fn disowned_children_are_never_signalled(
    ownership: ChildOwnership,
    reason: EndReason,
    ending: ChildEnding,
    event: EndEvent,
    next: ChildEnding,
    action: EndAction,
)
    requires
        ChildEnding::begins(ownership, reason, next, action) || (ending.awaits(event)
            && ending.leads(event, next, action) && ending.ownership == ownership),
    ensures
        action is Kill ==> next.ownership.owned(),
        !ownership.owned() ==> !next.ownership.owned() && !(action is Kill),
{
}

} // verus!
