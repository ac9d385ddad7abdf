//! The probe of the tracing backend for its version.
use vstd::prelude::*;
use vstd::string::*;

use crate::capture::child;
use crate::capture::facts::ProcessExit;
use crate::io;
use crate::io::with_context;
use crate::numbers;
use crate::text;
use crate::views;

verus! {

/// How long the probe may take, in nanoseconds.
pub const VERSION_PROBE_TIMEOUT: u128 = 5_000_000_000;

/// How many bytes the probe may write to a stream.
pub const VERSION_STREAM_LIMIT: usize = 65_536;

/// How many bytes of what the probe wrote an error shows.
pub const VERSION_ERROR_DISPLAY_LIMIT: u128 = 4_096;

/// What came of one read from a pipe of the probe.
#[derive(Debug, PartialEq, Eq)]
pub enum PipeRead {
    /// Bytes, or none at the end of the stream.
    Bytes(Vec<u8>),
    /// The read was interrupted.
    Interrupted,
    /// Nothing is there yet.
    WouldBlock,
    /// The read failed, and why.
    Failed(String),
}

/// What the probe has written to a stream so far.
#[derive(Debug, PartialEq, Eq)]
pub struct CapturedPipe {
    /// The bytes.
    pub bytes: Vec<u8>,
    /// Whether the stream has ended.
    pub eof: bool,
    /// The name of the stream.
    pub name: String,
}

impl CapturedPipe {
    /// Starts to capture a stream.
    pub fn new(name: &str) -> (r: CapturedPipe)
        ensures
            r.bytes@ == Seq::<u8>::empty(),
            !r.eof,
            r.name@ == name@,
    {
        CapturedPipe { bytes: Vec::new(), eof: false, name: name.to_owned() }
    }

    /// Whether a read gives more than the stream may hold.
    pub open spec fn overflows(self, read: PipeRead) -> bool {
        read matches PipeRead::Bytes(chunk) && chunk@.len() > 0 && self.bytes@.len() + chunk@.len()
            > VERSION_STREAM_LIMIT
    }

    /// What is wrong with a read.
    pub open spec fn fault(self, read: PipeRead) -> Option<Seq<char>> {
        match read {
            PipeRead::Failed(message) => Some(
                io::context("read strace version probe "@ + self.name@, message@),
            ),
            _ => if self.overflows(read) {
                Some(
                    "strace version probe "@ + self.name@ + " exceeded "@ + numbers::decimal(
                        VERSION_STREAM_LIMIT as nat,
                    ) + "-byte limit"@,
                )
            } else {
                None
            },
        }
    }

    /// Says whether the stream is still to be read.
    pub fn may_read(&self) -> (r: bool)
        ensures
            r == !self.eof,
    {
        !self.eof
    }

    /// Takes one read, and says whether to read again. Of a stream that has ended
    /// nothing is taken. What was held stays in front of what comes, and a stream
    /// within its limit stays within it.
    pub fn drain(&mut self, read: PipeRead) -> (r: Result<bool, String>)
        ensures
            old(self).eof ==> r == Ok::<bool, String>(false) && *final(self) == *old(self),
            !old(self).eof ==> match r {
                Ok(again) => old(self).fault(read) is None && again == (match read {
                    PipeRead::Bytes(chunk) => chunk@.len() > 0,
                    PipeRead::Interrupted => true,
                    _ => false,
                }),
                Err(message) => old(self).fault(read) == Some(message@),
            },
            !old(self).eof ==> final(self).eof == (read matches PipeRead::Bytes(chunk)
                && chunk@.len() == 0),
            !old(self).eof ==> final(self).bytes@ == (match read {
                PipeRead::Bytes(chunk) if !old(self).overflows(read) => old(self).bytes@ + chunk@,
                _ => old(self).bytes@,
            }),
            final(self).name == old(self).name,
            old(self).bytes@.is_prefix_of(final(self).bytes@),
            old(self).bytes@.len() <= VERSION_STREAM_LIMIT ==> final(self).bytes@.len()
                <= VERSION_STREAM_LIMIT,
    {
        if self.eof {
            return Ok(false);
        }
        match read {
            PipeRead::Bytes(chunk) => {
                if chunk.len() == 0 {
                    self.eof = true;
                    assert(self.bytes@ =~= self.bytes@ + chunk@);
                    return Ok(false);
                }
                let held: usize = self.bytes.len();
                if held > VERSION_STREAM_LIMIT || chunk.len() > VERSION_STREAM_LIMIT - held {
                    let mut s: String = "strace version probe ".to_owned();
                    s.append(self.name.as_str());
                    s.append(" exceeded ");
                    s.append(numbers::decimal_string(VERSION_STREAM_LIMIT as u128).as_str());
                    s.append("-byte limit");
                    return Err(s);
                }
                let mut chunk: Vec<u8> = chunk;
                self.bytes.append(&mut chunk);
                Ok(true)
            },
            PipeRead::Interrupted => Ok(true),
            PipeRead::WouldBlock => Ok(false),
            PipeRead::Failed(message) => {
                let mut words: String = "read strace version probe ".to_owned();
                words.append(self.name.as_str());
                Err(with_context(words.as_str(), message.as_str()))
            },
        }
    }
}

/// The words behind a shortened text.
pub open spec fn truncation_suffix(bytes: nat) -> Seq<char> {
    " [truncated; stderr was "@ + numbers::decimal(bytes) + " bytes]"@
}

/// Whether a text is what an error shows of what the probe wrote: all of it where it
/// is short, and as many first characters as leave room for the suffix otherwise.
pub open spec fn shows(r: Seq<char>, rendered: Seq<char>, bytes: nat) -> bool {
    let t = text::trimmed(rendered);
    let suffix = truncation_suffix(bytes);
    let room = VERSION_ERROR_DISPLAY_LIMIT - text::width(suffix);
    if text::width(t) <= VERSION_ERROR_DISPLAY_LIMIT {
        r == (if t.len() == 0 {
            "(no stderr)"@
        } else {
            t
        })
    } else {
        exists|k: int|
            text::fits(t, if room < 0 {
                0
            } else {
                room
            }, k) && r == #[trigger] t.take(k) + suffix
    }
}

/// Gives what an error shows of what the probe wrote, given as text and in bytes.
pub fn version_error_text(rendered: &str, bytes: usize) -> (r: String)
    ensures
        shows(r@, rendered@, bytes as nat),
{
    let t: &str = text::trim(rendered);
    let n: usize = t.unicode_len();
    if text::width_of(t) <= VERSION_ERROR_DISPLAY_LIMIT {
        return if n == 0 {
            "(no stderr)".to_owned()
        } else {
            t.to_owned()
        };
    }
    let mut suffix: String = " [truncated; stderr was ".to_owned();
    suffix.append(numbers::decimal_string(bytes as u128).as_str());
    suffix.append(" bytes]");
    let taken: u128 = text::width_of(suffix.as_str());
    let room: u128 = if taken > VERSION_ERROR_DISPLAY_LIMIT {
        0
    } else {
        VERSION_ERROR_DISPLAY_LIMIT - taken
    };
    proof {
        text::width_grows(suffix@, 0, suffix@.len() as int);
    }
    let k: usize = text::fitting(t, room);
    let mut s: String = t.substring_char(0, k).to_owned();
    s.append(suffix.as_str());
    assert(t@.subrange(0, k as int) =~= t@.take(k as int));
    s
}

/// Gives what an error shows of what the probe wrote.
pub fn version_error_display(stderr: &Vec<u8>) -> (r: String)
    ensures
        shows(r@, text::lossy_text(stderr@), stderr@.len()),
{
    let rendered: String = text::lossy_string(stderr);
    version_error_text(rendered.as_str(), stderr.len())
}

/// What the probe came to.
#[derive(Debug, PartialEq, Eq)]
pub enum VersionProbeOutcome {
    /// The backend wrote its version.
    Completed(Vec<u8>),
    /// The recorder was stopped, and what went wrong with the probe then.
    Cancelled(Option<String>),
}

/// Gives the outcome of a probe that the recorder cancelled.
pub fn cancelled_version_probe(failure: Option<String>) -> (r: VersionProbeOutcome)
    ensures
        r matches VersionProbeOutcome::Cancelled(error) && views::opt(error) == (match views::opt(
            failure,
        ) {
            Some(e) => Some(
                io::context("failed to terminate/reap cancelled version probe"@, e),
            ),
            None => None,
        }),
{
    match failure {
        Some(e) => VersionProbeOutcome::Cancelled(
            Some(with_context("failed to terminate/reap cancelled version probe", e.as_str())),
        ),
        None => VersionProbeOutcome::Cancelled(None),
    }
}

/// The words for the end of a probe that gave no version.
pub open spec fn failure_words(exit: ProcessExit) -> Seq<char> {
    match exit {
        ProcessExit::Exited(code) => "strace version probe exited nonzero ("@ + numbers::signed(
            code as int,
        ) + "): "@,
        ProcessExit::Signaled(signal) => "strace version probe terminated by signal "@
            + numbers::signed(signal as int) + ": "@,
        ProcessExit::Unknown => "strace version probe completion was not observable: "@,
    }
}

/// Gives the outcome of a probe that ended, given what it wrote to its error stream
/// as an error shows it.
pub fn probe_result(exit: ProcessExit, stdout: Vec<u8>, display: &str) -> (r: Result<Vec<u8>, String>)
    ensures
        match r {
            Ok(bytes) => exit == ProcessExit::Exited(0) && bytes@ == stdout@,
            Err(message) => exit != ProcessExit::Exited(0) && message@ == failure_words(exit)
                + display@,
        },
{
    let mut s: String = match exit {
        ProcessExit::Exited(code) => {
            if code == 0 {
                return Ok(stdout);
            }
            let mut s: String = "strace version probe exited nonzero (".to_owned();
            s.append(numbers::signed_string(code).as_str());
            s.append("): ");
            s
        },
        ProcessExit::Signaled(signal) => {
            let mut s: String = "strace version probe terminated by signal ".to_owned();
            s.append(numbers::signed_string(signal).as_str());
            s.append(": ");
            s
        },
        ProcessExit::Unknown => "strace version probe completion was not observable: ".to_owned(),
    };
    s.append(display);
    Err(s)
}

/// What a wait for the probe found.
#[derive(Debug, Clone, Copy, PartialEq, Eq, Structural)]
pub struct ProbeReadiness {
    /// Whether anything happened before the deadline.
    pub any: bool,
    /// Whether a descriptor is invalid.
    pub invalid: bool,
    /// Whether a recorder signal may be pending.
    pub signal: bool,
    /// Whether the probe has ended.
    pub probe: bool,
    /// Whether the probe wrote output.
    pub stdout: bool,
    /// Whether the probe wrote errors.
    pub stderr: bool,
}

/// What the supervision of the probe does next.
#[derive(Debug, PartialEq, Eq)]
pub enum ProbeAction {
    /// Look whether a control signal was observed.
    Observe,
    /// Wait for a signal, the probe, or its output.
    Poll,
    /// Read what is there of the output.
    DrainStdout,
    /// Read what is there of the errors.
    DrainStderr,
    /// Wait for the probe, which has ended.
    Finish,
    /// Kill the probe, wait for it, and report the cancellation.
    Cancel,
    /// Clean up after a failure and report it.
    Abort(String),
    /// Report a failure; the probe is gone already.
    Fail(String),
    /// Report a cancellation; the probe is gone already.
    Cancelled,
    /// Report how the probe ended.
    Report(ProcessExit),
}

/// What came of an action.
#[derive(Debug, PartialEq, Eq)]
pub enum ProbeEvent {
    /// Whether a control signal was observed, or why there was no looking.
    Observed(Result<bool, String>),
    /// What a wait found, or why it failed.
    Polled(Result<ProbeReadiness, String>),
    /// Why a stream could not be read.
    Drained(Option<String>),
    /// How the probe ended, or why there was no waiting for it.
    Waited(Result<ProcessExit, String>),
}

/// What a [`ProbeAction`] says.
pub enum ProbeActionView {
    /// Look whether a control signal was observed.
    Observe,
    /// Wait for a signal, the probe, or its output.
    Poll,
    /// Read what is there of the output.
    DrainStdout,
    /// Read what is there of the errors.
    DrainStderr,
    /// Wait for the probe, which has ended.
    Finish,
    /// Kill the probe, wait for it, and report the cancellation.
    Cancel,
    /// Clean up after a failure and report it.
    Abort(Seq<char>),
    /// Report a failure; the probe is gone already.
    Fail(Seq<char>),
    /// Report a cancellation; the probe is gone already.
    Cancelled,
    /// Report how the probe ended.
    Report(ProcessExit),
}

/// What a [`ProbeEvent`] says.
pub enum ProbeEventView {
    /// Whether a control signal was observed, or why there was no looking.
    Observed(Result<bool, Seq<char>>),
    /// What a wait found, or why it failed.
    Polled(Result<ProbeReadiness, Seq<char>>),
    /// Why a stream could not be read.
    Drained(Option<Seq<char>>),
    /// How the probe ended, or why there was no waiting for it.
    Waited(Result<ProcessExit, Seq<char>>),
}

impl View for ProbeAction {
    type V = ProbeActionView;

    open spec fn view(&self) -> ProbeActionView {
        match self {
            ProbeAction::Observe => ProbeActionView::Observe,
            ProbeAction::Poll => ProbeActionView::Poll,
            ProbeAction::DrainStdout => ProbeActionView::DrainStdout,
            ProbeAction::DrainStderr => ProbeActionView::DrainStderr,
            ProbeAction::Finish => ProbeActionView::Finish,
            ProbeAction::Cancel => ProbeActionView::Cancel,
            ProbeAction::Abort(message) => ProbeActionView::Abort(message@),
            ProbeAction::Fail(message) => ProbeActionView::Fail(message@),
            ProbeAction::Cancelled => ProbeActionView::Cancelled,
            ProbeAction::Report(exit) => ProbeActionView::Report(*exit),
        }
    }
}

impl View for ProbeEvent {
    type V = ProbeEventView;

    open spec fn view(&self) -> ProbeEventView {
        match self {
            ProbeEvent::Observed(result) => ProbeEventView::Observed(child::plain(*result)),
            ProbeEvent::Polled(result) => ProbeEventView::Polled(child::plain(*result)),
            ProbeEvent::Drained(failure) => ProbeEventView::Drained(views::opt(*failure)),
            ProbeEvent::Waited(result) => ProbeEventView::Waited(child::plain(*result)),
        }
    }
}

/// What the supervision of the probe is waiting for.
#[derive(Debug, PartialEq, Eq)]
pub enum ProbePhase {
    /// Whether a signal was observed, before a wait.
    Observing,
    /// What a wait finds.
    Polling,
    /// Whether a signal was observed, after the deadline.
    TimedOut,
    /// Whether a signal was observed, after this failure.
    Failing(String),
    /// Whether the signal that may be pending was observed.
    SignalReady(ProbeReadiness),
    /// The output, with what is left to do.
    Output(ProbeReadiness),
    /// The errors, with what is left to do.
    Errors(ProbeReadiness),
    /// The last of the output.
    LastOutput,
    /// The last of the errors.
    LastErrors,
    /// Whether a signal was observed, before the probe is waited for.
    BeforeWait,
    /// How the probe ended.
    Waiting,
    /// Whether a signal was observed, after the probe has ended in this way.
    AfterWait(ProcessExit),
    /// Nothing: supervision has ended.
    Done,
}

/// What a [`ProbePhase`] says.
pub enum PhaseView {
    /// Whether a signal was observed, before a wait.
    Observing,
    /// What a wait finds.
    Polling,
    /// Whether a signal was observed, after the deadline.
    TimedOut,
    /// Whether a signal was observed, after this failure.
    Failing(Seq<char>),
    /// Whether the signal that may be pending was observed.
    SignalReady(ProbeReadiness),
    /// The output, with what is left to do.
    Output(ProbeReadiness),
    /// The errors, with what is left to do.
    Errors(ProbeReadiness),
    /// The last of the output.
    LastOutput,
    /// The last of the errors.
    LastErrors,
    /// Whether a signal was observed, before the probe is waited for.
    BeforeWait,
    /// How the probe ended.
    Waiting,
    /// Whether a signal was observed, after the probe has ended in this way.
    AfterWait(ProcessExit),
    /// Nothing: supervision has ended.
    Done,
}

impl View for ProbePhase {
    type V = PhaseView;

    open spec fn view(&self) -> PhaseView {
        match self {
            ProbePhase::Observing => PhaseView::Observing,
            ProbePhase::Polling => PhaseView::Polling,
            ProbePhase::TimedOut => PhaseView::TimedOut,
            ProbePhase::Failing(message) => PhaseView::Failing(message@),
            ProbePhase::SignalReady(ready) => PhaseView::SignalReady(*ready),
            ProbePhase::Output(ready) => PhaseView::Output(*ready),
            ProbePhase::Errors(ready) => PhaseView::Errors(*ready),
            ProbePhase::LastOutput => PhaseView::LastOutput,
            ProbePhase::LastErrors => PhaseView::LastErrors,
            ProbePhase::BeforeWait => PhaseView::BeforeWait,
            ProbePhase::Waiting => PhaseView::Waiting,
            ProbePhase::AfterWait(exit) => PhaseView::AfterWait(*exit),
            ProbePhase::Done => PhaseView::Done,
        }
    }
}

impl PhaseView {
    /// Whether a phase waits for an event.
    pub open spec fn awaits(self, event: ProbeEventView) -> bool {
        match event {
            ProbeEventView::Observed(_) => match self {
                PhaseView::Observing => true,
                PhaseView::TimedOut => true,
                PhaseView::Failing(_) => true,
                PhaseView::SignalReady(_) => true,
                PhaseView::BeforeWait => true,
                PhaseView::AfterWait(_) => true,
                _ => false,
            },
            ProbeEventView::Polled(_) => self is Polling,
            ProbeEventView::Drained(_) => match self {
                PhaseView::Output(_) => true,
                PhaseView::Errors(_) => true,
                PhaseView::LastOutput => true,
                PhaseView::LastErrors => true,
                _ => false,
            },
            ProbeEventView::Waited(_) => self is Waiting,
        }
    }
}

/// What is done with output, then with errors, then with the end of the probe.
pub open spec fn on_output(ready: ProbeReadiness) -> (PhaseView, ProbeActionView) {
    if ready.stdout {
        (PhaseView::Output(ready), ProbeActionView::DrainStdout)
    } else {
        on_errors(ready)
    }
}

/// What is done with errors, then with the end of the probe.
pub open spec fn on_errors(ready: ProbeReadiness) -> (PhaseView, ProbeActionView) {
    if ready.stderr {
        (PhaseView::Errors(ready), ProbeActionView::DrainStderr)
    } else {
        on_end(ready)
    }
}

/// What is done with the end of the probe. Only what it has written by then is read:
/// a descendant may hold its streams open for ever.
pub open spec fn on_end(ready: ProbeReadiness) -> (PhaseView, ProbeActionView) {
    if ready.probe {
        (PhaseView::LastOutput, ProbeActionView::DrainStdout)
    } else {
        (PhaseView::Observing, ProbeActionView::Observe)
    }
}

/// A failure, before which a signal may have been observed.
pub open spec fn failing(message: Seq<char>) -> (PhaseView, ProbeActionView) {
    (PhaseView::Failing(message), ProbeActionView::Observe)
}

/// What an observation leads to: a failed one ends the probe, and a recorder signal
/// takes priority over everything that the probe did.
pub open spec fn on_observed(phase: PhaseView, seen: Result<bool, Seq<char>>) -> (
    PhaseView,
    ProbeActionView,
) {
    match (phase, seen) {
        (PhaseView::AfterWait(_), Err(message)) => (PhaseView::Done, ProbeActionView::Fail(message)),
        (PhaseView::AfterWait(_), Ok(true)) => (PhaseView::Done, ProbeActionView::Cancelled),
        (PhaseView::AfterWait(exit), Ok(false)) => (PhaseView::Done, ProbeActionView::Report(exit)),
        (PhaseView::Failing(primary), Err(message)) => (
            PhaseView::Done,
            ProbeActionView::Abort(
                primary + "; additionally failed to observe recorder signal: "@ + message,
            ),
        ),
        (_, Err(message)) => (PhaseView::Done, ProbeActionView::Abort(message)),
        (_, Ok(true)) => (PhaseView::Done, ProbeActionView::Cancel),
        (PhaseView::Failing(primary), Ok(false)) => (
            PhaseView::Done,
            ProbeActionView::Abort(primary),
        ),
        (PhaseView::TimedOut, Ok(false)) => (
            PhaseView::Done,
            ProbeActionView::Abort("strace version probe timed out after 5 seconds"@),
        ),
        (PhaseView::SignalReady(ready), Ok(false)) => on_output(ready),
        (PhaseView::BeforeWait, Ok(false)) => (PhaseView::Waiting, ProbeActionView::Finish),
        (_, Ok(false)) => (PhaseView::Polling, ProbeActionView::Poll),
    }
}

/// What an event leads to.
pub open spec fn probe_step(phase: PhaseView, event: ProbeEventView) -> (PhaseView, ProbeActionView) {
    match event {
        ProbeEventView::Observed(seen) => on_observed(phase, seen),
        ProbeEventView::Polled(Err(message)) => failing(message),
        ProbeEventView::Polled(Ok(ready)) => if !ready.any {
            (PhaseView::TimedOut, ProbeActionView::Observe)
        } else if ready.invalid {
            failing("invalid fd while polling recorder signals, version probe, and output pipes"@)
        } else if ready.signal {
            (PhaseView::SignalReady(ready), ProbeActionView::Observe)
        } else {
            on_output(ready)
        },
        ProbeEventView::Drained(Some(message)) => failing(message),
        ProbeEventView::Drained(None) => match phase {
            PhaseView::Output(ready) => on_errors(ready),
            PhaseView::Errors(ready) => on_end(ready),
            PhaseView::LastOutput => (PhaseView::LastErrors, ProbeActionView::DrainStderr),
            _ => (PhaseView::BeforeWait, ProbeActionView::Observe),
        },
        ProbeEventView::Waited(Err(message)) => (PhaseView::Done, ProbeActionView::Fail(message)),
        ProbeEventView::Waited(Ok(exit)) => (PhaseView::AfterWait(exit), ProbeActionView::Observe),
    }
}

/// The supervision of the probe. The first thing to do is to observe signals.
pub struct ProbeSupervisor {
    phase: ProbePhase,
}

impl View for ProbeSupervisor {
    type V = PhaseView;

    closed spec fn view(&self) -> PhaseView {
        self.phase@
    }
}

impl ProbeSupervisor {
    /// Starts the supervision of the probe.
    pub fn new() -> (r: ProbeSupervisor)
        ensures
            r@ == PhaseView::Observing,
    {
        ProbeSupervisor { phase: ProbePhase::Observing }
    }

    fn go(&mut self, phase: ProbePhase, action: ProbeAction) -> (r: ProbeAction)
        ensures
            final(self)@ == phase@,
            r == action,
    {
        self.phase = phase;
        action
    }

    fn fail(&mut self, message: String) -> (r: ProbeAction)
        ensures
            (final(self)@, r@) == failing(message@),
    {
        self.go(ProbePhase::Failing(message), ProbeAction::Observe)
    }

    fn end(&mut self, ready: ProbeReadiness) -> (r: ProbeAction)
        ensures
            (final(self)@, r@) == on_end(ready),
    {
        if ready.probe {
            self.go(ProbePhase::LastOutput, ProbeAction::DrainStdout)
        } else {
            self.go(ProbePhase::Observing, ProbeAction::Observe)
        }
    }

    fn errors(&mut self, ready: ProbeReadiness) -> (r: ProbeAction)
        ensures
            (final(self)@, r@) == on_errors(ready),
    {
        if ready.stderr {
            self.go(ProbePhase::Errors(ready), ProbeAction::DrainStderr)
        } else {
            self.end(ready)
        }
    }

    fn output(&mut self, ready: ProbeReadiness) -> (r: ProbeAction)
        ensures
            (final(self)@, r@) == on_output(ready),
    {
        if ready.stdout {
            self.go(ProbePhase::Output(ready), ProbeAction::DrainStdout)
        } else {
            self.errors(ready)
        }
    }

    fn observed(&mut self, phase: ProbePhase, seen: Result<bool, String>) -> (r: ProbeAction)
        ensures
            (final(self)@, r@) == on_observed(phase@, child::plain(seen)),
    {
        match (phase, seen) {
            (ProbePhase::AfterWait(_), Err(message)) => self.go(
                ProbePhase::Done,
                ProbeAction::Fail(message),
            ),
            (ProbePhase::AfterWait(exit), Ok(signal)) => {
                if signal {
                    self.go(ProbePhase::Done, ProbeAction::Cancelled)
                } else {
                    self.go(ProbePhase::Done, ProbeAction::Report(exit))
                }
            },
            (ProbePhase::Failing(primary), Err(message)) => {
                let mut s: String = primary;
                s.append("; additionally failed to observe recorder signal: ");
                s.append(message.as_str());
                self.go(ProbePhase::Done, ProbeAction::Abort(s))
            },
            (_, Err(message)) => self.go(ProbePhase::Done, ProbeAction::Abort(message)),
            (phase, Ok(signal)) => {
                if signal {
                    return self.go(ProbePhase::Done, ProbeAction::Cancel);
                }
                match phase {
                    ProbePhase::Failing(primary) => self.go(
                        ProbePhase::Done,
                        ProbeAction::Abort(primary),
                    ),
                    ProbePhase::TimedOut => self.go(
                        ProbePhase::Done,
                        ProbeAction::Abort(
                            "strace version probe timed out after 5 seconds".to_owned(),
                        ),
                    ),
                    ProbePhase::SignalReady(ready) => self.output(ready),
                    ProbePhase::BeforeWait => self.go(ProbePhase::Waiting, ProbeAction::Finish),
                    _ => self.go(ProbePhase::Polling, ProbeAction::Poll),
                }
            },
        }
    }

    /// Takes what came of the last action and gives the next one.
    pub fn step(self, event: ProbeEvent) -> (r: (ProbeSupervisor, ProbeAction))
        requires
            self@.awaits(event@),
        ensures
            (r.0@, r.1@) == probe_step(self@, event@),
    {
        let ghost before = self@;
        let ProbeSupervisor { phase } = self;
        let mut next: ProbeSupervisor = ProbeSupervisor::new();
        let action: ProbeAction = match event {
            ProbeEvent::Observed(seen) => next.observed(phase, seen),
            ProbeEvent::Polled(Err(message)) => next.fail(message),
            ProbeEvent::Polled(Ok(ready)) => {
                if !ready.any {
                    next.go(ProbePhase::TimedOut, ProbeAction::Observe)
                } else if ready.invalid {
                    next.fail(
                        "invalid fd while polling recorder signals, version probe, and output pipes".to_owned(),
                    )
                } else if ready.signal {
                    next.go(ProbePhase::SignalReady(ready), ProbeAction::Observe)
                } else {
                    next.output(ready)
                }
            },
            ProbeEvent::Drained(Some(message)) => next.fail(message),
            ProbeEvent::Drained(None) => match phase {
                ProbePhase::Output(ready) => next.errors(ready),
                ProbePhase::Errors(ready) => next.end(ready),
                ProbePhase::LastOutput => next.go(ProbePhase::LastErrors, ProbeAction::DrainStderr),
                _ => next.go(ProbePhase::BeforeWait, ProbeAction::Observe),
            },
            ProbeEvent::Waited(Err(message)) => next.go(ProbePhase::Done, ProbeAction::Fail(message)),
            ProbeEvent::Waited(Ok(exit)) => next.go(ProbePhase::AfterWait(exit), ProbeAction::Observe),
        };
        (next, action)
    }
}

/// A recorder signal that was observed always cancels the probe: no version and no
/// failure of the probe is reported then.
pub proof fn signal_cancels_probe(phase: PhaseView)
    requires
        phase.awaits(ProbeEventView::Observed(Ok(true))),
    ensures
        probe_step(phase, ProbeEventView::Observed(Ok(true))).1 is Cancel || probe_step(
            phase,
            ProbeEventView::Observed(Ok(true)),
        ).1 is Cancelled,
{
}

/// The version of the backend is reported only right after an observation without a
/// signal of a probe that was waited for.
pub proof fn version_reported_only_unsignalled(phase: PhaseView, event: ProbeEventView)
    requires
        phase.awaits(event),
        probe_step(phase, event).1 is Report,
    ensures
        event == ProbeEventView::Observed(Ok(false)),
        phase == PhaseView::AfterWait(probe_step(phase, event).1->Report_0),
{
}

/// Why the probe of the backend could not be launched.
pub enum LaunchFailure {
    /// It cannot be supervised on this machine.
    Unsupported(String),
    /// It could not be started.
    NotStarted(String),
}

/// What the launch of the probe waits for.
pub enum LaunchPhase {
    /// A look for recorder signals.
    Observing,
    /// The launch.
    Launching,
    /// A look for recorder signals after the probe could not be started.
    Refused(String),
    /// Nothing more.
    Done,
}

/// What is to be done next to launch the probe.
pub enum LaunchAction {
    /// Look for recorder signals.
    Observe,
    /// Start the probe.
    Launch,
    /// Supervise the probe that was started.
    Supervise,
    /// Report that the recorder was stopped.
    Cancelled,
    /// Report an error.
    Fail(String),
}

/// What came of a step of the launch.
pub enum LaunchEvent {
    /// Recorder signals were looked for, and one was seen or not.
    Observed(Result<bool, String>),
    /// The probe was started, or why not.
    Launched(Option<LaunchFailure>),
}

/// The text for a probe that could not be started.
pub open spec fn unstarted_text(error: Seq<char>) -> Seq<char> {
    io::context(
        "failed to start supervised strace version probe; verify strace installation, RUNDELTA_STRACE, and process supervision support"@,
        error,
    )
}

impl LaunchPhase {
    /// Whether a phase waits for an event.
    pub open spec fn awaits(self, event: LaunchEvent) -> bool {
        match event {
            LaunchEvent::Observed(_) => self is Observing || self is Refused,
            LaunchEvent::Launched(_) => self is Launching,
        }
    }

    /// What an event leads to. A recorder signal that is seen before the probe starts,
    /// or once it could not be started, stops the recording without an error.
    pub open spec fn leads(self, event: LaunchEvent, next: LaunchPhase, action: LaunchAction) -> bool {
        match (self, event) {
            (_, LaunchEvent::Observed(Ok(true))) => next is Done && action is Cancelled,
            (_, LaunchEvent::Observed(Err(m))) => next is Done && (
            action matches LaunchAction::Fail(e) && e@ == m@),
            (LaunchPhase::Refused(error), LaunchEvent::Observed(Ok(false))) => next is Done && (
            action matches LaunchAction::Fail(e) && e@ == unstarted_text(error@)),
            (_, LaunchEvent::Observed(Ok(false))) => next is Launching && action is Launch,
            (_, LaunchEvent::Launched(None)) => next is Done && action is Supervise,
            (_, LaunchEvent::Launched(Some(LaunchFailure::Unsupported(m)))) => next is Done && (
            action matches LaunchAction::Fail(e) && e@ == m@),
            (_, LaunchEvent::Launched(Some(LaunchFailure::NotStarted(m)))) => {
                &&& next matches LaunchPhase::Refused(error)
                &&& error@ == m@
                &&& action is Observe
            },
        }
    }

    /// Takes what came of the action that was asked for and gives the next; the first
    /// is to look for recorder signals.
    pub fn step(self, event: LaunchEvent) -> (r: (LaunchPhase, LaunchAction))
        requires
            self.awaits(event),
        ensures
            self.leads(event, r.0, r.1),
    {
        match event {
            LaunchEvent::Observed(Ok(true)) => (LaunchPhase::Done, LaunchAction::Cancelled),
            LaunchEvent::Observed(Err(message)) => (
                LaunchPhase::Done,
                LaunchAction::Fail(message),
            ),
            LaunchEvent::Observed(Ok(false)) => match self {
                LaunchPhase::Refused(error) => (
                    LaunchPhase::Done,
                    LaunchAction::Fail(
                        with_context(
                            "failed to start supervised strace version probe; verify strace installation, RUNDELTA_STRACE, and process supervision support",
                            error.as_str(),
                        ),
                    ),
                ),
                _ => (LaunchPhase::Launching, LaunchAction::Launch),
            },
            LaunchEvent::Launched(None) => (LaunchPhase::Done, LaunchAction::Supervise),
            LaunchEvent::Launched(Some(LaunchFailure::Unsupported(message))) => (
                LaunchPhase::Done,
                LaunchAction::Fail(message),
            ),
            LaunchEvent::Launched(Some(LaunchFailure::NotStarted(message))) => (
                LaunchPhase::Refused(message),
                LaunchAction::Observe,
            ),
        }
    }
}

/// The probe is launched only right after a look that saw no recorder signal, and at
/// most once.
pub proof fn probe_is_launched_only_unsignalled(
    phase: LaunchPhase,
    event: LaunchEvent,
    next: LaunchPhase,
    action: LaunchAction,
)
    requires
        phase.awaits(event),
        phase.leads(event, next, action),
    ensures
        action is Launch ==> phase is Observing && event == LaunchEvent::Observed(Ok(false)),
        !(next is Observing),
{
}

} // verus!
