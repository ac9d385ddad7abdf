//! The order in which one command is recorded.
//!
//! A recording asks for one thing after the other and is told what came of it. The
//! backend is probed before anything is stored, the collector is started only once the
//! record is described and nothing stands against it, and a record is committed only
//! after the recorder's signals have been looked at for the last time.
use vstd::prelude::*;
use vstd::string::*;

use crate::capture::child;
use crate::capture::completion;
use crate::capture::completion::empty_trace_parse;
use crate::capture::facts::{CollectorFacts, CollectorView, RecorderStop};
use crate::capture::limits::{CaptureLimits, CaptureSchedule, TraceLengthSource};
use crate::capture::probe::VersionProbeOutcome;
use crate::capture::record;
use crate::capture::record::{
    backend_from_version, Captured, Concluded, RecordRequest, RecordSession, SessionView,
};
use crate::capture::signals::SignalRange;
use crate::capture::supervise::CollectorSupervision;
use crate::model::{Environment, Metadata, RecordResult};
use crate::parse::timeline::Parsed;
use crate::text;
use crate::views;

verus! {

broadcast use crate::views::group_views;

/// What is to be recorded.
pub struct RecordOrder {
    /// The version of this program.
    pub tool_version: String,
    /// The name of the record.
    pub name: String,
    /// The spellings of the command and its arguments.
    pub command: Vec<String>,
    /// The selected environment.
    pub environment: Environment,
}

/// What is known once storage has begun a record.
pub struct Begun {
    /// The identifier that storage generated.
    pub id: String,
    /// The spelling of the working directory.
    pub cwd: String,
    /// When the capture started.
    pub started: u128,
    /// Where the evidence is kept.
    pub evidence_dir: String,
}

/// A record that has begun.
pub struct Running {
    /// What has been decided and observed so far.
    pub session: RecordSession,
    /// The metadata that the record was begun with.
    pub metadata: Metadata,
    /// Where the evidence is kept.
    pub evidence_dir: String,
}

/// What a recording waits for.
pub enum RecordPhase {
    /// The probe of the backend.
    Probing(RecordOrder),
    /// A look for recorder signals before the record begins.
    Observing(RecordOrder, RecordSession, Vec<u8>),
    /// The beginning of the record.
    Beginning(RecordOrder, RecordSession, Vec<u8>),
    /// The initial metadata.
    Describing(Running),
    /// The trace file.
    Opening(Running),
    /// A look for recorder signals before the collector starts.
    Looking(Running),
    /// The moment at which the collector starts.
    Scheduling(Running),
    /// The end of the collector.
    Collecting(Running),
    /// The final length of the trace.
    Measuring(Running, CollectorFacts),
    /// The trace.
    Reading(Running, CollectorFacts),
    /// The last look for recorder signals.
    Freezing(Running, CollectorFacts, Parsed, Option<String>),
    /// The commitment of the record.
    Committing(Concluded, String),
    /// Nothing more.
    Done,
}

/// What a recording asks for.
pub enum RecordAction {
    /// Ask the backend for its version.
    Probe,
    /// Look for recorder signals.
    Observe,
    /// Begin a record in storage.
    Begin,
    /// Write the initial metadata.
    Describe,
    /// Open the trace file for the collector.
    OpenTrace,
    /// Read the monotonic clock.
    ReadClock,
    /// Start the collector and supervise it until it ends.
    Collect(CaptureSchedule),
    /// Look at the length of the trace.
    Measure,
    /// Parse the trace.
    ReadTrace,
    /// Look for recorder signals for the last time.
    Freeze,
    /// Finalize the record.
    Commit,
    /// Report the result.
    Report(Result<RecordResult, String>),
}

/// What came of an action.
pub enum RecordEvent {
    /// The backend was probed.
    Probed(Result<VersionProbeOutcome, String>),
    /// Recorder signals were looked for, and one was seen or not.
    Observed(Result<bool, String>),
    /// A record was begun.
    Begun(Result<Begun, String>),
    /// The initial metadata was written, or why not.
    Described(Option<String>),
    /// The trace file was opened, or why not.
    Opened(Option<String>),
    /// The monotonic clock was read.
    Clock(u128),
    /// The collector ended, or could not be started.
    Collected(Result<CollectorSupervision, String>),
    /// The length of the trace was looked at.
    Measured(TraceLengthSource),
    /// The trace was parsed, and what kept it from being read.
    Read(Parsed, Option<String>),
    /// The capture ended; what went wrong with the last look, and what was ever seen.
    Frozen(u128, Option<String>, RecorderStop),
    /// The record was finalized, or why not.
    Committed(Option<String>),
}

impl RecordAction {
    /// Whether this reports a failure with the given words.
    pub open spec fn fails(self, message: Seq<char>) -> bool {
        self matches RecordAction::Report(Err(m)) && m@ == message
    }
}

impl Running {
    /// Whether a record is what an order, a beginning and a version of the backend call
    /// for.
    pub open spec fn starts(
        self,
        order: RecordOrder,
        begun: Begun,
        version: Seq<u8>,
        session: SessionView,
    ) -> bool {
        let request = RecordRequest {
            tool_version: order.tool_version,
            id: begun.id,
            name: order.name,
            command: order.command,
            cwd: begun.cwd,
            started: begun.started,
            backend: self.metadata.backend,
            environment: order.environment,
        };
        &&& self.session@ == session
        &&& request.begins(self.metadata)
        &&& self.metadata.backend@ == record::backend_of(text::lossy_text(version))
        &&& self.evidence_dir == begun.evidence_dir
    }

    /// Whether a record is this one with something more decided or observed.
    pub open spec fn becomes(self, next: Running, session: SessionView) -> bool {
        &&& next.session@ == session
        &&& next.metadata == self.metadata
        &&& next.evidence_dir == self.evidence_dir
    }
}

/// How a recording goes on once the collector has ended or was never started.
pub open spec fn after_collector(
    limits: CaptureLimits,
    running: Running,
    session: SessionView,
    collector: CollectorView,
    next: RecordPhase,
    action: RecordAction,
) -> bool {
    if limits.max_trace_bytes is Some {
        &&& next matches RecordPhase::Measuring(r, c)
        &&& running.becomes(r, session)
        &&& c@ == collector
        &&& action is Measure
    } else {
        after_measure(running, session, collector, next, action)
    }
}

/// How a recording goes on once the length of the trace needs no more looking at: the
/// trace is read, unless it is too long or nobody knows how long it is.
pub open spec fn after_measure(
    running: Running,
    session: SessionView,
    collector: CollectorView,
    next: RecordPhase,
    action: RecordAction,
) -> bool {
    if session.skips_trace() {
        &&& next matches RecordPhase::Freezing(r, c, parsed, error)
        &&& running.becomes(r, session)
        &&& c@ == collector
        &&& completion::trace_start(running.metadata.cwd@).gives(parsed)
        &&& error is None
        &&& action is Freeze
    } else {
        &&& next matches RecordPhase::Reading(r, c)
        &&& running.becomes(r, session)
        &&& c@ == collector
        &&& action is ReadTrace
    }
}

/// How a recording goes on once nothing more is looked for before the collector starts.
pub open spec fn before_collector(
    limits: CaptureLimits,
    running: Running,
    session: SessionView,
    next: RecordPhase,
    action: RecordAction,
) -> bool {
    match session.obstacle() {
        Some(reason) => after_collector(
            limits,
            running,
            session,
            CollectorView::NotStarted(reason),
            next,
            action,
        ),
        None => {
            &&& next matches RecordPhase::Scheduling(r)
            &&& running.becomes(r, session)
            &&& action is ReadClock
        },
    }
}

/// Whether a recording is at its end with the given failure.
pub open spec fn gives_up(message: Seq<char>, next: RecordPhase, action: RecordAction) -> bool {
    next is Done && action.fails(message)
}

impl RecordPhase {
    /// The trace that waits to be concluded was interpreted, and the collector starts
    /// only where nothing stands against it.
    pub open spec fn wf(self) -> bool {
        match self {
            RecordPhase::Scheduling(running) => running.session@.obstacle() is None,
            RecordPhase::Reading(running, _) => !running.session@.skips_trace(),
            RecordPhase::Freezing(_, _, parsed, _) => parsed.timeline@.wf(parsed.events@.len()),
            _ => true,
        }
    }

    /// Whether a phase waits for an event.
    pub open spec fn awaits(self, event: RecordEvent) -> bool {
        match event {
            RecordEvent::Probed(_) => self is Probing,
            RecordEvent::Observed(_) => self is Observing || self is Looking,
            RecordEvent::Begun(_) => self is Beginning,
            RecordEvent::Described(_) => self is Describing,
            RecordEvent::Opened(_) => self is Opening,
            RecordEvent::Clock(_) => self is Scheduling,
            RecordEvent::Collected(_) => self is Collecting,
            RecordEvent::Measured(_) => self is Measuring,
            RecordEvent::Read(parsed, _) => self is Reading && parsed.timeline@.wf(
                parsed.events@.len(),
            ),
            RecordEvent::Frozen(_, _, recorder) => self is Freezing && (
            recorder matches RecorderStop::Signal(signal) ==> signal <= i32::MAX - 128),
            RecordEvent::Committed(_) => self is Committing,
        }
    }

    /// What an event leads to, under the given limits.
    pub open spec fn leads(
        self,
        limits: CaptureLimits,
        event: RecordEvent,
        next: RecordPhase,
        action: RecordAction,
    ) -> bool {
        match (self, event) {
            (_, RecordEvent::Probed(Err(m))) => gives_up(m@, next, action),
            (RecordPhase::Probing(order), RecordEvent::Probed(Ok(outcome))) => {
                let session = SessionView::probed(outcome);
                let version = match outcome {
                    VersionProbeOutcome::Completed(version) => version@,
                    VersionProbeOutcome::Cancelled(_) => Seq::empty(),
                };
                if session.obstacle() is None {
                    &&& next matches RecordPhase::Observing(o, s, v)
                    &&& (o, s@, v@) == (order, session, version)
                    &&& action is Observe
                } else {
                    &&& next matches RecordPhase::Beginning(o, s, v)
                    &&& (o, s@, v@) == (order, session, version)
                    &&& action is Begin
                }
            },
            (RecordPhase::Observing(order, session, version), RecordEvent::Observed(seen)) => {
                &&& next matches RecordPhase::Beginning(o, s, v)
                &&& (o, s@, v@) == (order, session@.observed(child::plain(seen)), version@)
                &&& action is Begin
            },
            (_, RecordEvent::Begun(Err(m))) => gives_up(m@, next, action),
            (RecordPhase::Beginning(order, session, version), RecordEvent::Begun(Ok(begun))) => {
                &&& next matches RecordPhase::Describing(running)
                &&& running.starts(order, begun, version@, session@)
                &&& action is Describe
            },
            (_, RecordEvent::Described(Some(m))) => gives_up(m@, next, action),
            (RecordPhase::Describing(running), RecordEvent::Described(None)) => {
                &&& next matches RecordPhase::Opening(r)
                &&& running.becomes(r, running.session@)
                &&& action is OpenTrace
            },
            (_, RecordEvent::Opened(Some(m))) => gives_up(m@, next, action),
            (RecordPhase::Opening(running), RecordEvent::Opened(None)) => {
                if running.session@.supervision_error is None {
                    &&& next matches RecordPhase::Looking(r)
                    &&& running.becomes(r, running.session@)
                    &&& action is Observe
                } else {
                    before_collector(limits, running, running.session@, next, action)
                }
            },
            (RecordPhase::Looking(running), RecordEvent::Observed(seen)) => before_collector(
                limits,
                running,
                running.session@.observed(child::plain(seen)),
                next,
                action,
            ),
            (RecordPhase::Scheduling(running), RecordEvent::Clock(now)) => {
                match limits.fault(now) {
                    Some(fault) => gives_up(fault, next, action),
                    None => {
                        &&& next matches RecordPhase::Collecting(r)
                        &&& running.becomes(r, running.session@)
                        &&& action == RecordAction::Collect(
                            CaptureSchedule::anchored(limits, now),
                        )
                    },
                }
            },
            (RecordPhase::Collecting(running), RecordEvent::Collected(Err(m))) => after_collector(
                limits,
                running,
                running.session@,
                CollectorView::Failed(m@),
                next,
                action,
            ),
            (RecordPhase::Collecting(running), RecordEvent::Collected(Ok(s))) => after_collector(
                limits,
                running,
                running.session@.supervised(s),
                match s.status {
                    Ok(exit) => CollectorView::Reaped(exit),
                    Err(message) => CollectorView::Failed(message@),
                },
                next,
                action,
            ),
            (RecordPhase::Measuring(running, collector), RecordEvent::Measured(length)) => {
                let session = match limits.max_trace_bytes {
                    Some(limit) => running.session@.measured(limit, length@),
                    None => running.session@,
                };
                after_measure(running, session, collector@, next, action)
            },
            (RecordPhase::Reading(running, collector), RecordEvent::Read(parsed, error)) => {
                &&& next == RecordPhase::Freezing(running, collector, parsed, error)
                &&& action is Freeze
            },
            (
                RecordPhase::Freezing(running, collector, parsed, trace_read_error),
                RecordEvent::Frozen(ended, failure, recorder),
            ) => {
                let captured = Captured { collector, recorder, parsed, trace_read_error, ended };
                &&& next matches RecordPhase::Committing(concluded, evidence_dir)
                &&& evidence_dir == running.evidence_dir
                &&& exists|range: SignalRange| #[trigger]
                    record::concludes(
                        running.metadata,
                        captured,
                        running.session@.frozen(views::opt(failure)),
                        concluded,
                        range,
                    )
                &&& action is Commit
            },
            (_, RecordEvent::Committed(Some(m))) => gives_up(m@, next, action),
            (RecordPhase::Committing(concluded, evidence_dir), RecordEvent::Committed(None)) => {
                &&& next is Done
                &&& action matches RecordAction::Report(Ok(result))
                &&& concluded.reports(result, evidence_dir@)
            },
            _ => true,
        }
    }

    /// How far a recording is: it never goes back.
    pub open spec fn rank(self) -> nat {
        match self {
            RecordPhase::Probing(_) => 0,
            RecordPhase::Observing(_, _, _) => 1,
            RecordPhase::Beginning(_, _, _) => 2,
            RecordPhase::Describing(_) => 3,
            RecordPhase::Opening(_) => 4,
            RecordPhase::Looking(_) => 5,
            RecordPhase::Scheduling(_) => 6,
            RecordPhase::Collecting(_) => 7,
            RecordPhase::Measuring(_, _) => 8,
            RecordPhase::Reading(_, _) => 9,
            RecordPhase::Freezing(_, _, _, _) => 10,
            RecordPhase::Committing(_, _) => 11,
            RecordPhase::Done => 12,
        }
    }

    /// Whether a phase holds a record that has begun and is not concluded.
    pub open spec fn holds(self, running: Running) -> bool {
        match self {
            RecordPhase::Describing(r) => r == running,
            RecordPhase::Opening(r) => r == running,
            RecordPhase::Looking(r) => r == running,
            RecordPhase::Scheduling(r) => r == running,
            RecordPhase::Collecting(r) => r == running,
            RecordPhase::Measuring(r, _) => r == running,
            RecordPhase::Reading(r, _) => r == running,
            RecordPhase::Freezing(r, _, _, _) => r == running,
            _ => false,
        }
    }

    /// What has been decided and observed, where something can still be.
    pub open spec fn session(self) -> Option<SessionView> {
        match self {
            RecordPhase::Observing(_, session, _) => Some(session@),
            RecordPhase::Beginning(_, session, _) => Some(session@),
            RecordPhase::Describing(running) => Some(running.session@),
            RecordPhase::Opening(running) => Some(running.session@),
            RecordPhase::Looking(running) => Some(running.session@),
            RecordPhase::Scheduling(running) => Some(running.session@),
            RecordPhase::Collecting(running) => Some(running.session@),
            RecordPhase::Measuring(running, _) => Some(running.session@),
            RecordPhase::Reading(running, _) => Some(running.session@),
            RecordPhase::Freezing(running, _, _, _) => Some(running.session@),
            _ => None,
        }
    }
}

/// Gives a recording up.
fn give_up(message: String) -> (r: (RecordPhase, RecordAction))
    ensures
        gives_up(message@, r.0, r.1),
{
    (RecordPhase::Done, RecordAction::Report(Err(message)))
}

/// Goes on once the length of the trace needs no more looking at.
fn go_read(running: Running, collector: CollectorFacts) -> (r: (RecordPhase, RecordAction))
    ensures
        after_measure(running, running.session@, collector@, r.0, r.1),
        r.0.wf(),
{
    if running.session.skips_trace() {
        let parsed: Parsed = empty_trace_parse(running.metadata.cwd.as_str());
        (RecordPhase::Freezing(running, collector, parsed, None), RecordAction::Freeze)
    } else {
        (RecordPhase::Reading(running, collector), RecordAction::ReadTrace)
    }
}

/// Goes on once the collector has ended or was never started.
fn go_measure(limits: CaptureLimits, running: Running, collector: CollectorFacts) -> (r: (
    RecordPhase,
    RecordAction,
))
    ensures
        after_collector(limits, running, running.session@, collector@, r.0, r.1),
        r.0.wf(),
{
    if limits.max_trace_bytes.is_some() {
        (RecordPhase::Measuring(running, collector), RecordAction::Measure)
    } else {
        go_read(running, collector)
    }
}

/// Goes on once nothing more is looked for before the collector starts.
fn go_start(limits: CaptureLimits, running: Running) -> (r: (RecordPhase, RecordAction))
    ensures
        before_collector(limits, running, running.session@, r.0, r.1),
        r.0.wf(),
{
    match running.session.not_started() {
        Some(collector) => go_measure(limits, running, collector),
        None => (RecordPhase::Scheduling(running), RecordAction::ReadClock),
    }
}

/// Describes a record that storage has begun.
fn describe(order: RecordOrder, session: RecordSession, version: Vec<u8>, begun: Begun) -> (r:
    Running)
    ensures
        r.starts(order, begun, version@, session@),
{
    let request: RecordRequest = RecordRequest {
        tool_version: order.tool_version,
        id: begun.id,
        name: order.name,
        command: order.command,
        cwd: begun.cwd,
        started: begun.started,
        backend: backend_from_version(&version),
        environment: order.environment,
    };
    Running { session, metadata: request.metadata(), evidence_dir: begun.evidence_dir }
}

/// One recording.
pub struct Recording {
    /// The limits that it was asked for.
    pub limits: CaptureLimits,
    /// What it waits for.
    pub phase: RecordPhase,
}

impl Recording {
    /// Starts a recording; its first action is to probe the backend.
    pub fn new(order: RecordOrder, limits: CaptureLimits) -> (r: Recording)
        ensures
            r == (Recording { limits, phase: RecordPhase::Probing(order) }),
            r.phase.wf(),
    {
        Recording { limits, phase: RecordPhase::Probing(order) }
    }

    /// Takes what came of the action that was asked for and gives the next.
    pub fn step(self, event: RecordEvent) -> (r: (Recording, RecordAction))
        requires
            self.phase.wf(),
            self.phase.awaits(event),
        ensures
            r.0.limits == self.limits,
            r.0.phase.wf(),
            self.phase.leads(self.limits, event, r.0.phase, r.1),
    {
        let Recording { limits, phase } = self;
        let (next, action) = advance(limits, phase, event);
        (Recording { limits, phase: next }, action)
    }

    /// Gives the record that has begun and is not concluded.
    pub fn running(&self) -> (r: Option<&Running>)
        ensures
            match r {
                Some(running) => self.phase.session() == Some(running.session@)
                    && self.phase.holds(*running),
                None => forall|x: Running| !self.phase.holds(x),
            },
    {
        match &self.phase {
            RecordPhase::Describing(running) => Some(running),
            RecordPhase::Opening(running) => Some(running),
            RecordPhase::Looking(running) => Some(running),
            RecordPhase::Scheduling(running) => Some(running),
            RecordPhase::Collecting(running) => Some(running),
            RecordPhase::Measuring(running, _) => Some(running),
            RecordPhase::Reading(running, _) => Some(running),
            RecordPhase::Freezing(running, _, _, _) => Some(running),
            _ => None,
        }
    }

    /// Gives the recording that is to be committed.
    pub fn concluded(&self) -> (r: Option<&Concluded>)
        ensures
            match r {
                Some(c) => self.phase matches RecordPhase::Committing(x, _) && x == *c,
                None => !(self.phase is Committing),
            },
    {
        match &self.phase {
            RecordPhase::Committing(concluded, _) => Some(concluded),
            _ => None,
        }
    }
}

/// Goes on from one phase.
fn advance(limits: CaptureLimits, phase: RecordPhase, event: RecordEvent) -> (r: (
    RecordPhase,
    RecordAction,
))
    requires
        phase.wf(),
        phase.awaits(event),
    ensures
        r.0.wf(),
        phase.leads(limits, event, r.0, r.1),
{
    match (phase, event) {
        (_, RecordEvent::Probed(Err(message))) => give_up(message),
        (_, RecordEvent::Begun(Err(message))) => give_up(message),
        (_, RecordEvent::Described(Some(message))) => give_up(message),
        (_, RecordEvent::Opened(Some(message))) => give_up(message),
        (_, RecordEvent::Committed(Some(message))) => give_up(message),
        (RecordPhase::Probing(order), RecordEvent::Probed(Ok(outcome))) => {
            let (session, version) = RecordSession::after_probe(outcome);
            if session.not_started().is_none() {
                (RecordPhase::Observing(order, session, version), RecordAction::Observe)
            } else {
                (RecordPhase::Beginning(order, session, version), RecordAction::Begin)
            }
        },
        (RecordPhase::Observing(order, session, version), RecordEvent::Observed(seen)) => {
            let mut session: RecordSession = session;
            session.observed(seen);
            (RecordPhase::Beginning(order, session, version), RecordAction::Begin)
        },
        (RecordPhase::Beginning(order, session, version), RecordEvent::Begun(Ok(begun))) => (
            RecordPhase::Describing(describe(order, session, version, begun)),
            RecordAction::Describe,
        ),
        (RecordPhase::Describing(running), RecordEvent::Described(None)) => (
            RecordPhase::Opening(running),
            RecordAction::OpenTrace,
        ),
        (RecordPhase::Opening(running), RecordEvent::Opened(None)) => {
            if running.session.supervision_error.is_none() {
                (RecordPhase::Looking(running), RecordAction::Observe)
            } else {
                go_start(limits, running)
            }
        },
        (RecordPhase::Looking(running), RecordEvent::Observed(seen)) => {
            let mut running: Running = running;
            running.session.observed(seen);
            go_start(limits, running)
        },
        (RecordPhase::Scheduling(running), RecordEvent::Clock(now)) => {
            match CaptureSchedule::before_spawn(limits, now) {
                Ok(schedule) => (
                    RecordPhase::Collecting(running),
                    RecordAction::Collect(schedule),
                ),
                Err(message) => give_up(message),
            }
        },
        (RecordPhase::Collecting(running), RecordEvent::Collected(Ok(supervision))) => {
            let mut running: Running = running;
            let collector: CollectorFacts = running.session.supervised(supervision);
            go_measure(limits, running, collector)
        },
        (RecordPhase::Collecting(running), RecordEvent::Collected(Err(message))) => go_measure(
            limits,
            running,
            CollectorFacts::Failed(message),
        ),
        (RecordPhase::Measuring(running, collector), RecordEvent::Measured(length)) => {
            let mut running: Running = running;
            if let Some(limit) = limits.max_trace_bytes {
                running.session.measured(limit, length);
            }
            go_read(running, collector)
        },
        (RecordPhase::Reading(running, collector), RecordEvent::Read(parsed, error)) => (
            RecordPhase::Freezing(running, collector, parsed, error),
            RecordAction::Freeze,
        ),
        (
            RecordPhase::Freezing(running, collector, parsed, trace_read_error),
            RecordEvent::Frozen(ended, failure, recorder),
        ) => {
            let Running { session, metadata, evidence_dir } = running;
            let mut session: RecordSession = session;
            session.frozen(failure);
            let captured: Captured = Captured {
                collector,
                recorder,
                parsed,
                trace_read_error,
                ended,
            };
            (
                RecordPhase::Committing(session.conclude(metadata, captured), evidence_dir),
                RecordAction::Commit,
            )
        },
        (RecordPhase::Committing(concluded, evidence_dir), RecordEvent::Committed(None)) => (
            RecordPhase::Done,
            RecordAction::Report(Ok(concluded.result(evidence_dir))),
        ),
        (phase, _) => {
            proof {
                assert(false);
            }
            (phase, RecordAction::Freeze)
        },
    }
}

/// A recording never goes back, so it does everything at most once and comes to an end.
pub proof fn recordings_move_forward(
    limits: CaptureLimits,
    phase: RecordPhase,
    event: RecordEvent,
    next: RecordPhase,
    action: RecordAction,
)
    requires
        phase.awaits(event),
        phase.leads(limits, event, next, action),
    ensures
        phase.rank() < next.rank(),
        action is Report <==> next is Done,
{
}

/// The collector is started only after the initial metadata was written, the trace file
/// was opened and a last look saw no recorder signal, with nothing standing against it.
pub proof fn start_is_prepared(
    limits: CaptureLimits,
    phase: RecordPhase,
    event: RecordEvent,
    next: RecordPhase,
    action: RecordAction,
)
    requires
        phase.wf(),
        phase.awaits(event),
        phase.leads(limits, event, next, action),
    ensures
        action is Collect <==> next is Collecting,
        next is Collecting ==> phase is Scheduling && event is Clock && (phase.session()->0).obstacle()
            is None,
        next is Scheduling ==> phase is Looking && event == RecordEvent::Observed(Ok(false)),
        next is Looking ==> phase is Opening && event == RecordEvent::Opened(None),
        next is Opening ==> phase is Describing && event == RecordEvent::Described(None),
        next is Describing ==> phase is Beginning && event is Begun,
        next is Beginning ==> phase is Observing || phase is Probing,
{
}

/// A recording that was stopped stays stopped and never starts its collector.
pub proof fn stopped_recordings_start_nothing(
    limits: CaptureLimits,
    phase: RecordPhase,
    event: RecordEvent,
    next: RecordPhase,
    action: RecordAction,
)
    requires
        phase.wf(),
        phase.awaits(event),
        phase.leads(limits, event, next, action),
        phase.session() matches Some(session) && session.cancelled,
    ensures
        next.session() matches Some(session) ==> session.cancelled,
        !(action is Collect),
{
}

/// The trace is read only where its length is known and within its limit.
pub proof fn only_bounded_traces_are_read(
    limits: CaptureLimits,
    phase: RecordPhase,
    event: RecordEvent,
    next: RecordPhase,
    action: RecordAction,
)
    requires
        phase.wf(),
        phase.awaits(event),
        phase.leads(limits, event, next, action),
        action is ReadTrace,
    ensures
        next.session() matches Some(session) && !session.length_unavailable
            && session.limits.trace_bytes is None,
{
}

/// A record is committed only after the last look for recorder signals, and success is
/// reported only of a record that was committed.
pub proof fn success_is_reported_of_committed_records(
    limits: CaptureLimits,
    phase: RecordPhase,
    event: RecordEvent,
    next: RecordPhase,
    action: RecordAction,
)
    requires
        phase.awaits(event),
        phase.leads(limits, event, next, action),
    ensures
        action is Commit ==> phase is Freezing && event is Frozen,
        next is Committing <==> action is Commit,
        (action matches RecordAction::Report(Ok(_))) ==> phase is Committing && event
            == RecordEvent::Committed(None),
{
}

} // verus!
