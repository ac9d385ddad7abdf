//! Reduction of the facts of one capture to a decision.
use vstd::prelude::*;
use vstd::string::*;

use crate::capture::signals;
use crate::capture::signals::{signal_number_in, signal_range, SignalRange};
use crate::model::{CaptureCompleteness, CaptureState, Metadata};
use crate::numbers;
use crate::text;
use crate::views;

verus! {

broadcast use crate::views::group_views;

/// A process completion observed at one capture boundary.
///
/// `Unknown` keeps an observed raw target completion distinct from a missing
/// completion and from a collector/supervision failure.
#[derive(Debug, Clone, Copy, PartialEq, Eq, Structural)]
pub enum ProcessExit {
    /// With an exit code.
    Exited(i32),
    /// By a signal.
    Signaled(i32),
    /// In a way that is not understood.
    Unknown,
}

impl ProcessExit {
    /// The exit status of a shell for the completion.
    pub open spec fn shell_status(self) -> Option<i32> {
        match self {
            ProcessExit::Exited(code) => Some(code),
            ProcessExit::Signaled(signal) => if signal + 128 <= i32::MAX {
                Some((signal + 128) as i32)
            } else {
                None
            },
            ProcessExit::Unknown => None,
        }
    }

    /// Gives the exit status of a shell for the completion.
    pub fn cli_exit(self) -> (r: Option<i32>)
        ensures
            r == self.shell_status(),
    {
        match self {
            ProcessExit::Exited(code) => Some(code),
            ProcessExit::Signaled(signal) => signal.checked_add(128),
            ProcessExit::Unknown => None,
        }
    }

    /// The exit code and the signal that metadata stores.
    pub open spec fn fields(self) -> (Option<i32>, Option<i32>) {
        match self {
            ProcessExit::Exited(code) => (Some(code), None),
            ProcessExit::Signaled(signal) => (None, Some(signal)),
            ProcessExit::Unknown => (None, None),
        }
    }

    /// Gives the exit code and the signal that metadata stores.
    pub fn metadata_fields(self) -> (r: (Option<i32>, Option<i32>))
        ensures
            r == self.fields(),
    {
        match self {
            ProcessExit::Exited(code) => (Some(code), None),
            ProcessExit::Signaled(signal) => (None, Some(signal)),
            ProcessExit::Unknown => (None, None),
        }
    }

    /// The completion that a wait reports: an exit code, or else a signal.
    pub open spec fn waited(code: Option<i32>, signal: Option<i32>) -> ProcessExit {
        match (code, signal) {
            (Some(code), _) => ProcessExit::Exited(code),
            (None, Some(signal)) => ProcessExit::Signaled(signal),
            (None, None) => ProcessExit::Unknown,
        }
    }
}

/// Gives the completion that a wait reports.
pub fn process_exit_from_status(code: Option<i32>, signal: Option<i32>) -> (r: ProcessExit)
    ensures
        r == ProcessExit::waited(code, signal),
{
    match (code, signal) {
        (Some(code), _) => ProcessExit::Exited(code),
        (None, Some(signal)) => ProcessExit::Signaled(signal),
        (None, None) => ProcessExit::Unknown,
    }
}

/// Facts available from the collector boundary after supervision finishes.
#[derive(Debug, Clone, PartialEq, Eq)]
pub enum CollectorFacts {
    /// The collector was waited for.
    Reaped(ProcessExit),
    /// The collector was not started, and why.
    NotStarted(String),
    /// The collector could not be supervised, and why.
    Failed(String),
}

/// Recorder control-signal observation, kept separate from process outcomes.
#[derive(Debug, Clone, Copy, PartialEq, Eq, Structural)]
pub enum RecorderStop {
    /// No signal was observed.
    NoSignal,
    /// A signal was observed.
    Signal(i32),
}

/// Nanoseconds in a millisecond.
pub const NANOS_PER_MILLI: u128 = 1_000_000;

/// Independently observed policy-limit facts.
#[derive(Debug, Clone, Copy, PartialEq, Eq, Structural)]
pub struct CaptureLimitFacts {
    /// The duration limit in nanoseconds, once it has passed.
    pub duration: Option<u128>,
    /// The trace length, once it is beyond its limit.
    pub trace_bytes: Option<TraceBytesLimitFact>,
}

/// A trace length beyond its limit.
#[derive(Debug, Clone, Copy, PartialEq, Eq, Structural)]
pub struct TraceBytesLimitFact {
    /// The observed length.
    pub observed: u64,
    /// The limit.
    pub limit: u64,
}

impl Default for CaptureLimitFacts {
    fn default() -> (r: CaptureLimitFacts)
        ensures
            r == (CaptureLimitFacts { duration: None, trace_bytes: None }),
    {
        CaptureLimitFacts { duration: None, trace_bytes: None }
    }
}

/// The warning that the duration limit has passed.
pub open spec fn duration_warning(limit: u128) -> Seq<char> {
    "capture duration limit exceeded (limit: "@ + numbers::decimal(
        (limit / NANOS_PER_MILLI) as nat,
    ) + " ms)"@
}

/// The warning that the trace is beyond its limit.
pub open spec fn bytes_warning(fact: TraceBytesLimitFact) -> Seq<char> {
    "capture trace byte limit exceeded (observed: "@ + numbers::decimal(fact.observed as nat)
        + " bytes, limit: "@ + numbers::decimal(fact.limit as nat) + " bytes)"@
}

impl CaptureLimitFacts {
    /// Whether a limit was exceeded.
    pub open spec fn any(self) -> bool {
        self.duration is Some || self.trace_bytes is Some
    }

    /// Whether a limit was exceeded.
    pub fn exceeded(&self) -> (r: bool)
        ensures
            r == self.any(),
    {
        self.duration.is_some() || self.trace_bytes.is_some()
    }

    /// The facts once the duration limit has passed; the first limit stays.
    pub open spec fn with_duration(self, limit: u128) -> CaptureLimitFacts {
        if self.duration is Some {
            self
        } else {
            CaptureLimitFacts { duration: Some(limit), ..self }
        }
    }

    /// Notes that the duration limit has passed, and says whether that is new.
    pub fn observe_duration(&mut self, limit: u128) -> (r: bool)
        ensures
            r == (old(self).duration is None),
            *final(self) == old(self).with_duration(limit),
    {
        if self.duration.is_some() {
            false
        } else {
            self.duration = Some(limit);
            true
        }
    }

    /// The facts once a trace length was observed: strictly beyond the limit, the
    /// latest length counts.
    pub open spec fn with_trace_bytes(self, observed: u64, limit: u64) -> CaptureLimitFacts {
        if observed <= limit {
            self
        } else {
            CaptureLimitFacts {
                trace_bytes: Some(TraceBytesLimitFact { observed, limit }),
                ..self
            }
        }
    }

    /// Notes a trace length, and says whether it is the first one beyond the limit.
    pub fn observe_trace_bytes(&mut self, observed: u64, limit: u64) -> (r: bool)
        ensures
            r == (observed > limit && old(self).trace_bytes is None),
            *final(self) == old(self).with_trace_bytes(observed, limit),
    {
        if observed <= limit {
            return false;
        }
        let first: bool = self.trace_bytes.is_none();
        self.trace_bytes = Some(TraceBytesLimitFact { observed, limit });
        first
    }

    /// The warnings on exceeded limits.
    pub open spec fn warnings(self) -> Seq<Seq<char>> {
        let duration = match self.duration {
            Some(limit) => seq![duration_warning(limit)],
            None => Seq::empty(),
        };
        let bytes = match self.trace_bytes {
            Some(fact) => seq![bytes_warning(fact)],
            None => Seq::empty(),
        };
        duration + bytes
    }

    /// Adds the warnings on exceeded limits.
    pub fn append_warnings(&self, warnings: &mut Vec<String>)
        ensures
            views::each(final(warnings)@) == views::each(old(warnings)@) + self.warnings(),
    {
        let ghost before = views::each(warnings@);
        match self.duration {
            Some(limit) => {
                let mut s: String = "capture duration limit exceeded (limit: ".to_owned();
                s.append(numbers::decimal_string(limit / NANOS_PER_MILLI).as_str());
                s.append(" ms)");
                warnings.push(s);
            },
            None => {},
        }
        match self.trace_bytes {
            Some(fact) => {
                let mut s: String = "capture trace byte limit exceeded (observed: ".to_owned();
                s.append(numbers::decimal_string(fact.observed as u128).as_str());
                s.append(" bytes, limit: ");
                s.append(numbers::decimal_string(fact.limit as u128).as_str());
                s.append(" bytes)");
                warnings.push(s);
            },
            None => {},
        }
        assert(views::each(warnings@) =~= before + self.warnings());
    }
}

/// Capture-policy result before persistence and CLI presentation.
#[derive(Debug, Clone, PartialEq, Eq)]
pub struct CaptureDecision {
    /// How the target ended.
    pub target: Option<ProcessExit>,
    /// What the trace says of it.
    pub target_exit_raw: Option<String>,
    /// How the collector ended.
    pub collector: CollectorFacts,
    /// Whether the recorder was stopped.
    pub recorder: RecorderStop,
    /// Which limits were exceeded.
    pub limits: CaptureLimitFacts,
    /// What went wrong with supervision.
    pub recorder_supervision_error: Option<String>,
    /// The state of the capture.
    pub state: CaptureState,
    /// How complete its evidence is.
    pub completeness: CaptureCompleteness,
    /// What limits its evidence.
    pub warnings: Vec<String>,
    /// The exit status of the record command.
    pub cli_exit: i32,
}

/// The facts of one capture.
pub struct CaptureFactsInput<'a> {
    /// What the trace says of the end of the root task.
    pub root_outcome: Option<&'a str>,
    /// The tasks whose end was not observed.
    pub missing_generations: &'a Vec<String>,
    /// How the collector ended.
    pub collector: CollectorFacts,
    /// Whether the recorder was stopped.
    pub recorder: RecorderStop,
    /// Which limits were exceeded.
    pub limits: CaptureLimitFacts,
    /// What went wrong with supervision.
    pub recorder_supervision_error: Option<String>,
    /// What the parser found.
    pub warnings: Vec<String>,
    /// Why the trace could not be read.
    pub trace_read_error: Option<String>,
}

/// How a process ended, as a trace says it.
pub open spec fn exit_of(outcome: Seq<char>, range: SignalRange) -> ProcessExit {
    let code = match text::after_prefix(outcome, "+++ exited with "@) {
        Some(rest) => match text::before_suffix(rest, " +++"@) {
            Some(value) => numbers::i32_value(value),
            None => None,
        },
        None => None,
    };
    match code {
        Some(code) => ProcessExit::Exited(code as i32),
        None => match signals::status_signal(outcome, range) {
            Some(signal) => ProcessExit::Signaled(signal),
            None => ProcessExit::Unknown,
        },
    }
}

/// Reads how a process ended, on a machine with the given real-time signals.
pub fn parse_process_exit_in(outcome: &str, range: SignalRange) -> (r: ProcessExit)
    ensures
        r == exit_of(outcome@, range),
{
    let code: Option<i32> = match text::strip_prefix(outcome, "+++ exited with ") {
        Some(rest) => match text::strip_suffix(rest, " +++") {
            Some(value) => numbers::signed_number(value),
            None => None,
        },
        None => None,
    };
    match code {
        Some(code) => ProcessExit::Exited(code),
        None => match signal_number_in(outcome, range) {
            Some(signal) => ProcessExit::Signaled(signal),
            None => ProcessExit::Unknown,
        },
    }
}

/// Reads how a process ended on this machine.
pub fn parse_process_exit(outcome: &str) -> (r: ProcessExit)
    ensures
        exists|range: SignalRange| r == #[trigger] exit_of(outcome@, range),
{
    let range: SignalRange = signal_range();
    parse_process_exit_in(outcome, range)
}

/// What [`reduce_capture_facts`] is given.
pub struct FactsView {
    /// What the trace says of the end of the root task.
    pub root_outcome: Option<Seq<char>>,
    /// The tasks whose end was not observed.
    pub missing: Seq<Seq<char>>,
    /// How the collector ended.
    pub collector: CollectorView,
    /// Whether the recorder was stopped.
    pub recorder: RecorderStop,
    /// Which limits were exceeded.
    pub limits: CaptureLimitFacts,
    /// What went wrong with supervision.
    pub supervision_error: Option<Seq<char>>,
    /// What the parser found.
    pub warnings: Seq<Seq<char>>,
    /// Why the trace could not be read.
    pub read_error: Option<Seq<char>>,
}

/// What a [`CollectorFacts`] says.
pub enum CollectorView {
    /// The collector was waited for.
    Reaped(ProcessExit),
    /// The collector was not started, and why.
    NotStarted(Seq<char>),
    /// The collector could not be supervised, and why.
    Failed(Seq<char>),
}

impl View for CollectorFacts {
    type V = CollectorView;

    open spec fn view(&self) -> CollectorView {
        match self {
            CollectorFacts::Reaped(exit) => CollectorView::Reaped(*exit),
            CollectorFacts::NotStarted(reason) => CollectorView::NotStarted(reason@),
            CollectorFacts::Failed(reason) => CollectorView::Failed(reason@),
        }
    }
}

impl<'a> View for CaptureFactsInput<'a> {
    type V = FactsView;

    open spec fn view(&self) -> FactsView {
        FactsView {
            root_outcome: views::opt(self.root_outcome),
            missing: views::each(self.missing_generations@),
            collector: self.collector@,
            recorder: self.recorder,
            limits: self.limits,
            supervision_error: views::opt(self.recorder_supervision_error),
            warnings: views::each(self.warnings@),
            read_error: views::opt(self.trace_read_error),
        }
    }
}

/// A list of one text if a condition holds.
pub open spec fn only_if(condition: bool, message: Seq<char>) -> Seq<Seq<char>> {
    if condition {
        seq![message]
    } else {
        Seq::empty()
    }
}

impl FactsView {
    /// How the target ended.
    pub open spec fn target(self, range: SignalRange) -> Option<ProcessExit> {
        match self.root_outcome {
            Some(outcome) => Some(exit_of(outcome, range)),
            None => None,
        }
    }

    /// Whether the collector was waited for and ended in a way that is not
    /// understood or that contradicts the target.
    pub open spec fn unconfirmed(self, range: SignalRange) -> bool {
        match self.collector {
            CollectorView::Reaped(exit) => exit is Unknown || match self.target(range) {
                Some(ProcessExit::Unknown) => false,
                Some(target) => exit != target,
                None => false,
            },
            _ => false,
        }
    }

    /// Everything that limits the evidence, in order.
    pub open spec fn limitations(self, range: SignalRange) -> Seq<Seq<char>> {
        let unread = match self.read_error {
            Some(error) => seq!["cannot read trace: "@ + error],
            None => Seq::empty(),
        };
        let collector = match self.collector {
            CollectorView::Reaped(exit) => only_if(
                self.unconfirmed(range),
                "collector status does not confirm target completion"@,
            ),
            CollectorView::NotStarted(reason) => seq![reason],
            CollectorView::Failed(reason) => seq![reason],
        };
        let supervision = match self.supervision_error {
            Some(error) => seq![error],
            None => Seq::empty(),
        };
        self.warnings + unread + only_if(
            self.root_outcome matches Some(outcome) && text::matches_at(
                outcome,
                "+++ killed by "@,
                0,
            ) && exit_of(outcome, range) is Unknown,
            "unrecognized target termination signal"@,
        ) + only_if(
            self.missing.len() > 0,
            "process completion not observed for PIDs: "@ + text::joined_upto(
                self.missing,
                ", "@,
                self.missing.len() as int,
            ),
        ) + only_if(
            self.root_outcome is None,
            "root process completion not observed; capture incomplete"@,
        ) + collector + self.limits.warnings() + supervision
    }

    /// The state of the capture: a signal to the recorder comes first, then anything
    /// that keeps the completion of the target from being established.
    pub open spec fn state(self, range: SignalRange) -> CaptureState {
        if self.recorder is Signal {
            CaptureState::Interrupted
        } else if self.root_outcome is None || !(self.collector is Reaped) || self.unconfirmed(range)
            || self.limits.any() || self.supervision_error is Some {
            CaptureState::CaptureFailed
        } else {
            CaptureState::Completed
        }
    }

    /// How complete the evidence is.
    pub open spec fn completeness(self, range: SignalRange) -> CaptureCompleteness {
        if !(self.state(range) is Completed) {
            CaptureCompleteness::Incomplete
        } else if self.limitations(range).len() == 0 {
            CaptureCompleteness::CompleteForSupportedEvents
        } else {
            CaptureCompleteness::Partial
        }
    }

    /// The exit status of the record command.
    pub open spec fn cli_exit(self, range: SignalRange) -> i32 {
        match self.recorder {
            RecorderStop::Signal(signal) => (128 + signal) as i32,
            RecorderStop::NoSignal => if self.state(range) is CaptureFailed {
                125
            } else {
                let target = match self.target(range) {
                    Some(exit) => exit.shell_status(),
                    None => None,
                };
                let collector = match self.collector {
                    CollectorView::Reaped(exit) => exit.shell_status(),
                    _ => None,
                };
                match (target, collector) {
                    (Some(code), _) => code,
                    (None, Some(code)) => code,
                    (None, None) => 125,
                }
            },
        }
    }

    /// Whether a decision is the one that the facts call for.
    pub open spec fn decides(self, d: CaptureDecision, range: SignalRange) -> bool {
        &&& d.target == self.target(range)
        &&& views::opt(d.target_exit_raw) == self.root_outcome
        &&& d.collector@ == self.collector
        &&& d.recorder == self.recorder
        &&& d.limits == self.limits
        &&& views::opt(d.recorder_supervision_error) == self.supervision_error
        &&& d.state == self.state(range)
        &&& d.completeness == self.completeness(range)
        &&& views::each(d.warnings@) == self.limitations(range)
        &&& d.cli_exit == self.cli_exit(range)
    }
}

/// Adds a warning if a condition holds.
fn push_if(warnings: &mut Vec<String>, condition: bool, message: &str)
    ensures
        views::each(final(warnings)@) == views::each(old(warnings)@) + only_if(condition, message@),
{
    let ghost before = views::each(warnings@);
    if condition {
        warnings.push(message.to_owned());
    }
    assert(views::each(warnings@) =~= before + only_if(condition, message@));
}

/// Adds a warning, behind some words, if there is one.
fn push_optional(warnings: &mut Vec<String>, words: &str, message: &Option<String>)
    ensures
        views::each(final(warnings)@) == views::each(old(warnings)@) + (match views::opt(*message) {
            Some(m) => seq![words@ + m],
            None => Seq::empty(),
        }),
{
    let ghost before = views::each(warnings@);
    match message {
        Some(m) => {
            let mut s: String = words.to_owned();
            s.append(m.as_str());
            warnings.push(s);
            assert(views::each(warnings@) =~= before + seq![words@ + m@]);
        },
        None => {
            assert(views::each(warnings@) =~= before + Seq::<Seq<char>>::empty());
        },
    }
}

/// Reduces the facts of one capture to a decision, on a machine with the given
/// real-time signals.
pub fn reduce_capture_facts_in(input: CaptureFactsInput<'_>, range: SignalRange) -> (d: CaptureDecision)
    requires
        input.recorder matches RecorderStop::Signal(signal) ==> signal <= i32::MAX - 128,
    ensures
        input@.decides(d, range),
{
    let ghost facts = input@;
    let CaptureFactsInput {
        root_outcome,
        missing_generations,
        collector,
        recorder,
        limits,
        recorder_supervision_error,
        warnings,
        trace_read_error,
    } = input;
    let mut warnings: Vec<String> = warnings;
    push_optional(&mut warnings, "cannot read trace: ", &trace_read_error);

    let mut target_exit_raw: Option<String> = None;
    let mut target: Option<ProcessExit> = None;
    let mut unrecognized: bool = false;
    match root_outcome {
        Some(outcome) => {
            let exit: ProcessExit = parse_process_exit_in(outcome, range);
            unrecognized = text::starts_with(outcome, "+++ killed by ")
                && exit == ProcessExit::Unknown;
            target_exit_raw = Some(outcome.to_owned());
            target = Some(exit);
        },
        None => {},
    }
    push_if(&mut warnings, unrecognized, "unrecognized target termination signal");
    let mut missing: String = "process completion not observed for PIDs: ".to_owned();
    missing.append(text::join(missing_generations, ", ").as_str());
    push_if(&mut warnings, missing_generations.len() > 0, missing.as_str());
    push_if(
        &mut warnings,
        target.is_none(),
        "root process completion not observed; capture incomplete",
    );

    let mut collector_failed: bool = false;
    let mut unconfirmed: bool = false;
    let mut collector_exit: Option<ProcessExit> = None;
    let ghost before = views::each(warnings@);
    match &collector {
        CollectorFacts::Reaped(exit) => {
            let contradicts: bool = match target {
                Some(ProcessExit::Unknown) => false,
                Some(target) => *exit != target,
                None => false,
            };
            unconfirmed = *exit == ProcessExit::Unknown || contradicts;
            push_if(
                &mut warnings,
                unconfirmed,
                "collector status does not confirm target completion",
            );
            collector_exit = Some(*exit);
        },
        CollectorFacts::NotStarted(reason) => {
            // A collector boundary fact cannot erase independently observed target facts.
            warnings.push(reason.clone());
            collector_failed = true;
            assert(views::each(warnings@) =~= before + seq![reason@]);
        },
        CollectorFacts::Failed(reason) => {
            warnings.push(reason.clone());
            collector_failed = true;
            assert(views::each(warnings@) =~= before + seq![reason@]);
        },
    }
    limits.append_warnings(&mut warnings);
    let ghost limited = views::each(warnings@);
    match &recorder_supervision_error {
        Some(error) => {
            warnings.push(error.clone());
            assert(views::each(warnings@) =~= limited + seq![error@]);
        },
        None => {
            assert(views::each(warnings@) =~= limited + Seq::<Seq<char>>::empty());
        },
    }
    assert(views::each(warnings@) == facts.limitations(range));
    let interrupted: bool = match recorder {
        RecorderStop::Signal(_) => true,
        RecorderStop::NoSignal => false,
    };
    let state: CaptureState = if interrupted {
        CaptureState::Interrupted
    } else if target.is_none() || collector_failed || unconfirmed || limits.exceeded()
        || recorder_supervision_error.is_some() {
        CaptureState::CaptureFailed
    } else {
        CaptureState::Completed
    };
    let completeness: CaptureCompleteness = if state != CaptureState::Completed {
        CaptureCompleteness::Incomplete
    } else if warnings.len() == 0 {
        CaptureCompleteness::CompleteForSupportedEvents
    } else {
        CaptureCompleteness::Partial
    };
    assert(views::each(warnings@).len() == warnings@.len());
    let cli_exit: i32 = match recorder {
        RecorderStop::Signal(signal) => 128 + signal,
        RecorderStop::NoSignal => {
            if state == CaptureState::CaptureFailed {
                125
            } else {
                let target_status: Option<i32> = match target {
                    Some(exit) => exit.cli_exit(),
                    None => None,
                };
                let collector_status: Option<i32> = match collector_exit {
                    Some(exit) => exit.cli_exit(),
                    None => None,
                };
                match (target_status, collector_status) {
                    (Some(code), _) => code,
                    (None, Some(code)) => code,
                    (None, None) => 125,
                }
            }
        },
    };
    CaptureDecision {
        target,
        target_exit_raw,
        collector,
        recorder,
        limits,
        recorder_supervision_error,
        state,
        completeness,
        warnings,
        cli_exit,
    }
}

/// Reduces the facts of one capture to a decision on this machine.
pub fn reduce_capture_facts(input: CaptureFactsInput<'_>) -> (d: CaptureDecision)
    requires
        input.recorder matches RecorderStop::Signal(signal) ==> signal <= i32::MAX - 128,
    ensures
        exists|range: SignalRange| #[trigger] input@.decides(d, range),
{
    let range: SignalRange = signal_range();
    let ghost facts = input@;
    let d: CaptureDecision = reduce_capture_facts_in(input, range);
    assert(facts.decides(d, range));
    d
}

/// Reduces the facts of a capture without limits to a decision on this machine.
pub fn reduce_capture(
    root_outcome: Option<&str>,
    missing_generations: &Vec<String>,
    collector: CollectorFacts,
    recorder: RecorderStop,
    recorder_supervision_error: Option<String>,
    warnings: Vec<String>,
    trace_read_error: Option<String>,
) -> (d: CaptureDecision)
    requires
        recorder matches RecorderStop::Signal(signal) ==> signal <= i32::MAX - 128,
    ensures
        exists|range: SignalRange| #[trigger]
            (FactsView {
                root_outcome: views::opt(root_outcome),
                missing: views::each(missing_generations@),
                collector: collector@,
                recorder,
                limits: CaptureLimitFacts { duration: None, trace_bytes: None },
                supervision_error: views::opt(recorder_supervision_error),
                warnings: views::each(warnings@),
                read_error: views::opt(trace_read_error),
            }).decides(d, range),
{
    reduce_capture_facts(
        CaptureFactsInput {
            root_outcome,
            missing_generations,
            collector,
            recorder,
            limits: CaptureLimitFacts { duration: None, trace_bytes: None },
            recorder_supervision_error,
            warnings,
            trace_read_error,
        },
    )
}

impl CaptureDecision {
    /// The exit code and the signal of the target.
    pub open spec fn target_fields(self) -> (Option<i32>, Option<i32>) {
        match self.target {
            Some(exit) => exit.fields(),
            None => (None, None),
        }
    }

    /// The exit code and the signal of the collector.
    pub open spec fn collector_fields(self) -> (Option<i32>, Option<i32>) {
        match self.collector {
            CollectorFacts::Reaped(exit) => exit.fields(),
            _ => (None, None),
        }
    }

    /// Projects the decision to the fields of the metadata.
    pub fn apply_to_metadata(self, metadata: &mut Metadata)
        ensures
            (final(metadata).exit_code, final(metadata).signal) == self.target_fields(),
            (final(metadata).collector_exit_code, final(metadata).collector_signal)
                == self.collector_fields(),
            views::opt(final(metadata).target_exit_raw) == views::opt(self.target_exit_raw),
            final(metadata).state@ == self.state.spelling(),
            views::opt(final(metadata).completeness) == Some(self.completeness.spelling()),
            views::each(final(metadata).warnings@) == views::each(self.warnings@),
            *final(metadata) == (Metadata {
                exit_code: final(metadata).exit_code,
                signal: final(metadata).signal,
                collector_exit_code: final(metadata).collector_exit_code,
                collector_signal: final(metadata).collector_signal,
                target_exit_raw: final(metadata).target_exit_raw,
                state: final(metadata).state,
                completeness: final(metadata).completeness,
                warnings: final(metadata).warnings,
                ..*old(metadata)
            }),
    {
        let (exit_code, signal) = match self.target {
            Some(exit) => exit.metadata_fields(),
            None => (None, None),
        };
        metadata.exit_code = exit_code;
        metadata.signal = signal;
        let (collector_exit_code, collector_signal) = match &self.collector {
            CollectorFacts::Reaped(exit) => exit.metadata_fields(),
            _ => (None, None),
        };
        metadata.collector_exit_code = collector_exit_code;
        metadata.collector_signal = collector_signal;
        metadata.target_exit_raw = self.target_exit_raw;
        metadata.state = self.state.as_text().to_owned();
        metadata.completeness = Some(self.completeness.as_text().to_owned());
        metadata.warnings = self.warnings;
    }
}

/// A supervision error behind an earlier one.
pub open spec fn joined_error(slot: Option<Seq<char>>, error: Seq<char>) -> Seq<char> {
    match slot {
        Some(previous) => previous + "; additionally "@ + error,
        None => error,
    }
}

/// Adds a supervision error behind an earlier one.
pub fn append_recorder_supervision_error(slot: &mut Option<String>, error: String)
    ensures
        views::opt(*final(slot)) == Some(joined_error(views::opt(*old(slot)), error@)),
{
    let joined: String = match slot.take() {
        Some(previous) => {
            let mut s: String = previous;
            s.append("; additionally ");
            s.append(error.as_str());
            s
        },
        None => error,
    };
    *slot = Some(joined);
}

/// A recorder signal takes priority over everything else that was observed: the
/// capture is interrupted, its evidence is incomplete, and the record command ends as a
/// shell would for the signal.
pub proof fn recorder_signal_has_priority(facts: FactsView, range: SignalRange, signal: i32)
    requires
        facts.recorder == RecorderStop::Signal(signal),
        signal <= i32::MAX - 128,
    ensures
        facts.state(range) is Interrupted,
        facts.completeness(range) is Incomplete,
        facts.cli_exit(range) == 128 + signal,
{
}

/// Anything that keeps the completion of the target from being established makes the
/// capture fail, with evidence that is incomplete, at least one warning, and the exit
/// status that is reserved for it.
pub proof fn unestablished_completion_fails(facts: FactsView, range: SignalRange)
    requires
        facts.recorder is NoSignal,
        facts.root_outcome is None || !(facts.collector is Reaped) || facts.unconfirmed(range)
            || facts.limits.any() || facts.supervision_error is Some,
    ensures
        facts.state(range) is CaptureFailed,
        facts.completeness(range) is Incomplete,
        facts.cli_exit(range) == 125,
        facts.limitations(range).len() > 0,
{
}

/// A capture is complete exactly if it was completed and nothing limits its evidence.
pub proof fn complete_without_limitations(facts: FactsView, range: SignalRange)
    ensures
        facts.completeness(range) is CompleteForSupportedEvents <==> facts.state(range) is Completed
            && facts.limitations(range).len() == 0,
        facts.completeness(range) is Partial <==> facts.state(range) is Completed
            && facts.limitations(range).len() > 0,
{
}

/// A completed capture ends with the status of its target, and with that of the
/// collector only where that of the target is not understood.
pub proof fn completed_capture_keeps_target_status(facts: FactsView, range: SignalRange)
    requires
        facts.state(range) is Completed,
    ensures
        facts.target(range) is Some,
        facts.collector is Reaped,
        (facts.target(range)->0).shell_status() matches Some(code) ==> facts.cli_exit(range) == code,
        (facts.target(range)->0) is Unknown || facts.collector == CollectorView::Reaped(
            facts.target(range)->0,
        ),
{
}

/// What the collector or the limits came to never changes what is said of the target.
pub proof fn target_facts_are_independent(a: FactsView, b: FactsView, range: SignalRange)
    requires
        a.root_outcome == b.root_outcome,
    ensures
        a.target(range) == b.target(range),
{
}

} // verus!
