//! The decisions of one recording, from the request to the finalized facts.
use vstd::prelude::*;
use vstd::string::*;

use crate::capture::child;
use crate::capture::completion;
use crate::capture::completion::Completion;
use crate::capture::facts;
use crate::capture::facts::{
    append_recorder_supervision_error, reduce_capture_facts_in, CaptureDecision, CaptureFactsInput,
    CaptureLimitFacts, CollectorFacts, CollectorView, FactsView, RecorderStop,
};
use crate::capture::limits::{CaptureLimits, LengthView, TraceLengthSource};
use crate::capture::probe::VersionProbeOutcome;
use crate::capture::signals::{signal_range, SignalRange};
use crate::capture::supervise::CollectorSupervision;
use crate::io;
use crate::io::with_context;
use crate::model::{CaptureCompleteness, CaptureState, Environment, Event, Metadata, RecordResult};
use crate::parse::timeline::Parsed;
use crate::text;
use crate::views;

verus! {

broadcast use crate::views::group_views;

/// The schema version that metadata is written with.
pub const METADATA_SCHEMA: u32 = 3;

/// Whether a name can be that of an environment variable.
pub open spec fn environment_name(key: Seq<char>) -> bool {
    key.len() > 0 && !key.contains('=') && !text::has_control(key)
}

/// Whether a text can name a record.
pub open spec fn record_name(name: Seq<char>) -> bool {
    name.len() > 0 && !text::has_control(name)
}

/// What keeps a request from being recorded.
pub open spec fn request_fault(
    name: Seq<char>,
    selected: Seq<Seq<char>>,
    limits: CaptureLimits,
    now: u128,
) -> Option<Seq<char>> {
    if exists|i: int| 0 <= i < selected.len() && !environment_name(#[trigger] selected[i]) {
        Some("environment variable name must be nonempty without '=' or control characters"@)
    } else if !record_name(name) {
        Some("name must be nonempty without control characters"@)
    } else {
        limits.fault(now)
    }
}

/// Checks a request before anything is opened or started.
pub fn validate_request(
    name: &str,
    selected: &Vec<String>,
    limits: CaptureLimits,
    now: u128,
) -> (r: Result<(), String>)
    ensures
        match r {
            Ok(_) => request_fault(name@, views::each(selected@), limits, now) is None,
            Err(message) => request_fault(name@, views::each(selected@), limits, now) == Some(
                message@,
            ),
        },
{
    for i in 0..selected.len()
        invariant
            forall|j: int| 0 <= j < i ==> environment_name(#[trigger] views::each(selected@)[j]),
    {
        let key: &str = selected[i].as_str();
        assert(views::each(selected@)[i as int] == key@);
        if key.unicode_len() == 0 || text::contains_char(key, '=') || text::contains_control(key) {
            return Err(
                "environment variable name must be nonempty without '=' or control characters".to_owned(),
            );
        }
    }
    if name.unicode_len() == 0 || text::contains_control(name) {
        return Err("name must be nonempty without control characters".to_owned());
    }
    limits.validate_at(now)
}

/// The first line of a text, without its line ending.
pub open spec fn first_line(s: Seq<char>) -> Option<Seq<char>> {
    if s.len() == 0 {
        None
    } else {
        match text::split_char(s, '\n') {
            Some((line, _)) => match text::before_suffix(line, "\r"@) {
                Some(bare) => Some(bare),
                None => Some(line),
            },
            None => Some(s),
        }
    }
}

/// What names the backend: the first line of its version.
pub open spec fn backend_of(version: Seq<char>) -> Seq<char> {
    match first_line(version) {
        Some(line) => line,
        None => "strace"@,
    }
}

/// Gives what names the backend, from its version as text.
pub fn backend_name(version: &str) -> (r: String)
    ensures
        r@ == backend_of(version@),
{
    if version.unicode_len() == 0 {
        return "strace".to_owned();
    }
    match text::split_once_char(version, '\n') {
        Some((line, _)) => match text::strip_suffix(line, "\r") {
            Some(bare) => bare.to_owned(),
            None => line.to_owned(),
        },
        None => version.to_owned(),
    }
}

/// Gives what names the backend, from its version as it wrote it.
pub fn backend_from_version(version: &Vec<u8>) -> (r: String)
    ensures
        r@ == backend_of(text::lossy_text(version@)),
{
    let rendered: String = text::lossy_string(version);
    backend_name(rendered.as_str())
}

/// The arguments that ask the backend for its version.
pub open spec fn probe_options(selector: Seq<char>) -> Seq<Seq<char>> {
    seq!["-e"@, selector, "--version"@]
}

/// Gives the arguments that ask the backend for its version.
pub fn probe_arguments(selector: &str) -> (r: Vec<String>)
    ensures
        views::each(r@) == probe_options(selector@),
{
    let r: Vec<String> = vec!["-e".to_owned(), selector.to_owned(), "--version".to_owned()];
    assert(views::each(r@) =~= probe_options(selector@));
    r
}

/// The arguments of the backend before the trace file and the command.
pub open spec fn collector_options(selector: Seq<char>) -> Seq<Seq<char>> {
    seq![
        "-f"@,
        "-q"@,
        "-I"@,
        "2"@,
        "--kill-on-exit"@,
        "-xx"@,
        "-yy"@,
        "-s"@,
        "65535"@,
        "-e"@,
        selector,
        "-o"@,
    ]
}

/// Gives the arguments of the backend before the trace file and the command.
pub fn collector_arguments(selector: &str) -> (r: Vec<String>)
    ensures
        views::each(r@) == collector_options(selector@),
{
    let r: Vec<String> =
        vec![
        "-f".to_owned(),
        "-q".to_owned(),
        "-I".to_owned(),
        "2".to_owned(),
        "--kill-on-exit".to_owned(),
        "-xx".to_owned(),
        "-yy".to_owned(),
        "-s".to_owned(),
        "65535".to_owned(),
        "-e".to_owned(),
        selector.to_owned(),
        "-o".to_owned(),
    ];
    assert(views::each(r@) =~= collector_options(selector@));
    r
}

/// What a record is begun with.
pub struct RecordRequest {
    /// The version of this program.
    pub tool_version: String,
    /// The identifier that storage generated.
    pub id: String,
    /// The name of the record.
    pub name: String,
    /// The spellings of the command and its arguments.
    pub command: Vec<String>,
    /// The spelling of the working directory.
    pub cwd: String,
    /// When the capture started.
    pub started: u128,
    /// What names the backend.
    pub backend: String,
    /// The selected environment.
    pub environment: Environment,
}

impl RecordRequest {
    /// Whether metadata is that of a capture that is running.
    pub open spec fn begins(self, m: Metadata) -> bool {
        &&& m.schema_version == METADATA_SCHEMA
        &&& m.tool_version@ == self.tool_version@
        &&& m.id@ == self.id@
        &&& m.name@ == self.name@
        &&& views::each(m.command@) == views::each(self.command@)
        &&& m.cwd@ == self.cwd@
        &&& m.started == self.started
        &&& m.ended is None
        &&& m.backend@ == self.backend@
        &&& m.state@ == "running"@
        &&& m.exit_code is None
        &&& m.signal is None
        &&& m.warnings@.len() == 0
        &&& m.parsed_events == 0
        &&& m.raw_lines == 0
        &&& m.environment == Some(self.environment)
        &&& views::opt(m.completeness) == Some("pending"@)
        &&& m.collector_exit_code is None
        &&& m.collector_signal is None
        &&& m.target_exit_raw is None
    }

    /// Gives the metadata of a capture that is running.
    pub fn metadata(self) -> (m: Metadata)
        ensures
            self.begins(m),
    {
        Metadata {
            schema_version: METADATA_SCHEMA,
            tool_version: self.tool_version,
            id: self.id,
            name: self.name,
            command: self.command,
            cwd: self.cwd,
            started: self.started,
            ended: None,
            backend: self.backend,
            state: "running".to_owned(),
            exit_code: None,
            signal: None,
            warnings: Vec::new(),
            parsed_events: 0,
            raw_lines: 0,
            environment: Some(self.environment),
            completeness: Some("pending".to_owned()),
            collector_exit_code: None,
            collector_signal: None,
            target_exit_raw: None,
        }
    }
}

/// What has been decided and observed of a recording so far.
pub struct RecordSession {
    /// Whether the recorder was stopped before the collector started.
    pub cancelled: bool,
    /// What went wrong with supervision.
    pub supervision_error: Option<String>,
    /// Which limits were exceeded.
    pub limits: CaptureLimitFacts,
    /// Whether the trace length could not be observed.
    pub length_unavailable: bool,
}

/// What a [`RecordSession`] holds.
pub struct SessionView {
    /// Whether the recorder was stopped before the collector started.
    pub cancelled: bool,
    /// What went wrong with supervision.
    pub supervision_error: Option<Seq<char>>,
    /// Which limits were exceeded.
    pub limits: CaptureLimitFacts,
    /// Whether the trace length could not be observed.
    pub length_unavailable: bool,
}

impl View for RecordSession {
    type V = SessionView;

    open spec fn view(&self) -> SessionView {
        SessionView {
            cancelled: self.cancelled,
            supervision_error: views::opt(self.supervision_error),
            limits: self.limits,
            length_unavailable: self.length_unavailable,
        }
    }
}

impl SessionView {
    /// The session after the probe of the backend.
    pub open spec fn probed(outcome: VersionProbeOutcome) -> SessionView {
        SessionView {
            cancelled: outcome is Cancelled,
            supervision_error: match outcome {
                VersionProbeOutcome::Completed(_) => None,
                VersionProbeOutcome::Cancelled(error) => views::opt(error),
            },
            limits: CaptureLimitFacts { duration: None, trace_bytes: None },
            length_unavailable: false,
        }
    }

    /// The session after a look for recorder signals before the collector starts.
    pub open spec fn observed(self, seen: Result<bool, Seq<char>>) -> SessionView {
        match seen {
            Ok(signal) => SessionView { cancelled: self.cancelled || signal, ..self },
            Err(message) => SessionView {
                supervision_error: Some(
                    io::context(
                        "recorder signal supervision failed before collector spawn"@,
                        message,
                    ),
                ),
                ..self
            },
        }
    }

    /// Why the collector must not be started.
    pub open spec fn obstacle(self) -> Option<Seq<char>> {
        if self.cancelled {
            Some("collector was not started because recorder cancellation was observed"@)
        } else if self.supervision_error is Some {
            Some("collector was not started because recorder signal supervision failed"@)
        } else {
            None
        }
    }

    /// The session with one more thing that went wrong with supervision.
    pub open spec fn with_error(self, message: Seq<char>) -> SessionView {
        SessionView {
            supervision_error: Some(facts::joined_error(self.supervision_error, message)),
            ..self
        }
    }

    /// The session after the supervision of the collector.
    pub open spec fn supervised(self, s: CollectorSupervision) -> SessionView {
        let limited = SessionView { limits: s.limits, ..self };
        match views::opt(s.trace_len_error) {
            Some(message) => (SessionView { length_unavailable: true, ..limited }).with_error(
                message,
            ),
            None => limited,
        }
    }

    /// The session after the last look at the trace length.
    pub open spec fn measured(self, limit: u64, length: LengthView) -> SessionView {
        match length {
            LengthView::Fixed(observed) => SessionView {
                limits: self.limits.with_trace_bytes(observed, limit),
                ..self
            },
            LengthView::Failed(message) => (SessionView { length_unavailable: true, ..self }).with_error(
                io::context(
                    "recorder trace length supervision failed after collector completion"@,
                    io::context(
                        "inspect final anchored trace length before reading raw evidence"@,
                        message,
                    ),
                ),
            ),
        }
    }

    /// Whether the raw trace is left unread: it is too long, or nobody knows how long.
    pub open spec fn skips_trace(self) -> bool {
        self.length_unavailable || self.limits.trace_bytes is Some
    }

    /// The session after the last look for recorder signals.
    pub open spec fn frozen(self, failure: Option<Seq<char>>) -> SessionView {
        match failure {
            Some(message) => self.with_error(
                io::context("recorder signal supervision failed"@, message),
            ),
            None => self,
        }
    }
}

/// What a recording came to, before it is committed.
pub struct Captured {
    /// How the collector ended.
    pub collector: CollectorFacts,
    /// Whether the recorder was stopped.
    pub recorder: RecorderStop,
    /// The parsed trace.
    pub parsed: Parsed,
    /// Why the trace could not be read.
    pub trace_read_error: Option<String>,
    /// When the capture ended.
    pub ended: u128,
}

/// A recording that is ready to be committed.
pub struct Concluded {
    /// The final metadata.
    pub metadata: Metadata,
    /// The normalized events.
    pub events: Vec<Event>,
    /// The state of the capture.
    pub state: CaptureState,
    /// How complete its evidence is.
    pub completeness: CaptureCompleteness,
    /// The exit status of the record command.
    pub cli_exit: i32,
}

impl Captured {
    /// The facts that the decision on a recording rests on.
    pub open spec fn facts(self, session: SessionView) -> FactsView {
        FactsView {
            root_outcome: match completion::root_exit_of(
                views::each(self.parsed.events@),
                self.parsed.timeline@,
            ) {
                Some(e) => Some(views::each(self.parsed.events@)[e as int].outcome),
                None => None,
            },
            missing: completion::missing_exits_of(self.parsed.timeline@),
            collector: self.collector@,
            recorder: self.recorder,
            limits: session.limits,
            supervision_error: session.supervision_error,
            warnings: views::each(self.parsed.warnings@),
            read_error: views::opt(self.trace_read_error),
        }
    }
}

/// Whether a recording is concluded as its facts call for.
pub open spec fn concludes(
    begun: Metadata,
    captured: Captured,
    session: SessionView,
    r: Concluded,
    range: SignalRange,
) -> bool {
    let facts = captured.facts(session);
    let m = r.metadata;
    &&& r.state == facts.state(range)
    &&& r.completeness == facts.completeness(range)
    &&& r.cli_exit == facts.cli_exit(range)
    &&& views::each(r.events@) == views::each(captured.parsed.events@)
    &&& (m.exit_code, m.signal) == (match facts.target(range) {
        Some(exit) => exit.fields(),
        None => (None, None),
    })
    &&& (m.collector_exit_code, m.collector_signal) == (match facts.collector {
        CollectorView::Reaped(exit) => exit.fields(),
        _ => (None, None),
    })
    &&& views::opt(m.target_exit_raw) == facts.root_outcome
    &&& m.state@ == r.state.spelling()
    &&& views::opt(m.completeness) == Some(r.completeness.spelling())
    &&& views::each(m.warnings@) == facts.limitations(range)
    &&& m == (Metadata {
        raw_lines: captured.parsed.lines,
        parsed_events: captured.parsed.events@.len() as usize,
        ended: Some(captured.ended),
        exit_code: m.exit_code,
        signal: m.signal,
        collector_exit_code: m.collector_exit_code,
        collector_signal: m.collector_signal,
        target_exit_raw: m.target_exit_raw,
        state: m.state,
        completeness: m.completeness,
        warnings: m.warnings,
        ..begun
    })
}

impl RecordSession {
    /// Starts a session after the probe of the backend; the version is kept apart.
    pub fn after_probe(outcome: VersionProbeOutcome) -> (r: (RecordSession, Vec<u8>))
        ensures
            r.0@ == SessionView::probed(outcome),
            r.1@ == (match outcome {
                VersionProbeOutcome::Completed(version) => version@,
                VersionProbeOutcome::Cancelled(_) => Seq::empty(),
            }),
    {
        let none: CaptureLimitFacts = CaptureLimitFacts { duration: None, trace_bytes: None };
        match outcome {
            VersionProbeOutcome::Completed(version) => (
                RecordSession {
                    cancelled: false,
                    supervision_error: None,
                    limits: none,
                    length_unavailable: false,
                },
                version,
            ),
            VersionProbeOutcome::Cancelled(error) => (
                RecordSession {
                    cancelled: true,
                    supervision_error: error,
                    limits: none,
                    length_unavailable: false,
                },
                Vec::new(),
            ),
        }
    }

    /// Notes a look for recorder signals before the collector starts.
    pub fn observed(&mut self, seen: Result<bool, String>)
        ensures
            final(self)@ == old(self)@.observed(child::plain(seen)),
    {
        match seen {
            Ok(signal) => {
                self.cancelled = self.cancelled || signal;
            },
            Err(message) => {
                self.supervision_error = Some(
                    with_context(
                        "recorder signal supervision failed before collector spawn",
                        message.as_str(),
                    ),
                );
            },
        }
    }

    /// Says whether the collector must not be started, as its facts.
    pub fn not_started(&self) -> (r: Option<CollectorFacts>)
        ensures
            views::opt(r) == (match self@.obstacle() {
                Some(reason) => Some(CollectorView::NotStarted(reason)),
                None => None,
            }),
    {
        if self.cancelled {
            Some(
                CollectorFacts::NotStarted(
                    "collector was not started because recorder cancellation was observed".to_owned(),
                ),
            )
        } else if self.supervision_error.is_some() {
            Some(
                CollectorFacts::NotStarted(
                    "collector was not started because recorder signal supervision failed".to_owned(),
                ),
            )
        } else {
            None
        }
    }

    /// Notes the supervision of the collector and gives how it ended.
    pub fn supervised(&mut self, supervision: CollectorSupervision) -> (r: CollectorFacts)
        ensures
            final(self)@ == old(self)@.supervised(supervision),
            r@ == (match supervision.status {
                Ok(exit) => CollectorView::Reaped(exit),
                Err(message) => CollectorView::Failed(message@),
            }),
    {
        self.limits = supervision.limits;
        match supervision.trace_len_error {
            Some(message) => {
                self.length_unavailable = true;
                append_recorder_supervision_error(&mut self.supervision_error, message);
            },
            None => {},
        }
        match supervision.status {
            Ok(exit) => CollectorFacts::Reaped(exit),
            Err(message) => CollectorFacts::Failed(message),
        }
    }

    /// Notes the last look at the trace length.
    pub fn measured(&mut self, limit: u64, length: TraceLengthSource)
        ensures
            final(self)@ == old(self)@.measured(limit, length@),
    {
        match length {
            TraceLengthSource::Fixed(observed) => {
                let mut limits: CaptureLimitFacts = self.limits;
                limits.observe_trace_bytes(observed, limit);
                self.limits = limits;
            },
            TraceLengthSource::Failed(message) => {
                self.length_unavailable = true;
                let inner: String = with_context(
                    "inspect final anchored trace length before reading raw evidence",
                    message.as_str(),
                );
                append_recorder_supervision_error(
                    &mut self.supervision_error,
                    with_context(
                        "recorder trace length supervision failed after collector completion",
                        inner.as_str(),
                    ),
                );
            },
        }
    }

    /// Says whether the raw trace is left unread.
    pub fn skips_trace(&self) -> (r: bool)
        ensures
            r == self@.skips_trace(),
    {
        self.length_unavailable || self.limits.trace_bytes.is_some()
    }

    /// Notes the last look for recorder signals.
    pub fn frozen(&mut self, failure: Option<String>)
        ensures
            final(self)@ == old(self)@.frozen(views::opt(failure)),
    {
        match failure {
            Some(message) => {
                append_recorder_supervision_error(
                    &mut self.supervision_error,
                    with_context("recorder signal supervision failed", message.as_str()),
                );
            },
            None => {},
        }
    }

    /// Concludes a recording, on a machine with the given real-time signals.
    pub fn conclude_in(self, metadata: Metadata, captured: Captured, range: SignalRange) -> (r:
        Concluded)
        requires
            captured.parsed.timeline@.wf(captured.parsed.events@.len()),
            captured.recorder matches RecorderStop::Signal(signal) ==> signal <= i32::MAX - 128,
        ensures
            concludes(metadata, captured, self@, r, range),
    {
        let ghost given = captured;
        let ghost session = self@;
        let mut metadata: Metadata = metadata;
        let completed: Completion = Completion::from_timeline(&captured.parsed);
        let Captured { collector, recorder, parsed, trace_read_error, ended } = captured;
        metadata.raw_lines = parsed.lines;
        metadata.parsed_events = parsed.events.len();
        metadata.ended = Some(ended);
        let Parsed { events, warnings, lines, timeline } = parsed;
        let root_outcome: Option<&str> = match completed.root_exit {
            Some(e) => Some(events[e].outcome.as_str()),
            None => None,
        };
        let input: CaptureFactsInput = CaptureFactsInput {
            root_outcome,
            missing_generations: &completed.missing_exits,
            collector,
            recorder,
            limits: self.limits,
            recorder_supervision_error: self.supervision_error,
            warnings,
            trace_read_error,
        };
        proof {
            if completed.root_exit is Some {
                let e = completed.root_exit->0;
                assert(views::each(given.parsed.events@)[e as int] == events@[e as int]@);
            }
            assert(input@ == given.facts(session));
        }
        let decision: CaptureDecision = reduce_capture_facts_in(input, range);
        let state: CaptureState = decision.state;
        let completeness: CaptureCompleteness = decision.completeness;
        let cli_exit: i32 = decision.cli_exit;
        decision.apply_to_metadata(&mut metadata);
        Concluded { metadata, events, state, completeness, cli_exit }
    }

    /// Concludes a recording on this machine.
    pub fn conclude(self, metadata: Metadata, captured: Captured) -> (r: Concluded)
        requires
            captured.parsed.timeline@.wf(captured.parsed.events@.len()),
            captured.recorder matches RecorderStop::Signal(signal) ==> signal <= i32::MAX - 128,
        ensures
            exists|range: SignalRange| #[trigger]
                concludes(metadata, captured, self@, r, range),
    {
        let range: SignalRange = signal_range();
        self.conclude_in(metadata, captured, range)
    }
}

impl Concluded {
    /// Whether a result reports this recording with the directory of its evidence.
    pub open spec fn reports(self, r: RecordResult, evidence_dir: Seq<char>) -> bool {
        &&& r.id == self.metadata.id
        &&& r.name == self.metadata.name
        &&& r.state == self.state
        &&& r.completeness == self.completeness
        &&& r.event_count == self.metadata.parsed_events
        &&& r.warnings == self.metadata.warnings
        &&& r.evidence_dir@ == evidence_dir
        &&& r.cli_exit == self.cli_exit
    }

    /// Gives what the record command reports, once the record is committed.
    pub fn result(self, evidence_dir: String) -> (r: RecordResult)
        ensures
            self.reports(r, evidence_dir@),
    {
        RecordResult {
            id: self.metadata.id,
            name: self.metadata.name,
            state: self.state,
            completeness: self.completeness,
            event_count: self.metadata.parsed_events,
            warnings: self.metadata.warnings,
            evidence_dir,
            cli_exit: self.cli_exit,
        }
    }
}

/// The error of a recording after which the recorder's signals could not be restored.
pub open spec fn restoration_fault(
    operation: Result<Seq<char>, Seq<char>>,
    restoration: Option<Seq<char>>,
) -> Option<Seq<char>> {
    match (operation, restoration) {
        (Ok(_), None) => None,
        (Ok(id), Some(error)) => Some(
            "record "@ + id + " committed but failed to restore recorder signal state: "@ + error,
        ),
        (Err(error), None) => Some(error),
        (Err(error), Some(r)) => Some(
            error + "; additionally failed to restore recorder signal state: "@ + r,
        ),
    }
}

/// Joins what a recording came to with the restoration of the recorder's signals.
pub fn with_restoration(
    operation: Result<RecordResult, String>,
    restoration: Option<String>,
) -> (r: Result<RecordResult, String>)
    ensures
        ({
            let fault = restoration_fault(
                match operation {
                    Ok(result) => Ok(result.id@),
                    Err(message) => Err(message@),
                },
                views::opt(restoration),
            );
            match r {
                Ok(result) => operation == Ok::<RecordResult, String>(result) && fault is None,
                Err(message) => fault == Some(message@),
            }
        }),
{
    match (operation, restoration) {
        (Ok(result), None) => Ok(result),
        (Ok(result), Some(error)) => {
            let mut s: String = "record ".to_owned();
            s.append(result.id.as_str());
            s.append(" committed but failed to restore recorder signal state: ");
            s.append(error.as_str());
            Err(s)
        },
        (Err(error), None) => Err(error),
        (Err(error), Some(restoration)) => {
            let mut s: String = error;
            s.append("; additionally failed to restore recorder signal state: ");
            s.append(restoration.as_str());
            Err(s)
        },
    }
}

} // verus!
