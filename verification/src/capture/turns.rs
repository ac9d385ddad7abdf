//! What supervision does next, turn by turn: how signals and limits reach the collector, how
//! the probe of the backend goes, and how signal handling is set up and taken down.
use vstd::prelude::*;

use crate::capture::facts::{CollectorFacts, CollectorView, ProcessExit, RecorderStop};
use crate::capture::limits::{CaptureLimits, LengthView};
use crate::capture::probe;
use crate::capture::probe::{
    CapturedPipe, LaunchAction, LaunchEvent, LaunchFailure, LaunchPhase, PhaseView, PipeRead,
    ProbeActionView, ProbeEventView, ProbeReadiness,
};
use crate::capture::record::RecordSession;
use crate::capture::recording::{
    Begun, RecordAction, RecordEvent, RecordOrder, RecordPhase, Running,
};
use crate::capture::signal_scope;
use crate::capture::signal_scope::{ScopeView, SetupStepView, SignalReadView, SignalSetup};
use crate::capture::supervise::{
    ActionView, CollectorSupervision, ConclusionView, ObservedSignal, SupervisionEventView,
    Supervisor,
};
use crate::numbers;
use crate::parse::timeline::Parsed;
use crate::text;
use crate::views;

verus! {

/// A signal to the recorder is handed to the collector, once; a collector that would not get
/// it is terminated.
pub proof fn signals_reach_the_collector(s: Supervisor, signal: ObservedSignal)
    requires
        s.signal == Some(signal),
        !s.signal_handled,
    ensures
        signal.direct ==> s.on_signal().1 == ActionView::Conclude(ConclusionView::Cancel),
        !signal.direct ==> s.on_signal().1 == ActionView::Forward(signal.number),
        s.on_signal().0.signal_handled,
        (Supervisor { signal_handled: true, ..s }).on_signal() == (Supervisor {
            signal_handled: true,
            ..s
        }).on_limit(),
{
}

/// A limit that is newly exceeded asks the collector to terminate, unless it was asked before;
/// else a collector that is ready is waited for, and one that is not is watched on.
pub proof fn limits_reach_the_collector(s: Supervisor)
    ensures
        s.newly_exceeded && s.termination_deadline is None ==> s.on_limit().1
            == ActionView::Forward(15i32),
        !(s.newly_exceeded && s.termination_deadline is None) && s.collector_ready ==> s.on_limit().1
            == ActionView::Conclude(ConclusionView::Finish),
        !(s.newly_exceeded && s.termination_deadline is None) && !s.collector_ready
            ==> s.on_limit().1 == ActionView::ReadClock,
{
}

/// A grace begins when the first signal was handed on, and ends after its span; when it has
/// ended the collector is killed.
pub proof fn graces_begin_and_end(s: Supervisor, now: u128)
    requires
        s.phase is ForwardingSignal || s.phase is ForwardingTermination,
        s.termination_deadline is None,
        now + s.schedule.terminate_grace <= 9_223_372_036_854_775_807_999_999_999,
    ensures
        s.forwarded(None, now).0.termination_deadline == Some(
            (now + s.schedule.terminate_grace) as u128,
        ),
        ({
            let t = Supervisor {
                termination_deadline: Some((now + s.schedule.terminate_grace) as u128),
                ..s
            };
            forall|later: u128|
                later >= now + s.schedule.terminate_grace ==> (#[trigger] t.stepped(
                    SupervisionEventView::Clock(later),
                )).1 == ActionView::Conclude(ConclusionView::Cancel)
        }),
{
}

/// A grace that is still on does not kill: supervision waits, at most until it ends.
pub proof fn graces_are_waited_for(s: Supervisor, now: u128)
    requires
        s.termination_deadline matches Some(deadline) ==> now < deadline,
    ensures
        s.stepped(SupervisionEventView::Clock(now)).1 is Poll,
        s.termination_deadline matches Some(deadline) ==> (s.stepped(
            SupervisionEventView::Clock(now),
        ).1 matches ActionView::Poll(Some(wake)) && wake <= deadline),
{
}

/// What fails in supervision ends it with words for what failed.
pub proof fn failures_end_supervision(s: Supervisor, message: Seq<char>, now: u128)
    ensures
        s.stepped(SupervisionEventView::Observed(Err(message))).1 == ActionView::Conclude(
            ConclusionView::Fail(message),
        ),
        s.stepped(SupervisionEventView::Polled(Err(message))).1 == ActionView::Conclude(
            ConclusionView::Fail(message),
        ),
        s.stepped(SupervisionEventView::Polled(Ok((true, false)))).1 == ActionView::Conclude(
            ConclusionView::Fail("invalid fd while polling recorder signals and collector"@),
        ),
        s.forwarded(Some(message), now).1 == ActionView::Conclude(ConclusionView::Fail(message)),
        s.policy.max_trace_bytes is Some && s.facts.trace_bytes is None ==> s.measured(
            now,
            LengthView::Failed(message),
        ).1 == ActionView::Conclude(
            ConclusionView::CancelForLength(
                "recorder trace length supervision failed: inspect anchored trace length during collector supervision: "@
                    + message,
            ),
        ),
{
    reveal_strlit("recorder trace length supervision failed: ");
    reveal_strlit("inspect anchored trace length during collector supervision: ");
    reveal_strlit(
        "recorder trace length supervision failed: inspect anchored trace length during collector supervision: ",
    );
    assert("recorder trace length supervision failed: "@ + (
    "inspect anchored trace length during collector supervision: "@ + message)
        =~= "recorder trace length supervision failed: inspect anchored trace length during collector supervision: "@
        + message);
}

/// Supervision goes round: it observes signals, measures, reads the clock and waits, and what
/// is ready is known in the next round.
pub proof fn supervision_goes_round(s: Supervisor, signal: Option<ObservedSignal>, ready: bool)
    ensures
        ({
            let (next, action) = s.stepped(SupervisionEventView::Observed(Ok(signal)));
            &&& next.signal == signal && next.phase is Measuring
            &&& action == ActionView::Measure(
                s.policy.max_trace_bytes is Some && s.facts.trace_bytes is None,
            )
        }),
        ({
            let (next, action) = s.stepped(SupervisionEventView::Polled(Ok((false, ready))));
            &&& next.collector_ready == ready && next.phase is Observing
            &&& action == ActionView::Observe
        }),
{
}

/// A pipe of the probe fails if it cannot be read or if it gives more than 65536 bytes, with
/// words that name it; it does not fail else.
pub proof fn pipes_of_the_probe_are_bounded(pipe: CapturedPipe, chunk: Vec<u8>, message: String)
    ensures
        pipe.fault(PipeRead::Failed(message)) == Some(
            "read strace version probe "@ + pipe.name@ + ": "@ + message@,
        ),
        chunk@.len() > 0 && pipe.bytes@.len() + chunk@.len() > 65_536 ==> pipe.fault(
            PipeRead::Bytes(chunk),
        ) == Some(
            "strace version probe "@ + pipe.name@ + " exceeded "@ + numbers::decimal(65_536)
                + "-byte limit"@,
        ),
        chunk@.len() == 0 || pipe.bytes@.len() + chunk@.len() <= 65_536 ==> pipe.fault(
            PipeRead::Bytes(chunk),
        ) is None,
        pipe.fault(PipeRead::Interrupted) is None,
        pipe.fault(PipeRead::WouldBlock) is None,
{
}

/// What the backend said of its failure is shown without the white space around it, whole if it
/// takes at most 4096 bytes, and that nothing was said is shown too.
pub proof fn errors_of_the_backend_are_shown(r: Seq<char>, said: Seq<char>, bytes: nat)
    requires
        probe::shows(r, said, bytes),
    ensures
        text::width(text::trimmed(said)) <= 4096 && text::trimmed(said).len() > 0 ==> r
            == text::trimmed(said),
        text::trimmed(said).len() == 0 ==> r == "(no stderr)"@,
        text::width(text::trimmed(said)) > 4096 ==> exists|k: int|
            0 <= k < text::trimmed(said).len() && r == #[trigger] text::trimmed(said).take(k)
                + " [truncated; stderr was "@ + numbers::decimal(bytes) + " bytes]"@,
{
    let t = text::trimmed(said);
    if text::width(t) > 4096 {
        let suffix = probe::truncation_suffix(bytes);
        let room = 4096 - text::width(suffix);
        let most = if room < 0 {
            0
        } else {
            room
        };
        let k = choose|k: int| text::fits(t, most, k) && r == #[trigger] t.take(k) + suffix;
        text::width_grows(suffix, 0, suffix.len() as int);
        assert(k < t.len()) by {
            if k == t.len() {
                assert(text::width_upto(t, k) <= most);
            }
        }
        assert(t.take(k) + suffix =~= t.take(k) + " [truncated; stderr was "@ + numbers::decimal(
            bytes,
        ) + " bytes]"@);
    }
}

/// The words for a backend that failed: with which code it exited, by which signal it was
/// killed, or that neither is known.
pub proof fn failures_of_the_backend_are_told(n: i32, error: Seq<char>)
    ensures
        probe::failure_words(ProcessExit::Exited(n)) == "strace version probe exited nonzero ("@
            + numbers::signed(n as int) + "): "@,
        probe::failure_words(ProcessExit::Signaled(n))
            == "strace version probe terminated by signal "@ + numbers::signed(n as int) + ": "@,
        probe::failure_words(ProcessExit::Unknown)
            == "strace version probe completion was not observable: "@,
        probe::unstarted_text(error)
            == "failed to start supervised strace version probe; verify strace installation, RUNDELTA_STRACE, and process supervision support"@
            + ": "@ + error,
{
}

/// What the probe does when nothing comes, when something fails, and when its process has
/// ended: it gives up after five seconds, keeps the first failure, and drains both pipes before
/// it waits.
pub proof fn probes_take_their_turns(message: Seq<char>, other: Seq<char>, exit: ProcessExit)
    ensures
        probe::probe_step(PhaseView::TimedOut, ProbeEventView::Observed(Ok(false))).1
            == ProbeActionView::Abort("strace version probe timed out after 5 seconds"@),
        probe::probe_step(PhaseView::Failing(message), ProbeEventView::Observed(Ok(false))).1
            == ProbeActionView::Abort(message),
        probe::probe_step(PhaseView::Failing(message), ProbeEventView::Observed(Err(other))).1
            == ProbeActionView::Abort(
            message + "; additionally failed to observe recorder signal: "@ + other,
        ),
        probe::probe_step(PhaseView::LastOutput, ProbeEventView::Drained(None)) == (
            PhaseView::LastErrors,
            ProbeActionView::DrainStderr,
        ),
        probe::probe_step(PhaseView::LastErrors, ProbeEventView::Drained(None)) == (
            PhaseView::BeforeWait,
            ProbeActionView::Observe,
        ),
        probe::probe_step(PhaseView::BeforeWait, ProbeEventView::Observed(Ok(false))) == (
            PhaseView::Waiting,
            ProbeActionView::Finish,
        ),
        probe::probe_step(PhaseView::Waiting, ProbeEventView::Waited(Ok(exit))) == (
            PhaseView::AfterWait(exit),
            ProbeActionView::Observe,
        ),
        probe::probe_step(PhaseView::AfterWait(exit), ProbeEventView::Observed(Ok(false))).1
            == ProbeActionView::Report(exit),
        probe::probe_step(PhaseView::Observing, ProbeEventView::Observed(Ok(false))) == (
            PhaseView::Polling,
            ProbeActionView::Poll,
        ),
{
}

/// The first signal that is observed is kept, and it is the one that stops the recorder; a
/// signal that the collector would not get is one that was blocked or ignored.
pub proof fn first_signals_are_kept(s: ScopeView, signal: i32)
    ensures
        s.first_observed is None ==> s.after(SignalReadView::Signal(signal)).first_observed == Some(
            signal,
        ),
        s.first_observed is Some ==> s.after(SignalReadView::Signal(signal)) == s,
        s.after(SignalReadView::Interrupted) == s,
        s.after(SignalReadView::WouldBlock) == s,
        s.first_observed is None ==> s.stop() == RecorderStop::NoSignal,
        s.first_observed == Some(signal) ==> s.stop() == RecorderStop::Signal(signal),
        s.direct(signal) ==> exists|i: int|
            0 <= i < s.saved.len() && (#[trigger] s.saved[i]).number == signal && (
            s.saved[i].blocked || s.saved[i].ignored),
{
}

/// Reading signals goes on behind a signal and an interruption; what fails is told.
pub proof fn failed_signal_reads_are_told(message: Seq<char>, count: u64, signal: i32)
    ensures
        signal_scope::reads_again(SignalReadView::Signal(signal)),
        signal_scope::reads_again(SignalReadView::Interrupted),
        !signal_scope::reads_again(SignalReadView::WouldBlock),
        signal_scope::read_fault(SignalReadView::Failed(message)) == Some(
            "read recorder signalfd"@ + ": "@ + message,
        ),
        signal_scope::read_fault(SignalReadView::Short(count)) == Some(
            "short read from recorder signalfd: "@ + numbers::decimal(count as nat) + " bytes"@,
        ),
        signal_scope::read_fault(SignalReadView::Signal(signal)) is None,
        signal_scope::read_fault(SignalReadView::WouldBlock) is None,
{
}

/// What could not be restored is told part by part, in order.
pub proof fn failed_restorations_are_told(a: Seq<char>, b: Seq<char>, c: Seq<char>)
    ensures
        signal_scope::restore_faults(None, None, None).len() == 0,
        signal_scope::restore_faults(Some(a), Some(b), Some(c)) == seq![
            "drain signalfd"@ + ": "@ + a,
            "restore actions"@ + ": "@ + b,
            "restore mask"@ + ": "@ + c,
        ],
        signal_scope::restore_faults(None, None, Some(c)) == seq!["restore mask"@ + ": "@ + c],
        signal_scope::rollback_text(a, None, None) == a,
        signal_scope::rollback_text(a, Some(b), None) == a
            + "; signal setup rollback failed: actions="@ + b + "; mask="@ + "ok"@,
        signal_scope::rollback_text(a, None, Some(c)) == a
            + "; signal setup rollback failed: actions="@ + "ok"@ + "; mask="@ + c,
{
    assert(signal_scope::restore_faults(Some(a), Some(b), Some(c)) =~= seq![
        "drain signalfd"@ + ": "@ + a,
        "restore actions"@ + ": "@ + b,
        "restore mask"@ + ": "@ + c,
    ]);
    assert(signal_scope::restore_faults(None, None, Some(c)) =~= seq![
        "restore mask"@ + ": "@ + c,
    ]);
}

/// Signal handling is set up one signal after the other, then the descriptor is opened; it is
/// rolled back in the opposite order.
pub proof fn signal_handling_is_set_up_in_order(s: SignalSetup, n: nat, i: int)
    requires
        n <= usize::MAX,
    ensures
        s.changed < s.count ==> s.due() == SetupStepView::SetAction(s.changed) && s.words()
            == "make control signal observable"@,
        s.changed >= s.count && !s.open ==> s.due() == SetupStepView::OpenDescriptor && s.words()
            == "create recorder signalfd"@,
        s.changed >= s.count && s.open ==> s.due() == SetupStepView::Complete,
        s.changed < s.count ==> s.done().changed == s.changed + 1 && s.done().open == s.open,
        s.changed >= s.count ==> s.done().open && s.done().changed == s.changed,
        signal_scope::backwards(n).len() == n,
        0 <= i < n ==> signal_scope::backwards(n)[i] == n - 1 - i,
{
}

/// Signals whose actions could not be restored are told one by one, in their order.
pub proof fn failed_actions_are_told(failures: Seq<(i32, String)>, n: i32, error: String)
    ensures
        signal_scope::actions_fault(Seq::<(i32, String)>::empty()) is None,
        signal_scope::actions_fault(seq![(n, error)]) == Some(
            "restore control signal actions: "@ + ("signal "@ + numbers::signed(n as int) + ": "@
                + error@),
        ),
        failures.len() > 0 ==> signal_scope::actions_fault(failures.push((n, error))) == Some(
            signal_scope::actions_fault(failures)->0 + "; "@ + ("signal "@ + numbers::signed(
                n as int,
            ) + ": "@ + error@),
        ),
{
    let one = seq![(n, error)];
    let told = "signal "@ + numbers::signed(n as int) + ": "@ + error@;
    assert(signal_scope::action_faults(one)[0] == told);
    assert(text::joined_upto(signal_scope::action_faults(one), "; "@, 1) == told);
    if failures.len() > 0 {
        let all = signal_scope::action_faults(failures.push((n, error)));
        let before = signal_scope::action_faults(failures);
        let k = failures.len() as int;
        joined_agree(all, before, "; "@, k);
        assert(all[k] == told);
        assert("restore control signal actions: "@ + (text::joined_upto(before, "; "@, k) + "; "@
            + told) =~= "restore control signal actions: "@ + text::joined_upto(before, "; "@, k)
            + "; "@ + told);
    }
}

/// Lists that begin alike join alike.
proof fn joined_agree(a: Seq<Seq<char>>, b: Seq<Seq<char>>, separator: Seq<char>, n: int)
    requires
        n <= a.len(),
        n <= b.len(),
        forall|i: int| 0 <= i < n ==> a[i] == b[i],
    ensures
        text::joined_upto(a, separator, n) == text::joined_upto(b, separator, n),
    decreases n,
{
    if n > 1 {
        joined_agree(a, b, separator, n - 1);
    }
}

/// What keeps a recording from going on is reported in its own words, and nothing is done after
/// that.
pub proof fn recordings_report_what_stops_them(
    limits: CaptureLimits,
    phase: RecordPhase,
    event: RecordEvent,
    next: RecordPhase,
    action: RecordAction,
    message: String,
)
    requires
        phase.awaits(event),
        phase.leads(limits, event, next, action),
        event == RecordEvent::Probed(Err(message)) || event == RecordEvent::Begun(Err(message))
            || event == RecordEvent::Described(Some(message)) || event == RecordEvent::Opened(
            Some(message),
        ) || event == RecordEvent::Committed(Some(message)),
    ensures
        next is Done,
        action matches RecordAction::Report(Err(m)) && m@ == message@,
{
}

/// A recording keeps what its record was begun with until it is concluded.
pub proof fn recordings_keep_what_they_began(
    limits: CaptureLimits,
    phase: RecordPhase,
    event: RecordEvent,
    next: RecordPhase,
    action: RecordAction,
    before: Running,
    after: Running,
)
    requires
        phase.awaits(event),
        phase.leads(limits, event, next, action),
        phase.holds(before),
        next.holds(after),
    ensures
        after.metadata == before.metadata,
        after.evidence_dir == before.evidence_dir,
{
}

/// A record is begun with what was ordered and with what storage made of it.
pub proof fn records_are_begun_as_ordered(
    limits: CaptureLimits,
    order: RecordOrder,
    session: RecordSession,
    version: Vec<u8>,
    begun: Begun,
    next: RecordPhase,
    action: RecordAction,
)
    requires
        RecordPhase::Beginning(order, session, version).leads(
            limits,
            RecordEvent::Begun(Ok(begun)),
            next,
            action,
        ),
    ensures
        action is Describe,
        next matches RecordPhase::Describing(running) && {
            let m = running.metadata;
            &&& m.id@ == begun.id@ && m.cwd@ == begun.cwd@ && m.name@ == order.name@
            &&& views::each(m.command@) == views::each(order.command@)
            &&& running.evidence_dir == begun.evidence_dir && running.session@ == session@
        },
{
}

/// A recording goes on, turn by turn: it describes its record before it opens the trace, looks
/// once more for signals, reads the clock and starts the collector.
pub proof fn recordings_come_to_their_collector(
    limits: CaptureLimits,
    running: Running,
    now: u128,
    next: RecordPhase,
    action: RecordAction,
)
    ensures
        RecordPhase::Describing(running).leads(limits, RecordEvent::Described(None), next, action)
            ==> next is Opening && action is OpenTrace,
        RecordPhase::Opening(running).leads(limits, RecordEvent::Opened(None), next, action)
            && running.session@.supervision_error is None ==> next is Looking && action is Observe,
        RecordPhase::Looking(running).leads(limits, RecordEvent::Observed(Ok(false)), next, action)
            && running.session@.obstacle() is None ==> next is Scheduling && action is ReadClock,
        RecordPhase::Looking(running).leads(limits, RecordEvent::Observed(Ok(true)), next, action)
            ==> !(next is Scheduling),
        RecordPhase::Scheduling(running).leads(limits, RecordEvent::Clock(now), next, action)
            && limits.fault(now) is None ==> next is Collecting && action is Collect,
        RecordPhase::Scheduling(running).leads(limits, RecordEvent::Clock(now), next, action)
            && limits.fault(now) is Some ==> next is Done && action is Report,
{
}

/// After its collector a recording looks at the length of a trace that has a limit, and only of
/// such a one, reads what may be read, looks for signals for the last time and commits.
pub proof fn recordings_come_to_their_end(
    limits: CaptureLimits,
    running: Running,
    collector: CollectorFacts,
    parsed: Parsed,
    error: Option<String>,
    event: RecordEvent,
    next: RecordPhase,
    action: RecordAction,
)
    ensures
        RecordPhase::Collecting(running).leads(limits, event, next, action) && event is Collected
            ==> (action is Measure <==> limits.max_trace_bytes is Some),
        RecordPhase::Collecting(running).leads(limits, event, next, action) && event is Collected
            ==> (next is Measuring <==> limits.max_trace_bytes is Some),
        RecordPhase::Collecting(running).leads(limits, event, next, action) && event is Collected
            && limits.max_trace_bytes is None ==> (next.session() matches Some(session) && (
        action is ReadTrace <==> !session.skips_trace()) && (action is Freeze
            <==> session.skips_trace())),
        RecordPhase::Measuring(running, collector).leads(limits, event, next, action)
            && event is Measured ==> (next.session() matches Some(session) && (action is ReadTrace
            <==> !session.skips_trace()) && (action is Freeze <==> session.skips_trace())),
        RecordPhase::Reading(running, collector).leads(
            limits,
            RecordEvent::Read(parsed, error),
            next,
            action,
        ) ==> action is Freeze && next == RecordPhase::Freezing(running, collector, parsed, error),
        RecordPhase::Freezing(running, collector, parsed, error).leads(limits, event, next, action)
            && event is Frozen ==> action is Commit && (next matches RecordPhase::Committing(
            _,
            evidence_dir,
        ) && evidence_dir == running.evidence_dir),
{
}

/// The end of the collector is handed on as it was seen.
pub proof fn recordings_hand_on_the_end_of_the_collector(
    limits: CaptureLimits,
    running: Running,
    supervision: CollectorSupervision,
    exit: ProcessExit,
    message: String,
    next: RecordPhase,
    action: RecordAction,
)
    requires
        limits.max_trace_bytes is Some,
    ensures
        RecordPhase::Collecting(running).leads(
            limits,
            RecordEvent::Collected(Err(message)),
            next,
            action,
        ) ==> (next matches RecordPhase::Measuring(_, c) && c@ == CollectorView::Failed(message@)),
        RecordPhase::Collecting(running).leads(
            limits,
            RecordEvent::Collected(Ok(supervision)),
            next,
            action,
        ) && supervision.status == Ok::<ProcessExit, String>(exit) ==> (
        next matches RecordPhase::Measuring(_, c) && c@ == CollectorView::Reaped(exit)),
        RecordPhase::Collecting(running).leads(
            limits,
            RecordEvent::Collected(Ok(supervision)),
            next,
            action,
        ) && supervision.status == Err::<ProcessExit, String>(message) ==> (
        next matches RecordPhase::Measuring(_, c) && c@ == CollectorView::Failed(message@)),
{
}

/// What a poll of the probe gave is taken in order: signals first, then output, then errors, and
/// the end of the probe last, with what is left in its pipes.
pub proof fn probes_take_what_is_ready(ready: ProbeReadiness)
    requires
        ready.any,
        !ready.invalid,
    ensures
        ready.signal ==> probe::probe_step(PhaseView::Polling, ProbeEventView::Polled(Ok(ready)))
            == (PhaseView::SignalReady(ready), ProbeActionView::Observe),
        !ready.signal && ready.stdout ==> probe::probe_step(
            PhaseView::Polling,
            ProbeEventView::Polled(Ok(ready)),
        ) == (PhaseView::Output(ready), ProbeActionView::DrainStdout),
        !ready.signal && !ready.stdout && ready.stderr ==> probe::probe_step(
            PhaseView::Polling,
            ProbeEventView::Polled(Ok(ready)),
        ) == (PhaseView::Errors(ready), ProbeActionView::DrainStderr),
        !ready.signal && !ready.stdout && !ready.stderr && ready.probe ==> probe::probe_step(
            PhaseView::Polling,
            ProbeEventView::Polled(Ok(ready)),
        ) == (PhaseView::LastOutput, ProbeActionView::DrainStdout),
        !ready.signal && !ready.stdout && !ready.stderr && !ready.probe ==> probe::probe_step(
            PhaseView::Polling,
            ProbeEventView::Polled(Ok(ready)),
        ) == (PhaseView::Observing, ProbeActionView::Observe),
        ready.stdout ==> probe::probe_step(
            PhaseView::SignalReady(ready),
            ProbeEventView::Observed(Ok(false)),
        ) == (PhaseView::Output(ready), ProbeActionView::DrainStdout),
        !ready.stdout && ready.stderr ==> probe::probe_step(
            PhaseView::SignalReady(ready),
            ProbeEventView::Observed(Ok(false)),
        ) == (PhaseView::Errors(ready), ProbeActionView::DrainStderr),
        !ready.stdout && !ready.stderr && ready.probe ==> probe::probe_step(
            PhaseView::SignalReady(ready),
            ProbeEventView::Observed(Ok(false)),
        ) == (PhaseView::LastOutput, ProbeActionView::DrainStdout),
        ready.stderr ==> probe::probe_step(PhaseView::Output(ready), ProbeEventView::Drained(None))
            == (PhaseView::Errors(ready), ProbeActionView::DrainStderr),
        !ready.stderr && ready.probe ==> probe::probe_step(
            PhaseView::Output(ready),
            ProbeEventView::Drained(None),
        ) == (PhaseView::LastOutput, ProbeActionView::DrainStdout),
        ready.probe ==> probe::probe_step(PhaseView::Errors(ready), ProbeEventView::Drained(None))
            == (PhaseView::LastOutput, ProbeActionView::DrainStdout),
        !ready.probe ==> probe::probe_step(PhaseView::Errors(ready), ProbeEventView::Drained(None))
            == (PhaseView::Observing, ProbeActionView::Observe),
{
}

/// What goes wrong with a probe fails it, after a last look for signals.
pub proof fn failing_probes_look_for_signals(
    phase: PhaseView,
    ready: ProbeReadiness,
    message: Seq<char>,
)
    ensures
        probe::probe_step(PhaseView::Polling, ProbeEventView::Polled(Err(message))) == (
            PhaseView::Failing(message),
            ProbeActionView::Observe,
        ),
        probe::probe_step(phase, ProbeEventView::Drained(Some(message))) == (
            PhaseView::Failing(message),
            ProbeActionView::Observe,
        ),
        !ready.any ==> probe::probe_step(PhaseView::Polling, ProbeEventView::Polled(Ok(ready))) == (
            PhaseView::TimedOut,
            ProbeActionView::Observe,
        ),
        ready.any && ready.invalid ==> probe::probe_step(
            PhaseView::Polling,
            ProbeEventView::Polled(Ok(ready)),
        ) == (
            PhaseView::Failing(
                "invalid fd while polling recorder signals, version probe, and output pipes"@,
            ),
            ProbeActionView::Observe,
        ),
        probe::probe_step(PhaseView::Waiting, ProbeEventView::Waited(Err(message))) == (
            PhaseView::Done,
            ProbeActionView::Fail(message),
        ),
        !(phase is AfterWait) ==> probe::probe_step(phase, ProbeEventView::Observed(Ok(true))) == (
            PhaseView::Done,
            ProbeActionView::Cancel,
        ),
        phase is AfterWait ==> probe::probe_step(phase, ProbeEventView::Observed(Ok(true))) == (
            PhaseView::Done,
            ProbeActionView::Cancelled,
        ),
{
}

/// The launch of the probe: it is started if no signal was seen, and supervised once it runs;
/// what keeps it from starting is told unless a signal was seen by then.
pub proof fn launches_are_told(
    phase: LaunchPhase,
    event: LaunchEvent,
    next: LaunchPhase,
    action: LaunchAction,
    message: String,
)
    requires
        phase.awaits(event),
        phase.leads(event, next, action),
    ensures
        event == LaunchEvent::Observed(Ok(true)) ==> action is Cancelled && next is Done,
        event == LaunchEvent::Observed(Err(message)) ==> next is Done && (
        action matches LaunchAction::Fail(e) && e@ == message@),
        phase is Observing && event == LaunchEvent::Observed(Ok(false)) ==> action is Launch
            && next is Launching,
        event == LaunchEvent::Launched(None) ==> action is Supervise && next is Done,
        event == LaunchEvent::Launched(Some(LaunchFailure::Unsupported(message))) ==> next is Done
            && (action matches LaunchAction::Fail(e) && e@ == message@),
        event == LaunchEvent::Launched(Some(LaunchFailure::NotStarted(message))) ==> action is Observe
            && (next matches LaunchPhase::Refused(error) && error@ == message@),
        phase == LaunchPhase::Refused(message) && event == LaunchEvent::Observed(Ok(false))
            ==> next is Done && (action matches LaunchAction::Fail(e) && e@
            == "failed to start supervised strace version probe; verify strace installation, RUNDELTA_STRACE, and process supervision support"@
            + ": "@ + message@),
{
}

} // verus!
