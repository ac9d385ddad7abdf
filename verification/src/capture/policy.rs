//! What the policy of a capture promises: its limits and its timing, what requests it takes,
//! what it asks of the collector, how children come to their ends, and the words for what
//! went wrong.
use vstd::prelude::*;

use crate::capture::child;
use crate::capture::child::{ChildEnding, ChildOwnership, EndAction, EndEvent, EndPhase, EndReason};
use crate::capture::completion;
use crate::capture::facts;
use crate::capture::facts::{CaptureLimitFacts, CollectorView, ProcessExit};
use crate::capture::limits;
use crate::capture::limits::{CaptureLimits, CaptureSchedule, LengthView};
use crate::capture::outcomes;
use crate::capture::probe::VersionProbeOutcome;
use crate::capture::record;
use crate::capture::record::SessionView;
use crate::capture::signals::SignalRange;
use crate::capture::supervise::CollectorSupervision;
use crate::model::{EventView, Metadata, RecordResult};
use crate::numbers;
use crate::order;
use crate::output;
use crate::parse::timeline::TimelineView;
use crate::text;
use crate::views;

verus! {

/// Limits are declared in milliseconds and kept in nanoseconds.
pub proof fn limits_are_in_milliseconds(ms: u64, bytes: Option<u64>, grace: u64)
    ensures
        ({
            let some = CaptureLimits::of_millis(Some(ms), bytes, grace);
            let none = CaptureLimits::of_millis(None, bytes, grace);
            &&& some.max_duration == Some((ms * 1_000_000) as u128)
            &&& none.max_duration is None
            &&& some.max_trace_bytes == bytes && none.max_trace_bytes == bytes
            &&& some.terminate_grace == ms_to_ns(grace) && none.terminate_grace == ms_to_ns(grace)
        }),
{
}

/// Milliseconds in nanoseconds.
pub open spec fn ms_to_ns(ms: u64) -> int {
    ms * 1_000_000
}

/// The last nanosecond of the clock.
pub open spec fn clock_end() -> int {
    9_223_372_036_854_775_807_999_999_999
}

/// Limits are refused if the clock cannot represent the moment at which they end, with words
/// that say which.
pub proof fn unrepresentable_limits_are_refused(policy: CaptureLimits, anchor: u128)
    ensures
        ({
            let long = policy.max_duration matches Some(span) && anchor + span > clock_end();
            let slow = anchor + policy.terminate_grace > clock_end();
            &&& long ==> policy.fault(anchor) == Some(
                "capture duration limit cannot be represented by the monotonic clock"@,
            )
            &&& !long && slow ==> policy.fault(anchor) == Some(
                "capture termination grace cannot be represented by the monotonic clock"@,
            )
            &&& !long && !slow ==> policy.fault(anchor) is None
        }),
{
}

/// A duration limit passes at its start and its span, and not before; without a limit none
/// passes.
pub proof fn durations_pass_in_time(policy: CaptureLimits, started: u128, now: u128)
    requires
        policy.fault(started) is None,
    ensures
        ({
            let schedule = CaptureSchedule::anchored(policy, started);
            &&& schedule.passed(now) <==> (policy.max_duration matches Some(span) && now >= started
                + span)
            &&& schedule.terminate_grace == policy.terminate_grace
        }),
{
}

/// What is observed of limits at a moment: a duration that has passed, and a trace that is
/// beyond its limit, if there is a limit and none was observed before.
pub proof fn limits_are_observed_at(
    policy: CaptureLimits,
    started: u128,
    before: CaptureLimitFacts,
    now: u128,
    observed: u64,
)
    requires
        policy.fault(started) is None,
    ensures
        ({
            let schedule = CaptureSchedule::anchored(policy, started);
            let after = limits::observed_facts(
                policy,
                schedule,
                before,
                now,
                LengthView::Fixed(observed),
            );
            let passed = policy.max_duration matches Some(span) && now >= started + span;
            &&& before.duration is Some ==> after.duration == before.duration
            &&& before.duration is None && passed ==> after.duration == policy.max_duration
            &&& before.duration is None && !passed ==> after.duration is None
            &&& before.trace_bytes is Some ==> after.trace_bytes == before.trace_bytes
            &&& before.trace_bytes is None ==> (after.trace_bytes is Some <==> (
            policy.max_trace_bytes matches Some(limit) && observed > limit))
            &&& before.trace_bytes is None && after.trace_bytes is Some ==> {
                &&& (after.trace_bytes->0).observed == observed
                &&& Some((after.trace_bytes->0).limit) == policy.max_trace_bytes
            }
        }),
{
}

/// Of two deadlines the earlier counts, and one counts where the other is missing.
pub proof fn earlier_deadlines_count(a: Option<u128>, b: Option<u128>)
    ensures
        ({
            let first = limits::earlier(a, b);
            &&& first is None <==> a is None && b is None
            &&& first is Some ==> first == a || first == b
            &&& first is Some && a is Some ==> first->0 <= a->0
            &&& first is Some && b is Some ==> first->0 <= b->0
        }),
{
}

/// Supervision wakes no later than the end of a grace, than the duration limit while it has
/// not passed, and than fifty milliseconds on while the length of the trace is watched; it
/// wakes for nothing else.
pub proof fn supervision_wakes_in_time(
    policy: CaptureLimits,
    schedule: CaptureSchedule,
    facts: CaptureLimitFacts,
    termination: Option<u128>,
    now: u128,
)
    requires
        now + 50_000_000 <= clock_end(),
    ensures
        ({
            let wake = limits::poll_deadline(policy, schedule, facts, termination, now);
            let timed = facts.duration is None && schedule.duration_deadline is Some;
            let watched = policy.max_trace_bytes is Some && facts.trace_bytes is None;
            &&& termination is Some ==> wake is Some && wake->0 <= termination->0
            &&& timed ==> wake is Some && wake->0 <= schedule.duration_deadline->0
            &&& watched ==> wake is Some && wake->0 <= now + 50_000_000
            &&& wake is Some ==> wake == termination || timed && wake == schedule.duration_deadline
                || watched && wake->0 == now + 50_000_000
        }),
{
}

/// A wait lasts until its deadline has passed, and at most a millisecond longer; a wait
/// without a deadline has no end, and one whose deadline has passed has no length.
pub proof fn waits_last_until_their_deadline(deadline: Option<u128>, now: u128)
    ensures
        ({
            let t = limits::timeout_of(deadline, now);
            &&& deadline is None <==> t == -1
            &&& deadline matches Some(d) ==> {
                &&& d <= now <==> t == 0
                &&& d > now ==> 0 < t <= i32::MAX
                &&& d > now && t < i32::MAX ==> (t - 1) * 1_000_000 <= d - now < t * 1_000_000
                &&& d > now && t == i32::MAX ==> (t - 1) * 1_000_000 <= d - now
            }
        }),
{
    if let Some(d) = deadline {
        if d > now {
            let span = d - now;
            let q = span / 1_000_000;
            assert(q * 1_000_000 <= span < (q + 1) * 1_000_000);
        }
    }
}

/// A request is refused, in this order, for a variable whose name is empty or holds an equals
/// sign or a control character, for a record whose name is empty or holds a control
/// character, and for its limits; else it is taken.
pub proof fn bad_requests_are_refused(
    name: Seq<char>,
    selected: Seq<Seq<char>>,
    policy: CaptureLimits,
    now: u128,
)
    ensures
        ({
            let fault = record::request_fault(name, selected, policy, now);
            let bad = |s: Seq<char>| s.len() == 0 || text::has_control(s);
            let variable = exists|i: int|
                0 <= i < selected.len() && (bad(#[trigger] selected[i]) || selected[i].contains(
                    '=',
                ));
            &&& variable ==> fault == Some(
                "environment variable name must be nonempty without '=' or control characters"@,
            )
            &&& !variable && bad(name) ==> fault == Some(
                "name must be nonempty without control characters"@,
            )
            &&& !variable && !bad(name) ==> fault == policy.fault(now)
        }),
{
    let bad = |s: Seq<char>| s.len() == 0 || text::has_control(s);
    if exists|i: int|
        0 <= i < selected.len() && (bad(#[trigger] selected[i]) || selected[i].contains('=')) {
        let i = choose|i: int|
            0 <= i < selected.len() && (bad(#[trigger] selected[i]) || selected[i].contains('='));
        assert(!record::environment_name(selected[i]));
    }
    if exists|i: int| 0 <= i < selected.len() && !record::environment_name(#[trigger] selected[i]) {
        let i = choose|i: int|
            0 <= i < selected.len() && !record::environment_name(#[trigger] selected[i]);
        assert(bad(selected[i]) || selected[i].contains('='));
    }
}

/// The backend is named by the first line that it reports of its version, however that line
/// ends, and by its program where it reports nothing.
pub proof fn backends_are_named_by_their_first_line(line: Seq<char>, rest: Seq<char>)
    requires
        !line.contains('\n'),
        line.len() > 0 ==> line.last() != '\r',
    ensures
        record::backend_of(Seq::empty()) == "strace"@,
        line.len() > 0 ==> record::backend_of(line) == line,
        record::backend_of(line + "\n"@ + rest) == line,
        record::backend_of(line + "\r\n"@ + rest) == line,
{
    reveal_strlit("\n");
    reveal_strlit("\r");
    reveal_strlit("\r\n");
    let n = line.len() as int;
    assert forall|i: int| 0 <= i < n implies #[trigger] line[i] != '\n' by {
        assert(line.contains(line[i]));
    }
    text::first_at_least(line, text::just('\n'), 0);
    let x = text::first_at(line, text::just('\n'), 0);
    if x < n {
        assert(line[x] == '\n');
    }
    let a = line + "\n"@ + rest;
    text::first_at_least(a, text::just('\n'), 0);
    let y = text::first_at(a, text::just('\n'), 0);
    assert(a[n] == '\n');
    if y < n {
        assert(a[y] == line[y]);
    }
    assert(a.subrange(0, n) =~= line);
    if text::matches_at(line, "\r"@, n - 1) {
        assert(line.subrange(n - 1, n)[0] == '\r');
    }
    let b = line + "\r\n"@ + rest;
    text::first_at_least(b, text::just('\n'), 0);
    let z = text::first_at(b, text::just('\n'), 0);
    assert(b[n + 1] == '\n' && b[n] == '\r');
    if z < n {
        assert(b[z] == line[z]);
    }
    let c = b.subrange(0, n + 1);
    assert(c.subrange(n, n + 1) =~= "\r"@);
    assert(c.subrange(0, n) =~= line);
}

/// The collector follows children, is quiet, leaves signals to the recorder, kills what it
/// traces if it dies, spells all strings in hexadecimal and whole, names descriptors, observes
/// the selected calls, and writes to the file that comes next. The probe asks for the version
/// and checks the selection.
pub proof fn collectors_are_told_what_to_do(selector: Seq<char>)
    ensures
        ({
            let o = record::collector_options(selector);
            let p = record::probe_options(selector);
            &&& o.len() == 12
            &&& o[0] == "-f"@ && o[1] == "-q"@ && o[2] == "-I"@ && o[3] == "2"@
            &&& o[4] == "--kill-on-exit"@ && o[5] == "-xx"@ && o[6] == "-yy"@
            &&& o[7] == "-s"@ && o[8] == "65535"@ && o[9] == "-e"@ && o[10] == selector && o[11]
                == "-o"@
            &&& p.len() == 3 && p[0] == "-e"@ && p[1] == selector && p[2] == "--version"@
        }),
{
}

/// What is known of a session behind the probe: it is cancelled only if the probe was, with
/// the error that the probe met.
pub proof fn sessions_begin_with_the_probe(error: Option<String>, version: Vec<u8>)
    ensures
        ({
            let done = SessionView::probed(
                VersionProbeOutcome::Completed(version),
            );
            let stopped = SessionView::probed(
                VersionProbeOutcome::Cancelled(error),
            );
            &&& !done.cancelled && done.supervision_error is None
            &&& stopped.cancelled && stopped.supervision_error == views::opt(error)
            &&& done.limits.duration is None && done.limits.trace_bytes is None
            &&& stopped.limits.duration is None && stopped.limits.trace_bytes is None
            &&& !done.length_unavailable && !stopped.length_unavailable
        }),
{
}

/// A collector is not started behind a signal or an error of the supervision, with words that
/// say which; else nothing keeps it from starting.
pub proof fn collectors_are_held_back(session: SessionView)
    ensures
        session.cancelled ==> session.obstacle() == Some(
            "collector was not started because recorder cancellation was observed"@,
        ),
        !session.cancelled && session.supervision_error is Some ==> session.obstacle() == Some(
            "collector was not started because recorder signal supervision failed"@,
        ),
        !session.cancelled && session.supervision_error is None ==> session.obstacle() is None,
{
}

/// A signal that is observed cancels a session and stays observed; an error in observing is
/// kept with words that say when.
pub proof fn sessions_observe_signals(session: SessionView, message: Seq<char>)
    ensures
        session.observed(Ok(true)).cancelled,
        session.observed(Ok(false)).cancelled == session.cancelled,
        session.observed(Ok(true)).supervision_error == session.supervision_error,
        session.observed(Ok(false)) == session,
        session.observed(Err(message)).cancelled == session.cancelled,
        session.observed(Err(message)).supervision_error == Some(
            "recorder signal supervision failed before collector spawn: "@ + message,
        ),
{
    reveal_strlit("recorder signal supervision failed before collector spawn");
    reveal_strlit(": ");
    reveal_strlit("recorder signal supervision failed before collector spawn: ");
    assert("recorder signal supervision failed before collector spawn"@ + ": "@ + message
        =~= "recorder signal supervision failed before collector spawn: "@ + message);
}

/// A trace is not read if its length is not known or is beyond its limit, and is read else.
pub proof fn unbounded_traces_are_not_read(session: SessionView)
    ensures
        session.skips_trace() <==> session.length_unavailable || session.limits.trace_bytes is Some,
{
}

/// The final length of a trace counts against its limit; where it cannot be had, the session
/// says so and remembers that it is not known.
pub proof fn final_lengths_count(session: SessionView, limit: u64, observed: u64, message: Seq<char>)
    ensures
        ({
            let known = session.measured(limit, LengthView::Fixed(observed));
            let unknown = session.measured(limit, LengthView::Failed(message));
            &&& observed > limit ==> known.limits.trace_bytes is Some && (
            known.limits.trace_bytes->0).observed == observed && (known.limits.trace_bytes->0).limit
                == limit
            &&& observed <= limit ==> known.limits == session.limits
            &&& known.length_unavailable == session.length_unavailable
            &&& known.supervision_error == session.supervision_error
            &&& unknown.length_unavailable
            &&& unknown.limits == session.limits
            &&& session.supervision_error is None ==> unknown.supervision_error == Some(
                "recorder trace length supervision failed after collector completion: inspect final anchored trace length before reading raw evidence: "@
                    + message,
            )
            &&& session.supervision_error matches Some(first) ==> unknown.supervision_error == Some(
                first
                    + "; additionally recorder trace length supervision failed after collector completion: inspect final anchored trace length before reading raw evidence: "@
                    + message,
            )
        }),
{
    reveal_strlit("recorder trace length supervision failed after collector completion");
    reveal_strlit("inspect final anchored trace length before reading raw evidence");
    reveal_strlit(": ");
    reveal_strlit("; additionally ");
    reveal_strlit(
        "recorder trace length supervision failed after collector completion: inspect final anchored trace length before reading raw evidence: ",
    );
    reveal_strlit(
        "; additionally recorder trace length supervision failed after collector completion: inspect final anchored trace length before reading raw evidence: ",
    );
    let long =
        "recorder trace length supervision failed after collector completion: inspect final anchored trace length before reading raw evidence: "@;
    let told = "recorder trace length supervision failed after collector completion"@ + ": "@ + (
    "inspect final anchored trace length before reading raw evidence"@ + ": "@ + message);
    assert("recorder trace length supervision failed after collector completion"@ + ": "@
        + "inspect final anchored trace length before reading raw evidence"@ + ": "@ =~= long);
    assert(told =~= long + message);
    if let Some(first) = session.supervision_error {
        assert("; additionally "@ + long
            =~= "; additionally recorder trace length supervision failed after collector completion: inspect final anchored trace length before reading raw evidence: "@);
        assert(first + "; additionally "@ + told =~= first + ("; additionally "@ + long) + message);
    }
}

/// What a record command says if the signal state could not be restored: that the record was
/// committed, where it was, and behind its own error else.
pub proof fn restoration_is_told(id: Seq<char>, error: Seq<char>, restoring: Seq<char>)
    ensures
        record::restoration_fault(Ok(id), None) is None,
        record::restoration_fault(Err(error), None) == Some(error),
        record::restoration_fault(Ok(id), Some(restoring)) == Some(
            "record "@ + id + " committed but failed to restore recorder signal state: "@
                + restoring,
        ),
        record::restoration_fault(Err(error), Some(restoring)) == Some(
            error + "; additionally failed to restore recorder signal state: "@ + restoring,
        ),
{
}

/// A child counts as lost if there is no such process when its handle is opened, or no such
/// child when it is waited for; a child that was waited for is reaped.
pub proof fn children_are_lost_or_reaped(before: ChildOwnership, code: Option<i32>)
    ensures
        ChildOwnership::unopened(code) is Lost <==> code == Some(3i32),
        ChildOwnership::unopened(code) is Waitable <==> code != Some(3i32),
        before.waited(None) is Reaped,
        code == Some(10i32) ==> before.waited(Some(code)) is Lost,
        code != Some(10i32) ==> before.waited(Some(code)) == before,
        before.owned() <==> before is Waitable,
{
}

/// A signal to a process that is gone is no error; any other failure is one, with words for
/// what failed.
pub proof fn signals_to_the_dead_do_not_fail(words: Seq<char>, code: Option<i32>, message: Seq<char>)
    ensures
        code == Some(3i32) ==> child::signal_fault(words, code, message) is None,
        code != Some(3i32) ==> child::signal_fault(words, code, message) == Some(
            words + ": "@ + message,
        ),
{
}

/// The end of a child that was terminated: its status if both the signal and the wait
/// succeeded, else what failed, with both where both did.
pub proof fn terminations_are_told(exit: ProcessExit, kill: Seq<char>, reap: Seq<char>)
    ensures
        child::termination(None, Ok(exit)) == Ok::<ProcessExit, Seq<char>>(exit),
        child::termination(Some(kill), Ok(exit)) == Err::<ProcessExit, Seq<char>>(kill),
        child::termination(None, Err(reap)) == Err::<ProcessExit, Seq<char>>(reap),
        child::termination(Some(kill), Err(reap)) == Err::<ProcessExit, Seq<char>>(
            kill + "; additionally failed to reap collector: "@ + reap,
        ),
        child::cleanup_text(kill, None) == kill,
        child::cleanup_text(kill, Some(reap)) == kill
            + "; collector termination/reap also failed: "@ + reap,
{
}

/// A child that is ready is waited for. One that is to be terminated is killed if it is
/// owned, and is never signalled if it is not.
pub proof fn ends_begin(ownership: ChildOwnership, reason: EndReason, next: ChildEnding, action: EndAction)
    requires
        ChildEnding::begins(ownership, reason, next, action),
    ensures
        next.ownership == ownership,
        reason is Finish <==> action is Wait,
        !(reason is Finish) && ownership is Waitable <==> action is Kill,
        !(reason is Finish) && !(ownership is Waitable) <==> action is Report,
        reason matches EndReason::Abort(error) ==> (!(ownership is Waitable) ==> (
        action matches EndAction::Report(Err(e)) && e@ == error@)),
        reason is Cancel && !(ownership is Waitable) ==> (action matches EndAction::Report(Err(e))
            && e@ == "collector child ownership is no longer available for termination/reaping"@),
{
}

/// What comes of a wait and of a signal: a child that was waited for reports its status; one
/// whose wait failed is terminated, if it is still owned, and reports that failure; one that
/// was signalled is waited for.
pub proof fn ends_go_on(before: ChildEnding, event: EndEvent, next: ChildEnding, action: EndAction)
    requires
        before.awaits(event),
        before.leads(event, next, action),
    ensures
        before.phase is Waiting ==> (event matches EndEvent::Waited(Ok(exit)) ==> action
            == EndAction::Report(Ok(exit)) && next.ownership is Reaped),
        before.phase is Waiting ==> (event matches EndEvent::Waited(Err(e)) ==> {
            let lost = e.code == Some(10i32);
            let told = "failed waiting for collector: "@ + e.message@;
            &&& lost || !(before.ownership is Waitable) ==> (action matches EndAction::Report(
                Err(said),
            ) && said@ == told)
            &&& !lost && before.ownership is Waitable ==> action is Kill && (
            next.phase matches EndPhase::Killing(Some(said)) && said@ == told)
        }),
        before.phase is Killing ==> action is Wait && next.phase is Reaping && next.ownership
            == before.ownership,
        before.phase is Reaping ==> action is Report && next.phase is Done,
        before.phase == EndPhase::Reaping(None, None) ==> (event matches EndEvent::Waited(Ok(exit))
            ==> action == EndAction::Report(Ok(exit))),
{
    reveal_strlit("failed waiting for collector");
    reveal_strlit(": ");
    reveal_strlit("failed waiting for collector: ");
    if let EndEvent::Waited(Err(e)) = event {
        assert("failed waiting for collector"@ + ": "@ + e.message@
            =~= "failed waiting for collector: "@ + e.message@);
    }
}

/// The end of the target is that of the task whose execution was the first to succeed, in the
/// order of the evidence.
pub proof fn targets_end_with_their_task(events: Seq<EventView>, t: TimelineView, i: int)
    requires
        0 <= i < t.event_order.len(),
        ({
            let e = events[t.event_order[i] as int];
            e.kind == "exec"@ && e.outcome == "success"@
        }),
        forall|j: int|
            0 <= j < i ==> !((#[trigger] events[t.event_order[j] as int]).kind == "exec"@
                && events[t.event_order[j] as int].outcome == "success"@),
    ensures
        completion::root_exit_of(events, t)
            == t.generations[t.event_generations[t.event_order[i] as int].0 as int].exit_event,
{
    first_execution(events, t.event_order, 0, i);
}

proof fn first_execution(events: Seq<EventView>, all: Seq<usize>, from: int, i: int)
    requires
        0 <= from <= i < all.len(),
        completion::successful_exec(events[all[i] as int]),
        forall|j: int|
            0 <= j < i ==> !((#[trigger] events[all[j] as int]).kind == "exec"@
                && events[all[j] as int].outcome == "success"@),
    ensures
        completion::first_exec(events, all, from) == Some(i),
    decreases i - from,
{
    if from < i {
        assert(!completion::successful_exec(events[all[from] as int]));
        first_execution(events, all, from + 1, i);
    }
}

/// A target that was never executed has no end.
pub proof fn targets_that_did_not_start_have_no_end(events: Seq<EventView>, t: TimelineView)
    requires
        forall|j: int|
            0 <= j < t.event_order.len() ==> !((
            #[trigger] events[t.event_order[j] as int]).kind == "exec"@
                && events[t.event_order[j] as int].outcome == "success"@),
    ensures
        completion::root_exit_of(events, t) is None,
{
    no_execution(events, t.event_order, 0);
}

proof fn no_execution(events: Seq<EventView>, all: Seq<usize>, from: int)
    requires
        0 <= from <= all.len(),
        forall|j: int|
            0 <= j < all.len() ==> !((#[trigger] events[all[j] as int]).kind == "exec"@
                && events[all[j] as int].outcome == "success"@),
    ensures
        completion::first_exec(events, all, from) is None,
    decreases all.len() - from,
{
    if from < all.len() {
        assert(!completion::successful_exec(events[all[from] as int]));
        no_execution(events, all, from + 1);
    }
}

/// What a capture begins with: a running record of the current schema without results.
pub proof fn records_begin_empty(begun: record::RecordRequest, m: Metadata)
    requires
        begun.begins(m),
    ensures
        m.schema_version == 3,
        m.state@ == "running"@,
        m.completeness matches Some(c) && c@ == "pending"@,
        m.exit_code is None && m.signal is None && m.ended is None,
        m.warnings@.len() == 0 && m.parsed_events == 0 && m.raw_lines == 0,
        m.id@ == begun.id@ && m.name@ == begun.name@ && m.cwd@ == begun.cwd@,
        m.environment is Some,
{
}

/// What a capture comes to is handed on whole: what its trace gave, how the collector ended,
/// what stopped the recorder, which limits were exceeded, and what went wrong.
pub proof fn captures_hand_on_their_facts(captured: record::Captured, session: SessionView)
    ensures
        ({
            let f = captured.facts(session);
            &&& f.collector == captured.collector@
            &&& f.recorder == captured.recorder
            &&& f.limits == session.limits
            &&& f.supervision_error == session.supervision_error
            &&& f.warnings == views::each(captured.parsed.warnings@)
            &&& f.read_error == views::opt(captured.trace_read_error)
        }),
{
}

/// The metadata of a record that was concluded says what the capture came to, and keeps what
/// was asked for.
pub proof fn concluded_records_tell_the_capture(
    begun: Metadata,
    captured: record::Captured,
    session: SessionView,
    r: record::Concluded,
    range: SignalRange,
    code: i32,
)
    requires
        record::concludes(begun, captured, session, r, range),
    ensures
        ({
            let f = captured.facts(session);
            let m = r.metadata;
            let done = f.recorder is NoSignal && outcomes::confirmed(f, range)
                && outcomes::undisturbed(f);
            &&& m.raw_lines == captured.parsed.lines
            &&& m.parsed_events == captured.parsed.events@.len() as usize
            &&& m.ended == Some(captured.ended)
            &&& m.id == begun.id && m.name == begun.name && m.command == begun.command && m.cwd
                == begun.cwd && m.environment == begun.environment && m.started == begun.started
                && m.schema_version == begun.schema_version && m.backend == begun.backend
            &&& views::opt(m.target_exit_raw) == f.root_outcome
            &&& f.root_outcome is None ==> m.exit_code is None && m.signal is None
            &&& f.root_outcome == Some(
                "+++ exited with "@ + numbers::signed(code as int) + " +++"@,
            ) ==> m.exit_code == Some(code) && m.signal is None
            &&& f.root_outcome matches Some(o) ==> (facts::exit_of(o, range)
                == ProcessExit::Signaled(code) ==> m.exit_code is None && m.signal == Some(code))
            &&& f.collector == CollectorView::Reaped(ProcessExit::Exited(code))
                ==> m.collector_exit_code == Some(code) && m.collector_signal is None
            &&& f.collector == CollectorView::Reaped(ProcessExit::Signaled(code))
                ==> m.collector_exit_code is None && m.collector_signal == Some(code)
            &&& !(f.collector is Reaped) ==> m.collector_exit_code is None && m.collector_signal
                is None
            &&& f.recorder is Signal ==> m.state@ == "interrupted"@
            &&& done ==> m.state@ == "completed"@
            &&& f.recorder is NoSignal && !done ==> m.state@ == "capture_failed"@
            &&& !done ==> (m.completeness matches Some(c) && c@ == "incomplete"@)
            &&& done && m.warnings@.len() == 0 ==> (m.completeness matches Some(c) && c@
                == "complete_for_supported_events"@)
            &&& done && m.warnings@.len() > 0 ==> (m.completeness matches Some(c) && c@
                == "partial"@)
            &&& views::each(m.warnings@) == f.limitations(range)
        }),
{
    let f = captured.facts(session);
    outcomes::exit_codes_are_read(code, range);
    outcomes::captures_have_their_state(f, range);
    outcomes::captures_have_their_completeness(f, range);
    assert(views::each(r.metadata.warnings@).len() == r.metadata.warnings@.len());
}

/// What a record command reports is what was concluded, with where the evidence stands.
pub proof fn records_report_what_was_concluded(
    c: record::Concluded,
    r: RecordResult,
    evidence: Seq<char>,
)
    requires
        c.reports(r, evidence),
    ensures
        r.id == c.metadata.id && r.name == c.metadata.name,
        r.state == c.state && r.completeness == c.completeness,
        r.event_count == c.metadata.parsed_events,
        r.warnings == c.metadata.warnings,
        r.evidence_dir@ == evidence,
        r.cli_exit == c.cli_exit,
{
}

/// Whether a task is the only one of a timeline with its identifier.
pub open spec fn is_only(t: TimelineView, g: int) -> bool {
    forall|h: int|
        0 <= h < t.generations.len() && h != g ==> (#[trigger] t.generations[h]).pid
            != t.generations[g].pid
}

proof fn counted_once(t: TimelineView, g: int, n: int)
    requires
        0 <= g < t.generations.len(),
        0 <= n <= t.generations.len(),
    ensures
        ({
            let count = completion::pid_count(t.generations, t.generations[g].pid, n);
            &&& count >= (if g < n {
                1int
            } else {
                0
            })
            &&& is_only(t, g) ==> count == (if g < n {
                1int
            } else {
                0
            })
            &&& forall|h: int|
                0 <= h < n && h != g && (#[trigger] t.generations[h]).pid == t.generations[g].pid
                    ==> count >= (if g < n {
                    2int
                } else {
                    1
                })
        }),
    decreases n,
{
    if n > 0 {
        counted_once(t, g, n - 1);
        assert(t.generations[n - 1].pid == t.generations[g].pid || t.generations[n - 1].pid
            != t.generations[g].pid);
    }
}

/// Every task whose end was not seen is named: by its identifier if no other task has it, and
/// with its number if another has.
pub proof fn tasks_without_an_end_are_named(t: TimelineView, g: int)
    requires
        0 <= g < t.generations.len(),
        t.generations[g].exit_event is None,
    ensures
        is_only(t, g) ==> completion::missing_exits_of(t).contains(t.generations[g].pid),
        !is_only(t, g) ==> completion::missing_exits_of(t).contains(
            t.generations[g].pid + "#"@ + numbers::decimal(t.generations[g].ordinal as nat),
        ),
        order::ascending(completion::missing_exits_of(t)),
{
    let n = t.generations.len() as int;
    counted_once(t, g, n);
    let found = completion::missing_upto(t.generations, n);
    missing_is_found(t, g, n);
    order::sorting_keeps_every_text(found);
    if !is_only(t, g) {
        let h = choose|h: int|
            0 <= h < n && h != g && (#[trigger] t.generations[h]).pid == t.generations[g].pid;
        assert(completion::pid_count(t.generations, t.generations[g].pid, n) >= 2);
    }
    assert(completion::missing_exits_of(t).contains(completion::task_name(t.generations, g)));
}

proof fn missing_is_found(t: TimelineView, g: int, n: int)
    requires
        0 <= g < n <= t.generations.len(),
        t.generations[g].exit_event is None,
    ensures
        completion::missing_upto(t.generations, n).contains(
            completion::task_name(t.generations, g),
        ),
    decreases n,
{
    let before = completion::missing_upto(t.generations, n - 1);
    let all = completion::missing_upto(t.generations, n);
    let name = completion::task_name(t.generations, g);
    if g == n - 1 {
        assert(all[before.len() as int] == name);
    } else {
        missing_is_found(t, g, n - 1);
        let k = choose|k: int| 0 <= k < before.len() && before[k] == name;
        assert(all[k] == name);
    }
}

/// What fails when signals are frozen is kept behind what failed before, and nothing else
/// changes.
pub proof fn frozen_sessions_keep_their_errors(session: SessionView, message: Seq<char>, first: Seq<char>)
    ensures
        session.frozen(None) == session,
        session.frozen(Some(message)).cancelled == session.cancelled,
        session.frozen(Some(message)).limits == session.limits,
        session.supervision_error is None ==> session.frozen(Some(message)).supervision_error
            == Some("recorder signal supervision failed"@ + ": "@ + message),
        session.supervision_error == Some(first) ==> session.frozen(Some(message)).supervision_error
            == Some(
            first + "; additionally "@ + ("recorder signal supervision failed"@ + ": "@ + message),
        ),
{
}

/// What is written for a text ends with a newline, and holds the text.
pub proof fn outputs_end_with_a_newline(s: Seq<char>)
    ensures
        output::terminated(s).len() > 0,
        output::terminated(s).last() == '\n',
        s.len() > 0 && s.last() == '\n' ==> output::terminated(s) == s,
        s.len() == 0 || s.last() != '\n' ==> output::terminated(s) == s.push('\n'),
{
    reveal_strlit("\n");
    let n = s.len() as int;
    if n > 0 && s.last() == '\n' {
        assert(s.subrange(n - 1, n) =~= "\n"@);
    } else {
        if text::matches_at(s, "\n"@, n - 1) {
            assert(s.subrange(n - 1, n)[0] == '\n');
        }
        assert(s + "\n"@ =~= s.push('\n'));
    }
}

/// A trace is read as the raw log of a record, from the directory in which the run started, and
/// nothing has been read of it yet.
pub proof fn traces_are_read_from_the_raw_log(cwd: Seq<char>)
    ensures
        ({
            let start = completion::trace_start(cwd);
            &&& start.file == "raw/trace.log"@ && start.initial_cwd == Some(cwd)
            &&& start.lines == 0 && !start.saw_line && !start.last_line_terminated
            &&& start.state.events.len() == 0 && start.state.warnings.len() == 0
            &&& start.state.actions.len() == 0
            &&& forall|key: Seq<char>| !#[trigger] start.state.pending.dom().contains(key)
        }),
{
}

/// What the supervision of the collector saw of limits is kept, and a length that it could not
/// have is remembered with its error.
pub proof fn supervised_sessions_keep_what_was_seen(session: SessionView, s: CollectorSupervision)
    ensures
        session.supervised(s).limits == s.limits,
        session.supervised(s).cancelled == session.cancelled,
        s.trace_len_error is None ==> session.supervised(s).length_unavailable
            == session.length_unavailable && session.supervised(s).supervision_error
            == session.supervision_error,
        s.trace_len_error matches Some(message) ==> session.supervised(s).length_unavailable && (
        session.supervision_error is None ==> session.supervised(s).supervision_error == Some(
            message@,
        )),
{
}

} // verus!
