//! Supervision of one attached collector until it is reaped.
//!
//! Recorder signals, capture limits, and collector readiness are observed in that
//! priority order. While a byte limit is pending, the wait ends early enough to look
//! at the anchored inode again. Limit cleanup sends TERM, waits the configured
//! grace, and only then kills.
use vstd::prelude::*;
use vstd::string::*;

use crate::capture::facts::{CaptureLimitFacts, ProcessExit};
use crate::capture::limits;
use crate::capture::limits::{
    observe_capture_limits, supervision_poll_deadline, CaptureLimits, CaptureSchedule, LengthView,
    TraceLengthSource,
};
use crate::capture::signals::{termination_signal, TERMINATION_SIGNAL};
use crate::views;

verus! {

/// A control signal that the recorder has observed.
#[derive(Debug, Clone, Copy, PartialEq, Eq, Structural)]
pub struct ObservedSignal {
    /// The signal.
    pub number: i32,
    /// Whether it would not end the collector if it were passed on.
    pub direct: bool,
}

/// How supervision ends.
#[derive(Debug, PartialEq, Eq)]
pub enum Conclusion {
    /// Wait for the collector, which is ready.
    Finish,
    /// Kill the collector and wait for it.
    Cancel,
    /// Clean up after a failure of supervision.
    Fail(String),
    /// Kill the collector and wait for it, because the trace length is unavailable.
    CancelForLength(String),
}

/// What supervision does next.
#[derive(Debug, PartialEq, Eq)]
pub enum SupervisionAction {
    /// Look which control signal was observed first.
    Observe,
    /// Read the clock and, if asked for, the trace length.
    Measure(bool),
    /// Pass a signal on to the collector, then read the clock.
    Forward(i32),
    /// Read the clock.
    ReadClock,
    /// Wait for a signal or the collector, at most until a deadline.
    Poll(Option<u128>),
    /// End supervision.
    Conclude(Conclusion),
}

/// What came of an action.
#[derive(Debug, PartialEq, Eq)]
pub enum SupervisionEvent {
    /// The control signal that was observed first, or why there was no looking.
    Observed(Result<Option<ObservedSignal>, String>),
    /// The clock, and the trace length where it was asked for.
    Measured(u128, TraceLengthSource),
    /// Why a signal could not be passed on, and the clock.
    Forwarded(Option<String>, u128),
    /// The clock.
    Clock(u128),
    /// Whether a descriptor is invalid and whether the collector is ready, or why the
    /// wait failed.
    Polled(Result<(bool, bool), String>),
}

/// What a [`Conclusion`] says.
pub enum ConclusionView {
    /// Wait for the collector, which is ready.
    Finish,
    /// Kill the collector and wait for it.
    Cancel,
    /// Clean up after a failure of supervision.
    Fail(Seq<char>),
    /// Kill the collector and wait for it, because the trace length is unavailable.
    CancelForLength(Seq<char>),
}

/// What a [`SupervisionAction`] says.
pub enum ActionView {
    /// Look which control signal was observed first.
    Observe,
    /// Read the clock and, if asked for, the trace length.
    Measure(bool),
    /// Pass a signal on to the collector, then read the clock.
    Forward(i32),
    /// Read the clock.
    ReadClock,
    /// Wait for a signal or the collector, at most until a deadline.
    Poll(Option<u128>),
    /// End supervision.
    Conclude(ConclusionView),
}

/// What a [`SupervisionEvent`] says.
pub enum SupervisionEventView {
    /// The control signal that was observed first, or why there was no looking.
    Observed(Result<Option<ObservedSignal>, Seq<char>>),
    /// The clock, and the trace length where it was asked for.
    Measured(u128, LengthView),
    /// Why a signal could not be passed on, and the clock.
    Forwarded(Option<Seq<char>>, u128),
    /// The clock.
    Clock(u128),
    /// Whether a descriptor is invalid and whether the collector is ready, or why the
    /// wait failed.
    Polled(Result<(bool, bool), Seq<char>>),
}

impl View for Conclusion {
    type V = ConclusionView;

    open spec fn view(&self) -> ConclusionView {
        match self {
            Conclusion::Finish => ConclusionView::Finish,
            Conclusion::Cancel => ConclusionView::Cancel,
            Conclusion::Fail(message) => ConclusionView::Fail(message@),
            Conclusion::CancelForLength(message) => ConclusionView::CancelForLength(message@),
        }
    }
}

impl View for SupervisionAction {
    type V = ActionView;

    open spec fn view(&self) -> ActionView {
        match self {
            SupervisionAction::Observe => ActionView::Observe,
            SupervisionAction::Measure(length) => ActionView::Measure(*length),
            SupervisionAction::Forward(signal) => ActionView::Forward(*signal),
            SupervisionAction::ReadClock => ActionView::ReadClock,
            SupervisionAction::Poll(deadline) => ActionView::Poll(*deadline),
            SupervisionAction::Conclude(conclusion) => ActionView::Conclude(conclusion@),
        }
    }
}

impl View for SupervisionEvent {
    type V = SupervisionEventView;

    open spec fn view(&self) -> SupervisionEventView {
        match self {
            SupervisionEvent::Observed(Ok(signal)) => SupervisionEventView::Observed(Ok(*signal)),
            SupervisionEvent::Observed(Err(e)) => SupervisionEventView::Observed(Err(e@)),
            SupervisionEvent::Measured(now, length) => SupervisionEventView::Measured(
                *now,
                length@,
            ),
            SupervisionEvent::Forwarded(failure, now) => SupervisionEventView::Forwarded(
                views::opt(*failure),
                *now,
            ),
            SupervisionEvent::Clock(now) => SupervisionEventView::Clock(*now),
            SupervisionEvent::Polled(Ok(p)) => SupervisionEventView::Polled(Ok(*p)),
            SupervisionEvent::Polled(Err(e)) => SupervisionEventView::Polled(Err(e@)),
        }
    }
}

/// What supervision is waiting for.
#[derive(Debug, Clone, Copy, PartialEq, Eq, Structural)]
pub enum SupervisionPhase {
    /// The first observed signal.
    Observing,
    /// The clock and the trace length.
    Measuring,
    /// That a recorder signal was passed on.
    ForwardingSignal,
    /// That the collector was asked to end.
    ForwardingTermination,
    /// The clock.
    Timing,
    /// A signal, the collector, or a deadline.
    Polling,
    /// Nothing: supervision has ended.
    Done,
}

/// The progress of supervision.
#[derive(Debug, Clone, Copy, PartialEq, Eq, Structural)]
pub struct Supervisor {
    /// The policy.
    pub policy: CaptureLimits,
    /// Its deadlines.
    pub schedule: CaptureSchedule,
    /// Which limits were exceeded.
    pub facts: CaptureLimitFacts,
    /// When the collector is killed, once it was asked to end.
    pub termination_deadline: Option<u128>,
    /// Whether the recorder signal was dealt with.
    pub signal_handled: bool,
    /// Whether the collector is ready to be waited for.
    pub collector_ready: bool,
    /// The first observed signal.
    pub signal: Option<ObservedSignal>,
    /// Whether a limit was newly exceeded in this round.
    pub newly_exceeded: bool,
    /// What supervision is waiting for.
    pub phase: SupervisionPhase,
}

impl Supervisor {
    /// Supervision before its first observation.
    pub open spec fn start(policy: CaptureLimits, schedule: CaptureSchedule) -> Supervisor {
        Supervisor {
            policy,
            schedule,
            facts: CaptureLimitFacts { duration: None, trace_bytes: None },
            termination_deadline: None,
            signal_handled: false,
            collector_ready: false,
            signal: None,
            newly_exceeded: false,
            phase: SupervisionPhase::Observing,
        }
    }

    /// Whether the recorder signal was dealt with where a signal is being passed on.
    pub open spec fn wf(self) -> bool {
        self.phase is ForwardingSignal || self.phase is ForwardingTermination
            ==> self.signal_handled || self.signal is None
    }

    /// Whether supervision is waiting for an event.
    pub open spec fn awaits(self, event: SupervisionEventView) -> bool {
        match event {
            SupervisionEventView::Observed(_) => self.phase is Observing,
            SupervisionEventView::Measured(_, _) => self.phase is Measuring,
            SupervisionEventView::Forwarded(_, _) => self.phase is ForwardingSignal
                || self.phase is ForwardingTermination,
            SupervisionEventView::Clock(_) => self.phase is Timing,
            SupervisionEventView::Polled(_) => self.phase is Polling,
        }
    }

    /// Supervision that waits for something else.
    pub open spec fn at(self, phase: SupervisionPhase) -> Supervisor {
        Supervisor { phase, ..self }
    }

    /// Supervision that ends.
    pub open spec fn concluded(self, conclusion: ConclusionView) -> (Supervisor, ActionView) {
        (self.at(SupervisionPhase::Done), ActionView::Conclude(conclusion))
    }

    /// A recorder signal that was not dealt with comes first.
    pub open spec fn on_signal(self) -> (Supervisor, ActionView) {
        match self.signal {
            Some(signal) if !self.signal_handled => {
                let handled = Supervisor { signal_handled: true, ..self };
                if signal.direct {
                    handled.concluded(ConclusionView::Cancel)
                } else {
                    (
                        handled.at(SupervisionPhase::ForwardingSignal),
                        ActionView::Forward(signal.number),
                    )
                }
            },
            _ => self.on_limit(),
        }
    }

    /// Then a limit that is newly exceeded.
    pub open spec fn on_limit(self) -> (Supervisor, ActionView) {
        if self.newly_exceeded && self.termination_deadline is None {
            (
                self.at(SupervisionPhase::ForwardingTermination),
                ActionView::Forward(TERMINATION_SIGNAL),
            )
        } else {
            self.on_ready()
        }
    }

    /// Then the collector.
    pub open spec fn on_ready(self) -> (Supervisor, ActionView) {
        if self.collector_ready {
            self.concluded(ConclusionView::Finish)
        } else {
            (self.at(SupervisionPhase::Timing), ActionView::ReadClock)
        }
    }

    /// Supervision once the clock and the trace length were read.
    pub open spec fn measured(self, now: u128, length: LengthView) -> (Supervisor, ActionView) {
        let facts = limits::observed_facts(self.policy, self.schedule, self.facts, now, length);
        let next = Supervisor { facts, ..self };
        match length {
            LengthView::Failed(message) if limits::length_pending(self.policy, self.facts) =>
                next.concluded(
                ConclusionView::CancelForLength(
                    "recorder trace length supervision failed: "@ + (
                    "inspect anchored trace length during collector supervision: "@ + message),
                ),
            ),
            _ => (Supervisor {
                newly_exceeded: (facts.duration is Some && self.facts.duration is None) || (
                facts.trace_bytes is Some && self.facts.trace_bytes is None),
                ..next
            }).on_signal(),
        }
    }

    /// Supervision once a signal was passed on: the grace begins, unless one is
    /// running.
    pub open spec fn forwarded(self, failure: Option<Seq<char>>, now: u128) -> (
        Supervisor,
        ActionView,
    ) {
        let grace = limits::moment_after(now, self.schedule.terminate_grace);
        match failure {
            Some(message) => self.concluded(ConclusionView::Fail(message)),
            None => if self.termination_deadline is None && grace is None {
                self.concluded(ConclusionView::Fail(limits::grace_error()))
            } else {
                let next = if self.termination_deadline is None {
                    Supervisor { termination_deadline: grace, ..self }
                } else {
                    self
                };
                if self.phase is ForwardingSignal {
                    next.on_limit()
                } else {
                    next.on_ready()
                }
            },
        }
    }

    /// Supervision once an event has come.
    pub open spec fn stepped(self, event: SupervisionEventView) -> (Supervisor, ActionView) {
        match event {
            SupervisionEventView::Observed(Err(message)) => self.concluded(
                ConclusionView::Fail(message),
            ),
            SupervisionEventView::Observed(Ok(signal)) => (
                (Supervisor { signal, ..self }).at(SupervisionPhase::Measuring),
                ActionView::Measure(limits::length_pending(self.policy, self.facts)),
            ),
            SupervisionEventView::Measured(now, length) => self.measured(now, length),
            SupervisionEventView::Forwarded(failure, now) => self.forwarded(failure, now),
            SupervisionEventView::Clock(now) => if self.termination_deadline matches Some(deadline)
                && now >= deadline {
                self.concluded(ConclusionView::Cancel)
            } else {
                (
                    self.at(SupervisionPhase::Polling),
                    ActionView::Poll(
                        limits::poll_deadline(
                            self.policy,
                            self.schedule,
                            self.facts,
                            self.termination_deadline,
                            now,
                        ),
                    ),
                )
            },
            SupervisionEventView::Polled(Err(message)) => self.concluded(
                ConclusionView::Fail(message),
            ),
            SupervisionEventView::Polled(Ok((invalid, ready))) => if invalid {
                self.concluded(
                    ConclusionView::Fail(
                        "invalid fd while polling recorder signals and collector"@,
                    ),
                )
            } else {
                (
                    (Supervisor { collector_ready: ready, ..self }).at(
                        SupervisionPhase::Observing,
                    ),
                    ActionView::Observe,
                )
            },
        }
    }

    /// Starts supervision; the first thing to do is to observe signals.
    pub fn new(policy: CaptureLimits, schedule: CaptureSchedule) -> (r: Supervisor)
        ensures
            r == Supervisor::start(policy, schedule),
    {
        Supervisor {
            policy,
            schedule,
            facts: CaptureLimitFacts { duration: None, trace_bytes: None },
            termination_deadline: None,
            signal_handled: false,
            collector_ready: false,
            signal: None,
            newly_exceeded: false,
            phase: SupervisionPhase::Observing,
        }
    }

    fn conclude(&mut self, conclusion: Conclusion) -> (r: SupervisionAction)
        ensures
            (*final(self), r@) == old(self).concluded(conclusion@),
    {
        self.phase = SupervisionPhase::Done;
        SupervisionAction::Conclude(conclusion)
    }

    fn after_signal(&mut self) -> (r: SupervisionAction)
        ensures
            (*final(self), r@) == old(self).on_signal(),
    {
        match self.signal {
            Some(signal) => {
                if self.signal_handled {
                    self.after_limit()
                } else {
                    self.signal_handled = true;
                    if signal.direct {
                        self.conclude(Conclusion::Cancel)
                    } else {
                        self.phase = SupervisionPhase::ForwardingSignal;
                        SupervisionAction::Forward(signal.number)
                    }
                }
            },
            None => self.after_limit(),
        }
    }

    fn after_limit(&mut self) -> (r: SupervisionAction)
        ensures
            (*final(self), r@) == old(self).on_limit(),
    {
        if self.newly_exceeded && self.termination_deadline.is_none() {
            self.phase = SupervisionPhase::ForwardingTermination;
            SupervisionAction::Forward(termination_signal())
        } else {
            self.after_ready()
        }
    }

    fn after_ready(&mut self) -> (r: SupervisionAction)
        ensures
            (*final(self), r@) == old(self).on_ready(),
    {
        if self.collector_ready {
            self.conclude(Conclusion::Finish)
        } else {
            self.phase = SupervisionPhase::Timing;
            SupervisionAction::ReadClock
        }
    }

    fn after_measure(&mut self, now: u128, length: TraceLengthSource) -> (r: SupervisionAction)
        ensures
            (*final(self), r@) == old(self).measured(now, length@),
    {
        let policy: CaptureLimits = self.policy;
        let schedule: CaptureSchedule = self.schedule;
        let mut facts: CaptureLimitFacts = self.facts;
        let result: Result<bool, String> = observe_capture_limits(
            &length,
            policy,
            &schedule,
            &mut facts,
            now,
        );
        self.facts = facts;
        match result {
            Ok(new) => {
                self.newly_exceeded = new;
                self.after_signal()
            },
            Err(message) => {
                let mut s: String = "recorder trace length supervision failed: ".to_owned();
                s.append(message.as_str());
                self.conclude(Conclusion::CancelForLength(s))
            },
        }
    }

    fn after_forward(&mut self, failure: Option<String>, now: u128) -> (r: SupervisionAction)
        requires
            old(self).phase is ForwardingSignal || old(self).phase is ForwardingTermination,
        ensures
            (*final(self), r@) == old(self).forwarded(views::opt(failure), now),
    {
        match failure {
            Some(message) => self.conclude(Conclusion::Fail(message)),
            None => {
                if self.termination_deadline.is_none() {
                    match self.schedule.termination_deadline(now) {
                        Ok(deadline) => {
                            self.termination_deadline = Some(deadline);
                        },
                        Err(message) => {
                            return self.conclude(Conclusion::Fail(message));
                        },
                    }
                }
                if self.phase == SupervisionPhase::ForwardingSignal {
                    self.after_limit()
                } else {
                    self.after_ready()
                }
            },
        }
    }

    /// Takes what came of the last action and gives the next one.
    pub fn step(&mut self, event: SupervisionEvent) -> (r: SupervisionAction)
        requires
            old(self).awaits(event@),
        ensures
            (*final(self), r@) == old(self).stepped(event@),
    {
        match event {
            SupervisionEvent::Observed(Err(message)) => self.conclude(Conclusion::Fail(message)),
            SupervisionEvent::Observed(Ok(signal)) => {
                self.signal = signal;
                self.phase = SupervisionPhase::Measuring;
                SupervisionAction::Measure(
                    self.policy.max_trace_bytes.is_some() && self.facts.trace_bytes.is_none(),
                )
            },
            SupervisionEvent::Measured(now, length) => self.after_measure(now, length),
            SupervisionEvent::Forwarded(failure, now) => self.after_forward(failure, now),
            SupervisionEvent::Clock(now) => {
                let expired: bool = match self.termination_deadline {
                    Some(deadline) => now >= deadline,
                    None => false,
                };
                if expired {
                    self.conclude(Conclusion::Cancel)
                } else {
                    self.phase = SupervisionPhase::Polling;
                    SupervisionAction::Poll(
                        supervision_poll_deadline(
                            self.policy,
                            &self.schedule,
                            &self.facts,
                            self.termination_deadline,
                            now,
                        ),
                    )
                }
            },
            SupervisionEvent::Polled(Err(message)) => self.conclude(Conclusion::Fail(message)),
            SupervisionEvent::Polled(Ok((invalid, ready))) => {
                if invalid {
                    self.conclude(
                        Conclusion::Fail(
                            "invalid fd while polling recorder signals and collector".to_owned(),
                        ),
                    )
                } else {
                    self.collector_ready = ready;
                    self.phase = SupervisionPhase::Observing;
                    SupervisionAction::Observe
                }
            },
        }
    }
}

/// Facts returned by collector supervision without collapsing process status,
/// capture limits, or trace-length observation failures into one outcome.
#[derive(Debug, PartialEq, Eq)]
pub struct CollectorSupervision {
    /// How the collector ended.
    pub status: Result<ProcessExit, String>,
    /// Which limits were exceeded.
    pub limits: CaptureLimitFacts,
    /// Why the trace length is unavailable.
    pub trace_len_error: Option<String>,
}

impl CollectorSupervision {
    /// Joins how supervision ended with how the collector then ended.
    pub fn concluded(
        conclusion: Conclusion,
        limits: CaptureLimitFacts,
        status: Result<ProcessExit, String>,
    ) -> (r: CollectorSupervision)
        ensures
            r.status == status,
            r.limits == limits,
            views::opt(r.trace_len_error) == (match conclusion@ {
                ConclusionView::CancelForLength(message) => Some(message),
                _ => None,
            }),
    {
        let trace_len_error: Option<String> = match conclusion {
            Conclusion::CancelForLength(message) => Some(message),
            _ => None,
        };
        CollectorSupervision { status, limits, trace_len_error }
    }
}

/// The collector is killed only once its grace is over, on a recorder signal that it
/// would not obey, or because the trace length is unavailable.
pub proof fn killed_only_with_cause(s: Supervisor, event: SupervisionEventView)
    requires
        s.awaits(event),
        s.stepped(event).1 == ActionView::Conclude(ConclusionView::Cancel),
    ensures
        ({
            ||| event matches SupervisionEventView::Clock(now) && s.termination_deadline
                matches Some(deadline) && now >= deadline
            ||| s.signal matches Some(signal) && signal.direct && !s.signal_handled
        }),
{
}

/// A grace that has begun is never extended, and an exceeded limit stays exceeded.
pub proof fn grace_and_facts_stay(s: Supervisor, event: SupervisionEventView)
    requires
        s.awaits(event),
    ensures
        s.termination_deadline is Some ==> s.stepped(event).0.termination_deadline
            == s.termination_deadline,
        s.facts.duration is Some ==> s.stepped(event).0.facts.duration == s.facts.duration,
        s.facts.trace_bytes is Some ==> s.stepped(event).0.facts.trace_bytes is Some,
        s.signal_handled ==> s.stepped(event).0.signal_handled,
{
}

/// Supervision starts and stays in states in which a signal is being passed on only
/// after the recorder signal, if there is one, was dealt with.
pub proof fn supervision_stays_well_formed(s: Supervisor, event: SupervisionEventView)
    requires
        s.awaits(event),
        s.wf(),
    ensures
        Supervisor::start(s.policy, s.schedule).wf(),
        s.stepped(event).0.wf(),
{
}

/// A ready collector is waited for only after the recorder signal that was observed
/// was dealt with and every newly exceeded limit began a grace.
pub proof fn signal_and_limit_before_readiness(s: Supervisor, event: SupervisionEventView)
    requires
        s.awaits(event),
        s.wf(),
        s.stepped(event).1 == ActionView::Conclude(ConclusionView::Finish),
    ensures
        s.stepped(event).0.signal is Some ==> s.stepped(event).0.signal_handled,
        s.stepped(event).0.newly_exceeded ==> s.stepped(event).0.termination_deadline is Some,
{
}

} // verus!
