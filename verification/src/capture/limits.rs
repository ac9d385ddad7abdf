//! Resource policy and the deadlines that follow from it.
//!
//! Moments are readings of the monotonic clock and durations are spans of it, both
//! in nanoseconds.
use vstd::prelude::*;
use vstd::string::*;

use crate::capture::facts::{CaptureLimitFacts, NANOS_PER_MILLI};

verus! {

/// The last moment that the monotonic clock represents: whole seconds in a signed
/// 64-bit number, and nanoseconds below a second.
pub const CLOCK_LIMIT: u128 = 9_223_372_036_854_775_807_999_999_999;

/// How often the trace length is looked at while a byte limit is pending.
pub const TRACE_LIMIT_POLL_INTERVAL: u128 = 50_000_000;

/// A moment after another, where the clock represents it.
pub open spec fn moment_after(anchor: u128, span: u128) -> Option<u128> {
    if anchor + span <= CLOCK_LIMIT {
        Some((anchor + span) as u128)
    } else {
        None
    }
}

/// Gives a moment after another, where the clock represents it.
pub fn checked_moment(anchor: u128, span: u128) -> (r: Option<u128>)
    ensures
        r == moment_after(anchor, span),
{
    match anchor.checked_add(span) {
        Some(moment) => if moment <= CLOCK_LIMIT {
            Some(moment)
        } else {
            None
        },
        None => None,
    }
}

/// Resource policy for one recorded command.
///
/// Limits are recorder policy only. A zero duration or byte limit is a valid
/// immediate boundary; trace bytes trigger only after the anchored file grows
/// beyond the configured value.
#[derive(Debug, Clone, Copy, PartialEq, Eq, Structural)]
pub struct CaptureLimits {
    /// Maximum time spent supervising the formal collector, excluding the
    /// backend version probe.
    pub max_duration: Option<u128>,
    /// Soft upper bound for the anchored raw trace inode.
    pub max_trace_bytes: Option<u64>,
    /// Grace between TERM and KILL during supervised termination.
    pub terminate_grace: u128,
}

/// The error for a duration limit beyond the clock.
pub open spec fn duration_error() -> Seq<char> {
    "capture duration limit cannot be represented by the monotonic clock"@
}

/// The error for a termination grace beyond the clock.
pub open spec fn grace_error() -> Seq<char> {
    "capture termination grace cannot be represented by the monotonic clock"@
}

impl CaptureLimits {
    /// The policy that command line values in milliseconds declare.
    pub open spec fn of_millis(
        max_duration_ms: Option<u64>,
        max_trace_bytes: Option<u64>,
        terminate_grace_ms: u64,
    ) -> CaptureLimits {
        CaptureLimits {
            max_duration: match max_duration_ms {
                Some(ms) => Some((ms * NANOS_PER_MILLI) as u128),
                None => None,
            },
            max_trace_bytes,
            terminate_grace: (terminate_grace_ms * NANOS_PER_MILLI) as u128,
        }
    }

    /// Maps command line values in milliseconds to capture policy.
    pub fn from_millis(
        max_duration_ms: Option<u64>,
        max_trace_bytes: Option<u64>,
        terminate_grace_ms: u64,
    ) -> (r: CaptureLimits)
        ensures
            r == CaptureLimits::of_millis(max_duration_ms, max_trace_bytes, terminate_grace_ms),
    {
        let max_duration: Option<u128> = match max_duration_ms {
            Some(ms) => Some(ms as u128 * NANOS_PER_MILLI),
            None => None,
        };
        CaptureLimits {
            max_duration,
            max_trace_bytes,
            terminate_grace: terminate_grace_ms as u128 * NANOS_PER_MILLI,
        }
    }

    /// What keeps the policy from starting at a moment.
    pub open spec fn fault(self, anchor: u128) -> Option<Seq<char>> {
        if self.max_duration matches Some(span) && moment_after(anchor, span) is None {
            Some(duration_error())
        } else if moment_after(anchor, self.terminate_grace) is None {
            Some(grace_error())
        } else {
            None
        }
    }

    /// Checks that the clock represents every deadline of the policy.
    pub fn validate_at(self, anchor: u128) -> (r: Result<(), String>)
        ensures
            match r {
                Ok(_) => self.fault(anchor) is None,
                Err(message) => self.fault(anchor) == Some(message@),
            },
    {
        match self.max_duration {
            Some(span) => {
                if checked_moment(anchor, span).is_none() {
                    return Err(
                        "capture duration limit cannot be represented by the monotonic clock".to_owned(),
                    );
                }
            },
            None => {},
        }
        if checked_moment(anchor, self.terminate_grace).is_none() {
            return Err(
                "capture termination grace cannot be represented by the monotonic clock".to_owned(),
            );
        }
        Ok(())
    }
}

impl Default for CaptureLimits {
    fn default() -> (r: CaptureLimits)
        ensures
            r == CaptureLimits::of_millis(None, None, 2000),
    {
        CaptureLimits::from_millis(None, None, 2_000)
    }
}

/// Monotonic deadlines anchored immediately before the formal collector spawn.
///
/// The version probe is intentionally outside this clock.
#[derive(Debug, Clone, Copy, PartialEq, Eq, Structural)]
pub struct CaptureSchedule {
    /// The duration limit.
    pub duration_limit: Option<u128>,
    /// When it passes.
    pub duration_deadline: Option<u128>,
    /// Grace between TERM and KILL.
    pub terminate_grace: u128,
}

impl CaptureSchedule {
    /// The deadlines of a policy that starts at a moment.
    pub open spec fn anchored(limits: CaptureLimits, started: u128) -> CaptureSchedule {
        CaptureSchedule {
            duration_limit: limits.max_duration,
            duration_deadline: match limits.max_duration {
                Some(span) => moment_after(started, span),
                None => None,
            },
            terminate_grace: limits.terminate_grace,
        }
    }

    /// Anchors the deadlines of a policy.
    pub fn before_spawn(limits: CaptureLimits, started: u128) -> (r: Result<CaptureSchedule, String>)
        ensures
            match r {
                Ok(schedule) => limits.fault(started) is None && schedule
                    == CaptureSchedule::anchored(limits, started),
                Err(message) => limits.fault(started) == Some(message@),
            },
    {
        match limits.validate_at(started) {
            Err(message) => Err(message),
            Ok(_) => {
                let duration_deadline: Option<u128> = match limits.max_duration {
                    Some(span) => checked_moment(started, span),
                    None => None,
                };
                Ok(
                    CaptureSchedule {
                        duration_limit: limits.max_duration,
                        duration_deadline,
                        terminate_grace: limits.terminate_grace,
                    },
                )
            },
        }
    }

    /// Gives the end of a grace that begins now.
    pub fn termination_deadline(&self, now: u128) -> (r: Result<u128, String>)
        ensures
            match r {
                Ok(deadline) => moment_after(now, self.terminate_grace) == Some(deadline),
                Err(message) => moment_after(now, self.terminate_grace) is None && message@
                    == grace_error(),
            },
    {
        match checked_moment(now, self.terminate_grace) {
            Some(deadline) => Ok(deadline),
            None => Err(
                "capture termination grace cannot be represented by the monotonic clock".to_owned(),
            ),
        }
    }

    /// Whether the duration limit has passed.
    pub open spec fn passed(self, now: u128) -> bool {
        &&& self.duration_limit is Some
        &&& self.duration_deadline matches Some(deadline)
        &&& now >= deadline
    }
}

/// The length of the anchored trace, as far as it could be observed.
#[derive(Debug, PartialEq, Eq)]
pub enum TraceLengthSource {
    /// It was observed.
    Fixed(u64),
    /// It could not be observed, and why.
    Failed(String),
}

/// What a [`TraceLengthSource`] says.
pub enum LengthView {
    /// It was observed.
    Fixed(u64),
    /// It could not be observed, and why.
    Failed(Seq<char>),
}

impl View for TraceLengthSource {
    type V = LengthView;

    open spec fn view(&self) -> LengthView {
        match self {
            TraceLengthSource::Fixed(length) => LengthView::Fixed(*length),
            TraceLengthSource::Failed(message) => LengthView::Failed(message@),
        }
    }
}

impl TraceLengthSource {
    /// Gives the length, or why it could not be observed.
    pub fn len(&self) -> (r: Result<u64, String>)
        ensures
            match r {
                Ok(length) => self@ == LengthView::Fixed(length),
                Err(message) => self@ == LengthView::Failed(message@),
            },
    {
        match self {
            TraceLengthSource::Fixed(length) => Ok(*length),
            TraceLengthSource::Failed(message) => Err(message.clone()),
        }
    }
}

/// The facts once the clock has been read.
pub open spec fn facts_at(
    schedule: CaptureSchedule,
    facts: CaptureLimitFacts,
    now: u128,
) -> CaptureLimitFacts {
    if schedule.passed(now) {
        facts.with_duration(schedule.duration_limit->0)
    } else {
        facts
    }
}

/// Whether the trace length has still to be looked at.
pub open spec fn length_pending(policy: CaptureLimits, facts: CaptureLimitFacts) -> bool {
    policy.max_trace_bytes is Some && facts.trace_bytes is None
}

/// The facts once the clock and the trace length have been read.
pub open spec fn observed_facts(
    policy: CaptureLimits,
    schedule: CaptureSchedule,
    facts: CaptureLimitFacts,
    now: u128,
    length: LengthView,
) -> CaptureLimitFacts {
    let timed = facts_at(schedule, facts, now);
    match length {
        LengthView::Fixed(observed) if length_pending(policy, timed) => timed.with_trace_bytes(
            observed,
            policy.max_trace_bytes->0,
        ),
        _ => timed,
    }
}

/// Notes which limits are exceeded, and says whether one newly is.
///
/// The trace length counts only while a byte limit is pending.
pub fn observe_capture_limits(
    trace_length: &TraceLengthSource,
    policy: CaptureLimits,
    schedule: &CaptureSchedule,
    facts: &mut CaptureLimitFacts,
    now: u128,
) -> (r: Result<bool, String>)
    ensures
        *final(facts) == observed_facts(policy, *schedule, *old(facts), now, trace_length@),
        match r {
            Ok(new) => !(length_pending(policy, *old(facts)) && trace_length@ is Failed) && new == (
            (final(facts).duration is Some && old(facts).duration is None) || (
            final(facts).trace_bytes is Some && old(facts).trace_bytes is None)),
            Err(message) => length_pending(policy, *old(facts)) && (trace_length@ matches
                LengthView::Failed(m) && message@
                == "inspect anchored trace length during collector supervision: "@ + m),
        },
{
    let mut new: bool = false;
    match (schedule.duration_limit, schedule.duration_deadline) {
        (Some(limit), Some(deadline)) => {
            if now >= deadline {
                new = facts.observe_duration(limit);
            }
        },
        _ => {},
    }
    match policy.max_trace_bytes {
        Some(limit) => {
            if facts.trace_bytes.is_none() {
                match trace_length.len() {
                    Ok(observed) => {
                        let beyond: bool = facts.observe_trace_bytes(observed, limit);
                        new = new || beyond;
                    },
                    Err(message) => {
                        let mut s: String =
                            "inspect anchored trace length during collector supervision: ".to_owned();
                        s.append(message.as_str());
                        return Err(s);
                    },
                }
            }
        },
        None => {},
    }
    Ok(new)
}

/// The earlier of two deadlines.
pub open spec fn earlier(a: Option<u128>, b: Option<u128>) -> Option<u128> {
    match (a, b) {
        (Some(x), Some(y)) => Some(if y < x {
            y
        } else {
            x
        }),
        (Some(x), None) => Some(x),
        (None, _) => b,
    }
}

/// Replaces a deadline by an earlier one.
pub fn earlier_deadline(current: &mut Option<u128>, candidate: Option<u128>)
    ensures
        *final(current) == earlier(*old(current), candidate),
{
    match candidate {
        Some(c) => {
            let sooner: bool = match *current {
                Some(x) => c < x,
                None => true,
            };
            if sooner {
                *current = Some(c);
            }
        },
        None => {},
    }
}

/// When supervision has to look again.
pub open spec fn poll_deadline(
    policy: CaptureLimits,
    schedule: CaptureSchedule,
    facts: CaptureLimitFacts,
    termination: Option<u128>,
    now: u128,
) -> Option<u128> {
    let timed = if facts.duration is None {
        earlier(termination, schedule.duration_deadline)
    } else {
        termination
    };
    if length_pending(policy, facts) {
        earlier(timed, moment_after(now, TRACE_LIMIT_POLL_INTERVAL))
    } else {
        timed
    }
}

/// Gives the moment at which supervision has to look again.
pub fn supervision_poll_deadline(
    policy: CaptureLimits,
    schedule: &CaptureSchedule,
    facts: &CaptureLimitFacts,
    termination_deadline: Option<u128>,
    now: u128,
) -> (r: Option<u128>)
    ensures
        r == poll_deadline(policy, *schedule, *facts, termination_deadline, now),
{
    let mut deadline: Option<u128> = termination_deadline;
    if facts.duration.is_none() {
        earlier_deadline(&mut deadline, schedule.duration_deadline);
    }
    if policy.max_trace_bytes.is_some() && facts.trace_bytes.is_none() {
        earlier_deadline(&mut deadline, checked_moment(now, TRACE_LIMIT_POLL_INTERVAL));
    }
    deadline
}

/// The timeout of a poll in milliseconds: never ending too early, and none at all
/// without a deadline.
pub open spec fn timeout_of(deadline: Option<u128>, now: u128) -> int {
    match deadline {
        None => -1,
        Some(d) => if d <= now {
            0
        } else if (d - now) / NANOS_PER_MILLI as int + 1 > i32::MAX {
            i32::MAX as int
        } else {
            (d - now) / NANOS_PER_MILLI as int + 1
        },
    }
}

/// Gives the timeout of a poll in milliseconds.
pub fn poll_timeout(deadline: Option<u128>, now: u128) -> (r: i32)
    ensures
        r == timeout_of(deadline, now),
{
    match deadline {
        None => -1,
        Some(d) => {
            if d <= now {
                0
            } else {
                let millis: u128 = (d - now) / NANOS_PER_MILLI;
                if millis >= 2_147_483_647 {
                    2_147_483_647
                } else {
                    millis as i32 + 1
                }
            }
        },
    }
}

} // verus!
