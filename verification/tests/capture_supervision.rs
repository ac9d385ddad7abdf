//! Decisions of the recorder while a collector runs.
use rundelta::capture::child::{
    combine_termination, signal_error, with_cleanup_error, ChildDisposition, ChildEnding,
    ChildOwnership, ChildWaitability, EndAction, EndEvent, EndReason,
};
use rundelta::capture::facts::{
    append_recorder_supervision_error, parse_process_exit, process_exit_from_status,
    CaptureLimitFacts, ProcessExit, RecorderStop, NANOS_PER_MILLI,
};
use rundelta::capture::limits::{
    checked_moment, earlier_deadline, poll_timeout, supervision_poll_deadline, CaptureLimits,
    CaptureSchedule, TraceLengthSource, CLOCK_LIMIT, TRACE_LIMIT_POLL_INTERVAL,
};
use rundelta::capture::probe::{
    cancelled_version_probe, probe_result, version_error_display, CapturedPipe, LaunchAction,
    LaunchEvent, LaunchFailure, LaunchPhase, PipeRead, ProbeAction, ProbeEvent, ProbeReadiness, ProbeSupervisor, VersionProbeOutcome,
    VERSION_ERROR_DISPLAY_LIMIT, VERSION_STREAM_LIMIT,
};
use rundelta::capture::signal_scope::{
    combine_signal_restore_errors, restore_signal_actions, with_signal_setup_rollback, RestoreStep,
    SavedSignal, SetupStep, SignalRead, SignalRestoration, SignalScope, SignalSetup,
};
use rundelta::capture::signals::{
    signal_number, signal_number_in, termination_signal, SignalRange,
};
use rundelta::capture::supervise::{
    CollectorSupervision, Conclusion, ObservedSignal, SupervisionAction, SupervisionEvent,
    Supervisor,
};
use rundelta::io::{IoError, IoKind};

const CONTROL_SIGNALS: [i32; 3] = [libc::SIGHUP, libc::SIGINT, libc::SIGTERM];

fn scope(ignored: Option<i32>, blocked: Option<i32>) -> SignalScope {
    SignalScope::new(
        CONTROL_SIGNALS
            .iter()
            .map(|number| SavedSignal {
                number: *number,
                ignored: ignored == Some(*number),
                blocked: blocked == Some(*number),
            })
            .collect(),
    )
}

fn failure(code: i32, message: &str) -> IoError {
    IoError {
        kind: IoKind::Other,
        code: Some(code),
        message: message.to_string(),
    }
}

#[test]
fn setup_failures_roll_back_changed_actions_and_mask() {
    let mut setup = SignalSetup::new(3);
    assert_eq!(setup.first(), SetupStep::SetAction(0));
    assert_eq!(setup.step(None), SetupStep::SetAction(1));
    assert_eq!(
        setup.step(Some("injected signal action failure".into())),
        SetupStep::RollBack(
            vec![0],
            "make control signal observable: injected signal action failure".into()
        )
    );

    let mut setup = SignalSetup::new(3);
    for next in 1..3 {
        assert_eq!(setup.step(None), SetupStep::SetAction(next));
    }
    assert_eq!(setup.step(None), SetupStep::OpenDescriptor);
    assert_eq!(
        setup.step(Some("injected signalfd failure".into())),
        SetupStep::RollBack(
            vec![2, 1, 0],
            "create recorder signalfd: injected signalfd failure".into()
        )
    );
    assert_eq!(setup.step(None), SetupStep::Complete);
}

#[test]
fn inherited_ignore_is_observable_and_restored() {
    let mut scope = scope(Some(libc::SIGHUP), None);
    assert!(scope.requires_direct_termination(libc::SIGHUP));
    assert!(!scope.requires_direct_termination(libc::SIGINT));
    assert_eq!(scope.observe(SignalRead::Signal(libc::SIGHUP)), Ok(true));
    assert_eq!(scope.observe(SignalRead::WouldBlock), Ok(false));
    assert_eq!(scope.first_observed, Some(libc::SIGHUP));
    assert!(!scope.restored);
    scope.mark_restored();
    assert!(scope.restored);
}

#[test]
fn inherited_blocked_mask_is_preserved_and_uses_direct_cancellation() {
    let mut scope = scope(None, Some(libc::SIGHUP));
    assert!(scope.requires_direct_termination(libc::SIGHUP));
    assert!(scope.saved[0].blocked);
    assert_eq!(scope.observe(SignalRead::Signal(libc::SIGHUP)), Ok(true));
    assert_eq!(scope.recorder_stop(), RecorderStop::Signal(libc::SIGHUP));
}

#[test]
fn first_observed_signal_is_stable_across_later_observations() {
    let mut scope = scope(None, None);
    assert_eq!(scope.observe(SignalRead::Signal(libc::SIGHUP)), Ok(true));
    assert_eq!(scope.first_observed, Some(libc::SIGHUP));
    assert_eq!(scope.observe(SignalRead::Signal(libc::SIGTERM)), Ok(true));
    assert_eq!(scope.first_observed, Some(libc::SIGHUP));
}

#[test]
fn late_signal_does_not_rewrite_an_already_observed_cancellation() {
    let mut scope = scope(None, None);
    assert_eq!(scope.observe(SignalRead::Signal(libc::SIGHUP)), Ok(true));
    scope.freeze();
    assert_eq!(scope.recorder_stop(), RecorderStop::Signal(libc::SIGHUP));
    scope.freeze();
    assert!(scope.frozen);
    assert_eq!(scope.recorder_stop(), RecorderStop::Signal(libc::SIGHUP));
}

#[test]
fn faulty_signal_reads_are_reported_and_observe_nothing() {
    let mut scope = scope(None, None);
    assert_eq!(scope.observe(SignalRead::Interrupted), Ok(true));
    assert_eq!(
        scope.observe(SignalRead::Failed("bad descriptor".into())),
        Err("read recorder signalfd: bad descriptor".into())
    );
    assert_eq!(
        scope.observe(SignalRead::Short(12)),
        Err("short read from recorder signalfd: 12 bytes".into())
    );
    assert_eq!(scope.recorder_stop(), RecorderStop::NoSignal);
}

#[test]
fn restoration_errors_are_joined_in_order() {
    assert_eq!(combine_signal_restore_errors(None, None, None), Ok(()));
    assert_eq!(
        combine_signal_restore_errors(Some("d".into()), Some("a".into()), Some("m".into())),
        Err("drain signalfd: d; restore actions: a; restore mask: m".into())
    );
    assert_eq!(restore_signal_actions(&vec![]), Ok(()));
    assert_eq!(
        restore_signal_actions(&vec![(15, "first".into()), (1, "second".into())]),
        Err("restore control signal actions: signal 15: first; signal 1: second".into())
    );
    assert_eq!(with_signal_setup_rollback("p".into(), None, None), "p");
    assert_eq!(
        with_signal_setup_rollback("p".into(), None, Some("m".into())),
        "p; signal setup rollback failed: actions=ok; mask=m"
    );
}

#[test]
fn child_waitability_rejects_auto_reaping_and_external_handlers() {
    let action = |default_action, flags: i32| ChildDisposition {
        default_action,
        discards_children: flags & libc::SA_NOCLDWAIT != 0,
    };
    assert!(ChildWaitability::from_action(action(true, 0)).is_ok());
    assert!(ChildWaitability::from_action(action(true, libc::SA_NOCLDSTOP)).is_ok());
    assert!(
        ChildWaitability::from_action(action(true, libc::SA_NOCLDSTOP | libc::SA_NOCLDWAIT))
            .is_err()
    );
    assert!(ChildWaitability::from_action(action(false, 0)).is_err());
}

#[test]
fn vanished_pidfd_target_never_signals_a_reused_pid_substitute() {
    let ownership = ChildOwnership::after_open_failure(&failure(libc::ESRCH, "No such process"));
    assert_eq!(ownership, ChildOwnership::Lost);
    assert!(!ownership.may_signal());
}

#[test]
fn echild_wait_never_signals_a_reused_pid_substitute() {
    let mut ownership = ChildOwnership::Waitable;
    let waited = Err(failure(libc::ECHILD, "No child processes"));
    ownership.observe_wait(&waited);
    assert_eq!(ownership, ChildOwnership::Lost);
    assert!(!ownership.may_signal());
    let (ending, action) = ChildEnding::begin(ChildOwnership::Waitable, EndReason::Finish);
    assert!(matches!(action, EndAction::Wait));
    let (ending, action) = ending.step(EndEvent::Waited(waited));
    let EndAction::Report(Err(error)) = action else {
        panic!("injected ECHILD must fail waiting without a signal");
    };
    assert!(error.contains("failed waiting"));
    assert_eq!(ending.ownership, ChildOwnership::Lost);
}

#[test]
fn descriptor_exhaustion_preserves_proven_child_cleanup() {
    let mut ownership = ChildOwnership::after_open_failure(&failure(libc::EMFILE, "Too many"));
    assert!(ownership.may_signal());
    ownership.observe_wait(&Err(failure(libc::EINTR, "Interrupted")));
    assert!(ownership.may_signal());
    ownership.observe_wait(&Ok(ProcessExit::Signaled(libc::SIGKILL)));
    assert_eq!(ownership, ChildOwnership::Reaped);
    assert!(!ownership.may_signal());
}

#[test]
fn termination_and_reap_failures_are_joined() {
    assert_eq!(
        signal_error("kill", &Err(failure(libc::ESRCH, "gone"))),
        None
    );
    assert_eq!(
        signal_error("kill", &Err(failure(libc::EPERM, "denied"))),
        Some("kill: denied".into())
    );
    assert_eq!(signal_error("kill", &Ok(())), None);
    let exit = ProcessExit::Exited(3);
    assert_eq!(combine_termination(None, Ok(exit)), Ok(exit));
    assert_eq!(
        combine_termination(Some("t".into()), Ok(exit)),
        Err("t".into())
    );
    assert_eq!(
        combine_termination(None, Err("r".into())),
        Err("r".into())
    );
    assert_eq!(
        combine_termination(Some("t".into()), Err("r".into())),
        Err("t; additionally failed to reap collector: r".into())
    );
    assert_eq!(with_cleanup_error("p".into(), None), "p");
    let (ending, _) = ChildEnding::begin(ChildOwnership::Waitable, EndReason::Finish);
    let (ending, action) = ending.step(EndEvent::Waited(Err(failure(libc::EIO, "broken"))));
    assert!(matches!(action, EndAction::Kill));
    let (ending, action) = ending.step(EndEvent::Killed(Err(failure(libc::EPERM, "denied"))));
    assert!(matches!(action, EndAction::Wait));
    let (ending, action) = ending.step(EndEvent::Waited(Ok(exit)));
    assert!(matches!(
        action,
        EndAction::Report(Err(error)) if error
            == "failed waiting for collector: broken; collector termination/reap also failed: failed to terminate collector: denied"
    ));
    assert_eq!(ending.ownership, ChildOwnership::Reaped);
}

#[test]
fn only_owned_children_are_terminated() {
    for ownership in [ChildOwnership::Reaped, ChildOwnership::Lost] {
        let (_, action) = ChildEnding::begin(ownership, EndReason::Abort("why".into()));
        assert!(matches!(action, EndAction::Report(Err(error)) if error == "why"));
        let (_, action) = ChildEnding::begin(ownership, EndReason::Cancel);
        assert!(matches!(
            action,
            EndAction::Report(Err(error)) if error
                == "collector child ownership is no longer available for termination/reaping"
        ));
    }
    let (ending, action) = ChildEnding::begin(ChildOwnership::Waitable, EndReason::Cancel);
    assert!(matches!(action, EndAction::Kill));
    let (ending, _) = ending.step(EndEvent::Killed(Err(failure(libc::ESRCH, "gone"))));
    let (ending, action) = ending.step(EndEvent::Waited(Ok(ProcessExit::Signaled(9))));
    assert!(matches!(
        action,
        EndAction::Report(Ok(ProcessExit::Signaled(9)))
    ));
    assert_eq!(ending.ownership, ChildOwnership::Reaped);
    let (ending, _) =
        ChildEnding::begin(ChildOwnership::Waitable, EndReason::Abort("why".into()));
    let (ending, _) = ending.step(EndEvent::Killed(Ok(())));
    let (ending, action) = ending.step(EndEvent::Waited(Err(failure(libc::ECHILD, "none"))));
    assert!(matches!(
        action,
        EndAction::Report(Err(error)) if error
            == "why; collector termination/reap also failed: failed to reap collector after termination: none"
    ));
    assert_eq!(ending.ownership, ChildOwnership::Lost);
}

fn restore(failures: &[Option<&str>]) -> (Vec<String>, Result<(), String>) {
    let mut restoration = SignalRestoration::new(vec![1, 2, 15]);
    let mut steps = vec!["drain".to_string()];
    for failure in failures {
        match restoration.step(failure.map(str::to_owned)) {
            RestoreStep::Drain => steps.push("drain".into()),
            RestoreStep::SetAction(position) => steps.push(format!("action {position}")),
            RestoreStep::SetMask => steps.push("mask".into()),
            RestoreStep::Finished(result) => return (steps, result),
        }
    }
    panic!("the restoration must finish");
}

#[test]
fn the_mask_is_restored_behind_every_action() {
    let (steps, result) = restore(&[None, None, None, None, None]);
    assert_eq!(steps, ["drain", "action 2", "action 1", "action 0", "mask"]);
    assert_eq!(result, Ok(()));
    let (steps, result) = restore(&[Some("late"), None, None, None, Some("denied")]);
    assert_eq!(steps.last().unwrap(), "mask");
    assert_eq!(
        result,
        Err("drain signalfd: late; restore mask: denied".into())
    );
    let (steps, result) = restore(&[None, Some("gone"), None, Some("lost")]);
    assert_eq!(steps, ["drain", "action 2", "action 1", "action 0"]);
    assert_eq!(
        result,
        Err(
            "restore actions: restore control signal actions: signal 15: gone; signal 1: lost"
                .into()
        )
    );
}

#[test]
fn a_probe_is_launched_only_without_a_recorder_signal() {
    let (phase, action) = LaunchPhase::Observing.step(LaunchEvent::Observed(Ok(false)));
    assert!(matches!(action, LaunchAction::Launch));
    let failure = LaunchFailure::NotStarted("missing".into());
    let (phase, action) = phase.step(LaunchEvent::Launched(Some(failure)));
    assert!(matches!(action, LaunchAction::Observe));
    let (_, action) = phase.step(LaunchEvent::Observed(Ok(false)));
    assert!(matches!(
        action,
        LaunchAction::Fail(error) if error.starts_with("failed to start supervised strace version probe")
            && error.ends_with("process supervision support: missing")
    ));
    let refused = || LaunchPhase::Refused("missing".into());
    assert!(matches!(
        refused().step(LaunchEvent::Observed(Ok(true))).1,
        LaunchAction::Cancelled
    ));
    assert!(matches!(
        LaunchPhase::Observing.step(LaunchEvent::Observed(Ok(true))).1,
        LaunchAction::Cancelled
    ));
    assert!(matches!(
        LaunchPhase::Observing.step(LaunchEvent::Observed(Err("broken".into()))).1,
        LaunchAction::Fail(error) if error == "broken"
    ));
    assert!(matches!(
        LaunchPhase::Launching.step(LaunchEvent::Launched(None)).1,
        LaunchAction::Supervise
    ));
    let unsupported = LaunchFailure::Unsupported("old kernel".into());
    assert!(matches!(
        LaunchPhase::Launching.step(LaunchEvent::Launched(Some(unsupported))).1,
        LaunchAction::Fail(error) if error == "old kernel"
    ));
}

#[test]
fn completions_are_read_from_statuses_and_traces() {
    assert_eq!(
        process_exit_from_status(Some(4), None),
        ProcessExit::Exited(4)
    );
    assert_eq!(
        process_exit_from_status(None, Some(9)),
        ProcessExit::Signaled(9)
    );
    assert_eq!(process_exit_from_status(None, None), ProcessExit::Unknown);
    assert_eq!(
        parse_process_exit("+++ exited with 12 +++"),
        ProcessExit::Exited(12)
    );
    assert_eq!(
        parse_process_exit("+++ killed by SIGSEGV (core dumped) +++"),
        ProcessExit::Signaled(libc::SIGSEGV)
    );
    assert_eq!(
        parse_process_exit("+++ exited with many +++"),
        ProcessExit::Unknown
    );
    assert_eq!(ProcessExit::Signaled(15).cli_exit(), Some(143));
    assert_eq!(ProcessExit::Signaled(i32::MAX).cli_exit(), None);
    assert_eq!(ProcessExit::Exited(7).metadata_fields(), (Some(7), None));
}

#[test]
fn real_time_signals_follow_the_range_of_the_machine() {
    let range = SignalRange {
        first: 34,
        last: 64,
    };
    let number = |name: &str| signal_number_in(&format!("+++ killed by {name} +++"), range);
    assert_eq!(number("SIGRTMIN"), Some(34));
    assert_eq!(number("SIGRTMIN+3"), Some(37));
    assert_eq!(number("SIGRTMIN+31"), None);
    assert_eq!(number("SIGRTMAX"), Some(64));
    assert_eq!(number("SIGRT_0"), Some(32));
    assert_eq!(number("SIGRT_-1"), None);
    assert_eq!(number("SIGKILL"), Some(9));
    assert_eq!(
        signal_number("+++ killed by SIGRTMIN +++"),
        Some(libc::SIGRTMIN())
    );
    assert_eq!(
        signal_number("+++ killed by SIGRTMAX +++"),
        Some(libc::SIGRTMAX())
    );
    assert_eq!(termination_signal(), libc::SIGTERM);
}

fn policy(
    max_duration: Option<u128>,
    max_trace_bytes: Option<u64>,
    terminate_grace: u128,
) -> Supervisor {
    let policy = CaptureLimits {
        max_duration,
        max_trace_bytes,
        terminate_grace,
    };
    Supervisor::new(policy, CaptureSchedule::before_spawn(policy, 1_000).unwrap())
}

fn quiet() -> SupervisionEvent {
    SupervisionEvent::Observed(Ok(None))
}

fn at(now: u128) -> SupervisionEvent {
    SupervisionEvent::Measured(now, TraceLengthSource::Fixed(0))
}

#[test]
fn a_ready_collector_is_waited_for_after_one_more_look() {
    let mut supervisor = policy(None, None, 0);
    assert_eq!(supervisor.step(quiet()), SupervisionAction::Measure(false));
    assert_eq!(supervisor.step(at(1_000)), SupervisionAction::ReadClock);
    assert_eq!(
        supervisor.step(SupervisionEvent::Clock(1_000)),
        SupervisionAction::Poll(None)
    );
    assert_eq!(
        supervisor.step(SupervisionEvent::Polled(Ok((false, true)))),
        SupervisionAction::Observe
    );
    assert_eq!(supervisor.step(quiet()), SupervisionAction::Measure(false));
    assert_eq!(
        supervisor.step(at(1_001)),
        SupervisionAction::Conclude(Conclusion::Finish)
    );
}

#[test]
fn poll_failures_and_invalid_descriptors_fail_supervision() {
    for (event, expected) in [
        (
            SupervisionEvent::Polled(Err("injected poll failure".into())),
            "injected poll failure",
        ),
        (
            SupervisionEvent::Polled(Ok((true, false))),
            "invalid fd while polling recorder signals and collector",
        ),
    ] {
        let mut supervisor = policy(None, None, 0);
        supervisor.step(quiet());
        supervisor.step(at(1_000));
        supervisor.step(SupervisionEvent::Clock(1_000));
        assert_eq!(
            supervisor.step(event),
            SupervisionAction::Conclude(Conclusion::Fail(expected.into()))
        );
    }
    assert_eq!(
        policy(None, None, 0).step(SupervisionEvent::Observed(Err("lost".into()))),
        SupervisionAction::Conclude(Conclusion::Fail("lost".into()))
    );
}

#[test]
fn a_forwarded_signal_begins_a_grace_after_which_the_collector_is_killed() {
    let mut supervisor = policy(None, None, 50);
    let signal = || {
        SupervisionEvent::Observed(Ok(Some(ObservedSignal {
            number: libc::SIGINT,
            direct: false,
        })))
    };
    assert_eq!(supervisor.step(signal()), SupervisionAction::Measure(false));
    assert_eq!(
        supervisor.step(at(2_000)),
        SupervisionAction::Forward(libc::SIGINT)
    );
    assert_eq!(
        supervisor.step(SupervisionEvent::Forwarded(None, 2_010)),
        SupervisionAction::ReadClock
    );
    assert_eq!(
        supervisor.step(SupervisionEvent::Clock(2_020)),
        SupervisionAction::Poll(Some(2_060))
    );
    assert_eq!(
        supervisor.step(SupervisionEvent::Polled(Ok((false, false)))),
        SupervisionAction::Observe
    );
    assert_eq!(supervisor.step(signal()), SupervisionAction::Measure(false));
    assert_eq!(supervisor.step(at(2_059)), SupervisionAction::ReadClock);
    assert_eq!(
        supervisor.step(SupervisionEvent::Clock(2_060)),
        SupervisionAction::Conclude(Conclusion::Cancel)
    );
}

#[test]
fn a_signal_that_the_collector_ignores_cancels_it_directly() {
    let mut supervisor = policy(None, None, 50);
    supervisor.step(SupervisionEvent::Observed(Ok(Some(ObservedSignal {
        number: libc::SIGHUP,
        direct: true,
    }))));
    assert_eq!(
        supervisor.step(at(2_000)),
        SupervisionAction::Conclude(Conclusion::Cancel)
    );
}

#[test]
fn a_duration_limit_asks_for_termination_and_keeps_its_grace() {
    let mut supervisor = policy(Some(500), None, 70);
    assert_eq!(supervisor.step(quiet()), SupervisionAction::Measure(false));
    assert_eq!(supervisor.step(at(1_499)), SupervisionAction::ReadClock);
    assert_eq!(
        supervisor.step(SupervisionEvent::Clock(1_499)),
        SupervisionAction::Poll(Some(1_500))
    );
    supervisor.step(SupervisionEvent::Polled(Ok((false, false))));
    supervisor.step(quiet());
    assert_eq!(
        supervisor.step(at(1_500)),
        SupervisionAction::Forward(libc::SIGTERM)
    );
    assert_eq!(supervisor.facts.duration, Some(500));
    supervisor.step(SupervisionEvent::Forwarded(None, 1_501));
    assert_eq!(
        supervisor.step(SupervisionEvent::Clock(1_501)),
        SupervisionAction::Poll(Some(1_571))
    );
    supervisor.step(SupervisionEvent::Polled(Ok((false, false))));
    supervisor.step(quiet());
    assert_eq!(supervisor.step(at(1_560)), SupervisionAction::ReadClock);
    assert_eq!(supervisor.termination_deadline, Some(1_571));
    assert_eq!(
        supervisor.step(SupervisionEvent::Clock(1_571)),
        SupervisionAction::Conclude(Conclusion::Cancel)
    );
}

#[test]
fn an_unknown_trace_length_cancels_without_becoming_a_limit() {
    let mut supervisor = policy(None, Some(8), 0);
    assert_eq!(supervisor.step(quiet()), SupervisionAction::Measure(true));
    let SupervisionAction::Conclude(conclusion) = supervisor.step(SupervisionEvent::Measured(
        1_000,
        TraceLengthSource::Failed("injected length failure".into()),
    )) else {
        panic!("supervision must end");
    };
    let supervision = CollectorSupervision::concluded(
        conclusion,
        supervisor.facts,
        Ok(ProcessExit::Signaled(libc::SIGKILL)),
    );
    assert_eq!(supervision.limits, CaptureLimitFacts::default());
    assert_eq!(
        supervision.trace_len_error.as_deref(),
        Some(
            "recorder trace length supervision failed: inspect anchored trace length during \
             collector supervision: injected length failure"
        )
    );
    assert_eq!(
        supervision.status,
        Ok(ProcessExit::Signaled(libc::SIGKILL))
    );
}

#[test]
fn a_pending_byte_limit_shortens_the_wait() {
    let limits = CaptureLimits {
        max_duration: None,
        max_trace_bytes: Some(8),
        terminate_grace: 0,
    };
    let schedule = CaptureSchedule::before_spawn(limits, 0).unwrap();
    let mut facts = CaptureLimitFacts::default();
    assert_eq!(
        supervision_poll_deadline(limits, &schedule, &facts, None, 7),
        Some(7 + TRACE_LIMIT_POLL_INTERVAL)
    );
    facts.observe_trace_bytes(9, 8);
    assert_eq!(
        supervision_poll_deadline(limits, &schedule, &facts, None, 7),
        None
    );
}

#[test]
fn moments_deadlines_and_timeouts_are_bounded() {
    assert_eq!(checked_moment(CLOCK_LIMIT - 1, 1), Some(CLOCK_LIMIT));
    assert_eq!(checked_moment(CLOCK_LIMIT, 1), None);
    let mut deadline = None;
    earlier_deadline(&mut deadline, Some(9));
    earlier_deadline(&mut deadline, Some(12));
    earlier_deadline(&mut deadline, None);
    assert_eq!(deadline, Some(9));
    assert_eq!(poll_timeout(None, 5), -1);
    assert_eq!(poll_timeout(Some(5), 5), 0);
    assert_eq!(poll_timeout(Some(5 + NANOS_PER_MILLI), 5), 2);
    assert_eq!(poll_timeout(Some(6), 5), 1);
    assert_eq!(poll_timeout(Some(u128::MAX), 0), i32::MAX);
    assert_eq!(
        CaptureLimits::from_millis(Some(17), Some(4), 250),
        CaptureLimits {
            max_duration: Some(17_000_000),
            max_trace_bytes: Some(4),
            terminate_grace: 250_000_000,
        }
    );
    let grace = CaptureLimits {
        max_duration: None,
        max_trace_bytes: None,
        terminate_grace: CLOCK_LIMIT,
    };
    assert_eq!(
        grace.validate_at(1),
        Err("capture termination grace cannot be represented by the monotonic clock".into())
    );
    let schedule = CaptureSchedule::before_spawn(grace, 0).unwrap();
    assert!(schedule.termination_deadline(1).is_err());
    assert_eq!(schedule.termination_deadline(0), Ok(CLOCK_LIMIT));
}

#[test]
fn supervision_errors_are_joined() {
    let mut slot = None;
    append_recorder_supervision_error(&mut slot, "first".into());
    assert_eq!(slot.as_deref(), Some("first"));
    append_recorder_supervision_error(&mut slot, "second".into());
    assert_eq!(slot.as_deref(), Some("first; additionally second"));
}

#[test]
fn version_error_display_is_bounded_and_marks_truncation() {
    let mut stderr = b"BEGIN\n".to_vec();
    stderr.extend(std::iter::repeat_n(b'e', 10_000));
    stderr.extend_from_slice(b"\nSECRET-TAIL\n");
    let display = version_error_display(&stderr);
    assert!(display.len() as u128 <= VERSION_ERROR_DISPLAY_LIMIT);
    assert!(display.starts_with("BEGIN\n"));
    assert!(display.contains("[truncated; stderr was 10019 bytes]"));
    assert!(!display.contains("SECRET-TAIL"));
}

#[test]
fn short_probe_errors_are_shown_whole_and_decoded_leniently() {
    assert_eq!(version_error_display(&b" \n".to_vec()), "(no stderr)");
    assert_eq!(
        version_error_display(&b"\xffbad\n".to_vec()),
        "\u{fffd}bad"
    );
    let wide = "\u{e9}".repeat(3_000).into_bytes();
    let display = version_error_display(&wide);
    assert!(display.len() as u128 <= VERSION_ERROR_DISPLAY_LIMIT);
    assert!(display.ends_with(" [truncated; stderr was 6000 bytes]"));
}

fn ready() -> ProbeReadiness {
    ProbeReadiness {
        any: true,
        invalid: false,
        signal: false,
        probe: false,
        stdout: false,
        stderr: false,
    }
}

fn drive(events: Vec<ProbeEvent>) -> Vec<ProbeAction> {
    let mut supervisor = ProbeSupervisor::new();
    let mut actions = vec![];
    for event in events {
        let (next, action) = supervisor.step(event);
        supervisor = next;
        actions.push(action);
    }
    actions
}

fn unseen() -> ProbeEvent {
    ProbeEvent::Observed(Ok(false))
}

#[test]
fn a_pending_recorder_signal_wins_over_a_probe_that_has_ended() {
    let actions = drive(vec![
        unseen(),
        ProbeEvent::Polled(Ok(ProbeReadiness {
            signal: true,
            probe: true,
            ..ready()
        })),
        ProbeEvent::Observed(Ok(true)),
    ]);
    assert_eq!(
        actions,
        [ProbeAction::Poll, ProbeAction::Observe, ProbeAction::Cancel]
    );
}

#[test]
fn a_probe_that_has_ended_is_not_awaited_for_the_end_of_its_streams() {
    let actions = drive(vec![
        unseen(),
        ProbeEvent::Polled(Ok(ProbeReadiness {
            probe: true,
            stdout: true,
            ..ready()
        })),
        ProbeEvent::Drained(None),
        ProbeEvent::Drained(None),
        ProbeEvent::Drained(None),
        unseen(),
        ProbeEvent::Waited(Ok(ProcessExit::Exited(0))),
        unseen(),
    ]);
    assert_eq!(
        actions,
        [
            ProbeAction::Poll,
            ProbeAction::DrainStdout,
            ProbeAction::DrainStdout,
            ProbeAction::DrainStderr,
            ProbeAction::Observe,
            ProbeAction::Finish,
            ProbeAction::Observe,
            ProbeAction::Report(ProcessExit::Exited(0)),
        ]
    );
}

#[test]
fn probe_failures_are_reported_unless_a_signal_was_observed() {
    let timed_out = ProbeEvent::Polled(Ok(ProbeReadiness {
        any: false,
        ..ready()
    }));
    assert_eq!(
        drive(vec![unseen(), timed_out, unseen()]).pop(),
        Some(ProbeAction::Abort(
            "strace version probe timed out after 5 seconds".into()
        ))
    );
    let failed = || ProbeEvent::Polled(Err("poll broke".into()));
    assert_eq!(
        drive(vec![unseen(), failed(), unseen()]).pop(),
        Some(ProbeAction::Abort("poll broke".into()))
    );
    assert_eq!(
        drive(vec![unseen(), failed(), ProbeEvent::Observed(Ok(true))]).pop(),
        Some(ProbeAction::Cancel)
    );
    assert_eq!(
        drive(vec![
            unseen(),
            failed(),
            ProbeEvent::Observed(Err("no looking".into()))
        ])
        .pop(),
        Some(ProbeAction::Abort(
            "poll broke; additionally failed to observe recorder signal: no looking".into()
        ))
    );
    assert_eq!(
        drive(vec![
            unseen(),
            ProbeEvent::Polled(Ok(ProbeReadiness {
                invalid: true,
                ..ready()
            })),
            unseen()
        ])
        .pop(),
        Some(ProbeAction::Abort(
            "invalid fd while polling recorder signals, version probe, and output pipes".into()
        ))
    );
}

#[test]
fn probe_streams_are_collected_up_to_their_limit() {
    let mut pipe = CapturedPipe::new("stdout");
    assert_eq!(pipe.drain(PipeRead::Bytes(b"ab".to_vec())), Ok(true));
    assert_eq!(pipe.drain(PipeRead::Interrupted), Ok(true));
    assert_eq!(pipe.drain(PipeRead::WouldBlock), Ok(false));
    assert_eq!(
        pipe.drain(PipeRead::Failed("broke".into())),
        Err("read strace version probe stdout: broke".into())
    );
    assert_eq!(
        pipe.drain(PipeRead::Bytes(vec![0; VERSION_STREAM_LIMIT - 1])),
        Err("strace version probe stdout exceeded 65536-byte limit".into())
    );
    assert_eq!(
        pipe.drain(PipeRead::Bytes(vec![0; VERSION_STREAM_LIMIT - 2])),
        Ok(true)
    );
    assert_eq!(pipe.bytes.len(), VERSION_STREAM_LIMIT);
    assert!(pipe.may_read());
    assert_eq!(pipe.drain(PipeRead::Bytes(vec![])), Ok(false));
    assert!(pipe.eof);
    assert!(!pipe.may_read());
}

#[test]
fn ended_probe_stream_takes_nothing_more() {
    let mut pipe = CapturedPipe::new("stderr");
    assert_eq!(pipe.drain(PipeRead::Bytes(b"ab".to_vec())), Ok(true));
    assert_eq!(pipe.drain(PipeRead::Bytes(vec![])), Ok(false));
    for read in [
        PipeRead::Bytes(b"cd".to_vec()),
        PipeRead::Bytes(vec![0; VERSION_STREAM_LIMIT + 1]),
        PipeRead::Bytes(vec![]),
        PipeRead::Interrupted,
        PipeRead::WouldBlock,
        PipeRead::Failed("broke".into()),
    ] {
        assert_eq!(pipe.drain(read), Ok(false));
        assert_eq!(
            pipe,
            CapturedPipe {
                bytes: b"ab".to_vec(),
                eof: true,
                name: "stderr".into()
            }
        );
    }
}

#[test]
fn probe_outcomes_are_told_apart() {
    assert_eq!(
        probe_result(ProcessExit::Exited(0), b"strace 6".to_vec(), "x"),
        Ok(b"strace 6".to_vec())
    );
    assert_eq!(
        probe_result(ProcessExit::Exited(2), vec![], "bad"),
        Err("strace version probe exited nonzero (2): bad".into())
    );
    assert_eq!(
        probe_result(ProcessExit::Signaled(9), vec![], "bad"),
        Err("strace version probe terminated by signal 9: bad".into())
    );
    assert_eq!(
        probe_result(ProcessExit::Unknown, vec![], "bad"),
        Err("strace version probe completion was not observable: bad".into())
    );
    assert_eq!(
        cancelled_version_probe(None),
        VersionProbeOutcome::Cancelled(None)
    );
    assert_eq!(
        cancelled_version_probe(Some("kill".into())),
        VersionProbeOutcome::Cancelled(Some(
            "failed to terminate/reap cancelled version probe: kill".into()
        ))
    );
}

fn end_child(reason: EndReason, events: Vec<EndEvent>) -> (ChildOwnership, Result<ProcessExit, String>) {
    let (mut ending, mut action) = ChildEnding::begin(ChildOwnership::Waitable, reason);
    for event in events {
        (ending, action) = ending.step(event);
    }
    match action {
        EndAction::Report(result) => (ending.ownership, result),
        _ => panic!("the child must have come to its end"),
    }
}

#[test]
fn failed_restore_remains_retryable_for_drop_cleanup() {
    for failures in [
        vec![None, Some("injected signal restore sigaction failure"), None, None],
        vec![None, None, None, None, Some("injected signal restore mask failure")],
    ] {
        let mut scope = scope(None, None);
        let (_, result) = restore(&failures);
        scope.freeze();
        assert!(result.unwrap_err().contains("injected signal restore"));
        assert!(!scope.restored);
        let (_, result) = restore(&[None, None, None, None, None]);
        assert_eq!(result, Ok(()));
        scope.mark_restored();
        assert!(scope.restored);
    }
}

#[test]
fn frozen_signals_remain_pending_through_restore_and_retry() {
    for number in CONTROL_SIGNALS {
        let mut scope = scope(None, Some(number));
        assert!(scope.may_read());
        assert_eq!(scope.observe(SignalRead::WouldBlock), Ok(false));
        scope.freeze();
        assert_eq!(scope.recorder_stop(), RecorderStop::NoSignal);
        assert!(!scope.may_read(), "late signal was consumed");
        assert_eq!(scope.first_observed, None, "frozen capture facts changed");
        scope.mark_restored();
        assert!(!scope.may_read());
        assert_eq!(scope.recorder_stop(), RecorderStop::NoSignal);
    }
}

#[test]
fn restoration_retry_does_not_acquire_new_signals() {
    let mut scope = scope(None, Some(libc::SIGHUP));
    scope.freeze();
    let (steps, result) = restore(&[None, Some("injected"), None, None]);
    assert!(result.is_err());
    assert_eq!(steps[0], "drain");
    assert!(!scope.may_read());
    let (_, result) = restore(&[None, None, None, None, None]);
    assert_eq!(result, Ok(()));
    assert_eq!(scope.recorder_stop(), RecorderStop::NoSignal);
}

#[test]
fn pidfd_failure_explicitly_terminates_and_reaps_spawned_collector() {
    let opened = IoError {
        kind: IoKind::Other,
        code: None,
        message: "injected collector pidfd failure".into(),
    };
    assert_eq!(
        ChildOwnership::after_open_failure(&opened),
        ChildOwnership::Waitable
    );
    let (ownership, result) = end_child(
        EndReason::Abort(opened.message),
        vec![
            EndEvent::Killed(Ok(())),
            EndEvent::Waited(Ok(ProcessExit::Signaled(libc::SIGKILL))),
        ],
    );
    assert!(result
        .unwrap_err()
        .contains("injected collector pidfd failure"));
    assert_eq!(ownership, ChildOwnership::Reaped);
}

#[test]
fn wait_kill_and_reap_faults_are_reported_without_residual_collectors() {
    let injected = |operation: &str| IoError {
        kind: IoKind::Other,
        code: None,
        message: format!("injected collector {operation} failure"),
    };
    let gone = || Ok(ProcessExit::Signaled(libc::SIGKILL));
    let cases = [
        (
            "wait",
            Ok(()),
            gone(),
            &["injected collector wait failure"][..],
        ),
        (
            "kill",
            Err(injected("kill")),
            gone(),
            &[
                "injected collector wait failure",
                "injected collector kill failure",
            ][..],
        ),
        (
            "reap",
            Ok(()),
            Err(injected("reap")),
            &[
                "injected collector wait failure",
                "injected collector reap failure",
            ][..],
        ),
    ];
    for (name, killed, reaped, expected) in cases {
        let (_, result) = end_child(
            EndReason::Finish,
            vec![
                EndEvent::Waited(Err(injected("wait"))),
                EndEvent::Killed(killed),
                EndEvent::Waited(reaped),
            ],
        );
        let detail = result.expect_err("fault must fail collector finish");
        for needle in expected {
            assert!(detail.contains(needle), "{name}: {detail}");
        }
    }
}

#[test]
fn guard_retains_cleanup_ownership_on_early_return() {
    let (ownership, result) = end_child(
        EndReason::Abort("forced post-spawn early return".into()),
        vec![
            EndEvent::Killed(Ok(())),
            EndEvent::Waited(Ok(ProcessExit::Signaled(libc::SIGKILL))),
        ],
    );
    assert!(result
        .unwrap_err()
        .contains("forced post-spawn early return"));
    assert_eq!(ownership, ChildOwnership::Reaped);
}
