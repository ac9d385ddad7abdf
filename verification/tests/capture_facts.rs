//! Facts of a capture, from the trace to the decision.
use rundelta::capture::completion::{parse_trace_stream, trace_parser, Completion};
use rundelta::capture::facts::{
    reduce_capture, reduce_capture_facts, CaptureDecision, CaptureFactsInput, CaptureLimitFacts,
    CollectorFacts, ProcessExit, RecorderStop, TraceBytesLimitFact, NANOS_PER_MILLI,
};
use rundelta::capture::limits::{CaptureLimits, CaptureSchedule};
use rundelta::capture::signals::signal_number;
use rundelta::model::{CaptureCompleteness, CaptureState, Metadata};
use rundelta::parse::timeline::Parsed;
use rundelta::parse::trace::parse_with_cwd;

#[test]
fn streamed_lines_preserve_adapter_lf_crlf_eof_and_warning_semantics() {
    let raw = "7 execve(\"/tool\", [\"tool\"], 0x0) = 0\r\n\
        7 open(\"relative\", O_RDONLY) = -1 ENOENT (No file)\n\
        7 +++ exited with 0 +++\n\
        9 open(\"/unfinished\", O_RDONLY <unfinished ...>";
    let expected = parse_with_cwd(raw, "raw/trace.log", Some("/context"));
    let mut parser = trace_parser("/context");
    for line in raw.split_inclusive('\n') {
        parser.push_line(line);
    }
    let (actual, error) = parse_trace_stream("/context", parser, None);

    assert_eq!(error, None);
    assert_eq!(actual.lines, expected.lines);
    assert_eq!(actual.warnings, expected.warnings);
    assert_eq!(actual.events, expected.events);
    let actual_completion = Completion::from_timeline(&actual);
    let expected_completion = Completion::from_timeline(&expected);
    assert_eq!(actual_completion.root_exit, expected_completion.root_exit);
    assert_eq!(
        actual_completion.missing_exits,
        expected_completion.missing_exits
    );
}

#[test]
fn late_stream_error_discards_every_accepted_prefix_fact() {
    let mut parser = trace_parser("/context");
    parser.push_line("7 execve(\"/tool\", [\"tool\"], 0x0) = 0\n");
    parser.push_line("7 +++ exited with 0 +++\n");
    let (parsed, error) = parse_trace_stream(
        "/context",
        parser,
        Some("late injected trace read failure".to_string()),
    );

    assert_eq!(parsed.lines, 0);
    assert!(parsed.events.is_empty());
    assert!(parsed.warnings.is_empty());
    assert!(parsed.timeline.generations().is_empty());
    assert_eq!(error.as_deref(), Some("late injected trace read failure"));

    let decision = reduce_capture(
        None,
        &vec![],
        CollectorFacts::Reaped(ProcessExit::Exited(0)),
        RecorderStop::NoSignal,
        None,
        vec![],
        error,
    );
    assert_eq!(decision.target, None);
    assert_eq!(decision.state, CaptureState::CaptureFailed);
    assert_eq!(decision.completeness, CaptureCompleteness::Incomplete);
    assert_eq!(decision.cli_exit, 125);
    assert_eq!(
        decision.warnings,
        [
            "cannot read trace: late injected trace read failure",
            "root process completion not observed; capture incomplete",
        ]
    );
}

#[test]
fn linux_standard_signal_names_are_complete() {
    let signals = [
        ("SIGHUP", libc::SIGHUP),
        ("SIGINT", libc::SIGINT),
        ("SIGQUIT", libc::SIGQUIT),
        ("SIGILL", libc::SIGILL),
        ("SIGTRAP", libc::SIGTRAP),
        ("SIGABRT", libc::SIGABRT),
        ("SIGBUS", libc::SIGBUS),
        ("SIGFPE", libc::SIGFPE),
        ("SIGKILL", libc::SIGKILL),
        ("SIGUSR1", libc::SIGUSR1),
        ("SIGSEGV", libc::SIGSEGV),
        ("SIGUSR2", libc::SIGUSR2),
        ("SIGPIPE", libc::SIGPIPE),
        ("SIGALRM", libc::SIGALRM),
        ("SIGTERM", libc::SIGTERM),
        ("SIGSTKFLT", libc::SIGSTKFLT),
        ("SIGCHLD", libc::SIGCHLD),
        ("SIGCONT", libc::SIGCONT),
        ("SIGSTOP", libc::SIGSTOP),
        ("SIGTSTP", libc::SIGTSTP),
        ("SIGTTIN", libc::SIGTTIN),
        ("SIGTTOU", libc::SIGTTOU),
        ("SIGURG", libc::SIGURG),
        ("SIGXCPU", libc::SIGXCPU),
        ("SIGXFSZ", libc::SIGXFSZ),
        ("SIGVTALRM", libc::SIGVTALRM),
        ("SIGPROF", libc::SIGPROF),
        ("SIGWINCH", libc::SIGWINCH),
        ("SIGIO", libc::SIGIO),
        ("SIGPWR", libc::SIGPWR),
        ("SIGSYS", libc::SIGSYS),
    ];
    for (name, number) in signals {
        assert_eq!(
            signal_number(&format!("+++ killed by {name} +++")),
            Some(number),
            "{name}"
        );
    }
    assert_eq!(signal_number("+++ killed by SIGFUTURE +++"), None);
}

#[test]
fn strace_realtime_names_use_kernel_base() {
    assert_eq!(signal_number("+++ killed by SIGRT_2 +++"), Some(34));
    assert_eq!(signal_number("+++ killed by SIGRT_32 +++"), Some(64));
    assert_eq!(signal_number("+++ killed by SIGRT_999 +++"), None);
}

fn expected_reduction(
    root_outcome: Option<&str>,
    missing_generations: &Vec<String>,
    collector_exit: ProcessExit,
    recorder: RecorderStop,
    mut warnings: Vec<String>,
    trace_read_error: Option<String>,
) -> CaptureDecision {
    if let Some(error) = trace_read_error {
        warnings.push(format!("cannot read trace: {error}"));
    }

    let mut exit_code = None;
    let mut signal = None;
    let target_exit_raw = root_outcome.map(str::to_owned);
    if let Some(outcome) = root_outcome {
        if let Some(code) = outcome
            .strip_prefix("+++ exited with ")
            .and_then(|value| value.strip_suffix(" +++"))
            .and_then(|value| value.parse::<i32>().ok())
        {
            exit_code = Some(code);
        } else if outcome.starts_with("+++ killed by ") {
            signal = signal_number(outcome);
            if signal.is_none() {
                warnings.push("unrecognized target termination signal".into());
            }
        }
    }
    let target = root_outcome.map(|_| match (exit_code, signal) {
        (Some(code), None) => ProcessExit::Exited(code),
        (None, Some(signal)) => ProcessExit::Signaled(signal),
        _ => ProcessExit::Unknown,
    });
    if !missing_generations.is_empty() {
        warnings.push(format!(
            "process completion not observed for PIDs: {}",
            missing_generations.join(", ")
        ));
    }

    let confirmation = if let Some(code) = exit_code {
        Some(collector_exit == ProcessExit::Exited(code))
    } else {
        signal.map(|signal| collector_exit == ProcessExit::Signaled(signal))
    };
    let state = if matches!(recorder, RecorderStop::Signal(_)) {
        CaptureState::Interrupted
    } else if root_outcome.is_none() || confirmation == Some(false) {
        CaptureState::CaptureFailed
    } else {
        CaptureState::Completed
    };
    if root_outcome.is_none() {
        warnings.push("root process completion not observed; capture incomplete".into());
    }
    if confirmation == Some(false) {
        warnings.push("collector status does not confirm target completion".into());
    }
    let completeness = if state != CaptureState::Completed {
        CaptureCompleteness::Incomplete
    } else if warnings.is_empty() {
        CaptureCompleteness::CompleteForSupportedEvents
    } else {
        CaptureCompleteness::Partial
    };
    let target_code = signal.map(|signal| 128 + signal).or(exit_code);
    let collector_code = collector_exit.cli_exit();
    let cli_exit = match recorder {
        RecorderStop::Signal(signal) => 128 + signal,
        RecorderStop::NoSignal if state == CaptureState::CaptureFailed => 125,
        RecorderStop::NoSignal => target_code.or(collector_code).unwrap_or(125),
    };

    CaptureDecision {
        target,
        target_exit_raw,
        collector: CollectorFacts::Reaped(collector_exit),
        recorder,
        limits: CaptureLimitFacts::default(),
        recorder_supervision_error: None,
        state,
        completeness,
        warnings,
        cli_exit,
    }
}

#[test]
fn known_collector_fact_matrix_matches_the_legacy_reduction() {
    let roots = [
        None,
        Some("+++ exited with 0 +++"),
        Some("+++ exited with 7 +++"),
        Some("+++ killed by SIGTERM +++"),
        Some("+++ killed by SIGFUTURE +++"),
    ];
    let collectors = [
        ProcessExit::Exited(0),
        ProcessExit::Exited(7),
        ProcessExit::Signaled(libc::SIGTERM),
    ];
    let recorders = [RecorderStop::NoSignal, RecorderStop::Signal(libc::SIGINT)];
    let warning_sets = [Vec::new(), vec!["parser warning".into()]];
    let missing_sets = [Vec::new(), vec!["2".into(), "9".into()]];
    let trace_errors = [None, Some("trace read failed")];

    for root in roots {
        for collector in collectors {
            for recorder in recorders {
                for warnings in &warning_sets {
                    for missing in &missing_sets {
                        for trace_error in trace_errors {
                            let expected = expected_reduction(
                                root,
                                missing,
                                collector,
                                recorder,
                                warnings.clone(),
                                trace_error.map(str::to_owned),
                            );
                            let actual = reduce_capture(
                                root,
                                missing,
                                CollectorFacts::Reaped(collector),
                                recorder,
                                None,
                                warnings.clone(),
                                trace_error.map(str::to_owned),
                            );
                            assert_eq!(
                                actual, expected,
                                "root={root:?}, collector={collector:?}, recorder={recorder:?}, warnings={warnings:?}, missing={missing:?}, trace_error={trace_error:?}"
                            );
                        }
                    }
                }
            }
        }
    }
}

#[test]
fn unknown_collector_fact_matrix_fails_closed() {
    let roots = [
        None,
        Some("+++ exited with 0 +++"),
        Some("+++ killed by SIGFUTURE +++"),
    ];
    let recorders = [RecorderStop::NoSignal, RecorderStop::Signal(libc::SIGINT)];
    let warning_sets = [Vec::new(), vec!["parser warning".into()]];
    let missing_sets = [Vec::new(), vec!["2".into()]];
    let trace_errors = [None, Some("trace read failed")];

    for root in roots {
        for recorder in recorders {
            for warnings in &warning_sets {
                for missing in &missing_sets {
                    for trace_error in trace_errors {
                        let decision = reduce_capture(
                            root,
                            missing,
                            CollectorFacts::Reaped(ProcessExit::Unknown),
                            recorder,
                            None,
                            warnings.clone(),
                            trace_error.map(str::to_owned),
                        );
                        assert_eq!(decision.target_exit_raw.as_deref(), root);
                        assert_eq!(
                            decision.collector,
                            CollectorFacts::Reaped(ProcessExit::Unknown)
                        );
                        assert!(decision.warnings.iter().any(|warning| {
                            warning == "collector status does not confirm target completion"
                        }));
                        match recorder {
                            RecorderStop::NoSignal => {
                                assert_eq!(decision.state, CaptureState::CaptureFailed);
                                assert_eq!(decision.cli_exit, 125);
                            }
                            RecorderStop::Signal(signal) => {
                                assert_eq!(decision.state, CaptureState::Interrupted);
                                assert_eq!(decision.cli_exit, 128 + signal);
                            }
                        }
                        assert_eq!(decision.completeness, CaptureCompleteness::Incomplete);
                    }
                }
            }
        }
    }
}

#[test]
fn normal_facts_have_the_frozen_decision() {
    let decision = reduce_capture(
        Some("+++ exited with 0 +++"),
        &vec![],
        CollectorFacts::Reaped(ProcessExit::Exited(0)),
        RecorderStop::NoSignal,
        None,
        vec![],
        None,
    );
    assert_eq!(
        decision,
        CaptureDecision {
            target: Some(ProcessExit::Exited(0)),
            target_exit_raw: Some("+++ exited with 0 +++".into()),
            collector: CollectorFacts::Reaped(ProcessExit::Exited(0)),
            recorder: RecorderStop::NoSignal,
            limits: CaptureLimitFacts::default(),
            recorder_supervision_error: None,
            state: CaptureState::Completed,
            completeness: CaptureCompleteness::CompleteForSupportedEvents,
            warnings: vec![],
            cli_exit: 0,
        }
    );
}

#[test]
fn metadata_projection_keeps_target_and_collector_fields_separate() {
    let decision = reduce_capture(
        Some("+++ killed by SIGTERM +++"),
        &vec![],
        CollectorFacts::Failed("collector wait failed".into()),
        RecorderStop::NoSignal,
        None,
        vec![],
        None,
    );
    let mut metadata = Metadata {
        schema_version: 3,
        tool_version: "test".into(),
        id: "id".into(),
        name: "name".into(),
        command: vec![],
        cwd: "/".into(),
        started: 0,
        ended: Some(1),
        backend: "test".into(),
        state: "running".into(),
        exit_code: Some(99),
        signal: None,
        warnings: vec![],
        parsed_events: 0,
        raw_lines: 0,
        environment: None,
        completeness: Some("pending".into()),
        collector_exit_code: Some(99),
        collector_signal: Some(99),
        target_exit_raw: None,
    };

    decision.apply_to_metadata(&mut metadata);

    assert_eq!(
        (metadata.exit_code, metadata.signal),
        (None, Some(libc::SIGTERM))
    );
    assert_eq!(
        (metadata.collector_exit_code, metadata.collector_signal),
        (None, None)
    );
    assert_eq!(
        metadata.target_exit_raw.as_deref(),
        Some("+++ killed by SIGTERM +++")
    );
    assert_eq!(metadata.state, "capture_failed");
    assert_eq!(metadata.completeness.as_deref(), Some("incomplete"));
    assert_eq!(metadata.warnings, ["collector wait failed"]);
}

#[test]
fn unknown_signal_and_missing_root_keep_distinct_semantics() {
    let unknown = reduce_capture(
        Some("+++ killed by SIGFUTURE +++"),
        &vec![],
        CollectorFacts::Reaped(ProcessExit::Exited(9)),
        RecorderStop::NoSignal,
        None,
        vec![],
        None,
    );
    assert_eq!(unknown.target, Some(ProcessExit::Unknown));
    assert_eq!(unknown.state, CaptureState::Completed);
    assert_eq!(unknown.completeness, CaptureCompleteness::Partial);
    assert_eq!(unknown.cli_exit, 9);
    assert_eq!(unknown.warnings, ["unrecognized target termination signal"]);

    let missing = reduce_capture(
        None,
        &vec![],
        CollectorFacts::Reaped(ProcessExit::Exited(0)),
        RecorderStop::NoSignal,
        None,
        vec![],
        None,
    );
    assert_eq!(missing.target, None);
    assert_eq!(missing.state, CaptureState::CaptureFailed);
    assert_eq!(missing.completeness, CaptureCompleteness::Incomplete);
    assert_eq!(missing.cli_exit, 125);
    assert_eq!(
        missing.warnings,
        ["root process completion not observed; capture incomplete"]
    );
}

#[test]
fn missing_generation_is_partial_without_changing_target_success() {
    let decision = reduce_capture(
        Some("+++ exited with 0 +++"),
        &vec!["21#2".into()],
        CollectorFacts::Reaped(ProcessExit::Exited(0)),
        RecorderStop::NoSignal,
        None,
        vec![],
        None,
    );
    assert_eq!(decision.state, CaptureState::Completed);
    assert_eq!(decision.completeness, CaptureCompleteness::Partial);
    assert_eq!(decision.cli_exit, 0);
    assert_eq!(
        decision.warnings,
        ["process completion not observed for PIDs: 21#2"]
    );
}

#[test]
fn raw_read_error_and_missing_root_fail_with_ordered_warnings() {
    let decision = reduce_capture(
        None,
        &vec![],
        CollectorFacts::Reaped(ProcessExit::Exited(0)),
        RecorderStop::NoSignal,
        None,
        vec!["parser warning".into()],
        Some("trace read failed".into()),
    );
    assert_eq!(decision.state, CaptureState::CaptureFailed);
    assert_eq!(decision.completeness, CaptureCompleteness::Incomplete);
    assert_eq!(decision.cli_exit, 125);
    assert_eq!(
        decision.warnings,
        [
            "parser warning",
            "cannot read trace: trace read failed",
            "root process completion not observed; capture incomplete",
        ]
    );
}

#[test]
fn signal_facts_are_not_replaced_by_numeric_cli_equivalence() {
    let decision = reduce_capture(
        Some("+++ exited with 143 +++"),
        &vec![],
        CollectorFacts::Reaped(ProcessExit::Signaled(libc::SIGTERM)),
        RecorderStop::NoSignal,
        None,
        vec![],
        None,
    );
    assert_eq!(decision.target, Some(ProcessExit::Exited(143)));
    assert_eq!(
        decision.collector,
        CollectorFacts::Reaped(ProcessExit::Signaled(libc::SIGTERM))
    );
    assert_eq!(decision.state, CaptureState::CaptureFailed);
    assert_eq!(decision.cli_exit, 125);
    assert_eq!(
        decision.warnings,
        ["collector status does not confirm target completion"]
    );
}

#[test]
fn recorder_signal_is_independent_of_target_and_collector() {
    let decision = reduce_capture(
        Some("+++ exited with 7 +++"),
        &vec![],
        CollectorFacts::Reaped(ProcessExit::Exited(7)),
        RecorderStop::Signal(libc::SIGINT),
        None,
        vec![],
        None,
    );
    assert_eq!(decision.target, Some(ProcessExit::Exited(7)));
    assert_eq!(
        decision.collector,
        CollectorFacts::Reaped(ProcessExit::Exited(7))
    );
    assert_eq!(decision.recorder, RecorderStop::Signal(libc::SIGINT));
    assert_eq!(decision.state, CaptureState::Interrupted);
    assert_eq!(decision.completeness, CaptureCompleteness::Incomplete);
    assert_eq!(decision.cli_exit, 128 + libc::SIGINT);
}

#[test]
fn collector_failure_preserves_independent_target_facts() {
    let decision = reduce_capture(
        Some("+++ killed by SIGTERM +++"),
        &vec!["2".into()],
        CollectorFacts::Failed("collector wait failed".into()),
        RecorderStop::NoSignal,
        None,
        vec!["parser warning".into()],
        Some("trace read failed".into()),
    );
    assert_eq!(decision.target, Some(ProcessExit::Signaled(libc::SIGTERM)));
    assert_eq!(
        decision.target_exit_raw.as_deref(),
        Some("+++ killed by SIGTERM +++")
    );
    assert_eq!(
        decision.collector,
        CollectorFacts::Failed("collector wait failed".into())
    );
    assert_eq!(decision.state, CaptureState::CaptureFailed);
    assert_eq!(decision.completeness, CaptureCompleteness::Incomplete);
    assert_eq!(decision.cli_exit, 125);
    assert_eq!(
        decision.warnings,
        [
            "parser warning",
            "cannot read trace: trace read failed",
            "process completion not observed for PIDs: 2",
            "collector wait failed",
        ]
    );
}

#[test]
fn collector_failure_without_root_never_invents_target_facts() {
    let decision = reduce_capture(
        None,
        &vec![],
        CollectorFacts::Failed("collector wait failed".into()),
        RecorderStop::NoSignal,
        None,
        vec![],
        None,
    );
    assert_eq!(decision.target, None);
    assert_eq!(decision.target_exit_raw, None);
    assert_eq!(decision.state, CaptureState::CaptureFailed);
    assert_eq!(decision.completeness, CaptureCompleteness::Incomplete);
    assert_eq!(decision.cli_exit, 125);
    assert_eq!(
        decision.warnings,
        [
            "root process completion not observed; capture incomplete",
            "collector wait failed",
        ]
    );
}

#[test]
fn recorder_signal_has_precedence_over_collector_failure() {
    let decision = reduce_capture(
        Some("+++ exited with 4 +++"),
        &vec![],
        CollectorFacts::Failed("collector wait failed".into()),
        RecorderStop::Signal(libc::SIGTERM),
        None,
        vec![],
        None,
    );
    assert_eq!(decision.target, Some(ProcessExit::Exited(4)));
    assert_eq!(decision.state, CaptureState::Interrupted);
    assert_eq!(decision.completeness, CaptureCompleteness::Incomplete);
    assert_eq!(decision.cli_exit, 128 + libc::SIGTERM);
}

#[test]
fn recorder_supervision_failure_preserves_reaped_collector_fact() {
    let decision = reduce_capture(
        Some("+++ exited with 0 +++"),
        &vec![],
        CollectorFacts::Reaped(ProcessExit::Exited(0)),
        RecorderStop::NoSignal,
        Some("recorder signal supervision failed: injected read error".into()),
        vec![],
        None,
    );
    assert_eq!(
        decision.collector,
        CollectorFacts::Reaped(ProcessExit::Exited(0))
    );
    assert_eq!(decision.state, CaptureState::CaptureFailed);
    assert_eq!(decision.completeness, CaptureCompleteness::Incomplete);
    assert_eq!(decision.cli_exit, 125);
    assert_eq!(
        decision.warnings,
        ["recorder signal supervision failed: injected read error"]
    );

    let mut metadata = Metadata {
        schema_version: 3,
        tool_version: "test".into(),
        id: "id".into(),
        name: "name".into(),
        command: vec![],
        cwd: "/".into(),
        started: 0,
        ended: Some(1),
        backend: "test".into(),
        state: "running".into(),
        exit_code: None,
        signal: None,
        warnings: vec![],
        parsed_events: 0,
        raw_lines: 0,
        environment: None,
        completeness: Some("pending".into()),
        collector_exit_code: None,
        collector_signal: None,
        target_exit_raw: None,
    };
    decision.apply_to_metadata(&mut metadata);
    assert_eq!(metadata.exit_code, Some(0));
    assert_eq!(metadata.collector_exit_code, Some(0));
    assert_eq!(metadata.state, "capture_failed");
    assert_eq!(metadata.completeness.as_deref(), Some("incomplete"));

    let interrupted = reduce_capture(
        Some("+++ exited with 0 +++"),
        &vec![],
        CollectorFacts::Reaped(ProcessExit::Exited(0)),
        RecorderStop::Signal(libc::SIGTERM),
        Some("recorder signal supervision failed: injected read error".into()),
        vec![],
        None,
    );
    assert_eq!(interrupted.state, CaptureState::Interrupted);
    assert_eq!(interrupted.cli_exit, 128 + libc::SIGTERM);
    assert_eq!(
        interrupted.collector,
        CollectorFacts::Reaped(ProcessExit::Exited(0))
    );
    assert_eq!(
        interrupted.recorder_supervision_error.as_deref(),
        Some("recorder signal supervision failed: injected read error")
    );
}

#[test]
fn cancellation_before_spawn_is_not_a_collector_failure() {
    let decision = reduce_capture(
        None,
        &vec![],
        CollectorFacts::NotStarted(
            "collector was not started because recorder cancellation was observed".into(),
        ),
        RecorderStop::Signal(libc::SIGHUP),
        None,
        vec![],
        None,
    );
    assert_eq!(decision.target, None);
    assert_eq!(decision.target_exit_raw, None);
    assert!(matches!(decision.collector, CollectorFacts::NotStarted(_)));
    assert_eq!(decision.state, CaptureState::Interrupted);
    assert_eq!(decision.completeness, CaptureCompleteness::Incomplete);
    assert_eq!(decision.cli_exit, 128 + libc::SIGHUP);
    assert_eq!(
        decision.warnings,
        [
            "root process completion not observed; capture incomplete",
            "collector was not started because recorder cancellation was observed",
        ]
    );
}

#[test]
fn capture_limit_priority_is_signal_then_limit_then_process_facts() {
    let duration = 17 * NANOS_PER_MILLI;
    let limits = CaptureLimitFacts {
        duration: Some(duration),
        trace_bytes: Some(TraceBytesLimitFact {
            observed: 33,
            limit: 32,
        }),
    };
    let limited = reduce_capture_facts(CaptureFactsInput {
        root_outcome: Some("+++ exited with 0 +++"),
        missing_generations: &vec![],
        collector: CollectorFacts::Reaped(ProcessExit::Exited(0)),
        recorder: RecorderStop::NoSignal,
        limits,
        recorder_supervision_error: None,
        warnings: vec![],
        trace_read_error: None,
    });
    assert_eq!(limited.target, Some(ProcessExit::Exited(0)));
    assert_eq!(
        limited.collector,
        CollectorFacts::Reaped(ProcessExit::Exited(0))
    );
    assert_eq!(limited.state, CaptureState::CaptureFailed);
    assert_eq!(limited.completeness, CaptureCompleteness::Incomplete);
    assert_eq!(limited.cli_exit, 125);
    assert_eq!(
        limited.warnings,
        [
            "capture duration limit exceeded (limit: 17 ms)",
            "capture trace byte limit exceeded (observed: 33 bytes, limit: 32 bytes)",
        ]
    );

    let interrupted = reduce_capture_facts(CaptureFactsInput {
        root_outcome: Some("+++ exited with 0 +++"),
        missing_generations: &vec![],
        collector: CollectorFacts::Failed("collector wait failed".into()),
        recorder: RecorderStop::Signal(libc::SIGTERM),
        limits,
        recorder_supervision_error: None,
        warnings: vec![],
        trace_read_error: None,
    });
    assert_eq!(interrupted.state, CaptureState::Interrupted);
    assert_eq!(interrupted.completeness, CaptureCompleteness::Incomplete);
    assert_eq!(interrupted.cli_exit, 128 + libc::SIGTERM);
    assert!(
        interrupted
            .warnings
            .iter()
            .any(|warning| warning.contains("duration limit"))
    );
    assert!(
        interrupted
            .warnings
            .iter()
            .any(|warning| warning.contains("trace byte limit"))
    );
    assert!(
        interrupted
            .warnings
            .iter()
            .any(|warning| warning == "collector wait failed")
    );
}

#[test]
fn trace_byte_limit_is_strictly_greater_than_the_soft_bound() {
    let mut facts = CaptureLimitFacts::default();
    assert!(!facts.observe_trace_bytes(8, 8));
    assert_eq!(facts.trace_bytes, None);
    assert!(facts.observe_trace_bytes(9, 8));
    assert_eq!(
        facts.trace_bytes,
        Some(TraceBytesLimitFact {
            observed: 9,
            limit: 8
        })
    );
    assert!(!facts.observe_trace_bytes(12, 8));
    assert_eq!(facts.trace_bytes.unwrap().observed, 12);
}

#[test]
fn unrepresentable_monotonic_deadlines_fail_before_spawn() {
    let limits = CaptureLimits {
        max_duration: Some(u128::from(u64::MAX) * 1_000_000_000 + 999_999_999),
        ..CaptureLimits::default()
    };
    let error = CaptureSchedule::before_spawn(limits, 0)
        .expect_err("the longest duration must not fit the clock");
    assert!(
        error.contains("cannot be represented by the monotonic clock"),
        "{error:#}"
    );
    let error = limits
        .validate_at(0)
        .expect_err("the policy must be refused before anything is opened");
    assert!(
        error.contains("cannot be represented by the monotonic clock"),
        "{error:#}"
    );
}


fn completion(trace: &str) -> (Parsed, Completion) {
    let parsed = parse_with_cwd(trace, "fixture", Some("/"));
    let completion = Completion::from_timeline(&parsed);
    (parsed, completion)
}

#[test]
fn completion_uses_evidence_order_and_accepts_fresh_generations() {
    let (parsed, actual) = completion("20 execve(\"/root\", [], 0 <unfinished ...>\n\
        3 execve(\"/later\", [], 0) = 0\n\
        20 <... execve resumed>) = 0\n\
        20 +++ exited with 7 +++\n\
        3 +++ exited with 0 +++\n");
    let root = &parsed.events[actual.root_exit.expect("root exit")];
    assert_eq!(
        (&root.pid, root.outcome.as_str()),
        (&"20".to_owned(), "+++ exited with 7 +++")
    );
    assert!(actual.missing_exits.is_empty());
    assert!(
        parsed
            .warnings
            .iter()
            .any(|warning| warning.contains("Unintroduced"))
    );

    let (parsed, actual) = completion("20 execve(\"/root\", [], 0) = 0\n\
        20 clone(flags=SIGCHLD <unfinished ...>\n\
        3 execve(\"/child\", [], 0) = 0\n\
        20 <... clone resumed>) = 3\n\
        3 +++ exited with 0 +++\n\
        20 clone(flags=SIGCHLD) = 3\n\
        3 +++ exited with 0 +++\n\
        20 +++ exited with 0 +++\n");
    assert!(actual.root_exit.is_some());
    assert!(actual.missing_exits.is_empty());
    assert!(parsed.warnings.is_empty(), "{:?}", parsed.warnings);
}

#[test]
fn completion_never_borrows_an_exit_across_generations() {
    struct Case {
        name: &'static str,
        trace: &'static str,
        root_outcome: Option<&'static str>,
        missing: &'static [&'static str],
        identity_warning: Option<&'static str>,
    }
    let cases = [
        Case {
            name: "fresh reused child is independently missing",
            trace: "20 execve(\"/root\", [], 0) = 0\n\
                20 fork() = 2\n\
                2 +++ exited with 0 +++\n\
                20 fork() = 2\n\
                20 +++ exited with 0 +++\n",
            root_outcome: Some("+++ exited with 0 +++"),
            missing: &["2#2"],
            identity_warning: None,
        },
        Case {
            name: "live collision leaves the displaced generation missing",
            trace: "20 execve(\"/root\", [], 0) = 0\n\
                20 fork() = 2\n\
                20 fork() = 2\n\
                2 +++ exited with 0 +++\n\
                20 +++ exited with 0 +++\n",
            root_outcome: Some("+++ exited with 0 +++"),
            missing: &["2#1"],
            identity_warning: Some("LiveCollision"),
        },
        Case {
            name: "exit before exec belongs to the previous generation",
            trace: "20 +++ exited with 0 +++\n\
                20 execve(\"/root\", [], 0) = 0\n",
            root_outcome: None,
            missing: &["20#2"],
            identity_warning: Some("Reappeared"),
        },
        Case {
            name: "second exit does not replace the root generation exit",
            trace: "20 execve(\"/root\", [], 0) = 0\n\
                20 +++ exited with 4 +++\n\
                20 +++ exited with 7 +++\n",
            root_outcome: Some("+++ exited with 4 +++"),
            missing: &[],
            identity_warning: Some("Reappeared"),
        },
        Case {
            name: "single generation labels preserve legacy spelling and order",
            trace: "20 execve(\"/root\", [], 0) = 0\n\
                20 fork() = 3\n\
                20 fork() = 100\n\
                20 +++ exited with 0 +++\n",
            root_outcome: Some("+++ exited with 0 +++"),
            missing: &["100", "3"],
            identity_warning: None,
        },
    ];

    for case in cases {
        let (parsed, actual) = completion(case.trace);
        assert_eq!(
            actual
                .root_exit
                .map(|index| parsed.events[index].outcome.as_str()),
            case.root_outcome,
            "{}",
            case.name
        );
        assert_eq!(actual.missing_exits, case.missing, "{}", case.name);
        assert_eq!(
            case.identity_warning.map(|needle| parsed
                .warnings
                .iter()
                .any(|warning| warning.contains(needle))),
            case.identity_warning.map(|_| true),
            "{}: {:?}",
            case.name,
            parsed.warnings
        );
    }
}

#[test]
fn unintroduced_generation_with_its_own_exit_is_complete_but_untrusted() {
    let (parsed, actual) = completion("20 execve(\"/root\", [], 0) = 0\n\
        21 open(\"/observed\", O_RDONLY) = 3\n\
        21 +++ exited with 0 +++\n\
        20 +++ exited with 0 +++\n");
    assert!(actual.root_exit.is_some());
    assert!(actual.missing_exits.is_empty());
    assert!(
        parsed
            .warnings
            .iter()
            .any(|warning| warning.contains("Unintroduced"))
    );
}
