//! Decisions of one recording, from the request to the committed result.
use rundelta::capture::completion::trace_parser;
use rundelta::capture::facts::{CaptureLimitFacts, CollectorFacts, ProcessExit, RecorderStop};
use rundelta::capture::limits::{CaptureLimits, TraceLengthSource, CLOCK_LIMIT};
use rundelta::capture::probe::VersionProbeOutcome;
use rundelta::capture::record::{
    backend_from_version, backend_name, collector_arguments, probe_arguments, validate_request,
    with_restoration, Captured, RecordRequest, RecordSession,
};
use rundelta::capture::recording::{
    Begun, RecordAction, RecordEvent, RecordOrder, RecordPhase, Recording,
};
use rundelta::capture::supervise::CollectorSupervision;
use rundelta::model::{CaptureCompleteness, CaptureState, Metadata, RecordResult};
use rundelta::parse::timeline::Parsed;
use rundelta::sorted_map::SortedMap;
use rundelta::store::contract::{validate_metadata_contract, validate_run_contract};
use rundelta::store::publish::check_finish;

fn request() -> RecordRequest {
    let mut environment = SortedMap::new();
    environment.insert("PATH".to_string(), Some("/bin".to_string()));
    environment.insert("EMPTY".to_string(), None);
    RecordRequest {
        tool_version: "0.3.0".into(),
        id: "abc-1".into(),
        name: "name".into(),
        command: vec!["true".into()],
        cwd: "/".into(),
        started: 5,
        backend: "strace".into(),
        environment,
    }
}

fn parsed(lines: &[&str]) -> Parsed {
    let mut parser = trace_parser("/");
    for line in lines {
        parser.push_line(line);
    }
    parser.finish()
}

fn session() -> RecordSession {
    RecordSession::after_probe(VersionProbeOutcome::Completed(b"strace -- version 6\n".to_vec())).0
}

#[test]
fn requests_are_checked_before_anything_is_opened() {
    let limits = CaptureLimits::default();
    let selected = |keys: &[&str]| keys.iter().map(|key| key.to_string()).collect::<Vec<_>>();
    assert_eq!(
        validate_request("n", &selected(&["PATH"]), limits, 0),
        Ok(())
    );
    for key in ["", "A=B", "A\n"] {
        assert_eq!(
            validate_request("", &selected(&["PATH", key]), limits, 0),
            Err(
                "environment variable name must be nonempty without '=' or control characters"
                    .into()
            )
        );
    }
    for name in ["", "a\tb"] {
        assert_eq!(
            validate_request(name, &vec![], limits, 0),
            Err("name must be nonempty without control characters".into())
        );
    }
    let endless = CaptureLimits {
        max_duration: Some(CLOCK_LIMIT),
        ..limits
    };
    assert_eq!(
        validate_request("n", &vec![], endless, 1),
        Err("capture duration limit cannot be represented by the monotonic clock".into())
    );
}

#[test]
fn the_backend_is_named_by_the_first_line_of_its_version() {
    assert_eq!(backend_name("strace -- version 6.1\nmore\n"), "strace -- version 6.1");
    assert_eq!(backend_name("one\r\ntwo"), "one");
    assert_eq!(backend_name("bare"), "bare");
    assert_eq!(backend_name("\nrest"), "");
    assert_eq!(backend_name(""), "strace");
    assert_eq!(backend_from_version(&b"\xff6\n".to_vec()), "\u{fffd}6");
}

#[test]
fn the_backend_gets_its_arguments_in_order() {
    assert_eq!(probe_arguments("trace=x"), ["-e", "trace=x", "--version"]);
    assert_eq!(
        collector_arguments("trace=x"),
        [
            "-f", "-q", "-I", "2", "--kill-on-exit", "-xx", "-yy", "-s", "65535", "-e", "trace=x",
            "-o"
        ]
    );
}

#[test]
fn begun_metadata_describes_a_running_capture_and_meets_its_contract() {
    let metadata = request().metadata();
    assert_eq!(metadata.schema_version, 3);
    assert_eq!(metadata.state, "running");
    assert_eq!(metadata.completeness.as_deref(), Some("pending"));
    assert_eq!(metadata.ended, None);
    assert_eq!(validate_metadata_contract(&metadata), Ok(()));
}

#[test]
fn concluded_metadata_of_a_clean_capture_is_complete_and_meets_its_contract() {
    let concluded = session().conclude(
        request().metadata(),
        Captured {
            collector: CollectorFacts::Reaped(ProcessExit::Exited(0)),
            recorder: RecorderStop::NoSignal,
            parsed: parsed(&[
                "1 execve(\"/bin/true\", [\"true\"], 0x0) = 0\n",
                "1 +++ exited with 0 +++\n",
            ]),
            trace_read_error: None,
            ended: 9,
        },
    );
    assert_eq!(concluded.state, CaptureState::Completed);
    assert_eq!(
        concluded.completeness,
        CaptureCompleteness::CompleteForSupportedEvents
    );
    assert_eq!(concluded.cli_exit, 0);
    assert_eq!(concluded.metadata.ended, Some(9));
    assert_eq!(concluded.metadata.started, 5);
    assert_eq!(concluded.metadata.parsed_events, 2);
    assert_eq!(concluded.metadata.raw_lines, 2);
    assert_eq!(
        concluded.metadata.target_exit_raw.as_deref(),
        Some("+++ exited with 0 +++")
    );
    assert_eq!(
        validate_run_contract(&concluded.metadata, &concluded.events, true),
        Ok(())
    );
    assert_eq!(
        concluded.result("/s/runs/abc-1".into()),
        RecordResult {
            id: "abc-1".into(),
            name: "name".into(),
            state: CaptureState::Completed,
            completeness: CaptureCompleteness::CompleteForSupportedEvents,
            event_count: 2,
            warnings: vec![],
            evidence_dir: "/s/runs/abc-1".into(),
            cli_exit: 0,
        }
    );
}

#[test]
fn a_cancelled_probe_keeps_the_collector_from_starting() {
    let (session, version) =
        RecordSession::after_probe(VersionProbeOutcome::Cancelled(Some("kill failed".into())));
    assert!(version.is_empty());
    assert_eq!(
        session.not_started(),
        Some(CollectorFacts::NotStarted(
            "collector was not started because recorder cancellation was observed".into()
        ))
    );
    let concluded = session.conclude(
        request().metadata(),
        Captured {
            collector: CollectorFacts::NotStarted("not started".into()),
            recorder: RecorderStop::Signal(2),
            parsed: parsed(&[]),
            trace_read_error: None,
            ended: 9,
        },
    );
    assert_eq!(concluded.state, CaptureState::Interrupted);
    assert_eq!(concluded.cli_exit, 130);
    assert!(concluded.metadata.warnings.iter().any(|w| w == "kill failed"));
}

#[test]
fn failed_looks_and_lengths_are_kept_as_supervision_errors() {
    let mut session = session();
    assert_eq!(session.not_started(), None);
    session.observed(Ok(false));
    assert_eq!(session.not_started(), None);
    session.observed(Err("lost".into()));
    assert_eq!(
        session.not_started(),
        Some(CollectorFacts::NotStarted(
            "collector was not started because recorder signal supervision failed".into()
        ))
    );
    assert_eq!(
        session.supervision_error.as_deref(),
        Some("recorder signal supervision failed before collector spawn: lost")
    );

    let mut session = RecordSession::after_probe(VersionProbeOutcome::Completed(vec![])).0;
    assert!(!session.skips_trace());
    session.measured(8, TraceLengthSource::Fixed(8));
    assert!(!session.skips_trace());
    session.measured(8, TraceLengthSource::Fixed(9));
    assert!(session.skips_trace());

    let mut session = RecordSession::after_probe(VersionProbeOutcome::Completed(vec![])).0;
    session.measured(8, TraceLengthSource::Failed("gone".into()));
    assert!(session.skips_trace());
    session.frozen(Some("late".into()));
    assert_eq!(
        session.supervision_error.as_deref(),
        Some(
            "recorder trace length supervision failed after collector completion: inspect final \
             anchored trace length before reading raw evidence: gone; additionally recorder \
             signal supervision failed: late"
        )
    );
}

#[test]
fn supervision_hands_on_its_limits_and_its_status() {
    let mut session = session();
    let limits = CaptureLimitFacts {
        duration: Some(7),
        trace_bytes: None,
    };
    let collector = session.supervised(CollectorSupervision {
        status: Err("failed waiting".into()),
        limits,
        trace_len_error: Some("unknown length".into()),
    });
    assert_eq!(collector, CollectorFacts::Failed("failed waiting".into()));
    assert_eq!(session.limits, limits);
    assert!(session.length_unavailable);
    assert_eq!(session.supervision_error.as_deref(), Some("unknown length"));
}

#[test]
fn a_failed_restoration_names_the_committed_record() {
    let result = || RecordResult {
        id: "abc-1".into(),
        name: "n".into(),
        state: CaptureState::Completed,
        completeness: CaptureCompleteness::Partial,
        event_count: 0,
        warnings: vec![],
        evidence_dir: "/e".into(),
        cli_exit: 0,
    };
    assert_eq!(with_restoration(Ok(result()), None), Ok(result()));
    assert_eq!(
        with_restoration(Ok(result()), Some("mask".into())),
        Err("record abc-1 committed but failed to restore recorder signal state: mask".into())
    );
    assert_eq!(
        with_restoration(Err("broke".into()), None),
        Err("broke".into())
    );
    assert_eq!(
        with_restoration(Err("broke".into()), Some("mask".into())),
        Err("broke; additionally failed to restore recorder signal state: mask".into())
    );
}

#[test]
fn applied_decisions_leave_the_request_untouched() {
    let before: Metadata = request().metadata();
    let concluded = session().conclude(
        request().metadata(),
        Captured {
            collector: CollectorFacts::Reaped(ProcessExit::Exited(3)),
            recorder: RecorderStop::NoSignal,
            parsed: parsed(&["1 execve(\"/x\", [], 0x0) = 0\n"]),
            trace_read_error: Some("short".into()),
            ended: 1,
        },
    );
    assert_eq!(concluded.metadata.command, before.command);
    assert_eq!(concluded.metadata.cwd, before.cwd);
    assert_eq!(concluded.metadata.backend, before.backend);
    assert_eq!(concluded.metadata.collector_exit_code, Some(3));
    assert_eq!(concluded.metadata.state, "capture_failed");
    assert!(concluded
        .metadata
        .warnings
        .iter()
        .any(|w| w == "cannot read trace: short"));
}

#[test]
fn whatever_was_traced_can_be_finalized() {
    let traces: [&[&str]; 5] = [
        &[],
        &["not a trace line\n"],
        &[
            "1 execve(\"/bin/true\", [\"true\"], 0x0) = 0\n",
            "1 +++ exited with abc +++\n",
        ],
        &[
            "1 execve(\"/bin/true\", [\"true\"], 0x0) = 0\n",
            "1 fork() = 2\n",
            "1 +++ killed by SIGWHATEVER +++\n",
        ],
        &[
            "1 execve(\"/bin/true\", [\"true\"], 0x0) = 0\n",
            "1 unshare(CLONE_NEWNS) = 0\n",
            "1 open(\"\\x78\", O_RDONLY) = 4\n",
            "1 +++ exited with 3 +++\n",
        ],
    ];
    for lines in traces {
        for collector in [
            CollectorFacts::Reaped(ProcessExit::Exited(0)),
            CollectorFacts::Failed("gone".into()),
        ] {
            let concluded = session().conclude(
                request().metadata(),
                Captured {
                    collector,
                    recorder: RecorderStop::NoSignal,
                    parsed: parsed(lines),
                    trace_read_error: None,
                    ended: 9,
                },
            );
            assert_eq!(
                check_finish(&concluded.metadata, &concluded.events),
                Ok(()),
                "{lines:?}"
            );
        }
    }
}

fn begun(max_trace_bytes: Option<u64>) -> Recording {
    let order = RecordOrder {
        tool_version: "0.3.0".into(),
        name: "name".into(),
        command: vec!["true".into()],
        environment: SortedMap::new(),
    };
    Recording::new(order, CaptureLimits::from_millis(None, max_trace_bytes, 7))
}

fn probed() -> RecordEvent {
    RecordEvent::Probed(Ok(VersionProbeOutcome::Completed(
        b"strace -- version 6\n".to_vec(),
    )))
}

fn started() -> RecordEvent {
    RecordEvent::Begun(Ok(Begun {
        id: "abc-1".into(),
        cwd: "/".into(),
        started: 5,
        evidence_dir: "/s/runs/abc-1".into(),
    }))
}

fn follow(mut recording: Recording, events: Vec<RecordEvent>) -> (Recording, RecordAction) {
    let mut action = RecordAction::Probe;
    for event in events {
        (recording, action) = recording.step(event);
    }
    (recording, action)
}

#[test]
fn a_recording_goes_from_the_probe_to_its_commitment() {
    let (recording, action) = begun(Some(100)).step(probed());
    assert!(matches!(action, RecordAction::Observe));
    let (recording, action) = recording.step(RecordEvent::Observed(Ok(false)));
    assert!(matches!(action, RecordAction::Begin));
    assert!(recording.running().is_none());
    let (recording, action) = recording.step(started());
    assert!(matches!(action, RecordAction::Describe));
    let metadata = &recording.running().unwrap().metadata;
    assert_eq!(metadata.backend, "strace -- version 6");
    assert_eq!(metadata.state, "running");
    assert_eq!((metadata.id.as_str(), metadata.started), ("abc-1", 5));
    let (recording, action) = recording.step(RecordEvent::Described(None));
    assert!(matches!(action, RecordAction::OpenTrace));
    let (recording, action) = recording.step(RecordEvent::Opened(None));
    assert!(matches!(action, RecordAction::Observe));
    let (recording, action) = recording.step(RecordEvent::Observed(Ok(false)));
    assert!(matches!(action, RecordAction::ReadClock));
    let (recording, action) = recording.step(RecordEvent::Clock(1_000));
    assert!(
        matches!(action, RecordAction::Collect(schedule) if schedule.terminate_grace == 7_000_000)
    );
    let (recording, action) = recording.step(RecordEvent::Collected(Ok(CollectorSupervision {
        status: Ok(ProcessExit::Exited(0)),
        limits: CaptureLimitFacts::default(),
        trace_len_error: None,
    })));
    assert!(matches!(action, RecordAction::Measure));
    let (recording, action) = recording.step(RecordEvent::Measured(TraceLengthSource::Fixed(80)));
    assert!(matches!(action, RecordAction::ReadTrace));
    let trace = parsed(&[
        "1 execve(\"/bin/true\", [\"true\"], 0x0) = 0\n",
        "1 +++ exited with 0 +++\n",
    ]);
    let (recording, action) = recording.step(RecordEvent::Read(trace, None));
    assert!(matches!(action, RecordAction::Freeze));
    let (recording, action) =
        recording.step(RecordEvent::Frozen(9, None, RecorderStop::NoSignal));
    assert!(matches!(action, RecordAction::Commit));
    let concluded = recording.concluded().unwrap();
    assert_eq!(concluded.metadata.state, "completed");
    assert_eq!(concluded.events.len(), 2);
    let (recording, action) = recording.step(RecordEvent::Committed(None));
    assert!(matches!(recording.phase, RecordPhase::Done));
    let RecordAction::Report(Ok(result)) = action else {
        panic!("the recording must be reported");
    };
    assert_eq!(result.evidence_dir, "/s/runs/abc-1");
    assert_eq!((result.cli_exit, result.event_count), (0, 2));
}

#[test]
fn a_stopped_recording_starts_no_collector_and_is_still_committed() {
    let events = vec![
        RecordEvent::Probed(Ok(VersionProbeOutcome::Cancelled(None))),
        started(),
        RecordEvent::Described(None),
        RecordEvent::Opened(None),
        RecordEvent::Observed(Ok(true)),
    ];
    let (recording, action) = follow(begun(None), events);
    assert!(matches!(action, RecordAction::ReadTrace));
    let (recording, _) = recording.step(RecordEvent::Read(parsed(&[]), None));
    let (recording, action) = recording.step(RecordEvent::Frozen(
        9,
        None,
        RecorderStop::Signal(libc::SIGTERM),
    ));
    assert!(matches!(action, RecordAction::Commit));
    let (_, action) = recording.step(RecordEvent::Committed(None));
    assert!(matches!(
        action,
        RecordAction::Report(Ok(result)) if result.cli_exit == 128 + libc::SIGTERM
            && result.state == CaptureState::Interrupted
    ));
}

#[test]
fn failures_of_a_recording_end_it_with_their_words() {
    let up_to = |count: usize| {
        let events = vec![
            probed(),
            RecordEvent::Observed(Ok(false)),
            started(),
            RecordEvent::Described(None),
            RecordEvent::Opened(None),
            RecordEvent::Observed(Ok(false)),
        ];
        follow(begun(None), events.into_iter().take(count).collect()).0
    };
    for (count, event) in [
        (0, RecordEvent::Probed(Err("why".into()))),
        (2, RecordEvent::Begun(Err("why".into()))),
        (3, RecordEvent::Described(Some("why".into()))),
        (4, RecordEvent::Opened(Some("why".into()))),
    ] {
        let (_, action) = up_to(count).step(event);
        assert!(matches!(action, RecordAction::Report(Err(error)) if error == "why"));
    }
    let (_, action) = up_to(6).step(RecordEvent::Clock(CLOCK_LIMIT));
    assert!(matches!(
        action,
        RecordAction::Report(Err(error)) if error
            == "capture termination grace cannot be represented by the monotonic clock"
    ));
    let (recording, action) = up_to(5).step(RecordEvent::Observed(Err("broken".into())));
    assert!(matches!(action, RecordAction::ReadTrace));
    assert_eq!(
        recording.running().unwrap().session.supervision_error.as_deref(),
        Some("recorder signal supervision failed before collector spawn: broken")
    );
}

#[test]
fn a_trace_of_unknown_or_excessive_length_is_left_unread() {
    for length in [
        TraceLengthSource::Fixed(101),
        TraceLengthSource::Failed("gone".into()),
    ] {
        let events = vec![
            probed(),
            RecordEvent::Observed(Ok(false)),
            started(),
            RecordEvent::Described(None),
            RecordEvent::Opened(None),
            RecordEvent::Observed(Ok(false)),
            RecordEvent::Clock(0),
            RecordEvent::Collected(Err("not started".into())),
            RecordEvent::Measured(length),
        ];
        let (_, action) = follow(begun(Some(100)), events);
        assert!(matches!(action, RecordAction::Freeze));
    }
}
