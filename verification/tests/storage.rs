//! Contracts, failures and checks of stored records.
use rundelta::io::{IoError, IoKind};
use rundelta::model::{
    Event, Evidence, LoadOutcome, Metadata, RecordSummary, Run, StorageIntegrity,
    StorageLoadFailureKind,
};
use rundelta::sorted_map::SortedMap;
use rundelta::store::checksum::{
    begin_read, calculate_file_check, check, checked_byte_count, crosses_mount, entry_fault,
    hex_string,
    require_regular, verified_file_check, verify, Checksum, FileCheck, FileIdentity,
};
use rundelta::store::contract::{
    check_new_record, finalized_integrity, new_record_id, reserve_record, valid_id,
    validate_metadata_contract, validate_record_name, validate_run_contract, validate_schema_tuple,
    EventFacts, Identity, SchemaTuple, StoredCompleteness, StoredState,
};
use rundelta::store::error::{
    lock_error, neutral_load_failure, required_record_file_error, storage_load_failure_kind,
    CommitFailure, CommitStage, Failure, StorageError,
};
use rundelta::store::events::{
    decode_event_line, decode_finalized, decode_metadata, metadata_name_hint, trace_line,
    EventReadMode, EventStream, EventStreamReadback, Finalized, LabelRead,
};
use rundelta::store::index::{
    deletable, entry_display, identities, is_named, load_outcome, lock_fault, read_failure, record_row, resolve, root,
    root_open_failure, runs_create_failure, runs_open_failure, safe_id, scan_order, scanned_entry,
    selected, DeleteStep, Entry, EntryOpen, LeafAction, LeafEvent, LeafPhase, OpenFailure,
    RootChoice,
};
use rundelta::store::publish::{
    beneath_component, check_finish, check_initial, check_writer, ordinary_component,
    staging_name, tmpfile_is_unsupported, tmpfile_link_is_unsupported, AtomicStaging, AtomicStep,
    EventJsonlStaging, EventReadback, FinishAction, FinishEvent, FinishPhase, InitialMetadata,
    NameSearch, SearchStep,
};
use rundelta::store::read::{
    loaded_run, LoadedRecord, MarkerBytes, MetadataBytes, ReadAction, ReadEvent, RecordReader,
};

fn metadata_fixture(id: &str) -> Metadata {
    Metadata {
        schema_version: 3,
        tool_version: "test".into(),
        id: id.into(),
        name: "test".into(),
        command: vec!["true".into()],
        cwd: "/".into(),
        started: 1,
        ended: None,
        backend: "test".into(),
        state: "running".into(),
        exit_code: None,
        signal: None,
        warnings: vec![],
        parsed_events: 0,
        raw_lines: 0,
        environment: Some(SortedMap::new()),
        completeness: Some("pending".into()),
        collector_exit_code: None,
        collector_signal: None,
        target_exit_raw: None,
    }
}

fn event_fixture(schema_version: u32) -> Event {
    Event {
        schema_version,
        pid: "1".into(),
        kind: "exit".into(),
        operation: "exit".into(),
        path: None,
        outcome: "+++ exited with 0 +++".into(),
        evidence: Evidence {
            file: "raw/trace.log".into(),
            line: 1,
            end_line: 1,
        },
        argv: None,
        child_pid: None,
        cwd_before: None,
        context_uncertain: false,
    }
}

fn completed_metadata_fixture(id: &str) -> Metadata {
    let mut metadata = metadata_fixture(id);
    metadata.state = "completed".into();
    // Wall-clock time may move backwards; ordering is not a storage invariant.
    metadata.ended = Some(0);
    metadata.exit_code = Some(0);
    metadata.collector_exit_code = Some(0);
    metadata.target_exit_raw = Some("opaque target exit spelling".into());
    metadata.completeness = Some("complete_for_supported_events".into());
    metadata.parsed_events = 1;
    metadata.raw_lines = 1;
    metadata
}

fn plain(kind: IoKind, message: &str) -> IoError {
    IoError {
        kind,
        code: None,
        message: message.to_string(),
    }
}

fn numbered(code: i32) -> IoError {
    let error = std::io::Error::from_raw_os_error(code);
    IoError {
        kind: match error.kind() {
            std::io::ErrorKind::NotFound => IoKind::NotFound,
            std::io::ErrorKind::PermissionDenied => IoKind::PermissionDenied,
            std::io::ErrorKind::AlreadyExists => IoKind::AlreadyExists,
            std::io::ErrorKind::WouldBlock => IoKind::WouldBlock,
            _ => IoKind::Other,
        },
        code: Some(code),
        message: error.to_string(),
    }
}

fn kind(error: StorageError) -> StorageLoadFailureKind {
    storage_load_failure_kind(&Failure::storage(error))
}

fn header(bytes: &[u8]) -> Result<u32, String> {
    let value: serde_json::Value = serde_json::from_slice(bytes).map_err(|e| e.to_string())?;
    value["schema_version"]
        .as_u64()
        .and_then(|version| u32::try_from(version).ok())
        .ok_or("missing field `schema_version`".to_string())
}

fn missing_field<T>() -> Result<T, String> {
    Err("missing field `id`".to_string())
}

#[test]
fn recovery_accepts_only_generated_id_shape() {
    for id in ["18d6e85e2b868e79-24369", "abc-1"] {
        assert!(valid_id(id));
    }
    for id in [
        "../abc-1",
        "/abc-1",
        "abc-1/child",
        "abc-0",
        "abc--1",
        "not-a-run-id",
        "",
        "abc-999999999999999",
        "abc-1\n",
    ] {
        assert!(!valid_id(id), "{id:?}");
    }
}

#[test]
fn current_contract_accepts_each_real_writer_state_and_opaque_raw_outcomes() {
    let event = event_fixture(2);
    let running = metadata_fixture("abc-1");
    validate_metadata_contract(&running).unwrap();

    let completed = completed_metadata_fixture("abc-1");
    validate_run_contract(&completed, std::slice::from_ref(&event), true).unwrap();

    let mut partial = completed.clone();
    partial.exit_code = None;
    partial.completeness = Some("partial".into());
    partial.target_exit_raw = Some("+++ killed by SIG_FUTURE +++".into());
    partial.warnings = vec!["unrecognized target termination signal".into()];
    validate_run_contract(&partial, std::slice::from_ref(&event), true).unwrap();

    let mut failed = completed.clone();
    failed.state = "capture_failed".into();
    failed.completeness = Some("incomplete".into());
    failed.warnings = vec!["collector status does not confirm target completion".into()];
    validate_run_contract(&failed, std::slice::from_ref(&event), true).unwrap();

    let mut interrupted = completed;
    interrupted.state = "interrupted".into();
    interrupted.completeness = Some("incomplete".into());
    validate_run_contract(&interrupted, &[event], true).unwrap();
}

#[test]
fn metadata_contract_rejects_outcome_state_and_writer_fact_contradictions() {
    let completed = completed_metadata_fixture("abc-1");
    let mut cases = Vec::new();

    let mut target_both = completed.clone();
    target_both.signal = Some(9);
    cases.push(("target outcome", target_both));

    let mut collector_both = completed.clone();
    collector_both.collector_signal = Some(9);
    cases.push(("collector outcome", collector_both));

    let mut running_ended = metadata_fixture("abc-1");
    running_ended.ended = Some(2);
    cases.push(("running ended", running_ended));

    let mut running_pending = metadata_fixture("abc-1");
    running_pending.completeness = Some("partial".into());
    cases.push(("running completeness", running_pending));

    let mut running_outcome = metadata_fixture("abc-1");
    running_outcome.exit_code = Some(0);
    running_outcome.target_exit_raw = Some("opaque".into());
    cases.push(("running outcome", running_outcome));

    let mut completed_pending = completed.clone();
    completed_pending.completeness = Some("pending".into());
    cases.push(("completed completeness", completed_pending));

    let mut completed_without_end = completed.clone();
    completed_without_end.ended = None;
    cases.push(("completed end", completed_without_end));

    let mut structured_without_raw = completed.clone();
    structured_without_raw.target_exit_raw = None;
    cases.push(("structured target without raw", structured_without_raw));

    let mut complete_with_warning = completed.clone();
    complete_with_warning.warnings.push("limitation".into());
    cases.push(("complete warning", complete_with_warning));

    let mut complete_without_target = completed.clone();
    complete_without_target.exit_code = None;
    complete_without_target.target_exit_raw = Some("opaque unknown".into());
    cases.push(("complete target confirmation", complete_without_target));

    let mut complete_mismatch = completed.clone();
    complete_mismatch.collector_exit_code = Some(7);
    cases.push(("complete collector confirmation", complete_mismatch));

    let mut partial_without_limitation = completed.clone();
    partial_without_limitation.completeness = Some("partial".into());
    cases.push(("partial limitation", partial_without_limitation));

    let mut partial_without_raw = completed.clone();
    partial_without_raw.completeness = Some("partial".into());
    partial_without_raw.warnings = vec!["unknown target outcome".into()];
    partial_without_raw.exit_code = None;
    partial_without_raw.target_exit_raw = None;
    cases.push(("partial raw target", partial_without_raw));

    let mut partial_without_collector = completed.clone();
    partial_without_collector.completeness = Some("partial".into());
    partial_without_collector.warnings = vec!["unknown target outcome".into()];
    partial_without_collector.exit_code = None;
    partial_without_collector.collector_exit_code = None;
    cases.push(("partial collector outcome", partial_without_collector));

    let mut failed_complete = completed.clone();
    failed_complete.state = "capture_failed".into();
    failed_complete.warnings = vec!["failure".into()];
    cases.push(("failed completeness", failed_complete));

    let mut failed_without_warning = completed.clone();
    failed_without_warning.state = "capture_failed".into();
    failed_without_warning.completeness = Some("incomplete".into());
    cases.push(("failed warning", failed_without_warning));

    let mut interrupted_complete = completed.clone();
    interrupted_complete.state = "interrupted".into();
    cases.push(("interrupted completeness", interrupted_complete));

    let mut empty_command = completed.clone();
    empty_command.command.clear();
    cases.push(("empty command", empty_command));

    let mut bad_name = completed.clone();
    bad_name.name = "bad\nname".into();
    cases.push(("bad name", bad_name));

    let mut bad_environment = completed.clone();
    bad_environment
        .environment
        .as_mut()
        .unwrap()
        .insert("BAD=KEY".into(), None);
    cases.push(("bad environment", bad_environment));

    let mut unknown_state = completed;
    unknown_state.state = "future_state".into();
    cases.push(("unknown state", unknown_state));

    let mut unknown_completeness = completed_metadata_fixture("abc-1");
    unknown_completeness.completeness = Some("future_completeness".into());
    cases.push(("unknown completeness", unknown_completeness));

    for (label, metadata) in cases {
        assert!(
            validate_metadata_contract(&metadata).is_err(),
            "{label} must fail closed"
        );
    }
}

#[test]
fn run_contract_rejects_count_coordinate_and_completeness_contradictions() {
    let metadata = completed_metadata_fixture("abc-1");
    let event = event_fixture(2);

    let mut wrong_count = metadata.clone();
    wrong_count.parsed_events = 2;
    assert!(validate_run_contract(&wrong_count, std::slice::from_ref(&event), true).is_err());

    for (label, line, end_line, raw_lines) in [
        ("zero line", 0, 1, 1),
        ("reversed range", 2, 1, 2),
        ("past raw trace", 1, 2, 1),
    ] {
        let mut invalid = event.clone();
        invalid.evidence.line = line;
        invalid.evidence.end_line = end_line;
        let mut metadata = metadata.clone();
        metadata.raw_lines = raw_lines;
        assert!(
            validate_run_contract(&metadata, &[invalid], true).is_err(),
            "{label} must fail closed"
        );
    }

    let mut uncertain = event;
    uncertain.context_uncertain = true;
    assert!(validate_run_contract(&metadata, &[uncertain], true).is_err());
}

#[test]
fn legacy_contract_checks_only_objective_outcome_count_and_coordinates() {
    let mut legacy = completed_metadata_fixture("abc-1");
    legacy.schema_version = 1;
    legacy.environment = None;
    legacy.completeness = None;
    legacy.warnings = vec!["legacy free-form warning".into()];
    let event = event_fixture(1);
    validate_run_contract(&legacy, std::slice::from_ref(&event), false).unwrap();

    let mut contradictory = legacy.clone();
    contradictory.signal = Some(9);
    assert!(validate_metadata_contract(&contradictory).is_err());

    let mut wrong_count = legacy.clone();
    wrong_count.parsed_events = 2;
    assert!(validate_run_contract(&wrong_count, std::slice::from_ref(&event), false).is_err());

    let mut invalid_evidence = event;
    invalid_evidence.evidence.end_line = 2;
    assert!(validate_run_contract(&legacy, &[invalid_evidence], false).is_err());
}

#[test]
fn future_headers_are_unsupported_before_current_dto_fields_are_decoded() {
    for error in [
        decode_metadata(header(br#"{"schema_version":999}"#), missing_field(), "abc-1")
            .unwrap_err(),
        decode_event_line(header(b"{\"schema_version\":999}\n"), missing_field(), 1).unwrap_err(),
        decode_finalized(header(br#"{"schema_version":999}"#), missing_field())
            .err()
            .expect("future marker must fail"),
    ] {
        assert_eq!(kind(error), StorageLoadFailureKind::Unsupported);
    }

    for error in [
        decode_metadata(header(br#"{"schema_version":3}"#), missing_field(), "abc-1").unwrap_err(),
        decode_event_line(header(b"{\"schema_version\":2}\n"), missing_field(), 1).unwrap_err(),
        decode_finalized(header(br#"{"schema_version":1}"#), missing_field())
            .err()
            .expect("incomplete current marker must fail"),
    ] {
        assert_eq!(kind(error), StorageLoadFailureKind::Corrupt);
    }
}

#[test]
fn unknown_current_wire_state_values_are_corrupt_after_typed_conversion() {
    for (state, completeness) in [
        ("future_state", "complete_for_supported_events"),
        ("completed", "future_completeness"),
    ] {
        let mut metadata = completed_metadata_fixture("abc-1");
        metadata.state = state.into();
        metadata.completeness = Some(completeness.into());
        let error = decode_metadata(Ok(3), Ok(metadata), "abc-1")
            .expect_err("unknown wire enum values must fail closed");
        assert_eq!(kind(error), StorageLoadFailureKind::Corrupt);
    }
}

#[test]
fn errno_mapping_reserves_busy_for_flock_contention() {
    for errno in [libc::EAGAIN, libc::EWOULDBLOCK] {
        let error = lock_error(numbered(errno));
        assert!(matches!(error, StorageError::Busy(_)));
    }
    for errno in [libc::ENOLCK, libc::EPERM, libc::EMFILE, libc::EACCES] {
        let error = lock_error(numbered(errno));
        assert!(matches!(
            error,
            StorageError::Unavailable {
                source: Some(_),
                ..
            }
        ));
    }
    let synthetic = lock_error(plain(IoKind::WouldBlock, "not an errno"));
    assert!(matches!(synthetic, StorageError::Unavailable { .. }));
}

#[test]
fn concrete_storage_errors_map_to_neutral_load_outcomes() {
    let failures: Vec<(Failure, StorageLoadFailureKind, &str)> = vec![
        (
            Failure::storage(StorageError::Corrupt("bad bytes".into())),
            StorageLoadFailureKind::Corrupt,
            "corrupt record: bad bytes",
        ),
        (
            Failure::storage(StorageError::Unsupported("future schema".into())),
            StorageLoadFailureKind::Unsupported,
            "future schema",
        ),
        (
            Failure::storage(StorageError::Unavailable {
                message: "read metadata".into(),
                source: Some(numbered(libc::EMFILE)),
            }),
            StorageLoadFailureKind::Unavailable,
            "read metadata",
        ),
        (
            Failure::storage(StorageError::Busy("storage busy".into())),
            StorageLoadFailureKind::Busy,
            "storage busy",
        ),
        (
            Failure::other("non-storage tool failure".into()),
            StorageLoadFailureKind::Unavailable,
            "non-storage tool failure",
        ),
    ];
    for (error, kind, message) in failures {
        let failure = neutral_load_failure(&error);
        assert_eq!(failure.kind, kind);
        assert!(failure.message.contains(message), "{}", failure.message);
    }

    let entries = vec![scanned_entry(
        "runs/abc-1".into(),
        Some("abc-1".into()),
        EntryOpen::Opened(Ok(Some("readable".into()))),
    )];
    let run = || Run {
        metadata: completed_metadata_fixture("abc-1"),
        events: vec![event_fixture(2)],
        storage_integrity: StorageIntegrity {
            status: "verified".into(),
            detail: String::new(),
        },
    };
    let load = |key: &str| {
        load_outcome(match resolve(&entries, key) {
            Ok(_) => Ok(run()),
            Err(error) => Err(Failure::storage(error)),
        })
    };
    assert!(matches!(load("readable"), LoadOutcome::Loaded(_)));
    match load("missing") {
        LoadOutcome::Failed(failure) => {
            assert_eq!(failure.kind, StorageLoadFailureKind::Unavailable);
            assert!(failure.message.contains("expected one safe ID/label match"));
        }
        LoadOutcome::Loaded(_) => panic!("missing record unexpectedly loaded"),
    }
}

#[test]
fn required_file_io_distinguishes_damage_from_resource_unavailability() {
    let missing = required_record_file_error(
        "metadata.json",
        plain(IoKind::NotFound, "entity not found"),
    );
    assert_eq!(
        kind(missing),
        StorageLoadFailureKind::Corrupt
    );

    for errno in [libc::EACCES, libc::EMFILE] {
        let error = required_record_file_error(
            "metadata.json",
            numbered(errno),
        );
        assert!(matches!(
            &error,
            StorageError::Unavailable {
                source: Some(_),
                ..
            }
        ));
        assert_eq!(
            kind(error),
            StorageLoadFailureKind::Unavailable
        );
    }
}

#[test]
fn only_materializing_an_unnamed_tmpfile_treats_enoent_as_fallback() {
    let error = numbered(libc::ENOENT);
    assert!(tmpfile_link_is_unsupported(&error));
    assert!(!tmpfile_is_unsupported(&error));
}

#[test]
fn trace_streaming_facade_bounds_memory_and_preserves_line_termination() {
    let large = "x".repeat(192 * 1024);
    let contents = format!("{large}\r\nunterminated");
    let lines = contents
        .as_bytes()
        .split_inclusive(|byte| *byte == b'\n')
        .map(|line| trace_line(&line.to_vec()).unwrap())
        .collect::<Vec<_>>();
    assert_eq!(lines, [format!("{large}\r\n"), "unterminated".into()]);

    let mut accepted = Vec::new();
    let mut failure = None;
    for line in b"valid\ninvalid:\xff\n".split_inclusive(|byte| *byte == b'\n') {
        match trace_line(&line.to_vec()) {
            Ok(line) => accepted.push(line),
            Err(error) => {
                failure = Some(error);
                break;
            }
        }
    }
    let error = failure.expect("each logical line must be valid UTF-8");
    assert_eq!(error.kind, IoKind::InvalidData);
    assert!(error.message.starts_with("trace line is not valid UTF-8: "));
    assert!(error.message.contains("index 8"));
    assert_eq!(accepted, ["valid\n"]);
}

#[test]
fn writer_requires_initial_metadata_before_finalization() {
    for state in [InitialMetadata::Unwritten, InitialMetadata::Failed] {
        assert!(check_writer(state, "abc-1", "test", &completed_metadata_fixture("abc-1")).is_err());
    }
    assert_eq!(
        check_writer(
            InitialMetadata::Written,
            "abc-1",
            "test",
            &completed_metadata_fixture("abc-1")
        ),
        Ok(())
    );
    assert!(check_writer(
        InitialMetadata::Written,
        "abc-2",
        "test",
        &completed_metadata_fixture("abc-1")
    )
    .is_err());
}

#[test]
fn writer_authority_is_exclusive_and_finish_consumes_it() {
    let initial = metadata_fixture("abc-1");
    assert!(check_initial(
        InitialMetadata::Unwritten,
        "abc-1",
        "test",
        &completed_metadata_fixture("abc-1")
    )
    .is_err());
    assert_eq!(
        check_initial(InitialMetadata::Unwritten, "abc-1", "test", &initial),
        Ok(())
    );
    assert!(check_initial(InitialMetadata::Failed, "abc-1", "test", &initial).is_err());
    assert!(check_initial(InitialMetadata::Written, "abc-1", "test", &initial).is_err());
    assert!(check_initial(InitialMetadata::Unwritten, "abc-1", "other", &initial).is_err());
    assert!(check_finish(&initial, &[]).is_err());
}

#[test]
fn begin_run_rejects_all_name_and_id_collision_directions() {
    let existing = vec![Identity {
        id: "abc-1".into(),
        name: "def-2".into(),
    }];
    for (name, id, expected) in [
        ("def-2", "fed-3", "record name already exists"),
        ("abc-1", "fed-3", "record name already exists"),
        ("fresh", "def-2", "record ID already exists"),
        ("fresh", "abc-1", "record ID already exists"),
    ] {
        check_new_record(name, id).unwrap();
        let error = reserve_record(name, id, &existing)
            .expect_err("all four collision directions must be rejected");
        assert!(
            error.contains(expected),
            "name={name:?} id={id:?}: {error:#}"
        );
    }
    assert_eq!(reserve_record("fresh", "fed-3", &existing), Ok(()));
}

#[test]
fn damaged_index_hints_reserve_all_name_and_id_collision_directions() {
    let hint = metadata_name_hint(LabelRead::Label(Some("feed-5".into()))).unwrap();
    let entries = vec![scanned_entry(
        "runs/dead-4".into(),
        Some("dead-4".into()),
        EntryOpen::Opened(Ok(hint)),
    )];
    let existing = identities(entries).unwrap();
    for (name, id, expected) in [
        ("feed-5", "cafe-6", "record name already exists"),
        ("dead-4", "cafe-6", "record name already exists"),
        ("fresh", "feed-5", "record ID already exists"),
        ("fresh", "dead-4", "record ID already exists"),
    ] {
        let error = reserve_record(name, id, &existing)
            .expect_err("damaged index hints must remain reserved");
        assert!(
            error.contains(expected),
            "name={name:?} id={id:?}: {error:#}"
        );
    }
}

#[test]
fn marker_run_id_contradiction_is_corrupt_not_unsupported() {
    let marker = Finalized {
        schema_version: 1,
        run_id: "other-2".into(),
        event_count: 0,
        events: check(&[]),
        metadata: check(&[]),
    };
    let (_, action) = RecordReader::new("abc-1", EventReadMode::CollectEvents).step(
        ReadEvent::Marker(Ok(MarkerBytes {
            header: Ok(1),
            body: Ok(marker),
        })),
    );
    let ReadAction::Done(Err(error)) = action else {
        panic!("another run ID must end reading");
    };
    assert!(error.message().contains("run ID"));
    assert_eq!(kind(error), StorageLoadFailureKind::Corrupt);
}

#[test]
fn only_the_current_finalized_schema_tuple_is_verified() {
    assert_eq!(
        finalized_integrity(3, &[event_fixture(2)]).unwrap().status,
        "verified"
    );
    for metadata in [1, 2] {
        for event in [1, 2] {
            assert_eq!(
                finalized_integrity(metadata, &[event_fixture(event)])
                    .unwrap()
                    .status,
                "unverified"
            );
        }
    }
    assert!(matches!(
        finalized_integrity(3, &[event_fixture(2), event_fixture(1)]),
        Err(StorageError::Corrupt(_))
    ));
    assert!(matches!(
        finalized_integrity(3, &[event_fixture(9)]),
        Err(StorageError::Unsupported(_))
    ));
    assert!(matches!(
        finalized_integrity(4, &[]),
        Err(StorageError::Unsupported(_))
    ));
    assert!(matches!(
        validate_schema_tuple(&SchemaTuple::finalized(3, EventFacts::default(), 2)),
        Err(StorageError::Unsupported(_))
    ));
}

#[test]
fn digests_are_those_of_sha256_however_the_bytes_are_split() {
    let empty = check(b"");
    assert_eq!(empty.bytes, 0);
    assert_eq!(
        empty.sha256,
        "e3b0c44298fc1c149afbf4c8996fb92427ae41e4649b934ca495991b7852b855"
    );
    assert_eq!(
        check(b"abc").sha256,
        "ba7816bf8f01cfea414140de5dae2223b00361a396177a9cb410ff61f20015ad"
    );
    let mut split = Checksum::new();
    split.update(b"a").unwrap();
    split.update(b"bc").unwrap();
    assert_eq!(split.finish(), check(b"abc"));
    assert_eq!(hex_string(&[0, 10, 255]), "000aff");
    assert!(verify(b"abc", &check(b"abc"), "f").is_ok());
    assert_eq!(
        verify(b"abd", &check(b"abc"), "f").unwrap_err().message(),
        "corrupt record: f: byte count or SHA-256 mismatch"
    );
    assert_eq!(checked_byte_count(5, 2), Ok(7));
    assert_eq!(
        checked_byte_count(u64::MAX, 1).unwrap_err().message,
        "storage file byte count exceeds u64"
    );
}

fn identity(inode: u64, length: i64) -> FileIdentity {
    FileIdentity {
        device: 7,
        inode,
        regular: true,
        length,
    }
}

#[test]
fn another_device_is_a_crossed_mount() {
    let parent = identity(1, 0);
    assert!(!crosses_mount(&parent, &identity(2, 5)));
    let elsewhere = FileIdentity {
        device: 8,
        ..identity(1, 0)
    };
    assert!(crosses_mount(&parent, &elsewhere));
    assert!(crosses_mount(&elsewhere, &parent));
}

#[test]
fn files_that_change_while_they_are_read_are_refused() {
    let read = || {
        let mut checksum = Checksum::new();
        checksum.update(b"abc").unwrap();
        checksum
    };
    let before = identity(1, 3);
    assert_eq!(begin_read(&before), Ok(3));
    assert_eq!(
        begin_read(&FileIdentity {
            regular: false,
            ..before
        })
        .unwrap_err()
        .message,
        "not a regular file"
    );
    assert_eq!(
        begin_read(&identity(1, -1)).unwrap_err().message,
        "regular file has a negative byte length"
    );
    assert_eq!(
        calculate_file_check(&before, &before, read()),
        Ok(check(b"abc"))
    );
    for after in [identity(2, 3), identity(1, 4)] {
        assert_eq!(
            calculate_file_check(&before, &after, read())
                .unwrap_err()
                .message,
            "regular file changed while checksumming"
        );
    }
    assert!(calculate_file_check(&identity(1, 2), &identity(1, 2), read()).is_err());
    let expected = check(b"abc");
    assert_eq!(
        verified_file_check(Ok(3), Ok(check(b"abc")), &expected, "f"),
        Ok(())
    );
    assert!(matches!(
        verified_file_check(Ok(4), Err(plain(IoKind::Other, "x")), &expected, "f"),
        Err(StorageError::Corrupt(_))
    ));
    assert!(matches!(
        verified_file_check(Ok(3), Err(plain(IoKind::Other, "x")), &expected, "f"),
        Err(StorageError::Unavailable { .. })
    ));
}

fn stream(lines: &[&[u8]], results: Vec<Result<Event, StorageError>>) -> EventStreamReadback {
    let mut stream = EventStream::new(EventReadMode::CollectEvents);
    let mut results = results.into_iter();
    let mut length = 0;
    for line in lines {
        length += line.len() as i64;
        if stream.take_line(&line.to_vec()).unwrap().is_some() {
            stream.decoded(results.next().unwrap());
        }
    }
    stream
        .finish(&identity(1, length), &identity(1, length))
        .unwrap()
}

#[test]
fn lexical_faults_come_before_faults_of_meaning() {
    let bad = || Err(StorageError::Corrupt("events.jsonl:1: bad".into()));
    let fault = |readback: EventStreamReadback| readback.decoded.unwrap_err().message();
    assert!(fault(stream(&[b"x\n", b"\xff\n"], vec![bad()])).contains("invalid utf-8"));
    assert_eq!(
        fault(stream(&[b"x\n", b"y"], vec![bad()])),
        "corrupt record: events.jsonl: incomplete final line"
    );
    assert_eq!(
        fault(stream(
            &[b"x\n", b"y\n"],
            vec![bad(), Err(StorageError::Corrupt("later".into()))]
        )),
        "corrupt record: events.jsonl:1: bad"
    );
}

#[test]
fn streams_keep_their_bytes_events_and_line_endings() {
    let mut stream = EventStream::new(EventReadMode::CollectEvents);
    assert_eq!(
        stream.take_line(&b"one\r\n".to_vec()),
        Ok(Some("one".into()))
    );
    stream.decoded(Ok(event_fixture(2)));
    assert_eq!(stream.take_line(&b"two\n".to_vec()), Ok(Some("two".into())));
    stream.decoded(Ok(event_fixture(1)));
    assert_eq!(stream.line_number(), 2);
    let readback = stream.finish(&identity(1, 9), &identity(1, 9)).unwrap();
    assert_eq!(readback.check, check(b"one\r\ntwo\n"));
    let decoded = readback.decoded.unwrap();
    assert_eq!(decoded.facts.count, 2);
    assert!(decoded.facts.has_non_v2);
    assert_eq!(decoded.events.unwrap().len(), 2);

    let mut unkept = EventStream::new(EventReadMode::ValidateOnly);
    unkept.take_line(&b"one\n".to_vec()).unwrap();
    unkept.decoded(Ok(event_fixture(2)));
    let readback = unkept.finish(&identity(1, 4), &identity(1, 4)).unwrap();
    assert_eq!(readback.decoded.unwrap().events, None);

    assert_eq!(
        EventStream::new(EventReadMode::ValidateOnly)
            .finish(&identity(1, 0), &identity(2, 0))
            .unwrap_err()
            .message,
        "regular file changed while streaming"
    );
}

fn marker() -> Finalized {
    Finalized {
        schema_version: 1,
        run_id: "abc-1".into(),
        event_count: 1,
        events: check(b"event\n"),
        metadata: check(b"metadata"),
    }
}

fn metadata_read(bytes: &[u8], body: Metadata) -> ReadEvent {
    ReadEvent::Metadata(Ok(MetadataBytes {
        bytes: bytes.to_vec(),
        header: Ok(body.schema_version),
        body: Ok(body),
    }))
}

fn read(events: Vec<ReadEvent>) -> ReadAction {
    let mut reader = RecordReader::new("abc-1", EventReadMode::CollectEvents);
    let mut last = ReadAction::ReadMarker;
    for event in events {
        let (next, action) = reader.step(event);
        reader = next;
        last = action;
    }
    last
}

fn marked() -> ReadEvent {
    ReadEvent::Marker(Ok(MarkerBytes {
        header: Ok(1),
        body: Ok(marker()),
    }))
}

fn unmarked() -> ReadEvent {
    ReadEvent::Marker(Err(numbered(libc::ENOENT)))
}

#[test]
fn a_finalized_record_is_verified_in_the_order_of_its_checks() {
    let action = read(vec![
        marked(),
        ReadEvent::Opened(None),
        ReadEvent::Checked(Ok(8), Ok(check(b"metadata"))),
        ReadEvent::Opened(None),
        ReadEvent::Checked(Ok(6), Ok(check(b"event\n"))),
        metadata_read(b"metadata", completed_metadata_fixture("abc-1")),
        ReadEvent::Streamed(Ok(stream(&[b"event\n"], vec![Ok(event_fixture(2))]))),
    ]);
    let ReadAction::Done(Ok(loaded)) = action else {
        panic!("a consistent record must load: {action:?}");
    };
    assert_eq!(loaded.storage_integrity.status, "verified");
    let run = loaded_run(loaded);
    assert_eq!(run.events, [event_fixture(2)]);
    assert_eq!(run.metadata.id, "abc-1");
}

/// The files of a record, and what the bytes of the last two are decoded to.
struct Files<'a> {
    marker: (&'a [u8], Result<Finalized, String>),
    metadata: (&'a [u8], Result<Metadata, String>),
    events: (&'a [u8], Vec<Result<Event, String>>),
}

impl Files<'_> {
    fn load(&self) -> Result<LoadedRecord, StorageError> {
        let (marker, decoded_marker) = &self.marker;
        let (metadata, decoded_metadata) = &self.metadata;
        let (events, decoded_events) = &self.events;
        let mut reader = RecordReader::new("abc-1", EventReadMode::CollectEvents);
        let mut action = ReadAction::ReadMarker;
        loop {
            let event = match action {
                ReadAction::ReadMarker => ReadEvent::Marker(Ok(MarkerBytes {
                    header: header(marker),
                    body: decoded_marker.as_ref().map(copy).map_err(String::clone),
                })),
                ReadAction::OpenMetadata | ReadAction::OpenEvents => ReadEvent::Opened(None),
                ReadAction::CheckMetadata => {
                    ReadEvent::Checked(Ok(metadata.len() as u64), Ok(check(metadata)))
                }
                ReadAction::CheckEvents => {
                    ReadEvent::Checked(Ok(events.len() as u64), Ok(check(events)))
                }
                ReadAction::ReadMetadata => ReadEvent::Metadata(Ok(MetadataBytes {
                    bytes: metadata.to_vec(),
                    header: header(metadata),
                    body: decoded_metadata.clone(),
                })),
                ReadAction::StreamEvents => {
                    let lines: Vec<&[u8]> = events.split_inclusive(|b| *b == b'\n').collect();
                    let results = lines
                        .iter()
                        .zip(decoded_events)
                        .enumerate()
                        .map(|(i, (line, body))| {
                            decode_event_line(header(line), body.clone(), i + 1)
                        })
                        .collect();
                    ReadEvent::Streamed(Ok(stream(&lines, results)))
                }
                ReadAction::Done(result) => return result,
            };
            (reader, action) = reader.step(event);
        }
    }

    fn failure(&self, why: &str) -> StorageError {
        self.load().err().expect(why)
    }
}

fn copy(marker: &Finalized) -> Finalized {
    Finalized {
        schema_version: marker.schema_version,
        run_id: marker.run_id.clone(),
        event_count: marker.event_count,
        events: marker.events.copy(),
        metadata: marker.metadata.copy(),
    }
}

fn marker_of(metadata: FileCheck, events: FileCheck) -> (&'static [u8], Result<Finalized, String>) {
    let marker = Finalized {
        schema_version: 1,
        run_id: "abc-1".into(),
        event_count: 1,
        events,
        metadata,
    };
    (br#"{"schema_version":1}"#, Ok(marker))
}

#[test]
fn finalized_checksums_precede_metadata_and_event_decoding() {
    let metadata_bytes: &[u8] = br#"{"schema_version":3}"#;
    let future_events: &[u8] = b"{\"schema_version\":999}\n";
    let mut files = Files {
        marker: marker_of(check(metadata_bytes), check(b"different events")),
        metadata: (metadata_bytes, Ok(completed_metadata_fixture("abc-1"))),
        events: (future_events, vec![missing_field()]),
    };
    let stale_events = files.failure("checksum mismatch must precede a future event header");
    assert!(stale_events
        .message()
        .contains("byte count or SHA-256 mismatch"));
    assert_eq!(kind(stale_events), StorageLoadFailureKind::Corrupt);

    files.marker = marker_of(check(metadata_bytes), check(future_events));
    let verified_future =
        files.failure("the future event header is visible after checksum verification");
    assert_eq!(kind(verified_future), StorageLoadFailureKind::Unsupported);

    let future_metadata: &[u8] = br#"{"schema_version":999}"#;
    files.metadata = (future_metadata, missing_field());
    files.marker = marker_of(check(b"different metadata"), check(future_events));
    let stale_metadata =
        files.failure("metadata checksum mismatch must precede its future header");
    assert!(stale_metadata
        .message()
        .contains("byte count or SHA-256 mismatch"));
    assert_eq!(kind(stale_metadata), StorageLoadFailureKind::Corrupt);

    files.marker = marker_of(check(future_metadata), check(b"different events"));
    let stale_events_before_future_metadata =
        files.failure("events checksum verification precedes future metadata decoding");
    assert!(stale_events_before_future_metadata
        .message()
        .contains("events.jsonl: byte count or SHA-256 mismatch"));

    let invalid_metadata: &[u8] = b"{\"schema_version\":3,\xff}";
    let invalid_events: &[u8] = b"\xff\n";
    files.metadata = (invalid_metadata, missing_field());
    files.events = (invalid_events, vec![missing_field()]);
    files.marker = marker_of(check(invalid_metadata), check(b"different events"));
    let stale_events_before_metadata =
        files.failure("all finalized checksums precede metadata decoding");
    assert!(stale_events_before_metadata
        .message()
        .contains("events.jsonl: byte count or SHA-256 mismatch"));

    files.marker = marker_of(check(invalid_metadata), check(invalid_events));
    let metadata_before_events =
        files.failure("metadata decoding precedes event UTF-8 decoding after verification");
    assert!(metadata_before_events.message().contains("metadata.json"));
    assert_eq!(kind(metadata_before_events), StorageLoadFailureKind::Corrupt);
}

#[test]
fn finalized_metadata_errors_precede_event_decode_but_follow_all_checksums() {
    let future_metadata: &[u8] = br#"{"schema_version":999}"#;
    let invalid_events: &[u8] = b"\xff\n";
    let error = Files {
        marker: marker_of(check(future_metadata), check(invalid_events)),
        metadata: (future_metadata, missing_field()),
        events: (invalid_events, vec![missing_field()]),
    }
    .failure("metadata schema is interpreted before event UTF-8 after verification");
    assert!(error.message().contains("unsupported metadata schema 999"));
    assert_eq!(kind(error), StorageLoadFailureKind::Unsupported);
}

#[test]
fn marker_header_and_dto_precede_run_files_and_identity_checks() {
    let mut files = Files {
        marker: (br#"{"schema_version":999}"#, missing_field()),
        metadata: (b"", missing_field()),
        events: (b"", vec![]),
    };
    let future = files.failure("future marker header precedes missing run files");
    assert_eq!(kind(future), StorageLoadFailureKind::Unsupported);

    files.marker = (br#"{"schema_version":1}"#, missing_field());
    let incomplete = files.failure("marker DTO completeness precedes missing run files");
    assert!(incomplete.message().contains("finalized.json"));
    assert_eq!(kind(incomplete), StorageLoadFailureKind::Corrupt);
}

#[test]
fn metadata_replaced_after_its_check_is_refused() {
    let action = read(vec![
        marked(),
        ReadEvent::Opened(None),
        ReadEvent::Checked(Ok(8), Ok(check(b"metadata"))),
        ReadEvent::Opened(None),
        ReadEvent::Checked(Ok(6), Ok(check(b"event\n"))),
        metadata_read(b"replaced", completed_metadata_fixture("abc-1")),
    ]);
    assert!(matches!(
        action,
        ReadAction::Done(Err(StorageError::Corrupt(ref m))) if m.starts_with("metadata.json")
    ));
}

#[test]
fn finalized_records_are_loaded_by_id_and_by_name() {
    let mut metadata = completed_metadata_fixture("abc-1");
    metadata.name = "kept".into();
    metadata.parsed_events = 2;
    metadata.raw_lines = 2;
    let mut second = event_fixture(2);
    second.pid = "2".into();
    second.evidence.line = 2;
    second.evidence.end_line = 2;
    let events = vec![event_fixture(2), second];
    let lines: [&[u8]; 2] = [b"{\"schema_version\":2}\n", b"{\"schema_version\": 2}\n"];
    let metadata_bytes: &[u8] = br#"{"schema_version":3,"name":"kept"}"#;

    let mut staging = EventJsonlStaging::begin();
    for (line, event) in lines.iter().zip(&events) {
        staging.push(line, event).unwrap();
    }
    let event_bytes = lines.concat();
    let length = event_bytes.len() as i64;
    let (phase, _) = FinishPhase::start(&metadata, &events);
    let (phase, _) = phase.step(
        &metadata,
        FinishEvent::EventsPublished(Ok((staging.summary(), CommitStage::Durable))),
    );
    let readback = EventReadback {
        open_failure: None,
        opened: Ok(identity(1, length)),
        held: Ok(identity(1, length)),
        entry: None,
        streamed: Ok(stream(&lines, events.iter().cloned().map(Ok).collect())),
        entry_after: None,
        opened_after: Ok(identity(1, length)),
        held_after: Ok(identity(1, length)),
    };
    let (phase, _) = phase.step(&metadata, FinishEvent::EventsRead(readback));
    let (phase, _) = phase.step(
        &metadata,
        FinishEvent::MetadataPublished(Ok((metadata_bytes.to_vec(), CommitStage::Durable))),
    );
    let (phase, action) =
        phase.step(&metadata, FinishEvent::MetadataRead(Ok(metadata_bytes.to_vec())));
    let FinishAction::PublishMarker(marker) = action else {
        panic!("the marker must be published");
    };
    let (_, action) = phase.step(&metadata, FinishEvent::MarkerPublished(None));
    assert!(matches!(action, FinishAction::Done(Ok(()))));

    let label = metadata_name_hint(LabelRead::Label(Some(metadata.name.clone())));
    let entries = vec![
        entry("abc-2", Some("other")),
        scanned_entry(
            "runs/abc-1".into(),
            safe_id(&b"abc-1".to_vec(), true),
            EntryOpen::Opened(label),
        ),
    ];
    for key in ["abc-1", "kept"] {
        assert_eq!(resolve(&entries, key), Ok(1));
    }
    let files = Files {
        marker: (br#"{"schema_version":1}"#, Ok(marker)),
        metadata: (metadata_bytes, Ok(metadata.clone())),
        events: (&event_bytes, events.iter().cloned().map(Ok).collect()),
    };
    let run = loaded_run(files.load().unwrap());
    assert_eq!(format!("{:?}", run.metadata), format!("{metadata:?}"));
    assert_eq!(run.events, events);
    assert_eq!(run.storage_integrity.status, "verified");
}

#[test]
fn streaming_reader_checks_count_then_cross_file_contract() {
    let with_events = |metadata: Metadata, readback: EventStreamReadback| {
        read(vec![
            marked(),
            ReadEvent::Opened(None),
            ReadEvent::Checked(Ok(8), Ok(check(b"metadata"))),
            ReadEvent::Opened(None),
            ReadEvent::Checked(Ok(6), Ok(check(b"event\n"))),
            metadata_read(b"metadata", metadata),
            ReadEvent::Streamed(Ok(readback)),
        ])
    };
    let mut miscounted = completed_metadata_fixture("abc-1");
    miscounted.parsed_events = 2;
    assert!(matches!(
        with_events(miscounted, stream(&[b"event\n"], vec![Ok(event_fixture(2))])),
        ReadAction::Done(Err(StorageError::Corrupt(ref m))) if m == "event count mismatch"
    ));
    let mut beyond = event_fixture(2);
    beyond.evidence.end_line = 9;
    assert!(matches!(
        with_events(
            completed_metadata_fixture("abc-1"),
            stream(&[b"event\n"], vec![Ok(beyond)])
        ),
        ReadAction::Done(Err(StorageError::Corrupt(ref m))) if m.starts_with("run contract")
    ));
}

#[test]
fn current_record_without_marker_never_reads_speculative_events() {
    let action = read(vec![
        unmarked(),
        ReadEvent::Opened(None),
        metadata_read(b"x", metadata_fixture("abc-1")),
    ]);
    let ReadAction::Done(Ok(loaded)) = action else {
        panic!("an unfinalized record must load");
    };
    assert_eq!(loaded.storage_integrity.status, "unfinalized");
    assert_eq!(loaded.events, Some(vec![]));
}

#[test]
fn markerless_legacy_events_still_stream_and_remain_unverified() {
    let mut legacy = completed_metadata_fixture("abc-1");
    legacy.schema_version = 1;
    let action = read(vec![
        unmarked(),
        ReadEvent::Opened(None),
        metadata_read(b"x", legacy),
        ReadEvent::Opened(None),
        ReadEvent::Streamed(Ok(stream(&[b"event\n"], vec![Ok(event_fixture(1))]))),
    ]);
    let ReadAction::Done(Ok(loaded)) = action else {
        panic!("a legacy record must load");
    };
    assert_eq!(loaded.storage_integrity.status, "unverified");
    assert_eq!(loaded.events, Some(vec![event_fixture(1)]));
}

#[test]
fn unreadable_parts_of_a_record_are_unavailable_or_damage() {
    assert!(matches!(
        read(vec![ReadEvent::Marker(Err(numbered(libc::EACCES)))]),
        ReadAction::Done(Err(StorageError::Unavailable { .. }))
    ));
    assert!(matches!(
        read(vec![
            unmarked(),
            ReadEvent::Opened(Some(numbered(libc::ENOENT)))
        ]),
        ReadAction::Done(Err(StorageError::Corrupt(_)))
    ));
    assert!(matches!(
        read(vec![
            unmarked(),
            ReadEvent::Opened(None),
            ReadEvent::Metadata(Err(numbered(libc::EIO)))
        ]),
        ReadAction::Done(Err(StorageError::Unavailable { .. }))
    ));
}

fn published() -> (EventJsonlStaging, EventReadback) {
    let mut staging = EventJsonlStaging::begin();
    staging.push(b"event\n", &event_fixture(2)).unwrap();
    let readback = EventReadback {
        open_failure: None,
        opened: Ok(identity(1, 6)),
        held: Ok(identity(1, 6)),
        entry: None,
        streamed: Ok(stream(&[b"event\n"], vec![Ok(event_fixture(2))])),
        entry_after: None,
        opened_after: Ok(identity(1, 6)),
        held_after: Ok(identity(1, 6)),
    };
    (staging, readback)
}

#[test]
fn the_marker_is_published_last_and_covers_what_was_read_back() {
    let metadata = completed_metadata_fixture("abc-1");
    let (staging, readback) = published();
    let (phase, action) = FinishPhase::start(&metadata, &[event_fixture(2)]);
    assert!(matches!(action, FinishAction::PublishEvents));
    let (phase, action) = phase.step(
        &metadata,
        FinishEvent::EventsPublished(Ok((staging.summary(), CommitStage::Durable))),
    );
    assert!(matches!(action, FinishAction::ReadBackEvents));
    let (phase, action) = phase.step(&metadata, FinishEvent::EventsRead(readback));
    assert!(matches!(action, FinishAction::PublishMetadata));
    let (phase, action) = phase.step(
        &metadata,
        FinishEvent::MetadataPublished(Ok((b"metadata".to_vec(), CommitStage::Durable))),
    );
    assert!(matches!(action, FinishAction::ReadBackMetadata));
    let (phase, action) =
        phase.step(&metadata, FinishEvent::MetadataRead(Ok(b"metadata".to_vec())));
    let FinishAction::PublishMarker(published) = action else {
        panic!("the marker must be published");
    };
    assert_eq!(published, marker());
    let (_, action) = phase.step(&metadata, FinishEvent::MarkerPublished(None));
    assert!(matches!(action, FinishAction::Done(Ok(()))));
}

#[test]
fn finalization_faults_name_the_file_the_operation_and_the_stage() {
    let metadata = completed_metadata_fixture("abc-1");
    let fault = |change: &dyn Fn(&mut EventReadback)| {
        let (staging, mut readback) = published();
        change(&mut readback);
        let (phase, _) = FinishPhase::start(&metadata, &[event_fixture(2)]);
        let (phase, _) = phase.step(
            &metadata,
            FinishEvent::EventsPublished(Ok((staging.summary(), CommitStage::Durable))),
        );
        match phase.step(&metadata, FinishEvent::EventsRead(readback)).1 {
            FinishAction::Done(Err(failure)) => failure.message(),
            action => panic!("the fault must end finalization: {action:?}"),
        }
    };
    let replaced = fault(&|readback| readback.opened = Ok(identity(2, 6)));
    assert!(
        replaced.contains("published file no longer identifies the staged regular file"),
        "{replaced}"
    );
    assert!(replaced.starts_with(
        "atomic replace of events.jsonl was durable but verify published file identity failed: "
    ));
    let swapped = fault(&|readback| readback.opened_after = Ok(identity(2, 6)));
    assert!(swapped.contains("published file identity changed during read-back"));
    let other = fault(&|readback| {
        readback.streamed = Ok(stream(&[b"evens\n"], vec![Ok(event_fixture(2))]));
    });
    assert!(other.contains("published bytes differ from the staged bytes"));
    let facts = fault(&|readback| {
        readback.streamed = Ok(stream(&[b"event\n"], vec![Ok(event_fixture(1))]));
    });
    assert!(facts.contains("published event facts differ from the staged events"));
}

#[test]
fn an_atomic_replacement_goes_through_its_steps_in_order() {
    let mut staging = AtomicStaging::begin("metadata.json").unwrap();
    for expected in [
        AtomicStep::Write,
        AtomicStep::FileSync,
        AtomicStep::Link,
        AtomicStep::Verify,
        AtomicStep::Retain,
        AtomicStep::Rename,
        AtomicStep::DirectorySync,
        AtomicStep::Published,
    ] {
        assert_eq!(staging.publish(None, false), None);
        assert_eq!(staging.step, expected);
    }
    assert!(AtomicStaging::begin("../metadata.json").is_err());
}

#[test]
fn a_failed_replacement_tells_whether_it_was_published() {
    let at = |step| AtomicStaging {
        display: "metadata.json".into(),
        step,
    };
    let mut renaming = at(AtomicStep::Rename);
    let failure = renaming
        .publish(Some(numbered(libc::EIO)), true)
        .expect("a failed rename is a failure");
    assert_eq!(failure.stage, CommitStage::BeforePublish);
    assert_eq!(failure.operation, "rename temporary file");
    let mut syncing = at(AtomicStep::DirectorySync);
    let failure = syncing
        .publish(Some(numbered(libc::EIO)), true)
        .expect("a failed sync is a failure");
    assert_eq!(failure.stage, CommitStage::PublishedDurabilityUnknown);
    let mut linking = at(AtomicStep::Link);
    assert_eq!(linking.publish(Some(numbered(libc::ENOENT)), false), None);
    assert_eq!(linking.step, AtomicStep::FallbackCreate);
    for expected in [
        AtomicStep::FallbackCopy,
        AtomicStep::FallbackFileSync,
        AtomicStep::Verify,
    ] {
        assert_eq!(linking.publish(None, true), None);
        assert_eq!(linking.step, expected);
    }
    assert_eq!(
        CommitFailure::new("f", "op", CommitStage::BeforePublish, plain(IoKind::Other, "no"))
            .message(),
        "atomic replace of f failed before publish during op: no"
    );
}

#[test]
fn names_outside_one_directory_are_refused() {
    assert_eq!(ordinary_component("metadata.json"), None);
    for name in ["", ".", "..", "a/b", "a\0b"] {
        assert_eq!(
            ordinary_component(name).map(|error| error.kind),
            Some(IoKind::InvalidInput),
            "{name:?}"
        );
    }
    assert_eq!(beneath_component(&b"raw".to_vec()), None);
    for name in [&b""[..], b".", b"..", b"a/b"] {
        assert!(beneath_component(&name.to_vec()).is_some());
    }
    assert_eq!(staging_name(&[1, 255]), ".rundelta-tmp-01ff");
    assert_eq!(
        validate_record_name("a\u{7f}"),
        Err("name must be nonempty without control characters".into())
    );
}

#[test]
fn generated_identifiers_are_recognized() {
    assert_eq!(new_record_id(0xabc, 1), "abc-1");
    assert!(valid_id(&new_record_id(u128::MAX, u32::MAX)));
    assert!(valid_id(&new_record_id(0, 1)));
    assert!(check_new_record("name", "abc-0").is_err());
}

#[test]
fn stored_spellings_read_back() {
    assert_eq!(StoredState::parse("running"), Ok(StoredState::Running));
    assert_eq!(
        StoredState::parse("capture_failed"),
        Ok(StoredState::CaptureFailed)
    );
    assert_eq!(
        StoredState::parse("paused").unwrap_err().message,
        "unknown capture state"
    );
    assert_eq!(
        StoredCompleteness::parse(Some("partial")),
        Ok(StoredCompleteness::Partial)
    );
    assert!(StoredCompleteness::parse(None).is_err());
}

fn entry(id: &str, name: Option<&str>) -> Entry {
    scanned_entry(
        format!("runs/{id}"),
        Some(id.into()),
        EntryOpen::Opened(Ok(name.map(str::to_owned))),
    )
}

#[test]
fn records_are_selected_only_when_one_entry_matches() {
    let entries = vec![
        entry("abc-1", Some("twice")),
        entry("abc-2", Some("twice")),
        entry("abc-3", None),
        entry("abc-4", Some("abc-3")),
    ];
    assert_eq!(resolve(&entries, "abc-1"), Ok(0));
    for (key, count) in [("twice", 2), ("abc-3", 2), ("none", 0)] {
        let message = resolve(&entries, key).unwrap_err().message();
        assert!(
            message.starts_with(&format!(
                "record {key:?}: expected one safe ID/label match, found {count}; "
            )),
            "{message}"
        );
    }
}

#[test]
fn entries_are_visited_in_the_order_of_their_spellings() {
    let leaves = vec![b"b".to_vec(), b"a\xff".to_vec(), b"a".to_vec()];
    let order = scan_order(&leaves);
    assert_eq!(
        order
            .iter()
            .map(|key| (key.directory.as_str(), key.position))
            .collect::<Vec<_>>(),
        [("runs/a", 2), ("runs/a\\xff", 1), ("runs/b", 0)]
    );
    assert_eq!(entry_display(&b"x y".to_vec()), "runs/x y");
    assert_eq!(safe_id(&b"abc-1".to_vec(), true).as_deref(), Some("abc-1"));
    assert_eq!(safe_id(&b"abc-1".to_vec(), false), None);
    assert_eq!(safe_id(&b"\xff-1".to_vec(), true), None);
}

#[test]
fn unsafe_and_unreadable_entries_are_isolated() {
    let unsafe_entry = scanned_entry("runs/odd".into(), None, EntryOpen::Changed);
    let message = identities(vec![unsafe_entry]).unwrap_err().message();
    assert!(message.starts_with("scan runs/odd: cannot reserve a new label: "));

    let changed = scanned_entry("runs/abc-1".into(), Some("abc-1".into()), EntryOpen::Changed);
    assert!(selected(changed)
        .unwrap_err()
        .message()
        .contains("changed while opening"));
    assert_eq!(
        selected(entry("abc-1", None)),
        Ok(("abc-1".into(), "runs/abc-1".into()))
    );
    assert_eq!(
        read_failure("runs/abc-1".into(), StorageError::Corrupt("x".into())).message(),
        "runs/abc-1: corrupt record: x"
    );

    let row = record_row(
        entry("abc-1", Some("label")),
        Err(StorageError::Corrupt("bad".into())),
    );
    let RecordSummary::Unreadable {
        id,
        name,
        storage_integrity,
        ..
    } = row
    else {
        panic!("a damaged record is an unreadable row");
    };
    assert_eq!((id.as_deref(), name.as_deref()), (Some("abc-1"), Some("label")));
    assert_eq!(storage_integrity.status, "corrupt");
    assert_eq!(storage_integrity.detail, "corrupt record: bad");

    let row = record_row(
        entry("abc-1", None),
        Ok(LoadedRecord {
            metadata: metadata_fixture("abc-1"),
            events: None,
            storage_integrity: StorageIntegrity {
                status: "verified".into(),
                detail: String::new(),
            },
        }),
    );
    assert!(matches!(row, RecordSummary::Readable { .. }));
}

#[test]
fn labels_are_hints_and_only_failed_operations_are_failures() {
    assert_eq!(
        metadata_name_hint(LabelRead::OpenFailed(numbered(libc::ENOENT))),
        Ok(None)
    );
    assert!(metadata_name_hint(LabelRead::OpenFailed(numbered(libc::EACCES))).is_err());
    assert!(metadata_name_hint(LabelRead::ReadFailed(numbered(libc::EIO))).is_err());
    assert_eq!(metadata_name_hint(LabelRead::Malformed), Ok(None));
    assert_eq!(
        metadata_name_hint(LabelRead::Label(Some("bad\n".into()))),
        Ok(None)
    );
    assert_eq!(
        metadata_name_hint(LabelRead::Label(Some("ok".into()))),
        Ok(Some("ok".into()))
    );
}

#[test]
fn storage_is_opened_created_or_refused() {
    assert!(matches!(
        root_open_failure(false, numbered(libc::ENOENT)),
        OpenFailure::Absent
    ));
    assert!(matches!(
        root_open_failure(true, numbered(libc::ELOOP)),
        OpenFailure::Fail(StorageError::Unavailable { source: None, .. })
    ));
    assert!(matches!(
        runs_open_failure(true, false, numbered(libc::ENOENT)),
        OpenFailure::Create
    ));
    assert!(matches!(
        runs_open_failure(true, true, numbered(libc::ENOENT)),
        OpenFailure::Fail(StorageError::Unavailable {
            source: Some(_),
            ..
        })
    ));
    assert_eq!(runs_create_failure(numbered(libc::EEXIST)), None);
    assert!(runs_create_failure(numbered(libc::EACCES)).is_some());
    assert_eq!(root(true, true, true), Ok(RootChoice::Explicit));
    assert_eq!(root(false, true, true), Ok(RootChoice::DataHome));
    assert_eq!(root(false, false, true), Ok(RootChoice::Home));
    assert_eq!(
        root(false, false, false),
        Err("specify --storage: HOME and XDG_DATA_HOME are unset".into())
    );
    assert_eq!(RootChoice::Home.suffix(), ".local/share/rundelta");
}

#[test]
fn a_record_is_deleted_only_while_it_is_identified() {
    let mut step = DeleteStep::Identify;
    for expected in [
        DeleteStep::RemoveContents,
        DeleteStep::IdentifyAgain,
        DeleteStep::Unlink,
        DeleteStep::Deleted,
    ] {
        step = step.step("runs/abc-1", None).unwrap();
        assert_eq!(step, expected);
    }
    assert!(DeleteStep::IdentifyAgain
        .step("runs/abc-1", Some(numbered(libc::ESTALE)))
        .unwrap_err()
        .message()
        .starts_with("unsafe record directory: runs/abc-1"));
    assert!(DeleteStep::Unlink
        .step("runs/abc-1", Some(numbered(libc::EIO)))
        .unwrap_err()
        .message()
        .starts_with("delete runs/abc-1"));
}

#[test]
fn staged_events_stream_back_to_what_was_staged() {
    let events = vec![event_fixture(2), event_fixture(2), event_fixture(2)];
    let mut staging = EventJsonlStaging::begin();
    for event in &events {
        staging.push(b"{\"schema_version\":2}\n", event).unwrap();
    }
    let staged = staging.summary();
    let lines: [&[u8]; 3] = [b"{\"schema_version\":2}\n"; 3];
    let streamed = stream(&lines, vec![Ok(event_fixture(2)), Ok(event_fixture(2)), Ok(event_fixture(2))]);
    assert_eq!(streamed.check, staged.check);
    let decoded = streamed.decoded.unwrap();
    assert_eq!(decoded.facts, staged.facts);
    assert_eq!(decoded.events, Some(events));
    assert_eq!(staged.facts.count, 3);
    assert_eq!(staged.check.bytes, 63);
}

#[test]
fn entries_are_named_by_id_or_label_and_deleted_only_when_open() {
    let labelled = entry("abc-1", Some("label"));
    assert!(is_named(&labelled, "abc-1"));
    assert!(is_named(&labelled, "label"));
    assert!(!is_named(&labelled, "runs/abc-1"));
    assert!(!is_named(&entry("abc-1", None), ""));
    assert_eq!(
        deletable(labelled),
        Ok(("abc-1".to_string(), "runs/abc-1".to_string()))
    );
    let closed = scanned_entry(
        "runs/abc-1".into(),
        Some("abc-1".into()),
        EntryOpen::OpenFailed(numbered(libc::EMFILE)),
    );
    assert_eq!(
        deletable(closed).unwrap_err().message(),
        "unsafe record directory: runs/abc-1"
    );
    let strange = scanned_entry("runs/x".into(), None, EntryOpen::Changed);
    assert_eq!(
        deletable(strange).unwrap_err().message(),
        "unsafe record directory"
    );
}

#[test]
fn a_taken_name_is_searched_past_and_other_failures_end_the_search() {
    let taken = || Some(plain(IoKind::AlreadyExists, "exists"));
    for (linking, message) in [
        (false, "could not allocate a unique random staging name"),
        (true, "could not link an anonymous file under a unique staging name"),
    ] {
        let mut search = NameSearch::new(linking);
        for _ in 1..32 {
            assert!(matches!(search.step(taken()), SearchStep::Again));
        }
        let SearchStep::Fail(error) = search.step(taken()) else {
            panic!("the search must end");
        };
        assert_eq!(error, plain(IoKind::AlreadyExists, message));
    }
    let mut search = NameSearch::new(false);
    assert!(matches!(search.step(taken()), SearchStep::Again));
    assert!(matches!(search.step(None), SearchStep::Found));
    let mut search = NameSearch::new(true);
    assert!(matches!(
        search.step(Some(numbered(libc::EPERM))),
        SearchStep::Fail(error) if error == numbered(libc::EPERM)
    ));
}

#[test]
fn only_identified_directories_are_emptied() {
    let inspect = |directory| LeafPhase::Inspecting.step(LeafEvent::Inspected(identity(1, 0), directory));
    let (phase, action) = inspect(false);
    assert!(matches!(action, LeafAction::Unlink));
    assert!(matches!(
        phase.step(LeafEvent::Succeeded).1,
        LeafAction::Finished
    ));
    let (phase, action) = inspect(true);
    assert!(matches!(action, LeafAction::Open));
    let (phase, action) = phase.step(LeafEvent::Opened(identity(1, 4)));
    assert!(matches!(action, LeafAction::Empty));
    let (phase, action) = phase.step(LeafEvent::Succeeded);
    assert!(matches!(action, LeafAction::Identify));
    let (phase, action) = phase.step(LeafEvent::Succeeded);
    assert!(matches!(action, LeafAction::RemoveDirectory));
    assert!(matches!(
        phase.step(LeafEvent::Succeeded).1,
        LeafAction::Finished
    ));
    let (phase, _) = inspect(true);
    let (_, action) = phase.step(LeafEvent::Opened(identity(2, 0)));
    let LeafAction::Fail(error) = action else {
        panic!("a swapped directory must not be entered");
    };
    assert_eq!(
        error,
        plain(IoKind::InvalidData, "directory entry changed while deleting")
    );
}

#[test]
fn entries_and_locks_are_checked_by_what_they_stand_for() {
    assert_eq!(entry_fault(&identity(1, 0), &identity(1, 5)), None);
    assert_eq!(
        entry_fault(&identity(1, 0), &identity(2, 0)),
        Some(plain(
            IoKind::InvalidData,
            "directory entry no longer names the opened directory"
        ))
    );
    let pipe = FileIdentity {
        regular: false,
        ..identity(1, 0)
    };
    assert_eq!(require_regular(&identity(1, -1)), None);
    assert_eq!(
        require_regular(&pipe),
        Some(plain(IoKind::InvalidData, "not a regular file"))
    );
    assert_eq!(lock_fault(&identity(1, 0)), None);
    assert_eq!(
        lock_fault(&pipe).unwrap().message(),
        "unsafe storage lock: .record.lock is not a regular file"
    );
}
