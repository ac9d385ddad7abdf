//! Text for reports, lists and records.
use rundelta::diff::compare;
use rundelta::model::{
    CaptureCompleteness, CaptureState, Metadata, RecordResult, RecordSummary, Run, StorageIntegrity,
};
use rundelta::parse::trace::parse_with_cwd;
use rundelta::report::{fold_group, list_text, presented_changes, record, render, temporary_candidate};
use rundelta::sorted_map::SortedMap;

const UNSUCCESSFUL_FILE_GROUP: &str =
    "One-sided unsuccessful file accesses (not necessarily faults)";
const TEMPORARY_PATH_GROUP: &str = "Temporary-looking file paths (heuristic, not ignored)";

fn run(raw: &str) -> Run {
    let parsed = parse_with_cwd(raw, "raw/trace.log", Some("/work"));
    assert!(parsed.warnings.is_empty(), "{:?}", parsed.warnings);
    Run {
        metadata: Metadata {
            schema_version: 3,
            tool_version: "test".into(),
            id: "test".into(),
            name: "test".into(),
            command: vec!["tool".into()],
            cwd: "/work".into(),
            started: 0,
            ended: Some(1),
            backend: "fixture".into(),
            state: "completed".into(),
            exit_code: Some(0),
            signal: None,
            warnings: vec![],
            parsed_events: parsed.events.len(),
            raw_lines: parsed.lines,
            environment: Some(SortedMap::new()),
            completeness: Some("complete_for_supported_events".into()),
            collector_exit_code: None,
            collector_signal: None,
            target_exit_raw: None,
        },
        events: parsed.events,
        storage_integrity: StorageIntegrity {
            status: "verified".into(),
            detail: String::new(),
        },
    }
}

#[test]
fn typed_list_renderers_preserve_the_flat_compatibility_view() {
    let loaded = run("");
    let rows = vec![
        RecordSummary::Readable {
            metadata: Box::new(loaded.metadata),
            directory: "runs/test".into(),
            storage_integrity: loaded.storage_integrity,
        },
        RecordSummary::Unreadable {
            id: None,
            name: None,
            directory: "runs/unsafe".into(),
            storage_integrity: StorageIntegrity {
                status: "unavailable".into(),
                detail: "unsafe leaf".into(),
            },
        },
    ];

    assert_eq!(
        list_text(&rows),
        "test\ttest\truns/test\tcapture=complete_for_supported_events\tstorage=verified\t\n(no safe ID)\t(unknown label)\truns/unsafe\tcapture=unknown\tstorage=unavailable\tunsafe leaf\n"
    );
}

#[test]
fn record_summary_matches_the_existing_stderr_bytes() {
    let result = RecordResult {
        id: "abc-123".into(),
        name: "quoted \"record\"".into(),
        state: CaptureState::Completed,
        completeness: CaptureCompleteness::Partial,
        event_count: 7,
        warnings: vec!["first warning".into(), "second warning".into()],
        evidence_dir: "/var/lib/rundelta/runs/abc-123".into(),
        cli_exit: 0,
    };

    assert_eq!(
        record(&result).as_bytes(),
        b"Recorded \"quoted \\\"record\\\"\": abc-123 (completed, 7 events, 2 warnings)\nEvidence: /var/lib/rundelta/runs/abc-123\nwarning: first warning\nwarning: second warning\n"
    );
}

#[test]
fn folded_details_preserve_json_truth_evidence_and_reliability() {
    let l = run("");
    let mut raw = String::new();
    for i in 0..12 {
        raw.push_str(&format!(
            "1 access(\"/search/{i}\", F_OK) = -1 ENOENT (No file)\n"
        ));
    }
    let mut right = run(&raw);
    right.metadata.completeness = Some("partial".into());
    right.metadata.warnings.push("unknown event".into());
    let report = compare(&l, &right);
    assert_eq!(report.exit_code, 3);
    assert_eq!(report.observed_differences, Some(true));
    assert_eq!(report.changes.len(), 13);
    let text = render(&report);
    assert!(text.contains("RELIABILITY NOT ESTABLISHED"));
    assert!(text.contains("8 changes folded"));
    assert!(text.contains("Total observed changes: 13"));
    assert_eq!(presented_changes(&report).len(), 13);
    for c in &report.changes[1..] {
        assert_eq!(c.right_evidence.len(), 1);
        assert_eq!(fold_group(c), Some(UNSUCCESSFUL_FILE_GROUP));
    }
}
#[test]
fn temporary_path_failure_is_not_folded_and_errors_stay_distinct() {
    let l = run("1 open(\"/tmp/rustcABC123/key\", O_RDONLY) = 3\n");
    let r = run("2 open(\"/tmp/rustcABC123/key\", O_RDONLY) = -1 EACCES (Denied)\n");
    let report = compare(&l, &r);
    assert_eq!(fold_group(&report.changes[0]), None);
    assert!(render(&report).contains("success → EACCES"));
}

#[test]
fn temporary_candidates_are_narrow_display_hints_not_path_equivalence() {
    for path in [
        "/work/rustcAb12Z9/symbols.o",
        "/work/.tmp123abc",
        "/tmp/ccAb1234.s",
        "/repo/.git/objects/ab/tmp_obj_a12345",
    ] {
        assert!(temporary_candidate(path), "{path}");
    }
    for path in [
        "/tmp/important.conf",
        "/usr/bin/rustc",
        "/work/rustc-source/a",
        "/work/tmp_obj_a12345",
        "/tmp/ccX.s",
    ] {
        assert!(!temporary_candidate(path), "{path}");
    }
}

#[test]
fn compatibility_adapter_preserves_legacy_ranking_and_json_detail_groups() {
    let left = run("");
    let right = run("1 open(\"/tmp/ccAb1234.s\", O_RDONLY) = 3\n\
        1 open(\"/z/ordinary-input\", O_RDONLY) = 3\n");
    let report = compare(&left, &right);
    let presented = presented_changes(&report);
    assert!(presented[0].change.subject.contains("/z/ordinary-input"));
    assert_eq!(presented[0].detail_group, None);
    assert!(presented[1].change.subject.contains("/tmp/ccAb1234.s"));
    assert_eq!(presented[1].detail_group, Some(TEMPORARY_PATH_GROUP));

    let text = render(&report);
    assert!(text.find("/z/ordinary-input").unwrap() < text.find("/tmp/ccAb1234.s").unwrap());
    assert_eq!(report.exit_code, 1);
    assert_eq!(report.observed_differences, Some(true));
}

#[test]
fn folding_starts_behind_the_changes_that_are_always_shown() {
    let left = run("");
    let right = run(
        "1 open(\"/tmp/ccAb1234.s\", O_RDONLY) = 3\n\
         1 access(\"/gone\", F_OK) = -1 ENOENT (No file)\n\
         1 open(\"/kept\", O_RDONLY) = 3\n",
    );
    let report = compare(&left, &right);
    let presented = presented_changes(&report);
    assert_eq!(presented.len(), report.changes.len());
    for change in &report.changes {
        assert_eq!(
            presented
                .iter()
                .filter(|shown| std::ptr::eq(shown.change, change))
                .count(),
            1
        );
    }
    let text = render(&report);
    assert!(text.contains("Total observed changes: 3"));
    assert!(!text.contains("changes folded"));
    assert_eq!(rundelta::report::text(&report), text);
}

#[test]
fn a_run_is_shown_with_its_facts_and_timeline() {
    let mut shown = run("1 open(\"/input\", O_RDONLY) = -1 ENOENT (No file)\n");
    shown.metadata.warnings.push("careful".into());
    let text = rundelta::report::show(&shown);
    assert!(text.contains("/input"), "{text}");
    assert!(text.contains("ENOENT"), "{text}");
    assert!(text.contains("careful"), "{text}");
    assert!(text.contains("raw/trace.log:1"), "{text}");
}

#[test]
fn a_completed_record_without_warnings_is_summarized_in_two_lines() {
    let result = RecordResult {
        id: "1".into(),
        name: "n".into(),
        state: CaptureState::CaptureFailed,
        completeness: CaptureCompleteness::Incomplete,
        event_count: 0,
        warnings: vec![],
        evidence_dir: "/e".into(),
        cli_exit: 125,
    };
    assert_eq!(
        record(&result),
        "Recorded \"n\": 1 (capture_failed, 0 events, 0 warnings)\nEvidence: /e\n"
    );
}
