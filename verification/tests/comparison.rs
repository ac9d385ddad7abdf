//! Comparison of two runs.
use rundelta::diff::{compare, evaluate, RankClass};
use rundelta::model::{
    LoadOutcome, Metadata, Run, StorageIntegrity, StorageLoadFailure, StorageLoadFailureKind,
};
use rundelta::parse::trace::parse_with_cwd;
use rundelta::sorted_map::SortedMap;

fn run(raw: &str) -> Run {
    let parsed = parse_with_cwd(raw, "raw/trace.log", Some("/work"));
    assert!(parsed.warnings.is_empty(), "{:?}", parsed.warnings);
    Run {
        metadata: Metadata {
            schema_version: 3,
            tool_version: "test".into(),
            id: "test".into(),
            name: "test".into(),
            command: vec!["tool".into()],
            cwd: "/work".into(),
            started: 0,
            ended: Some(1),
            backend: "fixture".into(),
            state: "completed".into(),
            exit_code: Some(0),
            signal: None,
            warnings: vec![],
            parsed_events: parsed.events.len(),
            raw_lines: parsed.lines,
            environment: Some(SortedMap::new()),
            completeness: Some("complete_for_supported_events".into()),
            collector_exit_code: None,
            collector_signal: None,
            target_exit_raw: None,
        },
        events: parsed.events,
        storage_integrity: StorageIntegrity {
            status: "verified".into(),
            detail: String::new(),
        },
    }
}

#[test]
fn failed_exec_is_visible_and_never_called_successful_execution() {
    let l = run("");
    let r = run("2 execve(\"/tools/unavailable\", [], 0x0) = -1 ENOENT (No such file)\n");
    let report = compare(&l, &r);
    assert_eq!(report.exit_code, 1);
    let c = report
        .changes
        .iter()
        .find(|c| c.subject.contains("/tools/unavailable"))
        .unwrap();
    assert_eq!(c.category, "Execution attempt changes");
    assert_eq!(c.right, ["ENOENT"]);
    assert_eq!(c.right_evidence[0].line, 1);
}
#[test]
fn stable_input_failure_precedes_probes_and_downstream_exec() {
    let l = run(
        "1 open(\"/z/settings.ini\", O_RDONLY) = 3\n1 access(\"/a/probe\", F_OK) = -1 ENOENT (No file)\n1 execve(\"/a/child\", [], 0) = 0\n",
    );
    let r = run("2 open(\"/z/settings.ini\", O_RDONLY) = -1 EACCES (Denied)\n");
    let report = compare(&l, &r);
    assert!(report.changes[0].subject.contains("/z/settings.ini"));
}
#[test]
fn mixed_probe_outcomes_do_not_outrank_a_single_success_to_failure() {
    let l = run(
        "1 open(\"/a/cache\", O_RDONLY) = -1 ENOENT (No file)\n1 open(\"/a/cache\", O_RDONLY) = 3\n1 open(\"/z/input\", O_RDONLY) = 4\n",
    );
    let r = run(
        "2 open(\"/a/cache\", O_RDONLY) = -1 ENOENT (No file)\n2 open(\"/z/input\", O_RDONLY) = -1 ENOENT (No file)\n",
    );
    let report = compare(&l, &r);
    assert_eq!(report.changes.len(), 2);
    assert!(report.changes[0].subject.contains("/z/input"));
    assert_eq!(report.changes[1].left, ["ENOENT", "success"]);
    assert_eq!(
        report.changes[1].rank_key.class(),
        RankClass::OutcomeSetChange
    );
}
#[test]
fn failed_then_successful_exec_is_an_attempt_change_not_disappearance() {
    let l = run("1 execve(\"/tool\", [], 0) = 0\n");
    let r = run(
        "2 execve(\"/tool\", [], 0) = -1 EACCES (Denied)\n2 execve(\"/tool\", [], 0) = 0\n",
    );
    let report = compare(&l, &r);
    assert_eq!(report.changes[0].category, "Execution attempt changes");
    assert_eq!(report.changes[0].right, ["EACCES", "success"]);
}

#[test]
fn changed_outcomes_receive_evidence_before_common_samples() {
    let l = run("1 open(\"/input\", O_RDONLY) = -1 EACCES (Denied)\n\
        1 open(\"/input\", O_RDONLY) = -1 EACCES (Denied)\n\
        1 open(\"/input\", O_RDONLY) = -1 EACCES (Denied)\n\
        1 open(\"/input\", O_RDONLY) = 3\n");
    let r = run("2 open(\"/input\", O_RDONLY) = -1 EACCES (Denied)\n\
        2 open(\"/input\", O_RDONLY) = -1 EACCES (Denied)\n\
        2 open(\"/input\", O_RDONLY) = -1 EACCES (Denied)\n\
        2 open(\"/input\", O_RDONLY) = -1 ENOENT (Missing)\n");

    let report = compare(&l, &r);
    let change = report
        .changes
        .iter()
        .find(|change| change.subject.contains("/input"))
        .unwrap();

    assert!(
        change
            .left_evidence
            .iter()
            .any(|evidence| evidence.line == 4),
        "left-only success evidence was omitted: {change:?}"
    );
    assert!(
        change
            .right_evidence
            .iter()
            .any(|evidence| evidence.line == 4),
        "right-only ENOENT evidence was omitted: {change:?}"
    );
}

#[test]
fn raw_target_outcome_is_compared_only_when_structured_status_is_unknown() {
    let mut l = run("");
    let mut r = run("");
    for (run, raw) in [
        (&mut l, "+++ killed by SIGFUTURE_A +++"),
        (&mut r, "+++ killed by SIGFUTURE_B +++"),
    ] {
        run.metadata.exit_code = None;
        run.metadata.signal = None;
        run.metadata.target_exit_raw = Some(raw.into());
        run.metadata.completeness = Some("partial".into());
        run.metadata.warnings = vec!["unrecognized target termination signal".into()];
    }

    let unknown = compare(&l, &r);
    assert_eq!(unknown.exit_code, 3);
    assert_eq!(unknown.observed_differences, Some(true));
    assert!(
        unknown
            .changes
            .iter()
            .any(|change| change.category == "Exit status")
    );

    r.metadata.target_exit_raw = l.metadata.target_exit_raw.clone();
    assert_eq!(compare(&l, &r).observed_differences, Some(false));

    l.metadata.exit_code = Some(7);
    r.metadata.exit_code = Some(7);
    r.metadata.target_exit_raw = Some("different presentation".into());
    assert_eq!(compare(&l, &r).observed_differences, Some(false));
}
#[test]
fn resumed_and_unsplit_execution_have_no_semantic_difference() {
    let l = run(
        "1 execve(\"/tool\", [], 0 <unfinished ...>\n1 <... execve resumed>)             = 0\n",
    );
    let r = run("99 execve(\"/tool\", [], 0) = 0\n");
    assert_eq!(compare(&l, &r).observed_differences, Some(false));
}

#[test]
fn neutral_load_failure_matrix_preserves_the_four_way_diff_contract() {
    for (kind, storage) in [
        (StorageLoadFailureKind::Corrupt, "corrupt"),
        (StorageLoadFailureKind::Unsupported, "unavailable"),
        (StorageLoadFailureKind::Unavailable, "unavailable"),
        (StorageLoadFailureKind::Busy, "unavailable"),
    ] {
        let report = evaluate(
            "failed-side",
            "loaded-side",
            LoadOutcome::Failed(StorageLoadFailure {
                kind,
                message: format!("{kind:?} load failure"),
            }),
            LoadOutcome::Loaded(run("")),
        );
        assert_eq!(report.exit_code, 2);
        assert_eq!(report.observed_differences, None);
        assert!(report.changes.is_empty());
        assert_eq!(report.reliability.left.capture, "unknown");
        assert_eq!(report.reliability.left.storage, storage);
        assert_eq!(report.reliability.right.storage, "verified");
        assert_eq!(report.errors, [format!("left: {kind:?} load failure")]);
    }
}

#[test]
fn loaded_unverified_and_unfinalized_evidence_remains_diff_status_three() {
    for status in ["unverified", "unfinalized"] {
        let mut left = run("");
        left.storage_integrity.status = status.into();
        left.storage_integrity.detail = format!("{status} evidence");
        let report = evaluate(
            "left",
            "right",
            LoadOutcome::Loaded(left),
            LoadOutcome::Loaded(run("")),
        );
        assert_eq!(report.exit_code, 3, "{status}");
        assert_eq!(report.observed_differences, Some(false), "{status}");
        assert!(report.errors.is_empty(), "{status}");
        assert_eq!(report.reliability.left.storage, status);
    }
}

#[test]
fn a_run_differs_from_itself_in_nothing() {
    let raw = "1 execve(\"/tool\", [\"tool\"], 0) = 0\n\
               1 open(\"/input\", O_RDONLY) = -1 ENOENT (No file)\n\
               1 open(\"/input\", O_RDONLY) = 3\n";
    let report = compare(&run(raw), &run(raw));
    assert_eq!(report.observed_differences, Some(false));
    assert_eq!(report.exit_code, 0);
    assert!(report.changes.is_empty());
}

#[test]
fn task_numbers_order_and_repetition_do_not_distinguish_runs() {
    let l = run(
        "1 open(\"/a\", O_RDONLY) = 3\n1 open(\"/b\", O_RDONLY) = -1 ENOENT (No file)\n",
    );
    let r = run(
        "7 open(\"/b\", O_RDONLY) = -1 ENOENT (No file)\n\
         7 open(\"/a\", O_RDONLY) = 5\n\
         7 open(\"/a\", O_RDONLY) = 6\n",
    );
    assert_eq!(compare(&l, &r).observed_differences, Some(false));
}

#[test]
fn samples_hold_at_most_three_coordinates() {
    let l = run("");
    let r = run(
        "1 open(\"/a\", O_RDONLY) = 3\n1 open(\"/a\", O_RDONLY) = 3\n\
         1 open(\"/a\", O_RDONLY) = 3\n1 open(\"/a\", O_RDONLY) = 3\n",
    );
    let report = compare(&l, &r);
    let change = report
        .changes
        .iter()
        .find(|change| change.subject.contains("/a"))
        .unwrap();
    assert_eq!(
        change
            .right_evidence
            .iter()
            .map(|evidence| evidence.line)
            .collect::<Vec<_>>(),
        [1, 2, 3]
    );
    assert!(change.left_evidence.is_empty());
}

#[test]
fn changes_stand_in_the_order_of_their_ranks() {
    let mut l = run(
        "1 open(\"/z/settings.ini\", O_RDONLY) = 3\n\
         1 access(\"/a/probe\", F_OK) = -1 ENOENT (No file)\n\
         1 execve(\"/a/child\", [], 0) = 0\n",
    );
    let r = run("2 open(\"/z/settings.ini\", O_RDONLY) = -1 EACCES (Denied)\n");
    l.metadata.exit_code = Some(3);
    let report = compare(&l, &r);
    assert_eq!(report.changes[0].category, "Exit status");
    let ranks = report
        .changes
        .iter()
        .map(|change| {
            (
                change.rank_key.class().index(),
                change.rank_key.comparison_order(),
            )
        })
        .collect::<Vec<_>>();
    assert!(ranks.windows(2).all(|pair| pair[0] < pair[1]), "{ranks:?}");
}

#[test]
fn a_failed_right_side_is_named_as_such() {
    let report = evaluate(
        "left",
        "right",
        LoadOutcome::Loaded(run("")),
        LoadOutcome::Failed(StorageLoadFailure {
            kind: StorageLoadFailureKind::Corrupt,
            message: "damaged".into(),
        }),
    );
    assert_eq!(report.exit_code, 2);
    assert_eq!(report.errors, ["right: damaged"]);
    assert_eq!(report.reliability.right.storage, "corrupt");
}
