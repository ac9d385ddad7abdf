//! Line syntax, paths and contexts of parsed traces.
use rundelta::model::bytes;
use rundelta::parse::flags::{
    contract_name_at, trace_operation, trace_selector, InvalidationScope, TraceOperation,
    TRACE_CONTRACT_COUNT,
};
use rundelta::parse::fs::FsState;
use rundelta::parse::syntax::{annotated_path, path, unquote};
use rundelta::parse::timeline::{Parsed, TaskGenerationId};
use rundelta::parse::trace::{parse, parse_with_cwd, TraceParser};

fn assert_parsed_equivalent(expected: &Parsed, actual: &Parsed) {
    assert_eq!(format!("{:?}", expected.events), format!("{:?}", actual.events));
    assert_eq!(expected.warnings, actual.warnings);
    assert_eq!(expected.lines, actual.lines);
    let (a, b) = (&expected.timeline, &actual.timeline);
    assert_eq!(a.events_in_evidence_order(), b.events_in_evidence_order());
    for index in 0..expected.events.len() {
        assert_eq!(a.event_generation(index), b.event_generation(index));
        assert_eq!(a.spawned_generation(index), b.spawned_generation(index));
    }
    assert_eq!(a.generations(), b.generations());
    for generation in a.generations() {
        assert_eq!(a.pid(generation), b.pid(generation));
        assert_eq!(a.label(generation), b.label(generation));
        assert_eq!(a.origin(generation), b.origin(generation));
        assert_eq!(a.first_actor_event(generation), b.first_actor_event(generation));
        assert_eq!(a.exit_event(generation), b.exit_event(generation));
    }
}

#[test]
fn incremental_line_chunks_match_the_compatibility_adapter() {
    let raw = "10 execve(\"/tool\", [\"tool\"], 0x0) = 0\r\n\
        10 clone(flags=SIGCHLD <unfinished ...>\n\
        11 open(\"/child\", O_RDONLY) = 3\n\
        10 <... clone resumed>) = 11\n\
        11 +++ exited with 0 +++\n\
        10 +++ exited with 0 +++\n";
    let expected = parse_with_cwd(raw, "trace", Some("/initial"));
    let mut parser = TraceParser::new("trace", Some("/initial"));
    for line in [
        "10 execve(\"/tool\", [\"tool\"], 0x0) = 0\r\n",
        "10 clone(flags=SIGCHLD <unfinished ...>",
        "11 open(\"/child\", O_RDONLY) = 3\n",
        "10 <... clone resumed>) = 11",
        "11 +++ exited with 0 +++\n",
        "10 +++ exited with 0 +++\n",
    ] {
        parser.push_line(line);
    }
    let actual = parser.finish();

    assert_parsed_equivalent(&expected, &actual);
}

#[test]
fn incremental_empty_and_final_unterminated_inputs_match_adapter() {
    for raw in [
        "",
        "1 execve(\"/tool\", [\"tool\"], 0x0) = 0\n",
        "1 execve(\"/tool\", [\"tool\"], 0x0) = 0",
        "1 open(\"/file\", O_RDONLY <unfinished ...>",
    ] {
        let expected = parse_with_cwd(raw, "trace", Some("/initial"));
        let mut parser = TraceParser::new("trace", Some("/initial"));
        for line in raw.split_inclusive('\n') {
            parser.push_line(line);
        }
        let actual = parser.finish();
        assert_parsed_equivalent(&expected, &actual);
    }

    let parsed = parse_with_cwd("1 open(\"/file\", O_RDONLY <unfinished ...>", "trace", None);
    assert_eq!(
        parsed.warnings,
        [
            "trace: trace ends without newline; possible truncation",
            "trace:1: unfinished call at end of trace",
        ]
    );
}

#[test]
fn unfinished_resumed_lines_keep_evidence_across_pushes() {
    let raw = "1 open(\"/file\", O_RDONLY <unfinished ...>\n\
        1 --- SIGCHLD {si_signo=SIGCHLD} ---\n\
        1 <... open resumed>) = 3<\\x2f\\x66\\x69\\x6c\\x65>\n\
        1 +++ exited with 0 +++\n";
    let expected = parse_with_cwd(raw, "trace", Some("/initial"));
    let mut parser = TraceParser::new("trace", Some("/initial"));
    for line in raw.split_inclusive('\n') {
        parser.push_line(line);
    }
    let actual = parser.finish();

    assert_parsed_equivalent(&expected, &actual);
    assert_eq!(actual.events[0].evidence.line, 1);
    assert_eq!(actual.events[0].evidence.end_line, 3);
    assert_eq!(actual.events[0].path.as_deref(), Some("/file"));
}

#[test]
fn finish_applies_task_identity_backfill_after_line_decoding() {
    let mut parser = TraceParser::new("trace", Some("/initial"));
    parser.push_line("1 execve(\"/tool\", [\"tool\"], 0x0) = 0\n");
    parser.push_line("2 open(\"/observed\", O_RDONLY) = 3\n");
    parser.push_line("2 +++ exited with 0 +++\n");
    parser.push_line("1 +++ exited with 0 +++\n");
    assert!(!parser.events()[1].context_uncertain);

    let parsed = parser.finish();

    assert!(parsed.events[1].context_uncertain);
    assert!(
        parsed
            .warnings
            .iter()
            .any(|warning| warning.contains("Unintroduced"))
    );
}

#[test]
fn fixture() {
    let p = parse(
        "10 execve(\"\\x2f\\x62\\x69\\x6e\\x2f\\x78\", [\"\\x78\"], 0x0) = 0\n\
        10 open(\"/missing\", O_RDONLY) = -1 ENOENT (No such file or directory)\n\
        10 open(\"/split\", O_RDONLY <unfinished ...>\n\
        10 <... open resumed>) = 3\n\
        11 access(\"\\x2f\\x61\\x22\\x20\\xff\", R_OK) = 0\n\
        10 unsupported_call() = 0\n\
        10 +++ exited with 0 +++\n\
        not a trace line\n",
        "raw/trace.log",
    );
    assert_eq!(p.events.len(), 5);
    assert_eq!(p.events[0].path.as_deref(), Some("/bin/x"));
    assert_eq!(p.events[1].outcome, "ENOENT");
    assert_eq!(p.events[2].evidence.line, 3);
    assert_eq!(p.events[2].evidence.end_line, 4);
    assert_eq!(p.events[3].path.as_deref(), Some("/a\" \\xff"));
    assert_eq!(p.warnings.len(), 3);
    assert!(
        p.warnings
            .iter()
            .any(|warning| warning.contains("task.identity: Unintroduced"))
    );
}


#[test]
fn trace_selector_is_derived_from_the_parser_contract() {
    let expected = [
        "execve",
        "execveat",
        "open",
        "openat",
        "openat2",
        "access",
        "faccessat",
        "faccessat2",
        "chdir",
        "fchdir",
        "clone",
        "clone3",
        "fork",
        "vfork",
        "unshare",
        "setns",
        "chroot",
        "pivot_root",
        "mount",
        "umount2",
        "move_mount",
        "mount_setattr",
    ];
    let names = (0..TRACE_CONTRACT_COUNT)
        .map(contract_name_at)
        .collect::<Vec<_>>();
    assert_eq!(names, expected);
    assert_eq!(
        names
            .iter()
            .copied()
            .collect::<std::collections::BTreeSet<_>>()
            .len(),
        names.len(),
        "trace contract names must be unique"
    );
    assert_eq!(trace_selector(), format!("trace={}", expected.join(",")));
    assert!(names.iter().all(|name| trace_operation(name).is_some()));
    for name in ["mount", "umount2", "move_mount", "mount_setattr"] {
        assert_eq!(
            trace_operation(name),
            Some(TraceOperation::Invalidate(
                InvalidationScope::AllActiveContexts
            ))
        );
    }
}

#[test]
fn relative_dirfd_and_unknown_cwd() {
    let p = parse(
        "1 openat(3<\\x2f\\x64>, \"\\x78\", O_RDONLY) = 4\n1 open(\"\\x78\", O_RDONLY) = -1 EACCES (Permission denied)\n",
        "trace",
    );
    assert_eq!(p.events[0].path.as_deref(), Some("/d/x"));
    assert_eq!(p.events[1].outcome, "EACCES");
    assert_eq!(p.warnings.len(), 1);
}
#[test]
fn exec_attempt_is_not_success() {
    let p = parse(
        "1 execve(\"\\x2f\\x78\", [], 0x0) = -1 ENOENT (No such file)\n",
        "trace",
    );
    assert_eq!(p.events[0].kind, "exec");
    assert_eq!(p.events[0].outcome, "ENOENT");
}
#[test]
fn malformed_truncated_and_mismatched_calls_warn() {
    for raw in [
        "1 open(\"\\x2f\"...",
        "1 madeup() = 0\n",
        "1 <... open resumed>) = 0\n",
        "1 open( <unfinished ...>\n1 <... access resumed>) = 0\n",
        "bad execve(\"\\x2f\", [], 0) = 0\n",
    ] {
        assert!(!parse(raw, "trace").warnings.is_empty(), "{raw}");
    }
}
#[test]
fn byte_encoding_is_unambiguous() {
    assert_ne!(bytes(b"\\xff"), bytes(&[255]));
    assert_eq!(bytes(b"a\n\x1b"), "a\\x0a\\x1b");
}

#[test]
fn fork_inherits_cwd_before_parent_resume_and_failed_chdir_preserves_it() {
    let raw = "1 execve(\"\\x2f\\x70\", [\"\\x70\"], 0x0) = 0\n\
        1 chdir(\"\\x2f\\x70\\x72\\x6f\\x6a\\x65\\x63\\x74\\x2f\\x73\\x75\\x62\") = 0\n\
        1 clone(flags=SIGCHLD <unfinished ...>\n\
        2 open(\"\\x78\", O_RDONLY) = 3\n\
        1 <... clone resumed>) = 2\n\
        2 chdir(\"\\x6e\\x6f\") = -1 ENOENT (No such file)\n\
        2 access(\"\\x79\", R_OK) = 0\n\
        1 open(\"\\x7a\", O_RDONLY) = 3\n";
    let p = parse_with_cwd(raw, "trace", Some("/project"));
    // Three unresolved file operands plus the failed relative chdir's own
    // unverified operand; the failure still leaves the context unchanged.
    assert_eq!(p.warnings.len(), 4);
    assert!(
        p.events
            .iter()
            .filter(|e| e.kind == "file")
            .all(|e| e.context_uncertain && e.cwd_before.as_deref() == Some("/project/sub"))
    );
    let paths: Vec<_> = p
        .events
        .iter()
        .filter(|e| e.kind == "file")
        .map(|e| e.path.as_deref().unwrap())
        .collect();
    assert_eq!(
        paths,
        [
            "relative:x [cwd unresolved]",
            "relative:y [cwd unresolved]",
            "relative:z [cwd unresolved]"
        ]
    );
    let spawn = p.events.iter().find(|e| e.kind == "spawn").unwrap();
    assert_eq!(spawn.child_pid.as_deref(), Some("2"));
    assert_eq!(spawn.cwd_before.as_deref(), Some("/project/sub"));
}
#[test]
fn child_chdir_does_not_change_parent_and_fchdir_uses_evidence() {
    let raw = "1 fork() = 2\n\
        2 fchdir(3<\\x2f\\x64>) = 0\n\
        2 open(\"\\x78\", O_RDONLY) = 4\n\
        1 open(\"\\x78\", O_RDONLY) = 4\n";
    let p = parse_with_cwd(raw, "trace", Some("/original"));
    assert_eq!(p.warnings.len(), 2);
    assert_eq!(
        p.events[2].path.as_deref(),
        Some("relative:x [cwd unresolved]")
    );
    assert_eq!(
        p.events[3].path.as_deref(),
        Some("relative:x [cwd unresolved]")
    );
    assert_eq!(p.events[2].cwd_before.as_deref(), Some("/d"));
    assert_eq!(p.events[3].cwd_before.as_deref(), Some("/original"));
    assert!(p.events[2].context_uncertain && p.events[3].context_uncertain);
}
#[test]
fn shared_cwd_and_unknown_dirfd_never_guess() {
    let raw = "1 clone(flags=CLONE_FS|SIGCHLD) = 2\n\
        1 open(\"\\x78\", O_RDONLY) = 4\n\
        2 openat(5, \"\\x78\", O_RDONLY) = 4\n";
    let p = parse_with_cwd(raw, "trace", Some("/original"));
    assert!(p.events[1].path.as_ref().unwrap().starts_with("relative:"));
    assert!(
        p.events[2]
            .path
            .as_ref()
            .unwrap()
            .contains("dirfd unresolved")
    );
    // A proven CLONE_FS relationship is modeled per context; it no longer
    // produces the former run-global warning.
    assert_eq!(p.warnings.len(), 2);
}
#[test]
fn namespace_change_invalidates_fallback() {
    let p = parse_with_cwd(
        "1 unshare(CLONE_NEWNS) = 0\n1 open(\"\\x78\", O_RDONLY) = 4\n",
        "trace",
        Some("/original"),
    );
    assert!(!p.warnings.is_empty());
    assert!(p.events[1].path.as_ref().unwrap().starts_with("relative:"));
}
#[test]
fn malformed_non_ascii_escape_does_not_panic() {
    let p = parse("1 open(\"\\x世\", O_RDONLY) = 4\n", "trace");
    assert_eq!(p.events.len(), 0);
    assert!(!p.warnings.is_empty());
}

#[test]
fn realtime_and_unknown_signal_evidence_survives() {
    let p = parse(
        "1 +++ killed by SIGRT_2 +++\n2 +++ killed by SIGFUTURE_1 +++\n3 +++ killed by 99 +++\n",
        "trace",
    );
    assert_eq!(p.events.len(), 3);
    assert_eq!(p.events[1].outcome, "+++ killed by SIGFUTURE_1 +++");
}

#[test]
fn aligned_resumed_calls_preserve_success_and_evidence() {
    let raw = "1 execve(\"/tool\", [\"tool\"], 0x0 <unfinished ...>\n\
        1 <... execve resumed>)             = 0\n\
        1 clone(flags=SIGCHLD <unfinished ...>\n\
        2 open(\"input\", O_RDONLY)       = 3\n\
        1 <... clone resumed>)\t = 2\n\
        1 open(\"/absent\", O_RDONLY) = -1 ENOENT (No such file)\n";
    let p = parse_with_cwd(raw, "trace", Some("/work"));
    assert_eq!(p.warnings.len(), 1);
    assert_eq!(p.events.len(), 4);
    assert_eq!(p.events[0].outcome, "success");
    assert_eq!(
        (p.events[0].evidence.line, p.events[0].evidence.end_line),
        (1, 2)
    );
    assert_eq!(
        p.events[1].path.as_deref(),
        Some("relative:input [cwd unresolved]")
    );
    assert_eq!(p.events[1].cwd_before.as_deref(), Some("/work"));
    assert!(p.events[1].context_uncertain);
    assert_eq!(p.events[1].evidence.line, 4);
    assert_eq!(p.events[2].child_pid.as_deref(), Some("2"));
    assert_eq!(p.events[3].outcome, "ENOENT");
}
#[test]
fn separators_inside_quoted_paths_do_not_split_returns() {
    let p = parse(
        "1 open(\"/name) = literal\", O_RDONLY)       = 3\n",
        "trace",
    );
    assert!(p.warnings.is_empty());
    assert_eq!(p.events[0].path.as_deref(), Some("/name) = literal"));
    assert!(
        !parse("1 open(\"/x\", O_RDONLY) garbage = 3\n", "trace")
            .warnings
            .is_empty()
    );
}


#[test]
fn xx_annotation_callers_preserve_their_existing_path_contracts() {
    for (value, expected) in [
        ("3<\\x2f\\x66>", Some("/f")),
        ("3<\\x2f\\xff>", Some("/\\xff")),
        ("3<\\x72\\x65\\x6c>", None),
        ("3<\\x2f\\x78 (deleted)>", None),
        ("3<\\x2f\\x78", None),
        ("3<>", None),
        ("3<\\x2f\\x7g>", None),
    ] {
        assert_eq!(annotated_path(value).as_deref(), expected, "{value}");
    }

    for (dirfd, operand, expected) in [
        ("3<\\x2f\\x64>", "\\x66", "/d/f"),
        ("3<\\x2f\\xff>", "\\x66", "/\\xff/f"),
        (
            "3<\\x72\\x65\\x6c>",
            "\\x66",
            "relative:f [dirfd:\\x72\\x65\\x6c]",
        ),
        (
            "3<\\x2f\\x78 (deleted)>",
            "\\x66",
            "relative:f [dirfd:\\x2f\\x78 (deleted)]",
        ),
        (
            "3<\\x2f\\x78",
            "\\x66",
            "relative:f [dirfd annotation incomplete]",
        ),
        ("3<>", "\\x66", "relative:f [dirfd:]"),
        ("3<\\x2f>", "", "relative: [dirfd:\\x2f]"),
    ] {
        let arguments = [dirfd, &format!("\"{operand}\"")];
        assert_eq!(path(&arguments, true).as_deref(), Some(expected), "{dirfd}");
    }
}

#[test]
fn xx_annotation_observations_keep_warning_uncertainty_and_evidence() {
    for (raw, expected_path, uncertain, warning) in [
        (
            "1 open(\"file\", O_RDONLY) = 3<\\x2f\\xff>\n",
            "/\\xff",
            false,
            None,
        ),
        (
            "1 open(\"file\", O_RDONLY) = 3<\\x2f\\x78 (deleted)>\n",
            "relative:file [cwd unresolved]",
            true,
            Some("trace:1: path context unresolved;"),
        ),
        (
            "1 open(\"file\", O_RDONLY) = 3<\\x2f\\x78\n",
            "relative:file [cwd unresolved]",
            true,
            Some("trace:1: path context unresolved;"),
        ),
        (
            "1 openat(3<\\x2f\\xff>, \"file\", O_RDONLY) = 4\n",
            "/\\xff/file",
            false,
            None,
        ),
        (
            "1 openat(3<\\x2f\\x78 (deleted)>, \"file\", O_RDONLY) = 4\n",
            "relative:file [dirfd:\\x2f\\x78 (deleted)]",
            true,
            Some("trace:1: path context unresolved;"),
        ),
    ] {
        let parsed = parse_with_cwd(raw, "trace", Some("/history"));
        assert_eq!(parsed.events.len(), 1, "{raw}");
        let event = &parsed.events[0];
        assert_eq!(event.path.as_deref(), Some(expected_path), "{raw}");
        assert_eq!(event.context_uncertain, uncertain, "{raw}");
        assert_eq!((event.evidence.line, event.evidence.end_line), (1, 1));
        match warning {
            Some(prefix) => {
                assert_eq!(parsed.warnings.len(), 1, "{raw}");
                assert!(parsed.warnings[0].starts_with(prefix), "{raw}");
            }
            None => assert!(parsed.warnings.is_empty(), "{raw}"),
        }
    }

    // An unclosed angle annotation also prevents argument splitting, so
    // the parser preserves it only as raw evidence and a warning.
    let incomplete = parse_with_cwd(
        "1 openat(3<\\x2f\\x78, \"file\", O_RDONLY) = 4\n",
        "trace",
        Some("/history"),
    );
    assert!(incomplete.events.is_empty());
    assert_eq!(
        incomplete.warnings,
        vec![
            "trace:1: unsupported or incomplete event: openat(3<\\x2f\\x78, \"file\", O_RDONLY) = 4"
        ]
    );
}

#[test]
fn descriptor_observation_overrides_history_only_for_this_access() {
    let p = parse_with_cwd(
        "1 open(\"file\", O_RDONLY) = 3<\\x2f\\x6e\\x65\\x77\\x2f\\x66\\x69\\x6c\\x65>\n1 access(\"file\", F_OK) = 0\n",
        "trace",
        Some("/old"),
    );
    assert_eq!(p.events[0].path.as_deref(), Some("/new/file"));
    assert!(!p.events[0].context_uncertain);
    assert_eq!(
        p.events[1].path.as_deref(),
        Some("relative:file [cwd unresolved]")
    );
    assert_eq!(p.events[1].cwd_before.as_deref(), Some("/old"));
    assert!(p.events[1].context_uncertain);
    assert_eq!(p.warnings.len(), 1);
}
#[test]
fn resumed_open_annotation_keeps_both_evidence_lines() {
    let p = parse_with_cwd(
        "1 open(\"file\", O_RDONLY <unfinished ...>\n1 <... open resumed>) = 3<\\x2f\\x6e\\x65\\x77>\n",
        "trace",
        Some("/old"),
    );
    assert_eq!(p.events[0].path.as_deref(), Some("/new"));
    assert_eq!(
        (p.events[0].evidence.line, p.events[0].evidence.end_line),
        (1, 2)
    );
    assert!(p.warnings.is_empty());
}
#[test]
fn missing_deleted_or_malformed_annotations_never_use_cwd() {
    for result in [
        "3",
        "3<\\x2f\\x78 (deleted)>",
        "3<\\x2f\\x78",
        "-1 ENOENT (No file)",
    ] {
        let p = parse_with_cwd(
            &format!("1 open(\"file\", O_RDONLY) = {result}\n"),
            "trace",
            Some("/old"),
        );
        assert_eq!(
            p.events[0].path.as_deref(),
            Some("relative:file [cwd unresolved]")
        );
        assert!(p.events[0].context_uncertain);
        assert_eq!(p.warnings.len(), 1);
    }
}
#[test]
fn failed_switches_do_not_replace_last_observed_context() {
    let p = parse_with_cwd(
        "1 chdir(\"/missing\") = -1 ENOENT (No file)\n1 fchdir(-1) = -1 EBADF (Bad fd)\n1 access(\"file\", F_OK) = 0\n",
        "trace",
        Some("/old"),
    );
    assert_eq!(p.events[2].cwd_before.as_deref(), Some("/old"));
    assert_eq!(
        p.events[2].path.as_deref(),
        Some("relative:file [cwd unresolved]")
    );
    assert!(p.events[2].context_uncertain);
}
#[test]
fn explicit_absolute_operand_and_complete_dirfd_are_observations() {
    let p = parse_with_cwd(
        "1 access(\"/given/file\", F_OK) = 0\n1 openat(3<\\x2f\\x64>, \"file\", O_RDONLY) = 4\n",
        "trace",
        Some("/old"),
    );
    assert_eq!(p.events[0].path.as_deref(), Some("/given/file"));
    assert_eq!(p.events[1].path.as_deref(), Some("/d/file"));
    assert!(p.warnings.is_empty());
    assert!(p.events.iter().all(|e| !e.context_uncertain));
}

#[test]
fn cwd_transitions_require_absolute_per_syscall_evidence() {
    let accepted = parse_with_cwd(
        "1 chdir(\"/next\") = 0\n\
            1 open(\"/probe\", O_RDONLY) = 3\n\
            1 fchdir(3<\\x2f\\x66\\x64>) = 0\n\
            1 open(\"/probe-again\", O_RDONLY) = 3\n",
        "trace",
        Some("/old"),
    );
    assert!(accepted.warnings.is_empty());
    assert_eq!(accepted.events[1].cwd_before.as_deref(), Some("/next"));
    assert_eq!(accepted.events[3].cwd_before.as_deref(), Some("/fd"));
    assert!(accepted.events.iter().all(|event| !event.context_uncertain));

    let relative = parse_with_cwd(
        "1 chdir(\"child\") = 0\n1 open(\"/probe\", O_RDONLY) = 3\n",
        "trace",
        Some("/old"),
    );
    assert_eq!(
        relative.events[0].path.as_deref(),
        Some("relative:child [cwd unresolved]")
    );
    assert_eq!(relative.events[0].cwd_before.as_deref(), Some("/old"));
    assert!(relative.events[0].context_uncertain);
    assert_eq!(relative.events[1].cwd_before, None);
    assert!(relative.events[1].context_uncertain);
    assert_eq!(
        relative.warnings,
        vec![
            "trace:1: fs.context: successful directory change has no absolute per-syscall directory evidence; affected relative path context is incomplete"
        ]
    );

    let missing_fd = parse_with_cwd(
        "1 fchdir(3) = 0\n1 open(\"/probe\", O_RDONLY) = 3\n",
        "trace",
        Some("/old"),
    );
    assert_eq!(missing_fd.events[0].path, None);
    assert!(missing_fd.events[0].context_uncertain);
    assert_eq!(missing_fd.events[1].cwd_before, None);
    assert!(missing_fd.events[1].context_uncertain);
    assert_eq!(missing_fd.warnings.len(), 1);
    assert!(missing_fd.warnings[0].starts_with("trace:1: fs.context:"));

    let failed = parse_with_cwd(
        "1 chdir(\"child\") = -1 ENOENT (No file)\n1 open(\"/probe\", O_RDONLY) = 3\n",
        "trace",
        Some("/old"),
    );
    assert_eq!(
        failed.events[0].path.as_deref(),
        Some("relative:child [cwd unresolved]")
    );
    assert!(failed.events[0].context_uncertain);
    assert_eq!(failed.events[1].cwd_before.as_deref(), Some("/old"));
    assert!(!failed.events[1].context_uncertain);
    assert_eq!(failed.warnings.len(), 1);
    assert!(failed.warnings[0].starts_with("trace:1: path context unresolved;"));
}
#[test]
fn traces_without_warnings_hold_no_uncertain_event() {
    let traces = [
        "1 execve(\"/tool\", [\"tool\"], 0x0) = 0\n1 open(\"/etc/hosts\", O_RDONLY) = 3\n1 +++ exited with 0 +++\n",
        "1 open(\"\\x78\", O_RDONLY) = -1 ENOENT\n1 +++ exited with 0 +++\n",
        "1 unshare(CLONE_NEWNS) = 0\n1 open(\"\\x78\", O_RDONLY) = 4\n",
        "1 chroot(\"/jail\") = 0\n1 open(\"/x\", O_RDONLY) = 4\n",
        "2 open(\"/x\", O_RDONLY) = 4\n1 clone(flags=SIGCHLD) = 2\n",
    ];
    let mut certain = 0;
    for raw in traces {
        let p = parse_with_cwd(raw, "trace", Some("/original"));
        if p.warnings.is_empty() {
            certain += 1;
            assert!(p.events.iter().all(|event| !event.context_uncertain), "{raw}");
        }
    }
    assert!(certain >= 1);
}
#[test]
fn where_a_trace_started_changes_only_contexts() {
    let raw = "1 execve(\"/tool\", [\"tool\"], 0x0) = 0\n\
        1 open(\"\\x78\", O_RDONLY) = -1 ENOENT (No such file or directory)\n\
        1 chdir(\"\\x2f\\x74\") = 0\n\
        1 open(\"/etc/hosts\", O_RDONLY) = 3\n\
        1 +++ exited with 0 +++\n";
    let left = parse_with_cwd(raw, "trace", Some("/left"));
    let right = parse_with_cwd(raw, "trace", None);
    assert_eq!(left.events.len(), right.events.len());
    for (a, b) in left.events.iter().zip(&right.events) {
        let mut same = b.clone();
        same.cwd_before = a.cwd_before.clone();
        same.context_uncertain = a.context_uncertain;
        assert_eq!(*a, same);
    }
}
#[test]
fn unresolved_paths_leave_their_events_uncertain() {
    let p = parse_with_cwd(
        "1 open(\"\\x78\", O_RDONLY) = -1 ENOENT (No such file or directory)\n1 open(\"/x\", O_RDONLY) = 3\n",
        "trace",
        Some("/start"),
    );
    assert!(p.events[0].path.as_ref().unwrap().starts_with("relative:"));
    assert!(p.events[0].context_uncertain);
    assert!(!p.events[1].context_uncertain);
}

#[test]
fn quoted_spellings_of_bytes_are_read_back() {
    let all: Vec<u8> = (0..=255).collect();
    for v in [&b""[..], b"/tool", b"a\"b\\c", b"\x00\xff\n", &all] {
        let quoted = format!("\"{}\"", bytes(v));
        assert_eq!(unquote(&quoted).as_deref(), Some(v));
    }
    assert_eq!(bytes(b"a\"b\\c\xff"), "a\"b\\x5cc\\xff");
}

#[test]
fn line_endings_do_not_change_what_is_parsed() {
    let bodies = [
        "1 execve(\"/tool\", [\"tool\"], 0x0) = 0",
        "1 open(\"/split\", O_RDONLY <unfinished ...>",
        "1 <... open resumed>) = 3",
        "malformed",
        "1 unsupported_call() = 0",
        "1 +++ exited with 0 +++",
    ];
    let parsed = |inner: &str, last: &str| {
        let mut parser = TraceParser::new("trace", Some("/initial"));
        for (i, body) in bodies.iter().enumerate() {
            let ending = if i + 1 < bodies.len() { inner } else { last };
            parser.push_line(&format!("{body}{ending}"));
        }
        parser.finish()
    };
    let expected = parsed("\n", "\n");
    assert_eq!(expected.events.len(), 3);
    assert_eq!(expected.warnings.len(), 2);
    for (inner, last) in [("\r\n", "\r\n"), ("", "\n"), ("\n", "\r\n")] {
        assert_parsed_equivalent(&expected, &parsed(inner, last));
    }
}

#[test]
fn missing_last_newline_adds_one_warning_and_nothing_else() {
    let parsed = |ending: &str| {
        let mut parser = TraceParser::new("trace", Some("/initial"));
        parser.push_line("1 execve(\"/tool\", [\"tool\"], 0x0) = 0\n");
        parser.push_line("malformed\n");
        parser.push_line("2 open(\"/late\", O_RDONLY <unfinished ...>\n");
        parser.push_line("1 chdir(\"child\") = 0\n");
        parser.push_line(&format!("1 open(\"relative\", O_RDONLY) = 3{ending}"));
        parser.finish()
    };
    let lf = parsed("\n");
    assert_parsed_equivalent(&lf, &parsed("\r\n"));
    assert_eq!(lf.lines, 5);
    assert_eq!(lf.warnings[0], "trace:2: malformed line");
    assert!(lf.warnings.len() > 3);

    let mut bare = parsed("");
    assert_eq!(
        bare.warnings.remove(1),
        "trace: trace ends without newline; possible truncation"
    );
    assert_parsed_equivalent(&lf, &bare);
}

#[test]
fn exits_end_exactly_the_generations_that_they_belong_to() {
    let parsed = parse(
        "1 execve(\"/tool\", [\"tool\"], 0x0) = 0\n\
         1 clone(flags=SIGCHLD) = 2\n\
         2 open(\"/a\", O_RDONLY) = 3\n\
         2 +++ exited with 0 +++\n\
         1 clone(flags=SIGCHLD) = 2\n\
         2 open(\"/b\", O_RDONLY) = 3\n\
         2 +++ exited with 1 +++\n\
         1 open(\"/c\", O_RDONLY) = 3\n",
        "trace",
    );
    let timeline = &parsed.timeline;
    let exits: Vec<_> = timeline
        .generations()
        .into_iter()
        .map(|generation| timeline.exit_event(generation))
        .collect();
    assert_eq!(exits, [None, Some(3), Some(6)]);
    for (index, event) in parsed.events.iter().enumerate() {
        let generation = timeline.event_generation(index);
        assert_eq!(
            event.kind == "exit",
            timeline.exit_event(generation) == Some(index)
        );
        assert!(timeline.exit_event(generation).map_or(true, |exit| index <= exit));
    }
}

#[test]
fn shown_directories_are_the_initial_one_or_were_changed_to() {
    let parsed = parse_with_cwd(
        "1 execve(\"/tool\", [\"tool\"], 0x0) = 0\n\
         1 chdir(\"/a\" <unfinished ...>\n\
         1 <... chdir resumed>) = 0\n\
         1 open(\"/x\", O_RDONLY) = 3\n\
         1 chdir(\"/missing\") = -1 ENOENT (No such file or directory)\n\
         1 open(\"/y\", O_RDONLY) = 3\n\
         1 +++ exited with 0 +++\n",
        "trace",
        Some("/initial"),
    );
    let shown: Vec<_> = parsed
        .events
        .iter()
        .map(|event| event.cwd_before.as_deref())
        .collect();
    assert_eq!(
        shown,
        [
            Some("/initial"),
            Some("/initial"),
            Some("/a"),
            Some("/a"),
            Some("/a"),
            Some("/a"),
        ]
    );
}

#[test]
fn contexts_last_as_long_as_their_live_tasks() {
    let (first, second) = (TaskGenerationId(0), TaskGenerationId(1));
    let mut state = FsState::new(2);
    let fs = state.new_context(Some("/shared".into()), false, first);
    state.replace_child(second, fs);
    state.exit(first);
    assert_eq!(state.task_fs(first), None);
    assert!(state.has_context(fs));
    state.exit(first);
    assert!(state.has_context(fs), "a second exit counted");
    assert_eq!(state.snapshot(fs), (Some("/shared".into()), false));
    state.exit(second);
    assert!(!state.has_context(fs));
}

#[test]
fn second_invalidation_changes_nothing() {
    let mut state = FsState::new(1);
    let fs = state.new_context(Some("/known".into()), false, TaskGenerationId(0));
    state.change_cwd(fs, 1, 3, Some("/next".into()), 7);
    assert_eq!(state.invalidate(fs, 2), [7]);
    assert_eq!(state.snapshot(fs), (None, true));
    assert!(state.invalidate(fs, 2).is_empty());
    assert_eq!(state.snapshot(fs), (None, true));
    assert_eq!(state.cwd_before(fs, 4), None);
}
