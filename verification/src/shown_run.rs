//! What the texts of a run, of the index of records and of a finished record say.
use vstd::prelude::*;

use crate::diff;
use crate::findings;
use crate::model::{
    CaptureCompleteness, CaptureState, Environment, EventView, RecordResult, RecordSummary, Run,
};
use crate::numbers;
use crate::report;
use crate::shown;
use crate::text;
use crate::views;

verus! {

/// Whether a text is what a run shows of the end of its target.
pub open spec fn tells_end(s: Seq<char>, code: Option<i32>, signal: Option<i32>) -> bool {
    match (code, signal) {
        (Some(c), None) => s == "Exit: Some("@ + numbers::signed(c as int) + "); signal: None"@,
        (None, Some(n)) => s == "Exit: None; signal: Some("@ + numbers::signed(n as int) + ")"@,
        (Some(c), Some(n)) => s == "Exit: Some("@ + numbers::signed(c as int)
            + "); signal: Some("@ + numbers::signed(n as int) + ")"@,
        (None, None) => s == "Exit: None; signal: None"@,
    }
}

/// What a run shows before its events.
spec fn head_of(r: Run) -> Seq<char> {
    let m = r.metadata;
    "Storage integrity: "@ + r.storage_integrity.status@ + " — "@ + r.storage_integrity.detail@
        + "\n"@ + m.name@ + " ("@ + m.id@ + ")\nState: "@ + m.state@ + " / "@ + (
    match m.completeness {
        Some(c) => c@,
        None => "legacy/unknown"@,
    }) + "\nCommand: "@ + diff::debug_list(views::each(m.command@)) + "\nInitial cwd: "@ + m.cwd@
        + "\n"@
}

/// The parts of what a run shows.
spec fn part(r: Run, i: int) -> Seq<char> {
    let m = r.metadata;
    let ev = views::each(r.events@);
    if i == 0 {
        head_of(r)
    } else if i == 1 {
        "Exit: "@ + numbers::optional(m.exit_code) + "; signal: "@ + numbers::optional(m.signal)
            + "\n"@
    } else if i == 2 {
        "Events: "@ + numbers::decimal(ev.len()) + "\n"@
    } else if i == 3 {
        match m.environment {
            Some(e) => report::environment_lines(e, e.pairs().len() as int),
            None => ""@,
        }
    } else if i == 4 {
        "Path semantics: absolute spellings are recorded syscall/strace observations, not physical identity guarantees; relative paths stay uncertain. Older records may contain historical CWD-derived spellings; consult raw evidence.\n"@
    } else if i == 5 {
        report::event_lines(ev, m.id@, ev.len() as int)
    } else if i == 6 {
        report::argv_lines(ev, ev.len() as int)
    } else {
        report::warning_lines(views::each(m.warnings@), m.warnings@.len() as int)
    }
}

spec fn parts_upto(r: Run, n: int) -> Seq<char>
    decreases n,
{
    if n <= 0 {
        Seq::empty()
    } else {
        parts_upto(r, n - 1) + part(r, n - 1)
    }
}

/// The line that shows a variable of the selected environment.
pub open spec fn variable_line(key: Seq<char>, value: Option<Seq<char>>) -> Seq<char> {
    match value {
        Some(v) => "env "@ + key + ": "@ + v,
        None => "env "@ + key + ": (unset)"@,
    }
}

proof fn variables_in_lines(e: Environment, n: int, i: int)
    requires
        0 <= n <= e.pairs().len(),
    ensures
        shown::whole(report::environment_lines(e, n)),
        0 <= i < n ==> shown::has_line(
            report::environment_lines(e, n),
            variable_line(e.pairs()[i].0@, views::opt(e.pairs()[i].1)),
        ),
    decreases n,
{
    if n > 0 {
        reveal_strlit(": ");
        reveal_strlit("(unset)");
        reveal_strlit(": (unset)");
        variables_in_lines(e, n - 1, i);
        let before = report::environment_lines(e, n - 1);
        let (key, value) = e.pairs()[n - 1];
        let line = variable_line(key@, views::opt(value));
        let own = line + "\n"@;
        assert(report::environment_lines(e, n) =~= before + own);
        shown::line_is_whole(line);
        shown::whole_joined(before, own);
        if 0 <= i < n - 1 {
            shown::lines_before(
                before,
                own,
                variable_line(e.pairs()[i].0@, views::opt(e.pairs()[i].1)) + "\n"@,
            );
        } else if i == n - 1 {
            shown::own_lines(own);
            shown::lines_behind(before, own, own);
        }
    }
}

/// Whether a path is spelled as a relative one.
pub open spec fn relative_spelling(p: Seq<char>) -> bool {
    shown::opens(p, "relative:"@)
}

/// The lines that show what is known of the path of an event that has to do with one.
pub open spec fn context_lines(e: EventView) -> Seq<char> {
    "  Last observed CWD (context only, not a current physical path): "@ + (match e.cwd_before {
        Some(c) => c,
        None => "unknown"@,
    }) + "\n  Path context: "@ + (if e.path is None {
        "unresolved"@
    } else if e.context_uncertain || relative_spelling(e.path->0) {
        "uncertain / relative observation"@
    } else {
        "recorded absolute spelling; verify syscall evidence"@
    }) + "\n"@
}

/// The lines that show an event: its context, where it has to do with a path, and then its
/// task, its operation, its path, its outcome, and where its evidence stands.
pub open spec fn event_words(e: EventView, id: Seq<char>) -> Seq<char> {
    (if e.kind == "file"@ || e.kind == "exec"@ || e.kind == "cwd"@ {
        context_lines(e)
    } else {
        ""@
    }) + e.pid + " "@ + e.operation + " "@ + (match e.path {
        Some(p) => p,
        None => ""@,
    }) + " => "@ + e.outcome + " [runs/"@ + id + "/"@ + e.evidence.file + ":"@ + numbers::decimal(
        e.evidence.line as nat,
    ) + "-"@ + numbers::decimal(e.evidence.end_line as nat) + "]\n"@
}

proof fn event_is_worded(e: EventView, id: Seq<char>)
    ensures
        report::event_text(e, id) == event_words(e, id),
        shown::whole(event_words(e, id)),
{
    reveal_strlit("]\n");
    let s = event_words(e, id);
    if let Some(p) = e.path {
        assert(text::matches_at(p, "relative:"@, 0) == relative_spelling(p));
    }
    assert(s.last() == ']' || s.last() == '\n');
    assert(s.last() == "]\n"@[1]);
}

proof fn events_in_lines(events: Seq<EventView>, id: Seq<char>, n: int, i: int)
    requires
        0 <= n <= events.len(),
    ensures
        shown::whole(report::event_lines(events, id, n)),
        0 <= i < n ==> shown::has_lines(
            report::event_lines(events, id, n),
            event_words(events[i], id),
        ),
    decreases n,
{
    if n > 0 {
        events_in_lines(events, id, n - 1, i);
        let before = report::event_lines(events, id, n - 1);
        let own = event_words(events[n - 1], id);
        event_is_worded(events[n - 1], id);
        shown::whole_joined(before, own);
        if 0 <= i < n - 1 {
            shown::lines_before(before, own, event_words(events[i], id));
        } else if i == n - 1 {
            shown::own_lines(own);
            shown::lines_behind(before, own, own);
        }
    }
}

/// The line that shows the arguments of an execution.
spec fn argv_line(e: EventView) -> Seq<char> {
    "exec arguments (PID "@ + e.pid + "): "@ + diff::debug_list(e.argv->0)
}

proof fn arguments_in_lines(events: Seq<EventView>, n: int, i: int)
    requires
        0 <= n <= events.len(),
    ensures
        shown::whole(report::argv_lines(events, n)),
        0 <= i < n && events[i].argv is Some ==> shown::has_line(
            report::argv_lines(events, n),
            argv_line(events[i]),
        ),
    decreases n,
{
    if n > 0 {
        arguments_in_lines(events, n - 1, i);
        let before = report::argv_lines(events, n - 1);
        let line = argv_line(events[n - 1]);
        let own = line + "\n"@;
        if events[n - 1].argv is Some {
            shown::line_is_whole(line);
            shown::whole_joined(before, own);
            if 0 <= i < n - 1 && events[i].argv is Some {
                shown::lines_before(before, own, argv_line(events[i]) + "\n"@);
            } else if i == n - 1 {
                shown::own_lines(own);
                shown::lines_behind(before, own, own);
            }
        }
    }
}

proof fn part_is_whole(r: Run, i: int)
    ensures
        shown::whole(part(r, i)),
{
    reveal_strlit("");
    reveal_strlit("\n");
    reveal_strlit(
        "Path semantics: absolute spellings are recorded syscall/strace observations, not physical identity guarantees; relative paths stay uncertain. Older records may contain historical CWD-derived spellings; consult raw evidence.\n",
    );
    let m = r.metadata;
    let ev = views::each(r.events@);
    if i == 0 || i == 1 || i == 2 || i == 4 {
        assert(part(r, i).last() == '\n');
    } else if i == 3 {
        if let Some(e) = m.environment {
            variables_in_lines(e, e.pairs().len() as int, -1);
        }
    } else if i == 5 {
        events_in_lines(ev, m.id@, ev.len() as int, -1);
    } else if i == 6 {
        arguments_in_lines(ev, ev.len() as int, -1);
    } else {
        shown::warnings_in_lines(views::each(m.warnings@), m.warnings@.len() as int, -1);
    }
}

proof fn parts_are_whole(r: Run, n: int, i: int, lines: Seq<char>)
    requires
        0 <= i < n ==> shown::has_lines(part(r, i), lines),
    ensures
        shown::whole(parts_upto(r, n)),
        0 <= i < n ==> shown::has_lines(parts_upto(r, n), lines),
    decreases n,
{
    if n > 0 {
        parts_are_whole(r, n - 1, i, lines);
        part_is_whole(r, n - 1);
        shown::whole_joined(parts_upto(r, n - 1), part(r, n - 1));
        if 0 <= i < n - 1 {
            shown::lines_before(parts_upto(r, n - 1), part(r, n - 1), lines);
        } else if i == n - 1 {
            shown::lines_behind(parts_upto(r, n - 1), part(r, n - 1), lines);
        }
    }
}

proof fn run_in_parts(r: Run)
    ensures
        report::run_text(r) == parts_upto(r, 8),
{
    reveal_with_fuel(parts_upto, 9);
    reveal_strlit("\n");
    reveal_strlit("\nExit: ");
    reveal_strlit("Exit: ");
    reveal_strlit("\nEvents: ");
    reveal_strlit("Events: ");
    assert("\nExit: "@ =~= "\n"@ + "Exit: "@);
    assert("\nEvents: "@ =~= "\n"@ + "Events: "@);
    let all = part(r, 0) + part(r, 1) + part(r, 2) + part(r, 3) + part(r, 4) + part(r, 5) + part(
        r,
        6,
    ) + part(r, 7);
    assert(report::run_text(r) =~= all);
    assert(parts_upto(r, 8) =~= all);
}

/// The lines of a part of what a run shows are lines of it.
proof fn part_in_run(r: Run, i: int, lines: Seq<char>)
    requires
        0 <= i < 8,
        shown::has_lines(part(r, i), lines),
    ensures
        shown::has_lines(report::run_text(r), lines),
{
    run_in_parts(r);
    parts_are_whole(r, 8, i, lines);
}

proof fn end_is_told(code: Option<i32>, signal: Option<i32>)
    ensures
        tells_end(
            "Exit: "@ + numbers::optional(code) + "; signal: "@ + numbers::optional(signal),
            code,
            signal,
        ),
{
    reveal_strlit("Exit: ");
    reveal_strlit("; signal: ");
    reveal_strlit("Some(");
    reveal_strlit(")");
    reveal_strlit("None");
    reveal_strlit("Exit: Some(");
    reveal_strlit("); signal: None");
    reveal_strlit("Exit: None; signal: Some(");
    reveal_strlit("); signal: Some(");
    reveal_strlit("Exit: None; signal: None");
    let s = "Exit: "@ + numbers::optional(code) + "; signal: "@ + numbers::optional(signal);
    match (code, signal) {
        (Some(c), None) => {
            assert(s =~= "Exit: Some("@ + numbers::signed(c as int) + "); signal: None"@);
        },
        (None, Some(n)) => {
            assert(s =~= "Exit: None; signal: Some("@ + numbers::signed(n as int) + ")"@);
        },
        (Some(c), Some(n)) => {
            assert(s =~= "Exit: Some("@ + numbers::signed(c as int) + "); signal: Some("@
                + numbers::signed(n as int) + ")"@);
        },
        (None, None) => {
            assert(s =~= "Exit: None; signal: None"@);
        },
    }
}

/// A run shows in a line of its own how its target ended: behind `Exit` the code with which
/// it exited, and behind `signal` the signal that killed it.
pub proof fn runs_show_how_they_ended(r: Run)
    ensures
        r.metadata.exit_code is Some && r.metadata.signal is None ==> shown::has_line(
            report::run_text(r),
            "Exit: Some("@ + numbers::signed(r.metadata.exit_code->0 as int) + "); signal: None"@,
        ),
        r.metadata.signal is Some && r.metadata.exit_code is None ==> shown::has_line(
            report::run_text(r),
            "Exit: None; signal: Some("@ + numbers::signed(r.metadata.signal->0 as int) + ")"@,
        ),
        exists|line: Seq<char>| #[trigger]
            tells_end(line, r.metadata.exit_code, r.metadata.signal) && shown::has_line(
                report::run_text(r),
                line,
            ),
{
    let m = r.metadata;
    let line = "Exit: "@ + numbers::optional(m.exit_code) + "; signal: "@ + numbers::optional(
        m.signal,
    );
    end_is_told(m.exit_code, m.signal);
    shown::line_is_whole(line);
    shown::own_lines(line + "\n"@);
    part_in_run(r, 1, line + "\n"@);
    assert(tells_end(line, m.exit_code, m.signal));
    assert(shown::has_line(report::run_text(r), line));
}

/// A run starts with what its record is worth, its name and its identifier, its state and
/// completeness, its command, the directory in which it started, how it ended, and the
/// number of its events.
pub proof fn runs_open_with_their_facts(r: Run, end: Seq<char>)
    requires
        tells_end(end, r.metadata.exit_code, r.metadata.signal),
    ensures
        exists|command: Seq<char>| #[trigger]
            findings::spells_list(command, views::each(r.metadata.command@)) && shown::opens(
                report::run_text(r),
                "Storage integrity: "@ + r.storage_integrity.status@ + " — "@
                    + r.storage_integrity.detail@ + "\n"@ + r.metadata.name@ + " ("@
                    + r.metadata.id@ + ")\nState: "@ + r.metadata.state@ + " / "@ + (
                match r.metadata.completeness {
                    Some(c) => c@,
                    None => "legacy/unknown"@,
                }) + "\nCommand: "@ + command + "\nInitial cwd: "@ + r.metadata.cwd@ + "\n"@ + end
                    + "\nEvents: "@ + numbers::decimal(r.events@.len()) + "\n"@,
            ),
{
    reveal_strlit("\n");
    reveal_strlit("\nExit: ");
    reveal_strlit("Exit: ");
    let m = r.metadata;
    let line = "Exit: "@ + numbers::optional(m.exit_code) + "; signal: "@ + numbers::optional(
        m.signal,
    );
    end_is_told(m.exit_code, m.signal);
    assert(line == end);
    let command = diff::debug_list(views::each(m.command@));
    findings::lists_are_spelled(views::each(m.command@));
    let start = head_of(r) + end + "\nEvents: "@ + numbers::decimal(r.events@.len()) + "\n"@;
    let s = report::run_text(r);
    assert("\nExit: "@ =~= "\n"@ + "Exit: "@);
    assert(views::each(r.events@).len() == r.events@.len());
    assert(s.subrange(0, start.len() as int) =~= start);
    assert(start =~= "Storage integrity: "@ + r.storage_integrity.status@ + " — "@
        + r.storage_integrity.detail@ + "\n"@ + r.metadata.name@ + " ("@ + r.metadata.id@
        + ")\nState: "@ + r.metadata.state@ + " / "@ + (match r.metadata.completeness {
        Some(c) => c@,
        None => "legacy/unknown"@,
    }) + "\nCommand: "@ + command + "\nInitial cwd: "@ + r.metadata.cwd@ + "\n"@ + end
        + "\nEvents: "@ + numbers::decimal(r.events@.len()) + "\n"@);
}

/// A run shows every variable of its selected environment, with its value or that it is unset.
pub proof fn runs_show_their_environment(r: Run, key: Seq<char>)
    requires
        r.metadata.wf(),
    ensures
        findings::selected(r.metadata, key) matches Some(value) ==> shown::has_line(
            report::run_text(r),
            variable_line(key, value),
        ),
{
    if findings::selected(r.metadata, key) is Some {
        let e = r.metadata.environment->0;
        let keys = e.keys();
        assert(keys.contains(key));
        let i = choose|i: int| 0 <= i < keys.len() && keys[i] == key;
        e.entry_at(i);
        variables_in_lines(e, e.pairs().len() as int, i);
        part_in_run(r, 3, variable_line(key, views::opt(e.pairs()[i].1)) + "\n"@);
    }
}

/// A run shows each of its events, with what is known of the path where there is one.
pub proof fn runs_show_their_events(r: Run, i: int)
    requires
        0 <= i < r.events@.len(),
    ensures
        shown::has_lines(report::run_text(r), event_words(r.events@[i]@, r.metadata.id@)),
        r.events@[i]@.argv matches Some(argv) ==> exists|list: Seq<char>| #[trigger]
            findings::spells_list(list, argv) && shown::has_line(
                report::run_text(r),
                "exec arguments (PID "@ + r.events@[i]@.pid + "): "@ + list,
            ),
{
    let ev = views::each(r.events@);
    assert(ev[i] == r.events@[i]@);
    events_in_lines(ev, r.metadata.id@, ev.len() as int, i);
    part_in_run(r, 5, event_words(ev[i], r.metadata.id@));
    if let Some(argv) = ev[i].argv {
        arguments_in_lines(ev, ev.len() as int, i);
        part_in_run(r, 6, argv_line(ev[i]) + "\n"@);
        findings::lists_are_spelled(argv);
        assert(findings::spells_list(diff::debug_list(argv), argv));
    }
}

/// A run says what its paths mean, and shows each of its warnings.
pub proof fn runs_show_their_limits(r: Run, i: int)
    ensures
        shown::has_line(
            report::run_text(r),
            "Path semantics: absolute spellings are recorded syscall/strace observations, not physical identity guarantees; relative paths stay uncertain. Older records may contain historical CWD-derived spellings; consult raw evidence."@,
        ),
        0 <= i < r.metadata.warnings@.len() ==> shown::has_line(
            report::run_text(r),
            "warning: "@ + r.metadata.warnings@[i]@,
        ),
{
    reveal_strlit("\n");
    reveal_strlit(
        "Path semantics: absolute spellings are recorded syscall/strace observations, not physical identity guarantees; relative paths stay uncertain. Older records may contain historical CWD-derived spellings; consult raw evidence.\n",
    );
    reveal_strlit(
        "Path semantics: absolute spellings are recorded syscall/strace observations, not physical identity guarantees; relative paths stay uncertain. Older records may contain historical CWD-derived spellings; consult raw evidence.",
    );
    let line =
        "Path semantics: absolute spellings are recorded syscall/strace observations, not physical identity guarantees; relative paths stay uncertain. Older records may contain historical CWD-derived spellings; consult raw evidence."@;
    assert(part(r, 4) =~= line + "\n"@);
    shown::line_is_whole(line);
    shown::own_lines(line + "\n"@);
    part_in_run(r, 4, line + "\n"@);
    if 0 <= i < r.metadata.warnings@.len() {
        let list = views::each(r.metadata.warnings@);
        shown::warnings_in_lines(list, list.len() as int, i);
        assert(list[i] == r.metadata.warnings@[i]@);
        part_in_run(r, 7, "warning: "@ + list[i] + "\n"@);
    }
}

/// A run without events, environment and warnings shows nothing but its facts.
pub proof fn empty_runs_show_nothing_else(r: Run)
    requires
        r.events@.len() == 0,
        r.metadata.environment is None,
        r.metadata.warnings@.len() == 0,
    ensures
        shown::closes(
            report::run_text(r),
            "\nEvents: 0\nPath semantics: absolute spellings are recorded syscall/strace observations, not physical identity guarantees; relative paths stay uncertain. Older records may contain historical CWD-derived spellings; consult raw evidence.\n"@,
        ),
{
    reveal_strlit("");
    reveal_strlit("\n");
    reveal_strlit("\nEvents: ");
    reveal_strlit(
        "Path semantics: absolute spellings are recorded syscall/strace observations, not physical identity guarantees; relative paths stay uncertain. Older records may contain historical CWD-derived spellings; consult raw evidence.\n",
    );
    reveal_strlit(
        "\nEvents: 0\nPath semantics: absolute spellings are recorded syscall/strace observations, not physical identity guarantees; relative paths stay uncertain. Older records may contain historical CWD-derived spellings; consult raw evidence.\n",
    );
    let end =
        "\nEvents: 0\nPath semantics: absolute spellings are recorded syscall/strace observations, not physical identity guarantees; relative paths stay uncertain. Older records may contain historical CWD-derived spellings; consult raw evidence.\n"@;
    let s = report::run_text(r);
    assert(views::each(r.events@).len() == 0);
    assert(numbers::decimal(0) =~= seq!['0']);
    assert(end =~= "\nEvents: "@ + seq!['0'] + "\n"@
        + "Path semantics: absolute spellings are recorded syscall/strace observations, not physical identity guarantees; relative paths stay uncertain. Older records may contain historical CWD-derived spellings; consult raw evidence.\n"@);
    assert(s.subrange(s.len() - end.len(), s.len() as int) =~= end);
}

/// The index has one row for each record, in order. A row shows the identifier, the name, the
/// directory, the completeness of the capture, and the integrity of the storage, separated
/// by tabs.
pub proof fn rows_show_their_records(records: Seq<RecordSummary>, record: RecordSummary)
    ensures
        report::record_rows(Seq::<RecordSummary>::empty(), 0) == Seq::<char>::empty(),
        ({
            let before = report::record_rows(records, records.len() as int);
            let after = report::record_rows(records.push(record), records.len() as int + 1);
            after == before + (match record {
                RecordSummary::Readable { metadata, directory, storage_integrity } => metadata.id@
                    + "\t"@ + metadata.name@ + "\t"@ + directory@ + "\tcapture="@ + (
                match metadata.completeness {
                    Some(c) => c@,
                    None => "unknown"@,
                }) + "\tstorage="@ + storage_integrity.status@ + "\t"@ + storage_integrity.detail@
                    + "\n"@,
                RecordSummary::Unreadable { id, name, directory, storage_integrity } => (match id {
                    Some(i) => i@,
                    None => "(no safe ID)"@,
                }) + "\t"@ + (match name {
                    Some(n) => n@,
                    None => "(unknown label)"@,
                }) + "\t"@ + directory@ + "\tcapture="@ + "unknown"@ + "\tstorage="@
                    + storage_integrity.status@ + "\t"@ + storage_integrity.detail@ + "\n"@,
            })
        }),
{
    let n = records.len() as int;
    let longer = records.push(record);
    same_rows(records, longer, n);
    assert(longer[n] == record);
}

proof fn same_rows(a: Seq<RecordSummary>, b: Seq<RecordSummary>, n: int)
    requires
        forall|i: int| 0 <= i < n ==> a[i] == b[i],
    ensures
        report::record_rows(a, n) == report::record_rows(b, n),
    decreases n,
{
    if n > 0 {
        same_rows(a, b, n - 1);
    }
}

/// The words for the states and the completeness of a capture.
pub proof fn states_are_spelled()
    ensures
        CaptureState::Completed.spelling() == "completed"@,
        CaptureState::Interrupted.spelling() == "interrupted"@,
        CaptureState::CaptureFailed.spelling() == "capture_failed"@,
        CaptureCompleteness::CompleteForSupportedEvents.spelling()
            == "complete_for_supported_events"@,
        CaptureCompleteness::Partial.spelling() == "partial"@,
        CaptureCompleteness::Incomplete.spelling() == "incomplete"@,
{
}

/// A finished record says its name, its identifier, its state, how many events and warnings
/// it has, where its evidence stands, and each of its warnings.
pub proof fn records_show_what_was_recorded(r: RecordResult, i: int)
    ensures
        shown::opens(
            report::record_summary(r),
            "Recorded "@ + text::debug_text(r.name@) + ": "@ + r.id@ + " ("@ + (match r.state {
                CaptureState::Completed => "completed"@,
                CaptureState::Interrupted => "interrupted"@,
                CaptureState::CaptureFailed => "capture_failed"@,
            }) + ", "@ + numbers::decimal(r.event_count as nat) + " events, "@ + numbers::decimal(
                r.warnings@.len(),
            ) + " warnings)\nEvidence: "@ + r.evidence_dir@ + "\n"@,
        ),
        0 <= i < r.warnings@.len() ==> shown::has_line(
            report::record_summary(r),
            "warning: "@ + r.warnings@[i]@,
        ),
{
    reveal_strlit("\n");
    let start = "Recorded "@ + text::debug_text(r.name@) + ": "@ + r.id@ + " ("@ + (match r.state {
        CaptureState::Completed => "completed"@,
        CaptureState::Interrupted => "interrupted"@,
        CaptureState::CaptureFailed => "capture_failed"@,
    }) + ", "@ + numbers::decimal(r.event_count as nat) + " events, "@ + numbers::decimal(
        r.warnings@.len(),
    ) + " warnings)\nEvidence: "@ + r.evidence_dir@ + "\n"@;
    let list = views::each(r.warnings@);
    let tail = report::warning_lines(list, list.len() as int);
    let s = report::record_summary(r);
    assert(s =~= start + tail);
    assert(s.subrange(0, start.len() as int) =~= start);
    if 0 <= i < r.warnings@.len() {
        assert(list[i] == r.warnings@[i]@);
        shown::warnings_in_lines(list, list.len() as int, i);
        assert(start.last() == '\n');
        shown::lines_behind(start, tail, "warning: "@ + list[i] + "\n"@);
    }
}

} // verus!
