//! What the texts that are shown to a person say: each fact of a report, a run, an index or a
//! finished record stands in its text, in a line of its own and under its own words.
use vstd::prelude::*;

use crate::conclusions;
use crate::diff::{ChangeView, Report};
use crate::model::EvidenceView;
use crate::numbers;
use crate::order;
use crate::order::IndexKey;
use crate::report;
use crate::text;
use crate::views;

verus! {

/// Whether a text starts with another.
pub open spec fn opens(s: Seq<char>, start: Seq<char>) -> bool {
    start.len() <= s.len() && s.subrange(0, start.len() as int) == start
}

/// Whether a text ends with another.
pub open spec fn closes(s: Seq<char>, end: Seq<char>) -> bool {
    end.len() <= s.len() && s.subrange(s.len() - end.len(), s.len() as int) == end
}

/// Whether a text consists of whole lines.
pub open spec fn whole(s: Seq<char>) -> bool {
    s.len() == 0 || s.last() == '\n'
}

/// Whether whole lines stand in a text at an index where a line starts.
pub open spec fn lines_at(s: Seq<char>, lines: Seq<char>, i: int) -> bool {
    &&& 0 <= i && i + lines.len() <= s.len()
    &&& i == 0 || s[i - 1] == '\n'
    &&& s.subrange(i, i + lines.len()) == lines
    &&& whole(lines)
}

/// Whether whole lines stand in a text.
#[verifier::opaque]
pub open spec fn has_lines(s: Seq<char>, lines: Seq<char>) -> bool {
    exists|i: int| lines_at(s, lines, i)
}

/// Whether a line stands in a text.
pub open spec fn has_line(s: Seq<char>, line: Seq<char>) -> bool {
    has_lines(s, line + "\n"@)
}

pub(crate) proof fn own_lines(s: Seq<char>)
    requires
        whole(s),
    ensures
        has_lines(s, s),
{
    reveal(has_lines);
    assert(s.subrange(0, s.len() as int) =~= s);
    assert(lines_at(s, s, 0));
}

/// Lines of a part are lines of the whole.
pub(crate) proof fn lines_within(p: Seq<char>, part: Seq<char>, q: Seq<char>, lines: Seq<char>)
    requires
        whole(p),
        has_lines(part, lines),
    ensures
        has_lines(p + part + q, lines),
{
    reveal(has_lines);
    let i = choose|i: int| lines_at(part, lines, i);
    let s = p + part + q;
    let j = p.len() + i;
    assert(s.subrange(j, j + lines.len()) =~= lines) by {
        assert forall|k: int| 0 <= k < lines.len() implies s[j + k] == lines[k] by {
            assert(part.subrange(i, i + lines.len())[k] == lines[k]);
            assert(s[j + k] == part[i + k]);
        }
    }
    if j > 0 {
        if i > 0 {
            assert(s[j - 1] == part[i - 1]);
        } else {
            assert(s[j - 1] == p.last());
        }
    }
    assert(lines_at(s, lines, j));
}

pub(crate) proof fn whole_joined(a: Seq<char>, b: Seq<char>)
    requires
        whole(a),
        whole(b),
    ensures
        whole(a + b),
{
    if b.len() > 0 {
        assert((a + b).last() == b.last());
    } else {
        assert(a + b =~= a);
    }
}

pub(crate) proof fn line_is_whole(a: Seq<char>)
    ensures
        whole(a + "\n"@),
{
    reveal_strlit("\n");
    assert((a + "\n"@).last() == '\n');
}

pub(crate) proof fn lines_before(a: Seq<char>, b: Seq<char>, lines: Seq<char>)
    requires
        has_lines(a, lines),
    ensures
        has_lines(a + b, lines),
{
    let none = Seq::<char>::empty();
    lines_within(none, a, b, lines);
    assert(none + a + b =~= a + b);
}

pub(crate) proof fn lines_behind(a: Seq<char>, b: Seq<char>, lines: Seq<char>)
    requires
        whole(a),
        has_lines(b, lines),
    ensures
        has_lines(a + b, lines),
{
    let none = Seq::<char>::empty();
    lines_within(a, b, none, lines);
    assert(a + b + none =~= a + b);
}

pub(crate) proof fn warnings_in_lines(list: Seq<Seq<char>>, n: int, i: int)
    requires
        0 <= n <= list.len(),
    ensures
        whole(report::warning_lines(list, n)),
        0 <= i < n ==> has_line(report::warning_lines(list, n), "warning: "@ + list[i]),
    decreases n,
{
    if n > 0 {
        warnings_in_lines(list, n - 1, i);
        let before = report::warning_lines(list, n - 1);
        let own = "warning: "@ + list[n - 1] + "\n"@;
        line_is_whole("warning: "@ + list[n - 1]);
        whole_joined(before, own);
        if 0 <= i < n - 1 {
            lines_before(before, own, "warning: "@ + list[i] + "\n"@);
        } else if i == n - 1 {
            own_lines(own);
            lines_behind(before, own, own);
        }
    }
}

proof fn errors_in_lines(list: Seq<Seq<char>>, n: int, i: int)
    requires
        0 <= n <= list.len(),
    ensures
        whole(report::error_lines(list, n)),
        0 <= i < n ==> has_line(report::error_lines(list, n), "ERROR: "@ + list[i]),
    decreases n,
{
    if n > 0 {
        errors_in_lines(list, n - 1, i);
        let before = report::error_lines(list, n - 1);
        let own = "ERROR: "@ + list[n - 1] + "\n"@;
        line_is_whole("ERROR: "@ + list[n - 1]);
        whole_joined(before, own);
        if 0 <= i < n - 1 {
            lines_before(before, own, "ERROR: "@ + list[i] + "\n"@);
        } else if i == n - 1 {
            own_lines(own);
            lines_behind(before, own, own);
        }
    }
}

/// Whether a word is the one for what a comparison concludes on differences.
pub open spec fn concludes(word: Seq<char>, observed: Option<bool>) -> bool {
    &&& observed == Some(true) ==> word == "yes"@
    &&& observed == Some(false) ==> word == "no"@
    &&& observed is None ==> word == "not evaluated"@
}

/// A report starts with the names of the runs, says whether differences were observed, how
/// complete the captures are, what the storage of each side is, and the status.
pub proof fn reports_open_with_the_conclusion(r: Report, word: Seq<char>)
    requires
        concludes(word, r.observed_differences),
    ensures
        opens(
            report::report_text(r),
            "Run comparison: "@ + r.left@ + " → "@ + r.right@ + "\nObserved differences: "@ + word
                + "\nCapture completeness: left="@ + r.reliability.left.capture@ + ", right="@
                + r.reliability.right.capture@ + "\nStorage integrity: left="@
                + r.reliability.left.storage@ + ", right="@ + r.reliability.right.storage@
                + "\nExit code: "@ + numbers::signed(r.exit_code as int) + "\n"@,
        ),
{
    let start = "Run comparison: "@ + r.left@ + " → "@ + r.right@ + "\nObserved differences: "@
        + word + "\nCapture completeness: left="@ + r.reliability.left.capture@ + ", right="@
        + r.reliability.right.capture@ + "\nStorage integrity: left="@ + r.reliability.left.storage@
        + ", right="@ + r.reliability.right.storage@ + "\nExit code: "@ + numbers::signed(
        r.exit_code as int,
    ) + "\n"@;
    let s = report::report_text(r);
    assert(s.subrange(0, start.len() as int) =~= start);
}

proof fn evidence_in_lines(id: Seq<char>, list: Seq<EvidenceView>, n: int, i: int)
    requires
        0 <= n <= list.len(),
    ensures
        whole(report::evidence_lines(id, list, n)),
        0 <= i < n ==> has_line(report::evidence_lines(id, list, n), evidence_line(id, list[i])),
    decreases n,
{
    if n > 0 {
        evidence_in_lines(id, list, n - 1, i);
        let before = report::evidence_lines(id, list, n - 1);
        let own = evidence_line(id, list[n - 1]) + "\n"@;
        line_is_whole(evidence_line(id, list[n - 1]));
        whole_joined(before, own);
        if 0 <= i < n - 1 {
            lines_before(before, own, evidence_line(id, list[i]) + "\n"@);
        } else if i == n - 1 {
            own_lines(own);
            lines_behind(before, own, own);
        }
    }
}

/// The line that points to some evidence of a run.
pub open spec fn evidence_line(id: Seq<char>, e: EvidenceView) -> Seq<char> {
    "  evidence: runs/"@ + id + "/"@ + e.file + ":"@ + numbers::decimal(e.line as nat) + "-"@
        + numbers::decimal(e.end_line as nat)
}

/// The words for the outcomes of one side of a change.
pub open spec fn side_words(outcomes: Seq<Seq<char>>) -> Seq<char>
    decreases outcomes.len(),
{
    if outcomes.len() == 0 {
        "(not observed)"@
    } else if outcomes.len() == 1 {
        outcomes[0]
    } else {
        side_words(outcomes.drop_last()) + ", "@ + outcomes.last()
    }
}

proof fn same_joined(a: Seq<Seq<char>>, b: Seq<Seq<char>>, n: int)
    requires
        forall|i: int| 0 <= i < n ==> a[i] == b[i],
    ensures
        text::joined_upto(a, ", "@, n) == text::joined_upto(b, ", "@, n),
    decreases n,
{
    if n > 1 {
        same_joined(a, b, n - 1);
    }
}

proof fn sides_are_worded(outcomes: Seq<Seq<char>>)
    ensures
        report::side_text(outcomes) == side_words(outcomes),
    decreases outcomes.len(),
{
    if outcomes.len() > 1 {
        let shorter = outcomes.drop_last();
        sides_are_worded(shorter);
        same_joined(outcomes, shorter, shorter.len() as int);
    }
}

/// The lines that say what a change is: its category, its subject if it has one, and its two
/// sides.
pub open spec fn change_words(c: ChangeView) -> Seq<char> {
    "\n"@ + c.category + (if c.subject.len() > 0 {
        "\n  "@ + c.subject
    } else {
        Seq::empty()
    }) + "\n  "@ + side_words(c.left) + " → "@ + side_words(c.right) + "\n"@
}

proof fn change_in_lines(c: ChangeView, left_id: Seq<char>, right_id: Seq<char>)
    ensures
        whole(report::change_text(c, left_id, right_id)),
        has_lines(report::change_text(c, left_id, right_id), change_words(c)),
        forall|i: int|
            0 <= i < c.left_evidence.len() ==> has_line(
                report::change_text(c, left_id, right_id),
                evidence_line(left_id, #[trigger] c.left_evidence[i]),
            ),
        forall|i: int|
            0 <= i < c.right_evidence.len() ==> has_line(
                report::change_text(c, left_id, right_id),
                evidence_line(right_id, #[trigger] c.right_evidence[i]),
            ),
{
    reveal_strlit("\n");
    reveal_strlit("\n  ");
    reveal_strlit("  ");
    reveal_strlit("");
    sides_are_worded(c.left);
    sides_are_worded(c.right);
    let own = change_words(c);
    let l = report::evidence_lines(left_id, c.left_evidence, c.left_evidence.len() as int);
    let r = report::evidence_lines(right_id, c.right_evidence, c.right_evidence.len() as int);
    let s = report::change_text(c, left_id, right_id);
    assert(s =~= own + l + r);
    assert(own.last() == '\n');
    own_lines(own);
    lines_before(own, l, own);
    lines_before(own + l, r, own);
    evidence_in_lines(left_id, c.left_evidence, c.left_evidence.len() as int, 0);
    evidence_in_lines(right_id, c.right_evidence, c.right_evidence.len() as int, 0);
    whole_joined(own, l);
    whole_joined(own + l, r);
    assert forall|i: int| 0 <= i < c.left_evidence.len() implies has_line(
        s,
        evidence_line(left_id, #[trigger] c.left_evidence[i]),
    ) by {
        let line = evidence_line(left_id, c.left_evidence[i]) + "\n"@;
        evidence_in_lines(left_id, c.left_evidence, c.left_evidence.len() as int, i);
        lines_behind(own, l, line);
        lines_before(own + l, r, line);
    }
    assert forall|i: int| 0 <= i < c.right_evidence.len() implies has_line(
        s,
        evidence_line(right_id, #[trigger] c.right_evidence[i]),
    ) by {
        let line = evidence_line(right_id, c.right_evidence[i]) + "\n"@;
        evidence_in_lines(right_id, c.right_evidence, c.right_evidence.len() as int, i);
        lines_behind(own + l, r, line);
    }
}

proof fn changes_in_lines(
    list: Seq<(ChangeView, Option<Seq<char>>)>,
    left_id: Seq<char>,
    right_id: Seq<char>,
    n: int,
    j: int,
    lines: Seq<char>,
)
    requires
        0 <= n <= list.len(),
        0 <= j < n ==> (j < 5 || list[j].1 is None) && has_lines(
            report::change_text(list[j].0, left_id, right_id),
            lines,
        ),
    ensures
        whole(report::shown_upto(list, left_id, right_id, n)),
        0 <= j < n ==> has_lines(report::shown_upto(list, left_id, right_id, n), lines),
    decreases n,
{
    if n > 0 {
        changes_in_lines(list, left_id, right_id, n - 1, j, lines);
        let before = report::shown_upto(list, left_id, right_id, n - 1);
        let own = report::change_text(list[n - 1].0, left_id, right_id);
        change_in_lines(list[n - 1].0, left_id, right_id);
        whole_joined(before, own);
        if 0 <= j < n - 1 {
            lines_before(before, own, lines);
        } else if j == n - 1 {
            lines_behind(before, own, lines);
        }
    }
}

/// The parts of a report, each of whole lines.
pub(crate) open spec fn part(r: Report, i: int) -> Seq<char> {
    let list = report::presented(views::each(r.changes@));
    let n = list.len() as int;
    if i == 0 {
        "Run comparison: "@ + r.left@ + " → "@ + r.right@ + "\nObserved differences: "@
            + report::differences_text(r.observed_differences) + "\nCapture completeness: left="@
            + r.reliability.left.capture@ + ", right="@ + r.reliability.right.capture@
            + "\nStorage integrity: left="@ + r.reliability.left.storage@ + ", right="@
            + r.reliability.right.storage@ + "\nExit code: "@ + numbers::signed(r.exit_code as int)
            + "\n"@
    } else if i == 1 {
        if r.exit_code == 3 {
            "RELIABILITY NOT ESTABLISHED: comparison cannot establish a complete, verified result.\n"@
        } else {
            ""@
        }
    } else if i == 2 {
        report::error_lines(views::each(r.errors@), r.errors@.len() as int)
    } else if i == 3 {
        if r.observed_differences == Some(false) {
            "No differences in supported, aggregated observations.\n"@
        } else {
            ""@
        }
    } else if i == 4 {
        report::shown_upto(list, r.left_id@, r.right_id@, n)
    } else if i == 5 {
        report::group_text(
            report::unsuccessful_group(),
            report::folded_upto(list, report::unsuccessful_group(), n),
        )
    } else if i == 6 {
        report::group_text(
            report::temporary_group(),
            report::folded_upto(list, report::temporary_group(), n),
        )
    } else if i == 7 {
        "\nTotal observed changes: "@ + numbers::decimal(r.changes@.len())
            + " (including folded details)\n"@
    } else if i == 8 {
        report::warning_lines(views::each(r.warnings@), r.warnings@.len() as int)
    } else {
        "\nObserved changes are investigation clues, not proof of a root cause.\n"@
    }
}

spec fn parts_upto(r: Report, n: int) -> Seq<char>
    decreases n,
{
    if n <= 0 {
        Seq::empty()
    } else {
        parts_upto(r, n - 1) + part(r, n - 1)
    }
}

proof fn group_is_whole(group: Seq<char>, ranks: Seq<usize>)
    ensures
        whole(report::group_text(group, ranks)),
{
    reveal_strlit("");
    reveal_strlit("]\n");
    if ranks.len() > 0 {
        assert(report::group_text(group, ranks).last() == '\n');
    }
}

proof fn part_is_whole(r: Report, i: int)
    ensures
        whole(part(r, i)),
{
    reveal_strlit("");
    reveal_strlit("\n");
    reveal_strlit(
        "RELIABILITY NOT ESTABLISHED: comparison cannot establish a complete, verified result.\n",
    );
    reveal_strlit("No differences in supported, aggregated observations.\n");
    reveal_strlit(" (including folded details)\n");
    reveal_strlit("\nObserved changes are investigation clues, not proof of a root cause.\n");
    let list = report::presented(views::each(r.changes@));
    let n = list.len() as int;
    if i == 0 || i == 1 || i == 3 || i == 7 || i > 8 || i < 0 {
        if part(r, i).len() > 0 {
            assert(part(r, i).last() == '\n');
        }
    } else if i == 2 {
        errors_in_lines(views::each(r.errors@), r.errors@.len() as int, 0);
    } else if i == 4 {
        changes_in_lines(list, r.left_id@, r.right_id@, n, -1, Seq::empty());
    } else if i == 8 {
        warnings_in_lines(views::each(r.warnings@), r.warnings@.len() as int, 0);
    } else {
        group_is_whole(
            report::unsuccessful_group(),
            report::folded_upto(list, report::unsuccessful_group(), n),
        );
        group_is_whole(
            report::temporary_group(),
            report::folded_upto(list, report::temporary_group(), n),
        );
    }
}

proof fn parts_are_whole(r: Report, n: int, i: int, lines: Seq<char>)
    requires
        0 <= i < n ==> has_lines(part(r, i), lines),
    ensures
        whole(parts_upto(r, n)),
        0 <= i < n ==> has_lines(parts_upto(r, n), lines),
    decreases n,
{
    if n > 0 {
        parts_are_whole(r, n - 1, i, lines);
        part_is_whole(r, n - 1);
        whole_joined(parts_upto(r, n - 1), part(r, n - 1));
        if 0 <= i < n - 1 {
            lines_before(parts_upto(r, n - 1), part(r, n - 1), lines);
        } else if i == n - 1 {
            lines_behind(parts_upto(r, n - 1), part(r, n - 1), lines);
        }
    }
}

proof fn report_in_parts(r: Report)
    ensures
        report::report_text(r) == parts_upto(r, 10),
{
    reveal_with_fuel(parts_upto, 11);
    assert(report::report_text(r) =~= part(r, 0) + part(r, 1) + part(r, 2) + part(r, 3) + part(r, 4)
        + part(r, 5) + part(r, 6) + part(r, 7) + part(r, 8) + part(r, 9));
    assert(parts_upto(r, 10) =~= part(r, 0) + part(r, 1) + part(r, 2) + part(r, 3) + part(r, 4)
        + part(r, 5) + part(r, 6) + part(r, 7) + part(r, 8) + part(r, 9));
}

/// The lines of a part of a report are lines of the report.
proof fn part_in_report(r: Report, i: int, lines: Seq<char>)
    requires
        0 <= i < 10,
        has_lines(part(r, i), lines),
    ensures
        has_lines(report::report_text(r), lines),
{
    report_in_parts(r);
    parts_are_whole(r, 10, i, lines);
}

proof fn conclusion_in_line(r: Report, word: Seq<char>)
    requires
        report::differences_text(r.observed_differences) == word,
    ensures
        has_line(report::report_text(r), "Observed differences: "@ + word),
{
    reveal_strlit("\n");
    reveal_strlit("\nObserved differences: ");
    reveal_strlit("Observed differences: ");
    reveal_strlit("\nCapture completeness: left=");
    reveal_strlit("Capture completeness: left=");
    let before = "Run comparison: "@ + r.left@ + " → "@ + r.right@;
    let line = "Observed differences: "@ + word;
    let behind = "Capture completeness: left="@ + r.reliability.left.capture@ + ", right="@
        + r.reliability.right.capture@ + "\nStorage integrity: left="@ + r.reliability.left.storage@
        + ", right="@ + r.reliability.right.storage@ + "\nExit code: "@ + numbers::signed(
        r.exit_code as int,
    ) + "\n"@;
    assert(part(r, 0) =~= (before + "\n"@) + (line + "\n"@) + behind);
    line_is_whole(before);
    line_is_whole(line);
    own_lines(line + "\n"@);
    lines_within(before + "\n"@, line + "\n"@, behind, line + "\n"@);
    part_in_report(r, 0, line + "\n"@);
}

/// A report says in a line of its own whether differences were observed.
pub proof fn reports_say_whether_runs_differ(r: Report)
    ensures
        r.observed_differences == Some(true) ==> has_line(
            report::report_text(r),
            "Observed differences: yes"@,
        ),
        r.observed_differences == Some(false) ==> has_line(
            report::report_text(r),
            "Observed differences: no"@,
        ),
        r.observed_differences is None ==> has_line(
            report::report_text(r),
            "Observed differences: not evaluated"@,
        ),
{
    reveal_strlit("Observed differences: ");
    reveal_strlit("Observed differences: yes");
    reveal_strlit("Observed differences: no");
    reveal_strlit("Observed differences: not evaluated");
    reveal_strlit("yes");
    reveal_strlit("no");
    reveal_strlit("not evaluated");
    match r.observed_differences {
        Some(true) => {
            assert("Observed differences: "@ + "yes"@ =~= "Observed differences: yes"@);
            conclusion_in_line(r, "yes"@);
        },
        Some(false) => {
            assert("Observed differences: "@ + "no"@ =~= "Observed differences: no"@);
            conclusion_in_line(r, "no"@);
        },
        None => {
            assert("Observed differences: "@ + "not evaluated"@
                =~= "Observed differences: not evaluated"@);
            conclusion_in_line(r, "not evaluated"@);
        },
    }
}

/// A report with status three says that reliability is not established.
pub proof fn reports_say_that_they_are_not_reliable(r: Report)
    requires
        r.exit_code == 3,
    ensures
        has_line(
            report::report_text(r),
            "RELIABILITY NOT ESTABLISHED: comparison cannot establish a complete, verified result."@,
        ),
{
    reveal_strlit("\n");
    reveal_strlit(
        "RELIABILITY NOT ESTABLISHED: comparison cannot establish a complete, verified result.\n",
    );
    reveal_strlit(
        "RELIABILITY NOT ESTABLISHED: comparison cannot establish a complete, verified result.",
    );
    let line =
        "RELIABILITY NOT ESTABLISHED: comparison cannot establish a complete, verified result."@;
    assert(part(r, 1) =~= line + "\n"@);
    line_is_whole(line);
    own_lines(line + "\n"@);
    part_in_report(r, 1, line + "\n"@);
}

/// A report that observed no differences says so.
pub proof fn reports_say_that_nothing_differs(r: Report)
    requires
        r.observed_differences == Some(false),
    ensures
        has_line(
            report::report_text(r),
            "No differences in supported, aggregated observations."@,
        ),
{
    reveal_strlit("\n");
    reveal_strlit("No differences in supported, aggregated observations.\n");
    reveal_strlit("No differences in supported, aggregated observations.");
    let line = "No differences in supported, aggregated observations."@;
    assert(part(r, 3) =~= line + "\n"@);
    line_is_whole(line);
    own_lines(line + "\n"@);
    part_in_report(r, 3, line + "\n"@);
}

/// Each error of a report stands in a line of its own.
pub proof fn reports_say_their_errors(r: Report, i: int)
    requires
        0 <= i < r.errors@.len(),
    ensures
        has_line(report::report_text(r), "ERROR: "@ + r.errors@[i]@),
{
    let list = views::each(r.errors@);
    errors_in_lines(list, list.len() as int, i);
    assert(list[i] == r.errors@[i]@);
    part_in_report(r, 2, "ERROR: "@ + list[i] + "\n"@);
}

/// Each warning of a report stands in a line of its own.
pub proof fn reports_say_their_warnings(r: Report, i: int)
    requires
        0 <= i < r.warnings@.len(),
    ensures
        has_line(report::report_text(r), "warning: "@ + r.warnings@[i]@),
{
    let list = views::each(r.warnings@);
    warnings_in_lines(list, list.len() as int, i);
    assert(list[i] == r.warnings@[i]@);
    part_in_report(r, 8, "warning: "@ + list[i] + "\n"@);
}

/// A report says how many changes there are.
pub proof fn reports_say_how_much_differs(r: Report)
    ensures
        has_line(
            report::report_text(r),
            "Total observed changes: "@ + numbers::decimal(r.changes@.len())
                + " (including folded details)"@,
        ),
{
    reveal_strlit("\n");
    reveal_strlit("\nTotal observed changes: ");
    reveal_strlit("Total observed changes: ");
    reveal_strlit(" (including folded details)\n");
    reveal_strlit(" (including folded details)");
    let count = numbers::decimal(r.changes@.len());
    let line = "Total observed changes: "@ + count + " (including folded details)"@;
    assert(part(r, 7) =~= "\n"@ + (line + "\n"@));
    line_is_whole(line);
    own_lines(line + "\n"@);
    assert("\n"@.last() == '\n');
    lines_behind("\n"@, line + "\n"@, line + "\n"@);
    part_in_report(r, 7, line + "\n"@);
}

/// A report ends with what its changes are worth.
pub proof fn reports_close_with_a_caution(r: Report)
    ensures
        closes(
            report::report_text(r),
            "\nObserved changes are investigation clues, not proof of a root cause.\n"@,
        ),
{
    report_in_parts(r);
    let end = "\nObserved changes are investigation clues, not proof of a root cause.\n"@;
    let s = report::report_text(r);
    assert(parts_upto(r, 10) == parts_upto(r, 9) + part(r, 9));
    assert(s.subrange(s.len() - end.len(), s.len() as int) =~= end);
}

/// A report without changes, errors and warnings says nothing but its conclusion.
pub proof fn empty_reports_say_nothing_else(r: Report, word: Seq<char>)
    requires
        concludes(word, r.observed_differences),
        r.changes@.len() == 0,
        r.errors@.len() == 0,
        r.warnings@.len() == 0,
    ensures
        report::report_text(r) == "Run comparison: "@ + r.left@ + " → "@ + r.right@
            + "\nObserved differences: "@ + word + "\nCapture completeness: left="@
            + r.reliability.left.capture@ + ", right="@ + r.reliability.right.capture@
            + "\nStorage integrity: left="@ + r.reliability.left.storage@ + ", right="@
            + r.reliability.right.storage@ + "\nExit code: "@ + numbers::signed(r.exit_code as int)
            + "\n"@ + (if r.exit_code == 3 {
            "RELIABILITY NOT ESTABLISHED: comparison cannot establish a complete, verified result.\n"@
        } else {
            ""@
        }) + (if r.observed_differences == Some(false) {
            "No differences in supported, aggregated observations.\n"@
        } else {
            ""@
        }) + "\nTotal observed changes: 0 (including folded details)\n\nObserved changes are investigation clues, not proof of a root cause.\n"@,
{
    reveal_strlit("");
    reveal_strlit("\nTotal observed changes: ");
    reveal_strlit(" (including folded details)\n");
    reveal_strlit("\nObserved changes are investigation clues, not proof of a root cause.\n");
    reveal_strlit(
        "\nTotal observed changes: 0 (including folded details)\n\nObserved changes are investigation clues, not proof of a root cause.\n",
    );
    let all = views::each(r.changes@);
    let keys = report::presentation_keys(all, 0);
    assert(keys =~= Set::empty());
    order::listed_unique::<IndexKey>(keys, Seq::empty());
    assert(report::presented(all) =~= Seq::empty());
    assert(numbers::decimal(0) =~= seq!['0']);
    assert("\nTotal observed changes: "@ + seq!['0'] + " (including folded details)\n"@
        + "\nObserved changes are investigation clues, not proof of a root cause.\n"@
        =~= "\nTotal observed changes: 0 (including folded details)\n\nObserved changes are investigation clues, not proof of a root cause.\n"@);
}

/// Whether a change may be folded: it is of a file that only one side has, and either no
/// outcome was a success or the path looks temporary.
pub open spec fn foldable(c: ChangeView) -> bool {
    &&& c.file_path is Some
    &&& c.left.len() == 0 || c.right.len() == 0
    &&& !(c.left + c.right).contains("success"@) || report::temporary_path(c.file_path->0)
}

/// A change has a group only if it may be folded, and the group says why it may.
pub proof fn groups_say_why(c: ChangeView)
    ensures
        report::group_of(c) is Some <==> foldable(c),
        foldable(c) && !(c.left + c.right).contains("success"@) ==> report::group_of(c) == Some(
            "One-sided unsuccessful file accesses (not necessarily faults)"@,
        ),
        foldable(c) && (c.left + c.right).contains("success"@) ==> report::group_of(c) == Some(
            "Temporary-looking file paths (heuristic, not ignored)"@,
        ),
{
    let both = c.left + c.right;
    if c.left.contains("success"@) {
        let i = choose|i: int| 0 <= i < c.left.len() && c.left[i] == "success"@;
        assert(both[i] == "success"@);
    }
    if c.right.contains("success"@) {
        let i = choose|i: int| 0 <= i < c.right.len() && c.right[i] == "success"@;
        assert(both[c.left.len() + i] == "success"@);
    }
    if both.contains("success"@) {
        let i = choose|i: int| 0 <= i < both.len() && both[i] == "success"@;
        if i < c.left.len() {
            assert(c.left[i] == "success"@);
        } else {
            assert(c.right[i - c.left.len()] == "success"@);
        }
    }
}

/// Every change that is among the first five that are presented, or that may not be folded,
/// stands in the report, with its category, its subject, its two sides and its evidence.
pub proof fn reports_show_their_changes(r: Report, i: int, place: int)
    requires
        r.changes@.len() <= usize::MAX,
        0 <= i < r.changes@.len(),
        report::shows_at(views::each(r.changes@), i, place),
        place < 5 || !foldable(r.changes@[i]@),
    ensures
        ({
            let c = r.changes@[i]@;
            &&& has_lines(report::report_text(r), change_words(c))
            &&& forall|k: int|
                0 <= k < c.left_evidence.len() ==> has_line(
                    report::report_text(r),
                    evidence_line(r.left_id@, #[trigger] c.left_evidence[k]),
                )
            &&& forall|k: int|
                0 <= k < c.right_evidence.len() ==> has_line(
                    report::report_text(r),
                    evidence_line(r.right_id@, #[trigger] c.right_evidence[k]),
                )
        }),
{
    let all = views::each(r.changes@);
    let c = r.changes@[i]@;
    assert(all[i] == c);
    let list = report::presented(all);
    let n = list.len() as int;
    let left = r.left_id@;
    let right = r.right_id@;
    assert(list[place] == (all[i], report::group_of(all[i])));
    groups_say_why(c);
    change_in_lines(c, left, right);
    changes_in_lines(list, left, right, n, place, change_words(c));
    part_in_report(r, 4, change_words(c));
    assert forall|k: int| 0 <= k < c.left_evidence.len() implies has_line(
        report::report_text(r),
        evidence_line(left, #[trigger] c.left_evidence[k]),
    ) by {
        let line = evidence_line(left, c.left_evidence[k]) + "\n"@;
        assert(has_line(
            report::change_text(c, left, right),
            evidence_line(left, c.left_evidence[k]),
        ));
        changes_in_lines(list, left, right, n, place, line);
        part_in_report(r, 4, line);
    }
    assert forall|k: int| 0 <= k < c.right_evidence.len() implies has_line(
        report::report_text(r),
        evidence_line(right, #[trigger] c.right_evidence[k]),
    ) by {
        let line = evidence_line(right, c.right_evidence[k]) + "\n"@;
        assert(has_line(
            report::change_text(c, left, right),
            evidence_line(right, c.right_evidence[k]),
        ));
        changes_in_lines(list, left, right, n, place, line);
        part_in_report(r, 4, line);
    }
}

/// Changes that may be folded are presented behind those that may not; the others come by
/// tier, and equals in the order in which they were found.
pub proof fn changes_are_presented_in_order(changes: Seq<ChangeView>, a: int, b: int, i: int, j: int)
    requires
        changes.len() <= usize::MAX,
        0 <= a < changes.len(),
        0 <= b < changes.len(),
        report::shows_at(changes, a, i),
        report::shows_at(changes, b, j),
        i < j,
    ensures
        foldable(changes[a]) ==> foldable(changes[b]),
        !foldable(changes[a]) && !foldable(changes[b]) ==> conclusions::tier(
            changes[a].rank_key.class,
        ) <= conclusions::tier(changes[b].rank_key.class),
        foldable(changes[a]) && foldable(changes[b]) || !foldable(changes[a]) && !foldable(
            changes[b],
        ) && changes[a].rank_key.class == changes[b].rank_key.class
            ==> changes[a].rank_key.comparison_order <= changes[b].rank_key.comparison_order,
{
    broadcast use vstd::seq_lib::seq_to_set_is_finite;
    broadcast use vstd::set_lib::lemma_set_subset_finite;

    groups_say_why(changes[a]);
    groups_say_why(changes[b]);
    let keys = report::presentation_keys(changes, changes.len() as int);
    let all = Seq::new(changes.len(), |n: int| report::presentation_key(changes, n));
    assert forall|k: IndexKey| keys.contains(k) implies all.to_set().contains(k) by {
        assert(all[k.index as int] == k);
    }
    assert(keys.subset_of(all.to_set()));
    order::listed_lists::<IndexKey>(keys);
    let listed = report::presentation_order(changes);
    assert(listed.contains(listed[i]) && listed.contains(listed[j]));
    assert(<IndexKey as order::SortKey>::before(listed[i], listed[j]));
    assert(listed[i] == report::presentation_key(changes, a));
    assert(listed[j] == report::presentation_key(changes, b));
}

/// Whether ranks are those, from one on, of the changes that are folded into a group: all
/// behind the first five that have it, in order.
pub open spec fn folds(
    ranks: Seq<usize>,
    list: Seq<(ChangeView, Option<Seq<char>>)>,
    group: Seq<char>,
) -> bool {
    &&& forall|k: usize| #[trigger]
        ranks.contains(k) <==> 5 < k <= list.len() && list[k - 1].1 == Some(group)
    &&& forall|i: int, j: int|
        0 <= i < j < ranks.len() ==> #[trigger] ranks[i] < #[trigger] ranks[j]
}

proof fn folded_ranks(list: Seq<(ChangeView, Option<Seq<char>>)>, group: Seq<char>, n: int)
    requires
        0 <= n <= list.len(),
        list.len() <= usize::MAX,
    ensures
        ({
            let ranks = report::folded_upto(list, group, n);
            &&& forall|k: usize| #[trigger]
                ranks.contains(k) <==> 5 < k <= n && list[k - 1].1 == Some(group)
            &&& forall|i: int, j: int|
                0 <= i < j < ranks.len() ==> #[trigger] ranks[i] < #[trigger] ranks[j]
        }),
    decreases n,
{
    if n > 0 {
        folded_ranks(list, group, n - 1);
        let before = report::folded_upto(list, group, n - 1);
        let ranks = report::folded_upto(list, group, n);
        if report::is_folded(list[n - 1], n - 1) && list[n - 1].1 == Some(group) {
            assert(ranks == before.push(n as usize));
            assert forall|k: usize| #[trigger] ranks.contains(k) <==> 5 < k <= n && list[k - 1].1
                == Some(group) by {
                if ranks.contains(k) {
                    let x = choose|x: int| 0 <= x < ranks.len() && ranks[x] == k;
                    if x < before.len() {
                        assert(before[x] == k);
                        assert(before.contains(k));
                    }
                }
                if 5 < k <= n && list[k - 1].1 == Some(group) {
                    if k < n {
                        assert(before.contains(k));
                        let x = choose|x: int| 0 <= x < before.len() && before[x] == k;
                        assert(ranks[x] == k);
                    } else {
                        assert(ranks[before.len() as int] == k);
                    }
                }
            }
            assert forall|i: int, j: int| 0 <= i < j < ranks.len() implies #[trigger] ranks[i]
                < #[trigger] ranks[j] by {
                assert(ranks[i] == before[i]);
                assert(before.contains(before[i]));
                if j < before.len() {
                    assert(ranks[j] == before[j]);
                }
            }
        } else {
            assert(ranks == before);
        }
    } else {
        assert forall|k: usize| !report::folded_upto(list, group, n).contains(k) by {}
    }
}

/// The first ranks of a group: up to three.
pub open spec fn ranks_words(ranks: Seq<usize>) -> Seq<char> {
    if ranks.len() == 1 {
        "["@ + numbers::decimal(ranks[0] as nat) + "]"@
    } else if ranks.len() == 2 {
        "["@ + numbers::decimal(ranks[0] as nat) + ", "@ + numbers::decimal(ranks[1] as nat) + "]"@
    } else {
        "["@ + numbers::decimal(ranks[0] as nat) + ", "@ + numbers::decimal(ranks[1] as nat)
            + ", "@ + numbers::decimal(ranks[2] as nat) + "]"@
    }
}

/// The lines that say how many changes are folded into a group, and the first of them.
pub open spec fn group_words(group: Seq<char>, ranks: Seq<usize>) -> Seq<char> {
    "\nDetail group: "@ + group + "\n  "@ + numbers::decimal(ranks.len())
        + " changes folded; all changes, paths and outcome sets remain in --json, with evidence samples capped per side (first example ranks, 1-based): "@
        + ranks_words(ranks) + "\n"@
}

proof fn group_is_worded(group: Seq<char>, ranks: Seq<usize>)
    requires
        ranks.len() > 0,
    ensures
        report::group_text(group, ranks) == group_words(group, ranks),
{
    reveal_strlit("\n");
    reveal_strlit("]\n");
    reveal_strlit("]");
    reveal_strlit("[");
    reveal_strlit(
        " changes folded; all changes, paths and outcome sets remain in --json, with evidence samples capped per side (first example ranks, 1-based): ",
    );
    reveal_strlit(
        " changes folded; all changes, paths and outcome sets remain in --json, with evidence samples capped per side (first example ranks, 1-based): [",
    );
    reveal_with_fuel(report::number_items, 4);
    let a =
        " changes folded; all changes, paths and outcome sets remain in --json, with evidence samples capped per side (first example ranks, 1-based): "@;
    let b =
        " changes folded; all changes, paths and outcome sets remain in --json, with evidence samples capped per side (first example ranks, 1-based): ["@;
    assert(b =~= a + "["@);
    assert("]\n"@ =~= "]"@ + "\n"@);
    let shown = if ranks.len() < 3 {
        ranks.len() as int
    } else {
        3
    };
    let items = report::number_items(ranks, shown);
    assert(ranks_words(ranks) =~= "["@ + items + "]"@);
    assert(report::group_text(group, ranks) =~= group_words(group, ranks));
}

/// Changes that are folded are counted in the report under their group, with the first of
/// their ranks.
pub proof fn reports_count_what_they_fold(r: Report)
    requires
        r.changes@.len() <= usize::MAX,
        report::presented(views::each(r.changes@)).len() <= usize::MAX,
    ensures
        ({
            let list = report::presented(views::each(r.changes@));
            let failed = "One-sided unsuccessful file accesses (not necessarily faults)"@;
            let passing = "Temporary-looking file paths (heuristic, not ignored)"@;
            &&& exists|ranks: Seq<usize>| #[trigger]
                folds(ranks, list, failed) && (ranks.len() > 0 ==> has_lines(
                    report::report_text(r),
                    group_words(failed, ranks),
                ))
            &&& exists|ranks: Seq<usize>| #[trigger]
                folds(ranks, list, passing) && (ranks.len() > 0 ==> has_lines(
                    report::report_text(r),
                    group_words(passing, ranks),
                ))
        }),
{
    let list = report::presented(views::each(r.changes@));
    let n = list.len() as int;
    let failed = report::unsuccessful_group();
    let passing = report::temporary_group();
    folded_ranks(list, failed, n);
    folded_ranks(list, passing, n);
    let a = report::folded_upto(list, failed, n);
    let b = report::folded_upto(list, passing, n);
    assert(folds(a, list, failed));
    assert(folds(b, list, passing));
    part_is_whole(r, 5);
    part_is_whole(r, 6);
    if a.len() > 0 {
        group_is_worded(failed, a);
        own_lines(part(r, 5));
        part_in_report(r, 5, part(r, 5));
    }
    if b.len() > 0 {
        group_is_worded(passing, b);
        own_lines(part(r, 6));
        part_in_report(r, 6, part(r, 6));
    }
}

} // verus!
