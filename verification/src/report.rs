//! Pure presentation of already-computed results.
//!
//! Nothing here accesses storage or decides on reliability.
use vstd::prelude::*;
use vstd::string::*;

use crate::diff;
use crate::diff::{Change, ChangeView, RankClass, Report};
use crate::model::{
    Environment, Event, EventView, Evidence, EvidenceView, Metadata, RecordResult, RecordSummary,
    Run, StorageIntegrity,
};
use crate::numbers;
use crate::order;
use crate::order::IndexKey;
use crate::sorted_map::SortedMap;
use crate::text;
use crate::views;

verus! {

broadcast use crate::views::group_views;

/// A change and the group that it may be folded into.
pub struct PresentedChange<'a> {
    /// The change.
    pub change: &'a Change,
    /// The group.
    pub detail_group: Option<&'static str>,
}

/// The group of file accesses that failed and that only one side has.
pub open spec fn unsuccessful_group() -> Seq<char> {
    "One-sided unsuccessful file accesses (not necessarily faults)"@
}

/// The group of temporary-looking files that only one side has.
pub open spec fn temporary_group() -> Seq<char> {
    "Temporary-looking file paths (heuristic, not ignored)"@
}

/// The ASCII letters and digits.
pub open spec fn ascii_alphanumeric(c: char) -> bool {
    '0' <= c <= '9' || 'a' <= c <= 'z' || 'A' <= c <= 'Z'
}

/// Whether a name is a prefix and six ASCII letters or digits.
pub open spec fn random_name(s: Seq<char>, prefix: Seq<char>) -> bool {
    text::after_prefix(s, prefix) matches Some(rest) && rest.len() == 6 && forall|i: int|
        0 <= i < rest.len() ==> ascii_alphanumeric(#[trigger] rest[i])
}

/// Whether a name is that of a temporary file of a known tool.
pub open spec fn temporary_name(part: Seq<char>) -> bool {
    random_name(part, "rustc"@) || random_name(part, "rmeta"@) || random_name(part, ".tmp"@)
}

/// Whether a path looks temporary.
pub open spec fn temporary_path(path: Seq<char>) -> bool {
    let components = text::parts(path, '/');
    ||| exists|i: int| 0 <= i < components.len() && temporary_name(#[trigger] components[i])
    ||| text::contains_text(path, "/objects/"@) && random_name(components.last(), "tmp_obj_"@)
    ||| components.len() >= 2 && components[0] == ""@ && components[1] == "tmp"@ && (
    text::before_suffix(path, ".s"@) matches Some(stem) && random_name(
        text::parts(stem, '/').last(),
        "cc"@,
    ))
}

/// Whether a name is a prefix and six ASCII letters or digits.
fn is_random_name(s: &str, prefix: &str) -> (r: bool)
    ensures
        r == random_name(s@, prefix@),
{
    match text::strip_prefix(s, prefix) {
        Some(rest) => {
            for c in it: rest.chars()
                invariant
                    it.seq() == rest@,
                    forall|j: int|
                        0 <= j < it.index() ==> ascii_alphanumeric(#[trigger] rest@[j]),
                    text::after_prefix(s@, prefix@) == Some(rest@),
            {
                if !(('0' <= c && c <= '9') || ('a' <= c && c <= 'z') || ('A' <= c && c <= 'Z')) {
                    assert(!ascii_alphanumeric(rest@[it.index() as int]));
                    return false;
                }
            }
            rest.unicode_len() == 6
        },
        None => false,
    }
}

/// Whether a path looks temporary. The heuristic is for display grouping only: it
/// never changes comparison facts, reliability, the conclusion, or the exit code.
pub fn temporary_candidate(path: &str) -> (r: bool)
    ensures
        r == temporary_path(path@),
{
    let components: Vec<String> = text::split_parts(path, '/');
    let ghost names = views::each(components@);
    for i in 0..components.len()
        invariant
            names == views::each(components@),
            names == text::parts(path@, '/'),
            forall|j: int| 0 <= j < i ==> !temporary_name(#[trigger] names[j]),
    {
        assert(names[i as int] == components@[i as int]@);
        let part: &str = components[i].as_str();
        if is_random_name(part, "rustc") || is_random_name(part, "rmeta") || is_random_name(
            part,
            ".tmp",
        ) {
            assert(temporary_name(names[i as int]));
            return true;
        }
    }
    let last: usize = components.len() - 1;
    assert(names.last() == components@[last as int]@);
    assert(names[0] == components@[0]@);
    if text::has_text(path, "/objects/") && is_random_name(components[last].as_str(), "tmp_obj_") {
        return true;
    }
    if components.len() >= 2 {
        assert(names[1] == components@[1]@);
        if text::same(components[0].as_str(), "") && text::same(components[1].as_str(), "tmp") {
            match text::strip_suffix(path, ".s") {
                Some(stem) => {
                    let stems: Vec<String> = text::split_parts(stem, '/');
                    let stem_last: usize = stems.len() - 1;
                    assert(views::each(stems@).last() == stems@[stem_last as int]@);
                    return is_random_name(stems[stem_last].as_str(), "cc");
                },
                None => {},
            }
        }
    }
    false
}

/// The group that a change may be folded into.
pub open spec fn group_of(c: ChangeView) -> Option<Seq<char>> {
    match c.file_path {
        None => None,
        Some(path) => if c.left.len() > 0 && c.right.len() > 0 {
            None
        } else if !c.left.contains("success"@) && !c.right.contains("success"@) {
            Some(unsuccessful_group())
        } else if temporary_path(path) {
            Some(temporary_group())
        } else {
            None
        },
    }
}

/// Gives the group that a change may be folded into.
pub fn fold_group(change: &Change) -> (r: Option<&'static str>)
    ensures
        views::opt(r) == group_of(change@),
{
    match &change.file_path {
        None => None,
        Some(path) => {
            if change.left.len() > 0 && change.right.len() > 0 {
                None
            } else if !diff::lists_text(&change.left, "success") && !diff::lists_text(
                &change.right,
                "success",
            ) {
                Some("One-sided unsuccessful file accesses (not necessarily faults)")
            } else if temporary_candidate(path.as_str()) {
                Some("Temporary-looking file paths (heuristic, not ignored)")
            } else {
                None
            }
        },
    }
}

/// The place of a change in the presentation: its tier, behind all tiers if it may
/// be folded.
pub open spec fn priority_of(class: RankClass, folded: bool) -> int {
    if folded {
        10
    } else {
        class.position()
    }
}

/// Gives the place of a change in the presentation.
pub fn compatibility_priority(change: &Change, detail_group: Option<&str>) -> (r: u8)
    ensures
        r == priority_of(change.rank_key.class, detail_group is Some),
{
    if detail_group.is_some() {
        return 10;
    }
    match change.rank_key.class() {
        RankClass::ExitStatus => 0,
        RankClass::CaptureCompleteness => 1,
        RankClass::InvocationContext => 2,
        RankClass::SuccessToFailure => 3,
        RankClass::FailedExecutionAttempt => 4,
        RankClass::NewExecutable => 5,
        RankClass::NewFileAccess => 6,
        RankClass::RemovedExecutable => 7,
        RankClass::OutcomeSetChange => 8,
        RankClass::OtherObservation => 9,
    }
}

/// The sort key of a change: priority, production order, and position.
pub open spec fn presentation_key(changes: Seq<ChangeView>, i: int) -> IndexKey {
    IndexKey {
        major: priority_of(changes[i].rank_key.class, group_of(changes[i]) is Some) as usize,
        minor: changes[i].rank_key.comparison_order,
        index: i as usize,
    }
}

/// The sort keys of the first `n` changes.
pub open spec fn presentation_keys(changes: Seq<ChangeView>, n: int) -> Set<IndexKey> {
    Set::new(|k: IndexKey| k.index < n && k == presentation_key(changes, k.index as int))
}

/// The sort keys of changes, in the order of the presentation.
pub open spec fn presentation_order(changes: Seq<ChangeView>) -> Seq<IndexKey> {
    order::listed::<IndexKey>(presentation_keys(changes, changes.len() as int))
}

/// The changes in the order of the presentation, with their groups.
pub open spec fn presented(changes: Seq<ChangeView>) -> Seq<(ChangeView, Option<Seq<char>>)> {
    presentation_order(changes).map_values(
        |k: IndexKey| (changes[k.index as int], group_of(changes[k.index as int])),
    )
}

/// The view of presented changes.
pub open spec fn presented_views(s: Seq<PresentedChange>) -> Seq<(ChangeView, Option<Seq<char>>)> {
    s.map_values(|p: PresentedChange| (p.change@, views::opt(p.detail_group)))
}

/// Gives the changes in the order of the presentation, with their groups.
pub fn presented_changes<'a>(report: &'a Report) -> (r: Vec<PresentedChange<'a>>)
    ensures
        presented_views(r@) == presented(views::each(report.changes@)),
{
    let ghost all = views::each(report.changes@);
    let n: usize = report.changes.len();
    let mut sorted: SortedMap<IndexKey, bool> = SortedMap::new();
    for i in 0..n
        invariant
            n == report.changes@.len(),
            all == views::each(report.changes@),
            sorted.wf(),
            forall|k: IndexKey| #[trigger]
                sorted.map().contains_key(k) <==> presentation_keys(all, i as int).contains(k),
    {
        let change: &Change = &report.changes[i];
        assert(all[i as int] == change@);
        let group: Option<&'static str> = fold_group(change);
        let key = IndexKey {
            major: compatibility_priority(change, group) as usize,
            minor: change.rank_key.comparison_order(),
            index: i,
        };
        assert(key == presentation_key(all, i as int));
        sorted.insert(key, true);
    }
    proof {
        assert forall|k: IndexKey| #[trigger]
            sorted.keys().contains(k) <==> presentation_keys(all, n as int).contains(k) by {
            assert(sorted.map().contains_key(k) <==> sorted.keys().contains(k));
        }
        order::listed_unique::<IndexKey>(presentation_keys(all, n as int), sorted.keys());
    }
    let count: usize = sorted.len();
    let mut r: Vec<PresentedChange<'a>> = Vec::new();
    for j in 0..count
        invariant
            n == report.changes@.len(),
            all == views::each(report.changes@),
            sorted.wf(),
            count == sorted.pairs().len(),
            count == sorted.keys().len(),
            sorted.keys() == presentation_order(all),
            forall|k: IndexKey| #[trigger]
                sorted.map().contains_key(k) <==> presentation_keys(all, n as int).contains(k),
            presented_views(r@) == presented(all).take(j as int),
    {
        let key: &IndexKey = sorted.key_at(j);
        proof {
            sorted.entry_at(j as int);
            assert(presentation_keys(all, n as int).contains(*key));
            assert(all[key.index as int] == report.changes@[key.index as int]@);
        }
        let change: &'a Change = &report.changes[key.index];
        let presented_change = PresentedChange { change, detail_group: fold_group(change) };
        let ghost was = presented_views(r@);
        r.push(presented_change);
        assert(presented_views(r@) =~= was.push(
            (change@, views::opt(presented_change.detail_group)),
        ));
        assert(presented(all).take(j + 1) =~= presented(all).take(j as int).push(
            presented(all)[j as int],
        ));
    }
    assert(presented(all).take(count as int) =~= presented(all));
    r
}

/// The text of an optional string, or a substitute.
pub open spec fn text_or(o: Option<Seq<char>>, substitute: Seq<char>) -> Seq<char> {
    match o {
        Some(s) => s,
        None => substitute,
    }
}

/// Gives the text of an optional string, or a substitute.
fn str_or<'a>(o: &'a Option<String>, substitute: &'a str) -> (r: &'a str)
    ensures
        r@ == text_or(views::opt(*o), substitute@),
{
    match o {
        Some(s) => s.as_str(),
        None => substitute,
    }
}

/// One row of the record index.
pub open spec fn row_text(
    id: Seq<char>,
    name: Seq<char>,
    directory: Seq<char>,
    completeness: Seq<char>,
    integrity: StorageIntegrity,
) -> Seq<char> {
    id + "\t"@ + name + "\t"@ + directory + "\tcapture="@ + completeness + "\tstorage="@
        + integrity.status@ + "\t"@ + integrity.detail@ + "\n"@
}

/// The row of a record.
pub open spec fn record_row(record: RecordSummary) -> Seq<char> {
    match record {
        RecordSummary::Readable { metadata, directory, storage_integrity } => row_text(
            metadata.id@,
            metadata.name@,
            directory@,
            text_or(views::opt(metadata.completeness), "unknown"@),
            storage_integrity,
        ),
        RecordSummary::Unreadable { id, name, directory, storage_integrity } => row_text(
            text_or(views::opt(id), "(no safe ID)"@),
            text_or(views::opt(name), "(unknown label)"@),
            directory@,
            "unknown"@,
            storage_integrity,
        ),
    }
}

/// The rows of the first `n` records.
pub open spec fn record_rows(records: Seq<RecordSummary>, n: int) -> Seq<char>
    decreases n,
{
    if n <= 0 {
        Seq::empty()
    } else {
        record_rows(records, n - 1) + record_row(records[n - 1])
    }
}

/// Gives one row of the record index.
fn row_string(
    id: &str,
    name: &str,
    directory: &str,
    completeness: &str,
    integrity: &StorageIntegrity,
) -> (r: String)
    ensures
        r@ == row_text(id@, name@, directory@, completeness@, *integrity),
{
    let mut s: String = id.to_owned();
    s.append("\t");
    s.append(name);
    s.append("\t");
    s.append(directory);
    s.append("\tcapture=");
    s.append(completeness);
    s.append("\tstorage=");
    s.append(integrity.status.as_str());
    s.append("\t");
    s.append(integrity.detail.as_str());
    s.append("\n");
    s
}

/// Render the tab-separated record index.
pub fn list_text(records: &[RecordSummary]) -> (r: String)
    ensures
        r@ == record_rows(records@, records@.len() as int),
{
    let mut out: String = String::new();
    for i in 0..records.len()
        invariant
            out@ == record_rows(records@, i as int),
    {
        let row: String = match &records[i] {
            RecordSummary::Readable { metadata, directory, storage_integrity } => row_string(
                metadata.id.as_str(),
                metadata.name.as_str(),
                directory.as_str(),
                str_or(&metadata.completeness, "unknown"),
                storage_integrity,
            ),
            RecordSummary::Unreadable { id, name, directory, storage_integrity } => row_string(
                str_or(id, "(no safe ID)"),
                str_or(name, "(unknown label)"),
                directory.as_str(),
                "unknown",
                storage_integrity,
            ),
        };
        out.append(row.as_str());
    }
    out
}

/// The first `n` warnings, one per line.
pub open spec fn warning_lines(warnings: Seq<Seq<char>>, n: int) -> Seq<char>
    decreases n,
{
    if n <= 0 {
        Seq::empty()
    } else {
        warning_lines(warnings, n - 1) + ("warning: "@ + warnings[n - 1] + "\n"@)
    }
}

/// Gives warnings, one per line.
fn warning_block(warnings: &Vec<String>) -> (r: String)
    ensures
        r@ == warning_lines(views::each(warnings@), warnings@.len() as int),
{
    let ghost items = views::each(warnings@);
    let mut out: String = String::new();
    for i in 0..warnings.len()
        invariant
            items == views::each(warnings@),
            out@ == warning_lines(items, i as int),
    {
        assert(items[i as int] == warnings@[i as int]@);
        let mut line: String = "warning: ".to_owned();
        line.append(warnings[i].as_str());
        line.append("\n");
        out.append(line.as_str());
    }
    out
}

/// The summary of a finished record.
pub open spec fn record_summary(r: RecordResult) -> Seq<char> {
    "Recorded "@ + text::debug_text(r.name@) + ": "@ + r.id@ + " ("@ + r.state.spelling() + ", "@
        + numbers::decimal(r.event_count as nat) + " events, "@ + numbers::decimal(
        r.warnings@.len(),
    ) + " warnings)\nEvidence: "@ + r.evidence_dir@ + "\n"@ + warning_lines(
        views::each(r.warnings@),
        r.warnings@.len() as int,
    )
}

/// Render the summary of a finished record.
pub fn record(result: &RecordResult) -> (r: String)
    ensures
        r@ == record_summary(*result),
{
    let mut s: String = "Recorded ".to_owned();
    s.append(text::debug_string(result.name.as_str()).as_str());
    s.append(": ");
    s.append(result.id.as_str());
    s.append(" (");
    s.append(result.state.as_text());
    s.append(", ");
    s.append(numbers::decimal_string(result.event_count as u128).as_str());
    s.append(" events, ");
    s.append(numbers::decimal_string(result.warnings.len() as u128).as_str());
    s.append(" warnings)\nEvidence: ");
    s.append(result.evidence_dir.as_str());
    s.append("\n");
    s.append(warning_block(&result.warnings).as_str());
    s
}

/// What a comparison concludes on differences.
pub open spec fn differences_text(observed: Option<bool>) -> Seq<char> {
    match observed {
        Some(true) => "yes"@,
        Some(false) => "no"@,
        None => "not evaluated"@,
    }
}

/// The first `n` errors, one per line.
pub open spec fn error_lines(errors: Seq<Seq<char>>, n: int) -> Seq<char>
    decreases n,
{
    if n <= 0 {
        Seq::empty()
    } else {
        error_lines(errors, n - 1) + ("ERROR: "@ + errors[n - 1] + "\n"@)
    }
}

/// What stands before the changes of a comparison.
pub open spec fn report_head(r: Report) -> Seq<char> {
    "Run comparison: "@ + r.left@ + " → "@ + r.right@ + "\nObserved differences: "@
        + differences_text(r.observed_differences) + "\nCapture completeness: left="@
        + r.reliability.left.capture@ + ", right="@ + r.reliability.right.capture@
        + "\nStorage integrity: left="@ + r.reliability.left.storage@ + ", right="@
        + r.reliability.right.storage@ + "\nExit code: "@ + numbers::signed(r.exit_code as int)
        + "\n"@ + (if r.exit_code == 3 {
        "RELIABILITY NOT ESTABLISHED: comparison cannot establish a complete, verified result.\n"@
    } else {
        ""@
    }) + error_lines(views::each(r.errors@), r.errors@.len() as int) + (if r.observed_differences
        == Some(false) {
        "No differences in supported, aggregated observations.\n"@
    } else {
        ""@
    })
}

/// The outcomes of one side.
pub open spec fn side_text(outcomes: Seq<Seq<char>>) -> Seq<char> {
    if outcomes.len() == 0 {
        "(not observed)"@
    } else {
        text::joined_upto(outcomes, ", "@, outcomes.len() as int)
    }
}

/// The first `n` evidence samples of one side, one per line.
pub open spec fn evidence_lines(id: Seq<char>, samples: Seq<EvidenceView>, n: int) -> Seq<char>
    decreases n,
{
    if n <= 0 {
        Seq::empty()
    } else {
        let e = samples[n - 1];
        evidence_lines(id, samples, n - 1) + ("  evidence: runs/"@ + id + "/"@ + e.file + ":"@
            + numbers::decimal(e.line as nat) + "-"@ + numbers::decimal(e.end_line as nat) + "\n"@)
    }
}

/// The lines of one change.
pub open spec fn change_text(c: ChangeView, left_id: Seq<char>, right_id: Seq<char>) -> Seq<char> {
    "\n"@ + c.category + "\n"@ + (if c.subject.len() > 0 {
        "  "@ + c.subject + "\n"@
    } else {
        ""@
    }) + "  "@ + side_text(c.left) + " → "@ + side_text(c.right) + "\n"@ + evidence_lines(
        left_id,
        c.left_evidence,
        c.left_evidence.len() as int,
    ) + evidence_lines(right_id, c.right_evidence, c.right_evidence.len() as int)
}

/// The number of changes that are always shown.
pub const ALWAYS_SHOWN: usize = 5;

/// Whether the change at an index is folded.
pub open spec fn is_folded(p: (ChangeView, Option<Seq<char>>), index: int) -> bool {
    index >= ALWAYS_SHOWN && p.1 is Some
}

/// The lines of those of the first `n` changes that are not folded.
pub open spec fn shown_upto(
    list: Seq<(ChangeView, Option<Seq<char>>)>,
    left_id: Seq<char>,
    right_id: Seq<char>,
    n: int,
) -> Seq<char>
    decreases n,
{
    if n <= 0 {
        Seq::empty()
    } else {
        let before = shown_upto(list, left_id, right_id, n - 1);
        if is_folded(list[n - 1], n - 1) {
            before
        } else {
            before + change_text(list[n - 1].0, left_id, right_id)
        }
    }
}

/// The ranks, from one on, of those of the first `n` changes that are folded into a
/// group.
pub open spec fn folded_upto(
    list: Seq<(ChangeView, Option<Seq<char>>)>,
    group: Seq<char>,
    n: int,
) -> Seq<usize>
    decreases n,
{
    if n <= 0 {
        Seq::empty()
    } else {
        let before = folded_upto(list, group, n - 1);
        if is_folded(list[n - 1], n - 1) && list[n - 1].1 == Some(group) {
            before.push(n as usize)
        } else {
            before
        }
    }
}

/// The first `n` numbers of a list, as std's `Debug` formatting separates them.
pub open spec fn number_items(list: Seq<usize>, n: int) -> Seq<char>
    decreases n,
{
    if n <= 0 {
        Seq::empty()
    } else if n == 1 {
        numbers::decimal(list[0] as nat)
    } else {
        number_items(list, n - 1) + ", "@ + numbers::decimal(list[n - 1] as nat)
    }
}

/// The lines of a group.
pub open spec fn group_text(group: Seq<char>, ranks: Seq<usize>) -> Seq<char> {
    if ranks.len() == 0 {
        ""@
    } else {
        "\nDetail group: "@ + group + "\n  "@ + numbers::decimal(ranks.len())
            + " changes folded; all changes, paths and outcome sets remain in --json, with evidence samples capped per side (first example ranks, 1-based): ["@
            + number_items(
            ranks,
            if ranks.len() < 3 {
                ranks.len() as int
            } else {
                3
            },
        ) + "]\n"@
    }
}

/// The human-readable view of a comparison. The groups come in the order of their
/// names.
pub open spec fn report_text(r: Report) -> Seq<char> {
    let list = presented(views::each(r.changes@));
    let n = list.len() as int;
    report_head(r) + shown_upto(list, r.left_id@, r.right_id@, n) + group_text(
        unsuccessful_group(),
        folded_upto(list, unsuccessful_group(), n),
    ) + group_text(temporary_group(), folded_upto(list, temporary_group(), n))
        + "\nTotal observed changes: "@ + numbers::decimal(r.changes@.len())
        + " (including folded details)\n"@ + warning_lines(
        views::each(r.warnings@),
        r.warnings@.len() as int,
    ) + "\nObserved changes are investigation clues, not proof of a root cause.\n"@
}

/// Gives errors, one per line.
fn error_block(errors: &Vec<String>) -> (r: String)
    ensures
        r@ == error_lines(views::each(errors@), errors@.len() as int),
{
    let ghost items = views::each(errors@);
    let mut out: String = String::new();
    for i in 0..errors.len()
        invariant
            items == views::each(errors@),
            out@ == error_lines(items, i as int),
    {
        assert(items[i as int] == errors@[i as int]@);
        let mut line: String = "ERROR: ".to_owned();
        line.append(errors[i].as_str());
        line.append("\n");
        out.append(line.as_str());
    }
    out
}

/// Gives what stands before the changes of a comparison.
fn head_block(r: &Report) -> (out: String)
    ensures
        out@ == report_head(*r),
{
    let mut s: String = "Run comparison: ".to_owned();
    s.append(r.left.as_str());
    s.append(" → ");
    s.append(r.right.as_str());
    s.append("\nObserved differences: ");
    s.append(
        match r.observed_differences {
            Some(true) => "yes",
            Some(false) => "no",
            None => "not evaluated",
        },
    );
    s.append("\nCapture completeness: left=");
    s.append(r.reliability.left.capture.as_str());
    s.append(", right=");
    s.append(r.reliability.right.capture.as_str());
    s.append("\nStorage integrity: left=");
    s.append(r.reliability.left.storage.as_str());
    s.append(", right=");
    s.append(r.reliability.right.storage.as_str());
    s.append("\nExit code: ");
    s.append(numbers::signed_string(r.exit_code).as_str());
    s.append("\n");
    s.append(
        if r.exit_code == 3 {
            "RELIABILITY NOT ESTABLISHED: comparison cannot establish a complete, verified result.\n"
        } else {
            ""
        },
    );
    s.append(error_block(&r.errors).as_str());
    let equal: bool = match r.observed_differences {
        Some(differ) => !differ,
        None => false,
    };
    s.append(
        if equal {
            "No differences in supported, aggregated observations.\n"
        } else {
            ""
        },
    );
    s
}

/// Gives the outcomes of one side.
fn side_string(outcomes: &Vec<String>) -> (r: String)
    ensures
        r@ == side_text(views::each(outcomes@)),
{
    if outcomes.len() == 0 {
        "(not observed)".to_owned()
    } else {
        text::join(outcomes, ", ")
    }
}

/// Gives the evidence samples of one side, one per line.
fn evidence_block(id: &str, samples: &Vec<Evidence>) -> (r: String)
    ensures
        r@ == evidence_lines(id@, views::each(samples@), samples@.len() as int),
{
    let ghost items = views::each(samples@);
    let mut out: String = String::new();
    for i in 0..samples.len()
        invariant
            items == views::each(samples@),
            out@ == evidence_lines(id@, items, i as int),
    {
        assert(items[i as int] == samples@[i as int]@);
        let e: &Evidence = &samples[i];
        let mut line: String = "  evidence: runs/".to_owned();
        line.append(id);
        line.append("/");
        line.append(e.file.as_str());
        line.append(":");
        line.append(numbers::decimal_string(e.line as u128).as_str());
        line.append("-");
        line.append(numbers::decimal_string(e.end_line as u128).as_str());
        line.append("\n");
        out.append(line.as_str());
    }
    out
}

/// Gives the lines of one change.
fn change_block(c: &Change, left_id: &str, right_id: &str) -> (r: String)
    ensures
        r@ == change_text(c@, left_id@, right_id@),
{
    let mut s: String = "\n".to_owned();
    s.append(c.category.as_str());
    s.append("\n");
    let mut subject: String = "".to_owned();
    if c.subject.as_str().unicode_len() > 0 {
        subject = "  ".to_owned();
        subject.append(c.subject.as_str());
        subject.append("\n");
    }
    s.append(subject.as_str());
    s.append("  ");
    s.append(side_string(&c.left).as_str());
    s.append(" → ");
    s.append(side_string(&c.right).as_str());
    s.append("\n");
    s.append(evidence_block(left_id, &c.left_evidence).as_str());
    s.append(evidence_block(right_id, &c.right_evidence).as_str());
    s
}

/// Gives the lines of a group.
fn group_block(group: &str, ranks: &Vec<usize>) -> (r: String)
    ensures
        r@ == group_text(group@, ranks@),
{
    if ranks.len() == 0 {
        return "".to_owned();
    }
    let shown: usize = if ranks.len() < 3 {
        ranks.len()
    } else {
        3
    };
    let mut listed: String = String::new();
    for i in 0..shown
        invariant
            shown <= ranks@.len(),
            listed@ == number_items(ranks@, i as int),
    {
        let spelled: String = numbers::decimal_string(ranks[i] as u128);
        if i == 0 {
            listed = spelled;
        } else {
            listed.append(", ");
            listed.append(spelled.as_str());
        }
    }
    let mut s: String = "\nDetail group: ".to_owned();
    s.append(group);
    s.append("\n  ");
    s.append(numbers::decimal_string(ranks.len() as u128).as_str());
    s.append(
        " changes folded; all changes, paths and outcome sets remain in --json, with evidence samples capped per side (first example ranks, 1-based): [",
    );
    s.append(listed.as_str());
    s.append("]\n");
    s
}

/// Renders the human-readable view: the first changes are always shown, later ones
/// that have a group are counted in it.
pub fn render(r: &Report) -> (out: String)
    ensures
        out@ == report_text(*r),
{
    let changes: Vec<PresentedChange> = presented_changes(r);
    let ghost list = presented(views::each(r.changes@));
    let n: usize = changes.len();
    let mut shown: String = String::new();
    let mut unsuccessful: Vec<usize> = Vec::new();
    let mut temporary: Vec<usize> = Vec::new();
    for i in 0..n
        invariant
            n == changes@.len(),
            n == list.len(),
            presented_views(changes@) == list,
            list == presented(views::each(r.changes@)),
            shown@ == shown_upto(list, r.left_id@, r.right_id@, i as int),
            unsuccessful@ == folded_upto(list, unsuccessful_group(), i as int),
            temporary@ == folded_upto(list, temporary_group(), i as int),
    {
        let p: &PresentedChange = &changes[i];
        assert(list[i as int] == (p.change@, views::opt(p.detail_group)));
        if i >= ALWAYS_SHOWN && p.detail_group.is_some() {
            let group: &str = match p.detail_group {
                Some(group) => group,
                None => "",
            };
            if text::same(group, "One-sided unsuccessful file accesses (not necessarily faults)") {
                unsuccessful.push(i + 1);
            }
            if text::same(group, "Temporary-looking file paths (heuristic, not ignored)") {
                temporary.push(i + 1);
            }
        } else {
            shown.append(
                change_block(p.change, r.left_id.as_str(), r.right_id.as_str()).as_str(),
            );
        }
    }
    let mut out: String = head_block(r);
    out.append(shown.as_str());
    out.append(
        group_block(
            "One-sided unsuccessful file accesses (not necessarily faults)",
            &unsuccessful,
        ).as_str(),
    );
    out.append(
        group_block(
            "Temporary-looking file paths (heuristic, not ignored)",
            &temporary,
        ).as_str(),
    );
    out.append("\nTotal observed changes: ");
    out.append(numbers::decimal_string(r.changes.len() as u128).as_str());
    out.append(" (including folded details)\n");
    out.append(warning_block(&r.warnings).as_str());
    out.append("\nObserved changes are investigation clues, not proof of a root cause.\n");
    out
}

/// Render the human-readable diff view without recomputing its status.
pub fn text(r: &Report) -> (out: String)
    ensures
        out@ == report_text(*r),
{
    render(r)
}

/// The first `n` variables of an environment, one per line.
pub open spec fn environment_lines(e: Environment, n: int) -> Seq<char>
    decreases n,
{
    if n <= 0 {
        Seq::empty()
    } else {
        let (key, value) = e.pairs()[n - 1];
        environment_lines(e, n - 1) + ("env "@ + key@ + ": "@ + text_or(
            views::opt(value),
            "(unset)"@,
        ) + "\n"@)
    }
}

/// What is known of the path of an event.
pub open spec fn path_context(e: EventView) -> Seq<char> {
    match e.path {
        None => "unresolved"@,
        Some(p) => if e.context_uncertain || text::matches_at(p, "relative:"@, 0) {
            "uncertain / relative observation"@
        } else {
            "recorded absolute spelling; verify syscall evidence"@
        },
    }
}

/// The lines of one event.
pub open spec fn event_text(e: EventView, id: Seq<char>) -> Seq<char> {
    (if e.kind == "file"@ || e.kind == "exec"@ || e.kind == "cwd"@ {
        "  Last observed CWD (context only, not a current physical path): "@ + text_or(
            e.cwd_before,
            "unknown"@,
        ) + "\n  Path context: "@ + path_context(e) + "\n"@
    } else {
        ""@
    }) + e.pid + " "@ + e.operation + " "@ + text_or(e.path, ""@) + " => "@ + e.outcome
        + " [runs/"@ + id + "/"@ + e.evidence.file + ":"@ + numbers::decimal(
        e.evidence.line as nat,
    ) + "-"@ + numbers::decimal(e.evidence.end_line as nat) + "]\n"@
}

/// The lines of the first `n` events.
pub open spec fn event_lines(events: Seq<EventView>, id: Seq<char>, n: int) -> Seq<char>
    decreases n,
{
    if n <= 0 {
        Seq::empty()
    } else {
        event_lines(events, id, n - 1) + event_text(events[n - 1], id)
    }
}

/// The execution arguments of the first `n` events, one per line.
pub open spec fn argv_lines(events: Seq<EventView>, n: int) -> Seq<char>
    decreases n,
{
    if n <= 0 {
        Seq::empty()
    } else {
        let before = argv_lines(events, n - 1);
        match events[n - 1].argv {
            Some(argv) => before + ("exec arguments (PID "@ + events[n - 1].pid + "): "@
                + diff::debug_list(argv) + "\n"@),
            None => before,
        }
    }
}

/// The human-readable view of a run.
pub open spec fn run_text(r: Run) -> Seq<char> {
    let m = r.metadata;
    let ev = views::each(r.events@);
    "Storage integrity: "@ + r.storage_integrity.status@ + " — "@ + r.storage_integrity.detail@
        + "\n"@ + m.name@ + " ("@ + m.id@ + ")\nState: "@ + m.state@ + " / "@ + text_or(
        views::opt(m.completeness),
        "legacy/unknown"@,
    ) + "\nCommand: "@ + diff::debug_list(views::each(m.command@)) + "\nInitial cwd: "@ + m.cwd@
        + "\nExit: "@ + numbers::optional(m.exit_code) + "; signal: "@ + numbers::optional(m.signal)
        + "\nEvents: "@ + numbers::decimal(ev.len()) + "\n"@ + (match m.environment {
        Some(e) => environment_lines(e, e.pairs().len() as int),
        None => ""@,
    })
        + "Path semantics: absolute spellings are recorded syscall/strace observations, not physical identity guarantees; relative paths stay uncertain. Older records may contain historical CWD-derived spellings; consult raw evidence.\n"@
        + event_lines(ev, m.id@, ev.len() as int) + argv_lines(ev, ev.len() as int) + warning_lines(
        views::each(m.warnings@),
        m.warnings@.len() as int,
    )
}

/// Gives the variables of an environment, one per line.
fn environment_block(e: &Environment) -> (r: String)
    ensures
        r@ == environment_lines(*e, e.pairs().len() as int),
{
    let n: usize = e.len();
    let mut out: String = String::new();
    for i in 0..n
        invariant
            n == e.pairs().len(),
            out@ == environment_lines(*e, i as int),
    {
        let mut line: String = "env ".to_owned();
        line.append(e.key_at(i).as_str());
        line.append(": ");
        line.append(str_or(e.value_at(i), "(unset)"));
        line.append("\n");
        out.append(line.as_str());
    }
    out
}

/// Gives the lines of one event.
fn event_block(e: &Event, id: &str) -> (r: String)
    ensures
        r@ == event_text(e@, id@),
{
    let kind: &str = e.kind.as_str();
    let mut s: String = "".to_owned();
    if text::same(kind, "file") || text::same(kind, "exec") || text::same(kind, "cwd") {
        s = "  Last observed CWD (context only, not a current physical path): ".to_owned();
        s.append(str_or(&e.cwd_before, "unknown"));
        s.append("\n  Path context: ");
        s.append(
            match &e.path {
                None => "unresolved",
                Some(p) => if e.context_uncertain || text::starts_with(p.as_str(), "relative:") {
                    "uncertain / relative observation"
                } else {
                    "recorded absolute spelling; verify syscall evidence"
                },
            },
        );
        s.append("\n");
    }
    s.append(e.pid.as_str());
    s.append(" ");
    s.append(e.operation.as_str());
    s.append(" ");
    s.append(str_or(&e.path, ""));
    s.append(" => ");
    s.append(e.outcome.as_str());
    s.append(" [runs/");
    s.append(id);
    s.append("/");
    s.append(e.evidence.file.as_str());
    s.append(":");
    s.append(numbers::decimal_string(e.evidence.line as u128).as_str());
    s.append("-");
    s.append(numbers::decimal_string(e.evidence.end_line as u128).as_str());
    s.append("]\n");
    s
}

/// Render one already-loaded run without reinterpreting its stored evidence.
pub fn show(r: &Run) -> (out: String)
    ensures
        out@ == run_text(*r),
{
    let m: &Metadata = &r.metadata;
    let ghost ev = views::each(r.events@);
    let mut events: String = String::new();
    let mut arguments: String = String::new();
    for i in 0..r.events.len()
        invariant
            ev == views::each(r.events@),
            m == r.metadata,
            events@ == event_lines(ev, m.id@, i as int),
            arguments@ == argv_lines(ev, i as int),
    {
        let e: &Event = &r.events[i];
        assert(ev[i as int] == e@);
        events.append(event_block(e, m.id.as_str()).as_str());
        match &e.argv {
            Some(argv) => {
                let mut line: String = "exec arguments (PID ".to_owned();
                line.append(e.pid.as_str());
                line.append("): ");
                line.append(diff::debug_list_string(argv).as_str());
                line.append("\n");
                arguments.append(line.as_str());
            },
            None => {},
        }
    }
    let mut s: String = "Storage integrity: ".to_owned();
    s.append(r.storage_integrity.status.as_str());
    s.append(" — ");
    s.append(r.storage_integrity.detail.as_str());
    s.append("\n");
    s.append(m.name.as_str());
    s.append(" (");
    s.append(m.id.as_str());
    s.append(")\nState: ");
    s.append(m.state.as_str());
    s.append(" / ");
    s.append(str_or(&m.completeness, "legacy/unknown"));
    s.append("\nCommand: ");
    s.append(diff::debug_list_string(&m.command).as_str());
    s.append("\nInitial cwd: ");
    s.append(m.cwd.as_str());
    s.append("\nExit: ");
    s.append(numbers::optional_string(m.exit_code).as_str());
    s.append("; signal: ");
    s.append(numbers::optional_string(m.signal).as_str());
    s.append("\nEvents: ");
    s.append(numbers::decimal_string(r.events.len() as u128).as_str());
    s.append("\n");
    let environment: String = match &m.environment {
        Some(e) => environment_block(e),
        None => "".to_owned(),
    };
    s.append(environment.as_str());
    s.append(
        "Path semantics: absolute spellings are recorded syscall/strace observations, not physical identity guarantees; relative paths stay uncertain. Older records may contain historical CWD-derived spellings; consult raw evidence.\n",
    );
    s.append(events.as_str());
    s.append(arguments.as_str());
    s.append(warning_block(&m.warnings).as_str());
    s
}

/// Whether a presentation shows a change at a place.
pub open spec fn shows_at(changes: Seq<ChangeView>, i: int, j: int) -> bool {
    0 <= j < presentation_order(changes).len() && presentation_order(changes)[j].index == i
}

/// Every change is presented, in exactly one place: folding hides no change and repeats
/// none.
pub proof fn presentation_shows_every_change_once(changes: Seq<ChangeView>, i: int)
    requires
        changes.len() <= usize::MAX,
        0 <= i < changes.len(),
    ensures
        exists|j: int| #[trigger] shows_at(changes, i, j) && presented(changes)[j].0 == changes[i],
        forall|j: int, k: int| #[trigger]
            shows_at(changes, i, j) && #[trigger] shows_at(changes, i, k) ==> j == k,
{
    broadcast use vstd::seq_lib::seq_to_set_is_finite;
    broadcast use vstd::set_lib::lemma_set_subset_finite;

    let keys = presentation_keys(changes, changes.len() as int);
    let all = Seq::new(changes.len(), |n: int| presentation_key(changes, n));
    assert forall|k: IndexKey| keys.contains(k) implies all.to_set().contains(k) by {
        assert(all[k.index as int] == k);
    }
    assert(keys.subset_of(all.to_set()));
    order::listed_lists::<IndexKey>(keys);
    let listed = presentation_order(changes);
    let key = presentation_key(changes, i);
    assert(keys.contains(key));
    assert(listed.contains(key));
    let j = choose|j: int| 0 <= j < listed.len() && listed[j] == key;
    assert(shows_at(changes, i, j));
    assert(presented(changes)[j].0 == changes[i]);
    assert forall|a: int, b: int| #[trigger]
        shows_at(changes, i, a) && #[trigger] shows_at(changes, i, b) implies a == b by {
        assert(listed.contains(listed[a]) && listed.contains(listed[b]));
        assert(listed[a] == listed[b]);
    }
}

} // verus!
