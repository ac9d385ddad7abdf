//! What a comparison concludes from two runs: the order of its changes, its status, what it
//! says of the reliability of each side, and its cautions.
use vstd::prelude::*;

use crate::diff;
use crate::diff::{ChangeView, RankClass};
use crate::findings;
use crate::model::{LoadOutcome, Run};
use crate::numbers;
use crate::order;
use crate::views;

verus! {

/// Whether a change is of an access: a file or an execution.
pub open spec fn of_access(c: ChangeView) -> bool {
    c.category == "Execution attempt changes"@ || c.category == "Executable changes"@ || c.category
        == "New file access"@ || c.category == "Removed file access"@ || c.category
        == "File access outcome changes"@
}

/// Whether the right side of a change has outcomes and no success among them.
pub open spec fn only_failed(c: ChangeView) -> bool {
    c.right.len() > 0 && forall|i: int|
        0 <= i < c.right.len() ==> #[trigger] c.right[i] != "success"@
}

/// Whether a tier is the one that a change belongs to. The first that fits counts: how the
/// target ended; how complete the capture is; how the run was started; a success that
/// became a failure; an execution that failed; a new executable; a new file access; an
/// executable that is gone; other outcomes; a file access that is gone.
pub open spec fn fits(class: RankClass, c: ChangeView) -> bool {
    let fell = c.left == seq!["success"@] && only_failed(c);
    match class {
        RankClass::ExitStatus => c.category == "Exit status"@,
        RankClass::CaptureCompleteness => c.category == "Capture completeness"@,
        RankClass::InvocationContext => c.category == "Initial working directory"@ || c.category
            == "Command arguments"@ || c.category == "Selected startup environment"@,
        RankClass::SuccessToFailure => of_access(c) && fell,
        RankClass::FailedExecutionAttempt => c.category == "Execution attempt changes"@
            && only_failed(c) && !fell,
        RankClass::NewExecutable => c.category == "Executable changes"@ && c.right.len() > 0
            && !fell,
        RankClass::NewFileAccess => c.category == "New file access"@ && !fell,
        RankClass::RemovedExecutable => c.category == "Executable changes"@ && c.right.len() == 0,
        RankClass::OutcomeSetChange => !fell && (c.category == "File access outcome changes"@
            || c.category == "Execution attempt changes"@ && !only_failed(c)),
        RankClass::OtherObservation => c.category == "Removed file access"@ && !fell,
    }
}

proof fn category_known(l: Run, r: Run, i: int)
    requires
        0 <= i < findings::reported(l, r).len(),
    ensures
        ({
            let c = findings::reported(l, r)[i];
            of_access(c) || c.category == "Exit status"@ || c.category == "Capture completeness"@
                || c.category == "Initial working directory"@ || c.category == "Command arguments"@
                || c.category == "Selected startup environment"@
        }),
{
    findings::every_change_tells_a_difference(l, r, i);
    let c = findings::reported(l, r)[i];
    let lv = views::each(l.events@);
    let rv = views::each(r.events@);
    if exists|key: diff::AccessKeyView| #[trigger]
        findings::tells_access(c, lv, rv, key) && findings::differs_in_access(lv, rv, key) {
        let key = choose|key: diff::AccessKeyView| #[trigger]
            findings::tells_access(c, lv, rv, key) && findings::differs_in_access(lv, rv, key);
        let o = choose|o: Seq<char>| #[trigger]
            findings::observed(lv, key, o) != findings::observed(rv, key, o);
        if findings::observed(lv, key, o) {
            let y = choose|y: int|
                0 <= y < lv.len() && findings::touches(#[trigger] lv[y], key) && lv[y].outcome == o;
            assert(findings::touches(lv[y], key));
        } else {
            let y = choose|y: int|
                0 <= y < rv.len() && findings::touches(#[trigger] rv[y], key) && rv[y].outcome == o;
            assert(findings::touches(rv[y], key));
        }
    }
}

/// Every change that is reported has the tier that it belongs to, and belongs to no other.
pub proof fn changes_have_their_tier(l: Run, r: Run, i: int, class: RankClass)
    requires
        0 <= i < findings::reported(l, r).len(),
    ensures
        fits(class, findings::reported(l, r)[i]) <==> findings::reported(l, r)[i].rank_key.class
            == class,
{
    let c = findings::reported(l, r)[i];
    category_known(l, r, i);
    findings::categories_differ();
    let k = findings::reported_is_produced(l, r, i);
    let from = diff::produced(l, r)[k];
    assert(c.rank_key.class == diff::rank_of(from));
    assert(diff::rank_of(from) == diff::rank_of(c));
    let names = seq![
        "Exit status"@,
        "Initial working directory"@,
        "Command arguments"@,
        "Capture completeness"@,
        "Selected startup environment"@,
        "Execution attempt changes"@,
        "Executable changes"@,
        "New file access"@,
        "Removed file access"@,
        "File access outcome changes"@,
    ];
    assert(forall|i: int, j: int|
        #![trigger names[i], names[j]]
        0 <= i < j < 10 ==> names[i] != names[j]);
    assert(names[0] == "Exit status"@ && names[1] == "Initial working directory"@ && names[2]
        == "Command arguments"@ && names[3] == "Capture completeness"@ && names[4]
        == "Selected startup environment"@ && names[5] == "Execution attempt changes"@ && names[6]
        == "Executable changes"@ && names[7] == "New file access"@ && names[8]
        == "Removed file access"@ && names[9] == "File access outcome changes"@);
    assert(only_failed(c) == (c.right.len() > 0 && !c.right.contains("success"@))) by {
        if c.right.contains("success"@) {
            let j = choose|j: int| 0 <= j < c.right.len() && c.right[j] == "success"@;
            assert(c.right[j] == "success"@);
        }
    }
}

/// The place of a tier in a report: the end of the target first, what is gone last.
pub open spec fn tier(class: RankClass) -> int {
    match class {
        RankClass::ExitStatus => 1,
        RankClass::CaptureCompleteness => 2,
        RankClass::InvocationContext => 3,
        RankClass::SuccessToFailure => 4,
        RankClass::FailedExecutionAttempt => 5,
        RankClass::NewExecutable => 6,
        RankClass::NewFileAccess => 7,
        RankClass::RemovedExecutable => 8,
        RankClass::OutcomeSetChange => 9,
        RankClass::OtherObservation => 10,
    }
}

/// Changes are reported tier by tier, and within a tier in the order in which they were
/// found; no two have the same rank.
pub proof fn changes_come_tier_by_tier(l: Run, r: Run, i: int, j: int)
    requires
        diff::produced(l, r).len() <= usize::MAX,
        0 <= i < j < findings::reported(l, r).len(),
    ensures
        ({
            let a = findings::reported(l, r)[i].rank_key;
            let b = findings::reported(l, r)[j].rank_key;
            tier(a.class) < tier(b.class) || a.class == b.class && a.comparison_order
                < b.comparison_order
        }),
{
    diff::changes_come_by_rank(diff::produced(l, r), i, j);
}

/// The subjects of the changes of variables come in order, so none comes twice.
proof fn variables_in_order(
    l: Map<Seq<char>, Option<Seq<char>>>,
    r: Map<Seq<char>, Option<Seq<char>>>,
    keys: Seq<Seq<char>>,
    n: int,
)
    requires
        0 <= n <= keys.len(),
        forall|i: int, j: int|
            0 <= i < j < keys.len() ==> order::text_before(#[trigger] keys[i], #[trigger] keys[j]),
    ensures
        ({
            let all = diff::environment_changes(l, r, keys, n);
            &&& forall|i: int|
                0 <= i < all.len() ==> keys.take(n).contains((#[trigger] all[i]).subject)
            &&& forall|i: int, j: int|
                0 <= i < j < all.len() ==> order::text_before(
                    (#[trigger] all[i]).subject,
                    (#[trigger] all[j]).subject,
                )
        }),
    decreases n,
{
    if n > 0 {
        variables_in_order(l, r, keys, n - 1);
        let before = diff::environment_changes(l, r, keys, n - 1);
        let all = diff::environment_changes(l, r, keys, n);
        let shorter = keys.take(n - 1);
        assert forall|i: int| 0 <= i < all.len() implies keys.take(n).contains(
            (#[trigger] all[i]).subject,
        ) by {
            if i < before.len() {
                assert(all[i] == before[i]);
                let x = choose|x: int|
                    0 <= x < shorter.len() && shorter[x] == before[i].subject;
                assert(keys.take(n)[x] == before[i].subject);
            } else {
                assert(keys.take(n)[n - 1] == all[i].subject);
            }
        }
        assert forall|i: int, j: int| 0 <= i < j < all.len() implies order::text_before(
            (#[trigger] all[i]).subject,
            (#[trigger] all[j]).subject,
        ) by {
            assert(all[i] == before[i]);
            if j < before.len() {
                assert(all[j] == before[j]);
            } else {
                let x = choose|x: int|
                    0 <= x < shorter.len() && shorter[x] == before[i].subject;
                assert(keys[x] == before[i].subject);
            }
        }
    }
}

/// Whether a run can be relied on: it is complete and its record is verified.
pub open spec fn reliable(run: Run) -> bool {
    &&& run.metadata.state@ == "completed"@
    &&& run.metadata.completeness matches Some(c) && c@ == "complete_for_supported_events"@
    &&& run.storage_integrity.status@ == "verified"@
}

proof fn words_differ()
    ensures
        "verified"@ != "unfinalized"@,
        "complete"@ != "unknown"@,
        "complete"@ != "incomplete"@,
        "unknown"@ != "incomplete"@,
        "corrupt"@ != "unavailable"@,
        "verified"@ != "corrupt"@,
        "verified"@ != "unavailable"@,
{
    reveal_strlit("verified");
    reveal_strlit("unfinalized");
    reveal_strlit("complete");
    reveal_strlit("unknown");
    reveal_strlit("incomplete");
    reveal_strlit("corrupt");
    reveal_strlit("unavailable");
    assert("verified"@.len() == 8 && "unfinalized"@.len() == 11);
    assert("complete"@.len() == 8 && "unknown"@.len() == 7 && "incomplete"@.len() == 10);
    assert("corrupt"@.len() == 7 && "unavailable"@.len() == 11);
}

/// What is said of the reliability of a loaded run: its capture is complete, incomplete or
/// unknown, and its storage is what the integrity of the record says.
pub proof fn reliability_is_told(run: Run)
    ensures
        ({
            let (capture, storage) = diff::quality_of(run);
            let status = run.storage_integrity.status@;
            let finished = run.metadata.state@ == "completed"@ && (
            run.metadata.completeness matches Some(c) && c@ == "complete_for_supported_events"@);
            &&& storage == status
            &&& capture == "complete"@ <==> finished && status != "unfinalized"@
            &&& capture == "unknown"@ <==> status == "unfinalized"@
                || run.metadata.completeness is None
            &&& capture == "incomplete"@ <==> !finished && status != "unfinalized"@
                && run.metadata.completeness is Some
        }),
{
    words_differ();
}

/// The status of a comparison: two where a side could not be loaded; three where a side
/// cannot be relied on; else one where something differs and zero where nothing does.
pub proof fn statuses_are_told(l: LoadOutcome<Run>, r: LoadOutcome<Run>)
    ensures
        l is Failed || r is Failed <==> diff::comparison_status(l, r) == 2,
        l is Loaded && r is Loaded ==> {
            let a = l->Loaded_0;
            let b = r->Loaded_0;
            &&& diff::comparison_status(l, r) == 0 <==> reliable(a) && reliable(b)
                && findings::reported(a, b).len() == 0
            &&& diff::comparison_status(l, r) == 1 <==> reliable(a) && reliable(b)
                && findings::reported(a, b).len() > 0
            &&& diff::comparison_status(l, r) == 3 <==> !(reliable(a) && reliable(b))
        },
{
    words_differ();
    if l is Loaded && r is Loaded {
        let a = l->Loaded_0;
        let b = r->Loaded_0;
        assert(diff::quality_trusted(diff::quality_of(a)) == reliable(a));
        assert(diff::quality_trusted(diff::quality_of(b)) == reliable(b));
    }
}

/// A side that could not be loaded is of unknown capture and of corrupt or unavailable
/// storage; one that could is what its run is.
pub proof fn failed_sides_are_told(side: LoadOutcome<Run>)
    ensures
        side matches LoadOutcome::Loaded(run) ==> diff::side_quality(side) == diff::quality_of(run),
        side matches LoadOutcome::Failed(failure) ==> {
            &&& diff::side_quality(side).0 == "unknown"@
            &&& failure.kind is Corrupt ==> diff::side_quality(side).1 == "corrupt"@
            &&& !(failure.kind is Corrupt) ==> diff::side_quality(side).1 == "unavailable"@
        },
{
}

/// Each side that could not be loaded gives one error, with the name of the side and the
/// reason; a side that could gives none.
pub proof fn errors_name_their_side(l: LoadOutcome<Run>, r: LoadOutcome<Run>)
    ensures
        ({
            let errors = diff::side_errors("left"@, l) + diff::side_errors("right"@, r);
            &&& errors.len() == (if l is Failed {
                1int
            } else {
                0
            }) + (if r is Failed {
                1int
            } else {
                0
            })
            &&& l matches LoadOutcome::Failed(failure) ==> errors[0] == "left: "@ + failure.message@
            &&& r matches LoadOutcome::Failed(failure) ==> errors.last() == "right: "@
                + failure.message@
        }),
{
    reveal_strlit("left");
    reveal_strlit("right");
    reveal_strlit(": ");
    reveal_strlit("left: ");
    reveal_strlit("right: ");
    if let LoadOutcome::Failed(failure) = l {
        assert("left"@ + ": "@ + failure.message@ =~= "left: "@ + failure.message@);
    }
    if let LoadOutcome::Failed(failure) = r {
        assert("right"@ + ": "@ + failure.message@ =~= "right: "@ + failure.message@);
    }
}

/// What a comparison warns of for one run: a record that is not verified, a run without a
/// selected environment, and a capture that did not complete or that had warnings; each in
/// that order, each with the name of the run, and nothing else.
pub proof fn cautions_are_told(run: Run)
    ensures
        ({
            let all = diff::run_warnings(run);
            let name = run.metadata.name@;
            let unverified = run.storage_integrity.status@ != "verified"@;
            let unselected = run.metadata.environment is None;
            let unsure = run.metadata.state@ != "completed"@ || run.metadata.warnings@.len() > 0
                || !(run.metadata.completeness matches Some(c) && c@
                == "complete_for_supported_events"@);
            let first = if unverified {
                1int
            } else {
                0
            };
            let second = first + if unselected {
                1int
            } else {
                0
            };
            &&& all.len() == second + if unsure {
                1int
            } else {
                0
            }
            &&& unverified ==> all[0] == name + ": "@ + run.storage_integrity.detail@
            &&& unselected ==> all[first] == name
                + ": legacy record has no environment selection data"@
            &&& unsure ==> all[second] == name + ": state="@ + run.metadata.state@ + ", "@
                + numbers::decimal(run.metadata.warnings@.len())
                + " parser warnings; inspect metadata.json"@
        }),
{
}

/// No variable is reported twice.
pub proof fn variables_are_reported_once(l: Run, r: Run, i: int, j: int)
    requires
        diff::produced(l, r).len() <= usize::MAX,
        0 <= i < j < findings::reported(l, r).len(),
        findings::reported(l, r)[i].category == "Selected startup environment"@,
        findings::reported(l, r)[j].category == "Selected startup environment"@,
    ensures
        order::text_before(
            findings::reported(l, r)[i].subject,
            findings::reported(l, r)[j].subject,
        ),
        findings::reported(l, r)[i].subject != findings::reported(l, r)[j].subject,
{
    let a = findings::reported(l, r)[i];
    let b = findings::reported(l, r)[j];
    let x = findings::reported_is_produced(l, r, i);
    let y = findings::reported_is_produced(l, r, j);
    changes_come_tier_by_tier(l, r, i, j);
    changes_have_their_tier(l, r, i, RankClass::InvocationContext);
    changes_have_their_tier(l, r, j, RankClass::InvocationContext);
    assert(x < y);
    findings::environment_keys(l.metadata);
    findings::environment_keys(r.metadata);
    let le = diff::environment_of(l.metadata);
    let re = diff::environment_of(r.metadata);
    let keys = order::listed::<String>(le.dom() + re.dom());
    order::listed_lists::<String>(le.dom() + re.dom());
    assert forall|p: int, q: int| 0 <= p < q < keys.len() implies order::text_before(
        #[trigger] keys[p],
        #[trigger] keys[q],
    ) by {
        assert(<String as order::SortKey>::before(keys[p], keys[q]));
    }
    variables_in_order(le, re, keys, keys.len() as int);
    let m = findings::variables_from(l, r, x);
    let n = findings::variables_from(l, r, y);
    let all = diff::environment_changes(le, re, keys, keys.len() as int);
    assert(all[m].subject == a.subject && all[n].subject == b.subject);
    order::text_irreflexive(a.subject);
}

} // verus!
