//! What a comparison reports of two runs: every difference that the runs show, said in the
//! words of the report, and nothing else.
use vstd::prelude::*;

use crate::diff;
use crate::diff::{AccessKeyView, ChangeView};
use crate::model::{EventView, EvidenceView, Metadata, Run};
use crate::numbers;
use crate::order;
use crate::text;
use crate::views;

verus! {

/// The changes that a comparison of two runs reports.
pub open spec fn reported(l: Run, r: Run) -> Seq<ChangeView> {
    diff::ranked(diff::numbered(diff::produced(l, r)))
}

/// Whether a change says of a subject what the two sides are.
pub open spec fn says(
    c: ChangeView,
    category: Seq<char>,
    subject: Seq<char>,
    left: Seq<Seq<char>>,
    right: Seq<Seq<char>>,
) -> bool {
    c.category == category && c.subject == subject && c.left == left && c.right == right
}

/// Whether some change of a report says of a subject what the two sides are.
pub open spec fn reports(
    changes: Seq<ChangeView>,
    category: Seq<char>,
    subject: Seq<char>,
    left: Seq<Seq<char>>,
    right: Seq<Seq<char>>,
) -> bool {
    exists|i: int|
        0 <= i < changes.len() && says(#[trigger] changes[i], category, subject, left, right)
}

/// A change that was found is reported, in some place, with a rank.
proof fn produced_is_reported(l: Run, r: Run, k: int) -> (i: int)
    requires
        0 <= k < diff::produced(l, r).len(),
    ensures
        0 <= i < reported(l, r).len(),
        reported(l, r)[i] == diff::numbered(diff::produced(l, r))[k],
{
    broadcast use vstd::seq_lib::group_to_multiset_ensures;

    let all = diff::numbered(diff::produced(l, r));
    let out = reported(l, r);
    diff::ranking_keeps_every_change(all);
    assert(all.contains(all[k]));
    assert(all.to_multiset().count(all[k]) > 0);
    assert(out.contains(all[k]));
    choose|i: int| 0 <= i < out.len() && out[i] == all[k]
}

/// A change that is reported was found, in some place.
pub(crate) proof fn reported_is_produced(l: Run, r: Run, i: int) -> (k: int)
    requires
        0 <= i < reported(l, r).len(),
    ensures
        0 <= k < diff::produced(l, r).len(),
        reported(l, r)[i] == diff::numbered(diff::produced(l, r))[k],
{
    broadcast use vstd::seq_lib::group_to_multiset_ensures;

    let all = diff::numbered(diff::produced(l, r));
    let out = reported(l, r);
    diff::ranking_keeps_every_change(all);
    assert(out.contains(out[i]));
    assert(out.to_multiset().count(out[i]) > 0);
    assert(all.contains(out[i]));
    choose|k: int| 0 <= k < all.len() && all[k] == out[i]
}

/// The setting of a variable in the selected environment of a run: not selected, unset, or
/// its value.
pub open spec fn selected(m: Metadata, key: Seq<char>) -> Option<Option<Seq<char>>> {
    match m.environment {
        Some(e) if e.map().contains_key(key) => Some(views::opt(e.map()[key])),
        _ => None,
    }
}

/// Whether a text is what a report says of a setting.
pub open spec fn tells_setting(s: Seq<char>, value: Option<Option<Seq<char>>>) -> bool {
    &&& value is None ==> s == "(not selected/unknown)"@
    &&& value == Some(None::<Seq<char>>) ==> s == "(unset)"@
    &&& value matches Some(Some(v)) ==> s == "value="@ + text::debug_text(v)
}

/// Whether a change says how the setting of a variable differs.
pub open spec fn tells_variable(c: ChangeView, l: Metadata, r: Metadata, key: Seq<char>) -> bool {
    &&& c.category == "Selected startup environment"@
    &&& c.subject == key
    &&& c.left.len() == 1 && tells_setting(c.left[0], selected(l, key))
    &&& c.right.len() == 1 && tells_setting(c.right[0], selected(r, key))
    &&& c.left_evidence.len() == 0 && c.right_evidence.len() == 0
    &&& c.file_path is None
}

pub(crate) proof fn environment_keys(m: Metadata)
    ensures
        diff::environment_of(m).dom().finite(),
        forall|key: Seq<char>| #[trigger]
            diff::setting(diff::environment_of(m), key) == selected(m, key),
        forall|key: Seq<char>| #[trigger]
            diff::environment_of(m).dom().contains(key) <==> selected(m, key) is Some,
{
    broadcast use vstd::seq_lib::seq_to_set_is_finite;
    broadcast use vstd::set_lib::lemma_set_subset_finite;

    match m.environment {
        Some(e) => {
            assert(diff::environment_of(m).dom().subset_of(e.keys().to_set()));
        },
        None => {
            assert(diff::environment_of(m).dom() =~= Set::empty());
        },
    }
}

/// The change of a variable is among those of the variables up to it.
proof fn variable_found(l: Metadata, r: Metadata, keys: Seq<Seq<char>>, n: int, i: int) -> (j: int)
    requires
        0 <= i < n <= keys.len(),
        selected(l, keys[i]) != selected(r, keys[i]),
    ensures
        ({
            let all = diff::environment_changes(
                diff::environment_of(l),
                diff::environment_of(r),
                keys,
                n,
            );
            0 <= j < all.len() && tells_variable(all[j], l, r, keys[i])
        }),
    decreases n,
{
    environment_keys(l);
    environment_keys(r);
    let le = diff::environment_of(l);
    let re = diff::environment_of(r);
    assert(diff::setting(le, keys[i]) == selected(l, keys[i]));
    assert(diff::setting(re, keys[i]) == selected(r, keys[i]));
    let before = diff::environment_changes(le, re, keys, n - 1);
    if i == n - 1 {
        before.len() as int
    } else {
        variable_found(l, r, keys, n - 1, i)
    }
}

/// Every change of a variable is that of a variable whose setting differs.
proof fn variables_differ(l: Metadata, r: Metadata, keys: Seq<Seq<char>>, n: int, j: int) -> (i: int)
    requires
        0 <= n <= keys.len(),
        0 <= j < diff::environment_changes(
            diff::environment_of(l),
            diff::environment_of(r),
            keys,
            n,
        ).len(),
    ensures
        0 <= i < n,
        selected(l, keys[i]) != selected(r, keys[i]),
        tells_variable(
            diff::environment_changes(
                diff::environment_of(l),
                diff::environment_of(r),
                keys,
                n,
            )[j],
            l,
            r,
            keys[i],
        ),
    decreases n,
{
    environment_keys(l);
    environment_keys(r);
    let le = diff::environment_of(l);
    let re = diff::environment_of(r);
    assert(diff::setting(le, keys[n - 1]) == selected(l, keys[n - 1]));
    assert(diff::setting(re, keys[n - 1]) == selected(r, keys[n - 1]));
    let before = diff::environment_changes(le, re, keys, n - 1);
    if j < before.len() {
        variables_differ(l, r, keys, n - 1, j)
    } else {
        n - 1
    }
}

/// The parts that the changes of two runs are put together from: those of single values,
/// those of variables and those of accesses.
proof fn produced_in_parts(l: Run, r: Run)
    ensures
        ({
            let le = diff::environment_of(l.metadata);
            let re = diff::environment_of(r.metadata);
            let variables = order::listed::<String>(le.dom() + re.dom());
            let lv = views::each(l.events@);
            let rv = views::each(r.events@);
            let keys = diff::access_keys(lv, rv);
            diff::produced(l, r) == values_of(l, r) + diff::environment_changes(
                le,
                re,
                variables,
                variables.len() as int,
            ) + diff::access_changes(lv, rv, keys, keys.len() as int)
        }),
{
}

/// The changes of single values.
pub(crate) open spec fn values_of(l: Run, r: Run) -> Seq<ChangeView> {
    diff::simple_change(
        "Exit status"@,
        diff::target_exit_text(l.metadata),
        diff::target_exit_text(r.metadata),
    ) + diff::simple_change("Initial working directory"@, l.metadata.cwd@, r.metadata.cwd@)
        + diff::simple_change(
        "Command arguments"@,
        diff::debug_list(views::each(l.metadata.command@)),
        diff::debug_list(views::each(r.metadata.command@)),
    ) + diff::simple_change(
        "Capture completeness"@,
        diff::completeness_text(l.metadata),
        diff::completeness_text(r.metadata),
    )
}

/// Every variable whose setting differs between two runs is reported, with the variable as
/// the subject and the two settings as the sides.
pub proof fn differing_settings_are_reported(l: Run, r: Run, key: Seq<char>)
    requires
        selected(l.metadata, key) != selected(r.metadata, key),
    ensures
        exists|i: int|
            0 <= i < reported(l, r).len() && tells_variable(
                #[trigger] reported(l, r)[i],
                l.metadata,
                r.metadata,
                key,
            ),
{
    environment_keys(l.metadata);
    environment_keys(r.metadata);
    let le = diff::environment_of(l.metadata);
    let re = diff::environment_of(r.metadata);
    let all = le.dom() + re.dom();
    order::listed_lists::<String>(all);
    let keys = order::listed::<String>(all);
    assert(le.dom().contains(key) || re.dom().contains(key));
    assert(all.contains(key));
    assert(keys.contains(key));
    let i = choose|i: int| 0 <= i < keys.len() && keys[i] == key;
    let j = variable_found(l.metadata, r.metadata, keys, keys.len() as int, i);
    produced_in_parts(l, r);
    let k = values_of(l, r).len() + j;
    let found = diff::environment_changes(le, re, keys, keys.len() as int);
    assert(diff::produced(l, r)[k] == found[j]);
    let place = produced_is_reported(l, r, k);
    assert(tells_variable(reported(l, r)[place], l.metadata, r.metadata, key));
}

/// The categories of changes are told apart by their names.
pub(crate) proof fn categories_differ()
    ensures
        ({
            let names = seq![
                "Exit status"@,
                "Initial working directory"@,
                "Command arguments"@,
                "Capture completeness"@,
                "Selected startup environment"@,
                "Execution attempt changes"@,
                "Executable changes"@,
                "New file access"@,
                "Removed file access"@,
                "File access outcome changes"@,
            ];
            forall|i: int, j: int|
                #![trigger names[i], names[j]]
                0 <= i < j < 10 ==> names[i] != names[j]
        }),
        "exec"@ != "file"@,
{
    reveal_strlit("Exit status");
    reveal_strlit("Initial working directory");
    reveal_strlit("Command arguments");
    reveal_strlit("Capture completeness");
    reveal_strlit("Selected startup environment");
    reveal_strlit("Execution attempt changes");
    reveal_strlit("Executable changes");
    reveal_strlit("New file access");
    reveal_strlit("Removed file access");
    reveal_strlit("File access outcome changes");
    reveal_strlit("exec");
    reveal_strlit("file");
    assert("Exit status"@.len() == 11);
    assert("Initial working directory"@.len() == 25);
    assert("Initial working directory"@[0] == 'I');
    assert("Command arguments"@.len() == 17);
    assert("Capture completeness"@.len() == 20);
    assert("Selected startup environment"@.len() == 28);
    assert("Execution attempt changes"@.len() == 25);
    assert("Execution attempt changes"@[0] == 'E');
    assert("Executable changes"@.len() == 18);
    assert("New file access"@.len() == 15);
    assert("Removed file access"@.len() == 19);
    assert("File access outcome changes"@.len() == 27);
    assert("exec"@[0] == 'e' && "file"@[0] == 'f');
}

/// Whether a text is what a report says of the end of a target.
pub open spec fn tells_end(s: Seq<char>, m: Metadata) -> bool {
    match (m.exit_code, m.signal) {
        (Some(c), None) => s == "code=Some("@ + numbers::signed(c as int) + "), signal=None"@,
        (None, Some(n)) => s == "code=None, signal=Some("@ + numbers::signed(n as int) + ")"@,
        (Some(c), Some(n)) => s == "code=Some("@ + numbers::signed(c as int) + "), signal=Some("@
            + numbers::signed(n as int) + ")"@,
        (None, None) => match m.target_exit_raw {
            None => s == "code=None, signal=None"@,
            Some(raw) => s == "code=None, signal=None, raw="@ + text::debug_text(raw@),
        },
    }
}

proof fn ends_are_told(m: Metadata)
    ensures
        tells_end(diff::target_exit_text(m), m),
{
    reveal_strlit("code=");
    reveal_strlit(", signal=");
    reveal_strlit("Some(");
    reveal_strlit(")");
    reveal_strlit("None");
    reveal_strlit(", raw=");
    reveal_strlit("code=Some(");
    reveal_strlit("), signal=None");
    reveal_strlit("code=None, signal=Some(");
    reveal_strlit("), signal=Some(");
    reveal_strlit("code=None, signal=None");
    reveal_strlit("code=None, signal=None, raw=");
    let s = diff::target_exit_text(m);
    match (m.exit_code, m.signal) {
        (Some(c), None) => {
            assert(s =~= "code=Some("@ + numbers::signed(c as int) + "), signal=None"@);
        },
        (None, Some(n)) => {
            assert(s =~= "code=None, signal=Some("@ + numbers::signed(n as int) + ")"@);
        },
        (Some(c), Some(n)) => {
            assert(s =~= "code=Some("@ + numbers::signed(c as int) + "), signal=Some("@
                + numbers::signed(n as int) + ")"@);
        },
        (None, None) => match m.target_exit_raw {
            None => {
                assert(s =~= "code=None, signal=None"@);
            },
            Some(raw) => {
                assert(s =~= "code=None, signal=None, raw="@ + text::debug_text(raw@));
            },
        },
    }
}

/// What a report says of the ends of two targets differs where their exit codes or their
/// signals do.
proof fn ends_are_told_apart(l: Metadata, r: Metadata, s: Seq<char>)
    requires
        tells_end(s, l),
        tells_end(s, r),
    ensures
        l.exit_code == r.exit_code,
        l.signal == r.signal,
{
    reveal_strlit("code=Some(");
    reveal_strlit("), signal=None");
    reveal_strlit("code=None, signal=Some(");
    reveal_strlit("), signal=Some(");
    reveal_strlit(")");
    reveal_strlit("code=None, signal=None");
    reveal_strlit("code=None, signal=None, raw=");
    let a = numbers::signed(l.exit_code->0 as int);
    let b = numbers::signed(r.exit_code->0 as int);
    let x = numbers::signed(l.signal->0 as int);
    let y = numbers::signed(r.signal->0 as int);
    match (l.exit_code, r.exit_code) {
        (Some(c), Some(d)) => {
            numbers::signed_reads_back(c as int);
            numbers::signed_reads_back(d as int);
            assert(s[10int + a.len()] == ')');
            assert(s[10int + b.len()] == ')');
            if a.len() < b.len() {
                assert(s[10int + a.len()] == b[a.len() as int]);
            }
            if b.len() < a.len() {
                assert(s[10int + b.len()] == a[b.len() as int]);
            }
            assert(s.subrange(10, 10int + a.len()) =~= a);
            assert(s.subrange(10, 10int + b.len()) =~= b);
            let at = 20int + a.len();
            if l.signal is Some {
                assert(s[at] == 'S');
            } else {
                assert(s[at] == 'N');
            }
            if r.signal is Some {
                assert(s[at] == 'S');
            } else {
                assert(s[at] == 'N');
            }
            if l.signal is Some && r.signal is Some {
                numbers::signed_reads_back(l.signal->0 as int);
                numbers::signed_reads_back(r.signal->0 as int);
                assert(s.subrange(at + 5, s.len() - 1) =~= x);
                assert(s.subrange(at + 5, s.len() - 1) =~= y);
            }
        },
        (Some(c), None) => {
            assert(s[5] == 'S');
            assert(s[5] == 'N');
        },
        (None, Some(d)) => {
            assert(s[5] == 'S');
            assert(s[5] == 'N');
        },
        (None, None) => {
            if l.signal is Some {
                assert(s[18] == 'S');
            } else {
                assert(s[18] == 'N');
            }
            if r.signal is Some {
                assert(s[18] == 'S');
            } else {
                assert(s[18] == 'N');
            }
            if l.signal is Some && r.signal is Some {
                numbers::signed_reads_back(l.signal->0 as int);
                numbers::signed_reads_back(r.signal->0 as int);
                assert(s.subrange(23, s.len() - 1) =~= x);
                assert(s.subrange(23, s.len() - 1) =~= y);
            }
        },
    }
}

/// Whether a change says two values and nothing else.
pub open spec fn tells_values(
    c: ChangeView,
    category: Seq<char>,
    left: Seq<char>,
    right: Seq<char>,
) -> bool {
    &&& c.category == category
    &&& c.subject.len() == 0
    &&& c.left == seq![left]
    &&& c.right == seq![right]
    &&& c.left_evidence.len() == 0 && c.right_evidence.len() == 0
    &&& c.file_path is None
}

/// Targets that ended with different exit codes or by different signals are reported, and
/// so are those of which only the trace says differently how they ended.
pub proof fn differing_ends_are_reported(l: Run, r: Run)
    requires
        l.metadata.exit_code != r.metadata.exit_code || l.metadata.signal != r.metadata.signal || (
        l.metadata.exit_code is None && l.metadata.signal is None && (
        l.metadata.target_exit_raw matches Some(a) && r.metadata.target_exit_raw matches Some(b)
            && text::debug_text(a@) != text::debug_text(b@))),
    ensures
        exists|i: int, a: Seq<char>, b: Seq<char>|
            #![trigger tells_values(reported(l, r)[i], "Exit status"@, a, b)]
            0 <= i < reported(l, r).len() && tells_values(
                reported(l, r)[i],
                "Exit status"@,
                a,
                b,
            ) && tells_end(a, l.metadata) && tells_end(b, r.metadata),
{
    ends_are_told(l.metadata);
    ends_are_told(r.metadata);
    reveal_strlit("");
    let a = diff::target_exit_text(l.metadata);
    let b = diff::target_exit_text(r.metadata);
    if a == b {
        ends_are_told_apart(l.metadata, r.metadata, a);
        let x = "code=None, signal=None, raw="@;
        let p = text::debug_text(l.metadata.target_exit_raw->0@);
        let q = text::debug_text(r.metadata.target_exit_raw->0@);
        assert(a.subrange(x.len() as int, a.len() as int) =~= p);
        assert(a.subrange(x.len() as int, a.len() as int) =~= q);
    }
    let first = diff::simple_change("Exit status"@, a, b);
    assert(diff::produced(l, r)[0] == first[0]);
    let place = produced_is_reported(l, r, 0);
    assert(tells_values(reported(l, r)[place], "Exit status"@, a, b));
}

/// Runs that started in different directories are reported, with the directories.
pub proof fn differing_directories_are_reported(l: Run, r: Run)
    requires
        l.metadata.cwd@ != r.metadata.cwd@,
    ensures
        exists|i: int|
            0 <= i < reported(l, r).len() && tells_values(
                #[trigger] reported(l, r)[i],
                "Initial working directory"@,
                l.metadata.cwd@,
                r.metadata.cwd@,
            ),
{
    reveal_strlit("");
    let first = diff::simple_change(
        "Exit status"@,
        diff::target_exit_text(l.metadata),
        diff::target_exit_text(r.metadata),
    );
    let own = diff::simple_change(
        "Initial working directory"@,
        l.metadata.cwd@,
        r.metadata.cwd@,
    );
    let k = first.len() as int;
    assert(diff::produced(l, r)[k] == own[0]);
    let place = produced_is_reported(l, r, k);
    assert(tells_values(
        reported(l, r)[place],
        "Initial working directory"@,
        l.metadata.cwd@,
        r.metadata.cwd@,
    ));
}

/// Whether a text spells a list: its items as std's `Debug` formatting spells them, in
/// order, separated by commas, in brackets.
pub open spec fn spells_list(s: Seq<char>, list: Seq<Seq<char>>) -> bool
    decreases list.len(),
{
    if list.len() == 0 {
        s == "[]"@
    } else if list.len() == 1 {
        s == "["@ + text::debug_text(list[0]) + "]"@
    } else {
        let tail = ", "@ + text::debug_text(list.last()) + "]"@;
        let head = s.subrange(0, s.len() - tail.len());
        s == head + tail && spells_list(head + "]"@, list.drop_last())
    }
}

proof fn same_items(a: Seq<Seq<char>>, b: Seq<Seq<char>>, n: int)
    requires
        forall|i: int| 0 <= i < n ==> a[i] == b[i],
    ensures
        diff::debug_items(a, n) == diff::debug_items(b, n),
    decreases n,
{
    if n > 1 {
        same_items(a, b, n - 1);
    }
}

/// Every list is spelled as one.
pub proof fn lists_are_spelled(list: Seq<Seq<char>>)
    ensures
        spells_list(diff::debug_list(list), list),
    decreases list.len(),
{
    reveal_strlit("[]");
    reveal_strlit("[");
    reveal_strlit("]");
    let n = list.len() as int;
    if n == 0 {
        assert(diff::debug_list(list) =~= "[]"@);
    } else if n == 1 {
    } else {
        let shorter = list.drop_last();
        lists_are_spelled(shorter);
        same_items(list, shorter, n - 1);
        let before = "["@ + diff::debug_items(shorter, n - 1);
        assert(before + "]"@ =~= diff::debug_list(shorter));
        let tail = ", "@ + text::debug_text(list.last()) + "]"@;
        let s = diff::debug_list(list);
        assert(s =~= before + tail);
        assert(s.subrange(0, s.len() - tail.len()) =~= before);
    }
}

/// Whether a text is what a report says of the command of a run.
pub open spec fn tells_command(s: Seq<char>, m: Metadata) -> bool {
    spells_list(s, views::each(m.command@))
}

/// Runs whose commands are spelled differently are reported, with the commands.
pub proof fn differing_commands_are_reported(l: Run, r: Run)
    requires
        diff::debug_list(views::each(l.metadata.command@)) != diff::debug_list(
            views::each(r.metadata.command@),
        ),
    ensures
        exists|i: int, a: Seq<char>, b: Seq<char>|
            #![trigger tells_values(reported(l, r)[i], "Command arguments"@, a, b)]
            0 <= i < reported(l, r).len() && tells_values(
                reported(l, r)[i],
                "Command arguments"@,
                a,
                b,
            ) && tells_command(a, l.metadata) && tells_command(b, r.metadata),
{
    reveal_strlit("");
    lists_are_spelled(views::each(l.metadata.command@));
    lists_are_spelled(views::each(r.metadata.command@));
    let first = diff::simple_change(
        "Exit status"@,
        diff::target_exit_text(l.metadata),
        diff::target_exit_text(r.metadata),
    );
    let second = diff::simple_change(
        "Initial working directory"@,
        l.metadata.cwd@,
        r.metadata.cwd@,
    );
    let a = diff::debug_list(views::each(l.metadata.command@));
    let b = diff::debug_list(views::each(r.metadata.command@));
    let own = diff::simple_change("Command arguments"@, a, b);
    let k = (first.len() + second.len()) as int;
    assert(diff::produced(l, r)[k] == own[0]);
    let place = produced_is_reported(l, r, k);
    assert(tells_values(reported(l, r)[place], "Command arguments"@, a, b));
}

/// Whether a text is what a report says of the completeness of a capture.
pub open spec fn tells_completeness(s: Seq<char>, m: Metadata) -> bool {
    &&& m.completeness matches Some(c) ==> s == m.state@ + "; "@ + c@ + "; "@ + numbers::decimal(
        m.warnings@.len(),
    ) + " warnings"@
    &&& m.completeness is None ==> s == m.state@ + "; legacy/unknown; "@ + numbers::decimal(
        m.warnings@.len(),
    ) + " warnings"@
}

proof fn completeness_is_told(m: Metadata)
    ensures
        tells_completeness(diff::completeness_text(m), m),
{
    reveal_strlit("; ");
    reveal_strlit("legacy/unknown");
    reveal_strlit("; legacy/unknown; ");
    if m.completeness is None {
        assert(diff::completeness_text(m) =~= m.state@ + "; legacy/unknown; "@ + numbers::decimal(
            m.warnings@.len(),
        ) + " warnings"@);
    }
}

/// Captures of which different things are said are reported, with what is said; that is so
/// of captures that differ in the number of warnings alone, in the state alone, or in the
/// completeness alone.
pub proof fn differing_captures_are_reported(l: Run, r: Run)
    requires
        diff::completeness_text(l.metadata) != diff::completeness_text(r.metadata) || (
        l.metadata.state@ == r.metadata.state@ && views::opt(l.metadata.completeness) == views::opt(
            r.metadata.completeness,
        ) && l.metadata.warnings@.len() != r.metadata.warnings@.len()) || (l.metadata.state@
            != r.metadata.state@ && views::opt(l.metadata.completeness) == views::opt(
            r.metadata.completeness,
        ) && l.metadata.warnings@.len() == r.metadata.warnings@.len()) || (l.metadata.state@
            == r.metadata.state@ && l.metadata.completeness is Some && r.metadata.completeness is Some
            && l.metadata.completeness->0@ != r.metadata.completeness->0@
            && l.metadata.warnings@.len() == r.metadata.warnings@.len()),
    ensures
        exists|i: int, a: Seq<char>, b: Seq<char>|
            #![trigger tells_values(reported(l, r)[i], "Capture completeness"@, a, b)]
            0 <= i < reported(l, r).len() && tells_values(
                reported(l, r)[i],
                "Capture completeness"@,
                a,
                b,
            ) && tells_completeness(a, l.metadata) && tells_completeness(b, r.metadata),
{
    reveal_strlit("");
    completeness_is_told(l.metadata);
    completeness_is_told(r.metadata);
    let first = diff::simple_change(
        "Exit status"@,
        diff::target_exit_text(l.metadata),
        diff::target_exit_text(r.metadata),
    );
    let second = diff::simple_change(
        "Initial working directory"@,
        l.metadata.cwd@,
        r.metadata.cwd@,
    );
    let third = diff::simple_change(
        "Command arguments"@,
        diff::debug_list(views::each(l.metadata.command@)),
        diff::debug_list(views::each(r.metadata.command@)),
    );
    let a = diff::completeness_text(l.metadata);
    let b = diff::completeness_text(r.metadata);
    if a == b {
        let p = l.metadata.state@;
        let q = r.metadata.state@;
        let x = numbers::decimal(l.metadata.warnings@.len());
        let y = numbers::decimal(r.metadata.warnings@.len());
        let c = match l.metadata.completeness {
            Some(c) => c@,
            None => "legacy/unknown"@,
        };
        let d = match r.metadata.completeness {
            Some(d) => d@,
            None => "legacy/unknown"@,
        };
        assert(a == p + "; "@ + c + "; "@ + x + " warnings"@);
        assert(b == q + "; "@ + d + "; "@ + y + " warnings"@);
        numbers::decimal_reads_back(l.metadata.warnings@.len());
        numbers::decimal_reads_back(r.metadata.warnings@.len());
        if p == q && c == d {
            let h = (p + "; "@ + c + "; "@).len() as int;
            let t = a.len() - " warnings"@.len();
            assert(a.subrange(h, t) =~= x);
            assert(b.subrange(h, t) =~= y);
        } else if c == d && x == y {
            assert(p.len() == q.len());
            assert(a.subrange(0, p.len() as int) =~= p);
            assert(b.subrange(0, q.len() as int) =~= q);
        } else if p == q && x == y {
            reveal_strlit("; ");
            assert(a.len() == p.len() + 2 + c.len() + 2 + x.len() + " warnings"@.len());
            assert(b.len() == q.len() + 2 + d.len() + 2 + y.len() + " warnings"@.len());
            assert(c.len() == d.len());
            let h = (p + "; "@).len() as int;
            assert(a.subrange(h, h + c.len()) =~= c);
            assert(b.subrange(h, h + d.len()) =~= d);
        }
    }
    let own = diff::simple_change("Capture completeness"@, a, b);
    let k = (first.len() + second.len() + third.len()) as int;
    assert(diff::produced(l, r)[k] == own[0]);
    let place = produced_is_reported(l, r, k);
    assert(tells_values(reported(l, r)[place], "Capture completeness"@, a, b));
}

/// Whether an event is a file access or an execution attempt of some operation on some path.
pub open spec fn touches(e: EventView, key: AccessKeyView) -> bool {
    &&& e.kind == "file"@ || e.kind == "exec"@
    &&& e.kind == key.kind
    &&& e.operation == key.operation
    &&& e.path == Some(key.path)
}

/// Whether some access of a run had an outcome.
pub open spec fn observed(events: Seq<EventView>, key: AccessKeyView, outcome: Seq<char>) -> bool {
    exists|i: int|
        0 <= i < events.len() && touches(#[trigger] events[i], key) && events[i].outcome == outcome
}

proof fn observed_is_had(events: Seq<EventView>, key: AccessKeyView)
    ensures
        forall|o: Seq<char>|
            #![trigger observed(events, key, o)]
            #![trigger diff::had_outcome(events, key, o)]
            observed(events, key, o) <==> diff::had_outcome(events, key, o),
{
    assert forall|o: Seq<char>|
        #![trigger observed(events, key, o)]
        #![trigger diff::had_outcome(events, key, o)]
        observed(events, key, o) <==> diff::had_outcome(events, key, o) by {
        if observed(events, key, o) {
            let i = choose|i: int|
                0 <= i < events.len() && touches(#[trigger] events[i], key) && events[i].outcome
                    == o;
            assert(diff::accesses(events[i], key));
        }
        if diff::had_outcome(events, key, o) {
            let i = choose|i: int|
                0 <= i < events.len() && diff::accesses(#[trigger] events[i], key)
                    && events[i].outcome == o;
            assert(touches(events[i], key));
        }
    }
}

/// Whether a list holds exactly the outcomes of an access, each once, in order.
pub open spec fn lists_outcomes(
    list: Seq<Seq<char>>,
    events: Seq<EventView>,
    key: AccessKeyView,
) -> bool {
    &&& forall|o: Seq<char>| #[trigger] list.contains(o) <==> observed(events, key, o)
    &&& forall|i: int, j: int|
        0 <= i < j < list.len() ==> order::text_before(#[trigger] list[i], #[trigger] list[j])
}

/// Whether evidence is that of an access of a run with an outcome.
pub open spec fn stands_for(
    events: Seq<EventView>,
    key: AccessKeyView,
    outcome: Seq<char>,
    e: EvidenceView,
) -> bool {
    exists|i: int|
        0 <= i < events.len() && touches(#[trigger] events[i], key) && events[i].outcome == outcome
            && events[i].evidence == e
}

/// Whether evidence is that of an access of a run.
pub open spec fn evidence_of(events: Seq<EventView>, key: AccessKeyView, e: EvidenceView) -> bool {
    exists|i: int|
        0 <= i < events.len() && touches(#[trigger] events[i], key) && events[i].evidence == e
}

/// Whether samples are evidence of an access: at most three, all of them of that access of
/// that run, and where there are fewer than three, all that there is. The first is of an
/// outcome that the other run lacks, if there is one.
pub open spec fn samples_of(
    samples: Seq<EvidenceView>,
    events: Seq<EventView>,
    other: Seq<EventView>,
    key: AccessKeyView,
) -> bool {
    &&& samples.len() <= 3
    &&& forall|k: int|
        0 <= k < samples.len() ==> evidence_of(events, key, #[trigger] samples[k])
    &&& samples.len() < 3 ==> forall|i: int|
        0 <= i < events.len() && touches(#[trigger] events[i], key) ==> samples.contains(
            events[i].evidence,
        )
    &&& (exists|o: Seq<char>| #[trigger] observed(events, key, o) && !observed(other, key, o)) ==> (
    samples.len() > 0 && exists|o: Seq<char>| #[trigger]
        stands_for(events, key, o, samples[0]) && !observed(other, key, o))
}

/// Whether a category is that of a difference of an access.
pub open spec fn names_access(
    category: Seq<char>,
    kind: Seq<char>,
    left: Seq<Seq<char>>,
    right: Seq<Seq<char>>,
) -> bool {
    let failed = exists|o: Seq<char>| #[trigger]
        (left + right).contains(o) && o != "success"@;
    &&& kind == "exec"@ && failed ==> category == "Execution attempt changes"@
    &&& kind == "exec"@ && !failed ==> category == "Executable changes"@
    &&& kind == "file"@ && left.len() == 0 ==> category == "New file access"@
    &&& kind == "file"@ && left.len() > 0 && right.len() == 0 ==> category
        == "Removed file access"@
    &&& kind == "file"@ && left.len() > 0 && right.len() > 0 ==> category
        == "File access outcome changes"@
}

/// Whether a change says how the outcomes of an access differ.
pub open spec fn tells_access(
    c: ChangeView,
    l: Seq<EventView>,
    r: Seq<EventView>,
    key: AccessKeyView,
) -> bool {
    &&& c.subject == key.path + " ("@ + key.operation + ")"@
    &&& lists_outcomes(c.left, l, key)
    &&& lists_outcomes(c.right, r, key)
    &&& names_access(c.category, key.kind, c.left, c.right)
    &&& samples_of(c.left_evidence, l, r, key)
    &&& samples_of(c.right_evidence, r, l, key)
    &&& c.file_path == (if key.kind == "file"@ {
        Some(key.path)
    } else {
        None
    })
}

proof fn outcomes_are_listed(events: Seq<EventView>, key: AccessKeyView)
    ensures
        lists_outcomes(diff::outcomes(events, key), events, key),
{
    broadcast use vstd::seq_lib::seq_to_set_is_finite;
    broadcast use vstd::set_lib::lemma_set_subset_finite;

    let set = Set::new(|o: Seq<char>| diff::had_outcome(events, key, o));
    let all = events.map_values(|e: EventView| e.outcome);
    assert forall|o: Seq<char>| set.contains(o) implies all.to_set().contains(o) by {
        let i = choose|i: int|
            0 <= i < events.len() && diff::accesses(#[trigger] events[i], key) && events[i].outcome
                == o;
        assert(all[i] == o);
    }
    assert(set.subset_of(all.to_set()));
    order::listed_lists::<String>(set);
    observed_is_had(events, key);
    let list = diff::outcomes(events, key);
    assert forall|o: Seq<char>| #[trigger] list.contains(o) <==> observed(events, key, o) by {
        assert(list.contains(o) <==> set.contains(o));
        assert(diff::had_outcome(events, key, o) <==> observed(events, key, o));
    }
    assert forall|i: int, j: int| 0 <= i < j < list.len() implies order::text_before(
        #[trigger] list[i],
        #[trigger] list[j],
    ) by {
        assert(<String as order::SortKey>::before(list[i], list[j]));
    }
}

/// The evidence of an outcome is that of the accesses with that outcome.
proof fn evidence_is_of_accesses(
    events: Seq<EventView>,
    key: AccessKeyView,
    outcome: Seq<char>,
    n: int,
)
    requires
        0 <= n <= events.len(),
    ensures
        ({
            let list = diff::evidence_upto(events, key, outcome, n);
            &&& forall|k: int|
                0 <= k < list.len() ==> stands_for(events, key, outcome, #[trigger] list[k])
            &&& forall|i: int|
                0 <= i < n && touches(#[trigger] events[i], key) && events[i].outcome == outcome
                    ==> list.contains(events[i].evidence)
        }),
    decreases n,
{
    if n > 0 {
        evidence_is_of_accesses(events, key, outcome, n - 1);
        let before = diff::evidence_upto(events, key, outcome, n - 1);
        let list = diff::evidence_upto(events, key, outcome, n);
        let e = events[n - 1];
        assert(touches(e, key) == diff::accesses(e, key));
        if diff::accesses(e, key) && e.outcome == outcome {
            assert(touches(events[n - 1], key));
            assert(stands_for(events, key, outcome, e.evidence));
            assert(list[before.len() as int] == e.evidence);
            assert forall|k: int| 0 <= k < list.len() implies stands_for(
                events,
                key,
                outcome,
                #[trigger] list[k],
            ) by {
                if k < before.len() {
                    assert(list[k] == before[k]);
                }
            }
            assert forall|i: int|
                0 <= i < n && touches(#[trigger] events[i], key) && events[i].outcome
                    == outcome implies list.contains(events[i].evidence) by {
                if i < n - 1 {
                    let k = choose|k: int| 0 <= k < before.len() && before[k] == events[i].evidence;
                    assert(list[k] == events[i].evidence);
                }
            }
        }
    }
}

/// Whether one list starts with another.
spec fn extends(longer: Seq<EvidenceView>, shorter: Seq<EvidenceView>) -> bool {
    shorter.len() <= longer.len() && forall|k: int|
        0 <= k < shorter.len() ==> #[trigger] longer[k] == shorter[k]
}

/// What becomes of samples that more evidence is added to.
proof fn samples_grow(samples: Seq<EvidenceView>, list: Seq<EvidenceView>, n: int)
    requires
        0 <= n <= list.len(),
        samples.len() <= 3,
    ensures
        ({
            let a = diff::sampled_upto(samples, list, n);
            let b = diff::filled_upto(samples, list, n);
            &&& extends(a, samples) && extends(b, samples)
            &&& a.len() <= 3 && b.len() <= 3
            &&& forall|k: int|
                samples.len() <= k < a.len() ==> list.contains(#[trigger] a[k])
            &&& forall|k: int|
                samples.len() <= k < b.len() ==> list.contains(#[trigger] b[k])
            &&& b.len() < 3 ==> forall|k: int| 0 <= k < n ==> b.contains(#[trigger] list[k])
        }),
    decreases n,
{
    if n > 0 {
        samples_grow(samples, list, n - 1);
        assert(list.contains(list[n - 1]));
        let before = diff::filled_upto(samples, list, n - 1);
        let b = diff::filled_upto(samples, list, n);
        if b.len() < 3 {
            assert(b.contains(list[n - 1])) by {
                if !before.contains(list[n - 1]) {
                    assert(b[before.len() as int] == list[n - 1]);
                }
            }
            assert forall|k: int| 0 <= k < n implies b.contains(#[trigger] list[k]) by {
                if k < n - 1 {
                    assert(before.contains(list[k]));
                    let x = choose|x: int| 0 <= x < before.len() && before[x] == list[k];
                    assert(b[x] == list[k]);
                }
            }
        }
    }
}

/// Whether evidence is among that of one of a list of outcomes.
spec fn among(list: Seq<(Seq<char>, Seq<EvidenceView>)>, e: EvidenceView) -> bool {
    exists|k: int| 0 <= k < list.len() && (#[trigger] list[k]).1.contains(e)
}

/// Whether evidence is among that of an outcome that the other side lacks.
spec fn among_own(
    list: Seq<(Seq<char>, Seq<EvidenceView>)>,
    other: spec_fn(Seq<char>) -> bool,
    e: EvidenceView,
) -> bool {
    exists|k: int| 0 <= k < list.len() && !other(list[k].0) && (#[trigger] list[k]).1.contains(e)
}

proof fn own_samples(
    list: Seq<(Seq<char>, Seq<EvidenceView>)>,
    other: spec_fn(Seq<char>) -> bool,
    n: int,
)
    requires
        0 <= n <= list.len(),
    ensures
        ({
            let s = diff::samples_own(list, other, n);
            &&& s.len() <= 3
            &&& forall|k: int| 0 <= k < s.len() ==> among_own(list, other, #[trigger] s[k])
            &&& forall|k: int|
                0 <= k < n && !other(list[k].0) && (#[trigger] list[k]).1.len() > 0 ==> s.len() > 0
        }),
    decreases n,
{
    if n > 0 {
        own_samples(list, other, n - 1);
        let x = list[n - 1];
        if !other(x.0) && x.1.len() > 0 {
            assert(list[n - 1].1.contains(x.1[0]));
            assert(among_own(list, other, x.1[0]));
        }
    }
}

proof fn common_samples(
    list: Seq<(Seq<char>, Seq<EvidenceView>)>,
    other: spec_fn(Seq<char>) -> bool,
    n: int,
)
    requires
        0 <= n <= list.len(),
    ensures
        ({
            let s = diff::samples_common(list, other, n);
            &&& s.len() <= 3
            &&& extends(s, diff::samples_own(list, other, list.len() as int))
            &&& forall|k: int| 0 <= k < s.len() ==> among(list, #[trigger] s[k])
        }),
    decreases n,
{
    if n <= 0 {
        own_samples(list, other, list.len() as int);
        let s = diff::samples_own(list, other, list.len() as int);
        assert forall|k: int| 0 <= k < s.len() implies among(list, #[trigger] s[k]) by {
            assert(among_own(list, other, s[k]));
            let x = choose|x: int|
                0 <= x < list.len() && !other(list[x].0) && (#[trigger] list[x]).1.contains(s[k]);
            assert(list[x].1.contains(s[k]));
        }
    } else {
        common_samples(list, other, n - 1);
        let before = diff::samples_common(list, other, n - 1);
        let s = diff::samples_common(list, other, n);
        let items = list[n - 1].1;
        samples_grow(before, items, items.len() as int);
        assert forall|k: int| 0 <= k < s.len() implies among(list, #[trigger] s[k]) by {
            if k < before.len() {
                assert(s[k] == before[k]);
            } else {
                assert(list[n - 1].1.contains(s[k]));
            }
        }
    }
}

proof fn rest_samples(
    list: Seq<(Seq<char>, Seq<EvidenceView>)>,
    other: spec_fn(Seq<char>) -> bool,
    n: int,
)
    requires
        0 <= n <= list.len(),
    ensures
        ({
            let s = diff::samples_rest(list, other, n);
            &&& s.len() <= 3
            &&& extends(s, diff::samples_own(list, other, list.len() as int))
            &&& forall|k: int| 0 <= k < s.len() ==> among(list, #[trigger] s[k])
            &&& s.len() < 3 ==> forall|k: int, e: EvidenceView|
                0 <= k < n && #[trigger] list[k].1.contains(e) ==> s.contains(e)
        }),
    decreases n,
{
    if n <= 0 {
        common_samples(list, other, list.len() as int);
    } else {
        rest_samples(list, other, n - 1);
        let before = diff::samples_rest(list, other, n - 1);
        let s = diff::samples_rest(list, other, n);
        let items = list[n - 1].1;
        samples_grow(before, items, items.len() as int);
        assert forall|k: int| 0 <= k < s.len() implies among(list, #[trigger] s[k]) by {
            if k < before.len() {
                assert(s[k] == before[k]);
            } else {
                assert(list[n - 1].1.contains(s[k]));
            }
        }
        if s.len() < 3 {
            assert forall|k: int, e: EvidenceView|
                0 <= k < n && #[trigger] list[k].1.contains(e) implies s.contains(e) by {
                if k == n - 1 {
                    let x = choose|x: int| 0 <= x < items.len() && items[x] == e;
                    assert(s.contains(items[x]));
                } else {
                    assert(before.contains(e));
                    let x = choose|x: int| 0 <= x < before.len() && before[x] == e;
                    assert(s[x] == e);
                }
            }
        }
    }
}

proof fn accesses_are_sampled(l: Seq<EventView>, r: Seq<EventView>, key: AccessKeyView)
    ensures
        samples_of(
            diff::samples(
                diff::outcome_list(l, key),
                |o: Seq<char>| diff::had_outcome(r, key, o),
            ),
            l,
            r,
            key,
        ),
{
    let list = diff::outcome_list(l, key);
    let names = diff::outcomes(l, key);
    let other = |o: Seq<char>| diff::had_outcome(r, key, o);
    let s = diff::samples(list, other);
    let n = l.len() as int;
    outcomes_are_listed(l, key);
    observed_is_had(r, key);
    observed_is_had(l, key);
    own_samples(list, other, list.len() as int);
    rest_samples(list, other, list.len() as int);
    assert forall|k: int| 0 <= k < s.len() implies evidence_of(l, key, #[trigger] s[k]) by {
        assert(among(list, s[k]));
        let x = choose|x: int| 0 <= x < list.len() && (#[trigger] list[x]).1.contains(s[k]);
        evidence_is_of_accesses(l, key, names[x], n);
        let items = diff::evidence_upto(l, key, names[x], n);
        let y = choose|y: int| 0 <= y < items.len() && items[y] == s[k];
        assert(stands_for(l, key, names[x], items[y]));
        let i = choose|i: int|
            0 <= i < l.len() && touches(#[trigger] l[i], key) && l[i].outcome == names[x]
                && l[i].evidence == items[y];
        assert(touches(l[i], key));
    }
    if s.len() < 3 {
        assert forall|i: int| 0 <= i < l.len() && touches(#[trigger] l[i], key) implies s.contains(
            l[i].evidence,
        ) by {
            let o = l[i].outcome;
            assert(observed(l, key, o));
            assert(names.contains(o));
            let x = choose|x: int| 0 <= x < names.len() && names[x] == o;
            evidence_is_of_accesses(l, key, o, n);
            assert(list[x].1.contains(l[i].evidence));
        }
    }
    if exists|o: Seq<char>| #[trigger] observed(l, key, o) && !observed(r, key, o) {
        let o = choose|o: Seq<char>| #[trigger] observed(l, key, o) && !observed(r, key, o);
        assert(names.contains(o));
        let x = choose|x: int| 0 <= x < names.len() && names[x] == o;
        evidence_is_of_accesses(l, key, o, n);
        let i = choose|i: int|
            0 <= i < l.len() && touches(#[trigger] l[i], key) && l[i].outcome == o;
        assert(list[x].1.contains(l[i].evidence));
        assert(list[x].1.len() > 0);
        assert(!other(list[x].0));
        let own = diff::samples_own(list, other, list.len() as int);
        assert(own.len() > 0);
        assert(s[0] == own[0]);
        assert(among_own(list, other, own[0]));
        let y = choose|y: int|
            0 <= y < list.len() && !other(list[y].0) && (#[trigger] list[y]).1.contains(own[0]);
        evidence_is_of_accesses(l, key, names[y], n);
        let items = diff::evidence_upto(l, key, names[y], n);
        let z = choose|z: int| 0 <= z < items.len() && items[z] == own[0];
        assert(stands_for(l, key, names[y], items[z]));
        assert(!observed(r, key, names[y]));
        assert(stands_for(l, key, names[y], s[0]));
    }
    assert(samples_of(s, l, r, key));
}

proof fn access_is_told(l: Seq<EventView>, r: Seq<EventView>, key: AccessKeyView)
    requires
        key.kind == "file"@ || key.kind == "exec"@,
    ensures
        tells_access(diff::access_change(l, r, key), l, r, key),
{
    outcomes_are_listed(l, key);
    outcomes_are_listed(r, key);
    accesses_are_sampled(l, r, key);
    accesses_are_sampled(r, l, key);
    categories_differ();
    let c = diff::access_change(l, r, key);
    let both = c.left + c.right;
    let success = "success"@;
    if exists|i: int| 0 <= i < c.left.len() && #[trigger] c.left[i] != success {
        let i = choose|i: int| 0 <= i < c.left.len() && #[trigger] c.left[i] != success;
        assert(both[i] == c.left[i]);
        assert(both.contains(c.left[i]));
    }
    if exists|i: int| 0 <= i < c.right.len() && #[trigger] c.right[i] != success {
        let i = choose|i: int| 0 <= i < c.right.len() && #[trigger] c.right[i] != success;
        assert(both[c.left.len() + i] == c.right[i]);
        assert(both.contains(c.right[i]));
    }
    if exists|o: Seq<char>| #[trigger] both.contains(o) && o != success {
        let o = choose|o: Seq<char>| #[trigger] both.contains(o) && o != success;
        let i = choose|i: int| 0 <= i < both.len() && both[i] == o;
        if i < c.left.len() {
            assert(c.left[i] != success);
        } else {
            assert(c.right[i - c.left.len()] != success);
        }
    }
}

/// Every access of which one run had an outcome that the other had not is reported, with the
/// path and the operation as the subject, the outcomes of each run as the sides, and evidence
/// of each run.
pub proof fn differing_outcomes_are_reported(l: Run, r: Run, key: AccessKeyView, outcome: Seq<char>)
    requires
        observed(views::each(l.events@), key, outcome) != observed(
            views::each(r.events@),
            key,
            outcome,
        ),
    ensures
        exists|i: int|
            0 <= i < reported(l, r).len() && tells_access(
                #[trigger] reported(l, r)[i],
                views::each(l.events@),
                views::each(r.events@),
                key,
            ),
{
    let lv = views::each(l.events@);
    let rv = views::each(r.events@);
    outcomes_are_listed(lv, key);
    outcomes_are_listed(rv, key);
    if observed(lv, key, outcome) {
        let i = choose|i: int|
            0 <= i < lv.len() && touches(#[trigger] lv[i], key) && lv[i].outcome == outcome;
        assert(diff::accesses(lv[i], key));
    } else {
        let i = choose|i: int|
            0 <= i < rv.len() && touches(#[trigger] rv[i], key) && rv[i].outcome == outcome;
        assert(diff::accesses(rv[i], key));
    }
    assert(diff::outcomes(lv, key).contains(outcome) != diff::outcomes(rv, key).contains(outcome));
    diff::differing_accesses_are_reported(l, r, key);
    access_is_told(lv, rv, key);
    let all = diff::produced(l, r);
    let change = diff::access_change(lv, rv, key);
    let k = choose|k: int| 0 <= k < all.len() && all[k] == change;
    let place = produced_is_reported(l, r, k);
    assert(tells_access(reported(l, r)[place], lv, rv, key));
}

/// Every change of an access is that of an access whose outcomes differ.
proof fn accesses_differ(
    l: Seq<EventView>,
    r: Seq<EventView>,
    keys: Seq<AccessKeyView>,
    n: int,
    j: int,
) -> (i: int)
    requires
        0 <= n <= keys.len(),
        0 <= j < diff::access_changes(l, r, keys, n).len(),
    ensures
        0 <= i < n,
        diff::access_changes(l, r, keys, n)[j] == diff::access_change(l, r, keys[i]),
        diff::outcomes(l, keys[i]) != diff::outcomes(r, keys[i]),
    decreases n,
{
    let before = diff::access_changes(l, r, keys, n - 1);
    if j < before.len() {
        accesses_differ(l, r, keys, n - 1, j)
    } else {
        n - 1
    }
}

proof fn same_listing(
    a: Seq<Seq<char>>,
    b: Seq<Seq<char>>,
    l: Seq<EventView>,
    r: Seq<EventView>,
    key: AccessKeyView,
)
    requires
        lists_outcomes(a, l, key),
        lists_outcomes(b, r, key),
        forall|o: Seq<char>| #[trigger] observed(l, key, o) == observed(r, key, o),
    ensures
        a == b,
{
    assert forall|o: Seq<char>| a.contains(o) <==> b.contains(o) by {
        assert(a.contains(o) <==> observed(l, key, o));
        assert(b.contains(o) <==> observed(r, key, o));
    }
    assert forall|i: int, j: int|
        0 <= i < j < a.len() implies <String as order::SortKey>::before(
        #[trigger] a[i],
        #[trigger] a[j],
    ) by {}
    assert forall|i: int, j: int|
        0 <= i < j < b.len() implies <String as order::SortKey>::before(
        #[trigger] b[i],
        #[trigger] b[j],
    ) by {}
    order::increasing_unique::<String>(a, b);
}

/// Whether two runs differ in an access.
pub open spec fn differs_in_access(
    l: Seq<EventView>,
    r: Seq<EventView>,
    key: AccessKeyView,
) -> bool {
    exists|o: Seq<char>| #[trigger] observed(l, key, o) != observed(r, key, o)
}

/// Whether a change says how two runs differ: in how they ended, where they started, what
/// was run, how complete the capture is, in a variable, or in an access.
pub open spec fn tells_a_difference(c: ChangeView, l: Run, r: Run) -> bool {
    ||| exists|a: Seq<char>, b: Seq<char>| #[trigger]
        tells_values(c, "Exit status"@, a, b) && a != b && tells_end(a, l.metadata) && tells_end(
            b,
            r.metadata,
        )
    ||| tells_values(c, "Initial working directory"@, l.metadata.cwd@, r.metadata.cwd@)
        && l.metadata.cwd@ != r.metadata.cwd@
    ||| exists|a: Seq<char>, b: Seq<char>| #[trigger]
        tells_values(c, "Command arguments"@, a, b) && a != b && tells_command(a, l.metadata)
            && tells_command(b, r.metadata)
    ||| exists|a: Seq<char>, b: Seq<char>| #[trigger]
        tells_values(c, "Capture completeness"@, a, b) && a != b && tells_completeness(
            a,
            l.metadata,
        ) && tells_completeness(b, r.metadata)
    ||| tells_variable(c, l.metadata, r.metadata, c.subject) && selected(l.metadata, c.subject)
        != selected(r.metadata, c.subject)
    ||| exists|key: AccessKeyView| #[trigger]
        tells_access(c, views::each(l.events@), views::each(r.events@), key) && differs_in_access(
            views::each(l.events@),
            views::each(r.events@),
            key,
        )
}

/// Every change that is reported says how the two runs differ, and they do.
pub proof fn every_change_tells_a_difference(l: Run, r: Run, i: int)
    requires
        0 <= i < reported(l, r).len(),
    ensures
        tells_a_difference(reported(l, r)[i], l, r),
{
    let k = reported_is_produced(l, r, i);
    let c = reported(l, r)[i];
    let all = diff::produced(l, r);
    reveal_strlit("");
    ends_are_told(l.metadata);
    ends_are_told(r.metadata);
    completeness_is_told(l.metadata);
    completeness_is_told(r.metadata);
    let lc = views::each(l.metadata.command@);
    let rc = views::each(r.metadata.command@);
    lists_are_spelled(lc);
    lists_are_spelled(rc);
    let ea = diff::target_exit_text(l.metadata);
    let eb = diff::target_exit_text(r.metadata);
    let ca = diff::completeness_text(l.metadata);
    let cb = diff::completeness_text(r.metadata);
    let p1 = diff::simple_change("Exit status"@, ea, eb);
    let p2 = diff::simple_change("Initial working directory"@, l.metadata.cwd@, r.metadata.cwd@);
    let p3 = diff::simple_change("Command arguments"@, diff::debug_list(lc), diff::debug_list(rc));
    let p4 = diff::simple_change("Capture completeness"@, ca, cb);
    let le = diff::environment_of(l.metadata);
    let re = diff::environment_of(r.metadata);
    let variables = order::listed::<String>(le.dom() + re.dom());
    let p5 = diff::environment_changes(le, re, variables, variables.len() as int);
    let lv = views::each(l.events@);
    let rv = views::each(r.events@);
    let keys = diff::access_keys(lv, rv);
    let p6 = diff::access_changes(lv, rv, keys, keys.len() as int);
    assert(all == p1 + p2 + p3 + p4 + p5 + p6);
    let n1 = p1.len() as int;
    let n2 = n1 + p2.len();
    let n3 = n2 + p3.len();
    let n4 = n3 + p4.len();
    let n5 = n4 + p5.len();
    if k < n1 {
        assert(all[k] == p1[0]);
        assert(tells_values(c, "Exit status"@, ea, eb));
    } else if k < n2 {
        assert(all[k] == p2[0]);
        assert(tells_values(
            c,
            "Initial working directory"@,
            l.metadata.cwd@,
            r.metadata.cwd@,
        ));
    } else if k < n3 {
        assert(all[k] == p3[0]);
        assert(tells_values(c, "Command arguments"@, diff::debug_list(lc), diff::debug_list(rc)));
    } else if k < n4 {
        assert(all[k] == p4[0]);
        assert(tells_values(c, "Capture completeness"@, ca, cb));
    } else if k < n5 {
        assert(all[k] == p5[k - n4]);
        let x = variables_differ(
            l.metadata,
            r.metadata,
            variables,
            variables.len() as int,
            k - n4,
        );
        assert(tells_variable(c, l.metadata, r.metadata, variables[x]));
    } else {
        assert(all[k] == p6[k - n5]);
        let x = accesses_differ(lv, rv, keys, keys.len() as int, k - n5);
        let key = keys[x];
        outcomes_are_listed(lv, key);
        outcomes_are_listed(rv, key);
        if forall|o: Seq<char>| #[trigger] observed(lv, key, o) == observed(rv, key, o) {
            same_listing(diff::outcomes(lv, key), diff::outcomes(rv, key), lv, rv, key);
        }
        assert(differs_in_access(lv, rv, key));
        let o = choose|o: Seq<char>| #[trigger] observed(lv, key, o) != observed(rv, key, o);
        if observed(lv, key, o) {
            let y = choose|y: int|
                0 <= y < lv.len() && touches(#[trigger] lv[y], key) && lv[y].outcome == o;
            assert(touches(lv[y], key));
        } else {
            let y = choose|y: int|
                0 <= y < rv.len() && touches(#[trigger] rv[y], key) && rv[y].outcome == o;
            assert(touches(rv[y], key));
        }
        access_is_told(lv, rv, key);
        assert(tells_access(c, lv, rv, key));
    }
}

/// Where a change of a variable stands among those of variables.
pub(crate) proof fn variables_from(l: Run, r: Run, k: int) -> (j: int)
    requires
        0 <= k < diff::produced(l, r).len(),
        diff::produced(l, r)[k].category == "Selected startup environment"@,
    ensures
        ({
            let le = diff::environment_of(l.metadata);
            let re = diff::environment_of(r.metadata);
            let keys = order::listed::<String>(le.dom() + re.dom());
            let all = diff::environment_changes(le, re, keys, keys.len() as int);
            &&& 0 <= j < all.len()
            &&& all[j] == diff::produced(l, r)[k]
            &&& j == k - values_of(l, r).len()
        }),
{
    categories_differ();
    let names = seq![
        "Exit status"@,
        "Initial working directory"@,
        "Command arguments"@,
        "Capture completeness"@,
        "Selected startup environment"@,
        "Execution attempt changes"@,
        "Executable changes"@,
        "New file access"@,
        "Removed file access"@,
        "File access outcome changes"@,
    ];
    assert(names[0] != names[4] && names[1] != names[4] && names[2] != names[4] && names[3]
        != names[4] && names[4] != names[5] && names[4] != names[6] && names[4] != names[7]
        && names[4] != names[8] && names[4] != names[9]);
    produced_in_parts(l, r);
    let le = diff::environment_of(l.metadata);
    let re = diff::environment_of(r.metadata);
    let variables = order::listed::<String>(le.dom() + re.dom());
    let middle = diff::environment_changes(le, re, variables, variables.len() as int);
    let lv = views::each(l.events@);
    let rv = views::each(r.events@);
    let keys = diff::access_keys(lv, rv);
    let last = diff::access_changes(lv, rv, keys, keys.len() as int);
    let first = values_of(l, r);
    let all = diff::produced(l, r);
    if k < first.len() {
        assert(all[k] == first[k]);
        assert(first[k].category != "Selected startup environment"@);
    } else if k >= first.len() + middle.len() {
        let j = k - first.len() - middle.len();
        assert(all[k] == last[j]);
        let i = accesses_differ(lv, rv, keys, keys.len() as int, j);
    } else {
        assert(all[k] == middle[k - first.len()]);
    }
    k - first.len()
}

} // verus!
