//! What calls are read as: for each observed call, spelled with its arguments and its result,
//! the event that it gives and what it does to filesystem contexts.
use vstd::prelude::*;

use crate::model;
use crate::model::{EventView, EvidenceView};
use crate::numbers;
use crate::parse::flag_names;
use crate::parse::flags;
use crate::parse::flags::{FsAction, InvalidationScope, SpawnEffect, TraceOperation};
use crate::parse::read_back;
use crate::parse::read_back::Argument;
use crate::parse::syntax;
use crate::parse::trace;
use crate::text;

verus! {

/// What a call returned: a number, a descriptor with the path that it stands for, or an
/// error with the words that explain it.
pub enum Returned {
    /// A number.
    Number(nat),
    /// A descriptor with its path.
    Opened(nat, Seq<u8>),
    /// An error.
    Failed(Seq<char>, Seq<char>),
}

impl Returned {
    /// Numbers fit in a register, and errors have a name.
    pub open spec fn wf(self) -> bool {
        match self {
            Returned::Number(n) => n <= i64::MAX,
            Returned::Opened(n, _) => n <= i64::MAX,
            Returned::Failed(name, _) => read_back::is_word(name) && name != "success"@,
        }
    }

    /// How the result is spelled.
    pub open spec fn spelling(self) -> Seq<char> {
        match self {
            Returned::Number(n) => numbers::decimal(n),
            Returned::Opened(n, path) => read_back::described(numbers::decimal(n), path),
            Returned::Failed(name, words) => "-1 "@ + name + " "@ + words,
        }
    }

    /// What the result says of the call: a success, or the name of the error.
    pub open spec fn outcome(self) -> Seq<char> {
        match self {
            Returned::Failed(name, _) => name,
            _ => "success"@,
        }
    }
}

/// Whether a byte string is an absolute path.
pub open spec fn is_absolute(p: Seq<u8>) -> bool {
    p.len() > 0 && p[0] == 0x2f
}

/// The path that a call names. An absolute one is spelled as it is. A relative one is joined
/// to the path of the directory descriptor, where the call has one and its path is known;
/// else the spelling says what it is relative to.
pub open spec fn named_path(items: Seq<Argument>, at: bool, p: Seq<u8>) -> Seq<char> {
    if is_absolute(p) {
        model::escaped(p)
    } else if !at {
        "relative:"@ + model::escaped(p) + " [cwd unresolved]"@
    } else {
        match items[0] {
            Argument::Descriptor(_, base) => if is_absolute(base) && p.len() > 0 {
                if base.last() == 0x2f {
                    model::escaped(base + p)
                } else {
                    model::escaped(base + seq![0x2fu8] + p)
                }
            } else {
                "relative:"@ + model::escaped(p) + " [dirfd:"@ + read_back::hexed(base) + "]"@
            },
            Argument::Word(w) if w == "AT_FDCWD"@ => "relative:"@ + model::escaped(p)
                + " [cwd unresolved]"@,
            _ => "relative:"@ + model::escaped(p) + " [dirfd unresolved]"@,
        }
    }
}

/// A word and a quoted string hold no angle bracket.
proof fn plain_is_not_split(s: Seq<char>)
    requires
        forall|i: int| 0 <= i < s.len() ==> #[trigger] s[i] != '<',
    ensures
        text::split_char(s, '<') is None,
{
    text::first_at_least(s, text::just('<'), 0);
    let at = text::first_at(s, text::just('<'), 0);
    if at < s.len() {
        assert(s[at] == '<');
    }
}

proof fn description_is_split(w: Seq<char>, path: Seq<u8>)
    requires
        read_back::is_word(w),
    ensures
        text::split_char(read_back::described(w, path), '<') == Some(
            (w, read_back::hexed(path) + ">"@),
        ),
        text::before_suffix(read_back::hexed(path) + ">"@, ">"@) == Some(read_back::hexed(path)),
        syntax::annotation_bytes(read_back::hexed(path)) == Some(path),
{
    reveal_strlit("<");
    reveal_strlit(">");
    let s = read_back::described(w, path);
    let h = read_back::hexed(path);
    let n = w.len() as int;
    text::first_at_least(s, text::just('<'), 0);
    let at = text::first_at(s, text::just('<'), 0);
    assert(s[n] == '<');
    if at < n {
        assert(read_back::word_char(w[at]));
        assert(s[at] == w[at]);
    }
    assert(s.subrange(0, n) =~= w);
    assert(s.subrange(n + 1, s.len() as int) =~= h + ">"@);
    let t = h + ">"@;
    assert(t.subrange(t.len() - 1, t.len() as int) =~= ">"@);
    assert(t.subrange(0, t.len() - 1) =~= h);
    read_back::hexed_is_plain(path);
    read_back::quoted_strings_read_back(path);
}

/// The paths that calls name are read as they are meant.
pub proof fn named_paths_are_read(items: Seq<Argument>, at: bool, p: Seq<u8>)
    requires
        read_back::all_wf(items),
        items.len() > (if at {
            1int
        } else {
            0
        }),
        items[if at {
            1
        } else {
            0
        }] == Argument::Quoted(p),
    ensures
        syntax::path_text(read_back::spellings(items), at) == Some(named_path(items, at, p)),
{
    let a = read_back::spellings(items);
    let operand: int = if at {
        1
    } else {
        0
    };
    assert(a[operand] == read_back::quoted(p));
    read_back::quoted_strings_read_back(p);
    if at && !is_absolute(p) {
        assert(items[0].wf());
        assert(a[0] == items[0].spelling());
        reveal_strlit("AT_FDCWD");
        reveal_strlit("\"");
        reveal_strlit("[");
        match items[0] {
            Argument::Descriptor(w, base) => {
                description_is_split(w, base);
                if is_absolute(base) && p.len() > 0 {
                    if base.last() != 0x2f {
                        assert(base.push(0x2fu8) + p =~= base + seq![0x2fu8] + p);
                    }
                }
            },
            Argument::Word(w) => {
                assert forall|i: int| 0 <= i < w.len() implies #[trigger] w[i] != '<' by {
                    assert(read_back::word_char(w[i]));
                }
                plain_is_not_split(w);
            },
            Argument::Quoted(v) => {
                let q = read_back::quoted(v);
                let h = read_back::hexed(v);
                read_back::hexed_is_plain(v);
                assert forall|i: int| 0 <= i < q.len() implies #[trigger] q[i] != '<' by {
                    if 0 < i < q.len() - 1 {
                        assert(q[i] == h[i - 1]);
                        assert(read_back::word_char(h[i - 1]));
                    }
                }
                plain_is_not_split(q);
                assert(q[0] == '"');
            },
            Argument::List(list) => {
                list_is_plain(list);
                plain_is_not_split(a[0]);
                assert(a[0][0] == '[');
            },
        }
    }
}

proof fn items_are_plain(list: Seq<Seq<u8>>, n: int)
    requires
        0 <= n <= list.len(),
    ensures
        ({
            let s = read_back::listed_upto(read_back::all_quoted(list), n);
            forall|i: int| 0 <= i < s.len() ==> #[trigger] s[i] != '<'
        }),
    decreases n,
{
    reveal_strlit(", ");
    reveal_strlit("\"");
    if n > 0 {
        items_are_plain(list, n - 1);
        let all = read_back::all_quoted(list);
        let before = read_back::listed_upto(all, n - 1);
        let s = read_back::listed_upto(all, n);
        let q = read_back::quoted(list[n - 1]);
        let h = read_back::hexed(list[n - 1]);
        assert(all[n - 1] == q);
        read_back::hexed_is_plain(list[n - 1]);
        let head = if n == 1 {
            before
        } else {
            before + ", "@
        };
        assert(s =~= head + q);
        assert forall|i: int| 0 <= i < s.len() implies #[trigger] s[i] != '<' by {
            if i < before.len() {
                assert(s[i] == before[i]);
            } else if i >= head.len() {
                let k = i - head.len();
                assert(s[i] == q[k]);
                if 0 < k < q.len() - 1 {
                    assert(q[k] == h[k - 1]);
                    assert(read_back::word_char(h[k - 1]));
                }
            } else {
                assert(s[i] == ", "@[i - before.len()]);
            }
        }
    }
}

proof fn list_is_plain(list: Seq<Seq<u8>>)
    ensures
        forall|i: int|
            0 <= i < read_back::bracketed(list).len() ==> #[trigger] read_back::bracketed(list)[i]
                != '<',
{
    reveal_strlit("[");
    reveal_strlit("]");
    items_are_plain(list, list.len() as int);
    let s = read_back::bracketed(list);
    let inner = read_back::listed(read_back::all_quoted(list));
    assert forall|i: int| 0 <= i < s.len() implies #[trigger] s[i] != '<' by {
        if 0 < i < s.len() - 1 {
            assert(s[i] == inner[i - 1]);
        }
    }
}

proof fn results_are_read(ret: Returned)
    requires
        ret.wf(),
    ensures
        ret.spelling().len() > 0,
        !text::white_space(ret.spelling()[0]),
        trace::call_outcome(ret.spelling()) == Some(ret.outcome()),
        !(ret is Failed) ==> text::first_word(ret.spelling()) == Some(ret.spelling()),
{
    reveal_strlit("-1 ");
    match ret {
        Returned::Number(n) => {
            read_back::numbers_are_successes(n, Seq::empty());
            numbers::decimal_reads_back(n);
            assert(text::ascii_digit(numbers::decimal(n)[0]));
        },
        Returned::Opened(n, path) => {
            read_back::numbers_are_successes(n, path);
            numbers::decimal_reads_back(n);
            assert(text::ascii_digit(numbers::decimal(n)[0]));
            assert(ret.spelling()[0] == numbers::decimal(n)[0]);
        },
        Returned::Failed(name, words) => {
            read_back::errors_are_named(name, words);
            assert(ret.spelling()[0] == '-');
        },
    }
}

/// A call as it is spelled in a trace.
pub open spec fn call(op: Seq<char>, items: Seq<Argument>, ret: Returned) -> Seq<char> {
    read_back::call_text(op, read_back::spellings(items), ret.spelling())
}

/// Whether an event is that of a call: with its task, its name, its outcome and its
/// evidence, and with no context yet.
pub open spec fn is_of_call(
    e: EventView,
    pid: Seq<char>,
    op: Seq<char>,
    ret: Returned,
    evidence: EvidenceView,
) -> bool {
    &&& e.schema_version == 2
    &&& e.pid == pid
    &&& e.operation == op
    &&& e.outcome == ret.outcome()
    &&& e.evidence == evidence
    &&& e.cwd_before is None
    &&& !e.context_uncertain
}

/// The names of calls hold no parenthesis.
proof fn names_are_plain()
    ensures
        !"execve"@.contains('('),
        !"execveat"@.contains('('),
        !"open"@.contains('('),
        !"openat"@.contains('('),
        !"openat2"@.contains('('),
        !"access"@.contains('('),
        !"faccessat"@.contains('('),
        !"faccessat2"@.contains('('),
        !"chdir"@.contains('('),
        !"fchdir"@.contains('('),
        !"setns"@.contains('('),
        !"chroot"@.contains('('),
        !"pivot_root"@.contains('('),
        !"mount"@.contains('('),
        !"umount2"@.contains('('),
        !"move_mount"@.contains('('),
        !"mount_setattr"@.contains('('),
        !"unshare"@.contains('('),
{
    reveal_strlit("execve");
    reveal_strlit("execveat");
    reveal_strlit("open");
    reveal_strlit("openat");
    reveal_strlit("openat2");
    reveal_strlit("access");
    reveal_strlit("faccessat");
    reveal_strlit("faccessat2");
    reveal_strlit("chdir");
    reveal_strlit("fchdir");
    reveal_strlit("setns");
    reveal_strlit("chroot");
    reveal_strlit("pivot_root");
    reveal_strlit("mount");
    reveal_strlit("umount2");
    reveal_strlit("move_mount");
    reveal_strlit("mount_setattr");
    reveal_strlit("unshare");
}

/// What a call is read as, by how its name is read.
proof fn calls_are_read(
    pid: Seq<char>,
    op: Seq<char>,
    items: Seq<Argument>,
    ret: Returned,
    evidence: EvidenceView,
)
    requires
        !op.contains('('),
        items.len() > 0,
        read_back::all_wf(items),
        ret.wf(),
        flags::operation_of(op) is Some,
    ensures
        ({
            let a = read_back::spellings(items);
            let operation = flags::operation_of(op)->0;
            let value = text::first_word(ret.spelling())->0;
            let path = trace::call_path(operation, a, value, ret.outcome());
            let got = trace::call_event(pid, call(op, items, ret), evidence);
            &&& path is None ==> got is None
            &&& path is Some ==> (got matches Some((e, action)) && {
                &&& is_of_call(e, pid, op, ret, evidence)
                &&& e.kind == trace::kind_of(operation)
                &&& e.path == path->0
                &&& e.argv == trace::call_argv(operation, a)
                &&& e.child_pid == (if operation is Spawn && ret.outcome() == "success"@ {
                    Some(value)
                } else {
                    None
                })
                &&& action == trace::call_action(operation, op, a, ret.outcome())
            })
        }),
{
    results_are_read(ret);
    read_back::calls_read_back(op, items, ret.spelling());
}

/// An execution attempt names the path of the executable and all its arguments, whatever its
/// outcome.
pub proof fn executions_are_read(
    pid: Seq<char>,
    p: Seq<u8>,
    argv: Seq<Seq<u8>>,
    rest: Seq<Argument>,
    ret: Returned,
    evidence: EvidenceView,
)
    requires
        read_back::all_wf(rest),
        ret.wf(),
    ensures
        ({
            let items = seq![Argument::Quoted(p), Argument::List(argv)] + rest;
            trace::call_event(pid, call("execve"@, items, ret), evidence) matches Some((e, action))
                && {
                &&& is_of_call(e, pid, "execve"@, ret, evidence)
                &&& e.kind == "exec"@
                &&& e.path == Some(named_path(items, false, p))
                &&& e.argv == Some(Seq::new(argv.len(), |i: int| model::escaped(argv[i])))
                &&& e.child_pid is None
                &&& action == FsAction::Nothing
            }
        }),
{
    let items = seq![Argument::Quoted(p), Argument::List(argv)] + rest;
    flag_names::observed_calls();
    reveal_strlit("execve");
    assert forall|i: int| 0 <= i < items.len() implies (#[trigger] items[i]).wf() by {
        if i >= 2 {
            assert(items[i] == rest[i - 2]);
        }
    }
    calls_are_read(pid, "execve"@, items, ret, evidence);
    named_paths_are_read(items, false, p);
    read_back::execution_arguments_read_back(argv);
    assert(read_back::spellings(items)[1] == read_back::bracketed(argv));
}

/// An execution attempt by a directory descriptor names the path from that directory on.
pub proof fn executions_at_directories_are_read(
    pid: Seq<char>,
    directory: Argument,
    p: Seq<u8>,
    argv: Seq<Seq<u8>>,
    rest: Seq<Argument>,
    ret: Returned,
    evidence: EvidenceView,
)
    requires
        directory.wf(),
        read_back::all_wf(rest),
        ret.wf(),
    ensures
        ({
            let items = seq![directory, Argument::Quoted(p), Argument::List(argv)] + rest;
            trace::call_event(
                pid,
                call("execveat"@, items, ret),
                evidence,
            ) matches Some((e, action)) && {
                &&& is_of_call(e, pid, "execveat"@, ret, evidence)
                &&& e.kind == "exec"@
                &&& e.path == Some(named_path(items, true, p))
                &&& e.argv == Some(Seq::new(argv.len(), |i: int| model::escaped(argv[i])))
                &&& e.child_pid is None
                &&& action == FsAction::Nothing
            }
        }),
{
    let items = seq![directory, Argument::Quoted(p), Argument::List(argv)] + rest;
    flag_names::observed_calls();
    reveal_strlit("execveat");
    assert forall|i: int| 0 <= i < items.len() implies (#[trigger] items[i]).wf() by {
        if i >= 3 {
            assert(items[i] == rest[i - 3]);
        }
    }
    calls_are_read(pid, "execveat"@, items, ret, evidence);
    named_paths_are_read(items, true, p);
    read_back::execution_arguments_read_back(argv);
    assert(read_back::spellings(items)[2] == read_back::bracketed(argv));
}

/// The path of a file access: the one that the call names, or the one of the descriptor that
/// it returned, where it opened a relative path and the descriptor has an absolute one.
pub open spec fn accessed_path(
    items: Seq<Argument>,
    at: bool,
    opening: bool,
    p: Seq<u8>,
    ret: Returned,
) -> Seq<char> {
    match ret {
        Returned::Opened(_, path) if opening && !is_absolute(p) && is_absolute(path) => model::escaped(
            path,
        ),
        _ => named_path(items, at, p),
    }
}

proof fn descriptors_are_read(w: Seq<char>, path: Seq<u8>)
    requires
        read_back::is_word(w),
    ensures
        syntax::descriptor_path(read_back::described(w, path)) == (if is_absolute(path) {
            Some(model::escaped(path))
        } else {
            None
        }),
{
    description_is_split(w, path);
    read_back::hexed_is_plain(path);
}

proof fn digits_are_a_word(n: nat)
    ensures
        read_back::is_word(numbers::decimal(n)),
{
    numbers::decimal_reads_back(n);
    let d = numbers::decimal(n);
    assert forall|i: int| 0 <= i < d.len() implies read_back::word_char(#[trigger] d[i]) by {
        assert(text::ascii_digit(d[i]));
    }
}

/// Whether an event and an action are those of a file access that changes no context.
pub open spec fn is_access(
    got: Option<(EventView, FsAction)>,
    pid: Seq<char>,
    op: Seq<char>,
    path: Seq<char>,
    ret: Returned,
    evidence: EvidenceView,
) -> bool {
    got matches Some((e, action)) && {
        &&& is_of_call(e, pid, op, ret, evidence)
        &&& e.kind == "file"@
        &&& e.path == Some(path)
        &&& e.argv is None
        &&& e.child_pid is None
        &&& action == FsAction::Nothing
    }
}

proof fn accesses_are_read(
    pid: Seq<char>,
    op: Seq<char>,
    at: bool,
    opening: bool,
    items: Seq<Argument>,
    p: Seq<u8>,
    ret: Returned,
    evidence: EvidenceView,
)
    requires
        !op.contains('('),
        flags::operation_of(op) == Some(TraceOperation::File { at, returned_path: opening }),
        items.len() > (if at {
            1int
        } else {
            0
        }),
        items[if at {
            1
        } else {
            0
        }] == Argument::Quoted(p),
        read_back::all_wf(items),
        ret.wf(),
    ensures
        is_access(
            trace::call_event(pid, call(op, items, ret), evidence),
            pid,
            op,
            accessed_path(items, at, opening, p, ret),
            ret,
            evidence,
        ),
{
    let operand: int = if at {
        1
    } else {
        0
    };
    let a = read_back::spellings(items);
    assert(a[operand] == read_back::quoted(p));
    calls_are_read(pid, op, items, ret, evidence);
    named_paths_are_read(items, at, p);
    read_back::quoted_strings_read_back(p);
    results_are_read(ret);
    match ret {
        Returned::Opened(n, path) => {
            digits_are_a_word(n);
            descriptors_are_read(numbers::decimal(n), path);
        },
        Returned::Number(n) => {
            digits_are_a_word(n);
            let d = numbers::decimal(n);
            assert forall|i: int| 0 <= i < d.len() implies #[trigger] d[i] != '<' by {
                assert(read_back::word_char(d[i]));
            }
            plain_is_not_split(d);
        },
        _ => {},
    }
}

/// Opening a file and asking for access to it are file accesses of the path that they name.
pub proof fn file_accesses_are_read(
    pid: Seq<char>,
    p: Seq<u8>,
    rest: Seq<Argument>,
    ret: Returned,
    evidence: EvidenceView,
)
    requires
        read_back::all_wf(rest),
        ret.wf(),
    ensures
        ({
            let items = seq![Argument::Quoted(p)] + rest;
            &&& is_access(
                trace::call_event(pid, call("open"@, items, ret), evidence),
                pid,
                "open"@,
                accessed_path(items, false, true, p, ret),
                ret,
                evidence,
            )
            &&& is_access(
                trace::call_event(pid, call("access"@, items, ret), evidence),
                pid,
                "access"@,
                accessed_path(items, false, false, p, ret),
                ret,
                evidence,
            )
        }),
{
    let items = seq![Argument::Quoted(p)] + rest;
    flag_names::observed_calls();
    names_are_plain();
    assert forall|i: int| 0 <= i < items.len() implies (#[trigger] items[i]).wf() by {
        if i >= 1 {
            assert(items[i] == rest[i - 1]);
        }
    }
    accesses_are_read(pid, "open"@, false, true, items, p, ret, evidence);
    accesses_are_read(pid, "access"@, false, false, items, p, ret, evidence);
}

/// The same by a directory descriptor are file accesses of the path from that directory on.
pub proof fn file_accesses_at_directories_are_read(
    pid: Seq<char>,
    directory: Argument,
    p: Seq<u8>,
    rest: Seq<Argument>,
    ret: Returned,
    evidence: EvidenceView,
)
    requires
        directory.wf(),
        read_back::all_wf(rest),
        ret.wf(),
    ensures
        ({
            let items = seq![directory, Argument::Quoted(p)] + rest;
            let opened = accessed_path(items, true, true, p, ret);
            let asked = accessed_path(items, true, false, p, ret);
            &&& is_access(
                trace::call_event(pid, call("openat"@, items, ret), evidence),
                pid,
                "openat"@,
                opened,
                ret,
                evidence,
            )
            &&& is_access(
                trace::call_event(pid, call("openat2"@, items, ret), evidence),
                pid,
                "openat2"@,
                opened,
                ret,
                evidence,
            )
            &&& is_access(
                trace::call_event(pid, call("faccessat"@, items, ret), evidence),
                pid,
                "faccessat"@,
                asked,
                ret,
                evidence,
            )
            &&& is_access(
                trace::call_event(pid, call("faccessat2"@, items, ret), evidence),
                pid,
                "faccessat2"@,
                asked,
                ret,
                evidence,
            )
        }),
{
    let items = seq![directory, Argument::Quoted(p)] + rest;
    flag_names::observed_calls();
    names_are_plain();
    assert forall|i: int| 0 <= i < items.len() implies (#[trigger] items[i]).wf() by {
        if i >= 2 {
            assert(items[i] == rest[i - 2]);
        }
    }
    accesses_are_read(pid, "openat"@, true, true, items, p, ret, evidence);
    accesses_are_read(pid, "openat2"@, true, true, items, p, ret, evidence);
    accesses_are_read(pid, "faccessat"@, true, false, items, p, ret, evidence);
    accesses_are_read(pid, "faccessat2"@, true, false, items, p, ret, evidence);
}

/// A change of the working directory by path names the new directory as the call does.
pub proof fn directory_changes_are_read(
    pid: Seq<char>,
    p: Seq<u8>,
    ret: Returned,
    evidence: EvidenceView,
)
    requires
        ret.wf(),
    ensures
        ({
            let items = seq![Argument::Quoted(p)];
            trace::call_event(pid, call("chdir"@, items, ret), evidence) matches Some((e, action))
                && {
                &&& is_of_call(e, pid, "chdir"@, ret, evidence)
                &&& e.kind == "cwd"@
                &&& e.path == Some(named_path(items, false, p))
                &&& e.argv is None && e.child_pid is None
                &&& action == FsAction::Nothing
            }
        }),
{
    flag_names::observed_calls();
    names_are_plain();
    let items = seq![Argument::Quoted(p)];
    calls_are_read(pid, "chdir"@, items, ret, evidence);
    named_paths_are_read(items, false, p);
}

/// A change of the working directory by descriptor names the path that the descriptor stands
/// for, if that is known and absolute.
pub proof fn directory_changes_by_descriptor_are_read(
    pid: Seq<char>,
    w: Seq<char>,
    path: Option<Seq<u8>>,
    ret: Returned,
    evidence: EvidenceView,
)
    requires
        read_back::is_word(w),
        ret.wf(),
    ensures
        ({
            let items = match path {
                Some(p) => seq![Argument::Descriptor(w, p)],
                None => seq![Argument::Word(w)],
            };
            trace::call_event(pid, call("fchdir"@, items, ret), evidence) matches Some((e, action))
                && {
                &&& is_of_call(e, pid, "fchdir"@, ret, evidence)
                &&& e.kind == "cwd"@
                &&& e.path == (match path {
                    Some(p) if is_absolute(p) => Some(model::escaped(p)),
                    _ => None,
                })
                &&& e.argv is None && e.child_pid is None
                &&& action == FsAction::Nothing
            }
        }),
{
    flag_names::observed_calls();
    names_are_plain();
    match path {
        Some(p) => {
            let items = seq![Argument::Descriptor(w, p)];
            assert(items[0].wf());
            calls_are_read(pid, "fchdir"@, items, ret, evidence);
            descriptors_are_read(w, p);
            assert(read_back::spellings(items)[0] == read_back::described(w, p));
        },
        None => {
            let items = seq![Argument::Word(w)];
            assert(items[0].wf());
            calls_are_read(pid, "fchdir"@, items, ret, evidence);
            assert(read_back::spellings(items)[0] == w);
            assert forall|i: int| 0 <= i < w.len() implies #[trigger] w[i] != '<' by {
                assert(read_back::word_char(w[i]));
            }
            plain_is_not_split(w);
        },
    }
}

/// Whether an event and an action are those of a new task.
pub open spec fn is_spawn(
    got: Option<(EventView, FsAction)>,
    pid: Seq<char>,
    op: Seq<char>,
    ret: Returned,
    effect: SpawnEffect,
    evidence: EvidenceView,
) -> bool {
    got matches Some((e, action)) && {
        &&& is_of_call(e, pid, op, ret, evidence)
        &&& e.kind == "spawn"@
        &&& e.argv is None
        &&& ret matches Returned::Number(n) ==> e.child_pid == Some(numbers::decimal(n)) && action
            == FsAction::Spawn(effect)
        &&& ret is Failed ==> e.child_pid is None && action == FsAction::Nothing
    }
}

/// The first argument that holds a field gives it.
proof fn field_is_found(items: Seq<Argument>, i: int, at: int, marker: Seq<char>, f: Seq<char>)
    requires
        0 <= at <= i < items.len(),
        read_back::is_word(f),
        items[i] == Argument::Word(marker + f),
        marker.len() > 0,
        forall|j: int|
            0 <= j < i ==> !text::contains_text((#[trigger] items[j]).spelling(), marker),
    ensures
        syntax::field_from(read_back::spellings(items), marker, at) == Some(f),
    decreases i - at,
{
    let a = read_back::spellings(items);
    if at < i {
        assert(a[at] == items[at].spelling());
        text::absent_is_not_split(a[at], marker);
        field_is_found(items, i, at + 1, marker, f);
    } else {
        let s = marker + f;
        assert(a[i] == s);
        text::leading_is_split(marker, f);
        text::first_at_least(f, text::just(','), 0);
        text::first_at_least(f, text::just('}'), 0);
        assert forall|k: int| 0 <= k < f.len() implies #[trigger] f[k] != ',' && f[k] != '}' by {
            assert(read_back::word_char(f[k]));
        }
        assert(f.subrange(0, f.len() as int) =~= f);
        assert(read_back::word_char(f[0]) && read_back::word_char(f.last()));
        text::trimmed_stays(f);
    }
}

/// A fork copies the state of its parent. A clone does what the first of its arguments that
/// gives flags says. Either names its child only if it succeeded.
pub proof fn spawns_are_read(
    pid: Seq<char>,
    items: Seq<Argument>,
    i: int,
    f: Seq<char>,
    ret: Returned,
    evidence: EvidenceView,
)
    requires
        items.len() > 0,
        read_back::all_wf(items),
        ret.wf(),
        ret is Number || ret is Failed,
    ensures
        is_spawn(
            trace::call_event(pid, call("fork"@, items, ret), evidence),
            pid,
            "fork"@,
            ret,
            SpawnEffect::PrivateFs,
            evidence,
        ),
        is_spawn(
            trace::call_event(pid, call("vfork"@, items, ret), evidence),
            pid,
            "vfork"@,
            ret,
            SpawnEffect::PrivateFs,
            evidence,
        ),
        0 <= i < items.len() && read_back::is_word(f) && items[i] == Argument::Word("flags="@ + f)
            && (forall|j: int|
            0 <= j < i ==> !text::contains_text((#[trigger] items[j]).spelling(), "flags="@))
            ==> is_spawn(
            trace::call_event(pid, call("clone"@, items, ret), evidence),
            pid,
            "clone"@,
            ret,
            flags::legacy_effect(f),
            evidence,
        ),
{
    flag_names::observed_calls();
    reveal_strlit("fork");
    reveal_strlit("vfork");
    reveal_strlit("clone");
    reveal_strlit("flags=");
    assert("fork"@[0] == 'f' && "vfork"@[0] == 'v' && "clone"@[0] == 'c');
    results_are_read(ret);
    calls_are_read(pid, "fork"@, items, ret, evidence);
    calls_are_read(pid, "vfork"@, items, ret, evidence);
    calls_are_read(pid, "clone"@, items, ret, evidence);
    if 0 <= i < items.len() && read_back::is_word(f) && items[i] == Argument::Word("flags="@ + f)
        && (forall|j: int|
        0 <= j < i ==> !text::contains_text((#[trigger] items[j]).spelling(), "flags="@)) {
        field_is_found(items, i, 0, "flags="@, f);
    }
}

/// Whether an event and an action are those of a call that acts on contexts alone.
pub open spec fn is_context_call(
    got: Option<(EventView, FsAction)>,
    pid: Seq<char>,
    op: Seq<char>,
    ret: Returned,
    done: FsAction,
    evidence: EvidenceView,
) -> bool {
    got matches Some((e, action)) && {
        &&& is_of_call(e, pid, op, ret, evidence)
        &&& e.kind == "context"@
        &&& e.path is None && e.argv is None && e.child_pid is None
        &&& action == (if ret is Failed {
            FsAction::Nothing
        } else {
            done
        })
    }
}

proof fn context_call_is_read(
    pid: Seq<char>,
    op: Seq<char>,
    items: Seq<Argument>,
    ret: Returned,
    done: FsAction,
    evidence: EvidenceView,
)
    requires
        items.len() > 0,
        read_back::all_wf(items),
        ret.wf(),
        !op.contains('('),
        match done {
            FsAction::Invalidate(scope) => flags::operation_of(op) == Some(
                TraceOperation::Invalidate(scope),
            ),
            FsAction::Unshare(effect) => flags::operation_of(op) == Some(TraceOperation::Unshare)
                && effect == flags::unshare_effect(items[0].spelling()),
            _ => false,
        },
    ensures
        is_context_call(
            trace::call_event(pid, call(op, items, ret), evidence),
            pid,
            op,
            ret,
            done,
            evidence,
        ),
{
    calls_are_read(pid, op, items, ret, evidence);
    assert(read_back::spellings(items)[0] == items[0].spelling());
}

/// What changes the view of the filesystem makes contexts uncertain if it succeeds: those
/// connected to the caller for its root and its namespaces, all of them for mounts. A split
/// does what its flags say.
pub proof fn context_calls_are_read(
    pid: Seq<char>,
    items: Seq<Argument>,
    ret: Returned,
    evidence: EvidenceView,
)
    requires
        items.len() > 0,
        read_back::all_wf(items),
        ret.wf(),
    ensures
        ({
            let connected = FsAction::Invalidate(InvalidationScope::ConnectedFs);
            let all = FsAction::Invalidate(InvalidationScope::AllActiveContexts);
            &&& is_context_call(trace::call_event(pid, call("setns"@, items, ret), evidence), pid, "setns"@, ret, connected, evidence)
            &&& is_context_call(trace::call_event(pid, call("chroot"@, items, ret), evidence), pid, "chroot"@, ret, connected, evidence)
            &&& is_context_call(trace::call_event(pid, call("pivot_root"@, items, ret), evidence), pid, "pivot_root"@, ret, all, evidence)
            &&& is_context_call(trace::call_event(pid, call("mount"@, items, ret), evidence), pid, "mount"@, ret, all, evidence)
            &&& is_context_call(trace::call_event(pid, call("umount2"@, items, ret), evidence), pid, "umount2"@, ret, all, evidence)
            &&& is_context_call(trace::call_event(pid, call("move_mount"@, items, ret), evidence), pid, "move_mount"@, ret, all, evidence)
            &&& is_context_call(trace::call_event(pid, call("mount_setattr"@, items, ret), evidence), pid, "mount_setattr"@, ret, all, evidence)
            &&& is_context_call(
                trace::call_event(pid, call("unshare"@, items, ret), evidence),
                pid,
                "unshare"@,
                ret,
                FsAction::Unshare(flags::unshare_effect(items[0].spelling())),
                evidence,
            )
        }),
{
    flag_names::observed_calls();
    names_are_plain();
    let connected = FsAction::Invalidate(InvalidationScope::ConnectedFs);
    let all = FsAction::Invalidate(InvalidationScope::AllActiveContexts);
    let split = FsAction::Unshare(flags::unshare_effect(items[0].spelling()));
    context_call_is_read(pid, "setns"@, items, ret, connected, evidence);
    context_call_is_read(pid, "chroot"@, items, ret, connected, evidence);
    context_call_is_read(pid, "pivot_root"@, items, ret, all, evidence);
    context_call_is_read(pid, "mount"@, items, ret, all, evidence);
    context_call_is_read(pid, "umount2"@, items, ret, all, evidence);
    context_call_is_read(pid, "move_mount"@, items, ret, all, evidence);
    context_call_is_read(pid, "mount_setattr"@, items, ret, all, evidence);
    context_call_is_read(pid, "unshare"@, items, ret, split, evidence);
}

} // verus!
