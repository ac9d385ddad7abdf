//! Incremental parsing of trace lines.
use vstd::prelude::*;
use vstd::string::*;

use crate::model;
use crate::model::{bytes, Event, EventView, Evidence, EvidenceView};
use crate::numbers;
use crate::order;
use crate::parse::flags;
use crate::parse::flags::{spawn_action, trace_operation, unshare_action, FsAction, TraceOperation};
use crate::parse::fs::FsView;
use crate::parse::resolve;
use crate::parse::resolve::{resolve_context, ResolveState};
use crate::parse::syntax;
use crate::parse::syntax::{annotated_path, args, path, syscall_result, unquote};
use crate::parse::timeline::{Parsed, TaskTimeline, TimelineView};
use crate::sorted_map::SortedMap;
use crate::text;
use crate::views;

verus! {

broadcast use crate::views::group_views;

/// What the lines so far have given.
pub struct LineState {
    /// The events.
    pub events: Seq<EventView>,
    /// The warnings.
    pub warnings: Seq<Seq<char>>,
    /// The unfinished call of each task: its text and its line.
    pub pending: Map<Seq<char>, (Seq<char>, usize)>,
    /// What each event does to filesystem contexts.
    pub actions: Seq<FsAction>,
}

/// A warning on a line.
pub open spec fn line_warning(file: Seq<char>, n: usize, message: Seq<char>) -> Seq<char> {
    file + ":"@ + numbers::decimal(n as nat) + ": "@ + message
}

impl LineState {
    /// The state with one more warning.
    pub open spec fn warn(self, file: Seq<char>, n: usize, message: Seq<char>) -> LineState {
        LineState { warnings: self.warnings.push(line_warning(file, n, message)), ..self }
    }
}

/// What precedes the first occurrence of a character, or the whole text.
pub open spec fn before_char(s: Seq<char>, c: char) -> Seq<char> {
    s.subrange(0, text::first_at(s, text::just(c), 0))
}

/// The normalized result of a call: an error name, or success.
pub open spec fn call_outcome(ret: Seq<char>) -> Option<Seq<char>> {
    match text::first_word(ret) {
        None => None,
        Some(value) => if value == "-1"@ {
            text::second_word(ret)
        } else {
            match numbers::signed_value(before_char(value, '<')) {
                Some(v) if 0 <= v <= i64::MAX => Some("success"@),
                _ => None,
            }
        },
    }
}

/// The spellings of the first `n` quoted strings of a list, if all are complete.
pub open spec fn decoded_upto(list: Seq<Seq<char>>, n: int) -> Option<Seq<Seq<char>>>
    decreases n,
{
    if n <= 0 {
        Some(Seq::empty())
    } else {
        match (decoded_upto(list, n - 1), syntax::unquoted(list[n - 1])) {
            (Some(out), Some(b)) => Some(out.push(model::escaped(b))),
            _ => None,
        }
    }
}

/// The execution arguments in brackets, if they are complete.
pub open spec fn argv_of(argument: Seq<char>) -> Option<Seq<Seq<char>>> {
    match text::after_prefix(argument, "["@) {
        None => None,
        Some(rest) => match text::before_suffix(rest, "]"@) {
            None => None,
            Some(list) => if list.len() == 0 {
                Some(Seq::empty())
            } else {
                decoded_upto(syntax::arguments(list), syntax::arguments(list).len() as int)
            },
        },
    }
}

/// The observation family of an operation.
pub open spec fn kind_of(operation: TraceOperation) -> Seq<char> {
    match operation {
        TraceOperation::Exec { at, argv_index } => "exec"@,
        TraceOperation::File { at, returned_path } => "file"@,
        TraceOperation::Cwd { fd } => "cwd"@,
        TraceOperation::Spawn => "spawn"@,
        _ => "context"@,
    }
}

/// Whether a path operand is known and relative.
pub open spec fn relative_operand(a: Seq<Seq<char>>, at: bool) -> bool {
    let operand: int = if at {
        1
    } else {
        0
    };
    operand < a.len() && (syntax::unquoted(a[operand]) matches Some(p) && !syntax::absolute(p))
}

/// The path of a call, `None` where the call is not complete. A successful open's
/// returned descriptor annotation is an observation from this syscall, unlike a
/// historical directory change.
pub open spec fn call_path(
    operation: TraceOperation,
    a: Seq<Seq<char>>,
    value: Seq<char>,
    outcome: Seq<char>,
) -> Option<Option<Seq<char>>> {
    match operation {
        TraceOperation::Exec { at, argv_index } => match syntax::path_text(a, at) {
            Some(p) => Some(Some(p)),
            None => None,
        },
        TraceOperation::File { at, returned_path } => match syntax::path_text(a, at) {
            Some(p) => if returned_path && outcome == "success"@ && relative_operand(a, at) && syntax::descriptor_path(
                value,
            ) is Some {
                Some(syntax::descriptor_path(value))
            } else {
                Some(Some(p))
            },
            None => None,
        },
        TraceOperation::Cwd { fd } => if fd {
            Some(syntax::descriptor_path(a[0]))
        } else {
            match syntax::path_text(a, false) {
                Some(p) => Some(Some(p)),
                None => None,
            }
        },
        TraceOperation::Spawn => Some(Some(value)),
        _ => Some(None),
    }
}

/// The execution arguments of a call.
pub open spec fn call_argv(operation: TraceOperation, a: Seq<Seq<char>>) -> Option<Seq<Seq<char>>> {
    match operation {
        TraceOperation::Exec { at, argv_index } => if argv_index < a.len() {
            argv_of(a[argv_index as int])
        } else {
            None
        },
        _ => None,
    }
}

/// What a call does to filesystem contexts. A failed call does nothing.
pub open spec fn call_action(
    operation: TraceOperation,
    op: Seq<char>,
    a: Seq<Seq<char>>,
    outcome: Seq<char>,
) -> FsAction {
    if outcome == "success"@ {
        match operation {
            TraceOperation::Spawn => flags::spawn_action_of(op, a),
            TraceOperation::Unshare => flags::unshare_action_of(a),
            TraceOperation::Invalidate(scope) => FsAction::Invalidate(scope),
            _ => FsAction::Nothing,
        }
    } else {
        FsAction::Nothing
    }
}

/// The event of a call of an observed syscall, and what it does to filesystem
/// contexts.
pub open spec fn call_event(pid: Seq<char>, body: Seq<char>, evidence: EvidenceView) -> Option<
    (EventView, FsAction),
> {
    match text::split_char(body, '(') {
        None => None,
        Some((op, rest)) => match syntax::call_parts(rest) {
            None => None,
            Some((arg, ret)) => {
                let a = syntax::arguments(arg);
                match (call_outcome(ret), flags::operation_of(op)) {
                    (Some(outcome), Some(operation)) => {
                        let value = text::first_word(ret)->0;
                        match call_path(operation, a, value, outcome) {
                            None => None,
                            Some(p) => Some(
                                (
                                    EventView {
                                        schema_version: 2,
                                        pid,
                                        kind: kind_of(operation),
                                        operation: op,
                                        path: p,
                                        outcome,
                                        evidence,
                                        argv: call_argv(operation, a),
                                        child_pid: if operation is Spawn && outcome == "success"@ {
                                            Some(value)
                                        } else {
                                            None
                                        },
                                        cwd_before: None,
                                        context_uncertain: false,
                                    },
                                    call_action(operation, op, a, outcome),
                                ),
                            ),
                        }
                    },
                    _ => None,
                }
            },
        },
    }
}

/// The characters that the name of a terminating signal is made of.
pub open spec fn status_char(c: char) -> bool {
    ||| '0' <= c <= '9'
    ||| 'a' <= c <= 'z'
    ||| 'A' <= c <= 'Z'
    ||| c == '_'
    ||| c == '+'
    ||| c == '-'
    ||| c == ' '
    ||| c == '('
    ||| c == ')'
}

/// Whether a text says how a process ended.
pub open spec fn is_process_status(body: Seq<char>) -> bool {
    let exited = match text::after_prefix(body, "+++ exited with "@) {
        Some(rest) => match text::before_suffix(rest, " +++"@) {
            Some(code) => numbers::bounded_value(code, 10, 255) is Some,
            None => false,
        },
        None => false,
    };
    let killed = match text::after_prefix(body, "+++ killed by "@) {
        Some(rest) => match text::before_suffix(rest, " +++"@) {
            Some(signal) => signal.len() > 0 && forall|i: int|
                0 <= i < signal.len() ==> status_char(#[trigger] signal[i]),
            None => false,
        },
        None => false,
    };
    exited || killed
}

/// The event of the end of a process.
pub open spec fn exit_event(pid: Seq<char>, body: Seq<char>, evidence: EvidenceView) -> EventView {
    EventView {
        schema_version: 2,
        pid,
        kind: "exit"@,
        operation: "exit"@,
        path: None,
        outcome: body,
        evidence,
        argv: None,
        child_pid: None,
        cwd_before: None,
        context_uncertain: false,
    }
}

impl LineState {
    /// The state after a complete body, which started on line `first`.
    pub open spec fn complete(
        self,
        file: Seq<char>,
        n: usize,
        pid: Seq<char>,
        body: Seq<char>,
        first: usize,
    ) -> LineState {
        let evidence = EvidenceView { file, line: first, end_line: n };
        let st = if text::contains_text(body, "..."@) {
            self.warn(file, n, "abbreviated trace data; inspect raw evidence"@)
        } else {
            self
        };
        if text::matches_at(body, "--- "@, 0) {
            st
        } else if text::matches_at(body, "+++ "@, 0) {
            if is_process_status(body) {
                LineState {
                    events: st.events.push(exit_event(pid, body, evidence)),
                    actions: st.actions.push(FsAction::Exit),
                    ..st
                }
            } else {
                st.warn(file, n, "unrecognized process status: "@ + body)
            }
        } else {
            match call_event(pid, body, evidence) {
                Some((event, action)) => LineState {
                    events: st.events.push(event),
                    actions: st.actions.push(action),
                    ..st
                },
                None => st.warn(file, n, "unsupported or incomplete event: "@ + body),
            }
        }
    }

    /// The state after the return of a call whose start stood on an earlier line.
    pub open spec fn resume(
        self,
        file: Seq<char>,
        n: usize,
        pid: Seq<char>,
        body: Seq<char>,
    ) -> LineState {
        let taken = LineState { pending: self.pending.remove(pid), ..self };
        match text::split_text(body, " resumed>"@) {
            Some((_, tail)) if self.pending.contains_key(pid) => {
                let (prefix, start) = self.pending[pid];
                let resumed = match text::after_prefix(body, "<... "@) {
                    Some(rest) => match text::split_text(rest, " resumed>"@) {
                        Some((op, _)) => Some(op),
                        None => None,
                    },
                    None => None,
                };
                let started = match text::split_char(prefix, '(') {
                    Some((op, _)) => Some(op),
                    None => None,
                };
                if resumed != started {
                    taken.warn(
                        file,
                        n,
                        "resumed syscall does not match line "@ + numbers::decimal(start as nat),
                    )
                } else {
                    taken.complete(file, n, pid, prefix + tail, start)
                }
            },
            _ => taken.warn(file, n, "unmatched resumed call"@),
        }
    }

    /// The state after one more line.
    pub open spec fn line(self, file: Seq<char>, n: usize, line: Seq<char>) -> LineState {
        match text::split_space(text::trimmed(line)) {
            None => self.warn(file, n, "malformed line"@),
            Some((pid, rest)) => {
                let body = text::trimmed(rest);
                if pid.len() == 0 || !text::all_digits(pid) {
                    self.warn(file, n, "invalid process identifier"@)
                } else {
                    match text::before_suffix(body, "<unfinished ...>"@) {
                        Some(prefix) => {
                            let st = LineState {
                                pending: self.pending.insert(pid, (prefix, n)),
                                ..self
                            };
                            if self.pending.contains_key(pid) {
                                st.warn(file, n, "replaced unfinished call"@)
                            } else {
                                st
                            }
                        },
                        None => if text::matches_at(body, "<... "@, 0) {
                            self.resume(file, n, pid, body)
                        } else {
                            self.complete(file, n, pid, body, n)
                        },
                    }
                }
            },
        }
    }
}

/// The unfinished calls.
pub type Pending = SortedMap<String, (String, usize)>;

/// The unfinished calls that a map holds.
pub open spec fn pending_of(m: Pending) -> Map<Seq<char>, (Seq<char>, usize)> {
    m.map().map_values(|c: (String, usize)| (c.0@, c.1))
}

/// The state that exec values stand for.
pub open spec fn line_state(p: Parsed, pending: Pending, actions: Vec<FsAction>) -> LineState {
    LineState {
        events: views::each(p.events@),
        warnings: views::each(p.warnings@),
        pending: pending_of(pending),
        actions: actions@,
    }
}

/// Gives a warning on a line.
fn line_warning_text(file: &str, n: usize, message: &str) -> (r: String)
    ensures
        r@ == line_warning(file@, n, message@),
{
    let mut s: String = file.to_owned();
    s.append(":");
    s.append(numbers::decimal_string(n as u128).as_str());
    s.append(": ");
    s.append(message);
    s
}

/// Gives a warning on a line that ends with some detail.
fn line_warning_with(file: &str, n: usize, message: &str, detail: &str) -> (r: String)
    ensures
        r@ == line_warning(file@, n, message@ + detail@),
{
    let mut s: String = message.to_owned();
    s.append(detail);
    line_warning_text(file, n, s.as_str())
}

/// Gives the normalized result of a call.
fn outcome_of(ret: &str) -> (r: Option<String>)
    ensures
        views::opt(r) == call_outcome(ret@),
{
    match text::word(ret) {
        None => None,
        Some(value) => {
            if text::same(value, "-1") {
                match text::word_after(ret) {
                    Some(name) => Some(name.to_owned()),
                    None => None,
                }
            } else {
                let end: usize = text::char_position(value, '<');
                if numbers::is_nonnegative_i64(value.substring_char(0, end)) {
                    Some("success".to_owned())
                } else {
                    None
                }
            }
        },
    }
}

/// Gives the execution arguments in brackets, if they are complete.
fn decode_argv(argument: &str) -> (r: Option<Vec<String>>)
    ensures
        model::texts_option(r) == argv_of(argument@),
{
    let list: &str = match text::strip_prefix(argument, "[") {
        Some(rest) => match text::strip_suffix(rest, "]") {
            Some(list) => list,
            None => return None,
        },
        None => return None,
    };
    if list.unicode_len() == 0 {
        return Some(Vec::new());
    }
    let items: Vec<&str> = args(list);
    let ghost spelled = views::each(items@);
    let mut out: Vec<String> = Vec::new();
    for i in 0..items.len()
        invariant
            spelled == views::each(items@),
            spelled == syntax::arguments(list@),
            decoded_upto(spelled, i as int) == Some(views::each(out@)),
            argv_of(argument@) == decoded_upto(spelled, spelled.len() as int),
    {
        assert(spelled[i as int] == items@[i as int]@);
        match unquote(items[i]) {
            Some(b) => {
                out.push(bytes(b.as_slice()));
            },
            None => {
                proof {
                    decoded_none(spelled, i + 1, spelled.len() as int);
                }
                return None;
            },
        }
    }
    Some(out)
}

/// A string that is not complete leaves the list incomplete.
proof fn decoded_none(list: Seq<Seq<char>>, n: int, m: int)
    requires
        0 <= n <= m,
        decoded_upto(list, n) is None,
    ensures
        decoded_upto(list, m) is None,
    decreases m,
{
    if n < m {
        decoded_none(list, n, m - 1);
    }
}

/// Whether a path operand is known and relative.
fn is_relative_operand(a: &Vec<&str>, at: bool) -> (r: bool)
    ensures
        r == relative_operand(views::each(a@), at),
{
    let operand: usize = if at {
        1
    } else {
        0
    };
    if operand < a.len() {
        assert(views::each(a@)[operand as int] == a@[operand as int]@);
        match unquote(a[operand]) {
            Some(p) => !(p.len() > 0 && p[0] == 47),
            None => false,
        }
    } else {
        false
    }
}

/// Gives the path of a call, `None` where the call is not complete.
fn path_of_call(operation: TraceOperation, a: &Vec<&str>, value: &str, outcome: &str) -> (r: Option<
    Option<String>,
>)
    requires
        a@.len() > 0,
    ensures
        match r {
            Some(p) => call_path(operation, views::each(a@), value@, outcome@) == Some(
                views::opt(p),
            ),
            None => call_path(operation, views::each(a@), value@, outcome@) is None,
        },
{
    assert(views::each(a@)[0] == a@[0]@);
    match operation {
        TraceOperation::Exec { at, argv_index } => match path(a.as_slice(), at) {
            Some(p) => Some(Some(p)),
            None => None,
        },
        TraceOperation::File { at, returned_path } => match path(a.as_slice(), at) {
            Some(p) => {
                if returned_path && text::same(outcome, "success") && is_relative_operand(a, at) {
                    match annotated_path(value) {
                        Some(observed) => Some(Some(observed)),
                        None => Some(Some(p)),
                    }
                } else {
                    Some(Some(p))
                }
            },
            None => None,
        },
        TraceOperation::Cwd { fd } => {
            if fd {
                Some(annotated_path(a[0]))
            } else {
                match path(a.as_slice(), false) {
                    Some(p) => Some(Some(p)),
                    None => None,
                }
            }
        },
        TraceOperation::Spawn => Some(Some(value.to_owned())),
        _ => Some(None),
    }
}

/// Gives the observation family of an operation.
fn kind_text(operation: TraceOperation) -> (r: &'static str)
    ensures
        r@ == kind_of(operation),
{
    match operation {
        TraceOperation::Exec { at, argv_index } => "exec",
        TraceOperation::File { at, returned_path } => "file",
        TraceOperation::Cwd { fd } => "cwd",
        TraceOperation::Spawn => "spawn",
        _ => "context",
    }
}

/// Gives what a call does to filesystem contexts.
fn action_of_call(operation: TraceOperation, op: &str, a: &Vec<&str>, outcome: &str) -> (r: FsAction)
    ensures
        r == call_action(operation, op@, views::each(a@), outcome@),
{
    if text::same(outcome, "success") {
        match operation {
            TraceOperation::Spawn => spawn_action(op, a.as_slice()),
            TraceOperation::Unshare => unshare_action(a.as_slice()),
            TraceOperation::Invalidate(scope) => FsAction::Invalidate(scope),
            _ => FsAction::Nothing,
        }
    } else {
        FsAction::Nothing
    }
}

/// Gives the event of a call of an observed syscall, and what it does to filesystem
/// contexts.
fn decode_call(pid: &str, body: &str, evidence: Evidence) -> (r: Option<(Event, FsAction)>)
    ensures
        match r {
            Some((event, action)) => call_event(pid@, body@, evidence@) == Some((event@, action)),
            None => call_event(pid@, body@, evidence@) is None,
        },
{
    let (op, rest) = match text::split_once_char(body, '(') {
        Some((op, rest)) => (op, rest),
        None => return None,
    };
    let (arg, ret) = match syscall_result(rest) {
        Some((arg, ret)) => (arg, ret),
        None => return None,
    };
    let a: Vec<&str> = args(arg);
    let value: &str = match text::word(ret) {
        Some(value) => value,
        None => return None,
    };
    let outcome: String = match outcome_of(ret) {
        Some(outcome) => outcome,
        None => return None,
    };
    let operation: TraceOperation = match trace_operation(op) {
        Some(operation) => operation,
        None => return None,
    };
    let observed: Option<String> = match path_of_call(operation, &a, value, outcome.as_str()) {
        Some(observed) => observed,
        None => return None,
    };
    let argv: Option<Vec<String>> = match operation {
        TraceOperation::Exec { at, argv_index } => {
            if argv_index < a.len() {
                assert(views::each(a@)[argv_index as int] == a@[argv_index as int]@);
                decode_argv(a[argv_index])
            } else {
                None
            }
        },
        _ => None,
    };
    let action: FsAction = action_of_call(operation, op, &a, outcome.as_str());
    let child_pid: Option<String> = match operation {
        TraceOperation::Spawn => if text::same(outcome.as_str(), "success") {
            Some(value.to_owned())
        } else {
            None
        },
        _ => None,
    };
    Some(
        (
            Event {
                schema_version: 2,
                pid: pid.to_owned(),
                kind: kind_text(operation).to_owned(),
                operation: op.to_owned(),
                path: observed,
                outcome,
                evidence,
                argv,
                child_pid,
                cwd_before: None,
                context_uncertain: false,
            },
            action,
        ),
    )
}

/// Whether a text is made of the characters of a signal name.
fn is_signal_text(s: &str) -> (r: bool)
    ensures
        r == (s@.len() > 0 && forall|i: int| 0 <= i < s@.len() ==> status_char(#[trigger] s@[i])),
{
    for c in it: s.chars()
        invariant
            it.seq() == s@,
            forall|j: int| 0 <= j < it.index() ==> status_char(#[trigger] s@[j]),
    {
        if !(('0' <= c && c <= '9') || ('a' <= c && c <= 'z') || ('A' <= c && c <= 'Z') || c == '_'
            || c == '+' || c == '-' || c == ' ' || c == '(' || c == ')') {
            assert(!status_char(s@[it.index() as int]));
            return false;
        }
    }
    s.unicode_len() > 0
}

/// Whether a text says how a process ended.
fn says_process_status(body: &str) -> (r: bool)
    ensures
        r == is_process_status(body@),
{
    let exited: bool = match text::strip_prefix(body, "+++ exited with ") {
        Some(rest) => match text::strip_suffix(rest, " +++") {
            Some(code) => numbers::unsigned_number(code, 10, 255).is_some(),
            None => false,
        },
        None => false,
    };
    let killed: bool = match text::strip_prefix(body, "+++ killed by ") {
        Some(rest) => match text::strip_suffix(rest, " +++") {
            Some(signal) => is_signal_text(signal),
            None => false,
        },
        None => false,
    };
    exited || killed
}

/// Reads a complete body, which started on line `first`.
fn parse_complete(
    file: &str,
    n: usize,
    pid: &str,
    body: &str,
    first: usize,
    p: &mut Parsed,
    actions: &mut Vec<FsAction>,
)
    ensures
        forall|pending: Pending|
            #![trigger line_state(*old(p), pending, *old(actions))]
            line_state(*final(p), pending, *final(actions)) == line_state(
                *old(p),
                pending,
                *old(actions),
            ).complete(file@, n, pid@, body@, first),
        final(p).lines == old(p).lines,
        final(p).timeline == old(p).timeline,
        final(p).events@.len() <= old(p).events@.len() + 1,
{
    if text::has_text(body, "...") {
        p.warnings.push(
            line_warning_text(file, n, "abbreviated trace data; inspect raw evidence"),
        );
    }
    let evidence = Evidence { file: file.to_owned(), line: first, end_line: n };
    if text::starts_with(body, "--- ") {
        return ;
    }
    if text::starts_with(body, "+++ ") {
        if !says_process_status(body) {
            p.warnings.push(line_warning_with(file, n, "unrecognized process status: ", body));
            return ;
        }
        let event = Event {
            schema_version: 2,
            pid: pid.to_owned(),
            kind: "exit".to_owned(),
            operation: "exit".to_owned(),
            path: None,
            outcome: body.to_owned(),
            evidence,
            argv: None,
            child_pid: None,
            cwd_before: None,
            context_uncertain: false,
        };
        assert(event@ == exit_event(
            pid@,
            body@,
            EvidenceView { file: file@, line: first, end_line: n },
        ));
        p.events.push(event);
        actions.push(FsAction::Exit);
        return ;
    }
    match decode_call(pid, body, evidence) {
        Some((event, action)) => {
            p.events.push(event);
            actions.push(action);
        },
        None => {
            p.warnings.push(line_warning_with(file, n, "unsupported or incomplete event: ", body));
        },
    }
}

/// The name of the call in a resumed body.
fn resumed_name<'a>(body: &'a str) -> (r: Option<&'a str>)
    ensures
        views::opt(r) == (match text::after_prefix(body@, "<... "@) {
            Some(rest) => match text::split_text(rest, " resumed>"@) {
                Some((op, _)) => Some(op),
                None => None,
            },
            None => None,
        }),
{
    match text::strip_prefix(body, "<... ") {
        Some(rest) => match text::split_once_text(rest, " resumed>") {
            Some((op, _)) => Some(op),
            None => None,
        },
        None => None,
    }
}

/// The name of the call in an unfinished body.
fn started_name<'a>(prefix: &'a str) -> (r: Option<&'a str>)
    ensures
        views::opt(r) == (match text::split_char(prefix@, '(') {
            Some((op, _)) => Some(op),
            None => None,
        }),
{
    match text::split_once_char(prefix, '(') {
        Some((op, _)) => Some(op),
        None => None,
    }
}

/// Whether two optional names are equal.
fn same_name(a: Option<&str>, b: Option<&str>) -> (r: bool)
    ensures
        r == (views::opt(a) == views::opt(b)),
{
    match (a, b) {
        (Some(x), Some(y)) => text::same(x, y),
        (None, None) => true,
        _ => false,
    }
}

/// Reads the return of a call whose start stood on an earlier line.
fn parse_resumed(
    file: &str,
    n: usize,
    pid: &str,
    body: &str,
    p: &mut Parsed,
    pending: &mut Pending,
    actions: &mut Vec<FsAction>,
)
    requires
        old(pending).wf(),
    ensures
        final(pending).wf(),
        line_state(*final(p), *final(pending), *final(actions)) == line_state(
            *old(p),
            *old(pending),
            *old(actions),
        ).resume(file@, n, pid@, body@),
        final(p).lines == old(p).lines,
        final(p).timeline == old(p).timeline,
        final(p).events@.len() <= old(p).events@.len() + 1,
{
    let ghost before = line_state(*p, *pending, *actions);
    let taken: Option<(String, usize)> = pending.remove(&pid.to_owned());
    assert(pending_of(*pending) =~= before.pending.remove(pid@));
    assert(line_state(*p, *pending, *actions) == (LineState {
        pending: before.pending.remove(pid@),
        ..before
    }));
    match (taken, text::split_once_text(body, " resumed>")) {
        (Some((prefix, start)), Some((_, tail))) => {
            if !same_name(resumed_name(body), started_name(prefix.as_str())) {
                p.warnings.push(
                    line_warning_with(
                        file,
                        n,
                        "resumed syscall does not match line ",
                        numbers::decimal_string(start as u128).as_str(),
                    ),
                );
                return ;
            }
            let mut joined: String = prefix;
            joined.append(tail);
            parse_complete(file, n, pid, joined.as_str(), start, p, actions);
        },
        _ => {
            p.warnings.push(line_warning_text(file, n, "unmatched resumed call"));
        },
    }
}

/// Reads one line.
pub fn parse_trace_line(
    file: &str,
    n: usize,
    line: &str,
    p: &mut Parsed,
    pending: &mut Pending,
    actions: &mut Vec<FsAction>,
)
    requires
        old(pending).wf(),
    ensures
        final(pending).wf(),
        line_state(*final(p), *final(pending), *final(actions)) == line_state(
            *old(p),
            *old(pending),
            *old(actions),
        ).line(file@, n, line@),
        final(p).lines == old(p).lines,
        final(p).timeline == old(p).timeline,
        final(p).events@.len() <= old(p).events@.len() + 1,
{
    let ghost before = line_state(*p, *pending, *actions);
    match text::split_once_space(text::trim(line)) {
        None => {
            p.warnings.push(line_warning_text(file, n, "malformed line"));
        },
        Some((pid, rest)) => {
            if pid.unicode_len() == 0 || !text::is_all_digits(pid) {
                p.warnings.push(line_warning_text(file, n, "invalid process identifier"));
                return ;
            }
            let body: &str = text::trim(rest);
            match text::strip_suffix(body, "<unfinished ...>") {
                Some(prefix) => {
                    let was: Option<(String, usize)> = pending.insert(
                        pid.to_owned(),
                        (prefix.to_owned(), n),
                    );
                    assert(pending_of(*pending) =~= before.pending.insert(pid@, (prefix@, n)));
                    if was.is_some() {
                        p.warnings.push(line_warning_text(file, n, "replaced unfinished call"));
                    }
                },
                None => {
                    if text::starts_with(body, "<... ") {
                        parse_resumed(file, n, pid, body, p, pending, actions);
                    } else {
                        parse_complete(file, n, pid, body, n, p, actions);
                    }
                },
            }
        },
    }
}

/// Incremental raw-trace parser. Line-local syntax is decoded eagerly, while
/// task identity and filesystem-context backfills remain a finish-time pass.
///
/// This type retains normalized events, parser-private actions, and unfinished
/// syscall prefixes, but not the complete raw input.
pub struct TraceParser<'a> {
    file: &'a str,
    initial_cwd: Option<&'a str>,
    parsed: Parsed,
    pending: Pending,
    actions: Vec<FsAction>,
    saw_line: bool,
    last_line_terminated: bool,
}

/// What a [`TraceParser`] has seen.
pub struct TraceView {
    /// The evidence file.
    pub file: Seq<char>,
    /// The directory in which the first task started.
    pub initial_cwd: Option<Seq<char>>,
    /// What the lines so far have given.
    pub state: LineState,
    /// The number of lines.
    pub lines: usize,
    /// Whether there was a line.
    pub saw_line: bool,
    /// Whether the last line ended with a newline.
    pub last_line_terminated: bool,
}

impl<'a> View for TraceParser<'a> {
    type V = TraceView;

    closed spec fn view(&self) -> TraceView {
        TraceView {
            file: self.file@,
            initial_cwd: views::opt(self.initial_cwd),
            state: line_state(self.parsed, self.pending, self.actions),
            lines: self.parsed.lines,
            saw_line: self.saw_line,
            last_line_terminated: self.last_line_terminated,
        }
    }
}

/// The text of a line without its newline, and whether it had one.
pub open spec fn line_body(line: Seq<char>) -> (Seq<char>, bool) {
    match text::before_suffix(line, "\n"@) {
        Some(body) => match text::before_suffix(body, "\r"@) {
            Some(body) => (body, true),
            None => (body, true),
        },
        None => (line, false),
    }
}

/// The task IDs of unfinished calls, in order.
pub open spec fn pending_order(pending: Map<Seq<char>, (Seq<char>, usize)>) -> Seq<Seq<char>> {
    choose|keys: Seq<Seq<char>>|
        order::increasing::<String>(keys) && forall|k: Seq<char>| #[trigger]
            keys.contains(k) <==> pending.contains_key(k)
}

/// The warnings on the unfinished calls of the first `n` task IDs.
pub open spec fn unfinished_upto(
    file: Seq<char>,
    pending: Map<Seq<char>, (Seq<char>, usize)>,
    keys: Seq<Seq<char>>,
    n: int,
) -> Seq<Seq<char>>
    decreases n,
{
    if n <= 0 {
        Seq::empty()
    } else {
        unfinished_upto(file, pending, keys, n - 1).push(
            line_warning(file, pending[keys[n - 1]].1, "unfinished call at end of trace"@),
        )
    }
}

impl TraceView {
    /// A parser that has seen nothing.
    pub open spec fn start(file: Seq<char>, initial_cwd: Option<Seq<char>>) -> TraceView {
        TraceView {
            file,
            initial_cwd,
            state: LineState {
                events: Seq::empty(),
                warnings: Seq::empty(),
                pending: Map::empty(),
                actions: Seq::empty(),
            },
            lines: 0,
            saw_line: false,
            last_line_terminated: false,
        }
    }

    /// The parser after one more line.
    pub open spec fn push_line(self, line: Seq<char>) -> TraceView {
        let (body, terminated) = line_body(line);
        let n = (self.lines + 1) as usize;
        TraceView {
            state: self.state.line(self.file, n, body),
            lines: n,
            saw_line: true,
            last_line_terminated: terminated,
            ..self
        }
    }

    /// The parser after some more lines.
    pub open spec fn push_lines(self, lines: Seq<Seq<char>>) -> TraceView
        decreases lines.len(),
    {
        if lines.len() == 0 {
            self
        } else {
            self.push_lines(lines.drop_last()).push_line(lines.last())
        }
    }

    /// The warnings once the trace has ended: on a missing last newline, and on each
    /// unfinished call.
    pub open spec fn end_warnings(self) -> Seq<Seq<char>> {
        let truncated = if self.saw_line && !self.last_line_terminated {
            self.state.warnings.push(
                self.file + ": trace ends without newline; possible truncation"@,
            )
        } else {
            self.state.warnings
        };
        let keys = pending_order(self.state.pending);
        truncated + unfinished_upto(self.file, self.state.pending, keys, keys.len() as int)
    }

    /// The events and warnings once task identities and filesystem contexts are
    /// resolved along a timeline.
    pub open spec fn finished(self, t: TimelineView) -> ResolveState {
        let generations = t.generations.len();
        resolve::resolved_upto(
            ResolveState {
                events: t.marked_upto(self.state.events, generations as int),
                warnings: self.end_warnings() + t.findings_upto(
                    self.state.events,
                    generations as int,
                ),
                fs: FsView::start(generations),
            },
            t,
            self.state.actions,
            self.initial_cwd,
            self.state.events.len() as int,
        )
    }

    /// Whether a parsed trace is what the lines so far amount to.
    pub open spec fn gives(self, r: Parsed) -> bool {
        &&& r.lines == self.lines
        &&& r.timeline@.interprets(self.state.events)
        &&& r.timeline@.wf(r.events@.len())
        &&& r.events@.len() == self.state.events.len()
        &&& views::each(r.events@) == self.finished(r.timeline@).events
        &&& views::each(r.warnings@) == self.finished(r.timeline@).warnings
    }
}

impl<'a> TraceParser<'a> {
    /// The unfinished calls are kept in order.
    pub closed spec fn wf(self) -> bool {
        self.pending.wf()
    }

    /// Start an incremental parse for one evidence file and optional observed CWD.
    ///
    /// `initial_cwd` is context only; it never supplies absolute identity for a
    /// relative syscall operand.
    pub fn new(file: &'a str, initial_cwd: Option<&'a str>) -> (r: TraceParser<'a>)
        ensures
            r.wf(),
            r@ == TraceView::start(file@, views::opt(initial_cwd)),
    {
        let r = TraceParser {
            file,
            initial_cwd,
            parsed: Parsed::new(),
            pending: SortedMap::new(),
            actions: Vec::new(),
            saw_line: false,
            last_line_terminated: false,
        };
        assert(pending_of(r.pending) =~= Map::empty());
        assert(r@.state.events =~= Seq::empty());
        assert(r@.state.warnings =~= Seq::empty());
        assert(r@.state.actions =~= Seq::empty());
        r
    }

    /// Push one logical trace line.
    ///
    /// The caller may retain or omit its trailing newline; only the final pushed line
    /// controls the truncation warning. Embedded newlines are not a chunking API:
    /// callers must identify logical lines before this boundary.
    pub fn push_line(&mut self, line: &str)
        requires
            old(self).wf(),
            old(self)@.lines < usize::MAX,
        ensures
            final(self).wf(),
            final(self)@ == old(self)@.push_line(line@),
    {
        let mut body: &str = line;
        let mut terminated: bool = false;
        match text::strip_suffix(line, "\n") {
            Some(stripped) => {
                terminated = true;
                body = match text::strip_suffix(stripped, "\r") {
                    Some(stripped) => stripped,
                    None => stripped,
                };
            },
            None => {},
        }
        self.saw_line = true;
        self.last_line_terminated = terminated;
        self.parsed.lines = self.parsed.lines + 1;
        parse_trace_line(
            self.file,
            self.parsed.lines,
            body,
            &mut self.parsed,
            &mut self.pending,
            &mut self.actions,
        );
    }

    /// Gives the events found so far; what is known only at the end of the trace is
    /// not in them yet.
    pub fn events(&self) -> (r: &Vec<Event>)
        ensures
            views::each(r@) == self@.state.events,
    {
        &self.parsed.events
    }

    /// Finalize pending calls and apply identity/context resolution exactly once.
    ///
    /// Consuming `self` prevents later lines from invalidating the returned timeline
    /// or its finish-time uncertainty backfills.
    pub fn finish(self) -> (r: Parsed)
        requires
            self.wf(),
        ensures
            self@.gives(r),
    {
        let ghost view = self@;
        let TraceParser {
            file,
            initial_cwd,
            parsed,
            pending,
            actions,
            saw_line,
            last_line_terminated,
        } = self;
        let mut parsed: Parsed = parsed;
        if saw_line && !last_line_terminated {
            let mut s: String = file.to_owned();
            s.append(": trace ends without newline; possible truncation");
            parsed.warnings.push(s);
        }
        let ghost truncated = views::each(parsed.warnings@);
        let ghost keys = pending.keys();
        proof {
            let chosen = pending_order(view.state.pending);
            assert(forall|k: Seq<char>| #[trigger]
                keys.contains(k) <==> view.state.pending.contains_key(k));
            order::increasing_unique::<String>(keys, chosen);
        }
        let count: usize = pending.len();
        for i in 0..count
            invariant
                pending.wf(),
                count == pending.pairs().len(),
                keys == pending.keys(),
                file@ == view.file,
                pending_of(pending) == view.state.pending,
                views::each(parsed.warnings@) == truncated + unfinished_upto(
                    view.file,
                    view.state.pending,
                    keys,
                    i as int,
                ),
                views::each(parsed.events@) == view.state.events,
                parsed.lines == view.lines,
        {
            proof {
                pending.entry_at(i as int);
            }
            let line: usize = pending.value_at(i).1;
            assert(view.state.pending[keys[i as int]].1 == line);
            let ghost was = views::each(parsed.warnings@);
            let warning: String = line_warning_text(file, line, "unfinished call at end of trace");
            let ghost spelled = warning@;
            parsed.warnings.push(warning);
            assert(views::each(parsed.warnings@) == was.push(spelled));
            assert(views::each(parsed.warnings@) =~= truncated + unfinished_upto(
                view.file,
                view.state.pending,
                keys,
                i + 1,
            ));
        }
        let timeline: TaskTimeline = TaskTimeline::from_events(parsed.events.as_slice());
        assert(view.state.events.len() == parsed.events@.len());
        timeline.apply_identity_findings(&mut parsed);
        assert(views::each(parsed.events@).len() == parsed.events@.len());
        resolve_context(&mut parsed, initial_cwd, actions.as_slice(), &timeline);
        parsed.timeline = timeline;
        parsed
    }
}

/// The complete lines of the first `n` characters, and what follows the last newline.
pub open spec fn lines_upto(raw: Seq<char>, n: int) -> (Seq<Seq<char>>, Seq<char>)
    decreases n,
{
    if n <= 0 {
        (Seq::empty(), Seq::empty())
    } else {
        let (lines, current) = lines_upto(raw, n - 1);
        let longer = current.push(raw[n - 1]);
        if raw[n - 1] == '\n' {
            (lines.push(longer), Seq::empty())
        } else {
            (lines, longer)
        }
    }
}

/// The lines of a text, each with its newline; the last may have none.
pub open spec fn lines_of(raw: Seq<char>) -> Seq<Seq<char>> {
    let (lines, current) = lines_upto(raw, raw.len() as int);
    if current.len() > 0 {
        lines.push(current)
    } else {
        lines
    }
}

/// One more line comes after those before it.
proof fn push_lines_push(view: TraceView, lines: Seq<Seq<char>>, line: Seq<char>)
    ensures
        view.push_lines(lines.push(line)) == view.push_lines(lines).push_line(line),
{
    assert(lines.push(line).drop_last() =~= lines);
}

/// Parse one complete trace.
///
/// The result is that of feeding the lines of the text to a [`TraceParser`], so
/// evidence coordinates, line endings, warnings and their order are the same.
pub fn parse_with_cwd(raw: &str, file: &str, initial_cwd: Option<&str>) -> (r: Parsed)
    ensures
        TraceView::start(file@, views::opt(initial_cwd)).push_lines(lines_of(raw@)).gives(r),
{
    let mut parser: TraceParser = TraceParser::new(file, initial_cwd);
    let ghost start = parser@;
    let total: usize = raw.unicode_len();
    let mut current: String = String::new();
    let mut pending: bool = false;
    for c in it: raw.chars()
        invariant
            it.seq() == raw@,
            total == raw@.len(),
            parser.wf(),
            parser@ == start.push_lines(lines_upto(raw@, it.index() as int).0),
            current@ == lines_upto(raw@, it.index() as int).1,
            pending == (current@.len() > 0),
            parser@.lines + (if pending {
                1int
            } else {
                0int
            }) <= it.index(),
            start == TraceView::start(file@, views::opt(initial_cwd)),
    {
        let ghost lines = lines_upto(raw@, it.index() as int).0;
        current.push(c);
        pending = true;
        if c == '\n' {
            parser.push_line(current.as_str());
            proof {
                push_lines_push(start, lines, current@);
            }
            current = String::new();
            pending = false;
        }
    }
    if pending {
        parser.push_line(current.as_str());
        proof {
            push_lines_push(start, lines_upto(raw@, raw@.len() as int).0, current@);
        }
    }
    parser.finish()
}

/// Parse one complete trace whose initial directory is not known.
pub fn parse(raw: &str, file: &str) -> (r: Parsed)
    ensures
        TraceView::start(file@, None).push_lines(lines_of(raw@)).gives(r),
{
    parse_with_cwd(raw, file, None)
}

} // verus!
