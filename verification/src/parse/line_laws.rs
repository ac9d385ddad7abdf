//! What the lines of a trace are read as: calls, calls in two parts, the ends of tasks,
//! signals, and lines that are none of these.
use vstd::prelude::*;

use crate::model::{EventView, EvidenceView};
use crate::numbers;
use crate::order;
use crate::parse::flags::FsAction;
use crate::parse::trace;
use crate::parse::trace::{LineState, TraceView};
use crate::text;

verus! {

/// Whether a text is the identifier of a task.
pub open spec fn is_task(pid: Seq<char>) -> bool {
    pid.len() > 0 && forall|i: int| 0 <= i < pid.len() ==> '0' <= #[trigger] pid[i] <= '9'
}

/// Whether a text can stand behind the task in a line: it neither starts nor ends with white
/// space.
pub open spec fn is_body(body: Seq<char>) -> bool {
    body.len() > 0 && !text::white_space(body[0]) && !text::white_space(body.last())
}

/// A warning on a line of a trace: the file, the number of the line, and the message.
pub open spec fn on_line(file: Seq<char>, n: usize, message: Seq<char>) -> Seq<char> {
    file + ":"@ + numbers::decimal(n as nat) + ": "@ + message
}

/// Whether a body is not a whole one: a part of a call, a signal or the end of a task.
pub open spec fn is_special(body: Seq<char>) -> bool {
    ||| text::matches_at(body, "<unfinished ...>"@, body.len() - 16)
    ||| text::matches_at(body, "<... "@, 0)
    ||| text::matches_at(body, "--- "@, 0)
    ||| text::matches_at(body, "+++ "@, 0)
}

proof fn line_in_parts(pid: Seq<char>, body: Seq<char>)
    requires
        is_task(pid),
        is_body(body),
    ensures
        text::split_space(text::trimmed(pid + " "@ + body)) == Some((pid, body)),
        text::trimmed(body) == body,
        text::all_digits(pid),
{
    reveal_strlit(" ");
    let s = pid + " "@ + body;
    assert('0' <= pid[0] <= '9');
    assert(s[0] == pid[0]);
    assert(s.last() == body.last());
    text::trimmed_stays(s);
    text::trimmed_stays(body);
    text::first_at_least(s, text::spaces(), 0);
    let n = pid.len() as int;
    let at = text::first_at(s, text::spaces(), 0);
    assert(s[n] == ' ');
    if at < n {
        assert('0' <= pid[at] <= '9');
        assert(s[at] == pid[at]);
    }
    assert(s.subrange(0, n) =~= pid);
    assert(s.subrange(n + 1, s.len() as int) =~= body);
}

/// A line without special parts gives the event of its call, with the line as its evidence
/// and with what the call does; abbreviated data is warned of, and so is a line that is no
/// observed call.
pub proof fn lines_give_their_calls(
    st: LineState,
    file: Seq<char>,
    n: usize,
    pid: Seq<char>,
    body: Seq<char>,
)
    requires
        is_task(pid),
        is_body(body),
        !is_special(body),
    ensures
        ({
            let after = st.line(file, n, pid + " "@ + body);
            let evidence = EvidenceView { file, line: n, end_line: n };
            let warned = if text::contains_text(body, "..."@) {
                st.warnings.push(
                    on_line(file, n, "abbreviated trace data; inspect raw evidence"@),
                )
            } else {
                st.warnings
            };
            &&& after.pending == st.pending
            &&& match trace::call_event(pid, body, evidence) {
                Some((event, action)) => {
                    &&& after.events == st.events.push(event)
                    &&& after.actions == st.actions.push(action)
                    &&& after.warnings == warned
                },
                None => {
                    &&& after.events == st.events
                    &&& after.actions == st.actions
                    &&& after.warnings == warned.push(
                        on_line(file, n, "unsupported or incomplete event: "@ + body),
                    )
                },
            }
        }),
{
    reveal_strlit("<unfinished ...>");
    line_in_parts(pid, body);
}

/// Whether a state has one more event, the end of a task.
pub open spec fn adds_end(
    after: LineState,
    st: LineState,
    pid: Seq<char>,
    status: Seq<char>,
    evidence: EvidenceView,
) -> bool {
    &&& after.pending == st.pending
    &&& after.warnings == st.warnings
    &&& after.actions == st.actions.push(FsAction::Exit)
    &&& after.events.len() == st.events.len() + 1
    &&& after.events.drop_last() == st.events
    &&& is_end(after.events.last(), pid, status, evidence)
}

/// Whether an event is the end of a task.
pub open spec fn is_end(
    e: EventView,
    pid: Seq<char>,
    status: Seq<char>,
    evidence: EvidenceView,
) -> bool {
    &&& e.schema_version == 2
    &&& e.pid == pid
    &&& e.kind == "exit"@
    &&& e.operation == "exit"@
    &&& e.outcome == status
    &&& e.evidence == evidence
    &&& e.path is None && e.argv is None && e.child_pid is None && e.cwd_before is None
    &&& !e.context_uncertain
}

/// A body that starts with a plus sign is no part of a call and no signal.
proof fn status_is_no_part(body: Seq<char>)
    requires
        text::matches_at(body, "+++ "@, 0),
        text::matches_at(body, " +++"@, body.len() - 4),
    ensures
        text::before_suffix(body, "<unfinished ...>"@) is None,
        !text::matches_at(body, "<... "@, 0),
        !text::matches_at(body, "--- "@, 0),
        is_body(body),
{
    reveal_strlit("+++ ");
    reveal_strlit(" +++");
    reveal_strlit("<unfinished ...>");
    reveal_strlit("<... ");
    reveal_strlit("--- ");
    assert(body.subrange(0, 4)[0] == '+');
    assert(body[0] == '+');
    assert(body.subrange(body.len() - 4, body.len() as int)[3] == '+');
    assert(body.last() == '+');
    if text::matches_at(body, "<... "@, 0) {
        assert(body.subrange(0, 5)[0] == '<');
    }
    if text::matches_at(body, "--- "@, 0) {
        assert(body.subrange(0, 4)[0] == '-');
    }
    let u = "<unfinished ...>"@;
    if text::matches_at(body, u, body.len() - u.len()) {
        assert(body.subrange(body.len() - 16, body.len() as int)[15] == '>');
    }
}

/// The line that says with which code a task exited gives its end.
pub proof fn exits_are_read(st: LineState, file: Seq<char>, n: usize, pid: Seq<char>, code: nat)
    requires
        is_task(pid),
        code <= 255,
    ensures
        ({
            let status = "+++ exited with "@ + numbers::decimal(code) + " +++"@;
            adds_end(
                st.line(file, n, pid + " "@ + status),
                st,
                pid,
                status,
                EvidenceView { file, line: n, end_line: n },
            )
        }),
{
    reveal_strlit("+++ exited with ");
    reveal_strlit("+++ ");
    reveal_strlit(" +++");
    reveal_strlit("...");
    let d = numbers::decimal(code);
    let body = "+++ exited with "@ + d + " +++"@;
    numbers::decimal_reads_back(code);
    assert(body.subrange(0, 4) =~= "+++ "@);
    assert(body.subrange(body.len() - 4, body.len() as int) =~= " +++"@);
    assert(body.subrange(0, 16) =~= "+++ exited with "@);
    let rest = body.subrange(16, body.len() as int);
    assert(rest =~= d + " +++"@);
    assert(rest.subrange(rest.len() - 4, rest.len() as int) =~= " +++"@);
    assert(rest.subrange(0, rest.len() - 4) =~= d);
    status_is_no_part(body);
    line_in_parts(pid, body);
    assert forall|i: int| 0 <= i < body.len() implies #[trigger] body[i] != '.' by {
        if 16 <= i < 16 + d.len() {
            assert(body[i] == d[i - 16]);
            assert(text::ascii_digit(d[i - 16]));
        }
    }
    dots_are_absent(body);
    let after = st.line(file, n, pid + " "@ + body);
    assert(after.events.drop_last() =~= st.events);
}

proof fn dots_are_absent(body: Seq<char>)
    requires
        forall|i: int| 0 <= i < body.len() ==> #[trigger] body[i] != '.',
    ensures
        !text::contains_text(body, "..."@),
{
    reveal_strlit("...");
    if text::contains_text(body, "..."@) {
        let i = choose|i: int| text::matches_at(body, "..."@, i);
        assert(body.subrange(i, i + 3)[0] == '.');
        assert(body[i] == '.');
    }
}

/// Whether a text can name a signal in a status.
pub open spec fn is_signal_text(s: Seq<char>) -> bool {
    s.len() > 0 && forall|i: int|
        0 <= i < s.len() ==> '0' <= #[trigger] s[i] <= '9' || 'A' <= s[i] <= 'Z' || 'a' <= s[i]
            <= 'z' || s[i] == '_' || s[i] == '+' || s[i] == '-' || s[i] == ' ' || s[i] == '(' || s[i]
            == ')'
}

/// The line that says by which signal a task was killed gives its end.
pub proof fn deaths_are_read(
    st: LineState,
    file: Seq<char>,
    n: usize,
    pid: Seq<char>,
    signal: Seq<char>,
)
    requires
        is_task(pid),
        is_signal_text(signal),
    ensures
        ({
            let status = "+++ killed by "@ + signal + " +++"@;
            adds_end(
                st.line(file, n, pid + " "@ + status),
                st,
                pid,
                status,
                EvidenceView { file, line: n, end_line: n },
            )
        }),
{
    reveal_strlit("+++ killed by ");
    reveal_strlit("+++ ");
    reveal_strlit(" +++");
    let body = "+++ killed by "@ + signal + " +++"@;
    assert(body.subrange(0, 4) =~= "+++ "@);
    assert(body.subrange(body.len() - 4, body.len() as int) =~= " +++"@);
    assert(body.subrange(0, 14) =~= "+++ killed by "@);
    let rest = body.subrange(14, body.len() as int);
    assert(rest =~= signal + " +++"@);
    assert(rest.subrange(rest.len() - 4, rest.len() as int) =~= " +++"@);
    assert(rest.subrange(0, rest.len() - 4) =~= signal);
    status_is_no_part(body);
    line_in_parts(pid, body);
    assert forall|i: int| 0 <= i < body.len() implies #[trigger] body[i] != '.' by {
        if 14 <= i < 14 + signal.len() {
            assert(body[i] == signal[i - 14]);
        }
    }
    dots_are_absent(body);
    assert forall|i: int| 0 <= i < signal.len() implies trace::status_char(
        #[trigger] signal[i],
    ) by {}
    let after = st.line(file, n, pid + " "@ + body);
    assert(after.events.drop_last() =~= st.events);
}

/// A line about a signal that a task got gives nothing; where its data is abbreviated, that
/// is warned of.
pub proof fn signals_give_nothing(
    st: LineState,
    file: Seq<char>,
    n: usize,
    pid: Seq<char>,
    rest: Seq<char>,
)
    requires
        is_task(pid),
        rest.len() > 0,
        rest.last() == '-',
    ensures
        ({
            let body = "--- "@ + rest;
            let after = st.line(file, n, pid + " "@ + body);
            &&& after.events == st.events
            &&& after.actions == st.actions
            &&& after.pending == st.pending
            &&& !text::contains_text(body, "..."@) ==> after.warnings == st.warnings
            &&& text::contains_text(body, "..."@) ==> after.warnings == st.warnings.push(
                on_line(file, n, "abbreviated trace data; inspect raw evidence"@),
            )
        }),
{
    reveal_strlit("--- ");
    reveal_strlit("<... ");
    reveal_strlit("<unfinished ...>");
    let body = "--- "@ + rest;
    assert(body.subrange(0, 4) =~= "--- "@);
    assert(body[0] == '-');
    assert(body.last() == '-');
    line_in_parts(pid, body);
    if text::matches_at(body, "<... "@, 0) {
        assert(body.subrange(0, 5)[0] == '<');
    }
    let u = "<unfinished ...>"@;
    if text::matches_at(body, u, body.len() - u.len()) {
        assert(body.subrange(body.len() - 16, body.len() as int)[15] == '>');
    }
}

/// A status that is neither is warned of.
pub proof fn other_statuses_are_warned_of(
    st: LineState,
    file: Seq<char>,
    n: usize,
    pid: Seq<char>,
    rest: Seq<char>,
)
    requires
        is_task(pid),
        rest.len() > 0,
        rest.last() == '+',
        rest[0] != 'e' && rest[0] != 'k',
        !text::contains_text("+++ "@ + rest, "..."@),
    ensures
        ({
            let body = "+++ "@ + rest;
            let after = st.line(file, n, pid + " "@ + body);
            &&& after.events == st.events
            &&& after.actions == st.actions
            &&& after.pending == st.pending
            &&& after.warnings == st.warnings.push(
                on_line(file, n, "unrecognized process status: "@ + body),
            )
        }),
{
    reveal_strlit("+++ ");
    reveal_strlit("--- ");
    reveal_strlit("<... ");
    reveal_strlit("<unfinished ...>");
    reveal_strlit("+++ exited with ");
    reveal_strlit("+++ killed by ");
    let body = "+++ "@ + rest;
    assert(body.subrange(0, 4) =~= "+++ "@);
    assert(body[0] == '+');
    assert(body[4] == rest[0]);
    assert(body.last() == '+');
    line_in_parts(pid, body);
    if text::matches_at(body, "<... "@, 0) {
        assert(body.subrange(0, 5)[0] == '<');
    }
    if text::matches_at(body, "--- "@, 0) {
        assert(body.subrange(0, 4)[0] == '-');
    }
    let u = "<unfinished ...>"@;
    if text::matches_at(body, u, body.len() - u.len()) {
        assert(body.subrange(body.len() - 16, body.len() as int)[15] == '>');
    }
    if text::matches_at(body, "+++ exited with "@, 0) {
        assert(body.subrange(0, 16)[4] == 'e');
    }
    if text::matches_at(body, "+++ killed by "@, 0) {
        assert(body.subrange(0, 14)[4] == 'k');
    }
}

/// A line without a space is malformed, and one that starts with anything but digits has no
/// task; either is warned of and gives nothing.
pub proof fn bad_lines_are_warned_of(
    st: LineState,
    file: Seq<char>,
    n: usize,
    word: Seq<char>,
    rest: Seq<char>,
)
    requires
        word.len() > 0,
        forall|i: int| 0 <= i < word.len() ==> !text::white_space(#[trigger] word[i]),
    ensures
        ({
            let after = st.line(file, n, word);
            &&& after.events == st.events
            &&& after.actions == st.actions
            &&& after.pending == st.pending
            &&& after.warnings == st.warnings.push(on_line(file, n, "malformed line"@))
        }),
        !is_task(word) && is_body(rest) ==> ({
            let after = st.line(file, n, word + " "@ + rest);
            &&& after.events == st.events
            &&& after.actions == st.actions
            &&& after.pending == st.pending
            &&& after.warnings == st.warnings.push(
                on_line(file, n, "invalid process identifier"@),
            )
        }),
{
    reveal_strlit(" ");
    assert(!text::white_space(word[0]) && !text::white_space(word.last()));
    text::trimmed_stays(word);
    text::first_at_least(word, text::spaces(), 0);
    let at = text::first_at(word, text::spaces(), 0);
    if at < word.len() {
        assert(text::white_space(word[at]));
    }
    if !is_task(word) && is_body(rest) {
        let s = word + " "@ + rest;
        let m = word.len() as int;
        assert(s[0] == word[0] && s.last() == rest.last());
        text::trimmed_stays(s);
        text::first_at_least(s, text::spaces(), 0);
        let x = text::first_at(s, text::spaces(), 0);
        assert(s[m] == ' ');
        if x < m {
            assert(s[x] == word[x]);
        }
        assert(s.subrange(0, m) =~= word);
        if text::all_digits(word) {
            assert forall|i: int| 0 <= i < word.len() implies '0' <= #[trigger] word[i]
                <= '9' by {
                assert(text::ascii_digit(word[i]));
            }
        }
    }
}

/// A call that is cut off is kept until its other part comes; one that was kept before it is
/// replaced, and that is warned of.
pub proof fn cut_calls_are_kept(
    st: LineState,
    file: Seq<char>,
    n: usize,
    pid: Seq<char>,
    prefix: Seq<char>,
)
    requires
        is_task(pid),
        prefix.len() > 0,
        !text::white_space(prefix[0]),
    ensures
        ({
            let after = st.line(file, n, pid + " "@ + (prefix + "<unfinished ...>"@));
            &&& after.events == st.events
            &&& after.actions == st.actions
            &&& after.pending == st.pending.insert(pid, (prefix, n))
            &&& !st.pending.contains_key(pid) ==> after.warnings == st.warnings
            &&& st.pending.contains_key(pid) ==> after.warnings == st.warnings.push(
                on_line(file, n, "replaced unfinished call"@),
            )
        }),
{
    reveal_strlit("<unfinished ...>");
    let u = "<unfinished ...>"@;
    let body = prefix + u;
    assert(body[0] == prefix[0]);
    assert(body.last() == '>');
    line_in_parts(pid, body);
    assert(body.subrange(body.len() - u.len(), body.len() as int) =~= u);
    assert(body.subrange(0, body.len() - u.len()) =~= prefix);
}

/// The other part of a call that was kept completes it: the call is read as if it had stood
/// in one line, with evidence from the line of its first part to that of its last.
pub proof fn cut_calls_are_completed(
    st: LineState,
    file: Seq<char>,
    n: usize,
    pid: Seq<char>,
    op: Seq<char>,
    start: Seq<char>,
    tail: Seq<char>,
    first: usize,
)
    requires
        is_task(pid),
        st.pending.contains_key(pid),
        st.pending[pid] == (op + "("@ + start, first),
        !op.contains('('),
        !op.contains('>'),
        op.len() > 0,
        tail.len() > 0,
        !text::white_space(tail.last()),
        tail.last() != '>',
        !text::white_space(op[0]),
        op[0] != '-' && op[0] != '+',
    ensures
        ({
            let after = st.line(file, n, pid + " "@ + ("<... "@ + op + " resumed>"@ + tail));
            let body = op + "("@ + start + tail;
            let evidence = EvidenceView { file, line: first, end_line: n };
            &&& after.pending == st.pending.remove(pid)
            &&& !text::contains_text(body, "..."@) ==> (match trace::call_event(
                pid,
                body,
                evidence,
            ) {
                Some((event, action)) => {
                    &&& after.events == st.events.push(event)
                    &&& after.actions == st.actions.push(action)
                    &&& after.warnings == st.warnings
                },
                None => {
                    &&& after.events == st.events
                    &&& after.actions == st.actions
                    &&& after.warnings == st.warnings.push(
                        on_line(file, n, "unsupported or incomplete event: "@ + body),
                    )
                },
            })
        }),
{
    reveal_strlit("<... ");
    reveal_strlit(" resumed>");
    reveal_strlit("<unfinished ...>");
    reveal_strlit("(");
    reveal_strlit("--- ");
    reveal_strlit("+++ ");
    let line = "<... "@ + op + " resumed>"@ + tail;
    assert(line[0] == '<');
    assert(line.last() == tail.last());
    line_in_parts(pid, line);
    let u = "<unfinished ...>"@;
    if text::matches_at(line, u, line.len() - u.len()) {
        assert(line.subrange(line.len() - 16, line.len() as int)[15] == '>');
    }
    assert(line.subrange(0, 5) =~= "<... "@);
    assert forall|i: int| 0 <= i < op.len() implies #[trigger] op[i] != '>' by {
        assert(op.contains(op[i]));
    }
    text::resumption_is_split(op, tail);
    assert(line.subrange(5, line.len() as int) =~= op + " resumed>"@ + tail);
    text::resumption_is_split("<... "@ + op, tail);
    let prefix = op + "("@ + start;
    text::first_at_least(prefix, text::just('('), 0);
    let at = text::first_at(prefix, text::just('('), 0);
    let m = op.len() as int;
    assert(prefix[m] == '(');
    if at < m {
        assert(prefix[at] == op[at]);
        assert(op.contains(op[at]));
    }
    assert(prefix.subrange(0, m) =~= op);
    let body = prefix + tail;
    assert(body[0] == op[0]);
    if text::matches_at(body, "--- "@, 0) {
        assert(body.subrange(0, 4)[0] == '-');
    }
    if text::matches_at(body, "+++ "@, 0) {
        assert(body.subrange(0, 4)[0] == '+');
    }
}

/// A part of a call that no part was kept for is warned of and gives nothing.
pub proof fn lone_parts_are_warned_of(
    st: LineState,
    file: Seq<char>,
    n: usize,
    pid: Seq<char>,
    rest: Seq<char>,
)
    requires
        is_task(pid),
        !st.pending.contains_key(pid),
        rest.len() > 0,
        !text::white_space(rest.last()),
        rest.last() != '>',
    ensures
        ({
            let after = st.line(file, n, pid + " "@ + ("<... "@ + rest));
            &&& after.events == st.events
            &&& after.actions == st.actions
            &&& after.pending == st.pending
            &&& after.warnings == st.warnings.push(on_line(file, n, "unmatched resumed call"@))
        }),
{
    reveal_strlit("<... ");
    reveal_strlit("<unfinished ...>");
    let body = "<... "@ + rest;
    assert(body[0] == '<');
    assert(body.last() == rest.last());
    line_in_parts(pid, body);
    let u = "<unfinished ...>"@;
    if text::matches_at(body, u, body.len() - u.len()) {
        assert(body.subrange(body.len() - 16, body.len() as int)[15] == '>');
    }
    assert(body.subrange(0, 5) =~= "<... "@);
    assert(st.pending.remove(pid) =~= st.pending);
}

/// A trace counts its lines from one on, takes a newline and a carriage return before it off
/// each, and remembers whether the last one ended.
pub proof fn lines_are_taken_off_a_trace(view: TraceView, body: Seq<char>)
    requires
        view.lines < usize::MAX,
        body.len() > 0,
        body.last() != '\n' && body.last() != '\r',
    ensures
        ({
            let n = (view.lines + 1) as usize;
            let state = view.state.line(view.file, n, body);
            let ended = view.push_line(body + "\n"@);
            let returned = view.push_line(body + "\r\n"@);
            let cut = view.push_line(body);
            &&& ended.state == state && returned.state == state && cut.state == state
            &&& ended.lines == n && returned.lines == n && cut.lines == n
            &&& ended.last_line_terminated && returned.last_line_terminated
            &&& !cut.last_line_terminated
            &&& ended.saw_line && returned.saw_line && cut.saw_line
            &&& ended.file == view.file && ended.initial_cwd == view.initial_cwd
        }),
{
    reveal_strlit("\n");
    reveal_strlit("\r");
    reveal_strlit("\r\n");
    let a = body + "\n"@;
    assert(a.subrange(a.len() - 1, a.len() as int) =~= "\n"@);
    assert(a.subrange(0, a.len() - 1) =~= body);
    if text::matches_at(body, "\r"@, body.len() - 1) {
        assert(body.subrange(body.len() - 1, body.len() as int)[0] == '\r');
    }
    if text::matches_at(body, "\n"@, body.len() - 1) {
        assert(body.subrange(body.len() - 1, body.len() as int)[0] == '\n');
    }
    let b = body + "\r\n"@;
    assert(b.subrange(b.len() - 1, b.len() as int) =~= "\n"@);
    let c = b.subrange(0, b.len() - 1);
    assert(c.subrange(c.len() - 1, c.len() as int) =~= "\r"@);
    assert(c.subrange(0, c.len() - 1) =~= body);
}

/// A trace starts with nothing read.
pub proof fn traces_start_empty(file: Seq<char>, cwd: Option<Seq<char>>)
    ensures
        ({
            let view = TraceView::start(file, cwd);
            &&& view.file == file && view.initial_cwd == cwd
            &&& view.state.events.len() == 0 && view.state.warnings.len() == 0
            &&& view.state.actions.len() == 0
            &&& view.state.pending == Map::<Seq<char>, (Seq<char>, usize)>::empty()
            &&& view.lines == 0 && !view.saw_line
        }),
{
}

/// At its end a trace warns of everything that it warned of before, of a last line that does
/// not end, and of every call that was cut off and not completed, with the line of its first
/// part.
pub proof fn traces_end_with_what_is_open(view: TraceView, pid: Seq<char>, i: int)
    requires
        view.state.pending.dom().finite(),
    ensures
        ({
            let all = view.end_warnings();
            &&& 0 <= i < view.state.warnings.len() ==> all[i] == view.state.warnings[i]
            &&& all.len() >= view.state.warnings.len()
            &&& view.saw_line && !view.last_line_terminated ==> all.contains(
                view.file + ": trace ends without newline; possible truncation"@,
            )
            &&& view.state.pending.contains_key(pid) ==> all.contains(
                on_line(
                    view.file,
                    view.state.pending[pid].1,
                    "unfinished call at end of trace"@,
                ),
            )
            &&& view.state.pending.dom().len() == 0 && (!view.saw_line
                || view.last_line_terminated) ==> all == view.state.warnings
        }),
{
    let pending = view.state.pending;
    let keys = trace::pending_order(pending);
    order::listed_lists::<String>(pending.dom());
    let listed = order::listed::<String>(pending.dom());
    assert(forall|k: Seq<char>| #[trigger]
        listed.contains(k) <==> pending.contains_key(k));
    assert(order::increasing::<String>(keys) && forall|k: Seq<char>| #[trigger]
        keys.contains(k) <==> pending.contains_key(k));
    let mark = view.file + ": trace ends without newline; possible truncation"@;
    let truncated = if view.saw_line && !view.last_line_terminated {
        view.state.warnings.push(mark)
    } else {
        view.state.warnings
    };
    let n = keys.len() as int;
    let rest = trace::unfinished_upto(view.file, pending, keys, n);
    unfinished_are_listed(view.file, pending, keys, n);
    let all = view.end_warnings();
    assert(all == truncated + rest);
    if view.saw_line && !view.last_line_terminated {
        assert(all[view.state.warnings.len() as int] == mark);
    }
    if pending.contains_key(pid) {
        assert(keys.contains(pid));
        let k = choose|k: int| 0 <= k < keys.len() && keys[k] == pid;
        assert(all[truncated.len() + k] == rest[k]);
    }
    if pending.dom().len() == 0 {
        if n > 0 {
            assert(keys.contains(keys[0]));
            assert(pending.dom().contains(keys[0]));
        }
        assert(all =~= truncated);
    }
}

proof fn unfinished_are_listed(
    file: Seq<char>,
    pending: Map<Seq<char>, (Seq<char>, usize)>,
    keys: Seq<Seq<char>>,
    n: int,
)
    requires
        0 <= n <= keys.len(),
    ensures
        ({
            let all = trace::unfinished_upto(file, pending, keys, n);
            &&& all.len() == n
            &&& forall|k: int|
                0 <= k < n ==> #[trigger] all[k] == on_line(
                    file,
                    pending[keys[k]].1,
                    "unfinished call at end of trace"@,
                )
        }),
    decreases n,
{
    if n > 0 {
        unfinished_are_listed(file, pending, keys, n - 1);
    }
}

} // verus!
