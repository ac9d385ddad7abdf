//! What holds of every parsed trace.
use vstd::prelude::*;

use crate::model::{EventView, EvidenceView};
use crate::parse::flags;
use crate::parse::flags::{FlagTable, FsAction, SpawnEffect, UnshareEffect};
use crate::parse::fs::{FsContextView, FsView, Task};
use crate::parse::resolve;
use crate::parse::resolve::ResolveState;
use crate::parse::timeline;
use crate::parse::timeline::{Parsed, TaskGenerationId, TaskGenerationOrigin, TimelineView};
use crate::parse::trace;
use crate::parse::trace::TraceView;
use crate::text;
use crate::views;

verus! {

/// Whether one event says what another says but for its context, of which it never
/// says more.
pub open spec fn same_observation(before: EventView, after: EventView) -> bool {
    &&& after == (EventView {
        cwd_before: after.cwd_before,
        context_uncertain: after.context_uncertain,
        ..before
    })
    &&& before.context_uncertain ==> after.context_uncertain
}

/// Whether events say what they said before but for their contexts, and no warning is
/// taken back.
pub open spec fn keeps(before: ResolveState, after: ResolveState) -> bool {
    &&& after.events.len() == before.events.len()
    &&& forall|i: int|
        0 <= i < before.events.len() ==> same_observation(
            before.events[i],
            #[trigger] after.events[i],
        )
    &&& before.warnings.len() <= after.warnings.len()
    &&& forall|i: int|
        0 <= i < before.warnings.len() ==> #[trigger] after.warnings[i] == before.warnings[i]
}

proof fn keeps_on(a: ResolveState, b: ResolveState, c: ResolveState)
    requires
        keeps(a, b),
        keeps(b, c),
    ensures
        keeps(a, c),
{
    assert forall|i: int| 0 <= i < a.events.len() implies same_observation(
        a.events[i],
        #[trigger] c.events[i],
    ) by {
        assert(same_observation(a.events[i], b.events[i]));
    }
    assert forall|i: int| 0 <= i < a.warnings.len() implies #[trigger] c.warnings[i]
        == a.warnings[i] by {
        assert(b.warnings[i] == a.warnings[i]);
    }
}

/// What an event does to contexts changes nothing of the events but their contexts.
pub proof fn act_keeps(s: ResolveState, t: TimelineView, index: usize, fs: usize, action: FsAction)
    ensures
        keeps(s, s.act(t, index, fs, action)),
{
    match action {
        FsAction::Spawn(relation) => match t.spawned_generations[index as int] {
            None => {},
            Some(child) => match t.generations[child.0 as int].origin {
                TaskGenerationOrigin::LiveCollision { previous, event } => {
                    let exposed = match s.fs.task_fs(previous) {
                        Some(previous_fs) => s.expose(
                            previous_fs,
                            s.events[index as int].evidence.line,
                        ),
                        None => s,
                    };
                    keeps_on(s, exposed, s.act(t, index, fs, action));
                },
                _ => {},
            },
        },
        FsAction::Unshare(effect) => {
            let start = s.events[index as int].evidence.line;
            if effect is SplitFs {
                let checked = if s.fs.has_pending_fork_snapshot(fs, start) {
                    s.mark(
                        fs,
                        index,
                        "unshare overlapped an unresolved private clone snapshot"@,
                    )
                } else if s.fs.has_unsettled_change(fs, start) {
                    s.mark(fs, index, "unshare overlapped an unresolved FS transition"@)
                } else {
                    s
                };
                keeps_on(s, checked, s.act(t, index, fs, action));
            }
            if effect is SplitFsNamespaceUncertain {
                let checked = if s.fs.has_pending_fork_snapshot(fs, start) {
                    s.mark(
                        fs,
                        index,
                        "namespace change overlapped an unresolved private clone snapshot"@,
                    )
                } else {
                    s
                };
                keeps_on(s, checked, s.act(t, index, fs, action));
            }
        },
        _ => {},
    }
}

/// Resolving the context of one event changes nothing of the events but their contexts,
/// and takes back neither uncertainty nor a warning.
pub proof fn step_keeps(
    s: ResolveState,
    t: TimelineView,
    index: usize,
    action: FsAction,
    initial_cwd: Option<Seq<char>>,
)
    requires
        index < s.events.len(),
    ensures
        keeps(s, s.step(t, index, action, initial_cwd)),
{
    let entered = s.enter(t, index, initial_cwd);
    let fs = entered.fs.fs_of(t.event_generations[index as int]);
    let acted = entered.act(t, index, fs, action);
    assert(keeps(s, entered));
    act_keeps(entered, t, index, fs, action);
    keeps_on(s, entered, acted);
    let changed = acted.change_cwd(index, fs);
    assert(keeps(acted, changed));
    keeps_on(s, acted, changed);
    let reported = changed.report(index);
    assert(keeps(changed, reported));
    keeps_on(s, changed, reported);
}

/// Resolving contexts changes nothing of an event but its context, and neither
/// uncertainty nor a warning is ever taken back.
pub proof fn resolution_changes_only_contexts(
    start: ResolveState,
    t: TimelineView,
    actions: Seq<FsAction>,
    initial_cwd: Option<Seq<char>>,
    n: int,
)
    requires
        t.wf(start.events.len()),
        0 <= n <= start.events.len(),
    ensures
        keeps(start, resolve::resolved_upto(start, t, actions, initial_cwd, n)),
    decreases n,
{
    if n > 0 {
        resolution_changes_only_contexts(start, t, actions, initial_cwd, n - 1);
        let before = resolve::resolved_upto(start, t, actions, initial_cwd, n - 1);
        let index = t.event_order[n - 1];
        let action = resolve::action_at(actions, index);
        step_keeps(before, t, index, action, initial_cwd);
        keeps_on(start, before, before.step(t, index, action, initial_cwd));
    }
}

/// Whether the events and the unfinished calls of a parser refer to lines that it has
/// seen, and its events have the current schema version.
pub open spec fn fits(view: TraceView) -> bool {
    &&& forall|i: int|
        0 <= i < view.state.events.len() ==> observed_by(
            #[trigger] view.state.events[i],
            view.lines,
        )
    &&& forall|pid: Seq<char>| #[trigger]
        view.state.pending.contains_key(pid) ==> 1 <= view.state.pending[pid].1 <= view.lines
}

/// Whether an event has the current schema version and refers to the first `lines`
/// lines.
pub open spec fn observed_by(e: EventView, lines: usize) -> bool {
    e.schema_version == 2 && 1 <= e.evidence.line <= e.evidence.end_line <= lines
}

proof fn push_line_fits(view: TraceView, line: Seq<char>)
    requires
        fits(view),
        view.lines < usize::MAX,
    ensures
        fits(view.push_line(line)),
        view.push_line(line).lines == view.lines + 1,
{
    let out = view.push_line(line);
    assert forall|i: int| 0 <= i < out.state.events.len() implies observed_by(
        #[trigger] out.state.events[i],
        out.lines,
    ) by {
        if i < view.state.events.len() {
            assert(observed_by(view.state.events[i], view.lines));
        }
    }
}

/// The events that a parser has found refer to lines that it has seen.
pub proof fn events_refer_to_seen_lines(
    file: Seq<char>,
    initial_cwd: Option<Seq<char>>,
    lines: Seq<Seq<char>>,
)
    requires
        lines.len() <= usize::MAX,
    ensures
        fits(TraceView::start(file, initial_cwd).push_lines(lines)),
        TraceView::start(file, initial_cwd).push_lines(lines).lines == lines.len(),
    decreases lines.len(),
{
    if lines.len() > 0 {
        events_refer_to_seen_lines(file, initial_cwd, lines.drop_last());
        push_line_fits(
            TraceView::start(file, initial_cwd).push_lines(lines.drop_last()),
            lines.last(),
        );
    }
}

/// Every event of a parsed trace has the current schema version and refers to lines of
/// the trace.
pub proof fn parsed_events_fit_the_trace(view: TraceView, r: Parsed, i: int)
    requires
        fits(view),
        view.gives(r),
        0 <= i < r.events@.len(),
    ensures
        observed_by(r.events@[i]@, r.lines),
{
    let t = r.timeline@;
    let generations = t.generations.len();
    let start = ResolveState {
        events: t.marked_upto(view.state.events, generations as int),
        warnings: view.end_warnings() + t.findings_upto(view.state.events, generations as int),
        fs: FsView::start(generations),
    };
    resolution_changes_only_contexts(
        start,
        t,
        view.state.actions,
        view.initial_cwd,
        view.state.events.len() as int,
    );
    let e = view.state.events[i];
    assert(observed_by(e, view.lines));
    assert(views::each(r.events@)[i] == r.events@[i]@);
    assert(same_observation(start.events[i], view.finished(t).events[i]));
}

/// A failed call does nothing to filesystem contexts: it spawns no task, splits and
/// invalidates no context, and changes no directory.
pub proof fn failed_calls_change_no_context(
    pid: Seq<char>,
    body: Seq<char>,
    evidence: EvidenceView,
)
    ensures
        trace::call_event(pid, body, evidence) matches Some((e, action)) ==> e.outcome
            != "success"@ ==> action is Nothing && e.child_pid is None
            && !ResolveState::changes_cwd(e),
{
}

/// What a spawn shares is said only if every flag is known, allowed, and compatible with
/// the others.
pub proof fn spawn_effects_need_valid_flags(flags: Seq<char>, signal: Seq<char>)
    ensures
        !(flags::legacy_effect(flags) is Unknown) ==> (flags::legacy_bits(flags) matches Some(bits)
            && bits & !flags::LEGACY_CLONE_ALLOWED == 0 && flags::combination_valid(
            bits,
            false,
            bits & flags::CSIGNAL_MASK,
        )),
        !(flags::clone3_effect(flags, signal) is Unknown) ==> (flags::flag_bits(
            FlagTable::Clone3,
            flags,
        ) matches Some(bits) && bits & !flags::CLONE3_ALLOWED == 0 && (flags::exit_signal_of(
            signal,
        ) matches Some(exit_signal) && flags::combination_valid(bits, true, exit_signal))),
        !(flags::unshare_effect(flags) is Unknown) ==> (flags::flag_bits(FlagTable::Unshare, flags)
            matches Some(bits) && bits & !flags::UNSHARE_ALLOWED == 0),
{
}

/// A context that was made uncertain gives no directory.
pub proof fn invalidated_context_gives_no_directory(fs: FsView, first: usize, line: usize)
    requires
        fs.has(first),
        fs.contexts.len() <= usize::MAX,
    ensures
        fs.invalidate(first, line).is_uncertain(first),
        fs.invalidate(first, line).certain_cwd(first) is None,
        fs.invalidate_all().is_uncertain(first),
        fs.invalidate_all().certain_cwd(first) is None,
{
    assert(fs.reaches(line, first, first, 0));
    assert(fs.connected(line, first, first));
}

/// Whether no context of one state is there again, or certain again, in another.
pub open spec fn stays_uncertain(before: FsView, after: FsView) -> bool {
    &&& before.contexts.len() <= after.contexts.len()
    &&& forall|i: int|
        0 <= i < before.contexts.len() ==> no_more_certain(
            before.contexts[i],
            #[trigger] after.contexts[i],
        )
}

/// Whether a context is not there again, or certain again.
pub open spec fn no_more_certain(before: Option<FsContextView>, after: Option<FsContextView>) -> bool {
    &&& before is None ==> after is None
    &&& before is Some && before->0.uncertain && after is Some ==> after->0.uncertain
}

proof fn stays_on(a: FsView, b: FsView, c: FsView)
    requires
        stays_uncertain(a, b),
        stays_uncertain(b, c),
    ensures
        stays_uncertain(a, c),
{
    assert forall|i: int| 0 <= i < a.contexts.len() implies no_more_certain(
        a.contexts[i],
        #[trigger] c.contexts[i],
    ) by {
        assert(no_more_certain(a.contexts[i], b.contexts[i]));
    }
}

proof fn moves_stay(
    fs: FsView,
    child: TaskGenerationId,
    at: usize,
    cwd: Option<Seq<char>>,
    uncertain: bool,
)
    ensures
        stays_uncertain(fs, fs.private_child(child, cwd, uncertain)),
        stays_uncertain(fs, fs.replace_child(child, at)),
        stays_uncertain(fs, fs.exit(child)),
        stays_uncertain(fs, fs.remove_member(at)),
{
    let moved = FsView {
        tasks: fs.tasks.update(child.0 as int, Some(Task { fs: at, exited: false })),
        ..fs
    };
    let left = match fs.tasks[child.0 as int] {
        Some(was) if !was.exited && was.fs != at => moved.remove_member(was.fs),
        _ => moved,
    };
    assert(stays_uncertain(fs, left));
    stays_on(fs, left, fs.replace_child(child, at));
}

proof fn act_stays(s: ResolveState, t: TimelineView, index: usize, fs: usize, action: FsAction)
    ensures
        stays_uncertain(s.fs, s.act(t, index, fs, action).fs),
{
    let start = s.events[index as int].evidence.line;
    let end = s.events[index as int].evidence.end_line;
    let out = s.act(t, index, fs, action);
    match action {
        FsAction::Spawn(relation) => match t.spawned_generations[index as int] {
            None => {},
            Some(child) => match t.generations[child.0 as int].origin {
                TaskGenerationOrigin::LiveCollision { previous, event } => {
                    let exposed = match s.fs.task_fs(previous) {
                        Some(previous_fs) => s.expose(previous_fs, start),
                        None => s,
                    };
                    moves_stay(exposed.fs, child, 0, None, true);
                    let split = exposed.fs.private_child(child, None, true);
                    stays_on(s.fs, exposed.fs, split);
                    stays_on(s.fs, split, out.fs);
                },
                _ => {
                    let (cwd, uncertain) = s.fs.snapshot(fs);
                    moves_stay(s.fs, child, fs, cwd, uncertain);
                    moves_stay(s.fs, child, fs, None, true);
                    let split = s.fs.private_child(child, cwd, uncertain);
                    let unknown = s.fs.private_child(child, None, true);
                    let cleared = s.fs.invalidate(fs, start);
                    moves_stay(cleared, child, fs, None, true);
                    if relation is PrivateFs && !s.fs.has_unsettled_change(fs, start) {
                        stays_on(s.fs, split, out.fs);
                    } else if relation is PrivateFsNamespaceUncertain {
                        stays_on(s.fs, unknown, out.fs);
                    } else if !(relation is SharedFs) {
                        stays_on(s.fs, cleared, out.fs);
                    }
                },
            },
        },
        FsAction::Unshare(effect) => {
            let g = t.event_generations[index as int];
            if effect is SplitFs {
                let checked = if s.fs.has_pending_fork_snapshot(fs, start) {
                    s.mark(
                        fs,
                        index,
                        "unshare overlapped an unresolved private clone snapshot"@,
                    )
                } else if s.fs.has_unsettled_change(fs, start) {
                    s.mark(fs, index, "unshare overlapped an unresolved FS transition"@)
                } else {
                    s
                };
                let (cwd, uncertain) = checked.fs.snapshot(fs);
                moves_stay(checked.fs, g, 0, cwd, uncertain);
                let split = checked.fs.private_child(g, cwd, uncertain);
                stays_on(s.fs, checked.fs, split);
                stays_on(s.fs, split, out.fs);
            }
            if effect is SplitFsNamespaceUncertain {
                let overlaps = s.fs.has_pending_fork_snapshot(fs, start);
                let checked = if overlaps {
                    s.mark(
                        fs,
                        index,
                        "namespace change overlapped an unresolved private clone snapshot"@,
                    )
                } else {
                    s
                };
                moves_stay(checked.fs, g, 0, None, true);
                let split = checked.fs.private_child(g, None, true);
                stays_on(s.fs, checked.fs, split);
                stays_on(s.fs, split, out.fs);
            }
        },
        FsAction::Exit => {
            moves_stay(s.fs, t.event_generations[index as int], 0, None, true);
        },
        _ => {},
    }
}

/// No event makes an uncertain context certain again: from then on its tasks have no
/// known directory, until one of them gets a context of its own.
pub proof fn uncertain_contexts_stay_uncertain(
    s: ResolveState,
    t: TimelineView,
    index: usize,
    action: FsAction,
    initial_cwd: Option<Seq<char>>,
)
    ensures
        stays_uncertain(s.fs, s.step(t, index, action, initial_cwd).fs),
{
    let g = t.event_generations[index as int];
    let placed = s.fs.ensure_task(g, t.generations[g.0 as int].origin, initial_cwd);
    let entered = s.enter(t, index, initial_cwd);
    let fs = entered.fs.fs_of(g);
    assert(stays_uncertain(s.fs, placed));
    assert(stays_uncertain(placed, entered.fs));
    stays_on(s.fs, placed, entered.fs);
    let acted = entered.act(t, index, fs, action);
    act_stays(entered, t, index, fs, action);
    stays_on(s.fs, entered.fs, acted.fs);
    let changed = acted.change_cwd(index, fs);
    assert(stays_uncertain(acted.fs, changed.fs));
    stays_on(s.fs, acted.fs, changed.fs);
}

/// Whether a line is a body with an ending: none, a newline, or a carriage return and a
/// newline.
pub open spec fn is_line_of(line: Seq<char>, body: Seq<char>) -> bool {
    line == body || line == body.push('\n') || line == body.push('\r').push('\n')
}

/// The body of a line is read as the body with any ending.
proof fn ending_is_trimmed(line: Seq<char>, body: Seq<char>)
    requires
        is_line_of(line, body),
    ensures
        text::trimmed(trace::line_body(line).0) == text::trimmed(body),
{
    reveal_strlit("\n");
    reveal_strlit("\r");
    text::trailing_space_is_trimmed(body, '\n');
    text::trailing_space_is_trimmed(body, '\r');
    text::trailing_space_is_trimmed(body.push('\r'), '\n');
    assert(text::trimmed(line) == text::trimmed(body));
    let (inner, terminated) = trace::line_body(line);
    if terminated {
        let cut = line.subrange(0, line.len() - 1);
        assert(line.subrange(line.len() - 1, line.len() as int)[0] == '\n');
        assert(cut.push('\n') =~= line);
        text::trailing_space_is_trimmed(cut, '\n');
        if inner != cut {
            assert(cut.subrange(cut.len() - 1, cut.len() as int)[0] == '\r');
            assert(inner.push('\r') =~= cut);
            text::trailing_space_is_trimmed(inner, '\r');
        }
    }
}

/// How its lines end does not change what is parsed of a trace: the events, the
/// warnings on its lines and the unfinished calls come from the bodies alone. Where the
/// last lines agree on whether they end in a newline, nothing at all differs.
pub proof fn line_endings_do_not_matter(
    view: TraceView,
    bodies: Seq<Seq<char>>,
    a: Seq<Seq<char>>,
    b: Seq<Seq<char>>,
)
    requires
        a.len() == bodies.len(),
        b.len() == bodies.len(),
        forall|i: int| 0 <= i < bodies.len() ==> is_line_of(#[trigger] a[i], bodies[i]),
        forall|i: int| 0 <= i < bodies.len() ==> is_line_of(#[trigger] b[i], bodies[i]),
    ensures
        ({
            let x = view.push_lines(a);
            let y = view.push_lines(b);
            &&& x.state == y.state
            &&& x.lines == y.lines
            &&& (a.len() > 0 ==> trace::line_body(a.last()).1 == trace::line_body(b.last()).1)
                ==> x == y
        }),
    decreases bodies.len(),
{
    if bodies.len() > 0 {
        let n = bodies.len() - 1;
        assert forall|i: int| 0 <= i < n implies is_line_of(
            #[trigger] a.drop_last()[i],
            bodies.drop_last()[i],
        ) by {
            assert(is_line_of(a[i], bodies[i]));
        }
        assert forall|i: int| 0 <= i < n implies is_line_of(
            #[trigger] b.drop_last()[i],
            bodies.drop_last()[i],
        ) by {
            assert(is_line_of(b[i], bodies[i]));
        }
        line_endings_do_not_matter(view, bodies.drop_last(), a.drop_last(), b.drop_last());
        ending_is_trimmed(a[n], bodies[n]);
        ending_is_trimmed(b[n], bodies[n]);
        pushed_lines_keep_the_trace(view, a.drop_last());
        pushed_lines_keep_the_trace(view, b.drop_last());
    }
}

/// Lines do not change which trace is parsed.
proof fn pushed_lines_keep_the_trace(view: TraceView, lines: Seq<Seq<char>>)
    ensures
        view.push_lines(lines).file == view.file,
        view.push_lines(lines).initial_cwd == view.initial_cwd,
    decreases lines.len(),
{
    if lines.len() > 0 {
        pushed_lines_keep_the_trace(view, lines.drop_last());
    }
}

/// A state with some warnings before its own.
spec fn behind(w: Seq<Seq<char>>, s: ResolveState) -> ResolveState {
    ResolveState { warnings: w + s.warnings, ..s }
}

/// What marks events does not look at warnings, and adds its own behind them.
proof fn marks_stay_behind(
    w: Seq<Seq<char>>,
    s: ResolveState,
    fs: usize,
    line: usize,
    index: usize,
    reason: Seq<char>,
)
    ensures
        behind(w, s).expose(fs, line) == behind(w, s.expose(fs, line)),
        behind(w, s).mark(fs, index, reason) == behind(w, s.mark(fs, index, reason)),
        behind(w, s).mark_all(index, reason) == behind(w, s.mark_all(index, reason)),
{
    let b = behind(w, s);
    assert(b.expose(fs, line).events =~= s.expose(fs, line).events);
    assert(b.mark(fs, index, reason).events =~= s.mark(fs, index, reason).events);
    assert(b.mark(fs, index, reason).warnings =~= w + s.mark(fs, index, reason).warnings);
    assert(b.mark_all(index, reason).events =~= s.mark_all(index, reason).events);
    assert(b.mark_all(index, reason).warnings =~= w + s.mark_all(index, reason).warnings);
}

proof fn spawns_stay_behind(
    w: Seq<Seq<char>>,
    s: ResolveState,
    t: TimelineView,
    index: usize,
    fs: usize,
    relation: SpawnEffect,
    child: TaskGenerationId,
    previous: TaskGenerationId,
)
    ensures
        behind(w, s).collide(index, fs, relation, child, previous) == behind(
            w,
            s.collide(index, fs, relation, child, previous),
        ),
        behind(w, s).spawn(t, index, fs, relation, child) == behind(
            w,
            s.spawn(t, index, fs, relation, child),
        ),
{
    let start = s.events[index as int].evidence.line;
    let namespace = "namespace creation leaves only the new child path context unproven"@;
    let unknown = "clone flags did not prove whether filesystem state is shared"@;
    let overlap = "private clone overlapped an unresolved FS transition"@;
    let previous_fs = s.fs.task_fs(previous)->0;
    marks_stay_behind(w, s, previous_fs, start, index, namespace);
    let exposed = match s.fs.task_fs(previous) {
        Some(previous_fs) => s.expose(previous_fs, start),
        None => s,
    };
    let split = exposed.with_fs(exposed.fs.private_child(child, None, true));
    assert(behind(w, exposed).with_fs(split.fs) == behind(w, split));
    marks_stay_behind(w, split, exposed.fs.contexts.len() as usize, start, index, namespace);
    marks_stay_behind(w, split, fs, start, index, unknown);
    marks_stay_behind(w, s, fs, start, index, overlap);
    marks_stay_behind(w, s, fs, start, index, unknown);
    let apart = s.with_fs(s.fs.private_child(child, None, true));
    assert(behind(w, s).with_fs(apart.fs) == behind(w, apart));
    marks_stay_behind(w, apart, s.fs.contexts.len() as usize, start, index, namespace);
}

proof fn splits_stay_behind(
    w: Seq<Seq<char>>,
    s: ResolveState,
    index: usize,
    fs: usize,
    g: TaskGenerationId,
    effect: UnshareEffect,
)
    ensures
        behind(w, s).unshare(index, fs, g, effect) == behind(w, s.unshare(index, fs, g, effect)),
{
    let line = s.events[index as int].evidence.line;
    let unknown = "unshare flags did not prove its filesystem effect"@;
    let copied = "unshare overlapped an unresolved private clone snapshot"@;
    let open = "unshare overlapped an unresolved FS transition"@;
    let namespace = "namespace change overlapped an unresolved private clone snapshot"@;
    let caller = "namespace change leaves only the caller path context unproven"@;
    marks_stay_behind(w, s, fs, line, index, unknown);
    marks_stay_behind(w, s, fs, line, index, copied);
    marks_stay_behind(w, s, fs, line, index, open);
    marks_stay_behind(w, s, fs, line, index, namespace);
    let apart = s.with_fs(s.fs.private_child(g, None, true));
    assert(behind(w, s).with_fs(apart.fs) == behind(w, apart));
    marks_stay_behind(w, apart, s.fs.contexts.len() as usize, line, index, caller);
}

proof fn step_stays_behind(
    w: Seq<Seq<char>>,
    s: ResolveState,
    t: TimelineView,
    index: usize,
    action: FsAction,
    initial_cwd: Option<Seq<char>>,
)
    ensures
        behind(w, s).step(t, index, action, initial_cwd) == behind(
            w,
            s.step(t, index, action, initial_cwd),
        ),
{
    let g = t.event_generations[index as int];
    let entered = s.enter(t, index, initial_cwd);
    assert(behind(w, s).enter(t, index, initial_cwd) == behind(w, entered));
    let fs = entered.fs.fs_of(g);
    let acted = entered.act(t, index, fs, action);
    assert(behind(w, entered).act(t, index, fs, action) == behind(w, acted)) by {
        act_stays_behind(w, entered, t, index, fs, action);
    }
    let changed = acted.change_cwd(index, fs);
    assert(behind(w, acted).change_cwd(index, fs) == behind(w, changed)) by {
        let line = acted.events[index as int].evidence.line;
        marks_stay_behind(
            w,
            acted,
            fs,
            line,
            index,
            "directory change overlapped an unresolved private clone snapshot"@,
        );
        marks_stay_behind(
            w,
            acted,
            fs,
            line,
            index,
            "successful directory change has no absolute per-syscall directory evidence"@,
        );
        marks_stay_behind(
            w,
            acted,
            fs,
            line,
            index,
            "directory changes overlap and their order is not proven"@,
        );
    }
    assert(behind(w, changed).report(index).warnings =~= w + changed.report(index).warnings);
    assert(behind(w, changed).report(index) == behind(w, changed.report(index)));
}

proof fn act_stays_behind(
    w: Seq<Seq<char>>,
    s: ResolveState,
    t: TimelineView,
    index: usize,
    fs: usize,
    action: FsAction,
)
    ensures
        behind(w, s).act(t, index, fs, action) == behind(w, s.act(t, index, fs, action)),
{
    let line = s.events[index as int].evidence.line;
    match action {
        FsAction::Spawn(relation) => match t.spawned_generations[index as int] {
            None => {
                marks_stay_behind(
                    w,
                    s,
                    fs,
                    line,
                    index,
                    "spawn result lacked a usable child task identity"@,
                );
            },
            Some(child) => match t.generations[child.0 as int].origin {
                TaskGenerationOrigin::LiveCollision { previous, event } => {
                    spawns_stay_behind(w, s, t, index, fs, relation, child, previous);
                },
                _ => {
                    spawns_stay_behind(w, s, t, index, fs, relation, child, child);
                },
            },
        },
        FsAction::Unshare(effect) => {
            splits_stay_behind(w, s, index, fs, t.event_generations[index as int], effect);
        },
        _ => {
            marks_stay_behind(
                w,
                s,
                fs,
                line,
                index,
                "root or namespace operation is outside the CWD model"@,
            );
            marks_stay_behind(
                w,
                s,
                fs,
                line,
                index,
                "mount namespace transition has process-wide unmodeled reach"@,
            );
        },
    }
}

/// Resolving contexts does not look at warnings, and adds its own behind them.
proof fn resolution_stays_behind(
    w: Seq<Seq<char>>,
    start: ResolveState,
    t: TimelineView,
    actions: Seq<FsAction>,
    initial_cwd: Option<Seq<char>>,
    n: int,
)
    ensures
        resolve::resolved_upto(behind(w, start), t, actions, initial_cwd, n) == behind(
            w,
            resolve::resolved_upto(start, t, actions, initial_cwd, n),
        ),
    decreases n,
{
    if n > 0 {
        resolution_stays_behind(w, start, t, actions, initial_cwd, n - 1);
        let index = t.event_order[n - 1];
        step_stays_behind(
            w,
            resolve::resolved_upto(start, t, actions, initial_cwd, n - 1),
            t,
            index,
            resolve::action_at(actions, index),
            initial_cwd,
        );
    }
}

/// The warning on a trace whose last line does not end.
pub open spec fn truncation_warning(file: Seq<char>) -> Seq<char> {
    file + ": trace ends without newline; possible truncation"@
}

/// Whether two parsed traces say the same, but for their warnings.
pub open spec fn same_but_warnings(x: Parsed, y: Parsed) -> bool {
    &&& views::each(x.events@) == views::each(y.events@)
    &&& x.lines == y.lines
    &&& x.timeline@ == y.timeline@
}

/// Whether one parsed trace says what another says and warns of a missing last newline
/// besides, behind the `at` warnings on its lines.
pub open spec fn adds_truncation(file: Seq<char>, at: int, x: Parsed, y: Parsed) -> bool {
    &&& same_but_warnings(x, y)
    &&& 0 <= at <= y.warnings@.len()
    &&& views::each(x.warnings@) == views::each(y.warnings@).insert(at, truncation_warning(file))
}

/// Parsers in the same state give the same, but for the warning on a missing last newline.
proof fn finished_alike(a: TraceView, b: TraceView, x: Parsed, y: Parsed)
    requires
        a.gives(x),
        b.gives(y),
        a.saw_line,
        !a.last_line_terminated,
        b == (TraceView { last_line_terminated: true, ..a }),
    ensures
        adds_truncation(a.file, a.state.warnings.len() as int, x, y),
{
    let t = x.timeline@;
    timeline::interpretation_is_unique(t, y.timeline@, a.state.events);
    let generations = t.generations.len();
    let bare = ResolveState {
        events: t.marked_upto(a.state.events, generations as int),
        warnings: Seq::empty(),
        fs: FsView::start(generations),
    };
    let findings = t.findings_upto(a.state.events, generations as int);
    let n = a.state.events.len() as int;
    let p = a.end_warnings() + findings;
    let q = b.end_warnings() + findings;
    let added = resolve::resolved_upto(bare, t, a.state.actions, a.initial_cwd, n);
    resolution_stays_behind(p, bare, t, a.state.actions, a.initial_cwd, n);
    resolution_stays_behind(q, bare, t, a.state.actions, a.initial_cwd, n);
    assert(p + Seq::<Seq<char>>::empty() =~= p);
    assert(q + Seq::<Seq<char>>::empty() =~= q);
    assert(views::each(x.warnings@) == p + added.warnings);
    assert(views::each(y.warnings@) == q + added.warnings);
    assert(views::each(y.warnings@).len() == y.warnings@.len());
    assert(p + added.warnings =~= (q + added.warnings).insert(
        a.state.warnings.len() as int,
        truncation_warning(a.file),
    ));
}

/// How its lines end does not change what a trace is parsed to, but for one warning: the
/// events, the number of lines and the timeline come from the bodies alone, and so do the
/// warnings, unless one trace ends without a newline and the other does not. Then the
/// first has the warning on that besides, and no other.
pub proof fn endings_change_only_the_truncation_warning(
    view: TraceView,
    bodies: Seq<Seq<char>>,
    a: Seq<Seq<char>>,
    b: Seq<Seq<char>>,
    x: Parsed,
    y: Parsed,
)
    requires
        a.len() == bodies.len(),
        b.len() == bodies.len(),
        forall|i: int| 0 <= i < bodies.len() ==> is_line_of(#[trigger] a[i], bodies[i]),
        forall|i: int| 0 <= i < bodies.len() ==> is_line_of(#[trigger] b[i], bodies[i]),
        view.push_lines(a).gives(x),
        view.push_lines(b).gives(y),
    ensures
        same_but_warnings(x, y),
        ({
            let at = view.push_lines(a).state.warnings.len() as int;
            let a_ends = a.len() == 0 || trace::line_body(a.last()).1;
            let b_ends = b.len() == 0 || trace::line_body(b.last()).1;
            &&& a_ends == b_ends ==> views::each(x.warnings@) == views::each(y.warnings@)
            &&& !a_ends && b_ends ==> adds_truncation(view.file, at, x, y)
            &&& a_ends && !b_ends ==> adds_truncation(view.file, at, y, x)
        }),
{
    line_endings_do_not_matter(view, bodies, a, b);
    pushed_lines_keep_the_trace(view, a);
    pushed_lines_keep_the_trace(view, b);
    let p = view.push_lines(a);
    let q = view.push_lines(b);
    timeline::interpretation_is_unique(x.timeline@, y.timeline@, p.state.events);
    if a.len() > 0 {
        let a_ends = trace::line_body(a.last()).1;
        let b_ends = trace::line_body(b.last()).1;
        if !a_ends && b_ends {
            finished_alike(p, q, x, y);
        } else if a_ends && !b_ends {
            finished_alike(q, p, y, x);
        }
    }
}

/// One more line without an ending, with a newline, and with a carriage return and a
/// newline leave a parser with the same events, warnings, unfinished calls and actions,
/// one line further. What is parsed then is the same for the last two, and differs in the
/// warning on the missing newline alone for the first.
pub proof fn line_without_ending_adds_only_the_truncation_warning(
    view: TraceView,
    line: Seq<char>,
    bare: Parsed,
    lf: Parsed,
    crlf: Parsed,
)
    requires
        view.lines < usize::MAX,
        !line.contains('\n'),
        view.push_line(line).gives(bare),
        view.push_line(line.push('\n')).gives(lf),
        view.push_line(line.push('\r').push('\n')).gives(crlf),
    ensures
        ({
            let next = view.push_line(line);
            &&& view.push_line(line.push('\n')).state == next.state
            &&& view.push_line(line.push('\r').push('\n')).state == next.state
            &&& bare.lines == view.lines + 1
            &&& adds_truncation(view.file, next.state.warnings.len() as int, bare, lf)
            &&& same_but_warnings(lf, crlf)
            &&& views::each(lf.warnings@) == views::each(crlf.warnings@)
        }),
{
    reveal_strlit("\n");
    let newline = line.push('\n');
    let both = line.push('\r').push('\n');
    let n = line.len() as int;
    if trace::line_body(line).1 {
        assert(line.subrange(n - 1, n)[0] == '\n');
        assert(line[n - 1] == '\n');
    }
    assert(newline.subrange(n, n + 1) =~= "\n"@);
    assert(both.subrange(n + 1, n + 2) =~= "\n"@);
    one_line(view, line);
    one_line(view, newline);
    one_line(view, both);
    let bodies = seq![line];
    line_endings_do_not_matter(view, bodies, seq![line], seq![newline]);
    line_endings_do_not_matter(view, bodies, seq![line], seq![both]);
    endings_change_only_the_truncation_warning(
        view,
        bodies,
        seq![line],
        seq![newline],
        bare,
        lf,
    );
    endings_change_only_the_truncation_warning(
        view,
        bodies,
        seq![newline],
        seq![both],
        lf,
        crlf,
    );
}

/// One line is a list of one line.
proof fn one_line(view: TraceView, line: Seq<char>)
    ensures
        view.push_lines(seq![line]) == view.push_line(line),
{
    reveal_with_fuel(TraceView::push_lines, 2);
    assert(seq![line].drop_last() =~= Seq::<Seq<char>>::empty());
}

} // verus!
