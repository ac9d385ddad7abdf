//! Which tasks share a filesystem context, and what a path rests on.
use vstd::prelude::*;

use crate::model::EventView;
use crate::parse::flags::{FsAction, SpawnEffect, UnshareEffect};
use crate::parse::fs::{FsContextView, FsView};
use crate::parse::laws;
use crate::parse::resolve;
use crate::parse::resolve::ResolveState;
use crate::parse::timeline;
use crate::parse::timeline::{Parsed, TaskGenerationId, TaskGenerationOrigin, TimelineView};
use crate::parse::trace::TraceView;
use crate::views;

verus! {

/// Whether every task is in a context that was made.
pub open spec fn anchored(fs: FsView) -> bool {
    forall|g: int|
        0 <= g < fs.tasks.len() ==> ((#[trigger] fs.tasks[g]) matches Some(task) ==> task.fs
            < fs.contexts.len())
}

/// Whether all tasks but one are in the contexts that they were in before.
pub open spec fn others_stay(before: FsView, after: FsView, task: TaskGenerationId) -> bool {
    &&& after.tasks.len() == before.tasks.len()
    &&& forall|g: int|
        0 <= g < before.tasks.len() && g != task.0 ==> #[trigger] after.tasks[g]
            == before.tasks[g]
}

/// Whether a task is alone in a context.
pub open spec fn alone(fs: FsView, task: TaskGenerationId, context: usize) -> bool {
    &&& fs.task_fs(task) == Some(context)
    &&& forall|g: int|
        0 <= g < fs.tasks.len() && g != task.0 ==> ((#[trigger] fs.tasks[g]) matches Some(other)
            ==> other.fs != context)
}

/// A task that was spawned with shared state is in the context of its parent, which keeps
/// its directory, and no other task changes its context.
pub proof fn shared_children_use_their_parents_context(
    s: ResolveState,
    t: TimelineView,
    index: usize,
    fs: usize,
    child: TaskGenerationId,
)
    requires
        child.0 < s.fs.tasks.len(),
        s.fs.has(fs),
    ensures
        ({
            let after = s.spawn(t, index, fs, SpawnEffect::SharedFs, child).fs;
            &&& after.task_fs(child) == Some(fs)
            &&& after.has(fs)
            &&& after.at(fs).cwd == s.fs.at(fs).cwd
            &&& after.at(fs).uncertain == s.fs.at(fs).uncertain
            &&& others_stay(s.fs, after, child)
        }),
{
}

/// A task that was spawned with a copy of its parent's state is alone in a new context,
/// which starts with what was known of the directory of the parent where no change of
/// that was open, and with nothing where one was.
pub proof fn private_children_stand_alone(
    s: ResolveState,
    t: TimelineView,
    index: usize,
    fs: usize,
    child: TaskGenerationId,
)
    requires
        child.0 < s.fs.tasks.len(),
        s.fs.contexts.len() < usize::MAX,
        s.fs.has(fs),
        anchored(s.fs),
    ensures
        ({
            let after = s.spawn(t, index, fs, SpawnEffect::PrivateFs, child).fs;
            let own = s.fs.contexts.len() as usize;
            &&& alone(after, child, own)
            &&& after.has(own)
            &&& others_stay(s.fs, after, child)
            &&& if s.fs.has_unsettled_change(fs, s.events[index as int].evidence.line) {
                after.at(own).uncertain && after.at(own).cwd is None
            } else {
                after.at(own).uncertain == s.fs.at(fs).uncertain && after.at(own).cwd == s.fs.at(
                    fs,
                ).cwd
            }
        }),
{
    let start = s.events[index as int].evidence.line;
    let own = s.fs.contexts.len() as usize;
    let source = if s.fs.has_unsettled_change(fs, start) {
        s.fs.invalidate(fs, start)
    } else {
        s.fs
    };
    let (cwd, uncertain) = if s.fs.has_unsettled_change(fs, start) {
        (None, true)
    } else {
        s.fs.snapshot(fs)
    };
    split_stands_alone(source, child, cwd, uncertain);
    let split = source.private_child(child, cwd, uncertain);
    let after = s.spawn(t, index, fs, SpawnEffect::PrivateFs, child).fs;
    assert(after.tasks == split.tasks);
    assert(after.contexts[own as int] == split.contexts[own as int]);
}

/// A split leaves a task alone in a new context.
proof fn split_stands_alone(
    fs: FsView,
    task: TaskGenerationId,
    cwd: Option<Seq<char>>,
    uncertain: bool,
)
    requires
        task.0 < fs.tasks.len(),
        fs.contexts.len() < usize::MAX,
        anchored(fs),
    ensures
        ({
            let after = fs.private_child(task, cwd, uncertain);
            let own = fs.contexts.len() as usize;
            &&& alone(after, task, own)
            &&& after.contexts.len() == fs.contexts.len() + 1
            &&& after.contexts[own as int] == Some(FsContextView::fresh(cwd, uncertain))
            &&& others_stay(fs, after, task)
        }),
{
}

/// A task that splits from shared state is alone in a new context from then on, and the
/// tasks that it shared with keep theirs.
pub proof fn unshare_separates(
    s: ResolveState,
    index: usize,
    fs: usize,
    g: TaskGenerationId,
    effect: UnshareEffect,
)
    requires
        g.0 < s.fs.tasks.len(),
        s.fs.contexts.len() < usize::MAX,
        anchored(s.fs),
        effect is SplitFs || effect is SplitFsNamespaceUncertain,
    ensures
        ({
            let after = s.unshare(index, fs, g, effect).fs;
            &&& alone(after, g, s.fs.contexts.len() as usize)
            &&& others_stay(s.fs, after, g)
        }),
{
    let start = s.events[index as int].evidence.line;
    let marked = s.fs.invalidate(fs, start);
    split_stands_alone(marked, g, None, true);
    split_stands_alone(marked, g, marked.snapshot(fs).0, marked.snapshot(fs).1);
    split_stands_alone(s.fs, g, None, true);
    split_stands_alone(s.fs, g, s.fs.snapshot(fs).0, s.fs.snapshot(fs).1);
}

/// A change of directory that is proven changes the context of its task, and with it
/// that of every task that shares it, and no other. By then the calls that returned
/// earlier have taken effect.
pub proof fn directories_change_only_where_they_are_shared(s: ResolveState, index: usize, fs: usize)
    requires
        s.fs.has(fs),
        s.fs.at(fs) == s.fs.at(fs).settled(s.events[index as int].evidence.line),
        ResolveState::changes_cwd(s.events[index as int]),
        !s.fs.has_pending_fork_snapshot(fs, s.events[index as int].evidence.line),
        !s.fs.has_unsettled_change(fs, s.events[index as int].evidence.line),
        ResolveState::absolute_path(s.events[index as int]) is Some,
    ensures
        ({
            let after = s.change_cwd(index, fs).fs;
            &&& after.tasks == s.fs.tasks
            &&& after.contexts.len() == s.fs.contexts.len()
            &&& forall|i: int|
                0 <= i < s.fs.contexts.len() && i != fs ==> #[trigger] after.contexts[i]
                    == s.fs.contexts[i]
            &&& after.has(fs)
            &&& !s.fs.at(fs).uncertain ==> after.at(fs).settled(
                s.events[index as int].evidence.end_line,
            ).cwd == s.events[index as int].path
        }),
{
}

/// A split keeps every task in a context that was made.
proof fn split_stays_anchored(
    fs: FsView,
    task: TaskGenerationId,
    cwd: Option<Seq<char>>,
    uncertain: bool,
)
    requires
        task.0 < fs.tasks.len(),
        fs.contexts.len() < usize::MAX,
        anchored(fs),
    ensures
        anchored(fs.private_child(task, cwd, uncertain)),
{
    split_stands_alone(fs, task, cwd, uncertain);
    let after = fs.private_child(task, cwd, uncertain);
    assert forall|g: int| 0 <= g < after.tasks.len() implies ((
    #[trigger] after.tasks[g]) matches Some(x) ==> x.fs < after.contexts.len()) by {
        if g != task.0 {
            assert(after.tasks[g] == fs.tasks[g]);
        }
    }
}

/// A spawn keeps every task in a context that was made.
proof fn spawn_stays_anchored(
    s: ResolveState,
    t: TimelineView,
    index: usize,
    fs: usize,
    relation: SpawnEffect,
    child: TaskGenerationId,
)
    requires
        child.0 < s.fs.tasks.len(),
        s.fs.contexts.len() < usize::MAX,
        fs < s.fs.contexts.len(),
        anchored(s.fs),
    ensures
        anchored(s.spawn(t, index, fs, relation, child).fs),
{
    let start = s.events[index as int].evidence.line;
    let marked = s.fs.invalidate(fs, start);
    match relation {
        SpawnEffect::SharedFs => {
            let after = s.fs.replace_child(child, fs);
            assert(after.contexts.len() == s.fs.contexts.len());
            assert forall|g: int| 0 <= g < after.tasks.len() implies ((
            #[trigger] after.tasks[g]) matches Some(x) ==> x.fs < after.contexts.len()) by {
                if g != child.0 {
                    assert(after.tasks[g] == s.fs.tasks[g]);
                }
            }
        },
        SpawnEffect::PrivateFs => {
            split_stays_anchored(s.fs, child, s.fs.snapshot(fs).0, s.fs.snapshot(fs).1);
            split_stays_anchored(marked, child, None, true);
        },
        SpawnEffect::PrivateFsNamespaceUncertain => {
            split_stays_anchored(s.fs, child, None, true);
        },
        SpawnEffect::Unknown => {
            split_stays_anchored(marked, child, None, true);
        },
    }
}

/// What an event does keeps every task in a context that was made.
proof fn act_stays_anchored(
    s: ResolveState,
    t: TimelineView,
    index: usize,
    fs: usize,
    action: FsAction,
)
    requires
        t.wf(s.events.len()),
        index < s.events.len(),
        s.fs.tasks.len() == t.generations.len(),
        s.fs.contexts.len() < usize::MAX,
        fs < s.fs.contexts.len(),
        anchored(s.fs),
    ensures
        anchored(s.act(t, index, fs, action).fs),
{
    let g = t.event_generations[index as int];
    let start = s.events[index as int].evidence.line;
    let marked = s.fs.invalidate(fs, start);
    match action {
        FsAction::Spawn(relation) => {
            if let Some(child) = t.spawned_generations[index as int] {
                if let TaskGenerationOrigin::LiveCollision { previous, event } =
                    t.generations[child.0 as int].origin {
                    let exposed = match s.fs.task_fs(previous) {
                        Some(previous_fs) => s.fs.invalidate(previous_fs, start),
                        None => s.fs,
                    };
                    split_stays_anchored(exposed, child, None, true);
                } else {
                    spawn_stays_anchored(s, t, index, fs, relation, child);
                }
            }
        },
        FsAction::Unshare(_) => {
            split_stays_anchored(marked, g, None, true);
            split_stays_anchored(marked, g, marked.snapshot(fs).0, marked.snapshot(fs).1);
            split_stays_anchored(s.fs, g, None, true);
            split_stays_anchored(s.fs, g, s.fs.snapshot(fs).0, s.fs.snapshot(fs).1);
        },
        FsAction::Exit => {
            let after = s.fs.exit(g);
            assert(after.contexts.len() == s.fs.contexts.len());
            assert forall|i: int| 0 <= i < after.tasks.len() implies ((
            #[trigger] after.tasks[i]) matches Some(x) ==> x.fs < after.contexts.len()) by {
                assert(s.fs.tasks[i] is Some || s.fs.tasks[i] is None);
            }
        },
        _ => {},
    }
}

/// Contexts are only ever added, so every task stays in one that was made.
pub proof fn tasks_stay_in_contexts(
    s: ResolveState,
    t: TimelineView,
    index: usize,
    action: FsAction,
    initial_cwd: Option<Seq<char>>,
)
    requires
        t.wf(s.events.len()),
        index < s.events.len(),
        s.fs.tasks.len() == t.generations.len(),
        s.fs.contexts.len() + 2 <= usize::MAX,
        anchored(s.fs),
    ensures
        anchored(s.step(t, index, action, initial_cwd).fs),
{
    let g = t.event_generations[index as int];
    let placed = s.fs.ensure_task(g, t.generations[g.0 as int].origin, initial_cwd);
    assert forall|i: int| 0 <= i < placed.tasks.len() implies ((
    #[trigger] placed.tasks[i]) matches Some(x) ==> x.fs < placed.contexts.len()) by {
        assert(s.fs.tasks[i] is Some || s.fs.tasks[i] is None);
    }
    assert(anchored(placed));
    let entered = s.enter(t, index, initial_cwd);
    assert(entered.fs.tasks == placed.tasks);
    assert(entered.fs.contexts.len() == placed.contexts.len());
    assert(anchored(entered.fs));
    let fs = entered.fs.fs_of(g);
    assert(entered.fs.tasks[g.0 as int] is Some);
    act_stays_anchored(entered, t, index, fs, action);
    let acted = entered.act(t, index, fs, action);
    let changed = acted.change_cwd(index, fs);
    assert(changed.fs.tasks == acted.fs.tasks);
    assert(changed.fs.contexts.len() == acted.fs.contexts.len());
    assert(anchored(changed.fs));
}

/// After its step, an event whose path has no verified context is uncertain.
proof fn unresolved_path_is_marked(
    s: ResolveState,
    t: TimelineView,
    index: usize,
    action: FsAction,
    initial_cwd: Option<Seq<char>>,
)
    requires
        index < s.events.len(),
        ResolveState::path_unresolved(s.events[index as int]),
    ensures
        s.step(t, index, action, initial_cwd).events[index as int].context_uncertain,
{
    laws::step_keeps(s, t, index, action, initial_cwd);
    let entered = s.enter(t, index, initial_cwd);
    let fs = entered.fs.fs_of(t.event_generations[index as int]);
    let acted = entered.act(t, index, fs, action);
    laws::act_keeps(entered, t, index, fs, action);
    assert(laws::same_observation(entered.events[index as int], acted.events[index as int]));
    let changed = acted.change_cwd(index, fs);
    assert(laws::same_observation(acted.events[index as int], changed.events[index as int]));
}

/// The events whose paths have no verified context are uncertain once they were
/// resolved.
proof fn unresolved_upto(
    start: ResolveState,
    t: TimelineView,
    actions: Seq<FsAction>,
    initial_cwd: Option<Seq<char>>,
    n: int,
    k: int,
)
    requires
        t.wf(start.events.len()),
        0 <= k < n <= start.events.len(),
        ResolveState::path_unresolved(start.events[t.event_order[k] as int]),
    ensures
        resolve::resolved_upto(start, t, actions, initial_cwd, n).events[t.event_order[k] as int].context_uncertain,
    decreases n,
{
    let before = resolve::resolved_upto(start, t, actions, initial_cwd, n - 1);
    let index = t.event_order[n - 1];
    let action = resolve::action_at(actions, index);
    laws::resolution_changes_only_contexts(start, t, actions, initial_cwd, n - 1);
    if k == n - 1 {
        assert(laws::same_observation(start.events[index as int], before.events[index as int]));
        unresolved_path_is_marked(before, t, index, action, initial_cwd);
    } else {
        unresolved_upto(start, t, actions, initial_cwd, n - 1, k);
        laws::step_keeps(before, t, index, action, initial_cwd);
        let at = t.event_order[k] as int;
        assert(laws::same_observation(
            before.events[at],
            before.step(t, index, action, initial_cwd).events[at],
        ));
    }
}

/// A path that stays relative, and a change of directory without a path, leave their event
/// uncertain.
pub proof fn unresolved_paths_are_uncertain(view: TraceView, r: Parsed, i: int)
    requires
        view.gives(r),
        0 <= i < r.events@.len(),
        ResolveState::path_unresolved(r.events@[i]@),
    ensures
        r.events@[i]@.context_uncertain,
{
    let t = r.timeline@;
    let events = view.state.events;
    let generations = t.generations.len();
    let start = ResolveState {
        events: t.marked_upto(events, generations as int),
        warnings: view.end_warnings() + t.findings_upto(events, generations as int),
        fs: FsView::start(generations),
    };
    let n = events.len() as int;
    laws::resolution_changes_only_contexts(start, t, view.state.actions, view.initial_cwd, n);
    assert(views::each(r.events@)[i] == r.events@[i]@);
    assert(laws::same_observation(start.events[i], view.finished(t).events[i]));
    assert(r.events.len() == r.events@.len());
    assert(t.event_order.contains(i as usize));
    let k = choose|k: int| 0 <= k < t.event_order.len() && t.event_order[k] == i as usize;
    unresolved_upto(start, t, view.state.actions, view.initial_cwd, n, k);
}

/// The lines of a trace say what was observed whatever directory the trace started in.
proof fn lines_ignore_the_directory(
    file: Seq<char>,
    a: Option<Seq<char>>,
    b: Option<Seq<char>>,
    lines: Seq<Seq<char>>,
)
    ensures
        TraceView::start(file, a).push_lines(lines) == (TraceView {
            initial_cwd: a,
            ..TraceView::start(file, b).push_lines(lines)
        }),
    decreases lines.len(),
{
    if lines.len() > 0 {
        lines_ignore_the_directory(file, a, b, lines.drop_last());
    }
}

/// No path is put together with a directory: where a trace started changes nothing of its
/// events but what is said of their contexts.
pub proof fn observations_do_not_depend_on_the_directory(
    file: Seq<char>,
    a: Option<Seq<char>>,
    b: Option<Seq<char>>,
    lines: Seq<Seq<char>>,
    left: Parsed,
    right: Parsed,
    i: int,
)
    requires
        TraceView::start(file, a).push_lines(lines).gives(left),
        TraceView::start(file, b).push_lines(lines).gives(right),
        0 <= i < left.events@.len(),
    ensures
        left.events@.len() == right.events@.len(),
        left.timeline@ == right.timeline@,
        left.events@[i]@ == (EventView {
            cwd_before: left.events@[i]@.cwd_before,
            context_uncertain: left.events@[i]@.context_uncertain,
            ..right.events@[i]@
        }),
{
    let v = TraceView::start(file, a).push_lines(lines);
    let w = TraceView::start(file, b).push_lines(lines);
    lines_ignore_the_directory(file, a, b, lines);
    lines_ignore_the_directory(file, b, b, lines);
    let events = v.state.events;
    timeline::interpretation_is_unique(left.timeline@, right.timeline@, events);
    let t = left.timeline@;
    let generations = t.generations.len();
    let start = ResolveState {
        events: t.marked_upto(events, generations as int),
        warnings: v.end_warnings() + t.findings_upto(events, generations as int),
        fs: FsView::start(generations),
    };
    let n = events.len() as int;
    laws::resolution_changes_only_contexts(start, t, v.state.actions, a, n);
    laws::resolution_changes_only_contexts(start, t, w.state.actions, b, n);
    assert(views::each(left.events@)[i] == left.events@[i]@);
    assert(views::each(right.events@)[i] == right.events@[i]@);
    assert(laws::same_observation(start.events[i], v.finished(t).events[i]));
    assert(w.end_warnings() == v.end_warnings());
    assert(laws::same_observation(start.events[i], w.finished(t).events[i]));
}

} // verus!
