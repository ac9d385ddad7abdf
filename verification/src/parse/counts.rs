//! How many tasks a filesystem context counts, and what doing a thing twice changes.
use vstd::prelude::*;

use crate::model::EventView;
use crate::parse::certainty;
use crate::parse::flags::{FsAction, SpawnEffect, UnshareEffect};
use crate::parse::fs::{FsView, Task};
use crate::parse::resolve;
use crate::parse::resolve::ResolveState;
use crate::parse::timeline;
use crate::parse::timeline::{TaskGenerationId, TaskGenerationOrigin, TimelineView};
use crate::parse::trace::TraceView;

verus! {

/// Whether every live task has a context, and every context counts exactly its live
/// tasks, of which it has at least one.
pub open spec fn counted(fs: FsView) -> bool {
    &&& forall|g: int|
        0 <= g < fs.tasks.len() && certainty::live(#[trigger] fs.tasks[g]) ==> fs.has(
            (fs.tasks[g]->0).fs,
        )
    &&& forall|f: usize| #[trigger]
        fs.has(f) ==> fs.at(f).members == certainty::live_upto(
            fs.tasks,
            f,
            fs.tasks.len() as int,
        ) && fs.at(f).members > 0
}

/// Whether two states differ only in what their contexts say of directories and open
/// calls.
spec fn same_counts(a: FsView, b: FsView) -> bool {
    &&& a.tasks == b.tasks
    &&& a.contexts.len() == b.contexts.len()
    &&& forall|i: int|
        0 <= i < a.contexts.len() ==> {
            let x = a.contexts[i];
            let y = #[trigger] b.contexts[i];
            (x is Some <==> y is Some) && (x is Some ==> x->0.members == y->0.members)
        }
}

/// What a context says of its directory does not count.
proof fn same_counts_counted(a: FsView, b: FsView)
    requires
        counted(a),
        same_counts(a, b),
    ensures
        counted(b),
{
    assert forall|g: int| 0 <= g < b.tasks.len() && certainty::live(
        #[trigger] b.tasks[g],
    ) implies b.has((b.tasks[g]->0).fs) by {
        assert(a.has((a.tasks[g]->0).fs));
    }
    assert forall|f: usize| #[trigger] b.has(f) implies b.at(f).members == certainty::live_upto(
        b.tasks,
        f,
        b.tasks.len() as int,
    ) && b.at(f).members > 0 by {
        assert(a.has(f));
    }
}

/// A task that is not live gets a new context.
proof fn new_context_counted(
    fs: FsView,
    cwd: Option<Seq<char>>,
    uncertain: bool,
    g: TaskGenerationId,
)
    requires
        counted(fs),
        g.0 < fs.tasks.len(),
        !certainty::live(fs.tasks[g.0 as int]),
        fs.contexts.len() < usize::MAX,
    ensures
        counted(fs.new_context(cwd, uncertain, g)),
{
    let out = fs.new_context(cwd, uncertain, g);
    let made = fs.contexts.len() as usize;
    let n = fs.tasks.len() as int;
    assert forall|h: int| 0 <= h < out.tasks.len() && certainty::live(
        #[trigger] out.tasks[h],
    ) implies out.has((out.tasks[h]->0).fs) by {
        if h != g.0 {
            assert(fs.has((fs.tasks[h]->0).fs));
        }
    }
    assert forall|f: usize| #[trigger] out.has(f) implies out.at(f).members
        == certainty::live_upto(out.tasks, f, n) && out.at(f).members > 0 by {
        certainty::live_update(fs.tasks, g.0 as int, out.tasks[g.0 as int], f, n);
        if f == made {
            certainty::live_bounds(fs.tasks, f, n);
            assert forall|h: int| 0 <= h < n implies !certainty::live_in(
                #[trigger] fs.tasks[h],
                f,
            ) by {
                if certainty::live(fs.tasks[h]) {
                    assert(fs.has((fs.tasks[h]->0).fs));
                }
            }
        } else {
            assert(fs.has(f));
        }
    }
}

/// The state in which a task is no longer live in its context.
spec fn left(fs: FsView, g: TaskGenerationId, task: Option<Task>) -> FsView {
    let moved = FsView { tasks: fs.tasks.update(g.0 as int, task), ..fs };
    match fs.tasks[g.0 as int] {
        Some(was) if !was.exited => moved.remove_member(was.fs),
        _ => moved,
    }
}

/// A task leaves its context, which is gone with its last task.
proof fn left_counted(fs: FsView, g: TaskGenerationId, task: Option<Task>)
    requires
        counted(fs),
        g.0 < fs.tasks.len(),
        !certainty::live(task),
    ensures
        counted(left(fs, g, task)),
        left(fs, g, task).tasks == fs.tasks.update(g.0 as int, task),
        left(fs, g, task).contexts.len() == fs.contexts.len(),
{
    let out = left(fs, g, task);
    let n = fs.tasks.len() as int;
    let was = fs.tasks[g.0 as int];
    assert(out.tasks == fs.tasks.update(g.0 as int, task));
    assert forall|h: int| 0 <= h < n && certainty::live(#[trigger] out.tasks[h]) implies out.has(
        (out.tasks[h]->0).fs,
    ) by {
        assert(h != g.0);
        let at = (fs.tasks[h]->0).fs;
        assert(fs.has(at));
        if certainty::live(was) && was->0.fs == at {
            certainty::live_update(fs.tasks, g.0 as int, task, at, n);
            certainty::live_bounds(out.tasks, at, n);
            assert(certainty::live_in(out.tasks[h], at));
            assert(certainty::live_upto(out.tasks, at, n) != 0);
        }
    }
    assert forall|f: usize| #[trigger] out.has(f) implies out.at(f).members
        == certainty::live_upto(out.tasks, f, n) && out.at(f).members > 0 by {
        assert(fs.has(f));
        certainty::live_update(fs.tasks, g.0 as int, task, f, n);
    }
}

/// A task gets a context of its own.
proof fn private_child_counted(
    fs: FsView,
    g: TaskGenerationId,
    cwd: Option<Seq<char>>,
    uncertain: bool,
)
    requires
        counted(fs),
        g.0 < fs.tasks.len(),
        fs.contexts.len() < usize::MAX,
    ensures
        counted(fs.private_child(g, cwd, uncertain)),
        fs.private_child(g, cwd, uncertain).contexts.len() == fs.contexts.len() + 1,
        fs.private_child(g, cwd, uncertain).tasks.len() == fs.tasks.len(),
        forall|h: int|
            0 <= h < fs.tasks.len() && h != g.0 ==> #[trigger] fs.private_child(
                g,
                cwd,
                uncertain,
            ).tasks[h] == fs.tasks[h],
{
    left_counted(fs, g, None);
    let gone = left(fs, g, None);
    new_context_counted(gone, cwd, uncertain, g);
    assert(fs.private_child(g, cwd, uncertain) == gone.new_context(cwd, uncertain, g));
}

/// A new task shares a context.
proof fn replace_child_counted(fs: FsView, g: TaskGenerationId, f: usize)
    requires
        counted(fs),
        g.0 < fs.tasks.len(),
        fs.tasks.len() <= usize::MAX,
        fs.tasks[g.0 as int] is None,
        fs.has(f),
    ensures
        counted(fs.replace_child(g, f)),
{
    let out = fs.replace_child(g, f);
    let n = fs.tasks.len() as int;
    let now = Some(Task { fs: f, exited: false });
    certainty::live_bounds(fs.tasks, f, n);
    assert(fs.at(f).members <= n);
    assert(out.tasks == fs.tasks.update(g.0 as int, now));
    assert(out.at(f).members == fs.at(f).members + 1);
    assert forall|h: int| 0 <= h < n && certainty::live(#[trigger] out.tasks[h]) implies out.has(
        (out.tasks[h]->0).fs,
    ) by {
        if h != g.0 {
            assert(fs.has((fs.tasks[h]->0).fs));
        }
    }
    assert forall|h: usize| #[trigger] out.has(h) implies out.at(h).members
        == certainty::live_upto(out.tasks, h, n) && out.at(h).members > 0 by {
        assert(fs.has(h));
        certainty::live_update(fs.tasks, g.0 as int, now, h, n);
    }
}

/// What holds after what an event does, of which task it may be.
spec fn counted_after(s: FsView, out: FsView, g: TaskGenerationId, child: Option<TaskGenerationId>) -> bool {
    &&& counted(out)
    &&& out.tasks.len() == s.tasks.len()
    &&& out.contexts.len() <= s.contexts.len() + 1
    &&& forall|h: int|
        0 <= h < s.tasks.len() && h != g.0 && !(child matches Some(c) && c.0 == h)
            ==> #[trigger] out.tasks[h] == s.tasks[h]
}

proof fn spawn_counted(
    s: ResolveState,
    t: TimelineView,
    index: usize,
    fs: usize,
    relation: SpawnEffect,
    child: TaskGenerationId,
    g: TaskGenerationId,
)
    requires
        counted(s.fs),
        child.0 < s.fs.tasks.len() <= usize::MAX,
        s.fs.tasks[child.0 as int] is None,
        s.fs.contexts.len() < usize::MAX,
        s.fs.has(fs),
    ensures
        counted_after(s.fs, s.spawn(t, index, fs, relation, child).fs, g, Some(child)),
{
    let start = s.events[index as int].evidence.line;
    let out = s.spawn(t, index, fs, relation, child).fs;
    let cleared = s.fs.invalidate(fs, start);
    assert(same_counts(s.fs, cleared));
    same_counts_counted(s.fs, cleared);
    private_child_counted(cleared, child, None, true);
    private_child_counted(s.fs, child, None, true);
    match relation {
        SpawnEffect::SharedFs => {
            replace_child_counted(s.fs, child, fs);
        },
        SpawnEffect::PrivateFs => {
            if !s.fs.has_unsettled_change(fs, start) {
                let (cwd, uncertain) = s.fs.snapshot(fs);
                private_child_counted(s.fs, child, cwd, uncertain);
                let split = s.fs.private_child(child, cwd, uncertain);
                assert(same_counts(split, out));
                same_counts_counted(split, out);
            }
        },
        SpawnEffect::PrivateFsNamespaceUncertain => {
            let split = s.fs.private_child(child, None, true);
            assert(same_counts(split, out));
            same_counts_counted(split, out);
        },
        SpawnEffect::Unknown => {},
    }
}

proof fn collide_counted(
    s: ResolveState,
    index: usize,
    fs: usize,
    relation: SpawnEffect,
    child: TaskGenerationId,
    previous: TaskGenerationId,
    g: TaskGenerationId,
)
    requires
        counted(s.fs),
        child.0 < s.fs.tasks.len(),
        s.fs.contexts.len() < usize::MAX,
    ensures
        counted_after(
            s.fs,
            s.collide(index, fs, relation, child, previous).fs,
            g,
            Some(child),
        ),
{
    let start = s.events[index as int].evidence.line;
    let exposed = match s.fs.task_fs(previous) {
        Some(previous_fs) => s.fs.invalidate(previous_fs, start),
        None => s.fs,
    };
    assert(same_counts(s.fs, exposed));
    same_counts_counted(s.fs, exposed);
    private_child_counted(exposed, child, None, true);
    let split = exposed.private_child(child, None, true);
    let out = s.collide(index, fs, relation, child, previous).fs;
    assert(same_counts(split, out));
    same_counts_counted(split, out);
}

proof fn unshare_counted(
    s: ResolveState,
    index: usize,
    fs: usize,
    g: TaskGenerationId,
    effect: UnshareEffect,
)
    requires
        counted(s.fs),
        g.0 < s.fs.tasks.len(),
        s.fs.contexts.len() < usize::MAX,
    ensures
        counted_after(s.fs, s.unshare(index, fs, g, effect).fs, g, None),
{
    let start = s.events[index as int].evidence.line;
    let cleared = s.fs.invalidate(fs, start);
    let out = s.unshare(index, fs, g, effect).fs;
    assert(same_counts(s.fs, cleared));
    same_counts_counted(s.fs, cleared);
    match effect {
        UnshareEffect::SplitFs => {
            let source = if s.fs.has_pending_fork_snapshot(fs, start)
                || s.fs.has_unsettled_change(fs, start) {
                cleared
            } else {
                s.fs
            };
            let (cwd, uncertain) = source.snapshot(fs);
            private_child_counted(source, g, cwd, uncertain);
            let split = source.private_child(g, cwd, uncertain);
            assert(same_counts(split, out));
            same_counts_counted(split, out);
        },
        UnshareEffect::SplitFsNamespaceUncertain => {
            let source = if s.fs.has_pending_fork_snapshot(fs, start) {
                cleared
            } else {
                s.fs
            };
            private_child_counted(source, g, None, true);
            let split = source.private_child(g, None, true);
            assert(same_counts(split, out));
            same_counts_counted(split, out);
        },
        _ => {},
    }
}

proof fn act_counted(s: ResolveState, t: TimelineView, index: usize, fs: usize, action: FsAction)
    requires
        counted(s.fs),
        s.fs.tasks.len() <= usize::MAX,
        s.fs.contexts.len() < usize::MAX,
        s.fs.has(fs),
        t.event_generations[index as int].0 < s.fs.tasks.len(),
        action is Spawn ==> (t.spawned_generations[index as int] matches Some(child) ==> child.0
            < s.fs.tasks.len() && s.fs.tasks[child.0 as int] is None),
    ensures
        counted_after(
            s.fs,
            s.act(t, index, fs, action).fs,
            t.event_generations[index as int],
            if action is Spawn {
                t.spawned_generations[index as int]
            } else {
                None
            },
        ),
{
    let g = t.event_generations[index as int];
    let out = s.act(t, index, fs, action).fs;
    let start = s.events[index as int].evidence.line;
    assert(same_counts(s.fs, s.fs.invalidate(fs, start)));
    same_counts_counted(s.fs, s.fs.invalidate(fs, start));
    assert(same_counts(s.fs, s.fs.invalidate_all()));
    same_counts_counted(s.fs, s.fs.invalidate_all());
    match action {
        FsAction::Spawn(relation) => {
            if let Some(child) = t.spawned_generations[index as int] {
                if let TaskGenerationOrigin::LiveCollision { previous, event } =
                    t.generations[child.0 as int].origin {
                    collide_counted(s, index, fs, relation, child, previous, g);
                } else {
                    spawn_counted(s, t, index, fs, relation, child, g);
                }
            }
        },
        FsAction::Unshare(effect) => {
            unshare_counted(s, index, fs, g, effect);
        },
        FsAction::Exit => {
            if certainty::live(s.fs.tasks[g.0 as int]) {
                let was = s.fs.tasks[g.0 as int]->0;
                left_counted(s.fs, g, Some(Task { exited: true, ..was }));
                assert(out == left(s.fs, g, Some(Task { exited: true, ..was })));
            }
        },
        _ => {},
    }
}

/// What holds after the first `n` events: the contexts count their tasks, and no
/// generation that comes later has a task.
spec fn counted_at(fs: FsView, generations: nat, known: nat, n: int) -> bool {
    &&& counted(fs)
    &&& fs.tasks.len() == generations
    &&& fs.contexts.len() <= 2 * n
    &&& forall|g: int| known <= g < fs.tasks.len() ==> (#[trigger] fs.tasks[g]) is None
}

/// The actor of an event is known by then, and a task that it spawns is new.
proof fn spawned_tasks_are_new(events: Seq<EventView>, t: TimelineView, n: int)
    requires
        t.interprets(events),
        t.wf(events.len()),
        2 * events.len() <= usize::MAX,
        0 < n <= events.len(),
    ensures
        ({
            let index = t.event_order[n - 1];
            let before = timeline::timeline_upto(events, t.event_order, n - 1).generations.len();
            let known = timeline::timeline_upto(events, t.event_order, n).generations.len();
            let g = t.event_generations[index as int];
            &&& before <= known
            &&& g.0 < known
            &&& events[index as int].child_pid is Some ==> {
                &&& t.spawned_generations[index as int] matches Some(child)
                &&& before <= child.0 < known
                &&& child.0 != g.0
            }
        }),
{
    let order = t.event_order;
    let index = order[n - 1];
    let event = events[index as int];
    let st = timeline::timeline_upto(events, order, n - 1);
    let now = timeline::timeline_upto(events, order, n);
    timeline::upto_wf(events, order, n - 1);
    timeline::upto_wf(events, order, n);
    certainty::known_stays(events, order, n, events.len() as int);
    let s1 = st.with_actor(event.pid, index);
    let g = t.event_generations[index as int];
    assert(s1.active.contains_key(event.pid));
    assert(now.event_generations[index as int] == Some(s1.active[event.pid]));
    assert(Some(g) == Some(s1.active[event.pid]));
    assert(g.0 < s1.generations.len());
    if event.child_pid is Some {
        assert(t.spawned_generations[index as int] == now.spawned_generations[index as int]);
        assert(t.spawned_generations[index as int] == Some(
            TaskGenerationId(s1.generations.len() as usize),
        ));
    }
}

/// A task that acts is live in a context.
proof fn enter_counted(
    s: ResolveState,
    t: TimelineView,
    index: usize,
    initial_cwd: Option<Seq<char>>,
)
    requires
        counted(s.fs),
        t.event_generations[index as int].0 < s.fs.tasks.len(),
        s.fs.contexts.len() < usize::MAX,
    ensures
        ({
            let g = t.event_generations[index as int];
            let out = s.enter(t, index, initial_cwd).fs;
            &&& counted_after(s.fs, out, g, None)
            &&& out.has(out.fs_of(g))
        }),
{
    let g = t.event_generations[index as int];
    let placed = s.fs.ensure_task(g, t.generations[g.0 as int].origin, initial_cwd);
    if !s.fs.settled_task(g) {
        if certainty::live(s.fs.tasks[g.0 as int]) {
            assert(s.fs.has((s.fs.tasks[g.0 as int]->0).fs));
        }
        new_context_counted(s.fs, initial_cwd, false, g);
        new_context_counted(s.fs, None, true, g);
    }
    let out = s.enter(t, index, initial_cwd).fs;
    assert(same_counts(placed, out));
    same_counts_counted(placed, out);
}

/// A change of directory counts no task.
proof fn change_counted(s: ResolveState, index: usize, fs: usize)
    requires
        counted(s.fs),
    ensures
        counted(s.change_cwd(index, fs).report(index).fs),
        s.change_cwd(index, fs).report(index).fs.tasks == s.fs.tasks,
        s.change_cwd(index, fs).report(index).fs.contexts.len() == s.fs.contexts.len(),
{
    let out = s.change_cwd(index, fs).report(index).fs;
    assert(same_counts(s.fs, out));
    same_counts_counted(s.fs, out);
}

proof fn step_counted(
    events: Seq<EventView>,
    t: TimelineView,
    actions: Seq<FsAction>,
    initial_cwd: Option<Seq<char>>,
    s: ResolveState,
    n: int,
)
    requires
        t.interprets(events),
        t.wf(events.len()),
        2 * events.len() <= usize::MAX,
        actions.len() == events.len(),
        forall|i: int|
            0 <= i < events.len() ==> certainty::goes_with(#[trigger] events[i], actions[i]),
        0 < n <= events.len(),
        counted_at(
            s.fs,
            t.generations.len(),
            timeline::timeline_upto(events, t.event_order, n - 1).generations.len(),
            n - 1,
        ),
    ensures
        counted_at(
            s.step(
                t,
                t.event_order[n - 1],
                resolve::action_at(actions, t.event_order[n - 1]),
                initial_cwd,
            ).fs,
            t.generations.len(),
            timeline::timeline_upto(events, t.event_order, n).generations.len(),
            n,
        ),
{
    let index = t.event_order[n - 1];
    let action = resolve::action_at(actions, index);
    let known = timeline::timeline_upto(events, t.event_order, n).generations.len();
    assert(certainty::goes_with(events[index as int], actions[index as int]));
    spawned_tasks_are_new(events, t, n);
    let g = t.event_generations[index as int];
    enter_counted(s, t, index, initial_cwd);
    let entered = s.enter(t, index, initial_cwd);
    let fs = entered.fs.fs_of(g);
    act_counted(entered, t, index, fs, action);
    let acted = entered.act(t, index, fs, action);
    change_counted(acted, index, fs);
    let out = s.step(t, index, action, initial_cwd);
    assert forall|h: int| known <= h < out.fs.tasks.len() implies (#[trigger] out.fs.tasks[h])
        is None by {
        assert(acted.fs.tasks[h] == entered.fs.tasks[h]);
        assert(entered.fs.tasks[h] == s.fs.tasks[h]);
    }
}

proof fn counted_upto(
    events: Seq<EventView>,
    t: TimelineView,
    actions: Seq<FsAction>,
    initial_cwd: Option<Seq<char>>,
    start: ResolveState,
    n: int,
)
    requires
        t.interprets(events),
        t.wf(events.len()),
        2 * events.len() <= usize::MAX,
        actions.len() == events.len(),
        forall|i: int|
            0 <= i < events.len() ==> certainty::goes_with(#[trigger] events[i], actions[i]),
        0 <= n <= events.len(),
        start.fs == FsView::start(t.generations.len()),
    ensures
        counted_at(
            resolve::resolved_upto(start, t, actions, initial_cwd, n).fs,
            t.generations.len(),
            timeline::timeline_upto(events, t.event_order, n).generations.len(),
            n,
        ),
    decreases n,
{
    if n > 0 {
        counted_upto(events, t, actions, initial_cwd, start, n - 1);
        let s = resolve::resolved_upto(start, t, actions, initial_cwd, n - 1);
        step_counted(events, t, actions, initial_cwd, s, n);
    }
}

/// While a trace is resolved, every live task has a context, and every context counts
/// exactly its live tasks, of which it has at least one. An event makes at most two
/// contexts, and all of them have to be numbered.
pub proof fn contexts_count_their_live_tasks(
    view: TraceView,
    t: TimelineView,
    start: ResolveState,
    n: int,
)
    requires
        certainty::paired(view.state),
        t.interprets(view.state.events),
        t.wf(view.state.events.len()),
        2 * view.state.events.len() <= usize::MAX,
        0 <= n <= view.state.events.len(),
        start.fs == FsView::start(t.generations.len()),
    ensures
        counted(
            resolve::resolved_upto(start, t, view.state.actions, view.initial_cwd, n).fs,
        ),
{
    counted_upto(view.state.events, t, view.state.actions, view.initial_cwd, start, n);
}

/// From contexts that were invalidated nothing else is reached any more.
proof fn invalidated_stands_alone(
    fs: FsView,
    first: usize,
    line: usize,
    again: usize,
    other: usize,
    steps: nat,
)
    requires
        fs.contexts.len() <= usize::MAX,
        fs.invalidate(first, line).reaches(again, first, other, steps),
    ensures
        other == first,
    decreases steps,
{
    let out = fs.invalidate(first, line);
    if steps > 0 {
        let before = (steps - 1) as nat;
        if out.reaches(again, first, other, before) {
            invalidated_stands_alone(fs, first, line, again, other, before);
        } else {
            let mid = choose|mid: usize|
                out.reaches(again, first, mid, before) && #[trigger] out.linked(
                    again,
                    mid,
                    other,
                );
            invalidated_stands_alone(fs, first, line, again, mid, before);
            assert(fs.reaches(line, first, first, 0));
            assert(fs.connected(line, first, first));
            assert(out.has(first));
            assert(out.at(first) == fs.at(first).cleared());
        }
    }
}

/// A second invalidation from the same context changes nothing, whatever its line.
pub proof fn invalidation_is_idempotent(fs: FsView, first: usize, line: usize, again: usize)
    requires
        fs.contexts.len() <= usize::MAX,
    ensures
        fs.invalidate(first, line).invalidate(first, again) == fs.invalidate(first, line),
        fs.invalidate_all().invalidate_all() == fs.invalidate_all(),
{
    let once = fs.invalidate(first, line);
    let twice = once.invalidate(first, again);
    assert forall|i: int| 0 <= i < fs.contexts.len() implies twice.contexts[i]
        == #[trigger] once.contexts[i] by {
        if once.contexts[i] is Some && once.connected(again, first, i as usize) {
            let other = i as usize;
            let steps = choose|steps: nat| once.reaches(again, first, other, steps);
            invalidated_stands_alone(fs, first, line, again, other, steps);
            assert(fs.reaches(line, first, first, 0));
            assert(fs.connected(line, first, first));
        }
    }
    assert(twice.contexts =~= once.contexts);
    assert(fs.invalidate_all().invalidate_all().contexts =~= fs.invalidate_all().contexts);
}

/// A second exit of a task changes nothing.
pub proof fn exit_is_idempotent(fs: FsView, g: TaskGenerationId)
    requires
        g.0 < fs.tasks.len(),
    ensures
        fs.exit(g).exit(g) == fs.exit(g),
{
}

} // verus!
