//! Why a trace without warnings has no uncertain context.
use vstd::prelude::*;

use crate::model::EventView;
use crate::parse::flags;
use crate::parse::flags::{FsAction, SpawnEffect, TraceOperation};
use crate::parse::fs::{FsContextView, FsView, Task};
use crate::parse::laws;
use crate::parse::resolve;
use crate::parse::resolve::ResolveState;
use crate::parse::timeline;
use crate::parse::timeline::{Parsed, TaskGenerationId, TimelineState, TimelineView};
use crate::parse::trace;
use crate::parse::trace::{LineState, TraceView};
use crate::text;
use crate::views;

verus! {

/// Whether a task is live in a context.
pub open spec fn live_in(task: Option<Task>, fs: usize) -> bool {
    task matches Some(x) && !x.exited && x.fs == fs
}

/// Whether a task is live.
pub open spec fn live(task: Option<Task>) -> bool {
    task matches Some(x) && !x.exited
}

/// How many of the first `n` tasks are live in a context.
pub open spec fn live_upto(tasks: Seq<Option<Task>>, fs: usize, n: int) -> int
    decreases n,
{
    if n <= 0 {
        0
    } else {
        live_upto(tasks, fs, n - 1) + (if live_in(tasks[n - 1], fs) {
            1int
        } else {
            0
        })
    }
}

/// How much one task counts.
pub open spec fn weight(task: Option<Task>, fs: usize) -> int {
    if live_in(task, fs) {
        1
    } else {
        0
    }
}

/// No more tasks are counted than there are, and none where none is live.
pub proof fn live_bounds(tasks: Seq<Option<Task>>, fs: usize, n: int)
    requires
        0 <= n <= tasks.len(),
    ensures
        0 <= live_upto(tasks, fs, n) <= n,
        live_upto(tasks, fs, n) == 0 <==> forall|g: int|
            0 <= g < n ==> !live_in(#[trigger] tasks[g], fs),
    decreases n,
{
    if n > 0 {
        live_bounds(tasks, fs, n - 1);
        if live_upto(tasks, fs, n - 1) == 0 && live_in(tasks[n - 1], fs) {
            assert(!(forall|g: int| 0 <= g < n ==> !live_in(#[trigger] tasks[g], fs)));
        }
    }
}

/// A task that changes counts for what it is then.
pub proof fn live_update(tasks: Seq<Option<Task>>, g: int, task: Option<Task>, fs: usize, n: int)
    requires
        0 <= g < tasks.len(),
        0 <= n <= tasks.len(),
    ensures
        live_upto(tasks.update(g, task), fs, n) == live_upto(tasks, fs, n) + (if g < n {
            weight(task, fs) - weight(tasks[g], fs)
        } else {
            0
        }),
    decreases n,
{
    if n > 0 {
        live_update(tasks, g, task, fs, n - 1);
    }
}

/// Whether every live task has a context, every context is certain, and every context
/// counts at least its live tasks.
pub open spec fn sound(fs: FsView) -> bool {
    &&& forall|g: int|
        0 <= g < fs.tasks.len() && live(#[trigger] fs.tasks[g]) ==> fs.has((fs.tasks[g]->0).fs)
    &&& forall|f: usize| #[trigger]
        fs.has(f) ==> !fs.at(f).uncertain && fs.at(f).members >= live_upto(
            fs.tasks,
            f,
            fs.tasks.len() as int,
        )
}

/// A context may change in everything but its certainty and its count.
proof fn with_sound(fs: FsView, f: usize, context: FsContextView)
    requires
        sound(fs),
        fs.has(f),
        !context.uncertain,
        context.members == fs.at(f).members,
    ensures
        sound(fs.with(f, context)),
        fs.with(f, context).has(f),
{
    let out = fs.with(f, context);
    assert forall|g: int| 0 <= g < out.tasks.len() && live(#[trigger] out.tasks[g]) implies out.has(
        (out.tasks[g]->0).fs,
    ) by {
        assert(fs.has((fs.tasks[g]->0).fs));
    }
    assert forall|h: usize| #[trigger] out.has(h) implies !out.at(h).uncertain && out.at(h).members
        >= live_upto(out.tasks, h, out.tasks.len() as int) by {
        assert(fs.has(h));
    }
}

/// A task without a live context gets a new one.
proof fn new_context_sound(fs: FsView, cwd: Option<Seq<char>>, g: TaskGenerationId)
    requires
        sound(fs),
        g.0 < fs.tasks.len(),
        !live(fs.tasks[g.0 as int]),
        fs.contexts.len() < usize::MAX,
    ensures
        sound(fs.new_context(cwd, false, g)),
{
    let out = fs.new_context(cwd, false, g);
    let made = fs.contexts.len() as usize;
    let n = fs.tasks.len() as int;
    assert forall|h: int| 0 <= h < out.tasks.len() && live(#[trigger] out.tasks[h]) implies out.has(
        (out.tasks[h]->0).fs,
    ) by {
        if h != g.0 {
            assert(fs.has((fs.tasks[h]->0).fs));
        }
    }
    assert forall|f: usize| #[trigger] out.has(f) implies !out.at(f).uncertain && out.at(f).members
        >= live_upto(out.tasks, f, n) by {
        live_update(fs.tasks, g.0 as int, out.tasks[g.0 as int], f, n);
        if f == made {
            live_bounds(fs.tasks, f, n);
            assert forall|h: int| 0 <= h < n implies !live_in(#[trigger] fs.tasks[h], f) by {
                if live(fs.tasks[h]) {
                    assert(fs.has((fs.tasks[h]->0).fs));
                }
            }
        } else {
            assert(fs.has(f));
        }
    }
}

/// The state in which a task is no longer live in its context.
spec fn left(fs: FsView, g: TaskGenerationId, task: Option<Task>) -> FsView {
    let moved = FsView { tasks: fs.tasks.update(g.0 as int, task), ..fs };
    match fs.tasks[g.0 as int] {
        Some(was) if !was.exited => moved.remove_member(was.fs),
        _ => moved,
    }
}

/// A task leaves its context, which is gone with its last task.
proof fn left_sound(fs: FsView, g: TaskGenerationId, task: Option<Task>)
    requires
        sound(fs),
        g.0 < fs.tasks.len(),
        !live(task),
    ensures
        sound(left(fs, g, task)),
        left(fs, g, task).tasks == fs.tasks.update(g.0 as int, task),
        left(fs, g, task).contexts.len() == fs.contexts.len(),
{
    let out = left(fs, g, task);
    let n = fs.tasks.len() as int;
    let was = fs.tasks[g.0 as int];
    assert(out.tasks == fs.tasks.update(g.0 as int, task));
    if live(was) {
        let from = was->0.fs;
        assert(fs.has(from));
        live_update(fs.tasks, g.0 as int, task, from, n);
        live_bounds(out.tasks, from, n);
        assert forall|h: int| 0 <= h < n && live(#[trigger] out.tasks[h]) implies out.has(
            (out.tasks[h]->0).fs,
        ) by {
            assert(h != g.0);
            assert(fs.has((fs.tasks[h]->0).fs));
            if (out.tasks[h]->0).fs == from {
                assert(live_in(out.tasks[h], from));
                assert(live_upto(out.tasks, from, n) != 0);
            }
        }
    } else {
        assert forall|h: int| 0 <= h < n && live(#[trigger] out.tasks[h]) implies out.has(
            (out.tasks[h]->0).fs,
        ) by {
            assert(h != g.0);
            assert(fs.has((fs.tasks[h]->0).fs));
        }
    }
    assert forall|f: usize| #[trigger] out.has(f) implies !out.at(f).uncertain && out.at(f).members
        >= live_upto(out.tasks, f, n) by {
        assert(fs.has(f));
        live_update(fs.tasks, g.0 as int, task, f, n);
    }
}

/// A task gets a context of its own.
proof fn private_child_sound(fs: FsView, g: TaskGenerationId, cwd: Option<Seq<char>>)
    requires
        sound(fs),
        g.0 < fs.tasks.len(),
        fs.contexts.len() < usize::MAX,
    ensures
        sound(fs.private_child(g, cwd, false)),
        fs.private_child(g, cwd, false).tasks == fs.tasks.update(
            g.0 as int,
            Some(Task { fs: fs.contexts.len() as usize, exited: false }),
        ),
        fs.private_child(g, cwd, false).contexts.len() == fs.contexts.len() + 1,
{
    left_sound(fs, g, None);
    let gone = left(fs, g, None);
    new_context_sound(gone, cwd, g);
    assert(fs.private_child(g, cwd, false) == gone.new_context(cwd, false, g));
    assert(gone.new_context(cwd, false, g).tasks =~= fs.tasks.update(
        g.0 as int,
        Some(Task { fs: fs.contexts.len() as usize, exited: false }),
    ));
}

/// A child shares a context.
proof fn replace_child_sound(fs: FsView, g: TaskGenerationId, f: usize, most: int)
    requires
        sound(fs),
        g.0 < fs.tasks.len(),
        fs.has(f),
        fs.bounded(most),
        most < u128::MAX,
    ensures
        sound(fs.replace_child(g, f)),
        fs.replace_child(g, f).tasks == fs.tasks.update(
            g.0 as int,
            Some(Task { fs: f, exited: false }),
        ),
        fs.replace_child(g, f).contexts.len() == fs.contexts.len(),
        fs.replace_child(g, f).bounded(most + 1),
{
    let out = fs.replace_child(g, f);
    let n = fs.tasks.len() as int;
    let was = fs.tasks[g.0 as int];
    let now = Some(Task { fs: f, exited: false });
    assert(fs.at(f).members <= most);
    assert(out.tasks == fs.tasks.update(g.0 as int, now));
    assert(out.has(f));
    assert(out.at(f).members == fs.at(f).members + 1);
    assert forall|h: int| 0 <= h < n && live(#[trigger] out.tasks[h]) implies out.has(
        (out.tasks[h]->0).fs,
    ) by {
        if h != g.0 {
            let from = (fs.tasks[h]->0).fs;
            assert(fs.has(from));
            if live(was) && was->0.fs == from && from != f {
                live_update(fs.tasks, g.0 as int, now, from, n);
                live_bounds(out.tasks, from, n);
                assert(live_in(out.tasks[h], from));
                assert(live_upto(out.tasks, from, n) != 0);
            }
        }
    }
    assert forall|h: usize| #[trigger] out.has(h) implies !out.at(h).uncertain && out.at(h).members
        >= live_upto(out.tasks, h, n) by {
        assert(fs.has(h));
        live_update(fs.tasks, g.0 as int, now, h, n);
    }
    assert forall|i: int| 0 <= i < out.contexts.len() && (#[trigger] out.contexts[i]) is Some implies out.contexts[i]->0.members
        <= most + 1 by {
        assert(fs.contexts[i] is Some);
    }
}

/// What is known of a generation, of the actor of an event and of its child does not
/// change once it is known.
pub proof fn known_stays(events: Seq<EventView>, order: Seq<usize>, n: int, m: int)
    requires
        timeline::is_evidence_order(order, events),
        2 * events.len() <= usize::MAX,
        0 <= n <= m <= order.len(),
    ensures
        ({
            let a = timeline::timeline_upto(events, order, n);
            let b = timeline::timeline_upto(events, order, m);
            &&& a.generations.len() <= b.generations.len()
            &&& b.event_generations.len() == events.len()
            &&& b.spawned_generations.len() == events.len()
            &&& forall|g: int|
                0 <= g < a.generations.len() ==> (#[trigger] b.generations[g]).origin
                    == a.generations[g].origin && b.generations[g].pid == a.generations[g].pid
            &&& forall|k: int|
                0 <= k < n ==> b.event_generations[#[trigger] order[k] as int]
                    == a.event_generations[order[k] as int] && b.spawned_generations[order[k] as int]
                    == a.spawned_generations[order[k] as int]
        }),
    decreases m,
{
    if m > n {
        known_stays(events, order, n, m - 1);
        let mid = timeline::timeline_upto(events, order, m - 1);
        let b = timeline::timeline_upto(events, order, m);
        let index = order[m - 1];
        timeline::upto_wf(events, order, m - 1);
        let s1 = mid.with_actor(events[index as int].pid, index);
        assert(s1.active.contains_key(events[index as int].pid));
        assert(s1.active[events[index as int].pid].0 < s1.generations.len());
        assert forall|k: int| 0 <= k < n implies b.event_generations[#[trigger] order[k] as int]
            == mid.event_generations[order[k] as int] && b.spawned_generations[order[k] as int]
            == mid.spawned_generations[order[k] as int] by {
            assert(timeline::evidence_before(events, order[k] as int, index as int));
        }
    } else {
        timeline::upto_wf(events, order, m);
    }
}

/// Whether the live generations of a timeline exist and have the task IDs that they are
/// found by.
spec fn named(st: TimelineState) -> bool {
    forall|p: Seq<char>| #[trigger]
        st.active.contains_key(p) ==> st.active[p].0 < st.generations.len()
            && st.generations[st.active[p].0 as int].pid == p
}

proof fn named_upto(events: Seq<EventView>, order: Seq<usize>, n: int)
    requires
        timeline::is_evidence_order(order, events),
        2 * events.len() <= usize::MAX,
        0 <= n <= order.len(),
    ensures
        named(timeline::timeline_upto(events, order, n)),
    decreases n,
{
    if n > 0 {
        named_upto(events, order, n - 1);
        timeline::upto_wf(events, order, n - 1);
        let st = timeline::timeline_upto(events, order, n - 1);
        let event = events[order[n - 1] as int];
        let s1 = st.with_actor(event.pid, order[n - 1]);
        assert(s1.active.contains_key(event.pid));
        assert(named(s1));
    }
}

/// Without findings, no generation is untrusted.
proof fn no_findings(t: TimelineView, events: Seq<EventView>, n: int)
    requires
        0 <= n <= t.generations.len(),
        t.findings_upto(events, n).len() == 0,
    ensures
        forall|g: int| 0 <= g < n ==> !(#[trigger] t.generations[g]).origin.untrusted(),
    decreases n,
{
    if n > 0 {
        no_findings(t, events, n - 1);
        assert(t.identity_detail(events, n - 1) is None);
    }
}

/// Whether an event of a line and what it does to contexts go together: a spawn names
/// its child, only an end ends a task and says how, and nothing is said of the context
/// yet.
pub open spec fn goes_with(e: EventView, action: FsAction) -> bool {
    &&& !e.context_uncertain
    &&& e.cwd_before is None
    &&& action is Spawn <==> e.child_pid is Some
    &&& action is Exit ==> e.kind == "exit"@
    &&& e.kind == "exit"@ ==> trace::is_process_status(e.outcome)
}

/// Whether all events of a parser and what they do to contexts go together.
pub open spec fn paired(state: LineState) -> bool {
    &&& state.actions.len() == state.events.len()
    &&& forall|i: int|
        0 <= i < state.events.len() ==> goes_with(#[trigger] state.events[i], state.actions[i])
}

/// What holds after the first `n` events of a trace without warnings.
spec fn certain_at(t: TimelineView, st: TimelineState, s: ResolveState, n: int) -> bool {
    &&& sound(s.fs)
    &&& s.fs.tasks.len() == t.generations.len()
    &&& s.fs.contexts.len() <= 2 * n
    &&& s.fs.bounded(n + 1)
    &&& forall|p: Seq<char>| #[trigger]
        st.active.contains_key(p) ==> live(s.fs.tasks[st.active[p].0 as int])
    &&& forall|i: int| 0 <= i < s.events.len() ==> !(#[trigger] s.events[i]).context_uncertain
}

/// A trusted generation that acts is live in a certain context.
proof fn enter_certain(
    t: TimelineView,
    s: ResolveState,
    index: usize,
    initial_cwd: Option<Seq<char>>,
    n: int,
)
    requires
        sound(s.fs),
        s.fs.tasks.len() == t.generations.len(),
        s.fs.contexts.len() <= 2 * n,
        s.fs.contexts.len() < usize::MAX,
        s.fs.bounded(n + 1),
        0 <= n,
        index < s.events.len(),
        t.event_generations[index as int].0 < t.generations.len(),
        ({
            let g = t.event_generations[index as int];
            !t.untrusted(g) && (live(s.fs.tasks[g.0 as int])
                || t.generations[g.0 as int].origin is Initial)
        }),
        forall|i: int| 0 <= i < s.events.len() ==> !(#[trigger] s.events[i]).context_uncertain,
    ensures
        ({
            let g = t.event_generations[index as int];
            let out = s.enter(t, index, initial_cwd);
            &&& sound(out.fs)
            &&& out.fs.tasks.len() == s.fs.tasks.len()
            &&& out.fs.contexts.len() <= s.fs.contexts.len() + 1
            &&& out.fs.bounded(n + 1)
            &&& live(out.fs.tasks[g.0 as int])
            &&& out.fs.has(out.fs.fs_of(g))
            &&& forall|h: int|
                0 <= h < s.fs.tasks.len() && h != g.0 ==> #[trigger] out.fs.tasks[h]
                    == s.fs.tasks[h]
            &&& forall|i: int|
                0 <= i < out.events.len() ==> !(#[trigger] out.events[i]).context_uncertain
        }),
{
    let g = t.event_generations[index as int];
    let placed = s.fs.ensure_task(g, t.generations[g.0 as int].origin, initial_cwd);
    if !s.fs.settled_task(g) {
        assert(!live(s.fs.tasks[g.0 as int]));
        new_context_sound(s.fs, initial_cwd, g);
    }
    assert(sound(placed));
    let f = placed.fs_of(g);
    assert(live(placed.tasks[g.0 as int]));
    assert(placed.has(f));
    let line = s.events[index as int].evidence.line;
    with_sound(placed, f, placed.at(f).settled(line));
    let out = s.enter(t, index, initial_cwd);
    assert(placed.bounded(n + 1));
    assert forall|i: int| 0 <= i < out.fs.contexts.len() && (#[trigger] out.fs.contexts[i])
        is Some implies out.fs.contexts[i]->0.members <= n + 1 by {
        assert(placed.contexts[i] is Some);
    }
}

/// What a call does to contexts keeps them certain, unless it is reported.
proof fn act_certain(
    t: TimelineView,
    s: ResolveState,
    index: usize,
    fs: usize,
    action: FsAction,
    n: int,
)
    requires
        sound(s.fs),
        s.fs.tasks.len() == t.generations.len(),
        s.fs.contexts.len() <= 2 * n + 1,
        s.fs.contexts.len() < usize::MAX,
        0 <= n < u64::MAX,
        s.fs.bounded(n + 1),
        index < s.events.len(),
        t.event_generations[index as int].0 < t.generations.len(),
        live_in(s.fs.tasks[t.event_generations[index as int].0 as int], fs),
        action is Spawn ==> (t.spawned_generations[index as int] matches Some(child) && child.0
            < t.generations.len() && !t.untrusted(child) && child
            != t.event_generations[index as int]),
        s.act(t, index, fs, action).warnings.len() == 0,
    ensures
        ({
            let g = t.event_generations[index as int];
            let child = t.spawned_generations[index as int];
            let out = s.act(t, index, fs, action);
            &&& sound(out.fs)
            &&& out.events == s.events
            &&& out.fs.tasks.len() == s.fs.tasks.len()
            &&& out.fs.contexts.len() <= s.fs.contexts.len() + 1
            &&& out.fs.bounded(n + 2)
            &&& action is Spawn ==> live(out.fs.tasks[(child->0).0 as int])
            &&& !(action is Exit) ==> live(out.fs.tasks[g.0 as int])
            &&& forall|h: int|
                0 <= h < s.fs.tasks.len() && h != g.0 && !(action is Spawn && h == (child->0).0)
                    ==> #[trigger] out.fs.tasks[h] == s.fs.tasks[h]
        }),
{
    let g = t.event_generations[index as int];
    let start = s.events[index as int].evidence.line;
    let out = s.act(t, index, fs, action);
    assert(s.fs.has(fs)) by {
        assert(live(s.fs.tasks[g.0 as int]));
    }
    let (cwd, uncertain) = s.fs.snapshot(fs);
    assert(!uncertain);
    match action {
        FsAction::Spawn(relation) => {
            let child = t.spawned_generations[index as int]->0;
            match relation {
                SpawnEffect::SharedFs => {
                    replace_child_sound(s.fs, child, fs, n + 1);
                },
                SpawnEffect::PrivateFs => {
                    assert(!s.fs.has_unsettled_change(fs, start));
                    private_child_sound(s.fs, child, cwd);
                    let split = s.fs.private_child(child, cwd, false);
                    bounded_split(s.fs, child, cwd, n + 1);
                    assert(split.tasks[g.0 as int] == s.fs.tasks[g.0 as int]);
                    assert(live(split.tasks[g.0 as int]));
                    assert(split.has(fs));
                    if out.fs != split {
                        let context = out.fs.at(fs);
                        with_sound(split, fs, context);
                        bounded_with(split, fs, context, n + 1);
                    }
                },
                _ => {},
            }
        },
        FsAction::Unshare(effect) => {
            if effect is SplitFs {
                private_child_sound(s.fs, g, cwd);
                bounded_split(s.fs, g, cwd, n + 1);
                let split = s.fs.private_child(g, cwd, false);
                let made = s.fs.contexts.len() as usize;
                if out.fs != split {
                    let first = split.with_transition(
                        fs,
                        (out.fs.at(fs).pending_transition)->0,
                    );
                    with_sound(split, fs, first.at(fs));
                    bounded_with(split, fs, first.at(fs), n + 1);
                    assert(first.has(made));
                    with_sound(first, made, out.fs.at(made));
                    bounded_with(first, made, out.fs.at(made), n + 1);
                }
            }
        },
        FsAction::Exit => {
            let was = s.fs.tasks[g.0 as int]->0;
            left_sound(s.fs, g, Some(Task { exited: true, ..was }));
            assert(out.fs == left(s.fs, g, Some(Task { exited: true, ..was })));
        },
        _ => {},
    }
    assert forall|i: int| 0 <= i < out.fs.contexts.len() && (#[trigger] out.fs.contexts[i])
        is Some implies out.fs.contexts[i]->0.members <= n + 2 by {
    }
}

proof fn bounded_split(fs: FsView, g: TaskGenerationId, cwd: Option<Seq<char>>, most: int)
    requires
        fs.bounded(most),
        most >= 1,
    ensures
        fs.private_child(g, cwd, false).bounded(most),
{
}

proof fn bounded_with(fs: FsView, f: usize, context: FsContextView, most: int)
    requires
        fs.bounded(most),
        fs.has(f),
        context.members == fs.at(f).members,
    ensures
        fs.with(f, context).bounded(most),
{
}

/// What an event reports or marks of its own path does not go unreported.
proof fn path_certain(s: ResolveState, index: usize, fs: usize, most: int)
    requires
        sound(s.fs),
        index < s.events.len(),
        s.fs.bounded(most),
        forall|i: int| 0 <= i < s.events.len() ==> !(#[trigger] s.events[i]).context_uncertain,
        s.change_cwd(index, fs).report(index).warnings.len() == 0,
    ensures
        ({
            let out = s.change_cwd(index, fs).report(index);
            &&& sound(out.fs)
            &&& out.fs.tasks == s.fs.tasks
            &&& out.fs.contexts.len() == s.fs.contexts.len()
            &&& out.fs.bounded(most)
            &&& forall|i: int|
                0 <= i < out.events.len() ==> !(#[trigger] out.events[i]).context_uncertain
        }),
{
    let changed = s.change_cwd(index, fs);
    let e = s.events[index as int];
    assert(changed.warnings.len() == 0);
    assert(changed.events == s.events);
    if ResolveState::changes_cwd(e) {
        assert(ResolveState::absolute_path(e) is Some);
        let p = e.path->0;
        reveal_strlit("/");
        reveal_strlit("relative:");
        assert(p.subrange(0, 1)[0] == '/');
        if text::matches_at(p, "relative:"@, 0) {
            assert(p.subrange(0, 9)[0] == 'r');
        }
        assert(!ResolveState::path_unresolved(e));
        if s.fs.has(fs) {
            with_sound(s.fs, fs, changed.fs.at(fs));
            bounded_with(s.fs, fs, changed.fs.at(fs), most);
            assert(changed.fs == s.fs.with(fs, changed.fs.at(fs)));
        }
    }
}

/// One event of a trace without warnings.
proof fn step_certain(
    events: Seq<EventView>,
    t: TimelineView,
    actions: Seq<FsAction>,
    initial_cwd: Option<Seq<char>>,
    s: ResolveState,
    n: int,
)
    requires
        t.interprets(events),
        t.wf(events.len()),
        2 * events.len() <= usize::MAX,
        actions.len() == events.len(),
        forall|i: int| 0 <= i < events.len() ==> goes_with(#[trigger] events[i], actions[i]),
        forall|g: int|
            0 <= g < t.generations.len() ==> !(#[trigger] t.generations[g]).origin.untrusted(),
        0 < n <= events.len(),
        s.events.len() == events.len(),
        certain_at(t, timeline::timeline_upto(events, t.event_order, n - 1), s, n - 1),
        s.step(
            t,
            t.event_order[n - 1],
            resolve::action_at(actions, t.event_order[n - 1]),
            initial_cwd,
        ).warnings.len() == 0,
    ensures
        certain_at(
            t,
            timeline::timeline_upto(events, t.event_order, n),
            s.step(
                t,
                t.event_order[n - 1],
                resolve::action_at(actions, t.event_order[n - 1]),
                initial_cwd,
            ),
            n,
        ),
{
    let order = t.event_order;
    let index = order[n - 1];
    let event = events[index as int];
    let action = resolve::action_at(actions, index);
    let st = timeline::timeline_upto(events, order, n - 1);
    let now = timeline::timeline_upto(events, order, n);
    assert(goes_with(events[index as int], actions[index as int]));
    timeline::upto_wf(events, order, n - 1);
    timeline::upto_wf(events, order, n);
    named_upto(events, order, n - 1);
    named_upto(events, order, n);
    known_stays(events, order, n, events.len() as int);
    let s1 = st.with_actor(event.pid, index);
    let actor = s1.active[event.pid];
    let g = t.event_generations[index as int];
    assert(s1.active.contains_key(event.pid));
    assert(now.event_generations[index as int] == Some(actor));
    assert(Some(g) == Some(actor));
    assert(t.generations[g.0 as int].origin == now.generations[g.0 as int].origin);
    assert(now.generations[g.0 as int].origin == s1.generations[g.0 as int].origin);
    if !st.active.contains_key(event.pid) {
        assert(!t.generations[g.0 as int].origin.untrusted());
        assert(t.generations[g.0 as int].origin is Initial);
    }
    enter_certain(t, s, index, initial_cwd, n - 1);
    let entered = s.enter(t, index, initial_cwd);
    let fs = entered.fs.fs_of(g);
    let child = t.spawned_generations[index as int];
    if child is Some {
        assert(!t.generations[(child->0).0 as int].origin.untrusted());
    }
    if event.child_pid is Some {
        assert(child == now.spawned_generations[index as int]);
        assert(child == Some(TaskGenerationId(s1.generations.len() as usize)));
        assert(now.active[event.child_pid->0] == child->0);
    }
    let acted = entered.act(t, index, fs, action);
    assert(acted.warnings.len() == 0);
    act_certain(t, entered, index, fs, action, n - 1);
    path_certain(acted, index, fs, n + 1);
    let out = s.step(t, index, action, initial_cwd);
    assert forall|p: Seq<char>| #[trigger] now.active.contains_key(p) implies live(
        out.fs.tasks[now.active[p].0 as int],
    ) by {
        let h = now.active[p];
        if event.child_pid == Some(p) {
            assert(h == child->0);
        } else {
            assert(s1.active.contains_key(p) && s1.active[p] == h);
            if p == event.pid {
                assert(!(action is Exit));
            } else {
                assert(st.active.contains_key(p) && st.active[p] == h);
                assert(st.generations[h.0 as int].pid == p);
                assert(s1.generations[g.0 as int].pid == event.pid);
                assert(s1.generations[h.0 as int].pid == p);
                assert(h.0 != g.0);
            }
        }
    }
}

proof fn certain_upto(
    events: Seq<EventView>,
    t: TimelineView,
    actions: Seq<FsAction>,
    initial_cwd: Option<Seq<char>>,
    start: ResolveState,
    n: int,
)
    requires
        t.interprets(events),
        t.wf(events.len()),
        2 * events.len() <= usize::MAX,
        actions.len() == events.len(),
        forall|i: int| 0 <= i < events.len() ==> goes_with(#[trigger] events[i], actions[i]),
        forall|g: int|
            0 <= g < t.generations.len() ==> !(#[trigger] t.generations[g]).origin.untrusted(),
        0 <= n <= events.len(),
        start.events.len() == events.len(),
        start.fs == FsView::start(t.generations.len()),
        forall|i: int|
            0 <= i < start.events.len() ==> !(#[trigger] start.events[i]).context_uncertain,
        resolve::resolved_upto(start, t, actions, initial_cwd, n).warnings.len() == 0,
    ensures
        certain_at(
            t,
            timeline::timeline_upto(events, t.event_order, n),
            resolve::resolved_upto(start, t, actions, initial_cwd, n),
            n,
        ),
    decreases n,
{
    if n > 0 {
        let s = resolve::resolved_upto(start, t, actions, initial_cwd, n - 1);
        let index = t.event_order[n - 1];
        laws::resolution_changes_only_contexts(start, t, actions, initial_cwd, n - 1);
        laws::step_keeps(s, t, index, resolve::action_at(actions, index), initial_cwd);
        certain_upto(events, t, actions, initial_cwd, start, n - 1);
        step_certain(events, t, actions, initial_cwd, s, n);
    } else {
        assert forall|f: usize| #[trigger] start.fs.has(f) implies false by {}
        assert forall|g: int| 0 <= g < start.fs.tasks.len() implies !live(
            #[trigger] start.fs.tasks[g],
        ) by {}
    }
}

/// Only the calls that spawn tasks are read as spawns.
proof fn spawns_are_named(name: Seq<char>, i: int)
    requires
        0 <= i,
        flags::operation_from(name, i) == Some(TraceOperation::Spawn),
    ensures
        name == "clone"@ || name == "clone3"@ || name == "fork"@ || name == "vfork"@,
    decreases flags::TRACE_CONTRACT_COUNT - i,
{
    if flags::contract_name(i) != name {
        spawns_are_named(name, i + 1);
    }
}

proof fn complete_paired(
    st: LineState,
    file: Seq<char>,
    n: usize,
    pid: Seq<char>,
    body: Seq<char>,
    first: usize,
)
    requires
        paired(st),
    ensures
        paired(st.complete(file, n, pid, body, first)),
{
    let evidence = crate::model::EvidenceView { file, line: first, end_line: n };
    let out = st.complete(file, n, pid, body, first);
    match trace::call_event(pid, body, evidence) {
        Some((e, action)) => {
            let (op, rest) = text::split_char(body, '(')->0;
            if flags::operation_of(op) == Some(TraceOperation::Spawn) {
                spawns_are_named(op, 0);
            }
            reveal_strlit("exit");
            reveal_strlit("exec");
            reveal_strlit("file");
            reveal_strlit("cwd");
            reveal_strlit("spawn");
            reveal_strlit("context");
            assert("exit"@.len() == 4 && "cwd"@.len() == 3 && "spawn"@.len() == 5
                && "context"@.len() == 7);
            assert("exit"@[1] != "exec"@[1] || "exit"@[2] != "exec"@[2]);
            assert("exit"@[0] != "file"@[0]);
            assert(goes_with(e, action));
        },
        None => {},
    }
    assert forall|i: int| 0 <= i < out.events.len() implies goes_with(
        #[trigger] out.events[i],
        out.actions[i],
    ) by {
        if i < st.events.len() {
            assert(goes_with(st.events[i], st.actions[i]));
        }
    }
}

proof fn push_line_paired(view: TraceView, line: Seq<char>)
    requires
        paired(view.state),
    ensures
        paired(view.push_line(line).state),
{
    let st = view.state;
    let n = (view.lines + 1) as usize;
    let (body, terminated) = trace::line_body(line);
    match text::split_space(text::trimmed(body)) {
        None => {},
        Some((pid, rest)) => {
            let call = text::trimmed(rest);
            complete_paired(st, view.file, n, pid, call, n);
            let taken = LineState { pending: st.pending.remove(pid), ..st };
            if st.pending.contains_key(pid) {
                match text::split_text(call, " resumed>"@) {
                    Some((_, tail)) => {
                        let (prefix, start) = st.pending[pid];
                        complete_paired(taken, view.file, n, pid, prefix + tail, start);
                    },
                    None => {},
                }
            }
        },
    }
}

/// The events that a parser has found go with what they do to contexts: exactly the
/// successful spawns name a child, only an end ends a task and says how, and contexts are
/// found only when the trace has ended.
pub proof fn events_go_with_their_actions(
    file: Seq<char>,
    initial_cwd: Option<Seq<char>>,
    lines: Seq<Seq<char>>,
)
    ensures
        paired(TraceView::start(file, initial_cwd).push_lines(lines).state),
    decreases lines.len(),
{
    if lines.len() > 0 {
        events_go_with_their_actions(file, initial_cwd, lines.drop_last());
        push_line_paired(
            TraceView::start(file, initial_cwd).push_lines(lines.drop_last()),
            lines.last(),
        );
    }
}

/// How a generation ended is said as the trace says it of a process.
pub proof fn exits_are_process_statuses(view: TraceView, r: Parsed, g: int)
    requires
        paired(view.state),
        view.gives(r),
        0 <= g < r.timeline@.generations.len(),
    ensures
        r.timeline@.generations[g].exit_event matches Some(e) ==> e < r.events@.len()
            && trace::is_process_status(r.events@[e as int]@.outcome),
{
    let t = r.timeline@;
    let events = view.state.events;
    timeline::exits_are_never_borrowed(t, events, g);
    let generations = t.generations.len();
    let start = ResolveState {
        events: t.marked_upto(events, generations as int),
        warnings: view.end_warnings() + t.findings_upto(events, generations as int),
        fs: FsView::start(generations),
    };
    laws::resolution_changes_only_contexts(
        start,
        t,
        view.state.actions,
        view.initial_cwd,
        events.len() as int,
    );
    if t.generations[g].exit_event is Some {
        let e = t.generations[g].exit_event->0;
        assert(timeline::generation_wf(t.generations[g], generations, events.len()));
        assert(goes_with(events[e as int], view.state.actions[e as int]));
        assert(views::each(r.events@)[e as int] == r.events@[e as int]@);
        assert(laws::same_observation(start.events[e as int], view.finished(t).events[e as int]));
    }
}

/// No uncertainty goes unreported: in a parsed trace without warnings the context of every
/// event is certain. An event makes at most two contexts, and all of them have to be
/// numbered.
pub proof fn uncertainty_is_reported(view: TraceView, r: Parsed, i: int)
    requires
        paired(view.state),
        view.gives(r),
        2 * r.events@.len() <= usize::MAX,
        r.warnings@.len() == 0,
        0 <= i < r.events@.len(),
    ensures
        !r.events@[i]@.context_uncertain,
{
    let t = r.timeline@;
    let events = view.state.events;
    let generations = t.generations.len();
    let start = ResolveState {
        events: t.marked_upto(events, generations as int),
        warnings: view.end_warnings() + t.findings_upto(events, generations as int),
        fs: FsView::start(generations),
    };
    assert(views::each(r.warnings@).len() == 0);
    laws::resolution_changes_only_contexts(
        start,
        t,
        view.state.actions,
        view.initial_cwd,
        events.len() as int,
    );
    assert(start.warnings.len() == 0);
    no_findings(t, events, generations as int);
    assert forall|k: int| 0 <= k < start.events.len() implies !(
    #[trigger] start.events[k]).context_uncertain by {
        assert(goes_with(events[k], view.state.actions[k]));
        assert(t.event_generations[k].0 < generations);
    }
    certain_upto(
        events,
        t,
        view.state.actions,
        view.initial_cwd,
        start,
        events.len() as int,
    );
    assert(views::each(r.events@)[i] == r.events@[i]@);
    assert(!view.finished(t).events[i].context_uncertain);
}

} // verus!
