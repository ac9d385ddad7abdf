//! Where the directory that is shown before an event comes from.
use vstd::prelude::*;

use crate::model::EventView;
use crate::parse::certainty;
use crate::parse::flags::{FsAction, SpawnEffect, UnshareEffect};
use crate::parse::fs::{FsContextView, FsView, PendingTransition};
use crate::parse::laws;
use crate::parse::resolve;
use crate::parse::resolve::ResolveState;
use crate::parse::timeline;
use crate::parse::timeline::{Parsed, TaskGenerationId, TaskGenerationOrigin, TimelineView};
use crate::parse::trace::TraceView;
use crate::views;

verus! {

/// Whether an event is a successful change to a directory, named by its absolute path,
/// that had returned by a line.
pub open spec fn changed_to(e: EventView, directory: Seq<char>, line: usize) -> bool {
    &&& ResolveState::changes_cwd(e)
    &&& ResolveState::absolute_path(e) == Some(directory)
    &&& e.evidence.end_line <= line
}

/// Whether a directory is the initial one, or one that an event had changed to by a line.
pub open spec fn observed(
    events: Seq<EventView>,
    initial_cwd: Option<Seq<char>>,
    directory: Seq<char>,
    line: usize,
) -> bool {
    ||| initial_cwd == Some(directory)
    ||| exists|i: int| 0 <= i < events.len() && changed_to(#[trigger] events[i], directory, line)
}

/// Whether a directory, where there is one, was observed by a line.
pub open spec fn none_or_observed(
    events: Seq<EventView>,
    initial_cwd: Option<Seq<char>>,
    directory: Option<Seq<char>>,
    line: usize,
) -> bool {
    directory matches Some(d) ==> observed(events, initial_cwd, d, line)
}

/// Whether the directory of a context was observed by a line, unless the context is
/// uncertain, and the one that it changes to will have been once that call has returned.
spec fn context_observed(
    events: Seq<EventView>,
    initial_cwd: Option<Seq<char>>,
    context: FsContextView,
    line: usize,
) -> bool {
    !context.uncertain ==> {
        &&& none_or_observed(events, initial_cwd, context.cwd, line)
        &&& context.pending_cwd matches Some(p) ==> none_or_observed(
            events,
            initial_cwd,
            p.target,
            p.until,
        )
    }
}

/// Whether the directories of all contexts were observed by a line.
spec fn all_observed(
    events: Seq<EventView>,
    initial_cwd: Option<Seq<char>>,
    fs: FsView,
    line: usize,
) -> bool {
    forall|i: int|
        0 <= i < fs.contexts.len() && (#[trigger] fs.contexts[i]) is Some ==> context_observed(
            events,
            initial_cwd,
            fs.contexts[i]->0,
            line,
        )
}

/// What was observed by a line was observed by every later line.
proof fn observed_later(
    events: Seq<EventView>,
    initial_cwd: Option<Seq<char>>,
    directory: Option<Seq<char>>,
    line: usize,
    later: usize,
)
    requires
        none_or_observed(events, initial_cwd, directory, line),
        line <= later,
    ensures
        none_or_observed(events, initial_cwd, directory, later),
{
    if directory is Some && initial_cwd != directory {
        let i = choose|i: int|
            0 <= i < events.len() && changed_to(#[trigger] events[i], directory->0, line);
        assert(changed_to(events[i], directory->0, later));
    }
}

proof fn all_observed_later(
    events: Seq<EventView>,
    initial_cwd: Option<Seq<char>>,
    fs: FsView,
    line: usize,
    later: usize,
)
    requires
        all_observed(events, initial_cwd, fs, line),
        line <= later,
    ensures
        all_observed(events, initial_cwd, fs, later),
{
    assert forall|i: int| 0 <= i < fs.contexts.len() && (#[trigger] fs.contexts[i])
        is Some implies context_observed(events, initial_cwd, fs.contexts[i]->0, later) by {
        assert(context_observed(events, initial_cwd, fs.contexts[i]->0, line));
        if !fs.contexts[i]->0.uncertain {
            observed_later(events, initial_cwd, fs.contexts[i]->0.cwd, line, later);
        }
    }
}

/// Whether every context of a state is one of an earlier state but for its count and its
/// open splits and copies, or is uncertain, or is new and says what is given.
spec fn derived(
    before: FsView,
    after: FsView,
    cwd: Option<Seq<char>>,
    uncertain: bool,
) -> bool {
    forall|i: int|
        0 <= i < after.contexts.len() && (#[trigger] after.contexts[i]) is Some ==> {
            let c = after.contexts[i]->0;
            ||| c.uncertain
            ||| (i < before.contexts.len() && before.contexts[i] is Some && {
                let b = before.contexts[i]->0;
                !b.uncertain && c.cwd == b.cwd && c.pending_cwd == b.pending_cwd
            })
            ||| (!uncertain && c.cwd == cwd && c.pending_cwd is None)
        }
}

proof fn derived_observed(
    events: Seq<EventView>,
    initial_cwd: Option<Seq<char>>,
    before: FsView,
    after: FsView,
    cwd: Option<Seq<char>>,
    uncertain: bool,
    line: usize,
)
    requires
        all_observed(events, initial_cwd, before, line),
        derived(before, after, cwd, uncertain),
        uncertain || none_or_observed(events, initial_cwd, cwd, line),
    ensures
        all_observed(events, initial_cwd, after, line),
{
    assert forall|i: int| 0 <= i < after.contexts.len() && (#[trigger] after.contexts[i])
        is Some implies context_observed(events, initial_cwd, after.contexts[i]->0, line) by {
        if i < before.contexts.len() && before.contexts[i] is Some {
            assert(context_observed(events, initial_cwd, before.contexts[i]->0, line));
        }
    }
}

/// What an event does to contexts makes no directory up: a new context has the directory
/// of the one it was copied from.
proof fn act_observed(
    events: Seq<EventView>,
    initial_cwd: Option<Seq<char>>,
    s: ResolveState,
    t: TimelineView,
    index: usize,
    fs: usize,
    action: FsAction,
    line: usize,
)
    requires
        all_observed(events, initial_cwd, s.fs, line),
    ensures
        all_observed(events, initial_cwd, s.act(t, index, fs, action).fs, line),
{
    let out = s.act(t, index, fs, action);
    let (cwd, uncertain) = s.fs.snapshot(fs);
    if s.fs.has(fs) {
        assert(context_observed(events, initial_cwd, s.fs.contexts[fs as int]->0, line));
    }
    assert(derived(s.fs, out.fs, cwd, uncertain)) by {
        act_derived(s, t, index, fs, action);
    }
    derived_observed(events, initial_cwd, s.fs, out.fs, cwd, uncertain, line);
}

/// Tasks may move, and a split copies what is given or knows nothing.
proof fn split_derived(
    origin: FsView,
    fs: FsView,
    child: TaskGenerationId,
    at: usize,
    cwd: Option<Seq<char>>,
    uncertain: bool,
)
    requires
        derived(origin, fs, cwd, uncertain),
    ensures
        derived(origin, fs.private_child(child, cwd, uncertain), cwd, uncertain),
        derived(origin, fs.private_child(child, None, true), cwd, uncertain),
        derived(origin, fs.replace_child(child, at), cwd, uncertain),
        derived(origin, fs.exit(child), cwd, uncertain),
{
}

/// Contexts may become uncertain.
proof fn cleared_derived(
    origin: FsView,
    fs: FsView,
    first: usize,
    line: usize,
    cwd: Option<Seq<char>>,
    uncertain: bool,
)
    requires
        derived(origin, fs, cwd, uncertain),
    ensures
        derived(origin, fs.invalidate(first, line), cwd, uncertain),
        derived(origin, fs.invalidate_all(), cwd, uncertain),
{
}

proof fn spawn_derived(
    s: ResolveState,
    t: TimelineView,
    index: usize,
    fs: usize,
    relation: SpawnEffect,
    child: TaskGenerationId,
)
    ensures
        derived(
            s.fs,
            s.spawn(t, index, fs, relation, child).fs,
            s.fs.snapshot(fs).0,
            s.fs.snapshot(fs).1,
        ),
{
    let (cwd, uncertain) = s.fs.snapshot(fs);
    let start = s.events[index as int].evidence.line;
    let cleared = s.fs.invalidate(fs, start);
    assert(derived(s.fs, s.fs, cwd, uncertain));
    cleared_derived(s.fs, s.fs, fs, start, cwd, uncertain);
    split_derived(s.fs, s.fs, child, fs, cwd, uncertain);
    split_derived(s.fs, cleared, child, fs, cwd, uncertain);
    match relation {
        SpawnEffect::PrivateFsNamespaceUncertain => {
            cleared_derived(
                s.fs,
                s.fs.private_child(child, None, true),
                s.fs.contexts.len() as usize,
                start,
                cwd,
                uncertain,
            );
        },
        SpawnEffect::PrivateFs => {
            if !s.fs.has_unsettled_change(fs, start) {
                let split = s.fs.private_child(child, cwd, uncertain);
                let out = s.spawn(t, index, fs, relation, child).fs;
                assert(derived(s.fs, split, cwd, uncertain));
                assert forall|i: int| 0 <= i < out.contexts.len() && (
                #[trigger] out.contexts[i]) is Some implies split.contexts[i] is Some
                    && out.contexts[i]->0.cwd == split.contexts[i]->0.cwd
                    && out.contexts[i]->0.uncertain == split.contexts[i]->0.uncertain
                    && out.contexts[i]->0.pending_cwd == split.contexts[i]->0.pending_cwd by {}
            }
        },
        _ => {},
    }
}

proof fn collide_derived(
    s: ResolveState,
    index: usize,
    fs: usize,
    relation: SpawnEffect,
    child: TaskGenerationId,
    previous: TaskGenerationId,
)
    ensures
        derived(
            s.fs,
            s.collide(index, fs, relation, child, previous).fs,
            s.fs.snapshot(fs).0,
            s.fs.snapshot(fs).1,
        ),
{
    let (cwd, uncertain) = s.fs.snapshot(fs);
    let start = s.events[index as int].evidence.line;
    let exposed = match s.fs.task_fs(previous) {
        Some(previous_fs) => s.fs.invalidate(previous_fs, start),
        None => s.fs,
    };
    assert(derived(s.fs, s.fs, cwd, uncertain));
    if let Some(previous_fs) = s.fs.task_fs(previous) {
        cleared_derived(s.fs, s.fs, previous_fs, start, cwd, uncertain);
    }
    split_derived(s.fs, exposed, child, fs, cwd, uncertain);
    let split = exposed.private_child(child, None, true);
    cleared_derived(s.fs, split, exposed.contexts.len() as usize, start, cwd, uncertain);
    cleared_derived(s.fs, split, fs, start, cwd, uncertain);
}

/// Open splits say nothing of a directory.
proof fn transitions_derived(
    origin: FsView,
    fs: FsView,
    a: usize,
    b: usize,
    x: PendingTransition,
    y: PendingTransition,
    cwd: Option<Seq<char>>,
    uncertain: bool,
)
    requires
        derived(origin, fs, cwd, uncertain),
    ensures
        derived(origin, fs.with_transition(a, x).with_transition(b, y), cwd, uncertain),
{
    let out = fs.with_transition(a, x).with_transition(b, y);
    assert forall|i: int| 0 <= i < out.contexts.len() && (#[trigger] out.contexts[i])
        is Some implies fs.contexts[i] is Some && out.contexts[i]->0.cwd
        == fs.contexts[i]->0.cwd && out.contexts[i]->0.uncertain == fs.contexts[i]->0.uncertain
        && out.contexts[i]->0.pending_cwd == fs.contexts[i]->0.pending_cwd by {}
}

proof fn unshare_derived(
    s: ResolveState,
    index: usize,
    fs: usize,
    g: TaskGenerationId,
    effect: UnshareEffect,
)
    ensures
        derived(
            s.fs,
            s.unshare(index, fs, g, effect).fs,
            s.fs.snapshot(fs).0,
            s.fs.snapshot(fs).1,
        ),
{
    let (cwd, uncertain) = s.fs.snapshot(fs);
    let start = s.events[index as int].evidence.line;
    let end = s.events[index as int].evidence.end_line;
    let cleared = s.fs.invalidate(fs, start);
    let made = s.fs.contexts.len() as usize;
    assert(derived(s.fs, s.fs, cwd, uncertain));
    cleared_derived(s.fs, s.fs, fs, start, cwd, uncertain);
    split_derived(s.fs, s.fs, g, fs, cwd, uncertain);
    split_derived(s.fs, cleared, g, fs, cwd, uncertain);
    match effect {
        UnshareEffect::SplitFs => {
            let marked = s.fs.has_pending_fork_snapshot(fs, start) || s.fs.has_unsettled_change(
                fs,
                start,
            );
            if marked {
                assert(cleared.has(fs));
                assert(s.fs.reaches(start, fs, fs, 0));
                assert(s.fs.connected(start, fs, fs));
                assert(cleared.snapshot(fs) == (None::<Seq<char>>, true));
            } else {
                transitions_derived(
                    s.fs,
                    s.fs.private_child(g, cwd, uncertain),
                    fs,
                    made,
                    PendingTransition { until: end, event: index, peer: made },
                    PendingTransition { until: end, event: index, peer: fs },
                    cwd,
                    uncertain,
                );
            }
        },
        UnshareEffect::SplitFsNamespaceUncertain => {
            cleared_derived(
                s.fs,
                s.fs.private_child(g, None, true),
                made,
                start,
                cwd,
                uncertain,
            );
        },
        _ => {},
    }
}

proof fn act_derived(s: ResolveState, t: TimelineView, index: usize, fs: usize, action: FsAction)
    ensures
        derived(
            s.fs,
            s.act(t, index, fs, action).fs,
            s.fs.snapshot(fs).0,
            s.fs.snapshot(fs).1,
        ),
{
    let (cwd, uncertain) = s.fs.snapshot(fs);
    let g = t.event_generations[index as int];
    assert(derived(s.fs, s.fs, cwd, uncertain));
    cleared_derived(
        s.fs,
        s.fs,
        fs,
        s.events[index as int].evidence.line,
        cwd,
        uncertain,
    );
    match action {
        FsAction::Spawn(relation) => {
            if let Some(child) = t.spawned_generations[index as int] {
                if let TaskGenerationOrigin::LiveCollision { previous, event } =
                    t.generations[child.0 as int].origin {
                    collide_derived(s, index, fs, relation, child, previous);
                } else {
                    spawn_derived(s, t, index, fs, relation, child);
                }
            }
        },
        FsAction::Unshare(effect) => {
            unshare_derived(s, index, fs, g, effect);
        },
        FsAction::Exit => {
            split_derived(s.fs, s.fs, g, fs, cwd, uncertain);
        },
        _ => {},
    }
}

/// What holds of the events and contexts once the events up to a line are resolved.
spec fn grounded(
    events: Seq<EventView>,
    initial_cwd: Option<Seq<char>>,
    s: ResolveState,
    line: usize,
) -> bool {
    &&& s.events.len() == events.len()
    &&& forall|i: int|
        0 <= i < events.len() ==> {
            let e = #[trigger] s.events[i];
            &&& laws::same_observation(events[i], e)
            &&& none_or_observed(events, initial_cwd, e.cwd_before, e.evidence.line)
        }
    &&& all_observed(events, initial_cwd, s.fs, line)
}

proof fn step_grounded(
    events: Seq<EventView>,
    initial_cwd: Option<Seq<char>>,
    s: ResolveState,
    t: TimelineView,
    index: usize,
    action: FsAction,
    line: usize,
)
    requires
        grounded(events, initial_cwd, s, line),
        index < events.len(),
        line <= events[index as int].evidence.line,
    ensures
        grounded(
            events,
            initial_cwd,
            s.step(t, index, action, initial_cwd),
            events[index as int].evidence.line,
        ),
{
    let now = events[index as int].evidence.line;
    let g = t.event_generations[index as int];
    let origin = t.generations[g.0 as int].origin;
    assert(laws::same_observation(events[index as int], s.events[index as int]));
    all_observed_later(events, initial_cwd, s.fs, line, now);
    let placed = s.fs.ensure_task(g, origin, initial_cwd);
    assert(none_or_observed(events, initial_cwd, initial_cwd, now));
    assert(derived(s.fs, placed, initial_cwd, false));
    derived_observed(events, initial_cwd, s.fs, placed, initial_cwd, false, now);
    let fs = placed.fs_of(g);
    let entered = s.enter(t, index, initial_cwd);
    if placed.has(fs) {
        let c = placed.contexts[fs as int]->0;
        assert(context_observed(events, initial_cwd, c, now));
        if !c.uncertain && c.pending_cwd is Some && c.pending_cwd->0.until <= now {
            observed_later(
                events,
                initial_cwd,
                c.pending_cwd->0.target,
                c.pending_cwd->0.until,
                now,
            );
        }
        assert(context_observed(events, initial_cwd, c.settled(now), now));
    }
    assert forall|i: int| 0 <= i < entered.fs.contexts.len() && (
    #[trigger] entered.fs.contexts[i]) is Some implies context_observed(
        events,
        initial_cwd,
        entered.fs.contexts[i]->0,
        now,
    ) by {
        assert(placed.contexts[i] is Some);
    }
    assert(grounded(events, initial_cwd, entered, now));
    let acted = entered.act(t, index, fs, action);
    laws::act_keeps(entered, t, index, fs, action);
    act_observed(events, initial_cwd, entered, t, index, fs, action, now);
    assert(acted.events.len() == entered.events.len());
    act_shows(entered, t, index, fs, action);
    assert forall|i: int| 0 <= i < events.len() implies {
        let e = #[trigger] acted.events[i];
        &&& laws::same_observation(events[i], e)
        &&& none_or_observed(events, initial_cwd, e.cwd_before, e.evidence.line)
    } by {
        assert(laws::same_observation(entered.events[i], acted.events[i]));
    }
    let changed = acted.change_cwd(index, fs);
    let e = acted.events[index as int];
    assert(laws::same_observation(events[index as int], e));
    if ResolveState::changes_cwd(e) && ResolveState::absolute_path(e) is Some {
        let d = ResolveState::absolute_path(e)->0;
        assert(changed_to(events[index as int], d, e.evidence.end_line));
        assert(observed(events, initial_cwd, d, e.evidence.end_line));
        if e.evidence.end_line <= now {
            observed_later(events, initial_cwd, Some(d), e.evidence.end_line, now);
        }
    }
    assert forall|i: int| 0 <= i < changed.fs.contexts.len() && (
    #[trigger] changed.fs.contexts[i]) is Some implies context_observed(
        events,
        initial_cwd,
        changed.fs.contexts[i]->0,
        now,
    ) by {
        assert(acted.fs.contexts[i] is Some);
        assert(context_observed(events, initial_cwd, acted.fs.contexts[i]->0, now));
    }
    assert forall|i: int| 0 <= i < events.len() implies {
        let e = #[trigger] changed.events[i];
        &&& laws::same_observation(events[i], e)
        &&& none_or_observed(events, initial_cwd, e.cwd_before, e.evidence.line)
    } by {
        assert(laws::same_observation(events[i], acted.events[i]));
    }
    assert(grounded(events, initial_cwd, changed, now));
}

/// What an event does to contexts changes no directory that an event shows.
proof fn act_shows(s: ResolveState, t: TimelineView, index: usize, fs: usize, action: FsAction)
    ensures
        s.act(t, index, fs, action).events.len() == s.events.len(),
        forall|i: int|
            0 <= i < s.events.len() ==> (#[trigger] s.act(
                t,
                index,
                fs,
                action,
            ).events[i]).cwd_before == s.events[i].cwd_before,
{
}

proof fn grounded_upto(
    events: Seq<EventView>,
    start: ResolveState,
    t: TimelineView,
    actions: Seq<FsAction>,
    initial_cwd: Option<Seq<char>>,
    n: int,
)
    requires
        timeline::is_evidence_order(t.event_order, events),
        0 <= n <= events.len(),
        grounded(events, initial_cwd, start, 0),
    ensures
        grounded(
            events,
            initial_cwd,
            resolve::resolved_upto(start, t, actions, initial_cwd, n),
            if n > 0 {
                events[t.event_order[n - 1] as int].evidence.line
            } else {
                0
            },
        ),
    decreases n,
{
    if n > 0 {
        grounded_upto(events, start, t, actions, initial_cwd, n - 1);
        let s = resolve::resolved_upto(start, t, actions, initial_cwd, n - 1);
        let index = t.event_order[n - 1];
        let line = if n > 1 {
            events[t.event_order[n - 2] as int].evidence.line
        } else {
            0
        };
        if n > 1 {
            assert(timeline::evidence_before(
                events,
                t.event_order[n - 2] as int,
                t.event_order[n - 1] as int,
            ));
        }
        step_grounded(
            events,
            initial_cwd,
            s,
            t,
            index,
            resolve::action_at(actions, index),
            line,
        );
    }
}

/// A directory that is shown before an event is the initial one, or the absolute path of
/// a successful change of directory that had returned by the line of the event.
pub proof fn shown_directories_were_observed(view: TraceView, r: Parsed, i: int)
    requires
        certainty::paired(view.state),
        view.gives(r),
        0 <= i < r.events@.len(),
    ensures
        none_or_observed(
            views::each(r.events@),
            view.initial_cwd,
            r.events@[i]@.cwd_before,
            r.events@[i]@.evidence.line,
        ),
{
    let t = r.timeline@;
    let events = view.state.events;
    let generations = t.generations.len();
    let start = ResolveState {
        events: t.marked_upto(events, generations as int),
        warnings: view.end_warnings() + t.findings_upto(events, generations as int),
        fs: FsView::start(generations),
    };
    assert forall|k: int| 0 <= k < events.len() implies {
        let e = #[trigger] start.events[k];
        &&& laws::same_observation(events[k], e)
        &&& none_or_observed(events, view.initial_cwd, e.cwd_before, e.evidence.line)
    } by {
        assert(certainty::goes_with(events[k], view.state.actions[k]));
    }
    grounded_upto(events, start, t, view.state.actions, view.initial_cwd, events.len() as int);
    let shown = views::each(r.events@);
    let out = view.finished(t);
    assert(out.events[i] == r.events@[i]@);
    let directory = out.events[i].cwd_before;
    if directory is Some && view.initial_cwd != directory {
        let k = choose|k: int|
            0 <= k < events.len() && changed_to(
                #[trigger] events[k],
                directory->0,
                out.events[i].evidence.line,
            );
        assert(laws::same_observation(events[k], out.events[k]));
        assert(changed_to(shown[k], directory->0, out.events[i].evidence.line));
    }
}

} // verus!
