//! Resolution of filesystem contexts over the events of a trace.
use vstd::prelude::*;
use vstd::string::*;

use crate::model::{Event, EventView, EvidenceView};
use crate::numbers;
use crate::parse::flags::{FsAction, InvalidationScope, SpawnEffect, UnshareEffect};
use crate::parse::fs::{
    FsContextView, FsState, FsView, PendingCwdView, PendingForkSnapshot, PendingTransition,
};
use crate::parse::timeline;
use crate::parse::timeline::{
    Parsed, TaskGenerationId, TaskGenerationOrigin, TaskTimeline, TimelineView,
};
use crate::text;
use crate::views;

verus! {

broadcast use crate::views::group_views;

/// What is known while contexts are resolved.
pub struct ResolveState {
    /// The events.
    pub events: Seq<EventView>,
    /// The warnings.
    pub warnings: Seq<Seq<char>>,
    /// The contexts.
    pub fs: FsView,
}

/// The events, marked where `mark` holds of their index.
pub open spec fn flagged(events: Seq<EventView>, mark: spec_fn(int) -> bool) -> Seq<EventView> {
    Seq::new(
        events.len(),
        |i: int|
            EventView { context_uncertain: events[i].context_uncertain || mark(i), ..events[i] },
    )
}

/// A warning at the first line of some evidence.
pub open spec fn warning_at(e: EvidenceView, message: Seq<char>) -> Seq<char> {
    e.file + ":"@ + numbers::decimal(e.line as nat) + ": "@ + message
}

/// The warning that a context became uncertain.
pub open spec fn context_warning(e: EvidenceView, reason: Seq<char>) -> Seq<char> {
    warning_at(
        e,
        "fs.context: "@ + reason + "; affected relative path context is incomplete"@,
    )
}

/// The warning that a path has no verified context.
pub open spec fn path_warning(e: EvidenceView) -> Seq<char> {
    warning_at(
        e,
        "path context unresolved; last observed CWD is not a verified current path; consult raw evidence"@,
    )
}

/// The warning that the arguments of an execution are not known.
pub open spec fn argv_warning(e: EvidenceView) -> Seq<char> {
    warning_at(e, "execution arguments incomplete"@)
}

impl ResolveState {
    /// The state with other contexts.
    pub open spec fn with_fs(self, fs: FsView) -> ResolveState {
        ResolveState { fs, ..self }
    }

    /// The state in which nothing is known of the contexts connected to one, and the
    /// events of their open calls are marked.
    pub open spec fn expose(self, fs: usize, line: usize) -> ResolveState {
        ResolveState {
            events: flagged(self.events, |i: int| self.fs.exposed(fs, line, i as usize)),
            fs: self.fs.invalidate(fs, line),
            ..self
        }
    }

    /// The state in which an event made the contexts connected to one uncertain.
    pub open spec fn mark(self, fs: usize, event: usize, reason: Seq<char>) -> ResolveState {
        let e = self.events[event as int].evidence;
        ResolveState {
            events: flagged(
                self.events,
                |i: int| self.fs.exposed(fs, e.line, i as usize) || i == event,
            ),
            warnings: self.warnings.push(context_warning(e, reason)),
            fs: self.fs.invalidate(fs, e.line),
        }
    }

    /// The state in which an event made every context uncertain.
    pub open spec fn mark_all(self, event: usize, reason: Seq<char>) -> ResolveState {
        let e = self.events[event as int].evidence;
        ResolveState {
            events: flagged(
                self.events,
                |i: int| self.fs.exposed_anywhere(e.line, i as usize) || i == event,
            ),
            warnings: self.warnings.push(context_warning(e, reason)),
            fs: self.fs.invalidate_all(),
        }
    }

    /// The state in which the task of an event has a context, and the event says what
    /// is known of it.
    pub open spec fn enter(
        self,
        t: TimelineView,
        index: usize,
        initial_cwd: Option<Seq<char>>,
    ) -> ResolveState {
        let g = t.event_generations[index as int];
        let e = self.events[index as int];
        let placed = self.fs.ensure_task(g, t.generations[g.0 as int].origin, initial_cwd);
        let fs = placed.fs_of(g);
        let now = placed.settle(fs, e.evidence.line);
        ResolveState {
            events: self.events.update(
                index as int,
                EventView {
                    cwd_before: now.certain_cwd(fs),
                    context_uncertain: e.context_uncertain || now.is_uncertain(fs) || t.untrusted(g),
                    ..e
                },
            ),
            fs: now,
            ..self
        }
    }

    /// The line up to which a copy of a context by a spawn is open: that of the return,
    /// or of the first event of the child where it comes earlier.
    pub open spec fn snapshot_until(self, t: TimelineView, index: usize, child: TaskGenerationId) -> usize {
        let end = self.events[index as int].evidence.end_line;
        match t.generations[child.0 as int].first_actor_event {
            Some(e) => {
                let line = self.events[e as int].evidence.line;
                if line < end {
                    line
                } else {
                    end
                }
            },
            None => end,
        }
    }

    /// The state after a spawn that names a task that is still live.
    pub open spec fn collide(
        self,
        index: usize,
        fs: usize,
        relation: SpawnEffect,
        child: TaskGenerationId,
        previous: TaskGenerationId,
    ) -> ResolveState {
        let start = self.events[index as int].evidence.line;
        let exposed = match self.fs.task_fs(previous) {
            Some(previous_fs) => self.expose(previous_fs, start),
            None => self,
        };
        let child_fs = exposed.fs.contexts.len() as usize;
        let split = exposed.with_fs(exposed.fs.private_child(child, None, true));
        match relation {
            SpawnEffect::PrivateFsNamespaceUncertain => split.mark(
                child_fs,
                index,
                "namespace creation leaves only the new child path context unproven"@,
            ),
            SpawnEffect::Unknown => split.mark(
                fs,
                index,
                "clone flags did not prove whether filesystem state is shared"@,
            ),
            _ => split,
        }
    }

    /// The state after a spawn of a new task.
    pub open spec fn spawn(
        self,
        t: TimelineView,
        index: usize,
        fs: usize,
        relation: SpawnEffect,
        child: TaskGenerationId,
    ) -> ResolveState {
        let start = self.events[index as int].evidence.line;
        let child_fs = self.fs.contexts.len() as usize;
        match relation {
            SpawnEffect::SharedFs => self.with_fs(self.fs.replace_child(child, fs)),
            SpawnEffect::PrivateFs => if !self.fs.has_unsettled_change(fs, start) {
                let (cwd, uncertain) = self.fs.snapshot(fs);
                let split = self.fs.private_child(child, cwd, uncertain);
                let until = self.snapshot_until(t, index, child);
                if !uncertain && until > start {
                    self.with_fs(
                        split.add_pending_fork_snapshot(
                            fs,
                            PendingForkSnapshot { until, spawn_event: index, child_fs },
                        ),
                    )
                } else {
                    self.with_fs(split)
                }
            } else {
                let marked = self.mark(
                    fs,
                    index,
                    "private clone overlapped an unresolved FS transition"@,
                );
                marked.with_fs(marked.fs.private_child(child, None, true))
            },
            SpawnEffect::PrivateFsNamespaceUncertain => self.with_fs(
                self.fs.private_child(child, None, true),
            ).mark(
                child_fs,
                index,
                "namespace creation leaves only the new child path context unproven"@,
            ),
            SpawnEffect::Unknown => {
                let marked = self.mark(
                    fs,
                    index,
                    "clone flags did not prove whether filesystem state is shared"@,
                );
                marked.with_fs(marked.fs.private_child(child, None, true))
            },
        }
    }

    /// The state after a split from shared state.
    pub open spec fn unshare(
        self,
        index: usize,
        fs: usize,
        g: TaskGenerationId,
        effect: UnshareEffect,
    ) -> ResolveState {
        let start = self.events[index as int].evidence.line;
        let end = self.events[index as int].evidence.end_line;
        match effect {
            UnshareEffect::NoFsChange => self,
            UnshareEffect::Unknown => self.mark(
                fs,
                index,
                "unshare flags did not prove its filesystem effect"@,
            ),
            UnshareEffect::SplitFs => {
                let checked = if self.fs.has_pending_fork_snapshot(fs, start) {
                    self.mark(
                        fs,
                        index,
                        "unshare overlapped an unresolved private clone snapshot"@,
                    )
                } else if self.fs.has_unsettled_change(fs, start) {
                    self.mark(fs, index, "unshare overlapped an unresolved FS transition"@)
                } else {
                    self
                };
                let (cwd, uncertain) = checked.fs.snapshot(fs);
                let new_fs = checked.fs.contexts.len() as usize;
                let split = checked.fs.private_child(g, cwd, uncertain);
                // The caller cannot issue another call until this one returns, but a
                // former sharing member can.
                if end > start && !uncertain && split.has(fs) {
                    checked.with_fs(
                        split.with_transition(
                            fs,
                            PendingTransition { until: end, event: index, peer: new_fs },
                        ).with_transition(
                            new_fs,
                            PendingTransition { until: end, event: index, peer: fs },
                        ),
                    )
                } else {
                    checked.with_fs(split)
                }
            },
            UnshareEffect::SplitFsNamespaceUncertain => {
                let overlaps = self.fs.has_pending_fork_snapshot(fs, start);
                let checked = if overlaps {
                    self.mark(
                        fs,
                        index,
                        "namespace change overlapped an unresolved private clone snapshot"@,
                    )
                } else {
                    self
                };
                let new_fs = checked.fs.contexts.len() as usize;
                let split = checked.with_fs(checked.fs.private_child(g, None, true));
                if overlaps {
                    split
                } else {
                    split.mark(
                        new_fs,
                        index,
                        "namespace change leaves only the caller path context unproven"@,
                    )
                }
            },
        }
    }

    /// The state after what an event does to contexts.
    pub open spec fn act(self, t: TimelineView, index: usize, fs: usize, action: FsAction) -> ResolveState {
        let g = t.event_generations[index as int];
        match action {
            FsAction::Spawn(relation) => match t.spawned_generations[index as int] {
                None => self.mark(
                    fs,
                    index,
                    "spawn result lacked a usable child task identity"@,
                ),
                Some(child) => match t.generations[child.0 as int].origin {
                    TaskGenerationOrigin::LiveCollision { previous, event } => self.collide(
                        index,
                        fs,
                        relation,
                        child,
                        previous,
                    ),
                    _ => self.spawn(t, index, fs, relation, child),
                },
            },
            FsAction::Unshare(effect) => self.unshare(index, fs, g, effect),
            FsAction::Invalidate(InvalidationScope::ConnectedFs) => self.mark(
                fs,
                index,
                "root or namespace operation is outside the CWD model"@,
            ),
            FsAction::Invalidate(InvalidationScope::AllActiveContexts) => self.mark_all(
                index,
                "mount namespace transition has process-wide unmodeled reach"@,
            ),
            FsAction::Exit => self.with_fs(self.fs.exit(g)),
            FsAction::Nothing => self,
        }
    }

    /// Whether an event is a successful change of directory.
    pub open spec fn changes_cwd(e: EventView) -> bool {
        e.kind == "cwd"@ && e.outcome == "success"@
    }

    /// The absolute path of an event.
    pub open spec fn absolute_path(e: EventView) -> Option<Seq<char>> {
        match e.path {
            Some(p) if text::matches_at(p, "/"@, 0) => Some(p),
            _ => None,
        }
    }

    /// The state after a change of directory.
    pub open spec fn change_cwd(self, index: usize, fs: usize) -> ResolveState {
        let e = self.events[index as int];
        let start = e.evidence.line;
        if !Self::changes_cwd(e) {
            self
        } else if self.fs.has_pending_fork_snapshot(fs, start) {
            self.mark(
                fs,
                index,
                "directory change overlapped an unresolved private clone snapshot"@,
            )
        } else if Self::absolute_path(e) is None {
            self.mark(
                fs,
                index,
                "successful directory change has no absolute per-syscall directory evidence"@,
            )
        } else if self.fs.has_unsettled_change(fs, start) {
            self.mark(fs, index, "directory changes overlap and their order is not proven"@)
        } else {
            self.with_fs(
                self.fs.change_cwd(fs, start, e.evidence.end_line, Self::absolute_path(e), index),
            )
        }
    }

    /// Whether the path of an event has no verified context.
    pub open spec fn path_unresolved(e: EventView) -> bool {
        (e.path matches Some(p) && text::matches_at(p, "relative:"@, 0)) || (e.kind == "cwd"@
            && e.path is None)
    }

    /// The state in which an event says whether its path has a verified context, and
    /// what is missing is reported.
    pub open spec fn report(self, index: usize) -> ResolveState {
        let e = self.events[index as int];
        let marked = if Self::path_unresolved(e) {
            ResolveState {
                events: self.events.update(
                    index as int,
                    EventView { context_uncertain: true, ..e },
                ),
                // A successful unresolved directory change has been reported already.
                warnings: if Self::changes_cwd(e) {
                    self.warnings
                } else {
                    self.warnings.push(path_warning(e.evidence))
                },
                ..self
            }
        } else {
            self
        };
        if e.kind == "exec"@ && e.argv is None {
            ResolveState { warnings: marked.warnings.push(argv_warning(e.evidence)), ..marked }
        } else {
            marked
        }
    }

    /// The state after one more event. A spawn without a child identity ends with its
    /// own warning.
    pub open spec fn step(
        self,
        t: TimelineView,
        index: usize,
        action: FsAction,
        initial_cwd: Option<Seq<char>>,
    ) -> ResolveState {
        let entered = self.enter(t, index, initial_cwd);
        let fs = entered.fs.fs_of(t.event_generations[index as int]);
        let acted = entered.act(t, index, fs, action);
        if action is Spawn && t.spawned_generations[index as int] is None {
            acted
        } else {
            acted.change_cwd(index, fs).report(index)
        }
    }
}

/// What an event does to contexts.
pub open spec fn action_at(actions: Seq<FsAction>, index: usize) -> FsAction {
    if index < actions.len() {
        actions[index as int]
    } else {
        FsAction::Nothing
    }
}

/// The state after the first `n` events in evidence order.
pub open spec fn resolved_upto(
    start: ResolveState,
    t: TimelineView,
    actions: Seq<FsAction>,
    initial_cwd: Option<Seq<char>>,
    n: int,
) -> ResolveState
    decreases n,
{
    if n <= 0 {
        start
    } else {
        let index = t.event_order[n - 1];
        resolved_upto(start, t, actions, initial_cwd, n - 1).step(
            t,
            index,
            action_at(actions, index),
            initial_cwd,
        )
    }
}

/// The state that exec values stand for.
pub open spec fn state_of(p: Parsed, state: FsState) -> ResolveState {
    ResolveState { events: views::each(p.events@), warnings: views::each(p.warnings@), fs: state@ }
}

/// Marks events.
fn mark_events(events: &mut Vec<Event>, affected: &Vec<usize>)
    ensures
        views::each(final(events)@) == flagged(
            views::each(old(events)@),
            |i: int| affected@.contains(i as usize),
        ),
{
    let ghost ev = views::each(events@);
    let n: usize = events.len();
    for k in 0..affected.len()
        invariant
            n == events@.len(),
            n == ev.len(),
            forall|i: int|
                #![trigger events@[i]]
                0 <= i < n ==> events@[i]@ == (EventView {
                    context_uncertain: ev[i].context_uncertain || affected@.take(
                        k as int,
                    ).contains(i as usize),
                    ..ev[i]
                }),
    {
        let index: usize = affected[k];
        let ghost was = events@;
        if index < n {
            events[index].context_uncertain = true;
        }
        proof {
            let shorter = affected@.take(k as int);
            let longer = affected@.take(k + 1);
            assert(longer == shorter.push(index));
            assert forall|i: int|
                #![trigger events@[i]]
                0 <= i < n implies events@[i]@ == (EventView {
                context_uncertain: ev[i].context_uncertain || longer.contains(i as usize),
                ..ev[i]
            }) by {
                assert(was[i]@.context_uncertain == (ev[i].context_uncertain || shorter.contains(
                    i as usize,
                )));
                if shorter.contains(i as usize) {
                    let j = choose|j: int| 0 <= j < shorter.len() && shorter[j] == i as usize;
                    assert(longer[j] == i as usize);
                }
                if i == index {
                    assert(longer[k as int] == i as usize);
                }
                if longer.contains(i as usize) && i != index {
                    let j = choose|j: int| 0 <= j < longer.len() && longer[j] == i as usize;
                    assert(shorter[j] == i as usize);
                }
            }
        }
    }
    assert(affected@.take(affected@.len() as int) == affected@);
    assert(views::each(events@) =~= flagged(ev, |i: int| affected@.contains(i as usize)));
}

/// Gives a warning at the first line of an event.
fn event_warning(event: &Event, message: &str) -> (r: String)
    ensures
        r@ == warning_at(event@.evidence, message@),
{
    let mut s: String = event.evidence.file.clone();
    s.append(":");
    s.append(numbers::decimal_string(event.evidence.line as u128).as_str());
    s.append(": ");
    s.append(message);
    s
}

/// Gives the warning that a context became uncertain.
fn context_warning_text(event: &Event, reason: &str) -> (r: String)
    ensures
        r@ == context_warning(event@.evidence, reason@),
{
    let mut message: String = "fs.context: ".to_owned();
    message.append(reason);
    message.append("; affected relative path context is incomplete");
    event_warning(event, message.as_str())
}

/// Makes the contexts connected to one uncertain, and marks the events of their
/// open calls.
pub fn apply_fs_uncertainty(p: &mut Parsed, state: &mut FsState, fs: usize, line: usize)
    ensures
        state_of(*final(p), *final(state)) == state_of(*old(p), *old(state)).expose(fs, line),
        final(p).lines == old(p).lines,
        final(p).timeline == old(p).timeline,
{
    let ghost before = state_of(*p, *state);
    let affected: Vec<usize> = state.invalidate(fs, line);
    mark_events(&mut p.events, &affected);
    assert(state_of(*p, *state).events =~= before.expose(fs, line).events);
}

/// Makes the contexts connected to one uncertain because of an event.
pub fn mark_fs_uncertain(
    p: &mut Parsed,
    state: &mut FsState,
    fs: usize,
    event: usize,
    reason: &str,
)
    requires
        event < old(p).events@.len(),
    ensures
        state_of(*final(p), *final(state)) == state_of(*old(p), *old(state)).mark(
            fs,
            event,
            reason@,
        ),
        final(p).lines == old(p).lines,
        final(p).timeline == old(p).timeline,
{
    let ghost before = state_of(*p, *state);
    assert(before.events[event as int] == p.events@[event as int]@);
    let line: usize = p.events[event].evidence.line;
    let n: usize = p.events.len();
    let mut affected: Vec<usize> = state.invalidate(fs, line);
    let ghost exposed = affected@;
    affected.push(event);
    mark_events(&mut p.events, &affected);
    proof {
        push_contains(exposed, event);
        assert forall|k: usize| k < n implies #[trigger] affected@.contains(k)
            == (before.fs.exposed(fs, line, k) || k == event) by {
            assert(exposed.push(event).contains(k) == (exposed.contains(k) || event == k));
        }
        assert(state_of(*p, *state).events =~= before.mark(fs, event, reason@).events);
        assert(state_of(*p, *state).events[event as int] == p.events@[event as int]@);
    }
    let warning: String = context_warning_text(&p.events[event], reason);
    p.warnings.push(warning);
}

/// What a sequence holds after a `push`.
proof fn push_contains(s: Seq<usize>, x: usize)
    ensures
        forall|y: usize| #[trigger] s.push(x).contains(y) <==> s.contains(y) || x == y,
{
    assert forall|y: usize| #[trigger] s.push(x).contains(y) <==> s.contains(y) || x == y by {
        if s.contains(y) {
            let i = choose|i: int| 0 <= i < s.len() && s[i] == y;
            assert(s.push(x)[i] == y);
        }
        if x == y {
            assert(s.push(x)[s.len() as int] == y);
        }
    }
}

/// Makes every context uncertain because of an event.
pub fn mark_all_fs_uncertain(p: &mut Parsed, state: &mut FsState, event: usize, reason: &str)
    requires
        event < old(p).events@.len(),
    ensures
        state_of(*final(p), *final(state)) == state_of(*old(p), *old(state)).mark_all(
            event,
            reason@,
        ),
        final(p).lines == old(p).lines,
        final(p).timeline == old(p).timeline,
{
    let ghost before = state_of(*p, *state);
    assert(before.events[event as int] == p.events@[event as int]@);
    let line: usize = p.events[event].evidence.line;
    let n: usize = p.events.len();
    let mut affected: Vec<usize> = state.invalidate_all(line);
    let ghost exposed = affected@;
    affected.push(event);
    mark_events(&mut p.events, &affected);
    proof {
        push_contains(exposed, event);
        assert forall|k: usize| k < n implies #[trigger] affected@.contains(k)
            == (before.fs.exposed_anywhere(line, k) || k == event) by {
            assert(exposed.push(event).contains(k) == (exposed.contains(k) || event == k));
        }
        assert(state_of(*p, *state).events =~= before.mark_all(event, reason@).events);
        assert(state_of(*p, *state).events[event as int] == p.events@[event as int]@);
    }
    let warning: String = context_warning_text(&p.events[event], reason);
    p.warnings.push(warning);
}

/// Gives the task of an event a context, and says in the event what is known of it.
fn enter_event(
    p: &mut Parsed,
    state: &mut FsState,
    timeline: &TaskTimeline,
    index: usize,
    initial_cwd: Option<&str>,
) -> (fs: usize)
    requires
        timeline@.wf(old(p).events@.len()),
        index < old(p).events@.len(),
        old(state)@.tasks.len() == timeline@.generations.len(),
    ensures
        state_of(*final(p), *final(state)) == state_of(*old(p), *old(state)).enter(
            timeline@,
            index,
            views::opt(initial_cwd),
        ),
        fs == final(state)@.fs_of(timeline@.event_generations[index as int]),
        final(p).lines == old(p).lines,
        final(p).timeline == old(p).timeline,
        final(p).events@.len() == old(p).events@.len(),
        final(state)@.tasks.len() == old(state)@.tasks.len(),
{
    let ghost before = state_of(*p, *state);
    assert(before.events[index as int] == p.events@[index as int]@);
    let generation: TaskGenerationId = timeline.event_generation(index);
    assert(generation == timeline@.event_generations[index as int]);
    assert(generation.0 < timeline@.generations.len());
    let start: usize = p.events[index].evidence.line;
    let fs: usize = state.ensure_task(generation, timeline.origin(generation), initial_cwd);
    let base: Option<String> = state.cwd_before(fs, start);
    p.events[index].cwd_before = base;
    if state.is_uncertain(fs) || timeline.is_untrusted(generation) {
        p.events[index].context_uncertain = true;
    }
    assert(views::each(p.events@) =~= before.enter(
        timeline@,
        index,
        views::opt(initial_cwd),
    ).events);
    fs
}

/// Applies a spawn that names a task that is still live.
fn apply_collision(
    p: &mut Parsed,
    state: &mut FsState,
    index: usize,
    fs: usize,
    relation: SpawnEffect,
    child: TaskGenerationId,
    previous: TaskGenerationId,
)
    requires
        index < old(p).events@.len(),
        child.0 < old(state)@.tasks.len(),
        previous.0 < old(state)@.tasks.len(),
    ensures
        state_of(*final(p), *final(state)) == state_of(*old(p), *old(state)).collide(
            index,
            fs,
            relation,
            child,
            previous,
        ),
        final(p).lines == old(p).lines,
        final(p).timeline == old(p).timeline,
        final(p).events@.len() == old(p).events@.len(),
        final(state)@.tasks.len() == old(state)@.tasks.len(),
{
    let ghost before = state_of(*p, *state);
    assert(before.events[index as int] == p.events@[index as int]@);
    let start: usize = p.events[index].evidence.line;
    match state.task_fs(previous) {
        Some(previous_fs) => {
            apply_fs_uncertainty(p, state, previous_fs, start);
            assert(state_of(*p, *state).events.len() == before.events.len());
        },
        None => {},
    }
    let child_fs: usize = state.private_child(child, None, true);
    match relation {
        SpawnEffect::PrivateFsNamespaceUncertain => {
            mark_fs_uncertain(
                p,
                state,
                child_fs,
                index,
                "namespace creation leaves only the new child path context unproven",
            );
        },
        SpawnEffect::Unknown => {
            mark_fs_uncertain(
                p,
                state,
                fs,
                index,
                "clone flags did not prove whether filesystem state is shared",
            );
        },
        _ => {},
    }
    assert(state_of(*p, *state).events.len() == before.events.len());
}

/// Applies a spawn of a new task.
fn apply_spawn(
    p: &mut Parsed,
    state: &mut FsState,
    timeline: &TaskTimeline,
    index: usize,
    fs: usize,
    relation: SpawnEffect,
    child: TaskGenerationId,
)
    requires
        timeline@.wf(old(p).events@.len()),
        index < old(p).events@.len(),
        old(state)@.tasks.len() == timeline@.generations.len(),
        child.0 < old(state)@.tasks.len(),
        old(state)@.has(fs) ==> old(state)@.at(fs).members < u128::MAX,
    ensures
        state_of(*final(p), *final(state)) == state_of(*old(p), *old(state)).spawn(
            timeline@,
            index,
            fs,
            relation,
            child,
        ),
        final(p).lines == old(p).lines,
        final(p).timeline == old(p).timeline,
        final(p).events@.len() == old(p).events@.len(),
        final(state)@.tasks.len() == old(state)@.tasks.len(),
{
    let ghost before = state_of(*p, *state);
    assert(before.events[index as int] == p.events@[index as int]@);
    let start: usize = p.events[index].evidence.line;
    let end: usize = p.events[index].evidence.end_line;
    match relation {
        SpawnEffect::SharedFs => {
            state.replace_child(child, fs);
        },
        SpawnEffect::PrivateFs => {
            if !state.has_unsettled_change(fs, start) {
                let (cwd, uncertain) = state.snapshot(fs);
                let child_fs: usize = state.private_child(child, cwd, uncertain);
                assert(timeline::generation_wf(
                    timeline@.generations[child.0 as int],
                    timeline@.generations.len(),
                    p.events@.len(),
                ));
                let until: usize = match timeline.first_actor_event(child) {
                    Some(event) => {
                        assert(before.events[event as int] == p.events@[event as int]@);
                        let line: usize = p.events[event].evidence.line;
                        if line < end {
                            line
                        } else {
                            end
                        }
                    },
                    None => end,
                };
                if !uncertain && until > start {
                    state.add_pending_fork_snapshot(fs, until, index, child_fs);
                }
            } else {
                mark_fs_uncertain(
                    p,
                    state,
                    fs,
                    index,
                    "private clone overlapped an unresolved FS transition",
                );
                let _ = state.private_child(child, None, true);
            }
        },
        SpawnEffect::PrivateFsNamespaceUncertain => {
            // The namespace branch is uncertain by definition, so an in-flight source
            // transition cannot weaken the parent any further. Keep that uncertainty
            // on the new child rather than destroying source facts.
            let child_fs: usize = state.private_child(child, None, true);
            mark_fs_uncertain(
                p,
                state,
                child_fs,
                index,
                "namespace creation leaves only the new child path context unproven",
            );
        },
        SpawnEffect::Unknown => {
            mark_fs_uncertain(
                p,
                state,
                fs,
                index,
                "clone flags did not prove whether filesystem state is shared",
            );
            let _ = state.private_child(child, None, true);
        },
    }
    assert(state_of(*p, *state).events.len() == before.events.len());
}

/// Applies a split from shared state.
fn apply_unshare(
    p: &mut Parsed,
    state: &mut FsState,
    index: usize,
    fs: usize,
    generation: TaskGenerationId,
    effect: UnshareEffect,
)
    requires
        index < old(p).events@.len(),
        generation.0 < old(state)@.tasks.len(),
    ensures
        state_of(*final(p), *final(state)) == state_of(*old(p), *old(state)).unshare(
            index,
            fs,
            generation,
            effect,
        ),
        final(p).lines == old(p).lines,
        final(p).timeline == old(p).timeline,
        final(p).events@.len() == old(p).events@.len(),
        final(state)@.tasks.len() == old(state)@.tasks.len(),
{
    let ghost before = state_of(*p, *state);
    assert(before.events[index as int] == p.events@[index as int]@);
    let start: usize = p.events[index].evidence.line;
    let end: usize = p.events[index].evidence.end_line;
    match effect {
        UnshareEffect::NoFsChange => {},
        UnshareEffect::Unknown => {
            mark_fs_uncertain(
                p,
                state,
                fs,
                index,
                "unshare flags did not prove its filesystem effect",
            );
        },
        UnshareEffect::SplitFs => {
            if state.has_pending_fork_snapshot(fs, start) {
                mark_fs_uncertain(
                    p,
                    state,
                    fs,
                    index,
                    "unshare overlapped an unresolved private clone snapshot",
                );
            } else if state.has_unsettled_change(fs, start) {
                mark_fs_uncertain(
                    p,
                    state,
                    fs,
                    index,
                    "unshare overlapped an unresolved FS transition",
                );
            }
            let (cwd, uncertain) = state.snapshot(fs);
            let new_fs: usize = state.private_child(generation, cwd, uncertain);
            if end > start && !uncertain && state.has_context(fs) {
                state.open_transition(
                    fs,
                    PendingTransition { until: end, event: index, peer: new_fs },
                );
                state.open_transition(
                    new_fs,
                    PendingTransition { until: end, event: index, peer: fs },
                );
            }
        },
        UnshareEffect::SplitFsNamespaceUncertain => {
            let overlaps_fork: bool = state.has_pending_fork_snapshot(fs, start);
            if overlaps_fork {
                mark_fs_uncertain(
                    p,
                    state,
                    fs,
                    index,
                    "namespace change overlapped an unresolved private clone snapshot",
                );
            }
            // The caller's new namespace context is already unknown. Preserve any
            // in-flight CWD fact on the old shared group; it remains true for those
            // tasks regardless of when the caller detached during the interval.
            let new_fs: usize = state.private_child(generation, None, true);
            if !overlaps_fork {
                mark_fs_uncertain(
                    p,
                    state,
                    new_fs,
                    index,
                    "namespace change leaves only the caller path context unproven",
                );
            }
        },
    }
    assert(state_of(*p, *state).events.len() == before.events.len());
}

/// Applies what an event does to contexts.
fn apply_action(
    p: &mut Parsed,
    state: &mut FsState,
    timeline: &TaskTimeline,
    index: usize,
    fs: usize,
    action: FsAction,
)
    requires
        timeline@.wf(old(p).events@.len()),
        index < old(p).events@.len(),
        old(state)@.tasks.len() == timeline@.generations.len(),
        old(state)@.has(fs) ==> old(state)@.at(fs).members < u128::MAX,
    ensures
        state_of(*final(p), *final(state)) == state_of(*old(p), *old(state)).act(
            timeline@,
            index,
            fs,
            action,
        ),
        final(p).lines == old(p).lines,
        final(p).timeline == old(p).timeline,
        final(p).events@.len() == old(p).events@.len(),
        final(state)@.tasks.len() == old(state)@.tasks.len(),
{
    let ghost before = state_of(*p, *state);
    let generation: TaskGenerationId = timeline.event_generation(index);
    assert(generation == timeline@.event_generations[index as int]);
    match action {
        FsAction::Spawn(relation) => match timeline.spawned_generation(index) {
            None => {
                mark_fs_uncertain(
                    p,
                    state,
                    fs,
                    index,
                    "spawn result lacked a usable child task identity",
                );
            },
            Some(child) => {
                assert(timeline@.spawned_generations[index as int] == Some(child));
                assert(timeline::generation_wf(
                    timeline@.generations[child.0 as int],
                    timeline@.generations.len(),
                    p.events@.len(),
                ));
                match timeline.origin(child) {
                    TaskGenerationOrigin::LiveCollision { previous, event } => {
                        apply_collision(p, state, index, fs, relation, child, previous);
                    },
                    _ => {
                        apply_spawn(p, state, timeline, index, fs, relation, child);
                    },
                }
            },
        },
        FsAction::Unshare(effect) => {
            apply_unshare(p, state, index, fs, generation, effect);
        },
        FsAction::Invalidate(scope) => match scope {
            InvalidationScope::ConnectedFs => {
                mark_fs_uncertain(
                    p,
                    state,
                    fs,
                    index,
                    "root or namespace operation is outside the CWD model",
                );
            },
            InvalidationScope::AllActiveContexts => {
                mark_all_fs_uncertain(
                    p,
                    state,
                    index,
                    "mount namespace transition has process-wide unmodeled reach",
                );
            },
        },
        FsAction::Exit => {
            state.exit(generation);
        },
        FsAction::Nothing => {},
    }
    assert(state_of(*p, *state).events.len() == before.events.len());
}

/// Applies a change of directory.
fn apply_cwd_change(p: &mut Parsed, state: &mut FsState, index: usize, fs: usize)
    requires
        index < old(p).events@.len(),
    ensures
        state_of(*final(p), *final(state)) == state_of(*old(p), *old(state)).change_cwd(index, fs),
        final(p).lines == old(p).lines,
        final(p).timeline == old(p).timeline,
        final(p).events@.len() == old(p).events@.len(),
        final(state)@.tasks.len() == old(state)@.tasks.len(),
{
    let ghost before = state_of(*p, *state);
    assert(before.events[index as int] == p.events@[index as int]@);
    let start: usize = p.events[index].evidence.line;
    let end: usize = p.events[index].evidence.end_line;
    if text::same(p.events[index].kind.as_str(), "cwd") && text::same(
        p.events[index].outcome.as_str(),
        "success",
    ) {
        let verified_target: Option<String> = match &p.events[index].path {
            Some(target) => if text::starts_with(target.as_str(), "/") {
                Some(target.clone())
            } else {
                None
            },
            None => None,
        };
        if state.has_pending_fork_snapshot(fs, start) {
            mark_fs_uncertain(
                p,
                state,
                fs,
                index,
                "directory change overlapped an unresolved private clone snapshot",
            );
        } else if verified_target.is_none() {
            mark_fs_uncertain(
                p,
                state,
                fs,
                index,
                "successful directory change has no absolute per-syscall directory evidence",
            );
        } else if state.has_unsettled_change(fs, start) {
            mark_fs_uncertain(
                p,
                state,
                fs,
                index,
                "directory changes overlap and their order is not proven",
            );
        } else {
            state.change_cwd(fs, start, end, verified_target, index);
        }
    }
    assert(state_of(*p, *state).events.len() == before.events.len());
}

/// Says in an event whether its path has a verified context, and reports what is
/// missing.
fn report_event(p: &mut Parsed, index: usize)
    requires
        index < old(p).events@.len(),
    ensures
        forall|fs: FsView|
            #![trigger (ResolveState {
                events: views::each(old(p).events@),
                warnings: views::each(old(p).warnings@),
                fs,
            }).report(index)]
            (ResolveState {
                events: views::each(final(p).events@),
                warnings: views::each(final(p).warnings@),
                fs,
            }) == (ResolveState {
                events: views::each(old(p).events@),
                warnings: views::each(old(p).warnings@),
                fs,
            }).report(index),
        final(p).lines == old(p).lines,
        final(p).timeline == old(p).timeline,
        final(p).events@.len() == old(p).events@.len(),
{
    let ghost ev = views::each(p.events@);
    assert(ev[index as int] == p.events@[index as int]@);
    let is_cwd: bool = text::same(p.events[index].kind.as_str(), "cwd");
    let succeeded: bool = text::same(p.events[index].outcome.as_str(), "success");
    let argv_missing: bool = text::same(p.events[index].kind.as_str(), "exec")
        && p.events[index].argv.is_none();
    let unresolved: bool = match &p.events[index].path {
        Some(value) => text::starts_with(value.as_str(), "relative:"),
        None => is_cwd,
    };
    if unresolved {
        p.events[index].context_uncertain = true;
        if !is_cwd || !succeeded {
            let warning: String = event_warning(
                &p.events[index],
                "path context unresolved; last observed CWD is not a verified current path; consult raw evidence",
            );
            p.warnings.push(warning);
        }
    }
    if argv_missing {
        let warning: String = event_warning(&p.events[index], "execution arguments incomplete");
        p.warnings.push(warning);
    }
}

/// A task gets a context without raising the bound on live tasks.
proof fn enter_bounded(
    st: ResolveState,
    t: TimelineView,
    index: usize,
    initial_cwd: Option<Seq<char>>,
    most: int,
)
    requires
        st.fs.bounded(most),
        most >= 1,
    ensures
        st.enter(t, index, initial_cwd).fs.bounded(most),
{
    let g = t.event_generations[index as int];
    let e = st.events[index as int];
    let origin = t.generations[g.0 as int].origin;
    st.fs.new_context_bounded(initial_cwd, false, g, most);
    st.fs.new_context_bounded(None, true, g, most);
    let placed = st.fs.ensure_task(g, origin, initial_cwd);
    let fs = placed.fs_of(g);
    if placed.has(fs) {
        placed.with_bounded(fs, placed.at(fs).settled(e.evidence.line), most);
    }
}

/// A looser bound holds too.
proof fn looser(st: FsView, most: int)
    requires
        st.bounded(most),
    ensures
        st.bounded(most + 1),
{
}

/// A spawn raises the bound on live tasks by one at most.
proof fn spawn_bounded(
    st: ResolveState,
    t: TimelineView,
    index: usize,
    fs: usize,
    relation: SpawnEffect,
    child: TaskGenerationId,
    most: int,
)
    requires
        st.fs.bounded(most),
        1 <= most < u128::MAX,
    ensures
        st.spawn(t, index, fs, relation, child).fs.bounded(most + 1),
{
    looser(st.fs, most);
    let line = st.events[index as int].evidence.line;
    match relation {
        SpawnEffect::SharedFs => {
            st.fs.replace_child_bounded(child, fs, most);
        },
        SpawnEffect::PrivateFs => {
            if !st.fs.has_unsettled_change(fs, line) {
                let (cwd, uncertain) = st.fs.snapshot(fs);
                st.fs.private_child_bounded(child, cwd, uncertain, most);
                let split = st.fs.private_child(child, cwd, uncertain);
                looser(split, most);
                let pending = PendingForkSnapshot {
                    until: st.snapshot_until(t, index, child),
                    spawn_event: index,
                    child_fs: st.fs.contexts.len() as usize,
                };
                if split.has(fs) {
                    split.with_bounded(
                        fs,
                        FsContextView {
                            pending_fork_snapshots: split.at(fs).pending_fork_snapshots.push(
                                pending,
                            ),
                            ..split.at(fs)
                        },
                        most + 1,
                    );
                }
            } else {
                st.fs.invalidate_bounded(fs, line, most + 1);
                st.fs.invalidate(fs, line).private_child_bounded(child, None, true, most + 1);
            }
        },
        SpawnEffect::PrivateFsNamespaceUncertain => {
            st.fs.private_child_bounded(child, None, true, most + 1);
            st.fs.private_child(child, None, true).invalidate_bounded(
                st.fs.contexts.len() as usize,
                line,
                most + 1,
            );
        },
        SpawnEffect::Unknown => {
            st.fs.invalidate_bounded(fs, line, most + 1);
            st.fs.invalidate(fs, line).private_child_bounded(child, None, true, most + 1);
        },
    }
}

/// A spawn that names a live task keeps the bound on live tasks.
proof fn collide_bounded(
    st: ResolveState,
    index: usize,
    fs: usize,
    relation: SpawnEffect,
    child: TaskGenerationId,
    previous: TaskGenerationId,
    most: int,
)
    requires
        st.fs.bounded(most),
        most >= 1,
    ensures
        st.collide(index, fs, relation, child, previous).fs.bounded(most),
{
    let line = st.events[index as int].evidence.line;
    let exposed = match st.fs.task_fs(previous) {
        Some(previous_fs) => st.fs.invalidate(previous_fs, line),
        None => st.fs,
    };
    match st.fs.task_fs(previous) {
        Some(previous_fs) => {
            st.fs.invalidate_bounded(previous_fs, line, most);
        },
        None => {},
    }
    exposed.private_child_bounded(child, None, true, most);
    let split = exposed.private_child(child, None, true);
    let marked_line = match st.fs.task_fs(previous) {
        Some(previous_fs) => st.expose(previous_fs, line).events[index as int].evidence.line,
        None => line,
    };
    split.invalidate_bounded(fs, marked_line, most);
    split.invalidate_bounded(exposed.contexts.len() as usize, marked_line, most);
}

/// A split keeps the bound on live tasks.
proof fn unshare_bounded(
    st: ResolveState,
    index: usize,
    fs: usize,
    g: TaskGenerationId,
    effect: UnshareEffect,
    most: int,
)
    requires
        st.fs.bounded(most),
        most >= 1,
    ensures
        st.unshare(index, fs, g, effect).fs.bounded(most),
{
    let line = st.events[index as int].evidence.line;
    let end = st.events[index as int].evidence.end_line;
    st.fs.invalidate_bounded(fs, line, most);
    match effect {
        UnshareEffect::SplitFs => {
            let checked = if st.fs.has_pending_fork_snapshot(fs, line)
                || st.fs.has_unsettled_change(fs, line) {
                st.fs.invalidate(fs, line)
            } else {
                st.fs
            };
            let (cwd, uncertain) = checked.snapshot(fs);
            let new_fs = checked.contexts.len() as usize;
            checked.private_child_bounded(g, cwd, uncertain, most);
            let split = checked.private_child(g, cwd, uncertain);
            let there = PendingTransition { until: end, event: index, peer: new_fs };
            let back = PendingTransition { until: end, event: index, peer: fs };
            if split.has(fs) {
                split.with_bounded(
                    fs,
                    FsContextView { pending_transition: Some(there), ..split.at(fs) },
                    most,
                );
            }
            let opened = split.with_transition(fs, there);
            if opened.has(new_fs) {
                opened.with_bounded(
                    new_fs,
                    FsContextView { pending_transition: Some(back), ..opened.at(new_fs) },
                    most,
                );
            }
        },
        UnshareEffect::SplitFsNamespaceUncertain => {
            let overlaps = st.fs.has_pending_fork_snapshot(fs, line);
            let checked = if overlaps {
                st.fs.invalidate(fs, line)
            } else {
                st.fs
            };
            checked.private_child_bounded(g, None, true, most);
            checked.private_child(g, None, true).invalidate_bounded(
                checked.contexts.len() as usize,
                line,
                most,
            );
        },
        _ => {},
    }
}

/// An event raises the bound on live tasks by one at most.
proof fn step_bounded(
    st: ResolveState,
    t: TimelineView,
    index: usize,
    action: FsAction,
    initial_cwd: Option<Seq<char>>,
    most: int,
)
    requires
        st.fs.bounded(most),
        1 <= most < u128::MAX,
    ensures
        st.enter(t, index, initial_cwd).fs.bounded(most),
        st.step(t, index, action, initial_cwd).fs.bounded(most + 1),
{
    enter_bounded(st, t, index, initial_cwd, most);
    let entered = st.enter(t, index, initial_cwd);
    let g = t.event_generations[index as int];
    let fs = entered.fs.fs_of(g);
    let line = entered.events[index as int].evidence.line;
    looser(entered.fs, most);
    entered.fs.invalidate_bounded(fs, line, most + 1);
    match action {
        FsAction::Spawn(relation) => match t.spawned_generations[index as int] {
            None => {},
            Some(child) => match t.generations[child.0 as int].origin {
                TaskGenerationOrigin::LiveCollision { previous, event } => {
                    collide_bounded(entered, index, fs, relation, child, previous, most + 1);
                },
                _ => {
                    spawn_bounded(entered, t, index, fs, relation, child, most);
                },
            },
        },
        FsAction::Unshare(effect) => {
            unshare_bounded(entered, index, fs, g, effect, most + 1);
        },
        FsAction::Exit => {
            entered.fs.exit_bounded(g, most + 1);
        },
        _ => {},
    }
    let acted = entered.act(t, index, fs, action);
    assert(acted.fs.bounded(most + 1));
    let e = acted.events[index as int];
    acted.fs.invalidate_bounded(fs, e.evidence.line, most + 1);
    let changed = acted.change_cwd(index, fs);
    let target = ResolveState::absolute_path(e);
    if acted.fs.has(fs) {
        acted.fs.with_bounded(
            fs,
            FsContextView {
                pending_cwd: Some(
                    PendingCwdView { until: e.evidence.end_line, target, event: index },
                ),
                ..acted.fs.at(fs)
            },
            most + 1,
        );
        acted.fs.with_bounded(fs, FsContextView { cwd: target, ..acted.fs.at(fs) }, most + 1);
    }
    assert(changed.fs.bounded(most + 1));
}

/// Resolves the filesystem context of every event, in evidence order: creation is
/// ordered by syscall entry, including unfinished calls, so a child can receive its
/// context before its first observed syscall.
pub fn resolve_context(
    p: &mut Parsed,
    initial_cwd: Option<&str>,
    actions: &[FsAction],
    timeline: &TaskTimeline,
)
    requires
        timeline@.wf(old(p).events@.len()),
    ensures
        ({
            let start = ResolveState {
                events: views::each(old(p).events@),
                warnings: views::each(old(p).warnings@),
                fs: FsView::start(timeline@.generations.len()),
            };
            let done = resolved_upto(
                start,
                timeline@,
                actions@,
                views::opt(initial_cwd),
                old(p).events@.len() as int,
            );
            &&& views::each(final(p).events@) == done.events
            &&& views::each(final(p).warnings@) == done.warnings
        }),
        final(p).lines == old(p).lines,
        final(p).timeline == old(p).timeline,
        final(p).events@.len() == old(p).events@.len(),
{
    let mut state: FsState = FsState::new(timeline.generation_count());
    let ghost start = state_of(*p, state);
    let ghost cwd = views::opt(initial_cwd);
    let n: usize = p.events.len();
    let order: &Vec<usize> = timeline.events_in_evidence_order();
    for i in 0..n
        invariant
            n == p.events@.len(),
            n == old(p).events@.len(),
            timeline@.wf(n as nat),
            order@ == timeline@.event_order,
            cwd == views::opt(initial_cwd),
            state_of(*p, state) == resolved_upto(start, timeline@, actions@, cwd, i as int),
            state@.tasks.len() == timeline@.generations.len(),
            state@.bounded(i + 1),
            p.lines == old(p).lines,
            p.timeline == old(p).timeline,
    {
        let index: usize = order[i];
        assert(index == timeline@.event_order[i as int]);
        let action: FsAction = if index < actions.len() {
            actions[index]
        } else {
            FsAction::Nothing
        };
        let ghost before = state_of(*p, state);
        proof {
            step_bounded(before, timeline@, index, action, cwd, i + 1);
        }
        let fs: usize = enter_event(p, &mut state, timeline, index, initial_cwd);
        assert(state@.has(fs) ==> state@.contexts[fs as int] is Some);
        apply_action(p, &mut state, timeline, index, fs, action);
        let spawned: Option<TaskGenerationId> = timeline.spawned_generation(index);
        let ends: bool = match action {
            FsAction::Spawn(relation) => spawned.is_none(),
            _ => false,
        };
        if !ends {
            apply_cwd_change(p, &mut state, index, fs);
            report_event(p, index);
        }
        assert(state_of(*p, state) == before.step(timeline@, index, action, cwd));
    }
}

} // verus!
