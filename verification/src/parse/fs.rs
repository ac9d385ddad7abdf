//! Filesystem contexts: which tasks share a working directory, what it was last
//! observed to be, and which observed changes leave it open.
use vstd::prelude::*;
use vstd::string::*;

use crate::parse::timeline::{TaskGenerationId, TaskGenerationOrigin};
use crate::text;
use crate::views;

verus! {

broadcast use crate::views::group_views;

/// A change of directory whose call has not returned yet.
pub struct PendingCwd {
    /// The line of the return.
    pub until: usize,
    /// The new directory.
    pub target: Option<String>,
    /// The event of the change.
    pub event: usize,
}

/// What a [`PendingCwd`] says.
pub struct PendingCwdView {
    /// The line of the return.
    pub until: usize,
    /// The new directory.
    pub target: Option<Seq<char>>,
    /// The event of the change.
    pub event: usize,
}

impl View for PendingCwd {
    type V = PendingCwdView;

    open spec fn view(&self) -> PendingCwdView {
        PendingCwdView { until: self.until, target: views::opt(self.target), event: self.event }
    }
}

/// A split between two contexts whose call has not returned yet.
#[derive(Clone, Copy, Debug, PartialEq, Eq, Structural)]
pub struct PendingTransition {
    /// The line of the return.
    pub until: usize,
    /// The event of the split.
    pub event: usize,
    /// The other context.
    pub peer: usize,
}

/// A copy of a context by a spawn that has not returned yet. It stays on the
/// source context: a child that runs before the parent's resumed return must not
/// inherit its own unresolved window.
#[derive(Clone, Copy, Debug, PartialEq, Eq, Structural)]
pub struct PendingForkSnapshot {
    /// The line up to which the copy is open.
    pub until: usize,
    /// The event of the spawn.
    pub spawn_event: usize,
    /// The context of the child.
    pub child_fs: usize,
}

/// What some tasks share.
pub struct FsContext {
    /// The last observed working directory.
    pub cwd: Option<String>,
    /// Whether the directory is not known to be right.
    pub uncertain: bool,
    /// The number of live tasks.
    pub members: u128,
    /// An open change of directory.
    pub pending_cwd: Option<PendingCwd>,
    /// An open split.
    pub pending_transition: Option<PendingTransition>,
    /// Open copies.
    pub pending_fork_snapshots: Vec<PendingForkSnapshot>,
}

/// What an [`FsContext`] says.
pub struct FsContextView {
    /// The last observed working directory.
    pub cwd: Option<Seq<char>>,
    /// Whether the directory is not known to be right.
    pub uncertain: bool,
    /// The number of live tasks.
    pub members: u128,
    /// An open change of directory.
    pub pending_cwd: Option<PendingCwdView>,
    /// An open split.
    pub pending_transition: Option<PendingTransition>,
    /// Open copies.
    pub pending_fork_snapshots: Seq<PendingForkSnapshot>,
}

impl View for FsContext {
    type V = FsContextView;

    open spec fn view(&self) -> FsContextView {
        FsContextView {
            cwd: views::opt(self.cwd),
            uncertain: self.uncertain,
            members: self.members,
            pending_cwd: views::opt(self.pending_cwd),
            pending_transition: self.pending_transition,
            pending_fork_snapshots: self.pending_fork_snapshots@,
        }
    }
}

/// The open copies that are still open at a line.
pub open spec fn open_snapshots(s: Seq<PendingForkSnapshot>, line: usize) -> Seq<
    PendingForkSnapshot,
> {
    s.filter(|p: PendingForkSnapshot| p.until > line)
}

impl FsContextView {
    /// A context of one task.
    pub open spec fn fresh(cwd: Option<Seq<char>>, uncertain: bool) -> FsContextView {
        FsContextView {
            cwd,
            uncertain,
            members: 1,
            pending_cwd: None,
            pending_transition: None,
            pending_fork_snapshots: Seq::empty(),
        }
    }

    /// The context once the calls that return by a line have returned.
    pub open spec fn settled(self, line: usize) -> FsContextView {
        let cwd_due = self.pending_cwd matches Some(p) && p.until <= line;
        let transition_due = self.pending_transition matches Some(p) && p.until <= line;
        FsContextView {
            cwd: if cwd_due && !self.uncertain {
                self.pending_cwd->0.target
            } else {
                self.cwd
            },
            pending_cwd: if cwd_due {
                None
            } else {
                self.pending_cwd
            },
            pending_transition: if transition_due {
                None
            } else {
                self.pending_transition
            },
            pending_fork_snapshots: open_snapshots(self.pending_fork_snapshots, line),
            ..self
        }
    }

    /// The context once nothing is known of its directory any more.
    pub open spec fn cleared(self) -> FsContextView {
        FsContextView {
            cwd: None,
            uncertain: true,
            pending_cwd: None,
            pending_transition: None,
            pending_fork_snapshots: Seq::empty(),
            ..self
        }
    }

    /// Whether a copy is still open at a line.
    pub open spec fn has_snapshot(self, line: usize) -> bool {
        exists|k: int|
            0 <= k < self.pending_fork_snapshots.len() && (
            #[trigger] self.pending_fork_snapshots[k]).until > line
    }

    /// Whether a change or a split is still open at a line.
    pub open spec fn has_change(self, line: usize) -> bool {
        (self.pending_cwd matches Some(p) && p.until > line) || (self.pending_transition matches Some(
            p,
        ) && p.until > line)
    }

    /// Whether the context is connected to another by a call that is still open
    /// at a line.
    pub open spec fn links(self, line: usize, other: usize) -> bool {
        ||| self.pending_transition matches Some(p) && p.until > line && p.peer == other
        ||| exists|k: int|
            0 <= k < self.pending_fork_snapshots.len() && (
            #[trigger] self.pending_fork_snapshots[k]).until > line
                && self.pending_fork_snapshots[k].child_fs == other
    }

    /// Whether an event belongs to a call that is still open at a line.
    pub open spec fn exposes(self, line: usize, event: usize) -> bool {
        ||| self.pending_cwd matches Some(p) && p.until > line && p.event == event
        ||| self.pending_transition matches Some(p) && p.until > line && p.event == event
        ||| exists|k: int|
            0 <= k < self.pending_fork_snapshots.len() && (
            #[trigger] self.pending_fork_snapshots[k]).until > line
                && self.pending_fork_snapshots[k].spawn_event == event
    }
}

/// A task.
#[derive(Clone, Copy, Debug, PartialEq, Eq, Structural)]
pub struct Task {
    /// Its context.
    pub fs: usize,
    /// Whether it has exited.
    pub exited: bool,
}

/// The contexts of a trace. A context keeps its number for good; one without
/// live tasks is gone.
pub struct FsState {
    tasks: Vec<Option<Task>>,
    contexts: Vec<Option<FsContext>>,
}

/// What an [`FsState`] says.
pub struct FsView {
    /// The task of each generation.
    pub tasks: Seq<Option<Task>>,
    /// The contexts by number.
    pub contexts: Seq<Option<FsContextView>>,
}

impl View for FsState {
    type V = FsView;

    closed spec fn view(&self) -> FsView {
        FsView { tasks: self.tasks@, contexts: views::opts(self.contexts@) }
    }
}

impl FsView {
    /// No context and no task, of `generations`.
    pub open spec fn start(generations: nat) -> FsView {
        FsView { tasks: Seq::new(generations, |i: int| None), contexts: Seq::empty() }
    }

    /// Whether a context is there.
    pub open spec fn has(self, fs: usize) -> bool {
        fs < self.contexts.len() && self.contexts[fs as int] is Some
    }

    /// A context that is there.
    pub open spec fn at(self, fs: usize) -> FsContextView {
        self.contexts[fs as int]->0
    }

    /// The state in which a context has changed.
    pub open spec fn with(self, fs: usize, context: FsContextView) -> FsView {
        FsView { contexts: self.contexts.update(fs as int, Some(context)), ..self }
    }

    /// The state in which a task has a context of its own.
    pub open spec fn new_context(
        self,
        cwd: Option<Seq<char>>,
        uncertain: bool,
        member: TaskGenerationId,
    ) -> FsView {
        FsView {
            contexts: self.contexts.push(Some(FsContextView::fresh(cwd, uncertain))),
            tasks: self.tasks.update(
                member.0 as int,
                Some(Task { fs: self.contexts.len() as usize, exited: false }),
            ),
        }
    }

    /// The state in which a context has one task less.
    pub open spec fn remove_member(self, fs: usize) -> FsView {
        if !self.has(fs) {
            self
        } else if self.at(fs).members <= 1 {
            FsView { contexts: self.contexts.update(fs as int, None), ..self }
        } else {
            self.with(fs, FsContextView { members: (self.at(fs).members - 1) as u128, ..self.at(fs) })
        }
    }

    /// Whether a generation is live in a context that is there.
    pub open spec fn settled_task(self, generation: TaskGenerationId) -> bool {
        self.tasks[generation.0 as int] matches Some(task) && !task.exited && self.has(task.fs)
    }

    /// The state in which a generation has a context.
    pub open spec fn ensure_task(
        self,
        generation: TaskGenerationId,
        origin: TaskGenerationOrigin,
        initial_cwd: Option<Seq<char>>,
    ) -> FsView {
        if self.settled_task(generation) {
            self
        } else if origin is Initial {
            self.new_context(initial_cwd, false, generation)
        } else {
            self.new_context(None, true, generation)
        }
    }

    /// The context of a generation, after [`FsView::ensure_task`].
    pub open spec fn fs_of(self, generation: TaskGenerationId) -> usize {
        self.tasks[generation.0 as int]->0.fs
    }

    /// The state in which the calls of a context that return by a line have returned.
    pub open spec fn settle(self, fs: usize, line: usize) -> FsView {
        if self.has(fs) {
            self.with(fs, self.at(fs).settled(line))
        } else {
            self
        }
    }

    /// The directory of a context, if it is certain and no change of it is open.
    pub open spec fn certain_cwd(self, fs: usize) -> Option<Seq<char>> {
        if self.has(fs) && !self.at(fs).uncertain && self.at(fs).pending_cwd is None && self.at(
            fs,
        ).pending_transition is None {
            self.at(fs).cwd
        } else {
            None
        }
    }

    /// Whether a change or a split of a context is still open at a line.
    pub open spec fn has_unsettled_change(self, fs: usize, line: usize) -> bool {
        self.has(fs) && self.at(fs).has_change(line)
    }

    /// Whether a copy of a context is still open at a line.
    pub open spec fn has_pending_fork_snapshot(self, fs: usize, line: usize) -> bool {
        self.has(fs) && self.at(fs).has_snapshot(line)
    }

    /// The state in which a context has one more open copy.
    pub open spec fn add_pending_fork_snapshot(
        self,
        source_fs: usize,
        snapshot: PendingForkSnapshot,
    ) -> FsView {
        if self.has(source_fs) {
            self.with(
                source_fs,
                FsContextView {
                    pending_fork_snapshots: self.at(source_fs).pending_fork_snapshots.push(snapshot),
                    ..self.at(source_fs)
                },
            )
        } else {
            self
        }
    }

    /// What a copy of a context starts with.
    pub open spec fn snapshot(self, fs: usize) -> (Option<Seq<char>>, bool) {
        if self.has(fs) {
            (self.at(fs).cwd, self.at(fs).uncertain)
        } else {
            (None, true)
        }
    }

    /// Whether the directory of a context is not known to be right.
    pub open spec fn is_uncertain(self, fs: usize) -> bool {
        self.has(fs) ==> self.at(fs).uncertain
    }

    /// The context of a live generation.
    pub open spec fn task_fs(self, generation: TaskGenerationId) -> Option<usize> {
        match self.tasks[generation.0 as int] {
            Some(task) if !task.exited => Some(task.fs),
            _ => None,
        }
    }

    /// Whether calls that are open at a line connect `a` to `b` directly.
    pub open spec fn linked(self, line: usize, a: usize, b: usize) -> bool {
        self.has(a) && self.at(a).links(line, b)
    }

    /// Whether calls that are open at a line connect `first` to `other` in at most
    /// `steps` steps.
    pub open spec fn reaches(self, line: usize, first: usize, other: usize, steps: nat) -> bool
        decreases steps,
    {
        if steps == 0 {
            first == other
        } else {
            ||| self.reaches(line, first, other, (steps - 1) as nat)
            ||| exists|mid: usize|
                self.reaches(line, first, mid, (steps - 1) as nat) && #[trigger] self.linked(
                    line,
                    mid,
                    other,
                )
        }
    }

    /// Whether calls that are open at a line connect `first` to `other`.
    pub open spec fn connected(self, line: usize, first: usize, other: usize) -> bool {
        exists|steps: nat| self.reaches(line, first, other, steps)
    }

    /// The state in which nothing is known of the contexts connected to `first`.
    pub open spec fn invalidate(self, first: usize, line: usize) -> FsView {
        FsView {
            contexts: Seq::new(
                self.contexts.len(),
                |i: int|
                    if self.contexts[i] is Some && self.connected(line, first, i as usize) {
                        Some(self.contexts[i]->0.cleared())
                    } else {
                        self.contexts[i]
                    },
            ),
            ..self
        }
    }

    /// Whether an event belongs to an open call of a context connected to `first`.
    pub open spec fn exposed(self, first: usize, line: usize, event: usize) -> bool {
        exists|fs: usize| #[trigger]
            self.has(fs) && self.connected(line, first, fs) && self.at(fs).exposes(line, event)
    }

    /// The state in which nothing is known of any context.
    pub open spec fn invalidate_all(self) -> FsView {
        FsView {
            contexts: Seq::new(
                self.contexts.len(),
                |i: int|
                    match self.contexts[i] {
                        Some(c) => Some(c.cleared()),
                        None => None,
                    },
            ),
            ..self
        }
    }

    /// Whether an event belongs to an open call of any context.
    pub open spec fn exposed_anywhere(self, line: usize, event: usize) -> bool {
        exists|fs: usize| #[trigger] self.has(fs) && self.at(fs).exposes(line, event)
    }

    /// The state in which a child shares a context.
    pub open spec fn replace_child(self, child: TaskGenerationId, fs: usize) -> FsView {
        let moved = FsView {
            tasks: self.tasks.update(child.0 as int, Some(Task { fs, exited: false })),
            ..self
        };
        let left = match self.tasks[child.0 as int] {
            Some(was) if !was.exited && was.fs != fs => moved.remove_member(was.fs),
            _ => moved,
        };
        if left.has(fs) {
            left.with(
                fs,
                FsContextView { members: (left.at(fs).members + 1) as u128, ..left.at(fs) },
            )
        } else {
            left
        }
    }

    /// The state in which a child has a context of its own.
    pub open spec fn private_child(
        self,
        child: TaskGenerationId,
        cwd: Option<Seq<char>>,
        uncertain: bool,
    ) -> FsView {
        let gone = FsView { tasks: self.tasks.update(child.0 as int, None), ..self };
        let left = match self.tasks[child.0 as int] {
            Some(was) if !was.exited => gone.remove_member(was.fs),
            _ => gone,
        };
        left.new_context(cwd, uncertain, child)
    }

    /// The state in which a generation has exited.
    pub open spec fn exit(self, generation: TaskGenerationId) -> FsView {
        match self.tasks[generation.0 as int] {
            Some(task) if !task.exited => FsView {
                tasks: self.tasks.update(
                    generation.0 as int,
                    Some(Task { exited: true, ..task }),
                ),
                ..self
            }.remove_member(task.fs),
            _ => self,
        }
    }

    /// The state in which a split of a context is open.
    pub open spec fn with_transition(self, fs: usize, pending: PendingTransition) -> FsView {
        if self.has(fs) {
            self.with(fs, FsContextView { pending_transition: Some(pending), ..self.at(fs) })
        } else {
            self
        }
    }

    /// The state in which a context has changed to a directory: from the return of
    /// the call on, where that comes later and the context is certain.
    pub open spec fn change_cwd(
        self,
        fs: usize,
        start: usize,
        end: usize,
        target: Option<Seq<char>>,
        event: usize,
    ) -> FsView {
        if !self.has(fs) {
            self
        } else if end > start && !self.at(fs).uncertain {
            self.with(
                fs,
                FsContextView {
                    pending_cwd: Some(PendingCwdView { until: end, target, event }),
                    ..self.at(fs)
                },
            )
        } else {
            self.with(fs, FsContextView { cwd: target, ..self.at(fs) })
        }
    }

    /// No context has more than `most` live tasks.
    pub open spec fn bounded(self, most: int) -> bool {
        forall|i: int|
            0 <= i < self.contexts.len() && (#[trigger] self.contexts[i]) is Some
                ==> self.contexts[i]->0.members <= most
    }
}

/// Gives the open copies that are still open at a line.
fn retain_open(v: &Vec<PendingForkSnapshot>, line: usize) -> (r: Vec<PendingForkSnapshot>)
    ensures
        r@ == open_snapshots(v@, line),
{
    let mut r: Vec<PendingForkSnapshot> = Vec::new();
    let ghost keep = |p: PendingForkSnapshot| p.until > line;
    for i in 0..v.len()
        invariant
            keep == (|p: PendingForkSnapshot| p.until > line),
            r@ == v@.take(i as int).filter(keep),
    {
        assert(v@.take(i + 1) == v@.take(i as int).push(v@[i as int]));
        assert(v@.take(i + 1).drop_last() == v@.take(i as int));
        proof {
            reveal(Seq::filter);
        }
        if v[i].until > line {
            r.push(v[i]);
        }
    }
    assert(v@.take(v@.len() as int) == v@);
    r
}

impl FsState {
    /// No context and no task, of `generations`.
    pub fn new(generations: usize) -> (r: FsState)
        ensures
            r@ == FsView::start(generations as nat),
    {
        let mut tasks: Vec<Option<Task>> = Vec::new();
        for i in 0..generations
            invariant
                tasks@ == Seq::new(i as nat, |j: int| None::<Task>),
        {
            tasks.push(None);
            assert(tasks@ =~= Seq::new((i + 1) as nat, |j: int| None::<Task>));
        }
        let r = FsState { tasks, contexts: Vec::new() };
        assert(r@.contexts =~= Seq::empty());
        r
    }

    /// Gives a task a context of its own.
    pub fn new_context(
        &mut self,
        cwd: Option<String>,
        uncertain: bool,
        member: TaskGenerationId,
    ) -> (id: usize)
        requires
            member.0 < old(self)@.tasks.len(),
        ensures
            id == old(self)@.contexts.len(),
            final(self)@ == old(self)@.new_context(views::opt(cwd), uncertain, member),
    {
        let id: usize = self.contexts.len();
        let context = FsContext {
            cwd,
            uncertain,
            members: 1,
            pending_cwd: None,
            pending_transition: None,
            pending_fork_snapshots: Vec::new(),
        };
        assert(context@ == FsContextView::fresh(views::opt(cwd), uncertain));
        self.contexts.push(Some(context));
        self.tasks.set(member.0, Some(Task { fs: id, exited: false }));
        id
    }

    /// Takes one task out of a context, which is gone without tasks.
    pub fn remove_member(&mut self, fs: usize)
        ensures
            final(self)@ == old(self)@.remove_member(fs),
    {
        if fs < self.contexts.len() {
            let ghost before = self@;
            match self.contexts[fs].take() {
                Some(mut context) => {
                    if context.members > 1 {
                        context.members = context.members - 1;
                        self.contexts.set(fs, Some(context));
                    }
                },
                None => {},
            }
            assert(self@.contexts =~= before.remove_member(fs).contexts);
        }
    }

    /// Gives a generation a context, if it has none, and returns it. Only the first
    /// task of the trace starts in a known directory.
    pub fn ensure_task(
        &mut self,
        generation: TaskGenerationId,
        origin: TaskGenerationOrigin,
        initial_cwd: Option<&str>,
    ) -> (fs: usize)
        requires
            generation.0 < old(self)@.tasks.len(),
        ensures
            final(self)@ == old(self)@.ensure_task(generation, origin, views::opt(initial_cwd)),
            fs == final(self)@.fs_of(generation),
    {
        match self.tasks[generation.0] {
            Some(task) => {
                if !task.exited && task.fs < self.contexts.len() && self.contexts[task.fs].is_some() {
                    return task.fs;
                }
            },
            None => {},
        }
        let known: usize = self.contexts.len();
        match origin {
            TaskGenerationOrigin::Initial { event } => {
                let cwd: Option<String> = match initial_cwd {
                    Some(cwd) => Some(cwd.to_owned()),
                    None => None,
                };
                self.new_context(cwd, false, generation)
            },
            _ => self.new_context(None, true, generation),
        }
    }

    /// Completes the calls of a context that return by a line.
    pub fn settle(&mut self, fs: usize, line: usize)
        ensures
            final(self)@ == old(self)@.settle(fs, line),
    {
        if fs < self.contexts.len() {
            let ghost before = self@;
            match self.contexts[fs].take() {
                Some(mut context) => {
                    let ghost was = context@;
                    let cwd_due: bool = match &context.pending_cwd {
                        Some(pending) => pending.until <= line,
                        None => false,
                    };
                    if cwd_due {
                        match context.pending_cwd.take() {
                            Some(pending) => {
                                if !context.uncertain {
                                    context.cwd = pending.target;
                                }
                            },
                            None => {},
                        }
                    }
                    let transition_due: bool = match &context.pending_transition {
                        Some(pending) => pending.until <= line,
                        None => false,
                    };
                    if transition_due {
                        context.pending_transition = None;
                    }
                    context.pending_fork_snapshots = retain_open(
                        &context.pending_fork_snapshots,
                        line,
                    );
                    assert(context@ == was.settled(line));
                    self.contexts.set(fs, Some(context));
                },
                None => {},
            }
            assert(self@.contexts =~= before.settle(fs, line).contexts);
        }
    }

    /// Settles a context, and gives its directory if it is certain.
    pub fn cwd_before(&mut self, fs: usize, line: usize) -> (r: Option<String>)
        ensures
            final(self)@ == old(self)@.settle(fs, line),
            views::opt(r) == final(self)@.certain_cwd(fs),
    {
        self.settle(fs, line);
        if fs < self.contexts.len() {
            match &self.contexts[fs] {
                Some(context) => {
                    if !context.uncertain && context.pending_cwd.is_none()
                        && context.pending_transition.is_none() {
                        text::copy_text_option(&context.cwd)
                    } else {
                        None
                    }
                },
                None => None,
            }
        } else {
            None
        }
    }

    /// Whether a change or a split of a context is still open at a line.
    pub fn has_unsettled_change(&self, fs: usize, line: usize) -> (r: bool)
        ensures
            r == self@.has_unsettled_change(fs, line),
    {
        if fs < self.contexts.len() {
            match &self.contexts[fs] {
                Some(context) => {
                    let cwd: bool = match &context.pending_cwd {
                        Some(pending) => pending.until > line,
                        None => false,
                    };
                    let transition: bool = match &context.pending_transition {
                        Some(pending) => pending.until > line,
                        None => false,
                    };
                    cwd || transition
                },
                None => false,
            }
        } else {
            false
        }
    }

    /// Whether a copy of a context is still open at a line.
    pub fn has_pending_fork_snapshot(&self, fs: usize, line: usize) -> (r: bool)
        ensures
            r == self@.has_pending_fork_snapshot(fs, line),
    {
        if fs < self.contexts.len() {
            match &self.contexts[fs] {
                Some(context) => {
                    let ghost c = self@.at(fs);
                    for i in 0..context.pending_fork_snapshots.len()
                        invariant
                            c.pending_fork_snapshots == context.pending_fork_snapshots@,
                            c == self@.at(fs),
                            self@.has(fs),
                            forall|k: int|
                                0 <= k < i ==> (#[trigger] c.pending_fork_snapshots[k]).until
                                    <= line,
                    {
                        if context.pending_fork_snapshots[i].until > line {
                            assert(c.pending_fork_snapshots[i as int].until > line);
                            return true;
                        }
                    }
                    false
                },
                None => false,
            }
        } else {
            false
        }
    }

    /// Adds an open copy to a context.
    pub fn add_pending_fork_snapshot(
        &mut self,
        source_fs: usize,
        until: usize,
        spawn_event: usize,
        child_fs: usize,
    )
        ensures
            final(self)@ == old(self)@.add_pending_fork_snapshot(
                source_fs,
                PendingForkSnapshot { until, spawn_event, child_fs },
            ),
    {
        if source_fs < self.contexts.len() {
            let ghost before = self@;
            match self.contexts[source_fs].take() {
                Some(mut context) => {
                    context.pending_fork_snapshots.push(
                        PendingForkSnapshot { until, spawn_event, child_fs },
                    );
                    self.contexts.set(source_fs, Some(context));
                },
                None => {},
            }
            assert(self@.contexts =~= before.add_pending_fork_snapshot(
                source_fs,
                PendingForkSnapshot { until, spawn_event, child_fs },
            ).contexts);
        }
    }

    /// What a copy of a context starts with.
    pub fn snapshot(&self, fs: usize) -> (r: (Option<String>, bool))
        ensures
            (views::opt(r.0), r.1) == self@.snapshot(fs),
    {
        if fs < self.contexts.len() {
            match &self.contexts[fs] {
                Some(context) => (text::copy_text_option(&context.cwd), context.uncertain),
                None => (None, true),
            }
        } else {
            (None, true)
        }
    }

    /// Whether the directory of a context is not known to be right.
    pub fn is_uncertain(&self, fs: usize) -> (r: bool)
        ensures
            r == self@.is_uncertain(fs),
    {
        if fs < self.contexts.len() {
            match &self.contexts[fs] {
                Some(context) => context.uncertain,
                None => true,
            }
        } else {
            true
        }
    }

    /// Whether a context is there.
    pub fn has_context(&self, fs: usize) -> (r: bool)
        ensures
            r == self@.has(fs),
    {
        fs < self.contexts.len() && self.contexts[fs].is_some()
    }

    /// The context of a live generation.
    pub fn task_fs(&self, generation: TaskGenerationId) -> (r: Option<usize>)
        requires
            generation.0 < self@.tasks.len(),
        ensures
            r == self@.task_fs(generation),
    {
        match self.tasks[generation.0] {
            Some(task) => if !task.exited {
                Some(task.fs)
            } else {
                None
            },
            None => None,
        }
    }

    /// Makes a child share a context.
    pub fn replace_child(&mut self, child: TaskGenerationId, fs: usize)
        requires
            child.0 < old(self)@.tasks.len(),
            old(self)@.has(fs) ==> old(self)@.at(fs).members < u128::MAX,
        ensures
            final(self)@ == old(self)@.replace_child(child, fs),
    {
        let was: Option<Task> = self.tasks[child.0];
        self.tasks.set(child.0, Some(Task { fs, exited: false }));
        match was {
            Some(task) => {
                if !task.exited && task.fs != fs {
                    self.remove_member(task.fs);
                }
            },
            None => {},
        }
        if fs < self.contexts.len() {
            let ghost before = self@;
            assert(before.has(fs) ==> before.at(fs) == old(self)@.at(fs) && old(self)@.has(fs));
            match self.contexts[fs].take() {
                Some(mut context) => {
                    assert(context@ == before.at(fs));
                    context.members = context.members + 1;
                    self.contexts.set(fs, Some(context));
                },
                None => {},
            }
            assert(self@.contexts =~= old(self)@.replace_child(child, fs).contexts);
        }
    }

    /// Gives a child a context of its own.
    pub fn private_child(
        &mut self,
        child: TaskGenerationId,
        cwd: Option<String>,
        uncertain: bool,
    ) -> (fs: usize)
        requires
            child.0 < old(self)@.tasks.len(),
        ensures
            final(self)@ == old(self)@.private_child(child, views::opt(cwd), uncertain),
            fs == final(self)@.fs_of(child),
            fs == old(self)@.contexts.len(),
    {
        let was: Option<Task> = self.tasks[child.0];
        self.tasks.set(child.0, None);
        match was {
            Some(task) => {
                if !task.exited {
                    self.remove_member(task.fs);
                }
            },
            None => {},
        }
        self.new_context(cwd, uncertain, child)
    }

    /// Ends a generation.
    pub fn exit(&mut self, generation: TaskGenerationId)
        requires
            generation.0 < old(self)@.tasks.len(),
        ensures
            final(self)@ == old(self)@.exit(generation),
    {
        match self.tasks[generation.0] {
            Some(task) => {
                if !task.exited {
                    self.tasks.set(generation.0, Some(Task { fs: task.fs, exited: true }));
                    self.remove_member(task.fs);
                }
            },
            None => {},
        }
    }

    /// Opens a split of a context.
    pub fn open_transition(&mut self, fs: usize, pending: PendingTransition)
        ensures
            final(self)@ == old(self)@.with_transition(fs, pending),
    {
        if fs < self.contexts.len() {
            let ghost before = self@;
            match self.contexts[fs].take() {
                Some(mut context) => {
                    context.pending_transition = Some(pending);
                    self.contexts.set(fs, Some(context));
                },
                None => {},
            }
            assert(self@.contexts =~= before.with_transition(fs, pending).contexts);
        }
    }

    /// Changes the directory of a context.
    pub fn change_cwd(
        &mut self,
        fs: usize,
        start: usize,
        end: usize,
        target: Option<String>,
        event: usize,
    )
        ensures
            final(self)@ == old(self)@.change_cwd(fs, start, end, views::opt(target), event),
    {
        if fs < self.contexts.len() {
            let ghost before = self@;
            let ghost wanted = views::opt(target);
            match self.contexts[fs].take() {
                Some(mut context) => {
                    if end > start && !context.uncertain {
                        context.pending_cwd = Some(PendingCwd { until: end, target, event });
                    } else {
                        context.cwd = target;
                    }
                    self.contexts.set(fs, Some(context));
                },
                None => {},
            }
            assert(self@.contexts =~= before.change_cwd(fs, start, end, wanted, event).contexts);
        }
    }

    /// Clears one context, and collects the events that it exposes at a line and
    /// the contexts that it is linked to.
    fn clear_context(context: &mut FsContext, line: usize, events: &mut Vec<usize>, todo: &mut Vec<usize>)
        ensures
            final(context)@ == old(context)@.cleared(),
            forall|e: usize| #[trigger]
                final(events)@.contains(e) <==> old(events)@.contains(e) || old(context)@.exposes(
                    line,
                    e,
                ),
            forall|b: usize| #[trigger]
                final(todo)@.contains(b) <==> old(todo)@.contains(b) || old(context)@.links(
                    line,
                    b,
                ),
    {
        let ghost c = context@;
        let ghost e0 = events@;
        let ghost t0 = todo@;
        match context.pending_cwd.take() {
            Some(pending) => {
                if pending.until > line {
                    events.push(pending.event);
                }
            },
            None => {},
        }
        proof {
            lemma_push_contains();
        }
        match context.pending_transition.take() {
            Some(pending) => {
                if pending.until > line {
                    events.push(pending.event);
                    todo.push(pending.peer);
                }
            },
            None => {},
        }
        let ghost e1 = events@;
        let ghost t1 = todo@;
        let n: usize = context.pending_fork_snapshots.len();
        for i in 0..n
            invariant
                n == context.pending_fork_snapshots@.len(),
                context.pending_fork_snapshots@ == c.pending_fork_snapshots,
                forall|e: usize| #[trigger]
                    events@.contains(e) <==> e1.contains(e) || exists|k: int|
                        0 <= k < i && (#[trigger] c.pending_fork_snapshots[k]).until > line
                            && c.pending_fork_snapshots[k].spawn_event == e,
                forall|b: usize| #[trigger]
                    todo@.contains(b) <==> t1.contains(b) || exists|k: int|
                        0 <= k < i && (#[trigger] c.pending_fork_snapshots[k]).until > line
                            && c.pending_fork_snapshots[k].child_fs == b,
                context.members == c.members,
        {
            proof {
                lemma_push_contains();
            }
            let pending: PendingForkSnapshot = context.pending_fork_snapshots[i];
            assert(pending == c.pending_fork_snapshots[i as int]);
            if pending.until > line {
                events.push(pending.spawn_event);
                todo.push(pending.child_fs);
            }
        }
        context.pending_fork_snapshots = Vec::new();
        context.cwd = None;
        context.uncertain = true;
        assert(context@.pending_fork_snapshots =~= Seq::empty());
    }
}

/// What a sequence holds after a `push`.
proof fn lemma_push_contains()
    ensures
        forall|s: Seq<usize>, x: usize, y: usize| #[trigger]
            s.push(x).contains(y) <==> s.contains(y) || x == y,
{
    assert forall|s: Seq<usize>, x: usize, y: usize| #[trigger]
        s.push(x).contains(y) <==> s.contains(y) || x == y by {
        if s.contains(y) {
            let i = choose|i: int| 0 <= i < s.len() && s[i] == y;
            assert(s.push(x)[i] == y);
        }
        if x == y {
            assert(s.push(x)[s.len() as int] == y);
        }
    }
}

/// The number of entries that are not set.
spec fn unset(s: Seq<bool>) -> nat
    decreases s.len(),
{
    if s.len() == 0 {
        0
    } else {
        unset(s.drop_last()) + (if s.last() {
            0nat
        } else {
            1nat
        })
    }
}

/// Setting an entry leaves one entry less that is not set.
proof fn unset_decreases(s: Seq<bool>, i: int)
    requires
        0 <= i < s.len(),
        !s[i],
    ensures
        unset(s.update(i, true)) < unset(s),
    decreases s.len(),
{
    if i == s.len() - 1 {
        assert(s.update(i, true).drop_last() =~= s.drop_last());
    } else {
        unset_decreases(s.drop_last(), i);
        assert(s.update(i, true).drop_last() =~= s.drop_last().update(i, true));
    }
}

/// A set of contexts that holds the first one and is closed under links holds
/// every context connected to the first.
proof fn connected_within(st: FsView, line: usize, first: usize, seen: Seq<bool>, other: usize, steps: nat)
    requires
        seen.len() == st.contexts.len(),
        first < seen.len() ==> seen[first as int],
        forall|a: usize, b: usize|
            a < seen.len() && seen[a as int] && b < seen.len() && #[trigger] st.linked(line, a, b)
                ==> seen[b as int],
        st.reaches(line, first, other, steps),
        other < seen.len(),
    ensures
        seen[other as int],
    decreases steps,
{
    if steps > 0 {
        if st.reaches(line, first, other, (steps - 1) as nat) {
            connected_within(st, line, first, seen, other, (steps - 1) as nat);
        } else {
            let mid = choose|mid: usize|
                st.reaches(line, first, mid, (steps - 1) as nat) && #[trigger] st.linked(
                    line,
                    mid,
                    other,
                );
            connected_within(st, line, first, seen, mid, (steps - 1) as nat);
        }
    }
}

/// A link leads on from a connected context.
proof fn connected_step(st: FsView, line: usize, first: usize, mid: usize, other: usize)
    requires
        st.connected(line, first, mid),
        st.linked(line, mid, other),
    ensures
        st.connected(line, first, other),
{
    let steps = choose|steps: nat| st.reaches(line, first, mid, steps);
    assert(st.reaches(line, first, other, steps + 1));
}

impl FsState {
    /// Marks only the connected contexts uncertain. The returned indices are the
    /// earlier events whose context claim became ambiguous later.
    #[verifier::rlimit(40)]
    pub fn invalidate(&mut self, first: usize, line: usize) -> (events: Vec<usize>)
        ensures
            final(self)@ == old(self)@.invalidate(first, line),
            forall|e: usize| #[trigger]
                events@.contains(e) <==> old(self)@.exposed(first, line, e),
    {
        let n: usize = self.contexts.len();
        let ghost st = self@;
        let mut seen: Vec<bool> = Vec::new();
        for i in 0..n
            invariant
                seen@.len() == i,
                forall|j: int| 0 <= j < i ==> !#[trigger] seen@[j],
        {
            seen.push(false);
        }
        let mut events: Vec<usize> = Vec::new();
        let mut todo: Vec<usize> = Vec::new();
        todo.push(first);
        assert(st.reaches(line, first, first, 0));
        assert(todo@[0] == first);
        while todo.len() > 0
            invariant
                n == st.contexts.len(),
                n == seen@.len(),
                n == self.contexts@.len(),
                self@.tasks == st.tasks,
                forall|i: int|
                    0 <= i < n ==> #[trigger] self@.contexts[i] == (if seen@[i]
                        && st.contexts[i] is Some {
                        Some(st.contexts[i]->0.cleared())
                    } else {
                        st.contexts[i]
                    }),
                forall|i: usize|
                    i < n && #[trigger] seen@[i as int] ==> st.connected(line, first, i),
                forall|t: usize| #[trigger] todo@.contains(t) ==> st.connected(line, first, t),
                first < n ==> seen@[first as int] || todo@.contains(first),
                forall|a: usize, b: usize|
                    a < n && seen@[a as int] && b < n && #[trigger] st.linked(line, a, b)
                        ==> seen@[b as int] || todo@.contains(b),
                forall|e: usize| #[trigger]
                    events@.contains(e) <==> exists|fs: usize| #[trigger]
                        st.has(fs) && seen@[fs as int] && st.at(fs).exposes(line, e),
            decreases unset(seen@), todo@.len(),
        {
            let ghost t0 = todo@;
            let ghost e0 = events@;
            let ghost s0 = seen@;
            let ghost c0 = self@;
            let fs: usize = match todo.pop() {
                Some(fs) => fs,
                None => 0,
            };
            proof {
                assert(t0 == todo@.push(fs));
                lemma_push_contains();
                assert(t0.contains(fs));
                assert(st.connected(line, first, fs));
                assert forall|t: usize| #[trigger] todo@.contains(t) implies st.connected(
                    line,
                    first,
                    t,
                ) by {
                    assert(todo@.push(fs).contains(t));
                }
                assert forall|t: usize| t0.contains(t) && t != fs implies #[trigger] todo@.contains(
                    t,
                ) by {
                    assert(todo@.push(fs).contains(t));
                }
            }
            if fs < n && !seen[fs] {
                seen.set(fs, true);
                proof {
                    unset_decreases(s0, fs as int);
                }
                assert(self@.contexts[fs as int] == st.contexts[fs as int]);
                match self.contexts[fs].take() {
                    Some(mut context) => {
                        assert(context@ == st.at(fs));
                        Self::clear_context(&mut context, line, &mut events, &mut todo);
                        self.contexts.set(fs, Some(context));
                        proof {
                            assert(st.has(fs));
                            assert forall|b: usize| st.at(fs).links(line, b) implies st.connected(
                                line,
                                first,
                                b,
                            ) by {
                                assert(st.linked(line, fs, b));
                                connected_step(st, line, first, fs, b);
                            }
                            assert forall|e: usize| #[trigger]
                                events@.contains(e) <==> exists|x: usize| #[trigger]
                                    st.has(x) && seen@[x as int] && st.at(x).exposes(line, e) by {
                                if events@.contains(e) {
                                    if e0.contains(e) {
                                        let x = choose|x: usize| #[trigger]
                                            st.has(x) && s0[x as int] && st.at(x).exposes(line, e);
                                        assert(st.has(x) && seen@[x as int]);
                                    } else {
                                        assert(st.has(fs) && seen@[fs as int]);
                                    }
                                }
                            }
                        }
                    },
                    None => {
                        proof {
                            assert(!st.has(fs));
                            assert forall|e: usize| #[trigger]
                                events@.contains(e) <==> exists|x: usize| #[trigger]
                                    st.has(x) && seen@[x as int] && st.at(x).exposes(line, e) by {
                                if events@.contains(e) {
                                    let x = choose|x: usize| #[trigger]
                                        st.has(x) && s0[x as int] && st.at(x).exposes(line, e);
                                    assert(st.has(x) && seen@[x as int]);
                                }
                            }
                        }
                    },
                }
            }
        }
        proof {
            assert(todo@ =~= Seq::empty());
            assert forall|i: usize| i < n implies (#[trigger] seen@[i as int]) == st.connected(
                line,
                first,
                i,
            ) by {
                if st.connected(line, first, i) {
                    let steps = choose|steps: nat| st.reaches(line, first, i, steps);
                    connected_within(st, line, first, seen@, i, steps);
                }
            }
            assert forall|i: int| 0 <= i < n implies #[trigger] self@.contexts[i] == st.invalidate(
                first,
                line,
            ).contexts[i] by {
                assert(seen@[i as usize as int] == st.connected(line, first, i as usize));
            }
            assert(self@.contexts =~= st.invalidate(first, line).contexts);
            assert forall|e: usize| #[trigger] events@.contains(e) <==> st.exposed(first, line, e) by {
                if events@.contains(e) {
                    let x = choose|x: usize| #[trigger]
                        st.has(x) && seen@[x as int] && st.at(x).exposes(line, e);
                    assert(st.has(x) && st.connected(line, first, x));
                }
                if st.exposed(first, line, e) {
                    let x = choose|x: usize| #[trigger]
                        st.has(x) && st.connected(line, first, x) && st.at(x).exposes(line, e);
                    assert(st.has(x) && seen@[x as int]);
                }
            }
        }
        events
    }
}

/// Appends a list to another.
fn extend(events: &mut Vec<usize>, more: &Vec<usize>)
    ensures
        forall|e: usize| #[trigger]
            final(events)@.contains(e) <==> old(events)@.contains(e) || more@.contains(e),
{
    let ghost was = events@;
    for i in 0..more.len()
        invariant
            events@ == was + more@.take(i as int),
    {
        events.push(more[i]);
        assert(events@ =~= was + more@.take(i + 1));
    }
    proof {
        assert(more@.take(more@.len() as int) == more@);
        assert forall|e: usize| #[trigger]
            events@.contains(e) <==> was.contains(e) || more@.contains(e) by {
            if was.contains(e) {
                let i = choose|i: int| 0 <= i < was.len() && was[i] == e;
                assert(events@[i] == e);
            }
            if more@.contains(e) {
                let i = choose|i: int| 0 <= i < more@.len() && more@[i] == e;
                assert(events@[was.len() + i] == e);
            }
            if events@.contains(e) {
                let i = choose|i: int| 0 <= i < events@.len() && events@[i] == e;
                if i >= was.len() {
                    assert(more@[i - was.len()] == e);
                } else {
                    assert(was[i] == e);
                }
            }
        }
    }
}

impl FsState {
    /// Marks every context uncertain. The returned indices are the events of the
    /// calls that are open at a line.
    #[verifier::rlimit(40)]
    pub fn invalidate_all(&mut self, line: usize) -> (events: Vec<usize>)
        ensures
            final(self)@ == old(self)@.invalidate_all(),
            forall|e: usize| #[trigger]
                events@.contains(e) <==> old(self)@.exposed_anywhere(line, e),
    {
        let n: usize = self.contexts.len();
        let ghost st = self@;
        let ghost mut done: Seq<bool> = Seq::new(n as nat, |i: int| false);
        let mut events: Vec<usize> = Vec::new();
        for i in 0..n
            invariant
                n == st.contexts.len(),
                n == done.len(),
                n == self@.contexts.len(),
                n == self.contexts@.len(),
                self@.tasks == st.tasks,
                forall|j: int|
                    #![trigger self@.contexts[j]]
                    #![trigger done[j]]
                    0 <= j < n ==> self@.contexts[j] == (if done[j] && st.contexts[j] is Some {
                        Some(st.contexts[j]->0.cleared())
                    } else {
                        st.contexts[j]
                    }),
                forall|j: int| 0 <= j < i && st.contexts[j] is Some ==> #[trigger] done[j],
                forall|e: usize| #[trigger]
                    events@.contains(e) <==> exists|x: usize| #[trigger]
                        st.has(x) && done[x as int] && st.at(x).exposes(line, e),
        {
            let ghost now = self@;
            assert(now.contexts[i as int] == views::opt(self.contexts@[i as int]));
            if self.contexts[i].is_some() {
                let more: Vec<usize> = self.invalidate(i, line);
                let ghost was = events@;
                extend(&mut events, &more);
                assert(self@.contexts.len() == self.contexts@.len());
                proof {
                    let old_done = done;
                    done = Seq::new(
                        n as nat,
                        |j: int| old_done[j] || now.connected(line, i, j as usize),
                    );
                    assert(now.reaches(line, i, i, 0));
                    assert forall|j: int|
                        #![trigger self@.contexts[j]]
                        #![trigger done[j]]
                        0 <= j < n implies self@.contexts[j] == (if done[j] && st.contexts[j] is Some {
                        Some(st.contexts[j]->0.cleared())
                    } else {
                        st.contexts[j]
                    }) by {
                        assert(now.contexts[j] == (if old_done[j] && st.contexts[j] is Some {
                            Some(st.contexts[j]->0.cleared())
                        } else {
                            st.contexts[j]
                        }));
                    }
                    assert forall|e: usize| #[trigger]
                        events@.contains(e) <==> exists|x: usize| #[trigger]
                            st.has(x) && done[x as int] && st.at(x).exposes(line, e) by {
                        if was.contains(e) {
                            let x = choose|x: usize| #[trigger]
                                st.has(x) && old_done[x as int] && st.at(x).exposes(line, e);
                            assert(st.has(x) && done[x as int]);
                        }
                        if more@.contains(e) {
                            assert(now.exposed(i, line, e));
                            let x = choose|x: usize| #[trigger]
                                now.has(x) && now.connected(line, i, x) && now.at(x).exposes(
                                    line,
                                    e,
                                );
                            assert(now.contexts[x as int] is Some);
                            assert(st.has(x) && done[x as int]);
                        }
                        if exists|x: usize| #[trigger]
                            st.has(x) && done[x as int] && st.at(x).exposes(line, e) {
                            let x = choose|x: usize| #[trigger]
                                st.has(x) && done[x as int] && st.at(x).exposes(line, e);
                            if old_done[x as int] {
                                assert(was.contains(e));
                            } else {
                                assert(now.contexts[x as int] == st.contexts[x as int]);
                                assert(now.has(x) && now.connected(line, i, x));
                                assert(now.exposed(i, line, e));
                                assert(more@.contains(e));
                            }
                        }
                    }
                }
            } else {
                assert(st.contexts[i as int] is None);
            }
        }
        proof {
            assert(self@.contexts =~= st.invalidate_all().contexts);
            assert forall|e: usize| #[trigger]
                events@.contains(e) <==> st.exposed_anywhere(line, e) by {
                if st.exposed_anywhere(line, e) {
                    let x = choose|x: usize| #[trigger] st.has(x) && st.at(x).exposes(line, e);
                    assert(st.has(x) && done[x as int]);
                }
            }
        }
        events
    }
}

impl FsView {
    /// A context of one more task keeps the bound on live tasks.
    pub proof fn new_context_bounded(
        self,
        cwd: Option<Seq<char>>,
        uncertain: bool,
        member: TaskGenerationId,
        most: int,
    )
        requires
            self.bounded(most),
            most >= 1,
        ensures
            self.new_context(cwd, uncertain, member).bounded(most),
    {
        let out = self.new_context(cwd, uncertain, member);
        assert forall|i: int|
            0 <= i < out.contexts.len() && (#[trigger] out.contexts[i]) is Some implies out.contexts[i]->0.members
            <= most by {
            if i < self.contexts.len() {
                assert(out.contexts[i] == self.contexts[i]);
            }
        }
    }

    /// A task less keeps the bound on live tasks.
    pub proof fn remove_member_bounded(self, fs: usize, most: int)
        requires
            self.bounded(most),
        ensures
            self.remove_member(fs).bounded(most),
    {
        let out = self.remove_member(fs);
        assert forall|i: int|
            0 <= i < out.contexts.len() && (#[trigger] out.contexts[i]) is Some implies out.contexts[i]->0.members
            <= most by {
            assert(self.contexts[i] is Some);
        }
    }

    /// An exit keeps the bound on live tasks.
    pub proof fn exit_bounded(self, generation: TaskGenerationId, most: int)
        requires
            self.bounded(most),
        ensures
            self.exit(generation).bounded(most),
    {
        match self.tasks[generation.0 as int] {
            Some(task) => {
                let moved = FsView {
                    tasks: self.tasks.update(
                        generation.0 as int,
                        Some(Task { exited: true, ..task }),
                    ),
                    ..self
                };
                assert(moved.bounded(most));
                moved.remove_member_bounded(task.fs, most);
            },
            None => {},
        }
    }

    /// A private child keeps the bound on live tasks.
    pub proof fn private_child_bounded(
        self,
        child: TaskGenerationId,
        cwd: Option<Seq<char>>,
        uncertain: bool,
        most: int,
    )
        requires
            self.bounded(most),
            most >= 1,
        ensures
            self.private_child(child, cwd, uncertain).bounded(most),
    {
        let gone = FsView { tasks: self.tasks.update(child.0 as int, None), ..self };
        assert(gone.bounded(most));
        match self.tasks[child.0 as int] {
            Some(was) if !was.exited => {
                gone.remove_member_bounded(was.fs, most);
                gone.remove_member(was.fs).new_context_bounded(cwd, uncertain, child, most);
            },
            _ => {
                gone.new_context_bounded(cwd, uncertain, child, most);
            },
        }
    }

    /// A shared child raises the bound on live tasks by one.
    pub proof fn replace_child_bounded(self, child: TaskGenerationId, fs: usize, most: int)
        requires
            self.bounded(most),
            0 <= most < u128::MAX,
        ensures
            self.replace_child(child, fs).bounded(most + 1),
    {
        let moved = FsView {
            tasks: self.tasks.update(child.0 as int, Some(Task { fs, exited: false })),
            ..self
        };
        assert(moved.bounded(most));
        let left = match self.tasks[child.0 as int] {
            Some(was) if !was.exited && was.fs != fs => moved.remove_member(was.fs),
            _ => moved,
        };
        match self.tasks[child.0 as int] {
            Some(was) if !was.exited && was.fs != fs => {
                moved.remove_member_bounded(was.fs, most);
            },
            _ => {},
        }
        let out = self.replace_child(child, fs);
        assert forall|i: int|
            0 <= i < out.contexts.len() && (#[trigger] out.contexts[i]) is Some implies out.contexts[i]->0.members
            <= most + 1 by {
            assert(left.contexts[i] is Some);
        }
    }

    /// A changed context with as many live tasks as before keeps the bound on them.
    pub proof fn with_bounded(self, fs: usize, context: FsContextView, most: int)
        requires
            self.bounded(most),
            self.has(fs) && context.members == self.at(fs).members,
        ensures
            self.with(fs, context).bounded(most),
    {
        let out = self.with(fs, context);
        assert forall|i: int|
            0 <= i < out.contexts.len() && (#[trigger] out.contexts[i]) is Some implies out.contexts[i]->0.members
            <= most by {
            assert(self.contexts[i] is Some);
        }
    }

    /// Invalidation keeps the bound on live tasks.
    pub proof fn invalidate_bounded(self, first: usize, line: usize, most: int)
        requires
            self.bounded(most),
        ensures
            self.invalidate(first, line).bounded(most),
            self.invalidate_all().bounded(most),
    {
        let out = self.invalidate(first, line);
        assert forall|i: int|
            0 <= i < out.contexts.len() && (#[trigger] out.contexts[i]) is Some implies out.contexts[i]->0.members
            <= most by {
            assert(self.contexts[i] is Some);
        }
        let all = self.invalidate_all();
        assert forall|i: int|
            0 <= i < all.contexts.len() && (#[trigger] all.contexts[i]) is Some implies all.contexts[i]->0.members
            <= most by {
            assert(self.contexts[i] is Some);
        }
    }
}

} // verus!
