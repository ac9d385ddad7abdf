//! What becomes of tasks and of their working directories, step by step, and the words for
//! what is not known of them.
use vstd::prelude::*;

use crate::model::{EventView, EvidenceView};
use crate::numbers;
use crate::parse::flags::{FsAction, InvalidationScope, SpawnEffect, UnshareEffect};
use crate::parse::fs::{FsContextView, FsView};
use crate::parse::resolve::ResolveState;
use crate::parse::timeline::{
    GenerationView, TaskGenerationId, TaskGenerationOrigin, TimelineState, TimelineView,
};
use crate::text;

verus! {

/// A warning of some evidence: where it stands, and the message.
pub open spec fn on_evidence(e: EvidenceView, message: Seq<char>) -> Seq<char> {
    e.file + ":"@ + numbers::decimal(e.line as nat) + ": "@ + message
}

/// A warning that a directory is not known any more, and why.
pub open spec fn lost_context(e: EvidenceView, reason: Seq<char>) -> Seq<char> {
    on_evidence(e, "fs.context: "@ + reason + "; affected relative path context is incomplete"@)
}

/// The first task starts in the directory in which the run started.
pub proof fn first_tasks_start_in_the_first_directory(
    s: ResolveState,
    t: TimelineView,
    index: usize,
    cwd: Option<Seq<char>>,
)
    requires
        index < s.events.len(),
        index < t.event_generations.len(),
        t.event_generations[index as int].0 < s.fs.tasks.len(),
        s.fs.tasks[t.event_generations[index as int].0 as int] is None,
        s.fs.contexts.len() < usize::MAX,
        t.generations[t.event_generations[index as int].0 as int].origin is Initial,
    ensures
        s.enter(t, index, cwd).events[index as int].cwd_before == cwd,
        s.enter(t, index, cwd).events[index as int].context_uncertain
            == s.events[index as int].context_uncertain,
        s.enter(t, index, cwd).warnings == s.warnings,
{
    let g = t.event_generations[index as int];
    let placed = s.fs.ensure_task(g, t.generations[g.0 as int].origin, cwd);
    assert(placed == s.fs.new_context(cwd, false, g));
    let fs = placed.fs_of(g);
    assert(fs == s.fs.contexts.len());
    assert(placed.has(fs));
    assert(placed.at(fs) == FsContextView::fresh(cwd, false));
    let now = placed.settle(fs, s.events[index as int].evidence.line);
    assert(now.has(fs));
    assert(now.at(fs).cwd == cwd && !now.at(fs).uncertain);
    assert(now.at(fs).pending_cwd is None && now.at(fs).pending_transition is None);
}

/// A task that appears without having been started is in no known directory.
pub proof fn strangers_start_in_no_known_directory(
    s: ResolveState,
    t: TimelineView,
    index: usize,
    cwd: Option<Seq<char>>,
)
    requires
        index < s.events.len(),
        index < t.event_generations.len(),
        t.event_generations[index as int].0 < s.fs.tasks.len(),
        s.fs.tasks[t.event_generations[index as int].0 as int] is None,
        s.fs.contexts.len() < usize::MAX,
        !(t.generations[t.event_generations[index as int].0 as int].origin is Initial),
    ensures
        s.enter(t, index, cwd).events[index as int].cwd_before is None,
        s.enter(t, index, cwd).events[index as int].context_uncertain,
{
    let g = t.event_generations[index as int];
    let placed = s.fs.ensure_task(g, t.generations[g.0 as int].origin, cwd);
    assert(placed == s.fs.new_context(None, true, g));
    let fs = placed.fs_of(g);
    assert(fs == s.fs.contexts.len());
    assert(placed.has(fs));
    assert(placed.at(fs) == FsContextView::fresh(None, true));
    let now = placed.settle(fs, s.events[index as int].evidence.line);
    assert(now.has(fs));
    assert(now.at(fs).uncertain);
}

/// Whether the directory of a context is known and nothing is open on it.
pub open spec fn at_rest(fs: FsView, n: usize) -> bool {
    &&& fs.has(n)
    &&& !fs.at(n).uncertain
    &&& fs.at(n).pending_cwd is None && fs.at(n).pending_transition is None
    &&& fs.at(n).pending_fork_snapshots.len() == 0
}

/// A change of directory to an absolute path that succeeded within a line shows at once: the
/// context of the task is in that directory, every other context stays where it is, and
/// nothing is warned of.
pub proof fn directory_changes_show(s: ResolveState, index: usize, n: usize, p: Seq<char>, m: usize)
    requires
        index < s.events.len(),
        at_rest(s.fs, n),
        s.events[index as int].kind == "cwd"@,
        s.events[index as int].outcome == "success"@,
        s.events[index as int].path == Some(p),
        p.len() > 0 && p[0] == '/',
        s.events[index as int].evidence.line == s.events[index as int].evidence.end_line,
        m != n,
    ensures
        ({
            let after = s.change_cwd(index, n);
            &&& after.fs.certain_cwd(n) == Some(p)
            &&& !after.fs.is_uncertain(n)
            &&& after.fs.certain_cwd(m) == s.fs.certain_cwd(m)
            &&& after.warnings == s.warnings
            &&& after.events == s.events
        }),
{
    reveal_strlit("/");
    assert(p.subrange(0, 1) =~= "/"@);
    let line = s.events[index as int].evidence.line;
    assert(!s.fs.at(n).has_snapshot(line));
    assert(!s.fs.at(n).has_change(line));
}

/// A change of directory that lasts over several lines shows when it has ended, and until then
/// the directory is not known.
pub proof fn long_directory_changes_show_late(
    s: ResolveState,
    index: usize,
    n: usize,
    p: Seq<char>,
    line: usize,
)
    requires
        index < s.events.len(),
        at_rest(s.fs, n),
        s.events[index as int].kind == "cwd"@,
        s.events[index as int].outcome == "success"@,
        s.events[index as int].path == Some(p),
        p.len() > 0 && p[0] == '/',
        s.events[index as int].evidence.line < s.events[index as int].evidence.end_line,
    ensures
        ({
            let after = s.change_cwd(index, n);
            let end = s.events[index as int].evidence.end_line;
            &&& after.warnings == s.warnings
            &&& line < end ==> after.fs.settle(n, line).certain_cwd(n) is None
            &&& line >= end ==> after.fs.settle(n, line).certain_cwd(n) == Some(p)
        }),
{
    reveal_strlit("/");
    assert(p.subrange(0, 1) =~= "/"@);
    let start = s.events[index as int].evidence.line;
    assert(!s.fs.at(n).has_snapshot(start));
    assert(!s.fs.at(n).has_change(start));
    let after = s.change_cwd(index, n);
    assert(after.fs.has(n));
    assert(after.fs.at(n).pending_cwd is Some);
}

/// A change of directory that gives no absolute path makes the directory unknown, and that is
/// warned of.
pub proof fn unknown_directory_changes_are_warned_of(s: ResolveState, index: usize, n: usize)
    requires
        index < s.events.len(),
        at_rest(s.fs, n),
        s.events[index as int].kind == "cwd"@,
        s.events[index as int].outcome == "success"@,
        s.events[index as int].path matches Some(p) ==> p.len() == 0 || p[0] != '/',
    ensures
        ({
            let after = s.change_cwd(index, n);
            &&& after.warnings == s.warnings.push(
                lost_context(
                    s.events[index as int].evidence,
                    "successful directory change has no absolute per-syscall directory evidence"@,
                ),
            )
            &&& after.events[index as int].context_uncertain
            &&& after.fs.certain_cwd(n) is None
            &&& after.fs.is_uncertain(n)
        }),
{
    reveal_strlit("/");
    let e = s.events[index as int];
    let line = e.evidence.line;
    assert(!s.fs.at(n).has_snapshot(line));
    if let Some(p) = e.path {
        if text::matches_at(p, "/"@, 0) {
            assert(p.subrange(0, 1)[0] == '/');
        }
    }
    assert(ResolveState::absolute_path(e) is None);
    assert(s.fs.reaches(line, n, n, 0));
    assert(s.fs.connected(line, n, n));
}

/// What calls that act on contexts are warned of: changes of the root and of namespaces in the
/// contexts connected to the caller, changes of mounts in all.
pub proof fn changes_of_the_view_are_warned_of(
    s: ResolveState,
    t: TimelineView,
    index: usize,
    n: usize,
)
    requires
        index < s.events.len(),
    ensures
        ({
            let e = s.events[index as int].evidence;
            let near = s.act(t, index, n, FsAction::Invalidate(InvalidationScope::ConnectedFs));
            let far = s.act(t, index, n, FsAction::Invalidate(InvalidationScope::AllActiveContexts));
            &&& near.warnings == s.warnings.push(
                lost_context(e, "root or namespace operation is outside the CWD model"@),
            )
            &&& far.warnings == s.warnings.push(
                lost_context(e, "mount namespace transition has process-wide unmodeled reach"@),
            )
            &&& near.events[index as int].context_uncertain
            &&& far.events[index as int].context_uncertain
            &&& s.fs.has(n) ==> near.fs.is_uncertain(n)
            &&& forall|m: usize| s.fs.has(m) ==> #[trigger] far.fs.is_uncertain(m)
        }),
{
    let line = s.events[index as int].evidence.line;
    assert(s.fs.reaches(line, n, n, 0));
    assert(s.fs.connected(line, n, n));
}

/// A new task without an identifier makes the directory of its parent unknown, and one of
/// which the flags do not say what it shares makes both unknown.
pub proof fn unclear_spawns_are_warned_of(
    s: ResolveState,
    t: TimelineView,
    index: usize,
    n: usize,
    effect: SpawnEffect,
    child: TaskGenerationId,
)
    requires
        index < s.events.len(),
    ensures
        ({
            let e = s.events[index as int].evidence;
            &&& t.spawned_generations[index as int] is None ==> s.act(
                t,
                index,
                n,
                FsAction::Spawn(effect),
            ).warnings == s.warnings.push(
                lost_context(e, "spawn result lacked a usable child task identity"@),
            )
            &&& s.spawn(t, index, n, SpawnEffect::Unknown, child).warnings == s.warnings.push(
                lost_context(e, "clone flags did not prove whether filesystem state is shared"@),
            )
            &&& s.spawn(
                t,
                index,
                n,
                SpawnEffect::PrivateFsNamespaceUncertain,
                child,
            ).warnings == s.warnings.push(
                lost_context(
                    e,
                    "namespace creation leaves only the new child path context unproven"@,
                ),
            )
            &&& s.spawn(t, index, n, SpawnEffect::SharedFs, child).warnings == s.warnings
            &&& !s.fs.has_unsettled_change(n, e.line) ==> s.spawn(
                t,
                index,
                n,
                SpawnEffect::PrivateFs,
                child,
            ).warnings == s.warnings
            &&& s.fs.has_unsettled_change(n, e.line) ==> s.spawn(
                t,
                index,
                n,
                SpawnEffect::PrivateFs,
                child,
            ).warnings == s.warnings.push(
                lost_context(e, "private clone overlapped an unresolved FS transition"@),
            )
        }),
{
}

/// A split of which the flags do not say what it does is warned of; one that changes nothing
/// of the filesystem does nothing.
pub proof fn unclear_splits_are_warned_of(
    s: ResolveState,
    index: usize,
    n: usize,
    g: TaskGenerationId,
)
    requires
        index < s.events.len(),
    ensures
        s.unshare(index, n, g, UnshareEffect::NoFsChange) == s,
        s.unshare(index, n, g, UnshareEffect::Unknown).warnings == s.warnings.push(
            lost_context(
                s.events[index as int].evidence,
                "unshare flags did not prove its filesystem effect"@,
            ),
        ),
        at_rest(s.fs, n) ==> s.unshare(index, n, g, UnshareEffect::SplitFs).warnings == s.warnings,
{
    if at_rest(s.fs, n) {
        let line = s.events[index as int].evidence.line;
        assert(!s.fs.at(n).has_snapshot(line));
        assert(!s.fs.at(n).has_change(line));
    }
}

/// An event whose path is spelled as a relative one is uncertain, and that is warned of unless
/// it is a change of directory that was warned of before; an execution without its arguments is
/// warned of too; nothing else is.
pub proof fn unresolved_paths_are_warned_of(s: ResolveState, index: usize)
    requires
        index < s.events.len(),
    ensures
        ({
            let e = s.events[index as int];
            let after = s.report(index);
            let relative = e.path matches Some(p) && text::matches_at(p, "relative:"@, 0);
            let unresolved = relative || e.kind == "cwd"@ && e.path is None;
            let told = e.kind == "cwd"@ && e.outcome == "success"@;
            let bare = e.kind == "exec"@ && e.argv is None;
            let first = if unresolved && !told {
                s.warnings.push(
                    on_evidence(
                        e.evidence,
                        "path context unresolved; last observed CWD is not a verified current path; consult raw evidence"@,
                    ),
                )
            } else {
                s.warnings
            };
            &&& after.events[index as int].context_uncertain == (e.context_uncertain || unresolved)
            &&& bare ==> after.warnings == first.push(
                on_evidence(e.evidence, "execution arguments incomplete"@),
            )
            &&& !bare ==> after.warnings == first
            &&& after.fs == s.fs
        }),
{
}

/// Whether a timeline has one more generation, the last and the live one of a task.
pub open spec fn adds_generation(
    after: TimelineState,
    before: TimelineState,
    pid: Seq<char>,
    origin: TaskGenerationOrigin,
) -> bool {
    let n = before.generations.len();
    &&& after.generations.len() == n + 1
    &&& after.generations[n as int].pid == pid
    &&& after.generations[n as int].origin == origin
    &&& after.active.contains_key(pid) && after.active[pid].0 == n
    &&& after.latest.contains_key(pid) && after.latest[pid].0 == n
    &&& forall|q: Seq<char>|
        q != pid ==> after.active.contains_key(q) == before.active.contains_key(q)
            && #[trigger] after.active[q] == before.active[q]
}

/// A task that acts is the live one of its identifier. If there is none, it is the first task
/// of all, or one that appeared again behind its end, or one that was never started.
pub proof fn actors_are_introduced(s: TimelineState, pid: Seq<char>, index: usize)
    requires
        s.generations.len() < usize::MAX,
    ensures
        s.active.contains_key(pid) ==> s.with_actor(pid, index) == s,
        !s.active.contains_key(pid) && !s.has_initial ==> adds_generation(
            s.with_actor(pid, index),
            s,
            pid,
            TaskGenerationOrigin::Initial { event: index },
        ) && s.with_actor(pid, index).has_initial,
        !s.active.contains_key(pid) && s.has_initial && s.latest.contains_key(pid)
            ==> adds_generation(
            s.with_actor(pid, index),
            s,
            pid,
            TaskGenerationOrigin::Reappeared { previous: s.latest[pid], event: index },
        ),
        !s.active.contains_key(pid) && s.has_initial && !s.latest.contains_key(pid)
            ==> adds_generation(
            s.with_actor(pid, index),
            s,
            pid,
            TaskGenerationOrigin::Unintroduced { event: index },
        ),
{
}

/// A child is a new generation: of the task that started it, or, where its identifier is that
/// of a live task, one that collides with it.
pub proof fn children_are_introduced(
    s: TimelineState,
    child: Seq<char>,
    actor: TaskGenerationId,
    index: usize,
)
    requires
        s.generations.len() < usize::MAX,
        index < s.spawned_generations.len(),
    ensures
        s.active.contains_key(child) ==> adds_generation(
            s.with_child(child, actor, index),
            s,
            child,
            TaskGenerationOrigin::LiveCollision { previous: s.active[child], event: index },
        ),
        !s.active.contains_key(child) ==> adds_generation(
            s.with_child(child, actor, index),
            s,
            child,
            TaskGenerationOrigin::Spawned { parent: actor, event: index },
        ),
        s.with_child(child, actor, index).spawned_generations[index as int] matches Some(g) && g.0
            == s.generations.len(),
{
}

/// An event belongs to the live task of its identifier; the end of a task is kept with it, and
/// its identifier is free again.
pub proof fn events_belong_to_their_task(s: TimelineState, events: Seq<EventView>, index: usize)
    requires
        index < events.len(),
        index < s.event_generations.len(),
        s.active.contains_key(events[index as int].pid),
        s.active[events[index as int].pid].0 < s.generations.len(),
        events[index as int].child_pid is None,
    ensures
        ({
            let e = events[index as int];
            let g = s.active[e.pid];
            let after = s.step(events, index);
            let was = s.generations[g.0 as int];
            let is = after.generations[g.0 as int];
            &&& after.event_generations[index as int] == Some(g)
            &&& after.generations.len() == s.generations.len()
            &&& is.pid == was.pid && is.origin == was.origin && is.ordinal == was.ordinal
            &&& is.first_actor_event == (if was.first_actor_event is None {
                Some(index)
            } else {
                was.first_actor_event
            })
            &&& e.kind == "exit"@ ==> is.exit_event == Some(index) && !after.active.contains_key(
                e.pid,
            )
            &&& e.kind != "exit"@ ==> is.exit_event == was.exit_event && after.active == s.active
        }),
{
}

/// The generations of an identifier are numbered from one on, and named by both.
pub proof fn generations_are_numbered(
    s: TimelineState,
    pid: Seq<char>,
    origin: TaskGenerationOrigin,
    g: GenerationView,
)
    requires
        s.generations.len() < usize::MAX,
        s.ordinals.contains_key(pid) ==> s.ordinals[pid] < usize::MAX,
    ensures
        ({
            let n = s.generations.len() as int;
            let after = s.introduced(pid, origin);
            &&& !s.ordinals.contains_key(pid) ==> after.generations[n].ordinal == 1
            &&& s.ordinals.contains_key(pid) ==> after.generations[n].ordinal == s.ordinals[pid] + 1
            &&& after.ordinals[pid] == after.generations[n].ordinal
        }),
        g.label() == g.pid + "#"@ + numbers::decimal(g.ordinal as nat),
{
}

/// What is said of a task whose identity is not sure: that it was never started, that it
/// appeared again behind its end, or that it collides with a live one. Of the others nothing
/// is said.
pub proof fn unsure_identities_are_told(t: TimelineView, events: Seq<EventView>, g: int)
    ensures
        ({
            let o = t.generations[g].origin;
            let label = t.generations[g].label();
            &&& o.untrusted() <==> !(o is Initial) && !(o is Spawned)
            &&& t.identity_detail(events, g) is Some <==> o.untrusted()
            &&& o is Unintroduced ==> t.identity_detail(events, g) == Some(
                "Unintroduced: task "@ + label + " appeared without a successful spawn"@,
            )
            &&& o matches TaskGenerationOrigin::LiveCollision { previous, event }
                ==> t.identity_detail(events, g) == Some(
                "LiveCollision: successful spawn assigned "@ + label + " while "@
                    + t.generations[previous.0 as int].label() + " was still live"@,
            )
            &&& o matches TaskGenerationOrigin::Reappeared { previous, event } ==> (
            t.generations[previous.0 as int].exit_event matches Some(e) ==> (e < events.len()
                ==> t.identity_detail(events, g) == Some(
                "Reappeared: task "@ + label + " appeared after "@
                    + t.generations[previous.0 as int].label() + " exited"@ + (" at "@
                    + events[e as int].evidence.file + ":"@ + numbers::decimal(
                    events[e as int].evidence.line as nat,
                )) + " without a successful spawn"@,
            )))
        }),
{
}

/// Every task whose identity is not sure is warned of, where it first shows, and no other is.
pub proof fn unsure_identities_are_warned_of(t: TimelineView, events: Seq<EventView>, n: int)
    requires
        0 <= n <= t.generations.len(),
    ensures
        forall|g: int|
            0 <= g < n && #[trigger] t.generations[g].origin.untrusted() ==> t.findings_upto(
                events,
                n,
            ).contains(unsure_identity(t, events, g)),
        forall|k: int|
            0 <= k < t.findings_upto(events, n).len() ==> exists|g: int|
                0 <= g < n && t.generations[g].origin.untrusted() && #[trigger] t.findings_upto(
                    events,
                    n,
                )[k] == #[trigger] unsure_identity(t, events, g),
        (forall|g: int| 0 <= g < n ==> !#[trigger] t.generations[g].origin.untrusted())
            ==> t.findings_upto(events, n).len() == 0,
    decreases n,
{
    if n > 0 {
        unsure_identities_are_warned_of(t, events, n - 1);
        unsure_identities_are_told(t, events, n - 1);
        let before = t.findings_upto(events, n - 1);
        let all = t.findings_upto(events, n);
        let last = unsure_identity(t, events, n - 1);
        if t.generations[n - 1].origin.untrusted() {
            assert(all == before.push(last)) by {
                let at = events[t.generations[n - 1].origin.event() as int].evidence;
                let detail = t.identity_detail(events, n - 1)->0;
                reveal_strlit(": task.identity: ");
                reveal_strlit(": ");
                reveal_strlit("task.identity: ");
                assert(": task.identity: "@ =~= ": "@ + "task.identity: "@);
                assert(at.file + ":"@ + numbers::decimal(at.line as nat) + ": task.identity: "@
                    + detail + "; generation identity is incomplete"@ =~= last);
            }
            assert(all[before.len() as int] == last);
        }
        assert forall|g: int|
            0 <= g < n && #[trigger] t.generations[g].origin.untrusted() implies all.contains(
            unsure_identity(t, events, g),
        ) by {
            if g < n - 1 {
                let k = choose|k: int|
                    0 <= k < before.len() && before[k] == unsure_identity(t, events, g);
                assert(all[k] == unsure_identity(t, events, g));
            }
        }
        assert forall|k: int| 0 <= k < all.len() implies exists|g: int|
            0 <= g < n && t.generations[g].origin.untrusted() && #[trigger] all[k]
                == #[trigger] unsure_identity(t, events, g) by {
            if k < before.len() {
                assert(all[k] == before[k]);
                let g = choose|g: int|
                    0 <= g < n - 1 && t.generations[g].origin.untrusted() && before[k]
                        == #[trigger] unsure_identity(t, events, g);
                assert(all[k] == unsure_identity(t, events, g));
            } else {
                assert(all[k] == last);
            }
        }
    }
}

/// The warning of a task whose identity is not sure.
pub open spec fn unsure_identity(t: TimelineView, events: Seq<EventView>, g: int) -> Seq<char> {
    on_evidence(
        events[t.generations[g].origin.event() as int].evidence,
        "task.identity: "@ + t.identity_detail(events, g)->0 + "; generation identity is incomplete"@,
    )
}

/// A spawn that names a task that is still live is warned of where it is not clear what the new
/// task shares, and only there.
pub proof fn collisions_are_warned_of(
    s: ResolveState,
    index: usize,
    fs: usize,
    child: TaskGenerationId,
    previous: TaskGenerationId,
    relation: SpawnEffect,
)
    requires
        index < s.events.len(),
    ensures
        ({
            let e = s.events[index as int].evidence;
            let after = s.collide(index, fs, relation, child, previous);
            &&& relation is PrivateFsNamespaceUncertain ==> after.warnings == s.warnings.push(
                lost_context(
                    e,
                    "namespace creation leaves only the new child path context unproven"@,
                ),
            )
            &&& relation is Unknown ==> after.warnings == s.warnings.push(
                lost_context(e, "clone flags did not prove whether filesystem state is shared"@),
            )
            &&& !(relation is Unknown) && !(relation is PrivateFsNamespaceUncertain)
                ==> after.warnings == s.warnings
        }),
{
}

/// What a spawned task starts with is open until the call has ended, or until the task is first
/// seen to act if that is before.
pub proof fn spawns_are_open_until_their_child_acts(
    s: ResolveState,
    t: TimelineView,
    index: usize,
    child: TaskGenerationId,
)
    ensures
        ({
            let end = s.events[index as int].evidence.end_line;
            let until = s.snapshot_until(t, index, child);
            &&& until <= end
            &&& t.generations[child.0 as int].first_actor_event is None ==> until == end
            &&& t.generations[child.0 as int].first_actor_event matches Some(e) ==> {
                let line = s.events[e as int].evidence.line;
                &&& until <= line
                &&& until == line || until == end
            }
        }),
{
}

} // verus!
