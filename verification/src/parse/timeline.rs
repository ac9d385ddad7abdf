//! Task generations: the lifetimes of numeric task IDs in raw evidence order.
use vstd::prelude::*;
use vstd::string::*;

use crate::model::{Event, EventView};
use crate::numbers;
use crate::order;
use crate::order::IndexKey;
use crate::sorted_map::SortedMap;
use crate::text;
use crate::views;

verus! {

broadcast use crate::views::group_views;

/// Identity for one lifetime of a numeric task ID within a trace.
///
/// The value is meaningful only inside its owning [`TaskTimeline`] and is never
/// stored.
#[derive(Clone, Copy, Debug, PartialEq, Eq, PartialOrd, Ord, Structural)]
pub struct TaskGenerationId(pub usize);

/// How a generation came to be known.
#[derive(Clone, Copy, Debug, PartialEq, Eq, Structural)]
pub enum TaskGenerationOrigin {
    /// The first task of the trace.
    Initial {
        /// The event that showed it.
        event: usize,
    },
    /// The child of a successful spawn.
    Spawned {
        /// The spawning generation.
        parent: TaskGenerationId,
        /// The spawn.
        event: usize,
    },
    /// A task that no spawn introduced.
    Unintroduced {
        /// The event that showed it.
        event: usize,
    },
    /// A task ID that came back after an exit without a spawn.
    Reappeared {
        /// The generation that had exited.
        previous: TaskGenerationId,
        /// The event that showed it.
        event: usize,
    },
    /// A spawn result that names a task that is still live.
    LiveCollision {
        /// The live generation.
        previous: TaskGenerationId,
        /// The spawn.
        event: usize,
    },
}

impl TaskGenerationOrigin {
    /// Whether the identity of the generation is not established.
    pub open spec fn untrusted(self) -> bool {
        self is Unintroduced || self is Reappeared || self is LiveCollision
    }

    /// The event that showed the generation.
    pub open spec fn event(self) -> usize {
        match self {
            TaskGenerationOrigin::Initial { event } => event,
            TaskGenerationOrigin::Spawned { parent, event } => event,
            TaskGenerationOrigin::Unintroduced { event } => event,
            TaskGenerationOrigin::Reappeared { previous, event } => event,
            TaskGenerationOrigin::LiveCollision { previous, event } => event,
        }
    }
}

/// One generation.
pub struct TaskGeneration {
    /// The task ID.
    pub pid: String,
    /// Which generation of the task ID it is, from one on.
    pub ordinal: usize,
    /// How it came to be known.
    pub origin: TaskGenerationOrigin,
    /// The first event that it produced.
    pub first_actor_event: Option<usize>,
    /// Its exit.
    pub exit_event: Option<usize>,
}

/// What a [`TaskGeneration`] says.
pub struct GenerationView {
    /// The task ID.
    pub pid: Seq<char>,
    /// Which generation of the task ID it is.
    pub ordinal: usize,
    /// How it came to be known.
    pub origin: TaskGenerationOrigin,
    /// The first event that it produced.
    pub first_actor_event: Option<usize>,
    /// Its exit.
    pub exit_event: Option<usize>,
}

impl View for TaskGeneration {
    type V = GenerationView;

    open spec fn view(&self) -> GenerationView {
        GenerationView {
            pid: self.pid@,
            ordinal: self.ordinal,
            origin: self.origin,
            first_actor_event: self.first_actor_event,
            exit_event: self.exit_event,
        }
    }
}

impl GenerationView {
    /// The diagnostic label of the generation.
    pub open spec fn label(self) -> Seq<char> {
        self.pid + "#"@ + numbers::decimal(self.ordinal as nat)
    }
}

/// Transient task identity interpretation in raw evidence order.
///
/// Generation IDs never enter a stored event: a newer parser cannot
/// retroactively change historical record identity. Capture may query
/// completion facts but cannot mutate or reconstruct this state.
pub struct TaskTimeline {
    generations: Vec<TaskGeneration>,
    event_order: Vec<usize>,
    event_generations: Vec<TaskGenerationId>,
    spawned_generations: Vec<Option<TaskGenerationId>>,
}

/// What a [`TaskTimeline`] says.
pub struct TimelineView {
    /// The generations, in the order in which they came to be known.
    pub generations: Seq<GenerationView>,
    /// The event indices in evidence order.
    pub event_order: Seq<usize>,
    /// The generation that produced each event.
    pub event_generations: Seq<TaskGenerationId>,
    /// The generation that each event spawned.
    pub spawned_generations: Seq<Option<TaskGenerationId>>,
}

impl View for TaskTimeline {
    type V = TimelineView;

    closed spec fn view(&self) -> TimelineView {
        TimelineView {
            generations: views::each(self.generations@),
            event_order: self.event_order@,
            event_generations: self.event_generations@,
            spawned_generations: self.spawned_generations@,
        }
    }
}

/// Normalized observations plus transient capture-time interpretation.
///
/// Events retain their original evidence file and start/end lines. Warnings are
/// ordered by parser observation and finish-time resolution; callers must not
/// sort them or treat the transient task timeline as persisted evidence.
pub struct Parsed {
    /// Normalized events in parser insertion order.
    pub events: Vec<Event>,
    /// Evidence limitations in deterministic parser order.
    pub warnings: Vec<String>,
    /// Number of logical raw trace lines consumed.
    pub lines: usize,
    /// Evidence-ordered task generations used by capture completion.
    pub timeline: TaskTimeline,
}

impl Parsed {
    /// Nothing parsed yet.
    pub fn new() -> (r: Parsed)
        ensures
            r.events@ == Seq::<Event>::empty(),
            r.warnings@ == Seq::<String>::empty(),
            r.lines == 0,
            r.timeline@ == TimelineView::empty(),
    {
        Parsed { events: Vec::new(), warnings: Vec::new(), lines: 0, timeline: TaskTimeline::new() }
    }
}

/// Whether one event precedes another by first line, last line, and index.
pub open spec fn evidence_before(events: Seq<EventView>, a: int, b: int) -> bool {
    let x = events[a].evidence;
    let y = events[b].evidence;
    x.line < y.line || (x.line == y.line && (x.end_line < y.end_line || (x.end_line == y.end_line
        && a < b)))
}

/// Whether a sequence lists every event index once, in evidence order.
pub open spec fn is_evidence_order(order: Seq<usize>, events: Seq<EventView>) -> bool {
    &&& order.len() == events.len()
    &&& forall|i: int| 0 <= i < order.len() ==> #[trigger] order[i] < events.len()
    &&& forall|k: usize| k < events.len() ==> #[trigger] order.contains(k)
    &&& forall|i: int, j: int|
        0 <= i < j < order.len() ==> evidence_before(
            events,
            #[trigger] order[i] as int,
            #[trigger] order[j] as int,
        )
}

/// What is known of tasks after some events.
pub struct TimelineState {
    /// The generations.
    pub generations: Seq<GenerationView>,
    /// The generation of each event seen.
    pub event_generations: Seq<Option<TaskGenerationId>>,
    /// The generation that each event seen spawned.
    pub spawned_generations: Seq<Option<TaskGenerationId>>,
    /// The live generation of each task ID.
    pub active: Map<Seq<char>, TaskGenerationId>,
    /// The latest generation of each task ID.
    pub latest: Map<Seq<char>, TaskGenerationId>,
    /// The number of generations of each task ID.
    pub ordinals: Map<Seq<char>, usize>,
    /// Whether the first task has been seen.
    pub has_initial: bool,
}

impl TimelineState {
    /// The state before any of `n` events.
    pub open spec fn start(n: nat) -> TimelineState {
        TimelineState {
            generations: Seq::empty(),
            event_generations: Seq::new(n, |i: int| None),
            spawned_generations: Seq::new(n, |i: int| None),
            active: Map::empty(),
            latest: Map::empty(),
            ordinals: Map::empty(),
            has_initial: false,
        }
    }

    /// The ordinal that the next generation of a task ID gets.
    pub open spec fn next_ordinal(self, pid: Seq<char>) -> int {
        if self.ordinals.contains_key(pid) {
            self.ordinals[pid] + 1
        } else {
            1
        }
    }

    /// The state with a new generation, which is live.
    pub open spec fn introduced(self, pid: Seq<char>, origin: TaskGenerationOrigin) -> TimelineState {
        let id = TaskGenerationId(self.generations.len() as usize);
        TimelineState {
            generations: self.generations.push(
                GenerationView {
                    pid,
                    ordinal: self.next_ordinal(pid) as usize,
                    origin,
                    first_actor_event: None,
                    exit_event: None,
                },
            ),
            ordinals: self.ordinals.insert(pid, self.next_ordinal(pid) as usize),
            active: self.active.insert(pid, id),
            latest: self.latest.insert(pid, id),
            ..self
        }
    }

    /// The state in which the task of an event has a live generation.
    pub open spec fn with_actor(self, pid: Seq<char>, index: usize) -> TimelineState {
        if self.active.contains_key(pid) {
            self
        } else if !self.has_initial {
            TimelineState {
                has_initial: true,
                ..self.introduced(pid, TaskGenerationOrigin::Initial { event: index })
            }
        } else if self.latest.contains_key(pid) {
            self.introduced(
                pid,
                TaskGenerationOrigin::Reappeared { previous: self.latest[pid], event: index },
            )
        } else {
            self.introduced(pid, TaskGenerationOrigin::Unintroduced { event: index })
        }
    }

    /// The state in which an event belongs to a generation.
    pub open spec fn with_event(self, actor: TaskGenerationId, index: usize) -> TimelineState {
        let g = self.generations[actor.0 as int];
        TimelineState {
            event_generations: self.event_generations.update(index as int, Some(actor)),
            generations: if g.first_actor_event is None {
                self.generations.update(
                    actor.0 as int,
                    GenerationView { first_actor_event: Some(index), ..g },
                )
            } else {
                self.generations
            },
            ..self
        }
    }

    /// The state in which a generation has exited.
    pub open spec fn with_exit(self, pid: Seq<char>, actor: TaskGenerationId, index: usize) -> TimelineState {
        TimelineState {
            generations: self.generations.update(
                actor.0 as int,
                GenerationView {
                    exit_event: Some(index),
                    ..self.generations[actor.0 as int]
                },
            ),
            active: self.active.remove(pid),
            ..self
        }
    }

    /// The state in which an event has spawned a task.
    pub open spec fn with_child(self, child: Seq<char>, actor: TaskGenerationId, index: usize) -> TimelineState {
        let origin = if self.active.contains_key(child) {
            TaskGenerationOrigin::LiveCollision { previous: self.active[child], event: index }
        } else {
            TaskGenerationOrigin::Spawned { parent: actor, event: index }
        };
        let id = TaskGenerationId(self.generations.len() as usize);
        TimelineState {
            spawned_generations: self.spawned_generations.update(index as int, Some(id)),
            ..self.introduced(child, origin)
        }
    }

    /// The state after one more event.
    pub open spec fn step(self, events: Seq<EventView>, index: usize) -> TimelineState {
        let event = events[index as int];
        let s1 = self.with_actor(event.pid, index);
        let actor = s1.active[event.pid];
        let s2 = s1.with_event(actor, index);
        let s3 = if event.kind == "exit"@ {
            s2.with_exit(event.pid, actor, index)
        } else {
            s2
        };
        match event.child_pid {
            Some(child) => s3.with_child(child, actor, index),
            None => s3,
        }
    }

    /// Every generation and event that the state refers to exists, and an exit
    /// belongs to the generation that produced it.
    pub open spec fn wf(self, n: nat) -> bool {
        &&& self.event_generations.len() == n
        &&& self.spawned_generations.len() == n
        &&& self.generations.len() <= usize::MAX
        &&& forall|p: Seq<char>| #[trigger]
            self.active.contains_key(p) ==> self.active[p].0 < self.generations.len()
        &&& forall|p: Seq<char>| #[trigger]
            self.latest.contains_key(p) ==> self.latest[p].0 < self.generations.len()
        &&& forall|p: Seq<char>| #[trigger]
            self.ordinals.contains_key(p) ==> self.ordinals[p] <= self.generations.len()
        &&& forall|i: int|
            0 <= i < n && (#[trigger] self.event_generations[i]) is Some
                ==> (self.event_generations[i]->0).0 < self.generations.len()
        &&& forall|i: int|
            0 <= i < n && (#[trigger] self.spawned_generations[i]) is Some
                ==> (self.spawned_generations[i]->0).0 < self.generations.len()
        &&& forall|g: int|
            0 <= g < self.generations.len() ==> generation_wf(
                #[trigger] self.generations[g],
                self.generations.len(),
                n,
            )
        &&& forall|g: int|
            0 <= g < self.generations.len() ==> ((#[trigger] self.generations[g]).exit_event matches Some(
                e,
            ) ==> self.event_generations[e as int] == Some(TaskGenerationId(g as usize)))
    }
}

/// Every generation and event that a generation refers to exists.
pub open spec fn generation_wf(g: GenerationView, generations: nat, events: nat) -> bool {
    &&& g.origin.event() < events
    &&& g.first_actor_event matches Some(e) ==> e < events
    &&& g.exit_event matches Some(e) ==> e < events
    &&& match g.origin {
        TaskGenerationOrigin::Spawned { parent, event } => parent.0 < generations,
        TaskGenerationOrigin::Reappeared { previous, event } => previous.0 < generations,
        TaskGenerationOrigin::LiveCollision { previous, event } => previous.0 < generations,
        _ => true,
    }
}

/// The state after the first `n` events of an order.
pub open spec fn timeline_upto(events: Seq<EventView>, order: Seq<usize>, n: int) -> TimelineState
    decreases n,
{
    if n <= 0 {
        TimelineState::start(events.len())
    } else {
        timeline_upto(events, order, n - 1).step(events, order[n - 1])
    }
}

impl TimelineView {
    /// The timeline of no events.
    pub open spec fn empty() -> TimelineView {
        TimelineView {
            generations: Seq::empty(),
            event_order: Seq::empty(),
            event_generations: Seq::empty(),
            spawned_generations: Seq::empty(),
        }
    }

    /// Whether the timeline is the interpretation of some events.
    pub open spec fn interprets(self, events: Seq<EventView>) -> bool {
        let st = timeline_upto(events, self.event_order, events.len() as int);
        &&& is_evidence_order(self.event_order, events)
        &&& self.generations == st.generations
        &&& self.spawned_generations == st.spawned_generations
        &&& self.event_generations.len() == events.len()
        &&& forall|i: int|
            0 <= i < events.len() ==> Some(#[trigger] self.event_generations[i])
                == st.event_generations[i]
    }

    /// Every generation and event that the timeline of `n` events refers to exists.
    pub open spec fn wf(self, n: nat) -> bool {
        &&& self.event_order.len() == n
        &&& forall|i: int| 0 <= i < n ==> #[trigger] self.event_order[i] < n
        &&& self.event_generations.len() == n
        &&& self.spawned_generations.len() == n
        &&& self.generations.len() <= usize::MAX
        &&& forall|i: int|
            0 <= i < n ==> (#[trigger] self.event_generations[i]).0 < self.generations.len()
        &&& forall|i: int|
            0 <= i < n && (#[trigger] self.spawned_generations[i]) is Some
                ==> (self.spawned_generations[i]->0).0 < self.generations.len()
        &&& forall|g: int|
            0 <= g < self.generations.len() ==> generation_wf(
                #[trigger] self.generations[g],
                self.generations.len(),
                n,
            )
    }

    /// Whether the identity of a generation is not established.
    pub open spec fn untrusted(self, g: TaskGenerationId) -> bool {
        self.generations[g.0 as int].origin.untrusted()
    }

    /// Whether an event belongs to, or showed, a generation below `n` whose
    /// identity is not established.
    pub open spec fn shows_untrusted(self, event: int, n: int) -> bool {
        exists|g: int|
            0 <= g < n && (#[trigger] self.generations[g]).origin.untrusted()
                && self.generations[g].origin.event() == event
    }

    /// The events, marked where they belong to a generation whose identity is not
    /// established, or showed one below `n`.
    pub open spec fn marked_upto(self, events: Seq<EventView>, n: int) -> Seq<EventView> {
        Seq::new(
            events.len(),
            |i: int|
                EventView {
                    context_uncertain: events[i].context_uncertain || self.untrusted(
                        self.event_generations[i],
                    ) || self.shows_untrusted(i, n),
                    ..events[i]
                },
        )
    }

    /// Where a generation exited, as the finding on its successor says it.
    pub open spec fn exit_place(self, events: Seq<EventView>, g: TaskGenerationId) -> Seq<char> {
        match self.generations[g.0 as int].exit_event {
            Some(e) if e < events.len() => " at "@ + events[e as int].evidence.file + ":"@
                + numbers::decimal(events[e as int].evidence.line as nat),
            _ => ""@,
        }
    }

    /// What is wrong with the identity of a generation.
    pub open spec fn identity_detail(self, events: Seq<EventView>, g: int) -> Option<Seq<char>> {
        let label = self.generations[g].label();
        match self.generations[g].origin {
            TaskGenerationOrigin::Unintroduced { event } => Some(
                "Unintroduced: task "@ + label + " appeared without a successful spawn"@,
            ),
            TaskGenerationOrigin::Reappeared { previous, event } => Some(
                "Reappeared: task "@ + label + " appeared after "@
                    + self.generations[previous.0 as int].label() + " exited"@ + self.exit_place(
                    events,
                    previous,
                ) + " without a successful spawn"@,
            ),
            TaskGenerationOrigin::LiveCollision { previous, event } => Some(
                "LiveCollision: successful spawn assigned "@ + label + " while "@
                    + self.generations[previous.0 as int].label() + " was still live"@,
            ),
            _ => None,
        }
    }

    /// The findings on the identity of the first `n` generations.
    pub open spec fn findings_upto(self, events: Seq<EventView>, n: int) -> Seq<Seq<char>>
        decreases n,
    {
        if n <= 0 {
            Seq::empty()
        } else {
            let before = self.findings_upto(events, n - 1);
            let at = events[self.generations[n - 1].origin.event() as int].evidence;
            match self.identity_detail(events, n - 1) {
                Some(detail) => before.push(
                    at.file + ":"@ + numbers::decimal(at.line as nat) + ": task.identity: "@ + detail
                        + "; generation identity is incomplete"@,
                ),
                None => before,
            }
        }
    }
}

/// `findings_upto` reads only the evidence of the events.
proof fn findings_by_evidence(t: TimelineView, a: Seq<EventView>, b: Seq<EventView>, n: int)
    requires
        a.len() == b.len(),
        t.wf(a.len()),
        n <= t.generations.len(),
        forall|i: int| 0 <= i < a.len() ==> (#[trigger] a[i]).evidence == b[i].evidence,
    ensures
        t.findings_upto(a, n) == t.findings_upto(b, n),
    decreases n,
{
    if n > 0 {
        findings_by_evidence(t, a, b, n - 1);
        assert(generation_wf(t.generations[n - 1], t.generations.len(), a.len()));
        let e = t.generations[n - 1].origin.event() as int;
        assert(a[e].evidence == b[e].evidence);
        match t.generations[n - 1].origin {
            TaskGenerationOrigin::Reappeared { previous, event } => {
                match t.generations[previous.0 as int].exit_event {
                    Some(x) => {
                        if x < a.len() {
                            assert(a[x as int].evidence == b[x as int].evidence);
                        }
                    },
                    None => {},
                }
            },
            _ => {},
        }
    }
}

proof fn introduced_wf(st: TimelineState, pid: Seq<char>, origin: TaskGenerationOrigin, n: nat)
    requires
        st.wf(n),
        st.generations.len() + 1 <= usize::MAX,
        origin.event() < n,
        match origin {
            TaskGenerationOrigin::Spawned { parent, event } => parent.0 < st.generations.len(),
            TaskGenerationOrigin::Reappeared { previous, event } => previous.0
                < st.generations.len(),
            TaskGenerationOrigin::LiveCollision { previous, event } => previous.0
                < st.generations.len(),
            _ => true,
        },
    ensures
        st.introduced(pid, origin).wf(n),
{
    let out = st.introduced(pid, origin);
    assert forall|g: int| 0 <= g < out.generations.len() implies generation_wf(
        #[trigger] out.generations[g],
        out.generations.len(),
        n,
    ) by {
        if g < st.generations.len() {
            assert(generation_wf(st.generations[g], st.generations.len(), n));
        }
    }
    assert forall|g: int| 0 <= g < out.generations.len() implies ((
    #[trigger] out.generations[g]).exit_event matches Some(e) ==> out.event_generations[e as int]
        == Some(TaskGenerationId(g as usize))) by {
        if g < st.generations.len() {
            assert(out.generations[g] == st.generations[g]);
        }
    }
}

proof fn actor_wf(st: TimelineState, pid: Seq<char>, index: usize, n: nat)
    requires
        st.wf(n),
        index < n,
        st.with_actor(pid, index).generations.len() <= usize::MAX,
    ensures
        st.with_actor(pid, index).wf(n),
        st.with_actor(pid, index).active.contains_key(pid),
{
    if !st.active.contains_key(pid) {
        if !st.has_initial {
            introduced_wf(st, pid, TaskGenerationOrigin::Initial { event: index }, n);
        } else if st.latest.contains_key(pid) {
            introduced_wf(
                st,
                pid,
                TaskGenerationOrigin::Reappeared { previous: st.latest[pid], event: index },
                n,
            );
        } else {
            introduced_wf(st, pid, TaskGenerationOrigin::Unintroduced { event: index }, n);
        }
    }
}

proof fn event_wf(st: TimelineState, actor: TaskGenerationId, index: usize, n: nat)
    requires
        st.wf(n),
        index < n,
        actor.0 < st.generations.len(),
        st.event_generations[index as int] is None,
    ensures
        st.with_event(actor, index).wf(n),
{
    let out = st.with_event(actor, index);
    assert(generation_wf(st.generations[actor.0 as int], st.generations.len(), n));
    assert forall|g: int| 0 <= g < out.generations.len() implies generation_wf(
        #[trigger] out.generations[g],
        out.generations.len(),
        n,
    ) by {
        assert(generation_wf(st.generations[g], st.generations.len(), n));
    }
    assert forall|g: int| 0 <= g < out.generations.len() implies ((
    #[trigger] out.generations[g]).exit_event matches Some(e) ==> out.event_generations[e as int]
        == Some(TaskGenerationId(g as usize))) by {
        assert(out.generations[g].exit_event == st.generations[g].exit_event);
    }
}

proof fn exit_wf(st: TimelineState, pid: Seq<char>, actor: TaskGenerationId, index: usize, n: nat)
    requires
        st.wf(n),
        index < n,
        actor.0 < st.generations.len(),
        st.event_generations[index as int] == Some(actor),
    ensures
        st.with_exit(pid, actor, index).wf(n),
{
    let out = st.with_exit(pid, actor, index);
    assert forall|g: int| 0 <= g < out.generations.len() implies generation_wf(
        #[trigger] out.generations[g],
        out.generations.len(),
        n,
    ) by {
        assert(generation_wf(st.generations[g], st.generations.len(), n));
    }
    assert forall|g: int| 0 <= g < out.generations.len() implies ((
    #[trigger] out.generations[g]).exit_event matches Some(e) ==> out.event_generations[e as int]
        == Some(TaskGenerationId(g as usize))) by {
        if g != actor.0 {
            assert(out.generations[g] == st.generations[g]);
        }
    }
}

proof fn child_wf(
    st: TimelineState,
    child: Seq<char>,
    actor: TaskGenerationId,
    index: usize,
    n: nat,
)
    requires
        st.wf(n),
        index < n,
        actor.0 < st.generations.len(),
        st.generations.len() + 1 <= usize::MAX,
    ensures
        st.with_child(child, actor, index).wf(n),
{
    let origin = if st.active.contains_key(child) {
        TaskGenerationOrigin::LiveCollision { previous: st.active[child], event: index }
    } else {
        TaskGenerationOrigin::Spawned { parent: actor, event: index }
    };
    introduced_wf(st, child, origin, n);
    let mid = st.introduced(child, origin);
    let out = st.with_child(child, actor, index);
    assert forall|g: int| 0 <= g < out.generations.len() implies generation_wf(
        #[trigger] out.generations[g],
        out.generations.len(),
        n,
    ) by {
        assert(generation_wf(mid.generations[g], mid.generations.len(), n));
    }
    assert forall|g: int| 0 <= g < out.generations.len() implies ((
    #[trigger] out.generations[g]).exit_event matches Some(e) ==> out.event_generations[e as int]
        == Some(TaskGenerationId(g as usize))) by {
        assert(out.generations[g] == mid.generations[g]);
    }
}

/// The ordinal that the next generation of a task ID gets.
pub open spec fn ordinal_after(ordinals: Map<Seq<char>, usize>, pid: Seq<char>) -> int {
    if ordinals.contains_key(pid) {
        ordinals[pid] + 1
    } else {
        1
    }
}

/// Gives the event indices in evidence order.
fn evidence_order(events: &[Event]) -> (order: Vec<usize>)
    ensures
        is_evidence_order(order@, views::each(events@)),
{
    let mut order: Vec<usize> = Vec::new();
    let ghost ev = views::each(events@);
    for i in 0..events.len()
        invariant
            ev == views::each(events@),
            order@.len() == i,
            forall|a: int| 0 <= a < order@.len() ==> #[trigger] order@[a] < i,
            forall|k: usize| k < i ==> #[trigger] order@.contains(k),
            forall|a: int, b: int|
                0 <= a < b < order@.len() ==> evidence_before(
                    ev,
                    #[trigger] order@[a] as int,
                    #[trigger] order@[b] as int,
                ),
    {
        let line: usize = events[i].evidence.line;
        let end_line: usize = events[i].evidence.end_line;
        assert(ev[i as int] == events@[i as int]@);
        let mut at: usize = order.len();
        while at > 0
            invariant_except_break
                forall|b: int|
                    at <= b < order@.len() ==> evidence_before(
                        ev,
                        i as int,
                        #[trigger] order@[b] as int,
                    ),
            invariant
                ev == views::each(events@),
                i < events@.len(),
                at <= order@.len(),
                order@.len() == i,
                line == ev[i as int].evidence.line,
                end_line == ev[i as int].evidence.end_line,
                forall|a: int| 0 <= a < order@.len() ==> #[trigger] order@[a] < i,
            ensures
                forall|b: int|
                    at <= b < order@.len() ==> evidence_before(
                        ev,
                        i as int,
                        #[trigger] order@[b] as int,
                    ),
                at > 0 ==> evidence_before(ev, order@[at - 1] as int, i as int),
            decreases at,
        {
            let other: usize = order[at - 1];
            assert(ev[other as int] == events@[other as int]@);
            let other_line: usize = events[other].evidence.line;
            let other_end: usize = events[other].evidence.end_line;
            if other_line < line || (other_line == line && other_end <= end_line) {
                break ;
            }
            at = at - 1;
        }
        let ghost before = order@;
        order.insert(at, i);
        proof {
            assert forall|k: usize| k < i + 1 implies #[trigger] order@.contains(k) by {
                if k < i {
                    assert(before.contains(k));
                    let j = choose|j: int| 0 <= j < before.len() && before[j] == k;
                    assert(order@[if j < at { j } else { j + 1 }] == k);
                } else {
                    assert(order@[at as int] == k);
                }
            }
            assert forall|a: int, b: int| 0 <= a < b < order@.len() implies evidence_before(
                ev,
                #[trigger] order@[a] as int,
                #[trigger] order@[b] as int,
            ) by {
                let x = if a < at {
                    a
                } else {
                    a - 1
                };
                let y = if b < at {
                    b
                } else {
                    b - 1
                };
                if a != at {
                    assert(order@[a] == before[x]);
                }
                if b != at {
                    assert(order@[b] == before[y]);
                }
                if b == at && a < at - 1 {
                    assert(evidence_before(ev, before[a] as int, before[at - 1] as int));
                }
            }
        }
    }
    order
}

impl TaskTimeline {
    /// The timeline of no events.
    pub fn new() -> (r: TaskTimeline)
        ensures
            r@ == TimelineView::empty(),
    {
        let r = TaskTimeline {
            generations: Vec::new(),
            event_order: Vec::new(),
            event_generations: Vec::new(),
            spawned_generations: Vec::new(),
        };
        assert(r@.generations =~= Seq::empty());
        r
    }

    /// Adds a generation of a task ID, which gets the next ordinal.
    pub fn push_generation(
        generations: &mut Vec<TaskGeneration>,
        ordinals: &mut SortedMap<String, usize>,
        pid: &str,
        origin: TaskGenerationOrigin,
    ) -> (id: TaskGenerationId)
        requires
            old(ordinals).wf(),
            old(ordinals).map().contains_key(pid@) ==> old(ordinals).map()[pid@] <= old(
                generations,
            )@.len(),
        ensures
            final(ordinals).wf(),
            id.0 == old(generations)@.len(),
            ordinal_after(old(ordinals).map(), pid@) <= usize::MAX,
            final(ordinals).map() == old(ordinals).map().insert(
                pid@,
                ordinal_after(old(ordinals).map(), pid@) as usize,
            ),
            views::each(final(generations)@) == views::each(old(generations)@).push(
                GenerationView {
                    pid: pid@,
                    ordinal: ordinal_after(old(ordinals).map(), pid@) as usize,
                    origin,
                    first_actor_event: None,
                    exit_event: None,
                },
            ),
            final(generations)@.len() <= usize::MAX,
    {
        let id: usize = generations.len();
        let key: String = pid.to_owned();
        generations.push(
            TaskGeneration {
                pid: pid.to_owned(),
                ordinal: 1,
                origin,
                first_actor_event: None,
                exit_event: None,
            },
        );
        let count: usize = generations.len();
        let ordinal: usize = match ordinals.get(&key) {
            Some(n) => *n + 1,
            None => 1,
        };
        generations[id].ordinal = ordinal;
        ordinals.insert(key, ordinal);
        assert(views::each(generations@) =~= views::each(old(generations)@).push(
            GenerationView {
                pid: pid@,
                ordinal,
                origin,
                first_actor_event: None,
                exit_event: None,
            },
        ));
        TaskGenerationId(id)
    }

    /// Interprets events: every event belongs to one generation of its task.
    #[verifier::rlimit(40)]
    #[verifier::spinoff_prover]
    pub fn from_events(events: &[Event]) -> (r: TaskTimeline)
        ensures
            r@.interprets(views::each(events@)),
            r@.wf(events@.len()),
    {
        let order: Vec<usize> = evidence_order(events);
        let n: usize = events.len();
        let ghost ev = views::each(events@);
        let mut generations: Vec<TaskGeneration> = Vec::new();
        let mut event_generations: Vec<Option<TaskGenerationId>> = Vec::new();
        let mut spawned_generations: Vec<Option<TaskGenerationId>> = Vec::new();
        for i in 0..n
            invariant
                event_generations@.len() == i,
                spawned_generations@.len() == i,
                forall|j: int| 0 <= j < i ==> #[trigger] event_generations@[j] is None,
                forall|j: int| 0 <= j < i ==> #[trigger] spawned_generations@[j] is None,
        {
            event_generations.push(None);
            spawned_generations.push(None);
        }
        let mut active: SortedMap<String, TaskGenerationId> = SortedMap::new();
        let mut latest: SortedMap<String, TaskGenerationId> = SortedMap::new();
        let mut ordinals: SortedMap<String, usize> = SortedMap::new();
        let mut has_initial: bool = false;
        proof {
            let start = TimelineState::start(ev.len());
            assert(views::each(generations@) =~= start.generations);
            assert(event_generations@ =~= start.event_generations);
            assert(spawned_generations@ =~= start.spawned_generations);
        }
        for i in 0..n
            invariant
                n == events@.len(),
                ev == views::each(events@),
                is_evidence_order(order@, ev),
                active.wf(),
                latest.wf(),
                ordinals.wf(),
                ({
                    let st = timeline_upto(ev, order@, i as int);
                    &&& views::each(generations@) == st.generations
                    &&& event_generations@ == st.event_generations
                    &&& spawned_generations@ == st.spawned_generations
                    &&& active.map() == st.active
                    &&& latest.map() == st.latest
                    &&& ordinals.map() == st.ordinals
                    &&& has_initial == st.has_initial
                    &&& st.wf(n as nat)
                }),
                forall|k: int| 0 <= k < i ==> event_generations@[#[trigger] order@[k] as int] is Some,
                forall|k: int| i <= k < n ==> event_generations@[#[trigger] order@[k] as int] is None,
        {
            let index: usize = order[i];
            let event: &Event = &events[index];
            let ghost st = timeline_upto(ev, order@, i as int);
            assert(ev[index as int] == event@);
            let ghost s1 = st.with_actor(event.pid@, index);
            let actor: TaskGenerationId = match active.get(&event.pid) {
                Some(id) => *id,
                None => {
                    let origin: TaskGenerationOrigin = if !has_initial {
                        has_initial = true;
                        TaskGenerationOrigin::Initial { event: index }
                    } else {
                        match latest.get(&event.pid) {
                            Some(previous) => TaskGenerationOrigin::Reappeared {
                                previous: *previous,
                                event: index,
                            },
                            None => TaskGenerationOrigin::Unintroduced { event: index },
                        }
                    };
                    let id: TaskGenerationId = Self::push_generation(
                        &mut generations,
                        &mut ordinals,
                        event.pid.as_str(),
                        origin,
                    );
                    active.insert(event.pid.clone(), id);
                    latest.insert(event.pid.clone(), id);
                    id
                },
            };
            let total: usize = generations.len();
            proof {
                assert(views::each(generations@).len() == total);
                actor_wf(st, event.pid@, index, n as nat);
                assert(views::each(generations@) == s1.generations);
                assert(active.map() == s1.active);
                assert(latest.map() == s1.latest);
                assert(ordinals.map() == s1.ordinals);
                assert(actor == s1.active[event.pid@]);
            }
            let ghost s2 = s1.with_event(actor, index);
            event_generations.set(index, Some(actor));
            if generations[actor.0].first_actor_event.is_none() {
                generations[actor.0].first_actor_event = Some(index);
            }
            proof {
                event_wf(s1, actor, index, n as nat);
                assert(views::each(generations@) =~= s2.generations);
            }
            let ghost s3 = if event.kind@ == "exit"@ {
                s2.with_exit(event.pid@, actor, index)
            } else {
                s2
            };
            if text::same(event.kind.as_str(), "exit") {
                generations[actor.0].exit_event = Some(index);
                active.remove(&event.pid);
                proof {
                    exit_wf(s2, event.pid@, actor, index, n as nat);
                    assert(views::each(generations@) =~= s3.generations);
                }
            }
            match &event.child_pid {
                Some(child) => {
                    let origin: TaskGenerationOrigin = match active.get(child) {
                        Some(previous) => TaskGenerationOrigin::LiveCollision {
                            previous: *previous,
                            event: index,
                        },
                        None => TaskGenerationOrigin::Spawned { parent: actor, event: index },
                    };
                    let id: TaskGenerationId = Self::push_generation(
                        &mut generations,
                        &mut ordinals,
                        child.as_str(),
                        origin,
                    );
                    active.insert(child.clone(), id);
                    latest.insert(child.clone(), id);
                    spawned_generations.set(index, Some(id));
                    let total: usize = generations.len();
                    proof {
                        assert(views::each(generations@).len() == total);
                        child_wf(s3, child@, actor, index, n as nat);
                    }
                },
                None => {},
            }
            proof {
                assert(timeline_upto(ev, order@, i + 1) == st.step(ev, index));
                assert forall|k: int| i < k < n implies event_generations@[
                #[trigger] order@[k] as int] is None by {
                    assert(evidence_before(ev, order@[i as int] as int, order@[k] as int));
                }
            }
        }
        let mut owners: Vec<TaskGenerationId> = Vec::new();
        for i in 0..n
            invariant
                n == events@.len(),
                n == event_generations@.len(),
                ev == views::each(events@),
                is_evidence_order(order@, ev),
                forall|k: int| 0 <= k < n ==> event_generations@[#[trigger] order@[k] as int] is Some,
                owners@.len() == i,
                forall|j: int| 0 <= j < i ==> event_generations@[j] == Some(#[trigger] owners@[j]),
        {
            assert(event_generations@[i as int] is Some) by {
                assert(order@.contains(i));
            }
            match event_generations[i] {
                Some(id) => {
                    owners.push(id);
                },
                None => {},
            }
        }
        TaskTimeline {
            generations,
            event_order: order,
            event_generations: owners,
            spawned_generations,
        }
    }

    /// Return the task generation that produced one normalized event index.
    pub fn event_generation(&self, event: usize) -> (r: TaskGenerationId)
        requires
            event < self@.event_generations.len(),
        ensures
            r == self@.event_generations[event as int],
    {
        self.event_generations[event]
    }

    /// The normalized event indices by `(line, end_line, insertion_index)`.
    pub fn events_in_evidence_order(&self) -> (r: &Vec<usize>)
        ensures
            r@ == self@.event_order,
    {
        &self.event_order
    }

    /// Every observed generation in deterministic creation order.
    pub fn generations(&self) -> (r: Vec<TaskGenerationId>)
        ensures
            r@ == Seq::new(self@.generations.len(), |i: int| TaskGenerationId(i as usize)),
    {
        let mut r: Vec<TaskGenerationId> = Vec::new();
        for i in 0..self.generations.len()
            invariant
                r@ == Seq::new(i as nat, |i: int| TaskGenerationId(i as usize)),
        {
            r.push(TaskGenerationId(i));
            assert(r@ =~= Seq::new((i + 1) as nat, |i: int| TaskGenerationId(i as usize)));
        }
        r
    }

    /// The number of generations.
    pub fn generation_count(&self) -> (r: usize)
        ensures
            r == self@.generations.len(),
    {
        self.generations.len()
    }

    /// The generation that an event spawned.
    pub fn spawned_generation(&self, event: usize) -> (r: Option<TaskGenerationId>)
        ensures
            r == (if event < self@.spawned_generations.len() {
                self@.spawned_generations[event as int]
            } else {
                None
            }),
    {
        if event < self.spawned_generations.len() {
            self.spawned_generations[event]
        } else {
            None
        }
    }

    /// How a generation came to be known.
    pub fn origin(&self, generation: TaskGenerationId) -> (r: TaskGenerationOrigin)
        requires
            generation.0 < self@.generations.len(),
        ensures
            r == self@.generations[generation.0 as int].origin,
    {
        self.generations[generation.0].origin
    }

    /// Format a generation as the diagnostic-only `PID#ordinal` label.
    pub fn label(&self, generation: TaskGenerationId) -> (r: String)
        requires
            generation.0 < self@.generations.len(),
        ensures
            r@ == self@.generations[generation.0 as int].label(),
    {
        let g: &TaskGeneration = &self.generations[generation.0];
        let mut s: String = g.pid.clone();
        s.append("#");
        s.append(numbers::decimal_string(g.ordinal as u128).as_str());
        s
    }

    /// Return the raw numeric PID spelling for one generation.
    pub fn pid(&self, generation: TaskGenerationId) -> (r: &str)
        requires
            generation.0 < self@.generations.len(),
        ensures
            r@ == self@.generations[generation.0 as int].pid,
    {
        self.generations[generation.0].pid.as_str()
    }

    /// Return the normalized exit-event index belonging to this generation.
    pub fn exit_event(&self, generation: TaskGenerationId) -> (r: Option<usize>)
        requires
            generation.0 < self@.generations.len(),
        ensures
            r == self@.generations[generation.0 as int].exit_event,
    {
        self.generations[generation.0].exit_event
    }

    /// The first event that a generation produced.
    pub fn first_actor_event(&self, generation: TaskGenerationId) -> (r: Option<usize>)
        requires
            generation.0 < self@.generations.len(),
        ensures
            r == self@.generations[generation.0 as int].first_actor_event,
    {
        self.generations[generation.0].first_actor_event
    }

    /// Whether the identity of a generation is not established.
    pub fn is_untrusted(&self, generation: TaskGenerationId) -> (r: bool)
        requires
            generation.0 < self@.generations.len(),
        ensures
            r == self@.untrusted(generation),
    {
        match self.generations[generation.0].origin {
            TaskGenerationOrigin::Unintroduced { event } => true,
            TaskGenerationOrigin::Reappeared { previous, event } => true,
            TaskGenerationOrigin::LiveCollision { previous, event } => true,
            _ => false,
        }
    }

    /// Where a generation exited, as the finding on its successor says it.
    fn exit_place(&self, events: &Vec<Event>, generation: TaskGenerationId) -> (r: String)
        requires
            generation.0 < self@.generations.len(),
        ensures
            r@ == self@.exit_place(views::each(events@), generation),
    {
        match self.generations[generation.0].exit_event {
            Some(e) => {
                if e < events.len() {
                    assert(views::each(events@)[e as int] == events@[e as int]@);
                    let mut s: String = " at ".to_owned();
                    s.append(events[e].evidence.file.as_str());
                    s.append(":");
                    s.append(numbers::decimal_string(events[e].evidence.line as u128).as_str());
                    s
                } else {
                    "".to_owned()
                }
            },
            None => "".to_owned(),
        }
    }

    /// What is wrong with the identity of a generation.
    fn identity_detail(&self, events: &Vec<Event>, id: TaskGenerationId) -> (r: Option<String>)
        requires
            self@.wf(events@.len()),
            id.0 < self@.generations.len(),
        ensures
            views::opt(r) == self@.identity_detail(views::each(events@), id.0 as int),
    {
        assert(generation_wf(
            self@.generations[id.0 as int],
            self@.generations.len(),
            events@.len(),
        ));
        match self.generations[id.0].origin {
            TaskGenerationOrigin::Unintroduced { event } => {
                let mut s: String = "Unintroduced: task ".to_owned();
                s.append(self.label(id).as_str());
                s.append(" appeared without a successful spawn");
                Some(s)
            },
            TaskGenerationOrigin::Reappeared { previous, event } => {
                let mut s: String = "Reappeared: task ".to_owned();
                s.append(self.label(id).as_str());
                s.append(" appeared after ");
                s.append(self.label(previous).as_str());
                s.append(" exited");
                s.append(self.exit_place(events, previous).as_str());
                s.append(" without a successful spawn");
                Some(s)
            },
            TaskGenerationOrigin::LiveCollision { previous, event } => {
                let mut s: String = "LiveCollision: successful spawn assigned ".to_owned();
                s.append(self.label(id).as_str());
                s.append(" while ");
                s.append(self.label(previous).as_str());
                s.append(" was still live");
                Some(s)
            },
            _ => None,
        }
    }

    /// Marks the events whose task identity is not established, and reports each
    /// such identity.
    pub fn apply_identity_findings(&self, parsed: &mut Parsed)
        requires
            self@.wf(old(parsed).events@.len()),
        ensures
            views::each(final(parsed).events@) == self@.marked_upto(
                views::each(old(parsed).events@),
                self@.generations.len() as int,
            ),
            views::each(final(parsed).warnings@) == views::each(old(parsed).warnings@)
                + self@.findings_upto(
                views::each(old(parsed).events@),
                self@.generations.len() as int,
            ),
            final(parsed).lines == old(parsed).lines,
            final(parsed).timeline == old(parsed).timeline,
    {
        let ghost ev = views::each(parsed.events@);
        let ghost was = views::each(parsed.warnings@);
        let n: usize = parsed.events.len();
        for i in 0..n
            invariant
                n == ev.len(),
                n == parsed.events@.len(),
                self@.wf(n as nat),
                was == views::each(parsed.warnings@),
                parsed.lines == old(parsed).lines,
                parsed.timeline == old(parsed).timeline,
                forall|j: int|
                    #![trigger parsed.events@[j]]
                    0 <= j < n ==> parsed.events@[j]@ == (if j < i {
                        EventView {
                            context_uncertain: ev[j].context_uncertain || self@.untrusted(
                                self@.event_generations[j],
                            ),
                            ..ev[j]
                        }
                    } else {
                        ev[j]
                    }),
        {
            assert((self@.event_generations[i as int]).0 < self@.generations.len());
            if self.is_untrusted(self.event_generations[i]) {
                parsed.events[i].context_uncertain = true;
            }
        }
        assert(views::each(parsed.events@) =~= self@.marked_upto(ev, 0));
        for g in 0..self.generations.len()
            invariant
                n == ev.len(),
                self@.wf(n as nat),
                views::each(parsed.events@) == self@.marked_upto(ev, g as int),
                views::each(parsed.warnings@) == was + self@.findings_upto(ev, g as int),
                parsed.lines == old(parsed).lines,
                parsed.timeline == old(parsed).timeline,
        {
            let id: TaskGenerationId = TaskGenerationId(g);
            let ghost shown = views::each(parsed.events@);
            assert(shown.len() == n);
            assert(parsed.events@.len() == n);
            proof {
                assert(generation_wf(
                    self@.generations[g as int],
                    self@.generations.len(),
                    n as nat,
                ));
                findings_by_evidence(self@, shown, ev, g + 1);
            }
            match self.identity_detail(&parsed.events, id) {
                Some(detail) => {
                    let event: usize = match self.generations[g].origin {
                        TaskGenerationOrigin::Initial { event } => event,
                        TaskGenerationOrigin::Spawned { parent, event } => event,
                        TaskGenerationOrigin::Unintroduced { event } => event,
                        TaskGenerationOrigin::Reappeared { previous, event } => event,
                        TaskGenerationOrigin::LiveCollision { previous, event } => event,
                    };
                    assert(shown[event as int] == parsed.events@[event as int]@);
                    parsed.events[event].context_uncertain = true;
                    let mut s: String = parsed.events[event].evidence.file.clone();
                    s.append(":");
                    s.append(
                        numbers::decimal_string(parsed.events[event].evidence.line as u128).as_str(),
                    );
                    s.append(": task.identity: ");
                    s.append(detail.as_str());
                    s.append("; generation identity is incomplete");
                    parsed.warnings.push(s);
                    proof {
                        let marked = self@.marked_upto(ev, g + 1);
                        assert forall|j: int| 0 <= j < n implies parsed.events@[j]@
                            == #[trigger] marked[j] by {
                            assert(parsed.events@[j]@ == (EventView {
                                context_uncertain: shown[j].context_uncertain || j == event,
                                ..shown[j]
                            }));
                            assert(self@.shows_untrusted(j, g + 1) == (self@.shows_untrusted(
                                j,
                                g as int,
                            ) || j == event)) by {
                                assert(self@.generations[g as int].origin.untrusted());
                            }
                        }
                        assert(views::each(parsed.events@) =~= marked);
                        assert(self@.findings_upto(ev, g + 1) == self@.findings_upto(
                            ev,
                            g as int,
                        ).push(s@));
                        assert(was + self@.findings_upto(ev, g + 1) =~= (was + self@.findings_upto(
                            ev,
                            g as int,
                        )).push(s@));
                    }
                },
                None => {
                    proof {
                        assert forall|j: int| 0 <= j < n implies self@.shows_untrusted(j, g + 1)
                            == self@.shows_untrusted(j, g as int) by {
                            assert(!self@.generations[g as int].origin.untrusted());
                        }
                        assert(self@.marked_upto(ev, g + 1) =~= self@.marked_upto(ev, g as int));
                    }
                },
            }
        }
    }
}

/// More generations than can be numbered stay more.
proof fn too_many_stay(events: Seq<EventView>, order: Seq<usize>, n: int)
    requires
        0 < n,
        timeline_upto(events, order, n - 1).generations.len() > usize::MAX,
    ensures
        timeline_upto(events, order, n).generations.len() > usize::MAX,
{
    let st = timeline_upto(events, order, n - 1);
    let event = events[order[n - 1] as int];
    let s1 = st.with_actor(event.pid, order[n - 1]);
    let actor = s1.active[event.pid];
    assert(s1.generations.len() >= st.generations.len());
    assert(actor.0 < s1.generations.len());
    let s2 = s1.with_event(actor, order[n - 1]);
    assert(s2.generations.len() == s1.generations.len());
    assert(s2.with_exit(event.pid, actor, order[n - 1]).generations.len()
        == s1.generations.len());
}

/// The state after some events is well-formed where its generations can be numbered, and
/// exactly those events have a generation.
proof fn numbered_wf(events: Seq<EventView>, order: Seq<usize>, n: int)
    requires
        is_evidence_order(order, events),
        0 <= n <= order.len(),
        timeline_upto(events, order, n).generations.len() <= usize::MAX,
    ensures
        timeline_upto(events, order, n).wf(events.len()),
        n > 0 ==> timeline_upto(events, order, n - 1).generations.len() <= timeline_upto(
            events,
            order,
            n,
        ).generations.len(),
        forall|k: int|
            0 <= k < n ==> timeline_upto(events, order, n).event_generations[
            #[trigger] order[k] as int] is Some,
        forall|k: int|
            n <= k < order.len() ==> timeline_upto(events, order, n).event_generations[
            #[trigger] order[k] as int] is None,
    decreases n,
{
    if n > 0 {
        let st = timeline_upto(events, order, n - 1);
        let index = order[n - 1];
        let event = events[index as int];
        let len = events.len();
        if st.generations.len() > usize::MAX {
            too_many_stay(events, order, n);
        }
        numbered_wf(events, order, n - 1);
        let out = timeline_upto(events, order, n);
        let s1 = st.with_actor(event.pid, index);
        assert(s1.generations.len() <= usize::MAX) by {
            let actor = s1.active[event.pid];
            if s1.generations.len() > usize::MAX {
                assert(actor.0 < s1.generations.len());
                assert(out.generations.len() >= s1.generations.len());
            }
        }
        actor_wf(st, event.pid, index, len);
        let actor = s1.active[event.pid];
        let s2 = s1.with_event(actor, index);
        event_wf(s1, actor, index, len);
        let s3 = if event.kind == "exit"@ {
            s2.with_exit(event.pid, actor, index)
        } else {
            s2
        };
        if event.kind == "exit"@ {
            exit_wf(s2, event.pid, actor, index, len);
        }
        if event.child_pid is Some {
            child_wf(s3, event.child_pid->0, actor, index, len);
        }
        assert forall|k: int| n <= k < order.len() implies out.event_generations[
        #[trigger] order[k] as int] is None by {
            assert(evidence_before(events, index as int, order[k] as int));
        }
    }
}

/// An event introduces at most two generations, so that the generations of few enough
/// events can be numbered: the state after some of them is well-formed, and exactly those
/// events have a generation.
pub proof fn upto_wf(events: Seq<EventView>, order: Seq<usize>, n: int)
    requires
        is_evidence_order(order, events),
        0 <= n <= order.len(),
        2 * events.len() <= usize::MAX,
    ensures
        timeline_upto(events, order, n).wf(events.len()),
        timeline_upto(events, order, n).generations.len() <= 2 * n,
        forall|k: int|
            0 <= k < n ==> timeline_upto(events, order, n).event_generations[
            #[trigger] order[k] as int] is Some,
        forall|k: int|
            n <= k < order.len() ==> timeline_upto(events, order, n).event_generations[
            #[trigger] order[k] as int] is None,
    decreases n,
{
    if n > 0 {
        upto_wf(events, order, n - 1);
        let st = timeline_upto(events, order, n - 1);
        let index = order[n - 1];
        let s1 = st.with_actor(events[index as int].pid, index);
        actor_wf(st, events[index as int].pid, index, events.len());
        assert(s1.active[events[index as int].pid].0 < s1.generations.len());
    }
    numbered_wf(events, order, n);
}

/// The place of an event in evidence order.
spec fn evidence_key(events: Seq<EventView>, k: usize) -> IndexKey {
    IndexKey {
        major: events[k as int].evidence.line,
        minor: events[k as int].evidence.end_line,
        index: k,
    }
}

/// Events have only one evidence order.
pub proof fn evidence_order_is_unique(a: Seq<usize>, b: Seq<usize>, events: Seq<EventView>)
    requires
        is_evidence_order(a, events),
        is_evidence_order(b, events),
    ensures
        a == b,
{
    let x = Seq::new(a.len(), |i: int| evidence_key(events, a[i]));
    let y = Seq::new(b.len(), |i: int| evidence_key(events, b[i]));
    assert forall|k: IndexKey| x.contains(k) <==> y.contains(k) by {
        if x.contains(k) {
            let i = choose|i: int| 0 <= i < x.len() && x[i] == k;
            assert(a[i] < events.len());
            assert(b.contains(a[i]));
            let j = choose|j: int| 0 <= j < b.len() && b[j] == a[i];
            assert(y[j] == k);
        }
        if y.contains(k) {
            let i = choose|i: int| 0 <= i < y.len() && y[i] == k;
            assert(b[i] < events.len());
            assert(a.contains(b[i]));
            let j = choose|j: int| 0 <= j < a.len() && a[j] == b[i];
            assert(x[j] == k);
        }
    }
    order::increasing_unique::<IndexKey>(x, y);
    assert forall|i: int| 0 <= i < a.len() implies a[i] == b[i] by {
        assert(x[i] == y[i]);
    }
    assert(a =~= b);
}

/// Events have only one interpretation, whatever order they were observed in beyond
/// their evidence.
pub proof fn interpretation_is_unique(a: TimelineView, b: TimelineView, events: Seq<EventView>)
    requires
        a.interprets(events),
        b.interprets(events),
    ensures
        a == b,
{
    evidence_order_is_unique(a.event_order, b.event_order, events);
    assert forall|i: int| 0 <= i < events.len() implies a.event_generations[i]
        == b.event_generations[i] by {
        assert(Some(a.event_generations[i]) == Some(b.event_generations[i]));
    }
    assert(a.event_generations =~= b.event_generations);
}

/// What holds of exits after the first `n` events: a live generation has the task ID that
/// it is found by and has not exited, and the exit of a generation is the last of its
/// events.
spec fn exits_at(events: Seq<EventView>, order: Seq<usize>, n: int, st: TimelineState) -> bool {
    &&& forall|p: Seq<char>| #[trigger]
        st.active.contains_key(p) ==> {
            let g = st.generations[st.active[p].0 as int];
            st.active[p].0 < st.generations.len() && g.pid == p && g.exit_event is None
        }
    &&& forall|k: int|
        0 <= k < n ==> {
            let i = #[trigger] order[k];
            &&& st.event_generations[i as int] matches Some(h)
            &&& h.0 < st.generations.len()
            &&& events[i as int].kind == "exit"@ ==> st.generations[h.0 as int].exit_event
                == Some(i)
        }
    &&& forall|g: int|
        0 <= g < st.generations.len() ==> ((#[trigger] st.generations[g]).exit_event matches Some(x)
            ==> ends(events, order, n, st, g, x))
}

/// Whether an event is an exit of a generation and the last of its first `n` events.
spec fn ends(
    events: Seq<EventView>,
    order: Seq<usize>,
    n: int,
    st: TimelineState,
    g: int,
    x: usize,
) -> bool {
    &&& x < events.len()
    &&& events[x as int].kind == "exit"@
    &&& st.event_generations[x as int] == Some(TaskGenerationId(g as usize))
    &&& forall|k: int|
        0 <= k < n && st.event_generations[#[trigger] order[k] as int] == Some(
            TaskGenerationId(g as usize),
        ) ==> order[k] == x || evidence_before(events, order[k] as int, x as int)
}

proof fn exits_upto(events: Seq<EventView>, order: Seq<usize>, n: int)
    requires
        is_evidence_order(order, events),
        0 <= n <= order.len(),
        timeline_upto(events, order, n).generations.len() <= usize::MAX,
    ensures
        exits_at(events, order, n, timeline_upto(events, order, n)),
    decreases n,
{
    if n > 0 {
        numbered_wf(events, order, n);
        exits_upto(events, order, n - 1);
        numbered_wf(events, order, n - 1);
        let st = timeline_upto(events, order, n - 1);
        let out = timeline_upto(events, order, n);
        let index = order[n - 1];
        let event = events[index as int];
        let s1 = st.with_actor(event.pid, index);
        let actor = s1.active[event.pid];
        assert(s1.active.contains_key(event.pid));
        assert(actor.0 < s1.generations.len());
        assert(s1.generations[actor.0 as int].pid == event.pid);
        assert(s1.generations[actor.0 as int].exit_event is None);
        assert(out.event_generations == st.event_generations.update(index as int, Some(actor)));
        assert forall|k: int| 0 <= k < n - 1 implies (#[trigger] order[k]) != index by {
            assert(evidence_before(events, order[k] as int, index as int));
        }
        assert forall|k: int| 0 <= k < n implies {
            let i = #[trigger] order[k];
            &&& out.event_generations[i as int] matches Some(h)
            &&& h.0 < out.generations.len()
            &&& events[i as int].kind == "exit"@ ==> out.generations[h.0 as int].exit_event
                == Some(i)
        } by {
            if k < n - 1 {
                let h = st.event_generations[order[k] as int]->0;
                assert(h.0 < st.generations.len());
                if events[order[k] as int].kind == "exit"@ {
                    assert(st.generations[h.0 as int].exit_event == Some(order[k]));
                    assert(h != actor);
                }
            }
        }
        assert forall|g: int| 0 <= g < out.generations.len() implies ((
        #[trigger] out.generations[g]).exit_event matches Some(x) ==> ends(
            events,
            order,
            n,
            out,
            g,
            x,
        )) by {
            if out.generations[g].exit_event is Some {
                let x = out.generations[g].exit_event->0;
                if g == actor.0 {
                    assert(x == index);
                    assert forall|k: int| 0 <= k < n && out.event_generations[
                    #[trigger] order[k] as int] == Some(
                        TaskGenerationId(g as usize),
                    ) implies order[k] == x || evidence_before(
                        events,
                        order[k] as int,
                        x as int,
                    ) by {
                        if k < n - 1 {
                            assert(evidence_before(events, order[k] as int, order[n - 1] as int));
                        }
                    }
                } else {
                    assert(g < st.generations.len());
                    assert(st.generations[g].exit_event == Some(x));
                    assert(ends(events, order, n - 1, st, g, x));
                    assert(st.event_generations[x as int] is Some);
                    assert(st.event_generations[order[n - 1] as int] is None);
                    assert(x != index);
                    assert forall|k: int| 0 <= k < n && out.event_generations[
                    #[trigger] order[k] as int] == Some(
                        TaskGenerationId(g as usize),
                    ) implies order[k] == x || evidence_before(
                        events,
                        order[k] as int,
                        x as int,
                    ) by {
                        assert(k < n - 1);
                    }
                }
            }
        }
    }
}

/// An exit belongs to the generation whose task produced it, so that no generation
/// borrows the exit of another one with the same task ID: the exit of a generation is an
/// event if and only if that event is an exit of that generation, and it is the last
/// event of the generation in evidence order.
pub proof fn exits_are_never_borrowed(t: TimelineView, events: Seq<EventView>, g: int)
    requires
        t.interprets(events),
        t.wf(events.len()),
        0 <= g < t.generations.len(),
    ensures
        forall|x: usize|
            t.generations[g].exit_event == Some(x) <==> x < events.len() && (
            #[trigger] events[x as int]).kind == "exit"@ && t.event_generations[x as int]
                == TaskGenerationId(g as usize),
        t.generations[g].exit_event matches Some(x) ==> forall|i: usize|
            i < events.len() && #[trigger] t.event_generations[i as int] == TaskGenerationId(
                g as usize,
            ) ==> i == x || evidence_before(events, i as int, x as int),
{
    let order = t.event_order;
    let n = events.len() as int;
    let st = timeline_upto(events, order, n);
    numbered_wf(events, order, n);
    exits_upto(events, order, n);
    assert forall|x: usize|
        t.generations[g].exit_event == Some(x) <==> x < events.len() && (
        #[trigger] events[x as int]).kind == "exit"@ && t.event_generations[x as int]
            == TaskGenerationId(g as usize) by {
        if t.generations[g].exit_event == Some(x) {
            assert(ends(events, order, n, st, g, x));
            assert(Some(t.event_generations[x as int]) == st.event_generations[x as int]);
        }
        if x < events.len() && events[x as int].kind == "exit"@ && t.event_generations[x as int]
            == TaskGenerationId(g as usize) {
            assert(order.contains(x));
            let k = choose|k: int| 0 <= k < order.len() && order[k] == x;
            assert(Some(t.event_generations[x as int]) == st.event_generations[x as int]);
            assert(st.event_generations[order[k] as int] == Some(TaskGenerationId(g as usize)));
        }
    }
    if t.generations[g].exit_event is Some {
        let x = t.generations[g].exit_event->0;
        assert(ends(events, order, n, st, g, x));
        assert forall|i: usize| i < events.len() && #[trigger] t.event_generations[i as int]
            == TaskGenerationId(g as usize) implies i == x || evidence_before(
            events,
            i as int,
            x as int,
        ) by {
            assert(order.contains(i));
            let k = choose|k: int| 0 <= k < order.len() && order[k] == i;
            assert(Some(t.event_generations[i as int]) == st.event_generations[i as int]);
            assert(st.event_generations[order[k] as int] == Some(TaskGenerationId(g as usize)));
        }
    }
}

} // verus!
