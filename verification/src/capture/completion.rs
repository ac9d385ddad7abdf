//! Process completion, as the task generations of a trace show it.
use vstd::prelude::*;
use vstd::string::*;

use crate::model::{Event, EventView};
use crate::order;
use crate::order::sort_texts;
use crate::parse::timeline::{GenerationView, Parsed, TaskGenerationId, TaskTimeline, TimelineView};
use crate::parse::trace::{TraceParser, TraceView};
use crate::sorted_map::SortedMap;
use crate::text;
use crate::views;

verus! {

broadcast use crate::views::group_views;

/// Process completion from the evidence-ordered task generations of a trace.
///
/// The root is the generation containing the first successful exec. An exit
/// satisfies only its own generation, so an earlier incarnation of the same
/// numeric PID cannot prove either root or child completion.
#[derive(Debug)]
pub struct Completion {
    /// The event in which the root ended.
    pub root_exit: Option<usize>,
    /// The tasks whose end was not observed.
    pub missing_exits: Vec<String>,
}

/// Whether an event is a successful exec.
pub open spec fn successful_exec(e: EventView) -> bool {
    e.kind == "exec"@ && e.outcome == "success"@
}

/// The position from `i` on of the first successful exec in an order of events.
pub open spec fn first_exec(events: Seq<EventView>, order: Seq<usize>, i: int) -> Option<int>
    decreases order.len() - i,
{
    if i < 0 || i >= order.len() {
        None
    } else if successful_exec(events[order[i] as int]) {
        Some(i)
    } else {
        first_exec(events, order, i + 1)
    }
}

/// The event in which the root ended.
pub open spec fn root_exit_of(events: Seq<EventView>, timeline: TimelineView) -> Option<usize> {
    match first_exec(events, timeline.event_order, 0) {
        None => None,
        Some(i) => timeline.generations[timeline.event_generations[timeline.event_order[i] as int].0 as int].exit_event,
    }
}

/// The number of the first `n` generations with a PID.
pub open spec fn pid_count(generations: Seq<GenerationView>, pid: Seq<char>, n: int) -> int
    decreases n,
{
    if n <= 0 {
        0
    } else {
        pid_count(generations, pid, n - 1) + (if generations[n - 1].pid == pid {
            1int
        } else {
            0
        })
    }
}

/// The name of a generation: its PID, where no other generation has it.
pub open spec fn task_name(generations: Seq<GenerationView>, g: int) -> Seq<char> {
    if pid_count(generations, generations[g].pid, generations.len() as int) == 1 {
        generations[g].pid
    } else {
        generations[g].label()
    }
}

/// The names of those of the first `n` generations whose end was not observed.
pub open spec fn missing_upto(generations: Seq<GenerationView>, n: int) -> Seq<Seq<char>>
    decreases n,
{
    if n <= 0 {
        Seq::empty()
    } else if generations[n - 1].exit_event is None {
        missing_upto(generations, n - 1).push(task_name(generations, n - 1))
    } else {
        missing_upto(generations, n - 1)
    }
}

/// The names of the generations whose end was not observed, in ascending order.
pub open spec fn missing_exits_of(timeline: TimelineView) -> Seq<Seq<char>> {
    order::sorted(missing_upto(timeline.generations, timeline.generations.len() as int))
}

/// Counts the generations by PID.
fn count_pids(timeline: &TaskTimeline) -> (counts: SortedMap<String, usize>)
    requires
        timeline@.generations.len() <= usize::MAX,
    ensures
        counts.wf(),
        forall|g: int|
            0 <= g < timeline@.generations.len() ==> counts.map().contains_key(
                (#[trigger] timeline@.generations[g]).pid,
            ),
        forall|pid: Seq<char>| #[trigger]
            counts.map().contains_key(pid) ==> counts.map()[pid] == pid_count(
                timeline@.generations,
                pid,
                timeline@.generations.len() as int,
            ),
{
    let mut counts: SortedMap<String, usize> = SortedMap::new();
    let n: usize = timeline.generation_count();
    for i in 0..n
        invariant
            n == timeline@.generations.len(),
            counts.wf(),
            forall|g: int|
                0 <= g < i ==> counts.map().contains_key((#[trigger] timeline@.generations[g]).pid),
            forall|pid: Seq<char>|
                #[trigger] counts.map().contains_key(pid) ==> counts.map()[pid] == pid_count(
                    timeline@.generations,
                    pid,
                    i as int,
                ),
            forall|pid: Seq<char>|
                !(#[trigger] counts.map().contains_key(pid)) ==> pid_count(
                    timeline@.generations,
                    pid,
                    i as int,
                ) == 0,
            forall|pid: Seq<char>|
                #[trigger] counts.map().contains_key(pid) ==> counts.map()[pid] <= i,
    {
        let pid: String = timeline.pid(TaskGenerationId(i)).to_owned();
        let count: usize = match counts.get(&pid) {
            Some(count) => *count,
            None => 0,
        };
        let ghost before = counts.map();
        let ghost p = pid@;
        counts.insert(pid, count + 1);
        assert(counts.map() == before.insert(p, (count + 1) as usize));
    }
    counts
}

impl Completion {
    /// Derives process completion from a parsed trace.
    pub fn from_timeline(parsed: &Parsed) -> (r: Completion)
        requires
            parsed.timeline@.wf(parsed.events@.len()),
        ensures
            r.root_exit == root_exit_of(views::each(parsed.events@), parsed.timeline@),
            views::each(r.missing_exits@) == missing_exits_of(parsed.timeline@),
            r.root_exit matches Some(e) ==> e < parsed.events@.len(),
    {
        let timeline: &TaskTimeline = &parsed.timeline;
        let ghost events = views::each(parsed.events@);
        let ghost view = timeline@;
        let order: &Vec<usize> = timeline.events_in_evidence_order();
        let mut root_exit: Option<usize> = None;
        let mut i: usize = 0;
        let mut found: bool = false;
        while i < order.len() && !found
            invariant
                i <= order@.len(),
                timeline@ == view,
                view.wf(parsed.events@.len()),
                order@ == view.event_order,
                events == views::each(parsed.events@),
                !found ==> root_exit is None && root_exit_of(events, view) == (match first_exec(
                    events,
                    view.event_order,
                    i as int,
                ) {
                    None => None,
                    Some(
                        i,
                    ) => view.generations[view.event_generations[view.event_order[i] as int].0 as int].exit_event,
                }),
                found ==> root_exit == root_exit_of(events, view) && i > 0,
                root_exit matches Some(e) ==> e < parsed.events@.len(),
            decreases order@.len() - i + (if found {
                0int
            } else {
                1int
            }),
        {
            let index: usize = order[i];
            assert(view.event_order[i as int] == index);
            let event: &Event = &parsed.events[index];
            assert(events[index as int] == event@);
            if text::same(event.kind.as_str(), "exec") && text::same(
                event.outcome.as_str(),
                "success",
            ) {
                assert(view.event_generations[index as int].0 < view.generations.len());
                let g: TaskGenerationId = timeline.event_generation(index);
                root_exit = timeline.exit_event(g);
                found = true;
                assert(first_exec(events, view.event_order, i as int) == Some(i as int));
            }
            i = i + 1;
        }

        let counts: SortedMap<String, usize> = count_pids(timeline);
        let mut missing: Vec<String> = Vec::new();
        let n: usize = timeline.generation_count();
        for g in 0..n
            invariant
                n == view.generations.len(),
                timeline@ == view,
                counts.wf(),
                forall|g: int|
                    0 <= g < view.generations.len() ==> counts.map().contains_key(
                        (#[trigger] view.generations[g]).pid,
                    ),
                forall|pid: Seq<char>| #[trigger]
                    counts.map().contains_key(pid) ==> counts.map()[pid] == pid_count(
                        view.generations,
                        pid,
                        view.generations.len() as int,
                    ),
                views::each(missing@) == missing_upto(view.generations, g as int),
        {
            let id: TaskGenerationId = TaskGenerationId(g);
            if timeline.exit_event(id).is_none() {
                let pid: String = timeline.pid(id).to_owned();
                assert(view.generations[g as int].pid == pid@);
                let single: bool = match counts.get(&pid) {
                    Some(count) => *count == 1,
                    None => false,
                };
                if single {
                    missing.push(pid);
                } else {
                    missing.push(timeline.label(id));
                }
            }
        }
        Completion { root_exit, missing_exits: sort_texts(missing) }
    }
}

/// The parser of a captured trace, before its first line.
pub open spec fn trace_start(initial_cwd: Seq<char>) -> TraceView {
    TraceView::start("raw/trace.log"@, Some(initial_cwd))
}

/// Starts the parser of a captured trace.
pub fn trace_parser<'a>(initial_cwd: &'a str) -> (r: TraceParser<'a>)
    ensures
        r.wf(),
        r@ == trace_start(initial_cwd@),
{
    TraceParser::new("raw/trace.log", Some(initial_cwd))
}

/// Gives the parsed trace once its lines have been read, discarding every prefix
/// fact on a read failure.
///
/// Finishing a fresh parser on failure lets no prefix events, warnings, task
/// generations, or line count escape.
pub fn parse_trace_stream(initial_cwd: &str, parser: TraceParser<'_>, failure: Option<String>) -> (r: (
    Parsed,
    Option<String>,
))
    requires
        parser.wf(),
    ensures
        match failure {
            None => parser@.gives(r.0),
            Some(_) => trace_start(initial_cwd@).gives(r.0),
        },
        views::opt(r.1) == views::opt(failure),
{
    match failure {
        None => (parser.finish(), None),
        Some(error) => (empty_trace_parse(initial_cwd), Some(error)),
    }
}

/// Gives the parsed trace of no lines.
pub fn empty_trace_parse(initial_cwd: &str) -> (r: Parsed)
    ensures
        trace_start(initial_cwd@).gives(r),
{
    trace_parser(initial_cwd).finish()
}

} // verus!
