//! Deterministic, I/O-free comparison of already-loaded runs.
//!
//! The result keeps a four-way contract: `0` is trusted equality, `1` is a trusted
//! observed difference, `2` is a load/tool error with no ordinary comparison
//! conclusion, and `3` is incomplete or unverified evidence. A change is an
//! investigation clue, never proof of causation or file identity.
use vstd::prelude::*;
use vstd::string::*;

use crate::model::{
    Environment, Event, EventView, Evidence, EvidenceView, LoadOutcome, Metadata, Run,
    StorageLoadFailureKind,
};
use crate::numbers;
use crate::order;
use crate::order::{Place, SortKey};
use crate::sorted_map::{merged_keys, SortedMap};
use crate::text;
use crate::views;

verus! {

broadcast use crate::views::group_views;

/// Presentation-neutral tier used to order complete semantic changes.
#[derive(Debug, Clone, Copy, PartialEq, Eq, PartialOrd, Ord, Structural)]
pub enum RankClass {
    /// Target outcome changed.
    ExitStatus,
    /// Capture state, completeness, or warnings changed.
    CaptureCompleteness,
    /// Invocation context such as command, CWD, or selected environment changed.
    InvocationContext,
    /// A uniquely successful observation became only failures.
    SuccessToFailure,
    /// A newly observed execution attempt has no successful outcome.
    FailedExecutionAttempt,
    /// A successful executable observation appeared.
    NewExecutable,
    /// A file access appeared.
    NewFileAccess,
    /// A successful executable observation disappeared.
    RemovedExecutable,
    /// An existing file or execution attempt changed its outcome set.
    OutcomeSetChange,
    /// Another complete semantic observation changed.
    OtherObservation,
}

/// The number of tiers.
pub const RANK_CLASSES: usize = 10;

impl RankClass {
    /// The position of the tier.
    pub open spec fn position(self) -> int {
        match self {
            RankClass::ExitStatus => 0,
            RankClass::CaptureCompleteness => 1,
            RankClass::InvocationContext => 2,
            RankClass::SuccessToFailure => 3,
            RankClass::FailedExecutionAttempt => 4,
            RankClass::NewExecutable => 5,
            RankClass::NewFileAccess => 6,
            RankClass::RemovedExecutable => 7,
            RankClass::OutcomeSetChange => 8,
            RankClass::OtherObservation => 9,
        }
    }

    /// Gives the position of the tier.
    pub fn index(self) -> (r: usize)
        ensures
            r == self.position(),
    {
        match self {
            RankClass::ExitStatus => 0,
            RankClass::CaptureCompleteness => 1,
            RankClass::InvocationContext => 2,
            RankClass::SuccessToFailure => 3,
            RankClass::FailedExecutionAttempt => 4,
            RankClass::NewExecutable => 5,
            RankClass::NewFileAccess => 6,
            RankClass::RemovedExecutable => 7,
            RankClass::OutcomeSetChange => 8,
            RankClass::OtherObservation => 9,
        }
    }
}

/// Stable semantic rank plus the deterministic comparison-production order.
#[derive(Debug, Clone, Copy, PartialEq, Eq, PartialOrd, Ord, Structural)]
pub struct RankKey {
    /// The tier.
    pub class: RankClass,
    /// The production order.
    pub comparison_order: usize,
}

impl RankKey {
    /// The rank before ranking.
    pub open spec fn unranked() -> RankKey {
        RankKey { class: RankClass::OtherObservation, comparison_order: 0 }
    }

    /// Gives the rank before ranking.
    pub fn pending() -> (r: RankKey)
        ensures
            r == RankKey::unranked(),
    {
        RankKey { class: RankClass::OtherObservation, comparison_order: 0 }
    }

    /// Semantic ranking tier, independent of text folding policy.
    pub fn class(self) -> (r: RankClass)
        ensures
            r == self.class,
    {
        self.class
    }

    /// Deterministic production index used to break rank ties.
    pub fn comparison_order(self) -> (r: usize)
        ensures
            r == self.comparison_order,
    {
        self.comparison_order
    }

    /// Whether a rank comes before another.
    pub open spec fn before(self, other: RankKey) -> bool {
        self.class.position() < other.class.position() || (self.class == other.class
            && self.comparison_order < other.comparison_order)
    }
}

/// One aggregated observed change and bounded evidence samples for each side.
///
/// Aggregation identity is kind, operation, and path. PID, scheduling order,
/// duplicate count, and timing are deliberately absent from cross-run identity.
#[derive(Debug)]
pub struct Change {
    /// Stable user-facing change category.
    pub category: String,
    /// Operation/path subject of the observation.
    pub subject: String,
    /// Sorted aggregate outcome set observed on the left.
    pub left: Vec<String>,
    /// Sorted aggregate outcome set observed on the right.
    pub right: Vec<String>,
    /// Bounded raw-evidence samples from the left run.
    pub left_evidence: Vec<Evidence>,
    /// Bounded raw-evidence samples from the right run.
    pub right_evidence: Vec<Evidence>,
    /// Stable semantic ordering data.
    pub rank_key: RankKey,
    /// Structured path fact used by presentation without parsing display text.
    pub file_path: Option<String>,
}

/// What a [`Change`] says.
pub struct ChangeView {
    /// Category.
    pub category: Seq<char>,
    /// Subject.
    pub subject: Seq<char>,
    /// Outcomes on the left.
    pub left: Seq<Seq<char>>,
    /// Outcomes on the right.
    pub right: Seq<Seq<char>>,
    /// Samples from the left.
    pub left_evidence: Seq<EvidenceView>,
    /// Samples from the right.
    pub right_evidence: Seq<EvidenceView>,
    /// Rank.
    pub rank_key: RankKey,
    /// Path.
    pub file_path: Option<Seq<char>>,
}

impl View for Change {
    type V = ChangeView;

    open spec fn view(&self) -> ChangeView {
        ChangeView {
            category: self.category@,
            subject: self.subject@,
            left: views::each(self.left@),
            right: views::each(self.right@),
            left_evidence: views::each(self.left_evidence@),
            right_evidence: views::each(self.right_evidence@),
            rank_key: self.rank_key,
            file_path: views::opt(self.file_path),
        }
    }
}

/// Complete comparison result before presentation.
pub struct Report {
    /// Diff report schema version.
    pub schema_version: u32,
    /// `None` when load/tool failure prevents an ordinary comparison conclusion.
    pub observed_differences: Option<bool>,
    /// Independent capture and storage reliability for both inputs.
    pub reliability: Reliability,
    /// Four-way business status: trusted 0/1, tool error 2, or incomplete 3.
    pub exit_code: i32,
    /// Load/tool failures retained separately from ordinary changes.
    pub errors: Vec<String>,
    /// Left record label used for display.
    pub left: String,
    /// Right record label used for display.
    pub right: String,
    /// Left record ID used to qualify evidence paths.
    pub left_id: String,
    /// Right record ID used to qualify evidence paths.
    pub right_id: String,
    /// Ranked observed changes; empty does not imply trusted equality by itself.
    pub changes: Vec<Change>,
    /// Reliability cautions that do not replace errors or change facts.
    pub warnings: Vec<String>,
}

/// Independent capture and storage quality for one comparison side.
#[derive(Debug)]
pub struct Quality {
    /// Capture reliability classification independent of storage integrity.
    pub capture: String,
    /// Storage integrity classification independent of capture outcome.
    pub storage: String,
}

/// Per-side reliability facts.
#[derive(Debug)]
pub struct Reliability {
    /// Reliability of the left loaded input.
    pub left: Quality,
    /// Reliability of the right loaded input.
    pub right: Quality,
}

/// What identifies an access across runs.
#[derive(Debug, Clone)]
pub struct AccessKey {
    /// The observation family.
    pub kind: String,
    /// The syscall.
    pub operation: String,
    /// The path.
    pub path: String,
}

/// What an [`AccessKey`] says.
pub struct AccessKeyView {
    /// The observation family.
    pub kind: Seq<char>,
    /// The syscall.
    pub operation: Seq<char>,
    /// The path.
    pub path: Seq<char>,
}

impl View for AccessKey {
    type V = AccessKeyView;

    open spec fn view(&self) -> AccessKeyView {
        AccessKeyView { kind: self.kind@, operation: self.operation@, path: self.path@ }
    }
}

impl SortKey for AccessKey {
    open spec fn before(a: AccessKeyView, b: AccessKeyView) -> bool {
        if a.kind != b.kind {
            order::text_before(a.kind, b.kind)
        } else if a.operation != b.operation {
            order::text_before(a.operation, b.operation)
        } else {
            order::text_before(a.path, b.path)
        }
    }

    proof fn irreflexive(a: AccessKeyView) {
        order::text_irreflexive(a.path);
    }

    proof fn transitive(a: AccessKeyView, b: AccessKeyView, c: AccessKeyView) {
        if a.kind != b.kind && b.kind != c.kind {
            order::text_transitive(a.kind, b.kind, c.kind);
            order::text_irreflexive(a.kind);
            if a.kind == c.kind {
                order::text_transitive(a.kind, b.kind, a.kind);
            }
        } else if a.kind == b.kind && b.kind == c.kind {
            if a.operation != b.operation && b.operation != c.operation {
                order::text_transitive(a.operation, b.operation, c.operation);
                order::text_irreflexive(a.operation);
            } else if a.operation == b.operation && b.operation == c.operation {
                order::text_transitive(a.path, b.path, c.path);
            }
        }
    }

    proof fn total(a: AccessKeyView, b: AccessKeyView) {
        order::text_total(a.kind, b.kind);
        order::text_total(a.operation, b.operation);
        order::text_total(a.path, b.path);
    }

    fn place(&self, other: &Self) -> (r: Place) {
        proof {
            order::text_irreflexive(self.kind@);
            order::text_irreflexive(self.operation@);
        }
        match self.kind.place(&other.kind) {
            Place::Same => match self.operation.place(&other.operation) {
                Place::Same => self.path.place(&other.path),
                place => place,
            },
            place => place,
        }
    }

    fn copy(&self) -> (r: Self) {
        AccessKey {
            kind: self.kind.clone(),
            operation: self.operation.clone(),
            path: self.path.clone(),
        }
    }
}

/// The evidence of each outcome of an access.
pub type OutcomeEvidence = SortedMap<String, Vec<Evidence>>;

/// The outcomes of each access of a run.
pub type Aggregate = SortedMap<AccessKey, OutcomeEvidence>;

/// Whether an event is an access of a key.
pub open spec fn accesses(e: EventView, key: AccessKeyView) -> bool {
    (e.kind == "file"@ || e.kind == "exec"@) && e.kind == key.kind && e.operation == key.operation
        && e.path == Some(key.path)
}

/// Whether some event is an access of a key.
pub open spec fn accessed(events: Seq<EventView>, key: AccessKeyView) -> bool {
    exists|i: int| 0 <= i < events.len() && accesses(#[trigger] events[i], key)
}

/// Whether an access of a key had an outcome.
pub open spec fn had_outcome(events: Seq<EventView>, key: AccessKeyView, outcome: Seq<char>) -> bool {
    exists|i: int|
        0 <= i < events.len() && accesses(#[trigger] events[i], key) && events[i].outcome == outcome
}

/// The evidence of an outcome of a key in the first `n` events.
pub open spec fn evidence_upto(
    events: Seq<EventView>,
    key: AccessKeyView,
    outcome: Seq<char>,
    n: int,
) -> Seq<EvidenceView>
    decreases n,
{
    if n <= 0 {
        Seq::empty()
    } else {
        let before = evidence_upto(events, key, outcome, n - 1);
        if accesses(events[n - 1], key) && events[n - 1].outcome == outcome {
            before.push(events[n - 1].evidence)
        } else {
            before
        }
    }
}

/// The outcomes of a key, in order.
pub open spec fn outcomes(events: Seq<EventView>, key: AccessKeyView) -> Seq<Seq<char>> {
    order::listed::<String>(Set::new(|o: Seq<char>| had_outcome(events, key, o)))
}

/// The outcomes of a key, in order, with their evidence.
pub open spec fn outcome_list(events: Seq<EventView>, key: AccessKeyView) -> Seq<
    (Seq<char>, Seq<EvidenceView>),
> {
    outcomes(events, key).map_values(
        |o: Seq<char>| (o, evidence_upto(events, key, o, events.len() as int)),
    )
}

/// The outcomes that a map holds, in order, with their evidence.
pub open spec fn pairs_of(m: OutcomeEvidence) -> Seq<(Seq<char>, Seq<EvidenceView>)> {
    m.pairs().map_values(|p: (String, Vec<Evidence>)| (p.0@, views::each(p.1@)))
}

/// Whether a map holds the outcomes of a key in the first `n` events.
pub open spec fn holds_outcomes(
    m: OutcomeEvidence,
    events: Seq<EventView>,
    key: AccessKeyView,
    n: int,
) -> bool {
    &&& m.wf()
    &&& forall|o: Seq<char>| #[trigger]
        m.map().contains_key(o) <==> had_outcome(events.take(n), key, o)
    &&& forall|o: Seq<char>| #[trigger]
        m.map().contains_key(o) ==> views::each(m.map()[o]@) == evidence_upto(events, key, o, n)
}

/// Whether a map holds the accesses of the first `n` events.
pub open spec fn holds_accesses(a: Aggregate, events: Seq<EventView>, n: int) -> bool {
    &&& a.wf()
    &&& forall|k: AccessKeyView| #[trigger]
        a.map().contains_key(k) <==> accessed(events.take(n), k)
    &&& forall|k: AccessKeyView| #[trigger]
        a.map().contains_key(k) ==> holds_outcomes(a.map()[k], events, k, n)
}

/// The most evidence samples of a change on one side.
pub const SAMPLE_LIMIT: usize = 3;

/// Samples with one more, up to the limit.
pub open spec fn sampled(samples: Seq<EvidenceView>, e: EvidenceView) -> Seq<EvidenceView> {
    if samples.len() < SAMPLE_LIMIT {
        samples.push(e)
    } else {
        samples
    }
}

/// Samples with the first `n` of a list.
pub open spec fn sampled_upto(
    samples: Seq<EvidenceView>,
    list: Seq<EvidenceView>,
    n: int,
) -> Seq<EvidenceView>
    decreases n,
{
    if n <= 0 {
        samples
    } else {
        sampled(sampled_upto(samples, list, n - 1), list[n - 1])
    }
}

/// Samples with those of the first `n` of a list that are not there yet.
pub open spec fn filled_upto(
    samples: Seq<EvidenceView>,
    list: Seq<EvidenceView>,
    n: int,
) -> Seq<EvidenceView>
    decreases n,
{
    if n <= 0 {
        samples
    } else {
        let before = filled_upto(samples, list, n - 1);
        if before.contains(list[n - 1]) {
            before
        } else {
            sampled(before, list[n - 1])
        }
    }
}

/// The first evidence of each of the first `n` outcomes that the other side lacks.
pub open spec fn samples_own(
    list: Seq<(Seq<char>, Seq<EvidenceView>)>,
    other: spec_fn(Seq<char>) -> bool,
    n: int,
) -> Seq<EvidenceView>
    decreases n,
{
    if n <= 0 {
        Seq::empty()
    } else {
        let before = samples_own(list, other, n - 1);
        if !other(list[n - 1].0) && list[n - 1].1.len() > 0 {
            sampled(before, list[n - 1].1[0])
        } else {
            before
        }
    }
}

/// Then all evidence of the first `n` outcomes that both sides have.
pub open spec fn samples_common(
    list: Seq<(Seq<char>, Seq<EvidenceView>)>,
    other: spec_fn(Seq<char>) -> bool,
    n: int,
) -> Seq<EvidenceView>
    decreases n,
{
    if n <= 0 {
        samples_own(list, other, list.len() as int)
    } else {
        let before = samples_common(list, other, n - 1);
        if other(list[n - 1].0) {
            sampled_upto(before, list[n - 1].1, list[n - 1].1.len() as int)
        } else {
            before
        }
    }
}

/// Then the rest of the evidence of the first `n` outcomes.
pub open spec fn samples_rest(
    list: Seq<(Seq<char>, Seq<EvidenceView>)>,
    other: spec_fn(Seq<char>) -> bool,
    n: int,
) -> Seq<EvidenceView>
    decreases n,
{
    if n <= 0 {
        samples_common(list, other, list.len() as int)
    } else {
        filled_upto(
            samples_rest(list, other, n - 1),
            list[n - 1].1,
            list[n - 1].1.len() as int,
        )
    }
}

/// The evidence samples of one side.
pub open spec fn samples(
    list: Seq<(Seq<char>, Seq<EvidenceView>)>,
    other: spec_fn(Seq<char>) -> bool,
) -> Seq<EvidenceView> {
    samples_rest(list, other, list.len() as int)
}

/// Adds a sample, up to the limit.
fn add_sample(samples: &mut Vec<Evidence>, e: &Evidence)
    ensures
        views::each(final(samples)@) == sampled(views::each(old(samples)@), e@),
{
    if samples.len() < SAMPLE_LIMIT {
        samples.push(e.copy());
    }
}

/// Whether a list holds some evidence.
fn has_evidence(list: &Vec<Evidence>, e: &Evidence) -> (r: bool)
    ensures
        r == views::each(list@).contains(e@),
{
    let ghost seen = views::each(list@);
    for i in 0..list.len()
        invariant
            seen == views::each(list@),
            forall|j: int| 0 <= j < i ==> #[trigger] seen[j] != e@,
    {
        assert(seen[i as int] == list@[i as int]@);
        if list[i].same_as(e) {
            assert(seen[i as int] == e@);
            return true;
        }
    }
    false
}

/// Samples the evidence of one side: first one of each outcome that the other side
/// lacks, then that of the outcomes that both have, then the rest.
pub fn sample_evidence(outcomes: &OutcomeEvidence, other: &OutcomeEvidence) -> (r: Vec<Evidence>)
    requires
        outcomes.wf(),
        other.wf(),
    ensures
        views::each(r@) == samples(
            pairs_of(*outcomes),
            |o: Seq<char>| other.map().contains_key(o),
        ),
        r@.len() <= SAMPLE_LIMIT,
{
    let ghost list = pairs_of(*outcomes);
    let ghost has = |o: Seq<char>| other.map().contains_key(o);
    let n: usize = outcomes.len();
    let mut r: Vec<Evidence> = Vec::new();
    for i in 0..n
        invariant
            n == outcomes.pairs().len(),
            other.wf(),
            list == pairs_of(*outcomes),
            has == (|o: Seq<char>| other.map().contains_key(o)),
            views::each(r@) == samples_own(list, has, i as int),
            r@.len() <= SAMPLE_LIMIT,
    {
        let evidence: &Vec<Evidence> = outcomes.value_at(i);
        assert(list[i as int] == (outcomes.pairs()[i as int].0@, views::each(evidence@)));
        if !other.contains_key(outcomes.key_at(i)) && evidence.len() > 0 {
            assert(views::each(evidence@)[0] == evidence@[0]@);
            add_sample(&mut r, &evidence[0]);
            assert(views::each(r@).len() == r@.len());
        }
    }
    for i in 0..n
        invariant
            n == outcomes.pairs().len(),
            n == list.len(),
            other.wf(),
            list == pairs_of(*outcomes),
            has == (|o: Seq<char>| other.map().contains_key(o)),
            views::each(r@) == samples_common(list, has, i as int),
            r@.len() <= SAMPLE_LIMIT,
    {
        let evidence: &Vec<Evidence> = outcomes.value_at(i);
        assert(list[i as int] == (outcomes.pairs()[i as int].0@, views::each(evidence@)));
        if other.contains_key(outcomes.key_at(i)) {
            let ghost before = views::each(r@);
            let ghost items = views::each(evidence@);
            for j in 0..evidence.len()
                invariant
                    items == views::each(evidence@),
                    views::each(r@) == sampled_upto(before, items, j as int),
                    r@.len() <= SAMPLE_LIMIT,
            {
                assert(items[j as int] == evidence@[j as int]@);
                add_sample(&mut r, &evidence[j]);
                assert(views::each(r@).len() == r@.len());
            }
        }
    }
    for i in 0..n
        invariant
            n == outcomes.pairs().len(),
            n == list.len(),
            list == pairs_of(*outcomes),
            views::each(r@) == samples_rest(list, has, i as int),
            r@.len() <= SAMPLE_LIMIT,
    {
        let evidence: &Vec<Evidence> = outcomes.value_at(i);
        assert(list[i as int] == (outcomes.pairs()[i as int].0@, views::each(evidence@)));
        let ghost before = views::each(r@);
        let ghost items = views::each(evidence@);
        for j in 0..evidence.len()
            invariant
                items == views::each(evidence@),
                views::each(r@) == filled_upto(before, items, j as int),
                r@.len() <= SAMPLE_LIMIT,
        {
            assert(items[j as int] == evidence@[j as int]@);
            if !has_evidence(&r, &evidence[j]) {
                add_sample(&mut r, &evidence[j]);
                assert(views::each(r@).len() == r@.len());
            }
        }
    }
    r
}

/// One more event adds its own access.
proof fn accessed_push(events: Seq<EventView>, e: EventView)
    ensures
        forall|k: AccessKeyView| #[trigger]
            accessed(events.push(e), k) <==> accessed(events, k) || accesses(e, k),
        forall|k: AccessKeyView, o: Seq<char>| #[trigger]
            had_outcome(events.push(e), k, o) <==> had_outcome(events, k, o) || (accesses(e, k)
                && e.outcome == o),
{
    let longer = events.push(e);
    assert forall|k: AccessKeyView| #[trigger]
        accessed(longer, k) <==> accessed(events, k) || accesses(e, k) by {
        if accessed(events, k) {
            let i = choose|i: int| 0 <= i < events.len() && accesses(#[trigger] events[i], k);
            assert(accesses(longer[i], k));
        }
        if accesses(e, k) {
            assert(accesses(longer[events.len() as int], k));
        }
        if accessed(longer, k) {
            let i = choose|i: int| 0 <= i < longer.len() && accesses(#[trigger] longer[i], k);
            if i < events.len() {
                assert(accesses(events[i], k));
            }
        }
    }
    assert forall|k: AccessKeyView, o: Seq<char>| #[trigger]
        had_outcome(longer, k, o) <==> had_outcome(events, k, o) || (accesses(e, k) && e.outcome
            == o) by {
        if had_outcome(events, k, o) {
            let i = choose|i: int|
                0 <= i < events.len() && accesses(#[trigger] events[i], k) && events[i].outcome == o;
            assert(accesses(longer[i], k));
        }
        if accesses(e, k) && e.outcome == o {
            assert(accesses(longer[events.len() as int], k));
        }
        if had_outcome(longer, k, o) {
            let i = choose|i: int|
                0 <= i < longer.len() && accesses(#[trigger] longer[i], k) && longer[i].outcome == o;
            if i < events.len() {
                assert(accesses(events[i], k));
            }
        }
    }
}

/// An outcome that did not occur has no evidence.
proof fn evidence_absent(events: Seq<EventView>, key: AccessKeyView, outcome: Seq<char>, n: int)
    requires
        0 <= n <= events.len(),
        !had_outcome(events.take(n), key, outcome),
    ensures
        evidence_upto(events, key, outcome, n) == Seq::<EvidenceView>::empty(),
    decreases n,
{
    if n > 0 {
        assert(events.take(n) == events.take(n - 1).push(events[n - 1]));
        accessed_push(events.take(n - 1), events[n - 1]);
        evidence_absent(events, key, outcome, n - 1);
    }
}

/// Groups the accesses of a run by kind, operation and path, and each group by
/// outcome.
pub fn aggregate(r: &Run) -> (a: Aggregate)
    ensures
        holds_accesses(a, views::each(r.events@), r.events@.len() as int),
{
    let mut a: Aggregate = SortedMap::new();
    let ghost ev = views::each(r.events@);
    assert(ev.take(0) =~= Seq::empty());
    for i in 0..r.events.len()
        invariant
            ev == views::each(r.events@),
            holds_accesses(a, ev, i as int),
    {
        let event: &Event = &r.events[i];
        let ghost seen = ev.take(i as int);
        let ghost before = a.map();
        proof {
            assert(ev[i as int] == event@);
            assert(ev.take(i + 1) == seen.push(event@));
            accessed_push(seen, event@);
        }
        let observed: bool = text::same(event.kind.as_str(), "file") || text::same(
            event.kind.as_str(),
            "exec",
        );
        match (&event.path, observed) {
            (Some(path), true) => {
                let key = AccessKey {
                    kind: event.kind.clone(),
                    operation: event.operation.clone(),
                    path: path.clone(),
                };
                let ghost k = key@;
                assert(accesses(event@, k));
                let taken: Option<OutcomeEvidence> = a.remove(&key);
                let ghost was_there = taken is Some;
                let mut inner: OutcomeEvidence = match taken {
                    Some(inner) => inner,
                    None => SortedMap::new(),
                };
                assert(holds_outcomes(inner, ev, k, i as int)) by {
                    if !was_there {
                        assert forall|o: Seq<char>| !had_outcome(seen, k, o) by {
                            if had_outcome(seen, k, o) {
                                let j = choose|j: int|
                                    0 <= j < seen.len() && accesses(#[trigger] seen[j], k)
                                        && seen[j].outcome == o;
                                assert(accesses(seen[j], k));
                            }
                        }
                    }
                }
                let ghost inner_before = inner.map();
                let listed: Option<Vec<Evidence>> = inner.remove(&event.outcome);
                let ghost list_there = listed is Some;
                let mut list: Vec<Evidence> = match listed {
                    Some(list) => list,
                    None => Vec::new(),
                };
                proof {
                    if !list_there {
                        evidence_absent(ev, k, event.outcome@, i as int);
                    }
                    assert(views::each(list@) == evidence_upto(ev, k, event.outcome@, i as int));
                }
                list.push(event.evidence.copy());
                inner.insert(event.outcome.clone(), list);
                proof {
                    assert(holds_outcomes(inner, ev, k, i + 1)) by {
                        assert forall|o: Seq<char>| #[trigger] inner.map().contains_key(o) implies views::each(
                            inner.map()[o]@,
                        ) == evidence_upto(ev, k, o, i + 1) by {
                            if o != event.outcome@ {
                                assert(inner_before.contains_key(o));
                            }
                        }
                    }
                }
                a.insert(key, inner);
                proof {
                    assert forall|x: AccessKeyView| #[trigger] a.map().contains_key(x) implies holds_outcomes(
                        a.map()[x],
                        ev,
                        x,
                        i + 1,
                    ) by {
                        if x != k {
                            assert(before.contains_key(x));
                            assert(!accesses(event@, x));
                        }
                    }
                }
            },
            _ => {
                proof {
                    assert forall|x: AccessKeyView| !accesses(event@, x) by {}
                    assert forall|x: AccessKeyView| #[trigger] a.map().contains_key(x) implies holds_outcomes(
                        a.map()[x],
                        ev,
                        x,
                        i + 1,
                    ) by {
                        assert(holds_outcomes(a.map()[x], ev, x, i as int));
                    }
                }
            },
        }
    }
    a
}

/// A map that holds the outcomes of a key lists them in order with their evidence.
proof fn pairs_listed(m: OutcomeEvidence, events: Seq<EventView>, key: AccessKeyView)
    requires
        holds_outcomes(m, events, key, events.len() as int),
    ensures
        m.keys() == outcomes(events, key),
        pairs_of(m) == outcome_list(events, key),
{
    assert(events.take(events.len() as int) == events);
    let set = Set::new(|o: Seq<char>| had_outcome(events, key, o));
    assert forall|o: Seq<char>| #[trigger] m.keys().contains(o) <==> set.contains(o) by {
        assert(m.map().contains_key(o) <==> m.keys().contains(o));
    }
    order::listed_unique::<String>(set, m.keys());
    assert forall|i: int| 0 <= i < m.pairs().len() implies #[trigger] pairs_of(m)[i]
        == outcome_list(events, key)[i] by {
        m.entry_at(i);
    }
    assert(pairs_of(m) =~= outcome_list(events, key));
}

/// A key without accesses has no outcomes.
proof fn outcomes_absent(events: Seq<EventView>, key: AccessKeyView)
    requires
        !accessed(events, key),
    ensures
        outcomes(events, key) == Seq::<Seq<char>>::empty(),
        outcome_list(events, key) == Seq::<(Seq<char>, Seq<EvidenceView>)>::empty(),
        forall|o: Seq<char>| !had_outcome(events, key, o),
{
    let set = Set::new(|o: Seq<char>| had_outcome(events, key, o));
    assert forall|o: Seq<char>| !had_outcome(events, key, o) by {
        if had_outcome(events, key, o) {
            let i = choose|i: int|
                0 <= i < events.len() && accesses(#[trigger] events[i], key) && events[i].outcome
                    == o;
            assert(accesses(events[i], key));
        }
    }
    order::listed_unique::<String>(set, Seq::empty());
    assert(outcome_list(events, key) =~= Seq::empty());
}

/// How a target ended: its exit code and signal, or where neither is known, what
/// the trace says.
pub open spec fn target_exit_text(m: Metadata) -> Seq<char> {
    let structured = "code="@ + numbers::optional(m.exit_code) + ", signal="@ + numbers::optional(
        m.signal,
    );
    match m.target_exit_raw {
        Some(raw) if m.exit_code is None && m.signal is None => structured + ", raw="@
            + text::debug_text(raw@),
        _ => structured,
    }
}

/// Says how a target ended.
pub fn target_exit(metadata: &Metadata) -> (r: String)
    ensures
        r@ == target_exit_text(*metadata),
{
    let mut s: String = "code=".to_owned();
    s.append(numbers::optional_string(metadata.exit_code).as_str());
    s.append(", signal=");
    s.append(numbers::optional_string(metadata.signal).as_str());
    if metadata.exit_code.is_none() && metadata.signal.is_none() {
        match &metadata.target_exit_raw {
            Some(raw) => {
                s.append(", raw=");
                s.append(text::debug_string(raw.as_str()).as_str());
            },
            None => {},
        }
    }
    s
}

/// The tier of a change.
pub open spec fn rank_of(c: ChangeView) -> RankClass {
    let right_failed = c.right.len() > 0 && !c.right.contains("success"@);
    if c.category == "Exit status"@ {
        RankClass::ExitStatus
    } else if c.category == "Capture completeness"@ {
        RankClass::CaptureCompleteness
    } else if c.category == "Initial working directory"@ || c.category == "Command arguments"@
        || c.category == "Selected startup environment"@ {
        RankClass::InvocationContext
    } else if c.left == seq!["success"@] && right_failed {
        RankClass::SuccessToFailure
    } else if c.category == "Execution attempt changes"@ && right_failed {
        RankClass::FailedExecutionAttempt
    } else if c.category == "Executable changes"@ && c.right.len() > 0 {
        RankClass::NewExecutable
    } else if c.category == "New file access"@ {
        RankClass::NewFileAccess
    } else if c.category == "Executable changes"@ {
        RankClass::RemovedExecutable
    } else if c.category == "File access outcome changes"@ || c.category
        == "Execution attempt changes"@ {
        RankClass::OutcomeSetChange
    } else {
        RankClass::OtherObservation
    }
}

/// Whether a list holds a text.
pub fn lists_text(list: &Vec<String>, wanted: &str) -> (r: bool)
    ensures
        r == views::each(list@).contains(wanted@),
{
    let ghost seen = views::each(list@);
    for i in 0..list.len()
        invariant
            seen == views::each(list@),
            forall|j: int| 0 <= j < i ==> #[trigger] seen[j] != wanted@,
    {
        assert(seen[i as int] == list@[i as int]@);
        if text::same(list[i].as_str(), wanted) {
            assert(seen[i as int] == wanted@);
            return true;
        }
    }
    false
}

/// Gives the tier of a change.
pub fn rank_class(c: &Change) -> (r: RankClass)
    ensures
        r == rank_of(c@),
{
    let category: &str = c.category.as_str();
    let right_failed: bool = c.right.len() > 0 && !lists_text(&c.right, "success");
    let left_succeeded: bool = c.left.len() == 1 && text::same(c.left[0].as_str(), "success");
    proof {
        let left = views::each(c.left@);
        if c.left@.len() == 1 {
            assert(left[0] == c.left@[0]@);
            if left_succeeded {
                assert(left =~= seq!["success"@]);
            }
        }
        if left == seq!["success"@] {
            assert(left.len() == 1 && left[0] == "success"@);
        }
    }
    if text::same(category, "Exit status") {
        RankClass::ExitStatus
    } else if text::same(category, "Capture completeness") {
        RankClass::CaptureCompleteness
    } else if text::same(category, "Initial working directory") || text::same(
        category,
        "Command arguments",
    ) || text::same(category, "Selected startup environment") {
        RankClass::InvocationContext
    } else if left_succeeded && right_failed {
        RankClass::SuccessToFailure
    } else if text::same(category, "Execution attempt changes") && right_failed {
        RankClass::FailedExecutionAttempt
    } else if text::same(category, "Executable changes") && c.right.len() > 0 {
        RankClass::NewExecutable
    } else if text::same(category, "New file access") {
        RankClass::NewFileAccess
    } else if text::same(category, "Executable changes") {
        RankClass::RemovedExecutable
    } else if text::same(category, "File access outcome changes") || text::same(
        category,
        "Execution attempt changes",
    ) {
        RankClass::OutcomeSetChange
    } else {
        RankClass::OtherObservation
    }
}

/// What a [`Quality`] says: capture and storage.
pub open spec fn quality_of(run: Run) -> (Seq<char>, Seq<char>) {
    let capture = if run.storage_integrity.status@ == "unfinalized"@ {
        "unknown"@
    } else if run.metadata.state@ == "completed"@ && views::opt(run.metadata.completeness) == Some(
        "complete_for_supported_events"@,
    ) {
        "complete"@
    } else if run.metadata.completeness is None {
        "unknown"@
    } else {
        "incomplete"@
    };
    (capture, run.storage_integrity.status@)
}

/// Whether a quality allows an ordinary conclusion.
pub open spec fn quality_trusted(q: (Seq<char>, Seq<char>)) -> bool {
    q.0 == "complete"@ && q.1 == "verified"@
}

impl View for Quality {
    type V = (Seq<char>, Seq<char>);

    open spec fn view(&self) -> (Seq<char>, Seq<char>) {
        (self.capture@, self.storage@)
    }
}

impl Quality {
    /// The quality of a loaded run.
    pub fn of(run: &Run) -> (r: Quality)
        ensures
            r@ == quality_of(*run),
    {
        let capture: &str = if text::same(run.storage_integrity.status.as_str(), "unfinalized") {
            "unknown"
        } else if text::same(run.metadata.state.as_str(), "completed") && text::is_text(
            &run.metadata.completeness,
            "complete_for_supported_events",
        ) {
            "complete"
        } else if run.metadata.completeness.is_none() {
            "unknown"
        } else {
            "incomplete"
        };
        Quality { capture: capture.to_owned(), storage: run.storage_integrity.status.clone() }
    }

    /// Whether the quality allows an ordinary conclusion.
    pub fn trusted(&self) -> (r: bool)
        ensures
            r == quality_trusted(self@),
    {
        text::same(self.capture.as_str(), "complete") && text::same(
            self.storage.as_str(),
            "verified",
        )
    }
}

/// A change of one value, if it is one.
pub open spec fn simple_change(category: Seq<char>, left: Seq<char>, right: Seq<char>) -> Seq<
    ChangeView,
> {
    if left == right {
        Seq::empty()
    } else {
        seq![
            ChangeView {
                category,
                subject: ""@,
                left: seq![left],
                right: seq![right],
                left_evidence: Seq::empty(),
                right_evidence: Seq::empty(),
                rank_key: RankKey::unranked(),
                file_path: None,
            },
        ]
    }
}

/// The first `n` texts as std's `Debug` formatting separates them in a list.
pub open spec fn debug_items(list: Seq<Seq<char>>, n: int) -> Seq<char>
    decreases n,
{
    if n <= 0 {
        Seq::empty()
    } else if n == 1 {
        text::debug_text(list[0])
    } else {
        debug_items(list, n - 1) + ", "@ + text::debug_text(list[n - 1])
    }
}

/// A list of texts as std's `Debug` formatting spells it.
pub open spec fn debug_list(list: Seq<Seq<char>>) -> Seq<char> {
    "["@ + debug_items(list, list.len() as int) + "]"@
}

/// What the metadata says of the completeness of a capture.
pub open spec fn completeness_text(m: Metadata) -> Seq<char> {
    let completeness = match m.completeness {
        Some(c) => c@,
        None => "legacy/unknown"@,
    };
    m.state@ + "; "@ + completeness + "; "@ + numbers::decimal(m.warnings@.len()) + " warnings"@
}

/// The selected environment; none selected is empty.
pub open spec fn environment_of(m: Metadata) -> Map<Seq<char>, Option<Seq<char>>> {
    match m.environment {
        Some(e) => settings(e),
        None => Map::empty(),
    }
}

/// The settings of an environment.
pub open spec fn settings(e: Environment) -> Map<Seq<char>, Option<Seq<char>>> {
    e.map().map_values(|v: Option<String>| views::opt(v))
}

/// The setting of a variable.
pub open spec fn setting(e: Map<Seq<char>, Option<Seq<char>>>, key: Seq<char>) -> Option<
    Option<Seq<char>>,
> {
    if e.contains_key(key) {
        Some(e[key])
    } else {
        None
    }
}

/// How a setting is shown.
pub open spec fn setting_text(value: Option<Option<Seq<char>>>) -> Seq<char> {
    match value {
        None => "(not selected/unknown)"@,
        Some(None) => "(unset)"@,
        Some(Some(s)) => "value="@ + text::debug_text(s),
    }
}

/// The changes of the first `n` variables.
pub open spec fn environment_changes(
    l: Map<Seq<char>, Option<Seq<char>>>,
    r: Map<Seq<char>, Option<Seq<char>>>,
    keys: Seq<Seq<char>>,
    n: int,
) -> Seq<ChangeView>
    decreases n,
{
    if n <= 0 {
        Seq::empty()
    } else {
        let before = environment_changes(l, r, keys, n - 1);
        let key = keys[n - 1];
        if setting(l, key) == setting(r, key) {
            before
        } else {
            before.push(
                ChangeView {
                    category: "Selected startup environment"@,
                    subject: key,
                    left: seq![setting_text(setting(l, key))],
                    right: seq![setting_text(setting(r, key))],
                    left_evidence: Seq::empty(),
                    right_evidence: Seq::empty(),
                    rank_key: RankKey::unranked(),
                    file_path: None,
                },
            )
        }
    }
}

/// The category of a change of an access.
pub open spec fn access_category(
    key: AccessKeyView,
    left: Seq<Seq<char>>,
    right: Seq<Seq<char>>,
) -> Seq<char> {
    if key.kind == "exec"@ {
        if (exists|i: int| 0 <= i < left.len() && #[trigger] left[i] != "success"@) || (exists|
            i: int,
        |
            0 <= i < right.len() && #[trigger] right[i] != "success"@) {
            "Execution attempt changes"@
        } else {
            "Executable changes"@
        }
    } else if left.len() == 0 {
        "New file access"@
    } else if right.len() == 0 {
        "Removed file access"@
    } else {
        "File access outcome changes"@
    }
}

/// The change of an access.
pub open spec fn access_change(
    l: Seq<EventView>,
    r: Seq<EventView>,
    key: AccessKeyView,
) -> ChangeView {
    let left = outcomes(l, key);
    let right = outcomes(r, key);
    ChangeView {
        category: access_category(key, left, right),
        subject: key.path + " ("@ + key.operation + ")"@,
        left,
        right,
        left_evidence: samples(outcome_list(l, key), |o: Seq<char>| had_outcome(r, key, o)),
        right_evidence: samples(outcome_list(r, key), |o: Seq<char>| had_outcome(l, key, o)),
        rank_key: RankKey::unranked(),
        file_path: if key.kind == "file"@ {
            Some(key.path)
        } else {
            None
        },
    }
}

/// The changes of the first `n` accesses: those whose outcomes differ.
pub open spec fn access_changes(
    l: Seq<EventView>,
    r: Seq<EventView>,
    keys: Seq<AccessKeyView>,
    n: int,
) -> Seq<ChangeView>
    decreases n,
{
    if n <= 0 {
        Seq::empty()
    } else {
        let before = access_changes(l, r, keys, n - 1);
        if outcomes(l, keys[n - 1]) == outcomes(r, keys[n - 1]) {
            before
        } else {
            before.push(access_change(l, r, keys[n - 1]))
        }
    }
}

/// The accesses of either of two runs, in order.
pub open spec fn access_keys(l: Seq<EventView>, r: Seq<EventView>) -> Seq<AccessKeyView> {
    order::listed::<AccessKey>(Set::new(|k: AccessKeyView| accessed(l, k) || accessed(r, k)))
}

/// The changes between two runs in the order in which they are compared.
pub open spec fn produced(l: Run, r: Run) -> Seq<ChangeView> {
    let le = environment_of(l.metadata);
    let re = environment_of(r.metadata);
    let variables = order::listed::<String>(le.dom() + re.dom());
    let lv = views::each(l.events@);
    let rv = views::each(r.events@);
    let keys = access_keys(lv, rv);
    simple_change(
        "Exit status"@,
        target_exit_text(l.metadata),
        target_exit_text(r.metadata),
    ) + simple_change("Initial working directory"@, l.metadata.cwd@, r.metadata.cwd@)
        + simple_change(
        "Command arguments"@,
        debug_list(views::each(l.metadata.command@)),
        debug_list(views::each(r.metadata.command@)),
    ) + simple_change(
        "Capture completeness"@,
        completeness_text(l.metadata),
        completeness_text(r.metadata),
    ) + environment_changes(le, re, variables, variables.len() as int) + access_changes(
        lv,
        rv,
        keys,
        keys.len() as int,
    )
}

/// Changes with their ranks.
pub open spec fn numbered(changes: Seq<ChangeView>) -> Seq<ChangeView> {
    Seq::new(
        changes.len(),
        |i: int|
            ChangeView {
                rank_key: RankKey { class: rank_of(changes[i]), comparison_order: i as usize },
                ..changes[i]
            },
    )
}

/// Those of the first `n` changes that are of a tier.
pub open spec fn of_class(changes: Seq<ChangeView>, class: int, n: int) -> Seq<ChangeView>
    decreases n,
{
    if n <= 0 {
        Seq::empty()
    } else if changes[n - 1].rank_key.class.position() == class {
        of_class(changes, class, n - 1).push(changes[n - 1])
    } else {
        of_class(changes, class, n - 1)
    }
}

/// The changes of the first `classes` tiers, tier by tier.
pub open spec fn ranked_upto(changes: Seq<ChangeView>, classes: int) -> Seq<ChangeView>
    decreases classes,
{
    if classes <= 0 {
        Seq::empty()
    } else {
        ranked_upto(changes, classes - 1) + of_class(changes, classes - 1, changes.len() as int)
    }
}

/// The changes by tier; within a tier they keep their order.
pub open spec fn ranked(changes: Seq<ChangeView>) -> Seq<ChangeView> {
    ranked_upto(changes, RANK_CLASSES as int)
}

/// The cautions on one run.
pub open spec fn run_warnings(run: Run) -> Seq<Seq<char>> {
    let storage = if run.storage_integrity.status@ != "verified"@ {
        seq![run.metadata.name@ + ": "@ + run.storage_integrity.detail@]
    } else {
        Seq::empty()
    };
    let environment = if run.metadata.environment is None {
        seq![run.metadata.name@ + ": legacy record has no environment selection data"@]
    } else {
        Seq::empty()
    };
    let capture = if run.metadata.state@ != "completed"@ || run.metadata.warnings@.len() > 0
        || views::opt(run.metadata.completeness) != Some("complete_for_supported_events"@) {
        seq![
            run.metadata.name@ + ": state="@ + run.metadata.state@ + ", "@ + numbers::decimal(
                run.metadata.warnings@.len(),
            ) + " parser warnings; inspect metadata.json"@,
        ]
    } else {
        Seq::empty()
    };
    storage + environment + capture
}

/// The status of a comparison of loaded runs.
pub open spec fn status_of(l: Run, r: Run, changed: bool) -> int {
    if quality_trusted(quality_of(l)) && quality_trusted(quality_of(r)) {
        if changed {
            1
        } else {
            0
        }
    } else {
        3
    }
}

/// Adds a change of one value, if it is one.
fn push_simple(changes: &mut Vec<Change>, category: &str, left: String, right: String)
    ensures
        views::each(final(changes)@) == views::each(old(changes)@) + simple_change(
            category@,
            left@,
            right@,
        ),
{
    let ghost before = views::each(changes@);
    let ghost expected = simple_change(category@, left@, right@);
    if !text::same(left.as_str(), right.as_str()) {
        let mut lefts: Vec<String> = Vec::new();
        lefts.push(left);
        let mut rights: Vec<String> = Vec::new();
        rights.push(right);
        let change = Change {
            category: category.to_owned(),
            subject: "".to_owned(),
            left: lefts,
            right: rights,
            left_evidence: Vec::new(),
            right_evidence: Vec::new(),
            rank_key: RankKey::pending(),
            file_path: None,
        };
        assert(change@.left =~= expected[0].left);
        assert(change@.right =~= expected[0].right);
        assert(change@.left_evidence =~= Seq::empty());
        assert(change@.right_evidence =~= Seq::empty());
        changes.push(change);
        assert(views::each(changes@) =~= before + expected);
    } else {
        assert(views::each(changes@) =~= before + expected);
    }
}

/// Spells a list of texts as std's `Debug` formatting does.
pub fn debug_list_string(list: &Vec<String>) -> (r: String)
    ensures
        r@ == debug_list(views::each(list@)),
{
    let ghost items = views::each(list@);
    let mut joined: String = String::new();
    for i in 0..list.len()
        invariant
            items == views::each(list@),
            joined@ == debug_items(items, i as int),
    {
        assert(items[i as int] == list@[i as int]@);
        let spelled: String = text::debug_string(list[i].as_str());
        if i == 0 {
            joined = spelled;
        } else {
            joined.append(", ");
            joined.append(spelled.as_str());
        }
    }
    let mut s: String = "[".to_owned();
    s.append(joined.as_str());
    s.append("]");
    s
}

/// Says what the metadata says of the completeness of a capture.
fn completeness_string(m: &Metadata) -> (r: String)
    ensures
        r@ == completeness_text(*m),
{
    let mut s: String = m.state.clone();
    s.append("; ");
    match &m.completeness {
        Some(c) => {
            s.append(c.as_str());
        },
        None => {
            s.append("legacy/unknown");
        },
    }
    s.append("; ");
    s.append(numbers::decimal_string(m.warnings.len() as u128).as_str());
    s.append(" warnings");
    s
}

/// The view of the setting of a variable.
pub open spec fn setting_view(o: Option<&Option<String>>) -> Option<Option<Seq<char>>> {
    match o {
        Some(v) => Some(views::opt(*v)),
        None => None,
    }
}

/// Whether two settings are equal.
fn same_setting(a: Option<&Option<String>>, b: Option<&Option<String>>) -> (r: bool)
    ensures
        r == (setting_view(a) == setting_view(b)),
{
    match (a, b) {
        (Some(x), Some(y)) => match (x, y) {
            (Some(s), Some(t)) => text::same(s.as_str(), t.as_str()),
            (None, None) => true,
            _ => false,
        },
        (None, None) => true,
        _ => false,
    }
}

/// Shows a setting.
fn setting_string(value: Option<&Option<String>>) -> (r: String)
    ensures
        r@ == setting_text(setting_view(value)),
{
    match value {
        None => "(not selected/unknown)".to_owned(),
        Some(v) => match v {
            None => "(unset)".to_owned(),
            Some(s) => {
                let mut out: String = "value=".to_owned();
                out.append(text::debug_string(s.as_str()).as_str());
                out
            },
        },
    }
}

/// Adds the changes of the selected environment.
fn compare_environments(l: &Environment, r: &Environment, changes: &mut Vec<Change>)
    requires
        l.wf(),
        r.wf(),
    ensures
        ({
            let keys = order::listed::<String>(settings(*l).dom() + settings(*r).dom());
            views::each(final(changes)@) == views::each(old(changes)@) + environment_changes(
                settings(*l),
                settings(*r),
                keys,
                keys.len() as int,
            )
        }),
{
    let keys: Vec<String> = merged_keys(l, r);
    let ghost names = views::each(keys@);
    let ghost before = views::each(changes@);
    proof {
        assert(settings(*l).dom() =~= l.map().dom());
        assert(settings(*r).dom() =~= r.map().dom());
        assert(before + environment_changes(settings(*l), settings(*r), names, 0) =~= before);
    }
    for i in 0..keys.len()
        invariant
            l.wf(),
            r.wf(),
            names == views::each(keys@),
            views::each(changes@) == before + environment_changes(
                settings(*l),
                settings(*r),
                names,
                i as int,
            ),
    {
        let key: &String = &keys[i];
        assert(names[i as int] == key@);
        let left: Option<&Option<String>> = l.get(key);
        let right: Option<&Option<String>> = r.get(key);
        assert(setting_view(left) == setting(settings(*l), key@));
        assert(setting_view(right) == setting(settings(*r), key@));
        if !same_setting(left, right) {
            let mut lefts: Vec<String> = Vec::new();
            lefts.push(setting_string(left));
            let mut rights: Vec<String> = Vec::new();
            rights.push(setting_string(right));
            let change = Change {
                category: "Selected startup environment".to_owned(),
                subject: key.clone(),
                left: lefts,
                right: rights,
                left_evidence: Vec::new(),
                right_evidence: Vec::new(),
                rank_key: RankKey::pending(),
                file_path: None,
            };
            assert(change@.left =~= seq![setting_text(setting(settings(*l), key@))]);
            assert(change@.right =~= seq![setting_text(setting(settings(*r), key@))]);
            assert(change@.left_evidence =~= Seq::empty());
            assert(change@.right_evidence =~= Seq::empty());
            changes.push(change);
            assert(views::each(changes@) =~= before + environment_changes(
                settings(*l),
                settings(*r),
                names,
                i + 1,
            ));
        }
    }
}

/// Whether some outcome is not a success.
fn has_failure(m: &OutcomeEvidence) -> (r: bool)
    ensures
        r == exists|i: int| 0 <= i < m.keys().len() && #[trigger] m.keys()[i] != "success"@,
{
    let n: usize = m.len();
    for i in 0..n
        invariant
            n == m.pairs().len(),
            n == m.keys().len(),
            forall|j: int| 0 <= j < i ==> #[trigger] m.keys()[j] == "success"@,
    {
        if !text::same(m.key_at(i).as_str(), "success") {
            assert(m.keys()[i as int] != "success"@);
            return true;
        }
    }
    false
}

/// Whether two maps hold the same outcomes.
fn same_outcomes(a: &OutcomeEvidence, b: &OutcomeEvidence) -> (r: bool)
    ensures
        r == (a.keys() == b.keys()),
{
    let n: usize = a.len();
    if n != b.len() {
        return false;
    }
    for i in 0..n
        invariant
            n == a.keys().len(),
            n == b.keys().len(),
            n == a.pairs().len(),
            n == b.pairs().len(),
            forall|j: int| 0 <= j < i ==> #[trigger] a.keys()[j] == b.keys()[j],
    {
        if !text::same(a.key_at(i).as_str(), b.key_at(i).as_str()) {
            assert(a.keys()[i as int] != b.keys()[i as int]);
            return false;
        }
    }
    assert(a.keys() =~= b.keys());
    true
}

/// Lists the outcomes of a map.
fn outcome_texts(m: &OutcomeEvidence) -> (r: Vec<String>)
    ensures
        views::each(r@) == m.keys(),
{
    let n: usize = m.len();
    let mut r: Vec<String> = Vec::new();
    for i in 0..n
        invariant
            n == m.pairs().len(),
            n == m.keys().len(),
            views::each(r@) == m.keys().take(i as int),
    {
        r.push(m.key_at(i).clone());
        assert(m.keys().take(i + 1) == m.keys().take(i as int).push(m.keys()[i as int]));
    }
    assert(m.keys().take(n as int) == m.keys());
    r
}

/// Gives the category of a change of an access.
fn category_of(key: &AccessKey, left: &OutcomeEvidence, right: &OutcomeEvidence) -> (r: &'static str)
    ensures
        r@ == access_category(key@, left.keys(), right.keys()),
{
    if text::same(key.kind.as_str(), "exec") {
        if has_failure(left) || has_failure(right) {
            "Execution attempt changes"
        } else {
            "Executable changes"
        }
    } else if left.len() == 0 {
        "New file access"
    } else if right.len() == 0 {
        "Removed file access"
    } else {
        "File access outcome changes"
    }
}

/// Gives the change of an access.
fn change_of_access(
    key: &AccessKey,
    left: &OutcomeEvidence,
    right: &OutcomeEvidence,
    Ghost(l): Ghost<Seq<EventView>>,
    Ghost(r): Ghost<Seq<EventView>>,
) -> (change: Change)
    requires
        holds_outcomes(*left, l, key@, l.len() as int),
        holds_outcomes(*right, r, key@, r.len() as int),
    ensures
        change@ == access_change(l, r, key@),
{
    proof {
        pairs_listed(*left, l, key@);
        pairs_listed(*right, r, key@);
        assert(l.take(l.len() as int) == l);
        assert(r.take(r.len() as int) == r);
        assert((|o: Seq<char>| right.map().contains_key(o)) =~= (|o: Seq<char>|
            had_outcome(r, key@, o)));
        assert((|o: Seq<char>| left.map().contains_key(o)) =~= (|o: Seq<char>|
            had_outcome(l, key@, o)));
    }
    let mut subject: String = key.path.clone();
    subject.append(" (");
    subject.append(key.operation.as_str());
    subject.append(")");
    let file_path: Option<String> = if text::same(key.kind.as_str(), "file") {
        Some(key.path.clone())
    } else {
        None
    };
    Change {
        category: category_of(key, left, right).to_owned(),
        subject,
        left: outcome_texts(left),
        right: outcome_texts(right),
        left_evidence: sample_evidence(left, right),
        right_evidence: sample_evidence(right, left),
        rank_key: RankKey::pending(),
        file_path,
    }
}

/// The map of a key without accesses holds its outcomes.
proof fn empty_holds(m: OutcomeEvidence, events: Seq<EventView>, key: AccessKeyView)
    requires
        m.wf(),
        m.map() == Map::<Seq<char>, Vec<Evidence>>::empty(),
        !accessed(events, key),
    ensures
        holds_outcomes(m, events, key, events.len() as int),
{
    outcomes_absent(events, key);
    assert(events.take(events.len() as int) == events);
}

/// Adds the changes of accesses.
fn compare_accesses(l: &Run, r: &Run, changes: &mut Vec<Change>)
    ensures
        ({
            let lv = views::each(l.events@);
            let rv = views::each(r.events@);
            let keys = access_keys(lv, rv);
            views::each(final(changes)@) == views::each(old(changes)@) + access_changes(
                lv,
                rv,
                keys,
                keys.len() as int,
            )
        }),
{
    let a: Aggregate = aggregate(l);
    let b: Aggregate = aggregate(r);
    let empty: OutcomeEvidence = SortedMap::new();
    let keys: Vec<AccessKey> = merged_keys(&a, &b);
    let ghost lv = views::each(l.events@);
    let ghost rv = views::each(r.events@);
    let ghost names = views::each(keys@);
    let ghost before = views::each(changes@);
    proof {
        assert(lv.take(lv.len() as int) == lv);
        assert(rv.take(rv.len() as int) == rv);
        order::listed_unique::<AccessKey>(
            Set::new(|k: AccessKeyView| accessed(lv, k) || accessed(rv, k)),
            names,
        );
        assert(before + access_changes(lv, rv, names, 0) =~= before);
    }
    for i in 0..keys.len()
        invariant
            holds_accesses(a, lv, lv.len() as int),
            holds_accesses(b, rv, rv.len() as int),
            lv.take(lv.len() as int) == lv,
            rv.take(rv.len() as int) == rv,
            empty.wf(),
            empty.map() == Map::<Seq<char>, Vec<Evidence>>::empty(),
            names == views::each(keys@),
            views::each(changes@) == before + access_changes(lv, rv, names, i as int),
    {
        let key: &AccessKey = &keys[i];
        assert(names[i as int] == key@);
        let left: &OutcomeEvidence = match a.get(key) {
            Some(m) => m,
            None => {
                proof {
                    empty_holds(empty, lv, key@);
                }
                &empty
            },
        };
        let right: &OutcomeEvidence = match b.get(key) {
            Some(m) => m,
            None => {
                proof {
                    empty_holds(empty, rv, key@);
                }
                &empty
            },
        };
        proof {
            pairs_listed(*left, lv, key@);
            pairs_listed(*right, rv, key@);
        }
        if !same_outcomes(left, right) {
            let change: Change = change_of_access(key, left, right, Ghost(lv), Ghost(rv));
            changes.push(change);
            assert(views::each(changes@) =~= before + access_changes(lv, rv, names, i + 1));
        }
    }
}

/// Gives every change its rank.
fn number_changes(changes: &mut Vec<Change>)
    ensures
        views::each(final(changes)@) == numbered(views::each(old(changes)@)),
{
    let ghost before = views::each(changes@);
    let n: usize = changes.len();
    for i in 0..n
        invariant
            n == changes@.len(),
            n == before.len(),
            forall|j: int|
                #![trigger changes@[j]]
                0 <= j < n ==> changes@[j]@ == (if j < i {
                    numbered(before)[j]
                } else {
                    before[j]
                }),
    {
        let class: RankClass = rank_class(&changes[i]);
        changes[i].rank_key = RankKey { class, comparison_order: i };
    }
    assert(views::each(changes@) =~= numbered(before));
}

/// Orders changes by tier; within a tier they keep their order.
fn rank_changes(changes: Vec<Change>) -> (r: Vec<Change>)
    ensures
        views::each(r@) == ranked(views::each(changes@)),
{
    let ghost all = views::each(changes@);
    let n: usize = changes.len();
    let mut slots: Vec<Option<Change>> = Vec::new();
    for change in it: changes
        invariant
            it.seq() == changes@,
            slots@.len() == it.index(),
            forall|j: int|
                0 <= j < it.index() ==> views::opt(#[trigger] slots@[j]) == Some(changes@[j]@),
    {
        slots.push(Some(change));
    }
    let mut r: Vec<Change> = Vec::new();
    for class in 0..RANK_CLASSES
        invariant
            n == all.len(),
            n == slots@.len(),
            forall|j: int|
                0 <= j < n ==> views::opt(#[trigger] slots@[j]) == (if all[j].rank_key.class.position()
                    >= class {
                    Some(all[j])
                } else {
                    None
                }),
            views::each(r@) == ranked_upto(all, class as int),
    {
        let ghost earlier = views::each(r@);
        assert(earlier + of_class(all, class as int, 0) =~= earlier);
        for i in 0..n
            invariant
                n == all.len(),
                n == slots@.len(),
                class < RANK_CLASSES,
                forall|j: int|
                    0 <= j < n ==> views::opt(#[trigger] slots@[j]) == (if all[j].rank_key.class.position()
                        >= class && !(j < i && all[j].rank_key.class.position() == class) {
                        Some(all[j])
                    } else {
                        None
                    }),
                views::each(r@) == earlier + of_class(all, class as int, i as int),
        {
            let wanted: bool = match &slots[i] {
                Some(change) => change.rank_key.class.index() == class,
                None => false,
            };
            assert(wanted == (all[i as int].rank_key.class.position() == class)) by {
                assert(views::opt(slots@[i as int]) is Some || all[i as int].rank_key.class.position()
                    < class);
            }
            if wanted {
                match slots[i].take() {
                    Some(change) => {
                        r.push(change);
                    },
                    None => {},
                }
                assert(views::each(r@) =~= earlier + of_class(all, class as int, i + 1));
            }
        }
    }
    r
}

/// Adds the cautions on one run.
fn push_run_warnings(run: &Run, warnings: &mut Vec<String>)
    ensures
        views::each(final(warnings)@) == views::each(old(warnings)@) + run_warnings(*run),
{
    let ghost before = views::each(warnings@);
    if !text::same(run.storage_integrity.status.as_str(), "verified") {
        let mut s: String = run.metadata.name.clone();
        s.append(": ");
        s.append(run.storage_integrity.detail.as_str());
        warnings.push(s);
    }
    if run.metadata.environment.is_none() {
        let mut s: String = run.metadata.name.clone();
        s.append(": legacy record has no environment selection data");
        warnings.push(s);
    }
    if !text::same(run.metadata.state.as_str(), "completed") || run.metadata.warnings.len() > 0
        || !text::is_text(&run.metadata.completeness, "complete_for_supported_events") {
        let mut s: String = run.metadata.name.clone();
        s.append(": state=");
        s.append(run.metadata.state.as_str());
        s.append(", ");
        s.append(numbers::decimal_string(run.metadata.warnings.len() as u128).as_str());
        s.append(" parser warnings; inspect metadata.json");
        warnings.push(s);
    }
    assert(views::each(warnings@) =~= before + run_warnings(*run));
}

/// Adds all changes in the order in which they are compared.
fn produce_changes(l: &Run, r: &Run) -> (changes: Vec<Change>)
    requires
        l.metadata.wf(),
        r.metadata.wf(),
    ensures
        views::each(changes@) == produced(*l, *r),
{
    let mut changes: Vec<Change> = Vec::new();
    assert(views::each(changes@) =~= Seq::<ChangeView>::empty());
    push_simple(
        &mut changes,
        "Exit status",
        target_exit(&l.metadata),
        target_exit(&r.metadata),
    );
    assert(views::each(changes@) =~= simple_change(
        "Exit status"@,
        target_exit_text(l.metadata),
        target_exit_text(r.metadata),
    ));
    push_simple(
        &mut changes,
        "Initial working directory",
        l.metadata.cwd.clone(),
        r.metadata.cwd.clone(),
    );
    push_simple(
        &mut changes,
        "Command arguments",
        debug_list_string(&l.metadata.command),
        debug_list_string(&r.metadata.command),
    );
    push_simple(
        &mut changes,
        "Capture completeness",
        completeness_string(&l.metadata),
        completeness_string(&r.metadata),
    );
    let empty: Environment = SortedMap::new();
    assert(settings(empty) =~= Map::empty());
    let left_env: &Environment = match &l.metadata.environment {
        Some(e) => e,
        None => &empty,
    };
    let right_env: &Environment = match &r.metadata.environment {
        Some(e) => e,
        None => &empty,
    };
    compare_environments(left_env, right_env, &mut changes);
    compare_accesses(l, r, &mut changes);
    changes
}

/// Compare two loaded runs without performing storage or presentation I/O.
pub fn compare(l: &Run, r: &Run) -> (report: Report)
    requires
        l.metadata.wf(),
        r.metadata.wf(),
    ensures
        report.schema_version == 4,
        views::each(report.changes@) == ranked(numbered(produced(*l, *r))),
        report.observed_differences == Some(report.changes@.len() > 0),
        report.exit_code == status_of(*l, *r, report.changes@.len() > 0),
        report.reliability.left@ == quality_of(*l),
        report.reliability.right@ == quality_of(*r),
        report.errors@.len() == 0,
        report.left@ == l.metadata.name@,
        report.right@ == r.metadata.name@,
        report.left_id@ == l.metadata.id@,
        report.right_id@ == r.metadata.id@,
        views::each(report.warnings@) == run_warnings(*l) + run_warnings(*r),
{
    let reliability = Reliability { left: Quality::of(l), right: Quality::of(r) };
    let mut changes: Vec<Change> = produce_changes(l, r);
    // The production order is the explicit tiebreak of the semantic rank.
    number_changes(&mut changes);
    let changes: Vec<Change> = rank_changes(changes);
    let mut warnings: Vec<String> = Vec::new();
    push_run_warnings(l, &mut warnings);
    assert(views::each(warnings@) =~= run_warnings(*l));
    push_run_warnings(r, &mut warnings);
    let changed: bool = changes.len() > 0;
    let exit_code: i32 = if reliability.left.trusted() && reliability.right.trusted() {
        if changed {
            1
        } else {
            0
        }
    } else {
        3
    };
    Report {
        schema_version: 4,
        observed_differences: Some(changed),
        reliability,
        exit_code,
        errors: Vec::new(),
        left: l.metadata.name.clone(),
        right: r.metadata.name.clone(),
        left_id: l.metadata.id.clone(),
        right_id: r.metadata.id.clone(),
        changes,
        warnings,
    }
}

/// The error that a side contributes.
pub open spec fn side_errors(side: Seq<char>, outcome: LoadOutcome<Run>) -> Seq<Seq<char>> {
    match outcome {
        LoadOutcome::Loaded(run) => Seq::empty(),
        LoadOutcome::Failed(failure) => seq![side + ": "@ + failure.message@],
    }
}

/// The quality of a side.
pub open spec fn side_quality(outcome: LoadOutcome<Run>) -> (Seq<char>, Seq<char>) {
    match outcome {
        LoadOutcome::Loaded(run) => quality_of(run),
        LoadOutcome::Failed(failure) => (
            "unknown"@,
            if failure.kind is Corrupt {
                "corrupt"@
            } else {
                "unavailable"@
            },
        ),
    }
}

/// The status of a comparison of two sides.
pub open spec fn comparison_status(l: LoadOutcome<Run>, r: LoadOutcome<Run>) -> int {
    match (l, r) {
        (LoadOutcome::Loaded(lr), LoadOutcome::Loaded(rr)) => status_of(
            lr,
            rr,
            ranked(numbered(produced(lr, rr))).len() > 0,
        ),
        _ => 2,
    }
}

/// Gives the quality of a side, and adds the error that it contributes.
fn side(label: &str, outcome: &LoadOutcome<Run>, errors: &mut Vec<String>) -> (r: Quality)
    ensures
        r@ == side_quality(*outcome),
        views::each(final(errors)@) == views::each(old(errors)@) + side_errors(label@, *outcome),
{
    let ghost before = views::each(errors@);
    match outcome {
        LoadOutcome::Loaded(run) => {
            assert(before + side_errors(label@, *outcome) =~= before);
            Quality::of(run)
        },
        LoadOutcome::Failed(failure) => {
            let mut s: String = label.to_owned();
            s.append(": ");
            s.append(failure.message.as_str());
            errors.push(s);
            assert(views::each(errors@) =~= before + side_errors(label@, *outcome));
            let storage: &str = match failure.kind {
                StorageLoadFailureKind::Corrupt => "corrupt",
                _ => "unavailable",
            };
            Quality { capture: "unknown".to_owned(), storage: storage.to_owned() }
        },
    }
}

/// Evaluate loaded-or-failed inputs while preserving the four-way diff status.
///
/// Load failures produce status 2, no conclusion on differences, and no ordinary
/// changes. Successfully loaded but untrusted evidence remains a status-3 report.
pub fn evaluate(left: &str, right: &str, l: LoadOutcome<Run>, r: LoadOutcome<Run>) -> (report: Report)
    requires
        l matches LoadOutcome::Loaded(run) ==> run.metadata.wf(),
        r matches LoadOutcome::Loaded(run) ==> run.metadata.wf(),
    ensures
        report.schema_version == 4,
        report.exit_code == comparison_status(l, r),
        report.reliability.left@ == side_quality(l),
        report.reliability.right@ == side_quality(r),
        match (l, r) {
            (LoadOutcome::Loaded(lr), LoadOutcome::Loaded(rr)) => {
                &&& views::each(report.changes@) == ranked(numbered(produced(lr, rr)))
                &&& report.observed_differences == Some(report.changes@.len() > 0)
                &&& report.errors@.len() == 0
                &&& report.left@ == lr.metadata.name@
                &&& report.right@ == rr.metadata.name@
                &&& report.left_id@ == lr.metadata.id@
                &&& report.right_id@ == rr.metadata.id@
                &&& views::each(report.warnings@) == run_warnings(lr) + run_warnings(rr)
            },
            _ => {
                &&& report.changes@.len() == 0
                &&& report.observed_differences is None
                &&& views::each(report.errors@) == side_errors("left"@, l) + side_errors(
                    "right"@,
                    r,
                )
                &&& report.left@ == left@
                &&& report.right@ == right@
                &&& report.left_id@ == ""@
                &&& report.right_id@ == ""@
                &&& report.warnings@.len() == 0
            },
        },
{
    match (&l, &r) {
        (LoadOutcome::Loaded(lr), LoadOutcome::Loaded(rr)) => compare(lr, rr),
        _ => {
            let mut errors: Vec<String> = Vec::new();
            let left_quality: Quality = side("left", &l, &mut errors);
            assert(views::each(errors@) =~= side_errors("left"@, l));
            let right_quality: Quality = side("right", &r, &mut errors);
            Report {
                schema_version: 4,
                observed_differences: None,
                reliability: Reliability { left: left_quality, right: right_quality },
                exit_code: 2,
                errors,
                left: left.to_owned(),
                right: right.to_owned(),
                left_id: "".to_owned(),
                right_id: "".to_owned(),
                changes: Vec::new(),
                warnings: Vec::new(),
            }
        },
    }
}

/// The status of a comparison says what can be concluded: both runs are complete and
/// verified and differ in nothing, or in something; a side could not be loaded; or a side
/// is not complete and verified.
pub proof fn status_tells_the_conclusion(l: LoadOutcome<Run>, r: LoadOutcome<Run>)
    ensures
        comparison_status(l, r) == 2 <==> l is Failed || r is Failed,
        comparison_status(l, r) == 3 <==> !(l is Failed) && !(r is Failed) && !(quality_trusted(
            side_quality(l),
        ) && quality_trusted(side_quality(r))),
        comparison_status(l, r) == 0 ==> {
            &&& quality_trusted(side_quality(l))
            &&& quality_trusted(side_quality(r))
            &&& produced(l->Loaded_0, r->Loaded_0).len() == 0
        },
        comparison_status(l, r) == 1 ==> {
            &&& quality_trusted(side_quality(l))
            &&& quality_trusted(side_quality(r))
            &&& produced(l->Loaded_0, r->Loaded_0).len() > 0
        },
        0 <= comparison_status(l, r) <= 3,
{
    if !(l is Failed) && !(r is Failed) {
        ranking_keeps_every_change(numbered(produced(l->Loaded_0, r->Loaded_0)));
    }
}

/// Whether two runs observed the same accesses with the same outcomes, however often,
/// in whatever order and by whatever tasks.
pub open spec fn same_accesses(l: Seq<EventView>, r: Seq<EventView>) -> bool {
    forall|key: AccessKeyView, o: Seq<char>| #[trigger]
        had_outcome(l, key, o) <==> had_outcome(r, key, o)
}

/// Whether two events are the same but for what does not identify an observation
/// across runs: the task, the evidence, the arguments and the context.
pub open spec fn same_access(a: EventView, b: EventView) -> bool {
    a.kind == b.kind && a.operation == b.operation && a.path == b.path && a.outcome == b.outcome
}

/// Runs whose events are the same but for tasks, evidence, order and number observed
/// the same accesses.
pub proof fn identity_ignores_tasks_order_and_number(l: Seq<EventView>, r: Seq<EventView>)
    requires
        forall|i: int|
            0 <= i < l.len() ==> exists|j: int|
                0 <= j < r.len() && same_access(#[trigger] l[i], #[trigger] r[j]),
        forall|j: int|
            0 <= j < r.len() ==> exists|i: int|
                0 <= i < l.len() && same_access(#[trigger] l[i], #[trigger] r[j]),
    ensures
        same_accesses(l, r),
{
    assert forall|key: AccessKeyView, o: Seq<char>| #[trigger]
        had_outcome(l, key, o) <==> had_outcome(r, key, o) by {
        if had_outcome(l, key, o) {
            let i = choose|i: int|
                0 <= i < l.len() && accesses(#[trigger] l[i], key) && l[i].outcome == o;
            let j = choose|j: int| 0 <= j < r.len() && same_access(l[i], #[trigger] r[j]);
            assert(accesses(r[j], key) && r[j].outcome == o);
        }
        if had_outcome(r, key, o) {
            let j = choose|j: int|
                0 <= j < r.len() && accesses(#[trigger] r[j], key) && r[j].outcome == o;
            let i = choose|i: int| 0 <= i < l.len() && same_access(#[trigger] l[i], r[j]);
            assert(accesses(l[i], key) && l[i].outcome == o);
        }
    }
}

/// Runs that observed the same accesses have the same outcomes of every access.
proof fn equal_outcomes(l: Seq<EventView>, r: Seq<EventView>, key: AccessKeyView)
    requires
        same_accesses(l, r),
    ensures
        outcomes(l, key) == outcomes(r, key),
{
    let a = Set::new(|o: Seq<char>| had_outcome(l, key, o));
    let b = Set::new(|o: Seq<char>| had_outcome(r, key, o));
    assert forall|o: Seq<char>| a.contains(o) == b.contains(o) by {
        assert(had_outcome(l, key, o) <==> had_outcome(r, key, o));
    }
    assert(a =~= b);
}

proof fn no_access_changes(l: Seq<EventView>, r: Seq<EventView>, keys: Seq<AccessKeyView>, n: int)
    requires
        same_accesses(l, r),
    ensures
        access_changes(l, r, keys, n).len() == 0,
    decreases n,
{
    if n > 0 {
        no_access_changes(l, r, keys, n - 1);
        equal_outcomes(l, r, keys[n - 1]);
    }
}

proof fn no_environment_changes(
    e: Map<Seq<char>, Option<Seq<char>>>,
    keys: Seq<Seq<char>>,
    n: int,
)
    ensures
        environment_changes(e, e, keys, n).len() == 0,
    decreases n,
{
    if n > 0 {
        no_environment_changes(e, keys, n - 1);
    }
}

/// Runs of the same command in the same place with the same end, completeness,
/// selected environment and accesses differ in nothing, whatever their tasks, their
/// order and their evidence.
pub proof fn same_observations_differ_in_nothing(l: Run, r: Run)
    requires
        target_exit_text(l.metadata) == target_exit_text(r.metadata),
        l.metadata.cwd@ == r.metadata.cwd@,
        views::each(l.metadata.command@) == views::each(r.metadata.command@),
        completeness_text(l.metadata) == completeness_text(r.metadata),
        environment_of(l.metadata) == environment_of(r.metadata),
        same_accesses(views::each(l.events@), views::each(r.events@)),
    ensures
        produced(l, r).len() == 0,
        ranked(numbered(produced(l, r))).len() == 0,
{
    let e = environment_of(l.metadata);
    let variables = order::listed::<String>(e.dom() + e.dom());
    no_environment_changes(e, variables, variables.len() as int);
    let lv = views::each(l.events@);
    let rv = views::each(r.events@);
    let keys = access_keys(lv, rv);
    no_access_changes(lv, rv, keys, keys.len() as int);
    ranking_keeps_every_change(numbered(produced(l, r)));
}

/// A run that is compared with itself differs in nothing.
pub proof fn run_equals_itself(run: Run)
    ensures
        produced(run, run).len() == 0,
{
    same_observations_differ_in_nothing(run, run);
}

/// The tiers below a number partition the changes that belong to them.
proof fn tiers_keep(changes: Seq<ChangeView>, classes: int, x: ChangeView)
    requires
        0 <= classes,
    ensures
        ranked_upto(changes, classes).to_multiset().count(x) == (if x.rank_key.class.position()
            < classes {
            changes.to_multiset().count(x)
        } else {
            0
        }),
    decreases classes,
{
    broadcast use vstd::seq_lib::group_to_multiset_ensures;

    if classes > 0 {
        tiers_keep(changes, classes - 1, x);
        tier_keeps(changes, classes - 1, changes.len() as int, x);
        assert(changes.take(changes.len() as int) =~= changes);
        vstd::seq_lib::lemma_multiset_commutative(
            ranked_upto(changes, classes - 1),
            of_class(changes, classes - 1, changes.len() as int),
        );
    }
}

/// A tier holds every change that belongs to it.
proof fn tier_keeps(changes: Seq<ChangeView>, class: int, n: int, x: ChangeView)
    requires
        0 <= n <= changes.len(),
    ensures
        of_class(changes, class, n).to_multiset().count(x) == (if x.rank_key.class.position()
            == class {
            changes.take(n).to_multiset().count(x)
        } else {
            0
        }),
    decreases n,
{
    broadcast use vstd::seq_lib::group_to_multiset_ensures;

    if n > 0 {
        tier_keeps(changes, class, n - 1, x);
        assert(changes.take(n) =~= changes.take(n - 1).push(changes[n - 1]));
    }
}

/// Ranking loses no change and adds none.
pub proof fn ranking_keeps_every_change(changes: Seq<ChangeView>)
    ensures
        ranked(changes).to_multiset() == changes.to_multiset(),
        ranked(changes).len() == changes.len(),
{
    broadcast use vstd::seq_lib::group_to_multiset_ensures;

    assert forall|x: ChangeView| ranked(changes).to_multiset().count(x)
        == changes.to_multiset().count(x) by {
        tiers_keep(changes, RANK_CLASSES as int, x);
    }
    assert(ranked(changes).to_multiset() =~= changes.to_multiset());
    assert(ranked(changes).len() == ranked(changes).to_multiset().len());
    assert(changes.len() == changes.to_multiset().len());
}

/// Where the changes of a tier come from.
proof fn tier_order(changes: Seq<ChangeView>, class: int, n: int)
    requires
        0 <= n <= changes.len(),
        changes.len() <= usize::MAX,
        forall|i: int|
            0 <= i < changes.len() ==> (#[trigger] changes[i]).rank_key.comparison_order == i,
    ensures
        forall|i: int|
            0 <= i < of_class(changes, class, n).len() ==> (#[trigger] of_class(
                changes,
                class,
                n,
            )[i]).rank_key.class.position() == class && of_class(
                changes,
                class,
                n,
            )[i].rank_key.comparison_order < n,
        forall|i: int, j: int|
            0 <= i < j < of_class(changes, class, n).len() ==> (#[trigger] of_class(
                changes,
                class,
                n,
            )[i]).rank_key.comparison_order < (#[trigger] of_class(
                changes,
                class,
                n,
            )[j]).rank_key.comparison_order,
    decreases n,
{
    if n > 0 {
        tier_order(changes, class, n - 1);
    }
}

/// Tiers with the same position are the same.
proof fn same_position(a: RankClass, b: RankClass)
    requires
        a.position() == b.position(),
    ensures
        a == b,
{
}

proof fn tiers_order(changes: Seq<ChangeView>, classes: int)
    requires
        0 <= classes,
        changes.len() <= usize::MAX,
        forall|i: int|
            0 <= i < changes.len() ==> (#[trigger] changes[i]).rank_key.comparison_order == i,
    ensures
        forall|i: int|
            0 <= i < ranked_upto(changes, classes).len() ==> (#[trigger] ranked_upto(
                changes,
                classes,
            )[i]).rank_key.class.position() < classes,
        forall|i: int, j: int|
            0 <= i < j < ranked_upto(changes, classes).len() ==> (#[trigger] ranked_upto(
                changes,
                classes,
            )[i]).rank_key.before((#[trigger] ranked_upto(changes, classes)[j]).rank_key),
    decreases classes,
{
    if classes > 0 {
        tiers_order(changes, classes - 1);
        tier_order(changes, classes - 1, changes.len() as int);
        let a = ranked_upto(changes, classes - 1);
        let b = of_class(changes, classes - 1, changes.len() as int);
        let c = ranked_upto(changes, classes);
        assert(c == a + b);
        assert forall|i: int, j: int| 0 <= i < j < c.len() implies (
        #[trigger] c[i]).rank_key.before((#[trigger] c[j]).rank_key) by {
            if i < a.len() && j >= a.len() {
                assert(c[j] == b[j - a.len()]);
            }
            if i >= a.len() {
                assert(c[i] == b[i - a.len()] && c[j] == b[j - a.len()]);
                same_position(c[i].rank_key.class, c[j].rank_key.class);
            }
        }
        assert forall|i: int| 0 <= i < c.len() implies (
        #[trigger] c[i]).rank_key.class.position() < classes by {
            if i >= a.len() {
                assert(c[i] == b[i - a.len()]);
            }
        }
    }
}

/// Changes come in the order of their ranks: by tier, and within a tier in the order
/// in which they were compared.
pub proof fn changes_come_by_rank(changes: Seq<ChangeView>, i: int, j: int)
    requires
        changes.len() <= usize::MAX,
        0 <= i < j < ranked(numbered(changes)).len(),
    ensures
        ranked(numbered(changes))[i].rank_key.before(ranked(numbered(changes))[j].rank_key),
{
    tiers_order(numbered(changes), RANK_CLASSES as int);
}

proof fn sampled_upto_bounded(samples: Seq<EvidenceView>, list: Seq<EvidenceView>, n: int)
    requires
        samples.len() <= SAMPLE_LIMIT,
    ensures
        sampled_upto(samples, list, n).len() <= SAMPLE_LIMIT,
        filled_upto(samples, list, n).len() <= SAMPLE_LIMIT,
    decreases n,
{
    if n > 0 {
        sampled_upto_bounded(samples, list, n - 1);
    }
}

proof fn samples_upto_bounded(
    list: Seq<(Seq<char>, Seq<EvidenceView>)>,
    other: spec_fn(Seq<char>) -> bool,
    n: int,
)
    ensures
        samples_own(list, other, n).len() <= SAMPLE_LIMIT,
    decreases n,
{
    if n > 0 {
        samples_upto_bounded(list, other, n - 1);
    }
}

proof fn samples_common_bounded(
    list: Seq<(Seq<char>, Seq<EvidenceView>)>,
    other: spec_fn(Seq<char>) -> bool,
    n: int,
)
    ensures
        samples_common(list, other, n).len() <= SAMPLE_LIMIT,
    decreases n,
{
    if n > 0 {
        samples_common_bounded(list, other, n - 1);
        sampled_upto_bounded(
            samples_common(list, other, n - 1),
            list[n - 1].1,
            list[n - 1].1.len() as int,
        );
    } else {
        samples_upto_bounded(list, other, list.len() as int);
    }
}

proof fn samples_rest_bounded(
    list: Seq<(Seq<char>, Seq<EvidenceView>)>,
    other: spec_fn(Seq<char>) -> bool,
    n: int,
)
    ensures
        samples_rest(list, other, n).len() <= SAMPLE_LIMIT,
    decreases n,
{
    if n > 0 {
        samples_rest_bounded(list, other, n - 1);
        sampled_upto_bounded(
            samples_rest(list, other, n - 1),
            list[n - 1].1,
            list[n - 1].1.len() as int,
        );
    } else {
        samples_common_bounded(list, other, list.len() as int);
    }
}

/// A change carries at most three samples of evidence for each side.
pub proof fn evidence_samples_are_bounded(l: Seq<EventView>, r: Seq<EventView>, key: AccessKeyView)
    ensures
        access_change(l, r, key).left_evidence.len() <= SAMPLE_LIMIT,
        access_change(l, r, key).right_evidence.len() <= SAMPLE_LIMIT,
{
    let left = outcome_list(l, key);
    let right = outcome_list(r, key);
    samples_rest_bounded(left, |o: Seq<char>| had_outcome(r, key, o), left.len() as int);
    samples_rest_bounded(right, |o: Seq<char>| had_outcome(l, key, o), right.len() as int);
}

/// The access that an event with a path is one of.
spec fn key_of(e: EventView) -> AccessKeyView {
    AccessKeyView { kind: e.kind, operation: e.operation, path: e.path->0 }
}

/// The accesses of a run are finitely many.
proof fn accesses_are_finite(events: Seq<EventView>)
    ensures
        Set::new(|k: AccessKeyView| accessed(events, k)).finite(),
{
    broadcast use vstd::seq_lib::seq_to_set_is_finite;
    broadcast use vstd::set_lib::lemma_set_subset_finite;

    let keys = events.map_values(|e: EventView| key_of(e));
    let set = Set::new(|k: AccessKeyView| accessed(events, k));
    assert forall|k: AccessKeyView| set.contains(k) implies keys.to_set().contains(k) by {
        let i = choose|i: int| 0 <= i < events.len() && accesses(#[trigger] events[i], k);
        assert(keys[i] == k);
    }
    assert(set.subset_of(keys.to_set()));
}

/// The change of an access is among those of the accesses before it or it.
proof fn access_change_found(
    l: Seq<EventView>,
    r: Seq<EventView>,
    keys: Seq<AccessKeyView>,
    n: int,
    i: int,
)
    requires
        0 <= i < n <= keys.len(),
        outcomes(l, keys[i]) != outcomes(r, keys[i]),
    ensures
        access_changes(l, r, keys, n).contains(access_change(l, r, keys[i])),
    decreases n,
{
    let before = access_changes(l, r, keys, n - 1);
    let after = access_changes(l, r, keys, n);
    let change = access_change(l, r, keys[i]);
    if i == n - 1 {
        assert(after[before.len() as int] == change);
    } else {
        access_change_found(l, r, keys, n - 1, i);
        let j = choose|j: int| 0 <= j < before.len() && before[j] == change;
        assert(after[j] == change);
    }
}

/// Every access of either run whose outcomes differ is reported.
pub proof fn differing_accesses_are_reported(l: Run, r: Run, key: AccessKeyView)
    requires
        accessed(views::each(l.events@), key) || accessed(views::each(r.events@), key),
        outcomes(views::each(l.events@), key) != outcomes(views::each(r.events@), key),
    ensures
        produced(l, r).contains(
            access_change(views::each(l.events@), views::each(r.events@), key),
        ),
{
    let lv = views::each(l.events@);
    let rv = views::each(r.events@);
    let a = Set::new(|k: AccessKeyView| accessed(lv, k));
    let b = Set::new(|k: AccessKeyView| accessed(rv, k));
    let set = Set::new(|k: AccessKeyView| accessed(lv, k) || accessed(rv, k));
    accesses_are_finite(lv);
    accesses_are_finite(rv);
    assert(set =~= a.union(b));
    order::listed_lists::<AccessKey>(set);
    let keys = access_keys(lv, rv);
    assert(keys.contains(key));
    let i = choose|i: int| 0 <= i < keys.len() && keys[i] == key;
    access_change_found(lv, rv, keys, keys.len() as int, i);
    let last = access_changes(lv, rv, keys, keys.len() as int);
    let change = access_change(lv, rv, key);
    let j = choose|j: int| 0 <= j < last.len() && last[j] == change;
    let all = produced(l, r);
    assert(all[all.len() - last.len() + j] == change);
}

} // verus!
