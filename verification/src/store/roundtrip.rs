//! What loading a record gives back of what finalizing it was given.
//!
//! Finalizing and loading are followed step by step, from what each step was told to
//! what it asked for. That a file holds what was written to it, and that its bytes are
//! decoded to what they were encoded from, is taken for granted here: it rests with the
//! files and with the encoding.
use vstd::prelude::*;
use vstd::utf8::{decode_utf8, valid_utf8};

use crate::io::IoError;
use crate::model::{Event, Metadata};
use crate::store::contract;
use crate::store::contract::EventFacts;
use crate::store::error::ErrorView;
use crate::store::events;
use crate::store::events::{EventReadMode, Finalized, LabelRead};
use crate::store::index;
use crate::store::index::{EntryOpen, EntryView};
use crate::store::publish;
use crate::store::publish::{FinishAction, FinishEvent, FinishPhase};
use crate::store::read;
use crate::store::read::{ReadAction, ReadEvent, RecordReader};
use crate::views;

verus! {

broadcast use crate::views::group_views;

/// The steps by which a record is finalized: in each phase something happened, which led
/// to the next phase and to an action.
pub struct Finishing {
    /// The phases.
    pub phases: Seq<FinishPhase>,
    /// What happened.
    pub happened: Seq<FinishEvent>,
    /// The actions.
    pub actions: Seq<FinishAction>,
}

impl Finishing {
    /// Whether these are steps of finalizing a record, from its start on.
    pub open spec fn follows(self, m: Metadata) -> bool {
        &&& self.phases.len() == self.happened.len() + 1
        &&& self.actions.len() == self.happened.len()
        &&& self.phases[0] is Events
        &&& forall|i: int|
            0 <= i < self.happened.len() ==> {
                &&& self.phases[i].awaits(#[trigger] self.happened[i])
                &&& self.phases[i].leads(
                    m,
                    self.happened[i],
                    self.phases[i + 1],
                    self.actions[i],
                )
            }
    }

    /// Whether the record is finalized in the end.
    pub open spec fn succeeds(self) -> bool {
        self.actions.len() > 0 && (self.actions.last() matches FinishAction::Done(Ok(_)))
    }

    /// Whether the events were staged line by line.
    pub open spec fn stages(self, lines: Seq<Seq<u8>>, events: Seq<Event>) -> bool {
        self.happened[0] matches FinishEvent::EventsPublished(Ok((summary, _))) ==> {
            let staged = publish::staged_upto(lines, views::each(events), events.len() as int);
            summary.sums(staged)
        }
    }

    /// The bytes of the metadata that was published, in a record that is finalized.
    pub open spec fn metadata_bytes(self) -> Seq<u8> {
        (self.happened[2]->MetadataPublished_0->Ok_0).0@
    }

    /// The marker that was published, in a record that is finalized.
    pub open spec fn marker(self) -> Finalized {
        self.actions[3]->PublishMarker_0
    }
}

/// The steps by which a record is read: each reader was told something, which led to the
/// next reader and to an action.
pub struct Reading {
    /// The readers.
    pub readers: Seq<RecordReader>,
    /// What they were told.
    pub happened: Seq<ReadEvent>,
    /// The actions.
    pub actions: Seq<ReadAction>,
}

impl Reading {
    /// Whether these are the steps of reading a record with its events, from its start to
    /// its end.
    pub open spec fn follows(self, id: Seq<char>) -> bool {
        &&& self.readers.len() == self.happened.len() + 1
        &&& self.actions.len() == self.happened.len()
        &&& self.readers[0].begins(id, EventReadMode::CollectEvents)
        &&& self.readers.last().phase is Done
        &&& forall|i: int|
            0 <= i < self.happened.len() ==> {
                &&& self.readers[i].awaits(#[trigger] self.happened[i])
                &&& self.readers[i].leads(
                    self.happened[i],
                    self.readers[i + 1],
                    self.actions[i],
                )
            }
    }

    /// Whether the readers were told what was published: the marker, the metadata with
    /// its bytes, and the lines of the events with the events that they were written for.
    pub open spec fn finds(
        self,
        marker: Finalized,
        bytes: Seq<u8>,
        m: Metadata,
        lines: Seq<Seq<u8>>,
        events: Seq<Event>,
    ) -> bool {
        forall|i: int|
            0 <= i < self.happened.len() ==> found(
                self.readers[i],
                #[trigger] self.happened[i],
                marker,
                bytes,
                m,
                lines,
                events,
            )
    }
}

/// Whether a reader was told what was published.
pub open spec fn found(
    reader: RecordReader,
    event: ReadEvent,
    marker: Finalized,
    bytes: Seq<u8>,
    m: Metadata,
    lines: Seq<Seq<u8>>,
    events: Seq<Event>,
) -> bool {
    let stream = publish::streamed_upto(
        EventReadMode::CollectEvents,
        lines,
        views::each(events),
        events.len() as int,
    );
    match event {
        ReadEvent::Marker(read) => read matches Ok(x) && x.header == Ok::<u32, String>(
            marker.schema_version,
        ) && x.body == Ok::<Finalized, String>(marker),
        ReadEvent::Opened(failure) => failure is None,
        ReadEvent::Checked(length, computed) => computed matches Ok(check) && length == Ok::<
            u64,
            IoError,
        >(check.bytes) && (if reader.phase is CheckMetadata {
            check@.covers(bytes)
        } else {
            check@.covers(stream.bytes)
        }),
        ReadEvent::Metadata(read) => read matches Ok(x) && x.bytes@ == bytes && x.header == Ok::<
            u32,
            String,
        >(m.schema_version) && x.body == Ok::<Metadata, String>(m),
        ReadEvent::Streamed(read) => read matches Ok(x) && stream.reads(x),
    }
}

/// Whether the lines of an event file are text that ends.
pub open spec fn written_lines(lines: Seq<Seq<u8>>) -> bool {
    forall|i: int|
        0 <= i < lines.len() ==> valid_utf8(#[trigger] lines[i]) && lines[i].len() > 0
            && lines[i].last() == 10
}

/// Events of the current schema version have no other one.
proof fn current_events_are_supported(events: Seq<Event>, n: int)
    requires
        !publish::has_older_event(events),
        0 <= n <= events.len(),
    ensures
        EventFacts::upto(views::each(events), n).first_unsupported_schema is None,
    decreases n,
{
    if n > 0 {
        current_events_are_supported(events, n - 1);
        assert(events[n - 1].schema_version == 2);
        assert(views::each(events)[n - 1] == events[n - 1]@);
    }
}

/// A record that is finalized went through every phase: its marker covers its metadata and
/// names the check and the number of its events.
proof fn finished_marker_covers(m: Metadata, events: Seq<Event>, lines: Seq<Seq<u8>>, f: Finishing)
    requires
        f.follows(m),
        f.succeeds(),
        f.stages(lines, events),
    ensures
        ({
            let staged = publish::staged_upto(lines, views::each(events), events.len() as int);
            let marker = f.marker();
            &&& f.happened.len() == 5
            &&& f.happened[2] matches FinishEvent::MetadataPublished(Ok(_))
            &&& f.actions[3] is PublishMarker
            &&& marker.schema_version == 1
            &&& marker.run_id@ == m.id@
            &&& marker.event_count == staged.1.count
            &&& marker.events@.covers(staged.0)
            &&& marker.metadata@.covers(f.metadata_bytes())
        }),
{
    let n = f.happened.len();
    assert(f.phases[0].awaits(f.happened[0]));
    if n > 1 {
        assert(f.phases[1].awaits(f.happened[1]));
    }
    if n > 2 {
        assert(f.phases[2].awaits(f.happened[2]));
    }
    if n > 3 {
        assert(f.phases[3].awaits(f.happened[3]));
    }
    if n > 4 {
        assert(f.phases[4].awaits(f.happened[4]));
    }
    if n > 5 {
        assert(f.phases[5].awaits(f.happened[5]));
    }
}

/// A record that was found as it was published is read to its end, as it was written.
proof fn found_record_is_read(
    m: Metadata,
    events: Seq<Event>,
    lines: Seq<Seq<u8>>,
    marker: Finalized,
    bytes: Seq<u8>,
    r: Reading,
)
    requires
        publish::finish_fault(m, events) is None,
        lines.len() == events.len(),
        written_lines(lines),
        marker.schema_version == 1,
        marker.run_id@ == m.id@,
        marker.metadata@.covers(bytes),
        ({
            let staged = publish::staged_upto(lines, views::each(events), events.len() as int);
            marker.event_count == staged.1.count && marker.events@.covers(staged.0)
        }),
        r.follows(m.id@),
        r.finds(marker, bytes, m, lines, events),
    ensures
        r.actions.len() == 7,
        r.actions.last() matches ReadAction::Done(Ok(loaded)) && loaded.metadata == m
            && events::events_view(loaded.events) == Some(views::each(events))
            && loaded.storage_integrity.status@ == "verified"@,
{
    let n = r.happened.len();
    let written = views::each(events);
    let count = events.len() as int;
    let stream = publish::streamed_upto(EventReadMode::CollectEvents, lines, written, count);
    publish::staged_events_read_back(EventReadMode::CollectEvents, lines, written, count);
    assert(written.take(count) =~= written);
    current_events_are_supported(events, count);
    let facts = stream.facts;
    assert(facts == EventFacts::of(written));
    assert(contract::run_fault(m, facts, true) is None);
    record_goes_on(r, 0, marker, bytes, m, lines, events);
    record_goes_on(r, 1, marker, bytes, m, lines, events);
    record_goes_on(r, 2, marker, bytes, m, lines, events);
    record_goes_on(r, 3, marker, bytes, m, lines, events);
    record_goes_on(r, 4, marker, bytes, m, lines, events);
    record_goes_on(r, 5, marker, bytes, m, lines, events);
    record_goes_on(r, 6, marker, bytes, m, lines, events);
    if n > 7 {
        assert(r.readers[7].awaits(r.happened[7]));
    }
}

/// One step of reading a record that is found as it was published.
proof fn record_goes_on(
    r: Reading,
    i: int,
    marker: Finalized,
    bytes: Seq<u8>,
    m: Metadata,
    lines: Seq<Seq<u8>>,
    events: Seq<Event>,
)
    requires
        r.follows(m.id@),
        r.finds(marker, bytes, m, lines, events),
        0 <= i <= r.happened.len(),
        !(r.readers[i].phase is Done),
        r.readers[i].wf(),
        r.readers[i].id@ == m.id@,
        r.readers[i].mode is CollectEvents,
        !(r.readers[i].phase is Marker) ==> r.readers[i].marker == Some(marker),
        r.readers[i].metadata is Some ==> r.readers[i].metadata == Some(m),
        m.schema_version == 3,
        marker.schema_version == 1,
        marker.run_id@ == m.id@,
        marker.metadata@.covers(bytes),
        ({
            let stream = publish::streamed_upto(
                EventReadMode::CollectEvents,
                lines,
                views::each(events),
                events.len() as int,
            );
            &&& stream.fault() is None
            &&& stream.events == Some(views::each(events))
            &&& contract::run_fault(m, stream.facts, true) is None
            &&& stream.facts.first_unsupported_schema is None
            &&& marker.event_count == stream.facts.count
            &&& marker.events@.covers(stream.bytes)
        }),
    ensures
        i < r.happened.len(),
        r.readers[i].fault(r.happened[i]) is None,
        r.readers[i].proceeds(r.happened[i], r.readers[i + 1], r.actions[i]),
        r.readers[i].awaits(r.happened[i]),
        r.readers[i + 1].wf(),
        r.readers[i + 1].id@ == m.id@,
        r.readers[i + 1].mode is CollectEvents,
        !(r.readers[i + 1].phase is Done) ==> r.readers[i + 1].marker == Some(marker),
        r.readers[i + 1].phase is StreamEvents ==> r.readers[i + 1].metadata == Some(m),
        !(r.readers[i + 1].phase is Done) && r.readers[i + 1].metadata is Some
            ==> r.readers[i + 1].metadata == Some(m),
        r.actions[i] is Done ==> {
            &&& r.actions[i] matches ReadAction::Done(Ok(loaded))
            &&& loaded.metadata == m
            &&& events::events_view(loaded.events) == Some(views::each(events))
            &&& loaded.storage_integrity.status@ == "verified"@
        },
{
    assert(i < r.happened.len());
    let reader = r.readers[i];
    let event = r.happened[i];
    let stream = publish::streamed_upto(
        EventReadMode::CollectEvents,
        lines,
        views::each(events),
        events.len() as int,
    );
    assert(reader.leads(event, r.readers[i + 1], r.actions[i]));
    assert(found(reader, event, marker, bytes, m, lines, events));
    assert(read::reports(reader, event, marker, bytes, m, stream.facts));
    read::finalized_record_reads_back(
        reader,
        event,
        r.readers[i + 1],
        r.actions[i],
        marker,
        bytes,
        m,
        stream.facts,
    );
}

/// A key that names one entry and no other selects it.
proof fn single_match(entries: Seq<EntryView>, key: Seq<char>, i: int, n: int)
    requires
        0 <= i < entries.len(),
        0 <= n <= entries.len(),
        index::names(entries[i], key),
        forall|j: int| 0 <= j < entries.len() && j != i ==> !index::names(#[trigger] entries[j], key),
    ensures
        index::match_count(entries, key, n) == (if i < n {
            1int
        } else {
            0
        }),
    decreases n,
{
    if n > 0 {
        single_match(entries, key, i, n - 1);
    }
}

/// A record that was finalized is loaded by its identifier and by its name, where no
/// other record has either as its identifier or label: that record is selected, and what
/// is loaded is its metadata, its events in their order, and that it is verified. The
/// directory of a record is named by its identifier and its label is its name; its files
/// hold what was written and are decoded to what they were encoded from.
pub proof fn finalized_records_are_loaded(
    m: Metadata,
    events: Seq<Event>,
    lines: Seq<Seq<u8>>,
    finishing: Finishing,
    entries: Seq<EntryView>,
    i: int,
    directory: Seq<char>,
    leaf: Seq<u8>,
    label: LabelRead,
    open: EntryOpen,
    key: Seq<char>,
    reading: Reading,
)
    requires
        publish::finish_fault(m, events) is None,
        lines.len() == events.len(),
        written_lines(lines),
        finishing.follows(m),
        finishing.succeeds(),
        finishing.stages(lines, events),
        0 <= i < entries.len(),
        valid_utf8(leaf),
        decode_utf8(leaf) == m.id@,
        label matches LabelRead::Label(Some(name)) && name@ == m.name@,
        open matches EntryOpen::Opened(Ok(hint)) && events::label_hint(label) == Ok::<
            Option<Seq<char>>,
            ErrorView,
        >(views::opt(hint)),
        entries[i] == index::entry_of(directory, index::recognized(leaf), open),
        forall|j: int|
            0 <= j < entries.len() && j != i ==> !index::names(#[trigger] entries[j], m.id@)
                && !index::names(entries[j], m.name@),
        key == m.id@ || key == m.name@,
        reading.follows(m.id@),
        reading.finds(finishing.marker(), finishing.metadata_bytes(), m, lines, events),
    ensures
        index::match_count(entries, key, entries.len() as int) == 1,
        forall|k: int|
            0 <= k < entries.len() ==> (index::names(#[trigger] entries[k], key) <==> k == i),
        index::selected_fault(entries[i]) is None,
        entries[i].id == Some(m.id@),
        reading.actions.len() > 0,
        reading.actions.last() matches ReadAction::Done(Ok(loaded)) && loaded.metadata == m
            && events::events_view(loaded.events) == Some(views::each(events))
            && loaded.storage_integrity.status@ == "verified"@,
{
    assert(contract::request_fault(m) is None);
    assert(entries[i].name == Some(m.name@));
    single_match(entries, key, i, entries.len() as int);
    finished_marker_covers(m, events, lines, finishing);
    found_record_is_read(
        m,
        events,
        lines,
        finishing.marker(),
        finishing.metadata_bytes(),
        reading,
    );
}

} // verus!
