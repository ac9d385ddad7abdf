//! How records pass into storage and out of it: the steps in which a file is replaced, what a
//! writer takes, and what a reader reports of a record.
use vstd::prelude::*;

use crate::io::{IoErrorView, IoKind};
use crate::model::{Event, Metadata};
use crate::store::checksum;
use crate::store::contract;
use crate::store::contract::EventFacts;
use crate::store::error::{CauseView, CommitStage, CommitView, ErrorView};
use crate::store::events::{EventStreamReadback, Finalized};
use crate::store::publish;
use crate::store::publish::{
    AtomicStep, EventFileSummary, EventReadback, InitialMetadata, NameSearch,
};
use crate::store::read;
use crate::store::read::{ReadAction, ReadEvent, RecordReader};
use crate::views;

verus! {

/// A name is one component of a path exactly if it is not empty, stays where it is, and holds
/// neither a slash nor a null character; what is wrong with others is told.
pub proof fn components_are_ordinary(name: Seq<char>)
    ensures
        publish::component_fault(name) is None <==> name.len() > 0 && name != "."@ && name != ".."@
            && !name.contains('/') && !name.contains('\0'),
        name.contains('\0') ==> publish::component_fault(name) == Some(
            IoErrorView {
                kind: IoKind::InvalidInput,
                code: None,
                message: "storage file name contains NUL"@,
            },
        ),
        name.contains('/') && !name.contains('\0') ==> publish::component_fault(name) == Some(
            IoErrorView {
                kind: IoKind::InvalidInput,
                code: None,
                message: "storage file name is not one ordinary path component"@,
            },
        ),
{
}

/// A file under way has a name of its own that shows what it is.
pub proof fn staging_names_show_what_they_are(random: Seq<u8>)
    ensures
        publish::staging_text(random) == ".rundelta-tmp-"@ + checksum::hex(random),
{
}

/// A file system without anonymous files is recognized by what it answers, and so is one in
/// which they cannot be linked.
pub proof fn missing_support_is_recognized(code: Option<i32>)
    ensures
        publish::anonymous_unsupported(code) <==> code == Some(95i32) || code == Some(22i32) || code
            == Some(38i32) || code == Some(21i32),
        publish::link_unsupported(code) <==> code == Some(95i32) || code == Some(22i32) || code
            == Some(38i32) || code == Some(21i32) || code == Some(1i32) || code == Some(18i32)
            || code == Some(2i32),
{
}

/// A file is replaced in order: it is written and synced under another name, looked at, renamed,
/// and its directory is synced. Nothing is published before the rename, and what fails behind
/// it leaves durability unknown.
pub proof fn files_are_replaced_in_order(step: AtomicStep)
    ensures
        AtomicStep::Create.next(true) is Write,
        AtomicStep::Write.next(true) is FileSync,
        AtomicStep::FileSync.next(true) is Verify,
        AtomicStep::FileSync.next(false) is Link,
        AtomicStep::Link.next(false) is Verify,
        AtomicStep::FallbackCreate.next(false) is FallbackCopy,
        AtomicStep::FallbackCopy.next(false) is FallbackFileSync,
        AtomicStep::FallbackFileSync.next(false) is Verify,
        AtomicStep::Verify.next(true) is Retain,
        AtomicStep::Retain.next(true) is Rename,
        AtomicStep::Rename.next(true) is DirectorySync,
        AtomicStep::DirectorySync.next(true) is Published,
        step is DirectorySync <==> step.stage() is PublishedDurabilityUnknown,
        !(step is DirectorySync) <==> step.stage() is BeforePublish,
{
}

/// The words for the steps in which a file is replaced.
pub proof fn steps_have_their_words()
    ensures
        AtomicStep::Create.words() == "create temporary file"@,
        AtomicStep::Write.words() == "write temporary file"@,
        AtomicStep::FileSync.words() == "sync temporary file"@,
        AtomicStep::Link.words() == "link anonymous temporary file"@,
        AtomicStep::FallbackCreate.words() == "create named temporary file"@,
        AtomicStep::FallbackCopy.words() == "copy anonymous temporary file to named fallback"@,
        AtomicStep::FallbackFileSync.words() == "sync named fallback temporary file"@,
        AtomicStep::Verify.words() == "verify temporary file identity"@,
        AtomicStep::Retain.words() == "retain temporary file handle"@,
        AtomicStep::Rename.words() == "rename temporary file"@,
        AtomicStep::DirectorySync.words() == "sync containing directory"@,
{
}

/// A record is begun exactly with metadata of its own that makes sense and that runs, and only
/// once.
pub proof fn records_are_begun_once(
    state: InitialMetadata,
    id: Seq<char>,
    name: Seq<char>,
    m: Metadata,
)
    ensures
        publish::initial_fault(state, id, name, m) is None <==> state is Unwritten && m.id@ == id
            && m.name@ == name && contract::metadata_fault(m) is None && m.state@ == "running"@,
        !(state is Unwritten) ==> publish::initial_fault(state, id, name, m) == Some(
            "initial metadata was already written or its publication failed"@,
        ),
        state is Unwritten && (m.id@ != id || m.name@ != name) ==> publish::initial_fault(
            state,
            id,
            name,
            m,
        ) == Some("metadata identity does not match the active record writer"@),
        state is Unwritten && m.id@ == id && m.name@ == name && contract::metadata_fault(m) is None
            && m.state@ != "running"@ ==> publish::initial_fault(state, id, name, m) == Some(
            "initial metadata must describe a running capture"@,
        ),
{
}

/// A record is finished exactly if it was begun and the metadata is its own.
pub proof fn records_are_finished_once_begun(
    state: InitialMetadata,
    id: Seq<char>,
    name: Seq<char>,
    m: Metadata,
)
    ensures
        publish::writer_fault(state, id, name, m) is None <==> state is Written && m.id@ == id
            && m.name@ == name,
        !(state is Written) ==> publish::writer_fault(state, id, name, m) == Some(
            "record finalization requires successfully written initial metadata"@,
        ),
        state is Written && (m.id@ != id || m.name@ != name) ==> publish::writer_fault(
            state,
            id,
            name,
            m,
        ) == Some("metadata identity does not match the active record writer"@),
{
}

/// A writer takes metadata of the current schema and events of the current schema that make a
/// run that makes sense, and nothing else.
pub proof fn writers_take_current_runs(m: Metadata, events: Seq<Event>)
    ensures
        publish::finish_fault(m, events) is None <==> {
            &&& m.schema_version == 3
            &&& forall|i: int| 0 <= i < events.len() ==> (#[trigger] events[i]).schema_version == 2
            &&& contract::run_fault(m, EventFacts::of(views::each(events)), true) is None
        },
        m.schema_version != 3 ==> publish::finish_fault(m, events) == Some(
            "writer requires metadata schema 3 and event schema 2"@,
        ),
{
    if !publish::has_older_event(events) {
        assert forall|i: int| 0 <= i < events.len() implies (#[trigger] events[i]).schema_version
            == 2 by {}
    }
}

/// Events under a marker are taken exactly if they have the digest that the marker says, can be
/// decoded, are as many as the marker and the metadata say, make a run that makes sense with
/// the metadata, and have schemas that can be read.
pub proof fn marked_events_are_checked(
    m: Metadata,
    marker: Finalized,
    readback: EventStreamReadback,
)
    requires
        1 <= m.schema_version <= 3,
    ensures
        read::marked_events_fault(m, marker, readback) is None ==> {
            &&& readback.check@ == marker.events@
            &&& readback.decoded matches Ok(d) && {
                &&& d.facts.count == marker.event_count
                &&& d.facts.count == m.parsed_events
                &&& contract::run_fault(m, d.facts, true) is None
                &&& d.facts.first_unsupported_schema is None
            }
        },
        readback.check@ != marker.events@ ==> read::marked_events_fault(m, marker, readback) == Some(
            ErrorView::Corrupt("events.jsonl"@ + ": byte count or SHA-256 mismatch"@),
        ),
        readback.check@ == marker.events@ ==> (readback.decoded matches Ok(d) ==> (d.facts.count
            != marker.event_count || d.facts.count != m.parsed_events) ==> read::marked_events_fault(
            m,
            marker,
            readback,
        ) == Some(ErrorView::Corrupt("event count mismatch"@))),
{
}

/// A record without a marker that is of the current schema, or that still runs, is reported as
/// not finalized, with its metadata and without events.
pub proof fn unfinished_records_are_reported(
    reader: RecordReader,
    event: ReadEvent,
    next: RecordReader,
    action: ReadAction,
)
    requires
        reader.phase is ReadMetadata,
        reader.marker is None,
        reader.leads(event, next, action),
        reader.fault(event) is None,
        event matches ReadEvent::Metadata(Ok(x)) && x.body matches Ok(m) && (m.schema_version == 3
            || m.state@ == "running"@),
    ensures
        action matches ReadAction::Done(Ok(loaded)) && {
            &&& loaded.storage_integrity.status@ == "unfinalized"@
            &&& loaded.storage_integrity.detail@
                == "no final marker; capture may still be running or may have stopped before storage finalization"@
            &&& reader.mode is CollectEvents ==> (loaded.events matches Some(list) && list@.len()
                == 0)
        },
{
}

/// A record whose events were read is verified exactly if it has a marker and is of the current
/// schema, and says what it is if it is not.
pub proof fn read_records_are_reported(
    reader: RecordReader,
    event: ReadEvent,
    next: RecordReader,
    action: ReadAction,
)
    requires
        reader.phase is StreamEvents,
        reader.metadata is Some,
        reader.leads(event, next, action),
        event is Streamed,
        reader.fault(event) is None,
    ensures
        action matches ReadAction::Done(Ok(loaded)) && {
            let status = loaded.storage_integrity.status@;
            let current = (reader.metadata->0).schema_version == 3;
            &&& reader.marker is Some && current ==> status == "verified"@
            &&& !(reader.marker is Some && current) ==> status == "unverified"@
            &&& reader.marker is None ==> loaded.storage_integrity.detail@
                == "storage integrity unverified: legacy record has no finalization checksums"@
            &&& loaded.metadata == reader.metadata->0
        },
{
}

/// A record is read in order: its marker, then its metadata, then its events; what the marker
/// covers is checked before it is read.
pub proof fn records_are_read_in_order(
    reader: RecordReader,
    event: ReadEvent,
    next: RecordReader,
    action: ReadAction,
)
    requires
        reader.awaits(event),
        reader.leads(event, next, action),
        reader.fault(event) is None,
    ensures
        reader.phase is Marker ==> action is OpenMetadata,
        reader.phase is OpenMetadata && reader.marker is Some ==> action is CheckMetadata,
        reader.phase is OpenMetadata && reader.marker is None ==> action is ReadMetadata,
        reader.phase is CheckMetadata ==> action is OpenEvents,
        reader.phase is OpenEvents && reader.marker is Some ==> action is CheckEvents,
        reader.phase is OpenEvents && reader.marker is None ==> action is StreamEvents,
        reader.phase is CheckEvents ==> action is ReadMetadata,
{
}

/// A marker of another record is damage, and so is metadata that the marker does not cover.
pub proof fn foreign_parts_are_damage(reader: RecordReader, event: ReadEvent)
    ensures
        event matches ReadEvent::Marker(Ok(x)) ==> (x.body matches Ok(marker) ==> x.header == Ok::<
            u32,
            String,
        >(1u32) && marker.run_id@ != reader.id@ ==> reader.fault(event) == Some(
            ErrorView::Corrupt("finalization marker run ID does not match record"@),
        )),
        event matches ReadEvent::Metadata(Ok(x)) ==> (reader.marker matches Some(marker)
            ==> !marker.metadata@.covers(x.bytes@) ==> reader.fault(event) == Some(
            ErrorView::Corrupt("metadata.json"@ + ": byte count or SHA-256 mismatch"@),
        )),
        event matches ReadEvent::Marker(Err(e)) ==> (e.kind is NotFound <==> reader.fault(event)
            is None),
{
}

/// What is wrong with an event file that was published is said: that it is not the file that
/// was staged, as far as that can be seen, or that it cannot be read back.
pub proof fn published_files_are_identified(r: EventReadback, stage: CommitStage)
    ensures
        publish::identity_fault(r, stage) is None <==> {
            &&& r.open_failure is None && r.entry is None
            &&& r.opened matches Ok(opened) && r.held matches Ok(held) && opened.regular
                && opened.device == held.device && opened.inode == held.inode
        },
        r.open_failure matches Some(e) ==> publish::identity_fault(r, stage) == Some(
            CauseView::Commit(
                CommitView {
                    file: "events.jsonl"@,
                    operation: "read back published file"@,
                    stage,
                    source: e@,
                },
            ),
        ),
{
}

/// What was published is taken back only if it holds what was staged: the same bytes and the
/// same facts.
pub proof fn published_events_are_read_back(
    r: EventReadback,
    expected: EventFileSummary,
    stage: CommitStage,
)
    ensures
        publish::readback_fault(r, expected, stage) is None <==> {
            &&& r.entry_after is None
            &&& r.opened_after matches Ok(a) && r.held_after matches Ok(b) && a.device == b.device
                && a.inode == b.inode
            &&& r.streamed matches Ok(back) && back.check@ == expected.check@ && (
            back.decoded matches Ok(d) && d.facts == expected.facts)
        },
{
}

/// A record is finalized only if its run makes sense and its metadata counts the events that
/// were read back.
pub proof fn records_are_finalized_with_their_events(m: Metadata, facts: EventFacts, stage: CommitStage)
    ensures
        publish::reread_fault(m, facts, stage) is None <==> contract::run_fault(m, facts, true) is None
            && facts.count == m.parsed_events,
        contract::run_fault(m, facts, true) matches Some(message) ==> publish::reread_fault(
            m,
            facts,
            stage,
        ) == Some(CauseView::Other("cannot finalize inconsistent metadata"@ + ": "@ + message)),
{
}

/// Events without a marker are taken exactly if they can be decoded and make a run that makes
/// sense with the metadata.
pub proof fn unmarked_events_are_checked(m: Metadata, readback: EventStreamReadback)
    ensures
        read::unmarked_events_fault(m, readback) is None <==> (readback.decoded matches Ok(d)
            && contract::run_fault(m, d.facts, false) is None),
        readback.decoded matches Ok(d) ==> (contract::run_fault(m, d.facts, false) matches Some(
            message,
        ) ==> read::unmarked_events_fault(m, readback) == Some(
            ErrorView::Corrupt("run contract"@ + ": "@ + message),
        )),
{
}

/// A path component in bytes is ordinary exactly if it is not empty, stays where it is, and
/// holds no slash.
pub proof fn byte_components_are_ordinary(name: Seq<u8>)
    ensures
        publish::ordinary_bytes(name) <==> name.len() > 0 && name != seq![0x2eu8] && name != seq![
            0x2eu8,
            0x2eu8,
        ] && !name.contains(0x2fu8),
{
}

/// A search for a staging name that found every name taken says so.
pub proof fn searches_end(search: NameSearch)
    ensures
        search.exhausted().kind is AlreadyExists,
        search.exhausted().code is None,
        search.linking ==> search.exhausted().message
            == "could not link an anonymous file under a unique staging name"@,
        !search.linking ==> search.exhausted().message
            == "could not allocate a unique random staging name"@,
{
}

} // verus!
