//! Reading of one record with the priority that its checks have.
//!
//! A marker comes first, then the bytes that it names, and only then what those
//! bytes mean.
use vstd::prelude::*;
use vstd::string::*;

use crate::io;
use crate::io::{with_context, IoError, IoKind};
use crate::model::{Event, Metadata, Run, StorageIntegrity};
use crate::store::checksum;
use crate::store::checksum::{verified_file_check, verify, verify_check, CheckView, FileCheck};
use crate::store::contract;
use crate::store::contract::{
    finalized_integrity_from_facts, validate_run_contract_facts, EventFacts, SchemaTuple,
};
use crate::store::error;
use crate::store::error::{
    corrupt, required_record_file_error, unavailable_io, ErrorView, StorageError,
};
use crate::store::events;
use crate::store::events::{
    decode_finalized, decode_metadata, empty_events, DecodedEventStream, EventReadMode,
    EventStreamReadback, Finalized,
};
use crate::text;
use crate::views;

verus! {

broadcast use crate::views::group_views;

/// A record that was read.
#[derive(Debug)]
pub struct LoadedRecord {
    /// Its metadata.
    pub metadata: Metadata,
    /// Its events, where they are kept.
    pub events: Option<Vec<Event>>,
    /// What its checks came to.
    pub storage_integrity: StorageIntegrity,
}

/// What reading a record is waiting for.
#[derive(Debug, Clone, Copy, PartialEq, Eq, Structural)]
pub enum ReadPhase {
    /// The marker.
    Marker,
    /// That the metadata file was opened.
    OpenMetadata,
    /// The check of the metadata file.
    CheckMetadata,
    /// That the event file was opened.
    OpenEvents,
    /// The check of the event file.
    CheckEvents,
    /// The metadata.
    ReadMetadata,
    /// The events.
    StreamEvents,
    /// Nothing: the record was read, or cannot be.
    Done,
}

/// What reading a record does next.
#[derive(Debug)]
pub enum ReadAction {
    /// Read and decode the marker.
    ReadMarker,
    /// Open the metadata file.
    OpenMetadata,
    /// Measure the metadata file and, where its length is right, compute its check.
    CheckMetadata,
    /// Open the event file.
    OpenEvents,
    /// Measure the event file and, where its length is right, compute its check.
    CheckEvents,
    /// Read and decode the metadata.
    ReadMetadata,
    /// Read and decode the events.
    StreamEvents,
    /// Report the record, or why it cannot be read.
    Done(Result<LoadedRecord, StorageError>),
}

/// The bytes of a metadata file with what they were decoded to.
#[derive(Debug)]
pub struct MetadataBytes {
    /// The bytes.
    pub bytes: Vec<u8>,
    /// The schema version that the header names.
    pub header: Result<u32, String>,
    /// What the bytes were decoded to.
    pub body: Result<Metadata, String>,
}

/// The marker with what it was decoded to.
#[derive(Debug)]
pub struct MarkerBytes {
    /// The schema version that the header names.
    pub header: Result<u32, String>,
    /// What the bytes were decoded to.
    pub body: Result<Finalized, String>,
}

/// What came of an action.
#[derive(Debug)]
pub enum ReadEvent {
    /// The marker, or why it could not be read.
    Marker(Result<MarkerBytes, IoError>),
    /// Why a file could not be opened.
    Opened(Option<IoError>),
    /// The length of a file, and its check.
    Checked(Result<u64, IoError>, Result<FileCheck, IoError>),
    /// The metadata, or why it could not be read.
    Metadata(Result<MetadataBytes, IoError>),
    /// The events, or why they could not be read.
    Streamed(Result<EventStreamReadback, IoError>),
}

/// The progress of reading a record.
pub struct RecordReader {
    /// The identifier of the record.
    pub id: String,
    /// Whether events are kept.
    pub mode: EventReadMode,
    /// The marker.
    pub marker: Option<Finalized>,
    /// The metadata.
    pub metadata: Option<Metadata>,
    /// What reading is waiting for.
    pub phase: ReadPhase,
}

/// The file that a phase is about.
pub open spec fn phase_file(phase: ReadPhase) -> Seq<char> {
    match phase {
        ReadPhase::OpenMetadata => "metadata.json"@,
        ReadPhase::CheckMetadata => "metadata.json"@,
        ReadPhase::ReadMetadata => "metadata.json"@,
        _ => "events.jsonl"@,
    }
}

/// What is wrong with the events of a record with a marker.
pub open spec fn marked_events_fault(
    m: Metadata,
    marker: Finalized,
    readback: EventStreamReadback,
) -> Option<ErrorView> {
    if readback.check@ != marker.events@ {
        Some(checksum::mismatch("events.jsonl"@))
    } else {
        match readback.decoded {
            Err(e) => Some(e@),
            Ok(d) => if d.facts.count != marker.event_count || d.facts.count != m.parsed_events {
                Some(ErrorView::Corrupt("event count mismatch"@))
            } else {
                match contract::run_fault(m, d.facts, true) {
                    Some(message) => Some(
                        ErrorView::Corrupt(io::context("run contract"@, message)),
                    ),
                    None => (SchemaTuple {
                        metadata: m.schema_version,
                        events: d.facts,
                        marker: Some(1u32),
                    }).fault(),
                }
            },
        }
    }
}

/// What is wrong with the events of a record without a marker.
pub open spec fn unmarked_events_fault(m: Metadata, readback: EventStreamReadback) -> Option<
    ErrorView,
> {
    match readback.decoded {
        Err(e) => Some(e@),
        Ok(d) => match contract::run_fault(m, d.facts, false) {
            Some(message) => Some(ErrorView::Corrupt(io::context("run contract"@, message))),
            None => None,
        },
    }
}

/// Whether a record without a marker holds no events that can be relied on.
pub open spec fn unfinalized(m: Metadata) -> bool {
    m.schema_version >= 3 || m.state@ == "running"@
}

/// Whether an integrity has a status with its detail.
pub open spec fn states(i: StorageIntegrity, status: Seq<char>, detail: Seq<char>) -> bool {
    i.status@ == status && i.detail@ == detail
}

impl RecordReader {
    /// What the phases rely on.
    pub open spec fn wf(self) -> bool {
        &&& self.marker matches Some(marker) ==> marker.run_id@ == self.id@
        &&& self.phase is CheckMetadata || self.phase is CheckEvents ==> self.marker is Some
        &&& self.phase is Marker ==> self.metadata is None
        &&& self.phase is StreamEvents ==> self.metadata is Some
        &&& self.phase is OpenEvents && self.marker is None ==> self.metadata is Some
        &&& self.metadata matches Some(m) ==> m.wf()
    }

    /// Whether reading is waiting for an event.
    pub open spec fn awaits(self, event: ReadEvent) -> bool {
        match event {
            ReadEvent::Marker(_) => self.phase is Marker,
            ReadEvent::Opened(_) => self.phase is OpenMetadata || self.phase is OpenEvents,
            ReadEvent::Checked(_, _) => self.phase is CheckMetadata || self.phase is CheckEvents,
            ReadEvent::Metadata(read) => self.phase is ReadMetadata && (read matches Ok(x)
                ==> x.body matches Ok(m) ==> m.wf()),
            ReadEvent::Streamed(_) => self.phase is StreamEvents,
        }
    }

    /// The check that the marker names for the file of a phase.
    pub open spec fn expected(self) -> CheckView {
        if self.phase is CheckMetadata {
            (self.marker->0).metadata@
        } else {
            (self.marker->0).events@
        }
    }

    /// Why an event ends reading without a record.
    pub open spec fn fault(self, event: ReadEvent) -> Option<ErrorView> {
        match event {
            ReadEvent::Marker(Err(e)) => if e.kind is NotFound {
                None
            } else {
                Some(ErrorView::Unavailable("finalized.json"@, Some(e@)))
            },
            ReadEvent::Marker(Ok(x)) => match events::marker_fault(
                events::header_view(x.header),
                events::body_fault(x.body),
            ) {
                Some(fault) => Some(fault),
                None => if (x.body->Ok_0).run_id@ != self.id@ {
                    Some(ErrorView::Corrupt("finalization marker run ID does not match record"@))
                } else {
                    None
                },
            },
            ReadEvent::Opened(Some(e)) => Some(error::missing_file(phase_file(self.phase), e@)),
            ReadEvent::Opened(None) => None,
            ReadEvent::Checked(length, computed) => checksum::marked_file_fault(
                checksum::viewed(length),
                checksum::viewed(computed),
                self.expected(),
                phase_file(self.phase),
            ),
            ReadEvent::Metadata(Err(e)) => Some(
                ErrorView::Unavailable("metadata.json"@, Some(e@)),
            ),
            ReadEvent::Metadata(Ok(x)) => if self.marker matches Some(marker)
                && !marker.metadata@.covers(x.bytes@) {
                Some(checksum::mismatch("metadata.json"@))
            } else {
                events::metadata_read_fault(events::header_view(x.header), x.body, self.id@)
            },
            ReadEvent::Streamed(Err(e)) => Some(
                ErrorView::Unavailable("events.jsonl"@, Some(e@)),
            ),
            ReadEvent::Streamed(Ok(readback)) => match self.marker {
                Some(marker) => marked_events_fault(self.metadata->0, marker, readback),
                None => unmarked_events_fault(self.metadata->0, readback),
            },
        }
    }

    /// Whether reading goes on from an event that does not end it without a record.
    pub open spec fn proceeds(self, event: ReadEvent, next: RecordReader, action: ReadAction) -> bool {
        match event {
            ReadEvent::Marker(read) => {
                &&& next.phase is OpenMetadata
                &&& action is OpenMetadata
                &&& next.metadata is None
                &&& match read {
                    Ok(x) => next.marker == Some(x.body->Ok_0),
                    Err(_) => next.marker is None,
                }
            },
            ReadEvent::Opened(_) => {
                &&& next.marker == self.marker
                &&& next.metadata == self.metadata
                &&& if self.phase is OpenMetadata {
                    if self.marker is Some {
                        next.phase is CheckMetadata && action is CheckMetadata
                    } else {
                        next.phase is ReadMetadata && action is ReadMetadata
                    }
                } else {
                    if self.marker is Some {
                        next.phase is CheckEvents && action is CheckEvents
                    } else {
                        next.phase is StreamEvents && action is StreamEvents
                    }
                }
            },
            ReadEvent::Checked(_, _) => {
                &&& next.marker == self.marker
                &&& next.metadata == self.metadata
                &&& if self.phase is CheckMetadata {
                    next.phase is OpenEvents && action is OpenEvents
                } else {
                    next.phase is ReadMetadata && action is ReadMetadata
                }
            },
            ReadEvent::Metadata(read) => {
                let m = (read->Ok_0).body->Ok_0;
                if self.marker is None && unfinalized(m) {
                    &&& next.phase is Done
                    &&& action matches ReadAction::Done(Ok(loaded))
                    &&& loaded.metadata == m
                    &&& match self.mode {
                        EventReadMode::CollectEvents => loaded.events matches Some(list)
                            && list@.len() == 0,
                        EventReadMode::ValidateOnly => loaded.events is None,
                    }
                    &&& states(
                        loaded.storage_integrity,
                        "unfinalized"@,
                        "no final marker; capture may still be running or may have stopped before storage finalization"@,
                    )
                } else {
                    &&& next.marker == self.marker
                    &&& next.metadata == Some(m)
                    &&& if self.marker is Some {
                        next.phase is StreamEvents && action is StreamEvents
                    } else {
                        next.phase is OpenEvents && action is OpenEvents
                    }
                }
            },
            ReadEvent::Streamed(read) => {
                let d = (read->Ok_0).decoded->Ok_0;
                let status = if self.marker is Some {
                    contract::finalized_status((self.metadata->0).schema_version)
                } else {
                    (
                        "unverified"@,
                        "storage integrity unverified: legacy record has no finalization checksums"@,
                    )
                };
                &&& next.phase is Done
                &&& action matches ReadAction::Done(Ok(loaded))
                &&& loaded.metadata == self.metadata->0
                &&& loaded.events == d.events
                &&& states(loaded.storage_integrity, status.0, status.1)
            },
        }
    }

    /// Whether reading a record starts here: nothing is known of it yet.
    pub open spec fn begins(self, id: Seq<char>, mode: EventReadMode) -> bool {
        &&& self.wf()
        &&& self.id@ == id
        &&& self.mode == mode
        &&& self.marker is None
        &&& self.metadata is None
        &&& self.phase is Marker
    }

    /// What an event leads to: a fault ends reading without a record, and nothing else
    /// does.
    pub open spec fn leads(self, event: ReadEvent, next: RecordReader, action: ReadAction) -> bool {
        &&& next.wf()
        &&& next.id == self.id
        &&& next.mode == self.mode
        &&& match self.fault(event) {
            Some(fault) => next.phase is Done && (action matches ReadAction::Done(Err(e)) && e@
                == fault),
            None => self.proceeds(event, next, action),
        }
    }

    /// Starts to read a record; the first thing to read is its marker.
    pub fn new(id: &str, mode: EventReadMode) -> (r: RecordReader)
        ensures
            r.begins(id@, mode),
    {
        RecordReader {
            id: id.to_owned(),
            mode,
            marker: None,
            metadata: None,
            phase: ReadPhase::Marker,
        }
    }

    /// Reading that ends without a record.
    fn ended(self, error: StorageError) -> (r: (RecordReader, ReadAction))
        requires
            self.wf(),
        ensures
            r.0.wf(),
            r.0.phase is Done,
            r.0.id == self.id,
            r.0.mode == self.mode,
            r.1 matches ReadAction::Done(Err(e)) && e@ == error@,
    {
        let mut next: RecordReader = self;
        next.phase = ReadPhase::Done;
        (next, ReadAction::Done(Err(error)))
    }

    /// Takes the marker.
    fn take_marker(self, read: Result<MarkerBytes, IoError>) -> (r: (RecordReader, ReadAction))
        requires
            self.wf(),
            self.phase is Marker,
        ensures
            self.leads(ReadEvent::Marker(read), r.0, r.1),
    {
        let mut next: RecordReader = self;
        match read {
            Err(e) => {
                if e.kind == IoKind::NotFound {
                    next.marker = None;
                } else {
                    return next.ended(unavailable_io("finalized.json".to_owned(), e));
                }
            },
            Ok(x) => match decode_finalized(x.header, x.body) {
                Err(e) => {
                    return next.ended(e);
                },
                Ok(marker) => {
                    if !text::same(marker.run_id.as_str(), next.id.as_str()) {
                        return next.ended(
                            corrupt(
                                "finalization marker run ID does not match record".to_owned(),
                            ),
                        );
                    }
                    next.marker = Some(marker);
                },
            },
        }
        next.phase = ReadPhase::OpenMetadata;
        (next, ReadAction::OpenMetadata)
    }

    /// Takes that a file was opened.
    fn take_opened(self, failure: Option<IoError>) -> (r: (RecordReader, ReadAction))
        requires
            self.wf(),
            self.phase is OpenMetadata || self.phase is OpenEvents,
        ensures
            self.leads(ReadEvent::Opened(failure), r.0, r.1),
    {
        let metadata: bool = self.phase == ReadPhase::OpenMetadata;
        match failure {
            Some(e) => {
                let display: &str = if metadata {
                    "metadata.json"
                } else {
                    "events.jsonl"
                };
                self.ended(required_record_file_error(display, e))
            },
            None => {
                let marked: bool = self.marker.is_some();
                let mut next: RecordReader = self;
                if metadata {
                    if marked {
                        next.phase = ReadPhase::CheckMetadata;
                        (next, ReadAction::CheckMetadata)
                    } else {
                        next.phase = ReadPhase::ReadMetadata;
                        (next, ReadAction::ReadMetadata)
                    }
                } else if marked {
                    next.phase = ReadPhase::CheckEvents;
                    (next, ReadAction::CheckEvents)
                } else {
                    next.phase = ReadPhase::StreamEvents;
                    (next, ReadAction::StreamEvents)
                }
            },
        }
    }

    /// Takes the check of a file.
    fn take_checked(self, length: Result<u64, IoError>, computed: Result<FileCheck, IoError>) -> (r: (
        RecordReader,
        ReadAction,
    ))
        requires
            self.wf(),
            self.phase is CheckMetadata || self.phase is CheckEvents,
        ensures
            self.leads(ReadEvent::Checked(length, computed), r.0, r.1),
    {
        let metadata: bool = self.phase == ReadPhase::CheckMetadata;
        let result: Result<(), StorageError> = match &self.marker {
            Some(marker) => if metadata {
                verified_file_check(length, computed, &marker.metadata, "metadata.json")
            } else {
                verified_file_check(length, computed, &marker.events, "events.jsonl")
            },
            None => Ok(()),
        };
        match result {
            Err(e) => self.ended(e),
            Ok(_) => {
                let mut next: RecordReader = self;
                if metadata {
                    next.phase = ReadPhase::OpenEvents;
                    (next, ReadAction::OpenEvents)
                } else {
                    next.phase = ReadPhase::ReadMetadata;
                    (next, ReadAction::ReadMetadata)
                }
            },
        }
    }

    /// Takes the metadata.
    fn take_metadata(self, read: Result<MetadataBytes, IoError>) -> (r: (RecordReader, ReadAction))
        requires
            self.wf(),
            self.phase is ReadMetadata,
            read matches Ok(x) ==> x.body matches Ok(m) ==> m.wf(),
        ensures
            self.leads(ReadEvent::Metadata(read), r.0, r.1),
    {
        match read {
            Err(e) => self.ended(unavailable_io("metadata.json".to_owned(), e)),
            Ok(x) => {
                let MetadataBytes { bytes, header, body } = x;
                let verified: Result<(), StorageError> = match &self.marker {
                    Some(marker) => verify(bytes.as_slice(), &marker.metadata, "metadata.json"),
                    None => Ok(()),
                };
                match verified {
                    Err(e) => {
                        return self.ended(e);
                    },
                    Ok(_) => {},
                }
                match decode_metadata(header, body, self.id.as_str()) {
                    Err(e) => self.ended(e),
                    Ok(m) => {
                        let marked: bool = self.marker.is_some();
                        let mut next: RecordReader = self;
                        if !marked && (m.schema_version >= 3 || text::same(
                            m.state.as_str(),
                            "running",
                        )) {
                            next.phase = ReadPhase::Done;
                            let loaded: LoadedRecord = LoadedRecord {
                                metadata: m,
                                events: empty_events(next.mode),
                                storage_integrity: StorageIntegrity {
                                    status: "unfinalized".to_owned(),
                                    detail: "no final marker; capture may still be running or may have stopped before storage finalization".to_owned(),
                                },
                            };
                            return (next, ReadAction::Done(Ok(loaded)));
                        }
                        next.metadata = Some(m);
                        if marked {
                            next.phase = ReadPhase::StreamEvents;
                            (next, ReadAction::StreamEvents)
                        } else {
                            next.phase = ReadPhase::OpenEvents;
                            (next, ReadAction::OpenEvents)
                        }
                    },
                }
            },
        }
    }

    /// Takes the events.
    fn take_events(self, read: Result<EventStreamReadback, IoError>) -> (r: (
        RecordReader,
        ReadAction,
    ))
        requires
            self.wf(),
            self.phase is StreamEvents,
        ensures
            self.leads(ReadEvent::Streamed(read), r.0, r.1),
    {
        let mut next: RecordReader = self;
        let metadata: Metadata = next.metadata.take().unwrap();
        let readback: EventStreamReadback = match read {
            Err(e) => {
                next.phase = ReadPhase::Done;
                return (
                    next,
                    ReadAction::Done(Err(unavailable_io("events.jsonl".to_owned(), e))),
                );
            },
            Ok(readback) => readback,
        };
        next.phase = ReadPhase::Done;
        let EventStreamReadback { check, decoded } = readback;
        match &next.marker {
            Some(marker) => match verify_check(&check, &marker.events, "events.jsonl") {
                Err(e) => {
                    return (next, ReadAction::Done(Err(e)));
                },
                Ok(_) => {},
            },
            None => {},
        }
        let d: DecodedEventStream = match decoded {
            Err(e) => {
                return (next, ReadAction::Done(Err(e)));
            },
            Ok(d) => d,
        };
        let marked: bool = next.marker.is_some();
        match &next.marker {
            Some(marker) => {
                if d.facts.count != marker.event_count || d.facts.count != metadata.parsed_events {
                    return (
                        next,
                        ReadAction::Done(Err(corrupt("event count mismatch".to_owned()))),
                    );
                }
            },
            None => {},
        }
        match validate_run_contract_facts(&metadata, &d.facts, marked) {
            Err(v) => {
                return (
                    next,
                    ReadAction::Done(
                        Err(corrupt(with_context("run contract", v.message.as_str()))),
                    ),
                );
            },
            Ok(_) => {},
        }
        let integrity: StorageIntegrity = if marked {
            match finalized_integrity_from_facts(metadata.schema_version, d.facts) {
                Err(e) => {
                    return (next, ReadAction::Done(Err(e)));
                },
                Ok(integrity) => integrity,
            }
        } else {
            StorageIntegrity {
                status: "unverified".to_owned(),
                detail: "storage integrity unverified: legacy record has no finalization checksums".to_owned(),
            }
        };
        let loaded: LoadedRecord = LoadedRecord {
            metadata,
            events: d.events,
            storage_integrity: integrity,
        };
        (next, ReadAction::Done(Ok(loaded)))
    }

    /// Takes what came of the last action and gives the next one.
    pub fn step(self, event: ReadEvent) -> (r: (RecordReader, ReadAction))
        requires
            self.wf(),
            self.awaits(event),
        ensures
            self.leads(event, r.0, r.1),
    {
        match event {
            ReadEvent::Marker(read) => self.take_marker(read),
            ReadEvent::Opened(failure) => self.take_opened(failure),
            ReadEvent::Checked(length, computed) => self.take_checked(length, computed),
            ReadEvent::Metadata(read) => self.take_metadata(read),
            ReadEvent::Streamed(read) => self.take_events(read),
        }
    }
}

/// Gives the run of a record whose events were kept.
pub fn loaded_run(loaded: LoadedRecord) -> (r: Run)
    requires
        loaded.events is Some,
    ensures
        r.metadata == loaded.metadata,
        Some(r.events) == loaded.events,
        r.storage_integrity == loaded.storage_integrity,
{
    let LoadedRecord { metadata, events, storage_integrity } = loaded;
    Run { metadata, events: events.unwrap(), storage_integrity }
}

/// With a marker, metadata is interpreted only if the marker covers its bytes, and
/// events are reported only if the marker names the check of their bytes and their
/// number.
pub proof fn marker_covers_what_is_reported(reader: RecordReader, event: ReadEvent)
    requires
        reader.wf(),
        reader.awaits(event),
        reader.marker is Some,
        reader.fault(event) is None,
    ensures
        event matches ReadEvent::Metadata(read) ==> (reader.marker->0).metadata@.covers(
            (read->Ok_0).bytes@,
        ),
        event matches ReadEvent::Streamed(read) ==> {
            &&& (read->Ok_0).check@ == (reader.marker->0).events@
            &&& ((read->Ok_0).decoded->Ok_0).facts.count == (reader.marker->0).event_count
            &&& ((read->Ok_0).decoded->Ok_0).facts.count == (reader.metadata->0).parsed_events
        },
{
}

/// A record is reported as verified only with a marker, with current metadata that
/// meets its contract, and with events of the current schema only.
pub proof fn verified_only_when_finalized(
    reader: RecordReader,
    event: ReadEvent,
    next: RecordReader,
    action: ReadAction,
)
    requires
        reader.wf(),
        reader.awaits(event),
        reader.fault(event) is None,
        reader.proceeds(event, next, action),
        action matches ReadAction::Done(Ok(loaded)) && loaded.storage_integrity.status@
            == "verified"@,
    ensures
        reader.marker is Some,
        (reader.metadata->0).schema_version == 3,
        event matches ReadEvent::Streamed(read) && ({
            let facts = ((read->Ok_0).decoded->Ok_0).facts;
            contract::run_fault(reader.metadata->0, facts, true) is None && !facts.has_non_v2
        }),
{
    reveal_strlit("verified");
    reveal_strlit("unverified");
    reveal_strlit("unfinalized");
    assert("verified"@.len() != "unverified"@.len());
    assert("verified"@.len() != "unfinalized"@.len());
}

/// Whether an event reports what was published: a marker, the bytes of the metadata that it
/// covers, and an event file with the check and the facts of its events.
pub open spec fn reports(
    reader: RecordReader,
    event: ReadEvent,
    marker: Finalized,
    bytes: Seq<u8>,
    m: Metadata,
    facts: EventFacts,
) -> bool {
    match event {
        ReadEvent::Marker(read) => read matches Ok(x) && x.header == Ok::<u32, String>(1)
            && x.body == Ok::<Finalized, String>(marker),
        ReadEvent::Opened(failure) => failure is None,
        ReadEvent::Checked(length, computed) => computed matches Ok(check) && length == Ok::<
            u64,
            IoError,
        >(check.bytes) && (if reader.phase is CheckMetadata {
            check@.covers(bytes)
        } else {
            check@ == marker.events@
        }),
        ReadEvent::Metadata(read) => read matches Ok(x) && x.bytes@ == bytes && x.header == Ok::<
            u32,
            String,
        >(m.schema_version) && x.body == Ok::<Metadata, String>(m),
        ReadEvent::Streamed(read) => read matches Ok(x) && x.check@ == marker.events@ && (x.decoded
            matches Ok(d) && d.facts == facts),
    }
}

/// What was finalized is read back: a record whose metadata and events were accepted, and
/// whose marker covers what is found, is never refused, and is reported as verified with
/// that metadata and those events.
pub proof fn finalized_record_reads_back(
    reader: RecordReader,
    event: ReadEvent,
    next: RecordReader,
    action: ReadAction,
    marker: Finalized,
    bytes: Seq<u8>,
    m: Metadata,
    facts: EventFacts,
)
    requires
        reader.wf(),
        reader.awaits(event),
        reader.id@ == m.id@,
        !(reader.phase is Marker) ==> reader.marker == Some(marker),
        reader.metadata is Some ==> reader.metadata == Some(m),
        m.schema_version == 3,
        contract::run_fault(m, facts, true) is None,
        facts.first_unsupported_schema is None,
        marker.run_id@ == m.id@,
        marker.event_count == facts.count,
        marker.metadata@.covers(bytes),
        reports(reader, event, marker, bytes, m, facts),
    ensures
        reader.fault(event) is None,
        reader.proceeds(event, next, action) ==> {
            &&& !(next.phase is Done) ==> next.marker == Some(marker)
            &&& next.phase is StreamEvents ==> next.metadata == Some(m)
            &&& action is Done ==> {
                &&& action matches ReadAction::Done(Ok(loaded))
                &&& loaded.metadata == m
                &&& loaded.storage_integrity.status@ == "verified"@
                &&& event matches ReadEvent::Streamed(read)
                &&& loaded.events == ((read->Ok_0).decoded->Ok_0).events
            }
        },
{
}

} // verus!
