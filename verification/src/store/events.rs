//! Decoding of stored metadata, markers and events.
//!
//! A schema header is looked at before anything else of a value, so that a later
//! version is never mistaken for damage. What the header and the value hold is
//! decoded outside; the decisions on it are made here.
use vstd::prelude::*;
use vstd::string::*;
use vstd::utf8::*;

use crate::capture::record;
use crate::io;
use crate::io::{with_context, IoError, IoKind};
use crate::model::{Event, EventView, Metadata};
use crate::numbers;
use crate::store::checksum;
use crate::store::checksum::{end_read, Checksum, FileCheck, FileIdentity};
use crate::store::contract;
use crate::store::contract::{unsupported_schema, validate_metadata_contract, EventFacts};
use crate::store::error::{corrupt, unavailable_io, unsupported, ErrorView, StorageError};
use crate::text;
use crate::views;

verus! {

broadcast use crate::views::group_views;

/// Gives the schema version that a header names.
pub fn decode_schema_header(header: Result<u32, String>, display: &str) -> (r: Result<
    u32,
    StorageError,
>)
    ensures
        match (header, r) {
            (Ok(version), Ok(v)) => v == version,
            (Err(message), Err(e)) => e@ == ErrorView::Corrupt(io::context(display@, message@)),
            _ => false,
        },
{
    match header {
        Ok(version) => Ok(version),
        Err(message) => Err(corrupt(with_context(display, message.as_str()))),
    }
}

/// A header over the text of its error.
pub open spec fn header_view(header: Result<u32, String>) -> Result<u32, Seq<char>> {
    match header {
        Ok(version) => Ok(version),
        Err(message) => Err(message@),
    }
}

/// The text of the error of a value that could not be decoded.
pub open spec fn body_fault<T>(body: Result<T, String>) -> Option<Seq<char>> {
    match body {
        Ok(_) => None,
        Err(message) => Some(message@),
    }
}

/// The marker that finalizes a record.
#[derive(Debug, PartialEq, Eq)]
pub struct Finalized {
    /// The schema version of the marker.
    pub schema_version: u32,
    /// The record that it finalizes.
    pub run_id: String,
    /// How many events there are.
    pub event_count: usize,
    /// The check of the events.
    pub events: FileCheck,
    /// The check of the metadata.
    pub metadata: FileCheck,
}

/// What keeps a marker from being read.
pub open spec fn marker_fault(header: Result<u32, Seq<char>>, body: Option<Seq<char>>) -> Option<
    ErrorView,
> {
    match header {
        Err(message) => Some(ErrorView::Corrupt(io::context("finalized.json"@, message))),
        Ok(version) => if version != 1 {
            Some(
                ErrorView::Unsupported(
                    "unsupported finalization marker schema "@ + numbers::decimal(version as nat),
                ),
            )
        } else {
            match body {
                Some(message) => Some(ErrorView::Corrupt(io::context("finalized.json"@, message))),
                None => None,
            }
        },
    }
}

/// Gives a marker, from its header and what it was decoded to.
pub fn decode_finalized(header: Result<u32, String>, body: Result<Finalized, String>) -> (r: Result<
    Finalized,
    StorageError,
>)
    ensures
        ({
            let fault = marker_fault(header_view(header), body_fault(body));
            match r {
                Ok(marker) => fault is None && body == Ok::<Finalized, String>(marker),
                Err(e) => fault == Some(e@),
            }
        }),
{
    match decode_schema_header(header, "finalized.json") {
        Err(e) => Err(e),
        Ok(version) => if version != 1 {
            Err(unsupported_schema("unsupported finalization marker schema ", version))
        } else {
            match body {
                Ok(marker) => Ok(marker),
                Err(message) => Err(corrupt(with_context("finalized.json", message.as_str()))),
            }
        },
    }
}

/// What is wrong with decoded metadata of the record with an identifier.
pub open spec fn decoded_fault(m: Metadata, id: Seq<char>) -> Option<ErrorView> {
    if m.schema_version >= 2 && (m.environment is None || m.completeness is None) {
        Some(ErrorView::Corrupt("metadata: missing environment or completeness"@))
    } else if m.id@ != id {
        Some(ErrorView::Corrupt("record ID does not match directory"@))
    } else {
        match contract::metadata_fault(m) {
            Some(message) => Some(ErrorView::Corrupt(io::context("metadata contract"@, message))),
            None => None,
        }
    }
}

/// What keeps metadata from being read.
pub open spec fn metadata_read_fault(
    header: Result<u32, Seq<char>>,
    body: Result<Metadata, String>,
    id: Seq<char>,
) -> Option<ErrorView> {
    match header {
        Err(message) => Some(ErrorView::Corrupt(io::context("metadata.json"@, message))),
        Ok(version) => if !(1 <= version <= 3) {
            Some(
                ErrorView::Unsupported(
                    "unsupported metadata schema "@ + numbers::decimal(version as nat),
                ),
            )
        } else {
            match body {
                Err(message) => Some(ErrorView::Corrupt(io::context("metadata.json"@, message@))),
                Ok(m) => decoded_fault(m, id),
            }
        },
    }
}

/// Gives metadata, from its header and what it was decoded to.
pub fn decode_metadata(header: Result<u32, String>, body: Result<Metadata, String>, id: &str) -> (r:
    Result<Metadata, StorageError>)
    requires
        body matches Ok(m) ==> m.wf(),
    ensures
        ({
            let fault = metadata_read_fault(header_view(header), body, id@);
            match r {
                Ok(m) => fault is None && body == Ok::<Metadata, String>(m),
                Err(e) => fault == Some(e@),
            }
        }),
{
    match decode_schema_header(header, "metadata.json") {
        Err(e) => {
            return Err(e);
        },
        Ok(version) => {
            if version < 1 || version > 3 {
                return Err(unsupported_schema("unsupported metadata schema ", version));
            }
        },
    }
    match body {
        Err(message) => Err(corrupt(with_context("metadata.json", message.as_str()))),
        Ok(m) => {
            if m.schema_version >= 2 && (m.environment.is_none() || m.completeness.is_none()) {
                return Err(corrupt("metadata: missing environment or completeness".to_owned()));
            }
            if !text::same(m.id.as_str(), id) {
                return Err(corrupt("record ID does not match directory".to_owned()));
            }
            match validate_metadata_contract(&m) {
                Ok(_) => Ok(m),
                Err(v) => Err(corrupt(with_context("metadata contract", v.message.as_str()))),
            }
        },
    }
}

/// The name of a line of the event file.
pub open spec fn line_display(line_number: nat) -> Seq<char> {
    "events.jsonl:"@ + numbers::decimal(line_number)
}

/// What keeps an event from being read.
pub open spec fn event_fault(
    header: Result<u32, Seq<char>>,
    body: Option<Seq<char>>,
    line_number: nat,
) -> Option<ErrorView> {
    match header {
        Err(message) => Some(ErrorView::Corrupt(io::context(line_display(line_number), message))),
        Ok(version) => if version != 1 && version != 2 {
            Some(
                ErrorView::Unsupported(
                    "unsupported event schema "@ + numbers::decimal(version as nat) + " at line "@
                        + numbers::decimal(line_number),
                ),
            )
        } else {
            match body {
                Some(message) => Some(
                    ErrorView::Corrupt(io::context(line_display(line_number), message)),
                ),
                None => None,
            }
        },
    }
}

/// Gives an event, from its header and what its line was decoded to.
pub fn decode_event_line(
    header: Result<u32, String>,
    body: Result<Event, String>,
    line_number: usize,
) -> (r: Result<Event, StorageError>)
    ensures
        ({
            let fault = event_fault(header_view(header), body_fault(body), line_number as nat);
            match r {
                Ok(event) => fault is None && body == Ok::<Event, String>(event),
                Err(e) => fault == Some(e@),
            }
        }),
{
    let mut display: String = "events.jsonl:".to_owned();
    display.append(numbers::decimal_string(line_number as u128).as_str());
    match decode_schema_header(header, display.as_str()) {
        Err(e) => Err(e),
        Ok(version) => if version != 1 && version != 2 {
            let mut s: String = "unsupported event schema ".to_owned();
            s.append(numbers::decimal_string(version as u128).as_str());
            s.append(" at line ");
            s.append(numbers::decimal_string(line_number as u128).as_str());
            Err(unsupported(s))
        } else {
            match body {
                Ok(event) => Ok(event),
                Err(message) => Err(corrupt(with_context(display.as_str(), message.as_str()))),
            }
        },
    }
}

/// Whether decoded events are kept.
#[derive(Debug, Clone, Copy, PartialEq, Eq, Structural)]
pub enum EventReadMode {
    /// They are kept.
    CollectEvents,
    /// They are only checked.
    ValidateOnly,
}

/// Gives the events of a record without any.
pub fn empty_events(mode: EventReadMode) -> (r: Option<Vec<Event>>)
    ensures
        match mode {
            EventReadMode::CollectEvents => r matches Some(events) && events@.len() == 0,
            EventReadMode::ValidateOnly => r is None,
        },
{
    match mode {
        EventReadMode::CollectEvents => Some(Vec::new()),
        EventReadMode::ValidateOnly => None,
    }
}

/// The events of a stream that was read to its end.
#[derive(Debug)]
pub struct DecodedEventStream {
    /// What they amount to.
    pub facts: EventFacts,
    /// The events, where they are kept.
    pub events: Option<Vec<Event>>,
}

/// A stream of events that was read to its end.
#[derive(Debug)]
pub struct EventStreamReadback {
    /// The check of its bytes.
    pub check: FileCheck,
    /// Its events, or what is wrong with them.
    pub decoded: Result<DecodedEventStream, StorageError>,
}

/// A stream of events of which some lines were read.
pub struct EventStream {
    checksum: Checksum,
    facts: EventFacts,
    utf8_error: Option<String>,
    decode_error: Option<StorageError>,
    saw_bytes: bool,
    final_line_terminated: bool,
    line_number: usize,
    events: Option<Vec<Event>>,
}

/// What an [`EventStream`] holds.
pub struct StreamView {
    /// The bytes that were read.
    pub bytes: Seq<u8>,
    /// What the decoded events amount to.
    pub facts: EventFacts,
    /// What is wrong with the first line that is no UTF-8.
    pub utf8_error: Option<Seq<char>>,
    /// What is wrong with the first line that could not be decoded.
    pub decode_error: Option<ErrorView>,
    /// Whether anything was read.
    pub saw_bytes: bool,
    /// Whether the last line that was read ends.
    pub final_line_terminated: bool,
    /// How many lines were read.
    pub line_number: nat,
    /// The decoded events, where they are kept.
    pub events: Option<Seq<EventView>>,
}

/// Events over their views.
pub open spec fn events_view(events: Option<Vec<Event>>) -> Option<Seq<EventView>> {
    match events {
        Some(list) => Some(views::each(list@)),
        None => None,
    }
}

impl View for EventStream {
    type V = StreamView;

    closed spec fn view(&self) -> StreamView {
        StreamView {
            bytes: self.checksum@,
            facts: self.facts,
            utf8_error: views::opt(self.utf8_error),
            decode_error: views::opt(self.decode_error),
            saw_bytes: self.saw_bytes,
            final_line_terminated: self.final_line_terminated,
            line_number: self.line_number as nat,
            events: events_view(self.events),
        }
    }
}

/// The text of a line that is to be decoded: one that is UTF-8 and ends.
pub open spec fn line_text(buffer: Seq<u8>) -> Option<Seq<char>> {
    if !valid_utf8(buffer) {
        None
    } else {
        match text::before_suffix(decode_utf8(buffer), "\n"@) {
            None => None,
            Some(line) => match text::before_suffix(line, "\r"@) {
                Some(bare) => Some(bare),
                None => Some(line),
            },
        }
    }
}

impl StreamView {
    /// A stream of which nothing was read.
    pub open spec fn start(mode: EventReadMode) -> StreamView {
        StreamView {
            bytes: Seq::empty(),
            facts: EventFacts::none(),
            utf8_error: None,
            decode_error: None,
            saw_bytes: false,
            final_line_terminated: true,
            line_number: 0,
            events: match mode {
                EventReadMode::CollectEvents => Some(Seq::empty()),
                EventReadMode::ValidateOnly => None,
            },
        }
    }

    /// The stream with one more line read.
    pub open spec fn took(self, buffer: Seq<u8>) -> StreamView {
        StreamView {
            bytes: self.bytes + buffer,
            utf8_error: if self.utf8_error is None && !valid_utf8(buffer) {
                Some(text::utf8_fault(buffer))
            } else {
                self.utf8_error
            },
            saw_bytes: true,
            final_line_terminated: buffer.last() == 10,
            line_number: self.line_number + 1,
            events: if valid_utf8(buffer) {
                self.events
            } else {
                None
            },
            ..self
        }
    }

    /// The stream with the last line decoded.
    pub open spec fn decoded(self, result: Result<EventView, ErrorView>) -> StreamView {
        match result {
            Ok(event) => StreamView {
                facts: self.facts.with(event),
                events: match self.events {
                    Some(events) => Some(events.push(event)),
                    None => None,
                },
                ..self
            },
            Err(error) => if self.decode_error is None {
                StreamView { decode_error: Some(error), events: None, ..self }
            } else {
                self
            },
        }
    }

    /// Whether this is what was read: the check of the bytes, and the events with what
    /// they amount to, or what is wrong with them.
    pub open spec fn reads(self, readback: EventStreamReadback) -> bool {
        &&& readback.check@.covers(self.bytes)
        &&& match readback.decoded {
            Ok(d) => self.fault() is None && d.facts == self.facts && events_view(d.events)
                == self.events,
            Err(e) => self.fault() == Some(e@),
        }
    }

    /// What is wrong with the events: a line that is no UTF-8 comes first, then a
    /// last line that does not end, then a line that could not be decoded.
    pub open spec fn fault(self) -> Option<ErrorView> {
        match self.utf8_error {
            Some(message) => Some(ErrorView::Corrupt(io::context("events.jsonl"@, message))),
            None => if self.saw_bytes && !self.final_line_terminated {
                Some(ErrorView::Corrupt("events.jsonl: incomplete final line"@))
            } else {
                self.decode_error
            },
        }
    }
}

impl EventStream {
    /// The length of the stream is that of what was read.
    pub closed spec fn wf(self) -> bool {
        self.checksum.wf()
    }

    /// Starts to read a stream of events.
    pub fn new(mode: EventReadMode) -> (r: EventStream)
        ensures
            r.wf(),
            r@ == StreamView::start(mode),
    {
        let r: EventStream = EventStream {
            checksum: Checksum::new(),
            facts: EventFacts::default(),
            utf8_error: None,
            decode_error: None,
            saw_bytes: false,
            final_line_terminated: true,
            line_number: 0,
            events: empty_events(mode),
        };
        proof {
            if r.events is Some {
                assert(views::each(r.events->0@) =~= Seq::<EventView>::empty());
            }
        }
        r
    }

    /// Takes one line with its line ending and gives the text that is to be decoded.
    pub fn take_line(&mut self, buffer: &Vec<u8>) -> (r: Result<Option<String>, IoError>)
        requires
            old(self).wf(),
            old(self)@.line_number < usize::MAX,
            buffer@.len() > 0,
        ensures
            final(self).wf(),
            match r {
                Ok(line) => final(self)@ == old(self)@.took(buffer@) && views::opt(line)
                    == line_text(buffer@),
                Err(e) => old(self)@.bytes.len() + buffer@.len() > u64::MAX && e@
                    == checksum::count_failure(),
            },
    {
        match self.checksum.update(buffer.as_slice()) {
            Err(e) => {
                return Err(e);
            },
            Ok(_) => {},
        }
        self.saw_bytes = true;
        self.line_number = self.line_number + 1;
        self.final_line_terminated = buffer[buffer.len() - 1] == 10;
        match text::utf8_string(buffer) {
            Err(message) => {
                if self.utf8_error.is_none() {
                    self.utf8_error = Some(message);
                }
                self.events = None;
                Ok(None)
            },
            Ok(raw) => match text::strip_suffix(raw.as_str(), "\n") {
                None => Ok(None),
                Some(line) => match text::strip_suffix(line, "\r") {
                    Some(bare) => Ok(Some(bare.to_owned())),
                    None => Ok(Some(line.to_owned())),
                },
            },
        }
    }

    /// Gives the number of the line that was read last.
    pub fn line_number(&self) -> (r: usize)
        ensures
            r == self@.line_number,
    {
        self.line_number
    }

    /// Takes what the last line was decoded to.
    pub fn decoded(&mut self, result: Result<Event, StorageError>)
        requires
            old(self).wf(),
            old(self)@.facts.count < usize::MAX,
        ensures
            final(self).wf(),
            final(self)@ == old(self)@.decoded(checksum::viewed(result)),
    {
        match result {
            Ok(event) => {
                self.facts.observe(&event);
                match self.events.take() {
                    Some(list) => {
                        let mut events: Vec<Event> = list;
                        let ghost before = views::each(events@);
                        let ghost e = event@;
                        events.push(event);
                        assert(views::each(events@) =~= before.push(e));
                        self.events = Some(events);
                    },
                    None => {},
                }
            },
            Err(error) => {
                if self.decode_error.is_none() {
                    self.decode_error = Some(error);
                    self.events = None;
                }
            },
        }
    }

    /// Ends the stream of a file: it must be the same file, and as long as what was
    /// read.
    pub fn finish(self, before: &FileIdentity, after: &FileIdentity) -> (r: Result<
        EventStreamReadback,
        IoError,
    >)
        requires
            self.wf(),
        ensures
            ({
                let fault = checksum::changed(
                    *before,
                    *after,
                    self@.bytes.len(),
                    "regular file changed while streaming"@,
                );
                match r {
                    Err(e) => fault == Some(e@),
                    Ok(readback) => fault is None && self@.reads(readback),
                }
            }),
    {
        let bytes: u64 = self.checksum.len();
        match end_read(before, after, bytes, "regular file changed while streaming") {
            Err(e) => {
                return Err(e);
            },
            Ok(_) => {},
        }
        let decoded: Result<DecodedEventStream, StorageError> = match self.utf8_error {
            Some(message) => Err(corrupt(with_context("events.jsonl", message.as_str()))),
            None => if self.saw_bytes && !self.final_line_terminated {
                Err(corrupt("events.jsonl: incomplete final line".to_owned()))
            } else {
                match self.decode_error {
                    Some(error) => Err(error),
                    None => Ok(DecodedEventStream { facts: self.facts, events: self.events }),
                }
            },
        };
        Ok(EventStreamReadback { check: self.checksum.finish(), decoded })
    }
}

/// Gives one line of a raw trace as text.
pub fn trace_line(bytes: &Vec<u8>) -> (r: Result<String, IoError>)
    ensures
        match r {
            Ok(s) => valid_utf8(bytes@) && s@ == decode_utf8(bytes@),
            Err(e) => !valid_utf8(bytes@) && e@ == checksum::invalid(
                io::context("trace line is not valid UTF-8"@, text::utf8_fault(bytes@)),
            ),
        },
{
    match text::utf8_string(bytes) {
        Ok(s) => Ok(s),
        Err(message) => Err(
            IoError {
                kind: IoKind::InvalidData,
                code: None,
                message: with_context("trace line is not valid UTF-8", message.as_str()),
            },
        ),
    }
}

/// What came of looking for the label of a record.
#[derive(Debug, PartialEq, Eq)]
pub enum LabelRead {
    /// The metadata could not be opened.
    OpenFailed(IoError),
    /// The metadata could not be read.
    ReadFailed(IoError),
    /// The metadata holds no label that can be decoded.
    Malformed,
    /// The metadata holds this label.
    Label(Option<String>),
}

/// The label that an entry is indexed by: missing or malformed labels stay unknown,
/// and only a failed operation is a failure.
pub open spec fn label_hint(read: LabelRead) -> Result<Option<Seq<char>>, ErrorView> {
    match read {
        LabelRead::OpenFailed(e) => if e.kind is NotFound {
            Ok(None)
        } else {
            Err(ErrorView::Unavailable("read record label"@, Some(e@)))
        },
        LabelRead::ReadFailed(e) => Err(
            ErrorView::Unavailable("read record label"@, Some(e@)),
        ),
        LabelRead::Malformed => Ok(None),
        LabelRead::Label(name) => match views::opt(name) {
            Some(label) if record::record_name(label) => Ok(Some(label)),
            _ => Ok(None),
        },
    }
}

/// Gives the label that an entry is indexed by.
pub fn metadata_name_hint(read: LabelRead) -> (r: Result<Option<String>, StorageError>)
    ensures
        match r {
            Ok(name) => label_hint(read) == Ok::<Option<Seq<char>>, ErrorView>(views::opt(name)),
            Err(e) => label_hint(read) == Err::<Option<Seq<char>>, ErrorView>(e@),
        },
{
    match read {
        LabelRead::OpenFailed(e) => if e.kind == IoKind::NotFound {
            Ok(None)
        } else {
            Err(unavailable_io("read record label".to_owned(), e))
        },
        LabelRead::ReadFailed(e) => Err(unavailable_io("read record label".to_owned(), e)),
        LabelRead::Malformed => Ok(None),
        LabelRead::Label(name) => match name {
            Some(label) => if label.as_str().unicode_len() == 0 || text::contains_control(
                label.as_str(),
            ) {
                Ok(None)
            } else {
                Ok(Some(label))
            },
            None => Ok(None),
        },
    }
}

} // verus!
