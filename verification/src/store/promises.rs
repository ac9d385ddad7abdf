//! What storage promises of records: which metadata and which runs it takes, how it names what
//! is wrong with others, and how it selects and deletes records.
use vstd::prelude::*;

use crate::io::{IoError, IoErrorView, IoKind};
use crate::model;
use crate::model::{EventView, Metadata, RecordSummary, StorageLoadFailureKind};
use crate::numbers;
use crate::store::checksum;
use crate::store::checksum::{CheckView, FileIdentity};
use crate::store::contract;
use crate::store::contract::{EventFacts, SchemaTuple};
use crate::store::error;
use crate::store::error::{CauseView, CommitView, ErrorView, FailureView, StorageError};
use crate::store::events;
use crate::store::events::{LabelRead, StreamView};
use crate::store::index;
use crate::store::index::{
    DeleteStep, EntryOpen, EntryView, LeafAction, LeafEvent, LeafPhase, RootChoice,
};
use crate::store::read::LoadedRecord;
use crate::text;
use crate::views;

verus! {

/// Whether a text is one that a person can name things by.
pub open spec fn is_label(s: Seq<char>) -> bool {
    s.len() > 0 && !text::has_control(s)
}

/// Whether metadata says what was asked for: a generated identifier, a name, a command, where
/// and with what it ran, and which variables were selected.
pub open spec fn says_request(m: Metadata) -> bool {
    &&& contract::generated_id(m.id@)
    &&& is_label(m.name@)
    &&& m.command@.len() > 0
    &&& m.tool_version@.len() > 0 && m.cwd@.len() > 0 && m.backend@.len() > 0
    &&& m.environment matches Some(e) && forall|i: int|
        0 <= i < e.keys().len() ==> is_label(#[trigger] e.keys()[i]) && !e.keys()[i].contains('=')
}

/// Whether metadata is that of a capture that still runs.
pub open spec fn says_running(m: Metadata) -> bool {
    &&& m.state@ == "running"@
    &&& m.completeness matches Some(c) && c@ == "pending"@
    &&& m.ended is None && m.exit_code is None && m.signal is None
    &&& m.collector_exit_code is None && m.collector_signal is None && m.target_exit_raw is None
    &&& m.warnings@.len() == 0 && m.parsed_events == 0 && m.raw_lines == 0
}

/// Whether metadata is that of a capture that completed: with a confirmed end and no warnings
/// if it is complete, with warnings if it is partial.
pub open spec fn says_completed(m: Metadata) -> bool {
    &&& m.state@ == "completed"@
    &&& m.ended is Some && m.target_exit_raw is Some
    &&& m.collector_exit_code is Some || m.collector_signal is Some
    &&& m.completeness matches Some(c) && {
        ||| c@ == "complete_for_supported_events"@ && m.warnings@.len() == 0 && (
        m.exit_code is Some || m.signal is Some) && m.exit_code == m.collector_exit_code && m.signal
            == m.collector_signal
        ||| c@ == "partial"@ && m.warnings@.len() > 0
    }
}

/// Whether metadata is that of a capture that failed or was interrupted: incomplete, and with
/// a warning if it failed.
pub open spec fn says_broken(m: Metadata) -> bool {
    &&& m.state@ == "interrupted"@ || m.state@ == "capture_failed"@ && m.warnings@.len() > 0
    &&& m.completeness matches Some(c) && c@ == "incomplete"@
    &&& m.ended is Some
    &&& m.exit_code is Some || m.signal is Some ==> m.target_exit_raw is Some
}

proof fn words_differ()
    ensures
        "running"@ != "completed"@,
        "running"@ != "capture_failed"@,
        "running"@ != "interrupted"@,
        "completed"@ != "capture_failed"@,
        "completed"@ != "interrupted"@,
        "capture_failed"@ != "interrupted"@,
        "pending"@ != "complete_for_supported_events"@,
        "pending"@ != "partial"@,
        "pending"@ != "incomplete"@,
        "complete_for_supported_events"@ != "partial"@,
        "complete_for_supported_events"@ != "incomplete"@,
        "partial"@ != "incomplete"@,
{
    reveal_strlit("running");
    reveal_strlit("completed");
    reveal_strlit("capture_failed");
    reveal_strlit("interrupted");
    reveal_strlit("pending");
    reveal_strlit("complete_for_supported_events");
    reveal_strlit("partial");
    reveal_strlit("incomplete");
    assert("running"@.len() == 7 && "completed"@.len() == 9 && "capture_failed"@.len() == 14
        && "interrupted"@.len() == 11);
    assert("pending"@.len() == 7 && "pending"@[1] == 'e');
    assert("partial"@.len() == 7 && "partial"@[1] == 'a');
    assert("complete_for_supported_events"@.len() == 29 && "incomplete"@.len() == 10);
}

/// Metadata of the current schema is taken exactly if it says what was asked for and is that
/// of a capture that runs, that completed, or that failed or was interrupted, and does not say
/// of the target or of the collector both that it exited and that it was killed.
pub proof fn metadata_is_taken_if_it_makes_sense(m: Metadata)
    requires
        m.schema_version == 3,
    ensures
        contract::metadata_fault(m) is None <==> {
            &&& !(m.exit_code is Some && m.signal is Some)
            &&& !(m.collector_exit_code is Some && m.collector_signal is Some)
            &&& says_request(m)
            &&& says_running(m) || says_completed(m) || says_broken(m)
        },
{
    words_differ();
    if let Some(e) = m.environment {
        if contract::bad_environment(e) {
            let i = choose|i: int|
                0 <= i < e.keys().len() && !crate::capture::record::environment_name(
                    #[trigger] e.keys()[i],
                );
            assert(!(is_label(e.keys()[i]) && !e.keys()[i].contains('=')));
        } else {
            assert forall|i: int| 0 <= i < e.keys().len() implies is_label(#[trigger] e.keys()[i])
                && !e.keys()[i].contains('=') by {
                assert(crate::capture::record::environment_name(e.keys()[i]));
            }
        }
    }
}

/// Metadata of an older schema is taken unless it says of the target or of the collector both
/// that it exited and that it was killed.
pub proof fn older_metadata_is_taken(m: Metadata)
    requires
        m.schema_version != 3,
    ensures
        contract::metadata_fault(m) is None <==> !(m.exit_code is Some && m.signal is Some) && !(
        m.collector_exit_code is Some && m.collector_signal is Some),
{
}

/// What is wrong with metadata is said: the first of these that is.
pub proof fn faults_of_metadata_are_told(m: Metadata)
    ensures
        ({
            let fault = contract::metadata_fault(m);
            let both = m.exit_code is Some && m.signal is Some;
            let twice = m.collector_exit_code is Some && m.collector_signal is Some;
            let current = !both && !twice && m.schema_version == 3;
            let identified = current && contract::generated_id(m.id@);
            let named = identified && is_label(m.name@);
            let asked = named && m.command@.len() > 0;
            let placed = asked && m.tool_version@.len() > 0 && m.cwd@.len() > 0 && m.backend@.len()
                > 0;
            &&& both ==> fault == Some("target exit code and signal are mutually exclusive"@)
            &&& !both && twice ==> fault == Some(
                "collector exit code and signal are mutually exclusive"@,
            )
            &&& current && !identified ==> fault == Some("ID is not one safe generated component"@)
            &&& identified && !named ==> fault == Some(
                "name must be nonempty without control characters"@,
            )
            &&& named && !asked ==> fault == Some("command must contain an executable"@)
            &&& asked && !placed ==> fault == Some("tool version, cwd and backend must be nonempty"@)
            &&& placed && m.environment is None ==> fault == Some("environment is missing"@)
        }),
{
}

/// What is wrong with the state of metadata that says what was asked for is said.
pub proof fn faults_of_states_are_told(m: Metadata)
    requires
        m.schema_version == 3,
        !(m.exit_code is Some && m.signal is Some),
        !(m.collector_exit_code is Some && m.collector_signal is Some),
        says_request(m),
    ensures
        ({
            let fault = contract::metadata_fault(m);
            let state = m.state@;
            let c = views::opt(m.completeness);
            let known = state == "running"@ || state == "completed"@ || state == "capture_failed"@
                || state == "interrupted"@;
            let graded = known && (c == Some("pending"@) || c == Some(
                "complete_for_supported_events"@,
            ) || c == Some("partial"@) || c == Some("incomplete"@));
            let ended = m.ended is Some;
            &&& !known ==> fault == Some("unknown capture state"@)
            &&& known && c is None ==> fault == Some("completeness is missing"@)
            &&& known && c is Some && !graded ==> fault == Some("unknown capture completeness"@)
            &&& graded && state == "running"@ && c != Some("pending"@) ==> fault == Some(
                "running metadata must be pending"@,
            )
            &&& state == "running"@ && c == Some("pending"@) && !says_running(m) ==> fault == Some(
                "running metadata contains finalized capture facts"@,
            )
            &&& state == "completed"@ && (c == Some("pending"@) || c == Some("incomplete"@))
                ==> fault == Some("completed metadata must be complete or partial"@)
            &&& state == "completed"@ && (c == Some("complete_for_supported_events"@) || c == Some(
                "partial"@,
            )) && !ended ==> fault == Some("completed metadata has no end time"@)
            &&& state == "completed"@ && c == Some("partial"@) && ended && m.warnings@.len() == 0
                ==> fault == Some("partial metadata records no evidence limitation"@)
            &&& state == "completed"@ && c == Some("complete_for_supported_events"@) && ended
                && m.target_exit_raw is None ==> fault == Some(
                "completed metadata has no raw target outcome"@,
            )
            &&& (state == "capture_failed"@ || state == "interrupted"@) && graded && c != Some(
                "incomplete"@,
            ) ==> fault == Some("failed or interrupted capture must be incomplete"@)
            &&& (state == "capture_failed"@ || state == "interrupted"@) && c == Some("incomplete"@)
                && !ended ==> fault == Some("final metadata has no end time"@)
            &&& state == "capture_failed"@ && c == Some("incomplete"@) && ended
                && m.warnings@.len() == 0 ==> fault == Some(
                "failed capture records no failure warning"@,
            )
            &&& state == "completed"@ && c == Some("complete_for_supported_events"@) && ended
                && m.target_exit_raw is Some && (m.collector_exit_code is Some
                || m.collector_signal is Some) && m.warnings@.len() > 0 ==> fault == Some(
                "complete metadata cannot contain capture limitations"@,
            )
        }),
{
    words_differ();
    let e = m.environment->0;
    assert(!contract::bad_environment(e)) by {
        if contract::bad_environment(e) {
            let i = choose|i: int|
                0 <= i < e.keys().len() && !crate::capture::record::environment_name(
                    #[trigger] e.keys()[i],
                );
            assert(is_label(e.keys()[i]) && !e.keys()[i].contains('='));
        }
    }
}

/// A generated identifier is made of hexadecimal digits and one hyphen between them, so that
/// it is one component of a path that stays where it is.
pub proof fn identifiers_are_safe(id: Seq<char>)
    requires
        contract::generated_id(id),
    ensures
        id.len() >= 3,
        forall|i: int|
            0 <= i < id.len() ==> '0' <= #[trigger] id[i] <= '9' || 'a' <= id[i] <= 'f' || 'A'
                <= id[i] <= 'F' || id[i] == '-',
        id[0] != '-' && id.last() != '-',
{
    text::first_at_least(id, text::just('-'), 0);
    let at = text::first_at(id, text::just('-'), 0);
    let time = id.subrange(0, at);
    let pid = id.subrange(at + 1, id.len() as int);
    assert forall|i: int| 0 <= i < id.len() implies '0' <= #[trigger] id[i] <= '9' || 'a' <= id[i]
        <= 'f' || 'A' <= id[i] <= 'F' || id[i] == '-' by {
        if i < at {
            assert(id[i] == time[i]);
            assert(contract::ascii_hex_digit(time[i]));
        } else if i > at {
            assert(id[i] == pid[i - at - 1]);
            assert(text::ascii_digit(pid[i - at - 1]));
        }
    }
    assert(id[0] == time[0] && contract::ascii_hex_digit(time[0]));
    assert(id.last() == pid.last() && text::ascii_digit(pid.last()));
}

/// A new record is refused if its name or its identifier is the name or the identifier of
/// another record.
pub proof fn new_records_need_new_names(
    name: Seq<char>,
    id: Seq<char>,
    others: Seq<contract::Identity>,
)
    ensures
        ({
            let taken = |key: Seq<char>|
                exists|i: int|
                    0 <= i < others.len() && ((#[trigger] others[i]).name@ == key || others[i].id@
                        == key);
            &&& taken(name) ==> contract::begin_fault(name, id, others) == Some(
                "record name already exists: "@ + name,
            )
            &&& !taken(name) && taken(id) ==> contract::begin_fault(name, id, others) == Some(
                "record ID already exists: "@ + id,
            )
            &&& !taken(name) && !taken(id) ==> contract::begin_fault(name, id, others) is None
        }),
{
}

/// What events amount to is what is true of them: how many there are, whether one has another
/// schema than the current one, whether the evidence of one is no range of lines, the last
/// line that one refers to, and whether the context of one is uncertain.
pub proof fn events_amount_to_what_they_are(list: Seq<EventView>, n: int)
    requires
        0 <= n <= list.len(),
        n <= usize::MAX,
    ensures
        ({
            let facts = EventFacts::upto(list, n);
            &&& facts.count == n
            &&& facts.has_non_v2 <==> exists|i: int|
                0 <= i < n && (#[trigger] list[i]).schema_version != 2
            &&& facts.invalid_evidence_order <==> exists|i: int|
                0 <= i < n && ((#[trigger] list[i]).evidence.line == 0 || list[i].evidence.line
                    > list[i].evidence.end_line)
            &&& facts.context_uncertain <==> exists|i: int|
                0 <= i < n && (#[trigger] list[i]).context_uncertain
            &&& forall|i: int|
                0 <= i < n ==> (#[trigger] list[i]).evidence.end_line <= facts.max_end_line
            &&& facts.max_end_line > 0 ==> exists|i: int|
                0 <= i < n && (#[trigger] list[i]).evidence.end_line == facts.max_end_line
            &&& facts.first_unsupported_schema is None <==> forall|i: int|
                0 <= i < n ==> (#[trigger] list[i]).schema_version == 1 || list[i].schema_version
                    == 2
        }),
    decreases n,
{
    if n > 0 {
        events_amount_to_what_they_are(list, n - 1);
        let before = EventFacts::upto(list, n - 1);
        let facts = EventFacts::upto(list, n);
        let e = list[n - 1];
        assert(facts == before.with(e));
        if before.has_non_v2 {
            let i = choose|i: int| 0 <= i < n - 1 && (#[trigger] list[i]).schema_version != 2;
            assert(list[i].schema_version != 2);
        }
        if before.invalid_evidence_order {
            let i = choose|i: int|
                0 <= i < n - 1 && ((#[trigger] list[i]).evidence.line == 0 || list[i].evidence.line
                    > list[i].evidence.end_line);
            assert(list[i].evidence.line == 0 || list[i].evidence.line > list[i].evidence.end_line);
        }
        if before.context_uncertain {
            let i = choose|i: int| 0 <= i < n - 1 && (#[trigger] list[i]).context_uncertain;
            assert(list[i].context_uncertain);
        }
        if before.max_end_line > 0 {
            let i = choose|i: int|
                0 <= i < n - 1 && (#[trigger] list[i]).evidence.end_line == before.max_end_line;
            assert(list[i].evidence.end_line == before.max_end_line);
        }
        assert(list[n - 1] == e);
        if facts.first_unsupported_schema is None {
            assert forall|i: int| 0 <= i < n implies (#[trigger] list[i]).schema_version == 1
                || list[i].schema_version == 2 by {
                if i < n - 1 {
                    assert(list[i].schema_version == 1 || list[i].schema_version == 2);
                }
            }
        } else if forall|i: int|
            0 <= i < n ==> (#[trigger] list[i]).schema_version == 1 || list[i].schema_version == 2 {
            assert(e.schema_version == 1 || e.schema_version == 2);
            assert forall|i: int| 0 <= i < n - 1 implies (#[trigger] list[i]).schema_version == 1
                || list[i].schema_version == 2 by {}
        }
    }
}

/// Whether the evidence of an event is a range of lines of a trace.
pub open spec fn fits_trace(e: EventView, lines: usize) -> bool {
    1 <= e.evidence.line <= e.evidence.end_line <= lines
}

/// A finalized run of the current schema is taken exactly if its metadata is, it does not run
/// any more, it counts its events, all of them are of the current schema, their evidence
/// stands in its trace, and none is uncertain if it is complete.
pub proof fn runs_are_taken_if_they_make_sense(m: Metadata, list: Seq<EventView>)
    requires
        m.schema_version == 3,
        list.len() <= usize::MAX,
    ensures
        contract::run_fault(m, EventFacts::of(list), true) is None <==> {
            &&& contract::metadata_fault(m) is None
            &&& m.state@ != "running"@
            &&& m.parsed_events == list.len()
            &&& forall|i: int|
                0 <= i < list.len() ==> (#[trigger] list[i]).schema_version == 2 && fits_trace(
                    list[i],
                    m.raw_lines,
                )
            &&& (m.completeness matches Some(c) && c@ == "complete_for_supported_events"@) ==> forall|
                i: int,
            |
                0 <= i < list.len() ==> !(#[trigger] list[i]).context_uncertain
        },
{
    let n = list.len() as int;
    events_amount_to_what_they_are(list, n);
    let facts = EventFacts::of(list);
    if contract::run_fault(m, facts, true) is None {
        assert forall|i: int| 0 <= i < n implies (#[trigger] list[i]).schema_version == 2
            && fits_trace(list[i], m.raw_lines) by {}
    } else if contract::metadata_fault(m) is None && m.state@ != "running"@ && m.parsed_events == n
        && (forall|i: int|
        0 <= i < n ==> (#[trigger] list[i]).schema_version == 2 && fits_trace(
            list[i],
            m.raw_lines,
        )) {
        if facts.has_non_v2 {
            let i = choose|i: int| 0 <= i < n && (#[trigger] list[i]).schema_version != 2;
            assert(list[i].schema_version == 2);
        }
        if facts.invalid_evidence_order {
            let i = choose|i: int|
                0 <= i < n && ((#[trigger] list[i]).evidence.line == 0 || list[i].evidence.line
                    > list[i].evidence.end_line);
            assert(fits_trace(list[i], m.raw_lines));
        }
        if facts.max_end_line > m.raw_lines {
            let i = choose|i: int|
                0 <= i < n && (#[trigger] list[i]).evidence.end_line == facts.max_end_line;
            assert(fits_trace(list[i], m.raw_lines));
        }
    }
}

/// What is wrong with a run whose metadata is taken is said: the first of these that is.
pub proof fn faults_of_runs_are_told(m: Metadata, facts: EventFacts, finalized: bool)
    requires
        contract::metadata_fault(m) is None,
    ensures
        ({
            let fault = contract::run_fault(m, facts, finalized);
            let current = m.schema_version == 3;
            let running = current && finalized && m.state@ == "running"@;
            let mixed = current && facts.has_non_v2;
            let counted = m.parsed_events == facts.count;
            let outside = facts.invalid_evidence_order || facts.max_end_line > m.raw_lines;
            let unsure = current && (m.completeness matches Some(c) && c@
                == "complete_for_supported_events"@) && facts.context_uncertain;
            &&& running ==> fault == Some("finalization marker contradicts running metadata"@)
            &&& !running && mixed ==> fault == Some(
                "current metadata schema requires only event schema 2"@,
            )
            &&& !running && !mixed && !counted ==> fault == Some(
                "metadata parsed event count does not match events"@,
            )
            &&& !running && !mixed && counted && outside ==> fault == Some(
                "event evidence lines fall outside the recorded raw trace"@,
            )
            &&& !running && !mixed && counted && !outside && unsure ==> fault == Some(
                "complete metadata contains context-uncertain evidence"@,
            )
            &&& !running && !mixed && counted && !outside && !unsure ==> fault is None
        }),
{
}

/// Schemas that cannot be read are named, that of the metadata first, then that of the marker,
/// then that of an event; metadata of the current schema wants events of the current schema.
pub proof fn unknown_schemas_are_named(t: SchemaTuple)
    ensures
        ({
            let old = !(t.metadata == 1 || t.metadata == 2 || t.metadata == 3);
            let marked = t.marker is Some && t.marker->0 != 1;
            let odd = t.events.first_unsupported_schema is Some;
            &&& old ==> t.fault() == Some(
                ErrorView::Unsupported(
                    "unsupported metadata schema "@ + numbers::decimal(t.metadata as nat),
                ),
            )
            &&& !old && marked ==> t.fault() == Some(
                ErrorView::Unsupported(
                    "unsupported finalization marker schema "@ + numbers::decimal(
                        t.marker->0 as nat,
                    ),
                ),
            )
            &&& !old && !marked && odd ==> t.fault() == Some(
                ErrorView::Unsupported(
                    "unsupported event schema "@ + numbers::decimal(
                        t.events.first_unsupported_schema->0 as nat,
                    ),
                ),
            )
            &&& !old && !marked && !odd && t.metadata == 3 && t.events.has_non_v2 ==> t.fault()
                == Some(
                ErrorView::Corrupt("current metadata schema requires only event schema 2"@),
            )
            &&& !old && !marked && !odd && !(t.metadata == 3 && t.events.has_non_v2) ==> t.fault()
                is None
        }),
{
}

/// A finalized record of the current schema is verified, and one of an older schema is not.
pub proof fn only_current_records_are_verified(schema: u32)
    ensures
        schema == 3 ==> contract::finalized_status(schema) == (
            "verified"@,
            "metadata and events match finalized byte counts, event count and SHA-256; raw logs are not checksummed"@,
        ),
        schema != 3 ==> contract::finalized_status(schema) == (
            "unverified"@,
            "storage integrity unverified: legacy metadata cannot be promoted by a finalization marker; marker byte checks passed"@,
        ),
{
}

/// The words for failures of storage: damage is said to be damage, and what is not available
/// says what the system said.
pub proof fn failures_of_storage_are_told(message: Seq<char>, source: IoErrorView)
    ensures
        ErrorView::Corrupt(message).text() == "corrupt record: "@ + message,
        ErrorView::Unsupported(message).text() == message,
        ErrorView::Busy(message).text() == message,
        ErrorView::Unavailable(message, None).text() == message,
        ErrorView::Unavailable(message, Some(source)).text() == message + ": "@ + source.message,
        ErrorView::Corrupt(message).kind() is Corrupt,
        ErrorView::Unsupported(message).kind() is Unsupported,
        ErrorView::Busy(message).kind() is Busy,
        ErrorView::Unavailable(message, Some(source)).kind() is Unavailable,
        ErrorView::Unavailable(message, None).kind() is Unavailable,
{
}

/// A lock that another holds makes storage busy; any other failure to lock makes it
/// unavailable.
pub proof fn held_locks_are_told(source: IoErrorView)
    ensures
        source.code == Some(11i32) ==> error::lock_failure(source) == ErrorView::Busy(
            "storage busy: another recorder or delete operation holds the lock"@,
        ),
        source.code != Some(11i32) ==> error::lock_failure(source) == ErrorView::Unavailable(
            "acquire storage lock"@,
            Some(source),
        ),
{
}

/// A file that a record must have is damage if it is missing, and unavailable if it cannot be
/// opened; a link or a file in place of a directory is recognized.
pub proof fn missing_files_are_damage(display: Seq<char>, e: IoErrorView, code: Option<i32>)
    ensures
        e.kind is NotFound ==> error::missing_file(display, e) == ErrorView::Corrupt(
            display + ": "@ + e.message,
        ),
        !(e.kind is NotFound) ==> error::missing_file(display, e) == ErrorView::Unavailable(
            display,
            Some(e),
        ),
        error::not_real_directory(code) <==> code == Some(40i32) || code == Some(20i32),
{
}

/// A key that does not name exactly one record says how many it names.
pub proof fn ambiguous_keys_are_told(spelled: Seq<char>, count: nat)
    ensures
        error::selection_failure(spelled, count) == ErrorView::Unavailable(
            "record "@ + spelled + ": expected one safe ID/label match, found "@ + numbers::decimal(
                count,
            )
                + "; unknown labels require an exact recognizable directory ID; unsafe entries cannot be selected"@,
            None,
        ),
{
}

/// A replacement that failed says whether it was published and whether it is durable.
pub proof fn failed_replacements_are_told(c: CommitView)
    ensures
        c.stage is BeforePublish ==> c.text() == "atomic replace of "@ + c.file
            + " failed before publish during "@ + c.operation + ": "@ + c.source.message,
        c.stage is PublishedDurabilityUnknown ==> c.text() == "atomic replace of "@ + c.file
            + " was published but directory durability is unknown during "@ + c.operation + ": "@
            + c.source.message,
        c.stage is Durable ==> c.text() == "atomic replace of "@ + c.file + " was durable but "@
            + c.operation + " failed: "@ + c.source.message,
{
}

/// A failure is of the kind of the storage failure that caused it, and unavailable if anything
/// else did; its context stands before its cause.
pub proof fn failures_say_their_context(words: Seq<char>, e: ErrorView, message: Seq<char>)
    ensures
        (FailureView { context: Some(words), cause: CauseView::Storage(e) }).kind() == e.kind(),
        (FailureView { context: None, cause: CauseView::Other(message) }).kind() is Unavailable,
        (FailureView { context: None, cause: CauseView::Other(message) }).text() == message,
        (FailureView { context: Some(words), cause: CauseView::Other(message) }).text() == words
            + ": "@ + message,
        (FailureView { context: Some(words), cause: CauseView::Storage(ErrorView::Corrupt(message)) }).text()
            == words + ": "@ + ("corrupt record: "@ + message),
{
}

/// A digest is spelled byte by byte, in two lowercase hexadecimal digits each.
pub proof fn digests_are_spelled(bytes: Seq<u8>, b: u8)
    ensures
        checksum::hex(Seq::<u8>::empty()) == Seq::<char>::empty(),
        ({
            let s = checksum::hex(bytes.push(b));
            let n = checksum::hex(bytes).len() as int;
            &&& s.len() == n + 2
            &&& s.subrange(0, n) == checksum::hex(bytes)
            &&& numbers::number_value(s.subrange(n, n + 2), 16) == Some(b as int)
            &&& forall|i: int|
                n <= i < n + 2 ==> '0' <= #[trigger] s[i] <= '9' || 'a' <= s[i] <= 'f'
        }),
{
    let longer = bytes.push(b);
    let k = bytes.len() as int;
    same_hex(bytes, longer, k);
    let s = checksum::hex(longer);
    let n = checksum::hex(bytes).len() as int;
    assert(longer[k] == b);
    assert(s.subrange(0, n) =~= checksum::hex(bytes));
    let pair = s.subrange(n, n + 2);
    reveal_with_fuel(numbers::digits_value, 3);
    assert(pair[0] == numbers::hex_digit(b as int / 16));
    assert(pair[1] == numbers::hex_digit(b as int % 16));
    assert(numbers::digit_value(pair[0], 16) == Some(b as int / 16));
    assert(numbers::digit_value(pair[1], 16) == Some(b as int % 16));
}

proof fn same_hex(a: Seq<u8>, b: Seq<u8>, n: int)
    requires
        forall|i: int| 0 <= i < n ==> a[i] == b[i],
    ensures
        checksum::hex_upto(a, n) == checksum::hex_upto(b, n),
    decreases n,
{
    if n > 0 {
        same_hex(a, b, n - 1);
    }
}

/// Only a regular file of a length is read, and what was read counts only if the file is still
/// the same one, of the same length, and that much was read.
pub proof fn files_are_read_whole(
    before: FileIdentity,
    after: FileIdentity,
    bytes: nat,
    words: Seq<char>,
)
    ensures
        checksum::unreadable(before) is None <==> before.regular && before.length >= 0,
        !before.regular ==> checksum::unreadable(before) == Some(
            IoErrorView { kind: IoKind::InvalidData, code: None, message: "not a regular file"@ },
        ),
        checksum::changed(before, after, bytes, words) is None <==> before.device == after.device
            && before.inode == after.inode && after.length >= 0 && after.length == before.length
            && bytes == before.length,
        before.device != after.device || before.inode != after.inode ==> checksum::changed(
            before,
            after,
            bytes,
            words,
        ) == Some(IoErrorView { kind: IoKind::InvalidData, code: None, message: words }),
{
}

/// A file that a marker covers is taken exactly if it has the length and the digest that the
/// marker says.
pub proof fn marked_files_are_checked(n: u64, actual: CheckView, expected: CheckView, display: Seq<char>)
    ensures
        checksum::marked_file_fault(Ok(n), Ok(actual), expected, display) is None <==> n
            == expected.bytes && actual == expected,
        !(n == expected.bytes && actual == expected) ==> checksum::marked_file_fault(
            Ok(n),
            Ok(actual),
            expected,
            display,
        ) == Some(ErrorView::Corrupt(display + ": byte count or SHA-256 mismatch"@)),
{
}

/// A line of stored events is taken if its schema is one of the two that can be read and it
/// can be decoded; what is wrong is said with the number of the line.
pub proof fn event_lines_are_checked(
    version: u32,
    body: Option<Seq<char>>,
    line: nat,
    message: Seq<char>,
)
    ensures
        version == 1 || version == 2 ==> (events::event_fault(Ok(version), body, line) is None
            <==> body is None),
        version == 1 || version == 2 ==> events::event_fault(Ok(version), Some(message), line)
            == Some(
            ErrorView::Corrupt("events.jsonl:"@ + numbers::decimal(line) + ": "@ + message),
        ),
        version != 1 && version != 2 ==> events::event_fault(Ok(version), body, line) == Some(
            ErrorView::Unsupported(
                "unsupported event schema "@ + numbers::decimal(version as nat) + " at line "@
                    + numbers::decimal(line),
            ),
        ),
        events::event_fault(Err(message), body, line) == Some(
            ErrorView::Corrupt("events.jsonl:"@ + numbers::decimal(line) + ": "@ + message),
        ),
{
}

/// A stream of events counts its lines, keeps what every line was decoded to in order, and
/// keeps the first failure.
pub proof fn streams_keep_their_events(s: StreamView, e: EventView, a: ErrorView)
    ensures
        s.events matches Some(list) ==> s.decoded(Ok(e)).events == Some(list.push(e)),
        s.decoded(Ok(e)).decode_error == s.decode_error,
        s.decoded(Ok(e)).facts.count == (s.facts.count + 1) as usize,
        s.decode_error is None ==> s.decoded(Err(a)).decode_error == Some(a) && s.decoded(
            Err(a),
        ).events is None,
        s.decode_error is Some ==> s.decoded(Err(a)).decode_error == s.decode_error,
{
}

/// What is wrong with a stream of events is said: text that is none, then a last line that is
/// not ended, then what could not be decoded; a stream without these is whole.
pub proof fn faults_of_streams_are_told(s: StreamView)
    ensures
        s.utf8_error matches Some(message) ==> s.fault() == Some(
            ErrorView::Corrupt("events.jsonl"@ + ": "@ + message),
        ),
        s.utf8_error is None && s.saw_bytes && !s.final_line_terminated ==> s.fault() == Some(
            ErrorView::Corrupt("events.jsonl: incomplete final line"@),
        ),
        s.utf8_error is None && !(s.saw_bytes && !s.final_line_terminated) ==> s.fault()
            == s.decode_error,
{
}

/// A marker is taken if its schema is the first one and it can be decoded.
pub proof fn markers_are_checked(version: u32, body: Option<Seq<char>>, message: Seq<char>)
    ensures
        events::marker_fault(Ok(version), body) is None <==> version == 1 && body is None,
        version != 1 ==> events::marker_fault(Ok(version), body) == Some(
            ErrorView::Unsupported(
                "unsupported finalization marker schema "@ + numbers::decimal(version as nat),
            ),
        ),
        events::marker_fault(Err(message), body) == Some(
            ErrorView::Corrupt("finalized.json"@ + ": "@ + message),
        ),
{
}

/// Decoded metadata is taken exactly if it has what its schema asks for, names the directory
/// that it stands in, and makes sense.
pub proof fn decoded_metadata_is_checked(m: Metadata, id: Seq<char>)
    ensures
        events::decoded_fault(m, id) is None <==> {
            &&& m.schema_version >= 2 ==> m.environment is Some && m.completeness is Some
            &&& m.id@ == id
            &&& contract::metadata_fault(m) is None
        },
        m.schema_version >= 2 && (m.environment is None || m.completeness is None)
            ==> events::decoded_fault(m, id) == Some(
            ErrorView::Corrupt("metadata: missing environment or completeness"@),
        ),
        !(m.schema_version >= 2 && (m.environment is None || m.completeness is None)) && m.id@ != id
            ==> events::decoded_fault(m, id) == Some(
            ErrorView::Corrupt("record ID does not match directory"@),
        ),
{
}

/// A key names an entry by its identifier or by its name, and matches as many entries as it
/// names.
pub proof fn keys_name_entries(entries: Seq<EntryView>, key: Seq<char>, n: int, e: EntryView)
    requires
        0 <= n <= entries.len(),
    ensures
        index::names(e, key) <==> e.id == Some(key) || e.name == Some(key),
        0 <= index::match_count(entries, key, n) <= n,
        index::match_count(entries, key, n) == 0 <==> forall|i: int|
            0 <= i < n ==> !index::names(#[trigger] entries[i], key),
        index::match_count(entries, key, n) > 1 ==> exists|i: int, j: int|
            0 <= i < j < n && index::names(#[trigger] entries[i], key) && index::names(
                #[trigger] entries[j],
                key,
            ),
    decreases n,
{
    if n > 0 {
        keys_name_entries(entries, key, n - 1, e);
        let before = index::match_count(entries, key, n - 1);
        if before > 0 {
            assert(!(forall|i: int| 0 <= i < n - 1 ==> !index::names(#[trigger] entries[i], key)));
            let i = choose|i: int| 0 <= i < n - 1 && index::names(#[trigger] entries[i], key);
            assert(index::names(entries[i], key));
            if index::names(entries[n - 1], key) {
                assert(0 <= i < n - 1 && index::names(entries[n - 1], key));
            }
        }
    }
}

/// The words in the index for records that cannot be read.
pub proof fn unreadable_records_are_told()
    ensures
        index::unreadable_status(StorageLoadFailureKind::Corrupt) == "corrupt"@,
        index::unreadable_status(StorageLoadFailureKind::Unsupported) == "unsupported"@,
        index::unreadable_status(StorageLoadFailureKind::Unavailable) == "unavailable"@,
        index::unreadable_status(StorageLoadFailureKind::Busy) == "unavailable"@,
{
}

/// An entry can be selected exactly if it was opened and has an identifier, and the same holds
/// of deleting it.
pub proof fn only_opened_records_are_selected(e: EntryView)
    ensures
        index::selected_fault(e) is None <==> e.open_error is None && e.id is Some,
        index::deletion_fault(e) is None <==> e.open_error is None && e.id is Some,
        e.id is None ==> index::deletion_fault(e) == Some(
            ErrorView::Unavailable("unsafe record directory"@, None),
        ),
        e.id is Some && e.open_error is Some ==> index::deletion_fault(e) == Some(
            ErrorView::Unavailable("unsafe record directory: "@ + e.directory, None),
        ),
{
}

/// A new name can be reserved only if every entry was opened, its name could be read, and it
/// has an identifier; the first entry that is not so stands in the way.
pub proof fn names_are_reserved_if_all_entries_are_known(entries: Seq<EntryView>, i: int)
    requires
        0 <= i <= entries.len(),
    ensures
        forall|j: int|
            i <= j < index::first_obstacle(entries, i) ==> {
                let e = #[trigger] entries[j];
                e.open_error is None && e.index_error is None && e.id is Some
            },
        i <= index::first_obstacle(entries, i) <= entries.len(),
        index::first_obstacle(entries, i) < entries.len() ==> {
            let e = entries[index::first_obstacle(entries, i)];
            e.open_error is Some || e.index_error is Some || e.id is None
        },
    decreases entries.len() - i,
{
    if i < entries.len() && index::reservation_fault(entries[i]) is None {
        names_are_reserved_if_all_entries_are_known(entries, i + 1);
    }
}

/// Deleting looks at the directory, empties it, looks at it again, and removes it; a leaf is
/// removed if it is no directory, and is emptied only if what was opened is what was seen.
pub proof fn deletion_looks_before_it_removes(phase: LeafPhase, event: LeafEvent, next: LeafPhase, action: LeafAction)
    requires
        phase.leads(event, next, action),
        phase.awaits(event),
    ensures
        DeleteStep::Identify.next() is RemoveContents,
        DeleteStep::RemoveContents.next() is IdentifyAgain,
        DeleteStep::IdentifyAgain.next() is Unlink,
        DeleteStep::Unlink.next() is Deleted,
        event matches LeafEvent::Inspected(_, directory) ==> (directory ==> action is Open) && (
        !directory ==> action is Unlink),
        action is Empty ==> (phase matches LeafPhase::Opening(seen)
            && event matches LeafEvent::Opened(opened) && seen.device == opened.device && seen.inode
            == opened.inode),
        action is RemoveDirectory ==> phase is Identifying,
        phase is Emptying ==> action is Identify,
        phase is Removing ==> action is Finished,
{
}

/// Where storage is below the directory that was chosen.
pub proof fn storage_has_its_place()
    ensures
        RootChoice::Explicit.path() == Seq::<char>::empty(),
        RootChoice::DataHome.path() == "rundelta"@,
        RootChoice::Home.path() == ".local/share/rundelta"@,
{
    reveal_strlit("");
    assert(""@ =~= Seq::<char>::empty());
}

/// The whole text of a failure says again what the system said where it was the cause.
pub proof fn causes_are_told_again(message: Seq<char>, source: IoErrorView)
    ensures
        ErrorView::Corrupt(message).full_text() == "corrupt record: "@ + message,
        ErrorView::Unsupported(message).full_text() == message,
        ErrorView::Busy(message).full_text() == message,
        ErrorView::Unavailable(message, None).full_text() == message,
        ErrorView::Unavailable(message, Some(source)).full_text() == message + ": "@
            + source.message + ": "@ + source.message,
{
}

/// Stored metadata is taken if its schema is one of the three that can be read, it can be
/// decoded, and it makes sense where it stands; what is wrong names the file.
pub proof fn stored_metadata_is_checked(
    version: u32,
    m: Metadata,
    broken: String,
    message: Seq<char>,
    id: Seq<char>,
)
    ensures
        events::metadata_read_fault(Err(message), Ok(m), id) == Some(
            ErrorView::Corrupt("metadata.json"@ + ": "@ + message),
        ),
        1 <= version <= 3 ==> events::metadata_read_fault(Ok(version), Ok(m), id)
            == events::decoded_fault(m, id),
        1 <= version <= 3 ==> events::metadata_read_fault(
            Ok(version),
            Err::<Metadata, String>(broken),
            id,
        ) == Some(ErrorView::Corrupt("metadata.json"@ + ": "@ + broken@)),
        !(1 <= version <= 3) ==> events::metadata_read_fault(Ok(version), Ok(m), id) == Some(
            ErrorView::Unsupported(
                "unsupported metadata schema "@ + numbers::decimal(version as nat),
            ),
        ),
        contract::metadata_fault(m) matches Some(fault) ==> (m.id@ == id && m.environment is Some
            && m.completeness is Some ==> events::decoded_fault(m, id) == Some(
            ErrorView::Corrupt("metadata contract"@ + ": "@ + fault),
        )),
{
}

/// A stream of events takes its lines one after the other: it keeps all their bytes, counts
/// them, knows whether the last one ended, and keeps the first that is no text.
pub proof fn streams_take_their_lines(s: StreamView, line: Seq<u8>)
    requires
        line.len() > 0,
    ensures
        ({
            let after = s.took(line);
            &&& after.bytes == s.bytes + line
            &&& after.line_number == s.line_number + 1
            &&& after.saw_bytes
            &&& after.final_line_terminated <==> line.last() == 0x0a
            &&& after.facts == s.facts && after.decode_error == s.decode_error
            &&& s.utf8_error is Some ==> after.utf8_error == s.utf8_error
            &&& vstd::utf8::valid_utf8(line) ==> after.utf8_error == s.utf8_error && after.events
                == s.events
            &&& !vstd::utf8::valid_utf8(line) ==> after.utf8_error is Some && after.events is None
        }),
{
}

/// The text of a line of a stream is what stands before its newline, without a carriage return
/// before that; a line without a newline has none.
pub proof fn lines_of_streams_are_text(buffer: Seq<u8>, line: Seq<char>)
    requires
        vstd::utf8::valid_utf8(buffer),
        line.len() > 0 ==> line.last() != '\r' && line.last() != '\n',
    ensures
        vstd::utf8::decode_utf8(buffer) == line + "\n"@ ==> events::line_text(buffer) == Some(line),
        vstd::utf8::decode_utf8(buffer) == line + "\r\n"@ ==> events::line_text(buffer) == Some(
            line,
        ),
        vstd::utf8::decode_utf8(buffer) == line ==> events::line_text(buffer) is None,
{
    reveal_strlit("\n");
    reveal_strlit("\r");
    reveal_strlit("\r\n");
    let s = vstd::utf8::decode_utf8(buffer);
    let n = line.len() as int;
    if s == line + "\n"@ {
        assert(s.subrange(n, n + 1) =~= "\n"@);
        assert(s.subrange(0, n) =~= line);
        if text::matches_at(line, "\r"@, n - 1) {
            assert(line.subrange(n - 1, n)[0] == '\r');
        }
    }
    if s == line + "\r\n"@ {
        assert(s.subrange(n + 1, n + 2) =~= "\n"@);
        let c = s.subrange(0, n + 1);
        assert(c.subrange(n, n + 1) =~= "\r"@);
        assert(c.subrange(0, n) =~= line);
    }
    if s == line && text::matches_at(line, "\n"@, n - 1) {
        assert(line.subrange(n - 1, n)[0] == '\n');
    }
}

/// The directory of a record is shown below `runs`, and only one whose name is a generated
/// identifier is recognized.
pub proof fn directories_are_shown(leaf: Seq<u8>)
    ensures
        index::display_of(leaf) == "runs/"@ + model::escaped(leaf),
        index::recognized(leaf) matches Some(id) ==> contract::generated_id(id) && id
            == vstd::utf8::decode_utf8(leaf),
        index::recognized(leaf) is Some <==> vstd::utf8::valid_utf8(leaf) && contract::generated_id(
            vstd::utf8::decode_utf8(leaf),
        ),
{
}

/// An entry without an identifier is unsafe and has no name; one that could not be opened says
/// why, and one whose name could not be read says that.
pub proof fn entries_say_what_is_wrong(directory: Seq<char>, id: Seq<char>, open: EntryOpen)
    ensures
        ({
            let stranger = index::entry_of(directory, None, open);
            &&& stranger.directory == directory && stranger.id is None && stranger.name is None
            &&& stranger.open_error == Some(
                ErrorView::Unavailable(
                    "unsafe entry or unrecognizable run ID: "@ + directory,
                    None,
                ),
            )
        }),
        ({
            let known = index::entry_of(directory, Some(id), open);
            &&& known.directory == directory && known.id == Some(id)
            &&& open matches EntryOpen::OpenFailed(e) ==> known.open_error == Some(
                ErrorView::Unavailable("open record directory"@, Some(e@)),
            )
            &&& open matches EntryOpen::InspectFailed(e) ==> known.open_error == Some(
                ErrorView::Unavailable("inspect record directory"@, Some(e@)),
            )
            &&& open is Changed ==> known.open_error == Some(
                ErrorView::Unavailable(
                    "unsafe record directory changed while opening: "@ + directory,
                    None,
                ),
            )
            &&& open matches EntryOpen::Opened(Ok(name)) ==> known.open_error is None
                && known.index_error is None && known.name == views::opt(name)
            &&& open matches EntryOpen::Opened(Err(e)) ==> known.open_error is None
                && known.index_error == Some(e@) && known.name is None
        }),
{
}

/// What keeps a name from being reserved and an entry from being selected is told with the
/// entry.
pub proof fn obstacles_are_told(e: EntryView, cause: ErrorView)
    ensures
        e.open_error == Some(cause) ==> index::reservation_fault(e) == Some(
            FailureView {
                context: Some("scan "@ + e.directory + ": cannot reserve a new label"@),
                cause: CauseView::Storage(cause),
            },
        ),
        e.open_error is None && e.index_error == Some(cause) ==> index::reservation_fault(e) == Some(
            FailureView {
                context: Some("scan "@ + e.directory + ": cannot reserve a new label"@),
                cause: CauseView::Storage(cause),
            },
        ),
        e.open_error == Some(cause) ==> index::selected_fault(e) == Some(
            FailureView { context: Some(e.directory), cause: CauseView::Storage(cause) },
        ),
{
}

/// A label is shown only if it is one, and a record without a readable label has none; what
/// keeps the label from being read is told.
pub proof fn labels_are_hints(name: Option<String>, e: IoError)
    ensures
        events::label_hint(LabelRead::Malformed) == Ok::<Option<Seq<char>>, ErrorView>(None),
        name matches Some(label) ==> is_label(label@) ==> events::label_hint(LabelRead::Label(name))
            == Ok::<Option<Seq<char>>, ErrorView>(Some(label@)),
        name matches Some(label) ==> !is_label(label@) ==> events::label_hint(LabelRead::Label(name))
            == Ok::<Option<Seq<char>>, ErrorView>(None),
        name is None ==> events::label_hint(LabelRead::Label(name)) == Ok::<
            Option<Seq<char>>,
            ErrorView,
        >(None),
        e.kind is NotFound ==> events::label_hint(LabelRead::OpenFailed(e)) == Ok::<
            Option<Seq<char>>,
            ErrorView,
        >(None),
        !(e.kind is NotFound) ==> events::label_hint(LabelRead::OpenFailed(e)) == Err::<
            Option<Seq<char>>,
            ErrorView,
        >(ErrorView::Unavailable("read record label"@, Some(e@))),
        events::label_hint(LabelRead::ReadFailed(e)) == Err::<Option<Seq<char>>, ErrorView>(
            ErrorView::Unavailable("read record label"@, Some(e@)),
        ),
{
}

/// A row of the index shows a record that was read with its metadata, and any other entry with
/// what is wrong with it.
pub proof fn rows_show_their_entries(
    row: RecordSummary,
    e: EntryView,
    loaded: Result<LoadedRecord, StorageError>,
)
    requires
        index::shows(row, e, loaded),
    ensures
        row is Readable <==> e.open_error is None && e.id is Some && loaded is Ok,
        row matches RecordSummary::Readable { metadata, directory, storage_integrity } ==> *metadata
            == (loaded->Ok_0).metadata && directory@ == e.directory && storage_integrity
            == (loaded->Ok_0).storage_integrity,
        row matches RecordSummary::Unreadable { id, name, directory, storage_integrity } ==> {
            &&& views::opt(id) == e.id && views::opt(name) == e.name && directory@ == e.directory
            &&& e.open_error matches Some(cause) ==> storage_integrity.detail@ == cause.full_text()
                && (cause is Corrupt ==> storage_integrity.status@ == "corrupt"@) && (
            cause is Unsupported ==> storage_integrity.status@ == "unsupported"@) && (
            cause is Unavailable || cause is Busy ==> storage_integrity.status@ == "unavailable"@)
        },
{
}

/// What an entry reserves is its identifier and its name, if it has one.
pub proof fn entries_reserve_their_names(identity: contract::Identity, entry: EntryView)
    ensures
        entry.name matches Some(name) ==> (index::reserves(identity, entry) <==> entry.id == Some(
            identity.id@,
        ) && identity.name@ == name),
        entry.name is None ==> (index::reserves(identity, entry) <==> entry.id == Some(identity.id@)
            && identity.name@.len() == 0),
{
    if identity.name@.len() == 0 {
        assert(identity.name@ =~= Seq::<char>::empty());
    }
}

/// Which texts are identifiers of records: a time in hexadecimal digits of either case, a
/// hyphen, and the decimal number of a process other than zero, neither of them too large.
pub proof fn identifiers_are_times_and_processes(time: Seq<char>, pid: Seq<char>)
    requires
        !time.contains('-'),
    ensures
        contract::generated_id(time + "-"@ + pid) <==> {
            &&& time.len() > 0 && pid.len() > 0
            &&& forall|i: int|
                0 <= i < time.len() ==> '0' <= #[trigger] time[i] <= '9' || 'a' <= time[i] <= 'f'
                    || 'A' <= time[i] <= 'F'
            &&& forall|i: int| 0 <= i < pid.len() ==> '0' <= #[trigger] pid[i] <= '9'
            &&& numbers::bounded_value(time, 16, u128::MAX as int) is Some
            &&& (numbers::bounded_value(pid, 10, u32::MAX as int) matches Some(p) && p > 0)
        },
{
    reveal_strlit("-");
    let id = time + "-"@ + pid;
    let at = time.len() as int;
    assert forall|i: int| 0 <= i < at implies id[i] != '-' by {
        assert(time.contains(time[i]));
    }
    first_hyphen(id, 0, at);
    assert(id.subrange(0, at) =~= time);
    assert(id.subrange(at + 1, id.len() as int) =~= pid);
    assert forall|i: int| 0 <= i < time.len() implies contract::ascii_hex_digit(#[trigger] time[i])
        == ('0' <= time[i] <= '9' || 'a' <= time[i] <= 'f' || 'A' <= time[i] <= 'F') by {
    }
}

/// The first hyphen is where one stands and none stands before it.
proof fn first_hyphen(s: Seq<char>, i: int, at: int)
    requires
        0 <= i <= at < s.len(),
        s[at] == '-',
        forall|j: int| i <= j < at ==> s[j] != '-',
    ensures
        text::first_at(s, text::just('-'), i) == at,
    decreases at - i,
{
    if i < at {
        first_hyphen(s, i + 1, at);
    }
}

} // verus!
