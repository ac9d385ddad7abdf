//! The facts that a record holds and that the other modules exchange.
//!
//! The types carry observed facts and evidence; they do not infer causation,
//! physical file identity, or capture reliability.
use vstd::prelude::*;
use vstd::string::*;

use crate::numbers;
use crate::sorted_map::SortedMap;
use crate::text;
use crate::views;

verus! {

broadcast use crate::views::group_views;

/// Final capture state exposed to the record command after storage finalization.
#[derive(Debug, Clone, Copy, PartialEq, Eq, Structural)]
pub enum CaptureState {
    /// The target completion was observed and confirmed by the collector.
    Completed,
    /// Recorder cancellation was observed while supervising the collector.
    Interrupted,
    /// Capture or collector facts could not establish target completion.
    CaptureFailed,
}

impl CaptureState {
    /// The spelling that metadata stores.
    pub open spec fn spelling(self) -> Seq<char> {
        match self {
            CaptureState::Completed => "completed"@,
            CaptureState::Interrupted => "interrupted"@,
            CaptureState::CaptureFailed => "capture_failed"@,
        }
    }

    /// Gives the spelling that metadata stores.
    pub fn as_text(&self) -> (r: &'static str)
        ensures
            r@ == self.spelling(),
    {
        match self {
            CaptureState::Completed => "completed",
            CaptureState::Interrupted => "interrupted",
            CaptureState::CaptureFailed => "capture_failed",
        }
    }
}

/// Final completeness classification exposed by a completed record use case.
#[derive(Debug, Clone, Copy, PartialEq, Eq, Structural)]
pub enum CaptureCompleteness {
    /// All supported observations were captured without warnings.
    CompleteForSupportedEvents,
    /// Target completion was established, but warnings limit the evidence.
    Partial,
    /// Target completion or capture supervision was not established.
    Incomplete,
}

impl CaptureCompleteness {
    /// The spelling that metadata stores.
    pub open spec fn spelling(self) -> Seq<char> {
        match self {
            CaptureCompleteness::CompleteForSupportedEvents => "complete_for_supported_events"@,
            CaptureCompleteness::Partial => "partial"@,
            CaptureCompleteness::Incomplete => "incomplete"@,
        }
    }

    /// Gives the spelling that metadata stores.
    pub fn as_text(&self) -> (r: &'static str)
        ensures
            r@ == self.spelling(),
    {
        match self {
            CaptureCompleteness::CompleteForSupportedEvents => "complete_for_supported_events",
            CaptureCompleteness::Partial => "partial",
            CaptureCompleteness::Incomplete => "incomplete",
        }
    }
}

/// Result of a record use case whose structured files were already finalized.
#[derive(Debug, Clone, PartialEq, Eq)]
pub struct RecordResult {
    /// Stable internal record identifier.
    pub id: String,
    /// User-provided record label.
    pub name: String,
    /// Final capture state.
    pub state: CaptureState,
    /// Final evidence completeness classification.
    pub completeness: CaptureCompleteness,
    /// Number of normalized events written to storage.
    pub event_count: usize,
    /// Capture and parser warnings preserved in metadata.
    pub warnings: Vec<String>,
    /// Display spelling of the finalized evidence directory.
    pub evidence_dir: String,
    /// Business exit status computed for the record command.
    pub cli_exit: i32,
}

/// Raw-trace coordinates supporting one normalized observation.
#[derive(Debug, Clone, PartialEq, Eq, PartialOrd, Ord)]
pub struct Evidence {
    /// Evidence file spelling relative to the stored run directory.
    pub file: String,
    /// One-based first raw line used by the observation.
    pub line: usize,
    /// One-based inclusive final raw line used by the observation.
    pub end_line: usize,
}

/// What an [`Evidence`] says.
pub struct EvidenceView {
    /// Evidence file.
    pub file: Seq<char>,
    /// First line.
    pub line: usize,
    /// Last line.
    pub end_line: usize,
}

impl View for Evidence {
    type V = EvidenceView;

    open spec fn view(&self) -> EvidenceView {
        EvidenceView { file: self.file@, line: self.line, end_line: self.end_line }
    }
}

impl Evidence {
    /// Copies the coordinates.
    pub fn copy(&self) -> (r: Evidence)
        ensures
            r@ == self@,
    {
        Evidence { file: self.file.clone(), line: self.line, end_line: self.end_line }
    }

    /// Whether two coordinates are equal.
    pub fn same_as(&self, other: &Evidence) -> (r: bool)
        ensures
            r == (self@ == other@),
    {
        self.line == other.line && self.end_line == other.end_line && text::same(
            self.file.as_str(),
            other.file.as_str(),
        )
    }
}

/// Normalized observation derived from raw syscall evidence.
///
/// An event records what was observed, not why it happened or whether two path
/// spellings identify the same physical object.
#[derive(Debug, Clone, PartialEq, Eq)]
pub struct Event {
    /// Persisted event schema version; current writers use version 2.
    pub schema_version: u32,
    /// Raw numeric task-ID spelling reported by strace.
    pub pid: String,
    /// Normalized observation family such as `file`, `exec`, or `spawn`.
    pub kind: String,
    /// Observed syscall operation name.
    pub operation: String,
    /// Observed path spelling, when the syscall evidence establishes one.
    pub path: Option<String>,
    /// Normalized syscall result or raw process-completion spelling.
    pub outcome: String,
    /// Raw evidence coordinates retained without reinterpretation.
    pub evidence: Evidence,
    /// Observed execution arguments, when completely decoded.
    pub argv: Option<Vec<String>>,
    /// Successful spawn result when it establishes a child task ID.
    pub child_pid: Option<String>,
    /// Last observed CWD context, never current physical identity.
    pub cwd_before: Option<String>,
    /// Unresolved relative path or shared/changed filesystem context.
    pub context_uncertain: bool,
}

/// What an [`Event`] says.
pub struct EventView {
    /// Schema version.
    pub schema_version: u32,
    /// Task-ID spelling.
    pub pid: Seq<char>,
    /// Observation family.
    pub kind: Seq<char>,
    /// Syscall name.
    pub operation: Seq<char>,
    /// Path spelling.
    pub path: Option<Seq<char>>,
    /// Result.
    pub outcome: Seq<char>,
    /// Coordinates.
    pub evidence: EvidenceView,
    /// Execution arguments.
    pub argv: Option<Seq<Seq<char>>>,
    /// Child task ID.
    pub child_pid: Option<Seq<char>>,
    /// Last observed CWD.
    pub cwd_before: Option<Seq<char>>,
    /// Uncertain context.
    pub context_uncertain: bool,
}

/// The view of an optional list of strings.
pub open spec fn texts_option(o: Option<Vec<String>>) -> Option<Seq<Seq<char>>> {
    match o {
        Some(v) => Some(views::each(v@)),
        None => None,
    }
}

impl View for Event {
    type V = EventView;

    open spec fn view(&self) -> EventView {
        EventView {
            schema_version: self.schema_version,
            pid: self.pid@,
            kind: self.kind@,
            operation: self.operation@,
            path: views::opt(self.path),
            outcome: self.outcome@,
            evidence: self.evidence@,
            argv: texts_option(self.argv),
            child_pid: views::opt(self.child_pid),
            cwd_before: views::opt(self.cwd_before),
            context_uncertain: self.context_uncertain,
        }
    }
}

/// The startup variables selected for a record: set, or known to be unset.
pub type Environment = SortedMap<String, Option<String>>;

/// Capture facts stored alongside normalized events.
///
/// Target, collector, capture state, completeness, and warnings remain separate
/// facts. Optional fields also preserve the shape of older data.
#[derive(Debug, Clone)]
pub struct Metadata {
    /// Persisted metadata schema version; current writers use version 3.
    pub schema_version: u32,
    /// Package version that created the record.
    pub tool_version: String,
    /// Generated storage identifier.
    pub id: String,
    /// User-provided record label, never a filesystem path.
    pub name: String,
    /// Reversible byte spellings of the requested command and arguments.
    pub command: Vec<String>,
    /// Initial observed working-directory spelling.
    pub cwd: String,
    /// Capture start timestamp in Unix-epoch milliseconds.
    pub started: u128,
    /// Capture end timestamp when final facts were produced.
    pub ended: Option<u128>,
    /// First version line reported by the tracing backend.
    pub backend: String,
    /// Persisted capture-state spelling.
    pub state: String,
    /// Explicit target exit code, mutually exclusive with `signal`.
    pub exit_code: Option<i32>,
    /// Explicit target termination signal, mutually exclusive with `exit_code`.
    pub signal: Option<i32>,
    /// Capture and parsing limitations in observation order.
    pub warnings: Vec<String>,
    /// Number of normalized events stored for the run.
    pub parsed_events: usize,
    /// Number of logical lines observed in the raw trace.
    pub raw_lines: usize,
    /// None means that no environment selection was recorded.
    pub environment: Option<Environment>,
    /// Persisted evidence-completeness spelling; absent in older records.
    pub completeness: Option<String>,
    /// Collector exit code, kept distinct from the target outcome.
    pub collector_exit_code: Option<i32>,
    /// Collector termination signal, kept distinct from the target outcome.
    pub collector_signal: Option<i32>,
    /// Exact root-task completion text when present in raw evidence.
    pub target_exit_raw: Option<String>,
}

impl Metadata {
    /// The selected environment, if any, is sorted by key.
    pub open spec fn wf(self) -> bool {
        self.environment matches Some(e) ==> e.wf()
    }
}

/// Loaded run facts plus independently classified storage integrity.
#[derive(Debug)]
pub struct Run {
    /// Persisted run metadata.
    pub metadata: Metadata,
    /// Persisted normalized observations.
    pub events: Vec<Event>,
    /// Verification result computed while loading the record.
    pub storage_integrity: StorageIntegrity,
}

/// The printable ASCII bytes other than the backslash.
pub open spec fn plain_byte(b: u8) -> bool {
    ' ' as u8 <= b <= '~' as u8 && b != '\\' as u8
}

/// How one byte is spelled: itself, or `\x` and two lowercase hexadecimal digits.
pub open spec fn escaped_byte(b: u8) -> Seq<char> {
    if plain_byte(b) {
        seq![b as char]
    } else {
        seq!['\\', 'x', numbers::hex_digit(b as int / 16), numbers::hex_digit(b as int % 16)]
    }
}

/// The spelling of the first `n` bytes.
pub open spec fn escaped_upto(v: Seq<u8>, n: int) -> Seq<char>
    decreases n,
{
    if n <= 0 {
        Seq::empty()
    } else {
        escaped_upto(v, n - 1) + escaped_byte(v[n - 1])
    }
}

/// The reversible ASCII spelling of arbitrary bytes.
pub open spec fn escaped(v: Seq<u8>) -> Seq<char> {
    escaped_upto(v, v.len() as int)
}

/// Encode arbitrary Unix bytes as a reversible ASCII spelling.
pub fn bytes(v: &[u8]) -> (r: String)
    ensures
        r@ == escaped(v@),
{
    let mut s: String = String::new();
    for i in 0..v.len()
        invariant
            s@ == escaped_upto(v@, i as int),
    {
        let b: u8 = v[i];
        let ghost before = s@;
        if 32 <= b && b <= 126 && b != 92 {
            s.push(b as char);
        } else {
            s.push('\\');
            s.push('x');
            s.push(numbers::hex_char(b / 16));
            s.push(numbers::hex_char(b % 16));
        }
        assert(s@ =~= before + escaped_byte(b));
    }
    s
}

/// The bytes that a spelling stands for.
pub open spec fn unescaped(s: Seq<char>) -> Seq<u8>
    decreases s.len(),
{
    if s.len() == 0 {
        Seq::empty()
    } else if s[0] == '\\' && s.len() >= 4 {
        seq![
            (numbers::digit_value(s[2], 16)->0 * 16 + numbers::digit_value(s[3], 16)->0) as u8,
        ] + unescaped(s.subrange(4, s.len() as int))
    } else {
        seq![s[0] as u8] + unescaped(s.subrange(1, s.len() as int))
    }
}

/// The spelling of bytes begins with that of the first byte.
proof fn escaped_first(v: Seq<u8>, n: int)
    requires
        0 < n <= v.len(),
    ensures
        escaped_upto(v, n) == escaped_byte(v[0]) + escaped_upto(v.drop_first(), n - 1),
    decreases n,
{
    reveal_with_fuel(escaped_upto, 2);
    if n > 1 {
        escaped_first(v, n - 1);
        assert(v.drop_first()[n - 2] == v[n - 1]);
        assert(escaped_upto(v, n) =~= escaped_byte(v[0]) + escaped_upto(v.drop_first(), n - 1));
    } else {
        assert(escaped_upto(v, n) =~= escaped_byte(v[0]) + escaped_upto(v.drop_first(), n - 1));
    }
}

/// The spelling of bytes stands for them, so that no two byte sequences have the same
/// spelling.
pub proof fn spelling_is_reversible(v: Seq<u8>)
    ensures
        unescaped(escaped(v)) == v,
    decreases v.len(),
{
    if v.len() == 0 {
        assert(unescaped(escaped(v)) =~= v);
    } else {
        let s = escaped(v);
        let first = escaped_byte(v[0]);
        let rest = escaped(v.drop_first());
        escaped_first(v, v.len() as int);
        spelling_is_reversible(v.drop_first());
        assert(s == first + rest);
        let b = v[0] as int;
        if plain_byte(v[0]) {
            assert(s[0] == v[0] as char);
            assert(s.subrange(1, s.len() as int) =~= rest);
            assert((v[0] as char) as u8 == v[0]);
        } else {
            assert(s[0] == '\\' && s[2] == numbers::hex_digit(b / 16) && s[3]
                == numbers::hex_digit(b % 16));
            assert(s.subrange(4, s.len() as int) =~= rest);
            assert(numbers::digit_value(numbers::hex_digit(b / 16), 16) == Some(b / 16));
            assert(numbers::digit_value(numbers::hex_digit(b % 16), 16) == Some(b % 16));
            assert(b / 16 * 16 + b % 16 == b);
        }
        assert(unescaped(s) =~= v);
    }
}

/// Storage verification fact kept separate from capture completeness.
#[derive(Debug, Clone)]
pub struct StorageIntegrity {
    /// Stable integrity classification such as `verified` or `corrupt`.
    pub status: String,
    /// Human-readable supporting detail without comparison conclusions.
    pub detail: String,
}

/// Stable, presentation-neutral classification for a failed storage load.
#[derive(Debug, Clone, Copy, PartialEq, Eq, Structural)]
pub enum StorageLoadFailureKind {
    /// Supported storage bytes or facts contradict their contract.
    Corrupt,
    /// A valid header names a schema that cannot be interpreted.
    Unsupported,
    /// Storage or another required resource could not be safely accessed.
    Unavailable,
    /// A storage operation could not proceed because its lock was held.
    Busy,
}

/// Neutral load failure passed from persistence to a consuming use case.
#[derive(Debug, Clone, PartialEq, Eq)]
pub struct StorageLoadFailure {
    /// Machine-stable failure class, independent of concrete filesystem errors.
    pub kind: StorageLoadFailureKind,
    /// Diagnostic text, including retained persistence context.
    pub message: String,
}

/// Result of loading a value without exposing a concrete storage error type.
#[derive(Debug)]
pub enum LoadOutcome<T> {
    /// The value was loaded and validated.
    Loaded(T),
    /// Loading failed with a neutral classification and diagnostic.
    Failed(StorageLoadFailure),
}

/// Presentation-neutral facts for one row in the record index.
///
/// A readable row retains its complete metadata, while a damaged row exposes
/// only safe index hints and the isolated storage error.
#[derive(Debug, Clone)]
pub enum RecordSummary {
    /// A record whose metadata and finalized structured evidence were readable.
    Readable {
        /// Persisted metadata.
        metadata: Box<Metadata>,
        /// Stable display spelling relative to the storage root.
        directory: String,
        /// Verification result for the structured record.
        storage_integrity: StorageIntegrity,
    },
    /// A damaged or unsupported record that could not be loaded.
    Unreadable {
        /// Safe directory-derived ID hint, when the leaf is recognizable.
        id: Option<String>,
        /// Valid label hint decoded from metadata without trusting the record.
        name: Option<String>,
        /// Escaped display spelling relative to the storage root.
        directory: String,
        /// Isolated corruption, compatibility, or availability classification.
        storage_integrity: StorageIntegrity,
    },
}

} // verus!
