//! The contract that stored facts have to meet.
use vstd::prelude::*;
use vstd::string::*;

use crate::capture::completion;
use crate::capture::facts;
use crate::capture::record;
use crate::capture::record::{Captured, Concluded, RecordRequest, SessionView};
use crate::capture::signals::SignalRange;
use crate::model::{
    CaptureCompleteness, CaptureState, Environment, Event, EventView, Metadata, StorageIntegrity,
};
use crate::numbers;
use crate::parse::certainty;
use crate::parse::laws;
use crate::parse::trace;
use crate::store::error::{corrupt, unsupported, ErrorView, StorageError};
use crate::text;
use crate::views;

verus! {

broadcast use crate::views::group_views;

/// Whether a character is a hexadecimal digit.
pub open spec fn ascii_hex_digit(c: char) -> bool {
    text::ascii_digit(c) || 'a' <= c <= 'f' || 'A' <= c <= 'F'
}

/// Whether a text is an identifier that storage generates: a time in hexadecimal, a
/// hyphen, and a process identifier.
pub open spec fn generated_id(id: Seq<char>) -> bool {
    match text::split_char(id, '-') {
        None => false,
        Some((time, pid)) => {
            &&& time.len() > 0
            &&& forall|i: int| 0 <= i < time.len() ==> ascii_hex_digit(#[trigger] time[i])
            &&& numbers::bounded_value(time, 16, u128::MAX as int) is Some
            &&& pid.len() > 0
            &&& text::all_digits(pid)
            &&& (numbers::bounded_value(pid, 10, u32::MAX as int) matches Some(p) && p > 0)
        },
    }
}

/// Says whether every character of a text is a hexadecimal digit.
fn all_hex(s: &str) -> (r: bool)
    ensures
        r == (forall|i: int| 0 <= i < s@.len() ==> ascii_hex_digit(#[trigger] s@[i])),
{
    for c in it: s.chars()
        invariant
            it.seq() == s@,
            forall|i: int| 0 <= i < it.index() ==> ascii_hex_digit(#[trigger] s@[i]),
    {
        if !(('0' <= c && c <= '9') || ('a' <= c && c <= 'f') || ('A' <= c && c <= 'F')) {
            assert(!ascii_hex_digit(s@[it.index() as int]));
            return false;
        }
    }
    true
}

/// Says whether a text is an identifier that storage generates.
pub fn valid_id(id: &str) -> (r: bool)
    ensures
        r == generated_id(id@),
{
    match text::split_once_char(id, '-') {
        None => false,
        Some((time, pid)) => {
            if time.unicode_len() == 0 || !all_hex(time) || pid.unicode_len() == 0
                || !text::is_all_digits(pid) {
                return false;
            }
            if numbers::unsigned_number(time, 16, 0xffff_ffff_ffff_ffff_ffff_ffff_ffff_ffff).is_none() {
                return false;
            }
            match numbers::unsigned_number(pid, 10, 0xffff_ffff) {
                Some(p) => p > 0,
                None => false,
            }
        },
    }
}

/// The identifier of a record that is begun at a time by a process.
pub open spec fn new_id(nanos: nat, pid: nat) -> Seq<char> {
    numbers::hexadecimal(nanos) + "-"@ + numbers::decimal(pid)
}

/// Gives the identifier of a record that is begun at a time by a process.
pub fn new_record_id(nanos: u128, pid: u32) -> (r: String)
    ensures
        r@ == new_id(nanos as nat, pid as nat),
{
    let mut s: String = numbers::hexadecimal_string(nanos);
    s.append("-");
    s.append(numbers::decimal_string(pid as u128).as_str());
    s
}

/// Every identifier that is given to a record is recognized as one.
pub proof fn new_ids_are_recognized(nanos: u128, pid: u32)
    requires
        pid > 0,
    ensures
        generated_id(new_id(nanos as nat, pid as nat)),
{
    let time = numbers::hexadecimal(nanos as nat);
    let process = numbers::decimal(pid as nat);
    let id = new_id(nanos as nat, pid as nat);
    numbers::hexadecimal_reads_back(nanos as nat);
    numbers::decimal_reads_back(pid as nat);
    reveal_strlit("-");
    let at = text::first_at(id, text::just('-'), 0);
    text::first_at_least(id, text::just('-'), 0);
    assert forall|i: int| 0 <= i < time.len() implies id[i] != '-' by {
        assert(id[i] == time[i]);
    }
    assert(id[time.len() as int] == '-');
    first_hyphen(id, 0, time.len() as int);
    assert(id.subrange(0, time.len() as int) =~= time);
    assert(id.subrange(time.len() as int + 1, id.len() as int) =~= process);
    assert forall|i: int| 0 <= i < time.len() implies ascii_hex_digit(#[trigger] time[i]) by {
    }
}

/// The first hyphen is where one stands and none stands before it.
proof fn first_hyphen(s: Seq<char>, i: int, at: int)
    requires
        0 <= i <= at < s.len(),
        s[at] == '-',
        forall|j: int| i <= j < at ==> s[j] != '-',
    ensures
        text::first_at(s, text::just('-'), i) == at,
    decreases at - i,
{
    if i < at {
        first_hyphen(s, i + 1, at);
    }
}

/// Checks the name of a record.
pub fn validate_record_name(name: &str) -> (r: Result<(), String>)
    ensures
        match r {
            Ok(_) => record::record_name(name@),
            Err(message) => !record::record_name(name@) && message@
                == "name must be nonempty without control characters"@,
        },
{
    if name.unicode_len() == 0 || text::contains_control(name) {
        return Err("name must be nonempty without control characters".to_owned());
    }
    Ok(())
}

/// What an entry reserves: its identifier and its label, which is empty where it is
/// not known.
#[derive(Debug, PartialEq, Eq)]
pub struct Identity {
    /// The identifier.
    pub id: String,
    /// The label.
    pub name: String,
}

/// Whether a text is the identifier or the label of an entry.
pub open spec fn reserved(identities: Seq<Identity>, key: Seq<char>) -> bool {
    exists|i: int|
        0 <= i < identities.len() && ((#[trigger] identities[i]).name@ == key || identities[i].id@
            == key)
}

/// Says whether a text is the identifier or the label of an entry.
pub fn is_reserved(identities: &Vec<Identity>, key: &str) -> (r: bool)
    ensures
        r == reserved(identities@, key@),
{
    for i in 0..identities.len()
        invariant
            forall|j: int|
                0 <= j < i ==> (#[trigger] identities@[j]).name@ != key@ && identities@[j].id@
                    != key@,
    {
        if text::same(identities[i].name.as_str(), key) || text::same(
            identities[i].id.as_str(),
            key,
        ) {
            assert(identities@[i as int].name@ == key@ || identities@[i as int].id@ == key@);
            return true;
        }
    }
    false
}

/// Refuses a name that an entry has as its label or identifier.
pub fn reject_name_collision(identities: &Vec<Identity>, name: &str) -> (r: Result<(), String>)
    ensures
        match r {
            Ok(_) => !reserved(identities@, name@),
            Err(message) => reserved(identities@, name@) && message@
                == "record name already exists: "@ + name@,
        },
{
    if is_reserved(identities, name) {
        let mut s: String = "record name already exists: ".to_owned();
        s.append(name);
        return Err(s);
    }
    Ok(())
}

/// Why a new record cannot be begun.
pub open spec fn begin_fault(name: Seq<char>, id: Seq<char>, identities: Seq<Identity>) -> Option<
    Seq<char>,
> {
    if reserved(identities, name) {
        Some("record name already exists: "@ + name)
    } else if reserved(identities, id) {
        Some("record ID already exists: "@ + id)
    } else {
        None
    }
}

/// Checks the name and the identifier of a new record before anything is read.
pub fn check_new_record(name: &str, id: &str) -> (r: Result<(), String>)
    ensures
        match r {
            Ok(_) => record::record_name(name@) && generated_id(id@),
            Err(message) => message@ == (if !record::record_name(name@) {
                "name must be nonempty without control characters"@
            } else {
                "generated record ID is not one safe path component"@
            }) && !(record::record_name(name@) && generated_id(id@)),
        },
{
    match validate_record_name(name) {
        Err(message) => Err(message),
        Ok(_) => if valid_id(id) {
            Ok(())
        } else {
            Err("generated record ID is not one safe path component".to_owned())
        },
    }
}

/// Checks that a new record collides with no entry in any direction.
pub fn reserve_record(name: &str, id: &str, identities: &Vec<Identity>) -> (r: Result<(), String>)
    ensures
        match r {
            Ok(_) => begin_fault(name@, id@, identities@) is None,
            Err(message) => begin_fault(name@, id@, identities@) == Some(message@),
        },
{
    match reject_name_collision(identities, name) {
        Err(message) => Err(message),
        Ok(_) => if is_reserved(identities, id) {
            let mut s: String = "record ID already exists: ".to_owned();
            s.append(id);
            Err(s)
        } else {
            Ok(())
        },
    }
}

/// A contradiction between stored facts.
#[derive(Debug, PartialEq, Eq)]
pub struct ContractViolation {
    /// The words for it.
    pub message: String,
}

impl View for ContractViolation {
    type V = Seq<char>;

    open spec fn view(&self) -> Seq<char> {
        self.message@
    }
}

/// Gives a contradiction between stored facts.
pub fn contract_violation(message: &str) -> (r: ContractViolation)
    ensures
        r@ == message@,
{
    ContractViolation { message: message.to_owned() }
}

/// The state of a capture, as it is stored.
#[derive(Debug, Clone, Copy, PartialEq, Eq, Structural)]
pub enum StoredState {
    /// The capture is running.
    Running,
    /// The capture was completed.
    Completed,
    /// The capture failed.
    CaptureFailed,
    /// The capture was interrupted.
    Interrupted,
}

impl StoredState {
    /// The state that a spelling stands for.
    pub open spec fn spelled(value: Seq<char>) -> Option<StoredState> {
        if value == "running"@ {
            Some(StoredState::Running)
        } else if value == "completed"@ {
            Some(StoredState::Completed)
        } else if value == "capture_failed"@ {
            Some(StoredState::CaptureFailed)
        } else if value == "interrupted"@ {
            Some(StoredState::Interrupted)
        } else {
            None
        }
    }

    /// Reads a spelling.
    pub fn parse(value: &str) -> (r: Result<StoredState, ContractViolation>)
        ensures
            match r {
                Ok(state) => StoredState::spelled(value@) == Some(state),
                Err(v) => StoredState::spelled(value@) is None && v@ == "unknown capture state"@,
            },
    {
        if text::same(value, "running") {
            Ok(StoredState::Running)
        } else if text::same(value, "completed") {
            Ok(StoredState::Completed)
        } else if text::same(value, "capture_failed") {
            Ok(StoredState::CaptureFailed)
        } else if text::same(value, "interrupted") {
            Ok(StoredState::Interrupted)
        } else {
            Err(contract_violation("unknown capture state"))
        }
    }
}

/// How complete the evidence of a capture is, as it is stored.
#[derive(Debug, Clone, Copy, PartialEq, Eq, Structural)]
pub enum StoredCompleteness {
    /// Not known yet.
    Pending,
    /// Complete for supported events.
    CompleteForSupportedEvents,
    /// Limited.
    Partial,
    /// Incomplete.
    Incomplete,
}

impl StoredCompleteness {
    /// The completeness that a spelling stands for.
    pub open spec fn spelled(value: Option<Seq<char>>) -> Option<StoredCompleteness> {
        if value == Some("pending"@) {
            Some(StoredCompleteness::Pending)
        } else if value == Some("complete_for_supported_events"@) {
            Some(StoredCompleteness::CompleteForSupportedEvents)
        } else if value == Some("partial"@) {
            Some(StoredCompleteness::Partial)
        } else if value == Some("incomplete"@) {
            Some(StoredCompleteness::Incomplete)
        } else {
            None
        }
    }

    /// What is wrong with a spelling that stands for nothing.
    pub open spec fn fault(value: Option<Seq<char>>) -> Seq<char> {
        if value is Some {
            "unknown capture completeness"@
        } else {
            "completeness is missing"@
        }
    }

    /// Reads a spelling.
    pub fn parse(value: Option<&str>) -> (r: Result<StoredCompleteness, ContractViolation>)
        ensures
            match r {
                Ok(c) => StoredCompleteness::spelled(views::opt(value)) == Some(c),
                Err(v) => StoredCompleteness::spelled(views::opt(value)) is None && v@
                    == StoredCompleteness::fault(views::opt(value)),
            },
    {
        match value {
            None => Err(contract_violation("completeness is missing")),
            Some(value) => if text::same(value, "pending") {
                Ok(StoredCompleteness::Pending)
            } else if text::same(value, "complete_for_supported_events") {
                Ok(StoredCompleteness::CompleteForSupportedEvents)
            } else if text::same(value, "partial") {
                Ok(StoredCompleteness::Partial)
            } else if text::same(value, "incomplete") {
                Ok(StoredCompleteness::Incomplete)
            } else {
                Err(contract_violation("unknown capture completeness"))
            },
        }
    }
}

/// Gives an optional text as a reference.
fn borrowed(value: &Option<String>) -> (r: Option<&str>)
    ensures
        views::opt(r) == views::opt(*value),
{
    match value {
        Some(s) => Some(s.as_str()),
        None => None,
    }
}

/// What is wrong with the stored state and completeness.
pub open spec fn spelling_fault(m: Metadata) -> Option<Seq<char>> {
    if StoredState::spelled(m.state@) is None {
        Some("unknown capture state"@)
    } else if StoredCompleteness::spelled(views::opt(m.completeness)) is None {
        Some(StoredCompleteness::fault(views::opt(m.completeness)))
    } else {
        None
    }
}

/// Reads the stored state and completeness.
pub fn stored_capture_facts(metadata: &Metadata) -> (r: Result<
    (StoredState, StoredCompleteness),
    ContractViolation,
>)
    ensures
        match r {
            Ok((state, completeness)) => StoredState::spelled(metadata.state@) == Some(state)
                && StoredCompleteness::spelled(views::opt(metadata.completeness)) == Some(
                completeness,
            ),
            Err(v) => spelling_fault(*metadata) == Some(v@),
        },
{
    match StoredState::parse(metadata.state.as_str()) {
        Err(v) => Err(v),
        Ok(state) => match StoredCompleteness::parse(borrowed(&metadata.completeness)) {
            Err(v) => Err(v),
            Ok(completeness) => Ok((state, completeness)),
        },
    }
}

/// Whether a running capture holds facts that only a finished one has.
pub open spec fn holds_final_facts(m: Metadata) -> bool {
    m.ended is Some || m.exit_code is Some || m.signal is Some || m.collector_exit_code is Some
        || m.collector_signal is Some || m.target_exit_raw is Some || m.warnings@.len() > 0
        || m.parsed_events != 0 || m.raw_lines != 0
}

/// What is wrong with the state of a capture, with its completeness and with the
/// facts that both call for.
pub open spec fn state_fault(m: Metadata, state: StoredState, completeness: StoredCompleteness) -> Option<
    Seq<char>,
> {
    match (state, completeness) {
        (StoredState::Running, StoredCompleteness::Pending) => if holds_final_facts(m) {
            Some("running metadata contains finalized capture facts"@)
        } else {
            None
        },
        (StoredState::Running, _) => Some("running metadata must be pending"@),
        (StoredState::Completed, StoredCompleteness::Pending) => Some(
            "completed metadata must be complete or partial"@,
        ),
        (StoredState::Completed, StoredCompleteness::Incomplete) => Some(
            "completed metadata must be complete or partial"@,
        ),
        (StoredState::Completed, _) => if m.ended is None {
            Some("completed metadata has no end time"@)
        } else if completeness is Partial && m.warnings@.len() == 0 {
            Some("partial metadata records no evidence limitation"@)
        } else if m.target_exit_raw is None {
            Some("completed metadata has no raw target outcome"@)
        } else if m.collector_exit_code is None && m.collector_signal is None {
            Some("completed metadata has no collector outcome"@)
        } else {
            None
        },
        (_, StoredCompleteness::Incomplete) => if m.ended is None {
            Some("final metadata has no end time"@)
        } else if state is CaptureFailed && m.warnings@.len() == 0 {
            Some("failed capture records no failure warning"@)
        } else {
            None
        },
        (_, _) => Some("failed or interrupted capture must be incomplete"@),
    }
}

/// Whether the collector ended in the way in which the target is said to have ended.
pub open spec fn confirmed(m: Metadata) -> bool {
    match (m.exit_code, m.signal) {
        (Some(code), None) => m.collector_exit_code == Some(code) && m.collector_signal is None,
        (None, Some(signal)) => m.collector_signal == Some(signal) && m.collector_exit_code is None,
        _ => false,
    }
}

/// What is wrong with how the outcome of the target is established.
pub open spec fn outcome_fault(m: Metadata, completeness: StoredCompleteness) -> Option<Seq<char>> {
    if completeness is CompleteForSupportedEvents && m.warnings@.len() > 0 {
        Some("complete metadata cannot contain capture limitations"@)
    } else if (m.exit_code is Some || m.signal is Some) && m.target_exit_raw is None {
        Some("structured target outcome has no raw target outcome"@)
    } else if completeness is CompleteForSupportedEvents && !confirmed(m) {
        Some("complete metadata lacks a confirmed target outcome"@)
    } else {
        None
    }
}

/// Whether a key of the selected environment cannot name a variable.
pub open spec fn bad_environment(e: Environment) -> bool {
    exists|i: int| 0 <= i < e.keys().len() && !record::environment_name(#[trigger] e.keys()[i])
}

/// What is wrong with the fields of current metadata that describe the request.
pub open spec fn request_fault(m: Metadata) -> Option<Seq<char>> {
    if !generated_id(m.id@) {
        Some("ID is not one safe generated component"@)
    } else if !record::record_name(m.name@) {
        Some("name must be nonempty without control characters"@)
    } else if m.command@.len() == 0 {
        Some("command must contain an executable"@)
    } else if m.tool_version@.len() == 0 || m.cwd@.len() == 0 || m.backend@.len() == 0 {
        Some("tool version, cwd and backend must be nonempty"@)
    } else {
        match m.environment {
            None => Some("environment is missing"@),
            Some(e) => if bad_environment(e) {
                Some("environment keys must be nonempty without '=' or control characters"@)
            } else {
                None
            },
        }
    }
}

/// What is wrong with metadata. Older schemas are held only to what no schema may
/// contradict.
pub open spec fn metadata_fault(m: Metadata) -> Option<Seq<char>> {
    if m.exit_code is Some && m.signal is Some {
        Some("target exit code and signal are mutually exclusive"@)
    } else if m.collector_exit_code is Some && m.collector_signal is Some {
        Some("collector exit code and signal are mutually exclusive"@)
    } else if m.schema_version != 3 {
        None
    } else if request_fault(m) is Some {
        request_fault(m)
    } else if spelling_fault(m) is Some {
        spelling_fault(m)
    } else {
        let state = StoredState::spelled(m.state@)->0;
        let completeness = StoredCompleteness::spelled(views::opt(m.completeness))->0;
        match state_fault(m, state, completeness) {
            Some(fault) => Some(fault),
            None => outcome_fault(m, completeness),
        }
    }
}

/// Says whether a key of the selected environment cannot name a variable.
fn has_bad_key(e: &Environment) -> (r: bool)
    requires
        e.wf(),
    ensures
        r == bad_environment(*e),
{
    let n: usize = e.len();
    for i in 0..n
        invariant
            e.wf(),
            n == e.keys().len(),
            forall|j: int| 0 <= j < i ==> record::environment_name(#[trigger] e.keys()[j]),
    {
        proof {
            e.entry_at(i as int);
        }
        let key: &str = e.key_at(i).as_str();
        assert(e.keys()[i as int] == key@);
        if key.unicode_len() == 0 || text::contains_char(key, '=') || text::contains_control(key) {
            return true;
        }
    }
    false
}

/// Checks the fields of current metadata that describe the request.
fn check_request(m: &Metadata) -> (r: Result<(), ContractViolation>)
    requires
        m.wf(),
    ensures
        match r {
            Ok(_) => request_fault(*m) is None,
            Err(v) => request_fault(*m) == Some(v@),
        },
{
    if !valid_id(m.id.as_str()) {
        return Err(contract_violation("ID is not one safe generated component"));
    }
    if validate_record_name(m.name.as_str()).is_err() {
        return Err(contract_violation("name must be nonempty without control characters"));
    }
    if m.command.len() == 0 {
        return Err(contract_violation("command must contain an executable"));
    }
    if m.tool_version.as_str().unicode_len() == 0 || m.cwd.as_str().unicode_len() == 0
        || m.backend.as_str().unicode_len() == 0 {
        return Err(contract_violation("tool version, cwd and backend must be nonempty"));
    }
    match &m.environment {
        None => Err(contract_violation("environment is missing")),
        Some(e) => if has_bad_key(e) {
            Err(
                contract_violation(
                    "environment keys must be nonempty without '=' or control characters",
                ),
            )
        } else {
            Ok(())
        },
    }
}

/// Checks the facts that a state and a completeness call for.
fn check_state(m: &Metadata, state: StoredState, completeness: StoredCompleteness) -> (r: Result<
    (),
    ContractViolation,
>)
    ensures
        match r {
            Ok(_) => state_fault(*m, state, completeness) is None,
            Err(v) => state_fault(*m, state, completeness) == Some(v@),
        },
{
    match (state, completeness) {
        (StoredState::Running, StoredCompleteness::Pending) => {
            if m.ended.is_some() || m.exit_code.is_some() || m.signal.is_some()
                || m.collector_exit_code.is_some() || m.collector_signal.is_some()
                || m.target_exit_raw.is_some() || m.warnings.len() > 0 || m.parsed_events != 0
                || m.raw_lines != 0 {
                return Err(contract_violation("running metadata contains finalized capture facts"));
            }
            Ok(())
        },
        (StoredState::Running, _) => Err(contract_violation("running metadata must be pending")),
        (StoredState::Completed, StoredCompleteness::Pending) => Err(
            contract_violation("completed metadata must be complete or partial"),
        ),
        (StoredState::Completed, StoredCompleteness::Incomplete) => Err(
            contract_violation("completed metadata must be complete or partial"),
        ),
        (StoredState::Completed, _) => {
            if m.ended.is_none() {
                return Err(contract_violation("completed metadata has no end time"));
            }
            if completeness == StoredCompleteness::Partial && m.warnings.len() == 0 {
                return Err(contract_violation("partial metadata records no evidence limitation"));
            }
            if m.target_exit_raw.is_none() {
                return Err(contract_violation("completed metadata has no raw target outcome"));
            }
            if m.collector_exit_code.is_none() && m.collector_signal.is_none() {
                return Err(contract_violation("completed metadata has no collector outcome"));
            }
            Ok(())
        },
        (_, StoredCompleteness::Incomplete) => {
            if m.ended.is_none() {
                return Err(contract_violation("final metadata has no end time"));
            }
            if state == StoredState::CaptureFailed && m.warnings.len() == 0 {
                return Err(contract_violation("failed capture records no failure warning"));
            }
            Ok(())
        },
        (_, _) => Err(contract_violation("failed or interrupted capture must be incomplete")),
    }
}

/// Checks how the outcome of the target is established.
fn check_outcome(m: &Metadata, completeness: StoredCompleteness) -> (r: Result<
    (),
    ContractViolation,
>)
    ensures
        match r {
            Ok(_) => outcome_fault(*m, completeness) is None,
            Err(v) => outcome_fault(*m, completeness) == Some(v@),
        },
{
    if completeness == StoredCompleteness::CompleteForSupportedEvents && m.warnings.len() > 0 {
        return Err(contract_violation("complete metadata cannot contain capture limitations"));
    }
    if (m.exit_code.is_some() || m.signal.is_some()) && m.target_exit_raw.is_none() {
        return Err(contract_violation("structured target outcome has no raw target outcome"));
    }
    if completeness == StoredCompleteness::CompleteForSupportedEvents {
        let matches: bool = match (m.exit_code, m.signal) {
            (Some(code), None) => m.collector_exit_code == Some(code) && m.collector_signal.is_none(),
            (None, Some(signal)) => m.collector_signal == Some(signal)
                && m.collector_exit_code.is_none(),
            _ => false,
        };
        if !matches {
            return Err(contract_violation("complete metadata lacks a confirmed target outcome"));
        }
    }
    Ok(())
}

/// Checks facts written by the current metadata schema without applying current
/// semantics retroactively to legacy free-form records.
pub fn validate_metadata_contract(metadata: &Metadata) -> (r: Result<(), ContractViolation>)
    requires
        metadata.wf(),
    ensures
        match r {
            Ok(_) => metadata_fault(*metadata) is None,
            Err(v) => metadata_fault(*metadata) == Some(v@),
        },
{
    if metadata.exit_code.is_some() && metadata.signal.is_some() {
        return Err(contract_violation("target exit code and signal are mutually exclusive"));
    }
    if metadata.collector_exit_code.is_some() && metadata.collector_signal.is_some() {
        return Err(contract_violation("collector exit code and signal are mutually exclusive"));
    }
    if metadata.schema_version != 3 {
        return Ok(());
    }
    match check_request(metadata) {
        Err(v) => {
            return Err(v);
        },
        Ok(_) => {},
    }
    match stored_capture_facts(metadata) {
        Err(v) => Err(v),
        Ok((state, completeness)) => match check_state(metadata, state, completeness) {
            Err(v) => Err(v),
            Ok(_) => check_outcome(metadata, completeness),
        },
    }
}

/// What the events of a record amount to.
#[derive(Debug, Clone, Copy, PartialEq, Eq, Structural)]
pub struct EventFacts {
    /// How many there are.
    pub count: usize,
    /// The first schema version that cannot be read.
    pub first_unsupported_schema: Option<u32>,
    /// Whether one has another schema version than the current one.
    pub has_non_v2: bool,
    /// Whether the evidence of one is no range of lines.
    pub invalid_evidence_order: bool,
    /// The last line that the evidence of one refers to.
    pub max_end_line: usize,
    /// Whether the context of one is uncertain.
    pub context_uncertain: bool,
}

impl EventFacts {
    /// What no events amount to.
    pub open spec fn none() -> EventFacts {
        EventFacts {
            count: 0,
            first_unsupported_schema: None,
            has_non_v2: false,
            invalid_evidence_order: false,
            max_end_line: 0,
            context_uncertain: false,
        }
    }

    /// What the events amount to with one more.
    pub open spec fn with(self, event: EventView) -> EventFacts {
        EventFacts {
            count: (self.count + 1) as usize,
            first_unsupported_schema: if self.first_unsupported_schema is None
                && event.schema_version != 1 && event.schema_version != 2 {
                Some(event.schema_version)
            } else {
                self.first_unsupported_schema
            },
            has_non_v2: self.has_non_v2 || event.schema_version != 2,
            invalid_evidence_order: self.invalid_evidence_order || event.evidence.line == 0
                || event.evidence.line > event.evidence.end_line,
            max_end_line: if event.evidence.end_line > self.max_end_line {
                event.evidence.end_line
            } else {
                self.max_end_line
            },
            context_uncertain: self.context_uncertain || event.context_uncertain,
        }
    }

    /// What the first `n` events amount to.
    pub open spec fn upto(events: Seq<EventView>, n: int) -> EventFacts
        decreases n,
    {
        if n <= 0 {
            EventFacts::none()
        } else {
            EventFacts::upto(events, n - 1).with(events[n - 1])
        }
    }

    /// What a list of events amounts to.
    pub open spec fn of(events: Seq<EventView>) -> EventFacts {
        EventFacts::upto(events, events.len() as int)
    }

    /// Notes one more event.
    pub fn observe(&mut self, event: &Event)
        requires
            old(self).count < usize::MAX,
        ensures
            *final(self) == old(self).with(event@),
    {
        self.count = self.count + 1;
        if event.schema_version != 1 && event.schema_version != 2
            && self.first_unsupported_schema.is_none() {
            self.first_unsupported_schema = Some(event.schema_version);
        }
        self.has_non_v2 = self.has_non_v2 || event.schema_version != 2;
        self.invalid_evidence_order = self.invalid_evidence_order || event.evidence.line == 0
            || event.evidence.line > event.evidence.end_line;
        if event.evidence.end_line > self.max_end_line {
            self.max_end_line = event.evidence.end_line;
        }
        self.context_uncertain = self.context_uncertain || event.context_uncertain;
    }

    /// Gives what a list of events amounts to.
    pub fn from_events(events: &[Event]) -> (r: EventFacts)
        ensures
            r == EventFacts::of(views::each(events@)),
            r.count == events@.len(),
    {
        let mut facts: EventFacts = EventFacts::default();
        for i in 0..events.len()
            invariant
                facts == EventFacts::upto(views::each(events@), i as int),
                facts.count == i,
        {
            assert(views::each(events@)[i as int] == events@[i as int]@);
            facts.observe(&events[i]);
        }
        facts
    }
}

impl Default for EventFacts {
    fn default() -> (r: EventFacts)
        ensures
            r == EventFacts::none(),
    {
        EventFacts {
            count: 0,
            first_unsupported_schema: None,
            has_non_v2: false,
            invalid_evidence_order: false,
            max_end_line: 0,
            context_uncertain: false,
        }
    }
}

/// What is wrong with metadata and events together.
pub open spec fn run_fault(m: Metadata, events: EventFacts, finalized: bool) -> Option<Seq<char>> {
    if metadata_fault(m) is Some {
        metadata_fault(m)
    } else if m.schema_version == 3 && finalized && m.state@ == "running"@ {
        Some("finalization marker contradicts running metadata"@)
    } else if m.schema_version == 3 && events.has_non_v2 {
        Some("current metadata schema requires only event schema 2"@)
    } else if m.parsed_events != events.count {
        Some("metadata parsed event count does not match events"@)
    } else if events.invalid_evidence_order || events.max_end_line > m.raw_lines {
        Some("event evidence lines fall outside the recorded raw trace"@)
    } else if m.schema_version == 3 && views::opt(m.completeness) == Some(
        "complete_for_supported_events"@,
    ) && events.context_uncertain {
        Some("complete metadata contains context-uncertain evidence"@)
    } else {
        None
    }
}

/// Checks facts that require both current metadata and normalized events.
pub fn validate_run_contract_facts(metadata: &Metadata, events: &EventFacts, finalized: bool) -> (r:
    Result<(), ContractViolation>)
    requires
        metadata.wf(),
    ensures
        match r {
            Ok(_) => run_fault(*metadata, *events, finalized) is None,
            Err(v) => run_fault(*metadata, *events, finalized) == Some(v@),
        },
{
    match validate_metadata_contract(metadata) {
        Err(v) => {
            return Err(v);
        },
        Ok(_) => {},
    }
    if metadata.schema_version == 3 && finalized && text::same(metadata.state.as_str(), "running") {
        return Err(contract_violation("finalization marker contradicts running metadata"));
    }
    if metadata.schema_version == 3 && events.has_non_v2 {
        return Err(contract_violation("current metadata schema requires only event schema 2"));
    }
    if metadata.parsed_events != events.count {
        return Err(contract_violation("metadata parsed event count does not match events"));
    }
    if events.invalid_evidence_order || events.max_end_line > metadata.raw_lines {
        return Err(contract_violation("event evidence lines fall outside the recorded raw trace"));
    }
    if metadata.schema_version == 3 && text::is_text(
        &metadata.completeness,
        "complete_for_supported_events",
    ) && events.context_uncertain {
        return Err(contract_violation("complete metadata contains context-uncertain evidence"));
    }
    Ok(())
}

/// Checks metadata against the events of a record.
pub fn validate_run_contract(metadata: &Metadata, events: &[Event], finalized: bool) -> (r: Result<
    (),
    ContractViolation,
>)
    requires
        metadata.wf(),
    ensures
        match r {
            Ok(_) => run_fault(*metadata, EventFacts::of(views::each(events@)), finalized) is None,
            Err(v) => run_fault(*metadata, EventFacts::of(views::each(events@)), finalized) == Some(
                v@,
            ),
        },
{
    validate_run_contract_facts(metadata, &EventFacts::from_events(events), finalized)
}

/// The schema versions of the parts of a record.
#[derive(Debug, Clone, Copy, PartialEq, Eq, Structural)]
pub struct SchemaTuple {
    /// That of the metadata.
    pub metadata: u32,
    /// What the events amount to.
    pub events: EventFacts,
    /// That of the finalization marker.
    pub marker: Option<u32>,
}

impl SchemaTuple {
    /// Gives the schema versions of a finalized record.
    pub fn finalized(metadata: u32, events: EventFacts, marker: u32) -> (r: SchemaTuple)
        ensures
            r == (SchemaTuple { metadata, events, marker: Some(marker) }),
    {
        SchemaTuple { metadata, events, marker: Some(marker) }
    }

    /// What keeps a record with these versions from being read.
    pub open spec fn fault(self) -> Option<ErrorView> {
        if !(1 <= self.metadata <= 3) {
            Some(
                ErrorView::Unsupported(
                    "unsupported metadata schema "@ + numbers::decimal(self.metadata as nat),
                ),
            )
        } else if self.marker is Some && self.marker != Some(1u32) {
            Some(
                ErrorView::Unsupported(
                    "unsupported finalization marker schema "@ + numbers::decimal(
                        self.marker->0 as nat,
                    ),
                ),
            )
        } else if self.events.first_unsupported_schema is Some {
            Some(
                ErrorView::Unsupported(
                    "unsupported event schema "@ + numbers::decimal(
                        self.events.first_unsupported_schema->0 as nat,
                    ),
                ),
            )
        } else if self.metadata == 3 && self.events.has_non_v2 {
            Some(ErrorView::Corrupt("current metadata schema requires only event schema 2"@))
        } else {
            None
        }
    }
}

/// Gives the failure for a schema version that cannot be read.
pub fn unsupported_schema(words: &str, version: u32) -> (r: StorageError)
    ensures
        r@ == ErrorView::Unsupported(words@ + numbers::decimal(version as nat)),
{
    let mut s: String = words.to_owned();
    s.append(numbers::decimal_string(version as u128).as_str());
    unsupported(s)
}

/// Checks the schema versions of the parts of a record.
pub fn validate_schema_tuple(tuple: &SchemaTuple) -> (r: Result<(), StorageError>)
    ensures
        match r {
            Ok(_) => tuple.fault() is None,
            Err(e) => tuple.fault() == Some(e@),
        },
{
    if tuple.metadata < 1 || tuple.metadata > 3 {
        return Err(unsupported_schema("unsupported metadata schema ", tuple.metadata));
    }
    match tuple.marker {
        Some(marker) => {
            if marker != 1 {
                return Err(unsupported_schema("unsupported finalization marker schema ", marker));
            }
        },
        None => {},
    }
    match tuple.events.first_unsupported_schema {
        Some(version) => {
            return Err(unsupported_schema("unsupported event schema ", version));
        },
        None => {},
    }
    if tuple.metadata == 3 && tuple.events.has_non_v2 {
        return Err(corrupt("current metadata schema requires only event schema 2".to_owned()));
    }
    Ok(())
}

/// The status of a finalized record whose checks passed.
pub open spec fn finalized_status(metadata_schema: u32) -> (Seq<char>, Seq<char>) {
    if metadata_schema == 3 {
        (
            "verified"@,
            "metadata and events match finalized byte counts, event count and SHA-256; raw logs are not checksummed"@,
        )
    } else {
        (
            "unverified"@,
            "storage integrity unverified: legacy metadata cannot be promoted by a finalization marker; marker byte checks passed"@,
        )
    }
}

/// Gives the integrity of a finalized record whose checks passed.
pub fn finalized_integrity_from_facts(metadata_schema: u32, events: EventFacts) -> (r: Result<
    StorageIntegrity,
    StorageError,
>)
    ensures
        ({
            let fault = (SchemaTuple {
                metadata: metadata_schema,
                events,
                marker: Some(1u32),
            }).fault();
            match r {
                Ok(integrity) => fault is None && (integrity.status@, integrity.detail@)
                    == finalized_status(metadata_schema),
                Err(e) => fault == Some(e@),
            }
        }),
{
    match validate_schema_tuple(&SchemaTuple::finalized(metadata_schema, events, 1)) {
        Err(e) => Err(e),
        Ok(_) => if metadata_schema == 3 {
            Ok(
                StorageIntegrity {
                    status: "verified".to_owned(),
                    detail: "metadata and events match finalized byte counts, event count and SHA-256; raw logs are not checksummed".to_owned(),
                },
            )
        } else {
            Ok(
                StorageIntegrity {
                    status: "unverified".to_owned(),
                    detail: "storage integrity unverified: legacy metadata cannot be promoted by a finalization marker; marker byte checks passed".to_owned(),
                },
            )
        },
    }
}

/// Gives the integrity of a finalized record with these events whose checks passed.
pub fn finalized_integrity(metadata_schema: u32, events: &[Event]) -> (r: Result<
    StorageIntegrity,
    StorageError,
>)
    ensures
        ({
            let fault = (SchemaTuple {
                metadata: metadata_schema,
                events: EventFacts::of(views::each(events@)),
                marker: Some(1u32),
            }).fault();
            match r {
                Ok(integrity) => fault is None && (integrity.status@, integrity.detail@)
                    == finalized_status(metadata_schema),
                Err(e) => fault == Some(e@),
            }
        }),
{
    finalized_integrity_from_facts(metadata_schema, EventFacts::from_events(events))
}

/// The metadata that a recording begins with meets the contract.
pub proof fn begun_metadata_meets_contract(request: RecordRequest, m: Metadata)
    requires
        request.begins(m),
        request_fault(m) is None,
    ensures
        metadata_fault(m) is None,
{
    reveal_strlit("running");
    reveal_strlit("pending");
    assert(StoredState::spelled(m.state@) == Some(StoredState::Running));
    assert(StoredCompleteness::spelled(views::opt(m.completeness)) == Some(
        StoredCompleteness::Pending,
    ));
}

/// The spellings that a capture is stored with are read back as what they stand for.
pub proof fn stored_spellings_read_back(state: CaptureState, completeness: CaptureCompleteness)
    ensures
        StoredState::spelled(state.spelling()) == Some(
            match state {
                CaptureState::Completed => StoredState::Completed,
                CaptureState::CaptureFailed => StoredState::CaptureFailed,
                CaptureState::Interrupted => StoredState::Interrupted,
            },
        ),
        StoredCompleteness::spelled(Some(completeness.spelling())) == Some(
            match completeness {
                CaptureCompleteness::CompleteForSupportedEvents =>
                    StoredCompleteness::CompleteForSupportedEvents,
                CaptureCompleteness::Partial => StoredCompleteness::Partial,
                CaptureCompleteness::Incomplete => StoredCompleteness::Incomplete,
            },
        ),
{
    reveal_strlit("running");
    reveal_strlit("completed");
    reveal_strlit("capture_failed");
    reveal_strlit("interrupted");
    reveal_strlit("pending");
    reveal_strlit("complete_for_supported_events");
    reveal_strlit("partial");
    reveal_strlit("incomplete");
    assert("running"@.len() == 7 && "completed"@.len() == 9 && "capture_failed"@.len() == 14
        && "interrupted"@.len() == 11);
    assert("pending"@.len() == 7 && "complete_for_supported_events"@.len() == 29
        && "incomplete"@.len() == 10);
    assert("pending"@[1] != "partial"@[1]);
    assert("partial"@.len() == 7);
}

/// The metadata that a recording is concluded with meets the contract. What the trace
/// says of the end of the root has to be an exit code, or to name a signal, known or
/// not: anything else is stored as a completed capture whose outcome nothing confirms.
#[verifier::spinoff_prover]
#[verifier::rlimit(40)]
pub proof fn concluded_metadata_meets_contract(
    begun: Metadata,
    captured: Captured,
    session: SessionView,
    r: Concluded,
    range: SignalRange,
)
    requires
        record::concludes(begun, captured, session, r, range),
        begun.schema_version == 3,
        request_fault(begun) is None,
        captured.facts(session).root_outcome matches Some(outcome) ==> text::matches_at(
            outcome,
            "+++ killed by "@,
            0,
        ) || !(facts::exit_of(outcome, range) is Unknown),
    ensures
        metadata_fault(r.metadata) is None,
{
    let f = captured.facts(session);
    let m = r.metadata;
    let state = StoredState::spelled(m.state@)->0;
    let completeness = StoredCompleteness::spelled(views::opt(m.completeness))->0;
    stored_spellings_read_back(r.state, r.completeness);
    assert(views::each(m.warnings@).len() == m.warnings@.len());
    assert(request_fault(m) is None);
    assert(spelling_fault(m) is None);
    assert(m.target_exit_raw is Some <==> f.root_outcome is Some);
    assert(state_fault(m, state, completeness) is None) by {
        if f.recorder is NoSignal && r.state is CaptureFailed {
            facts::unestablished_completion_fails(f, range);
        }
        if r.state is Completed {
            facts::completed_capture_keeps_target_status(f, range);
        }
    }
    assert(outcome_fault(m, completeness) is None) by {
        facts::complete_without_limitations(f, range);
        if r.completeness is CompleteForSupportedEvents && f.target(range)->0 is Unknown {
            facts::completed_capture_keeps_target_status(f, range);
            let warned = facts::only_if(true, "unrecognized target termination signal"@);
            assert(warned.len() == 1);
        }
    }
}

/// What events amount to that have the current schema version and refer to lines.
proof fn observed_facts(events: Seq<EventView>, lines: usize, n: int)
    requires
        0 <= n <= events.len(),
        events.len() <= usize::MAX,
        forall|i: int|
            0 <= i < events.len() ==> laws::observed_by(#[trigger] events[i], lines),
    ensures
        ({
            let facts = EventFacts::upto(events, n);
            &&& facts.count == n
            &&& facts.first_unsupported_schema is None
            &&& !facts.has_non_v2
            &&& !facts.invalid_evidence_order
            &&& facts.max_end_line <= lines
        }),
    decreases n,
{
    if n > 0 {
        observed_facts(events, lines, n - 1);
        assert(laws::observed_by(events[n - 1], lines));
    }
}

/// What a trace says of the end of a process is an exit code, or names a signal, known
/// or not.
pub proof fn process_statuses_are_understood(outcome: Seq<char>, range: SignalRange)
    requires
        trace::is_process_status(outcome),
    ensures
        text::matches_at(outcome, "+++ killed by "@, 0) || !(facts::exit_of(outcome, range)
            is Unknown),
{
    if !text::matches_at(outcome, "+++ killed by "@, 0) {
        let rest = text::after_prefix(outcome, "+++ exited with "@)->0;
        let code = text::before_suffix(rest, " +++"@)->0;
        numbers::unsigned_reads_as_signed(code, 255);
    }
}

/// A recording of any trace can be finalized: the metadata that it is concluded with and
/// its events meet every contract that storage checks. An event introduces at most two
/// tasks and two contexts, and all of them have to be numbered.
pub proof fn concluded_runs_meet_the_contract(
    initial_cwd: Seq<char>,
    lines: Seq<Seq<char>>,
    begun: Metadata,
    captured: Captured,
    session: SessionView,
    r: Concluded,
    range: SignalRange,
)
    requires
        lines.len() <= usize::MAX,
        completion::trace_start(initial_cwd).push_lines(lines).gives(captured.parsed),
        2 * captured.parsed.events@.len() <= usize::MAX,
        record::concludes(begun, captured, session, r, range),
        begun.schema_version == 3,
        request_fault(begun) is None,
    ensures
        metadata_fault(r.metadata) is None,
        run_fault(r.metadata, EventFacts::of(views::each(r.events@)), true) is None,
        forall|i: int| 0 <= i < r.events@.len() ==> (#[trigger] r.events@[i]).schema_version == 2,
{
    let view = completion::trace_start(initial_cwd).push_lines(lines);
    let parsed = captured.parsed;
    let f = captured.facts(session);
    let events = views::each(parsed.events@);
    laws::events_refer_to_seen_lines("raw/trace.log"@, Some(initial_cwd), lines);
    certainty::events_go_with_their_actions("raw/trace.log"@, Some(initial_cwd), lines);
    if f.root_outcome is Some {
        let at = completion::first_exec(events, parsed.timeline@.event_order, 0)->0;
        first_exec_bounds(events, parsed.timeline@.event_order, 0);
        let g = parsed.timeline@.event_generations[parsed.timeline@.event_order[at] as int];
        certainty::exits_are_process_statuses(view, parsed, g.0 as int);
        let e = parsed.timeline@.generations[g.0 as int].exit_event->0;
        assert(events[e as int] == parsed.events@[e as int]@);
        process_statuses_are_understood(f.root_outcome->0, range);
    }
    concluded_metadata_meets_contract(begun, captured, session, r, range);
    assert forall|i: int| 0 <= i < events.len() implies laws::observed_by(
        #[trigger] events[i],
        parsed.lines,
    ) by {
        laws::parsed_events_fit_the_trace(view, parsed, i);
    }
    observed_facts(events, parsed.lines, events.len() as int);
    if r.completeness is CompleteForSupportedEvents {
        assert(f.limitations(range).len() == 0);
        assert(f.warnings.len() == 0);
        assert forall|i: int| 0 <= i < events.len() implies !(
        #[trigger] events[i]).context_uncertain by {
            certainty::uncertainty_is_reported(view, parsed, i);
        }
        certain_facts(events, events.len() as int);
    }
    stored_spellings_read_back(r.state, r.completeness);
    reveal_strlit("running");
    reveal_strlit("completed");
    reveal_strlit("capture_failed");
    reveal_strlit("interrupted");
    assert("running"@.len() == 7 && "completed"@.len() == 9 && "capture_failed"@.len() == 14
        && "interrupted"@.len() == 11);
    assert forall|i: int| 0 <= i < r.events@.len() implies (
    #[trigger] r.events@[i]).schema_version == 2 by {
        assert(views::each(r.events@)[i] == r.events@[i]@);
        assert(laws::observed_by(events[i], parsed.lines));
    }
}

/// A successful exec that was found is one of the order.
proof fn first_exec_bounds(events: Seq<EventView>, order: Seq<usize>, i: int)
    ensures
        completion::first_exec(events, order, i) matches Some(at) ==> i <= at < order.len(),
    decreases order.len() - i,
{
    if 0 <= i < order.len() {
        first_exec_bounds(events, order, i + 1);
    }
}

/// Events with certain contexts amount to no uncertain context.
proof fn certain_facts(events: Seq<EventView>, n: int)
    requires
        0 <= n <= events.len(),
        forall|i: int|
            0 <= i < events.len() ==> !(#[trigger] events[i]).context_uncertain,
    ensures
        !EventFacts::upto(events, n).context_uncertain,
    decreases n,
{
    if n > 0 {
        certain_facts(events, n - 1);
    }
}

} // verus!
