//! The index of storage: entries, their labels, and the selection of records.
use vstd::prelude::*;
use vstd::string::*;
use vstd::utf8::*;

use crate::io::{IoError, IoKind};
use crate::model;
use crate::model::{
    bytes, LoadOutcome, RecordSummary, Run, StorageIntegrity, StorageLoadFailureKind,
};
use crate::order;
use crate::order::{place_text, Place, SortKey};
use crate::sorted_map::SortedMap;
use crate::store::checksum;
use crate::store::checksum::{invalid_data, same_file, FileIdentity};
use crate::store::contract;
use crate::store::contract::{valid_id, Identity};
use crate::store::error;
use crate::store::error::{
    neutral_load_failure, selection_error, unavailable, unavailable_io, unsafe_directory, Cause,
    CauseView, ErrorView, Failure, FailureView, StorageError,
};
use crate::store::read::LoadedRecord;
use crate::text;
use crate::views;

verus! {

broadcast use crate::views::group_views;

/// The display spelling of an entry.
pub open spec fn display_of(leaf: Seq<u8>) -> Seq<char> {
    "runs/"@ + model::escaped(leaf)
}

/// Spells an entry for display.
pub fn entry_display(leaf: &Vec<u8>) -> (r: String)
    ensures
        r@ == display_of(leaf@),
{
    let mut s: String = "runs/".to_owned();
    s.append(bytes(leaf.as_slice()).as_str());
    s
}

/// The place of an entry in the index: its display spelling, and its position in the
/// directory.
#[derive(Debug, PartialEq, Eq)]
pub struct EntryKey {
    /// The display spelling.
    pub directory: String,
    /// The position in the directory.
    pub position: usize,
}

impl View for EntryKey {
    type V = (Seq<char>, usize);

    open spec fn view(&self) -> (Seq<char>, usize) {
        (self.directory@, self.position)
    }
}

impl SortKey for EntryKey {
    open spec fn before(a: (Seq<char>, usize), b: (Seq<char>, usize)) -> bool {
        order::text_before(a.0, b.0) || (a.0 == b.0 && a.1 < b.1)
    }

    proof fn irreflexive(a: (Seq<char>, usize)) {
        order::text_irreflexive(a.0);
    }

    proof fn transitive(a: (Seq<char>, usize), b: (Seq<char>, usize), c: (Seq<char>, usize)) {
        if order::text_before(a.0, b.0) && order::text_before(b.0, c.0) {
            order::text_transitive(a.0, b.0, c.0);
        }
    }

    proof fn total(a: (Seq<char>, usize), b: (Seq<char>, usize)) {
        order::text_total(a.0, b.0);
    }

    fn place(&self, other: &Self) -> (r: Place) {
        match place_text(self.directory.as_str(), other.directory.as_str()) {
            Place::Before => Place::Before,
            Place::After => Place::After,
            Place::Same => if self.position < other.position {
                Place::Before
            } else if self.position > other.position {
                Place::After
            } else {
                Place::Same
            },
        }
    }

    fn copy(&self) -> (r: Self) {
        EntryKey { directory: self.directory.clone(), position: self.position }
    }
}

/// The keys of the first `n` entries of a directory.
pub open spec fn entry_keys(leaves: Seq<Vec<u8>>, n: int) -> Set<(Seq<char>, usize)> {
    Set::new(
        |k: (Seq<char>, usize)| k.1 < n && k.1 < leaves.len() && k.0 == display_of(leaves[k.1 as int]@),
    )
}

/// Whether an order visits the entry at a position of the directory.
pub open spec fn visits(order: Seq<EntryKey>, p: int) -> bool {
    exists|i: int| 0 <= i < order.len() && (#[trigger] order[i]).position == p
}

/// Lists the entries of a directory in the order in which they are visited.
pub fn scan_order(leaves: &Vec<Vec<u8>>) -> (r: Vec<EntryKey>)
    ensures
        views::each(r@) == order::listed::<EntryKey>(entry_keys(leaves@, leaves@.len() as int)),
        order::increasing::<EntryKey>(views::each(r@)),
        forall|i: int|
            0 <= i < r@.len() ==> (#[trigger] r@[i]).position < leaves@.len() && r@[i].directory@
                == display_of(leaves@[r@[i].position as int]@),
        forall|p: int| 0 <= p < leaves@.len() ==> #[trigger] visits(r@, p),
{
    let mut map: SortedMap<EntryKey, ()> = SortedMap::new();
    for n in 0..leaves.len()
        invariant
            map.wf(),
            forall|k: (Seq<char>, usize)| #[trigger]
                map.map().contains_key(k) <==> entry_keys(leaves@, n as int).contains(k),
    {
        let key: EntryKey = EntryKey { directory: entry_display(&leaves[n]), position: n };
        let ghost before = map.map();
        let ghost k = key@;
        map.insert(key, ());
        assert(map.map() == before.insert(k, ()));
    }
    let mut r: Vec<EntryKey> = Vec::new();
    let total: usize = map.len();
    for i in 0..total
        invariant
            map.wf(),
            total == map.keys().len(),
            views::each(r@) == map.keys().take(i as int),
    {
        proof {
            map.entry_at(i as int);
        }
        let key: EntryKey = map.key_at(i).copy();
        let ghost k = key@;
        r.push(key);
        assert(map.keys().take(i + 1) =~= map.keys().take(i as int).push(map.keys()[i as int]));
    }
    proof {
        let keys = entry_keys(leaves@, leaves@.len() as int);
        assert(map.keys().take(total as int) =~= map.keys());
        assert forall|k: (Seq<char>, usize)| #[trigger]
            views::each(r@).contains(k) <==> keys.contains(k) by {
            assert(map.map().contains_key(k) <==> map.keys().contains(k));
        }
        order::listed_unique::<EntryKey>(keys, views::each(r@));
        assert forall|i: int| 0 <= i < r@.len() implies (#[trigger] r@[i]).position < leaves@.len()
            && r@[i].directory@ == display_of(leaves@[r@[i].position as int]@) by {
            assert(views::each(r@)[i] == r@[i]@);
            assert(views::each(r@).contains(r@[i]@));
        }
        assert forall|p: int| 0 <= p < leaves@.len() implies #[trigger] visits(r@, p) by {
            let k = (display_of(leaves@[p]@), p as usize);
            assert(keys.contains(k));
            assert(views::each(r@).contains(k));
            let i = choose|i: int| 0 <= i < views::each(r@).len() && views::each(r@)[i] == k;
            assert(r@[i]@ == k);
            assert(r@[i].position == p);
        }
    }
    r
}

/// The identifier that the name of an entry is.
pub open spec fn recognized(leaf: Seq<u8>) -> Option<Seq<char>> {
    if valid_utf8(leaf) && contract::generated_id(decode_utf8(leaf)) {
        Some(decode_utf8(leaf))
    } else {
        None
    }
}

/// Gives the identifier of an entry that may be opened: a directory whose name is an
/// identifier.
pub fn safe_id(leaf: &Vec<u8>, is_directory: bool) -> (r: Option<String>)
    ensures
        views::opt(r) == (if is_directory {
            recognized(leaf@)
        } else {
            None
        }),
{
    if !is_directory {
        return None;
    }
    match text::utf8_string(leaf) {
        Ok(id) => if valid_id(id.as_str()) {
            Some(id)
        } else {
            None
        },
        Err(_) => None,
    }
}

/// What came of opening an entry.
#[derive(Debug, PartialEq, Eq)]
pub enum EntryOpen {
    /// It could not be opened.
    OpenFailed(IoError),
    /// It could not be inspected.
    InspectFailed(IoError),
    /// It is another directory than the one that was found.
    Changed,
    /// It was opened; its label, or why that could not be read.
    Opened(Result<Option<String>, StorageError>),
}

/// An entry of storage.
#[derive(Debug, PartialEq, Eq)]
pub struct Entry {
    /// The display spelling.
    pub directory: String,
    /// The identifier, where the entry is safe.
    pub id: Option<String>,
    /// The label, where it is known.
    pub name: Option<String>,
    /// Why the entry could not be opened.
    pub open_error: Option<StorageError>,
    /// Why the label could not be read.
    pub index_error: Option<StorageError>,
}

/// What an [`Entry`] holds.
pub struct EntryView {
    /// The display spelling.
    pub directory: Seq<char>,
    /// The identifier, where the entry is safe.
    pub id: Option<Seq<char>>,
    /// The label, where it is known.
    pub name: Option<Seq<char>>,
    /// Why the entry could not be opened.
    pub open_error: Option<ErrorView>,
    /// Why the label could not be read.
    pub index_error: Option<ErrorView>,
}

impl View for Entry {
    type V = EntryView;

    open spec fn view(&self) -> EntryView {
        EntryView {
            directory: self.directory@,
            id: views::opt(self.id),
            name: views::opt(self.name),
            open_error: views::opt(self.open_error),
            index_error: views::opt(self.index_error),
        }
    }
}

/// The entry with a display spelling, an identifier and what came of opening it.
pub open spec fn entry_of(directory: Seq<char>, id: Option<Seq<char>>, open: EntryOpen) -> EntryView {
    let unsafe_entry = EntryView {
        directory,
        id: None,
        name: None,
        open_error: Some(
            ErrorView::Unavailable("unsafe entry or unrecognizable run ID: "@ + directory, None),
        ),
        index_error: None,
    };
    match id {
        None => unsafe_entry,
        Some(id) => EntryView {
            directory,
            id: Some(id),
            name: match open {
                EntryOpen::Opened(Ok(name)) => views::opt(name),
                _ => None,
            },
            open_error: match open {
                EntryOpen::OpenFailed(e) => Some(
                    ErrorView::Unavailable("open record directory"@, Some(e@)),
                ),
                EntryOpen::InspectFailed(e) => Some(
                    ErrorView::Unavailable("inspect record directory"@, Some(e@)),
                ),
                EntryOpen::Changed => Some(
                    ErrorView::Unavailable(
                        "unsafe record directory changed while opening: "@ + directory,
                        None,
                    ),
                ),
                EntryOpen::Opened(_) => None,
            },
            index_error: match open {
                EntryOpen::Opened(Err(e)) => Some(e@),
                _ => None,
            },
        },
    }
}

/// Gives the text of some words and a display spelling.
fn about(words: &str, directory: &str) -> (r: String)
    ensures
        r@ == words@ + directory@,
{
    let mut s: String = words.to_owned();
    s.append(directory);
    s
}

/// Gives an entry. A label is only a hint: a label that cannot be decoded is no
/// failure of the entry.
pub fn scanned_entry(directory: String, id: Option<String>, open: EntryOpen) -> (r: Entry)
    ensures
        r@ == entry_of(directory@, views::opt(id), open),
{
    if id.is_none() {
        let error: StorageError = unavailable(
            about("unsafe entry or unrecognizable run ID: ", directory.as_str()),
        );
        return Entry {
            directory,
            id: None,
            name: None,
            open_error: Some(error),
            index_error: None,
        };
    }
    let mut name: Option<String> = None;
    let mut index_error: Option<StorageError> = None;
    let open_error: Option<StorageError> = match open {
        EntryOpen::OpenFailed(e) => Some(unavailable_io("open record directory".to_owned(), e)),
        EntryOpen::InspectFailed(e) => Some(
            unavailable_io("inspect record directory".to_owned(), e),
        ),
        EntryOpen::Changed => Some(
            unavailable(
                about("unsafe record directory changed while opening: ", directory.as_str()),
            ),
        ),
        EntryOpen::Opened(Ok(label)) => {
            name = label;
            None
        },
        EntryOpen::Opened(Err(e)) => {
            index_error = Some(e);
            None
        },
    };
    Entry { directory, id, name, open_error, index_error }
}

/// Whether a key names an entry by its identifier or its label.
pub open spec fn names(entry: EntryView, key: Seq<char>) -> bool {
    entry.id == Some(key) || entry.name == Some(key)
}

/// How many of the first `n` entries a key names.
pub open spec fn match_count(entries: Seq<EntryView>, key: Seq<char>, n: int) -> int
    decreases n,
{
    if n <= 0 {
        0
    } else {
        match_count(entries, key, n - 1) + (if names(entries[n - 1], key) {
            1int
        } else {
            0
        })
    }
}

/// A key that names no entry is counted nowhere, and one that names an entry is.
proof fn match_count_bounds(entries: Seq<EntryView>, key: Seq<char>, n: int)
    requires
        0 <= n <= entries.len(),
    ensures
        0 <= match_count(entries, key, n) <= n,
        match_count(entries, key, n) == 0 <==> forall|i: int|
            0 <= i < n ==> !names(#[trigger] entries[i], key),
    decreases n,
{
    if n > 0 {
        match_count_bounds(entries, key, n - 1);
        if match_count(entries, key, n - 1) == 0 && names(entries[n - 1], key) {
            assert(!(forall|i: int| 0 <= i < n ==> !names(#[trigger] entries[i], key)));
        }
    }
}

/// Says whether an optional text is a given one.
fn is_some_text(value: &Option<String>, key: &str) -> (r: bool)
    ensures
        r == (views::opt(*value) == Some(key@)),
{
    match value {
        Some(s) => text::same(s.as_str(), key),
        None => false,
    }
}

/// Says whether a key names an entry.
pub fn is_named(entry: &Entry, key: &str) -> (r: bool)
    ensures
        r == names(entry@, key@),
{
    is_some_text(&entry.id, key) || is_some_text(&entry.name, key)
}

/// Selects the one entry that a key names.
pub fn resolve(entries: &Vec<Entry>, key: &str) -> (r: Result<usize, StorageError>)
    ensures
        ({
            let list = views::each(entries@);
            let count = match_count(list, key@, list.len() as int);
            match r {
                Ok(i) => count == 1 && i < list.len() && names(list[i as int], key@),
                Err(e) => count != 1 && e@ == error::selection_failure(
                    text::debug_text(key@),
                    count as nat,
                ),
            }
        }),
{
    let ghost list = views::each(entries@);
    let mut count: usize = 0;
    let mut found: usize = 0;
    for i in 0..entries.len()
        invariant
            list == views::each(entries@),
            count == match_count(list, key@, i as int),
            count <= i,
            count > 0 ==> found < i && names(list[found as int], key@),
    {
        assert(list[i as int] == entries@[i as int]@);
        if is_named(&entries[i], key) {
            if count == 0 {
                found = i;
            }
            count = count + 1;
        }
    }
    if count != 1 {
        return Err(selection_error(key, count));
    }
    Ok(found)
}

/// Why a new label cannot be reserved because of an entry.
pub open spec fn reservation_fault(entry: EntryView) -> Option<FailureView> {
    let scanning = Some("scan "@ + entry.directory + ": cannot reserve a new label"@);
    match (entry.open_error, entry.index_error) {
        (Some(e), _) => Some(FailureView { context: scanning, cause: CauseView::Storage(e) }),
        (None, Some(e)) => Some(FailureView { context: scanning, cause: CauseView::Storage(e) }),
        (None, None) => if entry.id is None {
            Some(
                FailureView {
                    context: None,
                    cause: CauseView::Storage(
                        ErrorView::Unavailable(
                            "unsafe storage entry: "@ + entry.directory
                                + "; cannot reserve a new label"@,
                            None,
                        ),
                    ),
                },
            )
        } else {
            None
        },
    }
}

/// The position from `i` on of the first entry because of which a new label cannot be
/// reserved.
pub open spec fn first_obstacle(entries: Seq<EntryView>, i: int) -> int
    decreases entries.len() - i,
{
    if i < 0 || i >= entries.len() {
        entries.len() as int
    } else if reservation_fault(entries[i]) is Some {
        i
    } else {
        first_obstacle(entries, i + 1)
    }
}

/// Whether a reservation is that of an entry.
pub open spec fn reserves(identity: Identity, entry: EntryView) -> bool {
    Some(identity.id@) == entry.id && identity.name@ == (match entry.name {
        Some(name) => name,
        None => Seq::empty(),
    })
}

/// Gives what the entries of storage reserve; every entry has to be readable.
pub fn identities(entries: Vec<Entry>) -> (r: Result<Vec<Identity>, Failure>)
    ensures
        ({
            let list = views::each(entries@);
            let obstacle = first_obstacle(list, 0);
            match r {
                Ok(identities) => obstacle == list.len() && identities@.len() == list.len() && (
                forall|i: int| 0 <= i < list.len() ==> reserves(#[trigger] identities@[i], list[i])),
                Err(e) => obstacle < list.len() && Some(e@) == reservation_fault(
                    list[obstacle],
                ),
            }
        }),
{
    let ghost list = views::each(entries@);
    let mut r: Vec<Identity> = Vec::new();
    let n: usize = entries.len();
    for i in 0..n
        invariant
            n == entries@.len(),
            list == views::each(entries@),
            first_obstacle(list, 0) == first_obstacle(list, i as int),
            r@.len() == i,
            forall|j: int| 0 <= j < i ==> reserves(#[trigger] r@[j], list[j]),
    {
        let entry: &Entry = &entries[i];
        assert(list[i as int] == entry@);
        let error: Option<StorageError> = match &entry.open_error {
            Some(e) => Some(copy_error(e)),
            None => match &entry.index_error {
                Some(e) => Some(copy_error(e)),
                None => None,
            },
        };
        match error {
            Some(e) => {
                let mut words: String = about("scan ", entry.directory.as_str());
                words.append(": cannot reserve a new label");
                return Err(Failure { context: Some(words), cause: Cause::Storage(e) });
            },
            None => {},
        }
        match &entry.id {
            None => {
                let mut words: String = about("unsafe storage entry: ", entry.directory.as_str());
                words.append("; cannot reserve a new label");
                return Err(Failure::storage(unavailable(words)));
            },
            Some(id) => {
                let name: String = match &entry.name {
                    Some(name) => name.clone(),
                    None => String::new(),
                };
                r.push(Identity { id: id.clone(), name });
            },
        }
    }
    Ok(r)
}

/// Copies a storage failure.
fn copy_error(e: &StorageError) -> (r: StorageError)
    ensures
        r@ == e@,
{
    match e {
        StorageError::Corrupt(message) => StorageError::Corrupt(message.clone()),
        StorageError::Unsupported(message) => StorageError::Unsupported(message.clone()),
        StorageError::Unavailable { message, source } => {
            let source: Option<IoError> = match source {
                Some(s) => Some(
                    IoError { kind: s.kind, code: s.code, message: s.message.clone() },
                ),
                None => None,
            };
            StorageError::Unavailable { message: message.clone(), source }
        },
        StorageError::Busy(message) => StorageError::Busy(message.clone()),
    }
}

/// Why a selected entry cannot be read.
pub open spec fn selected_fault(entry: EntryView) -> Option<FailureView> {
    match entry.open_error {
        Some(e) => Some(
            FailureView { context: Some(entry.directory), cause: CauseView::Storage(e) },
        ),
        None => if entry.id is None {
            Some(
                FailureView {
                    context: None,
                    cause: CauseView::Storage(
                        ErrorView::Unavailable("unsafe record directory"@, None),
                    ),
                },
            )
        } else {
            None
        },
    }
}

/// Gives the identifier and the display spelling of a selected entry that can be read.
pub fn selected(entry: Entry) -> (r: Result<(String, String), Failure>)
    ensures
        match r {
            Ok((id, directory)) => selected_fault(entry@) is None && Some(id@) == entry@.id
                && directory@ == entry@.directory,
            Err(e) => selected_fault(entry@) == Some(e@),
        },
{
    let Entry { directory, id, name, open_error, index_error } = entry;
    match open_error {
        Some(e) => Err(Failure { context: Some(directory), cause: Cause::Storage(e) }),
        None => match id {
            None => Err(Failure::storage(unavailable("unsafe record directory".to_owned()))),
            Some(id) => Ok((id, directory)),
        },
    }
}

/// Why a selected entry cannot be deleted.
pub open spec fn deletion_fault(entry: EntryView) -> Option<ErrorView> {
    if entry.id is None {
        Some(ErrorView::Unavailable("unsafe record directory"@, None))
    } else if entry.open_error is Some {
        Some(ErrorView::Unavailable("unsafe record directory: "@ + entry.directory, None))
    } else {
        None
    }
}

/// Gives the identifier and the display spelling of a selected entry that can be
/// deleted: one that was opened.
pub fn deletable(entry: Entry) -> (r: Result<(String, String), StorageError>)
    ensures
        match r {
            Ok((id, directory)) => deletion_fault(entry@) is None && Some(id@) == entry@.id
                && directory@ == entry@.directory,
            Err(e) => deletion_fault(entry@) == Some(e@),
        },
{
    let Entry { directory, id, name, open_error, index_error } = entry;
    match id {
        None => Err(unavailable("unsafe record directory".to_owned())),
        Some(id) => if open_error.is_some() {
            Err(unavailable(about("unsafe record directory: ", directory.as_str())))
        } else {
            Ok((id, directory))
        },
    }
}

/// Puts the display spelling of a record before the failure to read it.
pub fn read_failure(directory: String, error: StorageError) -> (r: Failure)
    ensures
        r@ == (FailureView { context: Some(directory@), cause: CauseView::Storage(error@) }),
{
    Failure { context: Some(directory), cause: Cause::Storage(error) }
}

/// Gives what a consumer sees of loading a run.
pub fn load_outcome(loaded: Result<Run, Failure>) -> (r: LoadOutcome<Run>)
    ensures
        match (loaded, r) {
            (Ok(run), LoadOutcome::Loaded(x)) => x == run,
            (Err(e), LoadOutcome::Failed(failure)) => failure.kind == e@.kind() && failure.message@
                == e@.text(),
            _ => false,
        },
{
    match loaded {
        Ok(run) => LoadOutcome::Loaded(run),
        Err(error) => LoadOutcome::Failed(neutral_load_failure(&error)),
    }
}

/// The status of a record that could not be read.
pub open spec fn unreadable_status(kind: StorageLoadFailureKind) -> Seq<char> {
    match kind {
        StorageLoadFailureKind::Corrupt => "corrupt"@,
        StorageLoadFailureKind::Unsupported => "unsupported"@,
        StorageLoadFailureKind::Unavailable => "unavailable"@,
        StorageLoadFailureKind::Busy => "unavailable"@,
    }
}

/// Whether a row shows an entry and what came of reading it.
pub open spec fn shows(
    row: RecordSummary,
    entry: EntryView,
    loaded: Result<LoadedRecord, StorageError>,
) -> bool {
    let error = match entry.open_error {
        Some(e) => Some(e),
        None => if entry.id is None {
            Some(ErrorView::Unavailable("unsafe record directory"@, None))
        } else {
            match loaded {
                Ok(_) => None,
                Err(e) => Some(e@),
            }
        },
    };
    match error {
        None => {
            &&& row matches RecordSummary::Readable { metadata, directory, storage_integrity }
            &&& *metadata == (loaded->Ok_0).metadata
            &&& directory@ == entry.directory
            &&& storage_integrity == (loaded->Ok_0).storage_integrity
        },
        Some(e) => {
            &&& row matches RecordSummary::Unreadable { id, name, directory, storage_integrity }
            &&& views::opt(id) == entry.id
            &&& views::opt(name) == entry.name
            &&& directory@ == entry.directory
            &&& storage_integrity.status@ == unreadable_status(e.kind())
            &&& storage_integrity.detail@ == e.full_text()
        },
    }
}

/// Gives the row of an entry, isolating damage to it. What came of reading counts only
/// for an entry that was opened.
pub fn record_row(entry: Entry, loaded: Result<LoadedRecord, StorageError>) -> (r: RecordSummary)
    ensures
        shows(r, entry@, loaded),
{
    let Entry { directory, id, name, open_error, index_error } = entry;
    let error: StorageError = match open_error {
        Some(e) => e,
        None => if id.is_none() {
            unavailable("unsafe record directory".to_owned())
        } else {
            match loaded {
                Ok(record) => {
                    return RecordSummary::Readable {
                        metadata: Box::new(record.metadata),
                        directory,
                        storage_integrity: record.storage_integrity,
                    };
                },
                Err(e) => e,
            }
        },
    };
    let detail: String = error.full_message();
    let status: &str = match error {
        StorageError::Corrupt(_) => "corrupt",
        StorageError::Unsupported(_) => "unsupported",
        StorageError::Unavailable { message, source } => "unavailable",
        StorageError::Busy(_) => "unavailable",
    };
    RecordSummary::Unreadable {
        id,
        name,
        directory,
        storage_integrity: StorageIntegrity { status: status.to_owned(), detail },
    }
}

/// What a directory of storage that could not be opened amounts to.
pub enum OpenFailure {
    /// There is no storage.
    Absent,
    /// The directory has to be created and opened again.
    Create,
    /// Storage is not available.
    Fail(StorageError),
}

/// Gives what a storage root that could not be opened amounts to.
pub fn root_open_failure(create: bool, error: IoError) -> (r: OpenFailure)
    ensures
        match r {
            OpenFailure::Absent => !create && error.kind is NotFound,
            OpenFailure::Create => false,
            OpenFailure::Fail(e) => !(!create && error.kind is NotFound) && e@ == (
            if error::not_real_directory(error.code) {
                ErrorView::Unavailable(
                    "unsafe storage root: root is not a real directory"@,
                    None,
                )
            } else {
                ErrorView::Unavailable("open storage root"@, Some(error@))
            }),
        },
{
    if !create && error.kind == IoKind::NotFound {
        OpenFailure::Absent
    } else if unsafe_directory(&error) {
        OpenFailure::Fail(
            unavailable("unsafe storage root: root is not a real directory".to_owned()),
        )
    } else {
        OpenFailure::Fail(unavailable_io("open storage root".to_owned(), error))
    }
}

/// Gives what a runs directory that could not be opened amounts to; `retried` says
/// whether it was created before.
pub fn runs_open_failure(create: bool, retried: bool, error: IoError) -> (r: OpenFailure)
    ensures
        match r {
            OpenFailure::Absent => !retried && !create && error.kind is NotFound,
            OpenFailure::Create => !retried && create && error.kind is NotFound,
            OpenFailure::Fail(e) => (retried || !(error.kind is NotFound)) && e@ == (
            if error::not_real_directory(error.code) {
                ErrorView::Unavailable(
                    "unsafe storage root: runs is not a real directory"@,
                    None,
                )
            } else {
                ErrorView::Unavailable("open runs directory"@, Some(error@))
            }),
        },
{
    if !retried && error.kind == IoKind::NotFound {
        if create {
            OpenFailure::Create
        } else {
            OpenFailure::Absent
        }
    } else if unsafe_directory(&error) {
        OpenFailure::Fail(
            unavailable("unsafe storage root: runs is not a real directory".to_owned()),
        )
    } else {
        OpenFailure::Fail(unavailable_io("open runs directory".to_owned(), error))
    }
}

/// Gives what a runs directory that could not be created amounts to: one that exists
/// by now is no failure.
pub fn runs_create_failure(error: IoError) -> (r: Option<StorageError>)
    ensures
        views::opt(r) == (if error.kind is AlreadyExists {
            None
        } else {
            Some(ErrorView::Unavailable("create runs directory"@, Some(error@)))
        }),
{
    if error.kind == IoKind::AlreadyExists {
        None
    } else {
        Some(unavailable_io("create runs directory".to_owned(), error))
    }
}

/// Where storage is.
#[derive(Debug, Clone, Copy, PartialEq, Eq, Structural)]
pub enum RootChoice {
    /// Where the command line says.
    Explicit,
    /// In the directory for data.
    DataHome,
    /// In the home directory.
    Home,
}

impl RootChoice {
    /// The path below the chosen directory.
    pub open spec fn path(self) -> Seq<char> {
        match self {
            RootChoice::Explicit => ""@,
            RootChoice::DataHome => "rundelta"@,
            RootChoice::Home => ".local/share/rundelta"@,
        }
    }

    /// Gives the path below the chosen directory.
    pub fn suffix(self) -> (r: &'static str)
        ensures
            r@ == self.path(),
    {
        match self {
            RootChoice::Explicit => "",
            RootChoice::DataHome => "rundelta",
            RootChoice::Home => ".local/share/rundelta",
        }
    }
}

/// Chooses where storage is from what is known.
pub fn root(explicit: bool, data_home: bool, home: bool) -> (r: Result<RootChoice, String>)
    ensures
        match r {
            Ok(RootChoice::Explicit) => explicit,
            Ok(RootChoice::DataHome) => !explicit && data_home,
            Ok(RootChoice::Home) => !explicit && !data_home && home,
            Err(message) => !explicit && !data_home && !home && message@
                == "specify --storage: HOME and XDG_DATA_HOME are unset"@,
        },
{
    if explicit {
        Ok(RootChoice::Explicit)
    } else if data_home {
        Ok(RootChoice::DataHome)
    } else if home {
        Ok(RootChoice::Home)
    } else {
        Err("specify --storage: HOME and XDG_DATA_HOME are unset".to_owned())
    }
}

/// One step of deleting a record.
#[derive(Debug, Clone, Copy, PartialEq, Eq, Structural)]
pub enum DeleteStep {
    /// See that the entry is the directory that was opened.
    Identify,
    /// Remove what is in the directory.
    RemoveContents,
    /// See again that the entry is the directory that was opened.
    IdentifyAgain,
    /// Remove the directory.
    Unlink,
    /// Nothing: the record is deleted.
    Deleted,
}

impl DeleteStep {
    /// The step after this one.
    pub open spec fn next(self) -> DeleteStep {
        match self {
            DeleteStep::Identify => DeleteStep::RemoveContents,
            DeleteStep::RemoveContents => DeleteStep::IdentifyAgain,
            DeleteStep::IdentifyAgain => DeleteStep::Unlink,
            DeleteStep::Unlink => DeleteStep::Deleted,
            DeleteStep::Deleted => DeleteStep::Deleted,
        }
    }

    /// The words for a failure of this step.
    pub open spec fn words(self) -> Seq<char> {
        if self is Identify || self is IdentifyAgain {
            "unsafe record directory: "@
        } else {
            "delete "@
        }
    }

    /// Takes the result of this step and gives the next one, or why the record is not
    /// deleted.
    pub fn step(self, directory: &str, failure: Option<IoError>) -> (r: Result<
        DeleteStep,
        StorageError,
    >)
        ensures
            match (r, failure) {
                (Ok(next), None) => next == self.next(),
                (Err(e), Some(source)) => e@ == ErrorView::Unavailable(
                    self.words() + directory@,
                    Some(source@),
                ),
                _ => false,
            },
    {
        match failure {
            Some(source) => {
                let words: &str = if self == DeleteStep::Identify || self
                    == DeleteStep::IdentifyAgain {
                    "unsafe record directory: "
                } else {
                    "delete "
                };
                Err(unavailable_io(about(words, directory), source))
            },
            None => Ok(
                match self {
                    DeleteStep::Identify => DeleteStep::RemoveContents,
                    DeleteStep::RemoveContents => DeleteStep::IdentifyAgain,
                    DeleteStep::IdentifyAgain => DeleteStep::Unlink,
                    DeleteStep::Unlink => DeleteStep::Deleted,
                    DeleteStep::Deleted => DeleteStep::Deleted,
                },
            ),
        }
    }
}

/// What the removal of one entry of a directory waits for.
pub enum LeafPhase {
    /// What the entry stands for.
    Inspecting,
    /// The directory that it stood for.
    Opening(FileIdentity),
    /// The removal of what is in that directory.
    Emptying,
    /// That the entry still stands for that directory.
    Identifying,
    /// The removal of the entry.
    Removing,
    /// Nothing more.
    Done,
}

/// What is to be done next to remove one entry of a directory.
pub enum LeafAction {
    /// Open the directory, following nothing.
    Open,
    /// Remove what is in it.
    Empty,
    /// See that the entry still stands for it.
    Identify,
    /// Remove it.
    RemoveDirectory,
    /// Remove the entry without opening it.
    Unlink,
    /// Nothing: the entry is removed.
    Finished,
    /// Report that the entry changed.
    Fail(IoError),
}

/// What came of an action.
pub enum LeafEvent {
    /// What the entry stands for, and whether that is a directory.
    Inspected(FileIdentity, bool),
    /// The directory that was opened.
    Opened(FileIdentity),
    /// It succeeded.
    Succeeded,
}

impl LeafPhase {
    /// Whether a phase waits for an event.
    pub open spec fn awaits(self, event: LeafEvent) -> bool {
        match event {
            LeafEvent::Inspected(_, _) => self is Inspecting,
            LeafEvent::Opened(_) => self is Opening,
            LeafEvent::Succeeded => self is Emptying || self is Identifying || self is Removing,
        }
    }

    /// What an event leads to. Links, pipes and devices are removed as entries and never
    /// opened, and a directory that took the place of another is never entered.
    pub open spec fn leads(self, event: LeafEvent, next: LeafPhase, action: LeafAction) -> bool {
        match (self, event) {
            (LeafPhase::Inspecting, LeafEvent::Inspected(identity, directory)) => if directory {
                next == LeafPhase::Opening(identity) && action is Open
            } else {
                next is Removing && action is Unlink
            },
            (LeafPhase::Opening(expected), LeafEvent::Opened(actual)) => if checksum::same_inode(
                expected,
                actual,
            ) {
                next is Emptying && action is Empty
            } else {
                &&& next is Done
                &&& action matches LeafAction::Fail(e)
                &&& e@ == checksum::invalid("directory entry changed while deleting"@)
            },
            (LeafPhase::Emptying, LeafEvent::Succeeded) => next is Identifying
                && action is Identify,
            (LeafPhase::Identifying, LeafEvent::Succeeded) => next is Removing
                && action is RemoveDirectory,
            (LeafPhase::Removing, LeafEvent::Succeeded) => next is Done && action is Finished,
            _ => true,
        }
    }

    /// Takes what came of the action that was asked for and gives the next; the first is
    /// to inspect the entry.
    pub fn step(self, event: LeafEvent) -> (r: (LeafPhase, LeafAction))
        requires
            self.awaits(event),
        ensures
            self.leads(event, r.0, r.1),
    {
        match (self, event) {
            (_, LeafEvent::Inspected(identity, true)) => (
                LeafPhase::Opening(identity),
                LeafAction::Open,
            ),
            (_, LeafEvent::Inspected(_, false)) => (LeafPhase::Removing, LeafAction::Unlink),
            (LeafPhase::Opening(expected), LeafEvent::Opened(actual)) => {
                if same_file(&expected, &actual) {
                    (LeafPhase::Emptying, LeafAction::Empty)
                } else {
                    (
                        LeafPhase::Done,
                        LeafAction::Fail(invalid_data("directory entry changed while deleting")),
                    )
                }
            },
            (LeafPhase::Emptying, _) => (LeafPhase::Identifying, LeafAction::Identify),
            (LeafPhase::Identifying, _) => (LeafPhase::Removing, LeafAction::RemoveDirectory),
            _ => (LeafPhase::Done, LeafAction::Finished),
        }
    }
}

/// Only a directory is opened, what is in it is removed only if it is the one that the
/// entry stood for, and it is removed itself only once the entry was seen to stand for it
/// again.
pub proof fn only_identified_directories_are_emptied(
    phase: LeafPhase,
    event: LeafEvent,
    next: LeafPhase,
    action: LeafAction,
)
    requires
        phase.awaits(event),
        phase.leads(event, next, action),
    ensures
        action is Open ==> (event matches LeafEvent::Inspected(_, directory) && directory),
        action is Empty ==> ({
            &&& phase matches LeafPhase::Opening(expected)
            &&& event matches LeafEvent::Opened(actual)
            &&& checksum::same_inode(expected, actual)
        }),
        action is RemoveDirectory ==> phase is Identifying && event is Succeeded,
        next is Identifying ==> phase is Emptying,
        action is Unlink ==> (event matches LeafEvent::Inspected(_, directory) && !directory),
{
}

/// Checks that what the storage lock is named can be locked.
pub fn lock_fault(status: &FileIdentity) -> (r: Option<StorageError>)
    ensures
        views::opt(r) == (if status.regular {
            None
        } else {
            Some(
                ErrorView::Unavailable(
                    "unsafe storage lock: .record.lock is not a regular file"@,
                    None,
                ),
            )
        }),
{
    if status.regular {
        None
    } else {
        Some(unavailable("unsafe storage lock: .record.lock is not a regular file".to_owned()))
    }
}

/// An entry is selected only if no other entry has the key as its identifier or label.
pub proof fn selection_is_unique(entries: Seq<EntryView>, key: Seq<char>, i: int, j: int)
    requires
        match_count(entries, key, entries.len() as int) == 1,
        0 <= i < entries.len(),
        0 <= j < entries.len(),
        names(entries[i], key),
        names(entries[j], key),
    ensures
        i == j,
    decreases entries.len(),
{
    let n = entries.len() - 1;
    let rest = entries.drop_last();
    match_count_prefix(entries, rest, key, n as int);
    match_count_bounds(rest, key, n as int);
    if names(entries[n as int], key) {
        if i < n {
            assert(names(rest[i], key));
        }
        if j < n {
            assert(names(rest[j], key));
        }
    } else {
        assert(rest[i] == entries[i] && rest[j] == entries[j]);
        selection_is_unique(rest, key, i, j);
    }
}

/// The count over a prefix depends only on the prefix.
proof fn match_count_prefix(a: Seq<EntryView>, b: Seq<EntryView>, key: Seq<char>, n: int)
    requires
        n <= a.len(),
        n <= b.len(),
        forall|i: int| 0 <= i < n ==> a[i] == b[i],
    ensures
        match_count(a, key, n) == match_count(b, key, n),
    decreases n,
{
    if n > 0 {
        match_count_prefix(a, b, key, n - 1);
    }
}

} // verus!
