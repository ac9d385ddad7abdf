//! Checksums of stored files.
use vstd::prelude::*;
use vstd::string::*;

use crate::io::{IoError, IoErrorView, IoKind};
use crate::numbers;
use crate::store::error;
use crate::store::error::{corrupt, unavailable_io, ErrorView, StorageError};
use crate::text;
use crate::views;

verus! {

/// A SHA-256 computation of the sha2 crate in progress.
///
/// The crate's type is an instance of a generic one with bounds by the crate's own
/// traits, which cannot be declared by itself, so it is held whole.
#[verifier::external_body]
pub struct Hasher {
    inner: sha2::Sha256,
}

/// The bytes that a computation has been given.
pub uninterp spec fn absorbed(hasher: Hasher) -> Seq<u8>;

/// The SHA-256 digest of bytes, which the sha2 crate computes.
pub uninterp spec fn sha256(data: Seq<u8>) -> Seq<u8>;

/// `Digest::new` of the sha2 crate: a computation that was given nothing.
#[verifier::external_body]
fn start_hasher() -> (r: Hasher)
    ensures
        absorbed(r) == Seq::<u8>::empty(),
{
    Hasher { inner: <sha2::Sha256 as sha2::Digest>::new() }
}

/// `Digest::update` of the sha2 crate: the bytes come after those given before.
#[verifier::external_body]
fn update_hasher(hasher: &mut Hasher, data: &[u8])
    ensures
        absorbed(*final(hasher)) == absorbed(*old(hasher)) + data@,
{
    sha2::Digest::update(&mut hasher.inner, data);
}

/// `Digest::finalize` of the sha2 crate: the 32 bytes of the digest of everything
/// that the computation was given, however it was split. The digest itself only has
/// a name.
#[verifier::external_body]
fn finish_hasher(hasher: Hasher) -> (r: Vec<u8>)
    ensures
        r@ == sha256(absorbed(hasher)),
        r@.len() == 32,
{
    sha2::Digest::finalize(hasher.inner).to_vec()
}

/// The first `n` bytes in lowercase hexadecimal.
pub open spec fn hex_upto(bytes: Seq<u8>, n: int) -> Seq<char>
    decreases n,
{
    if n <= 0 {
        Seq::empty()
    } else {
        hex_upto(bytes, n - 1).push(numbers::hex_digit(bytes[n - 1] as int / 16)).push(
            numbers::hex_digit(bytes[n - 1] as int % 16),
        )
    }
}

/// Bytes in lowercase hexadecimal.
pub open spec fn hex(bytes: Seq<u8>) -> Seq<char> {
    hex_upto(bytes, bytes.len() as int)
}

/// Spells bytes in lowercase hexadecimal.
pub fn hex_string(bytes: &[u8]) -> (r: String)
    ensures
        r@ == hex(bytes@),
{
    let mut s: String = String::new();
    for i in 0..bytes.len()
        invariant
            s@ == hex_upto(bytes@, i as int),
    {
        let b: u8 = bytes[i];
        s.push(numbers::hex_char(b / 16));
        s.push(numbers::hex_char(b % 16));
    }
    s
}

/// The length and the digest of a file.
#[derive(Debug, PartialEq, Eq)]
pub struct FileCheck {
    /// The number of bytes.
    pub bytes: u64,
    /// The digest in lowercase hexadecimal.
    pub sha256: String,
}

/// What a [`FileCheck`] says.
pub struct CheckView {
    /// The number of bytes.
    pub bytes: u64,
    /// The digest in lowercase hexadecimal.
    pub sha256: Seq<char>,
}

impl View for FileCheck {
    type V = CheckView;

    open spec fn view(&self) -> CheckView {
        CheckView { bytes: self.bytes, sha256: self.sha256@ }
    }
}

impl CheckView {
    /// Whether the check is that of some bytes.
    pub open spec fn covers(self, data: Seq<u8>) -> bool {
        self.bytes == data.len() && self.sha256 == hex(sha256(data))
    }
}

impl FileCheck {
    /// Copies a check.
    pub fn copy(&self) -> (r: FileCheck)
        ensures
            r@ == self@,
    {
        FileCheck { bytes: self.bytes, sha256: self.sha256.clone() }
    }

    /// Says whether two checks are equal.
    pub fn same_as(&self, other: &FileCheck) -> (r: bool)
        ensures
            r == (self@ == other@),
    {
        self.bytes == other.bytes && text::same(self.sha256.as_str(), other.sha256.as_str())
    }
}

/// The failure for a number of bytes that does not fit.
pub open spec fn count_failure() -> IoErrorView {
    IoErrorView {
        kind: IoKind::InvalidData,
        code: None,
        message: "storage file byte count exceeds u64"@,
    }
}

/// Adds to a number of bytes.
pub fn checked_byte_count(current: u64, added: usize) -> (r: Result<u64, IoError>)
    ensures
        match r {
            Ok(total) => total == current + added,
            Err(e) => current + added > u64::MAX && e@ == count_failure(),
        },
{
    match current.checked_add(added as u64) {
        Some(total) => Ok(total),
        None => Err(
            IoError {
                kind: IoKind::InvalidData,
                code: None,
                message: "storage file byte count exceeds u64".to_owned(),
            },
        ),
    }
}

/// The length and the digest of a stream of bytes so far.
pub struct Checksum {
    hasher: Hasher,
    bytes: u64,
}

impl View for Checksum {
    type V = Seq<u8>;

    closed spec fn view(&self) -> Seq<u8> {
        absorbed(self.hasher)
    }
}

impl Checksum {
    /// The number of bytes is that of the stream.
    pub closed spec fn wf(self) -> bool {
        self.bytes == self@.len()
    }

    /// Starts at the beginning of a stream.
    pub fn new() -> (r: Checksum)
        ensures
            r.wf(),
            r@ == Seq::<u8>::empty(),
    {
        Checksum { hasher: start_hasher(), bytes: 0 }
    }

    /// Takes the next bytes of the stream.
    pub fn update(&mut self, data: &[u8]) -> (r: Result<(), IoError>)
        requires
            old(self).wf(),
        ensures
            final(self).wf(),
            match r {
                Ok(_) => final(self)@ == old(self)@ + data@,
                Err(e) => old(self)@.len() + data@.len() > u64::MAX && e@ == count_failure()
                    && final(self)@ == old(self)@,
            },
    {
        match checked_byte_count(self.bytes, data.len()) {
            Ok(total) => {
                self.bytes = total;
                update_hasher(&mut self.hasher, data);
                Ok(())
            },
            Err(e) => Err(e),
        }
    }

    /// Gives the number of bytes so far.
    pub fn len(&self) -> (r: u64)
        requires
            self.wf(),
        ensures
            r == self@.len(),
    {
        self.bytes
    }

    /// Gives the length and the digest of the stream.
    pub fn finish(self) -> (r: FileCheck)
        requires
            self.wf(),
        ensures
            r@.covers(self@),
    {
        let digest: Vec<u8> = finish_hasher(self.hasher);
        FileCheck { bytes: self.bytes, sha256: hex_string(digest.as_slice()) }
    }
}

/// Gives the length and the digest of bytes.
pub fn check(data: &[u8]) -> (r: FileCheck)
    ensures
        r@.covers(data@),
{
    let mut checksum: Checksum = Checksum::new();
    let length: usize = data.len();
    let ghost start = checksum@;
    let result: Result<(), IoError> = checksum.update(data);
    proof {
        assert(start + data@ =~= data@);
        assert(length <= u64::MAX);
    }
    checksum.finish()
}

/// The failure for a file that differs from its check.
pub open spec fn mismatch(file: Seq<char>) -> ErrorView {
    ErrorView::Corrupt(file + ": byte count or SHA-256 mismatch"@)
}

/// Gives the failure for a file that differs from its check.
pub fn mismatch_error(file: &str) -> (r: StorageError)
    ensures
        r@ == mismatch(file@),
{
    let mut s: String = file.to_owned();
    s.append(": byte count or SHA-256 mismatch");
    corrupt(s)
}

/// Compares the check of a file with the expected one.
pub fn verify_check(actual: &FileCheck, expected: &FileCheck, file: &str) -> (r: Result<
    (),
    StorageError,
>)
    ensures
        match r {
            Ok(_) => actual@ == expected@,
            Err(e) => actual@ != expected@ && e@ == mismatch(file@),
        },
{
    if actual.same_as(expected) {
        Ok(())
    } else {
        Err(mismatch_error(file))
    }
}

/// Compares bytes with their expected check.
pub fn verify(data: &[u8], expected: &FileCheck, file: &str) -> (r: Result<(), StorageError>)
    ensures
        match r {
            Ok(_) => expected@.covers(data@),
            Err(e) => !expected@.covers(data@) && e@ == mismatch(file@),
        },
{
    let actual: FileCheck = check(data);
    verify_check(&actual, expected, file)
}

/// What identifies a regular file and how long it is.
#[derive(Debug, Clone, Copy, PartialEq, Eq, Structural)]
pub struct FileIdentity {
    /// The device.
    pub device: u64,
    /// The inode.
    pub inode: u64,
    /// Whether it is a regular file.
    pub regular: bool,
    /// Its length.
    pub length: i64,
}

/// Whether two observations are of the same file.
pub open spec fn same_inode(a: FileIdentity, b: FileIdentity) -> bool {
    a.device == b.device && a.inode == b.inode
}

/// Says whether two observations are of the same file.
pub fn same_file(a: &FileIdentity, b: &FileIdentity) -> (r: bool)
    ensures
        r == same_inode(*a, *b),
{
    a.device == b.device && a.inode == b.inode
}

/// Says whether what was opened below a directory is on another device, so that a mount
/// was crossed.
pub fn crosses_mount(parent: &FileIdentity, opened: &FileIdentity) -> (r: bool)
    ensures
        r == (parent.device != opened.device),
{
    parent.device != opened.device
}

/// The failure for a file whose data is not valid.
pub open spec fn invalid(message: Seq<char>) -> IoErrorView {
    IoErrorView { kind: IoKind::InvalidData, code: None, message }
}

/// Gives the failure for a file whose data is not valid.
pub fn invalid_data(message: &str) -> (r: IoError)
    ensures
        r@ == invalid(message@),
{
    IoError { kind: IoKind::InvalidData, code: None, message: message.to_owned() }
}

/// Gives the length of a regular file.
pub fn stat_length(status: &FileIdentity) -> (r: Result<u64, IoError>)
    ensures
        match r {
            Ok(length) => status.length == length,
            Err(e) => status.length < 0 && e@ == invalid(
                "regular file has a negative byte length"@,
            ),
        },
{
    if status.length < 0 {
        Err(invalid_data("regular file has a negative byte length"))
    } else {
        Ok(status.length as u64)
    }
}

/// What is wrong with a file before it is read.
pub open spec fn unreadable(before: FileIdentity) -> Option<IoErrorView> {
    if !before.regular {
        Some(invalid("not a regular file"@))
    } else if before.length < 0 {
        Some(invalid("regular file has a negative byte length"@))
    } else {
        None
    }
}

/// Checks that a file is regular.
pub fn require_regular(status: &FileIdentity) -> (r: Option<IoError>)
    ensures
        views::opt(r) == (if status.regular {
            None
        } else {
            Some(invalid("not a regular file"@))
        }),
{
    if status.regular {
        None
    } else {
        Some(invalid_data("not a regular file"))
    }
}

/// Checks that an entry of a directory still names a file that was opened.
pub fn entry_fault(opened: &FileIdentity, entry: &FileIdentity) -> (r: Option<IoError>)
    ensures
        views::opt(r) == (if same_inode(*opened, *entry) {
            None
        } else {
            Some(invalid("directory entry no longer names the opened directory"@))
        }),
{
    if same_file(opened, entry) {
        None
    } else {
        Some(invalid_data("directory entry no longer names the opened directory"))
    }
}

/// Checks a file before it is read and gives its length.
pub fn begin_read(before: &FileIdentity) -> (r: Result<u64, IoError>)
    ensures
        match r {
            Ok(length) => unreadable(*before) is None && before.length == length,
            Err(e) => unreadable(*before) == Some(e@),
        },
{
    match require_regular(before) {
        Some(e) => Err(e),
        None => stat_length(before),
    }
}

/// What is wrong with a file after so many bytes of it were read.
pub open spec fn changed(
    before: FileIdentity,
    after: FileIdentity,
    bytes: nat,
    words: Seq<char>,
) -> Option<IoErrorView> {
    if !same_inode(before, after) {
        Some(invalid(words))
    } else if after.length < 0 {
        Some(invalid("regular file has a negative byte length"@))
    } else if after.length != before.length || bytes != before.length {
        Some(invalid(words))
    } else {
        None
    }
}

/// Checks that a file is the same, and as long, after it was read.
pub fn end_read(before: &FileIdentity, after: &FileIdentity, bytes: u64, words: &str) -> (r: Result<
    (),
    IoError,
>)
    ensures
        match r {
            Ok(_) => changed(*before, *after, bytes as nat, words@) is None,
            Err(e) => changed(*before, *after, bytes as nat, words@) == Some(e@),
        },
{
    if !same_file(before, after) {
        return Err(invalid_data(words));
    }
    match stat_length(after) {
        Err(e) => Err(e),
        Ok(length) => if after.length != before.length || bytes != length {
            Err(invalid_data(words))
        } else {
            Ok(())
        },
    }
}

/// Gives the check of a file that was read to its end.
pub fn calculate_file_check(before: &FileIdentity, after: &FileIdentity, read: Checksum) -> (r: Result<
    FileCheck,
    IoError,
>)
    requires
        read.wf(),
        unreadable(*before) is None,
    ensures
        ({
            let fault = changed(
                *before,
                *after,
                read@.len(),
                "regular file changed while checksumming"@,
            );
            match r {
                Ok(check) => fault is None && check@.covers(read@),
                Err(e) => fault == Some(e@),
            }
        }),
{
    let bytes: u64 = read.len();
    match end_read(before, after, bytes, "regular file changed while checksumming") {
        Err(e) => Err(e),
        Ok(_) => Ok(read.finish()),
    }
}

/// What is wrong with a file that a marker names: another length is found before any
/// byte is read.
pub open spec fn marked_file_fault(
    length: Result<u64, IoErrorView>,
    computed: Result<CheckView, IoErrorView>,
    expected: CheckView,
    display: Seq<char>,
) -> Option<ErrorView> {
    match length {
        Err(e) => Some(ErrorView::Unavailable(display, Some(e))),
        Ok(n) => if n != expected.bytes {
            Some(mismatch(display))
        } else {
            match computed {
                Err(e) => Some(ErrorView::Unavailable(display, Some(e))),
                Ok(actual) => if actual == expected {
                    None
                } else {
                    Some(mismatch(display))
                },
            }
        },
    }
}

/// A result over the views of its value and error.
pub open spec fn viewed<T: View, E: View>(result: Result<T, E>) -> Result<T::V, E::V> {
    match result {
        Ok(value) => Ok(value@),
        Err(error) => Err(error@),
    }
}

/// Checks a file that a marker names.
pub fn verified_file_check(
    length: Result<u64, IoError>,
    computed: Result<FileCheck, IoError>,
    expected: &FileCheck,
    display: &str,
) -> (r: Result<(), StorageError>)
    ensures
        ({
            let fault = marked_file_fault(
                viewed(length),
                viewed(computed),
                expected@,
                display@,
            );
            match r {
                Ok(_) => fault is None,
                Err(e) => fault == Some(e@),
            }
        }),
{
    match length {
        Err(e) => Err(unavailable_io(display.to_owned(), e)),
        Ok(n) => {
            if n != expected.bytes {
                return Err(mismatch_error(display));
            }
            match computed {
                Err(e) => Err(unavailable_io(display.to_owned(), e)),
                Ok(actual) => verify_check(&actual, expected, display),
            }
        },
    }
}

} // verus!
