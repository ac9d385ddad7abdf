//! The error numbers of the operating system that decisions rest on.
use vstd::prelude::*;

verus! {

/// The error numbers that decisions rest on, by their names.
#[derive(Debug, Clone, Copy, PartialEq, Eq, Structural)]
pub struct Errno {
    /// Operation not permitted.
    pub eperm: i32,
    /// No such file or directory.
    pub enoent: i32,
    /// No such process.
    pub esrch: i32,
    /// No child process.
    pub echild: i32,
    /// Resource temporarily unavailable.
    pub eagain: i32,
    /// The operation would block.
    pub ewouldblock: i32,
    /// The link would cross file systems.
    pub exdev: i32,
    /// Not a directory.
    pub enotdir: i32,
    /// Is a directory.
    pub eisdir: i32,
    /// Invalid argument.
    pub einval: i32,
    /// Function not implemented.
    pub enosys: i32,
    /// Too many levels of symbolic links.
    pub eloop: i32,
    /// Operation not supported.
    pub eopnotsupp: i32,
}

/// The error numbers of Linux.
pub open spec fn linux_errno() -> Errno {
    Errno {
        eperm: 1,
        enoent: 2,
        esrch: 3,
        echild: 10,
        eagain: 11,
        ewouldblock: 11,
        exdev: 18,
        enotdir: 20,
        eisdir: 21,
        einval: 22,
        enosys: 38,
        eloop: 40,
        eopnotsupp: 95,
    }
}

/// The `E*` constants of the libc crate, which on Linux with the generic error
/// numbers (as on x86-64 and 64-bit ARM) are those of [`linux_errno`].
#[verifier::external_body]
pub(crate) fn errno() -> (r: Errno)
    ensures
        r == linux_errno(),
{
    Errno {
        eperm: libc::EPERM,
        enoent: libc::ENOENT,
        esrch: libc::ESRCH,
        echild: libc::ECHILD,
        eagain: libc::EAGAIN,
        ewouldblock: libc::EWOULDBLOCK,
        exdev: libc::EXDEV,
        enotdir: libc::ENOTDIR,
        eisdir: libc::EISDIR,
        einval: libc::EINVAL,
        enosys: libc::ENOSYS,
        eloop: libc::ELOOP,
        eopnotsupp: libc::EOPNOTSUPP,
    }
}

} // verus!
