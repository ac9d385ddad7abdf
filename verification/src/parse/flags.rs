//! The syscalls that are observed, and what their flags say of filesystem state.
use vstd::prelude::*;
use vstd::string::*;

use crate::numbers;
use crate::parse::syntax;
use crate::parse::syntax::field_expression;
use crate::text;
use crate::views;

verus! {

broadcast use crate::views::group_views;

/// What a call does to filesystem contexts.
///
/// These actions are parser-private evidence and are never stored: a record
/// retains its recorded conclusions.
#[derive(Clone, Copy, Debug, PartialEq, Eq, Structural)]
pub enum FsAction {
    /// Nothing.
    Nothing,
    /// A new task.
    Spawn(SpawnEffect),
    /// A split from shared state.
    Unshare(UnshareEffect),
    /// A change that the CWD model does not cover.
    Invalidate(InvalidationScope),
    /// The end of a task.
    Exit,
}

/// How far an unmodeled change reaches.
#[derive(Clone, Copy, Debug, PartialEq, Eq, Structural)]
pub enum InvalidationScope {
    /// The context of the caller and those connected to it.
    ConnectedFs,
    /// Every context.
    AllActiveContexts,
}

/// How an observed syscall is read.
#[derive(Clone, Copy, Debug, PartialEq, Eq, Structural)]
pub enum TraceOperation {
    /// An execution attempt.
    Exec {
        /// The path is relative to a directory descriptor.
        at: bool,
        /// The index of the argument list.
        argv_index: usize,
    },
    /// A file access.
    File {
        /// The path is relative to a directory descriptor.
        at: bool,
        /// The result is a descriptor with its path.
        returned_path: bool,
    },
    /// A change of the working directory.
    Cwd {
        /// By descriptor.
        fd: bool,
    },
    /// A new task.
    Spawn,
    /// A split from shared state.
    Unshare,
    /// A change that the CWD model does not cover.
    Invalidate(InvalidationScope),
}

/// What a new task shares with its parent.
#[derive(Clone, Copy, Debug, PartialEq, Eq, Structural)]
pub enum SpawnEffect {
    /// Filesystem state is shared.
    SharedFs,
    /// Filesystem state is copied.
    PrivateFs,
    /// Filesystem state is copied into a namespace that is not modeled, so
    /// uncertainty stays on the affected branch.
    PrivateFsNamespaceUncertain,
    /// The flags do not say.
    Unknown,
}

/// What a call to `unshare` splits.
#[derive(Clone, Copy, Debug, PartialEq, Eq, Structural)]
pub enum UnshareEffect {
    /// Nothing of the filesystem state.
    NoFsChange,
    /// The filesystem state.
    SplitFs,
    /// The filesystem state, with a namespace that is not modeled.
    SplitFsNamespaceUncertain,
    /// The flags do not say.
    Unknown,
}

/// The number of observed syscalls.
pub const TRACE_CONTRACT_COUNT: usize = 22;

/// The name of an observed syscall. This is the single contract between capture
/// and parsing: capture derives its selector from these names, and parsing
/// derives event and transition semantics from [`contract_operation`].
pub open spec fn contract_name(i: int) -> Seq<char> {
    if i == 0 {
        "execve"@
    } else if i == 1 {
        "execveat"@
    } else if i == 2 {
        "open"@
    } else if i == 3 {
        "openat"@
    } else if i == 4 {
        "openat2"@
    } else if i == 5 {
        "access"@
    } else if i == 6 {
        "faccessat"@
    } else if i == 7 {
        "faccessat2"@
    } else if i == 8 {
        "chdir"@
    } else if i == 9 {
        "fchdir"@
    } else if i == 10 {
        "clone"@
    } else if i == 11 {
        "clone3"@
    } else if i == 12 {
        "fork"@
    } else if i == 13 {
        "vfork"@
    } else if i == 14 {
        "unshare"@
    } else if i == 15 {
        "setns"@
    } else if i == 16 {
        "chroot"@
    } else if i == 17 {
        "pivot_root"@
    } else if i == 18 {
        "mount"@
    } else if i == 19 {
        "umount2"@
    } else if i == 20 {
        "move_mount"@
    } else {
        "mount_setattr"@
    }
}

/// How the observed syscall at an index is read.
pub open spec fn contract_operation(i: int) -> TraceOperation {
    if i == 0 {
        TraceOperation::Exec { at: false, argv_index: 1 }
    } else if i == 1 {
        TraceOperation::Exec { at: true, argv_index: 2 }
    } else if i == 2 {
        TraceOperation::File { at: false, returned_path: true }
    } else if i <= 4 {
        TraceOperation::File { at: true, returned_path: true }
    } else if i == 5 {
        TraceOperation::File { at: false, returned_path: false }
    } else if i <= 7 {
        TraceOperation::File { at: true, returned_path: false }
    } else if i == 8 {
        TraceOperation::Cwd { fd: false }
    } else if i == 9 {
        TraceOperation::Cwd { fd: true }
    } else if i <= 13 {
        TraceOperation::Spawn
    } else if i == 14 {
        TraceOperation::Unshare
    } else if i <= 16 {
        TraceOperation::Invalidate(InvalidationScope::ConnectedFs)
    } else {
        TraceOperation::Invalidate(InvalidationScope::AllActiveContexts)
    }
}

/// Gives the name of the observed syscall at an index.
pub fn contract_name_at(i: usize) -> (r: &'static str)
    requires
        i < TRACE_CONTRACT_COUNT,
    ensures
        r@ == contract_name(i as int),
{
    match i {
        0 => "execve",
        1 => "execveat",
        2 => "open",
        3 => "openat",
        4 => "openat2",
        5 => "access",
        6 => "faccessat",
        7 => "faccessat2",
        8 => "chdir",
        9 => "fchdir",
        10 => "clone",
        11 => "clone3",
        12 => "fork",
        13 => "vfork",
        14 => "unshare",
        15 => "setns",
        16 => "chroot",
        17 => "pivot_root",
        18 => "mount",
        19 => "umount2",
        20 => "move_mount",
        _ => "mount_setattr",
    }
}

/// Gives how the observed syscall at an index is read.
pub fn contract_operation_at(i: usize) -> (r: TraceOperation)
    requires
        i < TRACE_CONTRACT_COUNT,
    ensures
        r == contract_operation(i as int),
{
    match i {
        0 => TraceOperation::Exec { at: false, argv_index: 1 },
        1 => TraceOperation::Exec { at: true, argv_index: 2 },
        2 => TraceOperation::File { at: false, returned_path: true },
        3 | 4 => TraceOperation::File { at: true, returned_path: true },
        5 => TraceOperation::File { at: false, returned_path: false },
        6 | 7 => TraceOperation::File { at: true, returned_path: false },
        8 => TraceOperation::Cwd { fd: false },
        9 => TraceOperation::Cwd { fd: true },
        10 | 11 | 12 | 13 => TraceOperation::Spawn,
        14 => TraceOperation::Unshare,
        15 | 16 => TraceOperation::Invalidate(InvalidationScope::ConnectedFs),
        _ => TraceOperation::Invalidate(InvalidationScope::AllActiveContexts),
    }
}

/// How the first observed syscall from `i` on with the given name is read.
pub open spec fn operation_from(name: Seq<char>, i: int) -> Option<TraceOperation>
    decreases TRACE_CONTRACT_COUNT - i,
{
    if i < 0 || i >= TRACE_CONTRACT_COUNT {
        None
    } else if contract_name(i) == name {
        Some(contract_operation(i))
    } else {
        operation_from(name, i + 1)
    }
}

/// How a syscall is read, if it is observed.
pub open spec fn operation_of(name: Seq<char>) -> Option<TraceOperation> {
    operation_from(name, 0)
}

/// Gives how a syscall is read, if it is observed.
pub fn trace_operation(name: &str) -> (r: Option<TraceOperation>)
    ensures
        r == operation_of(name@),
{
    let mut i: usize = 0;
    while i < TRACE_CONTRACT_COUNT
        invariant
            i <= TRACE_CONTRACT_COUNT,
            operation_of(name@) == operation_from(name@, i as int),
        decreases TRACE_CONTRACT_COUNT - i,
    {
        if text::same(contract_name_at(i), name) {
            return Some(contract_operation_at(i));
        }
        i = i + 1;
    }
    None
}

/// The names of the first `n` observed syscalls, separated by commas.
pub open spec fn joined_names(n: int) -> Seq<char>
    decreases n,
{
    if n <= 0 {
        Seq::empty()
    } else if n == 1 {
        contract_name(0)
    } else {
        joined_names(n - 1) + ","@ + contract_name(n - 1)
    }
}

/// Build capture's strace selector from the parser's syscall contract.
///
/// Capture must use this value rather than maintaining a second syscall list;
/// otherwise an uncollected state transition could be reported as complete.
pub fn trace_selector() -> (r: String)
    ensures
        r@ == "trace="@ + joined_names(TRACE_CONTRACT_COUNT as int),
{
    let mut names: String = contract_name_at(0).to_owned();
    let mut i: usize = 1;
    while i < TRACE_CONTRACT_COUNT
        invariant
            1 <= i <= TRACE_CONTRACT_COUNT,
            names@ == joined_names(i as int),
        decreases TRACE_CONTRACT_COUNT - i,
    {
        names.append(",");
        names.append(contract_name_at(i));
        i = i + 1;
    }
    let mut s: String = "trace=".to_owned();
    s.append(names.as_str());
    s
}

/// The exit signal of a legacy clone.
pub const CSIGNAL_MASK: u64 = 0x0000_00ff;

/// `CLONE_NEWTIME`.
pub const CLONE_NEWTIME_BIT: u64 = 0x0000_0080;

/// `CLONE_VM`.
pub const CLONE_VM_BIT: u64 = 0x0000_0100;

/// `CLONE_FS`.
pub const CLONE_FS_BIT: u64 = 0x0000_0200;

/// `CLONE_FILES`.
pub const CLONE_FILES_BIT: u64 = 0x0000_0400;

/// `CLONE_SIGHAND`.
pub const CLONE_SIGHAND_BIT: u64 = 0x0000_0800;

/// `CLONE_PIDFD`.
pub const CLONE_PIDFD_BIT: u64 = 0x0000_1000;

/// `CLONE_PTRACE`.
pub const CLONE_PTRACE_BIT: u64 = 0x0000_2000;

/// `CLONE_VFORK`.
pub const CLONE_VFORK_BIT: u64 = 0x0000_4000;

/// `CLONE_PARENT`.
pub const CLONE_PARENT_BIT: u64 = 0x0000_8000;

/// `CLONE_THREAD`.
pub const CLONE_THREAD_BIT: u64 = 0x0001_0000;

/// `CLONE_NEWNS`.
pub const CLONE_NEWNS_BIT: u64 = 0x0002_0000;

/// `CLONE_SYSVSEM`.
pub const CLONE_SYSVSEM_BIT: u64 = 0x0004_0000;

/// `CLONE_SETTLS`.
pub const CLONE_SETTLS_BIT: u64 = 0x0008_0000;

/// `CLONE_PARENT_SETTID`.
pub const CLONE_PARENT_SETTID_BIT: u64 = 0x0010_0000;

/// `UNSHARE_EMPTY_MNTNS`.
pub const UNSHARE_EMPTY_MNTNS_BIT: u64 = 0x0010_0000;

/// `CLONE_CHILD_CLEARTID`.
pub const CLONE_CHILD_CLEARTID_BIT: u64 = 0x0020_0000;

/// `CLONE_DETACHED`.
pub const CLONE_DETACHED_BIT: u64 = 0x0040_0000;

/// `CLONE_UNTRACED`.
pub const CLONE_UNTRACED_BIT: u64 = 0x0080_0000;

/// `CLONE_CHILD_SETTID`.
pub const CLONE_CHILD_SETTID_BIT: u64 = 0x0100_0000;

/// `CLONE_NEWCGROUP`.
pub const CLONE_NEWCGROUP_BIT: u64 = 0x0200_0000;

/// `CLONE_NEWUTS`.
pub const CLONE_NEWUTS_BIT: u64 = 0x0400_0000;

/// `CLONE_NEWIPC`.
pub const CLONE_NEWIPC_BIT: u64 = 0x0800_0000;

/// `CLONE_NEWUSER`.
pub const CLONE_NEWUSER_BIT: u64 = 0x1000_0000;

/// `CLONE_NEWPID`.
pub const CLONE_NEWPID_BIT: u64 = 0x2000_0000;

/// `CLONE_NEWNET`.
pub const CLONE_NEWNET_BIT: u64 = 0x4000_0000;

/// `CLONE_IO`.
pub const CLONE_IO_BIT: u64 = 0x8000_0000;

/// `CLONE_CLEAR_SIGHAND`.
pub const CLONE_CLEAR_SIGHAND_BIT: u64 = 0x1_0000_0000;

/// `CLONE_INTO_CGROUP`.
pub const CLONE_INTO_CGROUP_BIT: u64 = 0x2_0000_0000;

/// `CLONE_AUTOREAP`.
pub const CLONE_AUTOREAP_BIT: u64 = 0x4_0000_0000;

/// `CLONE_NNP`.
pub const CLONE_NNP_BIT: u64 = 0x8_0000_0000;

/// `CLONE_PIDFD_AUTOKILL`.
pub const CLONE_PIDFD_AUTOKILL_BIT: u64 = 0x10_0000_0000;

/// `CLONE_EMPTY_MNTNS`.
pub const CLONE_EMPTY_MNTNS_BIT: u64 = 0x20_0000_0000;

/// The flags of `clone` and `clone3` that make a namespace.
pub const CLONE_NAMESPACE_FLAGS: u64 = CLONE_NEWTIME_BIT | CLONE_NEWNS_BIT | CLONE_NEWCGROUP_BIT
    | CLONE_NEWUTS_BIT | CLONE_NEWIPC_BIT | CLONE_NEWUSER_BIT | CLONE_NEWPID_BIT | CLONE_NEWNET_BIT
    | CLONE_EMPTY_MNTNS_BIT;

/// The flags of `unshare` that make a namespace.
pub const UNSHARE_NAMESPACE_FLAGS: u64 = CLONE_NEWTIME_BIT | CLONE_NEWNS_BIT
    | UNSHARE_EMPTY_MNTNS_BIT | CLONE_NEWCGROUP_BIT | CLONE_NEWUTS_BIT | CLONE_NEWIPC_BIT
    | CLONE_NEWUSER_BIT | CLONE_NEWPID_BIT | CLONE_NEWNET_BIT;

/// The flags that `clone` may hold.
pub const LEGACY_CLONE_ALLOWED: u64 = CSIGNAL_MASK | CLONE_VM_BIT | CLONE_FS_BIT | CLONE_FILES_BIT
    | CLONE_SIGHAND_BIT | CLONE_PIDFD_BIT | CLONE_PTRACE_BIT | CLONE_VFORK_BIT | CLONE_PARENT_BIT
    | CLONE_THREAD_BIT | CLONE_NEWNS_BIT | CLONE_SYSVSEM_BIT | CLONE_SETTLS_BIT
    | CLONE_PARENT_SETTID_BIT | CLONE_CHILD_CLEARTID_BIT | CLONE_DETACHED_BIT | CLONE_UNTRACED_BIT
    | CLONE_CHILD_SETTID_BIT | CLONE_NEWCGROUP_BIT | CLONE_NEWUTS_BIT | CLONE_NEWIPC_BIT
    | CLONE_NEWUSER_BIT | CLONE_NEWPID_BIT | CLONE_NEWNET_BIT | CLONE_IO_BIT;

/// The flags that `clone3` may hold.
pub const CLONE3_ALLOWED: u64 = (LEGACY_CLONE_ALLOWED & !(CSIGNAL_MASK | CLONE_DETACHED_BIT))
    | CLONE_NEWTIME_BIT | CLONE_CLEAR_SIGHAND_BIT | CLONE_INTO_CGROUP_BIT | CLONE_AUTOREAP_BIT
    | CLONE_NNP_BIT | CLONE_PIDFD_AUTOKILL_BIT | CLONE_EMPTY_MNTNS_BIT;

/// The flags that `unshare` may hold.
pub const UNSHARE_ALLOWED: u64 = CLONE_NEWTIME_BIT | CLONE_VM_BIT | CLONE_FS_BIT | CLONE_FILES_BIT
    | CLONE_SIGHAND_BIT | CLONE_THREAD_BIT | CLONE_NEWNS_BIT | CLONE_SYSVSEM_BIT
    | UNSHARE_EMPTY_MNTNS_BIT | CLONE_NEWCGROUP_BIT | CLONE_NEWUTS_BIT | CLONE_NEWIPC_BIT
    | CLONE_NEWUSER_BIT | CLONE_NEWPID_BIT | CLONE_NEWNET_BIT;

/// The value of a number in decimal, or in hexadecimal behind `0x`.
pub open spec fn number_of(value: Seq<char>) -> Option<int> {
    match text::after_prefix(value, "0x"@) {
        Some(hex) => numbers::bounded_value(hex, 16, u64::MAX as int),
        None => numbers::bounded_value(value, 10, u64::MAX as int),
    }
}

/// The view of an optional number.
pub open spec fn value_option(o: Option<u64>) -> Option<int> {
    match o {
        Some(v) => Some(v as int),
        None => None,
    }
}

/// Reads a number in decimal, or in hexadecimal behind `0x`.
pub fn parse_number(value: &str) -> (r: Option<u64>)
    ensures
        value_option(r) == number_of(value@),
{
    let parsed: Option<u128> = match text::strip_prefix(value, "0x") {
        Some(hex) => numbers::unsigned_number(hex, 16, u64::MAX as u128),
        None => numbers::unsigned_number(value, 10, u64::MAX as u128),
    };
    match parsed {
        Some(v) => Some(v as u64),
        None => None,
    }
}

/// The offset of a real-time signal that is spelled by its distance from the first.
pub open spec fn realtime_offset(term: Seq<char>) -> Option<Seq<char>> {
    match text::after_prefix(term, "SIGRT_"@) {
        Some(offset) => Some(offset),
        None => text::after_prefix(term, "SIGRTMIN+"@),
    }
}

/// The number of a real-time signal that is spelled by its distance from the first.
pub open spec fn realtime_signal(term: Seq<char>) -> Option<u64> {
    match realtime_offset(term) {
        None => None,
        Some(offset) => match numbers::bounded_value(offset, 10, u64::MAX as int) {
            Some(n) if n <= 32 => Some((32 + n) as u64),
            _ => None,
        },
    }
}

/// Gives the number of a real-time signal.
fn realtime_signal_number(term: &str) -> (r: Option<u64>)
    ensures
        r == realtime_signal(term@),
{
    let offset: &str = match text::strip_prefix(term, "SIGRT_") {
        Some(offset) => offset,
        None => match text::strip_prefix(term, "SIGRTMIN+") {
            Some(offset) => offset,
            None => return None,
        },
    };
    match numbers::unsigned_number(offset, 10, u64::MAX as u128) {
        Some(n) => if n <= 32 {
            Some(32 + n as u64)
        } else {
            None
        },
        None => None,
    }
}

/// The number of a signal as strace spells it.
pub open spec fn signal_of(term: Seq<char>) -> Option<u64> {
    if term == "SIGHUP"@ {
        Some(1)
    } else if term == "SIGINT"@ {
        Some(2)
    } else if term == "SIGQUIT"@ {
        Some(3)
    } else if term == "SIGILL"@ {
        Some(4)
    } else if term == "SIGTRAP"@ {
        Some(5)
    } else if term == "SIGABRT"@ {
        Some(6)
    } else if term == "SIGBUS"@ {
        Some(7)
    } else if term == "SIGFPE"@ {
        Some(8)
    } else if term == "SIGKILL"@ {
        Some(9)
    } else if term == "SIGUSR1"@ {
        Some(10)
    } else if term == "SIGSEGV"@ {
        Some(11)
    } else if term == "SIGUSR2"@ {
        Some(12)
    } else if term == "SIGPIPE"@ {
        Some(13)
    } else if term == "SIGALRM"@ {
        Some(14)
    } else if term == "SIGTERM"@ {
        Some(15)
    } else if term == "SIGSTKFLT"@ {
        Some(16)
    } else if term == "SIGCHLD"@ {
        Some(17)
    } else if term == "SIGCONT"@ {
        Some(18)
    } else if term == "SIGSTOP"@ {
        Some(19)
    } else if term == "SIGTSTP"@ {
        Some(20)
    } else if term == "SIGTTIN"@ {
        Some(21)
    } else if term == "SIGTTOU"@ {
        Some(22)
    } else if term == "SIGURG"@ {
        Some(23)
    } else if term == "SIGXCPU"@ {
        Some(24)
    } else if term == "SIGXFSZ"@ {
        Some(25)
    } else if term == "SIGVTALRM"@ {
        Some(26)
    } else if term == "SIGPROF"@ {
        Some(27)
    } else if term == "SIGWINCH"@ {
        Some(28)
    } else if term == "SIGIO"@ {
        Some(29)
    } else if term == "SIGPWR"@ {
        Some(30)
    } else if term == "SIGSYS"@ {
        Some(31)
    } else if term == "SIGRTMIN"@ {
        Some(32)
    } else if term == "SIGRTMAX"@ {
        Some(64)
    } else {
        realtime_signal(term)
    }
}

/// Gives the number of a signal.
pub fn standard_signal_number(term: &str) -> (r: Option<u64>)
    ensures
        r == signal_of(term@),
{
    if text::same(term, "SIGHUP") {
        Some(1)
    } else if text::same(term, "SIGINT") {
        Some(2)
    } else if text::same(term, "SIGQUIT") {
        Some(3)
    } else if text::same(term, "SIGILL") {
        Some(4)
    } else if text::same(term, "SIGTRAP") {
        Some(5)
    } else if text::same(term, "SIGABRT") {
        Some(6)
    } else if text::same(term, "SIGBUS") {
        Some(7)
    } else if text::same(term, "SIGFPE") {
        Some(8)
    } else if text::same(term, "SIGKILL") {
        Some(9)
    } else if text::same(term, "SIGUSR1") {
        Some(10)
    } else if text::same(term, "SIGSEGV") {
        Some(11)
    } else if text::same(term, "SIGUSR2") {
        Some(12)
    } else if text::same(term, "SIGPIPE") {
        Some(13)
    } else if text::same(term, "SIGALRM") {
        Some(14)
    } else if text::same(term, "SIGTERM") {
        Some(15)
    } else if text::same(term, "SIGSTKFLT") {
        Some(16)
    } else if text::same(term, "SIGCHLD") {
        Some(17)
    } else if text::same(term, "SIGCONT") {
        Some(18)
    } else if text::same(term, "SIGSTOP") {
        Some(19)
    } else if text::same(term, "SIGTSTP") {
        Some(20)
    } else if text::same(term, "SIGTTIN") {
        Some(21)
    } else if text::same(term, "SIGTTOU") {
        Some(22)
    } else if text::same(term, "SIGURG") {
        Some(23)
    } else if text::same(term, "SIGXCPU") {
        Some(24)
    } else if text::same(term, "SIGXFSZ") {
        Some(25)
    } else if text::same(term, "SIGVTALRM") {
        Some(26)
    } else if text::same(term, "SIGPROF") {
        Some(27)
    } else if text::same(term, "SIGWINCH") {
        Some(28)
    } else if text::same(term, "SIGIO") {
        Some(29)
    } else if text::same(term, "SIGPWR") {
        Some(30)
    } else if text::same(term, "SIGSYS") {
        Some(31)
    } else if text::same(term, "SIGRTMIN") {
        Some(32)
    } else if text::same(term, "SIGRTMAX") {
        Some(64)
    } else {
        realtime_signal_number(term)
    }
}

/// The bit of a flag of `clone`.
pub open spec fn legacy_clone_flag(term: Seq<char>) -> Option<u64> {
    if term == "0"@ {
        Some(0)
    } else if term == "CLONE_VM"@ {
        Some(CLONE_VM_BIT)
    } else if term == "CLONE_FS"@ {
        Some(CLONE_FS_BIT)
    } else if term == "CLONE_FILES"@ {
        Some(CLONE_FILES_BIT)
    } else if term == "CLONE_SIGHAND"@ {
        Some(CLONE_SIGHAND_BIT)
    } else if term == "CLONE_PIDFD"@ {
        Some(CLONE_PIDFD_BIT)
    } else if term == "CLONE_PTRACE"@ {
        Some(CLONE_PTRACE_BIT)
    } else if term == "CLONE_VFORK"@ {
        Some(CLONE_VFORK_BIT)
    } else if term == "CLONE_PARENT"@ {
        Some(CLONE_PARENT_BIT)
    } else if term == "CLONE_THREAD"@ {
        Some(CLONE_THREAD_BIT)
    } else if term == "CLONE_NEWNS"@ {
        Some(CLONE_NEWNS_BIT)
    } else if term == "CLONE_SYSVSEM"@ {
        Some(CLONE_SYSVSEM_BIT)
    } else if term == "CLONE_SETTLS"@ {
        Some(CLONE_SETTLS_BIT)
    } else if term == "CLONE_PARENT_SETTID"@ {
        Some(CLONE_PARENT_SETTID_BIT)
    } else if term == "CLONE_CHILD_CLEARTID"@ {
        Some(CLONE_CHILD_CLEARTID_BIT)
    } else if term == "CLONE_DETACHED"@ {
        Some(CLONE_DETACHED_BIT)
    } else if term == "CLONE_UNTRACED"@ {
        Some(CLONE_UNTRACED_BIT)
    } else if term == "CLONE_CHILD_SETTID"@ {
        Some(CLONE_CHILD_SETTID_BIT)
    } else if term == "CLONE_NEWCGROUP"@ {
        Some(CLONE_NEWCGROUP_BIT)
    } else if term == "CLONE_NEWUTS"@ {
        Some(CLONE_NEWUTS_BIT)
    } else if term == "CLONE_NEWIPC"@ {
        Some(CLONE_NEWIPC_BIT)
    } else if term == "CLONE_NEWUSER"@ {
        Some(CLONE_NEWUSER_BIT)
    } else if term == "CLONE_NEWPID"@ {
        Some(CLONE_NEWPID_BIT)
    } else if term == "CLONE_NEWNET"@ {
        Some(CLONE_NEWNET_BIT)
    } else if term == "CLONE_IO"@ {
        Some(CLONE_IO_BIT)
    } else {
        None
    }
}

/// Gives the bit of a flag of `clone`.
pub fn legacy_clone_flag_bit(term: &str) -> (r: Option<u64>)
    ensures
        r == legacy_clone_flag(term@),
{
    if text::same(term, "0") {
        Some(0)
    } else if text::same(term, "CLONE_VM") {
        Some(CLONE_VM_BIT)
    } else if text::same(term, "CLONE_FS") {
        Some(CLONE_FS_BIT)
    } else if text::same(term, "CLONE_FILES") {
        Some(CLONE_FILES_BIT)
    } else if text::same(term, "CLONE_SIGHAND") {
        Some(CLONE_SIGHAND_BIT)
    } else if text::same(term, "CLONE_PIDFD") {
        Some(CLONE_PIDFD_BIT)
    } else if text::same(term, "CLONE_PTRACE") {
        Some(CLONE_PTRACE_BIT)
    } else if text::same(term, "CLONE_VFORK") {
        Some(CLONE_VFORK_BIT)
    } else if text::same(term, "CLONE_PARENT") {
        Some(CLONE_PARENT_BIT)
    } else if text::same(term, "CLONE_THREAD") {
        Some(CLONE_THREAD_BIT)
    } else if text::same(term, "CLONE_NEWNS") {
        Some(CLONE_NEWNS_BIT)
    } else if text::same(term, "CLONE_SYSVSEM") {
        Some(CLONE_SYSVSEM_BIT)
    } else if text::same(term, "CLONE_SETTLS") {
        Some(CLONE_SETTLS_BIT)
    } else if text::same(term, "CLONE_PARENT_SETTID") {
        Some(CLONE_PARENT_SETTID_BIT)
    } else if text::same(term, "CLONE_CHILD_CLEARTID") {
        Some(CLONE_CHILD_CLEARTID_BIT)
    } else if text::same(term, "CLONE_DETACHED") {
        Some(CLONE_DETACHED_BIT)
    } else if text::same(term, "CLONE_UNTRACED") {
        Some(CLONE_UNTRACED_BIT)
    } else if text::same(term, "CLONE_CHILD_SETTID") {
        Some(CLONE_CHILD_SETTID_BIT)
    } else if text::same(term, "CLONE_NEWCGROUP") {
        Some(CLONE_NEWCGROUP_BIT)
    } else if text::same(term, "CLONE_NEWUTS") {
        Some(CLONE_NEWUTS_BIT)
    } else if text::same(term, "CLONE_NEWIPC") {
        Some(CLONE_NEWIPC_BIT)
    } else if text::same(term, "CLONE_NEWUSER") {
        Some(CLONE_NEWUSER_BIT)
    } else if text::same(term, "CLONE_NEWPID") {
        Some(CLONE_NEWPID_BIT)
    } else if text::same(term, "CLONE_NEWNET") {
        Some(CLONE_NEWNET_BIT)
    } else if text::same(term, "CLONE_IO") {
        Some(CLONE_IO_BIT)
    } else {
        None
    }
}

/// The bit of a flag of `clone3`.
pub open spec fn clone3_flag(term: Seq<char>) -> Option<u64> {
    if term == "0"@ {
        Some(0)
    } else if term == "CLONE_NEWTIME"@ {
        Some(CLONE_NEWTIME_BIT)
    } else if term == "CLONE_VM"@ {
        Some(CLONE_VM_BIT)
    } else if term == "CLONE_FS"@ {
        Some(CLONE_FS_BIT)
    } else if term == "CLONE_FILES"@ {
        Some(CLONE_FILES_BIT)
    } else if term == "CLONE_SIGHAND"@ {
        Some(CLONE_SIGHAND_BIT)
    } else if term == "CLONE_PIDFD"@ {
        Some(CLONE_PIDFD_BIT)
    } else if term == "CLONE_PTRACE"@ {
        Some(CLONE_PTRACE_BIT)
    } else if term == "CLONE_VFORK"@ {
        Some(CLONE_VFORK_BIT)
    } else if term == "CLONE_PARENT"@ {
        Some(CLONE_PARENT_BIT)
    } else if term == "CLONE_THREAD"@ {
        Some(CLONE_THREAD_BIT)
    } else if term == "CLONE_NEWNS"@ {
        Some(CLONE_NEWNS_BIT)
    } else if term == "CLONE_SYSVSEM"@ {
        Some(CLONE_SYSVSEM_BIT)
    } else if term == "CLONE_SETTLS"@ {
        Some(CLONE_SETTLS_BIT)
    } else if term == "CLONE_PARENT_SETTID"@ {
        Some(CLONE_PARENT_SETTID_BIT)
    } else if term == "CLONE_CHILD_CLEARTID"@ {
        Some(CLONE_CHILD_CLEARTID_BIT)
    } else if term == "CLONE_UNTRACED"@ {
        Some(CLONE_UNTRACED_BIT)
    } else if term == "CLONE_CHILD_SETTID"@ {
        Some(CLONE_CHILD_SETTID_BIT)
    } else if term == "CLONE_NEWCGROUP"@ {
        Some(CLONE_NEWCGROUP_BIT)
    } else if term == "CLONE_NEWUTS"@ {
        Some(CLONE_NEWUTS_BIT)
    } else if term == "CLONE_NEWIPC"@ {
        Some(CLONE_NEWIPC_BIT)
    } else if term == "CLONE_NEWUSER"@ {
        Some(CLONE_NEWUSER_BIT)
    } else if term == "CLONE_NEWPID"@ {
        Some(CLONE_NEWPID_BIT)
    } else if term == "CLONE_NEWNET"@ {
        Some(CLONE_NEWNET_BIT)
    } else if term == "CLONE_IO"@ {
        Some(CLONE_IO_BIT)
    } else if term == "CLONE_CLEAR_SIGHAND"@ {
        Some(CLONE_CLEAR_SIGHAND_BIT)
    } else if term == "CLONE_INTO_CGROUP"@ {
        Some(CLONE_INTO_CGROUP_BIT)
    } else if term == "CLONE_AUTOREAP"@ {
        Some(CLONE_AUTOREAP_BIT)
    } else if term == "CLONE_NNP"@ {
        Some(CLONE_NNP_BIT)
    } else if term == "CLONE_PIDFD_AUTOKILL"@ {
        Some(CLONE_PIDFD_AUTOKILL_BIT)
    } else if term == "CLONE_EMPTY_MNTNS"@ {
        Some(CLONE_EMPTY_MNTNS_BIT)
    } else {
        None
    }
}

/// Gives the bit of a flag of `clone3`.
pub fn clone3_flag_bit(term: &str) -> (r: Option<u64>)
    ensures
        r == clone3_flag(term@),
{
    if text::same(term, "0") {
        Some(0)
    } else if text::same(term, "CLONE_NEWTIME") {
        Some(CLONE_NEWTIME_BIT)
    } else if text::same(term, "CLONE_VM") {
        Some(CLONE_VM_BIT)
    } else if text::same(term, "CLONE_FS") {
        Some(CLONE_FS_BIT)
    } else if text::same(term, "CLONE_FILES") {
        Some(CLONE_FILES_BIT)
    } else if text::same(term, "CLONE_SIGHAND") {
        Some(CLONE_SIGHAND_BIT)
    } else if text::same(term, "CLONE_PIDFD") {
        Some(CLONE_PIDFD_BIT)
    } else if text::same(term, "CLONE_PTRACE") {
        Some(CLONE_PTRACE_BIT)
    } else if text::same(term, "CLONE_VFORK") {
        Some(CLONE_VFORK_BIT)
    } else if text::same(term, "CLONE_PARENT") {
        Some(CLONE_PARENT_BIT)
    } else if text::same(term, "CLONE_THREAD") {
        Some(CLONE_THREAD_BIT)
    } else if text::same(term, "CLONE_NEWNS") {
        Some(CLONE_NEWNS_BIT)
    } else if text::same(term, "CLONE_SYSVSEM") {
        Some(CLONE_SYSVSEM_BIT)
    } else if text::same(term, "CLONE_SETTLS") {
        Some(CLONE_SETTLS_BIT)
    } else if text::same(term, "CLONE_PARENT_SETTID") {
        Some(CLONE_PARENT_SETTID_BIT)
    } else if text::same(term, "CLONE_CHILD_CLEARTID") {
        Some(CLONE_CHILD_CLEARTID_BIT)
    } else if text::same(term, "CLONE_UNTRACED") {
        Some(CLONE_UNTRACED_BIT)
    } else if text::same(term, "CLONE_CHILD_SETTID") {
        Some(CLONE_CHILD_SETTID_BIT)
    } else if text::same(term, "CLONE_NEWCGROUP") {
        Some(CLONE_NEWCGROUP_BIT)
    } else if text::same(term, "CLONE_NEWUTS") {
        Some(CLONE_NEWUTS_BIT)
    } else if text::same(term, "CLONE_NEWIPC") {
        Some(CLONE_NEWIPC_BIT)
    } else if text::same(term, "CLONE_NEWUSER") {
        Some(CLONE_NEWUSER_BIT)
    } else if text::same(term, "CLONE_NEWPID") {
        Some(CLONE_NEWPID_BIT)
    } else if text::same(term, "CLONE_NEWNET") {
        Some(CLONE_NEWNET_BIT)
    } else if text::same(term, "CLONE_IO") {
        Some(CLONE_IO_BIT)
    } else if text::same(term, "CLONE_CLEAR_SIGHAND") {
        Some(CLONE_CLEAR_SIGHAND_BIT)
    } else if text::same(term, "CLONE_INTO_CGROUP") {
        Some(CLONE_INTO_CGROUP_BIT)
    } else if text::same(term, "CLONE_AUTOREAP") {
        Some(CLONE_AUTOREAP_BIT)
    } else if text::same(term, "CLONE_NNP") {
        Some(CLONE_NNP_BIT)
    } else if text::same(term, "CLONE_PIDFD_AUTOKILL") {
        Some(CLONE_PIDFD_AUTOKILL_BIT)
    } else if text::same(term, "CLONE_EMPTY_MNTNS") {
        Some(CLONE_EMPTY_MNTNS_BIT)
    } else {
        None
    }
}

/// The bit of a flag of `unshare`.
pub open spec fn unshare_flag(term: Seq<char>) -> Option<u64> {
    if term == "0"@ {
        Some(0)
    } else if term == "CLONE_NEWTIME"@ {
        Some(CLONE_NEWTIME_BIT)
    } else if term == "CLONE_VM"@ {
        Some(CLONE_VM_BIT)
    } else if term == "CLONE_FS"@ {
        Some(CLONE_FS_BIT)
    } else if term == "CLONE_FILES"@ {
        Some(CLONE_FILES_BIT)
    } else if term == "CLONE_SIGHAND"@ {
        Some(CLONE_SIGHAND_BIT)
    } else if term == "CLONE_THREAD"@ {
        Some(CLONE_THREAD_BIT)
    } else if term == "CLONE_NEWNS"@ {
        Some(CLONE_NEWNS_BIT)
    } else if term == "CLONE_SYSVSEM"@ {
        Some(CLONE_SYSVSEM_BIT)
    } else if term == "UNSHARE_EMPTY_MNTNS"@ {
        Some(UNSHARE_EMPTY_MNTNS_BIT)
    } else if term == "CLONE_NEWCGROUP"@ {
        Some(CLONE_NEWCGROUP_BIT)
    } else if term == "CLONE_NEWUTS"@ {
        Some(CLONE_NEWUTS_BIT)
    } else if term == "CLONE_NEWIPC"@ {
        Some(CLONE_NEWIPC_BIT)
    } else if term == "CLONE_NEWUSER"@ {
        Some(CLONE_NEWUSER_BIT)
    } else if term == "CLONE_NEWPID"@ {
        Some(CLONE_NEWPID_BIT)
    } else if term == "CLONE_NEWNET"@ {
        Some(CLONE_NEWNET_BIT)
    } else {
        None
    }
}

/// Gives the bit of a flag of `unshare`.
pub fn unshare_flag_bit(term: &str) -> (r: Option<u64>)
    ensures
        r == unshare_flag(term@),
{
    if text::same(term, "0") {
        Some(0)
    } else if text::same(term, "CLONE_NEWTIME") {
        Some(CLONE_NEWTIME_BIT)
    } else if text::same(term, "CLONE_VM") {
        Some(CLONE_VM_BIT)
    } else if text::same(term, "CLONE_FS") {
        Some(CLONE_FS_BIT)
    } else if text::same(term, "CLONE_FILES") {
        Some(CLONE_FILES_BIT)
    } else if text::same(term, "CLONE_SIGHAND") {
        Some(CLONE_SIGHAND_BIT)
    } else if text::same(term, "CLONE_THREAD") {
        Some(CLONE_THREAD_BIT)
    } else if text::same(term, "CLONE_NEWNS") {
        Some(CLONE_NEWNS_BIT)
    } else if text::same(term, "CLONE_SYSVSEM") {
        Some(CLONE_SYSVSEM_BIT)
    } else if text::same(term, "UNSHARE_EMPTY_MNTNS") {
        Some(UNSHARE_EMPTY_MNTNS_BIT)
    } else if text::same(term, "CLONE_NEWCGROUP") {
        Some(CLONE_NEWCGROUP_BIT)
    } else if text::same(term, "CLONE_NEWUTS") {
        Some(CLONE_NEWUTS_BIT)
    } else if text::same(term, "CLONE_NEWIPC") {
        Some(CLONE_NEWIPC_BIT)
    } else if text::same(term, "CLONE_NEWUSER") {
        Some(CLONE_NEWUSER_BIT)
    } else if text::same(term, "CLONE_NEWPID") {
        Some(CLONE_NEWPID_BIT)
    } else if text::same(term, "CLONE_NEWNET") {
        Some(CLONE_NEWNET_BIT)
    } else {
        None
    }
}

/// The calls whose flags are spelled by a closed set of names.
#[derive(Clone, Copy, Debug, PartialEq, Eq, Structural)]
pub enum FlagTable {
    /// The flags of `clone3`.
    Clone3,
    /// The flags of `unshare`.
    Unshare,
}

/// The bit of a flag in a table.
pub open spec fn flag_in(table: FlagTable, term: Seq<char>) -> Option<u64> {
    match table {
        FlagTable::Clone3 => clone3_flag(term),
        FlagTable::Unshare => unshare_flag(term),
    }
}

/// The first term of an expression, and what follows its `|`.
pub open spec fn next_term(s: Seq<char>) -> (Seq<char>, Option<Seq<char>>) {
    match text::split_char(s, '|') {
        Some((term, rest)) => (text::trimmed(term), Some(rest)),
        None => (text::trimmed(s), None),
    }
}

/// What follows a term is shorter than the expression.
pub proof fn next_term_shrinks(s: Seq<char>)
    ensures
        next_term(s).1 matches Some(rest) ==> rest.len() < s.len(),
{
    text::first_at_least(s, text::just('|'), 0);
}

/// The union of `bits` and the flags that the terms of an expression name, if
/// every term names one.
pub open spec fn bits_from(table: FlagTable, s: Seq<char>, bits: u64) -> Option<u64>
    decreases s.len(),
{
    proof {
        next_term_shrinks(s);
    }
    let (term, rest) = next_term(s);
    match flag_in(table, term) {
        None => None,
        Some(bit) => match rest {
            Some(rest) => bits_from(table, rest, bits | bit),
            None => Some(bits | bit),
        },
    }
}

/// Gives the first term of an expression, and what follows its `|`.
fn split_term<'a>(s: &'a str) -> (r: (&'a str, Option<&'a str>))
    ensures
        r.0@ == next_term(s@).0,
        views::opt(r.1) == next_term(s@).1,
        r.1 matches Some(rest) ==> rest@.len() < s@.len(),
{
    proof {
        next_term_shrinks(s@);
    }
    match text::split_once_char(s, '|') {
        Some((term, rest)) => (text::trim(term), Some(rest)),
        None => (text::trim(s), None),
    }
}

/// Gives the bit of a flag in a table.
fn flag_bit(table: FlagTable, term: &str) -> (r: Option<u64>)
    ensures
        r == flag_in(table, term@),
{
    match table {
        FlagTable::Clone3 => clone3_flag_bit(term),
        FlagTable::Unshare => unshare_flag_bit(term),
    }
}

/// Gives the union of the flags that an expression names, if every term names
/// one. An empty term names none.
pub fn symbolic_bits(expression: &str, table: FlagTable) -> (r: Option<u64>)
    ensures
        r == bits_from(table, expression@, 0),
{
    let mut bits: u64 = 0;
    let mut rest: &str = expression;
    loop
        invariant
            bits_from(table, expression@, 0) == bits_from(table, rest@, bits),
        decreases rest@.len(),
    {
        let (term, next) = split_term(rest);
        match flag_bit(table, term) {
            Some(bit) => {
                bits = bits | bit;
            },
            None => return None,
        }
        match next {
            Some(tail) => {
                rest = tail;
            },
            None => return Some(bits),
        }
    }
}

/// Whether flags and an exit signal may stand together in one call.
pub open spec fn combination_valid(bits: u64, clone3: bool, exit_signal: u64) -> bool {
    let on = |mask: u64| bits & mask != 0;
    &&& on(CLONE_SIGHAND_BIT) ==> on(CLONE_VM_BIT)
    &&& on(CLONE_THREAD_BIT) ==> on(CLONE_SIGHAND_BIT)
    &&& !(on(CLONE_FS_BIT) && on(CLONE_NAMESPACE_FLAGS))
    &&& !(on(CLONE_NEWUSER_BIT) && on(CLONE_FS_BIT | CLONE_THREAD_BIT | CLONE_PARENT_BIT))
    &&& !(on(CLONE_NEWIPC_BIT) && on(CLONE_SYSVSEM_BIT))
    &&& !(on(CLONE_NEWPID_BIT) && on(CLONE_THREAD_BIT | CLONE_PARENT_BIT))
    &&& exit_signal != 0 ==> !on(CLONE_THREAD_BIT | CLONE_PARENT_BIT)
    &&& if clone3 {
        &&& !(on(CLONE_CLEAR_SIGHAND_BIT) && on(CLONE_SIGHAND_BIT))
        &&& on(CLONE_AUTOREAP_BIT) ==> !on(CLONE_THREAD_BIT | CLONE_PARENT_BIT) && exit_signal
            == 0
        &&& !(on(CLONE_NNP_BIT) && on(CLONE_THREAD_BIT))
        &&& on(CLONE_PIDFD_AUTOKILL_BIT) ==> on(CLONE_PIDFD_BIT) && on(CLONE_AUTOREAP_BIT)
    } else {
        !(on(CLONE_PIDFD_BIT) && on(CLONE_DETACHED_BIT | CLONE_PARENT_SETTID_BIT))
    }
}

/// Whether flags and an exit signal may stand together in one call.
pub fn valid_clone_combination(bits: u64, clone3: bool, exit_signal: u64) -> (r: bool)
    ensures
        r == combination_valid(bits, clone3, exit_signal),
{
    if (bits & CLONE_SIGHAND_BIT != 0 && bits & CLONE_VM_BIT == 0)
        || (bits & CLONE_THREAD_BIT != 0 && bits & CLONE_SIGHAND_BIT == 0)
        || (bits & CLONE_FS_BIT != 0 && bits & CLONE_NAMESPACE_FLAGS != 0)
        || (bits & CLONE_NEWUSER_BIT != 0
            && bits & (CLONE_FS_BIT | CLONE_THREAD_BIT | CLONE_PARENT_BIT) != 0)
        || (bits & CLONE_NEWIPC_BIT != 0 && bits & CLONE_SYSVSEM_BIT != 0)
        || (bits & CLONE_NEWPID_BIT != 0 && bits & (CLONE_THREAD_BIT | CLONE_PARENT_BIT) != 0)
    {
        return false;
    }
    if exit_signal != 0 && bits & (CLONE_THREAD_BIT | CLONE_PARENT_BIT) != 0 {
        return false;
    }
    if clone3 {
        !(bits & CLONE_CLEAR_SIGHAND_BIT != 0 && bits & CLONE_SIGHAND_BIT != 0)
            && !(bits & CLONE_AUTOREAP_BIT != 0
                && (bits & (CLONE_THREAD_BIT | CLONE_PARENT_BIT) != 0 || exit_signal != 0))
            && !(bits & CLONE_NNP_BIT != 0 && bits & CLONE_THREAD_BIT != 0)
            && !(bits & CLONE_PIDFD_AUTOKILL_BIT != 0
                && (bits & CLONE_PIDFD_BIT == 0 || bits & CLONE_AUTOREAP_BIT == 0))
    } else {
        !(bits & CLONE_PIDFD_BIT != 0
            && bits & (CLONE_DETACHED_BIT | CLONE_PARENT_SETTID_BIT) != 0)
    }
}

/// What valid flags share with the parent.
pub open spec fn effect_of(bits: u64) -> SpawnEffect {
    if bits & CLONE_NAMESPACE_FLAGS != 0 {
        SpawnEffect::PrivateFsNamespaceUncertain
    } else if bits & CLONE_FS_BIT != 0 {
        SpawnEffect::SharedFs
    } else {
        SpawnEffect::PrivateFs
    }
}

/// Gives what valid flags share with the parent.
pub fn spawn_effect(bits: u64) -> (r: SpawnEffect)
    ensures
        r == effect_of(bits),
{
    if bits & CLONE_NAMESPACE_FLAGS != 0 {
        SpawnEffect::PrivateFsNamespaceUncertain
    } else if bits & CLONE_FS_BIT != 0 {
        SpawnEffect::SharedFs
    } else {
        SpawnEffect::PrivateFs
    }
}

/// The union of `bits` and what the terms of an expression name, of which at
/// most one is a signal (`signal_seen`: it has been named already).
pub open spec fn legacy_from(s: Seq<char>, bits: u64, signal_seen: bool) -> Option<u64>
    decreases s.len(),
{
    proof {
        next_term_shrinks(s);
    }
    let (term, rest) = next_term(s);
    match (legacy_clone_flag(term), signal_of(term)) {
        (Some(bit), _) => match rest {
            Some(rest) => legacy_from(rest, bits | bit, signal_seen),
            None => Some(bits | bit),
        },
        (None, Some(signal)) => if signal_seen {
            None
        } else {
            match rest {
                Some(rest) => legacy_from(rest, bits | signal, true),
                None => Some(bits | signal),
            }
        },
        (None, None) => None,
    }
}

/// The flags of `clone`: a number, or a union of names.
pub open spec fn legacy_bits(s: Seq<char>) -> Option<u64> {
    match number_of(s) {
        Some(n) => Some(n as u64),
        None => legacy_from(s, 0, false),
    }
}

/// What the flags of `clone` share with the parent; flags that are unknown or may
/// not stand together say nothing.
pub open spec fn legacy_effect(s: Seq<char>) -> SpawnEffect {
    match legacy_bits(s) {
        None => SpawnEffect::Unknown,
        Some(bits) => if bits & !LEGACY_CLONE_ALLOWED != 0 || bits & CSIGNAL_MASK > 64
            || !combination_valid(bits, false, bits & CSIGNAL_MASK) {
            SpawnEffect::Unknown
        } else {
            effect_of(bits)
        },
    }
}

/// Gives the union of what the terms of an expression name.
fn legacy_symbolic_bits(expression: &str) -> (r: Option<u64>)
    ensures
        r == legacy_from(expression@, 0, false),
{
    let mut bits: u64 = 0;
    let mut signal_seen: bool = false;
    let mut rest: &str = expression;
    loop
        invariant
            legacy_from(expression@, 0, false) == legacy_from(rest@, bits, signal_seen),
        decreases rest@.len(),
    {
        let (term, next) = split_term(rest);
        match legacy_clone_flag_bit(term) {
            Some(bit) => {
                bits = bits | bit;
            },
            None => match standard_signal_number(term) {
                Some(signal) => {
                    if signal_seen {
                        return None;
                    }
                    signal_seen = true;
                    bits = bits | signal;
                },
                None => return None,
            },
        }
        match next {
            Some(tail) => {
                rest = tail;
            },
            None => return Some(bits),
        }
    }
}

/// Gives what the flags of `clone` share with the parent.
pub fn decode_legacy_clone_flags(expression: &str) -> (r: SpawnEffect)
    ensures
        r == legacy_effect(expression@),
{
    let parsed: Option<u64> = match parse_number(expression) {
        Some(bits) => Some(bits),
        None => legacy_symbolic_bits(expression),
    };
    match parsed {
        Some(bits) => {
            let exit_signal: u64 = bits & CSIGNAL_MASK;
            if bits & !LEGACY_CLONE_ALLOWED != 0 || exit_signal > 64
                || !valid_clone_combination(bits, false, exit_signal) {
                SpawnEffect::Unknown
            } else {
                spawn_effect(bits)
            }
        },
        None => SpawnEffect::Unknown,
    }
}

/// The flags of `clone3` or `unshare`: a number, or a union of names.
pub open spec fn flag_bits(table: FlagTable, s: Seq<char>) -> Option<u64> {
    match number_of(s) {
        Some(n) => Some(n as u64),
        None => bits_from(table, s, 0),
    }
}

/// The exit signal of `clone3`: a number, or the name of a signal.
pub open spec fn exit_signal_of(s: Seq<char>) -> Option<u64> {
    match number_of(s) {
        Some(n) => Some(n as u64),
        None => signal_of(s),
    }
}

/// What the flags of `clone3` share with the parent.
pub open spec fn clone3_effect(flags: Seq<char>, signal: Seq<char>) -> SpawnEffect {
    match (flag_bits(FlagTable::Clone3, flags), exit_signal_of(signal)) {
        (Some(bits), Some(exit_signal)) => if bits & !CLONE3_ALLOWED != 0 || exit_signal > 64
            || !combination_valid(bits, true, exit_signal) {
            SpawnEffect::Unknown
        } else {
            effect_of(bits)
        },
        _ => SpawnEffect::Unknown,
    }
}

/// Gives what the flags of `clone3` share with the parent.
pub fn decode_clone3_flags(flags_expression: &str, exit_signal_expression: &str) -> (r: SpawnEffect)
    ensures
        r == clone3_effect(flags_expression@, exit_signal_expression@),
{
    let bits: u64 = match parse_number(flags_expression) {
        Some(bits) => bits,
        None => match symbolic_bits(flags_expression, FlagTable::Clone3) {
            Some(bits) => bits,
            None => return SpawnEffect::Unknown,
        },
    };
    let exit_signal: u64 = match parse_number(exit_signal_expression) {
        Some(signal) => signal,
        None => match standard_signal_number(exit_signal_expression) {
            Some(signal) => signal,
            None => return SpawnEffect::Unknown,
        },
    };
    if bits & !CLONE3_ALLOWED != 0 || exit_signal > 64
        || !valid_clone_combination(bits, true, exit_signal) {
        SpawnEffect::Unknown
    } else {
        spawn_effect(bits)
    }
}

/// What the flags of `unshare` split.
pub open spec fn unshare_effect(s: Seq<char>) -> UnshareEffect {
    match flag_bits(FlagTable::Unshare, s) {
        None => UnshareEffect::Unknown,
        Some(bits) => if bits & !UNSHARE_ALLOWED != 0 {
            UnshareEffect::Unknown
        } else if bits & UNSHARE_NAMESPACE_FLAGS != 0 {
            UnshareEffect::SplitFsNamespaceUncertain
        } else if bits & CLONE_FS_BIT != 0 {
            UnshareEffect::SplitFs
        } else {
            UnshareEffect::NoFsChange
        },
    }
}

/// Gives what the flags of `unshare` split.
pub fn decode_unshare_flags(expression: &str) -> (r: UnshareEffect)
    ensures
        r == unshare_effect(expression@),
{
    let bits: u64 = match parse_number(expression) {
        Some(bits) => bits,
        None => match symbolic_bits(expression, FlagTable::Unshare) {
            Some(bits) => bits,
            None => return UnshareEffect::Unknown,
        },
    };
    if bits & !UNSHARE_ALLOWED != 0 {
        return UnshareEffect::Unknown;
    }
    if bits & UNSHARE_NAMESPACE_FLAGS != 0 {
        UnshareEffect::SplitFsNamespaceUncertain
    } else if bits & CLONE_FS_BIT != 0 {
        UnshareEffect::SplitFs
    } else {
        UnshareEffect::NoFsChange
    }
}

/// What a successful spawn does to filesystem contexts.
pub open spec fn spawn_action_of(operation: Seq<char>, a: Seq<Seq<char>>) -> FsAction {
    if operation == "fork"@ || operation == "vfork"@ {
        FsAction::Spawn(SpawnEffect::PrivateFs)
    } else if operation == "clone"@ {
        match syntax::field_text(a, "flags="@) {
            Some(flags) => FsAction::Spawn(legacy_effect(flags)),
            None => FsAction::Spawn(SpawnEffect::Unknown),
        }
    } else if operation == "clone3"@ {
        match (syntax::field_text(a, "flags="@), syntax::field_text(a, "exit_signal="@)) {
            (Some(flags), Some(signal)) => FsAction::Spawn(clone3_effect(flags, signal)),
            _ => FsAction::Spawn(SpawnEffect::Unknown),
        }
    } else {
        FsAction::Nothing
    }
}

/// Gives what a successful spawn does to filesystem contexts.
pub fn spawn_action(operation: &str, args: &[&str]) -> (r: FsAction)
    ensures
        r == spawn_action_of(operation@, views::each(args@)),
{
    if text::same(operation, "fork") || text::same(operation, "vfork") {
        FsAction::Spawn(SpawnEffect::PrivateFs)
    } else if text::same(operation, "clone") {
        match field_expression(args, "flags=") {
            Some(flags) => FsAction::Spawn(decode_legacy_clone_flags(flags)),
            None => FsAction::Spawn(SpawnEffect::Unknown),
        }
    } else if text::same(operation, "clone3") {
        match (field_expression(args, "flags="), field_expression(args, "exit_signal=")) {
            (Some(flags), Some(signal)) => FsAction::Spawn(decode_clone3_flags(flags, signal)),
            _ => FsAction::Spawn(SpawnEffect::Unknown),
        }
    } else {
        FsAction::Nothing
    }
}

/// What a successful `unshare` does to filesystem contexts. Unlike the clones,
/// strace prints its flags as the first argument.
pub open spec fn unshare_action_of(a: Seq<Seq<char>>) -> FsAction {
    if a.len() == 0 {
        FsAction::Unshare(UnshareEffect::Unknown)
    } else {
        FsAction::Unshare(unshare_effect(a[0]))
    }
}

/// Gives what a successful `unshare` does to filesystem contexts.
pub fn unshare_action(args: &[&str]) -> (r: FsAction)
    ensures
        r == unshare_action_of(views::each(args@)),
{
    if args.len() == 0 {
        FsAction::Unshare(UnshareEffect::Unknown)
    } else {
        assert(views::each(args@)[0] == args@[0]@);
        FsAction::Unshare(decode_unshare_flags(args[0]))
    }
}

} // verus!
