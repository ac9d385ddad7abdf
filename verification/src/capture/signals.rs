//! The numbers of the signals that a trace names.
use vstd::prelude::*;
use vstd::string::*;

use crate::numbers;
use crate::text;

verus! {

/// The real-time signals that the C library leaves to programs.
#[derive(Debug, Clone, Copy, PartialEq, Eq, Structural)]
pub struct SignalRange {
    /// The first.
    pub first: i32,
    /// The last.
    pub last: i32,
}

/// The number of standard signals.
pub const STANDARD_SIGNALS: usize = 31;

/// The name of a standard signal, in the order of [`standard_signals`].
pub open spec fn standard_name(i: int) -> Seq<char> {
    if i == 0 {
        "SIGHUP"@
    } else if i == 1 {
        "SIGINT"@
    } else if i == 2 {
        "SIGQUIT"@
    } else if i == 3 {
        "SIGILL"@
    } else if i == 4 {
        "SIGTRAP"@
    } else if i == 5 {
        "SIGABRT"@
    } else if i == 6 {
        "SIGBUS"@
    } else if i == 7 {
        "SIGFPE"@
    } else if i == 8 {
        "SIGKILL"@
    } else if i == 9 {
        "SIGUSR1"@
    } else if i == 10 {
        "SIGSEGV"@
    } else if i == 11 {
        "SIGUSR2"@
    } else if i == 12 {
        "SIGPIPE"@
    } else if i == 13 {
        "SIGALRM"@
    } else if i == 14 {
        "SIGTERM"@
    } else if i == 15 {
        "SIGSTKFLT"@
    } else if i == 16 {
        "SIGCHLD"@
    } else if i == 17 {
        "SIGCONT"@
    } else if i == 18 {
        "SIGSTOP"@
    } else if i == 19 {
        "SIGTSTP"@
    } else if i == 20 {
        "SIGTTIN"@
    } else if i == 21 {
        "SIGTTOU"@
    } else if i == 22 {
        "SIGURG"@
    } else if i == 23 {
        "SIGXCPU"@
    } else if i == 24 {
        "SIGXFSZ"@
    } else if i == 25 {
        "SIGVTALRM"@
    } else if i == 26 {
        "SIGPROF"@
    } else if i == 27 {
        "SIGWINCH"@
    } else if i == 28 {
        "SIGIO"@
    } else if i == 29 {
        "SIGPWR"@
    } else {
        "SIGSYS"@
    }
}

/// Gives the name of a standard signal.
fn standard_name_at(i: usize) -> (r: &'static str)
    requires
        i < STANDARD_SIGNALS,
    ensures
        r@ == standard_name(i as int),
{
    match i {
        0 => "SIGHUP",
        1 => "SIGINT",
        2 => "SIGQUIT",
        3 => "SIGILL",
        4 => "SIGTRAP",
        5 => "SIGABRT",
        6 => "SIGBUS",
        7 => "SIGFPE",
        8 => "SIGKILL",
        9 => "SIGUSR1",
        10 => "SIGSEGV",
        11 => "SIGUSR2",
        12 => "SIGPIPE",
        13 => "SIGALRM",
        14 => "SIGTERM",
        15 => "SIGSTKFLT",
        16 => "SIGCHLD",
        17 => "SIGCONT",
        18 => "SIGSTOP",
        19 => "SIGTSTP",
        20 => "SIGTTIN",
        21 => "SIGTTOU",
        22 => "SIGURG",
        23 => "SIGXCPU",
        24 => "SIGXFSZ",
        25 => "SIGVTALRM",
        26 => "SIGPROF",
        27 => "SIGWINCH",
        28 => "SIGIO",
        29 => "SIGPWR",
        _ => "SIGSYS",
    }
}

/// The `SIG*` constants of the libc crate, which on Linux with the generic signal
/// numbers (as on x86-64 and 64-bit ARM) run from one on in this order.
#[verifier::external_body]
fn standard_signals() -> (r: Vec<i32>)
    ensures
        r@ == Seq::new(STANDARD_SIGNALS as nat, |i: int| (i + 1) as i32),
{
    vec![
        libc::SIGHUP, libc::SIGINT, libc::SIGQUIT, libc::SIGILL,
        libc::SIGTRAP, libc::SIGABRT, libc::SIGBUS, libc::SIGFPE,
        libc::SIGKILL, libc::SIGUSR1, libc::SIGSEGV, libc::SIGUSR2,
        libc::SIGPIPE, libc::SIGALRM, libc::SIGTERM, libc::SIGSTKFLT,
        libc::SIGCHLD, libc::SIGCONT, libc::SIGSTOP, libc::SIGTSTP,
        libc::SIGTTIN, libc::SIGTTOU, libc::SIGURG, libc::SIGXCPU,
        libc::SIGXFSZ, libc::SIGVTALRM, libc::SIGPROF, libc::SIGWINCH,
        libc::SIGIO, libc::SIGPWR, libc::SIGSYS,
    ]
}

/// The number of the signal that asks a process to end.
pub const TERMINATION_SIGNAL: i32 = 15;

/// Gives the number of the signal that asks a process to end.
pub fn termination_signal() -> (r: i32)
    ensures
        r == TERMINATION_SIGNAL,
        standard_name(r - 1) == "SIGTERM"@,
{
    standard_signals()[14]
}

/// `libc::SIGRTMIN`, which asks the C library for its first real-time signal. The
/// value is that of the machine, so nothing is said of it.
#[verifier::external_body]
fn first_real_time_signal() -> (r: i32) {
    libc::SIGRTMIN()
}

/// `libc::SIGRTMAX`, which asks the C library for its last real-time signal. The
/// value is that of the machine, so nothing is said of it.
#[verifier::external_body]
fn last_real_time_signal() -> (r: i32) {
    libc::SIGRTMAX()
}

/// The real-time signals of this machine.
pub(crate) fn signal_range() -> (r: SignalRange) {
    SignalRange { first: first_real_time_signal(), last: last_real_time_signal() }
}

/// The number of the first standard signal from `i` on with a name.
pub open spec fn standard_from(name: Seq<char>, i: int) -> Option<i32>
    decreases STANDARD_SIGNALS - i,
{
    if i < 0 || i >= STANDARD_SIGNALS {
        None
    } else if standard_name(i) == name {
        Some((i + 1) as i32)
    } else {
        standard_from(name, i + 1)
    }
}

/// A number in a range of signals.
pub open spec fn within(n: int, first: int, last: int) -> Option<i32> {
    if first <= n <= last && n <= i32::MAX {
        Some(n as i32)
    } else {
        None
    }
}

/// The offset behind a prefix, where it is a number.
pub open spec fn offset_after(name: Seq<char>, prefix: Seq<char>) -> Option<int> {
    match text::after_prefix(name, prefix) {
        Some(rest) => numbers::i32_value(rest),
        None => None,
    }
}

/// The number of a signal. strace counts `SIGRT_` from the first real-time signal
/// of the kernel, 32, and not from that of the C library.
pub open spec fn signal_value(name: Seq<char>, range: SignalRange) -> Option<i32> {
    match (offset_after(name, "SIGRT_"@), offset_after(name, "SIGRTMIN+"@)) {
        (Some(offset), _) => within(offset + 32, 32, range.last as int),
        (None, Some(offset)) => within(
            range.first + offset,
            range.first as int,
            range.last as int,
        ),
        (None, None) => if name == "SIGRTMIN"@ {
            Some(range.first)
        } else if name == "SIGRTMAX"@ {
            Some(range.last)
        } else {
            standard_from(name, 0)
        },
    }
}

/// The number of the signal that a process status names.
pub open spec fn status_signal(outcome: Seq<char>, range: SignalRange) -> Option<i32> {
    match text::after_prefix(outcome, "+++ killed by "@) {
        None => None,
        Some(rest) => match text::first_word(rest) {
            None => None,
            Some(name) => signal_value(name, range),
        },
    }
}

/// Gives the offset behind a prefix, where it is a number.
fn offset_behind(name: &str, prefix: &str) -> (r: Option<i32>)
    ensures
        match r {
            Some(n) => offset_after(name@, prefix@) == Some(n as int),
            None => offset_after(name@, prefix@) is None,
        },
{
    match text::strip_prefix(name, prefix) {
        Some(rest) => numbers::signed_number(rest),
        None => None,
    }
}

/// Gives a sum in a range of signals.
fn sum_within(base: i32, offset: i32, first: i32, last: i32) -> (r: Option<i32>)
    ensures
        r == within(base + offset, first as int, last as int),
{
    let n: i64 = base as i64 + offset as i64;
    if first as i64 <= n && n <= last as i64 {
        Some(n as i32)
    } else {
        None
    }
}

/// Gives the number of the signal that a process status names, on a machine with
/// the given real-time signals.
pub fn signal_number_in(outcome: &str, range: SignalRange) -> (r: Option<i32>)
    ensures
        r == status_signal(outcome@, range),
{
    let name: &str = match text::strip_prefix(outcome, "+++ killed by ") {
        Some(rest) => match text::word(rest) {
            Some(name) => name,
            None => return None,
        },
        None => return None,
    };
    match offset_behind(name, "SIGRT_") {
        Some(offset) => return sum_within(32, offset, 32, range.last),
        None => {},
    }
    match offset_behind(name, "SIGRTMIN+") {
        Some(offset) => return sum_within(range.first, offset, range.first, range.last),
        None => {},
    }
    if text::same(name, "SIGRTMIN") {
        return Some(range.first);
    }
    if text::same(name, "SIGRTMAX") {
        return Some(range.last);
    }
    let values: Vec<i32> = standard_signals();
    let mut i: usize = 0;
    while i < STANDARD_SIGNALS
        invariant
            i <= STANDARD_SIGNALS,
            values@ == Seq::new(STANDARD_SIGNALS as nat, |i: int| (i + 1) as i32),
            status_signal(outcome@, range) == standard_from(name@, i as int),
        decreases STANDARD_SIGNALS - i,
    {
        if text::same(standard_name_at(i), name) {
            return Some(values[i]);
        }
        i = i + 1;
    }
    None
}

/// Gives the number of the signal that a process status names on this machine.
pub fn signal_number(outcome: &str) -> (r: Option<i32>)
    ensures
        exists|range: SignalRange| r == #[trigger] status_signal(outcome@, range),
{
    let range: SignalRange = signal_range();
    signal_number_in(outcome, range)
}

} // verus!
