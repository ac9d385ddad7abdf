//! What the names of flags and signals stand for.
use vstd::prelude::*;

use crate::numbers;
use crate::parse::flags;
use crate::parse::flags::{FlagTable, InvalidationScope, TraceOperation};
use crate::text;

verus! {

/// Whether the characters from `i` up to `j` stand between two bars of an expression, or
/// between a bar and one of its ends.
pub open spec fn is_term(s: Seq<char>, i: int, j: int) -> bool {
    &&& 0 <= i <= j <= s.len()
    &&& i > 0 ==> s[i - 1] == '|'
    &&& j < s.len() ==> s[j] == '|'
    &&& forall|k: int| i <= k < j ==> #[trigger] s[k] != '|'
}

/// Whether a name is one of those that an expression joins by bars.
pub open spec fn has_term(s: Seq<char>, name: Seq<char>) -> bool {
    exists|i: int, j: int| #[trigger] is_term(s, i, j) && text::trimmed(s.subrange(i, j)) == name
}

/// The names of an expression are its first one and those behind its first bar.
proof fn terms_split(s: Seq<char>, name: Seq<char>)
    ensures
        match flags::next_term(s) {
            (term, None) => has_term(s, name) <==> name == term,
            (term, Some(rest)) => has_term(s, name) <==> name == term || has_term(rest, name),
        },
{
    let n = s.len() as int;
    let at = text::first_at(s, text::just('|'), 0);
    text::first_at_least(s, text::just('|'), 0);
    if at < n {
        let rest = s.subrange(at + 1, n);
        assert(is_term(s, 0, at));
        if has_term(s, name) {
            let (i, j) = choose|i: int, j: int| #[trigger]
                is_term(s, i, j) && text::trimmed(s.subrange(i, j)) == name;
            if i <= at {
                if i > 0 {
                    assert(s[i - 1] == '|');
                }
                assert(i == 0);
                if j > at {
                    assert(s[at] != '|');
                }
                assert(j == at);
            } else {
                assert(is_term(rest, i - at - 1, j - at - 1));
                assert(rest.subrange(i - at - 1, j - at - 1) =~= s.subrange(i, j));
            }
        }
        if has_term(rest, name) {
            let (i, j) = choose|i: int, j: int| #[trigger]
                is_term(rest, i, j) && text::trimmed(rest.subrange(i, j)) == name;
            assert forall|k: int| i + at + 1 <= k < j + at + 1 implies #[trigger] s[k] != '|' by {
                assert(rest[k - at - 1] != '|');
            }
            assert(is_term(s, i + at + 1, j + at + 1));
            assert(rest.subrange(i, j) =~= s.subrange(i + at + 1, j + at + 1));
        }
    } else {
        assert(is_term(s, 0, n));
        assert(s.subrange(0, n) =~= s);
        if has_term(s, name) {
            let (i, j) = choose|i: int, j: int| #[trigger]
                is_term(s, i, j) && text::trimmed(s.subrange(i, j)) == name;
            assert(i == 0 && j == n);
        }
    }
}

/// Each name of a flag of `clone` stands for the bit of that name in the kernel.
#[verifier::spinoff_prover]
pub proof fn clone_flag_names()
    ensures
        flags::legacy_clone_flag("0"@) == Some(0x0u64),
        flags::legacy_clone_flag("CLONE_VM"@) == Some(0x100u64),
        flags::legacy_clone_flag("CLONE_FS"@) == Some(0x200u64),
        flags::legacy_clone_flag("CLONE_FILES"@) == Some(0x400u64),
        flags::legacy_clone_flag("CLONE_SIGHAND"@) == Some(0x800u64),
        flags::legacy_clone_flag("CLONE_PIDFD"@) == Some(0x1000u64),
        flags::legacy_clone_flag("CLONE_PTRACE"@) == Some(0x2000u64),
        flags::legacy_clone_flag("CLONE_VFORK"@) == Some(0x4000u64),
        flags::legacy_clone_flag("CLONE_PARENT"@) == Some(0x8000u64),
        flags::legacy_clone_flag("CLONE_THREAD"@) == Some(0x1_0000u64),
        flags::legacy_clone_flag("CLONE_NEWNS"@) == Some(0x2_0000u64),
        flags::legacy_clone_flag("CLONE_SYSVSEM"@) == Some(0x4_0000u64),
        flags::legacy_clone_flag("CLONE_SETTLS"@) == Some(0x8_0000u64),
        flags::legacy_clone_flag("CLONE_PARENT_SETTID"@) == Some(0x10_0000u64),
        flags::legacy_clone_flag("CLONE_CHILD_CLEARTID"@) == Some(0x20_0000u64),
        flags::legacy_clone_flag("CLONE_DETACHED"@) == Some(0x40_0000u64),
        flags::legacy_clone_flag("CLONE_UNTRACED"@) == Some(0x80_0000u64),
        flags::legacy_clone_flag("CLONE_CHILD_SETTID"@) == Some(0x100_0000u64),
        flags::legacy_clone_flag("CLONE_NEWCGROUP"@) == Some(0x200_0000u64),
        flags::legacy_clone_flag("CLONE_NEWUTS"@) == Some(0x400_0000u64),
        flags::legacy_clone_flag("CLONE_NEWIPC"@) == Some(0x800_0000u64),
        flags::legacy_clone_flag("CLONE_NEWUSER"@) == Some(0x1000_0000u64),
        flags::legacy_clone_flag("CLONE_NEWPID"@) == Some(0x2000_0000u64),
        flags::legacy_clone_flag("CLONE_NEWNET"@) == Some(0x4000_0000u64),
        flags::legacy_clone_flag("CLONE_IO"@) == Some(0x8000_0000u64),
{
    reveal_strlit("0");
    reveal_strlit("CLONE_VM");
    reveal_strlit("CLONE_FS");
    reveal_strlit("CLONE_FILES");
    reveal_strlit("CLONE_SIGHAND");
    reveal_strlit("CLONE_PIDFD");
    reveal_strlit("CLONE_PTRACE");
    reveal_strlit("CLONE_VFORK");
    reveal_strlit("CLONE_PARENT");
    reveal_strlit("CLONE_THREAD");
    reveal_strlit("CLONE_NEWNS");
    reveal_strlit("CLONE_SYSVSEM");
    reveal_strlit("CLONE_SETTLS");
    reveal_strlit("CLONE_PARENT_SETTID");
    reveal_strlit("CLONE_CHILD_CLEARTID");
    reveal_strlit("CLONE_DETACHED");
    reveal_strlit("CLONE_UNTRACED");
    reveal_strlit("CLONE_CHILD_SETTID");
    reveal_strlit("CLONE_NEWCGROUP");
    reveal_strlit("CLONE_NEWUTS");
    reveal_strlit("CLONE_NEWIPC");
    reveal_strlit("CLONE_NEWUSER");
    reveal_strlit("CLONE_NEWPID");
    reveal_strlit("CLONE_NEWNET");
    reveal_strlit("CLONE_IO");
    assert("0"@.len() == 1);
    assert("CLONE_VM"@.len() == 8 && "CLONE_VM"@[7] == 'M');
    assert("CLONE_FS"@.len() == 8 && "CLONE_FS"@[7] == 'S');
    assert("CLONE_IO"@.len() == 8 && "CLONE_IO"@[7] == 'O');
    assert("CLONE_FILES"@.len() == 11 && "CLONE_FILES"@[9] == 'E' && "CLONE_FILES"@[10] == 'S');
    assert("CLONE_PIDFD"@.len() == 11 && "CLONE_PIDFD"@[9] == 'F' && "CLONE_PIDFD"@[10] == 'D');
    assert("CLONE_VFORK"@.len() == 11 && "CLONE_VFORK"@[9] == 'R' && "CLONE_VFORK"@[10] == 'K');
    assert("CLONE_NEWNS"@.len() == 11 && "CLONE_NEWNS"@[9] == 'N' && "CLONE_NEWNS"@[10] == 'S');
    assert("CLONE_PTRACE"@.len() == 12 && "CLONE_PTRACE"@[10] == 'C' && "CLONE_PTRACE"@[11] == 'E');
    assert("CLONE_PARENT"@.len() == 12 && "CLONE_PARENT"@[10] == 'N' && "CLONE_PARENT"@[11] == 'T');
    assert("CLONE_THREAD"@.len() == 12 && "CLONE_THREAD"@[10] == 'A' && "CLONE_THREAD"@[11] == 'D');
    assert("CLONE_SETTLS"@.len() == 12 && "CLONE_SETTLS"@[10] == 'L' && "CLONE_SETTLS"@[11] == 'S');
    assert("CLONE_NEWUTS"@.len() == 12 && "CLONE_NEWUTS"@[10] == 'T' && "CLONE_NEWUTS"@[11] == 'S');
    assert("CLONE_NEWIPC"@.len() == 12 && "CLONE_NEWIPC"@[10] == 'P' && "CLONE_NEWIPC"@[11] == 'C');
    assert("CLONE_NEWPID"@.len() == 12 && "CLONE_NEWPID"@[10] == 'I' && "CLONE_NEWPID"@[11] == 'D');
    assert("CLONE_NEWNET"@.len() == 12 && "CLONE_NEWNET"@[10] == 'E' && "CLONE_NEWNET"@[11] == 'T');
    assert("CLONE_SIGHAND"@.len() == 13 && "CLONE_SIGHAND"@[12] == 'D');
    assert("CLONE_SYSVSEM"@.len() == 13 && "CLONE_SYSVSEM"@[12] == 'M');
    assert("CLONE_NEWUSER"@.len() == 13 && "CLONE_NEWUSER"@[12] == 'R');
    assert("CLONE_DETACHED"@.len() == 14 && "CLONE_DETACHED"@[11] == 'H');
    assert("CLONE_UNTRACED"@.len() == 14 && "CLONE_UNTRACED"@[11] == 'C');
    assert("CLONE_NEWCGROUP"@.len() == 15);
    assert("CLONE_CHILD_SETTID"@.len() == 18);
    assert("CLONE_PARENT_SETTID"@.len() == 19);
    assert("CLONE_CHILD_CLEARTID"@.len() == 20);
}

/// Each name of a flag of `clone3` stands for the bit of that name in the kernel.
#[verifier::spinoff_prover]
pub proof fn clone3_flag_names()
    ensures
        flags::clone3_flag("0"@) == Some(0x0u64),
        flags::clone3_flag("CLONE_NEWTIME"@) == Some(0x80u64),
        flags::clone3_flag("CLONE_VM"@) == Some(0x100u64),
        flags::clone3_flag("CLONE_FS"@) == Some(0x200u64),
        flags::clone3_flag("CLONE_FILES"@) == Some(0x400u64),
        flags::clone3_flag("CLONE_SIGHAND"@) == Some(0x800u64),
        flags::clone3_flag("CLONE_PIDFD"@) == Some(0x1000u64),
        flags::clone3_flag("CLONE_PTRACE"@) == Some(0x2000u64),
        flags::clone3_flag("CLONE_VFORK"@) == Some(0x4000u64),
        flags::clone3_flag("CLONE_PARENT"@) == Some(0x8000u64),
        flags::clone3_flag("CLONE_THREAD"@) == Some(0x1_0000u64),
        flags::clone3_flag("CLONE_NEWNS"@) == Some(0x2_0000u64),
        flags::clone3_flag("CLONE_SYSVSEM"@) == Some(0x4_0000u64),
        flags::clone3_flag("CLONE_SETTLS"@) == Some(0x8_0000u64),
        flags::clone3_flag("CLONE_PARENT_SETTID"@) == Some(0x10_0000u64),
        flags::clone3_flag("CLONE_CHILD_CLEARTID"@) == Some(0x20_0000u64),
        flags::clone3_flag("CLONE_UNTRACED"@) == Some(0x80_0000u64),
        flags::clone3_flag("CLONE_CHILD_SETTID"@) == Some(0x100_0000u64),
        flags::clone3_flag("CLONE_NEWCGROUP"@) == Some(0x200_0000u64),
        flags::clone3_flag("CLONE_NEWUTS"@) == Some(0x400_0000u64),
        flags::clone3_flag("CLONE_NEWIPC"@) == Some(0x800_0000u64),
        flags::clone3_flag("CLONE_NEWUSER"@) == Some(0x1000_0000u64),
        flags::clone3_flag("CLONE_NEWPID"@) == Some(0x2000_0000u64),
        flags::clone3_flag("CLONE_NEWNET"@) == Some(0x4000_0000u64),
        flags::clone3_flag("CLONE_IO"@) == Some(0x8000_0000u64),
        flags::clone3_flag("CLONE_CLEAR_SIGHAND"@) == Some(0x1_0000_0000u64),
        flags::clone3_flag("CLONE_INTO_CGROUP"@) == Some(0x2_0000_0000u64),
        flags::clone3_flag("CLONE_AUTOREAP"@) == Some(0x4_0000_0000u64),
        flags::clone3_flag("CLONE_NNP"@) == Some(0x8_0000_0000u64),
        flags::clone3_flag("CLONE_PIDFD_AUTOKILL"@) == Some(0x10_0000_0000u64),
        flags::clone3_flag("CLONE_EMPTY_MNTNS"@) == Some(0x20_0000_0000u64),
{
    reveal_strlit("0");
    reveal_strlit("CLONE_NEWTIME");
    reveal_strlit("CLONE_VM");
    reveal_strlit("CLONE_FS");
    reveal_strlit("CLONE_FILES");
    reveal_strlit("CLONE_SIGHAND");
    reveal_strlit("CLONE_PIDFD");
    reveal_strlit("CLONE_PTRACE");
    reveal_strlit("CLONE_VFORK");
    reveal_strlit("CLONE_PARENT");
    reveal_strlit("CLONE_THREAD");
    reveal_strlit("CLONE_NEWNS");
    reveal_strlit("CLONE_SYSVSEM");
    reveal_strlit("CLONE_SETTLS");
    reveal_strlit("CLONE_PARENT_SETTID");
    reveal_strlit("CLONE_CHILD_CLEARTID");
    reveal_strlit("CLONE_UNTRACED");
    reveal_strlit("CLONE_CHILD_SETTID");
    reveal_strlit("CLONE_NEWCGROUP");
    reveal_strlit("CLONE_NEWUTS");
    reveal_strlit("CLONE_NEWIPC");
    reveal_strlit("CLONE_NEWUSER");
    reveal_strlit("CLONE_NEWPID");
    reveal_strlit("CLONE_NEWNET");
    reveal_strlit("CLONE_IO");
    reveal_strlit("CLONE_CLEAR_SIGHAND");
    reveal_strlit("CLONE_INTO_CGROUP");
    reveal_strlit("CLONE_AUTOREAP");
    reveal_strlit("CLONE_NNP");
    reveal_strlit("CLONE_PIDFD_AUTOKILL");
    reveal_strlit("CLONE_EMPTY_MNTNS");
    assert("0"@.len() == 1);
    assert("CLONE_VM"@.len() == 8 && "CLONE_VM"@[7] == 'M');
    assert("CLONE_FS"@.len() == 8 && "CLONE_FS"@[7] == 'S');
    assert("CLONE_IO"@.len() == 8 && "CLONE_IO"@[7] == 'O');
    assert("CLONE_NNP"@.len() == 9);
    assert("CLONE_FILES"@.len() == 11 && "CLONE_FILES"@[9] == 'E' && "CLONE_FILES"@[10] == 'S');
    assert("CLONE_PIDFD"@.len() == 11 && "CLONE_PIDFD"@[9] == 'F' && "CLONE_PIDFD"@[10] == 'D');
    assert("CLONE_VFORK"@.len() == 11 && "CLONE_VFORK"@[9] == 'R' && "CLONE_VFORK"@[10] == 'K');
    assert("CLONE_NEWNS"@.len() == 11 && "CLONE_NEWNS"@[9] == 'N' && "CLONE_NEWNS"@[10] == 'S');
    assert("CLONE_PTRACE"@.len() == 12 && "CLONE_PTRACE"@[10] == 'C' && "CLONE_PTRACE"@[11] == 'E');
    assert("CLONE_PARENT"@.len() == 12 && "CLONE_PARENT"@[10] == 'N' && "CLONE_PARENT"@[11] == 'T');
    assert("CLONE_THREAD"@.len() == 12 && "CLONE_THREAD"@[10] == 'A' && "CLONE_THREAD"@[11] == 'D');
    assert("CLONE_SETTLS"@.len() == 12 && "CLONE_SETTLS"@[10] == 'L' && "CLONE_SETTLS"@[11] == 'S');
    assert("CLONE_NEWUTS"@.len() == 12 && "CLONE_NEWUTS"@[10] == 'T' && "CLONE_NEWUTS"@[11] == 'S');
    assert("CLONE_NEWIPC"@.len() == 12 && "CLONE_NEWIPC"@[10] == 'P' && "CLONE_NEWIPC"@[11] == 'C');
    assert("CLONE_NEWPID"@.len() == 12 && "CLONE_NEWPID"@[10] == 'I' && "CLONE_NEWPID"@[11] == 'D');
    assert("CLONE_NEWNET"@.len() == 12 && "CLONE_NEWNET"@[10] == 'E' && "CLONE_NEWNET"@[11] == 'T');
    assert("CLONE_NEWTIME"@.len() == 13 && "CLONE_NEWTIME"@[12] == 'E');
    assert("CLONE_SIGHAND"@.len() == 13 && "CLONE_SIGHAND"@[12] == 'D');
    assert("CLONE_SYSVSEM"@.len() == 13 && "CLONE_SYSVSEM"@[12] == 'M');
    assert("CLONE_NEWUSER"@.len() == 13 && "CLONE_NEWUSER"@[12] == 'R');
    assert("CLONE_UNTRACED"@.len() == 14 && "CLONE_UNTRACED"@[13] == 'D');
    assert("CLONE_AUTOREAP"@.len() == 14 && "CLONE_AUTOREAP"@[13] == 'P');
    assert("CLONE_NEWCGROUP"@.len() == 15);
    assert("CLONE_INTO_CGROUP"@.len() == 17 && "CLONE_INTO_CGROUP"@[16] == 'P');
    assert("CLONE_EMPTY_MNTNS"@.len() == 17 && "CLONE_EMPTY_MNTNS"@[16] == 'S');
    assert("CLONE_CHILD_SETTID"@.len() == 18);
    assert("CLONE_PARENT_SETTID"@.len() == 19 && "CLONE_PARENT_SETTID"@[17] == 'I');
    assert("CLONE_CLEAR_SIGHAND"@.len() == 19 && "CLONE_CLEAR_SIGHAND"@[17] == 'N');
    assert("CLONE_CHILD_CLEARTID"@.len() == 20 && "CLONE_CHILD_CLEARTID"@[19] == 'D');
    assert("CLONE_PIDFD_AUTOKILL"@.len() == 20 && "CLONE_PIDFD_AUTOKILL"@[19] == 'L');
}

/// Each name of a flag of `unshare` stands for the bit of that name in the kernel.
#[verifier::spinoff_prover]
pub proof fn unshare_flag_names()
    ensures
        flags::unshare_flag("0"@) == Some(0x0u64),
        flags::unshare_flag("CLONE_NEWTIME"@) == Some(0x80u64),
        flags::unshare_flag("CLONE_VM"@) == Some(0x100u64),
        flags::unshare_flag("CLONE_FS"@) == Some(0x200u64),
        flags::unshare_flag("CLONE_FILES"@) == Some(0x400u64),
        flags::unshare_flag("CLONE_SIGHAND"@) == Some(0x800u64),
        flags::unshare_flag("CLONE_THREAD"@) == Some(0x1_0000u64),
        flags::unshare_flag("CLONE_NEWNS"@) == Some(0x2_0000u64),
        flags::unshare_flag("CLONE_SYSVSEM"@) == Some(0x4_0000u64),
        flags::unshare_flag("CLONE_NEWCGROUP"@) == Some(0x200_0000u64),
        flags::unshare_flag("CLONE_NEWUTS"@) == Some(0x400_0000u64),
        flags::unshare_flag("CLONE_NEWIPC"@) == Some(0x800_0000u64),
        flags::unshare_flag("CLONE_NEWUSER"@) == Some(0x1000_0000u64),
        flags::unshare_flag("CLONE_NEWPID"@) == Some(0x2000_0000u64),
        flags::unshare_flag("CLONE_NEWNET"@) == Some(0x4000_0000u64),
        flags::unshare_flag("UNSHARE_EMPTY_MNTNS"@) == Some(0x10_0000u64),
{
    reveal_strlit("0");
    reveal_strlit("CLONE_NEWTIME");
    reveal_strlit("CLONE_VM");
    reveal_strlit("CLONE_FS");
    reveal_strlit("CLONE_FILES");
    reveal_strlit("CLONE_SIGHAND");
    reveal_strlit("CLONE_THREAD");
    reveal_strlit("CLONE_NEWNS");
    reveal_strlit("CLONE_SYSVSEM");
    reveal_strlit("CLONE_NEWCGROUP");
    reveal_strlit("CLONE_NEWUTS");
    reveal_strlit("CLONE_NEWIPC");
    reveal_strlit("CLONE_NEWUSER");
    reveal_strlit("CLONE_NEWPID");
    reveal_strlit("CLONE_NEWNET");
    reveal_strlit("UNSHARE_EMPTY_MNTNS");
    assert("0"@.len() == 1);
    assert("CLONE_VM"@.len() == 8 && "CLONE_VM"@[7] == 'M');
    assert("CLONE_FS"@.len() == 8 && "CLONE_FS"@[7] == 'S');
    assert("CLONE_FILES"@.len() == 11 && "CLONE_FILES"@[9] == 'E');
    assert("CLONE_NEWNS"@.len() == 11 && "CLONE_NEWNS"@[9] == 'N');
    assert("CLONE_THREAD"@.len() == 12 && "CLONE_THREAD"@[10] == 'A' && "CLONE_THREAD"@[11] == 'D');
    assert("CLONE_NEWUTS"@.len() == 12 && "CLONE_NEWUTS"@[10] == 'T' && "CLONE_NEWUTS"@[11] == 'S');
    assert("CLONE_NEWIPC"@.len() == 12 && "CLONE_NEWIPC"@[10] == 'P' && "CLONE_NEWIPC"@[11] == 'C');
    assert("CLONE_NEWPID"@.len() == 12 && "CLONE_NEWPID"@[10] == 'I' && "CLONE_NEWPID"@[11] == 'D');
    assert("CLONE_NEWNET"@.len() == 12 && "CLONE_NEWNET"@[10] == 'E' && "CLONE_NEWNET"@[11] == 'T');
    assert("CLONE_NEWTIME"@.len() == 13 && "CLONE_NEWTIME"@[12] == 'E');
    assert("CLONE_SIGHAND"@.len() == 13 && "CLONE_SIGHAND"@[12] == 'D');
    assert("CLONE_SYSVSEM"@.len() == 13 && "CLONE_SYSVSEM"@[12] == 'M');
    assert("CLONE_NEWUSER"@.len() == 13 && "CLONE_NEWUSER"@[12] == 'R');
    assert("CLONE_NEWCGROUP"@.len() == 15);
    assert("UNSHARE_EMPTY_MNTNS"@.len() == 19);
}

/// Each name of a signal stands for its number on Linux.
#[verifier::spinoff_prover]
pub proof fn signal_names()
    ensures
        flags::signal_of("SIGHUP"@) == Some(1u64),
        flags::signal_of("SIGINT"@) == Some(2u64),
        flags::signal_of("SIGQUIT"@) == Some(3u64),
        flags::signal_of("SIGILL"@) == Some(4u64),
        flags::signal_of("SIGTRAP"@) == Some(5u64),
        flags::signal_of("SIGABRT"@) == Some(6u64),
        flags::signal_of("SIGBUS"@) == Some(7u64),
        flags::signal_of("SIGFPE"@) == Some(8u64),
        flags::signal_of("SIGKILL"@) == Some(9u64),
        flags::signal_of("SIGUSR1"@) == Some(10u64),
        flags::signal_of("SIGSEGV"@) == Some(11u64),
        flags::signal_of("SIGUSR2"@) == Some(12u64),
        flags::signal_of("SIGPIPE"@) == Some(13u64),
        flags::signal_of("SIGALRM"@) == Some(14u64),
        flags::signal_of("SIGTERM"@) == Some(15u64),
        flags::signal_of("SIGSTKFLT"@) == Some(16u64),
        flags::signal_of("SIGCHLD"@) == Some(17u64),
        flags::signal_of("SIGCONT"@) == Some(18u64),
        flags::signal_of("SIGSTOP"@) == Some(19u64),
        flags::signal_of("SIGTSTP"@) == Some(20u64),
        flags::signal_of("SIGTTIN"@) == Some(21u64),
        flags::signal_of("SIGTTOU"@) == Some(22u64),
        flags::signal_of("SIGURG"@) == Some(23u64),
        flags::signal_of("SIGXCPU"@) == Some(24u64),
        flags::signal_of("SIGXFSZ"@) == Some(25u64),
        flags::signal_of("SIGVTALRM"@) == Some(26u64),
        flags::signal_of("SIGPROF"@) == Some(27u64),
        flags::signal_of("SIGWINCH"@) == Some(28u64),
        flags::signal_of("SIGIO"@) == Some(29u64),
        flags::signal_of("SIGPWR"@) == Some(30u64),
        flags::signal_of("SIGSYS"@) == Some(31u64),
        flags::signal_of("SIGRTMIN"@) == Some(32u64),
        flags::signal_of("SIGRTMAX"@) == Some(64u64),
{
    reveal_strlit("SIGHUP");
    reveal_strlit("SIGINT");
    reveal_strlit("SIGQUIT");
    reveal_strlit("SIGILL");
    reveal_strlit("SIGTRAP");
    reveal_strlit("SIGABRT");
    reveal_strlit("SIGBUS");
    reveal_strlit("SIGFPE");
    reveal_strlit("SIGKILL");
    reveal_strlit("SIGUSR1");
    reveal_strlit("SIGSEGV");
    reveal_strlit("SIGUSR2");
    reveal_strlit("SIGPIPE");
    reveal_strlit("SIGALRM");
    reveal_strlit("SIGTERM");
    reveal_strlit("SIGSTKFLT");
    reveal_strlit("SIGCHLD");
    reveal_strlit("SIGCONT");
    reveal_strlit("SIGSTOP");
    reveal_strlit("SIGTSTP");
    reveal_strlit("SIGTTIN");
    reveal_strlit("SIGTTOU");
    reveal_strlit("SIGURG");
    reveal_strlit("SIGXCPU");
    reveal_strlit("SIGXFSZ");
    reveal_strlit("SIGVTALRM");
    reveal_strlit("SIGPROF");
    reveal_strlit("SIGWINCH");
    reveal_strlit("SIGIO");
    reveal_strlit("SIGPWR");
    reveal_strlit("SIGSYS");
    reveal_strlit("SIGRTMIN");
    reveal_strlit("SIGRTMAX");
    assert("SIGIO"@.len() == 5);
    assert("SIGHUP"@.len() == 6 && "SIGHUP"@[4] == 'U' && "SIGHUP"@[5] == 'P');
    assert("SIGINT"@.len() == 6 && "SIGINT"@[4] == 'N' && "SIGINT"@[5] == 'T');
    assert("SIGILL"@.len() == 6 && "SIGILL"@[4] == 'L' && "SIGILL"@[5] == 'L');
    assert("SIGBUS"@.len() == 6 && "SIGBUS"@[4] == 'U' && "SIGBUS"@[5] == 'S');
    assert("SIGFPE"@.len() == 6 && "SIGFPE"@[4] == 'P' && "SIGFPE"@[5] == 'E');
    assert("SIGURG"@.len() == 6 && "SIGURG"@[4] == 'R' && "SIGURG"@[5] == 'G');
    assert("SIGPWR"@.len() == 6 && "SIGPWR"@[4] == 'W' && "SIGPWR"@[5] == 'R');
    assert("SIGSYS"@.len() == 6 && "SIGSYS"@[4] == 'Y' && "SIGSYS"@[5] == 'S');
    assert("SIGQUIT"@.len() == 7 && "SIGQUIT"@[4] == 'U' && "SIGQUIT"@[5] == 'I' && "SIGQUIT"@[6] == 'T');
    assert("SIGTRAP"@.len() == 7 && "SIGTRAP"@[4] == 'R' && "SIGTRAP"@[5] == 'A' && "SIGTRAP"@[6] == 'P');
    assert("SIGABRT"@.len() == 7 && "SIGABRT"@[4] == 'B' && "SIGABRT"@[5] == 'R' && "SIGABRT"@[6] == 'T');
    assert("SIGKILL"@.len() == 7 && "SIGKILL"@[4] == 'I' && "SIGKILL"@[5] == 'L' && "SIGKILL"@[6] == 'L');
    assert("SIGUSR1"@.len() == 7 && "SIGUSR1"@[4] == 'S' && "SIGUSR1"@[5] == 'R' && "SIGUSR1"@[6] == '1');
    assert("SIGSEGV"@.len() == 7 && "SIGSEGV"@[4] == 'E' && "SIGSEGV"@[5] == 'G' && "SIGSEGV"@[6] == 'V');
    assert("SIGUSR2"@.len() == 7 && "SIGUSR2"@[4] == 'S' && "SIGUSR2"@[5] == 'R' && "SIGUSR2"@[6] == '2');
    assert("SIGPIPE"@.len() == 7 && "SIGPIPE"@[4] == 'I' && "SIGPIPE"@[5] == 'P' && "SIGPIPE"@[6] == 'E');
    assert("SIGALRM"@.len() == 7 && "SIGALRM"@[4] == 'L' && "SIGALRM"@[5] == 'R' && "SIGALRM"@[6] == 'M');
    assert("SIGTERM"@.len() == 7 && "SIGTERM"@[4] == 'E' && "SIGTERM"@[5] == 'R' && "SIGTERM"@[6] == 'M');
    assert("SIGCHLD"@.len() == 7 && "SIGCHLD"@[4] == 'H' && "SIGCHLD"@[5] == 'L' && "SIGCHLD"@[6] == 'D');
    assert("SIGCONT"@.len() == 7 && "SIGCONT"@[4] == 'O' && "SIGCONT"@[5] == 'N' && "SIGCONT"@[6] == 'T');
    assert("SIGSTOP"@.len() == 7 && "SIGSTOP"@[4] == 'T' && "SIGSTOP"@[5] == 'O' && "SIGSTOP"@[6] == 'P');
    assert("SIGTSTP"@.len() == 7 && "SIGTSTP"@[4] == 'S' && "SIGTSTP"@[5] == 'T' && "SIGTSTP"@[6] == 'P');
    assert("SIGTTIN"@.len() == 7 && "SIGTTIN"@[4] == 'T' && "SIGTTIN"@[5] == 'I' && "SIGTTIN"@[6] == 'N');
    assert("SIGTTOU"@.len() == 7 && "SIGTTOU"@[4] == 'T' && "SIGTTOU"@[5] == 'O' && "SIGTTOU"@[6] == 'U');
    assert("SIGXCPU"@.len() == 7 && "SIGXCPU"@[4] == 'C' && "SIGXCPU"@[5] == 'P' && "SIGXCPU"@[6] == 'U');
    assert("SIGXFSZ"@.len() == 7 && "SIGXFSZ"@[4] == 'F' && "SIGXFSZ"@[5] == 'S' && "SIGXFSZ"@[6] == 'Z');
    assert("SIGPROF"@.len() == 7 && "SIGPROF"@[4] == 'R' && "SIGPROF"@[5] == 'O' && "SIGPROF"@[6] == 'F');
    assert("SIGWINCH"@.len() == 8 && "SIGWINCH"@[7] == 'H');
    assert("SIGRTMIN"@.len() == 8 && "SIGRTMIN"@[7] == 'N');
    assert("SIGRTMAX"@.len() == 8 && "SIGRTMAX"@[7] == 'X');
    assert("SIGSTKFLT"@.len() == 9 && "SIGSTKFLT"@[8] == 'T');
    assert("SIGVTALRM"@.len() == 9 && "SIGVTALRM"@[8] == 'M');
}

/// A signal has a number up to 64.
proof fn signals_are_small(term: Seq<char>)
    ensures
        flags::signal_of(term) matches Some(v) ==> v <= 64,
{
    if flags::realtime_offset(term) is Some {
        numbers::bounded_is_nonnegative(
            flags::realtime_offset(term)->0,
            10,
            u64::MAX as int,
        );
    }
}

/// A real-time signal that is spelled by its distance from the first has the number of the
/// first and that distance.
#[verifier::spinoff_prover]
pub proof fn real_time_signals_count_from_the_first(n: nat)
    requires
        n <= 32,
    ensures
        flags::signal_of("SIGRT_"@ + numbers::decimal(n)) == Some((32 + n) as u64),
        flags::signal_of("SIGRTMIN+"@ + numbers::decimal(n)) == Some((32 + n) as u64),
{
    numbers::decimal_reads_back(n);
    let d = numbers::decimal(n);
    let a = "SIGRT_"@ + d;
    let b = "SIGRTMIN+"@ + d;
    reveal_strlit("SIGRT_");
    reveal_strlit("SIGRTMIN+");
    assert(a.subrange(0, 6) =~= "SIGRT_"@);
    assert(a.subrange(6, a.len() as int) =~= d);
    assert(b.subrange(0, 9) =~= "SIGRTMIN+"@);
    assert(b.subrange(9, b.len() as int) =~= d);
    assert(a[3] == 'R' && a[4] == 'T' && a[5] == '_' && a.len() > 6);
    assert(b[3] == 'R' && b[4] == 'T' && b[5] == 'M' && b.len() > 9);
    if text::matches_at(b, "SIGRT_"@, 0) {
        assert(b.subrange(0, 6)[5] == '_');
    }
    reveal_strlit("SIGHUP");
    reveal_strlit("SIGINT");
    reveal_strlit("SIGQUIT");
    reveal_strlit("SIGILL");
    reveal_strlit("SIGTRAP");
    reveal_strlit("SIGABRT");
    reveal_strlit("SIGBUS");
    reveal_strlit("SIGFPE");
    reveal_strlit("SIGKILL");
    reveal_strlit("SIGUSR1");
    reveal_strlit("SIGSEGV");
    reveal_strlit("SIGUSR2");
    reveal_strlit("SIGPIPE");
    reveal_strlit("SIGALRM");
    reveal_strlit("SIGTERM");
    reveal_strlit("SIGSTKFLT");
    reveal_strlit("SIGCHLD");
    reveal_strlit("SIGCONT");
    reveal_strlit("SIGSTOP");
    reveal_strlit("SIGTSTP");
    reveal_strlit("SIGTTIN");
    reveal_strlit("SIGTTOU");
    reveal_strlit("SIGURG");
    reveal_strlit("SIGXCPU");
    reveal_strlit("SIGXFSZ");
    reveal_strlit("SIGVTALRM");
    reveal_strlit("SIGPROF");
    reveal_strlit("SIGWINCH");
    reveal_strlit("SIGIO");
    reveal_strlit("SIGPWR");
    reveal_strlit("SIGSYS");
    reveal_strlit("SIGRTMIN");
    reveal_strlit("SIGRTMAX");
    assert("SIGHUP"@.len() == 6 && "SIGHUP"@[3] == 'H' && "SIGHUP"@[4] == 'U');
    assert("SIGINT"@.len() == 6 && "SIGINT"@[3] == 'I' && "SIGINT"@[4] == 'N');
    assert("SIGQUIT"@.len() == 7 && "SIGQUIT"@[3] == 'Q' && "SIGQUIT"@[4] == 'U');
    assert("SIGILL"@.len() == 6 && "SIGILL"@[3] == 'I' && "SIGILL"@[4] == 'L');
    assert("SIGTRAP"@.len() == 7 && "SIGTRAP"@[3] == 'T' && "SIGTRAP"@[4] == 'R');
    assert("SIGABRT"@.len() == 7 && "SIGABRT"@[3] == 'A' && "SIGABRT"@[4] == 'B');
    assert("SIGBUS"@.len() == 6 && "SIGBUS"@[3] == 'B' && "SIGBUS"@[4] == 'U');
    assert("SIGFPE"@.len() == 6 && "SIGFPE"@[3] == 'F' && "SIGFPE"@[4] == 'P');
    assert("SIGKILL"@.len() == 7 && "SIGKILL"@[3] == 'K' && "SIGKILL"@[4] == 'I');
    assert("SIGUSR1"@.len() == 7 && "SIGUSR1"@[3] == 'U' && "SIGUSR1"@[4] == 'S');
    assert("SIGSEGV"@.len() == 7 && "SIGSEGV"@[3] == 'S' && "SIGSEGV"@[4] == 'E');
    assert("SIGUSR2"@.len() == 7 && "SIGUSR2"@[3] == 'U' && "SIGUSR2"@[4] == 'S');
    assert("SIGPIPE"@.len() == 7 && "SIGPIPE"@[3] == 'P' && "SIGPIPE"@[4] == 'I');
    assert("SIGALRM"@.len() == 7 && "SIGALRM"@[3] == 'A' && "SIGALRM"@[4] == 'L');
    assert("SIGTERM"@.len() == 7 && "SIGTERM"@[3] == 'T' && "SIGTERM"@[4] == 'E');
    assert("SIGSTKFLT"@.len() == 9 && "SIGSTKFLT"@[3] == 'S' && "SIGSTKFLT"@[4] == 'T');
    assert("SIGCHLD"@.len() == 7 && "SIGCHLD"@[3] == 'C' && "SIGCHLD"@[4] == 'H');
    assert("SIGCONT"@.len() == 7 && "SIGCONT"@[3] == 'C' && "SIGCONT"@[4] == 'O');
    assert("SIGSTOP"@.len() == 7 && "SIGSTOP"@[3] == 'S' && "SIGSTOP"@[4] == 'T');
    assert("SIGTSTP"@.len() == 7 && "SIGTSTP"@[3] == 'T' && "SIGTSTP"@[4] == 'S');
    assert("SIGTTIN"@.len() == 7 && "SIGTTIN"@[3] == 'T' && "SIGTTIN"@[4] == 'T');
    assert("SIGTTOU"@.len() == 7 && "SIGTTOU"@[3] == 'T' && "SIGTTOU"@[4] == 'T');
    assert("SIGURG"@.len() == 6 && "SIGURG"@[3] == 'U' && "SIGURG"@[4] == 'R');
    assert("SIGXCPU"@.len() == 7 && "SIGXCPU"@[3] == 'X' && "SIGXCPU"@[4] == 'C');
    assert("SIGXFSZ"@.len() == 7 && "SIGXFSZ"@[3] == 'X' && "SIGXFSZ"@[4] == 'F');
    assert("SIGVTALRM"@.len() == 9 && "SIGVTALRM"@[3] == 'V' && "SIGVTALRM"@[4] == 'T');
    assert("SIGPROF"@.len() == 7 && "SIGPROF"@[3] == 'P' && "SIGPROF"@[4] == 'R');
    assert("SIGWINCH"@.len() == 8 && "SIGWINCH"@[3] == 'W' && "SIGWINCH"@[4] == 'I');
    assert("SIGIO"@.len() == 5 && "SIGIO"@[3] == 'I' && "SIGIO"@[4] == 'O');
    assert("SIGPWR"@.len() == 6 && "SIGPWR"@[3] == 'P' && "SIGPWR"@[4] == 'W');
    assert("SIGSYS"@.len() == 6 && "SIGSYS"@[3] == 'S' && "SIGSYS"@[4] == 'Y');
    assert("SIGRTMIN"@.len() == 8 && "SIGRTMIN"@[3] == 'R' && "SIGRTMIN"@[4] == 'T');
    assert("SIGRTMAX"@.len() == 8 && "SIGRTMAX"@[3] == 'R' && "SIGRTMAX"@[4] == 'T');
}

/// Each observed syscall is read as what it is.
#[verifier::spinoff_prover]
#[verifier::rlimit(40)]
pub proof fn observed_calls()
    ensures
        flags::operation_of("execve"@) == Some(TraceOperation::Exec { at: false, argv_index: 1 }),
        flags::operation_of("execveat"@) == Some(TraceOperation::Exec { at: true, argv_index: 2 }),
        flags::operation_of("open"@) == Some(TraceOperation::File { at: false, returned_path: true }),
        flags::operation_of("openat"@) == Some(TraceOperation::File { at: true, returned_path: true }),
        flags::operation_of("openat2"@) == Some(TraceOperation::File { at: true, returned_path: true }),
        flags::operation_of("access"@) == Some(TraceOperation::File { at: false, returned_path: false }),
        flags::operation_of("faccessat"@) == Some(TraceOperation::File { at: true, returned_path: false }),
        flags::operation_of("faccessat2"@) == Some(TraceOperation::File { at: true, returned_path: false }),
        flags::operation_of("chdir"@) == Some(TraceOperation::Cwd { fd: false }),
        flags::operation_of("fchdir"@) == Some(TraceOperation::Cwd { fd: true }),
        flags::operation_of("clone"@) == Some(TraceOperation::Spawn),
        flags::operation_of("clone3"@) == Some(TraceOperation::Spawn),
        flags::operation_of("fork"@) == Some(TraceOperation::Spawn),
        flags::operation_of("vfork"@) == Some(TraceOperation::Spawn),
        flags::operation_of("unshare"@) == Some(TraceOperation::Unshare),
        flags::operation_of("setns"@) == Some(TraceOperation::Invalidate(InvalidationScope::ConnectedFs)),
        flags::operation_of("chroot"@) == Some(TraceOperation::Invalidate(InvalidationScope::ConnectedFs)),
        flags::operation_of("pivot_root"@) == Some(TraceOperation::Invalidate(InvalidationScope::AllActiveContexts)),
        flags::operation_of("mount"@) == Some(TraceOperation::Invalidate(InvalidationScope::AllActiveContexts)),
        flags::operation_of("umount2"@) == Some(TraceOperation::Invalidate(InvalidationScope::AllActiveContexts)),
        flags::operation_of("move_mount"@) == Some(TraceOperation::Invalidate(InvalidationScope::AllActiveContexts)),
        flags::operation_of("mount_setattr"@) == Some(TraceOperation::Invalidate(InvalidationScope::AllActiveContexts)),
{
    reveal_with_fuel(flags::operation_from, 23);
    reveal_strlit("execve");
    reveal_strlit("execveat");
    reveal_strlit("open");
    reveal_strlit("openat");
    reveal_strlit("openat2");
    reveal_strlit("access");
    reveal_strlit("faccessat");
    reveal_strlit("faccessat2");
    reveal_strlit("chdir");
    reveal_strlit("fchdir");
    reveal_strlit("clone");
    reveal_strlit("clone3");
    reveal_strlit("fork");
    reveal_strlit("vfork");
    reveal_strlit("unshare");
    reveal_strlit("setns");
    reveal_strlit("chroot");
    reveal_strlit("pivot_root");
    reveal_strlit("mount");
    reveal_strlit("umount2");
    reveal_strlit("move_mount");
    reveal_strlit("mount_setattr");
    assert("open"@.len() == 4 && "open"@[3] == 'n');
    assert("fork"@.len() == 4 && "fork"@[3] == 'k');
    assert("chdir"@.len() == 5 && "chdir"@[4] == 'r');
    assert("clone"@.len() == 5 && "clone"@[4] == 'e');
    assert("vfork"@.len() == 5 && "vfork"@[4] == 'k');
    assert("setns"@.len() == 5 && "setns"@[4] == 's');
    assert("mount"@.len() == 5 && "mount"@[4] == 't');
    assert("execve"@.len() == 6 && "execve"@[4] == 'v' && "execve"@[5] == 'e');
    assert("openat"@.len() == 6 && "openat"@[4] == 'a' && "openat"@[5] == 't');
    assert("access"@.len() == 6 && "access"@[4] == 's' && "access"@[5] == 's');
    assert("fchdir"@.len() == 6 && "fchdir"@[4] == 'i' && "fchdir"@[5] == 'r');
    assert("clone3"@.len() == 6 && "clone3"@[4] == 'e' && "clone3"@[5] == '3');
    assert("chroot"@.len() == 6 && "chroot"@[4] == 'o' && "chroot"@[5] == 't');
    assert("openat2"@.len() == 7 && "openat2"@[4] == 'a' && "openat2"@[6] == '2');
    assert("unshare"@.len() == 7 && "unshare"@[4] == 'a' && "unshare"@[6] == 'e');
    assert("umount2"@.len() == 7 && "umount2"@[4] == 'n' && "umount2"@[6] == '2');
    assert("execveat"@.len() == 8);
    assert("faccessat"@.len() == 9);
    assert("faccessat2"@.len() == 10 && "faccessat2"@[8] == 't' && "faccessat2"@[9] == '2');
    assert("pivot_root"@.len() == 10 && "pivot_root"@[8] == 'o' && "pivot_root"@[9] == 't');
    assert("move_mount"@.len() == 10 && "move_mount"@[8] == 'n' && "move_mount"@[9] == 't');
    assert("mount_setattr"@.len() == 13);
}

/// No other syscall is observed.
#[verifier::spinoff_prover]
pub proof fn no_other_calls_are_observed(name: Seq<char>)
    requires
        name != "execve"@,
        name != "execveat"@,
        name != "open"@,
        name != "openat"@,
        name != "openat2"@,
        name != "access"@,
        name != "faccessat"@,
        name != "faccessat2"@,
        name != "chdir"@,
        name != "fchdir"@,
        name != "clone"@,
        name != "clone3"@,
        name != "fork"@,
        name != "vfork"@,
        name != "unshare"@,
        name != "setns"@,
        name != "chroot"@,
        name != "pivot_root"@,
        name != "mount"@,
        name != "umount2"@,
        name != "move_mount"@,
        name != "mount_setattr"@,
    ensures
        flags::operation_of(name) is None,
{
    reveal_with_fuel(flags::operation_from, 23);
}

/// The collector is asked for exactly the observed syscalls.
#[verifier::spinoff_prover]
pub proof fn the_selector_lists_the_observed_calls()
    ensures
        "trace="@ + flags::joined_names(flags::TRACE_CONTRACT_COUNT as int)
            == "trace=execve,execveat,open,openat,openat2,access,faccessat,faccessat2,chdir,fchdir,clone,clone3,fork,vfork,unshare,setns,chroot,pivot_root,mount,umount2,move_mount,mount_setattr"@,
{
    reveal_with_fuel(flags::joined_names, 23);
    reveal_strlit("trace=execve,execveat,open,openat,openat2,access,faccessat,faccessat2,chdir,fchdir,clone,clone3,fork,vfork,unshare,setns,chroot,pivot_root,mount,umount2,move_mount,mount_setattr");
    reveal_strlit("trace=");
    reveal_strlit(",");
    reveal_strlit("execve");
    reveal_strlit("execveat");
    reveal_strlit("open");
    reveal_strlit("openat");
    reveal_strlit("openat2");
    reveal_strlit("access");
    reveal_strlit("faccessat");
    reveal_strlit("faccessat2");
    reveal_strlit("chdir");
    reveal_strlit("fchdir");
    reveal_strlit("clone");
    reveal_strlit("clone3");
    reveal_strlit("fork");
    reveal_strlit("vfork");
    reveal_strlit("unshare");
    reveal_strlit("setns");
    reveal_strlit("chroot");
    reveal_strlit("pivot_root");
    reveal_strlit("mount");
    reveal_strlit("umount2");
    reveal_strlit("move_mount");
    reveal_strlit("mount_setattr");
    assert("trace="@ + flags::joined_names(flags::TRACE_CONTRACT_COUNT as int) =~= "trace=execve,execveat,open,openat,openat2,access,faccessat,faccessat2,chdir,fchdir,clone,clone3,fork,vfork,unshare,setns,chroot,pivot_root,mount,umount2,move_mount,mount_setattr"@);
}

/// Whether a number is one bit.
pub open spec fn single(v: u64) -> bool {
    v > 0 && v & ((v - 1) as u64) == 0
}

/// A union holds a bit if and only if one of its parts is that bit.
proof fn union_holds(bits: u64, v: u64, b: u64)
    requires
        single(b),
        v == 0 || single(v),
    ensures
        (bits | v) & b != 0 <==> bits & b != 0 || v == b,
{
    assert((b > 0 && b & ((b - 1) as u64) == 0 && (v == 0 || (v > 0 && v & ((v - 1) as u64) == 0)))
        ==> (((bits | v) & b != 0) == (bits & b != 0 || v == b))) by (bit_vector);
}

/// A number below the flags holds none of them.
proof fn low_bits(bits: u64, v: u64, b: u64)
    requires
        v <= 0xff,
        b & 0xff == 0,
    ensures
        (bits | v) & b == bits & b,
{
    assert((v <= 0xff && b & 0xff == 0) ==> (bits | v) & b == bits & b) by (bit_vector);
}

/// Each flag is one bit.
#[verifier::spinoff_prover]
proof fn flags_are_single(term: Seq<char>)
    ensures
        flags::legacy_clone_flag(term) matches Some(v) ==> v == 0 || single(v),
        flags::clone3_flag(term) matches Some(v) ==> v == 0 || single(v),
        flags::unshare_flag(term) matches Some(v) ==> v == 0 || single(v),
{
    assert(single(0x80u64) && single(0x100u64) && single(0x200u64) && single(0x400u64) && single(0x800u64) && single(0x1000u64) && single(0x2000u64) && single(0x4000u64) && single(0x8000u64) && single(0x1_0000u64) && single(0x2_0000u64) && single(0x4_0000u64) && single(0x8_0000u64) && single(0x10_0000u64) && single(0x20_0000u64) && single(0x40_0000u64) && single(0x80_0000u64) && single(0x100_0000u64) && single(0x200_0000u64) && single(0x400_0000u64) && single(0x800_0000u64) && single(0x1000_0000u64) && single(0x2000_0000u64) && single(0x4000_0000u64) && single(0x8000_0000u64) && single(0x1_0000_0000u64) && single(0x2_0000_0000u64) && single(0x4_0000_0000u64) && single(0x8_0000_0000u64) && single(0x10_0000_0000u64) && single(0x20_0000_0000u64)) by (bit_vector);
}

/// No two names of one call stand for the same bit: a name with the bit of another is that
/// other.
#[verifier::spinoff_prover]
pub proof fn flag_names_are_told_apart(a: Seq<char>, b: Seq<char>)
    requires
        a != b,
    ensures
        flags::legacy_clone_flag(a) is Some ==> flags::legacy_clone_flag(a)
            != flags::legacy_clone_flag(b),
        flags::clone3_flag(a) is Some ==> flags::clone3_flag(a) != flags::clone3_flag(b),
        flags::unshare_flag(a) is Some ==> flags::unshare_flag(a) != flags::unshare_flag(b),
{
}

/// The union of the names of an expression holds a bit if and only if one of them is the
/// name of that bit; every name has to be one of a flag.
proof fn union_of_names(table: FlagTable, s: Seq<char>, bits: u64, name: Seq<char>, b: u64)
    requires
        single(b),
        flags::flag_in(table, name) == Some(b),
    ensures
        flags::bits_from(table, s, bits) matches Some(out) ==> (out & b != 0 <==> bits & b != 0
            || has_term(s, name)),
        flags::bits_from(table, s, bits) is Some <==> forall|x: Seq<char>| #[trigger]
            has_term(s, x) ==> flags::flag_in(table, x) is Some,
    decreases s.len(),
{
    let (term, rest) = flags::next_term(s);
    flags::next_term_shrinks(s);
    terms_split(s, name);
    terms_split(s, term);
    flags_are_single(term);
    assert(has_term(s, term));
    if flags::flag_in(table, term) is Some {
        let v = flags::flag_in(table, term)->0;
        union_holds(bits, v, b);
        if term != name {
            flag_names_are_told_apart(name, term);
        }
        assert forall|x: Seq<char>| #[trigger] has_term(s, x) implies x == term || (rest is Some
            && has_term(rest->0, x)) by {
            terms_split(s, x);
        }
        if rest is Some {
            union_of_names(table, rest->0, bits | v, name, b);
            assert forall|x: Seq<char>| #[trigger] has_term(rest->0, x) implies has_term(s, x) by {
                terms_split(s, x);
            }
        }
    }
}

/// The same of `clone`, whose names may hold one signal.
proof fn union_of_clone_names(s: Seq<char>, bits: u64, seen: bool, name: Seq<char>, b: u64)
    requires
        single(b),
        b & 0xff == 0,
        flags::legacy_clone_flag(name) == Some(b),
    ensures
        flags::legacy_from(s, bits, seen) matches Some(out) ==> (out & b != 0 <==> bits & b != 0
            || has_term(s, name)),
        flags::legacy_from(s, bits, seen) is Some ==> forall|x: Seq<char>| #[trigger]
            has_term(s, x) ==> flags::legacy_clone_flag(x) is Some || flags::signal_of(x) is Some,
    decreases s.len(),
{
    let (term, rest) = flags::next_term(s);
    flags::next_term_shrinks(s);
    terms_split(s, name);
    flags_are_single(term);
    if term != name {
        flag_names_are_told_apart(name, term);
    }
    assert forall|x: Seq<char>| #[trigger] has_term(s, x) implies x == term || (rest is Some
        && has_term(rest->0, x)) by {
        terms_split(s, x);
    }
    match (flags::legacy_clone_flag(term), flags::signal_of(term)) {
        (Some(v), _) => {
            union_holds(bits, v, b);
            if rest is Some {
                union_of_clone_names(rest->0, bits | v, seen, name, b);
            }
        },
        (None, Some(signal)) => {
            signals_are_small(term);
            low_bits(bits, signal, b);
            if rest is Some {
                union_of_clone_names(rest->0, bits | signal, true, name, b);
            }
        },
        _ => {},
    }
}

/// The masks of flags, as numbers.
proof fn masks()
    ensures
        flags::CSIGNAL_MASK == 0xff,
        flags::LEGACY_CLONE_ALLOWED == 0xffff_ffff,
        flags::CLONE3_ALLOWED == 0x3f_ffbf_ff80,
        flags::UNSHARE_ALLOWED == 0x7e17_0f80,
        flags::CLONE_NAMESPACE_FLAGS == 0x20_7e02_0080,
        flags::UNSHARE_NAMESPACE_FLAGS == 0x7e12_0080,
{
    assert(flags::LEGACY_CLONE_ALLOWED == 0xffff_ffffu64) by (bit_vector);
    assert(flags::CLONE3_ALLOWED == 0x3f_ffbf_ff80u64) by (bit_vector);
    assert(flags::UNSHARE_ALLOWED == 0x7e17_0f80u64) by (bit_vector);
    assert(flags::CLONE_NAMESPACE_FLAGS == 0x20_7e02_0080u64) by (bit_vector);
    assert(flags::UNSHARE_NAMESPACE_FLAGS == 0x7e12_0080u64) by (bit_vector);
}

/// Whether an expression joins a name of `clone` that makes a namespace.
pub open spec fn clone_names_namespace(s: Seq<char>) -> bool {
    ||| has_term(s, "CLONE_NEWNS"@)
    ||| has_term(s, "CLONE_NEWCGROUP"@)
    ||| has_term(s, "CLONE_NEWUTS"@)
    ||| has_term(s, "CLONE_NEWIPC"@)
    ||| has_term(s, "CLONE_NEWUSER"@)
    ||| has_term(s, "CLONE_NEWPID"@)
    ||| has_term(s, "CLONE_NEWNET"@)
}

/// What a spawn by `clone` shares is what its flags are named: filesystem state is shared
/// if and only if `CLONE_FS` is among the names, and goes with a new namespace if and only
/// if a name of one is. Otherwise it is copied. Every name is that of a flag or a signal.
#[verifier::spinoff_prover]
pub proof fn clone_shares_what_it_names(s: Seq<char>)
    requires
        flags::number_of(s) is None,
        !(flags::legacy_effect(s) is Unknown),
    ensures
        flags::legacy_effect(s) is SharedFs <==> has_term(s, "CLONE_FS"@),
        flags::legacy_effect(s) is PrivateFsNamespaceUncertain <==> clone_names_namespace(s),
        forall|x: Seq<char>| #[trigger] has_term(s, x) ==> flags::legacy_clone_flag(x) is Some || flags::signal_of(
            x,
        ) is Some,
{
    clone_flag_names();
    masks();
    assert(single(0x200u64) && single(0x2_0000u64) && single(0x200_0000u64) && single(0x400_0000u64) && single(0x800_0000u64) && single(0x1000_0000u64) && single(0x2000_0000u64) && single(0x4000_0000u64) && 0x200u64 & 0xff == 0 && 0x2_0000u64 & 0xff == 0 && 0x200_0000u64 & 0xff == 0 && 0x400_0000u64 & 0xff == 0 && 0x800_0000u64 & 0xff == 0 && 0x1000_0000u64 & 0xff == 0 && 0x2000_0000u64 & 0xff == 0 && 0x4000_0000u64 & 0xff == 0) by (bit_vector);
    assert(0u64 & 0x200u64 == 0 && 0u64 & 0x2_0000u64 == 0 && 0u64 & 0x200_0000u64 == 0 && 0u64 & 0x400_0000u64 == 0 && 0u64 & 0x800_0000u64 == 0 && 0u64 & 0x1000_0000u64 == 0 && 0u64 & 0x2000_0000u64 == 0 && 0u64 & 0x4000_0000u64 == 0) by (bit_vector);
    union_of_clone_names(s, 0, false, "CLONE_FS"@, 0x200);
    union_of_clone_names(s, 0, false, "CLONE_NEWNS"@, 0x2_0000);
    union_of_clone_names(s, 0, false, "CLONE_NEWCGROUP"@, 0x200_0000);
    union_of_clone_names(s, 0, false, "CLONE_NEWUTS"@, 0x400_0000);
    union_of_clone_names(s, 0, false, "CLONE_NEWIPC"@, 0x800_0000);
    union_of_clone_names(s, 0, false, "CLONE_NEWUSER"@, 0x1000_0000);
    union_of_clone_names(s, 0, false, "CLONE_NEWPID"@, 0x2000_0000);
    union_of_clone_names(s, 0, false, "CLONE_NEWNET"@, 0x4000_0000);
    let bits = flags::legacy_bits(s)->0;
    assert((bits & 0xff <= 64 && bits & !0xffff_ffffu64 == 0) ==> (bits & 0x20_7e02_0080u64 != 0 <==> bits & 0x2_0000u64 != 0 || bits & 0x200_0000u64 != 0 || bits & 0x400_0000u64 != 0 || bits & 0x800_0000u64 != 0 || bits & 0x1000_0000u64 != 0 || bits & 0x2000_0000u64 != 0 || bits & 0x4000_0000u64 != 0)) by (bit_vector);
}

/// Whether an expression joins a name of `clone3` that makes a namespace.
pub open spec fn clone3_names_namespace(s: Seq<char>) -> bool {
    ||| has_term(s, "CLONE_NEWTIME"@)
    ||| has_term(s, "CLONE_NEWNS"@)
    ||| has_term(s, "CLONE_NEWCGROUP"@)
    ||| has_term(s, "CLONE_NEWUTS"@)
    ||| has_term(s, "CLONE_NEWIPC"@)
    ||| has_term(s, "CLONE_NEWUSER"@)
    ||| has_term(s, "CLONE_NEWPID"@)
    ||| has_term(s, "CLONE_NEWNET"@)
    ||| has_term(s, "CLONE_EMPTY_MNTNS"@)
}

/// What a spawn by `clone3` shares is what its flags are named, as with `clone`.
#[verifier::spinoff_prover]
pub proof fn clone3_shares_what_it_names(s: Seq<char>, signal: Seq<char>)
    requires
        flags::number_of(s) is None,
        !(flags::clone3_effect(s, signal) is Unknown),
    ensures
        flags::clone3_effect(s, signal) is SharedFs <==> has_term(s, "CLONE_FS"@),
        flags::clone3_effect(s, signal) is PrivateFsNamespaceUncertain <==> clone3_names_namespace(s),
        forall|x: Seq<char>| #[trigger] has_term(s, x) ==> flags::clone3_flag(x) is Some,
{
    clone3_flag_names();
    masks();
    assert(single(0x200u64) && single(0x80u64) && single(0x2_0000u64) && single(0x200_0000u64) && single(0x400_0000u64) && single(0x800_0000u64) && single(0x1000_0000u64) && single(0x2000_0000u64) && single(0x4000_0000u64) && single(0x20_0000_0000u64)) by (bit_vector);
    assert(0u64 & 0x200u64 == 0 && 0u64 & 0x80u64 == 0 && 0u64 & 0x2_0000u64 == 0 && 0u64 & 0x200_0000u64 == 0 && 0u64 & 0x400_0000u64 == 0 && 0u64 & 0x800_0000u64 == 0 && 0u64 & 0x1000_0000u64 == 0 && 0u64 & 0x2000_0000u64 == 0 && 0u64 & 0x4000_0000u64 == 0 && 0u64 & 0x20_0000_0000u64 == 0) by (bit_vector);
    union_of_names(FlagTable::Clone3, s, 0, "CLONE_FS"@, 0x200);
    union_of_names(FlagTable::Clone3, s, 0, "CLONE_NEWTIME"@, 0x80);
    union_of_names(FlagTable::Clone3, s, 0, "CLONE_NEWNS"@, 0x2_0000);
    union_of_names(FlagTable::Clone3, s, 0, "CLONE_NEWCGROUP"@, 0x200_0000);
    union_of_names(FlagTable::Clone3, s, 0, "CLONE_NEWUTS"@, 0x400_0000);
    union_of_names(FlagTable::Clone3, s, 0, "CLONE_NEWIPC"@, 0x800_0000);
    union_of_names(FlagTable::Clone3, s, 0, "CLONE_NEWUSER"@, 0x1000_0000);
    union_of_names(FlagTable::Clone3, s, 0, "CLONE_NEWPID"@, 0x2000_0000);
    union_of_names(FlagTable::Clone3, s, 0, "CLONE_NEWNET"@, 0x4000_0000);
    union_of_names(FlagTable::Clone3, s, 0, "CLONE_EMPTY_MNTNS"@, 0x20_0000_0000);
    let bits = flags::flag_bits(FlagTable::Clone3, s)->0;
    assert(bits & 0x20_7e02_0080u64 != 0 <==> bits & 0x80u64 != 0 || bits & 0x2_0000u64 != 0 || bits & 0x200_0000u64 != 0 || bits & 0x400_0000u64 != 0 || bits & 0x800_0000u64 != 0 || bits & 0x1000_0000u64 != 0 || bits & 0x2000_0000u64 != 0 || bits & 0x4000_0000u64 != 0 || bits & 0x20_0000_0000u64 != 0) by (bit_vector);
}

/// Whether an expression joins a name of `unshare` that makes a namespace.
pub open spec fn unshare_names_namespace(s: Seq<char>) -> bool {
    ||| has_term(s, "CLONE_NEWTIME"@)
    ||| has_term(s, "CLONE_NEWNS"@)
    ||| has_term(s, "CLONE_NEWCGROUP"@)
    ||| has_term(s, "CLONE_NEWUTS"@)
    ||| has_term(s, "CLONE_NEWIPC"@)
    ||| has_term(s, "CLONE_NEWUSER"@)
    ||| has_term(s, "CLONE_NEWPID"@)
    ||| has_term(s, "CLONE_NEWNET"@)
    ||| has_term(s, "UNSHARE_EMPTY_MNTNS"@)
}

/// What `unshare` splits is what its flags are named: filesystem state is split without a
/// namespace if and only if `CLONE_FS` is among the names and no name of a namespace is.
#[verifier::spinoff_prover]
pub proof fn unshare_splits_what_it_names(s: Seq<char>)
    requires
        flags::number_of(s) is None,
        !(flags::unshare_effect(s) is Unknown),
    ensures
        flags::unshare_effect(s) is SplitFs <==> has_term(s, "CLONE_FS"@) && !unshare_names_namespace(s),
        flags::unshare_effect(s) is SplitFsNamespaceUncertain <==> unshare_names_namespace(s),
        forall|x: Seq<char>| #[trigger] has_term(s, x) ==> flags::unshare_flag(x) is Some,
{
    unshare_flag_names();
    masks();
    assert(single(0x200u64) && single(0x80u64) && single(0x2_0000u64) && single(0x200_0000u64) && single(0x400_0000u64) && single(0x800_0000u64) && single(0x1000_0000u64) && single(0x2000_0000u64) && single(0x4000_0000u64) && single(0x10_0000u64)) by (bit_vector);
    assert(0u64 & 0x200u64 == 0 && 0u64 & 0x80u64 == 0 && 0u64 & 0x2_0000u64 == 0 && 0u64 & 0x200_0000u64 == 0 && 0u64 & 0x400_0000u64 == 0 && 0u64 & 0x800_0000u64 == 0 && 0u64 & 0x1000_0000u64 == 0 && 0u64 & 0x2000_0000u64 == 0 && 0u64 & 0x4000_0000u64 == 0 && 0u64 & 0x10_0000u64 == 0) by (bit_vector);
    union_of_names(FlagTable::Unshare, s, 0, "CLONE_FS"@, 0x200);
    union_of_names(FlagTable::Unshare, s, 0, "CLONE_NEWTIME"@, 0x80);
    union_of_names(FlagTable::Unshare, s, 0, "CLONE_NEWNS"@, 0x2_0000);
    union_of_names(FlagTable::Unshare, s, 0, "CLONE_NEWCGROUP"@, 0x200_0000);
    union_of_names(FlagTable::Unshare, s, 0, "CLONE_NEWUTS"@, 0x400_0000);
    union_of_names(FlagTable::Unshare, s, 0, "CLONE_NEWIPC"@, 0x800_0000);
    union_of_names(FlagTable::Unshare, s, 0, "CLONE_NEWUSER"@, 0x1000_0000);
    union_of_names(FlagTable::Unshare, s, 0, "CLONE_NEWPID"@, 0x2000_0000);
    union_of_names(FlagTable::Unshare, s, 0, "CLONE_NEWNET"@, 0x4000_0000);
    union_of_names(FlagTable::Unshare, s, 0, "UNSHARE_EMPTY_MNTNS"@, 0x10_0000);
    let bits = flags::flag_bits(FlagTable::Unshare, s)->0;
    assert(bits & 0x7e12_0080u64 != 0 <==> bits & 0x80u64 != 0 || bits & 0x2_0000u64 != 0 || bits & 0x200_0000u64 != 0 || bits & 0x400_0000u64 != 0 || bits & 0x800_0000u64 != 0 || bits & 0x1000_0000u64 != 0 || bits & 0x2000_0000u64 != 0 || bits & 0x4000_0000u64 != 0 || bits & 0x10_0000u64 != 0) by (bit_vector);
}

/// Whether the kernel takes the flags of a clone, as far as all clones share its rules: a
/// thread shares signal handlers, which need shared memory; filesystem state is not shared
/// across a new namespace; a new user namespace is not shared with a thread or a sibling,
/// nor is a new PID namespace; semaphores are not shared across a new IPC namespace; and
/// neither a thread nor a sibling sends a signal when it ends.
pub open spec fn clones_together(bits: u64, exit_signal: u64) -> bool {
    &&& bits & 0x800 != 0 ==> bits & 0x100 != 0
    &&& bits & 0x1_0000 != 0 ==> bits & 0x800 != 0
    &&& bits & 0x200 != 0 ==> bits & 0x20_7e02_0080 == 0
    &&& bits & 0x1000_0000 != 0 ==> bits & 0x200 == 0 && bits & 0x1_0000 == 0 && bits & 0x8000 == 0
    &&& bits & 0x800_0000 != 0 ==> bits & 0x4_0000 == 0
    &&& bits & 0x2000_0000 != 0 ==> bits & 0x1_0000 == 0 && bits & 0x8000 == 0
    &&& exit_signal != 0 ==> bits & 0x1_0000 == 0 && bits & 0x8000 == 0
}

/// What flags of `clone` say is known if and only if the kernel takes them: they are flags
/// of `clone` with a signal up to 64, they may stand together, and a PID descriptor goes
/// with neither a detached child nor a stored parent task ID.
#[verifier::spinoff_prover]
pub proof fn clone_flags_are_known_if_taken(s: Seq<char>, bits: u64)
    requires
        flags::legacy_bits(s) == Some(bits),
    ensures
        !(flags::legacy_effect(s) is Unknown) <==> {
            &&& bits <= 0xffff_ffff
            &&& bits & 0xff <= 64
            &&& clones_together(bits, bits & 0xff)
            &&& bits & 0x1000 != 0 ==> bits & 0x40_0000 == 0 && bits & 0x10_0000 == 0
        },
{
    masks();
    assert(bits & !0xffff_ffffu64 == 0 <==> bits <= 0xffff_ffff) by (bit_vector);
    assert(bits & (0x200u64 | 0x1_0000u64 | 0x8000u64) == 0 <==> bits & 0x200 == 0 && bits & 0x1_0000
        == 0 && bits & 0x8000 == 0) by (bit_vector);
    assert(bits & (0x1_0000u64 | 0x8000u64) == 0 <==> bits & 0x1_0000 == 0 && bits & 0x8000 == 0)
        by (bit_vector);
    assert(bits & (0x40_0000u64 | 0x10_0000u64) == 0 <==> bits & 0x40_0000 == 0 && bits & 0x10_0000
        == 0) by (bit_vector);
}

/// What flags of `clone3` say is known if and only if the kernel takes them: they are flags
/// of `clone3` beside a signal up to 64, they may stand together, cleared signal handlers
/// are not shared, a child that is reaped by itself is no thread or sibling and sends no
/// signal, no thread drops its privileges alone, and killing through a PID descriptor needs
/// one of a child that is reaped by itself.
#[verifier::spinoff_prover]
pub proof fn clone3_flags_are_known_if_taken(
    s: Seq<char>,
    signal: Seq<char>,
    bits: u64,
    exit_signal: u64,
)
    requires
        flags::flag_bits(FlagTable::Clone3, s) == Some(bits),
        flags::exit_signal_of(signal) == Some(exit_signal),
    ensures
        !(flags::clone3_effect(s, signal) is Unknown) <==> {
            &&& bits & 0x3f_ffbf_ff80 == bits
            &&& exit_signal <= 64
            &&& clones_together(bits, exit_signal)
            &&& bits & 0x1_0000_0000 != 0 ==> bits & 0x800 == 0
            &&& bits & 0x4_0000_0000 != 0 ==> bits & 0x1_0000 == 0 && bits & 0x8000 == 0
                && exit_signal == 0
            &&& bits & 0x8_0000_0000 != 0 ==> bits & 0x1_0000 == 0
            &&& bits & 0x10_0000_0000 != 0 ==> bits & 0x1000 != 0 && bits & 0x4_0000_0000 != 0
        },
{
    masks();
    assert(bits & !0x3f_ffbf_ff80u64 == 0 <==> bits & 0x3f_ffbf_ff80 == bits) by (bit_vector);
    assert(bits & (0x200u64 | 0x1_0000u64 | 0x8000u64) == 0 <==> bits & 0x200 == 0 && bits & 0x1_0000
        == 0 && bits & 0x8000 == 0) by (bit_vector);
    assert(bits & (0x1_0000u64 | 0x8000u64) == 0 <==> bits & 0x1_0000 == 0 && bits & 0x8000 == 0)
        by (bit_vector);
}

/// What flags of `unshare` say is known if and only if they are flags of `unshare`.
pub proof fn unshare_flags_are_known_if_taken(s: Seq<char>, bits: u64)
    requires
        flags::flag_bits(FlagTable::Unshare, s) == Some(bits),
    ensures
        !(flags::unshare_effect(s) is Unknown) <==> bits & 0x7e17_0f80 == bits,
{
    masks();
    assert(bits & !0x7e17_0f80u64 == 0 <==> bits & 0x7e17_0f80 == bits) by (bit_vector);
}

/// Flags that are spelled as a number are its bits: state is shared by bit 9 alone, and
/// goes with a new namespace by the bits of namespaces.
pub proof fn numeric_flags_are_bits(s: Seq<char>, n: u64)
    requires
        flags::number_of(s) == Some(n as int),
    ensures
        !(flags::legacy_effect(s) is Unknown) ==> {
            &&& flags::legacy_effect(s) is SharedFs <==> n & 0x200 != 0
            &&& flags::legacy_effect(s) is PrivateFsNamespaceUncertain <==> n & 0x7e02_0000 != 0
        },
        !(flags::unshare_effect(s) is Unknown) ==> {
            &&& flags::unshare_effect(s) is SplitFsNamespaceUncertain <==> n & 0x7e12_0080 != 0
            &&& flags::unshare_effect(s) is NoFsChange <==> n & 0x7e12_0280 == 0
        },
{
    masks();
    assert((n & 0xff <= 64 && n & !0xffff_ffffu64 == 0) ==> (n & 0x20_7e02_0080u64 != 0 <==> n
        & 0x7e02_0000 != 0)) by (bit_vector);
    assert(n & 0x7e12_0280 == 0 <==> n & 0x7e12_0080u64 == 0 && n & 0x200 == 0) by (bit_vector);
}

/// The first name of an expression that goes on behind a bar.
proof fn first_of_joined(name: Seq<char>, rest: Seq<char>)
    requires
        !name.contains('|'),
        text::trimmed(name) == name,
    ensures
        flags::next_term(name + "|"@ + rest) == (name, Some(rest)),
{
    reveal_strlit("|");
    let s = name + "|"@ + rest;
    let n = name.len() as int;
    text::first_at_least(s, text::just('|'), 0);
    let at = text::first_at(s, text::just('|'), 0);
    assert(s[n] == '|');
    if at < n {
        assert(s[at] == name[at]);
    }
    assert(at == n);
    assert(s.subrange(0, n) =~= name);
    assert(s.subrange(n + 1, s.len() as int) =~= rest);
}

/// One more name of a flag in front of an expression adds its bit.
pub proof fn names_join_to_unions(name: Seq<char>, rest: Seq<char>, bits: u64, seen: bool)
    requires
        !name.contains('|'),
        text::trimmed(name) == name,
    ensures
        flags::legacy_clone_flag(name) matches Some(bit) ==> flags::legacy_from(
            name + "|"@ + rest,
            bits,
            seen,
        ) == flags::legacy_from(rest, bits | bit, seen),
        flags::clone3_flag(name) matches Some(bit) ==> flags::bits_from(
            FlagTable::Clone3,
            name + "|"@ + rest,
            bits,
        ) == flags::bits_from(FlagTable::Clone3, rest, bits | bit),
        flags::unshare_flag(name) matches Some(bit) ==> flags::bits_from(
            FlagTable::Unshare,
            name + "|"@ + rest,
            bits,
        ) == flags::bits_from(FlagTable::Unshare, rest, bits | bit),
{
    first_of_joined(name, rest);
}

/// A text of plain characters is trimmed already and holds no bar.
proof fn plain_name(name: Seq<char>)
    requires
        name.len() > 0,
        forall|i: int| 0 <= i < name.len() ==> 'A' <= #[trigger] name[i] <= '_',
    ensures
        text::trimmed(name) == name,
        !name.contains('|'),
{
    assert(!text::white_space(name[0]));
    assert(!text::white_space(name.last()));
    text::trimmed_stays(name);
}

/// A fork of the C library copies filesystem state.
#[verifier::spinoff_prover]
#[verifier::rlimit(40)]
pub proof fn forks_copy_state()
    ensures
        flags::legacy_effect("CLONE_CHILD_CLEARTID|CLONE_CHILD_SETTID|SIGCHLD"@) is PrivateFs,
{
    let s = "CLONE_CHILD_CLEARTID|CLONE_CHILD_SETTID|SIGCHLD"@;
    let (a, b, c) = ("CLONE_CHILD_CLEARTID"@, "CLONE_CHILD_SETTID"@, "SIGCHLD"@);
    reveal_strlit("CLONE_CHILD_CLEARTID|CLONE_CHILD_SETTID|SIGCHLD");
    reveal_strlit("CLONE_CHILD_CLEARTID");
    reveal_strlit("CLONE_CHILD_SETTID");
    reveal_strlit("SIGCHLD");
    reveal_strlit("|");
    reveal_strlit("0x");
    clone_flag_names();
    signal_names();
    plain_name(a);
    plain_name(b);
    plain_name(c);
    let rest = b + "|"@ + c;
    assert(s =~= a + "|"@ + rest);
    names_join_to_unions(a, rest, 0, false);
    names_join_to_unions(b, c, 0x20_0000, false);
    assert(0u64 | 0x20_0000 == 0x20_0000) by (bit_vector);
    assert(0x20_0000u64 | 0x100_0000 == 0x120_0000) by (bit_vector);
    assert(0x120_0000u64 | 17 == 0x120_0011) by (bit_vector);
    text::first_at_least(c, text::just('|'), 0);
    assert(flags::next_term(c) == (c, None::<Seq<char>>));
    assert(flags::legacy_clone_flag(c) is None) by {
        assert(c.len() == 7 && c[0] == 'S');
        reveal_clone_heads();
    }
    assert(flags::legacy_from(c, 0x120_0000, false) == Some(0x120_0011u64));
    assert(flags::number_of(s) is None) by {
        assert(s[0] == 'C' && s[1] == 'L');
        if text::matches_at(s, "0x"@, 0) {
            assert(s.subrange(0, 2)[0] == '0');
        }
        numbers::letters_are_no_number(s);
    }
    assert(flags::legacy_bits(s) == Some(0x120_0011u64));
    masks();
    assert(0x120_0011u64 & !0xffff_ffffu64 == 0 && 0x120_0011u64 & 0xff == 17 && 0x120_0011u64
        & 0x20_7e02_0080 == 0 && 0x120_0011u64 & 0x200 == 0 && 0x120_0011u64 & 0x800 == 0
        && 0x120_0011u64 & 0x1_0000 == 0 && 0x120_0011u64 & 0x1000_0000 == 0 && 0x120_0011u64
        & 0x800_0000 == 0 && 0x120_0011u64 & 0x2000_0000 == 0 && 0x120_0011u64 & 0x8000 == 0
        && 0x120_0011u64 & 0x1000 == 0) by (bit_vector);
    clone_flags_are_known_if_taken(s, 0x120_0011);
}

/// No name of a flag of `clone` starts as that of a signal.
proof fn reveal_clone_heads()
    ensures
        forall|x: Seq<char>| x.len() == 7 && #[trigger] x[0] == 'S' ==> flags::legacy_clone_flag(x)
            is None,
{
    reveal_strlit("0");
    reveal_strlit("CLONE_VM");
    reveal_strlit("CLONE_FS");
    reveal_strlit("CLONE_FILES");
    reveal_strlit("CLONE_SIGHAND");
    reveal_strlit("CLONE_PIDFD");
    reveal_strlit("CLONE_PTRACE");
    reveal_strlit("CLONE_VFORK");
    reveal_strlit("CLONE_PARENT");
    reveal_strlit("CLONE_THREAD");
    reveal_strlit("CLONE_NEWNS");
    reveal_strlit("CLONE_SYSVSEM");
    reveal_strlit("CLONE_SETTLS");
    reveal_strlit("CLONE_PARENT_SETTID");
    reveal_strlit("CLONE_CHILD_CLEARTID");
    reveal_strlit("CLONE_DETACHED");
    reveal_strlit("CLONE_UNTRACED");
    reveal_strlit("CLONE_CHILD_SETTID");
    reveal_strlit("CLONE_NEWCGROUP");
    reveal_strlit("CLONE_NEWUTS");
    reveal_strlit("CLONE_NEWIPC");
    reveal_strlit("CLONE_NEWUSER");
    reveal_strlit("CLONE_NEWPID");
    reveal_strlit("CLONE_NEWNET");
    reveal_strlit("CLONE_IO");
    assert("0"@.len() == 1 && "0"@[0] == '0');
    assert("CLONE_VM"@.len() == 8 && "CLONE_VM"@[0] == 'C');
    assert("CLONE_FS"@.len() == 8 && "CLONE_FS"@[0] == 'C');
    assert("CLONE_FILES"@.len() == 11 && "CLONE_FILES"@[0] == 'C');
    assert("CLONE_SIGHAND"@.len() == 13 && "CLONE_SIGHAND"@[0] == 'C');
    assert("CLONE_PIDFD"@.len() == 11 && "CLONE_PIDFD"@[0] == 'C');
    assert("CLONE_PTRACE"@.len() == 12 && "CLONE_PTRACE"@[0] == 'C');
    assert("CLONE_VFORK"@.len() == 11 && "CLONE_VFORK"@[0] == 'C');
    assert("CLONE_PARENT"@.len() == 12 && "CLONE_PARENT"@[0] == 'C');
    assert("CLONE_THREAD"@.len() == 12 && "CLONE_THREAD"@[0] == 'C');
    assert("CLONE_NEWNS"@.len() == 11 && "CLONE_NEWNS"@[0] == 'C');
    assert("CLONE_SYSVSEM"@.len() == 13 && "CLONE_SYSVSEM"@[0] == 'C');
    assert("CLONE_SETTLS"@.len() == 12 && "CLONE_SETTLS"@[0] == 'C');
    assert("CLONE_PARENT_SETTID"@.len() == 19 && "CLONE_PARENT_SETTID"@[0] == 'C');
    assert("CLONE_CHILD_CLEARTID"@.len() == 20 && "CLONE_CHILD_CLEARTID"@[0] == 'C');
    assert("CLONE_DETACHED"@.len() == 14 && "CLONE_DETACHED"@[0] == 'C');
    assert("CLONE_UNTRACED"@.len() == 14 && "CLONE_UNTRACED"@[0] == 'C');
    assert("CLONE_CHILD_SETTID"@.len() == 18 && "CLONE_CHILD_SETTID"@[0] == 'C');
    assert("CLONE_NEWCGROUP"@.len() == 15 && "CLONE_NEWCGROUP"@[0] == 'C');
    assert("CLONE_NEWUTS"@.len() == 12 && "CLONE_NEWUTS"@[0] == 'C');
    assert("CLONE_NEWIPC"@.len() == 12 && "CLONE_NEWIPC"@[0] == 'C');
    assert("CLONE_NEWUSER"@.len() == 13 && "CLONE_NEWUSER"@[0] == 'C');
    assert("CLONE_NEWPID"@.len() == 12 && "CLONE_NEWPID"@[0] == 'C');
    assert("CLONE_NEWNET"@.len() == 12 && "CLONE_NEWNET"@[0] == 'C');
    assert("CLONE_IO"@.len() == 8 && "CLONE_IO"@[0] == 'C');
}

} // verus!
