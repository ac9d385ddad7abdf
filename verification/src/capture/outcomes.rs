//! What a capture comes to: how ends are read from their statuses, and what the state, the
//! completeness, the exit status and the warnings of a capture say of its facts.
use vstd::prelude::*;

use crate::capture::facts;
use crate::capture::facts::{
    CaptureLimitFacts, CollectorView, FactsView, ProcessExit, TraceBytesLimitFact,
};
use crate::capture::signals;
use crate::capture::signals::SignalRange;
use crate::model;
use crate::numbers;
use crate::parse::read_back;
use crate::text;

verus! {

/// Whether a name is not spelled as that of a real-time signal.
spec fn not_real_time(name: Seq<char>) -> bool {
    &&& !text::matches_at(name, "SIGRT_"@, 0)
    &&& !text::matches_at(name, "SIGRTMIN+"@, 0)
    &&& name != "SIGRTMIN"@ && name != "SIGRTMAX"@
}

proof fn names_without_the_sign(name: Seq<char>)
    requires
        name.len() >= 5,
        name[3] != 'R' || name[4] != 'T',
    ensures
        not_real_time(name),
{
    reveal_strlit("SIGRT_");
    reveal_strlit("SIGRTMIN+");
    reveal_strlit("SIGRTMIN");
    reveal_strlit("SIGRTMAX");
    assert("SIGRTMIN"@[3] == 'R' && "SIGRTMIN"@[4] == 'T');
    assert("SIGRTMAX"@[3] == 'R' && "SIGRTMAX"@[4] == 'T');
    if text::matches_at(name, "SIGRT_"@, 0) {
        assert(name.subrange(0, 6)[3] == 'R' && name.subrange(0, 6)[4] == 'T');
    }
    if text::matches_at(name, "SIGRTMIN+"@, 0) {
        assert(name.subrange(0, 9)[3] == 'R' && name.subrange(0, 9)[4] == 'T');
    }
}

/// Each name of a standard signal stands for the number that it has on this platform.
#[verifier::rlimit(60)]
pub proof fn signals_have_their_numbers(range: SignalRange)
    ensures
        signals::signal_value("SIGHUP"@, range) == Some(1i32),
        signals::signal_value("SIGINT"@, range) == Some(2i32),
        signals::signal_value("SIGQUIT"@, range) == Some(3i32),
        signals::signal_value("SIGILL"@, range) == Some(4i32),
        signals::signal_value("SIGTRAP"@, range) == Some(5i32),
        signals::signal_value("SIGABRT"@, range) == Some(6i32),
        signals::signal_value("SIGBUS"@, range) == Some(7i32),
        signals::signal_value("SIGFPE"@, range) == Some(8i32),
        signals::signal_value("SIGKILL"@, range) == Some(9i32),
        signals::signal_value("SIGUSR1"@, range) == Some(10i32),
        signals::signal_value("SIGSEGV"@, range) == Some(11i32),
        signals::signal_value("SIGUSR2"@, range) == Some(12i32),
        signals::signal_value("SIGPIPE"@, range) == Some(13i32),
        signals::signal_value("SIGALRM"@, range) == Some(14i32),
        signals::signal_value("SIGTERM"@, range) == Some(15i32),
        signals::signal_value("SIGSTKFLT"@, range) == Some(16i32),
        signals::signal_value("SIGCHLD"@, range) == Some(17i32),
        signals::signal_value("SIGCONT"@, range) == Some(18i32),
        signals::signal_value("SIGSTOP"@, range) == Some(19i32),
        signals::signal_value("SIGTSTP"@, range) == Some(20i32),
        signals::signal_value("SIGTTIN"@, range) == Some(21i32),
        signals::signal_value("SIGTTOU"@, range) == Some(22i32),
        signals::signal_value("SIGURG"@, range) == Some(23i32),
        signals::signal_value("SIGXCPU"@, range) == Some(24i32),
        signals::signal_value("SIGXFSZ"@, range) == Some(25i32),
        signals::signal_value("SIGVTALRM"@, range) == Some(26i32),
        signals::signal_value("SIGPROF"@, range) == Some(27i32),
        signals::signal_value("SIGWINCH"@, range) == Some(28i32),
        signals::signal_value("SIGIO"@, range) == Some(29i32),
        signals::signal_value("SIGPWR"@, range) == Some(30i32),
        signals::signal_value("SIGSYS"@, range) == Some(31i32),
{
    reveal_with_fuel(signals::standard_from, 32);
    reveal_strlit("SIGHUP");
    reveal_strlit("SIGINT");
    reveal_strlit("SIGQUIT");
    reveal_strlit("SIGILL");
    reveal_strlit("SIGTRAP");
    reveal_strlit("SIGABRT");
    reveal_strlit("SIGBUS");
    reveal_strlit("SIGFPE");
    reveal_strlit("SIGKILL");
    reveal_strlit("SIGUSR1");
    reveal_strlit("SIGSEGV");
    reveal_strlit("SIGUSR2");
    reveal_strlit("SIGPIPE");
    reveal_strlit("SIGALRM");
    reveal_strlit("SIGTERM");
    reveal_strlit("SIGSTKFLT");
    reveal_strlit("SIGCHLD");
    reveal_strlit("SIGCONT");
    reveal_strlit("SIGSTOP");
    reveal_strlit("SIGTSTP");
    reveal_strlit("SIGTTIN");
    reveal_strlit("SIGTTOU");
    reveal_strlit("SIGURG");
    reveal_strlit("SIGXCPU");
    reveal_strlit("SIGXFSZ");
    reveal_strlit("SIGVTALRM");
    reveal_strlit("SIGPROF");
    reveal_strlit("SIGWINCH");
    reveal_strlit("SIGIO");
    reveal_strlit("SIGPWR");
    reveal_strlit("SIGSYS");
    reveal_strlit("SIGRTMIN");
    reveal_strlit("SIGRTMAX");
    assert("SIGIO"@.len() == 5);
    assert("SIGHUP"@.len() == 6 && "SIGHUP"@[4] == 'U' && "SIGHUP"@[5] == 'P');
    assert("SIGINT"@.len() == 6 && "SIGINT"@[4] == 'N' && "SIGINT"@[5] == 'T');
    assert("SIGILL"@.len() == 6 && "SIGILL"@[4] == 'L' && "SIGILL"@[5] == 'L');
    assert("SIGBUS"@.len() == 6 && "SIGBUS"@[4] == 'U' && "SIGBUS"@[5] == 'S');
    assert("SIGFPE"@.len() == 6 && "SIGFPE"@[4] == 'P' && "SIGFPE"@[5] == 'E');
    assert("SIGURG"@.len() == 6 && "SIGURG"@[4] == 'R' && "SIGURG"@[5] == 'G');
    assert("SIGPWR"@.len() == 6 && "SIGPWR"@[4] == 'W' && "SIGPWR"@[5] == 'R');
    assert("SIGSYS"@.len() == 6 && "SIGSYS"@[4] == 'Y' && "SIGSYS"@[5] == 'S');
    assert("SIGQUIT"@.len() == 7 && "SIGQUIT"@[4] == 'U' && "SIGQUIT"@[5] == 'I' && "SIGQUIT"@[6] == 'T');
    assert("SIGTRAP"@.len() == 7 && "SIGTRAP"@[4] == 'R' && "SIGTRAP"@[5] == 'A' && "SIGTRAP"@[6] == 'P');
    assert("SIGABRT"@.len() == 7 && "SIGABRT"@[4] == 'B' && "SIGABRT"@[5] == 'R' && "SIGABRT"@[6] == 'T');
    assert("SIGKILL"@.len() == 7 && "SIGKILL"@[4] == 'I' && "SIGKILL"@[5] == 'L' && "SIGKILL"@[6] == 'L');
    assert("SIGUSR1"@.len() == 7 && "SIGUSR1"@[4] == 'S' && "SIGUSR1"@[5] == 'R' && "SIGUSR1"@[6] == '1');
    assert("SIGSEGV"@.len() == 7 && "SIGSEGV"@[4] == 'E' && "SIGSEGV"@[5] == 'G' && "SIGSEGV"@[6] == 'V');
    assert("SIGUSR2"@.len() == 7 && "SIGUSR2"@[4] == 'S' && "SIGUSR2"@[5] == 'R' && "SIGUSR2"@[6] == '2');
    assert("SIGPIPE"@.len() == 7 && "SIGPIPE"@[4] == 'I' && "SIGPIPE"@[5] == 'P' && "SIGPIPE"@[6] == 'E');
    assert("SIGALRM"@.len() == 7 && "SIGALRM"@[4] == 'L' && "SIGALRM"@[5] == 'R' && "SIGALRM"@[6] == 'M');
    assert("SIGTERM"@.len() == 7 && "SIGTERM"@[4] == 'E' && "SIGTERM"@[5] == 'R' && "SIGTERM"@[6] == 'M');
    assert("SIGCHLD"@.len() == 7 && "SIGCHLD"@[4] == 'H' && "SIGCHLD"@[5] == 'L' && "SIGCHLD"@[6] == 'D');
    assert("SIGCONT"@.len() == 7 && "SIGCONT"@[4] == 'O' && "SIGCONT"@[5] == 'N' && "SIGCONT"@[6] == 'T');
    assert("SIGSTOP"@.len() == 7 && "SIGSTOP"@[4] == 'T' && "SIGSTOP"@[5] == 'O' && "SIGSTOP"@[6] == 'P');
    assert("SIGTSTP"@.len() == 7 && "SIGTSTP"@[4] == 'S' && "SIGTSTP"@[5] == 'T' && "SIGTSTP"@[6] == 'P');
    assert("SIGTTIN"@.len() == 7 && "SIGTTIN"@[4] == 'T' && "SIGTTIN"@[5] == 'I' && "SIGTTIN"@[6] == 'N');
    assert("SIGTTOU"@.len() == 7 && "SIGTTOU"@[4] == 'T' && "SIGTTOU"@[5] == 'O' && "SIGTTOU"@[6] == 'U');
    assert("SIGXCPU"@.len() == 7 && "SIGXCPU"@[4] == 'C' && "SIGXCPU"@[5] == 'P' && "SIGXCPU"@[6] == 'U');
    assert("SIGXFSZ"@.len() == 7 && "SIGXFSZ"@[4] == 'F' && "SIGXFSZ"@[5] == 'S' && "SIGXFSZ"@[6] == 'Z');
    assert("SIGPROF"@.len() == 7 && "SIGPROF"@[4] == 'R' && "SIGPROF"@[5] == 'O' && "SIGPROF"@[6] == 'F');
    assert("SIGWINCH"@.len() == 8 && "SIGWINCH"@[7] == 'H');
    assert("SIGRTMIN"@.len() == 8 && "SIGRTMIN"@[7] == 'N');
    assert("SIGRTMAX"@.len() == 8 && "SIGRTMAX"@[7] == 'X');
    assert("SIGSTKFLT"@.len() == 9 && "SIGSTKFLT"@[8] == 'T');
    assert("SIGVTALRM"@.len() == 9 && "SIGVTALRM"@[8] == 'M');
    assert("SIGHUP"@[3] == 'H' && "SIGHUP"@[4] == 'U');
    names_without_the_sign("SIGHUP"@);
    assert("SIGINT"@[3] == 'I' && "SIGINT"@[4] == 'N');
    names_without_the_sign("SIGINT"@);
    assert("SIGQUIT"@[3] == 'Q' && "SIGQUIT"@[4] == 'U');
    names_without_the_sign("SIGQUIT"@);
    assert("SIGILL"@[3] == 'I' && "SIGILL"@[4] == 'L');
    names_without_the_sign("SIGILL"@);
    assert("SIGTRAP"@[3] == 'T' && "SIGTRAP"@[4] == 'R');
    names_without_the_sign("SIGTRAP"@);
    assert("SIGABRT"@[3] == 'A' && "SIGABRT"@[4] == 'B');
    names_without_the_sign("SIGABRT"@);
    assert("SIGBUS"@[3] == 'B' && "SIGBUS"@[4] == 'U');
    names_without_the_sign("SIGBUS"@);
    assert("SIGFPE"@[3] == 'F' && "SIGFPE"@[4] == 'P');
    names_without_the_sign("SIGFPE"@);
    assert("SIGKILL"@[3] == 'K' && "SIGKILL"@[4] == 'I');
    names_without_the_sign("SIGKILL"@);
    assert("SIGUSR1"@[3] == 'U' && "SIGUSR1"@[4] == 'S');
    names_without_the_sign("SIGUSR1"@);
    assert("SIGSEGV"@[3] == 'S' && "SIGSEGV"@[4] == 'E');
    names_without_the_sign("SIGSEGV"@);
    assert("SIGUSR2"@[3] == 'U' && "SIGUSR2"@[4] == 'S');
    names_without_the_sign("SIGUSR2"@);
    assert("SIGPIPE"@[3] == 'P' && "SIGPIPE"@[4] == 'I');
    names_without_the_sign("SIGPIPE"@);
    assert("SIGALRM"@[3] == 'A' && "SIGALRM"@[4] == 'L');
    names_without_the_sign("SIGALRM"@);
    assert("SIGTERM"@[3] == 'T' && "SIGTERM"@[4] == 'E');
    names_without_the_sign("SIGTERM"@);
    assert("SIGSTKFLT"@[3] == 'S' && "SIGSTKFLT"@[4] == 'T');
    names_without_the_sign("SIGSTKFLT"@);
    assert("SIGCHLD"@[3] == 'C' && "SIGCHLD"@[4] == 'H');
    names_without_the_sign("SIGCHLD"@);
    assert("SIGCONT"@[3] == 'C' && "SIGCONT"@[4] == 'O');
    names_without_the_sign("SIGCONT"@);
    assert("SIGSTOP"@[3] == 'S' && "SIGSTOP"@[4] == 'T');
    names_without_the_sign("SIGSTOP"@);
    assert("SIGTSTP"@[3] == 'T' && "SIGTSTP"@[4] == 'S');
    names_without_the_sign("SIGTSTP"@);
    assert("SIGTTIN"@[3] == 'T' && "SIGTTIN"@[4] == 'T');
    names_without_the_sign("SIGTTIN"@);
    assert("SIGTTOU"@[3] == 'T' && "SIGTTOU"@[4] == 'T');
    names_without_the_sign("SIGTTOU"@);
    assert("SIGURG"@[3] == 'U' && "SIGURG"@[4] == 'R');
    names_without_the_sign("SIGURG"@);
    assert("SIGXCPU"@[3] == 'X' && "SIGXCPU"@[4] == 'C');
    names_without_the_sign("SIGXCPU"@);
    assert("SIGXFSZ"@[3] == 'X' && "SIGXFSZ"@[4] == 'F');
    names_without_the_sign("SIGXFSZ"@);
    assert("SIGVTALRM"@[3] == 'V' && "SIGVTALRM"@[4] == 'T');
    names_without_the_sign("SIGVTALRM"@);
    assert("SIGPROF"@[3] == 'P' && "SIGPROF"@[4] == 'R');
    names_without_the_sign("SIGPROF"@);
    assert("SIGWINCH"@[3] == 'W' && "SIGWINCH"@[4] == 'I');
    names_without_the_sign("SIGWINCH"@);
    assert("SIGIO"@[3] == 'I' && "SIGIO"@[4] == 'O');
    names_without_the_sign("SIGIO"@);
    assert("SIGPWR"@[3] == 'P' && "SIGPWR"@[4] == 'W');
    names_without_the_sign("SIGPWR"@);
    assert("SIGSYS"@[3] == 'S' && "SIGSYS"@[4] == 'Y');
    names_without_the_sign("SIGSYS"@);
}

/// Real-time signals count from the first one that is there, or, in the spelling of the
/// kernel, from thirty-two on; there are none beyond the last.
pub proof fn real_time_signals_are_counted(range: SignalRange, k: nat)
    requires
        32 <= range.first <= range.last,
        k <= i32::MAX,
    ensures
        signals::signal_value("SIGRTMIN"@, range) == Some(range.first),
        signals::signal_value("SIGRTMAX"@, range) == Some(range.last),
        signals::signal_value("SIGRTMIN+"@ + numbers::decimal(k), range) == (if range.first + k
            <= range.last {
            Some((range.first + k) as i32)
        } else {
            None
        }),
        signals::signal_value("SIGRT_"@ + numbers::decimal(k), range) == (if 32 + k <= range.last {
            Some((32 + k) as i32)
        } else {
            None
        }),
{
    reveal_strlit("SIGRT_");
    reveal_strlit("SIGRTMIN+");
    reveal_strlit("SIGRTMIN");
    reveal_strlit("SIGRTMAX");
    let d = numbers::decimal(k);
    numbers::signed_reads_back(k as int);
    assert("SIGRTMIN"@.len() == 8 && "SIGRTMAX"@.len() == 8);
    assert("SIGRTMIN"@[5] == 'M' && "SIGRTMAX"@[5] == 'M' && "SIGRTMIN"@[7] == 'N'
        && "SIGRTMAX"@[7] == 'X');
    if text::matches_at("SIGRTMIN"@, "SIGRT_"@, 0) {
        assert("SIGRTMIN"@.subrange(0, 6)[5] == '_');
    }
    if text::matches_at("SIGRTMAX"@, "SIGRT_"@, 0) {
        assert("SIGRTMAX"@.subrange(0, 6)[5] == '_');
    }
    let a = "SIGRTMIN+"@ + d;
    assert(a.subrange(0, 9) =~= "SIGRTMIN+"@);
    assert(a.subrange(9, a.len() as int) =~= d);
    assert(a[5] == 'M');
    if text::matches_at(a, "SIGRT_"@, 0) {
        assert(a.subrange(0, 6)[5] == '_');
    }
    let b = "SIGRT_"@ + d;
    assert(b.subrange(0, 6) =~= "SIGRT_"@);
    assert(b.subrange(6, b.len() as int) =~= d);
}

/// The status of a task that exited is read as its exit code.
pub proof fn exit_codes_are_read(code: i32, range: SignalRange)
    ensures
        facts::exit_of(
            "+++ exited with "@ + numbers::signed(code as int) + " +++"@,
            range,
        ) == ProcessExit::Exited(code),
{
    reveal_strlit("+++ exited with ");
    reveal_strlit(" +++");
    let d = numbers::signed(code as int);
    numbers::signed_reads_back(code as int);
    let s = "+++ exited with "@ + d + " +++"@;
    assert(s.subrange(0, 16) =~= "+++ exited with "@);
    let rest = s.subrange(16, s.len() as int);
    assert(rest =~= d + " +++"@);
    assert(rest.subrange(rest.len() - 4, rest.len() as int) =~= " +++"@);
    assert(rest.subrange(0, rest.len() - 4) =~= d);
}

/// The status of a task that was killed is read as the signal that the first word behind
/// `killed by` names, whatever follows; where that word names none, the end is not
/// understood.
pub proof fn deaths_are_read(name: Seq<char>, rest: Seq<char>, range: SignalRange)
    requires
        read_back::is_word(name),
        rest.len() > 0 ==> text::white_space(rest[0]),
    ensures
        facts::exit_of("+++ killed by "@ + name + rest, range) == (match signals::signal_value(
            name,
            range,
        ) {
            Some(n) => ProcessExit::Signaled(n),
            None => ProcessExit::Unknown,
        }),
{
    reveal_strlit("+++ killed by ");
    reveal_strlit("+++ exited with ");
    let s = "+++ killed by "@ + name + rest;
    assert(s.subrange(0, 14) =~= "+++ killed by "@);
    assert(s.subrange(14, s.len() as int) =~= name + rest);
    assert(s[4] == 'k');
    if text::matches_at(s, "+++ exited with "@, 0) {
        assert(s.subrange(0, 16)[4] == 'e');
    }
    assert forall|i: int| 0 <= i < name.len() implies !text::white_space(#[trigger] name[i]) by {
        assert(read_back::word_char(name[i]));
    }
    read_back::first_words(name, rest);
}

/// A shell gives the exit code of a task that exited, and 128 and the signal of one that was
/// killed; metadata keeps the two apart, and a wait reports one of them.
pub proof fn ends_are_kept_apart(n: i32)
    ensures
        ProcessExit::Exited(n).shell_status() == Some(n),
        ProcessExit::Exited(n).fields() == (Some(n), None::<i32>),
        n <= i32::MAX - 128 ==> ProcessExit::Signaled(n).shell_status() == Some((128 + n) as i32),
        ProcessExit::Signaled(n).fields() == (None::<i32>, Some(n)),
        ProcessExit::Unknown.shell_status() is None,
        ProcessExit::Unknown.fields() == (None::<i32>, None::<i32>),
        ProcessExit::waited(Some(n), None) == ProcessExit::Exited(n),
        ProcessExit::waited(None, Some(n)) == ProcessExit::Signaled(n),
        ProcessExit::waited(None, None) == ProcessExit::Unknown,
{
}

/// Whether the collector was waited for and ended as the target did, as far as that is
/// understood.
pub open spec fn confirmed(f: FactsView, range: SignalRange) -> bool {
    f.collector matches CollectorView::Reaped(exit) && {
        &&& !(exit is Unknown)
        &&& f.root_outcome matches Some(outcome) && (facts::exit_of(outcome, range) is Unknown
            || facts::exit_of(outcome, range) == exit)
    }
}

/// Whether nothing cut a capture short: no limit was exceeded and supervision did not fail.
pub open spec fn undisturbed(f: FactsView) -> bool {
    f.limits.duration is None && f.limits.trace_bytes is None && f.supervision_error is None
}

/// A capture that a signal stopped is interrupted; else it is completed exactly if the end of
/// the target was seen and confirmed and nothing cut it short, and failed if not.
pub proof fn captures_have_their_state(f: FactsView, range: SignalRange)
    ensures
        f.recorder is Signal <==> f.state(range) is Interrupted,
        f.recorder is NoSignal && confirmed(f, range) && undisturbed(f) <==> f.state(
            range,
        ) is Completed,
        f.recorder is NoSignal && !(confirmed(f, range) && undisturbed(f)) <==> f.state(
            range,
        ) is CaptureFailed,
{
}

/// A capture is complete only if it was completed and nothing is warned of, partial if it was
/// completed with warnings, and incomplete if it was not completed.
pub proof fn captures_have_their_completeness(f: FactsView, range: SignalRange)
    ensures
        ({
            let done = f.recorder is NoSignal && confirmed(f, range) && undisturbed(f);
            let warned = f.limitations(range).len() > 0;
            &&& f.completeness(range) is CompleteForSupportedEvents <==> done && !warned
            &&& f.completeness(range) is Partial <==> done && warned
            &&& f.completeness(range) is Incomplete <==> !done
        }),
{
    captures_have_their_state(f, range);
}

/// The exit status of a capture: that of a shell for the signal that stopped it; 125 if it
/// failed; else that of the target, or of the collector where that of the target is not
/// understood.
pub proof fn captures_have_their_exit_status(f: FactsView, range: SignalRange)
    ensures
        f.recorder is Signal && f.recorder->Signal_0 <= i32::MAX - 128 ==> f.cli_exit(range) == 128
            + f.recorder->Signal_0,
        f.recorder is NoSignal && !(confirmed(f, range) && undisturbed(f)) ==> f.cli_exit(range)
            == 125,
        f.recorder is NoSignal && confirmed(f, range) && undisturbed(f) ==> {
            let target = facts::exit_of(f.root_outcome->0, range);
            let collector = f.collector->Reaped_0;
            &&& target matches ProcessExit::Exited(code) ==> f.cli_exit(range) == code
            &&& target is Signaled && target->Signaled_0 <= i32::MAX - 128 ==> f.cli_exit(range)
                == 128 + target->Signaled_0
            &&& target is Unknown && collector is Exited ==> f.cli_exit(range)
                == collector->Exited_0
            &&& target is Unknown && collector is Signaled && collector->Signaled_0 <= i32::MAX
                - 128 ==> f.cli_exit(range) == 128 + collector->Signaled_0
        },
{
    captures_have_their_state(f, range);
}

/// What is said of a limit that was exceeded: the limit of the duration in milliseconds, or
/// the length of the trace and its limit in bytes.
pub proof fn limits_are_told(limit: u128, fact: TraceBytesLimitFact)
    ensures
        (CaptureLimitFacts { duration: Some(limit), trace_bytes: Some(fact) }).warnings() == seq![
            "capture duration limit exceeded (limit: "@ + numbers::decimal(
                (limit / 1_000_000) as nat,
            ) + " ms)"@,
            "capture trace byte limit exceeded (observed: "@ + numbers::decimal(
                fact.observed as nat,
            ) + " bytes, limit: "@ + numbers::decimal(fact.limit as nat) + " bytes)"@,
        ],
        (CaptureLimitFacts { duration: Some(limit), trace_bytes: None }).warnings() == seq![
            "capture duration limit exceeded (limit: "@ + numbers::decimal(
                (limit / 1_000_000) as nat,
            ) + " ms)"@,
        ],
        (CaptureLimitFacts { duration: None, trace_bytes: Some(fact) }).warnings() == seq![
            "capture trace byte limit exceeded (observed: "@ + numbers::decimal(
                fact.observed as nat,
            ) + " bytes, limit: "@ + numbers::decimal(fact.limit as nat) + " bytes)"@,
        ],
        (CaptureLimitFacts { duration: None, trace_bytes: None }).warnings().len() == 0,
{
    let both = CaptureLimitFacts { duration: Some(limit), trace_bytes: Some(fact) };
    assert(both.warnings() =~= seq![
        facts::duration_warning(limit),
        facts::bytes_warning(fact),
    ]);
    let first = CaptureLimitFacts { duration: Some(limit), trace_bytes: None };
    assert(first.warnings() =~= seq![facts::duration_warning(limit)]);
    let second = CaptureLimitFacts { duration: None, trace_bytes: Some(fact) };
    assert(second.warnings() =~= seq![facts::bytes_warning(fact)]);
}

/// The first duration that was exceeded is kept; a trace counts as too long only beyond its
/// limit, and the last length is kept.
pub proof fn limits_are_observed(f: CaptureLimitFacts, a: u128, observed: u64, limit: u64)
    ensures
        f.with_duration(a).trace_bytes == f.trace_bytes,
        f.duration is None ==> f.with_duration(a).duration == Some(a),
        f.duration is Some ==> f.with_duration(a).duration == f.duration,
        f.with_trace_bytes(observed, limit).duration == f.duration,
        observed <= limit ==> f.with_trace_bytes(observed, limit).trace_bytes == f.trace_bytes,
        observed > limit ==> f.with_trace_bytes(observed, limit).trace_bytes == Some(
            TraceBytesLimitFact { observed, limit },
        ),
{
}

/// A capture warns of what its trace warned of, of a trace that could not be read, of a
/// signal that is not known, of tasks whose end was not seen, of a target whose end was not
/// seen, of a collector that does not confirm it or did not run, of limits, and of
/// supervision; of each if it is so, in that order, and of nothing else.
pub proof fn captures_warn_of_what_limits_them(f: FactsView, range: SignalRange)
    ensures
        ({
            let all = f.limitations(range);
            let strange = f.root_outcome matches Some(outcome) && text::matches_at(
                outcome,
                "+++ killed by "@,
                0,
            ) && facts::exit_of(outcome, range) is Unknown;
            let unclear = f.collector is Reaped && f.root_outcome is Some && !confirmed(f, range)
                || f.collector == CollectorView::Reaped(ProcessExit::Unknown);
            &&& forall|i: int| 0 <= i < f.warnings.len() ==> all[i] == #[trigger] f.warnings[i]
            &&& f.read_error matches Some(e) ==> all.contains("cannot read trace: "@ + e)
            &&& strange ==> all.contains("unrecognized target termination signal"@)
            &&& f.missing.len() > 0 ==> all.contains(
                "process completion not observed for PIDs: "@ + text::joined_upto(
                    f.missing,
                    ", "@,
                    f.missing.len() as int,
                ),
            )
            &&& f.root_outcome is None ==> all.contains(
                "root process completion not observed; capture incomplete"@,
            )
            &&& unclear ==> all.contains("collector status does not confirm target completion"@)
            &&& f.collector matches CollectorView::NotStarted(reason) ==> all.contains(reason)
            &&& f.collector matches CollectorView::Failed(reason) ==> all.contains(reason)
            &&& f.limits.duration matches Some(limit) ==> all.contains(
                "capture duration limit exceeded (limit: "@ + numbers::decimal(
                    (limit / 1_000_000) as nat,
                ) + " ms)"@,
            )
            &&& f.limits.trace_bytes matches Some(fact) ==> all.contains(
                "capture trace byte limit exceeded (observed: "@ + numbers::decimal(
                    fact.observed as nat,
                ) + " bytes, limit: "@ + numbers::decimal(fact.limit as nat) + " bytes)"@,
            )
            &&& f.supervision_error matches Some(e) ==> all.contains(e)
            &&& all.len() == f.warnings.len() + one(f.read_error is Some) + one(strange) + one(
                f.missing.len() > 0,
            ) + one(f.root_outcome is None) + one(unclear || !(f.collector is Reaped)) + one(
                f.limits.duration is Some,
            ) + one(f.limits.trace_bytes is Some) + one(f.supervision_error is Some)
        }),
{
    let parts = warning_parts(f, range);
    assert(parts[0] == f.warnings);
    limitations_in_parts(f, range, 0, f.warnings[0]);
    if let Some(e) = f.read_error {
        holds_one("cannot read trace: "@ + e);
        limitations_in_parts(f, range, 1, "cannot read trace: "@ + e);
    }
    holds_one("unrecognized target termination signal"@);
    limitations_in_parts(f, range, 2, "unrecognized target termination signal"@);
    let missing = "process completion not observed for PIDs: "@ + text::joined_upto(
        f.missing,
        ", "@,
        f.missing.len() as int,
    );
    holds_one(missing);
    limitations_in_parts(f, range, 3, missing);
    let root = "root process completion not observed; capture incomplete"@;
    holds_one(root);
    limitations_in_parts(f, range, 4, root);
    let unclear = "collector status does not confirm target completion"@;
    holds_one(unclear);
    limitations_in_parts(f, range, 5, unclear);
    if let CollectorView::NotStarted(reason) = f.collector {
        holds_one(reason);
        limitations_in_parts(f, range, 5, reason);
    }
    if let CollectorView::Failed(reason) = f.collector {
        holds_one(reason);
        limitations_in_parts(f, range, 5, reason);
    }
    let limits = f.limits.warnings();
    if let Some(limit) = f.limits.duration {
        assert(limits[0] == facts::duration_warning(limit));
        limitations_in_parts(f, range, 6, facts::duration_warning(limit));
    }
    if let Some(fact) = f.limits.trace_bytes {
        assert(limits.last() == facts::bytes_warning(fact));
        assert(limits.contains(limits.last()));
        limitations_in_parts(f, range, 6, facts::bytes_warning(fact));
    }
    if let Some(e) = f.supervision_error {
        holds_one(e);
        limitations_in_parts(f, range, 7, e);
    }
}

proof fn holds_one(x: Seq<char>)
    ensures
        seq![x].contains(x),
        facts::only_if(true, x).contains(x),
{
    assert(seq![x][0] == x);
}

/// The parts of the warnings of a capture.
spec fn warning_parts(f: FactsView, range: SignalRange) -> Seq<Seq<Seq<char>>> {
    seq![
        f.warnings,
        match f.read_error {
            Some(error) => seq!["cannot read trace: "@ + error],
            None => Seq::empty(),
        },
        facts::only_if(
            f.root_outcome matches Some(outcome) && text::matches_at(
                outcome,
                "+++ killed by "@,
                0,
            ) && facts::exit_of(outcome, range) is Unknown,
            "unrecognized target termination signal"@,
        ),
        facts::only_if(
            f.missing.len() > 0,
            "process completion not observed for PIDs: "@ + text::joined_upto(
                f.missing,
                ", "@,
                f.missing.len() as int,
            ),
        ),
        facts::only_if(
            f.root_outcome is None,
            "root process completion not observed; capture incomplete"@,
        ),
        match f.collector {
            CollectorView::Reaped(exit) => facts::only_if(
                f.unconfirmed(range),
                "collector status does not confirm target completion"@,
            ),
            CollectorView::NotStarted(reason) => seq![reason],
            CollectorView::Failed(reason) => seq![reason],
        },
        f.limits.warnings(),
        match f.supervision_error {
            Some(error) => seq![error],
            None => Seq::empty(),
        },
    ]
}

spec fn joined_parts(parts: Seq<Seq<Seq<char>>>, n: int) -> Seq<Seq<char>>
    decreases n,
{
    if n <= 1 {
        parts[0]
    } else {
        joined_parts(parts, n - 1) + parts[n - 1]
    }
}

proof fn part_is_kept(parts: Seq<Seq<Seq<char>>>, n: int, i: int, x: Seq<char>)
    requires
        0 <= i < n <= parts.len(),
    ensures
        parts[i].contains(x) ==> joined_parts(parts, n).contains(x),
        forall|k: int|
            0 <= k < parts[0].len() ==> joined_parts(parts, n)[k] == #[trigger] parts[0][k],
        joined_parts(parts, n).len() >= parts[0].len(),
    decreases n,
{
    if n > 1 {
        let before = joined_parts(parts, n - 1);
        let all = joined_parts(parts, n);
        if i < n - 1 {
            part_is_kept(parts, n - 1, i, x);
            if parts[i].contains(x) {
                let k = choose|k: int| 0 <= k < before.len() && before[k] == x;
                assert(all[k] == x);
            }
        } else {
            part_is_kept(parts, n - 1, 0, x);
            if parts[i].contains(x) {
                let k = choose|k: int| 0 <= k < parts[i].len() && parts[i][k] == x;
                assert(all[before.len() + k] == x);
            }
        }
    }
}

proof fn limitations_in_parts(f: FactsView, range: SignalRange, i: int, x: Seq<char>)
    requires
        0 <= i < 8,
    ensures
        ({
            let parts = warning_parts(f, range);
            let all = f.limitations(range);
            &&& parts[i].contains(x) ==> all.contains(x)
            &&& forall|k: int| 0 <= k < parts[0].len() ==> all[k] == #[trigger] parts[0][k]
            &&& all.len() == parts[0].len() + parts[1].len() + parts[2].len() + parts[3].len()
                + parts[4].len() + parts[5].len() + parts[6].len() + parts[7].len()
        }),
{
    let parts = warning_parts(f, range);
    reveal_with_fuel(joined_parts, 9);
    assert(f.limitations(range) == joined_parts(parts, 8));
    part_is_kept(parts, 8, i, x);
}

/// One where something holds.
pub open spec fn one(b: bool) -> int {
    if b {
        1
    } else {
        0
    }
}

/// An error of the supervision is kept behind an earlier one.
pub proof fn errors_are_kept(first: Seq<char>, second: Seq<char>)
    ensures
        facts::joined_error(None, first) == first,
        facts::joined_error(Some(first), second) == first + "; additionally "@ + second,
{
}

/// Printable characters but the backslash are spelled as they are; every other byte is
/// spelled as a backslash, an `x` and two lowercase hexadecimal digits. Bytes are spelled one
/// after the other.
pub proof fn bytes_are_spelled(v: Seq<u8>, b: u8)
    ensures
        model::escaped(Seq::<u8>::empty()) == Seq::<char>::empty(),
        0x20 <= b <= 0x7e && b != 0x5c ==> model::escaped(v.push(b)) == model::escaped(v) + seq![
            b as char,
        ],
        !(0x20 <= b <= 0x7e && b != 0x5c) ==> {
            let s = model::escaped(v.push(b));
            let n = model::escaped(v).len() as int;
            &&& s.len() == n + 4
            &&& s.subrange(0, n) == model::escaped(v)
            &&& s[n] == '\\' && s[n + 1] == 'x'
            &&& numbers::number_value(s.subrange(n + 2, n + 4), 16) == Some(b as int)
            &&& forall|i: int|
                n + 2 <= i < n + 4 ==> '0' <= #[trigger] s[i] <= '9' || 'a' <= s[i] <= 'f'
        },
{
    let longer = v.push(b);
    let n = v.len() as int;
    same_spelling(v, longer, n);
    assert(longer[n] == b);
    assert(model::escaped(longer) == model::escaped(v) + model::escaped_byte(b));
    let s = model::escaped(longer);
    let m = model::escaped(v).len() as int;
    assert(s.subrange(0, m) =~= model::escaped(v));
    if !(0x20 <= b <= 0x7e && b != 0x5c) {
        let pair = s.subrange(m + 2, m + 4);
        reveal_with_fuel(numbers::digits_value, 3);
        assert(pair[0] == numbers::hex_digit(b as int / 16));
        assert(pair[1] == numbers::hex_digit(b as int % 16));
        assert(numbers::digit_value(pair[0], 16) == Some(b as int / 16));
        assert(numbers::digit_value(pair[1], 16) == Some(b as int % 16));
    }
}

proof fn same_spelling(a: Seq<u8>, b: Seq<u8>, n: int)
    requires
        forall|i: int| 0 <= i < n ==> a[i] == b[i],
    ensures
        model::escaped_upto(a, n) == model::escaped_upto(b, n),
    decreases n,
{
    if n > 0 {
        same_spelling(a, b, n - 1);
    }
}

} // verus!
