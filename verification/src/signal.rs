//! Signals of the traced process, by their Linux numbers on x86-64.

use vstd::prelude::*;

verus! {

/// A signal that the kernel can report for the traced process.
#[derive(Clone, Copy, Debug, PartialEq, Eq, Structural)]
pub enum Signal {
    SIGHUP,
    SIGINT,
    SIGQUIT,
    SIGILL,
    SIGTRAP,
    SIGABRT,
    SIGBUS,
    SIGFPE,
    SIGKILL,
    SIGUSR1,
    SIGSEGV,
    SIGUSR2,
    SIGPIPE,
    SIGALRM,
    SIGTERM,
    SIGSTKFLT,
    SIGCHLD,
    SIGCONT,
    SIGSTOP,
    SIGTSTP,
    SIGTTIN,
    SIGTTOU,
    SIGURG,
    SIGXCPU,
    SIGXFSZ,
    SIGVTALRM,
    SIGPROF,
    SIGWINCH,
    SIGIO,
    SIGPWR,
    SIGSYS,
}

/// The number of the trap signal, which a breakpoint or a single step raises.
pub const SIGTRAP_NUMBER: i32 = 5;

/// The lowest signal number that has a name.
pub const FIRST_SIGNAL_NUMBER: i32 = 1;

/// The highest signal number that has a name.
pub const LAST_SIGNAL_NUMBER: i32 = 31;

/// Whether `n` is the number of a named signal.
pub open spec fn is_signal_number(n: int) -> bool {
    FIRST_SIGNAL_NUMBER <= n <= LAST_SIGNAL_NUMBER
}

/// The number of each signal.
pub open spec fn signal_number(s: Signal) -> int {
    match s {
        Signal::SIGHUP => 1,
        Signal::SIGINT => 2,
        Signal::SIGQUIT => 3,
        Signal::SIGILL => 4,
        Signal::SIGTRAP => 5,
        Signal::SIGABRT => 6,
        Signal::SIGBUS => 7,
        Signal::SIGFPE => 8,
        Signal::SIGKILL => 9,
        Signal::SIGUSR1 => 10,
        Signal::SIGSEGV => 11,
        Signal::SIGUSR2 => 12,
        Signal::SIGPIPE => 13,
        Signal::SIGALRM => 14,
        Signal::SIGTERM => 15,
        Signal::SIGSTKFLT => 16,
        Signal::SIGCHLD => 17,
        Signal::SIGCONT => 18,
        Signal::SIGSTOP => 19,
        Signal::SIGTSTP => 20,
        Signal::SIGTTIN => 21,
        Signal::SIGTTOU => 22,
        Signal::SIGURG => 23,
        Signal::SIGXCPU => 24,
        Signal::SIGXFSZ => 25,
        Signal::SIGVTALRM => 26,
        Signal::SIGPROF => 27,
        Signal::SIGWINCH => 28,
        Signal::SIGIO => 29,
        Signal::SIGPWR => 30,
        Signal::SIGSYS => 31,
    }
}

/// The signal that a number stands for: the one with that number, and
/// `SIGTERM` for a number that no signal has.
pub open spec fn signal_of_number(n: int) -> Signal {
    if exists|s: Signal| signal_number(s) == n {
        choose|s: Signal| signal_number(s) == n
    } else {
        Signal::SIGTERM
    }
}

/// No two signals share a number, and the numbers are exactly 1 to 31.
pub proof fn lemma_signal_numbers(s: Signal, t: Signal)
    ensures
        is_signal_number(signal_number(s)),
        signal_number(s) == signal_number(t) ==> s == t,
{
}

/// Reading a signal's number back gives the signal.
pub proof fn lemma_signal_round_trip(s: Signal)
    ensures
        signal_of_number(signal_number(s)) == s,
{
    let n = signal_number(s);
    let t = choose|t: Signal| signal_number(t) == n;
    lemma_signal_numbers(s, t);
}

/// Every number from 1 to 31 is the number of the signal it stands for;
/// every other number stands for `SIGTERM`.
pub proof fn lemma_number_round_trip(n: int)
    ensures
        is_signal_number(n) ==> signal_number(signal_of_number(n)) == n,
        !is_signal_number(n) ==> signal_of_number(n) == Signal::SIGTERM,
{
    if is_signal_number(n) {
        let w = lemma_signal_witness(n);
        assert(signal_number(w) == n);
    } else {
        assert forall|s: Signal| signal_number(s) != n by {
            lemma_signal_numbers(s, s);
        }
    }
}

proof fn lemma_signal_witness(n: int) -> (s: Signal)
    requires
        is_signal_number(n),
    ensures
        signal_number(s) == n,
{
    if n == 1 { Signal::SIGHUP }
    else if n == 2 { Signal::SIGINT }
    else if n == 3 { Signal::SIGQUIT }
    else if n == 4 { Signal::SIGILL }
    else if n == 5 { Signal::SIGTRAP }
    else if n == 6 { Signal::SIGABRT }
    else if n == 7 { Signal::SIGBUS }
    else if n == 8 { Signal::SIGFPE }
    else if n == 9 { Signal::SIGKILL }
    else if n == 10 { Signal::SIGUSR1 }
    else if n == 11 { Signal::SIGSEGV }
    else if n == 12 { Signal::SIGUSR2 }
    else if n == 13 { Signal::SIGPIPE }
    else if n == 14 { Signal::SIGALRM }
    else if n == 15 { Signal::SIGTERM }
    else if n == 16 { Signal::SIGSTKFLT }
    else if n == 17 { Signal::SIGCHLD }
    else if n == 18 { Signal::SIGCONT }
    else if n == 19 { Signal::SIGSTOP }
    else if n == 20 { Signal::SIGTSTP }
    else if n == 21 { Signal::SIGTTIN }
    else if n == 22 { Signal::SIGTTOU }
    else if n == 23 { Signal::SIGURG }
    else if n == 24 { Signal::SIGXCPU }
    else if n == 25 { Signal::SIGXFSZ }
    else if n == 26 { Signal::SIGVTALRM }
    else if n == 27 { Signal::SIGPROF }
    else if n == 28 { Signal::SIGWINCH }
    else if n == 29 { Signal::SIGIO }
    else if n == 30 { Signal::SIGPWR }
    else { Signal::SIGSYS }
}

impl Signal {
    /// The signal's number.
    pub fn number(self) -> (n: i32)
        ensures
            n == signal_number(self),
    {
        match self {
            Signal::SIGHUP => 1,
            Signal::SIGINT => 2,
            Signal::SIGQUIT => 3,
            Signal::SIGILL => 4,
            Signal::SIGTRAP => 5,
            Signal::SIGABRT => 6,
            Signal::SIGBUS => 7,
            Signal::SIGFPE => 8,
            Signal::SIGKILL => 9,
            Signal::SIGUSR1 => 10,
            Signal::SIGSEGV => 11,
            Signal::SIGUSR2 => 12,
            Signal::SIGPIPE => 13,
            Signal::SIGALRM => 14,
            Signal::SIGTERM => 15,
            Signal::SIGSTKFLT => 16,
            Signal::SIGCHLD => 17,
            Signal::SIGCONT => 18,
            Signal::SIGSTOP => 19,
            Signal::SIGTSTP => 20,
            Signal::SIGTTIN => 21,
            Signal::SIGTTOU => 22,
            Signal::SIGURG => 23,
            Signal::SIGXCPU => 24,
            Signal::SIGXFSZ => 25,
            Signal::SIGVTALRM => 26,
            Signal::SIGPROF => 27,
            Signal::SIGWINCH => 28,
            Signal::SIGIO => 29,
            Signal::SIGPWR => 30,
            Signal::SIGSYS => 31,
        }
    }
}

/// The signal that `signal_num` stands for. A number that names no signal is
/// read as `SIGTERM`.
pub fn signal_from_num(signal_num: i32) -> (signal: Signal)
    ensures
        signal == signal_of_number(signal_num as int),
        is_signal_number(signal_num as int) ==> signal_number(signal) == signal_num,
        !is_signal_number(signal_num as int) ==> signal == Signal::SIGTERM,
{
    let signal = match signal_num {
        1 => Signal::SIGHUP,
        2 => Signal::SIGINT,
        3 => Signal::SIGQUIT,
        4 => Signal::SIGILL,
        5 => Signal::SIGTRAP,
        6 => Signal::SIGABRT,
        7 => Signal::SIGBUS,
        8 => Signal::SIGFPE,
        9 => Signal::SIGKILL,
        10 => Signal::SIGUSR1,
        11 => Signal::SIGSEGV,
        12 => Signal::SIGUSR2,
        13 => Signal::SIGPIPE,
        14 => Signal::SIGALRM,
        15 => Signal::SIGTERM,
        16 => Signal::SIGSTKFLT,
        17 => Signal::SIGCHLD,
        18 => Signal::SIGCONT,
        19 => Signal::SIGSTOP,
        20 => Signal::SIGTSTP,
        21 => Signal::SIGTTIN,
        22 => Signal::SIGTTOU,
        23 => Signal::SIGURG,
        24 => Signal::SIGXCPU,
        25 => Signal::SIGXFSZ,
        26 => Signal::SIGVTALRM,
        27 => Signal::SIGPROF,
        28 => Signal::SIGWINCH,
        29 => Signal::SIGIO,
        30 => Signal::SIGPWR,
        31 => Signal::SIGSYS,
        _ => Signal::SIGTERM,
    };
    proof {
        lemma_number_round_trip(signal_num as int);
        if is_signal_number(signal_num as int) {
            lemma_signal_numbers(signal, signal_of_number(signal_num as int));
        }
    }
    signal
}

} // verus!
