//! The commands of the command loop and the notices that it shows.

use crate::format::texts;
use crate::location::{parse_location, place_of, Location, Place};
use crate::words::{split_words, trim, trimmed, words_of};
use crate::process::StopEvent;
use crate::signal::Signal;
use vstd::prelude::*;
use vstd::string::StringExecFns;

verus! {

/// A command of the debugger.
#[derive(Debug)]
pub enum Command {
    /// Start the program anew, under trace, with these arguments.
    Run(Vec<String>),
    /// Let the stopped process run on.
    Continue,
    /// Set a breakpoint at this place.
    Break(Location),
    /// Show the call stack of the stopped process.
    Backtrace,
    /// Show the registers of the stopped process.
    Registers,
    /// End the traced process and leave.
    Quit,
    /// An input without a word.
    Empty,
    /// Any other input, as it is to be shown: its first word where the
    /// command was read from words, the line without the white space around
    /// it where it was read from a line.
    Unknown(String),
}

/// What a command says.
pub enum Request {
    Run(Seq<Seq<char>>),
    Continue,
    Break(Place),
    Backtrace,
    Registers,
    Quit,
    Empty,
    Unknown(Seq<char>),
}

impl View for Command {
    type V = Request;

    open spec fn view(&self) -> Request {
        match self {
            Command::Run(arguments) => Request::Run(texts(arguments@)),
            Command::Continue => Request::Continue,
            Command::Break(location) => Request::Break(location@),
            Command::Backtrace => Request::Backtrace,
            Command::Registers => Request::Registers,
            Command::Quit => Request::Quit,
            Command::Empty => Request::Empty,
            Command::Unknown(word) => Request::Unknown(word@),
        }
    }
}

/// The command that the words of an input line stand for. The first word
/// names the command. `run` takes the words after it as the program's
/// arguments; `break` takes the second word as the place of the breakpoint
/// and is no command without it.
pub open spec fn request_of(words: Seq<Seq<char>>) -> Request {
    if words.len() == 0 {
        Request::Empty
    } else if words[0] == "run"@ {
        Request::Run(words.skip(1))
    } else if words[0] == "continue"@ {
        Request::Continue
    } else if words[0] == "backtrace"@ {
        Request::Backtrace
    } else if words[0] == "registers"@ {
        Request::Registers
    } else if words[0] == "quit"@ {
        Request::Quit
    } else if words[0] == "break"@ && words.len() >= 2 {
        Request::Break(place_of(words[1]))
    } else {
        Request::Unknown(words[0])
    }
}

/// The command that the words of an input line stand for.
pub fn parse_command(words: Vec<String>) -> (command: Command)
    ensures
        command@ == request_of(texts(words@)),
{
    let mut words = words;
    if words.len() == 0 {
        return Command::Empty;
    }
    let ghost all = texts(words@);
    let rest = words.split_off(1);
    assert(texts(rest@) =~= all.skip(1));
    let second = if rest.len() > 0 {
        Some(rest[0].as_str())
    } else {
        None
    };
    let first = match words.pop() {
        Some(first) => first,
        None => {
            return Command::Empty;
        },
    };
    assert(first@ == all[0]);
    if first == String::from_str("run") {
        Command::Run(rest)
    } else if first == String::from_str("continue") {
        Command::Continue
    } else if first == String::from_str("backtrace") {
        Command::Backtrace
    } else if first == String::from_str("registers") {
        Command::Registers
    } else if first == String::from_str("quit") {
        Command::Quit
    } else if first == String::from_str("break") {
        match second {
            Some(text) => {
                assert(text@ == all[1]);
                Command::Break(parse_location(text))
            },
            None => Command::Unknown(first),
        }
    } else {
        Command::Unknown(first)
    }
}

/// The command that an input line stands for: that of its words, and for a
/// line that is no command the line itself, without the white space around
/// it.
pub open spec fn request_for(line: Seq<char>) -> Request {
    match request_of(words_of(line)) {
        Request::Unknown(_) => Request::Unknown(trimmed(line)),
        request => request,
    }
}

/// The command that an input line stands for.
pub fn parse_line(line: &str) -> (command: Command)
    ensures
        command@ == request_for(line@),
{
    match parse_command(split_words(line)) {
        Command::Unknown(_) => Command::Unknown(trim(line)),
        command => command,
    }
}

/// What is shown for an input that is no command.
pub fn unknown_command_notice(input: &str) -> (notice: String)
    ensures
        notice@ == "Unknown command: "@ + input@,
{
    let mut notice = String::from_str("Unknown command: ");
    notice.append(input);
    notice
}

/// What is shown when a command needs a process and none is being debugged.
pub fn nothing_debugged_notice() -> (notice: String)
    ensures
        notice@ == "Nothing is being debugged!"@,
{
    String::from_str("Nothing is being debugged!")
}

/// The name of a signal.
pub open spec fn signal_name(signal: Signal) -> Seq<char> {
    match signal {
        Signal::SIGHUP => "SIGHUP"@,
        Signal::SIGINT => "SIGINT"@,
        Signal::SIGQUIT => "SIGQUIT"@,
        Signal::SIGILL => "SIGILL"@,
        Signal::SIGTRAP => "SIGTRAP"@,
        Signal::SIGABRT => "SIGABRT"@,
        Signal::SIGBUS => "SIGBUS"@,
        Signal::SIGFPE => "SIGFPE"@,
        Signal::SIGKILL => "SIGKILL"@,
        Signal::SIGUSR1 => "SIGUSR1"@,
        Signal::SIGSEGV => "SIGSEGV"@,
        Signal::SIGUSR2 => "SIGUSR2"@,
        Signal::SIGPIPE => "SIGPIPE"@,
        Signal::SIGALRM => "SIGALRM"@,
        Signal::SIGTERM => "SIGTERM"@,
        Signal::SIGSTKFLT => "SIGSTKFLT"@,
        Signal::SIGCHLD => "SIGCHLD"@,
        Signal::SIGCONT => "SIGCONT"@,
        Signal::SIGSTOP => "SIGSTOP"@,
        Signal::SIGTSTP => "SIGTSTP"@,
        Signal::SIGTTIN => "SIGTTIN"@,
        Signal::SIGTTOU => "SIGTTOU"@,
        Signal::SIGURG => "SIGURG"@,
        Signal::SIGXCPU => "SIGXCPU"@,
        Signal::SIGXFSZ => "SIGXFSZ"@,
        Signal::SIGVTALRM => "SIGVTALRM"@,
        Signal::SIGPROF => "SIGPROF"@,
        Signal::SIGWINCH => "SIGWINCH"@,
        Signal::SIGIO => "SIGIO"@,
        Signal::SIGPWR => "SIGPWR"@,
        Signal::SIGSYS => "SIGSYS"@,
    }
}

/// The name of `signal`.
pub fn name_of_signal(signal: Signal) -> (name: &'static str)
    ensures
        name@ == signal_name(signal),
{
    match signal {
        Signal::SIGHUP => "SIGHUP",
        Signal::SIGINT => "SIGINT",
        Signal::SIGQUIT => "SIGQUIT",
        Signal::SIGILL => "SIGILL",
        Signal::SIGTRAP => "SIGTRAP",
        Signal::SIGABRT => "SIGABRT",
        Signal::SIGBUS => "SIGBUS",
        Signal::SIGFPE => "SIGFPE",
        Signal::SIGKILL => "SIGKILL",
        Signal::SIGUSR1 => "SIGUSR1",
        Signal::SIGSEGV => "SIGSEGV",
        Signal::SIGUSR2 => "SIGUSR2",
        Signal::SIGPIPE => "SIGPIPE",
        Signal::SIGALRM => "SIGALRM",
        Signal::SIGTERM => "SIGTERM",
        Signal::SIGSTKFLT => "SIGSTKFLT",
        Signal::SIGCHLD => "SIGCHLD",
        Signal::SIGCONT => "SIGCONT",
        Signal::SIGSTOP => "SIGSTOP",
        Signal::SIGTSTP => "SIGTSTP",
        Signal::SIGTTIN => "SIGTTIN",
        Signal::SIGTTOU => "SIGTTOU",
        Signal::SIGURG => "SIGURG",
        Signal::SIGXCPU => "SIGXCPU",
        Signal::SIGXFSZ => "SIGXFSZ",
        Signal::SIGVTALRM => "SIGVTALRM",
        Signal::SIGPROF => "SIGPROF",
        Signal::SIGWINCH => "SIGWINCH",
        Signal::SIGIO => "SIGIO",
        Signal::SIGPWR => "SIGPWR",
        Signal::SIGSYS => "SIGSYS",
    }
}

/// What is shown for a stop.
pub open spec fn stop_notice(event: StopEvent) -> Seq<char> {
    match event {
        StopEvent::Breakpoint(_) => "Breakpoint hit!"@,
        StopEvent::Signaled(signal) => "Signal received: "@ + signal_name(signal),
        StopEvent::Exited(_) => "Child process exited"@,
        StopEvent::Unknown => "Child process exited"@,
    }
}

/// What is shown for `event`: a hit of a breakpoint, the signal received, or
/// that the process is gone.
pub fn stop_message(event: StopEvent) -> (notice: String)
    ensures
        notice@ == stop_notice(event),
{
    match event {
        StopEvent::Breakpoint(_) => String::from_str("Breakpoint hit!"),
        StopEvent::Signaled(signal) => {
            let mut notice = String::from_str("Signal received: ");
            notice.append(name_of_signal(signal));
            notice
        },
        StopEvent::Exited(_) => String::from_str("Child process exited"),
        StopEvent::Unknown => String::from_str("Child process exited"),
    }
}

} // verus!
