//! What the command loop asks of the core: where a breakpoint goes, what to
//! do after a stop, the backtrace of the stopped process, and the end of the
//! traced process.

use crate::breakpoint::{
    detached, hit_plan, installed_at, position, record_of_set, records_after_install,
    records_after_lift, records_after_reinstall, records_after_set, write_of_install,
    write_of_set, Breakpoint, BreakpointManager, HitAction, MemoryWrite, Placement,
};
use crate::dwarf_data::{address_of, DwarfData};
use crate::format::{decimal_digits, print_registers, push_decimal_digits, register_dump, texts};
use crate::location::{Location, Place};
use crate::process::{
    event_of, instruction_pointer, is_live, is_stopped, state_after, ControlAction, ControlError,
    ProcessState, StopEvent, TargetProcess, WaitOutcome,
};
use crate::registers::RegisterSet;
use crate::signal::Signal;
use crate::unwind::{reports, unwind, walk, Backtrace, MemoryImage};
use vstd::prelude::*;
use vstd::string::StringExecFns;

verus! {

/// The address that a place stands for.
pub open spec fn address_at(place: Place, symbols: &DwarfData) -> Option<u64> {
    match place {
        Place::Address(address) => Some(address),
        Place::Function(name) => address_of(symbols.functions(), name),
    }
}

/// The address that `location` stands for: the address itself, or the start
/// of the function that it names; `None` for a name that the symbol table
/// does not hold.
pub fn resolve(location: &Location, symbols: &DwarfData) -> (address: Option<u64>)
    ensures
        address == address_at(location@, symbols),
{
    match location {
        Location::Address(address) => Some(*address),
        Location::Function(name) => symbols.get_addr_for_function(name.as_str()),
    }
}

/// The byte at a new breakpoint as `set` is to know it: the byte that was
/// read where the process is stopped, and none without a stopped process.
pub open spec fn known_byte(process: TargetProcess, read: Option<u8>) -> Option<u8> {
    if is_stopped(process.state) {
        read
    } else {
        None
    }
}

/// Sets a breakpoint at `address`. `read` is the byte that was read at
/// `address` in the process, or `None` where it could not be read. With a
/// stopped process the byte must have been read: otherwise nothing is
/// recorded and the request fails with `MemoryAccessError`. Without one the
/// breakpoint is recorded, to be installed in the next process. The result
/// holds the record and the write that installs the trap, where one is due.
pub fn set_breakpoint(
    process: &TargetProcess,
    breakpoints: &mut BreakpointManager,
    address: u64,
    read: Option<u8>,
) -> (placed: Result<Placement, ControlError>)
    ensures
        is_stopped(process.state) && read.is_none() ==> {
            &&& placed == Err::<Placement, ControlError>(ControlError::MemoryAccessError)
            &&& final(breakpoints).records() == old(breakpoints).records()
        },
        !(is_stopped(process.state) && read.is_none()) ==> {
            &&& placed == Ok::<Placement, ControlError>(
                Placement {
                    record: record_of_set(
                        old(breakpoints).records(),
                        address,
                        known_byte(*process, read),
                    ),
                    write: write_of_set(
                        old(breakpoints).records(),
                        address,
                        known_byte(*process, read),
                    ),
                },
            )
            &&& final(breakpoints).records() == records_after_set(
                old(breakpoints).records(),
                address,
                known_byte(*process, read),
            )
        },
{
    match process.state {
        ProcessState::Stopped { .. } => match read {
            Some(byte) => Ok(breakpoints.set(address, Some(byte))),
            None => Err(ControlError::MemoryAccessError),
        },
        _ => Ok(breakpoints.set(address, None)),
    }
}

/// The steps to take after a stop before it is shown: after a hit of a
/// breakpoint the breakpoint is lifted and the steps are those that carry the
/// process over it; after any other stop there are none and nothing changes.
pub fn handle_breakpoint(event: StopEvent, breakpoints: &mut BreakpointManager) -> (plan: Option<
    Vec<HitAction>,
>)
    ensures
        match event {
            StopEvent::Breakpoint(addr) => {
                &&& final(breakpoints).records() == records_after_lift(
                    old(breakpoints).records(),
                    addr,
                )
                &&& match plan {
                    Some(steps) => installed_at(old(breakpoints).records(), addr) && steps@
                        == hit_plan(
                        addr,
                        old(breakpoints).records()[position(
                            old(breakpoints).records(),
                            addr,
                        )].original.unwrap(),
                    ),
                    None => !installed_at(old(breakpoints).records(), addr),
                }
            },
            _ => plan.is_none() && final(breakpoints).records() == old(breakpoints).records(),
        },
{
    match event {
        StopEvent::Breakpoint(addr) => breakpoints.on_hit(addr),
        _ => None,
    }
}

/// The backtrace of the stopped process: `NoActiveProcess` where no process
/// is stopped or its registers are not known. `memory` is a copy of the
/// process's stack.
pub fn backtrace(
    process: &TargetProcess,
    memory: &MemoryImage,
    symbols: &DwarfData,
    max_frames: usize,
) -> (outcome: Result<Backtrace, ControlError>)
    ensures
        match outcome {
            Ok(trace) => {
                &&& process.state is Stopped
                &&& process.registers matches Some(registers)
                &&& trace.frames@.len() == walk(
                    symbols,
                    memory,
                    registers.frame(),
                    max_frames as nat,
                ).0.len()
                &&& forall|i: int|
                    0 <= i < trace.frames@.len() ==> reports(
                        #[trigger] trace.frames@[i],
                        symbols,
                        walk(symbols, memory, registers.frame(), max_frames as nat).0[i],
                    )
                &&& trace.end == walk(symbols, memory, registers.frame(), max_frames as nat).1
            },
            Err(e) => e == ControlError::NoActiveProcess && !(process.state is Stopped
                && process.registers.is_some()),
        },
{
    match (process.state, process.registers) {
        (ProcessState::Stopped { .. }, Some(registers)) => Ok(
            unwind(registers.frame_state(), memory, symbols, max_frames),
        ),
        _ => Err(ControlError::NoActiveProcess),
    }
}

/// The decimal digits of a process id, with a minus sign before those of a
/// negative one.
pub open spec fn pid_text(pid: i32) -> Seq<char> {
    if pid < 0 {
        "-"@ + decimal_digits((-pid) as nat)
    } else {
        decimal_digits(pid as nat)
    }
}

/// What is shown when the traced process is killed.
pub open spec fn kill_notice(pid: i32) -> Seq<char> {
    "Killing running inferior (pid "@ + pid_text(pid) + ")"@
}

/// Ends the traced process, if there is one: the process is marked as not
/// started and every breakpoint as not installed, and the result holds the
/// request to kill and reap the process and the notice to show. Without a
/// live process nothing changes.
pub fn kill_child(process: &mut TargetProcess, breakpoints: &mut BreakpointManager) -> (killed:
    Option<(ControlAction, String)>)
    ensures
        is_live(old(process).state) ==> {
            &&& killed matches Some((action, notice))
            &&& action == ControlAction::Kill(old(process).pid)
            &&& notice@ == kill_notice(old(process).pid)
            &&& *final(process) == (TargetProcess {
                state: ProcessState::NotStarted,
                registers: None,
                ..*old(process)
            })
            &&& final(breakpoints).records() == old(breakpoints).records().map_values(
                |b: Breakpoint| detached(b),
            )
        },
        !is_live(old(process).state) ==> {
            &&& killed.is_none()
            &&& *final(process) == *old(process)
            &&& final(breakpoints).records() == old(breakpoints).records()
        },
{
    let pid = process.pid;
    match process.terminate() {
        Some(action) => {
            breakpoints.detach_all();
            let mut notice = String::from_str("Killing running inferior (pid ");
            if pid < 0 {
                notice.append("-");
                push_decimal_digits(&mut notice, (-(pid as i64)) as u64);
            } else {
                push_decimal_digits(&mut notice, pid as u64);
            }
            notice.append(")");
            assert(notice@ =~= kill_notice(pid));
            Some((action, notice))
        },
        None => None,
    }
}

/// Installs the breakpoint recorded at `address` in the live process.
/// `read` is the byte that was read at `address`, or `None` where it could
/// not be read: then nothing changes and the request fails with
/// `MemoryAccessError`. The result is the write that puts the trap in its
/// place, where one is due.
pub fn install_breakpoint(breakpoints: &mut BreakpointManager, address: u64, read: Option<u8>) -> (
    write: Result<Option<MemoryWrite>, ControlError>)
    ensures
        match read {
            Some(byte) => {
                &&& write == Ok::<Option<MemoryWrite>, ControlError>(
                    write_of_install(old(breakpoints).records(), address),
                )
                &&& final(breakpoints).records() == records_after_install(
                    old(breakpoints).records(),
                    address,
                    byte,
                )
            },
            None => {
                &&& write == Err::<Option<MemoryWrite>, ControlError>(
                    ControlError::MemoryAccessError,
                )
                &&& final(breakpoints).records() == old(breakpoints).records()
            },
        },
{
    match read {
        Some(byte) => Ok(breakpoints.install(address, byte)),
        None => Err(ControlError::MemoryAccessError),
    }
}

/// Takes in that the instruction pointer could not be set back to the
/// breakpoint at `address` after a hit: the process cannot be carried over
/// the breakpoint. The breakpoint is installed again, as the trap still
/// stands in its place, and the error to hand to the caller is
/// `NoActiveProcess`.
pub fn rewind_failed(breakpoints: &mut BreakpointManager, address: u64) -> (error: ControlError)
    ensures
        error == ControlError::NoActiveProcess,
        final(breakpoints).records() == records_after_reinstall(
            old(breakpoints).records(),
            address,
        ),
{
    breakpoints.reinstall(address);
    ControlError::NoActiveProcess
}

/// The records after a write at `addr` failed, which the breakpoint manager
/// had asked for: the record at `addr` is made to say what the memory holds.
/// An installed breakpoint is lifted: the write was to put the trap in, and
/// the trap does not stand there. A lifted breakpoint is installed again: the
/// write was to put the displaced byte back, and the trap stands there still.
pub open spec fn records_after_failure(records: Seq<Breakpoint>, addr: u64) -> Seq<Breakpoint> {
    if installed_at(records, addr) {
        records_after_lift(records, addr)
    } else {
        records_after_reinstall(records, addr)
    }
}

/// Takes in that the write `write`, which the breakpoint manager had asked
/// for, failed: the record at its address is made to say what the memory
/// holds, and the error to hand to the caller is `MemoryAccessError`.
pub fn write_failed(breakpoints: &mut BreakpointManager, write: MemoryWrite) -> (error:
    ControlError)
    ensures
        error == ControlError::MemoryAccessError,
        final(breakpoints).records() == records_after_failure(
            old(breakpoints).records(),
            write.addr,
        ),
{
    if !breakpoints.lift(write.addr) {
        breakpoints.reinstall(write.addr);
    }
    ControlError::MemoryAccessError
}

/// The register dump of the stopped process: `NoActiveProcess` where no
/// process is stopped or its registers could not be read.
pub fn registers(process: &TargetProcess) -> (dump: Result<Vec<String>, ControlError>)
    ensures
        match dump {
            Ok(lines) => {
                &&& process.state is Stopped
                &&& process.registers matches Some(known)
                &&& texts(lines@) == register_dump(known)
            },
            Err(e) => e == ControlError::NoActiveProcess && !(process.state is Stopped
                && process.registers.is_some()),
        },
{
    match (process.state, process.registers) {
        (ProcessState::Stopped { .. }, Some(known)) => Ok(print_registers(&known)),
        _ => Err(ControlError::NoActiveProcess),
    }
}

/// The records once the process is in `state`: as they are while it is live,
/// and each of them detached once it is gone.
pub open spec fn records_in(records: Seq<Breakpoint>, state: ProcessState) -> Seq<Breakpoint> {
    if is_live(state) {
        records
    } else {
        records.map_values(|b: Breakpoint| detached(b))
    }
}

/// Takes in what waiting for the running process returned, as
/// `TargetProcess::stopped` does, and detaches the breakpoints where the
/// process is gone: they wait for the next process. On a process that is not
/// running nothing changes and the request fails with `NoActiveProcess`.
pub fn take_stop(
    process: &mut TargetProcess,
    breakpoints: &mut BreakpointManager,
    outcome: WaitOutcome,
    registers: Option<RegisterSet>,
) -> (event: Result<StopEvent, ControlError>)
    ensures
        old(process).state is Running && outcome is Failed ==> {
            &&& event == Err::<StopEvent, ControlError>(ControlError::NoActiveProcess)
            &&& *final(process) == (TargetProcess {
                state: ProcessState::NotStarted,
                registers: None,
                ..*old(process)
            })
        },
        old(process).state is Running && !(outcome is Failed) ==> {
            &&& event == Ok::<StopEvent, ControlError>(
                event_of(outcome, instruction_pointer(registers), old(breakpoints)),
            )
            &&& *final(process) == (TargetProcess {
                state: state_after(outcome, instruction_pointer(registers), old(breakpoints)),
                registers: (if outcome is Stopped {
                    registers
                } else {
                    None
                }),
                ..*old(process)
            })
        },
        old(process).state is Running ==> final(breakpoints).records() == records_in(
            old(breakpoints).records(),
            final(process).state,
        ),
        !(old(process).state is Running) ==> {
            &&& event == Err::<StopEvent, ControlError>(ControlError::NoActiveProcess)
            &&& *final(process) == *old(process)
            &&& final(breakpoints).records() == old(breakpoints).records()
        },
{
    let running = match process.state {
        ProcessState::Running => true,
        _ => false,
    };
    let event = process.stopped(outcome, registers, breakpoints);
    if running && !process.is_live() {
        breakpoints.detach_all();
    }
    event
}

/// Takes in that the kernel refused the request that was just made of the
/// running process, as `TargetProcess::refused` does, and detaches the
/// breakpoints: the process cannot be driven any more. The error to hand to
/// the caller is `NoActiveProcess`. On a process that is not running nothing
/// changes.
pub fn request_refused(process: &mut TargetProcess, breakpoints: &mut BreakpointManager) -> (error:
    ControlError)
    ensures
        error == ControlError::NoActiveProcess,
        old(process).state is Running ==> {
            &&& *final(process) == (TargetProcess {
                state: ProcessState::NotStarted,
                registers: None,
                ..*old(process)
            })
            &&& final(breakpoints).records() == old(breakpoints).records().map_values(
                |b: Breakpoint| detached(b),
            )
        },
        !(old(process).state is Running) ==> {
            &&& *final(process) == *old(process)
            &&& final(breakpoints).records() == old(breakpoints).records()
        },
{
    let running = match process.state {
        ProcessState::Running => true,
        _ => false,
    };
    let error = process.refused();
    if running {
        breakpoints.detach_all();
    }
    error
}

} // verus!
