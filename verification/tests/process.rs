use deet::breakpoint::{Breakpoint, BreakpointManager, HitAction, MemoryWrite, Placement};
use deet::debugger::{
    backtrace, handle_breakpoint, install_breakpoint, kill_child, registers as register_dump,
    request_refused, resolve, rewind_failed, set_breakpoint, take_stop, write_failed,
};
use deet::location::Location;
use deet::dwarf_data::{DwarfData, FunctionRecord};
use deet::process::{
    classify, wait_for_signal, ControlAction, ControlError, ProcessState, StopEvent,
    TargetProcess, WaitOutcome,
};
use deet::registers::RegisterSet;
use deet::signal::Signal;
use deet::unwind::{FrameState, MemoryImage, UnwindEnd};

fn registers(rip: u64, rsp: u64, rbp: u64) -> RegisterSet {
    RegisterSet { rax: 0, rbx: 0, rcx: 0, rdx: 0, rsi: 0, rdi: 0, rbp, rsp, rip, eflags: 0x246 }
}

#[test]
fn only_a_stop_has_a_signal_number() {
    assert_eq!(wait_for_signal(WaitOutcome::Stopped(5)), Some(5));
    assert_eq!(wait_for_signal(WaitOutcome::Stopped(11)), Some(11));
    assert_eq!(wait_for_signal(WaitOutcome::Exited(0)), None);
    assert_eq!(wait_for_signal(WaitOutcome::Killed(9)), None);
    assert_eq!(wait_for_signal(WaitOutcome::Other), None);
    assert_eq!(wait_for_signal(WaitOutcome::Failed), None);
}

#[test]
fn a_trap_behind_an_installed_breakpoint_is_a_hit() {
    let mut breakpoints = BreakpointManager::new();
    breakpoints.set(0x401000, Some(0x55));
    breakpoints.set(0x402000, None);
    let hit = classify(WaitOutcome::Stopped(5), Some(0x401001), &breakpoints);
    assert_eq!(hit, StopEvent::Breakpoint(0x401000));
    // A trap elsewhere, at a breakpoint that is not installed, or without
    // registers is the trap signal.
    let trap = StopEvent::Signaled(Signal::SIGTRAP);
    assert_eq!(classify(WaitOutcome::Stopped(5), Some(0x401000), &breakpoints), trap);
    assert_eq!(classify(WaitOutcome::Stopped(5), Some(0x402001), &breakpoints), trap);
    assert_eq!(classify(WaitOutcome::Stopped(5), Some(0), &breakpoints), trap);
    assert_eq!(classify(WaitOutcome::Stopped(5), None, &breakpoints), trap);
}

#[test]
fn every_other_report_is_classified_by_its_kind() {
    let mut breakpoints = BreakpointManager::new();
    breakpoints.set(0x401000, Some(0x55));
    assert_eq!(
        classify(WaitOutcome::Stopped(11), Some(0x401001), &breakpoints),
        StopEvent::Signaled(Signal::SIGSEGV)
    );
    assert_eq!(
        classify(WaitOutcome::Stopped(99), None, &breakpoints),
        StopEvent::Signaled(Signal::SIGTERM)
    );
    assert_eq!(classify(WaitOutcome::Exited(3), None, &breakpoints), StopEvent::Exited(3));
    assert_eq!(
        classify(WaitOutcome::Killed(9), None, &breakpoints),
        StopEvent::Signaled(Signal::SIGKILL)
    );
    assert_eq!(classify(WaitOutcome::Other, None, &breakpoints), StopEvent::Unknown);
    assert_eq!(classify(WaitOutcome::Failed, None, &breakpoints), StopEvent::Unknown);
}

#[test]
fn the_process_goes_through_its_states() {
    let breakpoints = BreakpointManager::new();
    let mut process = TargetProcess::new();
    assert_eq!(process.state, ProcessState::NotStarted);
    assert!(!process.is_live());
    assert_eq!(process.resume(), Err(ControlError::NoActiveProcess));
    assert_eq!(process.single_step(), Err(ControlError::NoActiveProcess));
    assert_eq!(process.stopped_pid(), Err(ControlError::NoActiveProcess));
    assert_eq!(process.terminate(), None);

    let mut process = TargetProcess::spawned(4242);
    assert!(process.is_live());
    assert_eq!(process.stopped_pid(), Ok(4242));
    assert_eq!(process.resume(), Ok(ControlAction::Continue(4242)));
    assert_eq!(process.state, ProcessState::Running);
    assert_eq!(process.resume(), Err(ControlError::NoActiveProcess));
    assert_eq!(process.stopped_pid(), Err(ControlError::NoActiveProcess));

    let regs = registers(0x401234, 0x7ffc_0000, 0x7ffc_0040);
    let event = process.stopped(WaitOutcome::Stopped(2), Some(regs), &breakpoints);
    assert_eq!(event, Ok(StopEvent::Signaled(Signal::SIGINT)));
    assert_eq!(
        process.state,
        ProcessState::Stopped { reason: StopEvent::Signaled(Signal::SIGINT) }
    );
    assert_eq!(process.registers, Some(regs));
    assert_eq!(
        process.stopped(WaitOutcome::Exited(0), None, &breakpoints),
        Err(ControlError::NoActiveProcess)
    );

    assert_eq!(process.single_step(), Ok(ControlAction::Step(4242)));
    assert_eq!(process.registers, None);
    assert_eq!(
        process.stopped(WaitOutcome::Exited(7), None, &breakpoints),
        Ok(StopEvent::Exited(7))
    );
    assert_eq!(process.state, ProcessState::Exited { code: 7 });
    assert!(!process.is_live());
    assert_eq!(process.resume(), Err(ControlError::NoActiveProcess));
    assert_eq!(process.terminate(), None);
}

#[test]
fn a_kill_by_signal_ends_the_process() {
    let breakpoints = BreakpointManager::new();
    let mut process = TargetProcess::spawned(7);
    process.resume().unwrap();
    assert_eq!(
        process.stopped(WaitOutcome::Killed(11), None, &breakpoints),
        Ok(StopEvent::Signaled(Signal::SIGSEGV))
    );
    assert_eq!(process.state, ProcessState::Signaled { signal: Signal::SIGSEGV });
    assert_eq!(process.single_step(), Err(ControlError::NoActiveProcess));
}

#[test]
fn terminating_is_idempotent() {
    let mut process = TargetProcess::spawned(31);
    assert_eq!(process.terminate(), Some(ControlAction::Kill(31)));
    assert_eq!(process.state, ProcessState::NotStarted);
    assert_eq!(process.terminate(), None);
    let mut running = TargetProcess::spawned(32);
    running.resume().unwrap();
    assert_eq!(running.terminate(), Some(ControlAction::Kill(32)));
    assert_eq!(running.terminate(), None);
}

#[test]
fn a_backtrace_without_a_live_process_is_refused() {
    let symbols = DwarfData::new();
    let memory = MemoryImage { base: 0, bytes: Vec::new() };
    let none = TargetProcess::new();
    assert_eq!(
        backtrace(&none, &memory, &symbols, 16).map(|t| t.frames.len()),
        Err(ControlError::NoActiveProcess)
    );
    let mut running = TargetProcess::spawned(5);
    running.resume().unwrap();
    assert!(backtrace(&running, &memory, &symbols, 16).is_err());
    let breakpoints = BreakpointManager::new();
    running.stopped(WaitOutcome::Exited(0), None, &breakpoints).unwrap();
    assert!(backtrace(&running, &memory, &symbols, 16).is_err());
    // Stopped, but the registers could not be read.
    let unread = TargetProcess::spawned(6);
    assert!(backtrace(&unread, &memory, &symbols, 16).is_err());
}

#[test]
fn a_breakpoint_by_name_is_hit_and_stepped_over() {
    let mut symbols = DwarfData::new();
    symbols.add_function(FunctionRecord { name: "compute".to_string(), start: 0x401000, end: 0x401040 });
    symbols.add_function(FunctionRecord { name: "main".to_string(), start: 0x401040, end: 0x401100 });
    // The memory of the process, from 0x401000 on.
    let mut text = vec![0x55u8, 0x48, 0x89, 0xe5, 0x90, 0x90, 0xc3, 0x90];
    let pristine = text.clone();

    let mut breakpoints = BreakpointManager::new();
    let mut process = TargetProcess::spawned(100);
    let address = resolve(&Location::Function("compute".to_string()), &symbols);
    assert_eq!(address, Some(0x401000));
    assert_eq!(resolve(&Location::Function("absent".to_string()), &symbols), None);
    assert_eq!(resolve(&Location::Address(0x1234), &symbols), Some(0x1234));
    let write = breakpoints.set(0x401000, Some(text[0])).write.unwrap();
    text[(write.addr - 0x401000) as usize] = write.byte;
    assert_eq!(text[0], 0xcc);

    assert_eq!(process.resume(), Ok(ControlAction::Continue(100)));
    // The trap is reported with the instruction pointer behind it.
    let stack = 0x7ffc_0000u64;
    let at_trap = registers(0x401001, stack, stack + 0x10);
    let event = process.stopped(WaitOutcome::Stopped(5), Some(at_trap), &breakpoints).unwrap();
    assert_eq!(event, StopEvent::Breakpoint(0x401000));
    assert_eq!(process.state, ProcessState::Stopped { reason: StopEvent::Breakpoint(0x401000) });

    let plan = handle_breakpoint(event, &mut breakpoints).unwrap();
    assert_eq!(plan.len(), 4);
    let mut registers_now = at_trap;
    for action in plan {
        match action {
            HitAction::SetInstructionPointer(ip) => {
                registers_now = registers_now.with_instruction_pointer(ip)
            }
            HitAction::Write(MemoryWrite { addr, byte }) => text[(addr - 0x401000) as usize] = byte,
            HitAction::SingleStep => {
                assert_eq!(text, pristine);
                assert_eq!(registers_now.rip, 0x401000);
                // The step over the one-byte instruction stops behind it: that
                // is no second hit, the breakpoint is lifted.
                assert_eq!(process.single_step(), Ok(ControlAction::Step(100)));
                let stepped = registers(0x401001, stack - 8, stack + 0x10);
                let outcome = WaitOutcome::Stopped(5);
                assert_eq!(
                    process.stopped(outcome, Some(stepped), &breakpoints),
                    Ok(StopEvent::Signaled(Signal::SIGTRAP))
                );
            }
            HitAction::Reinstall(addr) => {
                let write = breakpoints.reinstall(addr).unwrap();
                text[(write.addr - 0x401000) as usize] = write.byte;
            }
        }
    }
    assert_eq!(text[0], 0xcc);
    assert_eq!(&text[1..], &pristine[1..]);
    assert!(breakpoints.is_installed(0x401000));
    assert_eq!(handle_breakpoint(StopEvent::Signaled(Signal::SIGTRAP), &mut breakpoints), None);
    assert_eq!(handle_breakpoint(StopEvent::Breakpoint(0x401040), &mut breakpoints), None);
    let at_trap = registers(0x401002, stack, stack + 0x10);
    process.registers = Some(at_trap);

    // The backtrace of the stopped process: compute, called from main.
    let mut bytes = vec![0u8; 0x40];
    bytes[0x10..0x18].copy_from_slice(&(stack + 0x20).to_le_bytes());
    bytes[0x18..0x20].copy_from_slice(&0x401050u64.to_le_bytes());
    let memory = MemoryImage { base: stack, bytes };
    let trace = backtrace(&process, &memory, &symbols, 16).unwrap();
    assert_eq!(trace.frames.len(), 2);
    assert_eq!(trace.frames[0].address, 0x401002);
    assert_eq!(trace.frames[0].function, Some("compute".to_string()));
    assert_eq!(trace.frames[1].address, 0x401050);
    assert_eq!(trace.frames[1].function, Some("main".to_string()));
    assert_eq!(trace.end, UnwindEnd::Complete);
    assert_eq!(at_trap.frame_state(), FrameState { ip: 0x401002, sp: stack, fp: stack + 0x10 });
}

#[test]
fn killing_the_child_lifts_the_breakpoints() {
    let mut breakpoints = BreakpointManager::new();
    breakpoints.set(0x401000, Some(0x55));
    let mut process = TargetProcess::spawned(4321);
    let (action, notice) = kill_child(&mut process, &mut breakpoints).unwrap();
    assert_eq!(action, ControlAction::Kill(4321));
    assert_eq!(notice, "Killing running inferior (pid 4321)");
    assert_eq!(process.state, ProcessState::NotStarted);
    assert!(!breakpoints.is_installed(0x401000));
    assert_eq!(breakpoints.pending(), vec![0x401000]);
    assert_eq!(kill_child(&mut process, &mut breakpoints), None);
    let mut odd = TargetProcess::spawned(-12);
    assert_eq!(
        kill_child(&mut odd, &mut breakpoints).unwrap().1,
        "Killing running inferior (pid -12)"
    );
    let mut zero = TargetProcess::spawned(0);
    assert_eq!(
        kill_child(&mut zero, &mut breakpoints).unwrap().1,
        "Killing running inferior (pid 0)"
    );
}

#[test]
fn a_program_that_cannot_be_started_gives_spawn_failure() {
    assert_eq!(TargetProcess::spawn(None), Err(ControlError::SpawnFailure));
    assert_eq!(TargetProcess::spawn(Some(77)), Ok(TargetProcess::spawned(77)));
    assert_eq!(
        TargetProcess::spawned(77).state,
        ProcessState::Stopped { reason: StopEvent::Signaled(Signal::SIGTRAP) }
    );
}

#[test]
fn a_breakpoint_where_memory_cannot_be_read_gives_memory_access_error() {
    let mut breakpoints = BreakpointManager::new();
    let stopped = TargetProcess::spawned(9);
    assert_eq!(
        set_breakpoint(&stopped, &mut breakpoints, 0xdead_0000, None),
        Err(ControlError::MemoryAccessError)
    );
    assert_eq!(breakpoints.len(), 0);
    let placed = set_breakpoint(&stopped, &mut breakpoints, 0x401000, Some(0x55)).unwrap();
    assert_eq!(placed.write, Some(MemoryWrite { addr: 0x401000, byte: 0xcc }));
    assert_eq!(placed.record, Breakpoint { addr: 0x401000, original: Some(0x55), installed: true });
    // Without a process the breakpoint waits, whatever was read.
    let none = TargetProcess::new();
    let waiting = Breakpoint { addr: 0x402000, original: None, installed: false };
    assert_eq!(
        set_breakpoint(&none, &mut breakpoints, 0x402000, Some(0x90)),
        Ok(Placement { record: waiting, write: None })
    );
    let mut running = TargetProcess::spawned(9);
    running.resume().unwrap();
    assert_eq!(
        set_breakpoint(&running, &mut breakpoints, 0x403000, None).map(|p| p.write),
        Ok(None)
    );
    assert_eq!(breakpoints.pending(), vec![0x402000, 0x403000]);
}

#[test]
fn a_refused_request_ends_the_process_with_an_error() {
    let mut process = TargetProcess::spawned(55);
    assert_eq!(process.single_step(), Ok(ControlAction::Step(55)));
    assert_eq!(process.state, ProcessState::Running);
    // The kernel refused the step.
    assert_eq!(process.refused(), ControlError::NoActiveProcess);
    assert_eq!(process.state, ProcessState::NotStarted);
    assert_eq!(process.registers, None);
    assert_eq!(process.pid, 55);
    assert_eq!(process.single_step(), Err(ControlError::NoActiveProcess));
    assert_eq!(process.resume(), Err(ControlError::NoActiveProcess));
    // Without a request under way nothing changes.
    let stopped = TargetProcess::spawned(56);
    let mut same = stopped;
    assert_eq!(same.refused(), ControlError::NoActiveProcess);
    assert_eq!(same, stopped);
    let mut resumed = TargetProcess::spawned(57);
    resumed.resume().unwrap();
    assert_eq!(resumed.refused(), ControlError::NoActiveProcess);
    assert_eq!(resumed.state, ProcessState::NotStarted);
}

#[test]
fn a_wait_that_failed_is_an_error() {
    let breakpoints = BreakpointManager::new();
    let mut process = TargetProcess::spawned(58);
    process.resume().unwrap();
    let regs = registers(0x401000, 0x7ffc_0000, 0x7ffc_0040);
    assert_eq!(
        process.stopped(WaitOutcome::Failed, Some(regs), &breakpoints),
        Err(ControlError::NoActiveProcess)
    );
    assert_eq!(process.state, ProcessState::NotStarted);
    assert_eq!(process.registers, None);
    let mut other = TargetProcess::spawned(59);
    other.resume().unwrap();
    assert_eq!(other.stopped(WaitOutcome::Other, None, &breakpoints), Ok(StopEvent::Unknown));
    assert_eq!(other.state, ProcessState::Running);
}

#[test]
fn the_breakpoints_are_detached_when_the_process_is_gone() {
    let fresh = || {
        let mut breakpoints = BreakpointManager::new();
        breakpoints.set(0x401000, Some(0x55));
        let mut process = TargetProcess::spawned(60);
        process.resume().unwrap();
        (process, breakpoints)
    };
    let waiting = Breakpoint { addr: 0x401000, original: None, installed: false };
    let installed = Breakpoint { addr: 0x401000, original: Some(0x55), installed: true };

    let (mut process, mut breakpoints) = fresh();
    let regs = registers(0x401001, 0x7ffc_0000, 0x7ffc_0040);
    let event = take_stop(&mut process, &mut breakpoints, WaitOutcome::Stopped(5), Some(regs));
    assert_eq!(event, Ok(StopEvent::Breakpoint(0x401000)));
    assert_eq!(process.state, ProcessState::Stopped { reason: StopEvent::Breakpoint(0x401000) });
    assert_eq!(process.registers, Some(regs));
    assert_eq!(breakpoints.get(0x401000), Some(installed));
    // A stop that is taken in twice is refused, and nothing changes.
    let again = take_stop(&mut process, &mut breakpoints, WaitOutcome::Exited(0), None);
    assert_eq!(again, Err(ControlError::NoActiveProcess));
    assert_eq!(breakpoints.get(0x401000), Some(installed));

    let (mut process, mut breakpoints) = fresh();
    let event = take_stop(&mut process, &mut breakpoints, WaitOutcome::Exited(3), None);
    assert_eq!(event, Ok(StopEvent::Exited(3)));
    assert_eq!(process.state, ProcessState::Exited { code: 3 });
    assert_eq!(breakpoints.get(0x401000), Some(waiting));

    let (mut process, mut breakpoints) = fresh();
    let event = take_stop(&mut process, &mut breakpoints, WaitOutcome::Killed(9), None);
    assert_eq!(event, Ok(StopEvent::Signaled(Signal::SIGKILL)));
    assert_eq!(breakpoints.get(0x401000), Some(waiting));

    let (mut process, mut breakpoints) = fresh();
    let event = take_stop(&mut process, &mut breakpoints, WaitOutcome::Failed, None);
    assert_eq!(event, Err(ControlError::NoActiveProcess));
    assert_eq!(process.state, ProcessState::NotStarted);
    assert_eq!(breakpoints.get(0x401000), Some(waiting));

    let (mut process, mut breakpoints) = fresh();
    let event = take_stop(&mut process, &mut breakpoints, WaitOutcome::Other, None);
    assert_eq!(event, Ok(StopEvent::Unknown));
    assert_eq!(breakpoints.get(0x401000), Some(installed));

    let (mut process, mut breakpoints) = fresh();
    assert_eq!(request_refused(&mut process, &mut breakpoints), ControlError::NoActiveProcess);
    assert_eq!(process.state, ProcessState::NotStarted);
    assert_eq!(breakpoints.get(0x401000), Some(waiting));
    assert_eq!(request_refused(&mut process, &mut breakpoints), ControlError::NoActiveProcess);
    let mut stopped = TargetProcess::spawned(61);
    breakpoints.install(0x401000, 0x55);
    assert_eq!(request_refused(&mut stopped, &mut breakpoints), ControlError::NoActiveProcess);
    assert_eq!(stopped, TargetProcess::spawned(61));
    assert_eq!(breakpoints.get(0x401000), Some(installed));
}

#[test]
fn a_failed_write_of_the_trap_takes_the_installing_back() {
    let mut breakpoints = BreakpointManager::new();
    let process = TargetProcess::spawned(62);
    let placed = set_breakpoint(&process, &mut breakpoints, 0x401000, Some(0x55)).unwrap();
    assert!(placed.write.is_some());
    assert!(breakpoints.is_installed(0x401000));
    // The write could not be made.
    let trap = placed.write.unwrap();
    assert_eq!(write_failed(&mut breakpoints, trap), ControlError::MemoryAccessError);
    assert!(!breakpoints.is_installed(0x401000));
    assert_eq!(
        breakpoints.get(0x401000),
        Some(Breakpoint { addr: 0x401000, original: Some(0x55), installed: false })
    );
    // A trap behind it is no hit of a breakpoint now.
    assert_eq!(
        classify(WaitOutcome::Stopped(5), Some(0x401001), &breakpoints),
        StopEvent::Signaled(Signal::SIGTRAP)
    );
    assert_eq!(breakpoints.pending(), vec![0x401000]);
    let elsewhere = MemoryWrite { addr: 0x999, byte: 0xcc };
    assert_eq!(write_failed(&mut breakpoints, elsewhere), ControlError::MemoryAccessError);
    assert_eq!(breakpoints.len(), 1);
    assert!(!breakpoints.is_installed(0x401000));
    // The trap is written anew, and that fails too.
    let again = breakpoints.reinstall(0x401000).unwrap();
    assert_eq!(again, trap);
    assert_eq!(write_failed(&mut breakpoints, again), ControlError::MemoryAccessError);
    assert!(!breakpoints.is_installed(0x401000));
    assert!(breakpoints.reinstall(0x401000).is_some());
    assert!(breakpoints.lift(0x401000));
    assert!(!breakpoints.lift(0x401000));
    assert!(!breakpoints.lift(0x5000));
}

#[test]
fn a_failed_write_is_told_apart_by_the_record_even_where_the_byte_is_a_trap() {
    // The byte that the breakpoint displaces is the trap instruction itself.
    let mut breakpoints = BreakpointManager::new();
    breakpoints.set(0x401000, Some(0xcc));
    let installed = breakpoints.get(0x401000);
    let plan = handle_breakpoint(StopEvent::Breakpoint(0x401000), &mut breakpoints).unwrap();
    let restore = match plan[1] {
        HitAction::Write(write) => write,
        other => panic!("{:?}", other),
    };
    assert_eq!(restore, MemoryWrite { addr: 0x401000, byte: 0xcc });
    // Putting the displaced byte back failed: the breakpoint is installed
    // still.
    assert_eq!(write_failed(&mut breakpoints, restore), ControlError::MemoryAccessError);
    assert_eq!(breakpoints.get(0x401000), installed);
    // Putting the trap in failed: the breakpoint is lifted.
    let mut fresh = BreakpointManager::new();
    let trap = fresh.set(0x401000, Some(0xcc)).write.unwrap();
    assert_eq!(trap, restore);
    assert_eq!(write_failed(&mut fresh, trap), ControlError::MemoryAccessError);
    assert_eq!(
        fresh.get(0x401000),
        Some(Breakpoint { addr: 0x401000, original: Some(0xcc), installed: false })
    );
}

#[test]
fn a_failed_write_of_the_displaced_byte_leaves_the_breakpoint_installed() {
    let mut breakpoints = BreakpointManager::new();
    breakpoints.set(0x401000, Some(0x55));
    let installed = breakpoints.get(0x401000);
    let plan = handle_breakpoint(StopEvent::Breakpoint(0x401000), &mut breakpoints).unwrap();
    assert!(!breakpoints.is_installed(0x401000));
    let restore = match plan[1] {
        HitAction::Write(write) => write,
        other => panic!("{:?}", other),
    };
    assert_eq!(restore, MemoryWrite { addr: 0x401000, byte: 0x55 });
    // The byte could not be put back: the trap still stands there.
    assert_eq!(write_failed(&mut breakpoints, restore), ControlError::MemoryAccessError);
    assert!(breakpoints.is_installed(0x401000));
    assert_eq!(breakpoints.get(0x401000), installed);
    // After a removal nothing is left to put right.
    let removed = breakpoints.remove(0x401000);
    assert_eq!(removed, deet::breakpoint::Removal::Removed(Some(restore)));
    assert_eq!(write_failed(&mut breakpoints, restore), ControlError::MemoryAccessError);
    assert_eq!(breakpoints.len(), 0);
}

#[test]
fn the_registers_of_a_process_that_is_not_stopped_are_refused() {
    assert_eq!(register_dump(&TargetProcess::new()), Err(ControlError::NoActiveProcess));
    // Stopped, but the registers could not be read.
    assert_eq!(register_dump(&TargetProcess::spawned(63)), Err(ControlError::NoActiveProcess));
    let breakpoints = BreakpointManager::new();
    let mut process = TargetProcess::spawned(63);
    process.resume().unwrap();
    assert_eq!(register_dump(&process), Err(ControlError::NoActiveProcess));
    let regs = registers(0x401234, 0x7ffc_0000, 0x7ffc_0040);
    process.stopped(WaitOutcome::Stopped(19), Some(regs), &breakpoints).unwrap();
    let lines = register_dump(&process).unwrap();
    assert_eq!(lines.len(), 11);
    assert_eq!(lines[0], "Registers:");
    assert_eq!(lines[7], "  rbp: 0x7ffc0040");
    assert_eq!(lines[9], "  rip: 0x401234");
    assert_eq!(lines[10], "  eflags: 0x246");
    process.resume().unwrap();
    process.stopped(WaitOutcome::Exited(0), None, &breakpoints).unwrap();
    assert_eq!(register_dump(&process), Err(ControlError::NoActiveProcess));
}

#[test]
fn a_waiting_breakpoint_is_installed_with_the_byte_that_was_read() {
    let mut breakpoints = BreakpointManager::new();
    breakpoints.set(0x401000, None);
    assert_eq!(
        install_breakpoint(&mut breakpoints, 0x401000, None),
        Err(ControlError::MemoryAccessError)
    );
    assert_eq!(breakpoints.pending(), vec![0x401000]);
    assert_eq!(
        install_breakpoint(&mut breakpoints, 0x401000, Some(0x55)),
        Ok(Some(MemoryWrite { addr: 0x401000, byte: 0xcc }))
    );
    assert_eq!(
        breakpoints.get(0x401000),
        Some(Breakpoint { addr: 0x401000, original: Some(0x55), installed: true })
    );
    assert_eq!(install_breakpoint(&mut breakpoints, 0x401000, Some(0xcc)), Ok(None));
    assert_eq!(install_breakpoint(&mut breakpoints, 0x5000, Some(0x55)), Ok(None));
    assert_eq!(breakpoints.len(), 1);
}

#[test]
fn a_hit_that_cannot_be_rewound_leaves_the_breakpoint_installed() {
    let mut breakpoints = BreakpointManager::new();
    breakpoints.set(0x401000, Some(0x55));
    let installed = breakpoints.get(0x401000);
    handle_breakpoint(StopEvent::Breakpoint(0x401000), &mut breakpoints).unwrap();
    assert!(!breakpoints.is_installed(0x401000));
    assert_eq!(rewind_failed(&mut breakpoints, 0x401000), ControlError::NoActiveProcess);
    assert_eq!(breakpoints.get(0x401000), installed);
    assert_eq!(rewind_failed(&mut breakpoints, 0x401000), ControlError::NoActiveProcess);
    assert_eq!(rewind_failed(&mut breakpoints, 0x5000), ControlError::NoActiveProcess);
    assert_eq!(breakpoints.get(0x401000), installed);
    assert_eq!(breakpoints.len(), 1);
}
