//! The register snapshot of the traced process at a stop.

use crate::unwind::FrameState;
use vstd::prelude::*;

verus! {

/// The registers that the debugger shows and works with.
#[derive(Clone, Copy, Debug, PartialEq, Eq)]
pub struct RegisterSet {
    pub rax: u64,
    pub rbx: u64,
    pub rcx: u64,
    pub rdx: u64,
    pub rsi: u64,
    pub rdi: u64,
    pub rbp: u64,
    pub rsp: u64,
    pub rip: u64,
    pub eflags: u64,
}

impl RegisterSet {
    /// The registers from which unwinding starts.
    pub open spec fn frame(&self) -> FrameState {
        FrameState { ip: self.rip, sp: self.rsp, fp: self.rbp }
    }

    /// The registers from which unwinding starts: the instruction pointer, the
    /// stack pointer and the frame pointer.
    pub fn frame_state(&self) -> (state: FrameState)
        ensures
            state == self.frame(),
    {
        FrameState { ip: self.rip, sp: self.rsp, fp: self.rbp }
    }

    /// The same registers with the instruction pointer at `address`.
    pub fn with_instruction_pointer(&self, address: u64) -> (moved: RegisterSet)
        ensures
            moved == (RegisterSet { rip: address, ..*self }),
    {
        RegisterSet { rip: address, ..*self }
    }
}

} // verus!
