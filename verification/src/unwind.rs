//! The stack unwinder: from the registers at a stop and a copy of the stack's
//! memory to the chain of call frames, innermost first.

use crate::bytes::{holds, le_u64, read_u64};
use crate::dwarf_data::DwarfData;
use crate::frame_info::{offset_address, shifted, BaseRegister, UnwindRule};
use crate::table::covered;
use vstd::prelude::*;

verus! {

/// The distance from a frame pointer to the return address saved above it.
pub const RETURN_ADDRESS_OFFSET: i64 = 8;

/// The distance from a frame pointer to the caller's stack pointer.
pub const CALLER_STACK_OFFSET: i64 = 16;

/// A copy of the bytes of the traced process from address `base` on.
#[derive(Debug)]
pub struct MemoryImage {
    pub base: u64,
    pub bytes: Vec<u8>,
}

impl MemoryImage {
    /// The 64-bit word at `addr`, where the image holds all of it.
    pub open spec fn word_at(&self, addr: u64) -> Option<u64> {
        if self.base <= addr && holds(self.bytes@.len(), addr - self.base, 8) {
            Some(le_u64(self.bytes@, addr - self.base) as u64)
        } else {
            None
        }
    }

    /// The word at `addr`, where there is an address to read.
    pub open spec fn load(&self, addr: Option<u64>) -> Option<u64> {
        match addr {
            Some(a) => self.word_at(a),
            None => None,
        }
    }

    /// The 64-bit word at `addr`: `None` where the image does not hold it.
    pub fn read_word(&self, addr: u64) -> (word: Option<u64>)
        ensures
            word == self.word_at(addr),
    {
        if addr < self.base {
            return None;
        }
        let offset = addr - self.base;
        if offset > self.bytes.len() as u64 {
            return None;
        }
        read_u64(self.bytes.as_slice(), offset as usize)
    }
}

/// The registers that identify a frame: the instruction pointer, the stack
/// pointer and the frame pointer.
#[derive(Clone, Copy, Debug, PartialEq, Eq)]
pub struct FrameState {
    pub ip: u64,
    pub sp: u64,
    pub fp: u64,
}

/// The base address of the frame in `state` under `rule`: `None` where the
/// rule leads out of the address space.
pub open spec fn base_address(rule: UnwindRule, state: FrameState) -> Option<u64> {
    match rule {
        UnwindRule::FramePointer => Some(state.fp),
        UnwindRule::Metadata { base, offset, .. } => match base {
            BaseRegister::StackPointer => shifted(state.sp, offset as int),
            BaseRegister::FramePointer => shifted(state.fp, offset as int),
        },
    }
}

/// The registers of the caller of the frame in `state`, recovered by `rule`
/// from `memory`: `None` where an address that the rule needs does not exist
/// or is not in `memory`.
pub open spec fn caller_of(rule: UnwindRule, state: FrameState, memory: &MemoryImage) -> Option<
    FrameState,
> {
    match rule {
        UnwindRule::FramePointer => {
            match (
                memory.load(shifted(state.fp, RETURN_ADDRESS_OFFSET as int)),
                shifted(state.fp, CALLER_STACK_OFFSET as int),
                memory.word_at(state.fp),
            ) {
                (Some(ip), Some(sp), Some(fp)) => Some(FrameState { ip, sp, fp }),
                _ => None,
            }
        },
        UnwindRule::Metadata { return_address, frame_pointer, .. } => {
            match base_address(rule, state) {
                Some(cfa) => {
                    let saved_fp = match frame_pointer {
                        Some(at) => memory.load(shifted(cfa, at as int)),
                        None => Some(state.fp),
                    };
                    match (memory.load(shifted(cfa, return_address as int)), saved_fp) {
                        (Some(ip), Some(fp)) => Some(FrameState { ip, sp: cfa, fp }),
                        _ => None,
                    }
                },
                None => None,
            }
        },
    }
}

/// The base address of the frame in `state` under `rule`.
pub fn frame_base(rule: UnwindRule, state: FrameState) -> (base: Option<u64>)
    ensures
        base == base_address(rule, state),
{
    match rule {
        UnwindRule::FramePointer => Some(state.fp),
        UnwindRule::Metadata { base, offset, .. } => match base {
            BaseRegister::StackPointer => offset_address(state.sp, offset),
            BaseRegister::FramePointer => offset_address(state.fp, offset),
        },
    }
}

/// The registers of the caller of the frame in `state`, recovered by `rule`
/// from `memory`: `None` where an address that the rule needs does not exist
/// or is not in `memory`.
pub fn recover_caller(rule: UnwindRule, state: FrameState, memory: &MemoryImage) -> (caller: Option<
    FrameState,
>)
    ensures
        caller == caller_of(rule, state, memory),
{
    match rule {
        UnwindRule::FramePointer => {
            let ip = match offset_address(state.fp, RETURN_ADDRESS_OFFSET) {
                Some(at) => memory.read_word(at),
                None => None,
            };
            let sp = offset_address(state.fp, CALLER_STACK_OFFSET);
            let fp = memory.read_word(state.fp);
            match (ip, sp, fp) {
                (Some(ip), Some(sp), Some(fp)) => Some(FrameState { ip, sp, fp }),
                _ => None,
            }
        },
        UnwindRule::Metadata { return_address, frame_pointer, .. } => {
            match frame_base(rule, state) {
                Some(cfa) => {
                    let saved_fp = match frame_pointer {
                        Some(at) => match offset_address(cfa, at) {
                            Some(a) => memory.read_word(a),
                            None => None,
                        },
                        None => Some(state.fp),
                    };
                    let ip = match offset_address(cfa, return_address) {
                        Some(a) => memory.read_word(a),
                        None => None,
                    };
                    match (ip, saved_fp) {
                        (Some(ip), Some(fp)) => Some(FrameState { ip, sp: cfa, fp }),
                        _ => None,
                    }
                },
                None => None,
            }
        },
    }
}

/// One frame of a backtrace.
#[derive(Debug)]
pub struct StackFrame {
    /// The instruction at which the frame stands.
    pub address: u64,
    /// The function that contains `address`, where the symbol table knows it.
    pub function: Option<String>,
    /// The source file of `address`, where the line table knows it.
    pub file: Option<String>,
    /// The source line of `address`, where the line table knows it.
    pub line: Option<u64>,
    /// The base address of the frame, where the unwind rule gives one.
    pub frame_base: Option<u64>,
}

/// Why unwinding stopped.
#[derive(Clone, Copy, Debug, PartialEq, Eq)]
pub enum UnwindEnd {
    /// The stack ended: the return address recovered last is null.
    Complete,
    /// The return address recovered last lies in no function of the symbol
    /// table.
    Boundary,
    /// Unwinding gave up: a word that the rule needs could not be read.
    Unreadable,
    /// Unwinding gave up: the backtrace reached the frame limit.
    LimitReached,
}

/// A backtrace: the frames from the innermost outward, and why there are no
/// more of them.
#[derive(Debug)]
pub struct Backtrace {
    pub frames: Vec<StackFrame>,
    pub end: UnwindEnd,
}

/// The rule by which the frame at `ip` is unwound: what the unwind metadata
/// says where it says anything, the chain of frame pointers where it does not.
pub open spec fn rule_for(symbols: &DwarfData, ip: u64) -> UnwindRule {
    match symbols.rule_at(ip) {
        Some(rule) => rule,
        None => UnwindRule::FramePointer,
    }
}

/// Whether unwinding goes on to a frame at `ip`: it does where `ip` is not
/// null and lies in a function of the symbol table.
pub open spec fn resolved(symbols: &DwarfData, ip: u64) -> bool {
    ip != 0 && covered(symbols.functions(), ip)
}

/// The frames that unwinding reports from the frame in `state` on, at most
/// `limit` of them, and why it stops. The frame in `state` is reported, then
/// its caller is recovered; unwinding goes on with the caller where its
/// instruction pointer is resolved.
pub open spec fn walk(symbols: &DwarfData, memory: &MemoryImage, state: FrameState, limit: nat) -> (
    Seq<FrameState>,
    UnwindEnd,
)
    decreases limit,
{
    if limit == 0 {
        (Seq::empty(), UnwindEnd::LimitReached)
    } else {
        match caller_of(rule_for(symbols, state.ip), state, memory) {
            None => (seq![state], UnwindEnd::Unreadable),
            Some(caller) => {
                if caller.ip == 0 {
                    (seq![state], UnwindEnd::Complete)
                } else if !covered(symbols.functions(), caller.ip) {
                    (seq![state], UnwindEnd::Boundary)
                } else {
                    let rest = walk(symbols, memory, caller, (limit - 1) as nat);
                    (seq![state] + rest.0, rest.1)
                }
            },
        }
    }
}

/// Whether an optional string holds the characters `chars`.
pub open spec fn same_text(text: Option<String>, chars: Option<Seq<char>>) -> bool {
    match (text, chars) {
        (Some(t), Some(c)) => t@ == c,
        (None, None) => true,
        _ => false,
    }
}

/// Whether `frame` is the report of the frame in `state`: its address is the
/// instruction pointer, its function, file and line are what the symbol table
/// gives for that address, and its base is what the unwind rule gives.
pub open spec fn reports(frame: StackFrame, symbols: &DwarfData, state: FrameState) -> bool {
    &&& frame.address == state.ip
    &&& same_text(frame.function, symbols.function_at(state.ip))
    &&& match symbols.line_at(state.ip) {
        Some((file, line)) => same_text(frame.file, Some(file)) && frame.line == Some(line),
        None => frame.file.is_none() && frame.line.is_none(),
    }
    &&& frame.frame_base == base_address(rule_for(symbols, state.ip), state)
}

/// The report of the frame in `state`.
fn describe(symbols: &DwarfData, state: FrameState, rule: UnwindRule) -> (frame: StackFrame)
    requires
        rule == rule_for(symbols, state.ip),
    ensures
        reports(frame, symbols, state),
{
    let (function, file, line) = symbols.get_function_and_line_from_addr(state.ip);
    let function = match function {
        Some(name) => Some(name.to_owned()),
        None => None,
    };
    let file = match file {
        Some(name) => Some(name.to_owned()),
        None => None,
    };
    StackFrame { address: state.ip, function, file, line, frame_base: frame_base(rule, state) }
}

/// The rule by which the frame at `ip` is unwound.
pub fn rule_at(symbols: &DwarfData, ip: u64) -> (rule: UnwindRule)
    ensures
        rule == rule_for(symbols, ip),
{
    match symbols.frame_unwind_info(ip) {
        Some(rule) => rule,
        None => UnwindRule::FramePointer,
    }
}

/// Unwinds the stack from the frame in `start`: reports that frame, recovers
/// its caller from `memory`, and goes on with the caller as long as its
/// instruction pointer lies in a function of `symbols`, for at most
/// `max_frames` frames. A stack that cannot be followed to its end gives the
/// frames that were found.
pub fn unwind(start: FrameState, memory: &MemoryImage, symbols: &DwarfData, max_frames: usize) -> (trace:
    Backtrace)
    ensures
        trace.frames@.len() == walk(symbols, memory, start, max_frames as nat).0.len(),
        forall|i: int|
            0 <= i < trace.frames@.len() ==> reports(
                #[trigger] trace.frames@[i],
                symbols,
                walk(symbols, memory, start, max_frames as nat).0[i],
            ),
        trace.end == walk(symbols, memory, start, max_frames as nat).1,
        trace.frames@.len() <= max_frames,
{
    let mut frames: Vec<StackFrame> = Vec::new();
    let mut end = UnwindEnd::LimitReached;
    let mut current = start;
    let ghost mut done: Seq<FrameState> = Seq::empty();
    let ghost whole = walk(symbols, memory, start, max_frames as nat);
    while frames.len() < max_frames
        invariant_except_break
            end == UnwindEnd::LimitReached,
            whole.0 == done + walk(symbols, memory, current, (max_frames - frames@.len()) as nat).0,
            whole.1 == walk(symbols, memory, current, (max_frames - frames@.len()) as nat).1,
        invariant
            whole == walk(symbols, memory, start, max_frames as nat),
            frames@.len() == done.len(),
            frames@.len() <= max_frames,
            forall|i: int| 0 <= i < frames@.len() ==> reports(#[trigger] frames@[i], symbols, done[i]),
        ensures
            whole.0 == done,
            whole.1 == end,
        decreases max_frames - frames@.len(),
    {
        let rule = rule_at(symbols, current.ip);
        let frame = describe(symbols, current, rule);
        let ghost rest = walk(symbols, memory, current, (max_frames - frames@.len()) as nat);
        let ghost earlier = done;
        frames.push(frame);
        proof {
            done = done.push(current);
        }
        match recover_caller(rule, current, memory) {
            None => {
                end = UnwindEnd::Unreadable;
                assert(rest.0 == seq![current]);
                assert(earlier + seq![current] == done);
                break ;
            },
            Some(caller) => {
                if caller.ip == 0 {
                    end = UnwindEnd::Complete;
                    assert(rest.0 == seq![current]);
                    assert(earlier + seq![current] == done);
                    break ;
                } else if symbols.get_function_from_addr(caller.ip).is_none() {
                    end = UnwindEnd::Boundary;
                    assert(rest.0 == seq![current]);
                    assert(earlier + seq![current] == done);
                    break ;
                } else {
                    proof {
                        let after = walk(
                            symbols,
                            memory,
                            caller,
                            (max_frames - frames@.len()) as nat,
                        );
                        assert(rest.0 == seq![current] + after.0);
                        assert(earlier + (seq![current] + after.0) == done + after.0);
                    }
                    current = caller;
                }
            },
        }
    }
    proof {
        if frames@.len() == max_frames && end == UnwindEnd::LimitReached {
            let last = walk(symbols, memory, current, 0);
            assert(last.0 == Seq::<FrameState>::empty());
        }
    }
    Backtrace { frames, end }
}

/// Whether frame `i + 1` of `chain` is the caller that unwinding recovers
/// from frame `i`, and unwinding goes on to it.
pub open spec fn link_holds(
    symbols: &DwarfData,
    memory: &MemoryImage,
    chain: Seq<FrameState>,
    i: int,
) -> bool {
    &&& caller_of(rule_for(symbols, chain[i].ip), chain[i], memory) == Some(chain[i + 1])
    &&& resolved(symbols, chain[i + 1].ip)
}

/// Whether unwinding stops at the frame in `last`: its caller cannot be
/// recovered, or the caller's instruction pointer is null or lies in no
/// function.
pub open spec fn link_broken(symbols: &DwarfData, memory: &MemoryImage, last: FrameState) -> bool {
    match caller_of(rule_for(symbols, last.ip), last, memory) {
        None => true,
        Some(caller) => !resolved(symbols, caller.ip),
    }
}

/// Where the unwind metadata has no rule for the frame's instruction, the
/// caller is found by the frame pointer: the return address in the word after
/// the one it points to, the caller's frame pointer in the word it points to.
pub proof fn lemma_frame_pointer_link(
    symbols: &DwarfData,
    memory: &MemoryImage,
    frame: FrameState,
    caller: FrameState,
)
    requires
        symbols.rule_at(frame.ip).is_none(),
        frame.fp + CALLER_STACK_OFFSET <= u64::MAX,
        memory.word_at(frame.fp) == Some(caller.fp),
        memory.word_at((frame.fp + RETURN_ADDRESS_OFFSET) as u64) == Some(caller.ip),
        caller.sp == frame.fp + CALLER_STACK_OFFSET,
    ensures
        caller_of(rule_for(symbols, frame.ip), frame, memory) == Some(caller),
{
}

/// Unwinding a chain of frames reports exactly the chain, innermost first.
/// If each frame of `chain` but the last links to the next and the link of the
/// last frame is broken, then unwinding from the first frame reports the
/// frames of `chain` in their order and no others; with a limit below the
/// chain's length it reports the first `limit` of them.
pub proof fn lemma_walk_follows_chain(
    symbols: &DwarfData,
    memory: &MemoryImage,
    chain: Seq<FrameState>,
    limit: nat,
)
    requires
        chain.len() >= 1,
        forall|i: int| 0 <= i < chain.len() - 1 ==> #[trigger] link_holds(symbols, memory, chain, i),
        link_broken(symbols, memory, chain.last()),
    ensures
        limit >= chain.len() ==> walk(symbols, memory, chain[0], limit).0 == chain,
        limit >= chain.len() ==> walk(symbols, memory, chain[0], limit).1
            != UnwindEnd::LimitReached,
        limit < chain.len() ==> walk(symbols, memory, chain[0], limit).0 == chain.take(
            limit as int,
        ),
        limit < chain.len() ==> walk(symbols, memory, chain[0], limit).1
            == UnwindEnd::LimitReached,
    decreases chain.len(),
{
    if limit == 0 {
        assert(chain.take(0) == Seq::<FrameState>::empty());
    } else if chain.len() == 1 {
        assert(chain == seq![chain[0]]);
    } else {
        let rest = chain.skip(1);
        assert(link_holds(symbols, memory, chain, 0));
        assert(rest[0] == chain[1]);
        assert forall|i: int| 0 <= i < rest.len() - 1 implies #[trigger] link_holds(
            symbols,
            memory,
            rest,
            i,
        ) by {
            assert(link_holds(symbols, memory, chain, i + 1));
            assert(rest[i] == chain[i + 1]);
            assert(rest[i + 1] == chain[i + 2]);
        }
        assert(rest.last() == chain.last());
        lemma_walk_follows_chain(symbols, memory, rest, (limit - 1) as nat);
        if limit >= chain.len() {
            assert(seq![chain[0]] + rest == chain);
        } else {
            assert(seq![chain[0]] + rest.take(limit - 1) == chain.take(limit as int));
        }
    }
}

/// Unwinding starts with the frame it is given, and every frame that it
/// reports after that one stands at an instruction of a known function.
pub proof fn lemma_walk_resolved(
    symbols: &DwarfData,
    memory: &MemoryImage,
    state: FrameState,
    limit: nat,
    i: int,
)
    requires
        0 <= i < walk(symbols, memory, state, limit).0.len(),
    ensures
        walk(symbols, memory, state, limit).0.len() <= limit,
        walk(symbols, memory, state, limit).0[0] == state,
        i >= 1 ==> resolved(symbols, walk(symbols, memory, state, limit).0[i].ip),
        i >= 1 ==> symbols.function_at(walk(symbols, memory, state, limit).0[i].ip).is_some(),
    decreases limit,
{
    if limit > 0 {
        match caller_of(rule_for(symbols, state.ip), state, memory) {
            Some(caller) => {
                if caller.ip != 0 && covered(symbols.functions(), caller.ip) {
                    let rest = walk(symbols, memory, caller, (limit - 1) as nat);
                    assert(walk(symbols, memory, state, limit).0 == seq![state] + rest.0);
                    if i >= 1 {
                        lemma_walk_resolved(symbols, memory, caller, (limit - 1) as nat, i - 1);
                        assert((seq![state] + rest.0)[i] == rest.0[i - 1]);
                    } else if rest.0.len() > 0 {
                        lemma_walk_resolved(symbols, memory, caller, (limit - 1) as nat, 0);
                    }
                }
            },
            None => {},
        }
    }
}

} // verus!
