//! The breakpoint manager: which addresses hold a breakpoint, which byte each
//! one displaced, and which writes to the traced process's memory install,
//! lift and remove them. The manager decides; its caller reads and writes the
//! memory.

use vstd::prelude::*;

verus! {

/// The one-byte trap instruction of x86-64 (`int3`).
pub const TRAP_INSTRUCTION: u8 = 0xCC;

/// The number of bytes by which the instruction pointer has passed a trap
/// instruction when the trap is reported.
pub const TRAP_LENGTH: u64 = 1;

/// A breakpoint at `addr`. While it is installed, the trap instruction stands
/// at `addr` in the traced process and `original` is the byte it displaced.
/// While it is lifted, to let the process step over it, it is not installed
/// and `original` is the byte that stands at `addr` again. Without a process
/// it is not installed and knows no byte.
#[derive(Clone, Copy, Debug, PartialEq, Eq)]
pub struct Breakpoint {
    pub addr: u64,
    pub original: Option<u8>,
    pub installed: bool,
}

/// A byte to be written to the traced process's memory.
#[derive(Clone, Copy, Debug, PartialEq, Eq)]
pub struct MemoryWrite {
    pub addr: u64,
    pub byte: u8,
}

/// What the caller has to do, in order, after a breakpoint was hit.
#[derive(Clone, Copy, Debug, PartialEq, Eq)]
pub enum HitAction {
    /// Set the instruction pointer to this address.
    SetInstructionPointer(u64),
    /// Write this byte to memory.
    Write(MemoryWrite),
    /// Let the process execute one instruction.
    SingleStep,
    /// Ask the manager to reinstall the breakpoint at this address, and make
    /// the write that it returns.
    Reinstall(u64),
}

/// What setting a breakpoint came to.
#[derive(Clone, Copy, Debug, PartialEq, Eq)]
pub struct Placement {
    /// The record that now stands for the address: the one that was there
    /// already, or the new one.
    pub record: Breakpoint,
    /// The write that installs the trap, where one is due.
    pub write: Option<MemoryWrite>,
}

/// What removing a breakpoint came to.
#[derive(Clone, Copy, Debug, PartialEq, Eq)]
pub enum Removal {
    /// The record is gone; the write, if any, puts the original byte back.
    Removed(Option<MemoryWrite>),
    /// No breakpoint was set at the address.
    NotFound,
}

/// Whether a breakpoint is recorded at `addr`.
pub open spec fn recorded(records: Seq<Breakpoint>, addr: u64) -> bool {
    exists|i: int| 0 <= i < records.len() && (#[trigger] records[i]).addr == addr
}

/// The index of the record at `addr`.
pub open spec fn position(records: Seq<Breakpoint>, addr: u64) -> int {
    choose|i: int| 0 <= i < records.len() && (#[trigger] records[i]).addr == addr
}

/// Whether a breakpoint is recorded at `addr` and installed.
pub open spec fn installed_at(records: Seq<Breakpoint>, addr: u64) -> bool {
    exists|i: int|
        0 <= i < records.len() && (#[trigger] records[i]).addr == addr && records[i].installed
}

/// The invariant of the records: no address has two of them, and each
/// installed one knows the byte it displaced.
pub open spec fn records_wf(records: Seq<Breakpoint>) -> bool {
    &&& forall|i: int, j: int|
        0 <= i < j < records.len() ==> (#[trigger] records[i]).addr != (#[trigger] records[j]).addr
    &&& forall|i: int|
        0 <= i < records.len() && (#[trigger] records[i]).installed ==> records[i].original.is_some()
}

/// The record that `set` makes for `addr`, where `current` is the byte at
/// `addr` in the live process, or `None` without a live process.
pub open spec fn fresh(addr: u64, current: Option<u8>) -> Breakpoint {
    Breakpoint { addr, original: current, installed: current.is_some() }
}

/// The records after `set(addr, current)`.
pub open spec fn records_after_set(records: Seq<Breakpoint>, addr: u64, current: Option<u8>) -> Seq<
    Breakpoint,
> {
    if recorded(records, addr) {
        records
    } else {
        records.push(fresh(addr, current))
    }
}

/// The write that `set(addr, current)` asks for.
pub open spec fn write_of_set(records: Seq<Breakpoint>, addr: u64, current: Option<u8>) -> Option<
    MemoryWrite,
> {
    if !recorded(records, addr) && current.is_some() {
        Some(MemoryWrite { addr, byte: TRAP_INSTRUCTION })
    } else {
        None
    }
}

/// The record that stands for `addr` after `set(addr, current)`.
pub open spec fn record_of_set(records: Seq<Breakpoint>, addr: u64, current: Option<u8>) -> Breakpoint {
    if recorded(records, addr) {
        records[position(records, addr)]
    } else {
        fresh(addr, current)
    }
}

/// The records after `remove(addr)`.
pub open spec fn records_after_remove(records: Seq<Breakpoint>, addr: u64) -> Seq<Breakpoint> {
    if recorded(records, addr) {
        records.remove(position(records, addr))
    } else {
        records
    }
}

/// The write that puts back what the breakpoint `b` displaced, if it is
/// installed.
pub open spec fn restoring(b: Breakpoint) -> Option<MemoryWrite> {
    if b.installed && b.original.is_some() {
        Some(MemoryWrite { addr: b.addr, byte: b.original.unwrap() })
    } else {
        None
    }
}

/// The write that `remove(addr)` asks for.
pub open spec fn write_of_remove(records: Seq<Breakpoint>, addr: u64) -> Option<MemoryWrite> {
    if recorded(records, addr) {
        restoring(records[position(records, addr)])
    } else {
        None
    }
}

/// What `remove(addr)` returns.
pub open spec fn removal_of(records: Seq<Breakpoint>, addr: u64) -> Removal {
    if recorded(records, addr) {
        Removal::Removed(write_of_remove(records, addr))
    } else {
        Removal::NotFound
    }
}

/// The addresses of the breakpoints that are not installed, in the order of
/// the records.
pub open spec fn pending_of(records: Seq<Breakpoint>) -> Seq<u64>
    decreases records.len(),
{
    if records.len() == 0 {
        Seq::empty()
    } else if records.last().installed {
        pending_of(records.drop_last())
    } else {
        pending_of(records.drop_last()).push(records.last().addr)
    }
}

/// The record of `b` once no process is live: not installed, and without a
/// displaced byte.
pub open spec fn detached(b: Breakpoint) -> Breakpoint {
    Breakpoint { addr: b.addr, original: None, installed: false }
}

/// The records after `install(addr, current)`.
pub open spec fn records_after_install(records: Seq<Breakpoint>, addr: u64, current: u8) -> Seq<
    Breakpoint,
> {
    if recorded(records, addr) && !records[position(records, addr)].installed {
        records.update(position(records, addr), fresh(addr, Some(current)))
    } else {
        records
    }
}

/// The write that `install(addr, current)` asks for.
pub open spec fn write_of_install(records: Seq<Breakpoint>, addr: u64) -> Option<MemoryWrite> {
    if recorded(records, addr) && !records[position(records, addr)].installed {
        Some(MemoryWrite { addr, byte: TRAP_INSTRUCTION })
    } else {
        None
    }
}

/// The steps after a hit of the breakpoint at `addr` that displaced
/// `original`: rewind the instruction pointer to the breakpoint, put the
/// original byte back, execute that one instruction, install the trap again.
pub open spec fn hit_plan(addr: u64, original: u8) -> Seq<HitAction> {
    seq![
        HitAction::SetInstructionPointer(addr),
        HitAction::Write(MemoryWrite { addr, byte: original }),
        HitAction::SingleStep,
        HitAction::Reinstall(addr),
    ]
}

/// Whether the breakpoint recorded at `addr` is lifted: not installed, with
/// the byte that it had displaced.
pub open spec fn lifted_at(records: Seq<Breakpoint>, addr: u64) -> bool {
    exists|i: int|
        0 <= i < records.len() && (#[trigger] records[i]).addr == addr && !records[i].installed
            && records[i].original.is_some()
}

/// The record `b`, installed or not.
pub open spec fn marked(b: Breakpoint, installed: bool) -> Breakpoint {
    Breakpoint { installed, ..b }
}

/// The records after the breakpoint at `addr` was lifted, as `on_hit(addr)`
/// and `lift(addr)` do it: it is marked as not installed, where it was
/// installed, and keeps the byte that it displaced.
pub open spec fn records_after_lift(records: Seq<Breakpoint>, addr: u64) -> Seq<Breakpoint> {
    if installed_at(records, addr) {
        records.update(position(records, addr), marked(records[position(records, addr)], false))
    } else {
        records
    }
}

/// The records after `reinstall(addr)`: the breakpoint at `addr` is
/// installed, where it was lifted.
pub open spec fn records_after_reinstall(records: Seq<Breakpoint>, addr: u64) -> Seq<Breakpoint> {
    if lifted_at(records, addr) {
        records.update(position(records, addr), marked(records[position(records, addr)], true))
    } else {
        records
    }
}

/// The write that `reinstall(addr)` asks for.
pub open spec fn write_of_reinstall(records: Seq<Breakpoint>, addr: u64) -> Option<MemoryWrite> {
    if lifted_at(records, addr) {
        Some(MemoryWrite { addr, byte: TRAP_INSTRUCTION })
    } else {
        None
    }
}

/// The record at `addr` is found at one index only.
pub proof fn lemma_position(records: Seq<Breakpoint>, addr: u64, i: int)
    requires
        records_wf(records),
        0 <= i < records.len(),
        records[i].addr == addr,
    ensures
        recorded(records, addr),
        position(records, addr) == i,
{
    let j = position(records, addr);
    if i < j {
        assert(records[i].addr != records[j].addr);
    } else if j < i {
        assert(records[j].addr != records[i].addr);
    }
}

/// The breakpoints of a debugging session.
pub struct BreakpointManager {
    records: Vec<Breakpoint>,
}

impl BreakpointManager {
    #[verifier::type_invariant]
    pub closed spec fn wf(&self) -> bool {
        records_wf(self.records@)
    }

    /// The records, in the order in which they were set.
    pub closed spec fn records(&self) -> Seq<Breakpoint> {
        self.records@
    }

    /// A manager without breakpoints.
    pub fn new() -> (manager: BreakpointManager)
        ensures
            manager.wf(),
            manager.records() == Seq::<Breakpoint>::empty(),
    {
        BreakpointManager { records: Vec::new() }
    }

    /// The index of the record at `addr`.
    fn find(&self, addr: u64) -> (found: Option<usize>)
        ensures
            records_wf(self.records()),
            match found {
                Some(i) => i < self.records().len() && self.records()[i as int].addr == addr
                    && recorded(self.records(), addr) && position(self.records(), addr) == i,
                None => !recorded(self.records(), addr),
            },
    {
        proof {
            use_type_invariant(self);
        }
        let mut i: usize = 0;
        while i < self.records.len()
            invariant
                records_wf(self.records@),
                i <= self.records@.len(),
                forall|k: int| 0 <= k < i ==> (#[trigger] self.records@[k]).addr != addr,
            decreases self.records@.len() - i,
        {
            if self.records[i].addr == addr {
                proof {
                    lemma_position(self.records@, addr, i as int);
                }
                return Some(i);
            }
            i += 1;
        }
        None
    }

    /// The breakpoint recorded at `addr`.
    pub fn get(&self, addr: u64) -> (found: Option<Breakpoint>)
        ensures
            found == (if recorded(self.records(), addr) {
                Some(self.records()[position(self.records(), addr)])
            } else {
                None::<Breakpoint>
            }),
    {
        match self.find(addr) {
            Some(i) => Some(self.records[i]),
            None => None,
        }
    }

    /// Whether the trap instruction of a breakpoint stands at `addr`.
    pub fn is_installed(&self, addr: u64) -> (installed: bool)
        ensures
            installed == installed_at(self.records(), addr),
    {
        match self.find(addr) {
            Some(i) => {
                let installed = self.records[i].installed;
                proof {
                    if installed_at(self.records(), addr) {
                        let j = choose|j: int|
                            0 <= j < self.records().len() && (#[trigger] self.records()[j]).addr
                                == addr && self.records()[j].installed;
                        lemma_position(self.records(), addr, j);
                    }
                }
                installed
            },
            None => false,
        }
    }

    /// The number of breakpoints.
    pub fn len(&self) -> (n: usize)
        ensures
            n == self.records().len(),
    {
        self.records.len()
    }

    /// Records a breakpoint at `address`. `current` is the byte that stands at
    /// `address` in the live process, or `None` where no process is live. The
    /// result holds the record and the write that installs the trap, where
    /// one is due. Where a breakpoint is already recorded at `address`,
    /// nothing changes, nothing is to be written, and the record is the one
    /// that was there.
    pub fn set(&mut self, address: u64, current: Option<u8>) -> (placed: Placement)
        ensures
            final(self).wf(),
            final(self).records() == records_after_set(old(self).records(), address, current),
            placed.record == record_of_set(old(self).records(), address, current),
            placed.write == write_of_set(old(self).records(), address, current),
    {
        match self.find(address) {
            Some(i) => Placement { record: self.records[i], write: None },
            None => {
                let ghost before = self.records@;
                let mut records = Vec::new();
                std::mem::swap(&mut records, &mut self.records);
                records.push(
                    Breakpoint { addr: address, original: current, installed: current.is_some() },
                );
                proof {
                    let after = records@;
                    assert forall|i: int, j: int| 0 <= i < j < after.len() implies (
                    #[trigger] after[i]).addr != (#[trigger] after[j]).addr by {
                        if j < before.len() {
                            assert(before[i].addr != before[j].addr);
                        } else {
                            assert(before[i].addr != address);
                        }
                    }
                }
                self.records = records;
                let record = Breakpoint {
                    addr: address,
                    original: current,
                    installed: current.is_some(),
                };
                match current {
                    Some(_) => Placement {
                        record,
                        write: Some(MemoryWrite { addr: address, byte: TRAP_INSTRUCTION }),
                    },
                    None => Placement { record, write: None },
                }
            },
        }
    }

    /// Discards the breakpoint at `address`. The result holds the write that
    /// puts the original byte back, where the breakpoint was installed, or
    /// says that no breakpoint was set there.
    pub fn remove(&mut self, address: u64) -> (removal: Removal)
        ensures
            final(self).wf(),
            final(self).records() == records_after_remove(old(self).records(), address),
            removal == removal_of(old(self).records(), address),
    {
        match self.find(address) {
            None => Removal::NotFound,
            Some(i) => {
                let ghost before = self.records@;
                let mut records = Vec::new();
                std::mem::swap(&mut records, &mut self.records);
                let record = records.remove(i);
                proof {
                    let after = records@;
                    assert forall|a: int, b: int| 0 <= a < b < after.len() implies (
                    #[trigger] after[a]).addr != (#[trigger] after[b]).addr by {
                        let a0 = if a < i { a } else { a + 1 };
                        let b0 = if b < i { b } else { b + 1 };
                        assert(after[a] == before[a0]);
                        assert(after[b] == before[b0]);
                        assert(before[a0].addr != before[b0].addr);
                    }
                    assert forall|a: int| 0 <= a < after.len() && (
                    #[trigger] after[a]).installed implies after[a].original.is_some() by {
                        let a0 = if a < i { a } else { a + 1 };
                        assert(after[a] == before[a0]);
                    }
                }
                self.records = records;
                if record.installed {
                    match record.original {
                        Some(byte) => Removal::Removed(Some(MemoryWrite { addr: address, byte })),
                        None => Removal::Removed(None),
                    }
                } else {
                    Removal::Removed(None)
                }
            },
        }
    }

    /// Replaces the record at index `i`, which keeps its address.
    fn replace(&mut self, i: usize, record: Breakpoint)
        requires
            i < old(self).records().len(),
            old(self).records()[i as int].addr == record.addr,
            record.installed ==> record.original.is_some(),
        ensures
            final(self).wf(),
            final(self).records() == old(self).records().update(i as int, record),
    {
        proof {
            use_type_invariant(&*self);
        }
        let ghost before = self.records@;
        let mut records = Vec::new();
        std::mem::swap(&mut records, &mut self.records);
        records.set(i, record);
        proof {
            let after = records@;
            assert forall|a: int, b: int| 0 <= a < b < after.len() implies (#[trigger] after[a]).addr
                != (#[trigger] after[b]).addr by {
                assert(before[a].addr != before[b].addr);
            }
            assert forall|a: int| 0 <= a < after.len() && (
            #[trigger] after[a]).installed implies after[a].original.is_some() by {
                if a != i {
                    assert(after[a] == before[a]);
                }
            }
        }
        self.records = records;
    }

    /// Lifts the breakpoint at `address`: marks it as not installed, with the
    /// byte that it displaced. This takes the installing back where the write
    /// of the trap failed. The result says whether an installed breakpoint
    /// was there; where none was, nothing changes.
    pub fn lift(&mut self, address: u64) -> (lifted: bool)
        ensures
            final(self).wf(),
            final(self).records() == records_after_lift(old(self).records(), address),
            lifted == installed_at(old(self).records(), address),
    {
        let found = self.find(address);
        let installed = self.is_installed(address);
        let i = match found {
            Some(i) => i,
            None => {
                return false;
            },
        };
        if !installed {
            return false;
        }
        proof {
            let j = choose|j: int|
                0 <= j < self.records().len() && (#[trigger] self.records()[j]).addr == address
                    && self.records()[j].installed;
            lemma_position(self.records(), address, j);
        }
        let record = self.records[i];
        self.replace(i, Breakpoint { installed: false, ..record });
        true
    }

    /// Lifts the breakpoint at `stopped_addr` after it was hit, and gives the
    /// steps that carry the process over it: `None` where no breakpoint is
    /// installed there, and then nothing changes. The steps are to be taken
    /// in the order given.
    pub fn on_hit(&mut self, stopped_addr: u64) -> (plan: Option<Vec<HitAction>>)
        ensures
            final(self).wf(),
            final(self).records() == records_after_lift(old(self).records(), stopped_addr),
            match plan {
                Some(steps) => installed_at(old(self).records(), stopped_addr) && steps@
                    == hit_plan(
                    stopped_addr,
                    old(self).records()[position(
                        old(self).records(),
                        stopped_addr,
                    )].original.unwrap(),
                ),
                None => !installed_at(old(self).records(), stopped_addr),
            },
    {
        let found = self.find(stopped_addr);
        let installed = self.is_installed(stopped_addr);
        let i = match found {
            Some(i) => i,
            None => {
                return None;
            },
        };
        let record = self.records[i];
        if !installed {
            return None;
        }
        proof {
            let j = choose|j: int|
                0 <= j < self.records().len() && (#[trigger] self.records()[j]).addr
                    == stopped_addr && self.records()[j].installed;
            lemma_position(self.records(), stopped_addr, j);
        }
        let original = match record.original {
            Some(original) => original,
            None => {
                return None;
            },
        };
        self.replace(i, Breakpoint { installed: false, ..record });
        let mut steps = Vec::new();
        steps.push(HitAction::SetInstructionPointer(stopped_addr));
        steps.push(HitAction::Write(MemoryWrite { addr: stopped_addr, byte: original }));
        steps.push(HitAction::SingleStep);
        steps.push(HitAction::Reinstall(stopped_addr));
        assert(steps@ == hit_plan(stopped_addr, original));
        Some(steps)
    }

    /// Installs the lifted breakpoint at `address` again. The result is the
    /// write that puts the trap in its place. Where no breakpoint is recorded
    /// at `address`, or the one recorded is installed or knows no byte,
    /// nothing changes and nothing is to be written.
    pub fn reinstall(&mut self, address: u64) -> (write: Option<MemoryWrite>)
        ensures
            final(self).wf(),
            final(self).records() == records_after_reinstall(old(self).records(), address),
            write == write_of_reinstall(old(self).records(), address),
    {
        match self.find(address) {
            Some(i) => {
                let record = self.records[i];
                proof {
                    if lifted_at(self.records(), address) {
                        let j = choose|j: int|
                            0 <= j < self.records().len() && (#[trigger] self.records()[j]).addr
                                == address && !self.records()[j].installed
                                && self.records()[j].original.is_some();
                        lemma_position(self.records(), address, j);
                    }
                }
                if record.installed || record.original.is_none() {
                    return None;
                }
                self.replace(i, Breakpoint { installed: true, ..record });
                Some(MemoryWrite { addr: address, byte: TRAP_INSTRUCTION })
            },
            None => None,
        }
    }
}

impl BreakpointManager {
    /// The addresses of the breakpoints that are not installed, in the order
    /// in which they were set: those to install in a new process.
    pub fn pending(&self) -> (addresses: Vec<u64>)
        ensures
            addresses@ == pending_of(self.records()),
    {
        let mut addresses: Vec<u64> = Vec::new();
        let mut i: usize = 0;
        assert(self.records@.take(0) == Seq::<Breakpoint>::empty());
        while i < self.records.len()
            invariant
                i <= self.records@.len(),
                addresses@ == pending_of(self.records@.take(i as int)),
            decreases self.records@.len() - i,
        {
            proof {
                let next = self.records@.take(i + 1);
                assert(next.drop_last() == self.records@.take(i as int));
                assert(next.last() == self.records@[i as int]);
            }
            if !self.records[i].installed {
                addresses.push(self.records[i].addr);
            }
            i += 1;
        }
        assert(self.records@.take(i as int) == self.records@);
        addresses
    }

    /// Installs the breakpoint recorded at `address` in a process in which
    /// the byte `current` stands there. The result is the write that puts the
    /// trap in its place. Where no breakpoint is recorded at `address`, or the
    /// one recorded is installed, nothing changes and nothing is to be
    /// written.
    pub fn install(&mut self, address: u64, current: u8) -> (write: Option<MemoryWrite>)
        ensures
            final(self).wf(),
            final(self).records() == records_after_install(old(self).records(), address, current),
            write == write_of_install(old(self).records(), address),
    {
        match self.find(address) {
            Some(i) => {
                if self.records[i].installed {
                    return None;
                }
                let ghost before = self.records@;
                let mut records = Vec::new();
                std::mem::swap(&mut records, &mut self.records);
                records.set(i, Breakpoint { addr: address, original: Some(current), installed: true });
                proof {
                    let after = records@;
                    assert forall|a: int, b: int| 0 <= a < b < after.len() implies (
                    #[trigger] after[a]).addr != (#[trigger] after[b]).addr by {
                        assert(before[a].addr != before[b].addr);
                    }
                    assert forall|a: int| 0 <= a < after.len() && (
                    #[trigger] after[a]).installed implies after[a].original.is_some() by {
                        if a != i {
                            assert(after[a] == before[a]);
                        }
                    }
                }
                self.records = records;
                Some(MemoryWrite { addr: address, byte: TRAP_INSTRUCTION })
            },
            None => None,
        }
    }

    /// Marks every breakpoint as not installed and forgets the bytes they
    /// displaced: the traced process is gone. The records stay, to be
    /// installed in the next process.
    pub fn detach_all(&mut self)
        ensures
            final(self).wf(),
            final(self).records() == old(self).records().map_values(|b: Breakpoint| detached(b)),
    {
        proof {
            use_type_invariant(&*self);
        }
        let mut records = Vec::new();
        std::mem::swap(&mut records, &mut self.records);
        let ghost before = records@;
        let mut i: usize = 0;
        while i < records.len()
            invariant
                records_wf(before),
                i <= records@.len(),
                records@.len() == before.len(),
                forall|k: int| 0 <= k < i ==> #[trigger] records@[k] == detached(before[k]),
                forall|k: int| i <= k < records@.len() ==> #[trigger] records@[k] == before[k],
            decreases records@.len() - i,
        {
            let addr = records[i].addr;
            records.set(i, Breakpoint { addr, original: None, installed: false });
            i += 1;
        }
        proof {
            let after = records@;
            assert(after == before.map_values(|b: Breakpoint| detached(b)));
            assert forall|a: int, b: int| 0 <= a < b < after.len() implies (#[trigger] after[a]).addr
                != (#[trigger] after[b]).addr by {
                assert(before[a].addr != before[b].addr);
            }
        }
        self.records = records;
    }
}

/// The records of a valid manager are valid: no address has two of them, and
/// each installed one knows the byte it displaced.
pub proof fn lemma_records_valid(manager: BreakpointManager)
    requires
        manager.wf(),
    ensures
        records_wf(manager.records()),
{
}

/// The memory after a write, where one is to be made.
pub open spec fn apply(memory: Map<u64, u8>, write: Option<MemoryWrite>) -> Map<u64, u8> {
    match write {
        Some(w) => memory.insert(w.addr, w.byte),
        None => memory,
    }
}

/// Whether the breakpoints are transparent: `memory` is what the process
/// holds, `pristine` what it would hold without any breakpoint. At each
/// installed breakpoint the memory holds the trap; every record that knows a
/// byte knows the pristine one; everywhere but at the installed breakpoints
/// the memory is pristine.
pub open spec fn transparent(
    records: Seq<Breakpoint>,
    memory: Map<u64, u8>,
    pristine: Map<u64, u8>,
) -> bool {
    &&& memory.dom() == pristine.dom()
    &&& forall|i: int|
        0 <= i < records.len() && (#[trigger] records[i]).installed ==> {
            &&& memory.dom().contains(records[i].addr)
            &&& memory[records[i].addr] == TRAP_INSTRUCTION
        }
    &&& forall|i: int|
        0 <= i < records.len() && (#[trigger] records[i]).original.is_some() ==> {
            &&& memory.dom().contains(records[i].addr)
            &&& records[i].original == Some(pristine[records[i].addr])
        }
    &&& forall|a: u64|
        #[trigger] memory.dom().contains(a) && !installed_at(records, a) ==> memory[a]
            == pristine[a]
}

/// Setting a breakpoint keeps the breakpoints transparent: after the write
/// that `set` asks for, the trap stands at the new breakpoint, its record
/// holds the byte that stood there, and no other address has changed.
pub proof fn lemma_set_keeps_transparency(
    records: Seq<Breakpoint>,
    memory: Map<u64, u8>,
    pristine: Map<u64, u8>,
    addr: u64,
)
    requires
        records_wf(records),
        transparent(records, memory, pristine),
        memory.dom().contains(addr),
    ensures
        transparent(
            records_after_set(records, addr, Some(memory[addr])),
            apply(memory, write_of_set(records, addr, Some(memory[addr]))),
            pristine,
        ),
{
    let after = records_after_set(records, addr, Some(memory[addr]));
    let written = apply(memory, write_of_set(records, addr, Some(memory[addr])));
    if !recorded(records, addr) {
        assert(!installed_at(records, addr));
        assert(written.dom() =~= memory.dom());
        assert forall|a: u64| #[trigger]
            written.dom().contains(a) && !installed_at(after, a) implies written[a]
            == pristine[a] by {
            if a == addr {
                assert(after[records.len() as int].addr == addr);
            } else if installed_at(records, a) {
                let i = choose|i: int|
                    0 <= i < records.len() && (#[trigger] records[i]).addr == a
                        && records[i].installed;
                assert(after[i] == records[i]);
            }
        }
    }
}

/// Installing a recorded breakpoint keeps the breakpoints transparent: after
/// the write that `install` asks for, the trap stands at the breakpoint and
/// its record holds the byte that stood there.
pub proof fn lemma_install_keeps_transparency(
    records: Seq<Breakpoint>,
    memory: Map<u64, u8>,
    pristine: Map<u64, u8>,
    addr: u64,
)
    requires
        records_wf(records),
        transparent(records, memory, pristine),
        memory.dom().contains(addr),
    ensures
        transparent(
            records_after_install(records, addr, memory[addr]),
            apply(memory, write_of_install(records, addr)),
            pristine,
        ),
{
    if recorded(records, addr) && !records[position(records, addr)].installed {
        let p = position(records, addr);
        let after = records_after_install(records, addr, memory[addr]);
        let written = apply(memory, write_of_install(records, addr));
        assert(written.dom() =~= memory.dom());
        if installed_at(records, addr) {
            let i = choose|i: int|
                0 <= i < records.len() && (#[trigger] records[i]).addr == addr
                    && records[i].installed;
            lemma_position(records, addr, i);
        }
        assert forall|i: int| 0 <= i < after.len() && (#[trigger] after[i]).installed implies {
            &&& written.dom().contains(after[i].addr)
            &&& written[after[i].addr] == TRAP_INSTRUCTION
            &&& after[i].original == Some(pristine[after[i].addr])
        } by {
            if i != p {
                assert(after[i] == records[i]);
                if i < p {
                    assert(records[i].addr != records[p].addr);
                } else {
                    assert(records[p].addr != records[i].addr);
                }
            }
        }
        assert forall|a: u64| #[trigger]
            written.dom().contains(a) && !installed_at(after, a) implies written[a]
            == pristine[a] by {
            if a == addr {
                assert(after[p].addr == addr && after[p].installed);
            } else if installed_at(records, a) {
                let i = choose|i: int|
                    0 <= i < records.len() && (#[trigger] records[i]).addr == a
                        && records[i].installed;
                assert(after[i] == records[i]);
            }
        }
    }
}

/// Removing a breakpoint keeps the breakpoints transparent: after the write
/// that `remove` asks for, the byte that the breakpoint displaced stands in
/// its place again.
pub proof fn lemma_remove_keeps_transparency(
    records: Seq<Breakpoint>,
    memory: Map<u64, u8>,
    pristine: Map<u64, u8>,
    addr: u64,
)
    requires
        records_wf(records),
        transparent(records, memory, pristine),
    ensures
        transparent(
            records_after_remove(records, addr),
            apply(memory, write_of_remove(records, addr)),
            pristine,
        ),
{
    if recorded(records, addr) {
        let p = position(records, addr);
        let after = records.remove(p);
        let written = apply(memory, write_of_remove(records, addr));
        assert(written.dom() =~= memory.dom());
        assert forall|i: int| 0 <= i < after.len() && (#[trigger] after[i]).installed implies {
            &&& written.dom().contains(after[i].addr)
            &&& written[after[i].addr] == TRAP_INSTRUCTION
            &&& after[i].original == Some(pristine[after[i].addr])
        } by {
            let i0 = if i < p { i } else { i + 1 };
            assert(after[i] == records[i0]);
            if i0 < p {
                assert(records[i0].addr != records[p].addr);
            } else {
                assert(records[p].addr != records[i0].addr);
            }
        }
        assert forall|a: u64| #[trigger]
            written.dom().contains(a) && !installed_at(after, a) implies written[a]
            == pristine[a] by {
            if a != addr && installed_at(records, a) {
                let i = choose|i: int|
                    0 <= i < records.len() && (#[trigger] records[i]).addr == a
                        && records[i].installed;
                let j = if i < p { i } else { i - 1 };
                assert(after[j] == records[i]);
            }
        }
    }
}

/// Installing a breakpoint and removing it again restores the memory bit for
/// bit, and leaves the records as they were.
pub proof fn lemma_set_remove_round_trip(records: Seq<Breakpoint>, memory: Map<u64, u8>, addr: u64)
    requires
        records_wf(records),
        !recorded(records, addr),
        memory.dom().contains(addr),
    ensures
        ({
            let current = Some(memory[addr]);
            let set = records_after_set(records, addr, current);
            let trapped = apply(memory, write_of_set(records, addr, current));
            &&& trapped[addr] == TRAP_INSTRUCTION
            &&& records_after_remove(set, addr) == records
            &&& apply(trapped, write_of_remove(set, addr)) == memory
        }),
{
    let current = Some(memory[addr]);
    let set = records_after_set(records, addr, current);
    let trapped = apply(memory, write_of_set(records, addr, current));
    assert(set[records.len() as int].addr == addr);
    assert forall|i: int, j: int| 0 <= i < j < set.len() implies (#[trigger] set[i]).addr != (
    #[trigger] set[j]).addr by {
        if j < records.len() {
            assert(records[i].addr != records[j].addr);
        } else {
            assert(set[i] == records[i]);
        }
    }
    assert forall|i: int| 0 <= i < set.len() && (#[trigger] set[i]).installed implies set[i].original.is_some() by {
        if i < records.len() {
            assert(set[i] == records[i]);
        }
    }
    lemma_position(set, addr, records.len() as int);
    assert(set.remove(records.len() as int) == records);
    assert(apply(trapped, write_of_remove(set, addr)) =~= memory);
}

/// A hit is transparent. With the breakpoint at `addr` installed, the trap
/// stands at `addr` before the hit. The write of the plan puts the pristine
/// byte there, so that the single step executes the program's own
/// instruction, and the breakpoints stay transparent with the breakpoint
/// lifted.
pub proof fn lemma_hit_keeps_transparency(
    records: Seq<Breakpoint>,
    memory: Map<u64, u8>,
    pristine: Map<u64, u8>,
    addr: u64,
)
    requires
        records_wf(records),
        transparent(records, memory, pristine),
        installed_at(records, addr),
    ensures
        ({
            let original = records[position(records, addr)].original.unwrap();
            let plan = hit_plan(addr, original);
            let restore = MemoryWrite { addr, byte: original };
            &&& memory[addr] == TRAP_INSTRUCTION
            &&& plan[0] == HitAction::SetInstructionPointer(addr)
            &&& plan[1] == HitAction::Write(restore)
            &&& plan[2] == HitAction::SingleStep
            &&& plan[3] == HitAction::Reinstall(addr)
            &&& apply(memory, Some(restore))[addr] == pristine[addr]
            &&& lifted_at(records_after_lift(records, addr), addr)
            &&& !installed_at(records_after_lift(records, addr), addr)
            &&& transparent(records_after_lift(records, addr), apply(memory, Some(restore)), pristine)
        }),
{
    let i = choose|i: int|
        0 <= i < records.len() && (#[trigger] records[i]).addr == addr && records[i].installed;
    lemma_position(records, addr, i);
    let original = records[i].original.unwrap();
    let restore = MemoryWrite { addr, byte: original };
    let after = records_after_lift(records, addr);
    let written = apply(memory, Some(restore));
    assert(written.dom() =~= memory.dom());
    assert(after[i].addr == addr && !after[i].installed && after[i].original.is_some());
    if installed_at(after, addr) {
        let j = choose|j: int|
            0 <= j < after.len() && (#[trigger] after[j]).addr == addr && after[j].installed;
        if j != i {
            assert(after[j] == records[j]);
            lemma_position(records, addr, j);
        }
    }
    assert forall|k: int| 0 <= k < after.len() && (#[trigger] after[k]).installed implies {
        &&& written.dom().contains(after[k].addr)
        &&& written[after[k].addr] == TRAP_INSTRUCTION
    } by {
        assert(after[k] == records[k]);
        if k < i {
            assert(records[k].addr != records[i].addr);
        } else {
            assert(records[i].addr != records[k].addr);
        }
    }
    assert forall|k: int| 0 <= k < after.len() && (#[trigger] after[k]).original.is_some() implies {
        &&& written.dom().contains(after[k].addr)
        &&& after[k].original == Some(pristine[after[k].addr])
    } by {
        assert(after[k].original == records[k].original);
        assert(after[k].addr == records[k].addr);
    }
    assert forall|a: u64| #[trigger]
        written.dom().contains(a) && !installed_at(after, a) implies written[a] == pristine[a] by {
        if a != addr && installed_at(records, a) {
            let k = choose|k: int|
                0 <= k < records.len() && (#[trigger] records[k]).addr == a
                    && records[k].installed;
            assert(after[k] == records[k]);
        }
    }
}

/// Taking a failed installing back restores transparency. The record at
/// `addr` says installed, but the write of the trap failed, so that the byte
/// at `addr` is the pristine one still: once the breakpoint is lifted, the
/// breakpoints are transparent as they would have been with the write made.
pub proof fn lemma_lift_after_failed_write(
    records: Seq<Breakpoint>,
    memory: Map<u64, u8>,
    pristine: Map<u64, u8>,
    addr: u64,
)
    requires
        records_wf(records),
        installed_at(records, addr),
        memory.dom().contains(addr),
        memory[addr] == pristine[addr],
        transparent(records, memory.insert(addr, TRAP_INSTRUCTION), pristine),
    ensures
        transparent(records_after_lift(records, addr), memory, pristine),
        !installed_at(records_after_lift(records, addr), addr),
{
    let i = choose|i: int|
        0 <= i < records.len() && (#[trigger] records[i]).addr == addr && records[i].installed;
    lemma_position(records, addr, i);
    let trapped = memory.insert(addr, TRAP_INSTRUCTION);
    let after = records_after_lift(records, addr);
    assert(trapped.dom() =~= memory.dom());
    if installed_at(after, addr) {
        let j = choose|j: int|
            0 <= j < after.len() && (#[trigger] after[j]).addr == addr && after[j].installed;
        if j != i {
            assert(after[j] == records[j]);
            lemma_position(records, addr, j);
        }
    }
    assert forall|k: int| 0 <= k < after.len() && (#[trigger] after[k]).installed implies {
        &&& memory.dom().contains(after[k].addr)
        &&& memory[after[k].addr] == TRAP_INSTRUCTION
    } by {
        assert(after[k] == records[k]);
        assert(trapped[records[k].addr] == TRAP_INSTRUCTION);
        if k < i {
            assert(records[k].addr != records[i].addr);
        } else {
            assert(records[i].addr != records[k].addr);
        }
    }
    assert forall|k: int| 0 <= k < after.len() && (#[trigger] after[k]).original.is_some() implies {
        &&& memory.dom().contains(after[k].addr)
        &&& after[k].original == Some(pristine[after[k].addr])
    } by {
        assert(after[k].original == records[k].original);
        assert(after[k].addr == records[k].addr);
        assert(trapped.dom().contains(records[k].addr));
    }
    assert forall|a: u64| #[trigger]
        memory.dom().contains(a) && !installed_at(after, a) implies memory[a] == pristine[a] by {
        if a != addr {
            assert(trapped.dom().contains(a));
            if installed_at(records, a) {
                let k = choose|k: int|
                    0 <= k < records.len() && (#[trigger] records[k]).addr == a
                        && records[k].installed;
                assert(after[k] == records[k]);
            }
            assert(trapped[a] == memory[a]);
        }
    }
}

/// Reinstalling a lifted breakpoint keeps the breakpoints transparent: after
/// the write that `reinstall` asks for, the trap stands at the breakpoint
/// again.
pub proof fn lemma_reinstall_keeps_transparency(
    records: Seq<Breakpoint>,
    memory: Map<u64, u8>,
    pristine: Map<u64, u8>,
    addr: u64,
)
    requires
        records_wf(records),
        transparent(records, memory, pristine),
    ensures
        transparent(
            records_after_reinstall(records, addr),
            apply(memory, write_of_reinstall(records, addr)),
            pristine,
        ),
        lifted_at(records, addr) ==> apply(memory, write_of_reinstall(records, addr))[addr]
            == TRAP_INSTRUCTION,
{
    if lifted_at(records, addr) {
        let i = choose|i: int|
            0 <= i < records.len() && (#[trigger] records[i]).addr == addr && !records[i].installed
                && records[i].original.is_some();
        lemma_position(records, addr, i);
        let after = records_after_reinstall(records, addr);
        let written = apply(memory, write_of_reinstall(records, addr));
        assert(written.dom() =~= memory.dom());
        assert forall|k: int| 0 <= k < after.len() && (#[trigger] after[k]).installed implies {
            &&& written.dom().contains(after[k].addr)
            &&& written[after[k].addr] == TRAP_INSTRUCTION
        } by {
            if k != i {
                assert(after[k] == records[k]);
                if k < i {
                    assert(records[k].addr != records[i].addr);
                } else {
                    assert(records[i].addr != records[k].addr);
                }
            } else {
                assert(records[i].original.is_some());
            }
        }
        assert forall|k: int| 0 <= k < after.len() && (
        #[trigger] after[k]).original.is_some() implies {
            &&& written.dom().contains(after[k].addr)
            &&& after[k].original == Some(pristine[after[k].addr])
        } by {
            assert(after[k].original == records[k].original);
            assert(after[k].addr == records[k].addr);
        }
        assert forall|a: u64| #[trigger]
            written.dom().contains(a) && !installed_at(after, a) implies written[a]
            == pristine[a] by {
            if a == addr {
                assert(after[i].addr == addr && after[i].installed);
            } else if installed_at(records, a) {
                let k = choose|k: int|
                    0 <= k < records.len() && (#[trigger] records[k]).addr == a
                        && records[k].installed;
                assert(after[k] == records[k]);
            }
        }
    }
}

/// Lifting an installed breakpoint and installing it again leaves the records
/// as they were: so it is where the write that was to put the displaced byte
/// back failed, and the trap stands in the memory still.
pub proof fn lemma_lift_reinstall(records: Seq<Breakpoint>, addr: u64)
    requires
        records_wf(records),
        installed_at(records, addr),
    ensures
        records_after_reinstall(records_after_lift(records, addr), addr) == records,
{
    let i = choose|i: int|
        0 <= i < records.len() && (#[trigger] records[i]).addr == addr && records[i].installed;
    lemma_position(records, addr, i);
    let lifted = records_after_lift(records, addr);
    assert(lifted[i].addr == addr && !lifted[i].installed && lifted[i].original.is_some());
    assert forall|a: int, b: int| 0 <= a < b < lifted.len() implies (#[trigger] lifted[a]).addr != (
    #[trigger] lifted[b]).addr by {
        assert(records[a].addr != records[b].addr);
    }
    assert forall|a: int| 0 <= a < lifted.len() && (
    #[trigger] lifted[a]).installed implies lifted[a].original.is_some() by {
        if a != i {
            assert(lifted[a] == records[a]);
        }
    }
    lemma_position(lifted, addr, i);
    assert(records_after_reinstall(lifted, addr) =~= records);
}

/// Lifting a breakpoint after a hit and reinstalling it leaves the records
/// and the memory as they were before the hit, with the trap in its place.
pub proof fn lemma_hit_round_trip(records: Seq<Breakpoint>, memory: Map<u64, u8>, addr: u64)
    requires
        records_wf(records),
        installed_at(records, addr),
        memory.dom().contains(addr),
        memory[addr] == TRAP_INSTRUCTION,
    ensures
        ({
            let original = records[position(records, addr)].original.unwrap();
            let lifted = records_after_lift(records, addr);
            let restored = apply(memory, Some(MemoryWrite { addr, byte: original }));
            &&& records_after_reinstall(lifted, addr) == records
            &&& apply(restored, write_of_reinstall(lifted, addr)) == memory
        }),
{
    let i = choose|i: int|
        0 <= i < records.len() && (#[trigger] records[i]).addr == addr && records[i].installed;
    lemma_position(records, addr, i);
    let original = records[i].original.unwrap();
    let lifted = records_after_lift(records, addr);
    assert(lifted[i].addr == addr && !lifted[i].installed && lifted[i].original.is_some());
    assert forall|a: int, b: int| 0 <= a < b < lifted.len() implies (#[trigger] lifted[a]).addr != (
    #[trigger] lifted[b]).addr by {
        assert(records[a].addr != records[b].addr);
    }
    assert forall|a: int| 0 <= a < lifted.len() && (
    #[trigger] lifted[a]).installed implies lifted[a].original.is_some() by {
        if a != i {
            assert(lifted[a] == records[a]);
        }
    }
    lemma_position(lifted, addr, i);
    assert(records_after_reinstall(lifted, addr) =~= records);
    let restored = apply(memory, Some(MemoryWrite { addr, byte: original }));
    assert(apply(restored, write_of_reinstall(lifted, addr)) =~= memory);
}

} // verus!
