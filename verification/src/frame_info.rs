//! Call-frame information: how, at a given instruction, the caller's frame is
//! recovered. The rows come from the program's `.eh_frame` section, which the
//! `gimli` crate decodes.

use crate::table::{Ranged, Span};
use gimli::{
    BaseAddresses, CfaRule, CieOrFde, EhFrame, LittleEndian, Register, RegisterRule,
    UnwindContext, UnwindSection,
};
use vstd::prelude::*;

verus! {

/// The error type of `gimli`, carried through as the cause of a decoding
/// failure. Nothing is known of its values.
#[verifier::external_type_specification]
#[verifier::external_body]
pub struct ExDecodingError(gimli::read::Error);

/// The DWARF number of the frame-pointer register `rbp` on x86-64.
pub const FRAME_POINTER_REGISTER: u16 = 6;

/// The DWARF number of the stack-pointer register `rsp` on x86-64.
pub const STACK_POINTER_REGISTER: u16 = 7;

/// The DWARF number that stands for the return address on x86-64.
pub const RETURN_ADDRESS_REGISTER: u16 = 16;

/// The unwind-table row that holds for one instruction, as plain values.
#[derive(Clone, Copy, Debug, PartialEq, Eq)]
pub struct FrameRow {
    /// The first address for which the row holds.
    pub start: u64,
    /// The first address after those for which the row holds.
    pub end: u64,
    /// The register and the offset whose sum is the frame's base address;
    /// `None` where the section gives an expression instead.
    pub cfa: Option<(u16, i64)>,
    /// The offset from the frame's base at which the return-address register
    /// is saved; `None` where the section gives another kind of rule for it.
    pub return_address: Option<i64>,
    /// The offset from the frame's base at which the frame-pointer register
    /// is saved; `None` where the section gives no such rule.
    pub frame_pointer: Option<i64>,
}

/// The entries that `gimli` finds in the `.eh_frame` section `section`, loaded
/// at `section_address`, in their order: for each entry that describes a
/// function the first address and the number of bytes that it covers, `None`
/// for each entry that is common to several functions. The whole is `None`
/// where `gimli` cannot decode the section.
pub uninterp spec fn eh_frame_entries(section: Seq<u8>, section_address: u64) -> Option<
    Seq<Option<(u64, u64)>>,
>;

/// Walks the `.eh_frame` section `section` with
/// `gimli::UnwindSection::entries` and collects every entry that `next` hands
/// out; an entry that describes a function is completed with
/// `gimli::PartialFrameDescriptionEntry::parse` and gives its
/// `initial_address` and `len`. The section is read as little-endian, with
/// 8-byte addresses, loaded at `section_address`. Nothing is proved of
/// `gimli`'s decoding: the contract only gives its outcome the name
/// `eh_frame_entries`, and says that the entries handed back are that outcome
/// and that an error is the outcome `None`.
#[verifier::external_body]
pub(crate) fn read_frame_entries(section: &[u8], section_address: u64) -> (entries: Result<
    Vec<Option<(u64, u64)>>,
    gimli::read::Error,
>)
    ensures
        eh_frame_entries(section@, section_address) == (match entries {
            Ok(found) => Some(found@),
            Err(_) => None,
        }),
{
    let mut eh = EhFrame::new(section, LittleEndian);
    eh.set_address_size(8);
    let bases = BaseAddresses::default().set_eh_frame(section_address);
    let (mut entries, mut found) = (eh.entries(&bases), Vec::new());
    while let Some(entry) = entries.next()? {
        found.push(match entry {
            CieOrFde::Cie(_) => None,
            CieOrFde::Fde(partial) => {
                let fde = partial.parse(EhFrame::cie_from_offset)?;
                Some((fde.initial_address(), fde.len()))
            }
        });
    }
    Ok(found)
}

/// The row that `gimli` finds in the `.eh_frame` section `section`, loaded at
/// `section_address`, for the instruction at `address`, with its rules for
/// the registers that have the DWARF numbers `return_register` and
/// `frame_register`; `None` where it finds no row or cannot decode the
/// section.
pub uninterp spec fn eh_frame_lookup(
    section: Seq<u8>,
    section_address: u64,
    address: u64,
    return_register: u16,
    frame_register: u16,
) -> Option<FrameRow>;

/// Calls `gimli::UnwindSection::unwind_info_for_address` on `section`, read as
/// a little-endian `.eh_frame` section with 8-byte addresses that is loaded at
/// `section_address`. The row that `gimli` finds is handed back as plain
/// values: its `start_address` and `end_address`; the register and offset of
/// its `cfa`, where that is a register and an offset; and the offsets at
/// which its rules for the registers `return_register` and `frame_register`
/// save them, where these rules are of the kind `Offset`. Nothing is proved
/// of `gimli`'s
/// decoding: the contract only gives its outcome the name `eh_frame_lookup`,
/// and says that a row handed back is that outcome and that an error is the
/// outcome `None`.
#[verifier::external_body]
pub(crate) fn lookup_frame_row(
    section: &[u8],
    section_address: u64,
    address: u64,
    return_register: u16,
    frame_register: u16,
) -> (r: Result<FrameRow, gimli::read::Error>)
    ensures
        eh_frame_lookup(section@, section_address, address, return_register, frame_register) == (
        match r {
            Ok(row) => Some(row),
            Err(_) => None,
        }),
{
    let mut eh = EhFrame::new(section, LittleEndian);
    eh.set_address_size(8);
    let bases = BaseAddresses::default().set_eh_frame(section_address);
    let mut ctx = UnwindContext::new();
    let row = eh.unwind_info_for_address(&bases, &mut ctx, address, EhFrame::cie_from_offset)?;
    let at = |rule| match rule { Some(RegisterRule::Offset(n)) => Some(n), _ => None };
    let cfa = match row.cfa() { CfaRule::RegisterAndOffset { register, offset } => Some((register.0, *offset)), _ => None };
    let (ra, fp) = (row.register(Register(return_register)), row.register(Register(frame_register)));
    Ok(FrameRow { start: row.start_address(), end: row.end_address(), cfa, return_address: at(ra), frame_pointer: at(fp) })
}

/// The address `offset` bytes from `address`: `None` where that is no address.
pub open spec fn shifted(address: u64, offset: int) -> Option<u64> {
    if 0 <= address + offset <= u64::MAX {
        Some((address + offset) as u64)
    } else {
        None
    }
}

/// The address `offset` bytes from `address`, where that is an address.
pub fn offset_address(address: u64, offset: i64) -> (moved: Option<u64>)
    ensures
        moved == shifted(address, offset as int),
{
    if offset >= 0 {
        address.checked_add(offset as u64)
    } else if offset == i64::MIN {
        address.checked_sub(0x8000_0000_0000_0000u64)
    } else {
        address.checked_sub((-offset) as u64)
    }
}

/// The register from which a frame's base address is reckoned.
#[derive(Clone, Copy, Debug, PartialEq, Eq)]
pub enum BaseRegister {
    StackPointer,
    FramePointer,
}

/// How the caller's instruction pointer and frame are recovered from a frame.
#[derive(Clone, Copy, Debug, PartialEq, Eq)]
pub enum UnwindRule {
    /// The conventional chain of frame pointers: the frame's base is the
    /// frame pointer, the caller's frame pointer is saved at the base and the
    /// return address in the word after it.
    FramePointer,
    /// What the unwind metadata says: the frame's base is `base + offset`, the
    /// return address is saved at the base plus `return_address`, and the
    /// caller's frame pointer at the base plus `frame_pointer`, or is
    /// unchanged where that is `None`.
    Metadata { base: BaseRegister, offset: i64, return_address: i64, frame_pointer: Option<i64> },
}

/// The rule that a row amounts to. A row whose base is an expression or rests
/// on another register than the stack or frame pointer, or that does not save
/// the return address in memory, gives no rule.
pub open spec fn rule_of(row: FrameRow) -> Option<UnwindRule> {
    match (row.cfa, row.return_address) {
        (Some((register, offset)), Some(return_address)) => {
            if register == STACK_POINTER_REGISTER {
                Some(
                    UnwindRule::Metadata {
                        base: BaseRegister::StackPointer,
                        offset,
                        return_address,
                        frame_pointer: row.frame_pointer,
                    },
                )
            } else if register == FRAME_POINTER_REGISTER {
                Some(
                    UnwindRule::Metadata {
                        base: BaseRegister::FramePointer,
                        offset,
                        return_address,
                        frame_pointer: row.frame_pointer,
                    },
                )
            } else {
                None
            }
        },
        _ => None,
    }
}

/// The rule that `row` amounts to.
pub fn rule_from_row(row: &FrameRow) -> (rule: Option<UnwindRule>)
    ensures
        rule == rule_of(*row),
{
    match (row.cfa, row.return_address) {
        (Some((register, offset)), Some(return_address)) => {
            if register == STACK_POINTER_REGISTER {
                Some(
                    UnwindRule::Metadata {
                        base: BaseRegister::StackPointer,
                        offset,
                        return_address,
                        frame_pointer: row.frame_pointer,
                    },
                )
            } else if register == FRAME_POINTER_REGISTER {
                Some(
                    UnwindRule::Metadata {
                        base: BaseRegister::FramePointer,
                        offset,
                        return_address,
                        frame_pointer: row.frame_pointer,
                    },
                )
            } else {
                None
            }
        },
        _ => None,
    }
}

/// A range of instructions, from `start` up to, not including, `end`, and
/// the rule by which their frame is unwound.
#[derive(Clone, Copy, Debug, PartialEq, Eq)]
pub struct FrameRecord {
    pub start: u64,
    pub end: u64,
    pub rule: UnwindRule,
}

impl Span for FrameRecord {
    open spec fn lo(&self) -> u64 {
        self.start
    }

    open spec fn hi(&self) -> u64 {
        self.end
    }
}

impl Ranged for FrameRecord {
    fn start(&self) -> u64 {
        self.start
    }

    fn end(&self) -> u64 {
        self.end
    }
}

/// The record that a row stands for: its range with its rule, where it
/// amounts to one.
pub open spec fn record_of(row: FrameRow) -> Option<FrameRecord> {
    match rule_of(row) {
        Some(rule) => Some(FrameRecord { start: row.start, end: row.end, rule }),
        None => None,
    }
}

/// The record that `row` stands for.
pub fn record_from_row(row: &FrameRow) -> (record: Option<FrameRecord>)
    ensures
        record == record_of(*row),
{
    match rule_from_row(row) {
        Some(rule) => Some(FrameRecord { start: row.start, end: row.end, rule }),
        None => None,
    }
}

} // verus!
