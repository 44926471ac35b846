//! Line-number information: which source line each range of instructions was
//! compiled from. The rows come from the program's `.debug_line` section,
//! which the `gimli` crate decodes.

use crate::bytes::{holds, le_u32, le_u64, read_u32, read_u64};
use gimli::{
    DebugLine, DebugLineOffset, DebugLineStr, DebugStr, Dwarf, LineInstruction, LittleEndian,
};
use vstd::prelude::*;
use vstd::utf8::{decode_utf8, valid_utf8};

verus! {

/// One row of a line-number program, as plain values.
#[derive(Debug, PartialEq, Eq)]
pub struct LineRow {
    /// The address of the instruction that the row speaks of.
    pub address: u64,
    /// The bytes of the source file's name, or why the name could not be
    /// read; `None` where the program names no file for the row.
    pub file: Option<Result<Vec<u8>, gimli::read::Error>>,
    /// The source line; `None` where the instruction belongs to no line.
    pub line: Option<u64>,
    /// Whether the row ends a sequence of instructions: its address is the
    /// first one after the sequence.
    pub end_sequence: bool,
}

/// What a row says of its source file.
pub enum FileName {
    /// The program names no file for the row.
    Absent,
    /// The bytes of the file's name.
    Found(Seq<u8>),
    /// The program names a file, but the name could not be read.
    Unreadable,
}

/// What a row says.
pub struct LineRowView {
    pub address: u64,
    pub file: FileName,
    pub line: Option<u64>,
    pub end_sequence: bool,
}

impl View for LineRow {
    type V = LineRowView;

    open spec fn view(&self) -> LineRowView {
        LineRowView {
            address: self.address,
            file: match self.file {
                Some(Ok(name)) => FileName::Found(name@),
                Some(Err(_)) => FileName::Unreadable,
                None => FileName::Absent,
            },
            line: self.line,
            end_sequence: self.end_sequence,
        }
    }
}

/// The map from a row to what it says.
pub open spec fn row_view() -> spec_fn(LineRow) -> LineRowView {
    |r: LineRow| r@
}

/// What `gimli` finds of the instructions of the line-number program at
/// `offset` of the `.debug_line` section `lines`, in their order: for each
/// instruction that advances the line the amount by which it does, for each
/// that sets the file the index that it sets, and neither for every other
/// instruction. The whole is `None` where `gimli` cannot decode the program's
/// header or one of its instructions.
pub uninterp spec fn line_operands(lines: Seq<u8>, offset: usize) -> Option<
    Seq<(Option<i64>, Option<u64>)>,
>;

/// Whether the row machine of `gimli` can take an operand. It cannot take an
/// advance of the line by the lowest amount of all, which has no opposite. A
/// file index of more than 32 bits it takes in one way on a machine of 64
/// bits and in another, or not at all, on a machine of 32 bits.
pub open spec fn operand_in_range(operand: (Option<i64>, Option<u64>)) -> bool {
    &&& operand.0 != Some(i64::MIN)
    &&& operand.1 matches Some(index) ==> index <= u32::MAX
}

/// Whether the row machine of `gimli` can take each of the operands.
pub open spec fn operands_in_range(operands: Seq<(Option<i64>, Option<u64>)>) -> bool {
    forall|i: int| 0 <= i < operands.len() ==> operand_in_range(#[trigger] operands[i])
}

/// Whether the line-number program at `offset` of `lines` can be run: all
/// its instructions can be decoded, and the row machine can take each of
/// their operands.
pub open spec fn runnable(lines: Seq<u8>, offset: usize) -> bool {
    match line_operands(lines, offset) {
        Some(operands) => operands_in_range(operands),
        None => false,
    }
}

/// Decodes the instructions of the line-number program at `offset` of
/// `lines` with `gimli::LineProgramHeader::instructions` and collects, for
/// every instruction that `next_instruction` hands out, the amount of an
/// `AdvanceLine`, the index of a `SetFile`, and neither for any other. No
/// instruction is run. The section is read as little-endian, with 8-byte
/// addresses. Nothing is proved of `gimli`'s decoding: the contract only
/// gives its outcome the name `line_operands`, and says that what is handed
/// back is that outcome and that an error is the outcome `None`.
#[verifier::external_body]
pub(crate) fn read_line_operands(lines: &[u8], offset: usize) -> (operands: Result<
    Vec<(Option<i64>, Option<u64>)>,
    gimli::read::Error,
>)
    ensures
        line_operands(lines@, offset) == (match operands {
            Ok(found) => Some(found@),
            Err(_) => None,
        }),
{
    let program = DebugLine::new(lines, LittleEndian).program(DebugLineOffset(offset), 8, None, None)?;
    let (header, mut found) = (program.header(), Vec::new());
    let mut instructions = header.instructions();
    while let Some(instruction) = instructions.next_instruction(header)? {
        found.push(match instruction {
            LineInstruction::AdvanceLine(amount) => (Some(amount), None),
            LineInstruction::SetFile(index) => (None, Some(index)),
            _ => (None, None),
        });
    }
    Ok(found)
}

/// The rows that `gimli` produces for the line-number program at `offset` of
/// the `.debug_line` section `lines`, with file names that are not written in
/// the program itself looked up in the `.debug_str` section `strings` and the
/// `.debug_line_str` section `line_strings`; `None` where it cannot decode
/// the program.
pub uninterp spec fn line_program_rows(
    lines: Seq<u8>,
    strings: Seq<u8>,
    line_strings: Seq<u8>,
    offset: usize,
) -> Option<Seq<LineRowView>>;

/// Runs the line-number program at `offset` of `lines` with
/// `gimli::IncompleteLineProgram::rows` and collects every row that
/// `next_row` hands out, each with what `gimli::Dwarf::attr_line_string`
/// gives for the name of its file: the name or the error. The sections are
/// read as little-endian, with 8-byte addresses. The program must be
/// runnable: `gimli`'s row machine negates a negative advance of the line,
/// which the lowest amount of all does not admit, and cuts a file index to
/// the width of the machine's word. Nothing is proved of
/// `gimli`'s decoding: the contract only gives its outcome the name
/// `line_program_rows`, and says that the rows handed back are that outcome
/// and that an error is the outcome `None`.
#[verifier::external_body]
pub(crate) fn read_line_program(
    lines: &[u8],
    strings: &[u8],
    line_strings: &[u8],
    offset: usize,
) -> (rows: Result<Vec<LineRow>, gimli::read::Error>)
    requires
        runnable(lines@, offset),
    ensures
        line_program_rows(lines@, strings@, line_strings@, offset) == (match rows {
            Ok(found) => Some(found@.map_values(row_view())),
            Err(_) => None,
        }),
{
    let (debug_line, debug_str) = (DebugLine::new(lines, LittleEndian), DebugStr::new(strings, LittleEndian));
    let debug_line_str = DebugLineStr::new(line_strings, LittleEndian);
    let dwarf = Dwarf { debug_line, debug_str, debug_line_str, ..Default::default() };
    let mut rows = dwarf.debug_line.program(DebugLineOffset(offset), 8, None, None)?.rows();
    let mut found = Vec::new();
    while let Some((header, row)) = rows.next_row()? {
        let file = row.file(header).map(|f| dwarf.attr_line_string(f.path_name()).map(|n| n.to_vec()));
        found.push(LineRow { address: row.address(), file, line: row.line().map(u64::from), end_sequence: row.end_sequence() });
    }
    Ok(found)
}

/// Calls `String::from_utf8` on a copy of `bytes`: the string that the bytes
/// encode in UTF-8, and `None` where they encode none.
#[verifier::external_body]
pub(crate) fn decode_text(bytes: &[u8]) -> (text: Option<String>)
    ensures
        match text {
            Some(t) => valid_utf8(bytes@) && t@ == decode_utf8(bytes@),
            None => !valid_utf8(bytes@),
        },
{
    String::from_utf8(bytes.to_vec()).ok()
}

} // verus!
