//! Loading the symbol table from an object file: the functions from the
//! symbol table of the file, the lines from its line-number programs, and the
//! unwind rules from its frame section.

use crate::bytes::{le_u32, le_u64, read_u32, read_u64};
use crate::dwarf_data::{
    DwarfData, DwarfError, FormatCause, FunctionEntry, FunctionRecord, LineEntry, LineRecord,
};
use crate::frame_info::{
    eh_frame_entries, eh_frame_lookup, lookup_frame_row, read_frame_entries, record_from_row,
    record_of, FrameRecord, FRAME_POINTER_REGISTER, RETURN_ADDRESS_REGISTER,
};
use crate::elf::{
    data_at, find_data, header_of, named_data, names_of, parse_header, read_data, read_names,
    read_symbol, read_text, symbol_at, symbol_count, text_at, ElfError, ElfHeader, Section,
    Symbol, FUNCTION_KIND,
};
use crate::line_info::{
    decode_text, line_operands, line_program_rows, operand_in_range, operands_in_range,
    read_line_operands,
    read_line_program, row_view, FileName, LineRow, LineRowView,
};
use crate::table::{
    admits, covers, index_of, lemma_place_holds, lemma_place_well_formed, lemma_record_found,
    place, well_formed,
};
use vstd::prelude::*;
use vstd::slice::slice_to_vec;
use vstd::string::StringSliceAdditionalSpecFns;
use vstd::utf8::{decode_utf8, valid_utf8};

verus! {

/// The function that a symbol stands for: one for each symbol of the function
/// kind that covers at least one byte, ends inside the address space and has
/// a name, not empty, that is valid UTF-8.
pub open spec fn function_entry_of(symbol: Symbol, strings: Seq<u8>) -> Option<FunctionEntry> {
    if symbol.kind == FUNCTION_KIND && symbol.size > 0 && symbol.value + symbol.size <= u64::MAX {
        match text_at(strings, symbol.name as int) {
            Some(name) => {
                if name.len() > 0 && valid_utf8(name) {
                    Some(
                        FunctionEntry {
                            name: decode_utf8(name),
                            start: symbol.value,
                            end: (symbol.value + symbol.size) as u64,
                        },
                    )
                } else {
                    None
                }
            },
            None => None,
        }
    } else {
        None
    }
}

/// The function table `base` after the first `count` symbols of `table`
/// were offered to it, each in its turn.
pub open spec fn functions_of(
    table: Seq<u8>,
    strings: Seq<u8>,
    base: Seq<FunctionEntry>,
    count: int,
) -> Seq<FunctionEntry>
    decreases count,
{
    if count <= 0 {
        base
    } else {
        let before = functions_of(table, strings, base, count - 1);
        match function_entry_of(symbol_at(table, count - 1), strings) {
            Some(entry) => place(before, entry),
            None => before,
        }
    }
}

/// The line record that a row and the row after it stand for: the
/// instructions from the row's address up to the next row's address belong
/// to the row's file and line. A row that ends a sequence, has no line or no
/// file, or is not followed by a higher address stands for none.
pub open spec fn line_entry_of(row: LineRowView, next: LineRowView) -> Option<LineEntry> {
    if !row.end_sequence && row.address < next.address {
        match (row.file, row.line) {
            (FileName::Found(name), Some(line)) => {
                if valid_utf8(name) {
                    Some(
                        LineEntry {
                            start: row.address,
                            end: next.address,
                            file: decode_utf8(name),
                            line,
                        },
                    )
                } else {
                    None
                }
            },
            _ => None,
        }
    } else {
        None
    }
}

/// The line table `table` after the first `count` pairs of adjacent rows were
/// offered to it, each in its turn.
pub open spec fn lines_of(rows: Seq<LineRowView>, table: Seq<LineEntry>, count: int) -> Seq<
    LineEntry,
>
    decreases count,
{
    if count <= 0 {
        table
    } else {
        let before = lines_of(rows, table, count - 1);
        match line_entry_of(rows[count - 1], rows[count]) {
            Some(entry) => place(before, entry),
            None => before,
        }
    }
}

/// The number of bytes that the line-number program at `offset` takes in the
/// section, with the field that gives its length: `None` where that field is
/// cut off.
pub open spec fn unit_extent(lines: Seq<u8>, offset: int) -> Option<int> {
    if 0 <= offset && offset + 4 <= lines.len() {
        if le_u32(lines, offset) == 0xffff_ffff {
            if offset + 12 <= lines.len() {
                Some(12 + le_u64(lines, offset + 4))
            } else {
                None
            }
        } else {
            Some(4 + le_u32(lines, offset))
        }
    } else {
        None
    }
}

/// Why an image cannot be loaded.
pub enum LoadFailure {
    /// The object file is at fault.
    Object(ElfError),
    /// A debug section cannot be decoded.
    Debug,
    /// A line-number program holds an operand out of range.
    LineOperand,
}

/// Whether the name of the file of one of the rows could not be read.
pub open spec fn names_unreadable(rows: Seq<LineRowView>) -> bool {
    exists|i: int| 0 <= i < rows.len() && (#[trigger] rows[i]).file is Unreadable
}

/// What running the line-number program at `offset` comes to, before any of
/// its records is added: the failure that ends the run, if any. The program
/// fails where its instructions cannot be decoded, where one of them holds
/// an operand out of range, where its rows cannot be had, where the name of
/// a file cannot be read, and where its length is cut off.
pub open spec fn program_failure(
    lines: Seq<u8>,
    strings: Seq<u8>,
    line_strings: Seq<u8>,
    offset: int,
) -> Option<LoadFailure> {
    let at = #[verifier::truncate] (offset as usize);
    match line_operands(lines, at) {
        None => Some(LoadFailure::Debug),
        Some(operands) => {
            if !operands_in_range(operands) {
                Some(LoadFailure::LineOperand)
            } else {
                match line_program_rows(lines, strings, line_strings, at) {
                    None => Some(LoadFailure::Debug),
                    Some(rows) => {
                        if names_unreadable(rows) {
                            Some(LoadFailure::Debug)
                        } else if unit_extent(lines, offset).is_none() {
                            Some(LoadFailure::Object(ElfError::Truncated))
                        } else {
                            None
                        }
                    },
                }
            }
        },
    }
}

/// What adding every line-number program of the section from `offset` on to
/// the line table `table` comes to, one program after the other: the table
/// that is reached, and the failure that ends the run, if any. A program that
/// fails ends the run before any of its records is added.
pub open spec fn all_lines(
    lines: Seq<u8>,
    strings: Seq<u8>,
    line_strings: Seq<u8>,
    offset: int,
    table: Seq<LineEntry>,
) -> (Seq<LineEntry>, Option<LoadFailure>)
    decreases lines.len() - offset,
    via all_lines_ends
{
    if offset < 0 || offset >= lines.len() {
        (table, None)
    } else {
        match program_failure(lines, strings, line_strings, offset) {
            Some(failure) => (table, Some(failure)),
            None => {
                let rows = line_program_rows(
                    lines,
                    strings,
                    line_strings,
                    #[verifier::truncate] (offset as usize),
                ).unwrap();
                let grown = lines_of(rows, table, rows.len() - 1);
                if offset + unit_extent(lines, offset).unwrap() >= lines.len() {
                    (grown, None)
                } else {
                    all_lines(
                        lines,
                        strings,
                        line_strings,
                        offset + unit_extent(lines, offset).unwrap(),
                        grown,
                    )
                }
            },
        }
    }
}

#[via_fn]
proof fn all_lines_ends(
    lines: Seq<u8>,
    strings: Seq<u8>,
    line_strings: Seq<u8>,
    offset: int,
    table: Seq<LineEntry>,
) {
    if 0 <= offset < lines.len() {
        if unit_extent(lines, offset).is_some() {
            assert(le_u32(lines, offset) >= 0);
            assert(le_u64(lines, offset + 4) >= 0);
            assert(unit_extent(lines, offset).unwrap() >= 4);
        }
    }
}

/// The failure of a run, as the error that is handed out for it.
pub open spec fn failed_as(failure: Option<LoadFailure>, done: Result<(), DwarfError>) -> bool {
    match failure {
        None => done.is_ok(),
        Some(LoadFailure::Object(e)) => done matches Err(
            DwarfError::DwarfFormatError(FormatCause::Object(f)),
        ) && f == e,
        Some(LoadFailure::Debug) => done matches Err(
            DwarfError::DwarfFormatError(FormatCause::Decoder(_)),
        ),
        Some(LoadFailure::LineOperand) => done matches Err(
            DwarfError::DwarfFormatError(FormatCause::LineOperand),
        ),
    }
}

/// Where the line-number program after the one at `offset` starts: `None`
/// where the length of the program at `offset` is cut off, `Some(None)` where
/// that program is the last one.
pub fn next_program(lines: &[u8], offset: usize) -> (next: Option<Option<usize>>)
    ensures
        match next {
            None => unit_extent(lines@, offset as int).is_none(),
            Some(None) => unit_extent(lines@, offset as int).is_some() && offset + unit_extent(
                lines@,
                offset as int,
            ).unwrap() >= lines@.len(),
            Some(Some(at)) => unit_extent(lines@, offset as int) == Some(at - offset) && at
                < lines@.len(),
        },
{
    if offset > lines.len() || lines.len() - offset < 4 {
        return None;
    }
    let short = match read_u32(lines, offset) {
        Some(n) => n,
        None => {
            return None;
        },
    };
    let room = lines.len() - offset;
    if short == 0xffff_ffff {
        match read_u64(lines, offset + 4) {
            Some(n) => {
                if n >= (room - 12) as u64 {
                    Some(None)
                } else {
                    Some(Some(offset + 12 + n as usize))
                }
            },
            None => None,
        }
    } else if short as u64 >= (room - 4) as u64 {
        Some(None)
    } else {
        Some(Some(offset + 4 + short as usize))
    }
}

/// The function record that `symbol` stands for.
pub fn function_from_symbol(symbol: &Symbol, strings: &[u8]) -> (record: Option<FunctionRecord>)
    ensures
        match record {
            Some(r) => function_entry_of(*symbol, strings@) == Some(r@),
            None => function_entry_of(*symbol, strings@).is_none(),
        },
{
    if symbol.kind != FUNCTION_KIND || symbol.size == 0 {
        return None;
    }
    let end = match symbol.value.checked_add(symbol.size) {
        Some(end) => end,
        None => {
            return None;
        },
    };
    let name = match read_text(strings, symbol.name as usize) {
        Some(name) => name,
        None => {
            return None;
        },
    };
    if name.len() == 0 {
        return None;
    }
    match decode_text(name) {
        Some(name) => Some(FunctionRecord { name, start: symbol.value, end }),
        None => None,
    }
}

/// The line record that `row` and the row after it stand for.
pub fn line_from_rows(row: &LineRow, next: &LineRow) -> (record: Option<LineRecord>)
    ensures
        match record {
            Some(r) => line_entry_of(row@, next@) == Some(r@),
            None => line_entry_of(row@, next@).is_none(),
        },
{
    if row.end_sequence || row.address >= next.address {
        return None;
    }
    match (&row.file, row.line) {
        (Some(Ok(name)), Some(line)) => match decode_text(name.as_slice()) {
            Some(file) => Some(LineRecord { start: row.address, end: next.address, file, line }),
            None => None,
        },
        _ => None,
    }
}

/// Offers every function symbol of `table` to the function table of `data`,
/// in the order of the symbols.
pub fn load_functions(data: &mut DwarfData, table: &[u8], strings: &[u8])
    ensures
        final(data).functions() == functions_of(
            table@,
            strings@,
            old(data).functions(),
            symbol_count(table@),
        ),
        final(data).lines() == old(data).lines(),
        final(data).frames() == old(data).frames(),
{
    let count = table.len() / 24;
    let mut index: usize = 0;
    while index < count
        invariant
            count == symbol_count(table@),
            index <= count,
            data.functions() == functions_of(table@, strings@, old(data).functions(), index as int),
            data.lines() == old(data).lines(),
            data.frames() == old(data).frames(),
        decreases count - index,
    {
        match read_symbol(table, index) {
            Some(symbol) => match function_from_symbol(&symbol, strings) {
                Some(record) => {
                    data.add_function(record);
                },
                None => {},
            },
            None => {},
        }
        index += 1;
    }
}

/// Offers the line records of one line-number program to the line table of
/// `data`, in the order of the rows.
pub fn load_rows(data: &mut DwarfData, rows: &Vec<LineRow>)
    ensures
        final(data).lines() == lines_of(
            rows@.map_values(row_view()),
            old(data).lines(),
            rows@.len() - 1,
        ),
        final(data).functions() == old(data).functions(),
        final(data).frames() == old(data).frames(),
{
    let mut index: usize = 0;
    let ghost views = rows@.map_values(row_view());
    let pairs = if rows.len() == 0 {
        0
    } else {
        rows.len() - 1
    };
    while index < pairs
        invariant
            views == rows@.map_values(row_view()),
            index <= pairs,
            pairs < rows@.len() || pairs == 0,
            pairs >= rows@.len() - 1,
            data.lines() == lines_of(views, old(data).lines(), index as int),
            data.functions() == old(data).functions(),
            data.frames() == old(data).frames(),
        decreases rows@.len() - index,
    {
        match line_from_rows(&rows[index], &rows[index + 1]) {
            Some(record) => {
                data.add_line(record);
            },
            None => {},
        }
        index += 1;
    }
}

/// Whether the row machine can take each of the operands.
pub fn operands_fit(operands: &Vec<(Option<i64>, Option<u64>)>) -> (fit: bool)
    ensures
        fit == operands_in_range(operands@),
{
    let mut index: usize = 0;
    while index < operands.len()
        invariant
            index <= operands@.len(),
            forall|k: int| 0 <= k < index ==> operand_in_range(#[trigger] operands@[k]),
        decreases operands@.len() - index,
    {
        let (advance, file) = operands[index];
        match advance {
            Some(amount) => {
                if amount == i64::MIN {
                    assert(!operand_in_range(operands@[index as int]));
                    return false;
                }
            },
            None => {},
        }
        match file {
            Some(number) => {
                if number > 0xffff_ffff {
                    assert(!operand_in_range(operands@[index as int]));
                    return false;
                }
            },
            None => {},
        }
        index += 1;
    }
    true
}

/// The error of the first row whose file's name could not be read.
pub fn first_unreadable(rows: &Vec<LineRow>) -> (error: Option<gimli::read::Error>)
    ensures
        error.is_some() == names_unreadable(rows@.map_values(row_view())),
{
    let ghost views = rows@.map_values(row_view());
    let mut index: usize = 0;
    while index < rows.len()
        invariant
            views == rows@.map_values(row_view()),
            index <= rows@.len(),
            forall|k: int| 0 <= k < index ==> !((#[trigger] views[k]).file is Unreadable),
        decreases rows@.len() - index,
    {
        match &rows[index].file {
            Some(Err(e)) => {
                assert(views[index as int].file is Unreadable);
                return Some(*e);
            },
            _ => {},
        }
        index += 1;
    }
    None
}

/// Adds the line records of every line-number program of the section `lines`
/// to the line table of `data`, one program after the other. A program that
/// fails ends the run with the cause of its failure; the table then holds
/// the records of the programs before it.
pub fn load_lines(data: &mut DwarfData, lines: &[u8], strings: &[u8], line_strings: &[u8]) -> (done:
    Result<(), DwarfError>)
    ensures
        final(data).lines() == all_lines(lines@, strings@, line_strings@, 0, old(data).lines()).0,
        failed_as(all_lines(lines@, strings@, line_strings@, 0, old(data).lines()).1, done),
        final(data).functions() == old(data).functions(),
        final(data).frames() == old(data).frames(),
{
    let mut offset: usize = 0;
    while offset < lines.len()
        invariant
            all_lines(lines@, strings@, line_strings@, 0, old(data).lines()) == all_lines(
                lines@,
                strings@,
                line_strings@,
                offset as int,
                data.lines(),
            ),
            data.functions() == old(data).functions(),
            data.frames() == old(data).frames(),
        decreases lines@.len() - offset,
    {
        match read_line_operands(lines, offset) {
            Ok(operands) => {
                if !operands_fit(&operands) {
                    return Err(DwarfError::DwarfFormatError(FormatCause::LineOperand));
                }
            },
            Err(e) => {
                return Err(DwarfError::DwarfFormatError(FormatCause::Decoder(e)));
            },
        }
        let rows = match read_line_program(lines, strings, line_strings, offset) {
            Ok(rows) => rows,
            Err(e) => {
                return Err(DwarfError::DwarfFormatError(FormatCause::Decoder(e)));
            },
        };
        match first_unreadable(&rows) {
            Some(e) => {
                return Err(DwarfError::DwarfFormatError(FormatCause::Decoder(e)));
            },
            None => {},
        }
        let next = match next_program(lines, offset) {
            Some(next) => next,
            None => {
                return Err(DwarfError::DwarfFormatError(FormatCause::Object(ElfError::Truncated)));
            },
        };
        load_rows(data, &rows);
        match next {
            Some(at) => {
                offset = at;
            },
            None => {
                return Ok(());
            },
        }
    }
    Ok(())
}

/// The first address after a function that starts at `start` and covers
/// `length` bytes; the last address where the sum is none.
pub open spec fn frame_end(start: u64, length: u64) -> u64 {
    if start + length <= u64::MAX {
        (start + length) as u64
    } else {
        u64::MAX
    }
}

/// What offering the unwind rows of one function to the table `table` comes
/// to, from the row that holds at `addr` up to the row that reaches `end`:
/// the table that is reached, and whether a row could not be decoded, which
/// ends the run. Each row is sought at the end of the row before it; a row
/// that does not reach beyond the address at which it was sought is the last.
pub open spec fn function_frames(
    section: Seq<u8>,
    section_address: u64,
    addr: u64,
    end: u64,
    table: Seq<FrameRecord>,
) -> (Seq<FrameRecord>, bool)
    decreases end - addr,
{
    if addr >= end {
        (table, false)
    } else {
        match eh_frame_lookup(
            section,
            section_address,
            addr,
            RETURN_ADDRESS_REGISTER,
            FRAME_POINTER_REGISTER,
        ) {
            None => (table, true),
            Some(row) => {
                let grown = match record_of(row) {
                    Some(record) => place(table, record),
                    None => table,
                };
                if row.end <= addr || row.end >= end {
                    (grown, false)
                } else {
                    function_frames(section, section_address, row.end, end, grown)
                }
            },
        }
    }
}

/// What offering the rows of the first `count` entries of the section to the
/// table `base` comes to, function by function: the table that is reached,
/// and whether a row could not be decoded, which ends the run.
pub open spec fn frames_of(
    section: Seq<u8>,
    section_address: u64,
    entries: Seq<Option<(u64, u64)>>,
    base: Seq<FrameRecord>,
    count: int,
) -> (Seq<FrameRecord>, bool)
    decreases count,
{
    if count <= 0 {
        (base, false)
    } else {
        let before = frames_of(section, section_address, entries, base, count - 1);
        if before.1 {
            before
        } else {
            match entries[count - 1] {
                Some((start, length)) => function_frames(
                    section,
                    section_address,
                    start,
                    frame_end(start, length),
                    before.0,
                ),
                None => before,
            }
        }
    }
}

/// What offering the unwind rows of every function of the `.eh_frame`
/// section `section`, loaded at `section_address`, to the table `base` comes
/// to: the table that is reached, and whether the section could not be
/// decoded, which ends the run.
pub open spec fn all_frames(section: Seq<u8>, section_address: u64, base: Seq<FrameRecord>) -> (
    Seq<FrameRecord>,
    bool,
) {
    match eh_frame_entries(section, section_address) {
        Some(entries) => frames_of(section, section_address, entries, base, entries.len() as int),
        None => (base, true),
    }
}

/// Whether a run that failed or not is told by `done`: a failure by the
/// decoder's error.
pub open spec fn decoded_as(failed: bool, done: Result<(), DwarfError>) -> bool {
    if failed {
        done matches Err(DwarfError::DwarfFormatError(FormatCause::Decoder(_)))
    } else {
        done.is_ok()
    }
}

/// Offers the unwind rows of one function, from the row that holds at `addr`
/// up to the row that reaches `end`, to the table of `data`. A row that
/// cannot be decoded ends the run with the decoder's error; the table then
/// holds the rows before it.
pub fn load_function_frames(
    data: &mut DwarfData,
    section: &[u8],
    section_address: u64,
    addr: u64,
    end: u64,
) -> (done: Result<(), DwarfError>)
    ensures
        final(data).frames() == function_frames(
            section@,
            section_address,
            addr,
            end,
            old(data).frames(),
        ).0,
        decoded_as(
            function_frames(section@, section_address, addr, end, old(data).frames()).1,
            done,
        ),
        final(data).functions() == old(data).functions(),
        final(data).lines() == old(data).lines(),
{
    let mut at = addr;
    while at < end
        invariant
            function_frames(section@, section_address, addr, end, old(data).frames())
                == function_frames(section@, section_address, at, end, data.frames()),
            data.functions() == old(data).functions(),
            data.lines() == old(data).lines(),
        decreases end - at,
    {
        let row = match lookup_frame_row(
            section,
            section_address,
            at,
            RETURN_ADDRESS_REGISTER,
            FRAME_POINTER_REGISTER,
        ) {
            Ok(row) => row,
            Err(e) => {
                return Err(DwarfError::DwarfFormatError(FormatCause::Decoder(e)));
            },
        };
        match record_from_row(&row) {
            Some(record) => {
                data.add_frame(record);
            },
            None => {},
        }
        if row.end <= at || row.end >= end {
            return Ok(());
        }
        at = row.end;
    }
    Ok(())
}

/// Offers the unwind rows of every function of the `.eh_frame` section
/// `section`, loaded at `section_address`, to the table of `data`. An entry
/// or a row that cannot be decoded ends the run with the decoder's error; the
/// table then holds the rows before it.
pub fn load_frames(data: &mut DwarfData, section: &[u8], section_address: u64) -> (done: Result<
    (),
    DwarfError,
>)
    ensures
        final(data).frames() == all_frames(section@, section_address, old(data).frames()).0,
        decoded_as(all_frames(section@, section_address, old(data).frames()).1, done),
        final(data).functions() == old(data).functions(),
        final(data).lines() == old(data).lines(),
{
    let entries = match read_frame_entries(section, section_address) {
        Ok(entries) => entries,
        Err(e) => {
            return Err(DwarfError::DwarfFormatError(FormatCause::Decoder(e)));
        },
    };
    let mut index: usize = 0;
    while index < entries.len()
        invariant
            index <= entries@.len(),
            eh_frame_entries(section@, section_address) == Some(entries@),
            frames_of(section@, section_address, entries@, old(data).frames(), index as int) == (
                data.frames(),
                false,
            ),
            data.functions() == old(data).functions(),
            data.lines() == old(data).lines(),
        decreases entries@.len() - index,
    {
        match entries[index] {
            Some((start, length)) => {
                let end = match start.checked_add(length) {
                    Some(end) => end,
                    None => u64::MAX,
                };
                assert(end == frame_end(start, length));
                match load_function_frames(data, section, section_address, start, end) {
                    Ok(()) => {},
                    Err(e) => {
                        proof {
                            assert(frames_of(
                                section@,
                                section_address,
                                entries@,
                                old(data).frames(),
                                index + 1,
                            ) == (data.frames(), true));
                            lemma_frames_fail(
                                section@,
                                section_address,
                                entries@,
                                old(data).frames(),
                                index + 1,
                                entries@.len() as int,
                            );
                        }
                        return Err(e);
                    },
                }
            },
            None => {},
        }
        index += 1;
    }
    Ok(())
}

/// Once the rows of an entry cannot be decoded, the run has ended: the
/// entries after it change nothing.
pub proof fn lemma_frames_fail(
    section: Seq<u8>,
    section_address: u64,
    entries: Seq<Option<(u64, u64)>>,
    base: Seq<FrameRecord>,
    failed: int,
    count: int,
)
    requires
        failed <= count,
        frames_of(section, section_address, entries, base, failed).1,
    ensures
        frames_of(section, section_address, entries, base, count) == frames_of(
            section,
            section_address,
            entries,
            base,
            failed,
        ),
    decreases count - failed,
{
    if failed < count {
        lemma_frames_fail(section, section_address, entries, base, failed, count - 1);
    }
}

/// What an object file holds for the debugger.
pub struct Loaded {
    pub functions: Seq<FunctionEntry>,
    pub lines: Seq<LineEntry>,
    pub frames: Seq<FrameRecord>,
}

/// A section that the debugger cannot do without.
pub open spec fn required(found: Result<Option<(Section, Seq<u8>)>, ElfError>) -> Result<
    (Section, Seq<u8>),
    ElfError,
> {
    match found {
        Ok(Some(section)) => Ok(section),
        Ok(None) => Err(ElfError::MissingSection),
        Err(e) => Err(e),
    }
}

/// The address and the bytes of a section that may be absent: no bytes at
/// address zero where it is.
pub open spec fn optional(found: Result<Option<(Section, Seq<u8>)>, ElfError>) -> Result<
    (u64, Seq<u8>),
    ElfError,
> {
    match found {
        Ok(Some((section, data))) => Ok((section.address, data)),
        Ok(None) => Ok((0, Seq::empty())),
        Err(e) => Err(e),
    }
}

/// The table of unwind rules of the object file `image`: that of its section
/// `.eh_frame`, and an empty one where it has no such section.
pub open spec fn image_frames(image: Seq<u8>, header: ElfHeader, names: Seq<u8>) -> Result<
    Seq<FrameRecord>,
    LoadFailure,
> {
    match named_data(image, header, names, ".eh_frame".spec_bytes()) {
        Ok(Some((section, data))) => {
            let run = all_frames(data, section.address, Seq::empty());
            if run.1 {
                Err(LoadFailure::Debug)
            } else {
                Ok(run.0)
            }
        },
        Ok(None) => Ok(Seq::empty()),
        Err(e) => Err(LoadFailure::Object(e)),
    }
}

/// The function table of the object file `image`: that of the symbols of its
/// section `.symtab`, named by the strings of the section it refers to.
pub open spec fn image_functions(image: Seq<u8>, header: ElfHeader, names: Seq<u8>) -> Result<
    Seq<FunctionEntry>,
    LoadFailure,
> {
    match required(named_data(image, header, names, ".symtab".spec_bytes())) {
        Err(e) => Err(LoadFailure::Object(e)),
        Ok((symtab, symbols)) => match data_at(image, header, symtab.link as int) {
            Err(e) => Err(LoadFailure::Object(e)),
            Ok(strings) => Ok(
                functions_of(symbols, strings, Seq::empty(), symbol_count(symbols)),
            ),
        },
    }
}

/// The line table of the object file `image`: that of the programs of its
/// section `.debug_line`, with file names from `.debug_str` and
/// `.debug_line_str`, which may be absent.
pub open spec fn image_lines(image: Seq<u8>, header: ElfHeader, names: Seq<u8>) -> Result<
    Seq<LineEntry>,
    LoadFailure,
> {
    match required(named_data(image, header, names, ".debug_line".spec_bytes())) {
        Err(e) => Err(LoadFailure::Object(e)),
        Ok((_, lines)) => match optional(
            named_data(image, header, names, ".debug_str".spec_bytes()),
        ) {
            Err(e) => Err(LoadFailure::Object(e)),
            Ok((_, strings)) => match optional(
                named_data(image, header, names, ".debug_line_str".spec_bytes()),
            ) {
                Err(e) => Err(LoadFailure::Object(e)),
                Ok((_, line_strings)) => {
                    let run = all_lines(lines, strings, line_strings, 0, Seq::empty());
                    match run.1 {
                        Some(failure) => Err(failure),
                        None => Ok(run.0),
                    }
                },
            },
        },
    }
}

/// What the object file `image` holds: its functions, then its lines, then
/// its unwind rules; the first of them that cannot be had decides the
/// failure. The image must hold `.symtab` and `.debug_line`; the other
/// sections may be absent.
pub open spec fn load(image: Seq<u8>) -> Result<Loaded, LoadFailure> {
    match header_of(image) {
        Err(e) => Err(LoadFailure::Object(e)),
        Ok(header) => match names_of(image, header) {
            Err(e) => Err(LoadFailure::Object(e)),
            Ok(names) => match image_functions(image, header, names) {
                Err(failure) => Err(failure),
                Ok(functions) => match image_lines(image, header, names) {
                    Err(failure) => Err(failure),
                    Ok(lines) => match image_frames(image, header, names) {
                        Err(failure) => Err(failure),
                        Ok(frames) => Ok(Loaded { functions, lines, frames }),
                    },
                },
            },
        },
    }
}

/// Whether `data` holds what the object file `image` holds, or `error` says
/// why the image cannot be loaded.
pub open spec fn loaded_from(outcome: Result<DwarfData, DwarfError>, image: Seq<u8>) -> bool {
    match load(image) {
        Ok(loaded) => {
            &&& outcome matches Ok(data)
            &&& data.wf()
            &&& data.functions() == loaded.functions
            &&& data.lines() == loaded.lines
            &&& data.frames() == loaded.frames
        },
        Err(LoadFailure::Object(e)) => outcome matches Err(
            DwarfError::DwarfFormatError(FormatCause::Object(f)),
        ) && f == e,
        Err(LoadFailure::Debug) => outcome matches Err(
            DwarfError::DwarfFormatError(FormatCause::Decoder(_)),
        ),
        Err(LoadFailure::LineOperand) => outcome matches Err(
            DwarfError::DwarfFormatError(FormatCause::LineOperand),
        ),
    }
}

impl DwarfData {
    /// Loads the symbol table from the contents of the program's file.
    /// `contents` is `None` where the file could not be read: that gives
    /// `ErrorOpeningFile`. Every fault of the contents gives
    /// `DwarfFormatError` with its cause. An image that is no 64-bit
    /// little-endian ELF file, that lacks the symbol table or the line-number
    /// section, or whose tables or sections lie outside it has the cause
    /// `Object`; a line-number section or a frame section that cannot be
    /// decoded, or a line-number program in which the name of a file cannot
    /// be read, has the cause `Decoder` with the decoder's error; a
    /// line-number program that holds an operand out of range has the cause
    /// `LineOperand`.
    pub fn from_file(contents: Option<&[u8]>) -> (outcome: Result<DwarfData, DwarfError>)
        ensures
            match contents {
                Some(image) => loaded_from(outcome, image@),
                None => outcome matches Err(DwarfError::ErrorOpeningFile),
            },
    {
        let image = match contents {
            Some(image) => image,
            None => {
                return Err(DwarfError::ErrorOpeningFile);
            },
        };
        let header = match parse_header(image) {
            Ok(header) => header,
            Err(e) => {
                return Err(DwarfError::DwarfFormatError(FormatCause::Object(e)));
            },
        };
        let names = match read_names(image, &header) {
            Ok(names) => names,
            Err(e) => {
                return Err(DwarfError::DwarfFormatError(FormatCause::Object(e)));
            },
        };
        let (symtab, symbols) = match find_data(image, &header, names, ".symtab".as_bytes()) {
            Ok(Some(found)) => found,
            Ok(None) => {
                return Err(DwarfError::DwarfFormatError(FormatCause::Object(ElfError::MissingSection)));
            },
            Err(e) => {
                return Err(DwarfError::DwarfFormatError(FormatCause::Object(e)));
            },
        };
        let strings = match read_data(image, &header, symtab.link) {
            Ok(strings) => strings,
            Err(e) => {
                return Err(DwarfError::DwarfFormatError(FormatCause::Object(e)));
            },
        };
        let lines = match find_data(image, &header, names, ".debug_line".as_bytes()) {
            Ok(Some((_, lines))) => lines,
            Ok(None) => {
                return Err(DwarfError::DwarfFormatError(FormatCause::Object(ElfError::MissingSection)));
            },
            Err(e) => {
                return Err(DwarfError::DwarfFormatError(FormatCause::Object(e)));
            },
        };
        let line_names = match find_data(image, &header, names, ".debug_str".as_bytes()) {
            Ok(Some((_, data))) => slice_to_vec(data),
            Ok(None) => Vec::new(),
            Err(e) => {
                return Err(DwarfError::DwarfFormatError(FormatCause::Object(e)));
            },
        };
        let line_strings = match find_data(image, &header, names, ".debug_line_str".as_bytes()) {
            Ok(Some((_, data))) => slice_to_vec(data),
            Ok(None) => Vec::new(),
            Err(e) => {
                return Err(DwarfError::DwarfFormatError(FormatCause::Object(e)));
            },
        };
        let mut data = DwarfData::new();
        load_functions(&mut data, symbols, strings);
        match load_lines(&mut data, lines, line_names.as_slice(), line_strings.as_slice()) {
            Ok(()) => {},
            Err(e) => {
                return Err(e);
            },
        }
        match find_data(image, &header, names, ".eh_frame".as_bytes()) {
            Ok(Some((section, frames))) => match load_frames(&mut data, frames, section.address) {
                Ok(()) => {},
                Err(e) => {
                    return Err(e);
                },
            },
            Ok(None) => {},
            Err(e) => {
                return Err(DwarfError::DwarfFormatError(FormatCause::Object(e)));
            },
        }
        proof {
            use_type_invariant(&data);
        }
        Ok(data)
    }
}

/// The function table that is made of symbols is sorted by address and free
/// of overlap.
pub proof fn lemma_functions_sorted(
    table: Seq<u8>,
    strings: Seq<u8>,
    base: Seq<FunctionEntry>,
    count: int,
)
    requires
        well_formed(base),
    ensures
        well_formed(functions_of(table, strings, base, count)),
    decreases count,
{
    if count > 0 {
        lemma_functions_sorted(table, strings, base, count - 1);
        let before = functions_of(table, strings, base, count - 1);
        match function_entry_of(symbol_at(table, count - 1), strings) {
            Some(entry) => {
                lemma_place_well_formed(before, entry);
            },
            None => {},
        }
    }
}

/// A function symbol that overlaps none of the functions kept before it
/// resolves over its whole range: every address from its start up to its
/// end is found in the table that is made of the symbols, with its name. Of
/// two function symbols that overlap, only the earlier one is kept.
pub proof fn lemma_function_resolves(
    table: Seq<u8>,
    strings: Seq<u8>,
    base: Seq<FunctionEntry>,
    i: int,
    count: int,
    addr: u64,
) -> (k: int)
    requires
        well_formed(base),
        0 <= i < count,
        function_entry_of(symbol_at(table, i), strings).is_some(),
        admits(
            functions_of(table, strings, base, i),
            &function_entry_of(symbol_at(table, i), strings).unwrap(),
        ),
        covers(&function_entry_of(symbol_at(table, i), strings).unwrap(), addr),
    ensures
        index_of(functions_of(table, strings, base, count), addr) == Some(k),
        0 <= k < functions_of(table, strings, base, count).len(),
        functions_of(table, strings, base, count)[k] == function_entry_of(
            symbol_at(table, i),
            strings,
        ).unwrap(),
{
    let entry = function_entry_of(symbol_at(table, i), strings).unwrap();
    lemma_function_kept(table, strings, base, i, count);
    lemma_functions_sorted(table, strings, base, count);
    lemma_record_found(functions_of(table, strings, base, count), entry, addr)
}

/// A function symbol that overlaps none of the functions kept before it is
/// in the table that is made of the symbols.
pub proof fn lemma_function_kept(
    table: Seq<u8>,
    strings: Seq<u8>,
    base: Seq<FunctionEntry>,
    i: int,
    count: int,
)
    requires
        well_formed(base),
        0 <= i < count,
        function_entry_of(symbol_at(table, i), strings).is_some(),
        admits(
            functions_of(table, strings, base, i),
            &function_entry_of(symbol_at(table, i), strings).unwrap(),
        ),
    ensures
        functions_of(table, strings, base, count).contains(
            function_entry_of(symbol_at(table, i), strings).unwrap(),
        ),
    decreases count,
{
    let entry = function_entry_of(symbol_at(table, i), strings).unwrap();
    let before = functions_of(table, strings, base, count - 1);
    lemma_functions_sorted(table, strings, base, count - 1);
    if i == count - 1 {
        lemma_place_holds(before, entry, entry);
    } else {
        lemma_function_kept(table, strings, base, i, count - 1);
        match function_entry_of(symbol_at(table, count - 1), strings) {
            Some(later) => {
                lemma_place_holds(before, later, entry);
            },
            None => {},
        }
    }
}

} // verus!
