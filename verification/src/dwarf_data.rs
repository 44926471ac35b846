//! The symbol table of the debugged program: which function and which source
//! line an instruction belongs to, and how its frame is unwound.

use crate::elf::ElfError;
use crate::format::{decimal_digits, hex, hex_text, push_decimal_digits, texts};
use crate::frame_info::{offset_address, shifted, BaseRegister, FrameRecord, UnwindRule};
use crate::table::{
    admits, covered, covers, find, index_of, insert, lemma_index_of, lemma_map_lookup,
    lemma_map_place, lemma_map_well_formed, place, well_formed, Ranged, Span,
};
use vstd::prelude::*;
use vstd::string::StringExecFns;

verus! {

/// Why the debug information of a file cannot be had.
#[derive(Debug)]
pub enum FormatCause {
    /// The file is no object file that holds debug information: it is no
    /// ELF image of the kind that is read, it lacks a section that is needed,
    /// or a table or a section lies outside it.
    Object(ElfError),
    /// A debug section could not be decoded; the error is the decoder's own.
    Decoder(gimli::read::Error),
    /// A line-number program holds an operand out of range: an advance of
    /// the line by the lowest amount of all, or a file index of more than 32
    /// bits.
    LineOperand,
}

/// Why the symbol table of a program could not be loaded.
#[derive(Debug)]
pub enum DwarfError {
    /// The program's file could not be read.
    ErrorOpeningFile,
    /// The file does not hold debug information that can be read. Every
    /// fault of the file's contents comes under this variant, with its cause:
    /// one of the object file itself as well as one of a debug section.
    DwarfFormatError(FormatCause),
}

/// A function of the program and the addresses of its instructions, from
/// `start` up to, not including, `end`.
#[derive(Debug)]
pub struct FunctionRecord {
    pub name: String,
    pub start: u64,
    pub end: u64,
}

/// What a function record says: the name's characters and the range.
pub struct FunctionEntry {
    pub name: Seq<char>,
    pub start: u64,
    pub end: u64,
}

impl View for FunctionRecord {
    type V = FunctionEntry;

    open spec fn view(&self) -> FunctionEntry {
        FunctionEntry { name: self.name@, start: self.start, end: self.end }
    }
}

impl Span for FunctionRecord {
    open spec fn lo(&self) -> u64 {
        self.start
    }

    open spec fn hi(&self) -> u64 {
        self.end
    }
}

impl Span for FunctionEntry {
    open spec fn lo(&self) -> u64 {
        self.start
    }

    open spec fn hi(&self) -> u64 {
        self.end
    }
}

impl Ranged for FunctionRecord {
    fn start(&self) -> u64 {
        self.start
    }

    fn end(&self) -> u64 {
        self.end
    }
}

/// A range of instructions, from `start` up to, not including, `end`, that
/// was compiled from line `line` of the source file `file`.
#[derive(Debug)]
pub struct LineRecord {
    pub start: u64,
    pub end: u64,
    pub file: String,
    pub line: u64,
}

/// What a line record says: the range, the file name's characters and the
/// line.
pub struct LineEntry {
    pub start: u64,
    pub end: u64,
    pub file: Seq<char>,
    pub line: u64,
}

impl View for LineRecord {
    type V = LineEntry;

    open spec fn view(&self) -> LineEntry {
        LineEntry { start: self.start, end: self.end, file: self.file@, line: self.line }
    }
}

impl Span for LineRecord {
    open spec fn lo(&self) -> u64 {
        self.start
    }

    open spec fn hi(&self) -> u64 {
        self.end
    }
}

impl Span for LineEntry {
    open spec fn lo(&self) -> u64 {
        self.start
    }

    open spec fn hi(&self) -> u64 {
        self.end
    }
}

impl Ranged for LineRecord {
    fn start(&self) -> u64 {
        self.start
    }

    fn end(&self) -> u64 {
        self.end
    }
}

/// The map from a function record to what it says.
pub open spec fn function_entry() -> spec_fn(FunctionRecord) -> FunctionEntry {
    |r: FunctionRecord| r@
}

/// The map from a line record to what it says.
pub open spec fn line_entry() -> spec_fn(LineRecord) -> LineEntry {
    |r: LineRecord| r@
}

/// The lookup tables of one program: its functions, its source lines and its
/// unwind rules. Each table is sorted by address and free of overlap at all
/// times.
pub struct DwarfData {
    functions: Vec<FunctionRecord>,
    lines: Vec<LineRecord>,
    frames: Vec<FrameRecord>,
}

impl DwarfData {
    /// The invariant: each table is sorted by start address, and no two
    /// records of a table overlap.
    #[verifier::type_invariant]
    pub closed spec fn wf(&self) -> bool {
        &&& well_formed(self.functions@)
        &&& well_formed(self.lines@)
        &&& well_formed(self.frames@)
    }

    /// The function table, by ascending address.
    pub closed spec fn functions(&self) -> Seq<FunctionEntry> {
        self.functions@.map_values(function_entry())
    }

    /// The line table, by ascending address.
    pub closed spec fn lines(&self) -> Seq<LineEntry> {
        self.lines@.map_values(line_entry())
    }

    /// The table of unwind rules, by ascending address.
    pub closed spec fn frames(&self) -> Seq<FrameRecord> {
        self.frames@
    }

    /// The name of the function that contains `addr`.
    pub open spec fn function_at(&self, addr: u64) -> Option<Seq<char>> {
        match index_of(self.functions(), addr) {
            Some(i) => Some(self.functions()[i].name),
            None => None,
        }
    }

    /// The source file and line that `addr` was compiled from.
    pub open spec fn line_at(&self, addr: u64) -> Option<(Seq<char>, u64)> {
        match index_of(self.lines(), addr) {
            Some(i) => Some((self.lines()[i].file, self.lines()[i].line)),
            None => None,
        }
    }

    /// The unwind rule that holds for the instruction at `addr`.
    pub open spec fn rule_at(&self, addr: u64) -> Option<UnwindRule> {
        match index_of(self.frames(), addr) {
            Some(i) => Some(self.frames()[i].rule),
            None => None,
        }
    }

    /// The empty tables.
    pub fn new() -> (data: DwarfData)
        ensures
            data.wf(),
            data.functions() == Seq::<FunctionEntry>::empty(),
            data.lines() == Seq::<LineEntry>::empty(),
            data.frames() == Seq::<FrameRecord>::empty(),
    {
        let data = DwarfData { functions: Vec::new(), lines: Vec::new(), frames: Vec::new() };
        assert(data.functions() =~= Seq::<FunctionEntry>::empty());
        assert(data.lines() =~= Seq::<LineEntry>::empty());
        data
    }

    /// Adds a function where it belongs by address. A record that is empty
    /// or overlaps a function of the table is not added; the result says
    /// whether it was.
    pub fn add_function(&mut self, record: FunctionRecord) -> (added: bool)
        ensures
            final(self).wf(),
            added == admits(old(self).functions(), &record@),
            final(self).functions() == place(old(self).functions(), record@),
            final(self).lines() == old(self).lines(),
            final(self).frames() == old(self).frames(),
    {
        proof {
            use_type_invariant(&*self);
        }
        let mut functions = Vec::new();
        std::mem::swap(&mut functions, &mut self.functions);
        proof {
            lemma_map_place(functions@, record, function_entry());
        }
        let added = insert(&mut functions, record);
        self.functions = functions;
        added
    }

    /// Adds a line record where it belongs by address. A record that is
    /// empty or overlaps a record of the table is not added; the result says
    /// whether it was.
    pub fn add_line(&mut self, record: LineRecord) -> (added: bool)
        ensures
            final(self).wf(),
            added == admits(old(self).lines(), &record@),
            final(self).lines() == place(old(self).lines(), record@),
            final(self).functions() == old(self).functions(),
            final(self).frames() == old(self).frames(),
    {
        proof {
            use_type_invariant(&*self);
        }
        let mut lines = Vec::new();
        std::mem::swap(&mut lines, &mut self.lines);
        proof {
            lemma_map_place(lines@, record, line_entry());
        }
        let added = insert(&mut lines, record);
        self.lines = lines;
        added
    }

    /// Adds an unwind rule where it belongs by address. A record that is
    /// empty or overlaps a record of the table is not added; the result says
    /// whether it was.
    pub fn add_frame(&mut self, record: FrameRecord) -> (added: bool)
        ensures
            final(self).wf(),
            added == admits(old(self).frames(), &record),
            final(self).frames() == place(old(self).frames(), record),
            final(self).functions() == old(self).functions(),
            final(self).lines() == old(self).lines(),
    {
        proof {
            use_type_invariant(&*self);
        }
        let mut frames = Vec::new();
        std::mem::swap(&mut frames, &mut self.frames);
        let added = insert(&mut frames, record);
        self.frames = frames;
        added
    }

    /// The name of the function that contains `addr`: `None` where `addr`
    /// lies outside every function of the table.
    pub fn get_function_from_addr(&self, addr: u64) -> (name: Option<&str>)
        ensures
            match name {
                Some(n) => self.function_at(addr) == Some(n@),
                None => self.function_at(addr).is_none(),
            },
            name.is_some() == covered(self.functions(), addr),
    {
        proof {
            use_type_invariant(self);
            lemma_map_lookup(self.functions@, function_entry(), addr);
        }
        match find(&self.functions, addr) {
            Some(i) => Some(self.functions[i].name.as_str()),
            None => None,
        }
    }

    /// The source file and line of the instruction at `addr`: `None` where the
    /// line table has a gap at `addr`.
    pub fn get_line_from_addr(&self, addr: u64) -> (place: Option<(&str, u64)>)
        ensures
            match place {
                Some((file, line)) => self.line_at(addr) == Some((file@, line)),
                None => self.line_at(addr).is_none(),
            },
            place.is_some() == covered(self.lines(), addr),
    {
        proof {
            use_type_invariant(self);
            lemma_map_lookup(self.lines@, line_entry(), addr);
        }
        match find(&self.lines, addr) {
            Some(i) => Some((self.lines[i].file.as_str(), self.lines[i].line)),
            None => None,
        }
    }

    /// The function, the source file and the line of the instruction at
    /// `addr`, each as far as the tables know it.
    pub fn get_function_and_line_from_addr(&self, addr: u64) -> (found: (
        Option<&str>,
        Option<&str>,
        Option<u64>,
    ))
        ensures
            match found.0 {
                Some(n) => self.function_at(addr) == Some(n@),
                None => self.function_at(addr).is_none(),
            },
            match (found.1, found.2) {
                (Some(file), Some(line)) => self.line_at(addr) == Some((file@, line)),
                (None, None) => self.line_at(addr).is_none(),
                _ => false,
            },
    {
        let function = self.get_function_from_addr(addr);
        match self.get_line_from_addr(addr) {
            Some((file, line)) => (function, Some(file), Some(line)),
            None => (function, None, None),
        }
    }

    /// The rule by which the frame of the instruction at `addr` is unwound,
    /// where the program's unwind metadata has one.
    pub fn frame_unwind_info(&self, addr: u64) -> (rule: Option<UnwindRule>)
        ensures
            rule == self.rule_at(addr),
            rule.is_some() == covered(self.frames(), addr),
    {
        proof {
            use_type_invariant(self);
        }
        match find(&self.frames, addr) {
            Some(i) => Some(self.frames[i].rule),
            None => None,
        }
    }
}

/// The address at which a frame starts, reckoned from the stack pointer
/// `frame_bottom` by `rule`: the base address that the rule gives where it
/// rests on the stack pointer and the sum is an address.
pub open spec fn frame_start(rule: Option<UnwindRule>, frame_bottom: u64) -> Option<u64> {
    match rule {
        Some(UnwindRule::Metadata { base: BaseRegister::StackPointer, offset, .. }) => {
            shifted(frame_bottom, offset as int)
        },
        _ => None,
    }
}

impl DwarfData {
    /// The address at which the frame of the instruction at `addr` starts,
    /// given the stack pointer `frame_bottom` at that instruction: `None`
    /// where the unwind metadata has no rule for `addr` that rests on the
    /// stack pointer, or where the rule leads out of the address space.
    pub fn get_frame_start_address(&self, addr: u64, frame_bottom: u64) -> (start: Option<u64>)
        ensures
            start == frame_start(self.rule_at(addr), frame_bottom),
    {
        match self.frame_unwind_info(addr) {
            Some(UnwindRule::Metadata { base: BaseRegister::StackPointer, offset, .. }) => {
                offset_address(frame_bottom, offset)
            },
            _ => None,
        }
    }
}

/// The line that shows a range of addresses and what stands there.
pub open spec fn range_line(start: u64, end: u64, what: Seq<char>) -> Seq<char> {
    hex_text(start as nat) + " - "@ + hex_text(end as nat) + " : "@ + what
}

/// The line that shows a function: its range and its name.
pub open spec fn function_line(entry: FunctionEntry) -> Seq<char> {
    range_line(entry.start, entry.end, entry.name)
}

/// The line that shows a line record: its range, then the file and the line.
pub open spec fn source_line(entry: LineEntry) -> Seq<char> {
    range_line(entry.start, entry.end, entry.file + ":"@ + decimal_digits(entry.line as nat))
}

/// What `print` shows: a line for each function, then a line for each line
/// record, each table by ascending address.
pub open spec fn listing(functions: Seq<FunctionEntry>, lines: Seq<LineEntry>) -> Seq<Seq<char>> {
    Seq::new(
        functions.len() + lines.len(),
        |i: int|
            if i < functions.len() {
                function_line(functions[i])
            } else {
                source_line(lines[i - functions.len()])
            },
    )
}

/// The start of the first function of the table with the name `name`.
pub open spec fn address_of(functions: Seq<FunctionEntry>, name: Seq<char>) -> Option<u64>
    decreases functions.len(),
{
    if functions.len() == 0 {
        None
    } else if functions[0].name == name {
        Some(functions[0].start)
    } else {
        address_of(functions.drop_first(), name)
    }
}

/// The line that shows a range of addresses and what stands there.
fn format_range(start: u64, end: u64, what: &str) -> (text: String)
    ensures
        text@ == range_line(start, end, what@),
{
    let mut text = hex(start);
    text.append(" - ");
    text.append(hex(end).as_str());
    text.append(" : ");
    text.append(what);
    assert(text@ =~= range_line(start, end, what@));
    text
}

impl DwarfData {
    /// The lines that show the tables: one for each function, then one for
    /// each line record.
    pub fn print(&self) -> (shown: Vec<String>)
        ensures
            texts(shown@) == listing(self.functions(), self.lines()),
    {
        let mut shown: Vec<String> = Vec::new();
        let mut i: usize = 0;
        while i < self.functions.len()
            invariant
                i <= self.functions@.len(),
                shown@.len() == i,
                forall|k: int|
                    0 <= k < i ==> (#[trigger] shown@[k])@ == function_line(self.functions@[k]@),
            decreases self.functions@.len() - i,
        {
            let record = &self.functions[i];
            shown.push(format_range(record.start, record.end, record.name.as_str()));
            i += 1;
        }
        let mut j: usize = 0;
        while j < self.lines.len()
            invariant
                i == self.functions@.len(),
                j <= self.lines@.len(),
                shown@.len() == i + j,
                forall|k: int|
                    0 <= k < i ==> (#[trigger] shown@[k])@ == function_line(self.functions@[k]@),
                forall|k: int|
                    0 <= k < j ==> (#[trigger] shown@[i + k])@ == source_line(self.lines@[k]@),
            decreases self.lines@.len() - j,
        {
            let record = &self.lines[j];
            let mut place = record.file.clone();
            place.append(":");
            push_decimal_digits(&mut place, record.line);
            assert(place@ =~= record.file@ + ":"@ + decimal_digits(record.line as nat));
            shown.push(format_range(record.start, record.end, place.as_str()));
            j += 1;
        }
        proof {
            let expected = listing(self.functions(), self.lines());
            assert(texts(shown@).len() == expected.len());
            assert forall|k: int| 0 <= k < expected.len() implies texts(shown@)[k]
                == expected[k] by {
                if k >= i {
                    assert(shown@[i + (k - i)]@ == source_line(self.lines@[k - i]@));
                } else {
                    assert(shown@[k]@ == function_line(self.functions@[k]@));
                }
            }
            assert(texts(shown@) =~= expected);
        }
        shown
    }

    /// The address at which the function `name` starts: that of the first
    /// function of the table with that name, `None` where there is none.
    pub fn get_addr_for_function(&self, name: &str) -> (address: Option<u64>)
        ensures
            address == address_of(self.functions(), name@),
    {
        let wanted = name.to_owned();
        let mut i: usize = 0;
        assert(self.functions().skip(0) =~= self.functions());
        while i < self.functions.len()
            invariant
                wanted@ == name@,
                i <= self.functions@.len(),
                address_of(self.functions(), name@) == address_of(
                    self.functions().skip(i as int),
                    name@,
                ),
            decreases self.functions@.len() - i,
        {
            let ghost rest = self.functions().skip(i as int);
            assert(rest[0] == self.functions@[i as int]@);
            assert(rest.drop_first() =~= self.functions().skip(i + 1));
            if self.functions[i].name == wanted {
                return Some(self.functions[i].start);
            }
            i += 1;
        }
        None
    }
}

/// The tables of a valid symbol table are sorted by address and free of
/// overlap.
pub proof fn lemma_tables_sorted(data: DwarfData)
    requires
        data.wf(),
    ensures
        well_formed(data.functions()),
        well_formed(data.lines()),
        well_formed(data.frames()),
{
    lemma_map_well_formed(data.functions@, function_entry());
    lemma_map_well_formed(data.lines@, line_entry());
}

/// Every address inside a function's range resolves to that function's name.
pub proof fn lemma_address_in_function(data: DwarfData, i: int, addr: u64)
    requires
        data.wf(),
        0 <= i < data.functions().len(),
        data.functions()[i].start <= addr < data.functions()[i].end,
    ensures
        data.function_at(addr) == Some(data.functions()[i].name),
{
    lemma_tables_sorted(data);
    lemma_index_of(data.functions(), addr, i);
}

/// An address outside the range of every function resolves to no function.
pub proof fn lemma_address_outside_functions(data: DwarfData, addr: u64)
    requires
        forall|i: int|
            0 <= i < data.functions().len() ==> !((#[trigger] data.functions()[i]).start <= addr
                < data.functions()[i].end),
    ensures
        data.function_at(addr).is_none(),
{
    assert forall|i: int| 0 <= i < data.functions().len() implies !covers(
        #[trigger] &data.functions()[i],
        addr,
    ) by {}
}

/// The address that a name resolves to lies in a function of that name: the
/// lookup by name and the lookup by address agree.
pub proof fn lemma_name_resolves_into_function(data: DwarfData, name: Seq<char>)
    requires
        data.wf(),
        address_of(data.functions(), name).is_some(),
    ensures
        data.function_at(address_of(data.functions(), name).unwrap()) == Some(name),
{
    lemma_tables_sorted(data);
    let i = lemma_address_of(data.functions(), name);
    lemma_index_of(data.functions(), data.functions()[i].start, i);
}

/// The name that resolves to an address is that of a function of the table,
/// and the address is where that function starts.
pub proof fn lemma_address_of(functions: Seq<FunctionEntry>, name: Seq<char>) -> (i: int)
    requires
        address_of(functions, name).is_some(),
    ensures
        0 <= i < functions.len(),
        functions[i].name == name,
        address_of(functions, name) == Some(functions[i].start),
    decreases functions.len(),
{
    if functions[0].name == name {
        0
    } else {
        let rest = functions.drop_first();
        let j = lemma_address_of(rest, name);
        assert(rest[j] == functions[j + 1]);
        j + 1
    }
}

} // verus!
