//! The object file: a 64-bit little-endian ELF image, read as far as the
//! debugger needs it — the section table, the section names, and the bytes of
//! a section.

use crate::bytes::{le_u16, le_u32, le_u64, read_u16, read_u32, read_u64};
use vstd::prelude::*;
use vstd::slice::slice_subrange;

verus! {

/// The size of the ELF header, and of one entry of the section table.
pub const HEADER_SIZE: usize = 64;

/// The size that an entry of the section table has at least.
pub const SECTION_ENTRY_SIZE: u16 = 64;

/// Why an image is no object file that the debugger can read.
#[derive(Clone, Copy, Debug, PartialEq, Eq)]
pub enum ElfError {
    /// The image does not start with an ELF header.
    NotElf,
    /// The image is an ELF file of another kind than 64-bit little-endian.
    Unsupported,
    /// A table or a section lies outside the image.
    Truncated,
    /// The image has no symbol table or no line-number section.
    MissingSection,
}

/// What the ELF header says of the section table.
#[derive(Clone, Copy, Debug, PartialEq, Eq)]
pub struct ElfHeader {
    /// The offset of the section table in the image.
    pub section_table: u64,
    /// The size of one entry of the section table.
    pub entry_size: u16,
    /// The number of entries of the section table.
    pub count: u16,
    /// The index of the section that holds the sections' names.
    pub names_index: u16,
}

/// One entry of the section table.
#[derive(Clone, Copy, Debug, PartialEq, Eq)]
pub struct Section {
    /// The offset of the section's name in the section of names.
    pub name: u32,
    /// The index of a section that this one refers to.
    pub link: u32,
    /// The address at which the section is loaded.
    pub address: u64,
    /// The offset of the section's bytes in the image.
    pub offset: u64,
    /// The number of the section's bytes.
    pub size: u64,
}

/// Whether the image starts with the four bytes that mark an ELF file.
pub open spec fn has_magic(image: Seq<u8>) -> bool {
    &&& image.len() >= HEADER_SIZE
    &&& image[0] == 0x7f
    &&& image[1] == 0x45
    &&& image[2] == 0x4c
    &&& image[3] == 0x46
}

/// The header of `image`: `NotElf` where the image is shorter than a header
/// or lacks the mark, `Unsupported` where it is not 64-bit little-endian.
pub open spec fn header_of(image: Seq<u8>) -> Result<ElfHeader, ElfError> {
    if !has_magic(image) {
        Err(ElfError::NotElf)
    } else if image[4] != 2 || image[5] != 1 {
        Err(ElfError::Unsupported)
    } else {
        Ok(
            ElfHeader {
                section_table: le_u64(image, 0x28) as u64,
                entry_size: le_u16(image, 0x3a) as u16,
                count: le_u16(image, 0x3c) as u16,
                names_index: le_u16(image, 0x3e) as u16,
            },
        )
    }
}

/// The offset in the image of entry `index` of the section table.
pub open spec fn entry_offset(header: ElfHeader, index: int) -> int {
    header.section_table + index * header.entry_size
}

/// Entry `index` of the section table: `Truncated` where the entries are too
/// small or the entry lies outside the image.
pub open spec fn section_at(image: Seq<u8>, header: ElfHeader, index: int) -> Result<
    Section,
    ElfError,
> {
    let at = entry_offset(header, index);
    if header.entry_size >= SECTION_ENTRY_SIZE && at + SECTION_ENTRY_SIZE <= image.len() {
        Ok(
            Section {
                name: le_u32(image, at) as u32,
                link: le_u32(image, at + 0x28) as u32,
                address: le_u64(image, at + 0x10) as u64,
                offset: le_u64(image, at + 0x18) as u64,
                size: le_u64(image, at + 0x20) as u64,
            },
        )
    } else {
        Err(ElfError::Truncated)
    }
}

/// The bytes of a section: `None` where they do not lie inside the image.
pub open spec fn section_data(image: Seq<u8>, section: Section) -> Option<Seq<u8>> {
    if section.offset + section.size <= image.len() {
        Some(image.subrange(section.offset as int, section.offset + section.size))
    } else {
        None
    }
}

/// The index of the first zero byte of `data` from `from` on; the length of
/// `data` where there is none.
pub open spec fn terminator(data: Seq<u8>, from: int) -> int
    decreases data.len() - from,
{
    if from < 0 || from >= data.len() {
        data.len() as int
    } else if data[from] == 0 {
        from
    } else {
        terminator(data, from + 1)
    }
}

/// The zero-terminated string that starts at `at` in `data`, without its
/// terminator: `None` where `at` lies outside `data` or no zero follows.
pub open spec fn text_at(data: Seq<u8>, at: int) -> Option<Seq<u8>> {
    if 0 <= at < data.len() && terminator(data, at) < data.len() {
        Some(data.subrange(at, terminator(data, at)))
    } else {
        None
    }
}

/// The header of `image`.
pub fn parse_header(image: &[u8]) -> (header: Result<ElfHeader, ElfError>)
    ensures
        header == header_of(image@),
{
    if image.len() < HEADER_SIZE {
        return Err(ElfError::NotElf);
    }
    if image[0] != 0x7f || image[1] != 0x45 || image[2] != 0x4c || image[3] != 0x46 {
        return Err(ElfError::NotElf);
    }
    if image[4] != 2 || image[5] != 1 {
        return Err(ElfError::Unsupported);
    }
    let section_table = read_u64(image, 0x28);
    let entry_size = read_u16(image, 0x3a);
    let count = read_u16(image, 0x3c);
    let names_index = read_u16(image, 0x3e);
    match (section_table, entry_size, count, names_index) {
        (Some(section_table), Some(entry_size), Some(count), Some(names_index)) => Ok(
            ElfHeader { section_table, entry_size, count, names_index },
        ),
        _ => Err(ElfError::NotElf),
    }
}

/// Entry `index` of the section table of `image`.
pub fn read_section(image: &[u8], header: &ElfHeader, index: u16) -> (section: Result<
    Section,
    ElfError,
>)
    ensures
        section == section_at(image@, *header, index as int),
{
    if header.entry_size < SECTION_ENTRY_SIZE {
        return Err(ElfError::Truncated);
    }
    assert(index * header.entry_size <= 0xffff * 0xffff) by (nonlinear_arith)
        requires
            0 <= index <= 0xffff,
            0 <= header.entry_size <= 0xffff,
    ;
    let within = (index as u64) * (header.entry_size as u64);
    assert(within == index * header.entry_size);
    let at = match header.section_table.checked_add(within) {
        Some(at) => at,
        None => {
            let length = image.len();
            assert(length <= u64::MAX);
            return Err(ElfError::Truncated);
        },
    };
    if at > image.len() as u64 || image.len() as u64 - at < SECTION_ENTRY_SIZE as u64 {
        return Err(ElfError::Truncated);
    }
    let at = at as usize;
    let name = read_u32(image, at);
    let link = read_u32(image, at + 0x28);
    let address = read_u64(image, at + 0x10);
    let offset = read_u64(image, at + 0x18);
    let size = read_u64(image, at + 0x20);
    match (name, link, address, offset, size) {
        (Some(name), Some(link), Some(address), Some(offset), Some(size)) => Ok(
            Section { name, link, address, offset, size },
        ),
        _ => Err(ElfError::Truncated),
    }
}

/// The bytes of `section` in `image`.
pub fn section_bytes<'a>(image: &'a [u8], section: &Section) -> (data: Option<&'a [u8]>)
    ensures
        match data {
            Some(bytes) => section_data(image@, *section) == Some(bytes@),
            None => section_data(image@, *section).is_none(),
        },
{
    let end = match section.offset.checked_add(section.size) {
        Some(end) => end,
        None => {
            let length = image.len();
            assert(length <= u64::MAX);
            return None;
        },
    };
    if end > image.len() as u64 {
        return None;
    }
    Some(slice_subrange(image, section.offset as usize, end as usize))
}

/// The index of the first zero byte of `data` from `from` on.
pub fn find_terminator(data: &[u8], from: usize) -> (end: usize)
    ensures
        end == terminator(data@, from as int),
{
    let mut i = from;
    while i < data.len() && data[i] != 0
        invariant
            from <= i,
            terminator(data@, from as int) == terminator(data@, i as int),
        decreases data@.len() - i,
    {
        i += 1;
    }
    if i >= data.len() {
        data.len()
    } else {
        i
    }
}

/// The zero-terminated string that starts at `at` in `data`.
pub fn read_text<'a>(data: &'a [u8], at: usize) -> (text: Option<&'a [u8]>)
    ensures
        match text {
            Some(bytes) => text_at(data@, at as int) == Some(bytes@),
            None => text_at(data@, at as int).is_none(),
        },
{
    if at >= data.len() {
        return None;
    }
    let end = find_terminator(data, at);
    if end >= data.len() {
        return None;
    }
    proof {
        lemma_terminator_bounds(data@, at as int);
    }
    Some(slice_subrange(data, at, end))
}

/// The terminator is not before the place from which it is sought.
pub proof fn lemma_terminator_bounds(data: Seq<u8>, from: int)
    requires
        0 <= from <= data.len(),
    ensures
        from <= terminator(data, from) <= data.len(),
    decreases data.len() - from,
{
    if from < data.len() && data[from] != 0 {
        lemma_terminator_bounds(data, from + 1);
    }
}

/// Whether two byte strings are the same.
pub fn same_bytes(a: &[u8], b: &[u8]) -> (same: bool)
    ensures
        same == (a@ == b@),
{
    if a.len() != b.len() {
        return false;
    }
    let mut i: usize = 0;
    while i < a.len()
        invariant
            a@.len() == b@.len(),
            i <= a@.len(),
            forall|k: int| 0 <= k < i ==> a@[k] == b@[k],
        decreases a@.len() - i,
    {
        if a[i] != b[i] {
            return false;
        }
        i += 1;
    }
    assert(a@ =~= b@);
    true
}

/// The bytes of the section that holds the sections' names.
pub open spec fn names_of(image: Seq<u8>, header: ElfHeader) -> Result<Seq<u8>, ElfError> {
    if header.names_index >= header.count {
        Err(ElfError::Truncated)
    } else {
        match section_at(image, header, header.names_index as int) {
            Ok(section) => match section_data(image, section) {
                Some(data) => Ok(data),
                None => Err(ElfError::Truncated),
            },
            Err(e) => Err(e),
        }
    }
}

/// The first section from index `from` on whose name in `strings` is `name`:
/// `None` where there is none, an error where an entry before it cannot be
/// read.
pub open spec fn section_named(
    image: Seq<u8>,
    header: ElfHeader,
    strings: Seq<u8>,
    name: Seq<u8>,
    from: int,
) -> Result<Option<Section>, ElfError>
    decreases header.count - from,
{
    if from >= header.count {
        Ok(None)
    } else {
        match section_at(image, header, from) {
            Ok(section) => {
                if text_at(strings, section.name as int) == Some(name) {
                    Ok(Some(section))
                } else {
                    section_named(image, header, strings, name, from + 1)
                }
            },
            Err(e) => Err(e),
        }
    }
}

/// The bytes of the section that holds the sections' names.
pub fn read_names<'a>(image: &'a [u8], header: &ElfHeader) -> (names: Result<&'a [u8], ElfError>)
    ensures
        match names {
            Ok(data) => names_of(image@, *header) == Ok::<Seq<u8>, ElfError>(data@),
            Err(e) => names_of(image@, *header) == Err::<Seq<u8>, ElfError>(e),
        },
{
    if header.names_index >= header.count {
        return Err(ElfError::Truncated);
    }
    let section = match read_section(image, header, header.names_index) {
        Ok(section) => section,
        Err(e) => {
            return Err(e);
        },
    };
    match section_bytes(image, &section) {
        Some(data) => Ok(data),
        None => Err(ElfError::Truncated),
    }
}

/// The first section of `image` whose name in `strings` is `name`.
pub fn find_section(image: &[u8], header: &ElfHeader, strings: &[u8], name: &[u8]) -> (found:
    Result<Option<Section>, ElfError>)
    ensures
        found == section_named(image@, *header, strings@, name@, 0),
{
    let mut index: u16 = 0;
    while index < header.count
        invariant
            index <= header.count,
            section_named(image@, *header, strings@, name@, 0) == section_named(
                image@,
                *header,
                strings@,
                name@,
                index as int,
            ),
        decreases header.count - index,
    {
        let section = match read_section(image, header, index) {
            Ok(section) => section,
            Err(e) => {
                return Err(e);
            },
        };
        match read_text(strings, section.name as usize) {
            Some(text) => {
                if same_bytes(text, name) {
                    return Ok(Some(section));
                }
            },
            None => {},
        }
        index += 1;
    }
    Ok(None)
}

/// The size of one entry of a symbol table.
pub const SYMBOL_SIZE: usize = 24;

/// The kind of the symbols that stand for functions.
pub const FUNCTION_KIND: u8 = 2;

/// One entry of a symbol table.
#[derive(Clone, Copy, Debug, PartialEq, Eq)]
pub struct Symbol {
    /// The offset of the symbol's name in the table's strings.
    pub name: u32,
    /// What the symbol stands for.
    pub kind: u8,
    /// The symbol's address.
    pub value: u64,
    /// The number of bytes that the symbol covers.
    pub size: u64,
}

/// The number of whole entries of a symbol table.
pub open spec fn symbol_count(table: Seq<u8>) -> int {
    table.len() as int / SYMBOL_SIZE as int
}

/// Entry `index` of a symbol table.
pub open spec fn symbol_at(table: Seq<u8>, index: int) -> Symbol {
    let at = index * SYMBOL_SIZE;
    Symbol {
        name: le_u32(table, at) as u32,
        kind: (table[at + 4] % 16) as u8,
        value: le_u64(table, at + 8) as u64,
        size: le_u64(table, at + 16) as u64,
    }
}

/// Entry `index` of a symbol table: `None` where the table has no such entry.
pub fn read_symbol(table: &[u8], index: usize) -> (symbol: Option<Symbol>)
    ensures
        symbol == (if index < symbol_count(table@) {
            Some(symbol_at(table@, index as int))
        } else {
            None::<Symbol>
        }),
{
    if index >= table.len() / SYMBOL_SIZE {
        return None;
    }
    let at = index * SYMBOL_SIZE;
    let name = read_u32(table, at);
    let kind = table[at + 4] % 16;
    let value = read_u64(table, at + 8);
    let size = read_u64(table, at + 16);
    match (name, value, size) {
        (Some(name), Some(value), Some(size)) => Some(Symbol { name, kind, value, size }),
        _ => None,
    }
}

/// The bytes of the section with index `index`: `Truncated` where the table
/// has no such entry or the bytes lie outside the image.
pub open spec fn data_at(image: Seq<u8>, header: ElfHeader, index: int) -> Result<
    Seq<u8>,
    ElfError,
> {
    if index < 0 || index >= header.count {
        Err(ElfError::Truncated)
    } else {
        match section_at(image, header, index) {
            Ok(section) => match section_data(image, section) {
                Some(data) => Ok(data),
                None => Err(ElfError::Truncated),
            },
            Err(e) => Err(e),
        }
    }
}

/// The first section whose name in `strings` is `name`, with its bytes:
/// `None` where there is none, `Truncated` where its bytes lie outside the
/// image.
pub open spec fn named_data(image: Seq<u8>, header: ElfHeader, strings: Seq<u8>, name: Seq<u8>) -> Result<
    Option<(Section, Seq<u8>)>,
    ElfError,
> {
    match section_named(image, header, strings, name, 0) {
        Ok(Some(section)) => match section_data(image, section) {
            Some(data) => Ok(Some((section, data))),
            None => Err(ElfError::Truncated),
        },
        Ok(None) => Ok(None),
        Err(e) => Err(e),
    }
}

/// The bytes of the section with index `index`.
pub fn read_data<'a>(image: &'a [u8], header: &ElfHeader, index: u32) -> (data: Result<
    &'a [u8],
    ElfError,
>)
    ensures
        match data {
            Ok(bytes) => data_at(image@, *header, index as int) == Ok::<Seq<u8>, ElfError>(bytes@),
            Err(e) => data_at(image@, *header, index as int) == Err::<Seq<u8>, ElfError>(e),
        },
{
    if index >= header.count as u32 {
        return Err(ElfError::Truncated);
    }
    let section = match read_section(image, header, index as u16) {
        Ok(section) => section,
        Err(e) => {
            return Err(e);
        },
    };
    match section_bytes(image, &section) {
        Some(data) => Ok(data),
        None => Err(ElfError::Truncated),
    }
}

/// The first section of `image` whose name in `strings` is `name`, with its
/// bytes.
pub fn find_data<'a>(image: &'a [u8], header: &ElfHeader, strings: &[u8], name: &[u8]) -> (found:
    Result<Option<(Section, &'a [u8])>, ElfError>)
    ensures
        match found {
            Ok(Some((section, data))) => named_data(image@, *header, strings@, name@) == Ok::<
                Option<(Section, Seq<u8>)>,
                ElfError,
            >(Some((section, data@))),
            Ok(None) => named_data(image@, *header, strings@, name@) == Ok::<
                Option<(Section, Seq<u8>)>,
                ElfError,
            >(None),
            Err(e) => named_data(image@, *header, strings@, name@) == Err::<
                Option<(Section, Seq<u8>)>,
                ElfError,
            >(e),
        },
{
    match find_section(image, header, strings, name) {
        Ok(Some(section)) => match section_bytes(image, &section) {
            Some(data) => Ok(Some((section, data))),
            None => Err(ElfError::Truncated),
        },
        Ok(None) => Ok(None),
        Err(e) => Err(e),
    }
}

} // verus!
