use deet::dwarf_data::{DwarfData, DwarfError, FormatCause};
use deet::elf::{
    find_section, parse_header, read_section, read_symbol, read_text, section_bytes, ElfError,
    ElfHeader, Section, Symbol,
};
use deet::frame_info::{BaseRegister, UnwindRule};
use deet::line_info::LineRow;
use deet::loader::{
    first_unreadable, function_from_symbol, line_from_rows, load_lines, load_rows,
    next_program, operands_fit,
};

fn symbol(name: u32, info: u8, value: u64, size: u64) -> Vec<u8> {
    let mut entry = Vec::new();
    entry.extend_from_slice(&name.to_le_bytes());
    entry.extend_from_slice(&[info, 0, 1, 0]);
    entry.extend_from_slice(&value.to_le_bytes());
    entry.extend_from_slice(&size.to_le_bytes());
    entry
}

fn symtab() -> Vec<u8> {
    let mut table = symbol(0, 0, 0, 0);
    table.extend(symbol(9, 0x12, 0x401020, 0x30)); // main
    table.extend(symbol(14, 0x11, 0x404000, 8)); // an object, not a function
    table.extend(symbol(1, 0x12, 0x401000, 0x20)); // compute
    table.extend(symbol(19, 0x12, 0x401050, 0)); // a function without extent
    table.extend(symbol(1, 0x02, 0x401010, 4)); // overlaps compute
    table
}

fn strtab() -> Vec<u8> {
    b"\0compute\0main\0data\0none\0".to_vec()
}

/// One line-number program: `main.c`, line 10 at 0x401000, line 11 at
/// 0x401004, the end of the sequence at 0x40100c.
fn debug_line() -> Vec<u8> {
    let mut program = vec![0u8, 9, 2];
    program.extend_from_slice(&0x401000u64.to_le_bytes());
    program.extend_from_slice(&[3, 9, 1, 2, 4, 3, 1, 1, 2, 8, 0, 1, 1]);
    let mut header = vec![1u8, 1, 1, 0xfb, 14, 13];
    header.extend_from_slice(&[0, 1, 1, 1, 1, 0, 0, 0, 1, 0, 0, 1]);
    header.push(0);
    header.extend_from_slice(b"main.c\0");
    header.extend_from_slice(&[0, 0, 0, 0]);
    let mut section = Vec::new();
    section.extend_from_slice(&((2 + 4 + header.len() + program.len()) as u32).to_le_bytes());
    section.extend_from_slice(&4u16.to_le_bytes());
    section.extend_from_slice(&(header.len() as u32).to_le_bytes());
    section.extend(header);
    section.extend(program);
    section
}

fn eh_frame(address: u64) -> Vec<u8> {
    let mut section = Vec::new();
    section.extend_from_slice(&20u32.to_le_bytes());
    section.extend_from_slice(&0u32.to_le_bytes());
    section.extend_from_slice(&[1, 0x7a, 0x52, 0, 1, 0x78, 16, 1, 0x1b]);
    section.extend_from_slice(&[0x0c, 7, 8, 0x90, 1, 0, 0]);
    section.extend_from_slice(&24u32.to_le_bytes());
    section.extend_from_slice(&28u32.to_le_bytes());
    section.extend_from_slice(&((0x401000i64 - (address as i64 + 32)) as i32).to_le_bytes());
    section.extend_from_slice(&0x20u32.to_le_bytes());
    section.extend_from_slice(&[0, 0x41, 0x0e, 16, 0x86, 2, 0x43, 0x0d, 6, 0, 0, 0]);
    section.extend_from_slice(&0u32.to_le_bytes());
    section
}

/// An ELF image with the given sections, each as name, link, address and
/// bytes. The section of names comes last; the section table follows it.
fn image(sections: &[(&str, u32, u64, Vec<u8>)]) -> Vec<u8> {
    let mut names = vec![0u8];
    let mut offsets = Vec::new();
    for (name, _, _, _) in sections {
        offsets.push(names.len() as u32);
        names.extend_from_slice(name.as_bytes());
        names.push(0);
    }
    let names_name = names.len() as u32;
    names.extend_from_slice(b".shstrtab\0");

    let mut file = vec![0u8; 64];
    let mut entries = vec![vec![0u8; 64]];
    let mut add = |file: &mut Vec<u8>, name: u32, link: u32, address: u64, data: &[u8]| {
        let mut entry = vec![0u8; 64];
        entry[0..4].copy_from_slice(&name.to_le_bytes());
        entry[0x10..0x18].copy_from_slice(&address.to_le_bytes());
        entry[0x18..0x20].copy_from_slice(&(file.len() as u64).to_le_bytes());
        entry[0x20..0x28].copy_from_slice(&(data.len() as u64).to_le_bytes());
        entry[0x28..0x2c].copy_from_slice(&link.to_le_bytes());
        file.extend_from_slice(data);
        entries.push(entry);
    };
    for (i, (_, link, address, data)) in sections.iter().enumerate() {
        add(&mut file, offsets[i], *link, *address, data);
    }
    add(&mut file, names_name, 0, 0, &names);
    let count = entries.len() as u16;
    let table = file.len() as u64;
    for entry in entries {
        file.extend(entry);
    }
    file[0..6].copy_from_slice(&[0x7f, b'E', b'L', b'F', 2, 1]);
    file[0x28..0x30].copy_from_slice(&table.to_le_bytes());
    file[0x3a..0x3c].copy_from_slice(&64u16.to_le_bytes());
    file[0x3c..0x3e].copy_from_slice(&count.to_le_bytes());
    file[0x3e..0x40].copy_from_slice(&(count - 1).to_le_bytes());
    file
}

fn program() -> Vec<u8> {
    image(&[
        (".symtab", 2, 0, symtab()),
        (".strtab", 0, 0, strtab()),
        (".debug_line", 0, 0, debug_line()),
        (".eh_frame", 0, 0x402000, eh_frame(0x402000)),
    ])
}

#[test]
fn a_program_is_loaded_with_functions_lines_and_frames() {
    let file = program();
    let data = DwarfData::from_file(Some(&file)).expect("the image is sound");
    assert_eq!(data.get_function_from_addr(0x401000), Some("compute"));
    assert_eq!(data.get_function_from_addr(0x40101f), Some("compute"));
    assert_eq!(data.get_function_from_addr(0x401020), Some("main"));
    assert_eq!(data.get_function_from_addr(0x40104f), Some("main"));
    assert_eq!(data.get_function_from_addr(0x401050), None);
    assert_eq!(data.get_function_from_addr(0x404000), None);
    assert_eq!(data.get_addr_for_function("compute"), Some(0x401000));
    assert_eq!(data.get_addr_for_function("data"), None);
    assert_eq!(data.get_line_from_addr(0x401000), Some(("main.c", 10)));
    assert_eq!(data.get_line_from_addr(0x401003), Some(("main.c", 10)));
    assert_eq!(data.get_line_from_addr(0x401004), Some(("main.c", 11)));
    assert_eq!(data.get_line_from_addr(0x40100b), Some(("main.c", 11)));
    assert_eq!(data.get_line_from_addr(0x40100c), None);
    assert_eq!(
        data.get_function_and_line_from_addr(0x401005),
        (Some("compute"), Some("main.c"), Some(11))
    );
    assert_eq!(
        data.frame_unwind_info(0x401000),
        Some(UnwindRule::Metadata {
            base: BaseRegister::StackPointer,
            offset: 8,
            return_address: -8,
            frame_pointer: None,
        })
    );
    assert_eq!(data.get_frame_start_address(0x401001, 0x1000), Some(0x1010));
    assert_eq!(
        data.print(),
        vec![
            "0x401000 - 0x401020 : compute",
            "0x401020 - 0x401050 : main",
            "0x401000 - 0x401004 : main.c:10",
            "0x401004 - 0x40100c : main.c:11",
        ]
    );
}

#[test]
fn several_line_programs_are_read_one_after_the_other() {
    let mut second = debug_line();
    // The second program speaks of 0x401100 on.
    let at = second.iter().position(|&b| b == 0x10).unwrap();
    second[at] = 0x11;
    let mut lines = debug_line();
    lines.extend(second);
    let file = image(&[
        (".symtab", 2, 0, symtab()),
        (".strtab", 0, 0, strtab()),
        (".debug_line", 0, 0, lines),
    ]);
    let data = DwarfData::from_file(Some(&file)).unwrap();
    assert_eq!(data.get_line_from_addr(0x401004), Some(("main.c", 11)));
    assert_eq!(data.get_line_from_addr(0x401100), Some(("main.c", 10)));
    assert_eq!(data.get_line_from_addr(0x40110b), Some(("main.c", 11)));
    assert_eq!(data.frame_unwind_info(0x401000), None);
}

#[test]
fn a_file_that_could_not_be_read_gives_error_opening_file() {
    assert!(matches!(DwarfData::from_file(None), Err(DwarfError::ErrorOpeningFile)));
}

fn object_error(file: &[u8]) -> ElfError {
    match DwarfData::from_file(Some(file)) {
        Err(DwarfError::DwarfFormatError(FormatCause::Object(e))) => e,
        other => panic!("{:?}", other.map(|_| ())),
    }
}

#[test]
fn what_is_no_elf_image_is_refused() {
    assert_eq!(object_error(&[]), ElfError::NotElf);
    assert_eq!(object_error(b"#!/bin/sh\n"), ElfError::NotElf);
    assert_eq!(object_error(&program()[..63]), ElfError::NotElf);
    let mut other = program();
    other[1] = b'e';
    assert_eq!(object_error(&other), ElfError::NotElf);
    let mut narrow = program();
    narrow[4] = 1;
    assert_eq!(object_error(&narrow), ElfError::Unsupported);
    let mut big = program();
    big[5] = 2;
    assert_eq!(object_error(&big), ElfError::Unsupported);
}

#[test]
fn a_program_without_debug_sections_is_refused() {
    let stripped = image(&[(".debug_line", 0, 0, debug_line())]);
    assert_eq!(object_error(&stripped), ElfError::MissingSection);
    let plain = image(&[(".symtab", 2, 0, symtab()), (".strtab", 0, 0, strtab())]);
    assert_eq!(object_error(&plain), ElfError::MissingSection);
}

#[test]
fn a_truncated_image_is_refused() {
    let file = program();
    // Cut inside the section table.
    assert_eq!(object_error(&file[..file.len() - 1]), ElfError::Truncated);
    assert_eq!(object_error(&file[..64]), ElfError::Truncated);
    // The section table is too narrow, or the names' index is out of range.
    let mut narrow = program();
    narrow[0x3a] = 63;
    assert_eq!(object_error(&narrow), ElfError::Truncated);
    let mut names = program();
    names[0x3e] = 200;
    assert_eq!(object_error(&names), ElfError::Truncated);
    // The symbol table refers to a section that is not there.
    let unlinked = image(&[
        (".symtab", 9, 0, symtab()),
        (".strtab", 0, 0, strtab()),
        (".debug_line", 0, 0, debug_line()),
    ]);
    assert_eq!(object_error(&unlinked), ElfError::Truncated);
    // A section reaches beyond the end of the file.
    let mut long = program();
    let table = u64::from_le_bytes(long[0x28..0x30].try_into().unwrap()) as usize;
    let size = table + 3 * 64 + 0x20;
    long[size..size + 8].copy_from_slice(&0x10_0000u64.to_le_bytes());
    assert_eq!(object_error(&long), ElfError::Truncated);
}

#[test]
fn truncated_line_numbers_give_a_format_error() {
    let mut cut = debug_line();
    cut.truncate(cut.len() - 5);
    let file = image(&[
        (".symtab", 2, 0, symtab()),
        (".strtab", 0, 0, strtab()),
        (".debug_line", 0, 0, cut),
    ]);
    match DwarfData::from_file(Some(&file)) {
        Err(DwarfError::DwarfFormatError(FormatCause::Decoder(cause))) => {
            assert!(matches!(cause, gimli::Error::UnexpectedEof(_)))
        }
        other => panic!("{:?}", other.map(|_| ())),
    }
    let short = image(&[
        (".symtab", 2, 0, symtab()),
        (".strtab", 0, 0, strtab()),
        (".debug_line", 0, 0, vec![1, 0]),
    ]);
    assert!(matches!(DwarfData::from_file(Some(&short)), Err(DwarfError::DwarfFormatError(FormatCause::Decoder(_)))));
    let wrong = image(&[
        (".symtab", 2, 0, symtab()),
        (".strtab", 0, 0, strtab()),
        (".debug_line", 0, 0, vec![8, 0, 0, 0, 99, 0, 0, 0, 0, 0, 0, 0]),
    ]);
    match DwarfData::from_file(Some(&wrong)) {
        Err(DwarfError::DwarfFormatError(FormatCause::Decoder(cause))) => {
            assert_eq!(cause, gimli::Error::UnknownVersion(99))
        }
        other => panic!("{:?}", other.map(|_| ())),
    }
}

#[test]
fn an_empty_line_section_gives_an_empty_line_table() {
    let file = image(&[
        (".symtab", 2, 0, symtab()),
        (".strtab", 0, 0, strtab()),
        (".debug_line", 0, 0, Vec::new()),
    ]);
    let data = DwarfData::from_file(Some(&file)).unwrap();
    assert_eq!(data.get_line_from_addr(0x401000), None);
    assert_eq!(data.get_function_from_addr(0x401000), Some("compute"));
}

#[test]
fn the_header_and_the_sections_are_read_as_they_stand() {
    let file = program();
    let header = parse_header(&file).unwrap();
    assert_eq!(header.entry_size, 64);
    assert_eq!(header.count, 6);
    assert_eq!(header.names_index, 5);
    assert_eq!(header.section_table as usize, file.len() - 6 * 64);
    let names = read_section(&file, &header, 5).unwrap();
    let strings = section_bytes(&file, &names).unwrap();
    assert_eq!(read_text(strings, 1), Some(&b".symtab"[..]));
    assert_eq!(read_text(strings, 2), Some(&b"symtab"[..]));
    assert_eq!(read_text(strings, 0), Some(&b""[..]));
    assert_eq!(read_text(strings, strings.len()), None);
    assert_eq!(read_text(b"open", 0), None);
    let frames = find_section(&file, &header, strings, b".eh_frame").unwrap().unwrap();
    assert_eq!(frames.address, 0x402000);
    assert_eq!(section_bytes(&file, &frames), Some(&eh_frame(0x402000)[..]));
    assert_eq!(find_section(&file, &header, strings, b".text"), Ok(None));
    assert_eq!(find_section(&file, &header, strings, b".eh_fram"), Ok(None));
    assert_eq!(read_section(&file, &header, 6), Err(ElfError::Truncated));
    let beyond = Section { name: 0, link: 0, address: 0, offset: file.len() as u64, size: 1 };
    assert_eq!(section_bytes(&file, &beyond), None);
    let wrapped = Section { name: 0, link: 0, address: 0, offset: u64::MAX, size: 2 };
    assert_eq!(section_bytes(&file, &wrapped), None);
    let far = ElfHeader { section_table: u64::MAX, entry_size: 64, count: 2, names_index: 1 };
    assert_eq!(read_section(&file, &far, 1), Err(ElfError::Truncated));
}

#[test]
fn symbols_are_read_entry_by_entry() {
    let table = symtab();
    assert_eq!(
        read_symbol(&table, 1),
        Some(Symbol { name: 9, kind: 2, value: 0x401020, size: 0x30 })
    );
    assert_eq!(
        read_symbol(&table, 2),
        Some(Symbol { name: 14, kind: 1, value: 0x404000, size: 8 })
    );
    assert_eq!(read_symbol(&table, 6), None);
    assert_eq!(read_symbol(&table[..47], 1), None);
    let strings = strtab();
    let main = function_from_symbol(&read_symbol(&table, 1).unwrap(), &strings).unwrap();
    assert_eq!((main.name.as_str(), main.start, main.end), ("main", 0x401020, 0x401050));
    let function = |name, kind, value, size| {
        function_from_symbol(&Symbol { name, kind, value, size }, &strings).map(|f| f.name)
    };
    assert_eq!(function(1, 2, 0x1000, 1), Some("compute".to_string()));
    assert_eq!(function(1, 1, 0x1000, 1), None);
    assert_eq!(function(1, 2, 0x1000, 0), None);
    assert_eq!(function(1, 2, u64::MAX, 1), None);
    assert_eq!(function(0, 2, 0x1000, 1), None);
    assert_eq!(function(1000, 2, 0x1000, 1), None);
    let odd = function_from_symbol(&Symbol { name: 0, kind: 2, value: 1, size: 1 }, &[0xff, 0]);
    assert!(odd.is_none());
}

#[test]
fn a_row_and_its_successor_make_a_line_record() {
    let row = |address, file: Option<&[u8]>, line, end_sequence| LineRow {
        address,
        file: file.map(|f| Ok(f.to_vec())),
        line,
        end_sequence,
    };
    let next = row(0x20, None, None, true);
    let record = line_from_rows(&row(0x10, Some(b"a.c"), Some(7), false), &next).unwrap();
    assert_eq!((record.start, record.end, record.file.as_str(), record.line), (0x10, 0x20, "a.c", 7));
    assert!(line_from_rows(&row(0x10, Some(b"a.c"), Some(7), true), &next).is_none());
    assert!(line_from_rows(&row(0x20, Some(b"a.c"), Some(7), false), &next).is_none());
    assert!(line_from_rows(&row(0x10, None, Some(7), false), &next).is_none());
    assert!(line_from_rows(&row(0x10, Some(b"a.c"), None, false), &next).is_none());
    assert!(line_from_rows(&row(0x10, Some(&[0xc3, 0x28]), Some(7), false), &next).is_none());
    let accented = line_from_rows(&row(0x10, Some("é.c".as_bytes()), Some(1), false), &next);
    assert_eq!(accented.unwrap().file, "é.c");
    let unread = LineRow {
        address: 0x10,
        file: Some(Err(gimli::Error::UnexpectedEof(gimli::ReaderOffsetId(0)))),
        line: Some(7),
        end_sequence: false,
    };
    assert!(line_from_rows(&unread, &next).is_none());
}

/// A line-number program of version 5: the names of its directory and of its
/// file stand in the section of line strings, at the offsets given.
fn debug_line_v5(directory: u32, file: u32) -> Vec<u8> {
    let mut program = vec![0u8, 9, 2];
    program.extend_from_slice(&0x401000u64.to_le_bytes());
    program.extend_from_slice(&[3, 9, 1, 2, 4, 3, 1, 1, 2, 8, 0, 1, 1]);
    let mut header = vec![1u8, 1, 1, 0xfb, 14, 13];
    header.extend_from_slice(&[0, 1, 1, 1, 1, 0, 0, 0, 1, 0, 0, 1]);
    // One directory, named by an offset into the line strings.
    header.extend_from_slice(&[1, 1, 0x1f, 1]);
    header.extend_from_slice(&directory.to_le_bytes());
    // Two files, each with its name and the index of its directory.
    header.extend_from_slice(&[2, 1, 0x1f, 2, 0x0b, 2]);
    for _ in 0..2 {
        header.extend_from_slice(&file.to_le_bytes());
        header.push(0);
    }
    let mut section = Vec::new();
    section.extend_from_slice(&((2 + 2 + 4 + header.len() + program.len()) as u32).to_le_bytes());
    section.extend_from_slice(&5u16.to_le_bytes());
    section.extend_from_slice(&[8, 0]);
    section.extend_from_slice(&(header.len() as u32).to_le_bytes());
    section.extend(header);
    section.extend(program);
    section
}

#[test]
fn file_names_are_looked_up_in_the_line_strings() {
    let file = image(&[
        (".symtab", 2, 0, symtab()),
        (".strtab", 0, 0, strtab()),
        (".debug_line", 0, 0, debug_line_v5(0, 5)),
        (".debug_line_str", 0, 0, b"/src\0main.c\0".to_vec()),
    ]);
    let data = DwarfData::from_file(Some(&file)).expect("the image is sound");
    assert_eq!(data.get_line_from_addr(0x401000), Some(("main.c", 10)));
    assert_eq!(data.get_line_from_addr(0x40100b), Some(("main.c", 11)));
    assert_eq!(data.get_line_from_addr(0x40100c), None);
}

#[test]
fn a_file_name_that_cannot_be_read_gives_a_format_error() {
    // The line strings are cut off before the name of the file.
    let cut = image(&[
        (".symtab", 2, 0, symtab()),
        (".strtab", 0, 0, strtab()),
        (".debug_line", 0, 0, debug_line_v5(0, 5)),
        (".debug_line_str", 0, 0, b"/src".to_vec()),
    ]);
    assert!(matches!(DwarfData::from_file(Some(&cut)), Err(DwarfError::DwarfFormatError(FormatCause::Decoder(_)))));
    // The section of line strings is absent.
    let absent = image(&[
        (".symtab", 2, 0, symtab()),
        (".strtab", 0, 0, strtab()),
        (".debug_line", 0, 0, debug_line_v5(0, 5)),
    ]);
    assert!(matches!(DwarfData::from_file(Some(&absent)), Err(DwarfError::DwarfFormatError(FormatCause::Decoder(_)))));
    // The run ends before the program at fault adds a record; the programs
    // before it have added theirs.
    let mut lines = debug_line();
    lines.extend(debug_line_v5(0, 50));
    let mut data = DwarfData::new();
    let done = load_lines(&mut data, &lines, &[], b"/src\0main.c\0");
    assert!(matches!(done, Err(DwarfError::DwarfFormatError(FormatCause::Decoder(_)))));
    assert_eq!(data.get_line_from_addr(0x401000), Some(("main.c", 10)));
    assert_eq!(
        data.print(),
        vec!["0x401000 - 0x401004 : main.c:10", "0x401004 - 0x40100c : main.c:11"]
    );
}

#[test]
fn the_first_unreadable_name_is_found() {
    let eof = gimli::Error::UnexpectedEof(gimli::ReaderOffsetId(7));
    let row = |file| LineRow { address: 0x10, file, line: Some(1), end_sequence: false };
    assert_eq!(first_unreadable(&Vec::new()), None);
    assert_eq!(first_unreadable(&vec![row(None), row(Some(Ok(b"a.c".to_vec())))]), None);
    let rows = vec![
        row(Some(Ok(b"a.c".to_vec()))),
        row(Some(Err(eof))),
        row(Some(Err(gimli::Error::ExpectedStringAttributeValue))),
    ];
    assert_eq!(first_unreadable(&rows), Some(eof));
    // Rows are added pair by pair, whatever their names.
    let mut data = DwarfData::new();
    load_rows(&mut data, &vec![row(Some(Ok(b"a.c".to_vec()))), row(None)]);
    assert_eq!(data.get_line_from_addr(0x10), None);
    let later = LineRow { address: 0x20, file: None, line: None, end_sequence: true };
    load_rows(&mut data, &vec![row(Some(Ok(b"a.c".to_vec()))), later]);
    assert_eq!(data.get_line_from_addr(0x1f), Some(("a.c", 1)));
}

#[test]
fn the_next_program_starts_behind_the_length_of_this_one() {
    let one = debug_line();
    assert_eq!(next_program(&one, 0), Some(None));
    let mut two = debug_line();
    two.extend(debug_line());
    assert_eq!(next_program(&two, 0), Some(Some(one.len())));
    assert_eq!(next_program(&two, one.len()), Some(None));
    assert_eq!(next_program(&two, two.len() - 3), None);
    assert_eq!(next_program(&two, two.len() + 1), None);
    let mut wide = vec![0xff, 0xff, 0xff, 0xff];
    wide.extend_from_slice(&4u64.to_le_bytes());
    wide.extend_from_slice(&[0; 8]);
    assert_eq!(next_program(&wide, 0), Some(Some(16)));
    assert_eq!(next_program(&wide[..16], 0), Some(None));
    assert_eq!(next_program(&wide[..11], 0), None);
}

#[test]
fn without_symbols_breakpoints_by_address_still_work() {
    let mut cut = debug_line();
    cut.truncate(20);
    let file = image(&[
        (".symtab", 2, 0, symtab()),
        (".strtab", 0, 0, strtab()),
        (".debug_line", 0, 0, cut),
    ]);
    assert!(matches!(DwarfData::from_file(Some(&file)), Err(DwarfError::DwarfFormatError(FormatCause::Decoder(_)))));
    // The session goes on with an empty symbol table.
    let symbols = DwarfData::new();
    let by_name = deet::location::parse_location("compute");
    assert_eq!(deet::debugger::resolve(&by_name, &symbols), None);
    let by_address = deet::location::parse_location("0x401000");
    let address = deet::debugger::resolve(&by_address, &symbols).unwrap();
    assert_eq!(address, 0x401000);
    let mut breakpoints = deet::breakpoint::BreakpointManager::new();
    let process = deet::process::TargetProcess::spawned(1);
    let placed = deet::debugger::set_breakpoint(&process, &mut breakpoints, address, Some(0x55));
    assert!(placed.unwrap().write.is_some());
    assert!(breakpoints.is_installed(0x401000));
    let event = deet::process::classify(
        deet::process::WaitOutcome::Stopped(5),
        Some(0x401001),
        &breakpoints,
    );
    assert_eq!(event, deet::process::StopEvent::Breakpoint(0x401000));
    assert_eq!(symbols.get_function_from_addr(0x401000), None);
}

/// A line-number program of version 4 with the instructions given.
fn line_program(instructions: &[u8]) -> Vec<u8> {
    let mut header = vec![1u8, 1, 1, 0xfb, 14, 13];
    header.extend_from_slice(&[0, 1, 1, 1, 1, 0, 0, 0, 1, 0, 0, 1]);
    header.push(0);
    header.extend_from_slice(b"main.c\0");
    header.extend_from_slice(&[0, 0, 0, 0]);
    let mut section = Vec::new();
    section.extend_from_slice(&((2 + 4 + header.len() + instructions.len()) as u32).to_le_bytes());
    section.extend_from_slice(&4u16.to_le_bytes());
    section.extend_from_slice(&(header.len() as u32).to_le_bytes());
    section.extend(header);
    section.extend_from_slice(instructions);
    section
}

fn with_lines(lines: Vec<u8>) -> Vec<u8> {
    image(&[(".symtab", 2, 0, symtab()), (".strtab", 0, 0, strtab()), (".debug_line", 0, 0, lines)])
}

#[test]
fn a_line_advance_out_of_range_gives_a_format_error() {
    // Set the address, advance the line by the lowest amount of all, copy,
    // end the sequence.
    let mut instructions = vec![0u8, 9, 2];
    instructions.extend_from_slice(&0x401000u64.to_le_bytes());
    instructions.push(3);
    instructions.extend_from_slice(&[0x80; 9]);
    instructions.push(0x7f);
    instructions.extend_from_slice(&[1, 2, 4, 0, 1, 1]);
    let file = with_lines(line_program(&instructions));
    assert!(matches!(
        DwarfData::from_file(Some(&file)),
        Err(DwarfError::DwarfFormatError(FormatCause::LineOperand))
    ));
    // The program at fault adds nothing; the program before it has added
    // its records.
    let mut lines = debug_line();
    lines.extend(line_program(&instructions));
    let mut data = DwarfData::new();
    assert!(matches!(
        load_lines(&mut data, &lines, &[], &[]),
        Err(DwarfError::DwarfFormatError(FormatCause::LineOperand))
    ));
    assert_eq!(
        data.print(),
        vec!["0x401000 - 0x401004 : main.c:10", "0x401004 - 0x40100c : main.c:11"]
    );
}

#[test]
fn every_other_line_advance_is_taken() {
    // Advance the line by the lowest amount but one, and by the highest.
    let mut instructions = vec![0u8, 9, 2];
    instructions.extend_from_slice(&0x401000u64.to_le_bytes());
    instructions.push(3);
    instructions.push(0x81);
    instructions.extend_from_slice(&[0x80; 8]);
    instructions.push(0x7f);
    instructions.extend_from_slice(&[3, 7, 1, 2, 4]);
    instructions.push(3);
    instructions.extend_from_slice(&[0xff; 9]);
    instructions.push(0);
    instructions.extend_from_slice(&[1, 2, 4, 0, 1, 1]);
    let file = with_lines(line_program(&instructions));
    let data = DwarfData::from_file(Some(&file)).expect("the program can be run");
    // The line cannot fall below zero: seven above it.
    assert_eq!(data.get_line_from_addr(0x401000), Some(("main.c", 7)));
    assert_eq!(data.get_line_from_addr(0x401004), Some(("main.c", 7 + i64::MAX as u64)));
    let line = |amount| (Some(amount), None);
    let file = |index| (None, Some(index));
    assert!(operands_fit(&vec![(None, None), line(i64::MIN + 1), line(i64::MAX), line(0)]));
    assert!(operands_fit(&vec![file(0), file(1), file(u32::MAX as u64)]));
    assert!(!operands_fit(&vec![(None, None), line(1), line(i64::MIN)]));
    assert!(!operands_fit(&vec![file(1), file(1 << 32)]));
    assert!(!operands_fit(&vec![file(u64::MAX)]));
    assert!(operands_fit(&Vec::new()));
}

#[test]
fn a_file_index_out_of_range_gives_a_format_error() {
    // Set the address, set the file to index 2^32, copy, end the sequence.
    let mut instructions = vec![0u8, 9, 2];
    instructions.extend_from_slice(&0x401000u64.to_le_bytes());
    instructions.extend_from_slice(&[4, 0x80, 0x80, 0x80, 0x80, 0x10]);
    instructions.extend_from_slice(&[1, 2, 4, 0, 1, 1]);
    let file = with_lines(line_program(&instructions));
    assert!(matches!(
        DwarfData::from_file(Some(&file)),
        Err(DwarfError::DwarfFormatError(FormatCause::LineOperand))
    ));
    // The highest index that is taken names no file: the rows have no name.
    let mut instructions = vec![0u8, 9, 2];
    instructions.extend_from_slice(&0x401000u64.to_le_bytes());
    instructions.extend_from_slice(&[4, 0xff, 0xff, 0xff, 0xff, 0x0f]);
    instructions.extend_from_slice(&[1, 2, 4, 0, 1, 1]);
    let file = with_lines(line_program(&instructions));
    let data = DwarfData::from_file(Some(&file)).expect("the program can be run");
    assert_eq!(data.get_line_from_addr(0x401000), None);
}

#[test]
fn an_instruction_that_is_cut_off_gives_the_decoder_error() {
    // An advance of the line whose amount never ends, after one out of range.
    let mut instructions = vec![3u8];
    instructions.extend_from_slice(&[0x80; 9]);
    instructions.push(0x7f);
    instructions.extend_from_slice(&[3, 0x80]);
    let file = with_lines(line_program(&instructions));
    assert!(matches!(
        DwarfData::from_file(Some(&file)),
        Err(DwarfError::DwarfFormatError(FormatCause::Decoder(_)))
    ));
}
