use dasm::elf::{Elf, Header, SectionHeader, Strtab, SymEntry};
use dasm::lexer::Lexer;
use dasm::parser::Parser;

#[test]
fn test_strtab_append_returns_offsets() {
    let mut strtab = Strtab::new();
    assert_eq!(strtab.append("".to_string()), 0);
    assert_eq!(strtab.append(".text".to_string()), 1);
    assert_eq!(strtab.append(".shstrtab".to_string()), 7);
    assert_eq!(strtab.append(".symtab".to_string()), 17);
    assert_eq!(strtab.append(".strtab".to_string()), 25);
    assert_eq!(strtab.buf, b"\0.text\0.shstrtab\0.symtab\0.strtab\0".to_vec());
}

#[test]
fn test_header_to_bytes_layout() {
    let header = Header {
        ident: 0x7f454c46_02010100_00000000_00000000u128,
        typ: 0x01,
        machine: 0x3e,
        version: 0x01,
        entry: 0,
        program_header_offset: 0,
        section_header_offset: 64,
        flags: 0,
        header_size: 64,
        program_header_size: 0,
        program_header_num: 0,
        section_header_size: 64,
        section_header_num: 5,
        str_index: 2,
    };
    let bytes = header.to_bytes();
    assert_eq!(bytes.len(), 64);
    // identification: magic, 64-bit class, little-endian, version 1
    assert_eq!(&bytes[0..7], &[0x7f, 0x45, 0x4c, 0x46, 0x02, 0x01, 0x01]);
    // object type REL, machine x86-64, little-endian fields
    assert_eq!(&bytes[16..20], &[0x01, 0x00, 0x3e, 0x00]);
    // section-header count and string-table index at the tail
    assert_eq!(&bytes[60..64], &[0x05, 0x00, 0x02, 0x00]);
}

#[test]
fn test_section_header_to_bytes_layout() {
    let header = SectionHeader {
        name: 1,
        typ: 1,
        flags: 6,
        address: 0,
        offset: 0x180,
        size: 5,
        link: 0,
        info: 0,
        address_align: 1,
        entry_size: 0,
    };
    let bytes = header.to_bytes();
    assert_eq!(bytes.len(), 64);
    assert_eq!(&bytes[0..4], &[0x01, 0x00, 0x00, 0x00]);
    assert_eq!(&bytes[4..8], &[0x01, 0x00, 0x00, 0x00]);
    assert_eq!(&bytes[8..12], &[0x06, 0x00, 0x00, 0x00]);
    assert_eq!(&bytes[24..28], &[0x80, 0x01, 0x00, 0x00]);
    assert_eq!(&bytes[32..36], &[0x05, 0x00, 0x00, 0x00]);
}

#[test]
fn test_sym_entry_to_bytes_layout() {
    let entry = SymEntry {
        name: 6,
        info: 0x10,
        other: 0,
        index: 1,
        value: 0,
        size: 0,
    };
    let bytes = entry.to_bytes();
    assert_eq!(bytes.len(), 24);
    assert_eq!(&bytes[0..4], &[0x06, 0x00, 0x00, 0x00]);
    assert_eq!(bytes[4], 0x10);
    assert_eq!(bytes[5], 0x00);
    assert_eq!(&bytes[6..8], &[0x01, 0x00]);
}

#[test]
fn test_object_layout() {
    let program: Vec<u8> = vec![0xb8, 0x01, 0x00, 0x00, 0x00];
    let mut elf = Elf::new(program.clone());
    elf.generate();

    assert_eq!(elf.header.section_header_num, 5);
    assert_eq!(elf.header.str_index, 2);
    assert_eq!(elf.sections.len(), 5);

    // the null section stays all zero
    assert_eq!(elf.sections[0].header.offset, 0);
    assert_eq!(elf.sections[0].header.size, 0);

    // .text is the first emitted payload, right after header + 5 section headers
    assert_eq!(elf.sections[1].header.offset, 64 + 5 * 64);
    assert_eq!(elf.sections[1].header.size, program.len() as u64);
    assert_eq!(elf.sections[1].data, program);

    // payloads are laid out contiguously
    let shstrtab_len = elf.sections[2].data.len() as u64;
    let symtab_len = elf.sections[3].data.len() as u64;
    assert_eq!(elf.sections[2].header.offset, 384 + program.len() as u64);
    assert_eq!(
        elf.sections[3].header.offset,
        384 + program.len() as u64 + shstrtab_len
    );
    assert_eq!(
        elf.sections[4].header.offset,
        384 + program.len() as u64 + shstrtab_len + symtab_len
    );

    let bytes = elf.to_bytes();
    let payload_total: usize = elf.sections.iter().map(|s| s.data.len()).sum();
    assert_eq!(bytes.len(), 64 + 5 * 64 + payload_total);
    assert_eq!(bytes.len(), 64 + 5 * 64 + 5 + 33 + 48 + 13);
    assert_eq!(&bytes[0..4], &[0x7f, 0x45, 0x4c, 0x46]);

    // .text payload sits at its stored offset
    assert_eq!(&bytes[384..389], program.as_slice());
}

#[test]
fn test_object_sections_and_symbols() {
    let mut elf = Elf::new(vec![]);
    elf.generate();

    assert_eq!(
        elf.sections[2].data,
        b"\0.text\0.shstrtab\0.symtab\0.strtab\0".to_vec()
    );
    assert_eq!(elf.sections[4].data, b".text\0_start\0".to_vec());

    // two 24-byte symbol entries: the .text section symbol and global _start
    assert_eq!(elf.sections[3].data.len(), 48);
    assert_eq!(elf.sections[3].header.link, 4);
    assert_eq!(elf.sections[3].header.info, 1);
    let symtab = &elf.sections[3].data;
    // .text: name offset 0, info SECTION (0x03), section index 1
    assert_eq!(&symtab[0..6], &[0x00, 0x00, 0x00, 0x00, 0x03, 0x00]);
    // _start: name offset 6, info GLOBAL (0x10), section index 1
    assert_eq!(&symtab[24..30], &[0x06, 0x00, 0x00, 0x00, 0x10, 0x00]);

    // empty program: the object is exactly the fixed regions
    assert_eq!(elf.to_bytes().len(), 64 + 5 * 64 + 0 + 33 + 48 + 13);
}

#[test]
fn test_assemble_from_source() {
    let mut lexer = Lexer::new("_start:\nmov rax, 60\nsyscall".to_string());
    let tokens = lexer.tokenize().unwrap();
    let mut parser = Parser::new(tokens);
    let instrs = parser.parse().unwrap();
    let program = dasm::parser::encode_program(&instrs);
    assert_eq!(program, vec![0xb8, 60, 0, 0, 0, 0x0f, 0x05]);

    let mut elf = Elf::new(program);
    elf.generate();
    let bytes = elf.to_bytes();
    assert_eq!(bytes.len(), 64 + 5 * 64 + 7 + 33 + 48 + 13);
    assert_eq!(&bytes[384..391], &[0xb8, 60, 0, 0, 0, 0x0f, 0x05]);
}
