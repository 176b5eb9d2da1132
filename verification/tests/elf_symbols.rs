use psh::binary_object::elf_symbol::elf_symbols;
use psh::binary_object::BinaryObjectError;

/// (name, st_info, st_shndx, st_value, st_size)
type Sym<'a> = (&'a str, u8, u16, u64, u64);

fn push16(v: &mut Vec<u8>, x: u16) {
    v.extend_from_slice(&x.to_le_bytes());
}
fn push32(v: &mut Vec<u8>, x: u32) {
    v.extend_from_slice(&x.to_le_bytes());
}
fn push64(v: &mut Vec<u8>, x: u64) {
    v.extend_from_slice(&x.to_le_bytes());
}

fn section_header(v: &mut Vec<u8>, sh_type: u32, offset: u64, size: u64, link: u32, entsize: u64) {
    push32(v, 0); // sh_name
    push32(v, sh_type);
    push64(v, 0); // sh_flags
    push64(v, 0); // sh_addr
    push64(v, offset);
    push64(v, size);
    push32(v, link);
    push32(v, 0); // sh_info
    push64(v, 8); // sh_addralign
    push64(v, entsize);
}

/// A little-endian ELF64 file with sections: null, .text, .symtab, .strtab,
/// .shstrtab.
fn elf_with_symbols(symbols: &[Sym]) -> Vec<u8> {
    let mut strtab = vec![0u8];
    let mut symtab = vec![0u8; 24]; // null symbol
    for (name, info, shndx, value, size) in symbols {
        let name_off = strtab.len() as u32;
        strtab.extend_from_slice(name.as_bytes());
        strtab.push(0);
        push32(&mut symtab, name_off);
        symtab.push(*info);
        symtab.push(0);
        push16(&mut symtab, *shndx);
        push64(&mut symtab, *value);
        push64(&mut symtab, *size);
    }
    let text = vec![0x90u8; 16];
    let shstrtab = vec![0u8];
    let text_off = 64u64;
    let symtab_off = text_off + text.len() as u64;
    let strtab_off = symtab_off + symtab.len() as u64;
    let shstrtab_off = strtab_off + strtab.len() as u64;
    let mut sh_off = shstrtab_off + shstrtab.len() as u64;
    sh_off = (sh_off + 7) / 8 * 8;

    let mut data = Vec::new();
    data.extend_from_slice(&[0x7f, b'E', b'L', b'F', 2, 1, 1, 0]);
    data.extend_from_slice(&[0u8; 8]);
    push16(&mut data, 2); // e_type
    push16(&mut data, 62); // e_machine
    push32(&mut data, 1); // e_version
    push64(&mut data, 0); // e_entry
    push64(&mut data, 0); // e_phoff
    push64(&mut data, sh_off);
    push32(&mut data, 0); // e_flags
    push16(&mut data, 64); // e_ehsize
    push16(&mut data, 0); // e_phentsize
    push16(&mut data, 0); // e_phnum
    push16(&mut data, 64); // e_shentsize
    push16(&mut data, 5); // e_shnum
    push16(&mut data, 4); // e_shstrndx
    data.extend_from_slice(&text);
    data.extend_from_slice(&symtab);
    data.extend_from_slice(&strtab);
    data.extend_from_slice(&shstrtab);
    while (data.len() as u64) < sh_off {
        data.push(0);
    }
    section_header(&mut data, 0, 0, 0, 0, 0);
    section_header(&mut data, 1, text_off, text.len() as u64, 0, 0);
    section_header(&mut data, 2, symtab_off, symtab.len() as u64, 3, 24);
    section_header(&mut data, 3, strtab_off, strtab.len() as u64, 0, 0);
    section_header(&mut data, 3, shstrtab_off, shstrtab.len() as u64, 0, 0);
    data
}

const FUNC: u8 = 0x12; // global function
const OBJECT: u8 = 0x11; // global data object
const NOTYPE: u8 = 0x10;
const IFUNC: u8 = 0x1a;
const FILE: u8 = 0x04;
const SECTION: u8 = 0x03;

#[test]
fn keeps_sized_named_symbols_of_sections() {
    let data = elf_with_symbols(&[
        ("main", FUNC, 1, 0x1000, 0x20),
        ("table", OBJECT, 1, 0x2000, 8),
        ("undefined", FUNC, 0, 0, 0x10),
        ("empty", FUNC, 1, 0x3000, 0),
        ("file.c", FILE, 0xfff1, 0, 0),
        ("absolute", NOTYPE, 0xfff1, 0x10, 4),
        ("common", OBJECT, 0xfff2, 0x10, 4),
        ("marker", NOTYPE, 1, 0x4000, 2),
        ("resolver", IFUNC, 1, 0x5000, 0x30),
        ("", FUNC, 1, 0x6000, 0x10),
        ("sect", SECTION, 1, 0x7000, 0x10),
    ]);
    let symbols = elf_symbols(&data).unwrap();
    let got: Vec<(u64, u64, &str)> = symbols.iter().map(|s| (s.start(), s.end(), s.name())).collect();
    assert_eq!(
        got,
        vec![
            (0x1000, 0x1020, "main"),
            (0x2000, 0x2008, "table"),
            (0x4000, 0x4002, "marker"),
            (0x5000, 0x5030, "resolver"),
            (0x6000, 0x6010, ""),
        ]
    );
}

#[test]
fn end_wraps_around() {
    let data = elf_with_symbols(&[("high", FUNC, 1, u64::MAX - 1, 4)]);
    let symbols = elf_symbols(&data).unwrap();
    assert_eq!(symbols.len(), 1);
    assert_eq!(symbols[0].start(), u64::MAX - 1);
    assert_eq!(symbols[0].end(), 2);
    assert_ne!(symbols[0].start(), symbols[0].end());
}

#[test]
fn invalid_utf8_names_are_replaced() {
    let data = elf_with_symbols(&[("caf\u{e9}", FUNC, 1, 0x10, 1)]);
    assert_eq!(elf_symbols(&data).unwrap()[0].name(), "caf\u{e9}");
    let mut data = elf_with_symbols(&[("abc", FUNC, 1, 0x10, 1)]);
    // the name starts right after the first null byte of the string table
    let pos = data.windows(3).position(|w| w == b"abc").unwrap();
    data[pos + 1] = 0xff;
    assert_eq!(elf_symbols(&data).unwrap()[0].name(), "a\u{fffd}c");
}

#[test]
fn missing_section_is_an_error() {
    let data = elf_with_symbols(&[("main", FUNC, 9, 0x1000, 0x20)]);
    // section 9 does not exist (there are five)
    assert!(matches!(elf_symbols(&data), Err(BinaryObjectError::ObjectError(_))));
}

#[test]
fn not_an_elf_file() {
    assert!(matches!(elf_symbols(&b"not an elf file at all, but long enough to be read as one......"[..]), Err(BinaryObjectError::ObjectError(_))));
    assert!(matches!(elf_symbols(&[]), Err(BinaryObjectError::ObjectError(_))));
}

#[test]
fn no_symbols() {
    let data = elf_with_symbols(&[]);
    assert_eq!(elf_symbols(&data).unwrap().len(), 0);
}
