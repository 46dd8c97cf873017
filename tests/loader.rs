use std::collections::BTreeMap;
use rv64_core::loader::{load_program, patch_names, ElfHeader, ElfSymbol, LoadError, Program, SegmentHeader};

fn header(entry: u64) -> ElfHeader {
    ElfHeader { class64: true, e_type: 2, e_machine: 243, e_entry: entry }
}

fn word_at(p: &Program, a: u64) -> Option<u32> {
    p.word_at(a)
}

fn segment(offset: u64, vaddr: u64, filesz: u64, memsz: u64) -> SegmentHeader {
    SegmentHeader { p_type: 1, p_offset: offset, p_vaddr: vaddr, p_filesz: filesz, p_memsz: memsz }
}

fn symbol(name: &str, value: u64) -> ElfSymbol {
    ElfSymbol { name: Some(name.to_string()), value }
}

#[test]
fn patched_symbol_returns_at_once() {
    let input = vec![0x13u8, 0, 0, 0, 0x37, 0x01, 0, 0];
    let p = load_program(
        &input,
        0x1000,
        header(0x100),
        Some(vec![segment(0, 0x100, 8, 8)]),
        Some(vec![symbol("runtime.doInit", 0x104), symbol("main.main", 0x100)]),
        &patch_names(),
    )
    .unwrap();
    assert_eq!(p.entry, 0x100);
    assert_eq!(word_at(&p, 0x104), Some(0x00008067));
    assert_eq!(word_at(&p, 0x100), Some(0x13));
    assert_eq!(word_at(&p, 0x108), None);
}

#[test]
fn segment_projection_pads_and_zero_fills() {
    let input = vec![0x11u8, 0x22, 0x33, 0x44, 0x55, 0x66];
    let p = load_program(
        &input,
        0x1000,
        header(0),
        Some(vec![segment(0, 0x200, 6, 12), SegmentHeader { p_type: 4, p_offset: 0, p_vaddr: 0x900, p_filesz: 2, p_memsz: 4 }]),
        Some(vec![]),
        &patch_names(),
    )
    .unwrap();
    assert_eq!(p.image, BTreeMap::from([(0x200, 0x44332211), (0x204, 0x6655), (0x208, 0)]));
}

#[test]
fn missing_patch_target_is_an_error() {
    let r = load_program(
        &[],
        0x1000,
        header(0),
        Some(vec![]),
        Some(vec![symbol("runtime.check", 0x40)]),
        &patch_names(),
    );
    assert_eq!(r.err(), Some(LoadError::MissingPatchTarget(0x40)));
}

#[test]
fn header_checks_in_order() {
    let segs = Some(vec![]);
    let mut h = header(0);
    h.class64 = false;
    h.e_machine = 3;
    assert_eq!(load_program(&[], 0x1000, h, segs.clone(), Some(vec![]), &patch_names()).err(), Some(LoadError::NotElf64));
    let mut h = header(0);
    h.e_machine = 3;
    assert_eq!(load_program(&[], 0x1000, h, segs.clone(), Some(vec![]), &patch_names()).err(), Some(LoadError::InvalidMachine));
    let mut h = header(0);
    h.e_type = 3;
    assert_eq!(load_program(&[], 0x1000, h, segs.clone(), Some(vec![]), &patch_names()).err(), Some(LoadError::NotExecutable));
    assert_eq!(load_program(&[], 0x1000, header(0x1000), segs.clone(), Some(vec![]), &patch_names()).err(), Some(LoadError::InvalidEntry));
    assert_eq!(load_program(&[], 0x1000, header(2), segs.clone(), Some(vec![]), &patch_names()).err(), Some(LoadError::InvalidEntry));
    assert_eq!(load_program(&[], 0x1000, header(0), None, Some(vec![]), &patch_names()).err(), Some(LoadError::MissingSegmentTable));
    assert_eq!(load_program(&[], 0x1000, header(0), Some(vec![segment(0, 0, 0, 0); 257]), Some(vec![]), &patch_names()).err(), Some(LoadError::TooManySegments));
    assert_eq!(load_program(&[], 0x1000, header(0), segs.clone(), None, &patch_names()).err(), Some(LoadError::MissingSymbolTable));
}

#[test]
fn segment_errors() {
    let p = &patch_names();
    assert_eq!(load_program(&[], 0x10, header(0), Some(vec![segment(0, 0, 0x10, 0)]), Some(vec![]), p).err(), Some(LoadError::InvalidFileSize));
    assert_eq!(load_program(&[], 0x10, header(0), Some(vec![segment(0, 0, 0, 0x10)]), Some(vec![]), p).err(), Some(LoadError::InvalidMemSize));
    assert_eq!(load_program(&[], u64::MAX, header(0), Some(vec![segment(0, u64::MAX - 3, 0, 8)]), Some(vec![]), p).err(), Some(LoadError::InvalidVaddr));
    assert_eq!(load_program(&[1, 2], 0x10, header(0), Some(vec![segment(0, 0, 4, 4)]), Some(vec![]), p).err(), Some(LoadError::InvalidOffset));
    let unnamed = ElfSymbol { name: None, value: 0 };
    assert_eq!(load_program(&[], 0x10, header(0), Some(vec![]), Some(vec![unnamed]), p).err(), Some(LoadError::InvalidSymbolName));
}

#[test]
fn garbage_is_not_an_elf() {
    assert_eq!(Program::load_elf(&[1, 2, 3], 0x1000).err(), Some(LoadError::Malformed));
}

#[test]
fn load_minimal_elf() {
    // ELF64 header, one PT_LOAD program header, no section headers.
    let mut f = vec![0u8; 0x80];
    f[0..4].copy_from_slice(&[0x7f, b'E', b'L', b'F']);
    f[4] = 2; // ELF64
    f[5] = 1; // little-endian
    f[6] = 1; // version
    f[16..18].copy_from_slice(&2u16.to_le_bytes()); // ET_EXEC
    f[18..20].copy_from_slice(&243u16.to_le_bytes()); // RISC-V
    f[20..24].copy_from_slice(&1u32.to_le_bytes());
    f[24..32].copy_from_slice(&0x1000u64.to_le_bytes()); // entry
    f[32..40].copy_from_slice(&64u64.to_le_bytes()); // phoff
    f[52..54].copy_from_slice(&64u16.to_le_bytes()); // ehsize
    f[54..56].copy_from_slice(&56u16.to_le_bytes()); // phentsize
    f[56..58].copy_from_slice(&1u16.to_le_bytes()); // phnum
    f[58..60].copy_from_slice(&64u16.to_le_bytes()); // shentsize
    let ph = 64;
    f[ph..ph + 4].copy_from_slice(&1u32.to_le_bytes());
    f[ph + 8..ph + 16].copy_from_slice(&0x78u64.to_le_bytes()); // offset
    f[ph + 16..ph + 24].copy_from_slice(&0x1000u64.to_le_bytes()); // vaddr
    f[ph + 32..ph + 40].copy_from_slice(&4u64.to_le_bytes()); // filesz
    f[ph + 40..ph + 48].copy_from_slice(&4u64.to_le_bytes()); // memsz
    f[0x78..0x7c].copy_from_slice(&0x00000013u32.to_le_bytes());
    // without a symbol table the load is refused
    assert_eq!(Program::load_elf(&f, 0x10000).err(), Some(LoadError::MissingSymbolTable));
    f[18] = 62;
    assert_eq!(Program::load_elf(&f, 0x10000).err(), Some(LoadError::InvalidMachine));
}

fn put(f: &mut [u8], at: usize, bytes: &[u8]) {
    f[at..at + bytes.len()].copy_from_slice(bytes);
}

#[test]
fn load_elf_patches_do_init() {
    let mut f = vec![0u8; 0x1a8];
    // ELF64 header
    put(&mut f, 0, &[0x7f, b'E', b'L', b'F', 2, 1, 1]);
    put(&mut f, 16, &2u16.to_le_bytes()); // ET_EXEC
    put(&mut f, 18, &243u16.to_le_bytes()); // RISC-V
    put(&mut f, 20, &1u32.to_le_bytes());
    put(&mut f, 24, &0x1000u64.to_le_bytes()); // entry
    put(&mut f, 32, &0x40u64.to_le_bytes()); // phoff
    put(&mut f, 40, &0xe8u64.to_le_bytes()); // shoff
    put(&mut f, 52, &64u16.to_le_bytes()); // ehsize
    put(&mut f, 54, &56u16.to_le_bytes()); // phentsize
    put(&mut f, 56, &1u16.to_le_bytes()); // phnum
    put(&mut f, 58, &64u16.to_le_bytes()); // shentsize
    put(&mut f, 60, &3u16.to_le_bytes()); // shnum
    // one loadable segment: two words at 0x1000
    put(&mut f, 0x40, &1u32.to_le_bytes());
    put(&mut f, 0x48, &0x78u64.to_le_bytes());
    put(&mut f, 0x50, &0x1000u64.to_le_bytes());
    put(&mut f, 0x60, &8u64.to_le_bytes());
    put(&mut f, 0x68, &8u64.to_le_bytes());
    put(&mut f, 0x78, &0x00000013u32.to_le_bytes());
    put(&mut f, 0x7c, &0x00000013u32.to_le_bytes());
    // string table
    put(&mut f, 0x80, b"\0runtime.doInit\0main.main\0");
    // symbol table: null, runtime.doInit at 0x1004, main.main at 0x1000
    put(&mut f, 0xa0 + 24, &1u32.to_le_bytes());
    put(&mut f, 0xa0 + 24 + 8, &0x1004u64.to_le_bytes());
    put(&mut f, 0xa0 + 48, &16u32.to_le_bytes());
    put(&mut f, 0xa0 + 48 + 8, &0x1000u64.to_le_bytes());
    // section headers: null, .symtab, .strtab
    let sym = 0xe8 + 64;
    put(&mut f, sym + 4, &2u32.to_le_bytes());
    put(&mut f, sym + 24, &0xa0u64.to_le_bytes());
    put(&mut f, sym + 32, &72u64.to_le_bytes());
    put(&mut f, sym + 40, &2u32.to_le_bytes());
    put(&mut f, sym + 56, &24u64.to_le_bytes());
    let st = 0xe8 + 128;
    put(&mut f, st + 4, &3u32.to_le_bytes());
    put(&mut f, st + 24, &0x80u64.to_le_bytes());
    put(&mut f, st + 32, &26u64.to_le_bytes());

    let p = Program::load_elf(&f, 0x10000).unwrap();
    assert_eq!(p.entry, 0x1000);
    assert_eq!(p.word_at(0x1004), Some(0x00008067));
    assert_eq!(p.word_at(0x1000), Some(0x00000013));
}
