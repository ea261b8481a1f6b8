use ttx_rs::elf::{
    core_names, kernel_data, load_elf, load_library, ElfError, ElfImage, ProgramHeader, PT_LOAD,
};
use ttx_rs::kernel::{Alignment16, CoreData, CoreDataCache, KernelBytes};

fn put32(out: &mut Vec<u8>, v: u32) {
    out.extend(v.to_le_bytes());
}

fn put16(out: &mut Vec<u8>, v: u16) {
    out.extend(v.to_le_bytes());
}

/// A 32-bit little-endian ELF file with the given entry point, segments
/// (type, address, bytes) and symbols.
fn build_elf(entry: u32, segments: &[(u32, u32, &[u8])], symbols: &[(&str, u32)]) -> Vec<u8> {
    let phoff = 52u32;
    let mut data_at = phoff + 32 * segments.len() as u32;
    let mut offsets = Vec::new();
    for (_, _, bytes) in segments {
        offsets.push(data_at);
        data_at += bytes.len() as u32;
    }
    // The string table: a null byte, then each name.
    let mut strtab = vec![0u8];
    let mut names = Vec::new();
    for (name, _) in symbols {
        names.push(strtab.len() as u32);
        strtab.extend(name.as_bytes());
        strtab.push(0);
    }
    let shstrtab = b"\0.symtab\0.strtab\0.shstrtab\0".to_vec();
    let strtab_at = data_at;
    let symtab_at = strtab_at + strtab.len() as u32;
    let symtab_len = 16 * (symbols.len() as u32 + 1);
    let shstrtab_at = symtab_at + symtab_len;
    let shoff = shstrtab_at + shstrtab.len() as u32;

    let mut out = Vec::new();
    out.extend([0x7f, b'E', b'L', b'F', 1, 1, 1, 0]);
    out.extend([0u8; 8]);
    put16(&mut out, 2);
    put16(&mut out, 0xf3);
    put32(&mut out, 1);
    put32(&mut out, entry);
    put32(&mut out, phoff);
    put32(&mut out, shoff);
    put32(&mut out, 0);
    put16(&mut out, 52);
    put16(&mut out, 32);
    put16(&mut out, segments.len() as u16);
    put16(&mut out, 40);
    put16(&mut out, 4);
    put16(&mut out, 3);
    for (i, (p_type, vaddr, bytes)) in segments.iter().enumerate() {
        put32(&mut out, *p_type);
        put32(&mut out, offsets[i]);
        put32(&mut out, *vaddr);
        put32(&mut out, *vaddr);
        put32(&mut out, bytes.len() as u32);
        put32(&mut out, bytes.len() as u32);
        put32(&mut out, 7);
        put32(&mut out, 4);
    }
    for (_, _, bytes) in segments {
        out.extend(*bytes);
    }
    out.extend(&strtab);
    out.extend([0u8; 16]);
    for (i, (_, value)) in symbols.iter().enumerate() {
        put32(&mut out, names[i]);
        put32(&mut out, *value);
        put32(&mut out, 4);
        out.extend([0x11, 0]);
        put16(&mut out, 0xfff1);
    }
    out.extend(&shstrtab);
    let mut section = |name: u32, kind: u32, at: u32, len: u32, link: u32, info: u32, entsize: u32| {
        for v in [name, kind, 0, 0, at, len, link, info, 1, entsize] {
            put32(&mut out, v);
        }
    };
    section(0, 0, 0, 0, 0, 0, 0);
    section(1, 2, symtab_at, symtab_len, 2, 1, 16);
    section(9, 3, strtab_at, strtab.len() as u32, 0, 0, 0);
    section(17, 3, shstrtab_at, shstrtab.len() as u32, 0, 0, 0);
    out
}

fn required() -> Vec<(&'static str, u32)> {
    let mut symbols = Vec::new();
    for i in 0..5 {
        let names = core_names(i);
        let base = 0x1000 + 0x100 * i as u32;
        symbols.push((names.0, 0));
        symbols.push((names.1, base));
        symbols.push((names.2, base + 4));
    }
    symbols
}

#[test]
fn the_names_that_an_image_must_have() {
    assert_eq!(
        core_names(0),
        ("__brisc_start", "STATE_BRISC", "POSTCODE_BRISC", "PANIC_DATA_BRISC")
    );
    assert_eq!(
        core_names(1),
        ("__ncrisc_start", "STATE_NCRISC", "POSTCODE_NCRISC", "PANIC_DATA_NCRISC")
    );
    assert_eq!(
        core_names(2),
        ("__trisc0_start", "STATE_TRISC0", "POSTCODE_TRISC0", "PANIC_DATA_TRISC0")
    );
    assert_eq!(
        core_names(3),
        ("__trisc1_start", "STATE_TRISC1", "POSTCODE_TRISC1", "PANIC_DATA_TRISC1")
    );
    assert_eq!(
        core_names(4),
        ("__trisc2_start", "STATE_TRISC2", "POSTCODE_TRISC2", "PANIC_DATA_TRISC2")
    );
    assert_eq!(PT_LOAD, 1);
}

#[test]
fn an_image_is_read_with_its_segments_and_symbols() {
    let mut symbols = required();
    symbols.push(("START_SYNC", 0x900));
    symbols.push(("PANIC_DATA_TRISC0", 0x1240));
    symbols.push(("__firmware_end", 0x8000));
    symbols.push(("NOC_DEBUG", 0x904));
    symbols.push(("PANIC_DATA_UNKNOWN", 0x1f40));
    symbols.push(("CORE_ID", 0x1f00));
    let code = [0x13u8, 0, 0, 0, 0x6f, 0, 0, 0];
    let elf = build_elf(
        0,
        &[(1, 0, &code), (6, 0x34, &[9, 9]), (1, 0x2000, &[1, 2, 3])],
        &symbols,
    );
    let data = load_elf(&elf).unwrap();
    assert_eq!(
        data.writes,
        vec![
            KernelBytes { addr: 0, data: Alignment16(code.to_vec()) },
            KernelBytes { addr: 0x2000, data: Alignment16(vec![1, 2, 3]) },
        ]
    );
    assert_eq!(data.symbol("STATE_TRISC1"), Some(0x1300));
    assert_eq!(data.symbol("CORE_ID"), Some(0x1f00));
    assert_eq!(data.symbol("nothing"), None);
    assert_eq!(data.bin.start_sync, Some(0x900));
    assert_eq!(
        data.bin.brisc_state,
        CoreData { panic: None, entry: Some(0), state: Some(0x1000), pc: Some(0x1004) }
    );
    assert_eq!(
        data.bin.trisc0_state,
        CoreData { panic: Some(0x1240), entry: Some(0), state: Some(0x1200), pc: Some(0x1204) }
    );
    assert_eq!(data.bin.trisc2_state.state, Some(0x1400));
    assert_eq!(data.bin.data_start, Some(0x8000));
    assert_eq!(data.bin.noc_debug, Some(0x904));
    assert_eq!(data.bin.unknown_panic, Some(0x1f40));
    assert_eq!(data.bin.core_data_cache, CoreDataCache::default());
    assert_eq!(data.bin.state_addrs(), vec![0x1000, 0x1100, 0x1200, 0x1300, 0x1400]);
}

#[test]
fn an_image_that_cannot_be_loaded() {
    assert_eq!(load_elf(b"not an image"), Err(ElfError::Malformed));
    assert_eq!(load_elf(&[]), Err(ElfError::Malformed));

    let elf = build_elf(0x100, &[(1, 0, &[1])], &required());
    assert_eq!(load_elf(&elf), Err(ElfError::NonZeroEntry(0x100)));

    let mut symbols = required();
    symbols.retain(|s| s.0 != "POSTCODE_TRISC1");
    let elf = build_elf(0, &[(1, 0, &[1])], &symbols);
    assert_eq!(load_elf(&elf), Err(ElfError::MissingSymbol("POSTCODE_TRISC1".to_string())));

    // Of several that are missing the first counts: cores in order, and
    // for each core its entry, its state, its postcode.
    let mut symbols = required();
    symbols.retain(|s| s.0 != "STATE_TRISC2" && s.0 != "__ncrisc_start" && s.0 != "POSTCODE_BRISC");
    let elf = build_elf(0, &[(1, 0, &[1])], &symbols);
    assert_eq!(load_elf(&elf), Err(ElfError::MissingSymbol("POSTCODE_BRISC".to_string())));
    let elf = build_elf(0, &[], &[]);
    assert_eq!(load_elf(&elf), Err(ElfError::MissingSymbol("__brisc_start".to_string())));
}

#[test]
fn a_library_needs_no_symbols() {
    let elf = build_elf(0, &[(1, 0x40, &[7, 8])], &[("job", 0x40)]);
    assert_eq!(load_elf(&elf), Err(ElfError::MissingSymbol("__brisc_start".to_string())));
    let data = load_library(&elf).unwrap();
    assert_eq!(data.writes, vec![KernelBytes { addr: 0x40, data: Alignment16(vec![7, 8]) }]);
    assert_eq!(data.symbol("job"), Some(0x40));
    assert_eq!(data.bin.brisc_state, CoreData { panic: None, entry: None, state: None, pc: None });
    assert!(data.bin.state_addrs().is_empty());
    assert!(data.bin.all_complete(&[]));
    // What makes any image unfit makes a library unfit.
    let elf = build_elf(8, &[(1, 0x40, &[7, 8])], &[]);
    assert_eq!(load_library(&elf), Err(ElfError::NonZeroEntry(8)));
    assert_eq!(load_library(b"no"), Err(ElfError::Malformed));
    let image = parsed(0, vec![ProgramHeader { p_type: 1, p_offset: 9, p_filesz: 1, p_vaddr: 0 }]);
    assert_eq!(kernel_data(&[0; 4], &image, false), Err(ElfError::SegmentOutOfFile(0)));
}

fn parsed(entry: u64, headers: Vec<ProgramHeader>) -> ElfImage {
    ElfImage {
        entry,
        headers,
        symbols: required()
            .into_iter()
            .map(|(name, value)| (Some(name.to_string()), value as u64))
            .chain([(None, 7), (Some("twice".to_string()), 1), (Some("twice".to_string()), 2)])
            .collect(),
    }
}

#[test]
fn what_is_taken_from_a_parsed_image() {
    let file = [10u8, 11, 12, 13, 14, 15, 16, 17];
    let load = |p_offset, p_filesz, p_vaddr| ProgramHeader { p_type: 1, p_offset, p_filesz, p_vaddr };
    let image = parsed(
        0,
        vec![
            load(2, 3, 0x1_0000_0040),
            ProgramHeader { p_type: 2, p_offset: 100, p_filesz: 100, p_vaddr: 0 },
            load(8, 0, 0x80),
            load(0, 8, 0x100),
        ],
    );
    let data = kernel_data(&file, &image, true).unwrap();
    assert_eq!(
        data.writes,
        vec![
            KernelBytes { addr: 0x40, data: Alignment16(vec![12, 13, 14]) },
            KernelBytes { addr: 0x80, data: Alignment16(vec![]) },
            KernelBytes { addr: 0x100, data: Alignment16(file.to_vec()) },
        ]
    );
    // Symbols without a name are left out; of two with one name the later
    // counts.
    assert_eq!(data.sym_table.len(), 17);
    assert_eq!(data.symbol("twice"), Some(2));
    assert_eq!(data.bin.start_sync, None);
    assert_eq!(data.bin.ncrisc_state.pc, Some(0x1104));

    for bad in [load(0, 9, 0), load(9, 0, 0), load(8, 1, 0), load(u64::MAX, 2, 0), load(1, u64::MAX, 0)] {
        let image = parsed(0, vec![load(0, 1, 0), bad, load(100, 1, 0)]);
        assert_eq!(kernel_data(&file, &image, true), Err(ElfError::SegmentOutOfFile(1)));
    }
    // The entry point is looked at first.
    let image = parsed(4, vec![load(100, 1, 0)]);
    assert_eq!(kernel_data(&file, &image, true), Err(ElfError::NonZeroEntry(4)));
    // And the segments before the symbols.
    let mut image = parsed(0, vec![load(100, 1, 0)]);
    image.symbols.clear();
    assert_eq!(kernel_data(&file, &image, true), Err(ElfError::SegmentOutOfFile(0)));
}
