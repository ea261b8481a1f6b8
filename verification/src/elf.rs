//! Firmware images in the ELF format.
//!
//! The format itself is read by the `goblin` crate. What is taken from an
//! image, and what makes an image unfit to be loaded, is decided here.

use crate::kernel::{
    find_symbol, lookup, low_word, truncate_entry, Alignment16, CoreData, CoreDataCache,
    KernelBinData, KernelBytes, KernelData,
};
use vstd::prelude::*;
use vstd::string::StringExecFns;

verus! {

/// The type of a program header whose segment is to be loaded.
pub const PT_LOAD: u32 = 1;

/// One program header of an image, as far as loading needs it.
#[derive(Clone, Copy, Debug, PartialEq, Eq, Structural)]
pub struct ProgramHeader {
    pub p_type: u32,
    pub p_offset: u64,
    pub p_filesz: u64,
    pub p_vaddr: u64,
}

/// What `goblin` finds in an image: the entry point, the program headers,
/// and the symbols, each with its name where the string table has one.
#[derive(Clone, Debug, PartialEq, Eq)]
pub struct ElfImage {
    pub entry: u64,
    pub headers: Vec<ProgramHeader>,
    pub symbols: Vec<(Option<String>, u64)>,
}

/// An image with its names as sequences of characters.
pub struct ElfView {
    pub entry: u64,
    pub headers: Seq<ProgramHeader>,
    pub symbols: Seq<(Option<Seq<char>>, u64)>,
}

/// A symbol with its name as a sequence of characters.
pub open spec fn symbol_view(s: (Option<String>, u64)) -> (Option<Seq<char>>, u64) {
    (
        match s.0 {
            Some(name) => Some(name@),
            None => None,
        },
        s.1,
    )
}

impl View for ElfImage {
    type V = ElfView;

    open spec fn view(&self) -> ElfView {
        ElfView {
            entry: self.entry,
            headers: self.headers@,
            symbols: self.symbols@.map_values(|s: (Option<String>, u64)| symbol_view(s)),
        }
    }
}

/// What `goblin::elf::Elf::parse` makes of `bytes`: nothing where it
/// reports an error, else the entry point, the program headers in order,
/// and the symbols of the symbol table in order, each with the name that
/// the string table gives for it.
pub uninterp spec fn goblin_elf(bytes: Seq<u8>) -> Option<ElfView>;

/// Parses an image with `goblin::elf::Elf::parse` and takes out of the
/// result what loading needs; names are resolved with `Strtab::get_at`.
/// The contract only gives the result a name: nothing is claimed of what
/// `goblin` finds in which bytes.
#[verifier::external_body]
fn parse_elf(bytes: &[u8]) -> (r: Option<ElfImage>)
    ensures
        match r {
            Some(image) => goblin_elf(bytes@) == Some(image@),
            None => goblin_elf(bytes@) is None,
        },
{
    let elf = goblin::elf::Elf::parse(bytes).ok()?;
    let headers = elf.program_headers.iter().map(
        |h| ProgramHeader {
            p_type: h.p_type,
            p_offset: h.p_offset,
            p_filesz: h.p_filesz,
            p_vaddr: h.p_vaddr,
        },
    ).collect();
    let symbols = elf.syms.iter().map(
        |s| (elf.strtab.get_at(s.st_name).map(|n| n.to_string()), s.st_value),
    ).collect();
    Some(ElfImage { entry: elf.entry, headers, symbols })
}

/// Why an image cannot be loaded.
#[derive(Clone, Debug, PartialEq, Eq)]
pub enum ElfError {
    /// The bytes are no ELF image.
    Malformed,
    /// The image does not start at address zero.
    NonZeroEntry(u64),
    /// The program header at this place names bytes that the file does not
    /// have.
    SegmentOutOfFile(usize),
    /// The image lacks a symbol that the host needs to follow its cores.
    MissingSymbol(String),
}

/// Whether the bytes that a header names lie in a file of `len` bytes.
pub open spec fn segment_in_file(h: ProgramHeader, len: int) -> bool {
    h.p_offset + h.p_filesz <= len
}

/// The address a segment is loaded at: the low word of its virtual
/// address.
pub open spec fn segment_addr(h: ProgramHeader) -> u32 {
    low_word(h.p_vaddr)
}

/// The place of the first header to be loaded whose bytes the file does
/// not have, among the first `n`; `None` if there is none.
pub open spec fn first_bad_segment(headers: Seq<ProgramHeader>, len: int, n: int) -> Option<int>
    decreases n,
{
    if n <= 0 {
        None
    } else {
        match first_bad_segment(headers, len, n - 1) {
            Some(i) => Some(i),
            None => if headers[n - 1].p_type == PT_LOAD && !segment_in_file(headers[n - 1], len) {
                Some(n - 1)
            } else {
                None
            },
        }
    }
}

/// The segments of an image: for each header to be loaded, in order, the
/// address and the bytes of the file that the header names.
pub open spec fn segments_of(bytes: Seq<u8>, headers: Seq<ProgramHeader>) -> Seq<(u32, Seq<u8>)> {
    headers.filter_map(
        |h: ProgramHeader|
            if h.p_type == PT_LOAD {
                Some(
                    (
                        segment_addr(h),
                        bytes.subrange(h.p_offset as int, h.p_offset + h.p_filesz),
                    ),
                )
            } else {
                None
            },
    )
}

/// A segment as its address and its bytes.
pub open spec fn segment_view(s: KernelBytes) -> (u32, Seq<u8>) {
    (s.addr, s.data.0@)
}

/// The symbols that have a name, in order.
pub open spec fn named_symbols(symbols: Seq<(Option<Seq<char>>, u64)>) -> Seq<(Seq<char>, u64)> {
    symbols.filter_map(
        |s: (Option<Seq<char>>, u64)|
            match s.0 {
                Some(name) => Some((name, s.1)),
                None => None,
            },
    )
}

/// A symbol table entry with its name as a sequence of characters.
pub open spec fn entry_view(e: (String, u64)) -> (Seq<char>, u64) {
    (e.0@, e.1)
}

/// The value of the symbol `name`: that of the last entry that bears it.
pub open spec fn lookup_view(table: Seq<(Seq<char>, u64)>, name: Seq<char>) -> Option<u64>
    decreases table.len(),
{
    if table.len() == 0 {
        None
    } else if table.last().0 == name {
        Some(table.last().1)
    } else {
        lookup_view(table.drop_last(), name)
    }
}

/// Looking a name up in a table is looking it up among the table's names.
pub proof fn lemma_lookup_view(table: Seq<(String, u64)>, name: Seq<char>)
    ensures
        lookup(table, name) == lookup_view(table.map_values(|e: (String, u64)| entry_view(e)), name),
    decreases table.len(),
{
    let views = table.map_values(|e: (String, u64)| entry_view(e));
    if table.len() > 0 {
        assert(views.drop_last() =~= table.drop_last().map_values(
            |e: (String, u64)| entry_view(e),
        ));
        lemma_lookup_view(table.drop_last(), name);
    }
}

/// The names under which an image keeps what the host needs to know of
/// core `i`: its entry point, its state, its postcode and its panic record.
pub open spec fn core_names_spec(i: int) -> (Seq<char>, Seq<char>, Seq<char>, Seq<char>) {
    if i == 0 {
        ("__brisc_start"@, "STATE_BRISC"@, "POSTCODE_BRISC"@, "PANIC_DATA_BRISC"@)
    } else if i == 1 {
        ("__ncrisc_start"@, "STATE_NCRISC"@, "POSTCODE_NCRISC"@, "PANIC_DATA_NCRISC"@)
    } else if i == 2 {
        ("__trisc0_start"@, "STATE_TRISC0"@, "POSTCODE_TRISC0"@, "PANIC_DATA_TRISC0"@)
    } else if i == 3 {
        ("__trisc1_start"@, "STATE_TRISC1"@, "POSTCODE_TRISC1"@, "PANIC_DATA_TRISC1"@)
    } else {
        ("__trisc2_start"@, "STATE_TRISC2"@, "POSTCODE_TRISC2"@, "PANIC_DATA_TRISC2"@)
    }
}

pub fn core_names(i: usize) -> (r: (&'static str, &'static str, &'static str, &'static str))
    requires
        i < 5,
    ensures
        (r.0@, r.1@, r.2@, r.3@) == core_names_spec(i as int),
{
    if i == 0 {
        ("__brisc_start", "STATE_BRISC", "POSTCODE_BRISC", "PANIC_DATA_BRISC")
    } else if i == 1 {
        ("__ncrisc_start", "STATE_NCRISC", "POSTCODE_NCRISC", "PANIC_DATA_NCRISC")
    } else if i == 2 {
        ("__trisc0_start", "STATE_TRISC0", "POSTCODE_TRISC0", "PANIC_DATA_TRISC0")
    } else if i == 3 {
        ("__trisc1_start", "STATE_TRISC1", "POSTCODE_TRISC1", "PANIC_DATA_TRISC1")
    } else {
        ("__trisc2_start", "STATE_TRISC2", "POSTCODE_TRISC2", "PANIC_DATA_TRISC2")
    }
}

/// What a symbol table says of core `i`.
pub open spec fn core_of(table: Seq<(Seq<char>, u64)>, i: int) -> CoreData {
    let names = core_names_spec(i);
    CoreData {
        entry: lookup_view(table, names.0),
        state: lookup_view(table, names.1),
        pc: lookup_view(table, names.2),
        panic: lookup_view(table, names.3),
    }
}

/// The first symbol that the host needs and a core from `i` on lacks:
/// its entry point, its state or its postcode.
pub open spec fn missing_from(table: Seq<(Seq<char>, u64)>, i: int) -> Option<Seq<char>>
    decreases 5 - i,
{
    if i >= 5 || i < 0 {
        None
    } else {
        let core = core_of(table, i);
        let names = core_names_spec(i);
        if core.entry is None {
            Some(names.0)
        } else if core.state is None {
            Some(names.1)
        } else if core.pc is None {
            Some(names.2)
        } else {
            missing_from(table, i + 1)
        }
    }
}

/// What the host knows of an image with the symbols of `table`.
pub open spec fn bin_data_of(table: Seq<(Seq<char>, u64)>, bin: KernelBinData) -> bool {
    &&& bin.start_sync == lookup_view(table, "START_SYNC"@)
    &&& bin.brisc_state == core_of(table, 0)
    &&& bin.ncrisc_state == core_of(table, 1)
    &&& bin.trisc0_state == core_of(table, 2)
    &&& bin.trisc1_state == core_of(table, 3)
    &&& bin.trisc2_state == core_of(table, 4)
    &&& bin.data_start == lookup_view(table, "__firmware_end"@)
    &&& bin.unknown_panic == lookup_view(table, "PANIC_DATA_UNKNOWN"@)
    &&& bin.noc_debug == lookup_view(table, "NOC_DEBUG"@)
    &&& bin.core_data_cache.sync is None
    &&& bin.core_data_cache.core_data@.len() == 0
    &&& bin.core_data_cache.panic_data is None
}

/// What is loaded of an image: `Ok` exactly when the image starts at
/// address zero, the file has the bytes of every segment to be loaded,
/// and, for an image whose cores the host is to follow (`boot_sync`), no
/// symbol that the host needs is missing; then the segments, the named
/// symbols and what the symbols say of the cores. Else the first of these
/// that fails.
pub open spec fn kernel_data_of(
    bytes: Seq<u8>,
    image: ElfView,
    boot_sync: bool,
    r: Result<KernelData, ElfError>,
) -> bool {
    let table = named_symbols(image.symbols);
    if image.entry != 0 {
        r matches Err(ElfError::NonZeroEntry(e)) && e == image.entry
    } else if first_bad_segment(image.headers, bytes.len() as int, image.headers.len() as int)
        is Some {
        r matches Err(ElfError::SegmentOutOfFile(i)) && Some(i as int) == first_bad_segment(
            image.headers,
            bytes.len() as int,
            image.headers.len() as int,
        )
    } else if boot_sync && missing_from(table, 0) is Some {
        r matches Err(ElfError::MissingSymbol(name)) && Some(name@) == missing_from(table, 0)
    } else {
        &&& r matches Ok(data)
        &&& data.writes@.map_values(|s: KernelBytes| segment_view(s)) == segments_of(
            bytes,
            image.headers,
        )
        &&& data.sym_table@.map_values(|e: (String, u64)| entry_view(e)) == table
        &&& bin_data_of(table, data.bin)
    }
}

/// Copies the bytes from `start` up to `end` out of `bytes`.
fn copy_range(bytes: &[u8], start: usize, end: usize) -> (r: Vec<u8>)
    requires
        start <= end <= bytes@.len(),
    ensures
        r@ == bytes@.subrange(start as int, end as int),
{
    let mut r: Vec<u8> = Vec::new();
    let mut i: usize = start;
    while i < end
        invariant
            start <= i <= end <= bytes@.len(),
            r@ == bytes@.subrange(start as int, i as int),
        decreases end - i,
    {
        r.push(bytes[i]);
        assert(r@ =~= bytes@.subrange(start as int, i + 1));
        i += 1;
    }
    r
}

/// What a symbol table says of core `i`.
fn core_data(table: &Vec<(String, u64)>, i: usize) -> (r: CoreData)
    requires
        i < 5,
    ensures
        r == core_of(table@.map_values(|e: (String, u64)| entry_view(e)), i as int),
{
    let names = core_names(i);
    proof {
        lemma_lookup_view(table@, names.0@);
        lemma_lookup_view(table@, names.1@);
        lemma_lookup_view(table@, names.2@);
        lemma_lookup_view(table@, names.3@);
    }
    CoreData {
        entry: find_symbol(table, names.0),
        state: find_symbol(table, names.1),
        pc: find_symbol(table, names.2),
        panic: find_symbol(table, names.3),
    }
}

/// Takes from a parsed image what is loaded of it, or says why the image
/// cannot be loaded. `bytes` is the file that `image` was parsed from;
/// `boot_sync` says whether the host is to follow the cores of the image,
/// and so needs its symbols for that.
pub fn kernel_data(bytes: &[u8], image: &ElfImage, boot_sync: bool) -> (r: Result<
    KernelData,
    ElfError,
>)
    ensures
        kernel_data_of(bytes@, image@, boot_sync, r),
{
    if image.entry != 0 {
        return Err(ElfError::NonZeroEntry(image.entry));
    }
    let ghost pick = |h: ProgramHeader|
        if h.p_type == PT_LOAD {
            Some((segment_addr(h), bytes@.subrange(h.p_offset as int, h.p_offset + h.p_filesz)))
        } else {
            None
        };
    let ghost as_view = |s: KernelBytes| segment_view(s);
    let mut writes: Vec<KernelBytes> = Vec::new();
    let mut i: usize = 0;
    while i < image.headers.len()
        invariant
            i <= image.headers@.len(),
            image.entry == 0,
            first_bad_segment(image.headers@, bytes@.len() as int, i as int) is None,
            pick == |h: ProgramHeader|
                if h.p_type == PT_LOAD {
                    Some(
                        (
                            segment_addr(h),
                            bytes@.subrange(h.p_offset as int, h.p_offset + h.p_filesz),
                        ),
                    )
                } else {
                    None
                },
            as_view == |s: KernelBytes| segment_view(s),
            writes@.map_values(as_view) == image.headers@.take(i as int).filter_map(pick),
        decreases image.headers@.len() - i,
    {
        let h = image.headers[i];
        proof {
            image.headers@.lemma_filter_map_take_succ(pick, i as int);
        }
        if h.p_type == PT_LOAD {
            let len = bytes.len() as u64;
            if h.p_offset > len || h.p_filesz > len - h.p_offset {
                proof {
                    lemma_first_bad_found(
                        image.headers@,
                        bytes@.len() as int,
                        i as int,
                        image.headers@.len() as int,
                    );
                }
                return Err(ElfError::SegmentOutOfFile(i));
            }
            let start = h.p_offset as usize;
            let end = (h.p_offset + h.p_filesz) as usize;
            let ghost before = writes@;
            let segment = KernelBytes {
                addr: truncate_entry(h.p_vaddr),
                data: Alignment16(copy_range(bytes, start, end)),
            };
            writes.push(segment);
            assert(writes@.map_values(as_view) =~= before.map_values(as_view) + seq![
                segment_view(segment),
            ]);
        }
        i += 1;
    }
    assert(image.headers@.take(i as int) =~= image.headers@);

    let ghost name_of = |s: (Option<Seq<char>>, u64)|
        match s.0 {
            Some(name) => Some((name, s.1)),
            None => None,
        };
    let ghost as_entry = |e: (String, u64)| entry_view(e);
    let ghost symbols = image@.symbols;
    let mut sym_table: Vec<(String, u64)> = Vec::new();
    let mut k: usize = 0;
    while k < image.symbols.len()
        invariant
            k <= image.symbols@.len(),
            symbols == image@.symbols,
            symbols.len() == image.symbols@.len(),
            name_of == |s: (Option<Seq<char>>, u64)|
                match s.0 {
                    Some(name) => Some((name, s.1)),
                    None => None,
                },
            as_entry == |e: (String, u64)| entry_view(e),
            sym_table@.map_values(as_entry) == symbols.take(k as int).filter_map(name_of),
        decreases image.symbols@.len() - k,
    {
        proof {
            symbols.lemma_filter_map_take_succ(name_of, k as int);
            assert(symbols[k as int] == symbol_view(image.symbols@[k as int]));
        }
        let ghost before = sym_table@;
        match &image.symbols[k].0 {
            Some(name) => {
                let entry = (name.clone(), image.symbols[k].1);
                sym_table.push(entry);
                assert(sym_table@.map_values(as_entry) =~= before.map_values(as_entry) + seq![
                    entry_view(entry),
                ]);
            },
            None => {},
        }
        k += 1;
    }
    assert(symbols.take(k as int) =~= symbols);
    let ghost table = named_symbols(image@.symbols);
    assert(sym_table@.map_values(as_entry) == table);

    let mut c: usize = if boot_sync {
        0
    } else {
        5
    };
    while c < 5
        invariant
            c <= 5,
            image.entry == 0,
            first_bad_segment(
                image.headers@,
                bytes@.len() as int,
                image.headers@.len() as int,
            ) is None,
            table == named_symbols(image@.symbols),
            table == sym_table@.map_values(|e: (String, u64)| entry_view(e)),
            boot_sync ==> missing_from(table, 0) == missing_from(table, c as int),
            !boot_sync ==> c == 5,
        decreases 5 - c,
    {
        let core = core_data(&sym_table, c);
        let names = core_names(c);
        if core.entry.is_none() {
            return Err(ElfError::MissingSymbol(String::from_str(names.0)));
        }
        if core.state.is_none() {
            return Err(ElfError::MissingSymbol(String::from_str(names.1)));
        }
        if core.pc.is_none() {
            return Err(ElfError::MissingSymbol(String::from_str(names.2)));
        }
        c += 1;
    }
    proof {
        lemma_lookup_view(sym_table@, "START_SYNC"@);
        lemma_lookup_view(sym_table@, "__firmware_end"@);
        lemma_lookup_view(sym_table@, "PANIC_DATA_UNKNOWN"@);
        lemma_lookup_view(sym_table@, "NOC_DEBUG"@);
    }
    let bin = KernelBinData {
        start_sync: find_symbol(&sym_table, "START_SYNC"),
        brisc_state: core_data(&sym_table, 0),
        ncrisc_state: core_data(&sym_table, 1),
        trisc0_state: core_data(&sym_table, 2),
        trisc1_state: core_data(&sym_table, 3),
        trisc2_state: core_data(&sym_table, 4),
        data_start: find_symbol(&sym_table, "__firmware_end"),
        unknown_panic: find_symbol(&sym_table, "PANIC_DATA_UNKNOWN"),
        noc_debug: find_symbol(&sym_table, "NOC_DEBUG"),
        core_data_cache: CoreDataCache::default(),
    };
    Ok(KernelData { sym_table, writes, bin })
}

/// A bad segment found at place `i` is the first bad segment of any longer
/// run of headers, if none came before it.
proof fn lemma_first_bad_found(headers: Seq<ProgramHeader>, len: int, i: int, n: int)
    requires
        0 <= i < n <= headers.len(),
        first_bad_segment(headers, len, i) is None,
        headers[i].p_type == PT_LOAD,
        !segment_in_file(headers[i], len),
    ensures
        first_bad_segment(headers, len, n) == Some(i),
    decreases n - i,
{
    if n > i + 1 {
        lemma_first_bad_found(headers, len, i, n - 1);
    }
}

/// Reads an image whose cores the host is to follow: what `goblin` finds
/// in the bytes, and of that what is loaded. An image that `goblin` cannot
/// read is malformed.
pub fn load_elf(elf: &[u8]) -> (r: Result<KernelData, ElfError>)
    ensures
        match goblin_elf(elf@) {
            None => r == Err::<KernelData, ElfError>(ElfError::Malformed),
            Some(image) => kernel_data_of(elf@, image, true, r),
        },
{
    match parse_elf(elf) {
        None => Err(ElfError::Malformed),
        Some(image) => kernel_data(elf, &image, true),
    }
}

/// Reads an image that is loaded as a library of jobs: as `load_elf`, but
/// nothing is asked of its symbols.
pub fn load_library(elf: &[u8]) -> (r: Result<KernelData, ElfError>)
    ensures
        match goblin_elf(elf@) {
            None => r == Err::<KernelData, ElfError>(ElfError::Malformed),
            Some(image) => kernel_data_of(elf@, image, false, r),
        },
{
    match parse_elf(elf) {
        None => Err(ElfError::Malformed),
        Some(image) => kernel_data(elf, &image, false),
    }
}

} // verus!
