//! Loading a RISC-V ELF64 executable into a program: entry point and initial words.
use vstd::prelude::*;
use elf::endian::LittleEndian;
use elf::file::Class;
use elf::ElfBytes;
use std::collections::BTreeMap;

verus! {

broadcast use vstd::std_specs::btree::group_btree_axioms, vstd::laws_cmp::group_laws_cmp;

/// `e_machine` of RISC-V.
pub const EM_RISCV: u16 = 243;

/// `e_type` of an executable.
pub const ET_EXEC: u16 = 2;

/// `p_type` of a loadable segment.
pub const PT_LOAD: u32 = 1;

/// `jalr x0, 0(x1)`: return at once.
pub const RET_INSN: u32 = 0x00008067;

/// The unsigned little-endian number in `n` bytes of `s` from `off`.
pub open spec fn le_bytes(s: Seq<u8>, off: int, n: nat) -> int
    decreases n,
{
    if n == 0 {
        0
    } else {
        s[off] + 256 * le_bytes(s, off + 1, (n - 1) as nat)
    }
}

/// Whether the ELF parser accepts `input` as a little-endian ELF file.
pub uninterp spec fn elf_parses(input: Seq<u8>) -> bool;

/// The program headers the ELF parser reads from `input`, as
/// `(p_type, p_offset, p_vaddr, p_filesz, p_memsz)`; `None` where there is no segment table.
pub uninterp spec fn elf_segments(input: Seq<u8>) -> Option<Seq<(u32, u64, u64, u64, u64)>>;

/// The symbols the ELF parser reads from `input`'s symbol table, as (name, value), where a name
/// that cannot be read is `None`; `None` where there is no readable symbol table.
pub uninterp spec fn elf_symbols(input: Seq<u8>) -> Option<Seq<(Option<Seq<char>>, u64)>>;

/// The header fields the loader checks.
#[derive(Clone, Copy, Debug, PartialEq, Eq, Structural)]
pub struct ElfHeader {
    /// The file is of class ELF64.
    pub class64: bool,
    pub e_type: u16,
    pub e_machine: u16,
    pub e_entry: u64,
}

/// A program header.
#[derive(Clone, Copy, Debug, PartialEq, Eq, Structural)]
pub struct SegmentHeader {
    pub p_type: u32,
    pub p_offset: u64,
    pub p_vaddr: u64,
    pub p_filesz: u64,
    pub p_memsz: u64,
}

/// A symbol: its name, where readable, and its value.
#[derive(Debug)]
pub struct ElfSymbol {
    pub name: Option<String>,
    pub value: u64,
}

impl SegmentHeader {
    pub open spec fn view(&self) -> (u32, u64, u64, u64, u64) {
        (self.p_type, self.p_offset, self.p_vaddr, self.p_filesz, self.p_memsz)
    }
}

impl ElfSymbol {
    pub open spec fn view(&self) -> (Option<Seq<char>>, u64) {
        (
            match self.name {
                Some(n) => Some(n@),
                None => None,
            },
            self.value,
        )
    }
}

pub open spec fn segments_view(v: Seq<SegmentHeader>) -> Seq<(u32, u64, u64, u64, u64)> {
    v.map_values(|s: SegmentHeader| s@)
}

pub open spec fn symbols_view(v: Seq<ElfSymbol>) -> Seq<(Option<Seq<char>>, u64)> {
    v.map_values(|s: ElfSymbol| s@)
}

/// Relies on `elf::ElfBytes::minimal_parse` (little-endian): it accepts or refuses the file,
/// and an accepted file's header holds the class byte at offset 4, `e_type` at 16, `e_machine`
/// at 18 and, for ELF64, `e_entry` at 24, little-endian.
#[verifier::external_body]
fn parse_header(input: &[u8]) -> (r: Option<ElfHeader>)
    ensures
        r is Some <==> elf_parses(input@),
        r matches Some(h) ==> {
            &&& input@.len() >= 64 || !h.class64
            &&& h.class64 == (input@[4] == 2)
            &&& h.e_type == le_bytes(input@, 16, 2)
            &&& h.e_machine == le_bytes(input@, 18, 2)
            &&& h.class64 ==> h.e_entry == le_bytes(input@, 24, 8)
        },
{
    let file = ElfBytes::<LittleEndian>::minimal_parse(input).ok()?;
    let class64 = match file.ehdr.class {
        Class::ELF64 => true,
        Class::ELF32 => false,
    };
    Some(
        ElfHeader {
            class64,
            e_type: file.ehdr.e_type,
            e_machine: file.ehdr.e_machine,
            e_entry: file.ehdr.e_entry,
        },
    )
}

/// Relies on `elf::ElfBytes::minimal_parse` and `ElfBytes::segments`: the program headers,
/// in file order. For an ELF64 file whose `e_phnum` (offset 56) is not the `0xffff` escape,
/// there is no table when `e_phoff` (offset 32) is zero; otherwise the table has `e_phnum`
/// entries of 56 bytes from `e_phoff`, each with `p_type`, `p_offset`, `p_vaddr`, `p_filesz`
/// and `p_memsz` at offsets 0, 8, 16, 32 and 40, little-endian.
#[verifier::external_body]
fn parse_segments(input: &[u8]) -> (r: Option<Vec<SegmentHeader>>)
    requires
        elf_parses(input@),
    ensures
        match r {
            Some(v) => elf_segments(input@) == Some(segments_view(v@)),
            None => elf_segments(input@) is None,
        },
        r is None ==> (input@[4] == 2 && le_bytes(input@, 56, 2) != 0xffff ==> le_bytes(
            input@,
            32,
            8,
        ) == 0),
        r matches Some(v) ==> (input@[4] == 2 && le_bytes(input@, 56, 2) != 0xffff ==> {
            let phoff = le_bytes(input@, 32, 8);
            &&& phoff != 0
            &&& v@.len() == le_bytes(input@, 56, 2)
            &&& forall|i: int|
                0 <= i < v@.len() ==> {
                    let at = phoff + 56 * i;
                    &&& (#[trigger] v@[i]).p_type == le_bytes(input@, at, 4)
                    &&& v@[i].p_offset == le_bytes(input@, at + 8, 8)
                    &&& v@[i].p_vaddr == le_bytes(input@, at + 16, 8)
                    &&& v@[i].p_filesz == le_bytes(input@, at + 32, 8)
                    &&& v@[i].p_memsz == le_bytes(input@, at + 40, 8)
                }
        }),
{
    let file = ElfBytes::<LittleEndian>::minimal_parse(input).ok()?;
    let table = file.segments()?;
    Some(
        table.iter().map(
            |p| SegmentHeader {
                p_type: p.p_type,
                p_offset: p.p_offset,
                p_vaddr: p.p_vaddr,
                p_filesz: p.p_filesz,
                p_memsz: p.p_memsz,
            },
        ).collect(),
    )
}

/// Relies on `elf::ElfBytes::minimal_parse`, `ElfBytes::symbol_table` and `StringTable::get`:
/// the symbols of the symbol table, in table order, with their names.
#[verifier::external_body]
fn parse_symbols(input: &[u8]) -> (r: Option<Vec<ElfSymbol>>)
    requires
        elf_parses(input@),
    ensures
        match r {
            Some(v) => elf_symbols(input@) == Some(symbols_view(v@)),
            None => elf_symbols(input@) is None,
        },
{
    let file = ElfBytes::<LittleEndian>::minimal_parse(input).ok()?;
    let (symtab, strtab) = file.symbol_table().ok()??;
    Some(
        symtab.iter().map(
            |s| ElfSymbol {
                name: strtab.get(s.st_name as usize).ok().map(|n| n.to_string()),
                value: s.st_value,
            },
        ).collect(),
    )
}

/// A RISC-V program: where it starts and its initial memory words.
pub struct Program {
    /// The entry point.
    pub entry: u64,
    /// The initial memory: address to word.
    pub image: BTreeMap<u64, u32>,
}

impl Program {
    /// The program's initial memory, address to word.
    pub open spec fn image_view(&self) -> Map<u64, u32> {
        self.image@
    }

    /// The initial word at `addr`, if the program has one.
    pub fn word_at(&self, addr: u64) -> (r: Option<u32>)
        ensures
            r is Some <==> self.image_view().contains_key(addr),
            r matches Some(w) ==> self.image_view()[addr] == w,
    {
        match self.image.get(&addr) {
            Some(w) => Some(*w),
            None => None,
        }
    }
}

/// Why an executable was refused.
#[derive(Clone, Copy, Debug, PartialEq, Eq, Structural)]
pub enum LoadError {
    /// The bytes do not parse as a little-endian ELF file.
    Malformed,
    /// Not a 64-bit ELF.
    NotElf64,
    /// The machine is not RISC-V.
    InvalidMachine,
    /// The file is not an executable.
    NotExecutable,
    /// The entry point is not below the memory limit or not word-aligned.
    InvalidEntry,
    /// There is no segment table.
    MissingSegmentTable,
    /// More than 256 program headers.
    TooManySegments,
    /// A loadable segment's file size is not below the memory limit.
    InvalidFileSize,
    /// A loadable segment's memory size is not below the memory limit.
    InvalidMemSize,
    /// A loadable segment runs past the end of the address space.
    InvalidVaddr,
    /// A loadable segment's bytes lie past the end of the file.
    InvalidOffset,
    /// There is no readable symbol table.
    MissingSymbolTable,
    /// A symbol's name cannot be read.
    InvalidSymbolName,
    /// A symbol of the patch set points at no word of the image.
    MissingPatchTarget(u64),
}

/// The header check: the first failed condition, in order.
pub open spec fn header_error(h: ElfHeader, max_mem: u64) -> Option<LoadError> {
    if !h.class64 {
        Some(LoadError::NotElf64)
    } else if h.e_machine != EM_RISCV {
        Some(LoadError::InvalidMachine)
    } else if h.e_type != ET_EXEC {
        Some(LoadError::NotExecutable)
    } else if h.e_entry >= max_mem || h.e_entry % 4 != 0 {
        Some(LoadError::InvalidEntry)
    } else {
        None
    }
}

/// The little-endian word in `n` bytes of `input` from `start`, higher bytes zero;
/// `None` where a byte lies past the end of `input`.
pub open spec fn le_word(input: Seq<u8>, start: int, n: int) -> Option<u32>
    decreases n,
{
    if n <= 0 {
        Some(0)
    } else {
        match le_word(input, start, n - 1) {
            None => None,
            Some(w) => if start + n - 1 < input.len() {
                Some(w | ((input[start + n - 1] as u32) << (((n - 1) * 8) as u32)))
            } else {
                None
            },
        }
    }
}

/// The word of segment `s` at offset `i`: zero past the file size, else read from the file.
pub open spec fn segment_word(input: Seq<u8>, s: (u32, u64, u64, u64, u64), i: int) -> Option<u32> {
    if i >= s.3 {
        Some(0)
    } else {
        le_word(input, s.1 + i, if s.3 - i < 4 {
            s.3 - i
        } else {
            4
        })
    }
}

/// Emits the words of segment `s` from offset `i` on, after `entries`.
pub open spec fn project_segment(
    entries: Map<u64, u32>,
    input: Seq<u8>,
    s: (u32, u64, u64, u64, u64),
    i: int,
) -> Result<Map<u64, u32>, LoadError>
    decreases s.4 + 4 - i,
{
    if i < 0 || i >= s.4 {
        Ok(entries)
    } else if s.2 + i > u64::MAX {
        Err(LoadError::InvalidVaddr)
    } else {
        match segment_word(input, s, i) {
            None => Err(LoadError::InvalidOffset),
            Some(w) => project_segment(entries.insert((s.2 + i) as u64, w), input, s, i + 4),
        }
    }
}

/// Emits the words of the loadable segments from index `k` on, after `entries`.
pub open spec fn project_segments(
    entries: Map<u64, u32>,
    input: Seq<u8>,
    segs: Seq<(u32, u64, u64, u64, u64)>,
    k: int,
    max_mem: u64,
) -> Result<Map<u64, u32>, LoadError>
    decreases segs.len() - k,
{
    if k < 0 || k >= segs.len() {
        Ok(entries)
    } else {
        let s = segs[k];
        if s.0 != PT_LOAD {
            project_segments(entries, input, segs, k + 1, max_mem)
        } else if s.3 >= max_mem {
            Err(LoadError::InvalidFileSize)
        } else if s.4 >= max_mem {
            Err(LoadError::InvalidMemSize)
        } else {
            match project_segment(entries, input, s, 0) {
                Err(e) => Err(e),
                Ok(en) => project_segments(en, input, segs, k + 1, max_mem),
            }
        }
    }
}

/// Overwrites with `RET_INSN` the word at each symbol of `syms` from index `k` on whose name
/// is in `patch_set`.
pub open spec fn apply_patches(
    entries: Map<u64, u32>,
    syms: Seq<(Option<Seq<char>>, u64)>,
    k: int,
    patch_set: Seq<Seq<char>>,
) -> Result<Map<u64, u32>, LoadError>
    decreases syms.len() - k,
{
    if k < 0 || k >= syms.len() {
        Ok(entries)
    } else {
        match syms[k].0 {
            None => Err(LoadError::InvalidSymbolName),
            Some(name) => if patch_set.contains(name) {
                if entries.contains_key(syms[k].1) {
                    apply_patches(entries.insert(syms[k].1, RET_INSN), syms, k + 1, patch_set)
                } else {
                    Err(LoadError::MissingPatchTarget(syms[k].1))
                }
            } else {
                apply_patches(entries, syms, k + 1, patch_set)
            },
        }
    }
}

/// The whole load after parsing: header check, segment table, projection, patching.
/// The result is the entry point and the image.
pub open spec fn load_spec(
    input: Seq<u8>,
    max_mem: u64,
    h: ElfHeader,
    segs: Option<Seq<(u32, u64, u64, u64, u64)>>,
    syms: Option<Seq<(Option<Seq<char>>, u64)>>,
    patch_set: Seq<Seq<char>>,
) -> Result<(u64, Map<u64, u32>), LoadError> {
    match header_error(h, max_mem) {
        Some(e) => Err(e),
        None => match segs {
            None => Err(LoadError::MissingSegmentTable),
            Some(sg) => if sg.len() > 256 {
                Err(LoadError::TooManySegments)
            } else {
                match project_segments(Map::empty(), input, sg, 0, max_mem) {
                    Err(e) => Err(e),
                    Ok(en) => match syms {
                        None => Err(LoadError::MissingSymbolTable),
                        Some(sy) => match apply_patches(en, sy, 0, patch_set) {
                            Err(e) => Err(e),
                            Ok(fin) => Ok((h.e_entry, fin)),
                        },
                    },
                }
            },
        },
    }
}

/// Names of the runtime functions that the loader patches out.
pub open spec fn default_patch_set() -> Seq<Seq<char>> {
    seq![
        "runtime.gcenable"@,
        "runtime.init.5"@,
        "runtime.main.func1"@,
        "runtime.deductSweepCredit"@,
        "runtime.(*gcControllerState).commit"@,
        "github.com/prometheus/client_golang/prometheus.init"@,
        "github.com/prometheus/client_golang/prometheus.init.0"@,
        "github.com/prometheus/procfs.init"@,
        "github.com/prometheus/common/model.init"@,
        "github.com/prometheus/client_model/go.init"@,
        "github.com/prometheus/client_model/go.init.0"@,
        "github.com/prometheus/client_model/go.init.1"@,
        "flag.init"@,
        "runtime.fastexprand"@,
        "runtime.getRandomData"@,
        "runtime.initsig"@,
        "runtime.check"@,
        "runtime.doInit"@,
    ]
}

/// The patch set, as strings.
pub fn patch_names() -> (r: Vec<String>)
    ensures
        r@.map_values(|s: String| s@) == default_patch_set(),
{
    let names: [&str; 18] = [
        "runtime.gcenable",
        "runtime.init.5",
        "runtime.main.func1",
        "runtime.deductSweepCredit",
        "runtime.(*gcControllerState).commit",
        "github.com/prometheus/client_golang/prometheus.init",
        "github.com/prometheus/client_golang/prometheus.init.0",
        "github.com/prometheus/procfs.init",
        "github.com/prometheus/common/model.init",
        "github.com/prometheus/client_model/go.init",
        "github.com/prometheus/client_model/go.init.0",
        "github.com/prometheus/client_model/go.init.1",
        "flag.init",
        "runtime.fastexprand",
        "runtime.getRandomData",
        "runtime.initsig",
        "runtime.check",
        "runtime.doInit",
    ];
    let mut r: Vec<String> = Vec::new();
    let mut i: usize = 0;
    while i < 18
        invariant
            i <= 18,
            names@.len() == 18,
            names@.map_values(|s: &str| s@) == default_patch_set(),
            r@.len() == i,
            forall|k: int| 0 <= k < i ==> #[trigger] r@[k]@ == names@[k]@,
        decreases 18 - i,
    {
        r.push(names[i].to_owned());
        i = i + 1;
    }
    assert(r@.map_values(|s: String| s@) =~= names@.map_values(|s: &str| s@));
    r
}

pub open spec fn opt_segments(o: Option<Vec<SegmentHeader>>) -> Option<Seq<(u32, u64, u64, u64, u64)>> {
    match o {
        Some(v) => Some(segments_view(v@)),
        None => None,
    }
}

pub open spec fn opt_symbols(o: Option<Vec<ElfSymbol>>) -> Option<Seq<(Option<Seq<char>>, u64)>> {
    match o {
        Some(v) => Some(symbols_view(v@)),
        None => None,
    }
}

pub open spec fn names_view(v: Seq<String>) -> Seq<Seq<char>> {
    v.map_values(|s: String| s@)
}

/// The little-endian word in `n` bytes of `input` from `start`; `None` past the end of `input`.
fn read_word(input: &[u8], start: u128, n: u64) -> (r: Option<u32>)
    requires
        n <= 4,
        start < 0x2_0000_0000_0000_0000,
    ensures
        r == le_word(input@, start as int, n as int),
{
    let mut word: u32 = 0;
    let mut j: u64 = 0;
    while j < n
        invariant
            j <= n,
            n <= 4,
            start < 0x2_0000_0000_0000_0000,
            le_word(input@, start as int, j as int) == Some(word),
        decreases n - j,
    {
        let idx = start + j as u128;
        if idx >= input.len() as u128 {
            assert(le_word(input@, start as int, (j + 1) as int) is None);
            proof {
                lemma_le_word_none(input@, start as int, (j + 1) as int, n as int);
            }
            return None;
        }
        let b = input[idx as usize];
        word = word | ((b as u32) << ((j * 8) as u32));
        j = j + 1;
    }
    word_opt(word)
}

fn word_opt(w: u32) -> (r: Option<u32>)
    ensures
        r == Some(w),
{
    Some(w)
}

/// Once a prefix of the bytes is missing, so is the word.
proof fn lemma_le_word_none(input: Seq<u8>, start: int, j: int, n: int)
    requires
        1 <= j <= n,
        le_word(input, start, j) is None,
    ensures
        le_word(input, start, n) is None,
    decreases n - j,
{
    if j < n {
        lemma_le_word_none(input, start, j + 1, n);
    }
}

/// Appends the words of segment `s` to `entries`.
fn project_one(entries: &mut BTreeMap<u64, u32>, input: &[u8], s: SegmentHeader) -> (r: Result<
    (),
    LoadError,
>)
    ensures
        match project_segment(old(entries)@, input@, s@, 0) {
            Ok(en) => r is Ok && final(entries)@ == en,
            Err(e) => r == Err::<(), LoadError>(e),
        },
{
    let mut i: u64 = 0;
    if s.p_memsz == 0 {
        return Ok(());
    }
    loop
        invariant
            i < s.p_memsz,
            project_segment(old(entries)@, input@, s@, 0) == project_segment(
                entries@,
                input@,
                s@,
                i as int,
            ),
        decreases s.p_memsz - i,
    {
        let addr = match s.p_vaddr.checked_add(i) {
            Some(a) => a,
            None => {
                return Err(LoadError::InvalidVaddr);
            },
        };
        let word = if i >= s.p_filesz {
            0
        } else {
            let left = s.p_filesz - i;
            let n = if left < 4 {
                left
            } else {
                4
            };
            match read_word(input, s.p_offset as u128 + i as u128, n) {
                Some(w) => w,
                None => {
                    return Err(LoadError::InvalidOffset);
                },
            }
        };
        entries.insert(addr, word);
        if s.p_memsz - i <= 4 {
            assert(project_segment(entries@, input@, s@, i + 4) == Ok::<Map<u64, u32>, LoadError>(
                entries@,
            ));
            return Ok(());
        }
        i = i + 4;
    }
}

/// Appends the words of every loadable segment, in table order.
fn project_all(input: &[u8], segs: &Vec<SegmentHeader>, max_mem: u64) -> (r: Result<
    BTreeMap<u64, u32>,
    LoadError,
>)
    ensures
        match project_segments(Map::empty(), input@, segments_view(segs@), 0, max_mem) {
            Ok(en) => r matches Ok(v) && v@ == en,
            Err(e) => r matches Err(x) && x == e,
        },
{
    let mut entries: BTreeMap<u64, u32> = BTreeMap::new();
    let mut k: usize = 0;
    let ghost sv = segments_view(segs@);
    while k < segs.len()
        invariant
            k <= segs@.len(),
            sv == segments_view(segs@),
            sv.len() == segs@.len(),
            project_segments(Map::empty(), input@, sv, 0, max_mem) == project_segments(
                entries@,
                input@,
                sv,
                k as int,
                max_mem,
            ),
        decreases segs@.len() - k,
    {
        let s = segs[k];
        assert(sv[k as int] == s@);
        if s.p_type == PT_LOAD {
            if s.p_filesz >= max_mem {
                return Err(LoadError::InvalidFileSize);
            }
            if s.p_memsz >= max_mem {
                return Err(LoadError::InvalidMemSize);
            }
            match project_one(&mut entries, input, s) {
                Ok(()) => {},
                Err(e) => {
                    return Err(e);
                },
            }
        }
        k = k + 1;
    }
    Ok(entries)
}

/// Whether `name` is in `patch_set`.
fn in_patch_set(name: &String, patch_set: &Vec<String>) -> (r: bool)
    ensures
        r == names_view(patch_set@).contains(name@),
{
    let mut j: usize = 0;
    while j < patch_set.len()
        invariant
            j <= patch_set@.len(),
            forall|k: int| 0 <= k < j ==> patch_set@[k]@ != name@,
        decreases patch_set@.len() - j,
    {
        if *name == patch_set[j] {
            assert(names_view(patch_set@)[j as int] == name@);
            return true;
        }
        j = j + 1;
    }
    assert(!names_view(patch_set@).contains(name@)) by {
        if names_view(patch_set@).contains(name@) {
            let k = choose|k: int| 0 <= k < names_view(patch_set@).len() && names_view(patch_set@)[k] == name@;
            assert(patch_set@[k]@ == name@);
        }
    }
    false
}

/// Patches the words at the symbols of `syms` named in `patch_set`.
fn patch_symbols(entries: &mut BTreeMap<u64, u32>, syms: &Vec<ElfSymbol>, patch_set: &Vec<String>) -> (r:
    Result<(), LoadError>)
    ensures
        match apply_patches(old(entries)@, symbols_view(syms@), 0, names_view(patch_set@)) {
            Ok(en) => r is Ok && final(entries)@ == en,
            Err(e) => r == Err::<(), LoadError>(e),
        },
{
    let ghost sv = symbols_view(syms@);
    let ghost ps = names_view(patch_set@);
    let mut k: usize = 0;
    while k < syms.len()
        invariant
            k <= syms@.len(),
            sv == symbols_view(syms@),
            ps == names_view(patch_set@),
            sv.len() == syms@.len(),
            apply_patches(old(entries)@, sv, 0, ps) == apply_patches(entries@, sv, k as int, ps),
        decreases syms@.len() - k,
    {
        let sym = &syms[k];
        assert(sv[k as int] == sym@);
        match &sym.name {
            None => {
                return Err(LoadError::InvalidSymbolName);
            },
            Some(name) => {
                if in_patch_set(name, patch_set) {
                    if entries.contains_key(&sym.value) {
                        entries.insert(sym.value, RET_INSN);
                    } else {
                        return Err(LoadError::MissingPatchTarget(sym.value));
                    }
                }
            },
        }
        k = k + 1;
    }
    Ok(())
}

/// Builds a program from a parsed file: checks the header, projects the loadable segments
/// and patches the symbols named in `patch_set`.
pub fn load_program(
    input: &[u8],
    max_mem: u64,
    header: ElfHeader,
    segments: Option<Vec<SegmentHeader>>,
    symbols: Option<Vec<ElfSymbol>>,
    patch_set: &Vec<String>,
) -> (r: Result<Program, LoadError>)
    ensures
        match load_spec(
            input@,
            max_mem,
            header,
            opt_segments(segments),
            opt_symbols(symbols),
            names_view(patch_set@),
        ) {
            Ok((e, en)) => r matches Ok(p) && p.entry == e && p.image@ == en,
            Err(e) => r matches Err(x) && x == e,
        },
{
    if !header.class64 {
        return Err(LoadError::NotElf64);
    }
    if header.e_machine != EM_RISCV {
        return Err(LoadError::InvalidMachine);
    }
    if header.e_type != ET_EXEC {
        return Err(LoadError::NotExecutable);
    }
    let entry = header.e_entry;
    if entry >= max_mem || entry % 4 != 0 {
        return Err(LoadError::InvalidEntry);
    }
    let segs = match segments {
        Some(v) => v,
        None => {
            return Err(LoadError::MissingSegmentTable);
        },
    };
    if segs.len() > 256 {
        return Err(LoadError::TooManySegments);
    }
    let mut image = match project_all(input, &segs, max_mem) {
        Ok(v) => v,
        Err(e) => {
            return Err(e);
        },
    };
    let syms = match symbols {
        Some(v) => v,
        None => {
            return Err(LoadError::MissingSymbolTable);
        },
    };
    match patch_symbols(&mut image, &syms, patch_set) {
        Ok(()) => {},
        Err(e) => {
            return Err(e);
        },
    }
    Ok(Program { entry, image })
}

/// The header the loader reads from `input`, which the ELF parser accepts.
pub open spec fn header_of(input: Seq<u8>) -> ElfHeader {
    ElfHeader {
        class64: input[4] == 2,
        e_type: le_bytes(input, 16, 2) as u16,
        e_machine: le_bytes(input, 18, 2) as u16,
        e_entry: le_bytes(input, 24, 8) as u64,
    }
}

impl Program {
    /// Parses `input` as a RISC-V ELF64 executable and loads it: entry below `max_mem` and
    /// word-aligned, at most 256 program headers, loadable segments projected word by word,
    /// and the functions of the patch set made to return at once.
    pub fn load_elf(input: &[u8], max_mem: u64) -> (r: Result<Program, LoadError>)
        ensures
            !elf_parses(input@) ==> r == Err::<Program, LoadError>(LoadError::Malformed),
            elf_parses(input@) ==> match load_spec(
                input@,
                max_mem,
                header_of(input@),
                elf_segments(input@),
                elf_symbols(input@),
                default_patch_set(),
            ) {
                Ok((e, en)) => r matches Ok(p) && p.entry == e && p.image@ == en,
                Err(e) => r matches Err(x) && x == e,
            },
    {
        let header = match parse_header(input) {
            Some(h) => h,
            None => {
                return Err(LoadError::Malformed);
            },
        };
        let segments = parse_segments(input);
        let symbols = parse_symbols(input);
        let names = patch_names();
        proof {
            if header.class64 {
                assert(header == header_of(input@));
            }
        }
        load_program(input, max_mem, header, segments, symbols, &names)
    }
}

} // verus!
