//! Byte-addressable memory built from disjoint regions of 64-bit cells.
use vstd::prelude::*;

verus! {

/// The width of one memory access.
#[derive(Clone, Copy, Debug, PartialEq, Eq, Structural)]
pub enum MemAccessSize {
    /// 8 bits
    Byte,
    /// 16 bits
    HalfWord,
    /// 32 bits
    Word,
    /// 64 bits
    DoubleWord,
}

impl MemAccessSize {
    /// Number of bytes moved by an access of this width.
    pub open spec fn bytes(self) -> u64 {
        match self {
            MemAccessSize::Byte => 1,
            MemAccessSize::HalfWord => 2,
            MemAccessSize::Word => 4,
            MemAccessSize::DoubleWord => 8,
        }
    }

    /// The value mask of an access of this width.
    pub open spec fn mask(self) -> u64 {
        match self {
            MemAccessSize::Byte => 0xff,
            MemAccessSize::HalfWord => 0xffff,
            MemAccessSize::Word => 0xffff_ffff,
            MemAccessSize::DoubleWord => 0xffff_ffff_ffff_ffff,
        }
    }

    pub fn num_bytes(&self) -> (r: u64)
        ensures
            r == self.bytes(),
    {
        match self {
            MemAccessSize::Byte => 1,
            MemAccessSize::HalfWord => 2,
            MemAccessSize::Word => 4,
            MemAccessSize::DoubleWord => 8,
        }
    }

    pub fn value_mask(&self) -> (r: u64)
        ensures
            r == self.mask(),
    {
        match self {
            MemAccessSize::Byte => 0xff,
            MemAccessSize::HalfWord => 0xffff,
            MemAccessSize::Word => 0xffff_ffff,
            MemAccessSize::DoubleWord => 0xffff_ffff_ffff_ffff,
        }
    }
}

/// Byte `k` (0 = least significant) of a 64-bit cell.
pub open spec fn cell_byte(c: u64, k: u64) -> u8 {
    ((c >> (k * 8) as u64) & 0xff) as u8
}

/// Something that can be read and written at the four access widths.
pub trait Memory: Sized {
    /// The invariant that every value of the type keeps.
    spec fn mem_inv(&self) -> bool;

    /// What `read_mem` returns: `None` where the access is refused.
    spec fn mem_read(&self, addr: u64, size: MemAccessSize) -> Option<u64>;

    /// Whether `write_mem` accepts the access.
    spec fn mem_writable(&self, addr: u64, size: MemAccessSize) -> bool;

    /// `post` is the memory after `write_mem(addr, size, data)` on `self`.
    spec fn mem_written(&self, addr: u64, size: MemAccessSize, data: u64, post: Self) -> bool;

    /// Reads `size` bytes at `addr`, which must be aligned to `size`.
    fn read_mem(&mut self, addr: u64, size: MemAccessSize) -> (r: Option<u64>)
        requires
            old(self).mem_inv(),
        ensures
            *final(self) == *old(self),
            r == old(self).mem_read(addr, size),
    ;

    /// Writes the low `size` bytes of `store_data` at `addr`; `true` where the write is taken.
    fn write_mem(&mut self, addr: u64, size: MemAccessSize, store_data: u64) -> (r: bool)
        requires
            old(self).mem_inv(),
        ensures
            final(self).mem_inv(),
            r == old(self).mem_writable(addr, size),
            old(self).mem_written(addr, size, store_data, *final(self)),
    ;
}

/// The abstract content of one region: where it starts, how long it is, and its cells.
pub struct RegionView {
    pub base: u64,
    pub size: u64,
    pub cells: Seq<u64>,
}

impl RegionView {
    pub open spec fn wf(self) -> bool {
        &&& self.base % 8 == 0
        &&& self.size == 8 * self.cells.len()
        &&& self.base + self.size <= u64::MAX
    }

    /// `[addr, addr + n)` lies inside this region.
    pub open spec fn holds(self, addr: int, n: int) -> bool {
        self.base <= addr && addr + n <= self.base + self.size
    }

    /// The byte stored at `addr`, which the region must hold.
    pub open spec fn byte(self, addr: int) -> u8 {
        let off = (addr - self.base) as u64;
        cell_byte(self.cells[(off / 8) as int], off % 8)
    }

    /// The value of an aligned access of width `size` at `addr`.
    pub open spec fn read(self, addr: u64, size: MemAccessSize) -> u64 {
        let off = (addr - self.base) as u64;
        (self.cells[(off / 8) as int] >> ((off % 8) * 8) as u64) & size.mask()
    }

    /// The region after an aligned write of width `size` at `addr`.
    pub open spec fn write(self, addr: u64, size: MemAccessSize, data: u64) -> RegionView {
        let off = (addr - self.base) as u64;
        let idx = (off / 8) as int;
        let sh = ((off % 8) * 8) as u64;
        let c = self.cells[idx];
        let nc = (c & !(size.mask() << sh)) | ((data & size.mask()) << sh);
        RegionView { base: self.base, size: self.size, cells: self.cells.update(idx, nc) }
    }
}

/// No two regions of `rs` share an address.
pub open spec fn disjoint(rs: Seq<RegionView>) -> bool {
    forall|i: int, j: int|
        0 <= i < rs.len() && 0 <= j < rs.len() && i != j ==> #[trigger] rs[i].base + rs[i].size
            <= #[trigger] rs[j].base || rs[j].base + rs[j].size <= rs[i].base
}

pub open spec fn space_wf(rs: Seq<RegionView>) -> bool {
    &&& forall|i: int| 0 <= i < rs.len() ==> #[trigger] rs[i].wf()
    &&& disjoint(rs)
}

/// Some region holds `[addr, addr + n)`.
pub open spec fn covered(rs: Seq<RegionView>, addr: int, n: int) -> bool {
    exists|i: int| 0 <= i < rs.len() && #[trigger] rs[i].holds(addr, n)
}

/// The region that holds `[addr, addr + n)`, when one does.
pub open spec fn region_of(rs: Seq<RegionView>, addr: int, n: int) -> int
    recommends
        covered(rs, addr, n),
{
    choose|i: int| 0 <= i < rs.len() && #[trigger] rs[i].holds(addr, n)
}

/// An access of width `size` at `addr` is aligned and falls inside one region.
pub open spec fn accessible(rs: Seq<RegionView>, addr: u64, size: MemAccessSize) -> bool {
    addr % size.bytes() == 0 && covered(rs, addr as int, size.bytes() as int)
}

/// The byte at `addr`, or `None` where no region holds it.
pub open spec fn byte_at(rs: Seq<RegionView>, addr: int) -> Option<u8> {
    if covered(rs, addr, 1) {
        Some(rs[region_of(rs, addr, 1)].byte(addr))
    } else {
        None
    }
}

/// What an access of width `size` at `addr` reads.
pub open spec fn read_spec(rs: Seq<RegionView>, addr: u64, size: MemAccessSize) -> Option<u64> {
    if accessible(rs, addr, size) {
        Some(rs[region_of(rs, addr as int, size.bytes() as int)].read(addr, size))
    } else {
        None
    }
}

/// The regions after a write of width `size` at `addr`; unchanged where the access is refused.
pub open spec fn write_spec(rs: Seq<RegionView>, addr: u64, size: MemAccessSize, data: u64) -> Seq<
    RegionView,
> {
    if accessible(rs, addr, size) {
        let i = region_of(rs, addr as int, size.bytes() as int);
        rs.update(i, rs[i].write(addr, size, data))
    } else {
        rs
    }
}

/// In a well-formed space the region holding an address is the only one.
pub proof fn lemma_region_unique(rs: Seq<RegionView>, addr: int, n: int, i: int)
    requires
        space_wf(rs),
        0 <= i < rs.len(),
        n >= 1,
        rs[i].holds(addr, n),
    ensures
        covered(rs, addr, n),
        region_of(rs, addr, n) == i,
{
    let j = region_of(rs, addr, n);
    if j != i {
        assert(rs[i].base + rs[i].size <= rs[j].base || rs[j].base + rs[j].size <= rs[i].base);
    }
}

pub(crate) proof fn lemma_cell_index(off: u64, len: nat)
    requires
        off < 8 * len,
    ensures
        off / 8 < len,
        (off % 8) * 8 < 64,
{
}

/// One region: `size` bytes from `base`, kept in 64-bit little-endian cells.
pub struct MemoryRegion {
    base: u64,
    size: u64,
    cells: Vec<u64>,
}

impl MemoryRegion {
    pub closed spec fn view(&self) -> RegionView {
        RegionView { base: self.base, size: self.size, cells: self.cells@ }
    }
}

/// Why a region could not be added.
#[derive(Clone, Copy, Debug, PartialEq, Eq, Structural)]
pub enum MemorySpaceError {
    /// The base or the size is not a multiple of eight, or the region runs past the address space.
    Misaligned,
    /// The region shares an address with one already present.
    Overlap,
}

/// A set of disjoint regions, ordered by insertion.
pub struct MemorySpace {
    regions: Vec<MemoryRegion>,
}

impl MemorySpace {
    pub closed spec fn view(&self) -> Seq<RegionView> {
        self.regions@.map_values(|r: MemoryRegion| r@)
    }

    pub open spec fn wf(&self) -> bool {
        space_wf(self@)
    }

    pub fn new() -> (r: MemorySpace)
        ensures
            r.wf(),
            r@ == Seq::<RegionView>::empty(),
    {
        let r = MemorySpace { regions: Vec::new() };
        assert(r@ =~= Seq::<RegionView>::empty());
        r
    }

    /// Adds the region `[base, base + 8 * cells.len())` holding `cells`.
    pub fn add_region(&mut self, base: u64, cells: Vec<u64>) -> (r: Result<(), MemorySpaceError>)
        requires
            old(self).wf(),
        ensures
            final(self).wf(),
            ({
                let nr = RegionView { base, size: (8 * cells@.len()) as u64, cells: cells@ };
                let fits = base % 8 == 0 && base + 8 * cells@.len() <= u64::MAX;
                let free = forall|i: int|
                    0 <= i < old(self)@.len() ==> #[trigger] old(self)@[i].base
                        + old(self)@[i].size <= base || base + 8 * cells@.len()
                        <= old(self)@[i].base;
                &&& !fits ==> r == Err::<(), MemorySpaceError>(MemorySpaceError::Misaligned)
                    && final(self)@ == old(self)@
                &&& fits && !free ==> r == Err::<(), MemorySpaceError>(MemorySpaceError::Overlap)
                    && final(self)@ == old(self)@
                &&& fits && free ==> r is Ok && final(self)@ == old(self)@.push(nr)
            }),
    {
        if base % 8 != 0 || (base as u128) + 8 * (cells.len() as u128) > u64::MAX as u128 {
            return Err(MemorySpaceError::Misaligned);
        }
        let size: u64 = cells.len() as u64 * 8;
        let mut i: usize = 0;
        while i < self.regions.len()
            invariant
                0 <= i <= self.regions.len(),
                self.wf(),
                self@ == old(self)@,
                base % 8 == 0,
                base + size <= u64::MAX,
                size == 8 * cells@.len(),
                forall|k: int|
                    0 <= k < i ==> #[trigger] self@[k].base + self@[k].size <= base || base + size
                        <= self@[k].base,
            decreases self.regions.len() - i,
        {
            let rb = self.regions[i].base;
            let rs = self.regions[i].size;
            assert(self@[i as int] == self.regions@[i as int]@);
            assert(self@[i as int].wf());
            if !(rb as u128 + rs as u128 <= base as u128 || base as u128 + size as u128
                <= rb as u128) {
                assert(!(old(self)@[i as int].base + old(self)@[i as int].size <= base || base
                    + 8 * cells@.len() <= old(self)@[i as int].base));
                return Err(MemorySpaceError::Overlap);
            }
            i = i + 1;
        }
        let ghost old_view = self@;
        self.regions.push(MemoryRegion { base, size, cells });
        assert(self@ =~= old_view.push(RegionView { base, size, cells: cells@ }));
        Ok(())
    }

    /// Adds a zero-filled region of `size` bytes at `base`.
    pub fn add_memory(&mut self, base: u64, size: u64) -> (r: Result<(), MemorySpaceError>)
        requires
            old(self).wf(),
        ensures
            final(self).wf(),
            ({
                let nr = RegionView {
                    base,
                    size,
                    cells: Seq::new((size / 8) as nat, |k: int| 0u64),
                };
                let fits = base % 8 == 0 && size % 8 == 0 && base + size <= u64::MAX && size / 8
                    <= usize::MAX;
                let free = forall|i: int|
                    0 <= i < old(self)@.len() ==> #[trigger] old(self)@[i].base
                        + old(self)@[i].size <= base || base + size <= old(self)@[i].base;
                &&& !fits ==> r == Err::<(), MemorySpaceError>(MemorySpaceError::Misaligned)
                    && final(self)@ == old(self)@
                &&& fits && !free ==> r == Err::<(), MemorySpaceError>(MemorySpaceError::Overlap)
                    && final(self)@ == old(self)@
                &&& fits && free ==> r is Ok && final(self)@ == old(self)@.push(nr)
            }),
    {
        if size % 8 != 0 || base % 8 != 0 || size > u64::MAX - base {
            return Err(MemorySpaceError::Misaligned);
        }
        if size / 8 > usize::MAX as u64 {
            return Err(MemorySpaceError::Misaligned);
        }
        let n: usize = (size / 8) as usize;
        let cells: Vec<u64> = vec![0u64; n];
        assert(cells@ =~= Seq::new((size / 8) as nat, |k: int| 0u64));
        self.add_region(base, cells)
    }

    /// Index of the region that holds `[addr, addr + n)`.
    fn find_region(&self, addr: u64, n: u64) -> (r: Option<usize>)
        requires
            self.wf(),
            1 <= n <= 8,
        ensures
            r is None ==> !covered(self@, addr as int, n as int),
            r matches Some(i) ==> i < self@.len() && self@[i as int].holds(addr as int, n as int)
                && region_of(self@, addr as int, n as int) == i,
    {
        let mut i: usize = 0;
        while i < self.regions.len()
            invariant
                0 <= i <= self.regions.len(),
                self.wf(),
                1 <= n <= 8,
                forall|k: int| 0 <= k < i ==> !(#[trigger] self@[k]).holds(addr as int, n as int),
            decreases self.regions.len() - i,
        {
            let rb = self.regions[i].base;
            let rs = self.regions[i].size;
            assert(self@[i as int] == self.regions@[i as int]@);
            if rb <= addr && (addr as u128) + (n as u128) <= (rb as u128) + (rs as u128) {
                proof {
                    lemma_region_unique(self@, addr as int, n as int, i as int);
                }
                return Some(i);
            }
            i = i + 1;
        }
        None
    }

    /// Whether an access of width `size` at `addr` is aligned and inside one region.
    pub fn is_accessible(&self, addr: u64, size: MemAccessSize) -> (r: bool)
        requires
            self.wf(),
        ensures
            r == accessible(self@, addr, size),
    {
        self.read(addr, size).is_some()
    }

    /// Reads `size` bytes at `addr`, little-endian.
    pub fn read(&self, addr: u64, size: MemAccessSize) -> (r: Option<u64>)
        requires
            self.wf(),
        ensures
            r == read_spec(self@, addr, size),
            r matches Some(v) ==> v <= size.mask(),
    {
        let n = size.num_bytes();
        if addr % n != 0 {
            return None;
        }
        match self.find_region(addr, n) {
            None => None,
            Some(i) => {
                let region = &self.regions[i];
                assert(self@[i as int] == region@);
                assert(self@[i as int].wf());
                let off = addr - region.base;
                let len = region.cells.len();
                proof {
                    lemma_cell_index(off, len as nat);
                }
                let idx = (off / 8) as usize;
                let sh = (off % 8) * 8;
                let m = size.value_mask();
                let c = region.cells[idx];
                let v = (c >> sh) & m;
                assert((c >> sh) & m <= m) by (bit_vector);
                assert(v == region@.read(addr, size));
                Some(v)
            },
        }
    }

    /// Writes the low `size` bytes of `data` at `addr`; `false` where the access is refused.
    pub fn write(&mut self, addr: u64, size: MemAccessSize, data: u64) -> (r: bool)
        requires
            old(self).wf(),
        ensures
            final(self).wf(),
            r == accessible(old(self)@, addr, size),
            final(self)@ == write_spec(old(self)@, addr, size, data),
    {
        let n = size.num_bytes();
        if addr % n != 0 {
            return false;
        }
        match self.find_region(addr, n) {
            None => false,
            Some(i) => {
                let ghost old_view = self@;
                let mut region = MemoryRegion { base: 0, size: 0, cells: Vec::new() };
                self.regions.set_and_swap(i, &mut region);
                assert(old_view[i as int] == region@);
                assert(old_view[i as int].wf());
                let off = addr - region.base;
                let len = region.cells.len();
                proof {
                    lemma_cell_index(off, len as nat);
                }
                let idx = (off / 8) as usize;
                let sh = (off % 8) * 8;
                let m = size.value_mask();
                let c = region.cells[idx];
                let nc = (c & !(m << sh)) | ((data & m) << sh);
                region.cells.set(idx, nc);
                assert(region.cells@ =~= old_view[i as int].write(addr, size, data).cells);
                assert(region@ =~= old_view[i as int].write(addr, size, data));
                self.regions.set_and_swap(i, &mut region);
                assert(self@ =~= old_view.update(i as int, old_view[i as int].write(addr, size, data)));
                assert(space_wf(self@)) by {
                    assert forall|k: int| 0 <= k < self@.len() implies #[trigger] self@[k].wf() by {
                        if k != i {
                            assert(self@[k] == old_view[k]);
                        }
                    }
                    assert forall|a: int, b: int|
                        0 <= a < self@.len() && 0 <= b < self@.len() && a != b implies #[trigger] self@[a].base + self@[a].size
                            <= #[trigger] self@[b].base || self@[b].base + self@[b].size <= self@[a].base by {
                        assert(old_view[a].base + old_view[a].size <= old_view[b].base || old_view[b].base + old_view[b].size <= old_view[a].base);
                    }
                }
                true
            },
        }
    }
}

impl Memory for MemorySpace {
    open spec fn mem_inv(&self) -> bool {
        self.wf()
    }

    open spec fn mem_read(&self, addr: u64, size: MemAccessSize) -> Option<u64> {
        read_spec(self@, addr, size)
    }

    open spec fn mem_writable(&self, addr: u64, size: MemAccessSize) -> bool {
        accessible(self@, addr, size)
    }

    open spec fn mem_written(&self, addr: u64, size: MemAccessSize, data: u64, post: Self) -> bool {
        post@ == write_spec(self@, addr, size, data)
    }

    fn read_mem(&mut self, addr: u64, size: MemAccessSize) -> (r: Option<u64>) {
        self.read(addr, size)
    }

    fn write_mem(&mut self, addr: u64, size: MemAccessSize, store_data: u64) -> (r: bool) {
        self.write(addr, size, store_data)
    }
}

/// Writing byte `j` of a cell changes that byte to `d` and keeps the other seven.
pub proof fn lemma_cell_byte_update(c: u64, d: u64, j: u64, k: u64)
    by (bit_vector)
    requires
        j < 8,
        k < 8,
        d < 256,
    ensures
        cell_byte((c & !(0xffu64 << ((j * 8) as u64))) | ((d & 0xff) << ((j * 8) as u64)), k) == (if k
            == j {
            d as u8
        } else {
            cell_byte(c, k)
        }),
{
}

/// A byte read is the byte view.
pub proof fn lemma_read_byte(c: u64, j: u64)
    by (bit_vector)
    requires
        j < 8,
    ensures
        (c >> ((j * 8) as u64)) & 0xff == cell_byte(c, j) as u64,
{
}

/// Reading back what was just written at the same width yields the written value, masked.
pub proof fn lemma_cell_read_after_write(c: u64, d: u64, s: u64, m: u64)
    by (bit_vector)
    requires
        (m == 0xff && s < 64 && s % 8 == 0) || (m == 0xffff && s < 64 && s % 16 == 0) || (m
            == 0xffff_ffff && s < 64 && s % 32 == 0) || (m == 0xffff_ffff_ffff_ffff && s == 0),
    ensures
        ((((c & !(m << s)) | ((d & m) << s)) >> s) & m) == d & m,
{
}

/// A byte write leaves the regions' bounds alone.
pub proof fn lemma_write_keeps_bounds(rs: Seq<RegionView>, addr: u64, size: MemAccessSize, data: u64)
    requires
        space_wf(rs),
    ensures
        write_spec(rs, addr, size, data).len() == rs.len(),
        forall|j: int|
            0 <= j < rs.len() ==> (#[trigger] write_spec(rs, addr, size, data)[j]).base == rs[j].base
                && write_spec(rs, addr, size, data)[j].size == rs[j].size
                && write_spec(rs, addr, size, data)[j].cells.len() == rs[j].cells.len(),
        space_wf(write_spec(rs, addr, size, data)),
{
    let ws = write_spec(rs, addr, size, data);
    if accessible(rs, addr, size) {
        let i = region_of(rs, addr as int, size.bytes() as int);
        assert(rs[i].holds(addr as int, size.bytes() as int));
        assert(rs[i].wf());
        lemma_cell_index((addr - rs[i].base) as u64, rs[i].cells.len());
    }
    assert forall|j: int| 0 <= j < ws.len() implies #[trigger] ws[j].wf() by {
        assert(rs[j].wf());
    }
    assert forall|a: int, b: int|
        0 <= a < ws.len() && 0 <= b < ws.len() && a != b implies #[trigger] ws[a].base + ws[a].size
        <= #[trigger] ws[b].base || ws[b].base + ws[b].size <= ws[a].base by {
        assert(rs[a].base + rs[a].size <= rs[b].base || rs[b].base + rs[b].size <= rs[a].base);
    }
}

/// A byte write changes exactly the byte written.
pub proof fn lemma_write_byte_view(rs: Seq<RegionView>, addr: u64, d: u8, x: int)
    requires
        space_wf(rs),
    ensures
        byte_at(write_spec(rs, addr, MemAccessSize::Byte, d as u64), x) == (if x == addr
            && covered(rs, addr as int, 1) {
            Some(d)
        } else {
            byte_at(rs, x)
        }),
{
    let ws = write_spec(rs, addr, MemAccessSize::Byte, d as u64);
    lemma_write_keeps_bounds(rs, addr, MemAccessSize::Byte, d as u64);
    if accessible(rs, addr, MemAccessSize::Byte) {
        let i = region_of(rs, addr as int, 1);
        assert(rs[i].holds(addr as int, 1));
        assert(rs[i].wf());
        if covered(rs, x, 1) {
            let jx = region_of(rs, x, 1);
            assert(rs[jx].holds(x, 1));
            assert(ws[jx].holds(x, 1));
            lemma_region_unique(ws, x, 1, jx);
            if jx == i {
                let off = (addr - rs[i].base) as u64;
                let offx = (x - rs[i].base) as u64;
                lemma_cell_index(off, rs[i].cells.len());
                lemma_cell_index(offx, rs[i].cells.len());
                let c = rs[i].cells[(off / 8) as int];
                if off / 8 == offx / 8 {
                    lemma_cell_byte_update(c, d as u64, off % 8, offx % 8);
                    assert((d as u64) & 0xff == d as u64) by (bit_vector);
                    assert(0xffu64 == MemAccessSize::Byte.mask());
                    assert(((off % 8) * 8) as u64 == ((off % 8) * 8) as u64);
                }
            }
        } else {
            if covered(ws, x, 1) {
                let jw = choose|j: int| 0 <= j < ws.len() && #[trigger] ws[j].holds(x, 1);
                assert(rs[jw].holds(x, 1));
            }
        }
    } else {
        assert(ws == rs);
    }
}

/// Two well-formed region lists with the same bounds cover the same addresses, through the same
/// regions.
pub proof fn lemma_same_bounds_cover(a: Seq<RegionView>, b: Seq<RegionView>, x: int, n: int)
    requires
        space_wf(a),
        space_wf(b),
        n >= 1,
        a.len() == b.len(),
        forall|j: int| 0 <= j < a.len() ==> #[trigger] a[j].base == b[j].base && a[j].size == b[j].size,
    ensures
        covered(a, x, n) == covered(b, x, n),
        covered(a, x, n) ==> region_of(a, x, n) == region_of(b, x, n),
{
    if covered(a, x, n) {
        let j = region_of(a, x, n);
        assert(b[j].holds(x, n));
        lemma_region_unique(b, x, n, j);
    }
    if covered(b, x, n) {
        let j = choose|j: int| 0 <= j < b.len() && #[trigger] b[j].holds(x, n);
        assert(a[j].holds(x, n));
    }
}

/// Writing one half of a cell leaves the other half's word as it was.
pub proof fn lemma_cell_other_word(c: u64, d: u64, s: u64, t: u64)
    by (bit_vector)
    requires
        s == 0 || s == 32,
        t == 0 || t == 32,
        s != t,
    ensures
        ((((c & !(0xffff_ffffu64 << s)) | ((d & 0xffff_ffff) << s)) >> t) & 0xffff_ffff) == (c >> t)
            & 0xffff_ffff,
{
}

/// Every access to a zero cell reads zero.
pub proof fn lemma_zero_cell(s: u64, m: u64)
    by (bit_vector)
    requires
        s < 64,
    ensures
        (0u64 >> s) & m == 0,
{
}

/// Word reads after a word write: the written word where it was written, the old word elsewhere.
pub proof fn lemma_word_write_read(rs: Seq<RegionView>, a: u64, d: u32, b: u64)
    requires
        space_wf(rs),
        a % 4 == 0,
        b % 4 == 0,
        covered(rs, b as int, 4),
    ensures
        read_spec(write_spec(rs, a, MemAccessSize::Word, d as u64), b, MemAccessSize::Word) == if a
            == b {
            Some(d as u64)
        } else {
            read_spec(rs, b, MemAccessSize::Word)
        },
{
    let ws = write_spec(rs, a, MemAccessSize::Word, d as u64);
    lemma_write_keeps_bounds(rs, a, MemAccessSize::Word, d as u64);
    let jb = region_of(rs, b as int, 4);
    assert(rs[jb].holds(b as int, 4));
    assert(ws[jb].holds(b as int, 4));
    lemma_region_unique(ws, b as int, 4, jb);
    assert(rs[jb].wf());
    let offb = (b - rs[jb].base) as u64;
    lemma_cell_index(offb, rs[jb].cells.len());
    if accessible(rs, a, MemAccessSize::Word) {
        let ja = region_of(rs, a as int, 4);
        assert(rs[ja].holds(a as int, 4));
        assert(rs[ja].wf());
        let offa = (a - rs[ja].base) as u64;
        lemma_cell_index(offa, rs[ja].cells.len());
        if ja == jb {
            let c = rs[ja].cells[(offa / 8) as int];
            if a == b {
                lemma_cell_read_after_write(c, d as u64, ((offa % 8) * 8) as u64, 0xffff_ffff);
                assert((d as u64) & 0xffff_ffff == d as u64) by (bit_vector);
            } else if offa / 8 == offb / 8 {
                lemma_cell_other_word(c, d as u64, ((offa % 8) * 8) as u64, ((offb % 8) * 8) as u64);
            }
        }
    } else {
        assert(ws == rs);
        if a == b {
            assert(false);
        }
    }
}

} // verus!
