//! The memory monitor: reads see committed memory, writes wait in a pending set until `commit`.
use vstd::prelude::*;
use crate::image::MemoryImage;
use crate::layout::{get_register_addr, register_addr, STACK_INITIAL_ADDRESS};
use crate::memory::{
    accessible, byte_at, cell_byte, covered, lemma_read_byte, lemma_same_bounds_cover,
    lemma_write_byte_view, lemma_write_keeps_bounds, read_spec, space_wf, MemAccessSize, Memory,
    RegionView,
};
use crate::opcode::OpCode;
use vstd::utf8::{decode_utf8, valid_utf8};

verus! {

/// One pending byte write.
#[derive(Clone, Copy, Debug, PartialEq, Eq, Structural)]
pub struct MemStore {
    pub addr: u64,
    pub data: u8,
}

/// A system call made by the guest, kept for replay.
#[derive(Clone, Copy, Debug, PartialEq, Eq, Structural)]
pub struct SyscallRecord {
    /// The call's number, as the guest passed it.
    pub number: u64,
    /// The first argument register at the call.
    pub arg0: u64,
    /// The second argument register at the call.
    pub arg1: u64,
}

/// What one instruction did, for the trace.
#[derive(Clone, Copy, Debug, PartialEq, Eq, Structural)]
pub struct OpCodeResult {
    pub syscall: Option<SyscallRecord>,
    pub pc_updated: bool,
    pub opcode: OpCode,
}

/// Why a string could not be read.
#[derive(Clone, Copy, Debug, PartialEq, Eq, Structural)]
pub enum StringError {
    /// No region holds this address, before the terminating NUL.
    Unmapped(u64),
    /// The bytes before the NUL are not UTF-8.
    InvalidUtf8,
}

/// `bs` are the nonzero bytes at `addr, addr + 1, ...`, and a zero byte follows them.
pub open spec fn c_string_at(mem: Seq<RegionView>, addr: int, bs: Seq<u8>) -> bool {
    &&& forall|i: int| 0 <= i < bs.len() ==> byte_at(mem, addr + i) == Some(#[trigger] bs[i])
        && bs[i] != 0
    &&& byte_at(mem, addr + bs.len()) == Some(0u8)
}

/// Relies on `String::from_utf8`: the string the bytes encode, when they are UTF-8.
#[verifier::external_body]
fn string_from_utf8(b: Vec<u8>) -> (r: Option<String>)
    ensures
        r is Some <==> valid_utf8(b@),
        r matches Some(s) ==> s@ == decode_utf8(b@),
{
    String::from_utf8(b).ok()
}

/// Addresses strictly increase along `s`: at most one entry per address, in ascending order.
pub open spec fn sorted_stores(s: Seq<MemStore>) -> bool {
    forall|i: int, j: int| 0 <= i < j < s.len() ==> #[trigger] s[i].addr < #[trigger] s[j].addr
}

/// The pending byte for address `a`, if any.
pub open spec fn pending_byte(s: Seq<MemStore>, a: int) -> Option<u8> {
    if exists|i: int| 0 <= i < s.len() && #[trigger] s[i].addr == a {
        Some(s[choose|i: int| 0 <= i < s.len() && #[trigger] s[i].addr == a].data)
    } else {
        None
    }
}

/// In a sorted list the entry for an address is the only one.
proof fn lemma_pending_at(s: Seq<MemStore>, i: int)
    requires
        sorted_stores(s),
        0 <= i < s.len(),
    ensures
        pending_byte(s, s[i].addr as int) == Some(s[i].data),
{
    let a = s[i].addr as int;
    let j = choose|j: int| 0 <= j < s.len() && #[trigger] s[j].addr == a;
    if j < i {
        assert(s[j].addr < s[i].addr);
    } else if j > i {
        assert(s[i].addr < s[j].addr);
    }
}

/// `post` is `pre` with byte `i` of `data` pending at `addr + i`, for each `i < n`.
pub open spec fn stores_bytes(
    pre: Seq<MemStore>,
    post: Seq<MemStore>,
    addr: u64,
    n: u64,
    data: u64,
) -> bool {
    forall|x: int| #[trigger]
        pending_byte(post, x) == if addr <= x < addr + n {
            Some(cell_byte(data, (x - addr) as u64))
        } else {
            pending_byte(pre, x)
        }
}

/// Memory after committing pending bytes `p` onto `pre`: each byte that some region holds
/// takes its pending value; every other byte is unchanged.
pub open spec fn commits(pre: Seq<RegionView>, post: Seq<RegionView>, p: Seq<MemStore>) -> bool {
    &&& post.len() == pre.len()
    &&& forall|j: int|
        0 <= j < pre.len() ==> (#[trigger] post[j]).base == pre[j].base && post[j].size
            == pre[j].size
    &&& forall|x: int| #[trigger]
        byte_at(post, x) == match pending_byte(p, x) {
            Some(b) => if covered(pre, x, 1) {
                Some(b)
            } else {
                None
            },
            None => byte_at(pre, x),
        }
}

/// Addresses of the writes of `p` that no region of `mem` holds, in order.
pub open spec fn unmapped_writes(mem: Seq<RegionView>, p: Seq<MemStore>) -> Seq<u64>
    decreases p.len(),
{
    if p.len() == 0 {
        Seq::empty()
    } else {
        let rest = unmapped_writes(mem, p.drop_last());
        if covered(mem, p.last().addr as int, 1) {
            rest
        } else {
            rest.push(p.last().addr)
        }
    }
}

/// Mediates between the executor and memory: buffers writes, records system calls.
pub struct MemoryMonitor {
    /// Committed memory.
    pub image: MemoryImage,
    /// Pending writes, strictly ascending by address.
    pub pending_writes: Vec<MemStore>,
    /// The result of the instruction in flight.
    pub op_result: Option<OpCodeResult>,
    /// System calls recorded in this segment.
    pub syscalls: Vec<SyscallRecord>,
    /// Whether the stack pointer has been bootstrapped in this session.
    pub initial: bool,
    /// Addresses of committed writes that no region held, in commit order, for the trace log.
    pub dropped_writes: Vec<u64>,
}

impl MemoryMonitor {
    /// Pending writes, ascending by address.
    pub open spec fn pending(&self) -> Seq<MemStore> {
        self.pending_writes@
    }

    /// The saved result of the instruction in flight.
    pub open spec fn op(&self) -> Option<OpCodeResult> {
        self.op_result
    }

    /// Whether the stack pointer has been bootstrapped in this session.
    pub open spec fn bootstrapped(&self) -> bool {
        self.initial
    }

    /// Committed memory.
    pub open spec fn mem(&self) -> Seq<RegionView> {
        self.image.memory_space@
    }

    pub open spec fn wf(&self) -> bool {
        &&& self.image.wf()
        &&& sorted_stores(self.pending())
    }

    /// Value of register `idx` as its shadow holds it, with the stack pointer's bootstrap applied.
    pub open spec fn register_value(&self, idx: int) -> u64 {
        let v = read_spec(self.mem(), register_addr(idx), MemAccessSize::DoubleWord)->Some_0;
        if idx == 0 {
            0
        } else if idx == 2 && v == 0 {
            STACK_INITIAL_ADDRESS
        } else {
            v
        }
    }

    pub fn new(image: MemoryImage) -> (r: MemoryMonitor)
        requires
            image.wf(),
        ensures
            r.wf(),
            r.image == image,
            r.mem() == image.memory_space@,
            r.pending() == Seq::<MemStore>::empty(),
            r.op() is None,
            r.syscalls@ == Seq::<SyscallRecord>::empty(),
            !r.bootstrapped(),
    {
        MemoryMonitor {
            image,
            pending_writes: Vec::new(),
            op_result: None,
            syscalls: Vec::new(),
            initial: false,
            dropped_writes: Vec::new(),
        }
    }

    /// The committed byte at `addr`.
    pub fn load_u8(&mut self, addr: u64) -> (r: u8)
        requires
            old(self).wf(),
            covered(old(self).mem(), addr as int, 1),
        ensures
            *final(self) == *old(self),
            read_spec(old(self).mem(), addr, MemAccessSize::Byte) == Some(r as u64),
    {
        let v = self.image.memory_space.read(addr, MemAccessSize::Byte);
        match v {
            Some(b) => b as u8,
            None => 0,
        }
    }

    /// The committed half-word at `addr`, which must be aligned.
    pub fn load_u16(&mut self, addr: u64) -> (r: u16)
        requires
            old(self).wf(),
            accessible(old(self).mem(), addr, MemAccessSize::HalfWord),
        ensures
            *final(self) == *old(self),
            read_spec(old(self).mem(), addr, MemAccessSize::HalfWord) == Some(r as u64),
    {
        let v = self.image.memory_space.read(addr, MemAccessSize::HalfWord);
        match v {
            Some(b) => b as u16,
            None => 0,
        }
    }

    /// The committed word at `addr`, which must be aligned.
    pub fn load_u32(&mut self, addr: u64) -> (r: u32)
        requires
            old(self).wf(),
            accessible(old(self).mem(), addr, MemAccessSize::Word),
        ensures
            *final(self) == *old(self),
            read_spec(old(self).mem(), addr, MemAccessSize::Word) == Some(r as u64),
    {
        let v = self.image.memory_space.read(addr, MemAccessSize::Word);
        match v {
            Some(b) => b as u32,
            None => 0,
        }
    }

    /// The committed double-word at `addr`, which must be aligned.
    pub fn load_u64(&mut self, addr: u64) -> (r: u64)
        requires
            old(self).wf(),
            accessible(old(self).mem(), addr, MemAccessSize::DoubleWord),
        ensures
            *final(self) == *old(self),
            read_spec(old(self).mem(), addr, MemAccessSize::DoubleWord) == Some(r),
    {
        let v = self.image.memory_space.read(addr, MemAccessSize::DoubleWord);
        match v {
            Some(b) => b,
            None => 0,
        }
    }

    /// The `N` committed bytes from `addr`.
    pub fn load_array<const N: usize>(&mut self, addr: u64) -> (r: [u8; N])
        requires
            old(self).wf(),
            addr + N <= u64::MAX + 1,
            forall|x: int| addr <= x < addr + N ==> #[trigger] covered(old(self).mem(), x, 1),
        ensures
            *final(self) == *old(self),
            forall|i: int| 0 <= i < N ==> byte_at(old(self).mem(), addr + i) == Some(#[trigger] r[i]),
    {
        let mut out = [0u8; N];
        let mut i: usize = 0;
        while i < N
            invariant
                *self == *old(self),
                self.wf(),
                addr + N <= u64::MAX + 1,
                forall|x: int| addr <= x < addr + N ==> #[trigger] covered(old(self).mem(), x, 1),
                forall|k: int| 0 <= k < i ==> byte_at(old(self).mem(), addr + k) == Some(#[trigger] out[k]),
                i <= N,
            decreases N - i,
        {
            let a = addr + i as u64;
            let b = self.load_u8(a);
            proof {
                self.lemma_byte_read(a);
            }
            out[i] = b;
            i = i + 1;
        }
        out
    }

    /// A byte read agrees with the byte view.
    proof fn lemma_byte_read(&self, a: u64)
        requires
            self.wf(),
            covered(self.mem(), a as int, 1),
        ensures
            read_spec(self.mem(), a, MemAccessSize::Byte) == Some(
                byte_at(self.mem(), a as int)->Some_0 as u64,
            ),
            byte_at(self.mem(), a as int) is Some,
    {
        let rs = self.mem();
        let i = crate::memory::region_of(rs, a as int, 1);
        assert(rs[i].holds(a as int, 1));
        assert(rs[i].wf());
        let off = (a - rs[i].base) as u64;
        lemma_read_byte(rs[i].cells[(off / 8) as int], off % 8);
    }

    /// The NUL-terminated UTF-8 string at `addr`, in committed memory.
    pub fn load_string(&mut self, addr: u64) -> (r: Result<String, StringError>)
        requires
            old(self).wf(),
        ensures
            *final(self) == *old(self),
            match r {
                Ok(s) => exists|bs: Seq<u8>|
                    c_string_at(old(self).mem(), addr as int, bs) && valid_utf8(bs) && s@
                        == decode_utf8(bs),
                Err(StringError::InvalidUtf8) => exists|bs: Seq<u8>|
                    c_string_at(old(self).mem(), addr as int, bs) && !valid_utf8(bs),
                Err(StringError::Unmapped(a)) => addr <= a && byte_at(old(self).mem(), a as int)
                    is None && forall|x: int|
                    addr <= x < a ==> (#[trigger] byte_at(old(self).mem(), x) matches Some(b) && b
                        != 0),
            },
    {
        let mut bytes: Vec<u8> = Vec::new();
        let mut cur = addr;
        loop
            invariant
                *self == *old(self),
                self.wf(),
                cur == addr + bytes@.len(),
                forall|i: int|
                    0 <= i < bytes@.len() ==> byte_at(self.mem(), addr + i) == Some(
                        #[trigger] bytes@[i],
                    ) && bytes@[i] != 0,
            decreases u64::MAX - cur,
        {
            if !self.image.memory_space.is_accessible(cur, MemAccessSize::Byte) {
                proof {
                    assert forall|x: int| addr <= x < cur implies (#[trigger] byte_at(
                        self.mem(),
                        x,
                    ) matches Some(b) && b != 0) by {
                        assert(bytes@[x - addr] != 0);
                    }
                }
                return Err(StringError::Unmapped(cur));
            }
            let b = self.load_u8(cur);
            proof {
                self.lemma_byte_read(cur);
            }
            if b == 0 {
                let ghost bs = bytes@;
                assert(c_string_at(self.mem(), addr as int, bs));
                return match string_from_utf8(bytes) {
                    Some(s) => Ok(s),
                    None => Err(StringError::InvalidUtf8),
                };
            }
            if cur == u64::MAX {
                proof {
                    assert forall|x: int| addr <= x < cur implies (#[trigger] byte_at(
                        self.mem(),
                        x,
                    ) matches Some(b) && b != 0) by {
                        assert(bytes@[x - addr] != 0);
                    }
                    let rs = self.mem();
                    let i = crate::memory::region_of(rs, cur as int, 1);
                    assert(rs[i].wf());
                }
                return Err(StringError::Unmapped(cur));
            }
            bytes.push(b);
            cur = cur + 1;
        }
    }

    /// Value of register `idx`. x0 reads as zero. The first read of a zero stack pointer
    /// bootstraps it: `STACK_INITIAL_ADDRESS` is returned and written to its shadow.
    pub fn load_register(&mut self, idx: usize) -> (r: u64)
        requires
            old(self).wf(),
            idx < 32,
            idx != 0 ==> accessible(
                old(self).mem(),
                register_addr(idx as int),
                MemAccessSize::DoubleWord,
            ),
        ensures
            final(self).wf(),
            r == old(self).register_value(idx as int),
            idx == 0 ==> r == 0 && *final(self) == *old(self),
            final(self).dropped_writes == old(self).dropped_writes,
            final(self).image == old(self).image,
            final(self).op() == old(self).op(),
            final(self).syscalls == old(self).syscalls,
            ({
                let boot = idx == 2 && r == STACK_INITIAL_ADDRESS && read_spec(
                    old(self).mem(),
                    register_addr(2),
                    MemAccessSize::DoubleWord,
                ) == Some(0u64) && !old(self).bootstrapped();
                &&& boot ==> final(self).bootstrapped() && stores_bytes(
                    old(self).pending(),
                    final(self).pending(),
                    register_addr(2),
                    8,
                    STACK_INITIAL_ADDRESS,
                )
                &&& !boot ==> final(self).pending() == old(self).pending()
                    && final(self).bootstrapped() == old(self).bootstrapped()
            }),
    {
        if idx == 0 {
            return 0;
        }
        let register_addr = get_register_addr(idx);
        let v = self.load_u64(register_addr);
        if idx == 2 && v == 0 {
            if !self.initial {
                self.initial = true;
                self.store_u64(register_addr, STACK_INITIAL_ADDRESS);
            }
            STACK_INITIAL_ADDRESS
        } else {
            v
        }
    }

    /// Values of the registers `idxs`, each as `load_register` gives it.
    pub fn load_registers<const N: usize>(&mut self, idxs: [usize; N]) -> (r: [u64; N])
        requires
            old(self).wf(),
            forall|i: int| 0 <= i < N ==> #[trigger] idxs[i] < 32,
            forall|i: int|
                0 <= i < N && #[trigger] idxs[i] != 0 ==> accessible(
                    old(self).mem(),
                    register_addr(idxs[i] as int),
                    MemAccessSize::DoubleWord,
                ),
        ensures
            final(self).wf(),
            final(self).image == old(self).image,
            forall|i: int| 0 <= i < N ==> #[trigger] r[i] == old(self).register_value(idxs[i] as int),
    {
        let mut out = [0u64; N];
        let mut i: usize = 0;
        while i < N
            invariant
                self.wf(),
                self.image == old(self).image,
                i <= N,
                forall|k: int| 0 <= k < N ==> #[trigger] idxs[k] < 32,
                forall|k: int|
                    0 <= k < N && #[trigger] idxs[k] != 0 ==> accessible(
                        old(self).mem(),
                        register_addr(idxs[k] as int),
                        MemAccessSize::DoubleWord,
                    ),
                forall|k: int| 0 <= k < i ==> #[trigger] out[k] == old(self).register_value(idxs[k] as int),
            decreases N - i,
        {
            let idx = idxs[i];
            assert(idxs[i as int] != 0 ==> accessible(
                old(self).mem(),
                register_addr(idx as int),
                MemAccessSize::DoubleWord,
            ));
            let v = self.load_register(idx);
            out[i] = v;
            i = i + 1;
        }
        out
    }

    /// Queues a write of `data` at `addr`; a later write to the same address replaces it.
    pub fn store_u8(&mut self, addr: u64, data: u8)
        requires
            old(self).wf(),
        ensures
            final(self).wf(),
            stores_bytes(old(self).pending(), final(self).pending(), addr, 1, data as u64),
            final(self).image == old(self).image,
            final(self).op() == old(self).op(),
            final(self).syscalls == old(self).syscalls,
            final(self).bootstrapped() == old(self).bootstrapped(),
            final(self).dropped_writes == old(self).dropped_writes,
    {
        let ghost pre = self.pending_writes@;
        let len = self.pending_writes.len();
        let mut i: usize = 0;
        while i < len && self.pending_writes[i].addr < addr
            invariant
                i <= len,
                len == self.pending_writes@.len(),
                self.pending_writes@ == pre,
                forall|k: int| 0 <= k < i ==> #[trigger] pre[k].addr < addr,
            decreases len - i,
        {
            i = i + 1;
        }
        let e = MemStore { addr, data };
        assert(cell_byte(data as u64, 0) == data) by (bit_vector);
        if i < len && self.pending_writes[i].addr == addr {
            self.pending_writes.set(i, e);
            let ghost post = self.pending_writes@;
            assert(post == pre.update(i as int, e));
            assert(sorted_stores(post)) by {
                assert forall|p: int, q: int| 0 <= p < q < post.len() implies #[trigger] post[p].addr
                    < #[trigger] post[q].addr by {
                    assert(pre[p].addr < pre[q].addr);
                }
            }
            assert forall|x: int| #[trigger]
                pending_byte(post, x) == if addr <= x < addr + 1 {
                    Some(cell_byte(data as u64, (x - addr) as u64))
                } else {
                    pending_byte(pre, x)
                } by {
                lemma_pending_at(post, i as int);
                if x != addr {
                    if exists|k: int| 0 <= k < pre.len() && #[trigger] pre[k].addr == x {
                        let k = choose|k: int| 0 <= k < pre.len() && #[trigger] pre[k].addr == x;
                        lemma_pending_at(pre, k);
                        lemma_pending_at(post, k);
                    } else {
                        assert(!exists|k: int| 0 <= k < post.len() && #[trigger] post[k].addr == x);
                    }
                }
            }
        } else {
            self.pending_writes.insert(i, e);
            let ghost post = self.pending_writes@;
            assert(post == pre.insert(i as int, e));
            assert forall|k: int| i <= k < pre.len() implies #[trigger] pre[k].addr > addr by {
                if pre[k].addr <= addr {
                    if k == i {
                        assert(pre[k].addr >= addr);
                    } else {
                        assert(pre[i as int].addr < pre[k].addr);
                        assert(pre[i as int].addr >= addr);
                    }
                }
            }
            assert(sorted_stores(post)) by {
                assert forall|p: int, q: int| 0 <= p < q < post.len() implies #[trigger] post[p].addr
                    < #[trigger] post[q].addr by {
                    if q < i {
                        assert(pre[p].addr < pre[q].addr);
                    } else if q == i {
                    } else if p < i {
                        assert(post[q] == pre[q - 1]);
                    } else if p == i {
                        assert(post[q] == pre[q - 1]);
                    } else {
                        assert(pre[p - 1].addr < pre[q - 1].addr);
                    }
                }
            }
            assert forall|x: int| #[trigger]
                pending_byte(post, x) == if addr <= x < addr + 1 {
                    Some(cell_byte(data as u64, (x - addr) as u64))
                } else {
                    pending_byte(pre, x)
                } by {
                lemma_pending_at(post, i as int);
                if x != addr {
                    if exists|k: int| 0 <= k < pre.len() && #[trigger] pre[k].addr == x {
                        let k = choose|k: int| 0 <= k < pre.len() && #[trigger] pre[k].addr == x;
                        lemma_pending_at(pre, k);
                        if k < i {
                            assert(post[k] == pre[k]);
                            lemma_pending_at(post, k);
                        } else {
                            assert(post[k + 1] == pre[k]);
                            lemma_pending_at(post, k + 1);
                        }
                    } else {
                        if exists|k: int| 0 <= k < post.len() && #[trigger] post[k].addr == x {
                            let k = choose|k: int| 0 <= k < post.len() && #[trigger] post[k].addr == x;
                            if k < i {
                                assert(pre[k].addr == x);
                            } else if k > i {
                                assert(pre[k - 1].addr == x);
                            }
                        }
                    }
                }
            }
        }
    }

    /// Queues the `n` little-endian bytes of `data` at `addr`.
    fn store_bytes(&mut self, addr: u64, n: u64, data: u64)
        requires
            old(self).wf(),
            n <= 8,
            addr + n <= u64::MAX + 1,
        ensures
            final(self).wf(),
            stores_bytes(old(self).pending(), final(self).pending(), addr, n, data),
            final(self).image == old(self).image,
            final(self).op() == old(self).op(),
            final(self).syscalls == old(self).syscalls,
            final(self).bootstrapped() == old(self).bootstrapped(),
            final(self).dropped_writes == old(self).dropped_writes,
    {
        let mut i: u64 = 0;
        while i < n
            invariant
                self.wf(),
                i <= n,
                n <= 8,
                addr + n <= u64::MAX + 1,
                stores_bytes(old(self).pending(), self.pending(), addr, i, data),
                self.image == old(self).image,
                self.op() == old(self).op(),
                self.syscalls == old(self).syscalls,
                self.bootstrapped() == old(self).bootstrapped(),
                self.dropped_writes == old(self).dropped_writes,
            decreases n - i,
        {
            let ghost mid = self.pending();
            let b = ((data >> (i * 8)) & 0xff) as u8;
            assert(((data >> ((i * 8) as u64)) & 0xff) as u8 == cell_byte(data, i));
            self.store_u8(addr + i, b);
            assert(cell_byte(b as u64, 0) == b) by (bit_vector);
            i = i + 1;
        }
    }

    /// Queues the two bytes of `data` at `addr`, which must be aligned.
    pub fn store_u16(&mut self, addr: u64, data: u16)
        requires
            old(self).wf(),
            addr % 2 == 0,
        ensures
            final(self).wf(),
            stores_bytes(old(self).pending(), final(self).pending(), addr, 2, data as u64),
            final(self).image == old(self).image,
            final(self).op() == old(self).op(),
            final(self).syscalls == old(self).syscalls,
            final(self).bootstrapped() == old(self).bootstrapped(),
            final(self).dropped_writes == old(self).dropped_writes,
    {
        self.store_bytes(addr, 2, data as u64);
    }

    /// Queues the four bytes of `data` at `addr`, which must be aligned.
    pub fn store_u32(&mut self, addr: u64, data: u32)
        requires
            old(self).wf(),
            addr % 4 == 0,
        ensures
            final(self).wf(),
            stores_bytes(old(self).pending(), final(self).pending(), addr, 4, data as u64),
            final(self).image == old(self).image,
            final(self).op() == old(self).op(),
            final(self).syscalls == old(self).syscalls,
            final(self).bootstrapped() == old(self).bootstrapped(),
            final(self).dropped_writes == old(self).dropped_writes,
    {
        self.store_bytes(addr, 4, data as u64);
    }

    /// Queues the eight bytes of `data` at `addr`, which must be aligned.
    pub fn store_u64(&mut self, addr: u64, data: u64)
        requires
            old(self).wf(),
            addr % 8 == 0,
        ensures
            final(self).wf(),
            stores_bytes(old(self).pending(), final(self).pending(), addr, 8, data),
            final(self).image == old(self).image,
            final(self).op() == old(self).op(),
            final(self).syscalls == old(self).syscalls,
            final(self).bootstrapped() == old(self).bootstrapped(),
            final(self).dropped_writes == old(self).dropped_writes,
    {
        self.store_bytes(addr, 8, data);
    }

    /// Queues `slice[i]` at `addr + i` for each `i`.
    pub fn store_region(&mut self, addr: u64, slice: &[u8])
        requires
            old(self).wf(),
            addr + slice@.len() <= u64::MAX + 1,
        ensures
            final(self).wf(),
            forall|x: int| #[trigger]
                pending_byte(final(self).pending(), x) == if addr <= x < addr + slice@.len() {
                    Some(slice@[x - addr])
                } else {
                    pending_byte(old(self).pending(), x)
                },
            final(self).image == old(self).image,
            final(self).op() == old(self).op(),
            final(self).syscalls == old(self).syscalls,
            final(self).bootstrapped() == old(self).bootstrapped(),
            final(self).dropped_writes == old(self).dropped_writes,
    {
        let mut i: usize = 0;
        while i < slice.len()
            invariant
                self.wf(),
                i <= slice@.len(),
                addr + slice@.len() <= u64::MAX + 1,
                forall|x: int| #[trigger]
                    pending_byte(self.pending(), x) == if addr <= x < addr + i {
                        Some(slice@[x - addr])
                    } else {
                        pending_byte(old(self).pending(), x)
                    },
                self.image == old(self).image,
                self.op() == old(self).op(),
                self.syscalls == old(self).syscalls,
                self.bootstrapped() == old(self).bootstrapped(),
                self.dropped_writes == old(self).dropped_writes,
            decreases slice@.len() - i,
        {
            let b = slice[i];
            self.store_u8(addr + i as u64, b);
            assert(cell_byte(b as u64, 0) == b) by (bit_vector);
            i = i + 1;
        }
    }

    /// Writes register `idx`: x0 ignores writes, and a zero written to the stack pointer
    /// becomes `STACK_INITIAL_ADDRESS`.
    pub fn store_register(&mut self, idx: usize, data: u64)
        requires
            old(self).wf(),
            idx < 32,
        ensures
            final(self).wf(),
            idx == 0 ==> final(self).pending() == old(self).pending(),
            idx != 0 ==> stores_bytes(
                old(self).pending(),
                final(self).pending(),
                register_addr(idx as int),
                8,
                if idx == 2 && data == 0 {
                    STACK_INITIAL_ADDRESS
                } else {
                    data
                },
            ),
            final(self).image == old(self).image,
            final(self).op() == old(self).op(),
            final(self).syscalls == old(self).syscalls,
            final(self).bootstrapped() == old(self).bootstrapped(),
            final(self).dropped_writes == old(self).dropped_writes,
    {
        if idx == 0 {
            return;
        }
        let addr = get_register_addr(idx);
        if idx == 2 && data == 0 {
            self.store_u64(addr, STACK_INITIAL_ADDRESS);
        } else {
            self.store_u64(addr, data);
        }
    }

    /// Saves the result of the instruction in flight.
    pub fn save_op(&mut self, op_result: OpCodeResult)
        ensures
            final(self).op() == Some(op_result),
            final(self).image == old(self).image,
            final(self).pending() == old(self).pending(),
            final(self).syscalls == old(self).syscalls,
            final(self).bootstrapped() == old(self).bootstrapped(),
            final(self).dropped_writes == old(self).dropped_writes,
    {
        self.op_result = Some(op_result);
    }

    /// A copy of the saved result.
    pub fn restore_op(&self) -> (r: Option<OpCodeResult>)
        ensures
            r == self.op(),
    {
        self.op_result
    }

    /// Applies every pending write in ascending address order, appends the saved system call,
    /// and empties both buffers. Writes to addresses that no region holds are dropped. Returns
    /// the result it consumed.
    pub fn commit(&mut self) -> (r: OpCodeResult)
        requires
            old(self).wf(),
            old(self).op() is Some,
        ensures
            final(self).wf(),
            commits(old(self).mem(), final(self).mem(), old(self).pending()),
            final(self).pending() == Seq::<MemStore>::empty(),
            final(self).op() is None,
            r == old(self).op()->Some_0,
            final(self).syscalls@ == (match old(self).op()->Some_0.syscall {
                Some(s) => old(self).syscalls@.push(s),
                None => old(self).syscalls@,
            }),
            final(self).bootstrapped() == old(self).bootstrapped(),
            final(self).dropped_writes@ == old(self).dropped_writes@ + unmapped_writes(
                old(self).mem(),
                old(self).pending(),
            ),
    {
        let ghost pre = self.mem();
        let ghost p = self.pending();
        let len = self.pending_writes.len();
        let mut i: usize = 0;
        while i < len
            invariant
                self.wf(),
                i <= len,
                len == p.len(),
                self.pending() == p,
                self.op() == old(self).op(),
                self.syscalls == old(self).syscalls,
                self.bootstrapped() == old(self).bootstrapped(),
                space_wf(pre),
                commits(pre, self.mem(), p.take(i as int)),
                self.dropped_writes@ == old(self).dropped_writes@ + unmapped_writes(
                    pre,
                    p.take(i as int),
                ),
            decreases len - i,
        {
            let st = self.pending_writes[i];
            let ghost cur = self.mem();
            let landed = self.image.memory_space.write(st.addr, MemAccessSize::Byte, st.data as u64);
            proof {
                lemma_same_bounds_cover(cur, pre, st.addr as int, 1);
                assert(p.take(i as int + 1).drop_last() == p.take(i as int));
            }
            if !landed {
                self.dropped_writes.push(st.addr);
            }
            proof {
                lemma_write_keeps_bounds(cur, st.addr, MemAccessSize::Byte, st.data as u64);
                let nxt = self.mem();
                let q = p.take(i as int);
                let q1 = p.take(i as int + 1);
                assert(q1 == q.push(st));
                assert forall|x: int| #[trigger]
                    byte_at(nxt, x) == match pending_byte(q1, x) {
                        Some(b) => if covered(pre, x, 1) {
                            Some(b)
                        } else {
                            None
                        },
                        None => byte_at(pre, x),
                    } by {
                    lemma_write_byte_view(cur, st.addr, st.data, x);
                    lemma_same_bounds_cover(cur, pre, st.addr as int, 1);
                    lemma_same_bounds_cover(cur, pre, x, 1);
                    lemma_pending_prefix(p, i as int, x);
                    if !covered(pre, x, 1) {
                        assert(!covered(cur, x, 1));
                    }
                }
            }
            i = i + 1;
        }
        assert(p.take(len as int) == p);
        assert(self.dropped_writes@ == old(self).dropped_writes@ + unmapped_writes(pre, p));
        self.pending_writes = Vec::new();
        let op = self.op_result.unwrap();
        self.op_result = None;
        match op.syscall {
            Some(s) => self.syscalls.push(s),
            None => {},
        }
        op
    }

    /// Drops the recorded system calls.
    pub fn clear_segment(&mut self)
        ensures
            final(self).syscalls@ == Seq::<SyscallRecord>::empty(),
            final(self).image == old(self).image,
            final(self).pending() == old(self).pending(),
            final(self).op() == old(self).op(),
            final(self).bootstrapped() == old(self).bootstrapped(),
            final(self).dropped_writes == old(self).dropped_writes,
    {
        self.syscalls = Vec::new();
    }

    /// Drops the recorded system calls and the pending writes.
    pub fn clear_session(&mut self)
        requires
            old(self).wf(),
        ensures
            final(self).wf(),
            final(self).syscalls@ == Seq::<SyscallRecord>::empty(),
            final(self).pending() == Seq::<MemStore>::empty(),
            final(self).image == old(self).image,
            final(self).op() == old(self).op(),
            final(self).bootstrapped() == old(self).bootstrapped(),
            final(self).dropped_writes == old(self).dropped_writes,
    {
        self.clear_segment();
        self.pending_writes = Vec::new();
    }
}

/// Extending a sorted prefix by its next entry adds exactly that entry's address.
proof fn lemma_pending_prefix(p: Seq<MemStore>, i: int, x: int)
    requires
        sorted_stores(p),
        0 <= i < p.len(),
    ensures
        pending_byte(p.take(i + 1), x) == if x == p[i].addr {
            Some(p[i].data)
        } else {
            pending_byte(p.take(i), x)
        },
{
    let q = p.take(i);
    let q1 = p.take(i + 1);
    assert(sorted_stores(q1));
    assert(sorted_stores(q));
    lemma_pending_at(q1, i);
    if x != p[i].addr {
        if exists|k: int| 0 <= k < q.len() && #[trigger] q[k].addr == x {
            let k = choose|k: int| 0 <= k < q.len() && #[trigger] q[k].addr == x;
            lemma_pending_at(q, k);
            lemma_pending_at(q1, k);
        } else {
            if exists|k: int| 0 <= k < q1.len() && #[trigger] q1[k].addr == x {
                let k = choose|k: int| 0 <= k < q1.len() && #[trigger] q1[k].addr == x;
                assert(q[k].addr == x);
            }
        }
    }
}

impl Memory for MemoryMonitor {
    open spec fn mem_inv(&self) -> bool {
        self.wf()
    }

    /// Reads see committed memory only.
    open spec fn mem_read(&self, addr: u64, size: MemAccessSize) -> Option<u64> {
        read_spec(self.mem(), addr, size)
    }

    /// Every aligned write is taken; it lands at the next commit.
    open spec fn mem_writable(&self, addr: u64, size: MemAccessSize) -> bool {
        addr % size.bytes() == 0
    }

    open spec fn mem_written(&self, addr: u64, size: MemAccessSize, data: u64, post: Self) -> bool {
        &&& post.image == self.image
        &&& post.op() == self.op()
        &&& post.syscalls == self.syscalls
        &&& post.bootstrapped() == self.bootstrapped()
        &&& post.dropped_writes == self.dropped_writes
        &&& addr % size.bytes() == 0 ==> stores_bytes(
            self.pending(),
            post.pending(),
            addr,
            size.bytes(),
            data,
        )
        &&& addr % size.bytes() != 0 ==> post.pending() == self.pending()
    }

    fn read_mem(&mut self, addr: u64, size: MemAccessSize) -> (r: Option<u64>) {
        self.image.memory_space.read(addr, size)
    }

    fn write_mem(&mut self, addr: u64, size: MemAccessSize, store_data: u64) -> (r: bool) {
        let n = size.num_bytes();
        if addr % n != 0 {
            return false;
        }
        self.store_bytes(addr, n, store_data);
        true
    }
}

} // verus!
