//! Laws that the executor, the memory and the monitor obey together.
use vstd::prelude::*;
use vstd::arithmetic::div_mod::{lemma_fundamental_div_mod, lemma_mod_multiples_vanish};
use crate::alu::{abs, alu_spec, low32, sext32, sx32, sx64, trunc_div, trunc_rem, wrap64};
use crate::executor::{
    access_size, exec_spec, load_ext, imm_i, imm_s, imm_u, reg, set_reg, HartView, InstructionException,
};
use crate::memory::{
    accessible, byte_at, cell_byte, covered, lemma_cell_index, lemma_region_unique,
    lemma_write_keeps_bounds, read_spec, space_wf, write_spec, MemAccessSize, Memory,
};
use crate::monitor::{commits, pending_byte, stores_bytes, MemStore, MemoryMonitor};
use crate::opcode::{rd_of, rs1_of, rs2_of, InsnKind};
use crate::loader::{
    apply_patches, load_spec, project_segments, ElfHeader, LoadError, RET_INSN,
};

verus! {

/// A write issued during a step is invisible to every read of that step: the monitor's reads
/// see committed memory, which a write leaves alone.
pub proof fn lemma_write_invisible_before_commit(
    m: MemoryMonitor,
    post: MemoryMonitor,
    addr: u64,
    size: MemAccessSize,
    data: u64,
    a: u64,
    s: MemAccessSize,
)
    requires
        m.mem_written(addr, size, data, post),
    ensures
        post.mem_read(a, s) == m.mem_read(a, s),
{
}

/// After the commit that ends the step, each byte of an aligned write that some region holds
/// reads back as written.
pub proof fn lemma_write_visible_after_commit(
    m: MemoryMonitor,
    post: MemoryMonitor,
    addr: u64,
    size: MemAccessSize,
    data: u64,
    committed: Seq<crate::memory::RegionView>,
    x: int,
)
    requires
        addr % size.bytes() == 0,
        m.mem_written(addr, size, data, post),
        commits(post.mem(), committed, post.pending()),
        addr <= x < addr + size.bytes(),
        covered(m.mem(), x, 1),
    ensures
        byte_at(committed, x) == Some(cell_byte(data, (x - addr) as u64)),
{
    assert(pending_byte(post.pending(), x) == Some(cell_byte(data, (x - addr) as u64)));
}

/// x0 reads as zero, and writing it changes nothing.
pub proof fn lemma_x0(regs: Seq<u64>, v: u64)
    ensures
        reg(regs, 0) == 0,
        set_reg(regs, 0, v) == regs,
        reg(set_reg(regs, 0, v), 0) == 0,
{
}

/// Narrow reads of a cell just written at the same offset give the written value, truncated.
proof fn lemma_cell_narrow_read(c: u64, d: u64, s: u64, m: u64, m2: u64)
    by (bit_vector)
    requires
        (m == 0xff && s < 64 && s % 8 == 0) || (m == 0xffff && s < 64 && s % 16 == 0) || (m
            == 0xffff_ffff && s < 64 && s % 32 == 0) || (m == 0xffff_ffff_ffff_ffff && s == 0),
        m2 == 0xff || m2 == 0xffff || m2 == 0xffff_ffff || m2 == 0xffff_ffff_ffff_ffff,
        m2 <= m,
    ensures
        ((((c & !(m << s)) | ((d & m) << s)) >> s) & m2) == d & m2,
{
}

/// An address aligned to a width is aligned to every narrower width.
proof fn lemma_align_narrower(addr: u64, n: u64, m: u64)
    requires
        n == 1 || n == 2 || n == 4 || n == 8,
        m == 1 || m == 2 || m == 4 || m == 8,
        m <= n,
        addr % n == 0,
    ensures
        addr % m == 0,
{
    if n == 8 {
        assert(addr % 8 == 0 ==> addr % 4 == 0 && addr % 2 == 0);
    } else if n == 4 {
        assert(addr % 4 == 0 ==> addr % 2 == 0);
    }
}

/// Within one region: reading back at the written offset gives the written value, truncated.
proof fn lemma_region_read_after_write(
    r: crate::memory::RegionView,
    addr: u64,
    size: MemAccessSize,
    v: u64,
    load: MemAccessSize,
)
    requires
        r.wf(),
        r.holds(addr as int, size.bytes() as int),
        addr % size.bytes() == 0,
        load.bytes() <= size.bytes(),
    ensures
        r.write(addr, size, v).read(addr, load) == v & load.mask(),
{
    let off = (addr - r.base) as u64;
    lemma_cell_index(off, r.cells.len());
    assert(off % size.bytes() == 0) by {
        let n = size.bytes();
        if n == 8 {
            assert(off % 8 == 0);
        } else if n == 4 {
            assert(off % 4 == 0);
        } else if n == 2 {
            assert(off % 2 == 0);
        }
    }
    let c = r.cells[(off / 8) as int];
    let sh = ((off % 8) * 8) as u64;
    lemma_cell_narrow_read(c, v, sh, size.mask(), load.mask());
}

/// A load right after a store at the same aligned address reads the stored value, truncated to
/// the narrower of the two widths.
pub proof fn lemma_load_after_store(
    rs: Seq<crate::memory::RegionView>,
    addr: u64,
    size: MemAccessSize,
    v: u64,
    load: MemAccessSize,
)
    requires
        space_wf(rs),
        accessible(rs, addr, size),
        load.bytes() <= size.bytes(),
    ensures
        read_spec(write_spec(rs, addr, size, v), addr, load) == Some(v & load.mask()),
{
    let i = crate::memory::region_of(rs, addr as int, size.bytes() as int);
    let ws = write_spec(rs, addr, size, v);
    assert(rs[i].holds(addr as int, size.bytes() as int));
    assert(rs[i].wf());
    assert(ws == rs.update(i, rs[i].write(addr, size, v)));
    lemma_write_keeps_bounds(rs, addr, size, v);
    assert(ws[i].holds(addr as int, load.bytes() as int));
    lemma_region_unique(ws, addr as int, load.bytes() as int, i);
    lemma_align_narrower(addr, size.bytes(), load.bytes());
    lemma_region_read_after_write(rs[i], addr, size, v, load);
}

/// ADDIW's result is a sign-extended word: its high 32 bits all equal bit 31.
pub proof fn lemma_addiw_sign_extends(a: u64, imm: u64)
    ensures
        ({
            let r = alu_spec(InsnKind::Addiw, a, imm);
            r >> 32 == if (r >> 31) & 1 == 1 {
                0xffff_ffffu64
            } else {
                0
            }
        }),
{
    let x = low32(wrap64(a + imm));
    lemma_sext32_bits(x);
}

proof fn lemma_sext32_bits(x: u32)
    ensures
        sext32(x) >> 32 == if (sext32(x) >> 31) & 1 == 1 {
            0xffff_ffffu64
        } else {
            0
        },
{
    let r = sext32(x);
    if x < 0x8000_0000 {
        assert(r == x as u64);
        assert((x as u64) >> 32 == 0 && ((x as u64) >> 31) & 1 == 0) by (bit_vector)
            requires
                x < 0x8000_0000,
        ;
    } else {
        assert(r == x as u64 + 0xffff_ffff_0000_0000);
        assert(((x as u64 + 0xffff_ffff_0000_0000) as u64) >> 32 == 0xffff_ffff && (((x as u64
            + 0xffff_ffff_0000_0000) as u64) >> 31) & 1 == 1) by (bit_vector)
            requires
                x >= 0x8000_0000,
        ;
    }
}

/// Unsigned division: `DIVU(a, b) * b + REMU(a, b) == a` for every nonzero `b`.
pub proof fn lemma_divu_remu(a: u64, b: u64)
    requires
        b != 0,
    ensures
        alu_spec(InsnKind::Divu, a, b) * b + alu_spec(InsnKind::Remu, a, b) == a,
{
    lemma_fundamental_div_mod(a as int, b as int);
    assert(alu_spec(InsnKind::Divu, a, b) == (a as int) / (b as int));
    assert(alu_spec(InsnKind::Remu, a, b) == (a as int) % (b as int));
    assert(((a as int) / (b as int)) * b == b * ((a as int) / (b as int))) by (nonlinear_arith);
}

/// Signed division: `DIV(a, b) * b + REM(a, b) == a` modulo 2^64 for every nonzero `b`.
pub proof fn lemma_div_rem(a: u64, b: u64)
    requires
        b != 0,
    ensures
        wrap64(alu_spec(InsnKind::Div, a, b) * b + alu_spec(InsnKind::Rem, a, b)) == a,
{
    let m: int = 0x1_0000_0000_0000_0000;
    let x = sx64(a);
    let y = sx64(b);
    let q = trunc_div(x, y);
    let r = trunc_rem(x, y);
    lemma_fundamental_div_mod(abs(x), abs(y));
    assert(q * y + r == x) by (nonlinear_arith)
        requires
            abs(x) == abs(y) * (abs(x) / abs(y)) + abs(x) % abs(y),
            q == (if (x < 0) == (y < 0) {
                abs(x) / abs(y)
            } else {
                -(abs(x) / abs(y))
            }),
            r == (if x < 0 {
                -(abs(x) % abs(y))
            } else {
                abs(x) % abs(y)
            }),
            abs(x) == (if x < 0 {
                -x
            } else {
                x
            }),
            abs(y) == (if y < 0 {
                -y
            } else {
                y
            }),
    ;
    let dq = wrap64(q);
    let dr = wrap64(r);
    lemma_fundamental_div_mod(q, m);
    lemma_fundamental_div_mod(r, m);
    let kq = q / m;
    let kr = r / m;
    let kb: int = if b < 0x8000_0000_0000_0000 {
        0
    } else {
        1
    };
    let ka: int = if a < 0x8000_0000_0000_0000 {
        0
    } else {
        1
    };
    assert(dq == q - m * kq);
    assert(dr == r - m * kr);
    assert(b == y + m * kb);
    assert(a == x + m * ka);
    let k = -kq * y + dq * kb - kr - ka;
    assert(dq * b + dr == a + m * k) by (nonlinear_arith)
        requires
            dq == q - m * kq,
            dr == r - m * kr,
            b == y + m * kb,
            a == x + m * ka,
            q * y + r == x,
            k == -kq * y + dq * kb - kr - ka,
    ;
    lemma_mod_multiples_vanish(k, a as int, m);
    assert((a as int) % m == a as int);
}

/// Every misaligned load or store faults with the address and issues no write.
pub proof fn lemma_misaligned_faults<M: Memory>(k: InsnKind, insn: u32, h: HartView, mem: M)
    requires
        k == InsnKind::Lb || k == InsnKind::Lh || k == InsnKind::Lw || k == InsnKind::Ld || k
            == InsnKind::Lbu || k == InsnKind::Lhu || k == InsnKind::Lwu || k == InsnKind::Sb || k
            == InsnKind::Sh || k == InsnKind::Sw || k == InsnKind::Sd,
    ensures
        ({
            let base = reg(h.regs, rs1_of(insn) as int);
            let addr = if k == InsnKind::Sb || k == InsnKind::Sh || k == InsnKind::Sw || k
                == InsnKind::Sd {
                wrap64(base + imm_s(insn))
            } else {
                wrap64(base + imm_i(insn))
            };
            let o = exec_spec(k, insn, h, mem);
            addr % access_size(k).bytes() != 0 ==> o.result == Err::<(), InstructionException>(
                InstructionException::AlignmentFault(addr),
            ) && o.write is None && o.hart == h
        }),
{
}

/// Every misaligned atomic faults with the address and issues no write.
pub proof fn lemma_misaligned_atomic_faults<M: Memory>(k: InsnKind, insn: u32, h: HartView, mem: M)
    requires
        k == InsnKind::AmoswapW || k == InsnKind::LrW || k == InsnKind::ScW || k
            == InsnKind::AmoorW || k == InsnKind::AmoaddW || k == InsnKind::AmoandW || k
            == InsnKind::AmoaddD || k == InsnKind::AmoswapD || k == InsnKind::LrD || k
            == InsnKind::ScD,
    ensures
        ({
            let addr = reg(h.regs, rs1_of(insn) as int);
            let o = exec_spec(k, insn, h, mem);
            addr % access_size(k).bytes() != 0 ==> o.result == Err::<(), InstructionException>(
                InstructionException::AlignmentFault(addr),
            ) && o.write is None && o.hart == h
        }),
{
}

/// An access that no single region holds is refused: reads give `None`, writes `false`.
pub proof fn lemma_cross_region_refused(
    rs: Seq<crate::memory::RegionView>,
    addr: u64,
    size: MemAccessSize,
    data: u64,
)
    requires
        !covered(rs, addr as int, size.bytes() as int),
    ensures
        read_spec(rs, addr, size) is None,
        !accessible(rs, addr, size),
        write_spec(rs, addr, size, data) == rs,
{
}

/// Division by zero: DIV and DIVU give all ones, REM and REMU the dividend, REMUW the
/// dividend's low word zero-extended.
pub proof fn lemma_divide_by_zero(a: u64, b: u64)
    ensures
        b == 0 ==> alu_spec(InsnKind::Div, a, b) == u64::MAX,
        b == 0 ==> alu_spec(InsnKind::Divu, a, b) == u64::MAX,
        b == 0 ==> alu_spec(InsnKind::Rem, a, b) == a,
        b == 0 ==> alu_spec(InsnKind::Remu, a, b) == a,
        low32(b) == 0 ==> alu_spec(InsnKind::Remuw, a, b) == low32(a) as u64,
{
}

/// JALR's target is always even.
pub proof fn lemma_jalr_clears_low_bit<M: Memory>(insn: u32, h: HartView, mem: M)
    ensures
        exec_spec(InsnKind::Jalr, insn, h, mem).hart.pc & 1 == 0,
{
    let t = wrap64(reg(h.regs, rs1_of(insn) as int) + imm_i(insn));
    assert((t & 0xffff_ffff_ffff_fffe) & 1 == 0) by (bit_vector);
}

/// LUI's value has its low 12 bits clear.
pub proof fn lemma_lui_low_bits_clear(insn: u32)
    ensures
        imm_u(insn) & 0xfff == 0,
{
    let x = insn & 0xffff_f000;
    assert(x & 0xfff == 0) by (bit_vector)
        requires
            x == insn & 0xffff_f000,
    ;
    if x < 0x8000_0000 {
        assert(sext32(x) == x as u64);
        assert((x as u64) & 0xfff == 0) by (bit_vector)
            requires
                x & 0xfff == 0,
        ;
    } else {
        assert(sext32(x) == x as u64 + 0xffff_ffff_0000_0000);
        assert(((x as u64 + 0xffff_ffff_0000_0000) as u64) & 0xfff == 0) by (bit_vector)
            requires
                x & 0xfff == 0,
        ;
    }
}

/// A cell whose eight bytes are those of `v` is `v`.
proof fn lemma_cell_from_bytes(c: u64, v: u64)
    by (bit_vector)
    requires
        cell_byte(c, 0) == cell_byte(v, 0),
        cell_byte(c, 1) == cell_byte(v, 1),
        cell_byte(c, 2) == cell_byte(v, 2),
        cell_byte(c, 3) == cell_byte(v, 3),
        cell_byte(c, 4) == cell_byte(v, 4),
        cell_byte(c, 5) == cell_byte(v, 5),
        cell_byte(c, 6) == cell_byte(v, 6),
        cell_byte(c, 7) == cell_byte(v, 7),
    ensures
        c == v,
{
}

/// Little-endian round trip through the monitor: after `store_u64(a, v)` and the commit that
/// ends the step, a double-word load at `a` reads `v`, and a narrower load at `a` reads `v`'s
/// low bytes.
pub proof fn lemma_store_commit_load_u64(
    m: MemoryMonitor,
    post: MemoryMonitor,
    a: u64,
    v: u64,
    committed: Seq<crate::memory::RegionView>,
    load: MemAccessSize,
)
    requires
        m.wf(),
        accessible(m.mem(), a, MemAccessSize::DoubleWord),
        m.mem_written(a, MemAccessSize::DoubleWord, v, post),
        commits(post.mem(), committed, post.pending()),
        space_wf(committed),
    ensures
        read_spec(committed, a, MemAccessSize::DoubleWord) == Some(v),
        read_spec(committed, a, load) == Some(v & load.mask()),
{
    let rs = m.mem();
    let i = crate::memory::region_of(rs, a as int, 8);
    assert(rs[i].holds(a as int, 8));
    assert(committed[i].holds(a as int, 8));
    lemma_region_unique(committed, a as int, 8, i);
    assert(committed[i].wf());
    let off = (a - committed[i].base) as u64;
    lemma_cell_index(off, committed[i].cells.len());
    assert(off % 8 == 0);
    let c = committed[i].cells[(off / 8) as int];
    assert forall|k: u64| k < 8 implies cell_byte(c, k) == cell_byte(v, k) by {
        let x = a + k;
        assert(rs[i].holds(x as int, 1));
        assert(committed[i].holds(x as int, 1));
        lemma_region_unique(committed, x as int, 1, i);
        assert(covered(m.mem(), x as int, 1));
        lemma_write_visible_after_commit(m, post, a, MemAccessSize::DoubleWord, v, committed, x as int);
        assert(((x - committed[i].base) as u64) / 8 == off / 8);
        assert(((x - committed[i].base) as u64) % 8 == k);
    }
    lemma_cell_from_bytes(c, v);
    assert((c >> 0u64) & 0xffff_ffff_ffff_ffff == c) by (bit_vector);
    let lm = load.mask();
    assert((c >> 0u64) & lm == c & lm) by (bit_vector);
    assert(committed[i].holds(a as int, load.bytes() as int));
    lemma_region_unique(committed, a as int, load.bytes() as int, i);
    lemma_align_narrower(a, 8, load.bytes());
}

/// Two writes of the same byte in one step: the later one is what the commit applies.
pub proof fn lemma_last_write_wins(
    p0: Seq<MemStore>,
    p1: Seq<MemStore>,
    p2: Seq<MemStore>,
    a: u64,
    first: u8,
    second: u8,
    pre: Seq<crate::memory::RegionView>,
    post: Seq<crate::memory::RegionView>,
)
    requires
        stores_bytes(p0, p1, a, 1, first as u64),
        stores_bytes(p1, p2, a, 1, second as u64),
        commits(pre, post, p2),
        covered(pre, a as int, 1),
    ensures
        pending_byte(p2, a as int) == Some(second),
        byte_at(post, a as int) == Some(second),
{
    assert(pending_byte(p2, a as int) == Some(cell_byte(second as u64, 0)));
    assert(cell_byte(second as u64, 0) == second) by (bit_vector);
}

/// Signed loads sign-extend: the loaded register, read as a signed number, is the loaded
/// byte, half-word or word read as a signed number. Unsigned loads keep the value read.
pub proof fn lemma_load_extension(v: u64)
    ensures
        sx64(load_ext(InsnKind::Lb, v)) == (if v % 0x100 < 0x80 {
            (v % 0x100) as int
        } else {
            v % 0x100 - 0x100
        }),
        sx64(load_ext(InsnKind::Lh, v)) == (if v % 0x1_0000 < 0x8000 {
            (v % 0x1_0000) as int
        } else {
            v % 0x1_0000 - 0x1_0000
        }),
        sx64(load_ext(InsnKind::Lw, v)) == sx32(low32(v)),
        load_ext(InsnKind::Lbu, v) == v,
        load_ext(InsnKind::Lhu, v) == v,
        load_ext(InsnKind::Lwu, v) == v,
        load_ext(InsnKind::Ld, v) == v,
{
}

/// Later patches keep a return word that is already in place.
proof fn lemma_patches_keep(
    entries: Map<u64, u32>,
    syms: Seq<(Option<Seq<char>>, u64)>,
    k: int,
    patch_set: Seq<Seq<char>>,
    fin: Map<u64, u32>,
    v: u64,
)
    requires
        apply_patches(entries, syms, k, patch_set) == Ok::<Map<u64, u32>, LoadError>(fin),
        entries.contains_key(v),
        entries[v] == RET_INSN,
    ensures
        fin.contains_key(v),
        fin[v] == RET_INSN,
    decreases syms.len() - k,
{
    if 0 <= k < syms.len() {
        if let Some(name) = syms[k].0 {
            if patch_set.contains(name) && entries.contains_key(syms[k].1) {
                lemma_patches_keep(
                    entries.insert(syms[k].1, RET_INSN),
                    syms,
                    k + 1,
                    patch_set,
                    fin,
                    v,
                );
            } else if !patch_set.contains(name) {
                lemma_patches_keep(entries, syms, k + 1, patch_set, fin, v);
            }
        }
    }
}

/// Every symbol of the patch set ends with the return word at its address.
proof fn lemma_patches_return(
    entries: Map<u64, u32>,
    syms: Seq<(Option<Seq<char>>, u64)>,
    k: int,
    patch_set: Seq<Seq<char>>,
    fin: Map<u64, u32>,
    j: int,
)
    requires
        apply_patches(entries, syms, k, patch_set) == Ok::<Map<u64, u32>, LoadError>(fin),
        0 <= k <= j < syms.len(),
        syms[j].0 matches Some(n) && patch_set.contains(n),
    ensures
        fin.contains_key(syms[j].1),
        fin[syms[j].1] == RET_INSN,
    decreases j - k,
{
    if let Some(name) = syms[k].0 {
        if patch_set.contains(name) {
            let e2 = entries.insert(syms[k].1, RET_INSN);
            if k == j {
                lemma_patches_keep(e2, syms, k + 1, patch_set, fin, syms[j].1);
            } else {
                lemma_patches_return(e2, syms, k + 1, patch_set, fin, j);
            }
        } else {
            lemma_patches_return(entries, syms, k + 1, patch_set, fin, j);
        }
    }
}

/// A loaded executable has the return word at the address of every symbol whose name is in
/// the patch set.
pub proof fn lemma_load_patches(
    input: Seq<u8>,
    max_mem: u64,
    h: ElfHeader,
    segs: Option<Seq<(u32, u64, u64, u64, u64)>>,
    syms: Seq<(Option<Seq<char>>, u64)>,
    patch_set: Seq<Seq<char>>,
    j: int,
)
    requires
        load_spec(input, max_mem, h, segs, Some(syms), patch_set) is Ok,
        0 <= j < syms.len(),
        syms[j].0 matches Some(n) && patch_set.contains(n),
    ensures
        ({
            let image = load_spec(input, max_mem, h, segs, Some(syms), patch_set)->Ok_0.1;
            image.contains_key(syms[j].1) && image[syms[j].1] == RET_INSN
        }),
{
    let en = project_segments(Map::empty(), input, segs->Some_0, 0, max_mem)->Ok_0;
    let fin = apply_patches(en, syms, 0, patch_set)->Ok_0;
    lemma_patches_return(en, syms, 0, patch_set, fin, j);
}

/// The byte of the last write at `x` among the byte writes `ws`, in issue order.
pub open spec fn last_write(ws: Seq<(u64, u8)>, x: int) -> Option<u8>
    decreases ws.len(),
{
    if ws.len() == 0 {
        None
    } else if ws.last().0 == x {
        Some(ws.last().1)
    } else {
        last_write(ws.drop_last(), x)
    }
}

/// Queueing byte writes one after another: the pending byte at each address is that of the
/// last write there.
proof fn lemma_queued_bytes(ps: Seq<Seq<MemStore>>, ws: Seq<(u64, u8)>, x: int)
    requires
        ps.len() == ws.len() + 1,
        forall|k: int|
            0 <= k < ws.len() ==> stores_bytes(ps[k], ps[k + 1], (#[trigger] ws[k]).0, 1, ws[k].1 as u64),
    ensures
        pending_byte(ps.last(), x) == match last_write(ws, x) {
            Some(b) => Some(b),
            None => pending_byte(ps[0], x),
        },
    decreases ws.len(),
{
    if ws.len() > 0 {
        let n = ws.len() - 1;
        assert forall|k: int| 0 <= k < ws.drop_last().len() implies stores_bytes(
            ps.drop_last()[k],
            ps.drop_last()[k + 1],
            (#[trigger] ws.drop_last()[k]).0,
            1,
            ws.drop_last()[k].1 as u64,
        ) by {
            assert(ws.drop_last()[k] == ws[k]);
        }
        lemma_queued_bytes(ps.drop_last(), ws.drop_last(), x);
        assert(stores_bytes(ps[n], ps[n + 1], ws[n].0, 1, ws[n].1 as u64));
        let b = ws[n].1;
        assert(cell_byte(b as u64, 0) == b) by (bit_vector);
    }
}

/// Byte-level last write wins over a whole step: when a step queues the byte writes `ws` in
/// issue order on an empty pending set, the commit that ends it leaves, at every address some
/// region holds, the byte of the last write there, and every other byte as it was.
pub proof fn lemma_step_last_write_wins(
    ps: Seq<Seq<MemStore>>,
    ws: Seq<(u64, u8)>,
    pre: Seq<crate::memory::RegionView>,
    post: Seq<crate::memory::RegionView>,
    x: int,
)
    requires
        ps.len() == ws.len() + 1,
        ps[0] == Seq::<MemStore>::empty(),
        forall|k: int|
            0 <= k < ws.len() ==> stores_bytes(ps[k], ps[k + 1], (#[trigger] ws[k]).0, 1, ws[k].1 as u64),
        commits(pre, post, ps.last()),
    ensures
        byte_at(post, x) == match last_write(ws, x) {
            Some(b) => if covered(pre, x, 1) {
                Some(b)
            } else {
                None
            },
            None => byte_at(pre, x),
        },
{
    lemma_queued_bytes(ps, ws, x);
    assert(pending_byte(ps[0], x) is None);
}

/// Division over two steps: `DIVU q, a, b` then `REMU r, a, b` (or `DIV` then `REM`), with
/// `q` and `r` distinct, nonzero, and neither a source, leave `q * b + r == a` (modulo 2^64 for
/// the signed pair, exactly for the unsigned one) whenever `b` is not zero.
pub proof fn lemma_division_steps<M: Memory>(
    signed: bool,
    i1: u32,
    i2: u32,
    h: HartView,
    m1: M,
    m2: M,
)
    requires
        h.regs.len() == 32,
        rs1_of(i1) == rs1_of(i2),
        rs2_of(i1) == rs2_of(i2),
        rd_of(i1) != rd_of(i2),
        rd_of(i1) != 0,
        rd_of(i2) != 0,
        rd_of(i1) != rs1_of(i1),
        rd_of(i1) != rs2_of(i1),
        reg(h.regs, rs2_of(i1) as int) != 0,
    ensures
        ({
            let (kq, kr) = if signed {
                (InsnKind::Div, InsnKind::Rem)
            } else {
                (InsnKind::Divu, InsnKind::Remu)
            };
            let h1 = exec_spec(kq, i1, h, m1).hart;
            let h2 = exec_spec(kr, i2, h1, m2).hart;
            let a = reg(h.regs, rs1_of(i1) as int);
            let b = reg(h.regs, rs2_of(i1) as int);
            let q = h2.regs[rd_of(i1) as int];
            let r = h2.regs[rd_of(i2) as int];
            &&& wrap64(q * b + r) == a
            &&& !signed ==> q * b + r == a
        }),
{
    assert(rd_of(i1) < 32 && rd_of(i2) < 32 && rs1_of(i1) < 32 && rs2_of(i1) < 32) by (bit_vector);
    let a = reg(h.regs, rs1_of(i1) as int);
    let b = reg(h.regs, rs2_of(i1) as int);
    if signed {
        lemma_div_rem(a, b);
    } else {
        lemma_divu_remu(a, b);
        assert(wrap64(a as int) == a);
    }
}

} // verus!
