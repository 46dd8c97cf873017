//! The hart: register file, program counter, and the fetch-decode-execute step.
use vstd::prelude::*;
use crate::alu::{alu, alu_spec, is_alu, sext32, sext_field, wrap64, low32, wrapping_add64, sign_extend_u32, low_word};
use crate::memory::{Memory, MemAccessSize};
use crate::opcode::{
    decode_kind, decode_spec, rd, rd_of, rs1, rs1_of, rs2, rs2_of, InsnKind,
};

verus! {

/// State of a single hart.
pub struct HartState {
    /// x0 - x31; the entry of x0 is never read.
    pub registers: [u64; 32],
    /// Program counter.
    pub pc: u64,
    /// The register written by the latest instruction, if any.
    pub last_register_write: Option<usize>,
}

/// What a hart state holds, as mathematical values.
pub struct HartView {
    pub regs: Seq<u64>,
    pub pc: u64,
    pub last: Option<usize>,
}

/// Value of register `i`: zero for x0.
pub open spec fn reg(regs: Seq<u64>, i: int) -> u64 {
    if i == 0 {
        0
    } else {
        regs[i]
    }
}

/// The registers after writing `v` to register `i`; a write to x0 is dropped.
pub open spec fn set_reg(regs: Seq<u64>, i: int, v: u64) -> Seq<u64> {
    if i == 0 {
        regs
    } else {
        regs.update(i, v)
    }
}

impl HartState {
    pub open spec fn view(&self) -> HartView {
        HartView { regs: self.registers@, pc: self.pc, last: self.last_register_write }
    }

    /// All registers zero, PC zero.
    pub fn new() -> (r: HartState)
        ensures
            r.registers@ == Seq::new(32, |i: int| 0u64),
            r.pc == 0,
            r.last_register_write is None,
    {
        let r = HartState { registers: [0u64; 32], pc: 0, last_register_write: None };
        assert(r.registers@ =~= Seq::new(32, |i: int| 0u64));
        r
    }

    /// Writes register `reg_index`; writes to x0 are dropped.
    pub fn write_register(&mut self, reg_index: usize, data: u64)
        requires
            reg_index < 32,
        ensures
            final(self).registers@ == set_reg(old(self).registers@, reg_index as int, data),
            final(self).pc == old(self).pc,
            final(self).last_register_write == (if reg_index == 0 {
                old(self).last_register_write
            } else {
                Some(reg_index)
            }),
    {
        if reg_index == 0 {
            return;
        }
        self.registers[reg_index] = data;
        self.last_register_write = Some(reg_index);
    }

    /// Reads register `reg_index`; x0 reads as zero.
    pub fn read_register(&self, reg_index: usize) -> (r: u64)
        requires
            reg_index < 32,
        ensures
            r == reg(self.registers@, reg_index as int),
    {
        if reg_index == 0 {
            0
        } else {
            self.registers[reg_index]
        }
    }
}

impl Default for HartState {
    fn default() -> (r: HartState)
        ensures
            r.registers@ == Seq::new(32, |i: int| 0u64),
            r.pc == 0,
            r.last_register_write is None,
    {
        HartState::new()
    }
}

/// Exceptions that end a step.
#[derive(Clone, Copy, Debug, PartialEq, Eq, Structural)]
pub enum InstructionException {
    /// The word at the PC (first field) does not decode; second field is the word.
    IllegalInstruction(u64, u32),
    /// The PC is in no region.
    FetchError(u64),
    /// A data read at this address was refused.
    LoadAccessFault(u64),
    /// A data write at this address was refused.
    StoreAccessFault(u64),
    /// The address is not aligned to the access width.
    AlignmentFault(u64),
}

/// I-type immediate.
pub open spec fn imm_i(insn: u32) -> u64 {
    sext_field((insn >> 20) as int, 0x800)
}

/// S-type immediate.
pub open spec fn imm_s(insn: u32) -> u64 {
    sext_field((((insn >> 25) << 5) | ((insn >> 7) & 0x1f)) as int, 0x800)
}

/// B-type immediate (even).
pub open spec fn imm_b(insn: u32) -> u64 {
    sext_field(
        ((((insn >> 31) & 1) << 12) | (((insn >> 7) & 1) << 11) | (((insn >> 25) & 0x3f) << 5) | (((
        insn >> 8) & 0xf) << 1)) as int,
        0x1000,
    )
}

/// U-type immediate: the upper 20 bits in place, sign-extended.
pub open spec fn imm_u(insn: u32) -> u64 {
    sext32(insn & 0xffff_f000)
}

/// J-type immediate (even).
pub open spec fn imm_j(insn: u32) -> u64 {
    sext_field(
        ((((insn >> 31) & 1) << 20) | (((insn >> 12) & 0xff) << 12) | (((insn >> 20) & 1) << 11) | (((
        insn >> 21) & 0x3ff) << 1)) as int,
        0x10_0000,
    )
}

/// Six-bit shift amount of a shift-immediate.
pub open spec fn shamt_of(insn: u32) -> u64 {
    ((insn >> 20) & 0x3f) as u64
}

/// Sign-extends the field `v` of `2 * half` values.
fn sign_extend_field(v: u32, half: u32) -> (r: u64)
    requires
        v < 2 * half,
        half <= 0x10_0000,
    ensures
        r == sext_field(v as int, half as int),
{
    if v < half {
        v as u64
    } else {
        0u64.wrapping_sub(2 * (half as u64) - v as u64)
    }
}

pub fn immediate_i(insn: u32) -> (r: u64)
    ensures
        r == imm_i(insn),
{
    let v = insn >> 20;
    assert(insn >> 20u32 < 0x1000) by (bit_vector);
    sign_extend_field(v, 0x800)
}

pub fn immediate_s(insn: u32) -> (r: u64)
    ensures
        r == imm_s(insn),
{
    let v = ((insn >> 25) << 5) | ((insn >> 7) & 0x1f);
    assert((((insn >> 25u32) << 5u32) | ((insn >> 7u32) & 0x1f)) < 0x1000) by (bit_vector);
    sign_extend_field(v, 0x800)
}

pub fn immediate_b(insn: u32) -> (r: u64)
    ensures
        r == imm_b(insn),
{
    let v = (((insn >> 31) & 1) << 12) | (((insn >> 7) & 1) << 11) | (((insn >> 25) & 0x3f) << 5)
        | (((insn >> 8) & 0xf) << 1);
    assert(((((insn >> 31u32) & 1) << 12u32) | (((insn >> 7u32) & 1) << 11u32) | (((insn >> 25u32)
        & 0x3f) << 5u32) | (((insn >> 8u32) & 0xf) << 1u32)) < 0x2000) by (bit_vector);
    sign_extend_field(v, 0x1000)
}

pub fn immediate_u(insn: u32) -> (r: u64)
    ensures
        r == imm_u(insn),
{
    sign_extend_u32(insn & 0xffff_f000)
}

pub fn immediate_j(insn: u32) -> (r: u64)
    ensures
        r == imm_j(insn),
{
    let v = (((insn >> 31) & 1) << 20) | (((insn >> 12) & 0xff) << 12) | (((insn >> 20) & 1) << 11)
        | (((insn >> 21) & 0x3ff) << 1);
    assert(((((insn >> 31u32) & 1) << 20u32) | (((insn >> 12u32) & 0xff) << 12u32) | (((insn
        >> 20u32) & 1) << 11u32) | (((insn >> 21u32) & 0x3ff) << 1u32)) < 0x20_0000)
        by (bit_vector);
    sign_extend_field(v, 0x10_0000)
}

pub fn shamt(insn: u32) -> (r: u64)
    ensures
        r == shamt_of(insn),
{
    ((insn >> 20) & 0x3f) as u64
}

/// What one step does: the hart state after it, the memory write it issues, and its result.
pub struct Outcome {
    pub hart: HartView,
    /// Address, width and data of the write handed to the memory, if one is.
    pub write: Option<(u64, MemAccessSize, u64)>,
    pub result: Result<(), InstructionException>,
}

/// The step ends with `e`; nothing changes.
pub open spec fn fault(h: HartView, e: InstructionException) -> Outcome {
    Outcome { hart: h, write: None, result: Err(e) }
}

/// Register `rd` takes `v`, the PC becomes `pc`.
pub open spec fn write_back(h: HartView, rd: int, v: u64, pc: u64) -> Outcome {
    Outcome {
        hart: HartView {
            regs: set_reg(h.regs, rd, v),
            pc,
            last: if rd == 0 {
                h.last
            } else {
                Some(rd as usize)
            },
        },
        write: None,
        result: Ok(()),
    }
}

/// Only the PC changes.
pub open spec fn jump(h: HartView, pc: u64) -> Outcome {
    Outcome { hart: HartView { regs: h.regs, pc, last: h.last }, write: None, result: Ok(()) }
}

/// Width of the data access of a load, store or atomic.
pub open spec fn access_size(k: InsnKind) -> MemAccessSize {
    match k {
        InsnKind::Lb | InsnKind::Lbu | InsnKind::Sb => MemAccessSize::Byte,
        InsnKind::Lh | InsnKind::Lhu | InsnKind::Sh => MemAccessSize::HalfWord,
        InsnKind::Lw | InsnKind::Lwu | InsnKind::Sw | InsnKind::AmoswapW | InsnKind::LrW
        | InsnKind::ScW | InsnKind::AmoorW | InsnKind::AmoaddW | InsnKind::AmoandW => MemAccessSize::Word,
        _ => MemAccessSize::DoubleWord,
    }
}

/// The register value of a loaded `v`: sign-extended for LB, LH, LW, LR.W, else as read.
pub open spec fn load_ext(k: InsnKind, v: u64) -> u64 {
    match k {
        InsnKind::Lb => sext_field((v % 0x100) as int, 0x80),
        InsnKind::Lh => sext_field((v % 0x1_0000) as int, 0x8000),
        InsnKind::Lw | InsnKind::LrW => sext32(low32(v)),
        _ => v,
    }
}

/// The branch condition of `k` on operands `a`, `b`.
pub open spec fn branch_taken(k: InsnKind, a: u64, b: u64) -> bool {
    match k {
        InsnKind::Beq => a == b,
        InsnKind::Bne => a != b,
        InsnKind::Blt => crate::alu::sx64(a) < crate::alu::sx64(b),
        InsnKind::Bge => crate::alu::sx64(a) >= crate::alu::sx64(b),
        InsnKind::Bltu => a < b,
        _ => a >= b,
    }
}

/// The value an atomic memory operation stores, from the old memory value `m` and operand `b`.
pub open spec fn amo_spec(k: InsnKind, m: u64, b: u64) -> u64 {
    match k {
        InsnKind::AmoswapW | InsnKind::AmoswapD => b,
        InsnKind::AmoorW => m | b,
        InsnKind::AmoandW => m & b,
        _ => wrap64(m + b),
    }
}

/// The effect of executing `k`, encoded by `insn`, on hart `h` against memory `m`.
pub open spec fn exec_spec<M: Memory>(k: InsnKind, insn: u32, h: HartView, m: M) -> Outcome {
    let rd = rd_of(insn) as int;
    let a = reg(h.regs, rs1_of(insn) as int);
    let b = reg(h.regs, rs2_of(insn) as int);
    let next = wrap64(h.pc + 4);
    let size = access_size(k);
    match k {
        InsnKind::Add | InsnKind::Sub | InsnKind::Sll | InsnKind::Slt | InsnKind::Sltu
        | InsnKind::Xor | InsnKind::Srl | InsnKind::Sra | InsnKind::Or | InsnKind::And
        | InsnKind::Mul | InsnKind::Mulh | InsnKind::Mulhsu | InsnKind::Mulhu | InsnKind::Div
        | InsnKind::Divu | InsnKind::Rem | InsnKind::Remu | InsnKind::Mulw | InsnKind::Remuw => write_back(
            h,
            rd,
            alu_spec(k, a, b),
            next,
        ),
        InsnKind::Addi | InsnKind::Slti | InsnKind::Sltiu | InsnKind::Xori | InsnKind::Ori
        | InsnKind::Andi | InsnKind::Addiw => write_back(h, rd, alu_spec(k, a, imm_i(insn)), next),
        InsnKind::Slli | InsnKind::Srli | InsnKind::Srai => write_back(
            h,
            rd,
            alu_spec(k, a, shamt_of(insn)),
            next,
        ),
        InsnKind::Lui => write_back(h, rd, imm_u(insn), next),
        InsnKind::Auipc => write_back(h, rd, wrap64(h.pc + imm_u(insn)), next),
        InsnKind::Jal => write_back(h, rd, next, wrap64(h.pc + imm_j(insn))),
        InsnKind::Jalr => write_back(h, rd, next, wrap64(a + imm_i(insn)) & 0xffff_ffff_ffff_fffe),
        InsnKind::Beq | InsnKind::Bne | InsnKind::Blt | InsnKind::Bge | InsnKind::Bltu
        | InsnKind::Bgeu => if branch_taken(k, a, b) {
            jump(h, wrap64(h.pc + imm_b(insn)))
        } else {
            jump(h, next)
        },
        InsnKind::Lb | InsnKind::Lh | InsnKind::Lw | InsnKind::Ld | InsnKind::Lbu | InsnKind::Lhu
        | InsnKind::Lwu => {
            let addr = wrap64(a + imm_i(insn));
            if addr % size.bytes() != 0 {
                fault(h, InstructionException::AlignmentFault(addr))
            } else {
                match m.mem_read(addr, size) {
                    None => fault(h, InstructionException::LoadAccessFault(addr)),
                    Some(v) => write_back(h, rd, load_ext(k, v), next),
                }
            }
        },
        InsnKind::Sb | InsnKind::Sh | InsnKind::Sw | InsnKind::Sd => {
            let addr = wrap64(a + imm_s(insn));
            if addr % size.bytes() != 0 {
                fault(h, InstructionException::AlignmentFault(addr))
            } else if m.mem_writable(addr, size) {
                Outcome {
                    hart: HartView { regs: h.regs, pc: next, last: h.last },
                    write: Some((addr, size, b)),
                    result: Ok(()),
                }
            } else {
                Outcome {
                    hart: h,
                    write: Some((addr, size, b)),
                    result: Err(InstructionException::StoreAccessFault(addr)),
                }
            }
        },
        InsnKind::LrW | InsnKind::LrD => {
            if a % size.bytes() != 0 {
                fault(h, InstructionException::AlignmentFault(a))
            } else {
                match m.mem_read(a, size) {
                    None => fault(h, InstructionException::LoadAccessFault(a)),
                    Some(v) => write_back(h, rd, load_ext(k, v), next),
                }
            }
        },
        InsnKind::ScW | InsnKind::ScD => {
            if a % size.bytes() != 0 {
                fault(h, InstructionException::AlignmentFault(a))
            } else if m.mem_writable(a, size) {
                let o = write_back(h, rd, 0, next);
                Outcome { hart: o.hart, write: Some((a, size, b)), result: Ok(()) }
            } else {
                Outcome {
                    hart: h,
                    write: Some((a, size, b)),
                    result: Err(InstructionException::StoreAccessFault(a)),
                }
            }
        },
        InsnKind::AmoswapW | InsnKind::AmoorW | InsnKind::AmoaddW | InsnKind::AmoandW => {
            if a % 4 != 0 {
                fault(h, InstructionException::AlignmentFault(a))
            } else {
                match m.mem_read(a, MemAccessSize::Word) {
                    None => fault(h, InstructionException::LoadAccessFault(a)),
                    Some(v) => {
                        let old_val = sext32(low32(v));
                        let o = write_back(h, rd, old_val, next);
                        Outcome {
                            hart: o.hart,
                            write: Some(
                                (a, MemAccessSize::Word, amo_spec(k, old_val, sext32(low32(b)))),
                            ),
                            result: Ok(()),
                        }
                    },
                }
            }
        },
        InsnKind::AmoaddD | InsnKind::AmoswapD => {
            if a % 8 != 0 {
                fault(h, InstructionException::AlignmentFault(a))
            } else {
                match m.mem_read(a, MemAccessSize::DoubleWord) {
                    None => fault(h, InstructionException::LoadAccessFault(a)),
                    Some(v) => {
                        let o = write_back(h, rd, v, next);
                        Outcome {
                            hart: o.hart,
                            write: Some((a, MemAccessSize::DoubleWord, amo_spec(k, v, b))),
                            result: Ok(()),
                        }
                    },
                }
            }
        },
        InsnKind::Rdtime => write_back(h, rd, 0, next),
        _ => jump(h, next),
    }
}

/// Whether the handler of `k` writes the PC itself: jumps always, branches when taken.
pub open spec fn writes_pc(k: InsnKind, insn: u32, h: HartView) -> bool {
    match k {
        InsnKind::Jal | InsnKind::Jalr => true,
        InsnKind::Beq | InsnKind::Bne | InsnKind::Blt | InsnKind::Bge | InsnKind::Bltu
        | InsnKind::Bgeu => branch_taken(
            k,
            reg(h.regs, rs1_of(insn) as int),
            reg(h.regs, rs2_of(insn) as int),
        ),
        _ => false,
    }
}

/// What the handler of `k` does: as `exec_spec`, except that the PC stays where it is unless
/// the handler writes it; the step adds 4 afterwards.
pub open spec fn handler_spec<M: Memory>(k: InsnKind, insn: u32, h: HartView, m: M) -> Outcome {
    let o = exec_spec(k, insn, h, m);
    if writes_pc(k, insn, h) {
        o
    } else {
        Outcome {
            hart: HartView { regs: o.hart.regs, pc: h.pc, last: o.hart.last },
            write: o.write,
            result: o.result,
        }
    }
}

/// Whether the instruction the step at `h` runs writes the PC itself.
pub open spec fn step_writes_pc<M: Memory>(h: HartView, m: M) -> bool {
    let h0 = HartView { regs: h.regs, pc: h.pc, last: None };
    match m.mem_read(h.pc, MemAccessSize::Word) {
        None => false,
        Some(w) => {
            let insn = (w % 0x1_0000_0000) as u32;
            match decode_spec(insn) {
                None => false,
                Some(k) => writes_pc(k, insn, h0),
            }
        },
    }
}

/// One fetch-decode-execute step of hart `h` against memory `m`.
pub open spec fn step_spec<M: Memory>(h: HartView, m: M) -> Outcome {
    let h0 = HartView { regs: h.regs, pc: h.pc, last: None };
    match m.mem_read(h.pc, MemAccessSize::Word) {
        None => fault(h0, InstructionException::FetchError(h.pc)),
        Some(w) => {
            let insn = (w % 0x1_0000_0000) as u32;
            match decode_spec(insn) {
                None => fault(h0, InstructionException::IllegalInstruction(h.pc, insn)),
                Some(k) => exec_spec(k, insn, h0, m),
            }
        },
    }
}

/// How memory `post` follows from `pre` under outcome `o`.
pub open spec fn memory_follows<M: Memory>(o: Outcome, pre: M, post: M) -> bool {
    match o.write {
        None => post == pre,
        Some((a, s, d)) => pre.mem_written(a, s, d, post),
    }
}

/// Executes instructions of `hart_state` against `mem`.
pub struct InstructionExecutor<M: Memory> {
    /// Memory used by fetches, loads, stores and atomics.
    pub mem: M,
    pub hart_state: HartState,
}

impl<M: Memory> InstructionExecutor<M> {
    /// Sets `rd` and moves the PC to `pc`.
    fn finish(&mut self, rd: usize, v: u64, pc: u64)
        requires
            rd < 32,
        ensures
            final(self).hart_state@ == write_back(old(self).hart_state@, rd as int, v, pc).hart,
            final(self).mem == old(self).mem,
    {
        self.hart_state.write_register(rd, v);
        self.hart_state.pc = pc;
    }

    pub(crate) fn execute_reg_reg_op(&mut self, k: InsnKind, insn: u32)
        requires
            is_alu(k),
        ensures
            final(self).hart_state@ == write_back(
                old(self).hart_state@,
                rd_of(insn) as int,
                alu_spec(
                    k,
                    reg(old(self).hart_state.registers@, rs1_of(insn) as int),
                    reg(old(self).hart_state.registers@, rs2_of(insn) as int),
                ),
                old(self).hart_state.pc,
            ).hart,
            final(self).mem == old(self).mem,
    {
        let a = self.hart_state.read_register(rs1(insn));
        let b = self.hart_state.read_register(rs2(insn));
        let result = alu(k, a, b);
        self.hart_state.write_register(rd(insn), result);
    }

    pub(crate) fn execute_reg_imm_op(&mut self, k: InsnKind, insn: u32)
        requires
            is_alu(k),
        ensures
            final(self).hart_state@ == write_back(
                old(self).hart_state@,
                rd_of(insn) as int,
                alu_spec(k, reg(old(self).hart_state.registers@, rs1_of(insn) as int), imm_i(insn)),
                old(self).hart_state.pc,
            ).hart,
            final(self).mem == old(self).mem,
    {
        let a = self.hart_state.read_register(rs1(insn));
        let b = immediate_i(insn);
        let result = alu(k, a, b);
        self.hart_state.write_register(rd(insn), result);
    }

    pub(crate) fn execute_reg_imm_shamt_op(&mut self, k: InsnKind, insn: u32)
        requires
            is_alu(k),
        ensures
            final(self).hart_state@ == write_back(
                old(self).hart_state@,
                rd_of(insn) as int,
                alu_spec(
                    k,
                    reg(old(self).hart_state.registers@, rs1_of(insn) as int),
                    shamt_of(insn),
                ),
                old(self).hart_state.pc,
            ).hart,
            final(self).mem == old(self).mem,
    {
        let a = self.hart_state.read_register(rs1(insn));
        let result = alu(k, a, shamt(insn));
        self.hart_state.write_register(rd(insn), result);
    }

    /// Moves the PC to the branch target when the condition holds, and returns the condition;
    /// otherwise leaves the PC alone.
    pub(crate) fn execute_branch(&mut self, k: InsnKind, insn: u32) -> (r: bool)
        ensures
            r == branch_taken(
                k,
                reg(old(self).hart_state.registers@, rs1_of(insn) as int),
                reg(old(self).hart_state.registers@, rs2_of(insn) as int),
            ),
            final(self).hart_state@ == (if r {
                jump(
                    old(self).hart_state@,
                    wrap64(old(self).hart_state.pc + imm_b(insn)),
                ).hart
            } else {
                old(self).hart_state@
            }),
            final(self).mem == old(self).mem,
    {
        let a = self.hart_state.read_register(rs1(insn));
        let b = self.hart_state.read_register(rs2(insn));
        let taken = branch_condition(k, a, b);
        if taken {
            self.hart_state.pc = wrapping_add64(self.hart_state.pc, immediate_b(insn));
        }
        taken
    }

    pub(crate) fn execute_load(&mut self, k: InsnKind, insn: u32, size: MemAccessSize) -> (r: Result<
        (),
        InstructionException,
    >)
        requires
            old(self).mem.mem_inv(),
            size == access_size(k),
            k == InsnKind::Lb || k == InsnKind::Lh || k == InsnKind::Lw || k == InsnKind::Ld || k
                == InsnKind::Lbu || k == InsnKind::Lhu || k == InsnKind::Lwu,
        ensures
            ({
                let o = handler_spec(k, insn, old(self).hart_state@, old(self).mem);
                &&& final(self).hart_state@ == o.hart
                &&& r == o.result
                &&& o.write is None
            }),
            final(self).mem == old(self).mem,
    {
        let addr = wrapping_add64(self.hart_state.read_register(rs1(insn)), immediate_i(insn));
        if addr % size.num_bytes() != 0 {
            return Err(InstructionException::AlignmentFault(addr));
        }
        let v = match self.mem.read_mem(addr, size) {
            Some(d) => d,
            None => {
                return Err(InstructionException::LoadAccessFault(addr));
            },
        };
        let data = load_extend(k, v);
        self.hart_state.write_register(rd(insn), data);
        Ok(())
    }

    pub(crate) fn execute_store(&mut self, k: InsnKind, insn: u32, size: MemAccessSize) -> (r: Result<
        (),
        InstructionException,
    >)
        requires
            old(self).mem.mem_inv(),
            size == access_size(k),
            k == InsnKind::Sb || k == InsnKind::Sh || k == InsnKind::Sw || k == InsnKind::Sd,
        ensures
            ({
                let o = handler_spec(k, insn, old(self).hart_state@, old(self).mem);
                &&& final(self).hart_state@ == o.hart
                &&& r == o.result
                &&& memory_follows(o, old(self).mem, final(self).mem)
            }),
            final(self).mem.mem_inv(),
    {
        let addr = wrapping_add64(self.hart_state.read_register(rs1(insn)), immediate_s(insn));
        let data = self.hart_state.read_register(rs2(insn));
        if addr % size.num_bytes() != 0 {
            return Err(InstructionException::AlignmentFault(addr));
        }
        if self.mem.write_mem(addr, size, data) {
            Ok(())
        } else {
            Err(InstructionException::StoreAccessFault(addr))
        }
    }

    /// LR.W / LR.D: an aligned load; reservations are trivially held on a single hart.
    pub(crate) fn execute_amo_load(&mut self, k: InsnKind, insn: u32, size: MemAccessSize) -> (r: Result<
        (),
        InstructionException,
    >)
        requires
            old(self).mem.mem_inv(),
            size == access_size(k),
            k == InsnKind::LrW || k == InsnKind::LrD,
        ensures
            ({
                let o = handler_spec(k, insn, old(self).hart_state@, old(self).mem);
                &&& final(self).hart_state@ == o.hart
                &&& r == o.result
                &&& o.write is None
            }),
            final(self).mem == old(self).mem,
    {
        let addr = self.hart_state.read_register(rs1(insn));
        if addr % size.num_bytes() != 0 {
            return Err(InstructionException::AlignmentFault(addr));
        }
        let v = match self.mem.read_mem(addr, size) {
            Some(d) => d,
            None => {
                return Err(InstructionException::LoadAccessFault(addr));
            },
        };
        let data = load_extend(k, v);
        self.hart_state.write_register(rd(insn), data);
        Ok(())
    }

    /// SC.W / SC.D: an aligned store that always succeeds on a single hart and writes 0 to rd.
    pub(crate) fn execute_amo_store(&mut self, k: InsnKind, insn: u32, size: MemAccessSize) -> (r: Result<
        (),
        InstructionException,
    >)
        requires
            old(self).mem.mem_inv(),
            size == access_size(k),
            k == InsnKind::ScW || k == InsnKind::ScD,
        ensures
            ({
                let o = handler_spec(k, insn, old(self).hart_state@, old(self).mem);
                &&& final(self).hart_state@ == o.hart
                &&& r == o.result
                &&& memory_follows(o, old(self).mem, final(self).mem)
            }),
            final(self).mem.mem_inv(),
    {
        let addr = self.hart_state.read_register(rs1(insn));
        let data = self.hart_state.read_register(rs2(insn));
        if addr % size.num_bytes() != 0 {
            return Err(InstructionException::AlignmentFault(addr));
        }
        if self.mem.write_mem(addr, size, data) {
            self.hart_state.write_register(rd(insn), 0);
            Ok(())
        } else {
            Err(InstructionException::StoreAccessFault(addr))
        }
    }

    /// AMOSWAP.W, AMOOR.W, AMOADD.W, AMOAND.W.
    pub(crate) fn execute_amow(&mut self, k: InsnKind, insn: u32) -> (r: Result<(), InstructionException>)
        requires
            old(self).mem.mem_inv(),
            k == InsnKind::AmoswapW || k == InsnKind::AmoorW || k == InsnKind::AmoaddW || k
                == InsnKind::AmoandW,
        ensures
            ({
                let o = handler_spec(k, insn, old(self).hart_state@, old(self).mem);
                &&& final(self).hart_state@ == o.hart
                &&& r == o.result
                &&& memory_follows(o, old(self).mem, final(self).mem)
            }),
            final(self).mem.mem_inv(),
    {
        let addr = self.hart_state.read_register(rs1(insn));
        if addr % 4 != 0 {
            return Err(InstructionException::AlignmentFault(addr));
        }
        let old_val = match self.mem.read_mem(addr, MemAccessSize::Word) {
            Some(v) => sign_extend_u32(low_word(v)),
            None => {
                return Err(InstructionException::LoadAccessFault(addr));
            },
        };
        let b = sign_extend_u32(low_word(self.hart_state.read_register(rs2(insn))));
        let new_val = match k {
            InsnKind::AmoswapW => b,
            InsnKind::AmoorW => old_val | b,
            InsnKind::AmoandW => old_val & b,
            _ => wrapping_add64(old_val, b),
        };
        self.hart_state.write_register(rd(insn), old_val);
        let _ = self.mem.write_mem(addr, MemAccessSize::Word, new_val);
        Ok(())
    }

    /// AMOADD.D, AMOSWAP.D.
    pub(crate) fn execute_amod(&mut self, k: InsnKind, insn: u32) -> (r: Result<(), InstructionException>)
        requires
            old(self).mem.mem_inv(),
            k == InsnKind::AmoaddD || k == InsnKind::AmoswapD,
        ensures
            ({
                let o = handler_spec(k, insn, old(self).hart_state@, old(self).mem);
                &&& final(self).hart_state@ == o.hart
                &&& r == o.result
                &&& memory_follows(o, old(self).mem, final(self).mem)
            }),
            final(self).mem.mem_inv(),
    {
        let addr = self.hart_state.read_register(rs1(insn));
        if addr % 8 != 0 {
            return Err(InstructionException::AlignmentFault(addr));
        }
        let old_val = match self.mem.read_mem(addr, MemAccessSize::DoubleWord) {
            Some(v) => v,
            None => {
                return Err(InstructionException::LoadAccessFault(addr));
            },
        };
        let b = self.hart_state.read_register(rs2(insn));
        let new_val = match k {
            InsnKind::AmoswapD => b,
            _ => wrapping_add64(old_val, b),
        };
        self.hart_state.write_register(rd(insn), old_val);
        let _ = self.mem.write_mem(addr, MemAccessSize::DoubleWord, new_val);
        Ok(())
    }

    /// Executes `k`, encoded by `insn`, at the current PC. `Ok(true)` when the handler wrote
    /// the PC itself; otherwise the PC is left for the step to advance.
    pub(crate) fn execute(&mut self, k: InsnKind, insn: u32) -> (r: Result<bool, InstructionException>)
        requires
            old(self).mem.mem_inv(),
        ensures
            ({
                let o = handler_spec(k, insn, old(self).hart_state@, old(self).mem);
                &&& final(self).hart_state@ == o.hart
                &&& r == match o.result {
                    Ok(_) => Ok::<bool, InstructionException>(
                        writes_pc(k, insn, old(self).hart_state@),
                    ),
                    Err(e) => Err::<bool, InstructionException>(e),
                }
                &&& memory_follows(o, old(self).mem, final(self).mem)
            }),
            final(self).mem.mem_inv(),
    {
        match k {
            InsnKind::Add | InsnKind::Sub | InsnKind::Sll | InsnKind::Slt | InsnKind::Sltu
            | InsnKind::Xor | InsnKind::Srl | InsnKind::Sra | InsnKind::Or | InsnKind::And
            | InsnKind::Mul | InsnKind::Mulh | InsnKind::Mulhsu | InsnKind::Mulhu | InsnKind::Div
            | InsnKind::Divu | InsnKind::Rem | InsnKind::Remu | InsnKind::Mulw | InsnKind::Remuw => {
                self.execute_reg_reg_op(k, insn);
                Ok(false)
            },
            InsnKind::Addi | InsnKind::Slti | InsnKind::Sltiu | InsnKind::Xori | InsnKind::Ori
            | InsnKind::Andi | InsnKind::Addiw => {
                self.execute_reg_imm_op(k, insn);
                Ok(false)
            },
            InsnKind::Slli | InsnKind::Srli | InsnKind::Srai => {
                self.execute_reg_imm_shamt_op(k, insn);
                Ok(false)
            },
            InsnKind::Lui => {
                self.hart_state.write_register(rd(insn), immediate_u(insn));
                Ok(false)
            },
            InsnKind::Auipc => {
                let v = wrapping_add64(self.hart_state.pc, immediate_u(insn));
                self.hart_state.write_register(rd(insn), v);
                Ok(false)
            },
            InsnKind::Jal => {
                let target = wrapping_add64(self.hart_state.pc, immediate_j(insn));
                let next = wrapping_add64(self.hart_state.pc, 4);
                self.finish(rd(insn), next, target);
                Ok(true)
            },
            InsnKind::Jalr => {
                let target = wrapping_add64(
                    self.hart_state.read_register(rs1(insn)),
                    immediate_i(insn),
                ) & 0xffff_ffff_ffff_fffe;
                let next = wrapping_add64(self.hart_state.pc, 4);
                self.finish(rd(insn), next, target);
                Ok(true)
            },
            InsnKind::Beq | InsnKind::Bne | InsnKind::Blt | InsnKind::Bge | InsnKind::Bltu
            | InsnKind::Bgeu => Ok(self.execute_branch(k, insn)),
            InsnKind::Lb | InsnKind::Lbu => flag_unchanged(self.execute_load(k, insn, MemAccessSize::Byte)),
            InsnKind::Lh | InsnKind::Lhu => flag_unchanged(
                self.execute_load(k, insn, MemAccessSize::HalfWord),
            ),
            InsnKind::Lw | InsnKind::Lwu => flag_unchanged(self.execute_load(k, insn, MemAccessSize::Word)),
            InsnKind::Ld => flag_unchanged(self.execute_load(k, insn, MemAccessSize::DoubleWord)),
            InsnKind::Sb => flag_unchanged(self.execute_store(k, insn, MemAccessSize::Byte)),
            InsnKind::Sh => flag_unchanged(self.execute_store(k, insn, MemAccessSize::HalfWord)),
            InsnKind::Sw => flag_unchanged(self.execute_store(k, insn, MemAccessSize::Word)),
            InsnKind::Sd => flag_unchanged(self.execute_store(k, insn, MemAccessSize::DoubleWord)),
            InsnKind::LrW => flag_unchanged(self.execute_amo_load(k, insn, MemAccessSize::Word)),
            InsnKind::LrD => flag_unchanged(self.execute_amo_load(k, insn, MemAccessSize::DoubleWord)),
            InsnKind::ScW => flag_unchanged(self.execute_amo_store(k, insn, MemAccessSize::Word)),
            InsnKind::ScD => flag_unchanged(
                self.execute_amo_store(k, insn, MemAccessSize::DoubleWord),
            ),
            InsnKind::AmoswapW | InsnKind::AmoorW | InsnKind::AmoaddW | InsnKind::AmoandW => {
                flag_unchanged(self.execute_amow(k, insn))
            },
            InsnKind::AmoaddD | InsnKind::AmoswapD => flag_unchanged(self.execute_amod(k, insn)),
            InsnKind::Rdtime => {
                self.hart_state.write_register(rd(insn), 0);
                Ok(false)
            },
            _ => {
                // FENCE and EBREAK do nothing here; ECALL is serviced by the session driver
                Ok(false)
            },
        }
    }

    /// Executes the instruction at `hart_state.pc`, advancing the PC by 4 unless the
    /// instruction wrote it. `Ok(true)` when the instruction wrote the PC itself.
    pub fn step_and_report(&mut self) -> (r: Result<bool, InstructionException>)
        requires
            old(self).mem.mem_inv(),
        ensures
            ({
                let o = step_spec(old(self).hart_state@, old(self).mem);
                &&& final(self).hart_state@ == o.hart
                &&& r == match o.result {
                    Ok(_) => Ok::<bool, InstructionException>(
                        step_writes_pc(old(self).hart_state@, old(self).mem),
                    ),
                    Err(e) => Err::<bool, InstructionException>(e),
                }
                &&& memory_follows(o, old(self).mem, final(self).mem)
            }),
            final(self).mem.mem_inv(),
    {
        self.hart_state.last_register_write = None;
        let pc = self.hart_state.pc;
        match self.mem.read_mem(pc, MemAccessSize::Word) {
            None => Err(InstructionException::FetchError(pc)),
            Some(w) => {
                let insn = (w % 0x1_0000_0000) as u32;
                match decode_kind(insn) {
                    None => Err(InstructionException::IllegalInstruction(pc, insn)),
                    Some(k) => {
                        let r = self.execute(k, insn);
                        match r {
                            Ok(false) => {
                                self.hart_state.pc = wrapping_add64(pc, 4);
                            },
                            _ => {},
                        }
                        r
                    },
                }
            },
        }
    }

    /// Executes the instruction at `hart_state.pc`.
    pub fn step(&mut self) -> (r: Result<(), InstructionException>)
        requires
            old(self).mem.mem_inv(),
        ensures
            ({
                let o = step_spec(old(self).hart_state@, old(self).mem);
                &&& final(self).hart_state@ == o.hart
                &&& r == o.result
                &&& memory_follows(o, old(self).mem, final(self).mem)
            }),
            final(self).mem.mem_inv(),
    {
        match self.step_and_report() {
            Ok(_) => Ok(()),
            Err(e) => Err(e),
        }
    }
}

/// A handler result that leaves the PC to the step.
fn flag_unchanged(r: Result<(), InstructionException>) -> (f: Result<bool, InstructionException>)
    ensures
        f == match r {
            Ok(_) => Ok::<bool, InstructionException>(false),
            Err(e) => Err::<bool, InstructionException>(e),
        },
{
    match r {
        Ok(()) => Ok(false),
        Err(e) => Err(e),
    }
}

/// Whether branch `k` is taken on operands `a` and `b`.
pub fn branch_condition(k: InsnKind, a: u64, b: u64) -> (r: bool)
    ensures
        r == branch_taken(k, a, b),
{
    let two63: u64 = 0x8000_0000_0000_0000;
    let lt = if (a >= two63) != (b >= two63) {
        a >= two63
    } else {
        a < b
    };
    match k {
        InsnKind::Beq => a == b,
        InsnKind::Bne => a != b,
        InsnKind::Blt => lt,
        InsnKind::Bge => !lt,
        InsnKind::Bltu => a < b,
        _ => a >= b,
    }
}

/// Applies the extension `load_ext(k, v)`.
fn load_extend(k: InsnKind, v: u64) -> (r: u64)
    ensures
        r == load_ext(k, v),
{
    match k {
        InsnKind::Lb => sign_extend_field((v % 0x100) as u32, 0x80),
        InsnKind::Lh => sign_extend_field((v % 0x1_0000) as u32, 0x8000),
        InsnKind::Lw | InsnKind::LrW => sign_extend_u32(low_word(v)),
        _ => v,
    }
}

} // verus!
