//! Instruction decoding: fields of a 32-bit word and the canonical opcode record.
use vstd::prelude::*;

verus! {

/// Opcode field, bits 6..0.
pub open spec fn opcode_of(insn: u32) -> u32 {
    insn & 0x7f
}

/// Destination register, bits 11..7.
pub open spec fn rd_of(insn: u32) -> u32 {
    (insn >> 7) & 0x1f
}

/// Function field, bits 14..12.
pub open spec fn funct3_of(insn: u32) -> u32 {
    (insn >> 12) & 0x7
}

/// First source register, bits 19..15.
pub open spec fn rs1_of(insn: u32) -> u32 {
    (insn >> 15) & 0x1f
}

/// Second source register, bits 24..20.
pub open spec fn rs2_of(insn: u32) -> u32 {
    (insn >> 20) & 0x1f
}

/// Bits 31..25.
pub open spec fn funct7_of(insn: u32) -> u32 {
    insn >> 25
}

/// Bits 31..26: the function field of a 64-bit shift, whose amount has six bits.
pub open spec fn funct7_rv64_of(insn: u32) -> u32 {
    insn >> 26
}

/// Bits 31..27: the operation of an atomic.
pub open spec fn funct5_of(insn: u32) -> u32 {
    insn >> 27
}

pub fn opcode(insn: u32) -> (r: u32)
    ensures
        r == opcode_of(insn),
{
    insn & 0x7f
}

pub fn rd(insn: u32) -> (r: usize)
    ensures
        r == rd_of(insn),
        r < 32,
{
    let v = (insn >> 7) & 0x1f;
    assert(((insn >> 7u32) & 0x1f) < 32) by (bit_vector);
    v as usize
}

pub fn funct3(insn: u32) -> (r: u32)
    ensures
        r == funct3_of(insn),
{
    (insn >> 12) & 0x7
}

pub fn rs1(insn: u32) -> (r: usize)
    ensures
        r == rs1_of(insn),
        r < 32,
{
    let v = (insn >> 15) & 0x1f;
    assert(((insn >> 15u32) & 0x1f) < 32) by (bit_vector);
    v as usize
}

pub fn rs2(insn: u32) -> (r: usize)
    ensures
        r == rs2_of(insn),
        r < 32,
{
    let v = (insn >> 20) & 0x1f;
    assert(((insn >> 20u32) & 0x1f) < 32) by (bit_vector);
    v as usize
}

/// The groups of the decoder's accounting; an instruction's group is its index divided by eight.
#[derive(Clone, Copy, Debug, PartialEq, Eq, Structural)]
pub enum MajorType {
    Compute0,
    Compute1,
    Compute2,
    MemIo,
    Multiply,
    Divide,
    VerifyAnd,
    VerifyDivide,
    ECall,
    ShaInit,
    ShaLoad,
    ShaMain,
    PageFault,
    MuxSize,
}

impl MajorType {
    /// Position of the tag in the list above, from zero.
    pub open spec fn index(self) -> u32 {
        match self {
            MajorType::Compute0 => 0,
            MajorType::Compute1 => 1,
            MajorType::Compute2 => 2,
            MajorType::MemIo => 3,
            MajorType::Multiply => 4,
            MajorType::Divide => 5,
            MajorType::VerifyAnd => 6,
            MajorType::VerifyDivide => 7,
            MajorType::ECall => 8,
            MajorType::ShaInit => 9,
            MajorType::ShaLoad => 10,
            MajorType::ShaMain => 11,
            MajorType::PageFault => 12,
            MajorType::MuxSize => 13,
        }
    }

    pub fn as_u32(self) -> (r: u32)
        ensures
            r == self.index(),
    {
        match self {
            MajorType::Compute0 => 0,
            MajorType::Compute1 => 1,
            MajorType::Compute2 => 2,
            MajorType::MemIo => 3,
            MajorType::Multiply => 4,
            MajorType::Divide => 5,
            MajorType::VerifyAnd => 6,
            MajorType::VerifyDivide => 7,
            MajorType::ECall => 8,
            MajorType::ShaInit => 9,
            MajorType::ShaLoad => 10,
            MajorType::ShaMain => 11,
            MajorType::PageFault => 12,
            MajorType::MuxSize => 13,
        }
    }

    /// The tag at position `v`, if there is one.
    pub fn from_u32(v: u32) -> (r: Option<MajorType>)
        ensures
            v <= 13 ==> (r matches Some(m) && m.index() == v),
            v > 13 ==> r is None,
    {
        match v {
            0 => Some(MajorType::Compute0),
            1 => Some(MajorType::Compute1),
            2 => Some(MajorType::Compute2),
            3 => Some(MajorType::MemIo),
            4 => Some(MajorType::Multiply),
            5 => Some(MajorType::Divide),
            6 => Some(MajorType::VerifyAnd),
            7 => Some(MajorType::VerifyDivide),
            8 => Some(MajorType::ECall),
            9 => Some(MajorType::ShaInit),
            10 => Some(MajorType::ShaLoad),
            11 => Some(MajorType::ShaMain),
            12 => Some(MajorType::PageFault),
            13 => Some(MajorType::MuxSize),
            _ => None,
        }
    }
}

/// The digit of value `d` (below 16), lower-case.
pub open spec fn digit_char(d: nat) -> char {
    if d < 10 {
        (48 + d) as char
    } else {
        (87 + d) as char
    }
}

/// `n` in decimal, without leading zeros.
pub open spec fn decimal(n: nat) -> Seq<char>
    decreases n,
{
    if n < 10 {
        seq![digit_char(n)]
    } else {
        decimal(n / 10).push(digit_char(n % 10))
    }
}

/// `n` in lower-case hex, without leading zeros.
pub open spec fn hex(n: nat) -> Seq<char>
    decreases n,
{
    if n < 16 {
        seq![digit_char(n)]
    } else {
        hex(n / 16).push(digit_char(n % 16))
    }
}

/// `s` padded on the left with zeros to at least eight characters.
pub open spec fn pad8(s: Seq<char>) -> Seq<char> {
    if s.len() >= 8 {
        s
    } else {
        Seq::new((8 - s.len()) as nat, |i: int| '0') + s
    }
}

/// The text `[cycle] pc: 0x<pc>, insn: 0x<insn> => <name>`, with `cycle` in decimal and `pc`
/// and `insn` in lower-case hex padded to eight digits.
pub open spec fn trace_line(cycle: usize, pc: u64, insn: u32, name: Seq<char>) -> Seq<char> {
    "["@ + decimal(cycle as nat) + "] pc: 0x"@ + pad8(hex(pc as nat)) + ", insn: 0x"@ + pad8(
        hex(insn as nat),
    ) + " => "@ + name
}

/// Relies on `std::format!`: `{}` writes an integer in decimal and a string as is, `{:08x}`
/// writes lower-case hex padded with zeros to eight digits.
#[verifier::external_body]
fn format_trace_line(cycle: usize, pc: u64, insn: u32, name: &str) -> (r: String)
    ensures
        r@ == trace_line(cycle, pc, insn, name@),
{
    format!("[{}] pc: 0x{:08x}, insn: 0x{:08x} => {}", cycle, pc, insn, name)
}

/// Every instruction the decoder recognises.
#[derive(Clone, Copy, Debug, PartialEq, Eq, Structural)]
pub enum InsnKind {
    Lb,
    Lh,
    Lw,
    Ld,
    Lbu,
    Lhu,
    Lwu,
    Addi,
    Slli,
    Slti,
    Sltiu,
    Xori,
    Srli,
    Srai,
    Ori,
    Andi,
    Auipc,
    Sb,
    Sh,
    Sw,
    Sd,
    Add,
    Sub,
    Sll,
    Slt,
    Sltu,
    Xor,
    Srl,
    Sra,
    Or,
    And,
    Mul,
    Mulh,
    Mulhsu,
    Mulhu,
    Div,
    Divu,
    Rem,
    Remu,
    AmoswapW,
    LrW,
    ScW,
    AmoorW,
    AmoaddW,
    AmoandW,
    AmoaddD,
    AmoswapD,
    LrD,
    ScD,
    Lui,
    Beq,
    Bne,
    Blt,
    Bge,
    Bltu,
    Bgeu,
    Jalr,
    Addiw,
    Mulw,
    Remuw,
    Jal,
    Ecall,
    Ebreak,
    Rdtime,
    Fence,
}

/// The instruction that `insn` encodes, or `None` for an illegal bit pattern.
pub open spec fn decode_spec(insn: u32) -> Option<InsnKind> {
    let op = opcode_of(insn);
    let f3 = funct3_of(insn);
    let f7 = funct7_of(insn);
    let f5 = funct5_of(insn);
    if op == 0b0000011 {
        if f3 == 0 {
            Some(InsnKind::Lb)
        } else if f3 == 1 {
            Some(InsnKind::Lh)
        } else if f3 == 2 {
            Some(InsnKind::Lw)
        } else if f3 == 3 {
            Some(InsnKind::Ld)
        } else if f3 == 4 {
            Some(InsnKind::Lbu)
        } else if f3 == 5 {
            Some(InsnKind::Lhu)
        } else if f3 == 6 {
            Some(InsnKind::Lwu)
        } else {
            None
        }
    } else if op == 0b0010011 {
        if f3 == 0 {
            Some(InsnKind::Addi)
        } else if f3 == 1 {
            Some(InsnKind::Slli)
        } else if f3 == 2 {
            Some(InsnKind::Slti)
        } else if f3 == 3 {
            Some(InsnKind::Sltiu)
        } else if f3 == 4 {
            Some(InsnKind::Xori)
        } else if f3 == 5 {
            if funct7_rv64_of(insn) == 0 {
                Some(InsnKind::Srli)
            } else if funct7_rv64_of(insn) == 0x10 {
                Some(InsnKind::Srai)
            } else {
                None
            }
        } else if f3 == 6 {
            Some(InsnKind::Ori)
        } else {
            Some(InsnKind::Andi)
        }
    } else if op == 0b0010111 {
        Some(InsnKind::Auipc)
    } else if op == 0b0100011 {
        if f3 == 0 {
            Some(InsnKind::Sb)
        } else if f3 == 1 {
            Some(InsnKind::Sh)
        } else if f3 == 2 {
            Some(InsnKind::Sw)
        } else if f3 == 3 {
            Some(InsnKind::Sd)
        } else {
            None
        }
    } else if op == 0b0110011 {
        if f7 == 0 {
            if f3 == 0 {
                Some(InsnKind::Add)
            } else if f3 == 1 {
                Some(InsnKind::Sll)
            } else if f3 == 2 {
                Some(InsnKind::Slt)
            } else if f3 == 3 {
                Some(InsnKind::Sltu)
            } else if f3 == 4 {
                Some(InsnKind::Xor)
            } else if f3 == 5 {
                Some(InsnKind::Srl)
            } else if f3 == 6 {
                Some(InsnKind::Or)
            } else {
                Some(InsnKind::And)
            }
        } else if f7 == 0x20 {
            if f3 == 0 {
                Some(InsnKind::Sub)
            } else if f3 == 5 {
                Some(InsnKind::Sra)
            } else {
                None
            }
        } else if f7 == 1 {
            if f3 == 0 {
                Some(InsnKind::Mul)
            } else if f3 == 1 {
                Some(InsnKind::Mulh)
            } else if f3 == 2 {
                Some(InsnKind::Mulhsu)
            } else if f3 == 3 {
                Some(InsnKind::Mulhu)
            } else if f3 == 4 {
                Some(InsnKind::Div)
            } else if f3 == 5 {
                Some(InsnKind::Divu)
            } else if f3 == 6 {
                Some(InsnKind::Rem)
            } else {
                Some(InsnKind::Remu)
            }
        } else {
            None
        }
    } else if op == 0b0101111 {
        if f3 == 2 {
            if f5 == 1 {
                Some(InsnKind::AmoswapW)
            } else if f5 == 2 {
                Some(InsnKind::LrW)
            } else if f5 == 3 {
                Some(InsnKind::ScW)
            } else if f5 == 8 {
                Some(InsnKind::AmoorW)
            } else if f5 == 0 {
                Some(InsnKind::AmoaddW)
            } else if f5 == 12 {
                Some(InsnKind::AmoandW)
            } else {
                None
            }
        } else if f3 == 3 {
            if f5 == 0 {
                Some(InsnKind::AmoaddD)
            } else if f5 == 1 {
                Some(InsnKind::AmoswapD)
            } else if f5 == 2 {
                Some(InsnKind::LrD)
            } else if f5 == 3 {
                Some(InsnKind::ScD)
            } else {
                None
            }
        } else {
            None
        }
    } else if op == 0b0110111 {
        Some(InsnKind::Lui)
    } else if op == 0b1100011 {
        if f3 == 0 {
            Some(InsnKind::Beq)
        } else if f3 == 1 {
            Some(InsnKind::Bne)
        } else if f3 == 4 {
            Some(InsnKind::Blt)
        } else if f3 == 5 {
            Some(InsnKind::Bge)
        } else if f3 == 6 {
            Some(InsnKind::Bltu)
        } else if f3 == 7 {
            Some(InsnKind::Bgeu)
        } else {
            None
        }
    } else if op == 0b1100111 {
        if f3 == 0 {
            Some(InsnKind::Jalr)
        } else {
            None
        }
    } else if op == 0b0011011 {
        if f3 == 0 {
            Some(InsnKind::Addiw)
        } else {
            None
        }
    } else if op == 0b0111011 {
        if f3 == 0 && f7 == 1 {
            Some(InsnKind::Mulw)
        } else if f3 == 7 && f7 == 1 {
            Some(InsnKind::Remuw)
        } else {
            None
        }
    } else if op == 0b1101111 {
        Some(InsnKind::Jal)
    } else if op == 0b1110011 {
        if f3 == 0 {
            if rs2_of(insn) == 0 && f7 == 0 {
                Some(InsnKind::Ecall)
            } else if rs2_of(insn) == 1 && f7 == 0 {
                Some(InsnKind::Ebreak)
            } else {
                None
            }
        } else if f3 == 2 {
            Some(InsnKind::Rdtime)
        } else {
            None
        }
    } else if op == 0b0001111 {
        Some(InsnKind::Fence)
    } else {
        None
    }
}

impl InsnKind {
    /// Flat accounting index: group `index / 8`, position `index % 8` within it.
    pub open spec fn index(self) -> u32 {
        match self {
            InsnKind::Lb => 24,
            InsnKind::Lh => 25,
            InsnKind::Lw => 26,
            InsnKind::Ld => 27,
            InsnKind::Lbu => 28,
            InsnKind::Lhu => 29,
            InsnKind::Lwu => 30,
            InsnKind::Addi => 7,
            InsnKind::Slli => 37,
            InsnKind::Slti => 11,
            InsnKind::Sltiu => 12,
            InsnKind::Xori => 8,
            InsnKind::Srli => 46,
            InsnKind::Srai => 47,
            InsnKind::Ori => 9,
            InsnKind::Andi => 10,
            InsnKind::Auipc => 22,
            InsnKind::Sb => 29,
            InsnKind::Sh => 30,
            InsnKind::Sw => 31,
            InsnKind::Sd => 31,
            InsnKind::Add => 0,
            InsnKind::Sub => 1,
            InsnKind::Sll => 36,
            InsnKind::Slt => 5,
            InsnKind::Sltu => 6,
            InsnKind::Xor => 2,
            InsnKind::Srl => 44,
            InsnKind::Sra => 45,
            InsnKind::Or => 3,
            InsnKind::And => 4,
            InsnKind::Mul => 32,
            InsnKind::Mulh => 33,
            InsnKind::Mulhsu => 34,
            InsnKind::Mulhu => 35,
            InsnKind::Div => 40,
            InsnKind::Divu => 41,
            InsnKind::Rem => 42,
            InsnKind::Remu => 43,
            InsnKind::AmoswapW => 0,
            InsnKind::LrW => 2,
            InsnKind::ScW => 3,
            InsnKind::AmoorW => 0,
            InsnKind::AmoaddW => 1,
            InsnKind::AmoandW => 0,
            InsnKind::AmoaddD => 1,
            InsnKind::AmoswapD => 2,
            InsnKind::LrD => 3,
            InsnKind::ScD => 4,
            InsnKind::Lui => 21,
            InsnKind::Beq => 13,
            InsnKind::Bne => 14,
            InsnKind::Blt => 15,
            InsnKind::Bge => 16,
            InsnKind::Bltu => 17,
            InsnKind::Bgeu => 18,
            InsnKind::Jalr => 20,
            InsnKind::Addiw => 0,
            InsnKind::Mulw => 0,
            InsnKind::Remuw => 1,
            InsnKind::Jal => 19,
            InsnKind::Ecall => 0,
            InsnKind::Ebreak => 1,
            InsnKind::Rdtime => 0,
            InsnKind::Fence => 0,
        }
    }

    /// Static cycle weight.
    pub open spec fn cycles(self) -> usize {
        match self {
            InsnKind::Xori | InsnKind::Srli | InsnKind::Srai | InsnKind::Ori | InsnKind::Andi
            | InsnKind::Xor | InsnKind::Srl | InsnKind::Sra | InsnKind::Or | InsnKind::And
            | InsnKind::Div | InsnKind::Divu | InsnKind::Rem | InsnKind::Remu => 2,
            _ => 1,
        }
    }

    /// The accounting group: `ECall` for the two environment instructions, else `index / 8`.
    pub open spec fn major_index(self) -> u32 {
        match self {
            InsnKind::Ecall | InsnKind::Ebreak => 8,
            _ => self.index() / 8,
        }
    }

    /// The position within the group: 0 for `ECALL`, 1 for `EBREAK`, else `index % 8`.
    pub open spec fn minor(self) -> u32 {
        self.index() % 8
    }

    pub fn flat_index(self) -> (r: u32)
        ensures
            r == self.index(),
    {
        match self {
            InsnKind::Lb => 24,
            InsnKind::Lh => 25,
            InsnKind::Lw => 26,
            InsnKind::Ld => 27,
            InsnKind::Lbu => 28,
            InsnKind::Lhu => 29,
            InsnKind::Lwu => 30,
            InsnKind::Addi => 7,
            InsnKind::Slli => 37,
            InsnKind::Slti => 11,
            InsnKind::Sltiu => 12,
            InsnKind::Xori => 8,
            InsnKind::Srli => 46,
            InsnKind::Srai => 47,
            InsnKind::Ori => 9,
            InsnKind::Andi => 10,
            InsnKind::Auipc => 22,
            InsnKind::Sb => 29,
            InsnKind::Sh => 30,
            InsnKind::Sw => 31,
            InsnKind::Sd => 31,
            InsnKind::Add => 0,
            InsnKind::Sub => 1,
            InsnKind::Sll => 36,
            InsnKind::Slt => 5,
            InsnKind::Sltu => 6,
            InsnKind::Xor => 2,
            InsnKind::Srl => 44,
            InsnKind::Sra => 45,
            InsnKind::Or => 3,
            InsnKind::And => 4,
            InsnKind::Mul => 32,
            InsnKind::Mulh => 33,
            InsnKind::Mulhsu => 34,
            InsnKind::Mulhu => 35,
            InsnKind::Div => 40,
            InsnKind::Divu => 41,
            InsnKind::Rem => 42,
            InsnKind::Remu => 43,
            InsnKind::AmoswapW => 0,
            InsnKind::LrW => 2,
            InsnKind::ScW => 3,
            InsnKind::AmoorW => 0,
            InsnKind::AmoaddW => 1,
            InsnKind::AmoandW => 0,
            InsnKind::AmoaddD => 1,
            InsnKind::AmoswapD => 2,
            InsnKind::LrD => 3,
            InsnKind::ScD => 4,
            InsnKind::Lui => 21,
            InsnKind::Beq => 13,
            InsnKind::Bne => 14,
            InsnKind::Blt => 15,
            InsnKind::Bge => 16,
            InsnKind::Bltu => 17,
            InsnKind::Bgeu => 18,
            InsnKind::Jalr => 20,
            InsnKind::Addiw => 0,
            InsnKind::Mulw => 0,
            InsnKind::Remuw => 1,
            InsnKind::Jal => 19,
            InsnKind::Ecall => 0,
            InsnKind::Ebreak => 1,
            InsnKind::Rdtime => 0,
            InsnKind::Fence => 0,
        }
    }

    pub fn cycle_weight(self) -> (r: usize)
        ensures
            r == self.cycles(),
    {
        match self {
            InsnKind::Xori | InsnKind::Srli | InsnKind::Srai | InsnKind::Ori | InsnKind::Andi
            | InsnKind::Xor | InsnKind::Srl | InsnKind::Sra | InsnKind::Or | InsnKind::And
            | InsnKind::Div | InsnKind::Divu | InsnKind::Rem | InsnKind::Remu => 2,
            _ => 1,
        }
    }

    /// The assembler name, as text.
    pub open spec fn mnemonic_text(self) -> Seq<char> {
        match self {
            InsnKind::Lb => "LB"@,
            InsnKind::Lh => "LH"@,
            InsnKind::Lw => "LW"@,
            InsnKind::Ld => "LD"@,
            InsnKind::Lbu => "LBU"@,
            InsnKind::Lhu => "LHU"@,
            InsnKind::Lwu => "LWU"@,
            InsnKind::Addi => "ADDI"@,
            InsnKind::Slli => "SLLI"@,
            InsnKind::Slti => "SLTI"@,
            InsnKind::Sltiu => "SLTIU"@,
            InsnKind::Xori => "XORI"@,
            InsnKind::Srli => "SRLI"@,
            InsnKind::Srai => "SRAI"@,
            InsnKind::Ori => "ORI"@,
            InsnKind::Andi => "ANDI"@,
            InsnKind::Auipc => "AUIPC"@,
            InsnKind::Sb => "SB"@,
            InsnKind::Sh => "SH"@,
            InsnKind::Sw => "SW"@,
            InsnKind::Sd => "SD"@,
            InsnKind::Add => "ADD"@,
            InsnKind::Sub => "SUB"@,
            InsnKind::Sll => "SLL"@,
            InsnKind::Slt => "SLT"@,
            InsnKind::Sltu => "SLTU"@,
            InsnKind::Xor => "XOR"@,
            InsnKind::Srl => "SRL"@,
            InsnKind::Sra => "SRA"@,
            InsnKind::Or => "OR"@,
            InsnKind::And => "AND"@,
            InsnKind::Mul => "MUL"@,
            InsnKind::Mulh => "MULH"@,
            InsnKind::Mulhsu => "MULSU"@,
            InsnKind::Mulhu => "MULU"@,
            InsnKind::Div => "DIV"@,
            InsnKind::Divu => "DIVU"@,
            InsnKind::Rem => "REM"@,
            InsnKind::Remu => "REMU"@,
            InsnKind::AmoswapW => "AMOSWAP.W"@,
            InsnKind::LrW => "LR.W"@,
            InsnKind::ScW => "SC.W"@,
            InsnKind::AmoorW => "AMOOR.W"@,
            InsnKind::AmoaddW => "AMOADD.W"@,
            InsnKind::AmoandW => "AMOAND.W"@,
            InsnKind::AmoaddD => "AMOADD.D"@,
            InsnKind::AmoswapD => "AMOSWAP.D"@,
            InsnKind::LrD => "LR.D"@,
            InsnKind::ScD => "SC.D"@,
            InsnKind::Lui => "LUI"@,
            InsnKind::Beq => "BEQ"@,
            InsnKind::Bne => "BNE"@,
            InsnKind::Blt => "BLT"@,
            InsnKind::Bge => "BGE"@,
            InsnKind::Bltu => "BLTU"@,
            InsnKind::Bgeu => "BGEU"@,
            InsnKind::Jalr => "JALR"@,
            InsnKind::Addiw => "ADDIW"@,
            InsnKind::Mulw => "MULW"@,
            InsnKind::Remuw => "REMUW"@,
            InsnKind::Jal => "JAL"@,
            InsnKind::Ecall => "ECALL"@,
            InsnKind::Ebreak => "EBREAK"@,
            InsnKind::Rdtime => "RDTIME"@,
            InsnKind::Fence => "FENCE"@,
        }
    }

    /// The assembler name.
    pub fn mnemonic(self) -> (r: &'static str)
        ensures
            r@ == self.mnemonic_text(),
    {
        match self {
            InsnKind::Lb => "LB",
            InsnKind::Lh => "LH",
            InsnKind::Lw => "LW",
            InsnKind::Ld => "LD",
            InsnKind::Lbu => "LBU",
            InsnKind::Lhu => "LHU",
            InsnKind::Lwu => "LWU",
            InsnKind::Addi => "ADDI",
            InsnKind::Slli => "SLLI",
            InsnKind::Slti => "SLTI",
            InsnKind::Sltiu => "SLTIU",
            InsnKind::Xori => "XORI",
            InsnKind::Srli => "SRLI",
            InsnKind::Srai => "SRAI",
            InsnKind::Ori => "ORI",
            InsnKind::Andi => "ANDI",
            InsnKind::Auipc => "AUIPC",
            InsnKind::Sb => "SB",
            InsnKind::Sh => "SH",
            InsnKind::Sw => "SW",
            InsnKind::Sd => "SD",
            InsnKind::Add => "ADD",
            InsnKind::Sub => "SUB",
            InsnKind::Sll => "SLL",
            InsnKind::Slt => "SLT",
            InsnKind::Sltu => "SLTU",
            InsnKind::Xor => "XOR",
            InsnKind::Srl => "SRL",
            InsnKind::Sra => "SRA",
            InsnKind::Or => "OR",
            InsnKind::And => "AND",
            InsnKind::Mul => "MUL",
            InsnKind::Mulh => "MULH",
            InsnKind::Mulhsu => "MULSU",
            InsnKind::Mulhu => "MULU",
            InsnKind::Div => "DIV",
            InsnKind::Divu => "DIVU",
            InsnKind::Rem => "REM",
            InsnKind::Remu => "REMU",
            InsnKind::AmoswapW => "AMOSWAP.W",
            InsnKind::LrW => "LR.W",
            InsnKind::ScW => "SC.W",
            InsnKind::AmoorW => "AMOOR.W",
            InsnKind::AmoaddW => "AMOADD.W",
            InsnKind::AmoandW => "AMOAND.W",
            InsnKind::AmoaddD => "AMOADD.D",
            InsnKind::AmoswapD => "AMOSWAP.D",
            InsnKind::LrD => "LR.D",
            InsnKind::ScD => "SC.D",
            InsnKind::Lui => "LUI",
            InsnKind::Beq => "BEQ",
            InsnKind::Bne => "BNE",
            InsnKind::Blt => "BLT",
            InsnKind::Bge => "BGE",
            InsnKind::Bltu => "BLTU",
            InsnKind::Bgeu => "BGEU",
            InsnKind::Jalr => "JALR",
            InsnKind::Addiw => "ADDIW",
            InsnKind::Mulw => "MULW",
            InsnKind::Remuw => "REMUW",
            InsnKind::Jal => "JAL",
            InsnKind::Ecall => "ECALL",
            InsnKind::Ebreak => "EBREAK",
            InsnKind::Rdtime => "RDTIME",
            InsnKind::Fence => "FENCE",
        }
    }
}

/// The instruction encoded by `insn`, or `None` for an illegal bit pattern.
pub fn decode_kind(insn: u32) -> (r: Option<InsnKind>)
    ensures
        r == decode_spec(insn),
{
    let op = insn & 0x7f;
    let f3 = (insn >> 12) & 0x7;
    let f7 = insn >> 25;
    let f5 = insn >> 27;
    let f7_rv64 = insn >> 26;
    let rs2 = (insn >> 20) & 0x1f;
    if op == 0b0000011 {
        if f3 == 0 {
            Some(InsnKind::Lb)
        } else if f3 == 1 {
            Some(InsnKind::Lh)
        } else if f3 == 2 {
            Some(InsnKind::Lw)
        } else if f3 == 3 {
            Some(InsnKind::Ld)
        } else if f3 == 4 {
            Some(InsnKind::Lbu)
        } else if f3 == 5 {
            Some(InsnKind::Lhu)
        } else if f3 == 6 {
            Some(InsnKind::Lwu)
        } else {
            None
        }
    } else if op == 0b0010011 {
        if f3 == 0 {
            Some(InsnKind::Addi)
        } else if f3 == 1 {
            Some(InsnKind::Slli)
        } else if f3 == 2 {
            Some(InsnKind::Slti)
        } else if f3 == 3 {
            Some(InsnKind::Sltiu)
        } else if f3 == 4 {
            Some(InsnKind::Xori)
        } else if f3 == 5 {
            if f7_rv64 == 0 {
                Some(InsnKind::Srli)
            } else if f7_rv64 == 0x10 {
                Some(InsnKind::Srai)
            } else {
                None
            }
        } else if f3 == 6 {
            Some(InsnKind::Ori)
        } else {
            Some(InsnKind::Andi)
        }
    } else if op == 0b0010111 {
        Some(InsnKind::Auipc)
    } else if op == 0b0100011 {
        if f3 == 0 {
            Some(InsnKind::Sb)
        } else if f3 == 1 {
            Some(InsnKind::Sh)
        } else if f3 == 2 {
            Some(InsnKind::Sw)
        } else if f3 == 3 {
            Some(InsnKind::Sd)
        } else {
            None
        }
    } else if op == 0b0110011 {
        if f7 == 0 {
            if f3 == 0 {
                Some(InsnKind::Add)
            } else if f3 == 1 {
                Some(InsnKind::Sll)
            } else if f3 == 2 {
                Some(InsnKind::Slt)
            } else if f3 == 3 {
                Some(InsnKind::Sltu)
            } else if f3 == 4 {
                Some(InsnKind::Xor)
            } else if f3 == 5 {
                Some(InsnKind::Srl)
            } else if f3 == 6 {
                Some(InsnKind::Or)
            } else {
                Some(InsnKind::And)
            }
        } else if f7 == 0x20 {
            if f3 == 0 {
                Some(InsnKind::Sub)
            } else if f3 == 5 {
                Some(InsnKind::Sra)
            } else {
                None
            }
        } else if f7 == 1 {
            if f3 == 0 {
                Some(InsnKind::Mul)
            } else if f3 == 1 {
                Some(InsnKind::Mulh)
            } else if f3 == 2 {
                Some(InsnKind::Mulhsu)
            } else if f3 == 3 {
                Some(InsnKind::Mulhu)
            } else if f3 == 4 {
                Some(InsnKind::Div)
            } else if f3 == 5 {
                Some(InsnKind::Divu)
            } else if f3 == 6 {
                Some(InsnKind::Rem)
            } else {
                Some(InsnKind::Remu)
            }
        } else {
            None
        }
    } else if op == 0b0101111 {
        if f3 == 2 {
            if f5 == 1 {
                Some(InsnKind::AmoswapW)
            } else if f5 == 2 {
                Some(InsnKind::LrW)
            } else if f5 == 3 {
                Some(InsnKind::ScW)
            } else if f5 == 8 {
                Some(InsnKind::AmoorW)
            } else if f5 == 0 {
                Some(InsnKind::AmoaddW)
            } else if f5 == 12 {
                Some(InsnKind::AmoandW)
            } else {
                None
            }
        } else if f3 == 3 {
            if f5 == 0 {
                Some(InsnKind::AmoaddD)
            } else if f5 == 1 {
                Some(InsnKind::AmoswapD)
            } else if f5 == 2 {
                Some(InsnKind::LrD)
            } else if f5 == 3 {
                Some(InsnKind::ScD)
            } else {
                None
            }
        } else {
            None
        }
    } else if op == 0b0110111 {
        Some(InsnKind::Lui)
    } else if op == 0b1100011 {
        if f3 == 0 {
            Some(InsnKind::Beq)
        } else if f3 == 1 {
            Some(InsnKind::Bne)
        } else if f3 == 4 {
            Some(InsnKind::Blt)
        } else if f3 == 5 {
            Some(InsnKind::Bge)
        } else if f3 == 6 {
            Some(InsnKind::Bltu)
        } else if f3 == 7 {
            Some(InsnKind::Bgeu)
        } else {
            None
        }
    } else if op == 0b1100111 {
        if f3 == 0 {
            Some(InsnKind::Jalr)
        } else {
            None
        }
    } else if op == 0b0011011 {
        if f3 == 0 {
            Some(InsnKind::Addiw)
        } else {
            None
        }
    } else if op == 0b0111011 {
        if f3 == 0 && f7 == 1 {
            Some(InsnKind::Mulw)
        } else if f3 == 7 && f7 == 1 {
            Some(InsnKind::Remuw)
        } else {
            None
        }
    } else if op == 0b1101111 {
        Some(InsnKind::Jal)
    } else if op == 0b1110011 {
        if f3 == 0 {
            if rs2 == 0 && f7 == 0 {
                Some(InsnKind::Ecall)
            } else if rs2 == 1 && f7 == 0 {
                Some(InsnKind::Ebreak)
            } else {
                None
            }
        } else if f3 == 2 {
            Some(InsnKind::Rdtime)
        } else {
            None
        }
    } else if op == 0b0001111 {
        Some(InsnKind::Fence)
    } else {
        None
    }
}

/// A decoded instruction with its accounting tags.
#[derive(Clone, Copy, Debug, PartialEq, Eq, Structural)]
pub struct OpCode {
    /// The raw instruction word.
    pub insn: u32,
    /// Where it was fetched.
    pub insn_pc: u64,
    /// What it is.
    pub kind: InsnKind,
    /// Accounting group.
    pub major: MajorType,
    /// Position within the group, 0 to 7.
    pub minor: u32,
    /// Static cycle weight.
    pub cycles: usize,
}

/// A word that encodes no instruction of the supported set.
#[derive(Clone, Copy, Debug, PartialEq, Eq, Structural)]
pub enum DecodeError {
    /// The word, whose opcode field is `word & 0x7f`.
    IllegalOpcode(u32),
}

/// The record that `decode` builds for `kind` found in `insn` at `insn_pc`.
pub open spec fn opcode_record(insn: u32, insn_pc: u64, kind: InsnKind) -> OpCode {
    OpCode {
        insn,
        insn_pc,
        kind,
        major: major_of(kind.major_index()),
        minor: kind.minor(),
        cycles: kind.cycles(),
    }
}

/// The tag at position `v` (which is at most 13).
pub open spec fn major_of(v: u32) -> MajorType {
    if v == 0 {
        MajorType::Compute0
    } else if v == 1 {
        MajorType::Compute1
    } else if v == 2 {
        MajorType::Compute2
    } else if v == 3 {
        MajorType::MemIo
    } else if v == 4 {
        MajorType::Multiply
    } else if v == 5 {
        MajorType::Divide
    } else if v == 6 {
        MajorType::VerifyAnd
    } else if v == 7 {
        MajorType::VerifyDivide
    } else if v == 8 {
        MajorType::ECall
    } else if v == 9 {
        MajorType::ShaInit
    } else if v == 10 {
        MajorType::ShaLoad
    } else if v == 11 {
        MajorType::ShaMain
    } else if v == 12 {
        MajorType::PageFault
    } else {
        MajorType::MuxSize
    }
}

impl OpCode {
    /// Record for an instruction whose group and position come from its flat index.
    fn new(insn: u32, insn_pc: u64, kind: InsnKind, idx: u32, cycles: usize) -> (r: OpCode)
        requires
            idx < 48,
        ensures
            r == (OpCode { insn, insn_pc, kind, major: major_of(idx / 8), minor: idx % 8, cycles }),
    {
        let major = match MajorType::from_u32(idx / 8) {
            Some(m) => m,
            None => MajorType::Compute0,
        };
        OpCode { insn, insn_pc, kind, major, minor: idx % 8, cycles }
    }

    /// Record with an explicit group and position.
    pub fn with_major_minor(
        insn: u32,
        insn_pc: u64,
        kind: InsnKind,
        major: MajorType,
        minor: u32,
        cycles: usize,
    ) -> (r: OpCode)
        ensures
            r == (OpCode { insn, insn_pc, kind, major, minor, cycles }),
    {
        OpCode { insn, insn_pc, kind, major, minor, cycles }
    }

    /// Decodes `insn`, fetched at `insn_pc`.
    pub fn decode(insn: u32, insn_pc: u64) -> (r: Result<OpCode, DecodeError>)
        ensures
            match decode_spec(insn) {
                Some(k) => r == Ok::<OpCode, DecodeError>(opcode_record(insn, insn_pc, k)),
                None => r == Err::<OpCode, DecodeError>(DecodeError::IllegalOpcode(insn)),
            },
    {
        match decode_kind(insn) {
            None => Err(DecodeError::IllegalOpcode(insn)),
            Some(k) => {
                let idx = k.flat_index();
                let cycles = k.cycle_weight();
                match k {
                    InsnKind::Ecall => Ok(
                        OpCode::with_major_minor(insn, insn_pc, k, MajorType::ECall, 0, cycles),
                    ),
                    InsnKind::Ebreak => Ok(
                        OpCode::with_major_minor(insn, insn_pc, k, MajorType::ECall, 1, cycles),
                    ),
                    _ => Ok(OpCode::new(insn, insn_pc, k, idx, cycles)),
                }
            },
        }
    }

    /// The assembler name of the instruction.
    pub fn mnemonic(&self) -> (r: &'static str)
        ensures
            r@ == self.kind.mnemonic_text(),
    {
        self.kind.mnemonic()
    }

    /// A trace line for this instruction at cycle `cycle`, fetched at `insn_pc`.
    pub fn debug(&self, cycle: usize, insn_pc: u64) -> (r: String)
        ensures
            r@ == trace_line(cycle, insn_pc, self.insn, self.kind.mnemonic_text()),
    {
        format_trace_line(cycle, insn_pc, self.insn, self.kind.mnemonic())
    }
}

} // verus!
