//! Integer semantics of the RV64IM operations, over mathematical integers.
use vstd::prelude::*;
use vstd::arithmetic::div_mod::lemma_fundamental_div_mod_converse;
use vstd::arithmetic::div_mod::lemma_fundamental_div_mod;
use crate::opcode::InsnKind;

verus! {

/// `x` reduced modulo 2^64.
pub open spec fn wrap64(x: int) -> u64 {
    (x % 0x1_0000_0000_0000_0000) as u64
}

/// `x` reduced modulo 2^32.
pub open spec fn wrap32(x: int) -> u32 {
    (x % 0x1_0000_0000) as u32
}

/// The two's-complement value of a 64-bit word.
pub open spec fn sx64(a: u64) -> int {
    if a < 0x8000_0000_0000_0000 {
        a as int
    } else {
        a - 0x1_0000_0000_0000_0000
    }
}

/// The two's-complement value of a 32-bit word.
pub open spec fn sx32(a: u32) -> int {
    if a < 0x8000_0000 {
        a as int
    } else {
        a - 0x1_0000_0000
    }
}

/// A 32-bit word sign-extended to 64 bits.
pub open spec fn sext32(a: u32) -> u64 {
    wrap64(sx32(a))
}

/// The field `v` of `2 * half` values, read as a signed number and extended to 64 bits.
pub open spec fn sext_field(v: int, half: int) -> u64 {
    if v < half {
        wrap64(v)
    } else {
        wrap64(v - 2 * half)
    }
}

pub open spec fn abs(x: int) -> int {
    if x < 0 {
        -x
    } else {
        x
    }
}

/// Quotient rounded toward zero.
pub open spec fn trunc_div(x: int, y: int) -> int {
    if (x < 0) == (y < 0) {
        abs(x) / abs(y)
    } else {
        -(abs(x) / abs(y))
    }
}

/// Remainder of the quotient rounded toward zero; it takes the sign of `x`.
pub open spec fn trunc_rem(x: int, y: int) -> int {
    if x < 0 {
        -(abs(x) % abs(y))
    } else {
        abs(x) % abs(y)
    }
}

/// Arithmetic right shift: the vacated high bits take the sign bit.
pub open spec fn sra_spec(a: u64, s: u64) -> u64 {
    if a < 0x8000_0000_0000_0000 {
        a >> s
    } else {
        !((!a) >> s)
    }
}

/// Low 32 bits of a 64-bit word.
pub open spec fn low32(a: u64) -> u32 {
    (a % 0x1_0000_0000) as u32
}

/// The result of a register-register or register-immediate operation on operands `a` and `b`.
pub open spec fn alu_spec(k: InsnKind, a: u64, b: u64) -> u64 {
    match k {
        InsnKind::Add | InsnKind::Addi => wrap64(a + b),
        InsnKind::Sub => wrap64(a - b),
        InsnKind::Sll | InsnKind::Slli => a << (b & 0x3f),
        InsnKind::Slt | InsnKind::Slti => if sx64(a) < sx64(b) {
            1
        } else {
            0
        },
        InsnKind::Sltu | InsnKind::Sltiu => if a < b {
            1
        } else {
            0
        },
        InsnKind::Xor | InsnKind::Xori => a ^ b,
        InsnKind::Srl | InsnKind::Srli => a >> (b & 0x3f),
        InsnKind::Sra | InsnKind::Srai => sra_spec(a, b & 0x3f),
        InsnKind::Or | InsnKind::Ori => a | b,
        InsnKind::And | InsnKind::Andi => a & b,
        InsnKind::Mul => wrap64(a * b),
        InsnKind::Mulh => wrap64((sx64(a) * sx64(b)) / 0x1_0000_0000_0000_0000),
        InsnKind::Mulhsu => wrap64((sx64(a) * b) / 0x1_0000_0000_0000_0000),
        InsnKind::Mulhu => wrap64((a * b) / 0x1_0000_0000_0000_0000),
        InsnKind::Div => if b == 0 {
            u64::MAX
        } else {
            wrap64(trunc_div(sx64(a), sx64(b)))
        },
        InsnKind::Divu => if b == 0 {
            u64::MAX
        } else {
            a / b
        },
        InsnKind::Rem => if b == 0 {
            a
        } else {
            wrap64(trunc_rem(sx64(a), sx64(b)))
        },
        InsnKind::Remu => if b == 0 {
            a
        } else {
            a % b
        },
        InsnKind::Mulw => sext32(wrap32(low32(a) * low32(b))),
        InsnKind::Remuw => if low32(b) == 0 {
            low32(a) as u64
        } else {
            sext32(low32(a) % low32(b))
        },
        InsnKind::Addiw => sext32(low32(wrap64(a + b))),
        _ => 0,
    }
}

/// The kinds that `alu` computes.
pub open spec fn is_alu(k: InsnKind) -> bool {
    match k {
        InsnKind::Add | InsnKind::Addi | InsnKind::Sub | InsnKind::Sll | InsnKind::Slli
        | InsnKind::Slt | InsnKind::Slti | InsnKind::Sltu | InsnKind::Sltiu | InsnKind::Xor
        | InsnKind::Xori | InsnKind::Srl | InsnKind::Srli | InsnKind::Sra | InsnKind::Srai
        | InsnKind::Or | InsnKind::Ori | InsnKind::And | InsnKind::Andi | InsnKind::Mul
        | InsnKind::Mulh | InsnKind::Mulhsu | InsnKind::Mulhu | InsnKind::Div | InsnKind::Divu
        | InsnKind::Rem | InsnKind::Remu | InsnKind::Mulw | InsnKind::Remuw | InsnKind::Addiw => true,
        _ => false,
    }
}

pub fn wrapping_add64(a: u64, b: u64) -> (r: u64)
    ensures
        r == wrap64(a + b),
{
    a.wrapping_add(b)
}

pub fn wrapping_sub64(a: u64, b: u64) -> (r: u64)
    ensures
        r == wrap64(a - b),
{
    a.wrapping_sub(b)
}

/// Magnitude of the two's-complement value of `a`.
fn magnitude(a: u64) -> (r: u64)
    ensures
        r == abs(sx64(a)),
        r <= 0x8000_0000_0000_0000,
{
    if a >= 0x8000_0000_0000_0000 {
        0u64.wrapping_sub(a)
    } else {
        a
    }
}

/// Sign-extends the low 32 bits of `a`.
pub fn sign_extend_u32(a: u32) -> (r: u64)
    ensures
        r == sext32(a),
{
    if a < 0x8000_0000 {
        a as u64
    } else {
        0u64.wrapping_sub((0x1_0000_0000u64 - a as u64))
    }
}

/// Low 32 bits of `a`.
pub fn low_word(a: u64) -> (r: u32)
    ensures
        r == low32(a),
{
    (a % 0x1_0000_0000) as u32
}

/// High 64 bits of the 128-bit two's-complement product whose magnitude is `m`
/// and whose sign is negative when `neg` holds.
fn mul_high_signed(neg: bool, m: u128) -> (r: u64)
    requires
        m < 0x8000_0000_0000_0000_0000_0000_0000_0000,
    ensures
        r == wrap64((if neg { -m } else { m as int }) / 0x1_0000_0000_0000_0000),
{
    let hi = m / 0x1_0000_0000_0000_0000u128;
    let lo = m % 0x1_0000_0000_0000_0000u128;
    proof {
        lemma_fundamental_div_mod(m as int, 0x1_0000_0000_0000_0000);
    }
    if !neg {
        hi as u64
    } else if lo == 0 {
        proof {
            lemma_fundamental_div_mod_converse(-m, 0x1_0000_0000_0000_0000, -hi, 0);
        }
        0u64.wrapping_sub(hi as u64)
    } else {
        proof {
            lemma_fundamental_div_mod_converse(
                -m,
                0x1_0000_0000_0000_0000,
                -hi - 1,
                0x1_0000_0000_0000_0000 - lo,
            );
        }
        0u64.wrapping_sub((hi + 1) as u64)
    }
}

proof fn lemma_signed_product(x: int, y: int, mx: int, my: int)
    requires
        mx == abs(x),
        my == abs(y),
    ensures
        x * y == (if (x < 0) != (y < 0) { -(mx * my) } else { mx * my }),
{
    if x < 0 && y < 0 {
        assert(x * y == (-x) * (-y)) by (nonlinear_arith);
    } else if x < 0 {
        assert(x * y == -((-x) * y)) by (nonlinear_arith);
    } else if y < 0 {
        assert(x * y == -(x * (-y))) by (nonlinear_arith);
    }
}

/// Computes `alu_spec(k, a, b)`.
pub fn alu(k: InsnKind, a: u64, b: u64) -> (r: u64)
    requires
        is_alu(k),
    ensures
        r == alu_spec(k, a, b),
{
    let two63: u64 = 0x8000_0000_0000_0000;
    match k {
        InsnKind::Add | InsnKind::Addi => wrapping_add64(a, b),
        InsnKind::Sub => wrapping_sub64(a, b),
        InsnKind::Sll | InsnKind::Slli => {
            let s = b & 0x3f;
            assert(b & 0x3f < 64) by (bit_vector);
            a << s
        },
        InsnKind::Slt | InsnKind::Slti => {
            let an = a >= two63;
            let bn = b >= two63;
            if (an && !bn) || (an == bn && a < b) {
                1
            } else {
                0
            }
        },
        InsnKind::Sltu | InsnKind::Sltiu => if a < b {
            1
        } else {
            0
        },
        InsnKind::Xor | InsnKind::Xori => a ^ b,
        InsnKind::Srl | InsnKind::Srli => {
            let s = b & 0x3f;
            assert(b & 0x3f < 64) by (bit_vector);
            a >> s
        },
        InsnKind::Sra | InsnKind::Srai => {
            let s = b & 0x3f;
            assert(b & 0x3f < 64) by (bit_vector);
            if a < two63 {
                a >> s
            } else {
                !((!a) >> s)
            }
        },
        InsnKind::Or | InsnKind::Ori => a | b,
        InsnKind::And | InsnKind::Andi => a & b,
        InsnKind::Mul => a.wrapping_mul(b),
        InsnKind::Mulh => {
            let ma = magnitude(a);
            let mb = magnitude(b);
            assert((ma as int) * (mb as int) <= 0x4000_0000_0000_0000_0000_0000_0000_0000)
                by (nonlinear_arith)
                requires
                    ma <= 0x8000_0000_0000_0000,
                    mb <= 0x8000_0000_0000_0000,
            ;
            let m = (ma as u128) * (mb as u128);
            proof {
                lemma_signed_product(sx64(a), sx64(b), ma as int, mb as int);
            }
            mul_high_signed((a >= two63) != (b >= two63), m)
        },
        InsnKind::Mulhsu => {
            let ma = magnitude(a);
            assert((ma as int) * (b as int) < 0x8000_0000_0000_0000_0000_0000_0000_0000)
                by (nonlinear_arith)
                requires
                    ma <= 0x8000_0000_0000_0000,
                    b < 0x1_0000_0000_0000_0000,
            ;
            let m = (ma as u128) * (b as u128);
            proof {
                lemma_signed_product(sx64(a), b as int, ma as int, b as int);
            }
            mul_high_signed(a >= two63, m)
        },
        InsnKind::Mulhu => {
            assert((a as int) * (b as int) < 0x1_0000_0000_0000_0000_0000_0000_0000_0000)
                by (nonlinear_arith)
                requires
                    a < 0x1_0000_0000_0000_0000,
                    b < 0x1_0000_0000_0000_0000,
            ;
            let m = (a as u128) * (b as u128);
            (m / 0x1_0000_0000_0000_0000u128) as u64
        },
        InsnKind::Div => {
            if b == 0 {
                u64::MAX
            } else {
                let q = magnitude(a) / magnitude(b);
                if (a >= two63) != (b >= two63) {
                    0u64.wrapping_sub(q)
                } else {
                    q
                }
            }
        },
        InsnKind::Divu => if b == 0 {
            u64::MAX
        } else {
            a / b
        },
        InsnKind::Rem => {
            if b == 0 {
                a
            } else {
                let m = magnitude(a) % magnitude(b);
                if a >= two63 {
                    0u64.wrapping_sub(m)
                } else {
                    m
                }
            }
        },
        InsnKind::Remu => if b == 0 {
            a
        } else {
            a % b
        },
        InsnKind::Mulw => sign_extend_u32(low_word(a).wrapping_mul(low_word(b))),
        InsnKind::Remuw => {
            let la = low_word(a);
            let lb = low_word(b);
            if lb == 0 {
                la as u64
            } else {
                sign_extend_u32(la % lb)
            }
        },
        _ => {
            // the remaining kind is ADDIW
            sign_extend_u32(low_word(wrapping_add64(a, b)))
        },
    }
}

} // verus!
