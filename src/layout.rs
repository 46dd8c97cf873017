//! The memory map honoured by the core.
use vstd::prelude::*;

verus! {

/// Length of the primary region `[0, MEM_SIZE)`, a multiple of eight.
pub const MEM_SIZE: u64 = 0x1000_0000;

/// Page size; the core itself does not page.
pub const PAGE_SIZE: u64 = 0x400;

/// The value the stack pointer takes on its bootstrap.
pub const STACK_INITIAL_ADDRESS: u64 = 0x0020_0400;

/// Base of the register file shadow: register `i` lives at `SYSTEM_START + 8 * i`.
pub const SYSTEM_START: u64 = 0x0C00_0000;

/// Base of the zero-filled playground region, also `MEM_SIZE` bytes long.
pub const PLAYGROUND_BASE: u64 = 0xd0_0000_0000;

/// Word and double-word sizes in bytes.
pub const WORD_SIZE: u64 = 4;

pub const DOUBLE_WORD_SIZE: u64 = 8;

/// Address of the shadow of register `idx`.
pub open spec fn register_addr(idx: int) -> u64 {
    (SYSTEM_START + 8 * idx) as u64
}

pub fn get_register_addr(idx: usize) -> (r: u64)
    requires
        idx < 32,
    ensures
        r == register_addr(idx as int),
{
    SYSTEM_START + (idx as u64) * DOUBLE_WORD_SIZE
}

/// Rounds `addr` up to the nearest multiple of `align`.
pub fn align_up(addr: usize, align: usize) -> (r: usize)
    requires
        align > 0,
        addr + align - 1 <= usize::MAX,
    ensures
        r % align == 0,
        addr <= r < addr + align,
{
    let n = addr + (align - 1);
    let r = n - n % align;
    proof {
        vstd::arithmetic::div_mod::lemma_fundamental_div_mod(n as int, align as int);
        vstd::arithmetic::div_mod::lemma_mod_multiples_basic((n / align) as int, align as int);
        assert(r == (n / align) * align) by (nonlinear_arith)
            requires
                n == align * (n / align) + n % align,
                r == n - n % align,
        ;
    }
    r
}

/// `ceil(a / b)`.
pub fn div_ceil(a: u64, b: u64) -> (r: u64)
    requires
        b > 0,
        a + b - 1 <= u64::MAX,
    ensures
        r == (a + b - 1) / (b as int),
{
    (a + (b - 1)) / b
}

/// `a` rounded up to a multiple of `b`.
pub fn round_up(a: u64, b: u64) -> (r: u64)
    requires
        b > 0,
        a + b - 1 <= u64::MAX,
    ensures
        r == ((a + b - 1) / (b as int)) * b,
        r % b == 0,
        a <= r < a + b,
{
    let q = div_ceil(a, b);
    proof {
        vstd::arithmetic::div_mod::lemma_fundamental_div_mod((a + b - 1) as int, b as int);
    }
    assert(q * b <= a + b - 1) by (nonlinear_arith)
        requires
            q == (a + b - 1) / (b as int),
            b > 0,
            (a + b - 1) == b * ((a + b - 1) / (b as int)) + (a + b - 1) % (b as int),
            0 <= (a + b - 1) % (b as int) < b,
    ;
    let r = q * b;
    proof {
        vstd::arithmetic::div_mod::lemma_mod_multiples_basic(q as int, b as int);
    }
    r
}

} // verus!
