use rv64_core::executor::{HartState, InstructionException, InstructionExecutor};
use rv64_core::memory::{MemAccessSize, Memory, MemorySpace};

fn machine(cells: Vec<u64>) -> InstructionExecutor<MemorySpace> {
    let mut mem = MemorySpace::new();
    mem.add_region(0, cells).unwrap();
    InstructionExecutor { hart_state: HartState::new(), mem }
}

#[test]
fn test_insn_execute() {
    let mut hart = HartState::new();
    let mut mem = MemorySpace::new();
    mem.add_region(
        0,
        vec![
            0xbcd10113_1234b137,
            0x3aa18193_f387e1b7,
            0x7ac28293_bed892b7,
            0xf4e0e213_003100b3,
            0x00121463_02120a63,
            0x00c0036f_1542c093,
            0x402080b3_0020f0b3,
            0x02838393_00000397,
            0x00638483_0003a403,
            0x00139223_0023d503,
            0x00000000_0043a583,
            0x00000000_00000000,
            0xbaadf00d_deadbeef,
        ],
    )
    .unwrap();

    hart.pc = 0;

    let mut executor = InstructionExecutor { hart_state: hart, mem };

    while executor.hart_state.pc != 0x54 {
        let insn_bits = executor
            .mem
            .read_mem(executor.hart_state.pc, MemAccessSize::Word)
            .unwrap();
        let insn_bits: u32 = (insn_bits & 0xffffffff)
            .try_into()
            .expect("invalid instruction");

        assert_eq!(executor.step(), Ok(()));

        println!("{:x} {}", executor.hart_state.pc, insn_bits);
        if let Some(reg_index) = executor.hart_state.last_register_write {
            println!(
                "x{} = {:08x}",
                reg_index, executor.hart_state.registers[reg_index]
            );
        }
    }

    assert_eq!(executor.hart_state.registers[1], 0x05bc8f77);
    assert_eq!(executor.hart_state.registers[2], 0x1234abcd);
    assert_eq!(executor.hart_state.registers[3], 0xfffffffff387e3aa);
    assert_eq!(executor.hart_state.registers[4], 0xffffffffffffff7f);
    assert_eq!(executor.hart_state.registers[5], 0xffffffffbed897ac);
    assert_eq!(executor.hart_state.registers[6], 0x00000030);
    assert_eq!(executor.hart_state.registers[7], 0x00000060);
    // LW sign-extends the loaded word to 64 bits.
    assert_eq!(executor.hart_state.registers[8], 0xffffffffdeadbeef);
    assert_eq!(executor.hart_state.registers[9], 0xffffffffffffffad);
    assert_eq!(executor.hart_state.registers[10], 0x0000dead);
    assert_eq!(executor.hart_state.registers[11], 0xffffffffbaad8f77);

    assert_eq!(
        executor.step(),
        Err(InstructionException::IllegalInstruction(0x54, 0))
    );
}

#[test]
fn lui_sets_upper_bits() {
    let mut m = machine(vec![0x1234b137, 0]);
    assert_eq!(m.step(), Ok(()));
    assert_eq!(m.hart_state.registers[2], 0x1234b000);
    assert_eq!(m.hart_state.pc, 4);
}

#[test]
fn lui_lui_add() {
    let mut m = machine(vec![0xf387e1b7_1234b137, 0x003100b3]);
    for _ in 0..3 {
        assert_eq!(m.step(), Ok(()));
    }
    assert_eq!(m.hart_state.registers[3], 0xfffffffff387e000);
    assert_eq!(m.hart_state.registers[1], 0x05bc9000);
    assert_eq!(m.hart_state.pc, 12);
    assert_eq!(m.step(), Err(InstructionException::IllegalInstruction(12, 0)));
}

#[test]
fn store_then_load_double_word() {
    // code at 0x100: SD x1, 0(x0); LD x2, 0(x0)
    let mut cells = vec![0u64; 0x40];
    cells[0x20] = 0x00003103_00103023;
    let mut m = machine(cells);
    m.hart_state.pc = 0x100;
    m.hart_state.registers[1] = 0xdeadbeefcafebabe;
    assert_eq!(m.step(), Ok(()));
    assert_eq!(m.step(), Ok(()));
    assert_eq!(m.hart_state.registers[2], 0xdeadbeefcafebabe);
    assert_eq!(m.mem.read_mem(0, MemAccessSize::Word), Some(0xcafebabe));
    assert_eq!(m.mem.read_mem(4, MemAccessSize::HalfWord), Some(0xbeef));
}

#[test]
fn misaligned_load_faults() {
    // LW x1, 1(x0)
    let mut m = machine(vec![0x00102083, 0]);
    assert_eq!(m.step(), Err(InstructionException::AlignmentFault(1)));
    assert_eq!(m.hart_state.registers[1], 0);
    assert_eq!(m.hart_state.pc, 0);
}

#[test]
fn misaligned_store_faults_without_writing() {
    // SH x1, 1(x0)
    let mut m = machine(vec![0x001010a3, 0]);
    m.hart_state.registers[1] = 0xffff;
    assert_eq!(m.step(), Err(InstructionException::AlignmentFault(1)));
    assert_eq!(m.mem.read_mem(0, MemAccessSize::DoubleWord), Some(0x001010a3));
}

#[test]
fn fetch_outside_memory_faults() {
    let mut m = machine(vec![0]);
    m.hart_state.pc = 0x4000;
    assert_eq!(m.step(), Err(InstructionException::FetchError(0x4000)));
}

#[test]
fn divide_by_zero() {
    // DIVU x3, x1, x2; REMU x4, x1, x2
    let mut m = machine(vec![0x0220f233_0220d1b3]);
    m.hart_state.registers[1] = 10;
    m.hart_state.registers[2] = 0;
    assert_eq!(m.step(), Ok(()));
    assert_eq!(m.step(), Ok(()));
    assert_eq!(m.hart_state.registers[3], u64::MAX);
    assert_eq!(m.hart_state.registers[4], 10);
}

#[test]
fn x0_ignores_writes() {
    // ADDI x0, x0, 5; ADDI x1, x0, 0
    let mut m = machine(vec![0x00000093_00500013]);
    assert_eq!(m.step(), Ok(()));
    assert_eq!(m.hart_state.last_register_write, None);
    assert_eq!(m.step(), Ok(()));
    assert_eq!(m.hart_state.registers[1], 0);
}

#[test]
fn jalr_clears_low_bit() {
    // JALR x1, 3(x2)
    let mut m = machine(vec![0x003100e7]);
    m.hart_state.registers[2] = 0x100;
    assert_eq!(m.step(), Ok(()));
    assert_eq!(m.hart_state.pc, 0x102);
    assert_eq!(m.hart_state.registers[1], 4);
}

#[test]
fn addiw_sign_extends() {
    // ADDIW x1, x2, 1
    let mut m = machine(vec![0x0011009b]);
    m.hart_state.registers[2] = 0x7fff_ffff;
    assert_eq!(m.step(), Ok(()));
    assert_eq!(m.hart_state.registers[1], 0xffff_ffff_8000_0000);
}

#[test]
fn signed_division_and_remainder() {
    // DIV x3, x1, x2; REM x4, x1, x2
    let mut m = machine(vec![0x0220e233_0220c1b3]);
    m.hart_state.registers[1] = (-7i64) as u64;
    m.hart_state.registers[2] = 2;
    assert_eq!(m.step(), Ok(()));
    assert_eq!(m.step(), Ok(()));
    assert_eq!(m.hart_state.registers[3], (-3i64) as u64);
    assert_eq!(m.hart_state.registers[4], (-1i64) as u64);
}

#[test]
fn signed_division_overflow_wraps() {
    // DIV x3, x1, x2 with x1 = i64::MIN, x2 = -1
    let mut m = machine(vec![0x0220c1b3]);
    m.hart_state.registers[1] = i64::MIN as u64;
    m.hart_state.registers[2] = u64::MAX;
    assert_eq!(m.step(), Ok(()));
    assert_eq!(m.hart_state.registers[3], i64::MIN as u64);
}

#[test]
fn high_multiplies() {
    // MULH x3, x1, x2; MULHU x4, x1, x2
    let mut m = machine(vec![0x0220b233_022091b3]);
    m.hart_state.registers[1] = u64::MAX;
    m.hart_state.registers[2] = u64::MAX;
    assert_eq!(m.step(), Ok(()));
    assert_eq!(m.step(), Ok(()));
    assert_eq!(m.hart_state.registers[3], 0);
    assert_eq!(m.hart_state.registers[4], 0xffff_ffff_ffff_fffe);
}

#[test]
fn amoadd_word_returns_old_value() {
    // AMOADD.W x3, x2, (x1)
    let mut m = machine(vec![0x0020a1af, 0x0000_0000_ffff_fffe]);
    m.hart_state.registers[1] = 8;
    m.hart_state.registers[2] = 3;
    assert_eq!(m.step(), Ok(()));
    assert_eq!(m.hart_state.registers[3], 0xffff_ffff_ffff_fffe);
    assert_eq!(m.mem.read_mem(8, MemAccessSize::Word), Some(1));
}

#[test]
fn store_conditional_writes_zero_to_rd() {
    // SC.D x3, x2, (x1)
    let mut m = machine(vec![0x1820b1af, 0]);
    m.hart_state.registers[1] = 8;
    m.hart_state.registers[2] = 0x1122334455667788;
    m.hart_state.registers[3] = 9;
    assert_eq!(m.step(), Ok(()));
    assert_eq!(m.hart_state.registers[3], 0);
    assert_eq!(m.mem.read_mem(8, MemAccessSize::DoubleWord), Some(0x1122334455667788));
}

#[test]
fn load_outside_memory_faults() {
    // LD x1, 0(x2)
    let mut m = machine(vec![0x00013083]);
    m.hart_state.registers[2] = 0x8000;
    assert_eq!(m.step(), Err(InstructionException::LoadAccessFault(0x8000)));
}

#[test]
fn store_outside_memory_faults() {
    // SD x1, 0(x2)
    let mut m = machine(vec![0x00113023]);
    m.hart_state.registers[2] = 0x8000;
    assert_eq!(m.step(), Err(InstructionException::StoreAccessFault(0x8000)));
}

#[test]
fn branch_taken_and_not_taken() {
    // BEQ x1, x2, 8 at 0; BNE x1, x2, 8 at 4
    let mut m = machine(vec![0x00209463_00208463, 0]);
    m.hart_state.registers[1] = 1;
    m.hart_state.registers[2] = 2;
    assert_eq!(m.step(), Ok(()));
    assert_eq!(m.hart_state.pc, 4);
    assert_eq!(m.step(), Ok(()));
    assert_eq!(m.hart_state.pc, 12);
}

#[test]
fn rdtime_reads_zero_and_fence_does_nothing() {
    // RDTIME x1; FENCE
    let mut m = machine(vec![0x0ff0000f_c01020f3]);
    m.hart_state.registers[1] = 5;
    assert_eq!(m.step(), Ok(()));
    assert_eq!(m.hart_state.registers[1], 0);
    assert_eq!(m.step(), Ok(()));
    assert_eq!(m.hart_state.pc, 8);
    assert_eq!(m.hart_state.last_register_write, None);
}

#[test]
fn load_reserved_word_sign_extends() {
    // LR.W x3, (x1)
    let mut m = machine(vec![0x1000a1af, 0x8000_0000]);
    m.hart_state.registers[1] = 8;
    assert_eq!(m.step(), Ok(()));
    assert_eq!(m.hart_state.registers[3], 0xffff_ffff_8000_0000);
}

#[test]
fn auipc_adds_to_pc() {
    // AUIPC x1, 1 at 0x100
    let mut cells = vec![0u64; 0x22];
    cells[0x20] = 0x00001097;
    let mut m = machine(cells);
    m.hart_state.pc = 0x100;
    assert_eq!(m.step(), Ok(()));
    assert_eq!(m.hart_state.registers[1], 0x1100);
}

#[test]
fn arithmetic_shift_keeps_sign() {
    // SRAI x1, x2, 4
    let mut m = machine(vec![0x40415093]);
    m.hart_state.registers[2] = 0x8000_0000_0000_0000;
    assert_eq!(m.step(), Ok(()));
    assert_eq!(m.hart_state.registers[1], 0xf800_0000_0000_0000);
}

#[test]
fn word_multiply_and_remainder() {
    // MULW x3, x1, x2; REMUW x4, x1, x2
    let mut m = machine(vec![0x0220f23b_022081bb]);
    m.hart_state.registers[1] = 0x1_0000_0003;
    m.hart_state.registers[2] = 0x7fff_ffff;
    assert_eq!(m.step(), Ok(()));
    assert_eq!(m.hart_state.registers[3], 0x7fff_fffd);
    assert_eq!(m.step(), Ok(()));
    assert_eq!(m.hart_state.registers[4], 3);
}

#[test]
fn remuw_by_zero_low_word() {
    // REMUW x4, x1, x2
    let mut m = machine(vec![0x0220f23b]);
    m.hart_state.registers[1] = 0xffff_ffff_8000_0005;
    m.hart_state.registers[2] = 0x1_0000_0000;
    assert_eq!(m.step(), Ok(()));
    assert_eq!(m.hart_state.registers[4], 0x8000_0005);
}

#[test]
fn unsigned_division_identity() {
    // DIVU x3, x1, x2; REMU x4, x1, x2
    let mut m = machine(vec![0x0220f233_0220d1b3]);
    m.hart_state.registers[1] = 100;
    m.hart_state.registers[2] = 7;
    assert_eq!(m.step(), Ok(()));
    assert_eq!(m.step(), Ok(()));
    let (q, r) = (m.hart_state.registers[3], m.hart_state.registers[4]);
    assert_eq!((q, r), (14, 2));
    assert_eq!(q * 7 + r, 100);
}

#[test]
fn signed_division_by_zero() {
    // DIV x3, x1, x2; REM x4, x1, x2
    let mut m = machine(vec![0x0220e233_0220c1b3]);
    m.hart_state.registers[1] = (-9i64) as u64;
    assert_eq!(m.step(), Ok(()));
    assert_eq!(m.step(), Ok(()));
    assert_eq!(m.hart_state.registers[3], u64::MAX);
    assert_eq!(m.hart_state.registers[4], (-9i64) as u64);
}

#[test]
fn step_reports_pc_writes() {
    // BEQ x1, x2, 8 (not taken); JAL x0, 8; ADDI x0, x0, 0
    let mut m = machine(vec![0x0080006f_00208463, 0x00000013]);
    m.hart_state.registers[1] = 1;
    assert_eq!(m.step_and_report(), Ok(false));
    assert_eq!(m.hart_state.pc, 4);
    assert_eq!(m.step_and_report(), Ok(true));
    assert_eq!(m.hart_state.pc, 12);
}
