use std::collections::BTreeMap;
use rv64_core::executor::InstructionException;
use rv64_core::image::MemoryImage;
use rv64_core::layout::{STACK_INITIAL_ADDRESS, SYSTEM_START};
use rv64_core::loader::Program;
use rv64_core::memory::MemAccessSize;
use rv64_core::session::{ExitCode, Executor, Segment, Session};

fn executor(words: &[u32], entry: u64) -> Executor {
    let image: BTreeMap<u64, u32> = words.iter().enumerate().map(|(i, w)| (entry + 4 * i as u64, *w)).collect();
    let program = Program { entry, image };
    Executor::new(MemoryImage::new(&program, 0x400), entry)
}

#[test]
fn halts_with_exit_code() {
    // ADDI x10, x0, 42; ADDI x5, x0, 0; ECALL
    let mut e = executor(&[0x02a00513, 0x00000293, 0x00000073], 0x1000);
    let s = e.run(100).unwrap();
    assert_eq!(s.exit_code, ExitCode::Halted(42));
    assert_eq!(s.segments, vec![Segment { pc: 0x1000, exit_code: ExitCode::Halted(42) }]);
}

#[test]
fn step_budget_gives_session_limit() {
    // JAL x0, 0: a tight loop
    let mut e = executor(&[0x0000006f], 0);
    let s = e.run(10).unwrap();
    assert_eq!(s.exit_code, ExitCode::SessionLimit);
    assert_eq!(s.segments.len(), 1);
}

#[test]
fn fault_ends_the_session() {
    // LW x1, 1(x0)
    let mut e = executor(&[0x00102083], 0);
    assert_eq!(e.run(10).err(), Some(InstructionException::AlignmentFault(1)));
}

#[test]
fn registers_are_mirrored_and_stack_bootstrapped() {
    // ADDI x1, x2, 0; ADDI x5, x0, 0; ECALL
    let mut e = executor(&[0x00010093, 0x00000293, 0x00000073], 0);
    e.run(10).unwrap();
    assert_eq!(e.machine.hart_state.registers[1], STACK_INITIAL_ADDRESS);
    assert_eq!(e.machine.hart_state.registers[2], STACK_INITIAL_ADDRESS);
    let shadow = &e.machine.mem.image.memory_space;
    assert_eq!(shadow.read(SYSTEM_START + 8, MemAccessSize::DoubleWord), Some(STACK_INITIAL_ADDRESS));
    assert_eq!(shadow.read(SYSTEM_START + 16, MemAccessSize::DoubleWord), Some(STACK_INITIAL_ADDRESS));
}

#[test]
fn stack_is_not_bootstrapped_without_a_read() {
    // ADDI x1, x0, 7; ADDI x5, x0, 0; ECALL
    let mut e = executor(&[0x00700093, 0x00000293, 0x00000073], 0);
    e.run(10).unwrap();
    assert_eq!(e.machine.hart_state.registers[2], 0);
    let shadow = &e.machine.mem.image.memory_space;
    assert_eq!(shadow.read(SYSTEM_START + 8, MemAccessSize::DoubleWord), Some(7));
    assert_eq!(shadow.read(SYSTEM_START + 16, MemAccessSize::DoubleWord), Some(0));
}

#[test]
fn taken_branch_to_next_word_counts_as_pc_update() {
    // BEQ x0, x0, 4; ADDI x5, x0, 0; ECALL
    let mut e = executor(&[0x00000263, 0x00000293, 0x00000073], 0);
    assert_eq!(e.step(), Ok(None));
    assert_eq!(e.machine.hart_state.pc, 4);
    let s = e.run(10).unwrap();
    assert_eq!(s.exit_code, ExitCode::Halted(0));
}

#[test]
fn syscalls_are_recorded() {
    // ADDI x5, x0, 3; ECALL; ADDI x5, x0, 0; ECALL
    let mut e = executor(&[0x00300293, 0x00000073, 0x00000293, 0x00000073], 0);
    let s = e.run(10).unwrap();
    assert_eq!(s.exit_code, ExitCode::Halted(0));
    assert_eq!(e.machine.mem.syscalls.len(), 1);
    assert_eq!(e.machine.mem.syscalls[0].number, 3);
}

#[test]
fn session_new_keeps_parts() {
    let s = Session::new(vec![Segment::new(4, ExitCode::SessionLimit)], ExitCode::SessionLimit);
    assert_eq!(s.segments[0].pc, 4);
    assert_eq!(s.exit_code, ExitCode::SessionLimit);
}
