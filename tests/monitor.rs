use std::collections::BTreeMap;
use rv64_core::image::MemoryImage;
use rv64_core::layout::{MEM_SIZE, PLAYGROUND_BASE, STACK_INITIAL_ADDRESS, SYSTEM_START};
use rv64_core::loader::Program;
use rv64_core::memory::{MemAccessSize, Memory, MemorySpace};
use rv64_core::monitor::{MemoryMonitor, OpCodeResult, SyscallRecord};
use rv64_core::opcode::OpCode;

fn small_monitor() -> MemoryMonitor {
    let mut space = MemorySpace::new();
    space.add_memory(0, 0x100).unwrap();
    MemoryMonitor::new(MemoryImage::from_space(space))
}

fn op_result(syscall: Option<SyscallRecord>) -> OpCodeResult {
    OpCodeResult { syscall, pc_updated: false, opcode: OpCode::decode(0x0000000f, 0).unwrap() }
}

#[test]
fn writes_are_visible_only_after_commit() {
    let mut m = small_monitor();
    m.store_u64(8, 0x0102030405060708);
    assert_eq!(m.load_u64(8), 0);
    assert_eq!(m.read_mem(8, MemAccessSize::DoubleWord), Some(0));
    m.save_op(op_result(None));
    m.commit();
    assert_eq!(m.load_u64(8), 0x0102030405060708);
    assert_eq!(m.load_u8(8), 0x08);
    assert_eq!(m.load_u16(14), 0x0102);
    assert_eq!(m.load_u32(12), 0x01020304);
}

#[test]
fn last_write_to_a_byte_wins() {
    let mut m = small_monitor();
    m.store_u8(3, 0xaa);
    m.store_u8(3, 0x11);
    m.store_u8(2, 0x22);
    m.save_op(op_result(None));
    m.commit();
    assert_eq!(m.load_u16(2), 0x1122);
}

#[test]
fn store_region_round_trip() {
    let mut m = small_monitor();
    let bytes = [1u8, 2, 3, 4, 5];
    m.store_region(0x21, &bytes);
    m.save_op(op_result(None));
    m.commit();
    let back: [u8; 5] = m.load_array(0x21);
    assert_eq!(back, bytes);
    assert_eq!(m.load_u8(0x20), 0);
}

#[test]
fn store_u32_round_trip() {
    let mut m = small_monitor();
    m.store_u32(0x40, 0xdeadbeef);
    m.store_u16(0x44, 0xbeef);
    m.save_op(op_result(None));
    m.commit();
    assert_eq!(m.load_u32(0x40), 0xdeadbeef);
    assert_eq!(m.load_u16(0x44), 0xbeef);
}

#[test]
fn writes_outside_every_region_are_dropped() {
    let mut m = small_monitor();
    m.store_u8(0x1000, 7);
    m.store_u8(0x10, 7);
    m.save_op(op_result(None));
    m.commit();
    assert_eq!(m.read_mem(0x1000, MemAccessSize::Byte), None);
    assert_eq!(m.load_u8(0x10), 7);
    assert_eq!(m.dropped_writes, vec![0x1000]);
}

#[test]
fn commit_records_the_syscall() {
    let mut m = small_monitor();
    let call = SyscallRecord { number: 3, arg0: 4, arg1: 5 };
    m.save_op(op_result(Some(call)));
    assert_eq!(m.restore_op(), Some(op_result(Some(call))));
    m.commit();
    assert_eq!(m.restore_op(), None);
    assert_eq!(m.syscalls, vec![call]);
    m.clear_segment();
    assert!(m.syscalls.is_empty());
}

#[test]
fn clear_session_drops_pending_writes() {
    let mut m = small_monitor();
    m.store_u8(1, 9);
    m.clear_session();
    m.save_op(op_result(None));
    m.commit();
    assert_eq!(m.load_u8(1), 0);
}

#[test]
fn cross_region_access_is_refused() {
    let mut space = MemorySpace::new();
    space.add_memory(0, 8).unwrap();
    space.add_memory(8, 8).unwrap();
    assert_eq!(space.read(4, MemAccessSize::DoubleWord), None);
    assert!(!space.write(4, MemAccessSize::DoubleWord, 1));
    assert_eq!(space.read(8, MemAccessSize::DoubleWord), Some(0));
    assert!(space.add_memory(4, 8).is_err());
}

#[test]
fn register_shadow_and_stack_bootstrap() {
    let program = Program { entry: 0, image: BTreeMap::from([(0, 0x00000013)]) };
    let image = MemoryImage::new(&program, 0x400);
    let mut m = MemoryMonitor::new(image);
    assert_eq!(m.load_register(0), 0);
    assert_eq!(m.load_register(2), STACK_INITIAL_ADDRESS);
    m.store_register(5, 77);
    m.store_register(0, 77);
    m.save_op(op_result(None));
    m.commit();
    assert_eq!(m.load_u64(SYSTEM_START + 16), STACK_INITIAL_ADDRESS);
    assert_eq!(m.load_registers([0, 2, 5]), [0, STACK_INITIAL_ADDRESS, 77]);
    assert_eq!(m.load_u64(SYSTEM_START), 0);
    m.store_register(2, 0);
    m.save_op(op_result(None));
    m.commit();
    assert_eq!(m.load_u64(SYSTEM_START + 16), STACK_INITIAL_ADDRESS);
}

#[test]
fn image_layout() {
    let program = Program { entry: 0, image: BTreeMap::from([(4, 0x1234b137), (8, 6), (12, 5)]) };
    let image = MemoryImage::new(&program, 0x400);
    let space = &image.memory_space;
    assert_eq!(space.read(4, MemAccessSize::Word), Some(0x1234b137));
    assert_eq!(space.read(8, MemAccessSize::Word), Some(6));
    assert_eq!(space.read(12, MemAccessSize::Word), Some(5));
    assert_eq!(space.read(0, MemAccessSize::Word), Some(0));
    assert_eq!(space.read(PLAYGROUND_BASE, MemAccessSize::DoubleWord), Some(0));
    assert_eq!(space.read(MEM_SIZE, MemAccessSize::Byte), None);
}

#[test]
fn load_string_reads_up_to_nul() {
    let mut m = small_monitor();
    m.store_region(0x30, b"hi!\0");
    m.store_region(0x40, &[0xff, 0xfe, 0]);
    m.store_region(0xf8, b"abcdefgh");
    m.save_op(op_result(None));
    m.commit();
    assert_eq!(m.load_string(0x30), Ok("hi!".to_string()));
    assert_eq!(m.load_string(0x33), Ok(String::new()));
    assert_eq!(m.load_string(0x40), Err(rv64_core::monitor::StringError::InvalidUtf8));
    assert_eq!(m.load_string(0xf8), Err(rv64_core::monitor::StringError::Unmapped(0x100)));
}
