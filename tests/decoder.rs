use rv64_core::layout::{align_up, round_up};
use rv64_core::opcode::{DecodeError, InsnKind, MajorType, OpCode};

#[test]
fn decodes_with_major_and_minor() {
    let op = OpCode::decode(0x003100b3, 8).unwrap();
    assert_eq!(op.kind, InsnKind::Add);
    assert_eq!(op.mnemonic(), "ADD");
    assert_eq!(op.major, MajorType::Compute0);
    assert_eq!(op.minor, 0);
    assert_eq!(op.cycles, 1);
    assert_eq!(op.insn_pc, 8);
    let op = OpCode::decode(0x0220d1b3, 0).unwrap();
    assert_eq!(op.kind, InsnKind::Divu);
    assert_eq!(op.major, MajorType::Divide);
    assert_eq!(op.minor, 1);
    assert_eq!(op.cycles, 2);
    let op = OpCode::decode(0x4030d093, 0).unwrap();
    assert_eq!(op.kind, InsnKind::Srai);
    assert_eq!(op.major, MajorType::Divide);
    assert_eq!(op.minor, 7);
}

#[test]
fn environment_calls_use_the_ecall_group() {
    let op = OpCode::decode(0x00000073, 0).unwrap();
    assert_eq!((op.kind, op.major, op.minor), (InsnKind::Ecall, MajorType::ECall, 0));
    let op = OpCode::decode(0x00100073, 0).unwrap();
    assert_eq!((op.kind, op.major, op.minor), (InsnKind::Ebreak, MajorType::ECall, 1));
    assert_eq!(MajorType::ECall.as_u32(), 8);
}

#[test]
fn store_word_and_double_share_an_index() {
    let sw = OpCode::decode(0x00112023, 0).unwrap();
    let sd = OpCode::decode(0x00113023, 0).unwrap();
    assert_eq!((sw.kind, sw.major, sw.minor), (InsnKind::Sw, MajorType::MemIo, 7));
    assert_eq!((sd.kind, sd.major, sd.minor), (InsnKind::Sd, MajorType::MemIo, 7));
}

#[test]
fn illegal_words_are_refused() {
    assert_eq!(OpCode::decode(0, 0).err(), Some(DecodeError::IllegalOpcode(0)));
    assert_eq!(OpCode::decode(0x0000707f, 0).err(), Some(DecodeError::IllegalOpcode(0x0000707f)));
    // load with funct3 = 7
    assert_eq!(OpCode::decode(0x00007003, 0).err(), Some(DecodeError::IllegalOpcode(0x00007003)));
}

#[test]
fn rounding_helpers() {
    assert_eq!(align_up(13, 8), 16);
    assert_eq!(align_up(16, 8), 16);
    assert_eq!(round_up(13, 5), 15);
}

#[test]
fn trace_line_format() {
    let op = OpCode::decode(0x1234b137, 0x40).unwrap();
    assert_eq!(op.debug(7, 0x40), "[7] pc: 0x00000040, insn: 0x1234b137 => LUI");
}

#[test]
fn hart_state_default_is_zero() {
    let h = rv64_core::executor::HartState::default();
    assert_eq!(h.registers, [0u64; 32]);
    assert_eq!(h.pc, 0);
    assert_eq!(h.last_register_write, None);
}
