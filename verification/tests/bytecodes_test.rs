use rusty_js_core::bytecodes::{Block, CompactRegister, OpCode, Register};

#[test]
fn test_opcode_size() {
    assert!(std::mem::size_of::<OpCode>() == 8)
}

#[test]
fn compact_register_round_trip() {
    for t in 0..4u8 {
        for v in 0..4u8 {
            let c = CompactRegister::from_registers(Register(t), Register(v));
            assert_eq!(c.target(), Register(t));
            assert_eq!(c.value(), Register(v));
        }
    }
    assert_eq!(CompactRegister::T2R1.target(), Register(2));
    assert_eq!(CompactRegister::T2R1.value(), Register(1));
}

#[test]
fn writes_and_reads_of_instructions() {
    let add = OpCode::Add { result: Register(0), left: Register(1), right: Register(2) };
    assert_eq!(add.writes_to(), Some(Register(0)));
    assert_eq!(add.reads_from(), [Register(1), Register(2), Register(255)]);

    let mov = OpCode::Mov { from: Register(3), to: Register(1) };
    assert_eq!(mov.writes_to(), Some(Register(1)));
    assert_eq!(mov.reads_from(), [Register(3), Register(255), Register(255)]);

    let jump = OpCode::Jump { to: Block(2), line: 0 };
    assert_eq!(jump.writes_to(), None);
    assert_eq!(jump.reads_from(), [Register(255), Register(255), Register(255)]);
}
