use rusty_js_core::bytecode_builder::FunctionBuilder;
use rusty_js_core::code_table::CodeTable;
use rusty_js_core::bytecodes::{Block, OpCode, Register};
use rusty_js_core::error::Error;
use rusty_js_core::function_builder_context::FunctionBuilderContext;

fn show(codes: &[OpCode]) -> String {
    format!("{:?}", codes)
}

#[test]
fn a_loop_creates_two_blocks_and_is_left_through_its_exit() {
    let mut b = FunctionBuilder::new();
    let (header, exit) = b.start_loop(None);
    assert_eq!(exit, Block(0));
    assert_eq!(header, Block(1));
    b.end_loop();
    assert_eq!(
        show(&b.bytecode),
        show(&[
            OpCode::CreateBlock(Block(0)),
            OpCode::CreateBlock(Block(1)),
            OpCode::Jump { to: Block(1), line: 0 },
            OpCode::SwitchToBlock(Block(1)),
            OpCode::Jump { to: Block(0), line: 0 },
            OpCode::SwitchToBlock(Block(0)),
        ])
    );
    assert!(matches!(b.translate_break(None), Err(Error::IllegalBreak)));
}

#[test]
fn break_and_continue_target_the_innermost_loop() {
    let mut b = FunctionBuilder::new();
    let (outer_header, outer_exit) = b.start_loop(Some("outer"));
    let (inner_header, inner_exit) = b.start_loop(None);
    let n = b.bytecode.len();
    b.translate_break(None).unwrap();
    b.translate_continue(None).unwrap();
    b.translate_break(Some("outer")).unwrap();
    b.translate_continue(Some("outer")).unwrap();
    assert_eq!(
        show(&b.bytecode[n..]),
        show(&[
            OpCode::Jump { to: inner_exit, line: 0 },
            OpCode::Jump { to: inner_header, line: 0 },
            OpCode::Jump { to: outer_exit, line: 0 },
            OpCode::Jump { to: outer_header, line: 0 },
        ])
    );
}

#[test]
fn an_unknown_label_is_an_error() {
    let mut b = FunctionBuilder::new();
    b.start_loop(Some("a"));
    let n = b.bytecode.len();
    match b.translate_break(Some("b")) {
        Err(Error::LabelUndefined(l)) => assert_eq!(l, "b"),
        other => panic!("unexpected {:?}", other),
    }
    match b.translate_continue(Some("c")) {
        Err(Error::LabelUndefined(l)) => assert_eq!(l, "c"),
        other => panic!("unexpected {:?}", other),
    }
    assert_eq!(b.bytecode.len(), n);
}

#[test]
fn continue_outside_a_loop_is_an_error() {
    let mut b = FunctionBuilder::new();
    assert!(matches!(b.translate_continue(None), Err(Error::IllegalBreak)));
    assert!(b.bytecode.is_empty());
}

#[test]
fn finishing_returns_undefined_and_optimises() {
    let ctx = FunctionBuilderContext::new();
    let mut b = FunctionBuilder::new_with_context(CodeTable::new(), ctx, true, false);
    let f = b.finish();
    assert!(f.is_async);
    assert!(!f.is_generator);
    assert_eq!(f.call_count, 0);
    assert_eq!(f.args_len, 0);
    assert_eq!(f.var_count, 0);
    assert_eq!(f.capture_stack_size, Some(0));
    assert_eq!(
        show(&f.bytecodes),
        show(&[
            OpCode::LoadUndefined { result: Register(0) },
            OpCode::Return { value: Register(0) },
        ])
    );
    assert_eq!(b.bytecode.len(), 2);
}
