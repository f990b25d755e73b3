use rusty_js_core::bytecodes::{DeclareKind, OpCode, Register};
use rusty_js_core::function_builder_context::{
    DynamicName, DynamicVarNames, FunctionBuilderContext, VarName,
};

fn show(code: OpCode) -> String {
    format!("{:?}", code)
}

#[test]
fn dynamic_names_keep_their_number() {
    let mut names = DynamicVarNames::new();
    assert_eq!(names.register(DynamicName::Plain(7)), 0);
    assert_eq!(names.register(DynamicName::Scoped(7, 1)), 1);
    assert_eq!(names.register(DynamicName::Plain(7)), 0);
    assert_eq!(names.register(DynamicName::Plain(8)), 2);
}

#[test]
fn a_local_is_declared_and_read_on_the_stack() {
    let mut names = DynamicVarNames::new();
    let mut ctx = FunctionBuilderContext::new();
    ctx.new_function();
    let x = VarName { sym: 1, ctxt: 0 };
    let d = ctx.declare(&mut names, x, Register(1), DeclareKind::Let);
    assert_eq!(show(d), show(OpCode::WriteToStack { from: Register(1), stack_offset: 0 }));
    let g = ctx.get(&mut names, &x, Register(2));
    assert_eq!(show(g), show(OpCode::ReadFromStack { result: Register(2), stack_offset: 0 }));
    let s = ctx.set(&mut names, x, Register(0));
    assert_eq!(show(s), show(OpCode::WriteToStack { from: Register(0), stack_offset: 0 }));
    assert_eq!(ctx.current_stack_offset(), 1);
    assert_eq!(ctx.max_stack_offset(), 0);
}

#[test]
fn a_global_is_declared_by_name() {
    let mut names = DynamicVarNames::new();
    let mut ctx = FunctionBuilderContext::new();
    let y = VarName { sym: 4, ctxt: 2 };
    let d = ctx.declare(&mut names, y, Register(1), DeclareKind::Let);
    assert_eq!(
        show(d),
        show(OpCode::DeclareDynamicVar { from: Register(1), kind: DeclareKind::Let, id: 0 })
    );
    let g = ctx.get(&mut names, &y, Register(2));
    assert_eq!(show(g), show(OpCode::ReadDynamicVar { result: Register(2), id: 0 }));
}

#[test]
fn a_variable_of_an_outer_function_is_captured_once() {
    let mut names = DynamicVarNames::new();
    let mut ctx = FunctionBuilderContext::new();
    ctx.new_function();
    let x = VarName { sym: 1, ctxt: 0 };
    ctx.declare(&mut names, x, Register(1), DeclareKind::Let);
    ctx.new_function();
    let g1 = ctx.get(&mut names, &x, Register(2));
    assert_eq!(show(g1), show(OpCode::ReadCapturedVar { result: Register(2), offset: 0 }));
    let g2 = ctx.get(&mut names, &x, Register(0));
    assert_eq!(show(g2), show(OpCode::ReadCapturedVar { result: Register(0), offset: 0 }));
    ctx.close_context();
    let pending = ctx.need_done();
    assert_eq!(format!("{:?}", pending), format!("{:?}", vec![OpCode::Capture { stack_offset: 0, capture_stack_offset: 0 }]));
    assert_eq!(ctx.capture_len(), Some(1));
}

#[test]
fn a_block_scope_shares_the_frame_and_try_state() {
    let mut names = DynamicVarNames::new();
    let mut ctx = FunctionBuilderContext::new();
    ctx.new_function();
    ctx.set_try();
    let a = VarName { sym: 1, ctxt: 0 };
    ctx.declare(&mut names, a, Register(1), DeclareKind::Var);
    ctx.new_context();
    assert!(ctx.is_try());
    assert_eq!(ctx.current_stack_offset(), 1);
    ctx.close_context();
    assert!(ctx.is_try());
}

#[test]
fn a_block_scope_declares_on_the_frame_of_its_function() {
    let mut names = DynamicVarNames::new();
    let mut ctx = FunctionBuilderContext::new();
    ctx.new_function();
    ctx.new_context();
    let a = VarName { sym: 1, ctxt: 0 };
    let b = VarName { sym: 2, ctxt: 0 };
    let d1 = ctx.declare(&mut names, a, Register(1), DeclareKind::Let);
    let d2 = ctx.declare(&mut names, b, Register(2), DeclareKind::Let);
    assert_eq!(show(d1), show(OpCode::WriteToStack { from: Register(1), stack_offset: 0 }));
    assert_eq!(show(d2), show(OpCode::WriteToStack { from: Register(2), stack_offset: 1 }));
    let g = ctx.get(&mut names, &b, Register(0));
    assert_eq!(show(g), show(OpCode::ReadFromStack { result: Register(0), stack_offset: 1 }));
    ctx.close_context();
    assert_eq!(ctx.max_stack_offset(), 1);
    assert_eq!(ctx.current_stack_offset(), 0);
}
