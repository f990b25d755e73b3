use rusty_js_core::ast::{
    ArrowBody, ArrowFunction, BinaryOp, Class, ClassMember, Expr, ExprOrSpread, Function, MetaPropKind, MethodKind, Pat, Stmt, SwitchCase, UnaryOp, UpdateOp,
    VarDeclKind,
};
use rusty_js_core::bytecode_builder::FunctionBuilder;
use rusty_js_core::code_table::CodeTable;
use rusty_js_core::bytecodes::{Block, CompactRegister, OpCode, Register};
use rusty_js_core::ids::{ClassID, FuncID, StringID};
use rusty_js_core::error::Error;
use rusty_js_core::function_builder_context::{DynamicVarNames, FunctionBuilderContext, VarName};

fn show(codes: &[OpCode]) -> String {
    format!("{:?}", codes)
}

fn function_builder() -> FunctionBuilder {
    FunctionBuilder::new_with_context(CodeTable::new(), FunctionBuilderContext::new(), false, false)
}

fn var(sym: u32) -> VarName {
    VarName { sym, ctxt: 0 }
}

fn let_decl(sym: u32, init: Expr) -> Stmt {
    Stmt::Var(VarDeclKind::Let, vec![(Pat::Ident(var(sym)), Some(init))])
}

const R0: Register = Register(0);
const R1: Register = Register(1);
const R2: Register = Register(2);

#[test]
fn declarations_assignments_and_a_while_loop() {
    let mut b = function_builder();
    let mut names = DynamicVarNames::new();
    let x = var(1);
    b.translate_statement(&mut names, None, &let_decl(1, Expr::Bool(true))).unwrap();
    b.translate_statement(
        &mut names,
        None,
        &Stmt::Expr(Box::new(Expr::Assign(Box::new(Pat::Ident(x)), Box::new(Expr::Null)))),
    )
    .unwrap();
    b.translate_statement(
        &mut names,
        None,
        &Stmt::While(Box::new(Expr::Ident(x)), Box::new(Stmt::Break(None))),
    )
    .unwrap();
    assert_eq!(
        show(&b.bytecode),
        show(&[
            OpCode::LoadTrue { result: R0 },
            OpCode::WriteToStack { from: R0, stack_offset: 0 },
            OpCode::LoadNull { result: R0 },
            OpCode::WriteToStack { from: R0, stack_offset: 0 },
            OpCode::Mov { from: R0, to: R0 },
            OpCode::CreateBlock(Block(0)),
            OpCode::CreateBlock(Block(1)),
            OpCode::Jump { to: Block(1), line: 0 },
            OpCode::SwitchToBlock(Block(1)),
            OpCode::ReadFromStack { result: R0, stack_offset: 0 },
            OpCode::JumpIfFalse { value: R0, to: Block(0), line: 0 },
            OpCode::Jump { to: Block(0), line: 0 },
            OpCode::Jump { to: Block(1), line: 0 },
            OpCode::Jump { to: Block(0), line: 0 },
            OpCode::SwitchToBlock(Block(0)),
        ])
    );
}

#[test]
fn binary_operands_go_through_a_temporary() {
    let mut b = function_builder();
    let mut names = DynamicVarNames::new();
    b.translate_statement(&mut names, None, &let_decl(1, Expr::Bool(true))).unwrap();
    b.translate_statement(&mut names, None, &let_decl(2, Expr::Bool(false))).unwrap();
    let n = b.bytecode.len();
    let sum = Expr::Bin(BinaryOp::Add, Box::new(Expr::Ident(var(1))), Box::new(Expr::Ident(var(2))));
    assert_eq!(b.translate_expr(&mut names, &sum).unwrap(), R0);
    assert_eq!(
        show(&b.bytecode[n..]),
        show(&[
            OpCode::ReadFromStack { result: R0, stack_offset: 0 },
            OpCode::StoreTemp { value: R0 },
            OpCode::ReadFromStack { result: R0, stack_offset: 1 },
            OpCode::ReadTemp { value: R2 },
            OpCode::Add { result: R0, left: R2, right: R0 },
            OpCode::ReleaseTemp,
        ])
    );
    let n = b.bytecode.len();
    let twice = Expr::Bin(BinaryOp::Mul, Box::new(Expr::Ident(var(1))), Box::new(Expr::Ident(var(1))));
    b.translate_expr(&mut names, &twice).unwrap();
    assert_eq!(
        show(&b.bytecode[n..]),
        show(&[
            OpCode::ReadFromStack { result: R0, stack_offset: 0 },
            OpCode::Mov { from: R0, to: R2 },
            OpCode::Mul { result: R0, left: R2, right: R0 },
        ])
    );
    let n = b.bytecode.len();
    let and_false = Expr::Bin(BinaryOp::LogicalAnd, Box::new(Expr::Ident(var(1))), Box::new(Expr::Bool(false)));
    b.translate_expr(&mut names, &and_false).unwrap();
    assert_eq!(
        show(&b.bytecode[n..]),
        show(&[OpCode::ReadFromStack { result: R0, stack_offset: 0 }, OpCode::LoadFalse { result: R0 }])
    );
}

#[test]
fn greater_or_equal_is_emitted_as_an_addition() {
    let mut b = function_builder();
    let mut names = DynamicVarNames::new();
    let e = Expr::Bin(BinaryOp::GtEq, Box::new(Expr::This), Box::new(Expr::Null));
    b.translate_expr(&mut names, &e).unwrap();
    assert!(matches!(b.bytecode[4], OpCode::Add { .. }));
}

#[test]
fn unary_conditional_and_comma_expressions() {
    let mut b = function_builder();
    let mut names = DynamicVarNames::new();
    let e = Expr::Unary(UnaryOp::Bang, Box::new(Expr::This));
    b.translate_expr(&mut names, &e).unwrap();
    assert_eq!(
        show(&b.bytecode),
        show(&[OpCode::LoadThis { result: R0 }, OpCode::Not { result: R0, right: R0 }])
    );
    let mut c = function_builder();
    let cond = Expr::Cond(Box::new(Expr::This), Box::new(Expr::Bool(true)), Box::new(Expr::Null));
    c.translate_expr(&mut names, &cond).unwrap();
    assert_eq!(
        show(&c.bytecode),
        show(&[
            OpCode::LoadThis { result: R0 },
            OpCode::StoreTemp { value: R0 },
            OpCode::LoadTrue { result: R0 },
            OpCode::StoreTemp { value: R0 },
            OpCode::LoadNull { result: R0 },
            OpCode::Mov { from: R0, to: R2 },
            OpCode::ReadTemp { value: R1 },
            OpCode::ReleaseTemp,
            OpCode::ReadTemp { value: R0 },
            OpCode::ReleaseTemp,
            OpCode::CondSelect { t: R0, a: R1, b: R2, result: R0 },
        ])
    );
    let mut d = function_builder();
    let comma = Expr::Comma(vec![Expr::Null, Expr::Paren(Box::new(Expr::This))]);
    assert_eq!(d.translate_expr(&mut names, &comma).unwrap(), R0);
    assert_eq!(
        show(&d.bytecode),
        show(&[OpCode::LoadNull { result: R0 }, OpCode::LoadThis { result: R0 }])
    );
}

#[test]
fn an_invalid_expression_is_an_error() {
    let mut b = function_builder();
    let mut names = DynamicVarNames::new();
    match b.translate_expr(&mut names, &Expr::Invalid { lo: 3, hi: 5 }) {
        Err(Error::InvalidExpression { pos }) => assert_eq!(pos, 3..5),
        other => panic!("unexpected {:?}", other),
    }
    let s = Stmt::Block(vec![Stmt::Debugger, Stmt::Break(Some("l".to_string()))]);
    match b.translate_statement(&mut names, None, &s) {
        Err(Error::LabelUndefined(l)) => assert_eq!(l, "l"),
        other => panic!("unexpected {:?}", other),
    }
}

#[test]
fn if_else_return_and_labeled_loops() {
    let mut b = function_builder();
    let mut names = DynamicVarNames::new();
    let s = Stmt::If(
        Box::new(Expr::This),
        Box::new(Stmt::Return(None)),
        Some(Box::new(Stmt::Throw(Box::new(Expr::Null)))),
    );
    b.translate_statement(&mut names, None, &s).unwrap();
    assert_eq!(
        show(&b.bytecode),
        show(&[
            OpCode::CreateBlock(Block(0)),
            OpCode::CreateBlock(Block(1)),
            OpCode::LoadThis { result: R0 },
            OpCode::JumpIfTrue { value: R0, to: Block(0), line: 0 },
            OpCode::LoadNull { result: R0 },
            OpCode::Throw { value: R0 },
            OpCode::Jump { to: Block(1), line: 0 },
            OpCode::SwitchToBlock(Block(0)),
            OpCode::LoadUndefined { result: R0 },
            OpCode::Return { value: R0 },
            OpCode::Jump { to: Block(1), line: 0 },
            OpCode::SwitchToBlock(Block(1)),
        ])
    );
    let mut c = function_builder();
    let inner = Stmt::While(Box::new(Expr::This), Box::new(Stmt::Continue(Some("outer".to_string()))));
    let outer = Stmt::Labeled(
        "outer".to_string(),
        Box::new(Stmt::DoWhile(Box::new(inner), Box::new(Expr::Null))),
    );
    c.translate_statement(&mut names, None, &outer).unwrap();
    assert!(c.bytecode.iter().any(|op| matches!(op, OpCode::Jump { to: Block(1), line: 0 })));
    assert!(matches!(c.bytecode[c.bytecode.len() - 1], OpCode::SwitchToBlock(Block(0))));
}

#[test]
fn a_function_reads_its_parameters_then_runs_its_body() {
    let mut b = function_builder();
    let mut names = DynamicVarNames::new();
    let f = Function {
        params: vec![Pat::Ident(var(1)), Pat::Assign(Box::new(Pat::Ident(var(2))), Box::new(Expr::Null))],
        body: Some(vec![Stmt::Return(Some(Box::new(Expr::Ident(var(2)))))]),
        is_async: false,
        is_generator: false,
    };
    b.build_function(&mut names, &f).unwrap();
    assert_eq!(
        show(&b.bytecode),
        show(&[
            OpCode::ReadParam { result: R0, index: 0 },
            OpCode::WriteToStack { from: R0, stack_offset: 0 },
            OpCode::ReadParam { result: R0, index: 1 },
            OpCode::LoadNull { result: R0 },
            OpCode::Select { a: R0, b: R0, result: R0 },
            OpCode::WriteToStack { from: R0, stack_offset: 1 },
            OpCode::ReadFromStack { result: R0, stack_offset: 1 },
            OpCode::Return { value: R0 },
        ])
    );
    let f = b.finish();
    assert_eq!(f.args_len, 2);
}

fn two_locals() -> (FunctionBuilder, DynamicVarNames) {
    let mut b = function_builder();
    let mut names = DynamicVarNames::new();
    b.translate_statement(&mut names, None, &let_decl(1, Expr::Bool(true))).unwrap();
    b.translate_statement(&mut names, None, &let_decl(2, Expr::Bool(false))).unwrap();
    (b, names)
}

fn member(obj: u32, prop: u32) -> Expr {
    Expr::Member(Box::new(Expr::Ident(var(obj))), Box::new(Expr::Ident(var(prop))))
}

const ONE: u32 = 0x3f80_0000;

#[test]
fn call_arguments_are_written_from_the_current_stack_offset() {
    let (mut b, mut names) = two_locals();
    let n = b.bytecode.len();
    let call = Expr::Call(
        Box::new(Expr::Ident(var(1))),
        vec![
            ExprOrSpread { spread: false, expr: Expr::Ident(var(2)) },
            ExprOrSpread { spread: true, expr: Expr::Ident(var(1)) },
        ],
    );
    assert_eq!(b.translate_expr(&mut names, &call).unwrap(), R0);
    assert_eq!(
        show(&b.bytecode[n..]),
        show(&[
            OpCode::CreateArg { stack_offset: 2, len: 2 },
            OpCode::ReadFromStack { result: R0, stack_offset: 1 },
            OpCode::PushArg { value: R0, stack_offset: 2 },
            OpCode::ReadFromStack { result: R0, stack_offset: 0 },
            OpCode::PushArgSpread { value: R0, stack_offset: 3 },
            OpCode::FinishArgs { base_stack_offset: 2, len: 2 },
            OpCode::ReadFromStack { result: R0, stack_offset: 0 },
            OpCode::LoadThis { result: R2 },
            OpCode::Call { result: R0, this: R2, callee: R0, stack_offset: 2 },
        ])
    );
}

#[test]
fn a_method_call_passes_the_object_as_this() {
    let (mut b, mut names) = two_locals();
    let n = b.bytecode.len();
    let call = Expr::Call(Box::new(member(1, 2)), vec![]);
    b.translate_expr(&mut names, &call).unwrap();
    assert_eq!(
        show(&b.bytecode[n..]),
        show(&[
            OpCode::CreateArg { stack_offset: 2, len: 0 },
            OpCode::FinishArgs { base_stack_offset: 2, len: 0 },
            OpCode::ReadFromStack { result: R0, stack_offset: 0 },
            OpCode::StoreTemp { value: R0 },
            OpCode::ReadFromStack { result: R0, stack_offset: 0 },
            OpCode::StoreTemp { value: R0 },
            OpCode::ReadFromStack { result: R0, stack_offset: 1 },
            OpCode::Mov { from: R0, to: R0 },
            OpCode::ReadTemp { value: R1 },
            OpCode::ReleaseTemp,
            OpCode::ReadField { obj: R1, field: R0, result: R0, stack_offset: 2 },
            OpCode::ReadTemp { value: R2 },
            OpCode::Call { result: R0, this: R2, callee: R0, stack_offset: 2 },
            OpCode::ReleaseTemp,
        ])
    );
}

#[test]
fn new_without_arguments_and_meta_properties() {
    let (mut b, mut names) = two_locals();
    let n = b.bytecode.len();
    b.translate_expr(&mut names, &Expr::New(Box::new(Expr::Ident(var(1))), None)).unwrap();
    b.translate_expr(&mut names, &Expr::MetaProp(MetaPropKind::NewTarget)).unwrap();
    b.translate_expr(&mut names, &Expr::MetaProp(MetaPropKind::ImportMeta)).unwrap();
    assert_eq!(
        show(&b.bytecode[n..]),
        show(&[
            OpCode::ReadFromStack { result: R0, stack_offset: 0 },
            OpCode::New { result: R0, callee: R0, stack_offset: 2 },
            OpCode::NewTarget { result: R0 },
            OpCode::ImportMeta { result: R0 },
        ])
    );
}

#[test]
fn await_skips_literals_and_yield_defaults_to_undefined() {
    let mut b = function_builder();
    let mut names = DynamicVarNames::new();
    b.translate_expr(&mut names, &Expr::Await(Box::new(Expr::This))).unwrap();
    b.translate_expr(&mut names, &Expr::Await(Box::new(Expr::Null))).unwrap();
    b.translate_expr(&mut names, &Expr::Yield(None)).unwrap();
    b.translate_expr(&mut names, &Expr::Yield(Some(Box::new(Expr::This)))).unwrap();
    assert_eq!(
        show(&b.bytecode),
        show(&[
            OpCode::LoadThis { result: R0 },
            OpCode::Await { result: R0, future: R0 },
            OpCode::LoadNull { result: R0 },
            OpCode::LoadUndefined { result: R1 },
            OpCode::Yield { result: R0, arg: R1 },
            OpCode::LoadThis { result: R0 },
            OpCode::Yield { result: R0, arg: R0 },
        ])
    );
}

#[test]
fn computed_member_read() {
    let (mut b, mut names) = two_locals();
    let n = b.bytecode.len();
    b.translate_expr(&mut names, &member(1, 2)).unwrap();
    assert_eq!(
        show(&b.bytecode[n..]),
        show(&[
            OpCode::ReadFromStack { result: R0, stack_offset: 0 },
            OpCode::StoreTemp { value: R0 },
            OpCode::ReadFromStack { result: R0, stack_offset: 1 },
            OpCode::Mov { from: R0, to: R0 },
            OpCode::ReadTemp { value: R1 },
            OpCode::ReleaseTemp,
            OpCode::ReadField { obj: R1, field: R0, result: R0, stack_offset: 2 },
        ])
    );
}

#[test]
fn updates_of_a_variable_give_the_old_or_new_value() {
    let (mut b, mut names) = two_locals();
    let n = b.bytecode.len();
    b.translate_expr(&mut names, &Expr::Update(UpdateOp::PlusPlus, false, Box::new(Expr::Ident(var(1))))).unwrap();
    b.translate_expr(&mut names, &Expr::Update(UpdateOp::MinusMinus, true, Box::new(Expr::Ident(var(2))))).unwrap();
    assert_eq!(
        show(&b.bytecode[n..]),
        show(&[
            OpCode::ReadFromStack { result: R0, stack_offset: 0 },
            OpCode::LoadStaticFloat32 { result: R1, value: ONE },
            OpCode::Add { result: R2, left: R0, right: R1 },
            OpCode::WriteToStack { from: R2, stack_offset: 0 },
            OpCode::Mov { from: R0, to: R0 },
            OpCode::ReadFromStack { result: R0, stack_offset: 1 },
            OpCode::LoadStaticFloat32 { result: R1, value: ONE },
            OpCode::Sub { result: R2, left: R0, right: R1 },
            OpCode::WriteToStack { from: R2, stack_offset: 1 },
            OpCode::Mov { from: R2, to: R0 },
        ])
    );
}

#[test]
fn postfix_update_of_a_field_keeps_the_old_value() {
    let (mut b, mut names) = two_locals();
    let n = b.bytecode.len();
    b.translate_expr(&mut names, &Expr::Update(UpdateOp::PlusPlus, false, Box::new(member(1, 2)))).unwrap();
    assert_eq!(
        show(&b.bytecode[n..]),
        show(&[
            OpCode::ReadFromStack { result: R0, stack_offset: 0 },
            OpCode::StoreTemp { value: R0 },
            OpCode::ReadFromStack { result: R0, stack_offset: 1 },
            OpCode::Mov { from: R0, to: R0 },
            OpCode::ReadTemp { value: R1 },
            OpCode::ReleaseTemp,
            OpCode::ReadField { obj: R1, field: R0, result: R0, stack_offset: 2 },
            OpCode::LoadStaticFloat32 { result: R1, value: ONE },
            OpCode::Add { result: R2, left: R0, right: R1 },
            OpCode::StoreTemp { value: R0 },
            OpCode::StoreTemp { value: R2 },
            OpCode::ReadFromStack { result: R0, stack_offset: 0 },
            OpCode::StoreTemp { value: R0 },
            OpCode::ReadFromStack { result: R0, stack_offset: 1 },
            OpCode::ReadTemp { value: R1 },
            OpCode::ReleaseTemp,
            OpCode::ReadTemp { value: R2 },
            OpCode::WriteField { obj: R1, field: R0, value: R2, stack_offset: 2 },
            OpCode::ReleaseTemp,
            OpCode::ReadTemp { value: R0 },
            OpCode::ReleaseTemp,
        ])
    );
}

fn function(params: Vec<Pat>, body: Vec<Stmt>) -> Function {
    Function { params, body: Some(body), is_async: false, is_generator: false }
}

#[test]
fn a_class_binds_its_members_and_gives_the_class() {
    let mut b = function_builder();
    let mut names = DynamicVarNames::new();
    let class = Class {
        super_class: Some(Box::new(Expr::This)),
        body: vec![
            ClassMember::Constructor(function(vec![], vec![])),
            ClassMember::Method {
                name: "m".to_string(),
                kind: MethodKind::Getter,
                is_static: false,
                function: function(vec![], vec![Stmt::Return(None)]),
            },
            ClassMember::Prop { name: "s".to_string(), is_static: true, value: Some(Expr::Null) },
            ClassMember::Prop { name: "x".to_string(), is_static: false, value: Some(Expr::Null) },
            ClassMember::Empty,
            ClassMember::StaticBlock(vec![Stmt::Debugger]),
        ],
    };
    assert_eq!(b.translate_expr(&mut names, &Expr::Class(class)).unwrap(), R0);
    assert_eq!(
        show(&b.bytecode),
        show(&[
            OpCode::LoadThis { result: R0 },
            OpCode::CreateClass { result: R2, class_id: ClassID(0) },
            OpCode::ClassBindSuper { class: R2, super_: R0 },
            OpCode::StoreTemp { value: R2 },
            OpCode::LoadNull { result: R0 },
            OpCode::ReadTemp { value: R2 },
            OpCode::WriteFieldStatic { obj_value: CompactRegister::T2R0, field_id: 0, stack_offset: 0 },
            OpCode::LoadNull { result: R0 },
            OpCode::ReadTemp { value: R2 },
            OpCode::ReadFieldStatic { obj_result: CompactRegister::T2R2, field_id: 2, stack_offset: 0 },
            OpCode::WriteFieldStatic { obj_value: CompactRegister::T2R0, field_id: 1, stack_offset: 0 },
            OpCode::ReadTemp { value: R0 },
            OpCode::LoadThis { result: R2 },
            OpCode::StoreTemp { value: R2 },
            OpCode::SetThis { value: R0 },
            OpCode::Debugger,
            OpCode::ReadTemp { value: R2 },
            OpCode::ReleaseTemp,
            OpCode::SetThis { value: R2 },
            OpCode::ReadTemp { value: R0 },
            OpCode::ReleaseTemp,
        ])
    );
    assert_eq!(b.table.class_count(), 1);
    assert_eq!(b.table.functions().len(), 2);
    assert_eq!(b.table.constructors(), &vec![(ClassID(0), FuncID(0))]);
    let m = &b.table.methods()[0];
    assert_eq!((m.class, m.name.as_str(), m.kind, m.is_static, m.func), (ClassID(0), "m", MethodKind::Getter, false, FuncID(1)));
    let props: Vec<(String, bool)> = b.table.props().iter().map(|p| (p.name.clone(), p.is_static)).collect();
    assert_eq!(props, vec![("s".to_string(), true), ("x".to_string(), false)]);
}

#[test]
fn function_and_class_declarations_bind_their_names() {
    let mut b = function_builder();
    let mut names = DynamicVarNames::new();
    let f = function(vec![Pat::Ident(var(3))], vec![Stmt::Return(Some(Box::new(Expr::Ident(var(3)))))]);
    b.translate_statement(&mut names, None, &Stmt::FnDecl(var(1), f)).unwrap();
    b.translate_statement(&mut names, None, &Stmt::ClassDecl(var(2), Class { super_class: None, body: vec![] }))
        .unwrap();
    assert_eq!(
        show(&b.bytecode),
        show(&[
            OpCode::CreateFunction { result: R0, id: FuncID(0) },
            OpCode::WriteToStack { from: R0, stack_offset: 0 },
            OpCode::CreateClass { result: R2, class_id: ClassID(0) },
            OpCode::StoreTemp { value: R2 },
            OpCode::ReadTemp { value: R0 },
            OpCode::ReleaseTemp,
            OpCode::WriteToStack { from: R0, stack_offset: 1 },
        ])
    );
    let g = &b.table.functions()[0];
    assert_eq!(g.args_len, 1);
    assert!(matches!(g.bytecodes[0], OpCode::ReadParam { index: 0, .. }));
}

#[test]
fn a_nested_function_captures_an_outer_variable() {
    let mut b = function_builder();
    let mut names = DynamicVarNames::new();
    b.translate_statement(&mut names, None, &let_decl(1, Expr::Bool(true))).unwrap();
    let f = function(vec![], vec![Stmt::Return(Some(Box::new(Expr::Ident(var(1)))))]);
    let r = b.translate_expr(&mut names, &Expr::Fn(f)).unwrap();
    assert_eq!(r, R0);
    let n = b.bytecode.len();
    assert!(matches!(b.bytecode[n - 1], OpCode::CreateFunction { result: R0, .. }));
    assert!(b.bytecode[..n - 1].iter().any(|op| matches!(op, OpCode::Capture { .. })));
    let g = &b.table.functions()[0];
    assert!(g.bytecodes.iter().any(|op| matches!(op, OpCode::ReadCapturedVar { .. })));
}

#[test]
fn an_arrow_function_keeps_the_current_this() {
    let mut b = function_builder();
    let mut names = DynamicVarNames::new();
    let arrow = ArrowFunction {
        params: vec![Pat::Ident(var(1))],
        body: ArrowBody::Expr(Box::new(Expr::Ident(var(1)))),
        is_async: true,
        is_generator: false,
    };
    assert_eq!(b.translate_expr(&mut names, &Expr::Arrow(arrow)).unwrap(), R0);
    assert_eq!(
        show(&b.bytecode),
        show(&[OpCode::LoadThis { result: R1 }, OpCode::CreateArrow { result: R0, this: R1, id: FuncID(0) }])
    );
    let g = &b.table.functions()[0];
    assert!(g.is_async);
    assert_eq!(g.args_len, 1);
    assert!(matches!(g.bytecodes[0], OpCode::ReadParam { result: R0, index: 0 }));
    assert!(g.bytecodes.iter().any(|op| matches!(op, OpCode::Return { .. })));
}

#[test]
fn strings_are_numbered_once_and_named_fields_read_statically() {
    let mut b = function_builder();
    let mut names = DynamicVarNames::new();
    b.translate_expr(&mut names, &Expr::Str("hi".to_string())).unwrap();
    b.translate_expr(&mut names, &Expr::Str("yo".to_string())).unwrap();
    b.translate_expr(&mut names, &Expr::Await(Box::new(Expr::Str("hi".to_string())))).unwrap();
    b.translate_expr(&mut names, &Expr::Dot(Box::new(Expr::This), "x".to_string())).unwrap();
    assert_eq!(
        show(&b.bytecode),
        show(&[
            OpCode::LoadStaticString { result: R0, id: StringID(0) },
            OpCode::LoadStaticString { result: R0, id: StringID(1) },
            OpCode::LoadStaticString { result: R0, id: StringID(0) },
            OpCode::LoadThis { result: R0 },
            OpCode::ReadFieldStatic { obj_result: CompactRegister::T0R0, field_id: 0, stack_offset: 0 },
        ])
    );
}

#[test]
fn switch_tests_its_cases_in_order_then_generates_their_bodies() {
    let mut b = function_builder();
    let mut names = DynamicVarNames::new();
    let stmt = Stmt::Switch(
        Box::new(Expr::This),
        vec![
            SwitchCase { test: Some(Expr::Null), cons: vec![Stmt::Debugger] },
            SwitchCase { test: None, cons: vec![] },
            SwitchCase { test: Some(Expr::Bool(true)), cons: vec![] },
        ],
    );
    b.translate_statement(&mut names, None, &stmt).unwrap();
    assert_eq!(
        show(&b.bytecode),
        show(&[
            OpCode::LoadThis { result: R0 },
            OpCode::CreateBlock(Block(0)),
            OpCode::CreateBlock(Block(1)),
            OpCode::LoadNull { result: R0 },
            OpCode::ReadTemp { value: R1 },
            OpCode::EqEqEq { result: R0, left: R0, right: R1 },
            OpCode::JumpIfTrue { value: R0, to: Block(1), line: 0 },
            OpCode::Jump { to: Block(0), line: 0 },
            OpCode::CreateBlock(Block(2)),
            OpCode::LoadTrue { result: R0 },
            OpCode::ReadTemp { value: R1 },
            OpCode::EqEqEq { result: R0, left: R0, right: R1 },
            OpCode::JumpIfTrue { value: R0, to: Block(2), line: 0 },
            OpCode::Jump { to: Block(0), line: 0 },
            OpCode::SwitchToBlock(Block(1)),
            OpCode::Debugger,
            OpCode::Jump { to: Block(0), line: 0 },
            OpCode::SwitchToBlock(Block(2)),
            OpCode::Jump { to: Block(0), line: 0 },
            OpCode::SwitchToBlock(Block(0)),
        ])
    );
}
