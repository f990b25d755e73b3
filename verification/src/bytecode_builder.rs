use std::collections::VecDeque;
use std::ops::Range;
use std::sync::Arc;

use vstd::prelude::*;

use crate::bultins::function::JSFunction;
use crate::ast::{
    ArrowBody, ArrowFunction, BinaryOp, Class, ClassMember, Expr, ExprOrSpread, Function, MetaPropKind, MethodKind, Pat, Stmt, SwitchCase, UnaryOp, UpdateOp, VarDeclKind,
};
use crate::bytecodes::{compact_of, Block, CompactRegister, DeclareKind, OpCode, Register};
use crate::bultins::object_property::{lemma_register_name_contains, spec_register_name};
use crate::ids::{ClassID, FuncID, StringID};
use crate::error::{Error, ErrorView};
use crate::text::str_equal;
use crate::function_builder_context::{
    collect_need_done, current, global_frames, set_current, spec_declare, spec_get, spec_need_done, spec_set, with_block_scope,
    with_function_scope, DynamicName, DynamicVarNames, FrameView, FunctionBuilderContext,
};
use crate::optimize::{optimize, optimize_defined, spec_optimize};
use crate::code_table::{empty_table, CodeTable, CodeTableView, FunctionView};

verus! {

broadcast use {vstd::string::group_string_axioms, vstd::std_specs::vecdeque::group_vec_dequeue_axioms};

/// A loop being generated: its label, the block after it, and the block a
/// `continue` jumps to.
struct Loop {
    label: Option<String>,
    exit: Block,
    continue_: Block,
}

/// The model of a loop of the loop stack.
pub struct LoopView {
    pub label: Option<Seq<char>>,
    pub exit: Block,
    pub continue_: Block,
}

impl View for Loop {
    type V = LoopView;

    closed spec fn view(&self) -> LoopView {
        LoopView {
            label: match self.label {
                Some(s) => Some(s@),
                None => None,
            },
            exit: self.exit,
            continue_: self.continue_,
        }
    }
}

/// The model of a function builder: the function's kind, its scope chain,
/// the stack of enclosing loops (innermost first), the number of blocks
/// created, the scratch registers, the catch block, and the code so far.
pub struct FunctionBuilderView {
    pub is_async: bool,
    pub is_generator: bool,
    pub args_len: u32,
    pub ctx: Seq<FrameView>,
    pub loops: Seq<LoopView>,
    pub block_count: u32,
    pub r1: Register,
    pub r2: Register,
    pub r3: Register,
    pub catch_block: Option<Block>,
    pub bytecode: Seq<OpCode>,
    pub table: CodeTableView,
}

/// Generates the bytecode of one function.
pub struct FunctionBuilder {
    is_async: bool,
    is_generator: bool,
    args_len: u32,
    pub ctx: FunctionBuilderContext,
    loops: VecDeque<Loop>,
    block_count: u32,
    r1: Register,
    r2: Register,
    r3: Register,
    catch_block: Option<Block>,
    pub bytecode: Vec<OpCode>,
    /// The runtime's tables, which this builder and the builders of the
    /// functions nested in it fill.
    pub table: CodeTable,
}

impl View for FunctionBuilder {
    type V = FunctionBuilderView;

    closed spec fn view(&self) -> FunctionBuilderView {
        FunctionBuilderView {
            is_async: self.is_async,
            is_generator: self.is_generator,
            args_len: self.args_len,
            ctx: self.ctx@,
            loops: self.loops@.map_values(|l: Loop| l@),
            block_count: self.block_count,
            r1: self.r1,
            r2: self.r2,
            r3: self.r3,
            catch_block: self.catch_block,
            bytecode: self.bytecode@,
            table: self.table@,
        }
    }
}

/// A builder that has generated nothing yet, in the scope chain `ctx`, with
/// the tables `table`.
pub open spec fn initial_view(
    ctx: Seq<FrameView>,
    table: CodeTableView,
    is_async: bool,
    is_generator: bool,
) -> FunctionBuilderView {
    FunctionBuilderView {
        is_async,
        is_generator,
        args_len: 0,
        ctx,
        loops: seq![],
        block_count: 0,
        r1: Register(0),
        r2: Register(1),
        r3: Register(2),
        catch_block: None,
        bytecode: seq![],
        table,
    }
}

/// The model of a builder after `op` is emitted.
pub open spec fn emit(v: FunctionBuilderView, op: OpCode) -> FunctionBuilderView {
    FunctionBuilderView { bytecode: v.bytecode.push(op), ..v }
}

/// A builder after a new block is created, and the block.
pub open spec fn spec_create_block(v: FunctionBuilderView) -> (FunctionBuilderView, Block) {
    let b = Block(v.block_count as u16);
    (FunctionBuilderView { block_count: (v.block_count + 1) as u32, ..emit(v, OpCode::CreateBlock(b)) }, b)
}

/// A builder after a loop is entered, with the loop's header and exit
/// blocks.
pub open spec fn spec_start_loop(v: FunctionBuilderView, label: Option<Seq<char>>) -> (
    FunctionBuilderView,
    Block,
    Block,
) {
    let (v1, exit) = spec_create_block(v);
    let (v2, header) = spec_create_block(v1);
    let v3 = FunctionBuilderView {
        loops: seq![LoopView { label, exit, continue_: header }] + v2.loops,
        ..v2
    };
    (emit(emit(v3, OpCode::Jump { to: header, line: 0 }), OpCode::SwitchToBlock(header)), header, exit)
}

/// A builder after the innermost loop is left.
pub open spec fn spec_end_loop(v: FunctionBuilderView) -> FunctionBuilderView {
    let l = v.loops[0];
    let v1 = FunctionBuilderView { loops: v.loops.drop_first(), ..v };
    emit(emit(v1, OpCode::Jump { to: l.exit, line: 0 }), OpCode::SwitchToBlock(l.exit))
}

/// The innermost loop of `loops` that carries the label `name`.
pub open spec fn labeled_loop(loops: Seq<LoopView>, name: Seq<char>) -> Option<int>
    decreases loops.len(),
{
    if loops.len() == 0 {
        None
    } else if loops[0].label == Some(name) {
        Some(0)
    } else {
        match labeled_loop(loops.drop_first(), name) {
            Some(i) => Some(i + 1),
            None => None,
        }
    }
}

/// The labeled loop found is one of `loops` and carries the label.
pub proof fn lemma_labeled_loop_found(loops: Seq<LoopView>, name: Seq<char>)
    ensures
        labeled_loop(loops, name) matches Some(i) ==> 0 <= i < loops.len() && loops[i].label == Some(name),
    decreases loops.len(),
{
    if loops.len() > 0 && loops[0].label != Some(name) {
        lemma_labeled_loop_found(loops.drop_first(), name);
    }
}

/// The loop that a `break` or `continue` with `label` leaves: the labeled
/// loop, or without a label the innermost one.
pub open spec fn target_loop(loops: Seq<LoopView>, label: Option<Seq<char>>) -> Option<int> {
    match label {
        Some(name) => labeled_loop(loops, name),
        None => if loops.len() > 0 {
            Some(0)
        } else {
            None
        },
    }
}

/// The label a `break` or `continue` carries, as characters.
pub open spec fn label_view(label: Option<&str>) -> Option<Seq<char>> {
    match label {
        Some(l) => Some(l@),
        None => None,
    }
}

/// The code of a finished function: the code so far, the implicit
/// `return undefined`, and the captures still to be emitted.
pub open spec fn finished_code(v: FunctionBuilderView) -> Seq<OpCode> {
    v.bytecode.push(OpCode::LoadUndefined { result: v.r1 }).push(OpCode::Return { value: v.r1 })
        + spec_need_done(v.ctx).1
}

/// Collecting captures from scope `k` downwards leaves the scopes above `k`
/// as they are.
proof fn lemma_collect_keeps(frames: Seq<FrameView>, k: int)
    ensures
        collect_need_done(frames, k).0.len() == frames.len(),
        forall|j: int| k < j < frames.len() ==> #[trigger] collect_need_done(frames, k).0[j] == frames[j],
    decreases k + 1,
{
    if k < 0 || k >= frames.len() || frames[k].is_global {
    } else {
        let f1 = frames.update(k, FrameView { need_done: seq![], ..frames[k] });
        if !frames[k].is_function {
            lemma_collect_keeps(f1, k - 1);
        }
    }
}

/// Collecting captures a second time from the same scope finds none and
/// changes nothing.
proof fn lemma_collect_twice(frames: Seq<FrameView>, k: int)
    ensures
        collect_need_done(collect_need_done(frames, k).0, k) == (collect_need_done(frames, k).0, Seq::<OpCode>::empty()),
    decreases k + 1,
{
    if k < 0 || k >= frames.len() || frames[k].is_global {
    } else {
        let f1 = frames.update(k, FrameView { need_done: seq![], ..frames[k] });
        let f2 = collect_need_done(frames, k).0;
        if frames[k].is_function {
            assert(f2.update(k, FrameView { need_done: seq![], ..f2[k] }) =~= f2);
        } else {
            lemma_collect_keeps(f1, k - 1);
            lemma_collect_twice(f1, k - 1);
            assert(f2[k] == f1[k]);
            assert(f2.update(k, FrameView { need_done: seq![], ..f2[k] }) =~= f2);
            assert(Seq::<OpCode>::empty() + Seq::<OpCode>::empty() =~= Seq::<OpCode>::empty());
        }
    }
}

/// Taking the pending captures twice in a row: the second time there are
/// none, and the scope chain stays as the first time left it.
pub proof fn lemma_need_done_twice(frames: Seq<FrameView>)
    requires
        frames.len() > 0,
    ensures
        spec_need_done(spec_need_done(frames).0) == (spec_need_done(frames).0, Seq::<OpCode>::empty()),
{
    let c = current(frames);
    let f1 = set_current(frames, FrameView { need_done: seq![], ..c });
    let g = spec_need_done(frames).0;
    if c.is_function || c.is_global {
        assert(set_current(g, FrameView { need_done: seq![], ..current(g) }) =~= g);
    } else {
        lemma_collect_keeps(f1, frames.len() - 2);
        lemma_collect_twice(f1, frames.len() - 2);
        assert(current(g) == current(f1));
        assert(set_current(g, FrameView { need_done: seq![], ..current(g) }) =~= g);
        assert(Seq::<OpCode>::empty() + Seq::<OpCode>::empty() =~= Seq::<OpCode>::empty());
    }
}

/// `do body while (test)`: right after the code of the test, which follows
/// the body's, comes a jump to the loop's exit block taken when the test's
/// value is false, then a jump back to the loop's header; so the loop
/// repeats while the test holds. The exit and header are the two blocks the
/// loop creates first.
pub proof fn law_do_while_leaves_when_the_test_fails(
    v: FunctionBuilderView,
    n: Seq<DynamicName>,
    label: Option<Seq<char>>,
    body: Stmt,
    test: Expr,
)
    requires
        spec_translate_statement(v, n, label, Stmt::DoWhile(Box::new(body), Box::new(test))) matches Some(
            (_, _, Ok(())),
        ),
    ensures
        ({
            let exit = Block(v.block_count as u16);
            let header = Block((v.block_count + 1) as u16);
            let v1 = spec_start_loop(v, label).0;
            let (v2, n2, _) = spec_translate_statement(open_scope(v1), n, None, body)->0;
            let (v3, _, t) = spec_translate_expr(v2, n2, test)->0;
            let (w, _, _) = spec_translate_statement(v, n, label, Stmt::DoWhile(Box::new(body), Box::new(test)))->0;
            let out = w.bytecode;
            &&& out.len() == v3.bytecode.len() + 4
            &&& out.subrange(0, v3.bytecode.len() as int) == v3.bytecode
            &&& t matches Ok(r) && out[v3.bytecode.len() as int] == OpCode::JumpIfFalse { value: r, to: exit, line: 0 }
            &&& out[v3.bytecode.len() + 1int] == OpCode::Jump { to: header, line: 0 }
        }),
{
    let v1 = spec_start_loop(v, label).0;
    let (v2, n2, _) = spec_translate_statement(open_scope(v1), n, None, body)->0;
    let (v3, _, t) = spec_translate_expr(v2, n2, test)->0;
    let (w, _, _) = spec_translate_statement(v, n, label, Stmt::DoWhile(Box::new(body), Box::new(test)))->0;
    let out = w.bytecode;
    assert(out.subrange(0, v3.bytecode.len() as int) =~= v3.bytecode);
}

/// `while (test) body`: the test is computed in the loop's header, then a
/// jump to the loop's exit block taken when its value is false; the body
/// follows, then a jump back to the header, and generation continues in the
/// exit block. The exit and header are the two blocks the loop creates
/// first.
pub proof fn law_while_leaves_when_the_test_fails(
    v: FunctionBuilderView,
    n: Seq<DynamicName>,
    label: Option<Seq<char>>,
    test: Expr,
    body: Stmt,
)
    requires
        spec_translate_statement(v, n, label, Stmt::While(Box::new(test), Box::new(body))) matches Some(
            (_, _, Ok(())),
        ),
    ensures
        ({
            let exit = Block(v.block_count as u16);
            let header = Block((v.block_count + 1) as u16);
            let v1 = spec_start_loop(v, label).0;
            let (v2, n2, t) = spec_translate_expr(open_scope(v1), n, test)->0;
            let (w, _, _) = spec_translate_statement(v, n, label, Stmt::While(Box::new(test), Box::new(body)))->0;
            t matches Ok(r) && ({
                let (v4, _, _) = spec_translate_statement(
                    emit(v2, OpCode::JumpIfFalse { value: r, to: exit, line: 0 }),
                    n2,
                    None,
                    body,
                )->0;
                &&& w.bytecode.len() == v4.bytecode.len() + 3
                &&& w.bytecode.subrange(0, v4.bytecode.len() as int) == v4.bytecode
                &&& w.bytecode[v4.bytecode.len() as int] == OpCode::Jump { to: header, line: 0 }
            })
        }),
{
    let v1 = spec_start_loop(v, label).0;
    let (v2, n2, t) = spec_translate_expr(open_scope(v1), n, test)->0;
    let (w, _, _) = spec_translate_statement(v, n, label, Stmt::While(Box::new(test), Box::new(body)))->0;
    if let Ok(r) = t {
        let (v4, _, _) = spec_translate_statement(
            emit(v2, OpCode::JumpIfFalse { value: r, to: exit_block(v), line: 0 }),
            n2,
            None,
            body,
        )->0;
        assert(w.bytecode.subrange(0, v4.bytecode.len() as int) =~= v4.bytecode);
    }
}

/// The exit block of a loop entered in builder `v`.
spec fn exit_block(v: FunctionBuilderView) -> Block {
    Block(v.block_count as u16)
}

/// `if (test) cons` without an `else`: after the test, a jump to the first
/// block created taken when the test's value is true, else a jump to the
/// second, the exit; the consequent is generated in the first block, then
/// joins the exit.
pub proof fn law_if_enters_when_the_test_holds(v: FunctionBuilderView, n: Seq<DynamicName>, label: Option<Seq<char>>, test: Expr, cons: Stmt)
    requires
        spec_translate_statement(v, n, label, Stmt::If(Box::new(test), Box::new(cons), None)) matches Some(
            (_, _, Ok(())),
        ),
    ensures
        ({
            let cond = Block(v.block_count as u16);
            let exit = Block((v.block_count + 1) as u16);
            let v2 = spec_create_block(spec_create_block(v).0).0;
            let (v3, n3, t) = spec_translate_expr(v2, n, test)->0;
            let (w, _, _) = spec_translate_statement(v, n, label, Stmt::If(Box::new(test), Box::new(cons), None))->0;
            t matches Ok(r) && ({
                let entered = emit(
                    emit(emit(v3, OpCode::JumpIfTrue { value: r, to: cond, line: 0 }), OpCode::Jump { to: exit, line: 0 }),
                    OpCode::SwitchToBlock(cond),
                );
                let (v8, _, _) = spec_translate_statement(open_scope(entered), n3, None, cons)->0;
                w.bytecode == v8.bytecode + seq![OpCode::Jump { to: exit, line: 0 }, OpCode::SwitchToBlock(exit)]
            })
        }),
{
    let v2 = spec_create_block(spec_create_block(v).0).0;
    let (v3, n3, t) = spec_translate_expr(v2, n, test)->0;
    if let Ok(r) = t {
        let entered = emit(
            emit(
                emit(v3, OpCode::JumpIfTrue { value: r, to: Block(v.block_count as u16), line: 0 }),
                OpCode::Jump { to: Block((v.block_count + 1) as u16), line: 0 },
            ),
            OpCode::SwitchToBlock(Block(v.block_count as u16)),
        );
        let (v8, _, _) = spec_translate_statement(open_scope(entered), n3, None, cons)->0;
        let (w, _, _) = spec_translate_statement(v, n, label, Stmt::If(Box::new(test), Box::new(cons), None))->0;
        assert(w.bytecode =~= v8.bytecode + seq![
            OpCode::Jump { to: Block((v.block_count + 1) as u16), line: 0 },
            OpCode::SwitchToBlock(Block((v.block_count + 1) as u16)),
        ]);
    }
}

/// A binary operator whose operands are not both identifiers and whose
/// right operand is not a boolean literal: the left operand's code, its
/// value kept in a temporary slot while the right operand's code runs, then
/// the left value read back into the third scratch register and the
/// operator's instruction on the two, its result in the first; the slot is
/// released. `>=` is emitted as an addition.
pub proof fn law_binary_operators(v: FunctionBuilderView, n: Seq<DynamicName>, op: BinaryOp, l: Expr, r: Expr)
    requires
        !(l is Ident && r is Ident),
        !(r is Bool),
        spec_translate_expr(v, n, Expr::Bin(op, Box::new(l), Box::new(r))) matches Some((_, _, Ok(_))),
    ensures
        ({
            let (v1, n1, a) = spec_translate_expr(v, n, l)->0;
            let (w, _, res) = spec_translate_expr(v, n, Expr::Bin(op, Box::new(l), Box::new(r)))->0;
            a matches Ok(lhs) && ({
                let (v3, _, b) = spec_translate_expr(emit(v1, OpCode::StoreTemp { value: lhs }), n1, r)->0;
                b matches Ok(rr) && ({
                    let (x, y, z) = (v3.r1, v3.r3, rr);
                    let code = match op {
                        BinaryOp::Add => OpCode::Add { result: x, left: y, right: z },
                        BinaryOp::BitAnd => OpCode::BitAnd { result: x, left: y, right: z },
                        BinaryOp::BitOr => OpCode::BitOr { result: x, left: y, right: z },
                        BinaryOp::BitXor => OpCode::BitXor { result: x, left: y, right: z },
                        BinaryOp::Div => OpCode::Div { result: x, left: y, right: z },
                        BinaryOp::EqEq => OpCode::EqEq { result: x, left: y, right: z },
                        BinaryOp::EqEqEq => OpCode::EqEqEq { result: x, left: y, right: z },
                        BinaryOp::Exp => OpCode::Exp { result: x, left: y, right: z },
                        BinaryOp::Gt => OpCode::Gt { result: x, left: y, right: z },
                        BinaryOp::GtEq => OpCode::Add { result: x, left: y, right: z },
                        BinaryOp::In => OpCode::In { result: x, left: y, right: z },
                        BinaryOp::InstanceOf => OpCode::InstanceOf { result: x, left: y, right: z },
                        BinaryOp::LShift => OpCode::LShift { result: x, left: y, right: z },
                        BinaryOp::LogicalAnd => OpCode::And { result: x, left: y, right: z },
                        BinaryOp::LogicalOr => OpCode::Or { result: x, left: y, right: z },
                        BinaryOp::Lt => OpCode::Lt { result: x, left: y, right: z },
                        BinaryOp::LtEq => OpCode::LtEq { result: x, left: y, right: z },
                        BinaryOp::Mod => OpCode::Rem { result: x, left: y, right: z },
                        BinaryOp::Mul => OpCode::Mul { result: x, left: y, right: z },
                        BinaryOp::NotEq => OpCode::NotEq { result: x, left: y, right: z },
                        BinaryOp::NotEqEq => OpCode::NotEqEq { result: x, left: y, right: z },
                        BinaryOp::NullishCoalescing => OpCode::Nullish { result: x, left: y, right: z },
                        BinaryOp::RShift => OpCode::RShift { result: x, left: y, right: z },
                        BinaryOp::Sub => OpCode::Sub { result: x, left: y, right: z },
                        BinaryOp::ZeroFillRShift => OpCode::ZeroFillRShift { result: x, left: y, right: z },
                    };
                    &&& w.bytecode == v3.bytecode + seq![OpCode::ReadTemp { value: y }, code, OpCode::ReleaseTemp]
                    &&& res == Ok::<Register, ErrorView>(x)
                })
            })
        }),
{
    let (v1, n1, a) = spec_translate_expr(v, n, l)->0;
    if let Ok(lhs) = a {
        let (v3, _, b) = spec_translate_expr(emit(v1, OpCode::StoreTemp { value: lhs }), n1, r)->0;
        let (w, _, _) = spec_translate_expr(v, n, Expr::Bin(op, Box::new(l), Box::new(r)))->0;
        if let Ok(rr) = b {
            assert(w.bytecode =~= v3.bytecode + seq![
                OpCode::ReadTemp { value: v3.r3 },
                bin_instruction(op, v3.r1, v3.r3, rr),
                OpCode::ReleaseTemp,
            ]);
        }
    }
}

/// `++x`, `x++`, `--x`, `x--` on a variable: after reading it, the constant
/// one (bit pattern of the single-precision `1.0`) is loaded into the
/// second scratch register and added (`++`) or subtracted (`--`) into the
/// third; the sum is written back to the variable; the result is the new
/// value for a prefix update, the old one for a postfix one.
pub proof fn law_update_of_a_variable(v: FunctionBuilderView, n: Seq<DynamicName>, op: UpdateOp, prefix: bool, x: crate::function_builder_context::VarName)
    requires
        spec_translate_expr(v, n, Expr::Update(op, prefix, Box::new(Expr::Ident(x)))) matches Some((_, _, Ok(_))),
    ensures
        ({
            let (v1, n1, a) = spec_translate_expr(v, n, Expr::Ident(x))->0;
            let (w, _, _) = spec_translate_expr(v, n, Expr::Update(op, prefix, Box::new(Expr::Ident(x))))->0;
            a matches Ok(value) && ({
                let one = emit(v1, OpCode::LoadStaticFloat32 { result: v1.r2, value: 0x3f80_0000u32 });
                let sum = emit(one, match op {
                    UpdateOp::PlusPlus => OpCode::Add { result: v1.r3, left: value, right: v1.r2 },
                    UpdateOp::MinusMinus => OpCode::Sub { result: v1.r3, left: value, right: v1.r2 },
                });
                spec_set_var(sum, n1, x, v1.r3) matches Some((v4, _)) && w.bytecode == v4.bytecode.push(
                    OpCode::Mov { from: if prefix { v1.r3 } else { value }, to: v1.r1 },
                )
            })
        }),
{
}

/// A function compiled successfully is the last one registered, and is
/// given its position as number.
proof fn lemma_compiled_function_is_last(v: FunctionBuilderView, n: Seq<DynamicName>, f: Function, always: bool)
    ensures
        spec_compile_function(v, n, f, always) matches Some((w, _, Ok(id))) ==> w.table.functions.len() > 0
            && id == FuncID((w.table.functions.len() - 1) as u32),
{
    if v.ctx.len() > 0 {
        let child = initial_view(with_function_scope(v.ctx), v.table, f.is_async, f.is_generator);
        let built = if always || f.body is Some {
            spec_build_function(child, n, f)
        } else {
            Some((child, n, Ok(())))
        };
        if let Some((c, n1, Ok(()))) = built {
            if let Some((v1, id)) = spec_adopt_finished(v, c) {
                assert(v1.table.functions.len() == c.table.functions.len() + 1);
            }
        }
    }
}

/// A constructor of class `cid` is bound to the function compiled for it,
/// the last one registered.
pub proof fn law_class_constructor_binding(v: FunctionBuilderView, n: Seq<DynamicName>, cid: ClassID, f: Function)
    requires
        spec_class_member(v, n, cid, ClassMember::Constructor(f)) matches Some((_, _, Ok(()))),
    ensures
        ({
            let (w, _, _) = spec_class_member(v, n, cid, ClassMember::Constructor(f))->0;
            &&& w.table.functions.len() > 0
            &&& w.table.constructors.len() > 0
            &&& w.table.constructors.last() == (cid, FuncID((w.table.functions.len() - 1) as u32))
        }),
{
    lemma_compiled_function_is_last(v, n, f, false);
    let (v1, n1, r) = spec_compile_function(v, n, f, false)->0;
    assert(r is Ok);
}

/// A property of class `cid` without an initial value is declared with its
/// name and staticness, its name registered as a property name; no code is
/// emitted.
pub proof fn law_class_property_declaration(
    v: FunctionBuilderView,
    n: Seq<DynamicName>,
    cid: ClassID,
    name: String,
    is_static: bool,
)
    requires
        spec_class_member(v, n, cid, ClassMember::Prop { name, is_static, value: None }) matches Some((_, _, Ok(()))),
    ensures
        ({
            let (w, _, _) = spec_class_member(v, n, cid, ClassMember::Prop { name, is_static, value: None })->0;
            &&& w.table.props == v.table.props.push((cid, name@, is_static))
            &&& w.table.fields.contains(name@)
            &&& w.bytecode == v.bytecode
        }),
{
    let (w, _, _) = spec_class_member(v, n, cid, ClassMember::Prop { name, is_static, value: None })->0;
    lemma_register_name_contains(v.table.fields, name@);
}

/// `break` and `continue`, with or without a label: a jump to the exit
/// (`break`) or the header (`continue`) of the loop they leave, the
/// innermost one or the one with the label; where there is none, nothing is
/// emitted and the error names the missing label, or is an illegal
/// `break` without one.
pub proof fn law_break_and_continue(v: FunctionBuilderView, n: Seq<DynamicName>, label: Option<Seq<char>>, l: Option<String>)
    ensures
        spec_translate_statement(v, n, label, Stmt::Break(l)) == match target_loop(v.loops, string_label(l)) {
            Some(i) => Some((emit(v, OpCode::Jump { to: v.loops[i].exit, line: 0 }), n, Ok::<(), ErrorView>(()))),
            None => Some((v, n, Err(jump_error(l)))),
        },
        spec_translate_statement(v, n, label, Stmt::Continue(l)) == match target_loop(v.loops, string_label(l)) {
            Some(i) => Some((emit(v, OpCode::Jump { to: v.loops[i].continue_, line: 0 }), n, Ok::<(), ErrorView>(()))),
            None => Some((v, n, Err(jump_error(l)))),
        },
        jump_error(l) == match l {
            Some(s) => ErrorView::LabelUndefined(s@),
            None => ErrorView::IllegalBreak,
        },
{
}

/// `return e` is the code of `e` then a return of its register; a bare
/// `return` returns `undefined`; `throw e` is the code of `e` then a throw
/// of its register.
pub proof fn law_return_and_throw(v: FunctionBuilderView, n: Seq<DynamicName>, label: Option<Seq<char>>, e: Expr)
    requires
        spec_translate_expr(v, n, e) matches Some((_, _, Ok(_))),
    ensures
        ({
            let (v1, n1, a) = spec_translate_expr(v, n, e)->0;
            let r = a->Ok_0;
            &&& spec_translate_statement(v, n, label, Stmt::Return(Some(Box::new(e)))) == Some(
                (emit(v1, OpCode::Return { value: r }), n1, Ok::<(), ErrorView>(())),
            )
            &&& spec_translate_statement(v, n, label, Stmt::Throw(Box::new(e))) == Some(
                (emit(v1, OpCode::Throw { value: r }), n1, Ok::<(), ErrorView>(())),
            )
        }),
        spec_translate_statement(v, n, label, Stmt::Return(None)) == Some(
            (
                emit(emit(v, OpCode::LoadUndefined { result: v.r1 }), OpCode::Return { value: v.r1 }),
                n,
                Ok::<(), ErrorView>(()),
            ),
        ),
{
}

/// `test ? a : b`: the test and the first branch are kept in temporary
/// slots while the second branch is computed; its value goes to the third
/// scratch register, the first branch's to the second, the test's to the
/// first, and a conditional select of the two branches on the test gives
/// the result.
pub proof fn law_conditional_expression(v: FunctionBuilderView, n: Seq<DynamicName>, t: Expr, a: Expr, b: Expr)
    requires
        spec_translate_expr(v, n, Expr::Cond(Box::new(t), Box::new(a), Box::new(b))) matches Some((_, _, Ok(_))),
    ensures
        ({
            let (v1, n1, x) = spec_translate_expr(v, n, t)->0;
            let (w, _, res) = spec_translate_expr(v, n, Expr::Cond(Box::new(t), Box::new(a), Box::new(b)))->0;
            x matches Ok(tt) && ({
                let (v3, n3, y) = spec_translate_expr(emit(v1, OpCode::StoreTemp { value: tt }), n1, a)->0;
                y matches Ok(aa) && ({
                    let (v5, _, z) = spec_translate_expr(emit(v3, OpCode::StoreTemp { value: aa }), n3, b)->0;
                    z matches Ok(bb) && w.bytecode == v5.bytecode + seq![
                        OpCode::Mov { from: bb, to: v5.r3 },
                        OpCode::ReadTemp { value: v5.r2 },
                        OpCode::ReleaseTemp,
                        OpCode::ReadTemp { value: v5.r1 },
                        OpCode::ReleaseTemp,
                        OpCode::CondSelect { t: v5.r1, a: v5.r2, b: v5.r3, result: v5.r1 },
                    ] && res == Ok::<Register, ErrorView>(v5.r1)
                })
            })
        }),
{
    let (v1, n1, x) = spec_translate_expr(v, n, t)->0;
    if let Ok(tt) = x {
        let (v3, n3, y) = spec_translate_expr(emit(v1, OpCode::StoreTemp { value: tt }), n1, a)->0;
        if let Ok(aa) = y {
            let (v5, _, z) = spec_translate_expr(emit(v3, OpCode::StoreTemp { value: aa }), n3, b)->0;
            let (w, _, _) = spec_translate_expr(v, n, Expr::Cond(Box::new(t), Box::new(a), Box::new(b)))->0;
            if let Ok(bb) = z {
                assert(w.bytecode =~= v5.bytecode + seq![
                    OpCode::Mov { from: bb, to: v5.r3 },
                    OpCode::ReadTemp { value: v5.r2 },
                    OpCode::ReleaseTemp,
                    OpCode::ReadTemp { value: v5.r1 },
                    OpCode::ReleaseTemp,
                    OpCode::CondSelect { t: v5.r1, a: v5.r2, b: v5.r3, result: v5.r1 },
                ]);
            }
        }
    }
}

/// A `switch` case with a test: a new block is created for it, the test's
/// value is compared for strict equality with the value read from the
/// current temporary slot into the second scratch register, and the block
/// is entered when they are equal; the block is listed first.
pub proof fn law_switch_case_test(v: FunctionBuilderView, n: Seq<DynamicName>, cases: Seq<SwitchCase>, i: int, exit: Block)
    requires
        0 <= i < cases.len(),
        cases[i].test is Some,
        spec_switch_tests(v, n, cases, i, exit) matches Some((_, _, Ok(_))),
    ensures
        ({
            let b = Block(v.block_count as u16);
            let v1 = spec_create_block(v).0;
            let (v2, n2, c) = spec_translate_expr(v1, n, cases[i].test->0)->0;
            c matches Ok(cv) && spec_switch_tests(v, n, cases, i, exit) == prepend_blocks(
                seq![b],
                spec_switch_tests(
                    emit(
                        emit(
                            emit(v2, OpCode::ReadTemp { value: v2.r2 }),
                            OpCode::EqEqEq { result: v2.r1, left: cv, right: v2.r2 },
                        ),
                        OpCode::JumpIfTrue { value: v2.r1, to: b, line: 0 },
                    ),
                    n2,
                    cases,
                    i + 1,
                    exit,
                ),
            )
        }),
{
}

/// A function expression: the function is compiled and registered last,
/// then one instruction creates it, from its number, into the first scratch
/// register, which is the result.
pub proof fn law_function_expression(v: FunctionBuilderView, n: Seq<DynamicName>, f: Function)
    requires
        spec_translate_expr(v, n, Expr::Fn(f)) matches Some((_, _, Ok(_))),
    ensures
        ({
            let (v1, n1, _) = spec_compile_function(v, n, f, true)->0;
            let (w, m, r) = spec_translate_expr(v, n, Expr::Fn(f))->0;
            &&& v1.table.functions.len() > 0
            &&& w.bytecode == v1.bytecode.push(
                OpCode::CreateFunction { result: v1.r1, id: FuncID((v1.table.functions.len() - 1) as u32) },
            )
            &&& w.table == v1.table
            &&& m == n1
            &&& r == Ok::<Register, ErrorView>(v1.r1)
        }),
{
    lemma_compiled_function_is_last(v, n, f, true);
}

/// A function compiled for an arrow function successfully is the last one
/// registered.
proof fn lemma_compiled_arrow_is_last(v: FunctionBuilderView, n: Seq<DynamicName>, a: ArrowFunction)
    ensures
        spec_compile_arrow(v, n, a) matches Some((w, _, Ok(id))) ==> w.table.functions.len() > 0
            && id == FuncID((w.table.functions.len() - 1) as u32),
{
    if v.ctx.len() > 0 {
        let child = initial_view(with_function_scope(v.ctx), v.table, a.is_async, a.is_generator);
        if let Some((c, n1, Ok(()))) = spec_build_arrow(child, n, a) {
            if let Some((v1, id)) = spec_adopt_finished(v, c) {
                assert(v1.table.functions.len() == c.table.functions.len() + 1);
            }
        }
    }
}

/// An arrow function: it is compiled and registered last, the current
/// `this` is loaded into the second scratch register, and the arrow is
/// created from its number with that `this`, into the first scratch
/// register, which is the result.
pub proof fn law_arrow_expression(v: FunctionBuilderView, n: Seq<DynamicName>, a: ArrowFunction)
    requires
        spec_translate_expr(v, n, Expr::Arrow(a)) matches Some((_, _, Ok(_))),
    ensures
        ({
            let (v1, _, _) = spec_compile_arrow(v, n, a)->0;
            let (w, _, r) = spec_translate_expr(v, n, Expr::Arrow(a))->0;
            &&& v1.table.functions.len() > 0
            &&& w.bytecode == v1.bytecode + seq![
                OpCode::LoadThis { result: v1.r2 },
                OpCode::CreateArrow {
                    result: v1.r1,
                    this: v1.r2,
                    id: FuncID((v1.table.functions.len() - 1) as u32),
                },
            ]
            &&& r == Ok::<Register, ErrorView>(v1.r1)
        }),
{
    lemma_compiled_arrow_is_last(v, n, a);
    let (v1, _, _) = spec_compile_arrow(v, n, a)->0;
    let (w, _, r) = spec_translate_expr(v, n, Expr::Arrow(a))->0;
    assert(w.bytecode =~= v1.bytecode + seq![
        OpCode::LoadThis { result: v1.r2 },
        OpCode::CreateArrow { result: v1.r1, this: v1.r2, id: FuncID((v1.table.functions.len() - 1) as u32) },
    ]);
}

/// A class without a super class: a new class is registered, numbered by
/// the classes before it; it is created in the third scratch register and
/// kept in a temporary slot while the members are generated, then read
/// back into the first scratch register, the result.
pub proof fn law_class_without_super(v: FunctionBuilderView, n: Seq<DynamicName>, body: Vec<ClassMember>)
    requires
        spec_translate_class(v, n, Class { super_class: None, body }) matches Some((_, _, Ok(_))),
    ensures
        ({
            let cid = ClassID(v.table.class_count as u32);
            let v0 = with_table(v, CodeTableView { class_count: v.table.class_count + 1, ..v.table });
            let v5 = emit(
                emit(v0, OpCode::CreateClass { result: v0.r3, class_id: cid }),
                OpCode::StoreTemp { value: v0.r3 },
            );
            let (w, _, r) = spec_translate_class(v, n, Class { super_class: None, body })->0;
            let (v6, _, _) = spec_class_members(v5, n, cid, body@, 0)->0;
            &&& w.bytecode == v6.bytecode + seq![OpCode::ReadTemp { value: v6.r1 }, OpCode::ReleaseTemp]
            &&& w.table.class_count == v6.table.class_count
            &&& r == Ok::<Register, ErrorView>(v6.r1)
        }),
{
    let cid = ClassID(v.table.class_count as u32);
    let v0 = with_table(v, CodeTableView { class_count: v.table.class_count + 1, ..v.table });
    let v5 = emit(emit(v0, OpCode::CreateClass { result: v0.r3, class_id: cid }), OpCode::StoreTemp { value: v0.r3 });
    let (w, _, r) = spec_translate_class(v, n, Class { super_class: None, body })->0;
    let (v6, _, _) = spec_class_members(v5, n, cid, body@, 0)->0;
    assert(w.bytecode =~= v6.bytecode + seq![OpCode::ReadTemp { value: v6.r1 }, OpCode::ReleaseTemp]);
}

/// A class with a super class: after the super class is computed (and
/// moved into the first scratch register when it is elsewhere), the class
/// is created in the third scratch register and bound to the super class in
/// the first before its members are generated.
pub proof fn law_class_binds_its_super_class(v: FunctionBuilderView, n: Seq<DynamicName>, s: Expr, body: Vec<ClassMember>)
    requires
        spec_translate_class(v, n, Class { super_class: Some(Box::new(s)), body }) matches Some((_, _, Ok(_))),
    ensures
        ({
            let cid = ClassID(v.table.class_count as u32);
            let v0 = with_table(v, CodeTableView { class_count: v.table.class_count + 1, ..v.table });
            let (v1, n1, x) = spec_translate_expr(v0, n, s)->0;
            x matches Ok(i) && ({
                let v2 = if i != v1.r1 {
                    emit(v1, OpCode::Mov { from: i, to: v1.r1 })
                } else {
                    v1
                };
                let v5 = emit(
                    emit(
                        emit(v2, OpCode::CreateClass { result: v2.r3, class_id: cid }),
                        OpCode::ClassBindSuper { class: v2.r3, super_: v2.r1 },
                    ),
                    OpCode::StoreTemp { value: v2.r3 },
                );
                let (w, _, _) = spec_translate_class(v, n, Class { super_class: Some(Box::new(s)), body })->0;
                let (v6, _, _) = spec_class_members(v5, n1, cid, body@, 0)->0;
                w.bytecode == v6.bytecode + seq![OpCode::ReadTemp { value: v6.r1 }, OpCode::ReleaseTemp]
            })
        }),
{
    let cid = ClassID(v.table.class_count as u32);
    let v0 = with_table(v, CodeTableView { class_count: v.table.class_count + 1, ..v.table });
    let (v1, n1, x) = spec_translate_expr(v0, n, s)->0;
    if let Ok(i) = x {
        let v2 = if i != v1.r1 {
            emit(v1, OpCode::Mov { from: i, to: v1.r1 })
        } else {
            v1
        };
        let v5 = emit(
            emit(
                emit(v2, OpCode::CreateClass { result: v2.r3, class_id: cid }),
                OpCode::ClassBindSuper { class: v2.r3, super_: v2.r1 },
            ),
            OpCode::StoreTemp { value: v2.r3 },
        );
        let (w, _, _) = spec_translate_class(v, n, Class { super_class: Some(Box::new(s)), body })->0;
        let (v6, _, _) = spec_class_members(v5, n1, cid, body@, 0)->0;
        assert(w.bytecode =~= v6.bytecode + seq![OpCode::ReadTemp { value: v6.r1 }, OpCode::ReleaseTemp]);
    }
}

/// The simple expressions: `this`, `null` and the booleans load their value
/// into the first scratch register, the result; `new.target` and
/// `import.meta` are read there; an unreadable range of source is the
/// error naming it, with nothing emitted.
pub proof fn law_simple_expressions(v: FunctionBuilderView, n: Seq<DynamicName>, b: bool, lo: u32, hi: u32)
    ensures
        spec_translate_expr(v, n, Expr::This) == Some(
            (emit(v, OpCode::LoadThis { result: v.r1 }), n, Ok::<Register, ErrorView>(v.r1)),
        ),
        spec_translate_expr(v, n, Expr::Null) == Some(
            (emit(v, OpCode::LoadNull { result: v.r1 }), n, Ok::<Register, ErrorView>(v.r1)),
        ),
        spec_translate_expr(v, n, Expr::Bool(true)) == Some(
            (emit(v, OpCode::LoadTrue { result: v.r1 }), n, Ok::<Register, ErrorView>(v.r1)),
        ),
        spec_translate_expr(v, n, Expr::Bool(false)) == Some(
            (emit(v, OpCode::LoadFalse { result: v.r1 }), n, Ok::<Register, ErrorView>(v.r1)),
        ),
        spec_translate_expr(v, n, Expr::MetaProp(MetaPropKind::NewTarget)) == Some(
            (emit(v, OpCode::NewTarget { result: v.r1 }), n, Ok::<Register, ErrorView>(v.r1)),
        ),
        spec_translate_expr(v, n, Expr::MetaProp(MetaPropKind::ImportMeta)) == Some(
            (emit(v, OpCode::ImportMeta { result: v.r1 }), n, Ok::<Register, ErrorView>(v.r1)),
        ),
        spec_translate_expr(v, n, Expr::Invalid { lo, hi }) == Some(
            (v, n, Err::<Register, ErrorView>(ErrorView::InvalidExpression(lo, hi))),
        ),
{
}

/// A string literal is loaded by the number under which the table of
/// strings holds it; `obj.name` reads, from the object's register into the
/// first scratch register, the field whose number the table of property
/// names holds `name` under. Earlier entries of either table stay.
pub proof fn law_strings_and_named_fields(v: FunctionBuilderView, n: Seq<DynamicName>, text: String, o: Expr, name: String)
    ensures
        spec_translate_expr(v, n, Expr::Str(text)) matches Some((w, m, r)) ==> {
            &&& w.bytecode.len() == v.bytecode.len() + 1
            &&& w.bytecode.subrange(0, v.bytecode.len() as int) == v.bytecode
            &&& w.bytecode.last() matches OpCode::LoadStaticString { result, id } && result == v.r1 && id.0
                < w.table.strings.len() && w.table.strings[id.0 as int] == text@
            &&& v.table.strings.is_prefix_of(w.table.strings)
            &&& m == n
            &&& r == Ok::<Register, ErrorView>(v.r1)
        },
        spec_translate_expr(v, n, Expr::Dot(Box::new(o), name)) matches Some((w, _, Ok(_))) ==> ({
            let (v1, _, x) = spec_translate_expr(v, n, o)->0;
            x matches Ok(obj) && {
                &&& w.bytecode.len() == v1.bytecode.len() + 1
                &&& w.bytecode.subrange(0, v1.bytecode.len() as int) == v1.bytecode
                &&& w.bytecode.last() matches OpCode::ReadFieldStatic { obj_result, field_id, .. } && obj_result
                    == compact_of(obj, v1.r1) && field_id < w.table.fields.len() && w.table.fields[field_id as int]
                    == name@
                &&& v1.table.fields.is_prefix_of(w.table.fields)
            }
        }),
{
    lemma_register_name_contains(v.table.strings, text@);
    let (v1, _, x) = spec_translate_expr(v, n, o)->0;
    lemma_register_name_contains(v1.table.fields, name@);
    if let Some((w, _, _)) = spec_translate_expr(v, n, Expr::Str(text)) {
        assert(w.bytecode.subrange(0, v.bytecode.len() as int) =~= v.bytecode);
    }
    if let Some((w, _, Ok(_))) = spec_translate_expr(v, n, Expr::Dot(Box::new(o), name)) {
        if let Ok(obj) = x {
            assert(w.bytecode.subrange(0, v1.bytecode.len() as int) =~= v1.bytecode);
        }
    }
}

/// `await e` waits for `e`'s value unless `e` is a literal, which is its
/// own value; `yield e` yields `e`'s value and bare `yield` yields
/// `undefined`; the result is the first scratch register.
pub proof fn law_await_and_yield(v: FunctionBuilderView, n: Seq<DynamicName>, e: Expr)
    requires
        spec_translate_expr(v, n, e) matches Some((_, _, Ok(_))),
    ensures
        ({
            let (v1, n1, a) = spec_translate_expr(v, n, e)->0;
            let x = a->Ok_0;
            &&& spec_translate_expr(v, n, Expr::Await(Box::new(e))) == Some(
                (
                    if e is Bool || e is Null || e is Str {
                        v1
                    } else {
                        emit(v1, OpCode::Await { result: v1.r1, future: x })
                    },
                    n1,
                    Ok::<Register, ErrorView>(v1.r1),
                ),
            )
            &&& spec_translate_expr(v, n, Expr::Yield(Some(Box::new(e)))) == Some(
                (emit(v1, OpCode::Yield { result: v1.r1, arg: x }), n1, Ok::<Register, ErrorView>(v1.r1)),
            )
        }),
        spec_translate_expr(v, n, Expr::Yield(None)) == Some(
            (
                emit(emit(v, OpCode::LoadUndefined { result: v.r2 }), OpCode::Yield { result: v.r1, arg: v.r2 }),
                n,
                Ok::<Register, ErrorView>(v.r1),
            ),
        ),
{
}

/// Parameter `index` is read into the first scratch register and bound to
/// its pattern as a `var`; the parameter count covers it.
pub proof fn law_parameter(v: FunctionBuilderView, n: Seq<DynamicName>, p: Pat, index: u32)
    requires
        index < u32::MAX || v.args_len > index,
    ensures
        ({
            let v1 = FunctionBuilderView { args_len: if v.args_len <= index { (index + 1) as u32 } else { v.args_len }, ..v };
            let v2 = emit(v1, OpCode::ReadParam { result: v.r1, index });
            spec_translate_param(v, n, p, index) == match spec_translate_pat_assign(v2, n, p, v.r1, DeclareKind::Var) {
                Some((v3, n3, Ok(_))) => Some((v3, n3, Ok::<(), ErrorView>(()))),
                Some((v3, n3, Err(e))) => Some((v3, n3, Err(e))),
                None => None,
            }
        }),
{
}

/// A pattern with a default: the default is computed, and the value
/// selected (the default when the value is `undefined`) into the first
/// scratch register is bound to the inner pattern.
pub proof fn law_pattern_default(v: FunctionBuilderView, n: Seq<DynamicName>, left: Pat, right: Expr, value: Register, kind: DeclareKind)
    requires
        spec_translate_expr(v, n, right) matches Some((_, _, Ok(_))),
    ensures
        ({
            let (v1, n1, d) = spec_translate_expr(v, n, right)->0;
            let v2 = emit(v1, OpCode::Select { a: value, b: d->Ok_0, result: v1.r1 });
            spec_translate_pat_assign(v, n, Pat::Assign(Box::new(left), Box::new(right)), value, kind) == match spec_translate_pat_assign(v2, n1, left, v1.r1, kind) {
                Some((v3, n3, Ok(_))) => Some((v3, n3, Ok::<Register, ErrorView>(v3.r1))),
                other => other,
            }
        }),
{
}

/// A declaration without initial values: each name is first given
/// `undefined` in the first scratch register, then declared with the
/// declaration's own kind (`var`, `let` or `const`).
pub proof fn law_declaration_kind(v: FunctionBuilderView, n: Seq<DynamicName>, kind: VarDeclKind, x: crate::function_builder_context::VarName)
    ensures
        ({
            let k = match kind {
                VarDeclKind::Var => DeclareKind::Var,
                VarDeclKind::Let => DeclareKind::Let,
                VarDeclKind::Const => DeclareKind::Const,
            };
            let v1 = emit(v, OpCode::LoadUndefined { result: v.r1 });
            spec_translate_declarators(v, n, declare_kind(kind), seq![(Pat::Ident(x), None::<Expr>)], 0) == match spec_declare_var(v1, n, x, v.r1, k) {
                Some((v2, n2)) => Some((v2, n2, Ok::<(), ErrorView>(()))),
                None => None,
            }
        }),
{
    let k = declare_kind(kind);
    let v1 = emit(v, OpCode::LoadUndefined { result: v.r1 });
    let ds = seq![(Pat::Ident(x), None::<Expr>)];
    assert(ds[0] == (Pat::Ident(x), None::<Expr>));
    assert(k == match kind {
        VarDeclKind::Var => DeclareKind::Var,
        VarDeclKind::Let => DeclareKind::Let,
        VarDeclKind::Const => DeclareKind::Const,
    });
    assert(spec_translate_pat_assign(v1, n, Pat::Ident(x), v.r1, k) == match spec_declare_var(v1, n, x, v.r1, k) {
        Some((a, b)) => Some((a, b, Ok::<Register, ErrorView>(v.r1))),
        None => None,
    });
    if let Some((v2, n2)) = spec_declare_var(v1, n, x, v.r1, k) {
        assert(spec_translate_declarators(v2, n2, k, ds, 1) == Some((v2, n2, Ok::<(), ErrorView>(()))));
    }
}

/// A labeled statement is its body carrying the label.
pub proof fn law_labels_and_blocks(v: FunctionBuilderView, n: Seq<DynamicName>, label: Option<Seq<char>>, l: String, body: Stmt)
    ensures
        spec_translate_statement(v, n, label, Stmt::Labeled(l, Box::new(body))) == spec_translate_statement(
            v,
            n,
            Some(l@),
            body,
        ),
{
}

/// `obj[prop]`: the object is kept in a temporary slot while the property
/// is computed; the property's register is copied to the first scratch
/// register, the object read back into the second, the slot released, and
/// the field read, its value in the first scratch register.
pub proof fn law_computed_member(v: FunctionBuilderView, n: Seq<DynamicName>, o: Expr, p: Expr)
    requires
        spec_translate_expr(v, n, Expr::Member(Box::new(o), Box::new(p))) matches Some((_, _, Ok(_))),
    ensures
        ({
            let (v1, n1, x) = spec_translate_expr(v, n, o)->0;
            let (w, _, r) = spec_translate_expr(v, n, Expr::Member(Box::new(o), Box::new(p)))->0;
            x matches Ok(obj) && ({
                let (v3, _, y) = spec_translate_expr(emit(v1, OpCode::StoreTemp { value: obj }), n1, p)->0;
                y matches Ok(key) && w.bytecode == v3.bytecode + seq![
                    OpCode::Mov { from: key, to: v3.r1 },
                    OpCode::ReadTemp { value: v3.r2 },
                    OpCode::ReleaseTemp,
                    OpCode::ReadField {
                        obj: v3.r2,
                        field: key,
                        result: v3.r1,
                        stack_offset: current(v3.ctx).stack_offset,
                    },
                ] && r == Ok::<Register, ErrorView>(v3.r1)
            })
        }),
{
    let (v1, n1, x) = spec_translate_expr(v, n, o)->0;
    let (w, _, r) = spec_translate_expr(v, n, Expr::Member(Box::new(o), Box::new(p)))->0;
    if let Ok(obj) = x {
        let (v3, _, y) = spec_translate_expr(emit(v1, OpCode::StoreTemp { value: obj }), n1, p)->0;
        if let Ok(key) = y {
            assert(w.bytecode =~= v3.bytecode + seq![
                OpCode::Mov { from: key, to: v3.r1 },
                OpCode::ReadTemp { value: v3.r2 },
                OpCode::ReleaseTemp,
                OpCode::ReadField { obj: v3.r2, field: key, result: v3.r1, stack_offset: current(v3.ctx).stack_offset },
            ]);
        }
    }
}

/// Each argument is computed and written to the slot after the previous
/// one, marked for spreading exactly when it is spread.
pub proof fn law_call_argument(v: FunctionBuilderView, n: Seq<DynamicName>, args: Seq<ExprOrSpread>, i: int, base: u16)
    requires
        0 <= i < args.len(),
        spec_translate_expr(v, n, args[i].expr) matches Some((_, _, Ok(_))),
    ensures
        ({
            let (v1, n1, a) = spec_translate_expr(v, n, args[i].expr)->0;
            let x = a->Ok_0;
            let slot = (base + i) as u16;
            spec_translate_args(v, n, args, i, base) == spec_translate_args(
                emit(
                    v1,
                    if args[i].spread {
                        OpCode::PushArgSpread { value: x, stack_offset: slot }
                    } else {
                        OpCode::PushArg { value: x, stack_offset: slot }
                    },
                ),
                n1,
                args,
                i + 1,
                base,
            )
        }),
{
}

/// A call whose callee is not a member: after the argument list, the callee
/// is computed, the current `this` loaded into the third scratch register,
/// and the callee called with it at the current stack offset, its result in
/// the first scratch register.
pub proof fn law_plain_call(v: FunctionBuilderView, n: Seq<DynamicName>, callee: Expr, args: Vec<ExprOrSpread>)
    requires
        !(callee is Member),
        spec_translate_expr(v, n, Expr::Call(Box::new(callee), args)) matches Some((_, _, Ok(_))),
    ensures
        ({
            let (v1, n1, _) = spec_call_args(v, n, args@)->0;
            let (v2, _, c) = spec_translate_expr(v1, n1, callee)->0;
            let (w, _, r) = spec_translate_expr(v, n, Expr::Call(Box::new(callee), args))->0;
            c matches Ok(f) && w.bytecode == v2.bytecode + seq![
                OpCode::LoadThis { result: v2.r3 },
                OpCode::Call { result: v2.r1, this: v2.r3, callee: f, stack_offset: current(v2.ctx).stack_offset },
            ] && r == Ok::<Register, ErrorView>(v2.r1)
        }),
{
    let (v1, n1, _) = spec_call_args(v, n, args@)->0;
    let (v2, _, c) = spec_translate_expr(v1, n1, callee)->0;
    let (w, _, r) = spec_translate_expr(v, n, Expr::Call(Box::new(callee), args))->0;
    if let Ok(f) = c {
        assert(w.bytecode =~= v2.bytecode + seq![
            OpCode::LoadThis { result: v2.r3 },
            OpCode::Call { result: v2.r1, this: v2.r3, callee: f, stack_offset: current(v2.ctx).stack_offset },
        ]);
    }
}

/// `target = value`: the value is computed, assigned to the target (as an
/// assignment, not a declaration), and copied to the first scratch register,
/// the result.
pub proof fn law_assignment(v: FunctionBuilderView, n: Seq<DynamicName>, target: Pat, value: Expr)
    requires
        spec_translate_expr(v, n, Expr::Assign(Box::new(target), Box::new(value))) matches Some((_, _, Ok(_))),
    ensures
        ({
            let (v1, n1, x) = spec_translate_expr(v, n, value)->0;
            let (w, _, r) = spec_translate_expr(v, n, Expr::Assign(Box::new(target), Box::new(value)))->0;
            x matches Ok(rr) && ({
                let (v2, _, _) = spec_translate_pat_assign(v1, n1, target, rr, DeclareKind::Undeclared)->0;
                w.bytecode == v2.bytecode.push(OpCode::Mov { from: rr, to: v2.r1 }) && r == Ok::<Register, ErrorView>(v2.r1)
            })
        }),
{
}

/// A block statement runs its statements in a scope of its own, closed
/// after them; an expression statement is its expression, the value
/// dropped.
pub proof fn law_block_and_expression_statements(
    v: FunctionBuilderView,
    n: Seq<DynamicName>,
    label: Option<Seq<char>>,
    ss: Vec<Stmt>,
    e: Expr,
)
    ensures
        spec_translate_statement(v, n, label, Stmt::Block(ss)) == match spec_translate_statements(
            open_scope(v),
            n,
            ss@,
            0,
        ) {
            Some((v1, n1, Ok(()))) => if close_ok(v1.ctx) {
                Some((close_scope(v1), n1, Ok::<(), ErrorView>(())))
            } else {
                None
            },
            other => other,
        },
        open_scope(v).ctx == with_block_scope(v.ctx),
        close_scope(v).ctx == closed_scope(v.ctx),
        spec_translate_statement(v, n, label, Stmt::Expr(Box::new(e))) == match spec_translate_expr(v, n, e) {
            Some((v1, n1, Ok(_))) => Some((v1, n1, Ok::<(), ErrorView>(()))),
            Some((v1, n1, Err(err))) => Some((v1, n1, Err(err))),
            None => None,
        },
{
}

/// A unary operator applied to `e`: the code of `e`, then the operator's own
/// instruction on the register holding `e`'s value, its result in the
/// first scratch register: negation for `-`, conversion to a number for
/// `+`, logical not for `!`, bitwise not for `~`, `typeof`, `undefined` for
/// `void`; `delete` adds nothing.
pub proof fn law_unary_operators(v: FunctionBuilderView, n: Seq<DynamicName>, op: UnaryOp, e: Expr)
    requires
        spec_translate_expr(v, n, e) matches Some((_, _, Ok(_))),
    ensures
        ({
            let (v1, n1, a) = spec_translate_expr(v, n, e)->0;
            let (w, m, r) = spec_translate_expr(v, n, Expr::Unary(op, Box::new(e)))->0;
            let x = a->Ok_0;
            let r1 = v1.r1;
            &&& m == n1
            &&& r == Ok::<Register, ErrorView>(r1)
            &&& w.bytecode == match op {
                UnaryOp::Minus => v1.bytecode.push(OpCode::Minus { result: r1, right: x }),
                UnaryOp::Plus => v1.bytecode.push(OpCode::Plus { result: r1, right: x }),
                UnaryOp::Bang => v1.bytecode.push(OpCode::Not { result: r1, right: x }),
                UnaryOp::Tilde => v1.bytecode.push(OpCode::BitNot { result: r1, right: x }),
                UnaryOp::TypeOf => v1.bytecode.push(OpCode::TypeOf { result: r1, right: x }),
                UnaryOp::Void => v1.bytecode.push(OpCode::LoadUndefined { result: r1 }),
                UnaryOp::Delete => v1.bytecode,
            }
        }),
{
}

/// A method, getter or setter of class `cid`: it is bound exactly as
/// written, with its name, kind and staticness, to the function compiled
/// for it, which is the last function registered.
pub proof fn law_class_method_binding(
    v: FunctionBuilderView,
    n: Seq<DynamicName>,
    cid: ClassID,
    name: String,
    kind: MethodKind,
    is_static: bool,
    function: Function,
)
    requires
        spec_class_member(v, n, cid, ClassMember::Method { name, kind, is_static, function }) matches Some(
            (_, _, Ok(())),
        ),
    ensures
        ({
            let (w, _, _) = spec_class_member(v, n, cid, ClassMember::Method { name, kind, is_static, function })->0;
            let t = w.table;
            &&& t.functions.len() > 0
            &&& t.methods.len() > 0
            &&& t.methods.last() == (cid, name@, kind, is_static, FuncID((t.functions.len() - 1) as u32))
        }),
{
    lemma_compiled_function_is_last(v, n, function, true);
    let (v1, n1, r) = spec_compile_function(v, n, function, true)->0;
    assert(r is Ok);
}

/// After the pending captures are taken, the current scope has none left
/// and keeps everything else.
proof fn lemma_need_done_current(frames: Seq<FrameView>)
    requires
        frames.len() > 0,
    ensures
        spec_need_done(frames).0.len() == frames.len(),
        current(spec_need_done(frames).0) == (FrameView { need_done: seq![], ..current(frames) }),
{
    let c = current(frames);
    let f1 = frames.update(frames.len() - 1, FrameView { need_done: seq![], ..c });
    lemma_collect_keeps(f1, frames.len() - 2);
}

impl FunctionBuilder {
    /// The builder is usable: its scope chain holds the global scope.
    pub open spec fn wf(&self) -> bool {
        self@.ctx.len() > 0
    }

    /// A builder for the top-level code.
    pub fn new() -> (r: Self)
        ensures
            r.wf(),
            r@ == initial_view(global_frames(), empty_table(), false, false),
    {
        let ctx = FunctionBuilderContext::new();
        let r = FunctionBuilder {
            is_async: false,
            is_generator: false,
            args_len: 0,
            ctx,
            loops: VecDeque::new(),
            block_count: 0,
            r1: Register(0),
            r2: Register(1),
            r3: Register(2),
            catch_block: None,
            bytecode: Vec::new(),
            table: CodeTable::new(),
        };
        assert(r@.loops =~= seq![]);
        r
    }
}

impl FunctionBuilder {
    /// A builder for a function nested in the scope chain `ctx`, filling the
    /// tables `table`: a function scope is opened on top of the chain.
    pub fn new_with_context(table: CodeTable, mut ctx: FunctionBuilderContext, is_async: bool, is_generator: bool) -> (r: Self)
        requires
            ctx.wf(),
        ensures
            r.wf(),
            r@ == initial_view(with_function_scope(ctx@), table@, is_async, is_generator),
    {
        ctx.new_function();
        let r = FunctionBuilder {
            is_async,
            is_generator,
            args_len: 0,
            ctx,
            loops: VecDeque::new(),
            block_count: 0,
            r1: Register(0),
            r2: Register(1),
            r3: Register(2),
            catch_block: None,
            bytecode: Vec::new(),
            table,
        };
        assert(r@.loops =~= seq![]);
        r
    }
}

impl FunctionBuilder {
    /// Create a new block and emit its creation.
    fn create_block(&mut self) -> (b: Block)
        requires
            old(self).wf(),
            old(self)@.block_count < u32::MAX,
        ensures
            final(self).wf(),
            (final(self)@, b) == spec_create_block(old(self)@),
    {
        let b = Block(self.block_count as u16);
        self.block_count += 1;
        self.bytecode.push(OpCode::CreateBlock(b));
        b
    }

    /// Enter a loop, labeled or not: create its exit and header blocks,
    /// push it on the loop stack, and continue in the header. Returns the
    /// header and the exit.
    pub fn start_loop(&mut self, label: Option<&str>) -> (r: (Block, Block))
        requires
            old(self).wf(),
            old(self)@.block_count + 2 <= u32::MAX,
        ensures
            final(self).wf(),
            (final(self)@, r.0, r.1) == spec_start_loop(old(self)@, label_view(label)),
    {
        let exit = self.create_block();
        let header = self.create_block();
        let ghost mid = self@;
        if label.is_some() {
            self.loops.push_front(
                Loop { label: Some(label.unwrap().to_string()), exit: exit, continue_: header },
            )
        } else {
            self.loops.push_front(Loop { label: None, exit: exit, continue_: header })
        };
        assert(self@.loops =~= seq![LoopView { label: label_view(label), exit, continue_: header }]
            + mid.loops);
        self.bytecode.push(OpCode::Jump { to: header, line: 0 });
        self.bytecode.push(OpCode::SwitchToBlock(header));
        return (header, exit);
    }

    /// Leave the innermost loop: jump to its exit and continue there.
    pub fn end_loop(&mut self)
        requires
            old(self).wf(),
            old(self)@.loops.len() > 0,
        ensures
            final(self).wf(),
            final(self)@ == spec_end_loop(old(self)@),
    {
        let l = self.loops.pop_front().unwrap();
        assert(self@.loops =~= old(self)@.loops.drop_first());
        self.bytecode.push(OpCode::Jump { to: l.exit, line: 0 });
        self.bytecode.push(OpCode::SwitchToBlock(l.exit));
    }

    /// Errors are not checked after each operation: nothing is emitted.
    fn try_check_error(&mut self, throw_value: Register)
        ensures
            final(self)@ == old(self)@,
    {
    }

    /// The innermost loop labeled `name`.
    fn find_labeled(&self, name: &str) -> (r: Option<usize>)
        ensures
            r is None <==> labeled_loop(self@.loops, name@) is None,
            r matches Some(i) ==> labeled_loop(self@.loops, name@) == Some(i as int) && i < self@.loops.len(),
    {
        proof {
            lemma_labeled_loop_found(self@.loops, name@);
        }
        let n = self.loops.len();
        let mut i: usize = 0;
        let ghost loops = self@.loops;
        assert(loops.skip(0) =~= loops);
        while i < n
            invariant
                n == loops.len(),
                loops == self@.loops,
                i <= n,
                labeled_loop(loops, name@) == match labeled_loop(loops.skip(i as int), name@) {
                    Some(j) => Some(j + i),
                    None => None,
                },
            decreases n - i,
        {
            assert(loops.skip(i as int).drop_first() =~= loops.skip(i + 1));
            assert(loops.skip(i as int)[0] == loops[i as int]);
            match &self.loops[i].label {
                Some(l) => {
                    if str_equal(l.as_str(), name) {
                        return Some(i);
                    }
                },
                None => {},
            }
            i = i + 1;
        }
        assert(loops.skip(n as int).len() == 0);
        None
    }

    /// `break`, with or without a label: jump to the exit of the loop it
    /// leaves.
    pub fn translate_break(&mut self, label: Option<&str>) -> (r: Result<(), Error>)
        requires
            old(self).wf(),
        ensures
            final(self).wf(),
            match target_loop(old(self)@.loops, label_view(label)) {
                Some(i) => r is Ok && final(self)@ == emit(
                    old(self)@,
                    OpCode::Jump { to: old(self)@.loops[i].exit, line: 0 },
                ),
                None => final(self)@ == old(self)@ && match label {
                    Some(l) => r matches Err(Error::LabelUndefined(s)) && s@ == l@,
                    None => r matches Err(Error::IllegalBreak),
                },
            },
    {
        match label {
            Some(name) => {
                match self.find_labeled(name) {
                    Some(i) => {
                        assert(self@.loops[i as int] == self.loops@[i as int]@);
                        let to = self.loops[i].exit;
                        self.bytecode.push(OpCode::Jump { to: to, line: 0 });
                        Ok(())
                    },
                    None => Err(Error::LabelUndefined(name.to_string())),
                }
            },
            None => {
                if self.loops.len() > 0 {
                    assert(self@.loops[0] == self.loops@[0]@);
                    let to = self.loops[0].exit;
                    self.bytecode.push(OpCode::Jump { to: to, line: 0 });
                    Ok(())
                } else {
                    Err(Error::IllegalBreak)
                }
            },
        }
    }

    /// `continue`, with or without a label: jump to the header of the loop
    /// it continues.
    pub fn translate_continue(&mut self, label: Option<&str>) -> (r: Result<(), Error>)
        requires
            old(self).wf(),
        ensures
            final(self).wf(),
            match target_loop(old(self)@.loops, label_view(label)) {
                Some(i) => r is Ok && final(self)@ == emit(
                    old(self)@,
                    OpCode::Jump { to: old(self)@.loops[i].continue_, line: 0 },
                ),
                None => final(self)@ == old(self)@ && match label {
                    Some(l) => r matches Err(Error::LabelUndefined(s)) && s@ == l@,
                    None => r matches Err(Error::IllegalBreak),
                },
            },
    {
        match label {
            Some(name) => {
                match self.find_labeled(name) {
                    Some(i) => {
                        assert(self@.loops[i as int] == self.loops@[i as int]@);
                        let to = self.loops[i].continue_;
                        self.bytecode.push(OpCode::Jump { to: to, line: 0 });
                        Ok(())
                    },
                    None => Err(Error::LabelUndefined(name.to_string())),
                }
            },
            None => {
                if self.loops.len() > 0 {
                    assert(self@.loops[0] == self.loops@[0]@);
                    let to = self.loops[0].continue_;
                    self.bytecode.push(OpCode::Jump { to: to, line: 0 });
                    Ok(())
                } else {
                    Err(Error::IllegalBreak)
                }
            },
        }
    }
}

/// A copy of the code.
fn copy_codes(codes: &Vec<OpCode>) -> (r: Vec<OpCode>)
    ensures
        r@ == codes@,
{
    let mut r: Vec<OpCode> = Vec::new();
    let mut i: usize = 0;
    while i < codes.len()
        invariant
            i <= codes@.len(),
            r@ == codes@.take(i as int),
        decreases codes.len() - i,
    {
        r.push(codes[i]);
        i = i + 1;
        assert(r@ =~= codes@.take(i as int));
    }
    assert(codes@.take(codes@.len() as int) =~= codes@);
    r
}

/// The scope chain after its current scope is closed; the global scope is
/// never closed.
pub open spec fn closed_scope(frames: Seq<FrameView>) -> Seq<FrameView> {
    if frames.len() > 1 {
        frames.drop_last()
    } else {
        frames
    }
}

impl FunctionBuilder {
    /// Finish the function: end it with `return undefined`, emit the
    /// captures still pending, optimise the code, close the function's
    /// scope, and describe the compiled function.
    pub fn finish(&mut self) -> (r: JSFunction)
        requires
            old(self).wf(),
            optimize_defined(finished_code(old(self)@)),
        ensures
            final(self).wf(),
            final(self)@ == (FunctionBuilderView {
                ctx: closed_scope(spec_need_done(old(self)@.ctx).0),
                bytecode: finished_code(old(self)@),
                ..old(self)@
            }),
            r.is_async == old(self)@.is_async,
            r.is_generator == old(self)@.is_generator,
            r.args_len == old(self)@.args_len as u16,
            r.var_count == current(old(self)@.ctx).max_stack_offset,
            r.largest_stack_offset == current(old(self)@.ctx).max_stack_offset as u32,
            r.call_count == 0,
            r.capture_stack_size == current(old(self)@.ctx).capture_offset,
            r.bytecodes@ == spec_optimize(finished_code(old(self)@)),
    {
        self.bytecode.push(OpCode::LoadUndefined { result: self.r1 });
        self.bytecode.push(OpCode::Return { value: self.r1 });
        let mut pending = self.ctx.need_done();
        self.bytecode.append(&mut pending);
        proof {
            lemma_need_done_current(old(self)@.ctx);
        }
        let codes = optimize(copy_codes(&self.bytecode));
        let f = JSFunction {
            is_async: self.is_async,
            is_generator: self.is_generator,
            args_len: self.args_len as u16,
            var_count: self.ctx.max_stack_offset(),
            call_count: 0,
            capture_stack_size: self.ctx.capture_len(),
            bytecodes: Arc::new(codes),
            largest_stack_offset: self.ctx.max_stack_offset() as u32,
        };
        self.ctx.close_context();
        f
    }
}

/// Entering and then leaving a loop restores the loop stack; the code gains
/// the two new blocks, the jump into the header, and the jump to the exit
/// after which generation continues in the exit block.
pub proof fn lemma_loop_restores_stack(v: FunctionBuilderView, label: Option<Seq<char>>)
    requires
        v.block_count + 2 <= u32::MAX,
    ensures
        ({
            let (v1, header, exit) = spec_start_loop(v, label);
            let v2 = spec_end_loop(v1);
            &&& v2.loops == v.loops
            &&& v2.block_count == v.block_count + 2
            &&& exit == Block(v.block_count as u16)
            &&& header == Block((v.block_count + 1) as u16)
            &&& v2.bytecode == v.bytecode + seq![
                OpCode::CreateBlock(exit),
                OpCode::CreateBlock(header),
                OpCode::Jump { to: header, line: 0 },
                OpCode::SwitchToBlock(header),
                OpCode::Jump { to: exit, line: 0 },
                OpCode::SwitchToBlock(exit),
            ]
        }),
{
    let (v1, header, exit) = spec_start_loop(v, label);
    let v2 = spec_end_loop(v1);
    assert(v2.loops =~= v.loops);
    assert(v2.bytecode =~= v.bytecode + seq![
        OpCode::CreateBlock(exit),
        OpCode::CreateBlock(header),
        OpCode::Jump { to: header, line: 0 },
        OpCode::SwitchToBlock(header),
        OpCode::Jump { to: exit, line: 0 },
        OpCode::SwitchToBlock(exit),
    ]);
}

/// Inside a loop just entered, a `break` without a label, or with the
/// loop's own label, leaves that loop for its exit block, and a `continue`
/// goes to its header; any other label is resolved in the enclosing loops
/// as before.
pub proof fn lemma_jumps_target_innermost_loop(
    v: FunctionBuilderView,
    label: Option<Seq<char>>,
    other: Seq<char>,
)
    requires
        v.block_count + 2 <= u32::MAX,
        label != Some(other),
    ensures
        ({
            let (v1, header, exit) = spec_start_loop(v, label);
            &&& target_loop(v1.loops, None) == Some(0int)
            &&& v1.loops[0].exit == exit
            &&& v1.loops[0].continue_ == header
            &&& (label matches Some(name) ==> target_loop(v1.loops, Some(name)) == Some(0int))
            &&& target_loop(v1.loops, Some(other)) == match target_loop(v.loops, Some(other)) {
                Some(i) => Some(i + 1),
                None => None,
            }
            &&& (target_loop(v.loops, Some(other)) matches Some(i) ==> v1.loops[i + 1] == v.loops[i])
        }),
{
    let (v1, header, exit) = spec_start_loop(v, label);
    assert(v1.loops.drop_first() =~= v.loops);
    lemma_labeled_loop_found(v.loops, other);
}

// ---------------------------------------------------------------------------
// Translation of the syntax tree
// ---------------------------------------------------------------------------

/// A builder with its scope chain replaced.
pub open spec fn with_ctx(v: FunctionBuilderView, c: Seq<FrameView>) -> FunctionBuilderView {
    FunctionBuilderView { ctx: c, ..v }
}

/// The model of a result whose error is an [`Error`].
pub open spec fn result_view<T>(r: Result<T, Error>) -> Result<T, ErrorView> {
    match r {
        Ok(x) => Ok(x),
        Err(e) => Err(e@),
    }
}

/// The builder and name table after the instruction that reads variable
/// `name` into the first scratch register is emitted; `None` where the
/// scope chain cannot resolve it.
pub open spec fn spec_read_var(v: FunctionBuilderView, n: Seq<DynamicName>, name: crate::function_builder_context::VarName) -> Option<
    (FunctionBuilderView, Seq<DynamicName>),
> {
    if v.ctx.len() > 0 && n.len() < u32::MAX && spec_get(v.ctx, n, name, v.r1) is Some {
        let (c, n2, op) = spec_get(v.ctx, n, name, v.r1)->0;
        Some((emit(with_ctx(v, c), op), n2))
    } else {
        None
    }
}

/// The builder and name table after the instruction that declares or
/// assigns `name` from `from` is emitted.
pub open spec fn spec_declare_var(
    v: FunctionBuilderView,
    n: Seq<DynamicName>,
    name: crate::function_builder_context::VarName,
    from: Register,
    kind: DeclareKind,
) -> Option<(FunctionBuilderView, Seq<DynamicName>)> {
    if v.ctx.len() > 0 && n.len() < u32::MAX && spec_declare(v.ctx, n, name, from, kind) is Some {
        let (c, n2, op) = spec_declare(v.ctx, n, name, from, kind)->0;
        Some((emit(with_ctx(v, c), op), n2))
    } else {
        None
    }
}

/// The instruction of a binary operator; `>=` is emitted as an addition.
pub open spec fn bin_instruction(op: BinaryOp, result: Register, left: Register, right: Register) -> OpCode {
    match op {
        BinaryOp::Add => OpCode::Add { result, left, right },
        BinaryOp::BitAnd => OpCode::BitAnd { result, left, right },
        BinaryOp::BitOr => OpCode::BitOr { result, left, right },
        BinaryOp::BitXor => OpCode::BitXor { result, left, right },
        BinaryOp::Div => OpCode::Div { result, left, right },
        BinaryOp::EqEq => OpCode::EqEq { result, left, right },
        BinaryOp::EqEqEq => OpCode::EqEqEq { result, left, right },
        BinaryOp::Exp => OpCode::Exp { result, left, right },
        BinaryOp::Gt => OpCode::Gt { result, left, right },
        BinaryOp::GtEq => OpCode::Add { result, left, right },
        BinaryOp::In => OpCode::In { result, left, right },
        BinaryOp::InstanceOf => OpCode::InstanceOf { result, left, right },
        BinaryOp::LShift => OpCode::LShift { result, left, right },
        BinaryOp::LogicalAnd => OpCode::And { result, left, right },
        BinaryOp::LogicalOr => OpCode::Or { result, left, right },
        BinaryOp::Lt => OpCode::Lt { result, left, right },
        BinaryOp::LtEq => OpCode::LtEq { result, left, right },
        BinaryOp::Mod => OpCode::Rem { result, left, right },
        BinaryOp::Mul => OpCode::Mul { result, left, right },
        BinaryOp::NotEq => OpCode::NotEq { result, left, right },
        BinaryOp::NotEqEq => OpCode::NotEqEq { result, left, right },
        BinaryOp::NullishCoalescing => OpCode::Nullish { result, left, right },
        BinaryOp::RShift => OpCode::RShift { result, left, right },
        BinaryOp::Sub => OpCode::Sub { result, left, right },
        BinaryOp::ZeroFillRShift => OpCode::ZeroFillRShift { result, left, right },
    }
}

/// The instruction of a unary operator; `delete` emits nothing.
pub open spec fn unary_instruction(op: UnaryOp, result: Register, arg: Register) -> Option<OpCode> {
    match op {
        UnaryOp::Bang => Some(OpCode::Not { result, right: arg }),
        UnaryOp::Delete => None,
        UnaryOp::Minus => Some(OpCode::Minus { result, right: arg }),
        UnaryOp::Plus => Some(OpCode::Plus { result, right: arg }),
        UnaryOp::Tilde => Some(OpCode::BitNot { result, right: arg }),
        UnaryOp::TypeOf => Some(OpCode::TypeOf { result, right: arg }),
        UnaryOp::Void => Some(OpCode::LoadUndefined { result }),
    }
}

/// Whether both operands are identifiers of the same symbol.
pub open spec fn same_ident(l: Expr, r: Expr) -> bool {
    match (l, r) {
        (Expr::Ident(a), Expr::Ident(b)) => a.sym == b.sym,
        _ => false,
    }
}

/// Whether the right operand is `true`, `false` or neither.
pub open spec fn bool_operand(r: Expr) -> Option<bool> {
    match r {
        Expr::Bool(b) => Some(b),
        _ => None,
    }
}

/// The builder, name table and result register after `e` is translated;
/// `None` where the translation is undefined: both operands of a binary
/// operator are literals, `x && true` (an instruction the instruction set
/// lacks), or the scope chain cannot resolve a variable.
pub open spec fn spec_translate_expr(v: FunctionBuilderView, n: Seq<DynamicName>, e: Expr) -> Option<
    (FunctionBuilderView, Seq<DynamicName>, Result<Register, ErrorView>),
>
    decreases e, 0int,
{
    match e {
        Expr::This => Some((emit(v, OpCode::LoadThis { result: v.r1 }), n, Ok(v.r1))),
        Expr::Ident(x) => match spec_read_var(v, n, x) {
            Some((v1, n1)) => Some((v1, n1, Ok(v1.r1))),
            None => None,
        },
        Expr::Bool(b) => Some(
            (
                emit(
                    v,
                    if b {
                        OpCode::LoadTrue { result: v.r1 }
                    } else {
                        OpCode::LoadFalse { result: v.r1 }
                    },
                ),
                n,
                Ok(v.r1),
            ),
        ),
        Expr::Null => Some((emit(v, OpCode::LoadNull { result: v.r1 }), n, Ok(v.r1))),
        Expr::Invalid { lo, hi } => Some((v, n, Err(ErrorView::InvalidExpression(lo, hi)))),
        Expr::Paren(x) => match spec_translate_expr(v, n, *x) {
            Some((v1, n1, Ok(_))) => Some((v1, n1, Ok(v1.r1))),
            other => other,
        },
        Expr::Comma(es) => spec_translate_exprs(v, n, es@, 0, v.r1),
        Expr::Unary(op, a) => match spec_translate_expr(v, n, *a) {
            Some((v1, n1, Ok(arg))) => match unary_instruction(op, v1.r1, arg) {
                Some(code) => Some((emit(v1, code), n1, Ok(v1.r1))),
                None => Some((v1, n1, Ok(v1.r1))),
            },
            other => other,
        },
        Expr::Bin(op, l, r) => match spec_translate_expr(v, n, *l) {
            Some((v1, n1, Ok(lhs))) => if l.is_lit() && r.is_lit() {
                None
            } else if op == BinaryOp::LogicalAnd && bool_operand(*r) == Some(false) {
                Some((emit(v1, OpCode::LoadFalse { result: v1.r1 }), n1, Ok(v1.r1)))
            } else if op == BinaryOp::LogicalAnd && bool_operand(*r) == Some(true) {
                None
            } else if same_ident(*l, *r) {
                let v2 = emit(v1, OpCode::Mov { from: lhs, to: v1.r3 });
                Some((emit(v2, bin_instruction(op, v2.r1, v2.r3, lhs)), n1, Ok(v2.r1)))
            } else {
                let v2 = emit(v1, OpCode::StoreTemp { value: lhs });
                match spec_translate_expr(v2, n1, *r) {
                    Some((v3, n3, Ok(rr))) => {
                        let v4 = emit(v3, OpCode::ReadTemp { value: v3.r3 });
                        let v5 = emit(v4, bin_instruction(op, v4.r1, v4.r3, rr));
                        Some((emit(v5, OpCode::ReleaseTemp), n3, Ok(v5.r1)))
                    },
                    other => other,
                }
            },
            other => other,
        },
        Expr::Cond(t, a, b) => match spec_translate_expr(v, n, *t) {
            Some((v1, n1, Ok(tt))) => {
                let v2 = emit(v1, OpCode::StoreTemp { value: tt });
                match spec_translate_expr(v2, n1, *a) {
                    Some((v3, n3, Ok(aa))) => {
                        let v4 = emit(v3, OpCode::StoreTemp { value: aa });
                        match spec_translate_expr(v4, n3, *b) {
                            Some((v5, n5, Ok(bb))) => {
                                let v6 = emit(v5, OpCode::Mov { from: bb, to: v5.r3 });
                                let v7 = emit(v6, OpCode::ReadTemp { value: v6.r2 });
                                let v8 = emit(v7, OpCode::ReleaseTemp);
                                let v9 = emit(v8, OpCode::ReadTemp { value: v8.r1 });
                                let v10 = emit(v9, OpCode::ReleaseTemp);
                                let v11 = emit(
                                    v10,
                                    OpCode::CondSelect { t: v10.r1, a: v10.r2, b: v10.r3, result: v10.r1 },
                                );
                                Some((v11, n5, Ok(v11.r1)))
                            },
                            other => other,
                        }
                    },
                    other => other,
                }
            },
            other => other,
        },
        Expr::Assign(p, rhs) => match spec_translate_expr(v, n, *rhs) {
            Some((v1, n1, Ok(rr))) => match spec_translate_pat_assign(v1, n1, *p, rr, DeclareKind::Undeclared) {
                Some((v2, n2, Ok(_))) => {
                    let v3 = emit(v2, OpCode::Mov { from: rr, to: v2.r1 });
                    Some((v3, n2, Ok(v3.r1)))
                },
                other => other,
            },
            other => other,
        },
        Expr::Await(a) => match spec_translate_expr(v, n, *a) {
            Some((v1, n1, Ok(x))) => if a.is_lit() {
                Some((v1, n1, Ok(v1.r1)))
            } else {
                Some((emit(v1, OpCode::Await { result: v1.r1, future: x }), n1, Ok(v1.r1)))
            },
            other => other,
        },
        Expr::Yield(arg) => match arg {
            Some(a) => match spec_translate_expr(v, n, *a) {
                Some((v1, n1, Ok(x))) => Some((emit(v1, OpCode::Yield { result: v1.r1, arg: x }), n1, Ok(v1.r1))),
                other => other,
            },
            None => {
                let v1 = emit(v, OpCode::LoadUndefined { result: v.r2 });
                Some((emit(v1, OpCode::Yield { result: v.r1, arg: v.r2 }), n, Ok(v.r1)))
            },
        },
        Expr::MetaProp(k) => Some((emit(v, meta_instruction(k, v.r1)), n, Ok(v.r1))),
        Expr::Member(o, p) => match spec_translate_expr(v, n, *o) {
            Some((v1, n1, Ok(obj))) => {
                let v2 = emit(v1, OpCode::StoreTemp { value: obj });
                match spec_translate_expr(v2, n1, *p) {
                    Some((v3, n3, Ok(key))) => {
                        let v4 = emit(
                            emit(emit(v3, OpCode::Mov { from: key, to: v3.r1 }), OpCode::ReadTemp { value: v3.r2 }),
                            OpCode::ReleaseTemp,
                        );
                        let code = OpCode::ReadField {
                            obj: v4.r2,
                            field: key,
                            result: v4.r1,
                            stack_offset: current(v4.ctx).stack_offset,
                        };
                        Some((emit(v4, code), n3, Ok(v4.r1)))
                    },
                    other => other,
                }
            },
            other => other,
        },
        Expr::Call(callee, args) => match spec_call_args(v, n, args@) {
            Some((v1, n1, Ok(()))) => match *callee {
                Expr::Member(o, _) => match spec_translate_expr(v1, n1, *o) {
                    Some((v2, n2, Ok(obj))) => {
                        let v3 = emit(v2, OpCode::StoreTemp { value: obj });
                        match spec_translate_expr(v3, n2, *callee) {
                            Some((v4, n4, Ok(c))) => {
                                let v5 = emit(v4, OpCode::ReadTemp { value: v4.r3 });
                                let v6 = emit(
                                    v5,
                                    OpCode::Call {
                                        result: v5.r1,
                                        this: v5.r3,
                                        callee: c,
                                        stack_offset: current(v5.ctx).stack_offset,
                                    },
                                );
                                Some((emit(v6, OpCode::ReleaseTemp), n4, Ok(v6.r1)))
                            },
                            other => other,
                        }
                    },
                    other => other,
                },
                _ => match spec_translate_expr(v1, n1, *callee) {
                    Some((v2, n2, Ok(c))) => {
                        let v3 = emit(v2, OpCode::LoadThis { result: v2.r3 });
                        let code = OpCode::Call {
                            result: v3.r1,
                            this: v3.r3,
                            callee: c,
                            stack_offset: current(v3.ctx).stack_offset,
                        };
                        Some((emit(v3, code), n2, Ok(v3.r1)))
                    },
                    other => other,
                },
            },
            Some((v1, n1, Err(err))) => Some((v1, n1, Err(err))),
            None => None,
        },
        Expr::New(callee, args) => {
            let pre = match args {
                Some(a) => spec_call_args(v, n, a@),
                None => Some((v, n, Ok(()))),
            };
            match pre {
                Some((v1, n1, Ok(()))) => match spec_translate_expr(v1, n1, *callee) {
                    Some((v2, n2, Ok(c))) => {
                        let code = OpCode::New { result: v2.r1, callee: c, stack_offset: current(v2.ctx).stack_offset };
                        Some((emit(v2, code), n2, Ok(v2.r1)))
                    },
                    other => other,
                },
                Some((v1, n1, Err(err))) => Some((v1, n1, Err(err))),
                None => None,
            }
        },
        Expr::Update(op, prefix, arg) => match spec_translate_expr(v, n, *arg) {
            Some((v1, n1, Ok(value))) => {
                let v2 = emit(v1, OpCode::LoadStaticFloat32 { result: v1.r2, value: ONE_F32_BITS });
                let v3 = emit(v2, step_instruction(op, v2.r3, value, v2.r2));
                match *arg {
                    Expr::Ident(x) => match spec_set_var(v3, n1, x, v3.r3) {
                        Some((v4, n4)) => {
                            let v5 = emit(v4, OpCode::Mov { from: if prefix { v4.r3 } else { value }, to: v4.r1 });
                            Some((v5, n4, Ok(v5.r1)))
                        },
                        None => None,
                    },
                    Expr::Member(o, k) => {
                        let v4 = if prefix {
                            v3
                        } else {
                            emit(v3, OpCode::StoreTemp { value })
                        };
                        let v5 = emit(v4, OpCode::StoreTemp { value: v4.r3 });
                        match spec_translate_expr(v5, n1, *o) {
                            Some((v6, n6, Ok(obj))) => {
                                let v7 = emit(v6, OpCode::StoreTemp { value: obj });
                                match spec_translate_expr(v7, n6, *k) {
                                    Some((v8, n8, Ok(key))) => {
                                        let v9 = emit(
                                            emit(emit(v8, OpCode::ReadTemp { value: v8.r2 }), OpCode::ReleaseTemp),
                                            OpCode::ReadTemp { value: v8.r3 },
                                        );
                                        let code = OpCode::WriteField {
                                            obj: v9.r2,
                                            field: key,
                                            value: v9.r3,
                                            stack_offset: current(v9.ctx).stack_offset,
                                        };
                                        let v10 = emit(v9, code);
                                        let v11 = if prefix {
                                            emit(v10, OpCode::ReadTemp { value: v10.r1 })
                                        } else {
                                            v10
                                        };
                                        let v12 = emit(v11, OpCode::ReleaseTemp);
                                        let v13 = if prefix {
                                            v12
                                        } else {
                                            emit(emit(v12, OpCode::ReadTemp { value: v12.r1 }), OpCode::ReleaseTemp)
                                        };
                                        Some((v13, n8, Ok(v13.r1)))
                                    },
                                    other => other,
                                }
                            },
                            other => other,
                        }
                    },
                    _ => None,
                }
            },
            other => other,
        },
        Expr::Fn(f) => match spec_compile_function(v, n, f, true) {
            Some((v1, n1, Ok(id))) => Some((emit(v1, OpCode::CreateFunction { result: v1.r1, id }), n1, Ok(v1.r1))),
            Some((v1, n1, Err(e))) => Some((v1, n1, Err(e))),
            None => None,
        },
        Expr::Class(c) => spec_translate_class(v, n, c),
        Expr::Str(text) => if v.table.strings.len() >= u32::MAX {
            None
        } else {
            let (strings, id) = spec_register_name(v.table.strings, text@);
            let v1 = with_table(v, CodeTableView { strings, ..v.table });
            Some((emit(v1, OpCode::LoadStaticString { result: v1.r1, id: StringID(id as u32) }), n, Ok(v1.r1)))
        },
        Expr::Dot(o, name) => match spec_translate_expr(v, n, *o) {
            Some((v1, n1, Ok(obj))) => if obj.0 >= 4 || v1.r1.0 >= 4 || v1.table.fields.len() >= u32::MAX {
                None
            } else {
                let (fields, id) = spec_register_name(v1.table.fields, name@);
                let v2 = with_table(v1, CodeTableView { fields, ..v1.table });
                let code = OpCode::ReadFieldStatic {
                    obj_result: compact_of(obj, v2.r1),
                    field_id: id as u32,
                    stack_offset: current(v2.ctx).stack_offset,
                };
                Some((emit(v2, code), n1, Ok(v2.r1)))
            },
            other => other,
        },
        Expr::Arrow(a) => match spec_compile_arrow(v, n, a) {
            Some((v1, n1, Ok(id))) => {
                let v2 = emit(v1, OpCode::LoadThis { result: v1.r2 });
                Some((emit(v2, OpCode::CreateArrow { result: v2.r1, this: v2.r2, id }), n1, Ok(v2.r1)))
            },
            Some((v1, n1, Err(e))) => Some((v1, n1, Err(e))),
            None => None,
        },
    }
}

/// The instruction of a meta property.
pub open spec fn meta_instruction(k: MetaPropKind, result: Register) -> OpCode {
    match k {
        MetaPropKind::NewTarget => OpCode::NewTarget { result },
        MetaPropKind::ImportMeta => OpCode::ImportMeta { result },
    }
}

/// The instruction that adds or subtracts `one` for an update.
pub open spec fn step_instruction(op: UpdateOp, result: Register, left: Register, right: Register) -> OpCode {
    match op {
        UpdateOp::PlusPlus => OpCode::Add { result, left, right },
        UpdateOp::MinusMinus => OpCode::Sub { result, left, right },
    }
}

/// The IEEE-754 bit pattern of the single-precision `1.0`, which an update
/// loads to add or subtract: the instruction set has no immediate operand.
pub const ONE_F32_BITS: u32 = 0x3f80_0000;

/// The builder and name table after the instruction that writes `from`
/// into variable `name` is emitted; `None` where the write is undefined.
pub open spec fn spec_set_var(
    v: FunctionBuilderView,
    n: Seq<DynamicName>,
    name: crate::function_builder_context::VarName,
    from: Register,
) -> Option<(FunctionBuilderView, Seq<DynamicName>)> {
    if v.ctx.len() > 0 && n.len() < u32::MAX && spec_set(v.ctx, n, name, from) is Some {
        let (c, n2, op) = spec_set(v.ctx, n, name, from)->0;
        Some((emit(with_ctx(v, c), op), n2))
    } else {
        None
    }
}

/// The argument list of a call: it is created at the current stack offset,
/// each argument is written to the next slot (marked for spreading where
/// it is spread), and the list is finished; `None` where the slots would
/// pass the largest stack offset.
pub open spec fn spec_call_args(v: FunctionBuilderView, n: Seq<DynamicName>, args: Seq<ExprOrSpread>) -> Option<
    (FunctionBuilderView, Seq<DynamicName>, Result<(), ErrorView>),
>
    decreases args, args.len() + 1,
{
    let base = current(v.ctx).stack_offset;
    if v.ctx.len() == 0 || base + args.len() > u16::MAX {
        None
    } else {
        let v1 = emit(v, OpCode::CreateArg { stack_offset: base, len: args.len() as u32 });
        match spec_translate_args(v1, n, args, 0, base) {
            Some((v2, n2, Ok(()))) => Some(
                (emit(v2, OpCode::FinishArgs { base_stack_offset: base, len: args.len() as u16 }), n2, Ok(())),
            ),
            other => other,
        }
    }
}

/// The instruction that writes argument `value` to slot `offset`.
pub open spec fn push_arg(spread: bool, value: Register, offset: u16) -> OpCode {
    if spread {
        OpCode::PushArgSpread { value, stack_offset: offset }
    } else {
        OpCode::PushArg { value, stack_offset: offset }
    }
}

/// The arguments of `args` from index `i` on, each computed and written to
/// slot `base + i`.
pub open spec fn spec_translate_args(
    v: FunctionBuilderView,
    n: Seq<DynamicName>,
    args: Seq<ExprOrSpread>,
    i: int,
    base: u16,
) -> Option<(FunctionBuilderView, Seq<DynamicName>, Result<(), ErrorView>)>
    decreases args, args.len() - i,
{
    if i < 0 || i >= args.len() {
        Some((v, n, Ok(())))
    } else {
        match spec_translate_expr(v, n, args[i].expr) {
            Some((v1, n1, Ok(a))) => spec_translate_args(
                emit(v1, push_arg(args[i].spread, a, (base + i) as u16)),
                n1,
                args,
                i + 1,
                base,
            ),
            Some((v1, n1, Err(err))) => Some((v1, n1, Err(err))),
            None => None,
        }
    }
}

/// The translation of the expressions of `es` from index `i` on, in order;
/// the result is the register of the last one, or `r` when none is left.
pub open spec fn spec_translate_exprs(
    v: FunctionBuilderView,
    n: Seq<DynamicName>,
    es: Seq<Expr>,
    i: int,
    r: Register,
) -> Option<(FunctionBuilderView, Seq<DynamicName>, Result<Register, ErrorView>)>
    decreases es, es.len() - i,
{
    if i < 0 || i >= es.len() {
        Some((v, n, Ok(r)))
    } else {
        match spec_translate_expr(v, n, es[i]) {
            Some((v1, n1, Ok(r1))) => spec_translate_exprs(v1, n1, es, i + 1, r1),
            other => other,
        }
    }
}

/// The builder, name table and result register after the value in
/// `value` is bound to the pattern `p` with declaration kind `kind`: a name
/// is declared (or assigned), and a default replaces an undefined value.
pub open spec fn spec_translate_pat_assign(
    v: FunctionBuilderView,
    n: Seq<DynamicName>,
    p: Pat,
    value: Register,
    kind: DeclareKind,
) -> Option<(FunctionBuilderView, Seq<DynamicName>, Result<Register, ErrorView>)>
    decreases p, 0int,
{
    match p {
        Pat::Ident(x) => match spec_declare_var(v, n, x, value, kind) {
            Some((v1, n1)) => Some((v1, n1, Ok(value))),
            None => None,
        },
        Pat::Assign(left, right) => match spec_translate_expr(v, n, *right) {
            Some((v1, n1, Ok(vv))) => {
                let v2 = emit(v1, OpCode::Select { a: value, b: vv, result: v1.r1 });
                match spec_translate_pat_assign(v2, n1, *left, v2.r1, kind) {
                    Some((v3, n3, Ok(_))) => Some((v3, n3, Ok(v3.r1))),
                    other => other,
                }
            },
            other => other,
        },
    }
}

impl FunctionBuilder {
    /// Emit one instruction.
    fn emit(&mut self, op: OpCode)
        ensures
            final(self)@ == emit(old(self)@, op),
    {
        self.bytecode.push(op);
    }

    /// Translate an expression; its value ends in the returned register.
    pub fn translate_expr(&mut self, names: &mut DynamicVarNames, expr: &Expr) -> (r: Result<Register, Error>)
        requires
            old(self).wf(),
            spec_translate_expr(old(self)@, old(names)@, *expr) is Some,
        ensures
            final(self).wf(),
            (final(self)@, final(names)@, result_view(r)) == spec_translate_expr(old(self)@, old(names)@, *expr)->0,
        decreases expr, 1int,
    {
        match expr {
            Expr::This => {
                let r1 = self.r1;
                self.emit(OpCode::LoadThis { result: r1 });
                Ok(r1)
            },
            Expr::Ident(x) => {
                let r1 = self.r1;
                let code = self.ctx.get(names, x, r1);
                self.emit(code);
                Ok(r1)
            },
            Expr::Bool(b) => {
                let r1 = self.r1;
                if *b {
                    self.emit(OpCode::LoadTrue { result: r1 });
                } else {
                    self.emit(OpCode::LoadFalse { result: r1 });
                }
                Ok(r1)
            },
            Expr::Null => {
                let r1 = self.r1;
                self.emit(OpCode::LoadNull { result: r1 });
                Ok(r1)
            },
            Expr::Invalid { lo, hi } => Err(Error::InvalidExpression { pos: Range { start: *lo, end: *hi } }),
            Expr::Paren(x) => {
                self.translate_expr(names, x)?;
                Ok(self.r1)
            },
            Expr::Comma(es) => {
                let mut r = self.r1;
                let mut i: usize = 0;
                let ghost v0 = self@;
                let ghost n0 = names@;
                assert(spec_translate_expr(v0, n0, *expr) == spec_translate_exprs(v0, n0, es@, 0, v0.r1));
                while i < es.len()
                    invariant
                        i <= es@.len(),
                        self.wf(),
                        v0 == old(self)@,
                        n0 == old(names)@,
                        *expr == Expr::Comma(*es),
                        spec_translate_expr(v0, n0, *expr) == spec_translate_exprs(v0, n0, es@, 0, v0.r1),
                        spec_translate_exprs(v0, n0, es@, 0, v0.r1) == spec_translate_exprs(self@, names@, es@, i as int, r),
                        spec_translate_exprs(v0, n0, es@, 0, v0.r1) is Some,
                    decreases es@.len() - i,
                {
                    proof {
                        assert(decreases_to!(*expr => *es));
                        assert(decreases_to!(*es => es@));
                        assert(decreases_to!(es@ => es@[i as int]));
                    }
                    match self.translate_expr(names, &es[i]) {
                        Ok(x) => {
                            r = x;
                        },
                        Err(e) => {
                            return Err(e);
                        },
                    }
                    i = i + 1;
                }
                Ok(r)
            },
            Expr::Unary(op, a) => {
                let arg = self.translate_expr(names, a)?;
                let r1 = self.r1;
                match op {
                    UnaryOp::Bang => self.emit(OpCode::Not { result: r1, right: arg }),
                    UnaryOp::Delete => {},
                    UnaryOp::Minus => self.emit(OpCode::Minus { result: r1, right: arg }),
                    UnaryOp::Plus => self.emit(OpCode::Plus { result: r1, right: arg }),
                    UnaryOp::Tilde => self.emit(OpCode::BitNot { result: r1, right: arg }),
                    UnaryOp::TypeOf => self.emit(OpCode::TypeOf { result: r1, right: arg }),
                    UnaryOp::Void => self.emit(OpCode::LoadUndefined { result: r1 }),
                }
                Ok(r1)
            },
            Expr::Bin(op, l, r) => {
                let lhs = self.translate_expr(names, l)?;
                if *op == BinaryOp::LogicalAnd {
                    if let Expr::Bool(false) = **r {
                        let r1 = self.r1;
                        self.emit(OpCode::LoadFalse { result: r1 });
                        return Ok(r1);
                    }
                }
                let same = match (&**l, &**r) {
                    (Expr::Ident(a), Expr::Ident(b)) => a.sym == b.sym,
                    _ => false,
                };
                let rr;
                if same {
                    let r3 = self.r3;
                    self.emit(OpCode::Mov { from: lhs, to: r3 });
                    rr = lhs;
                } else {
                    self.emit(OpCode::StoreTemp { value: lhs });
                    rr = self.translate_expr(names, r)?;
                    let r3 = self.r3;
                    self.emit(OpCode::ReadTemp { value: r3 });
                }
                let (r1, r3) = (self.r1, self.r3);
                self.emit(bin_code(*op, r1, r3, rr));
                if !same {
                    self.emit(OpCode::ReleaseTemp);
                }
                Ok(r1)
            },
            Expr::Cond(t, a, b) => {
                let tt = self.translate_expr(names, t)?;
                self.emit(OpCode::StoreTemp { value: tt });
                let aa = self.translate_expr(names, a)?;
                self.emit(OpCode::StoreTemp { value: aa });
                let bb = self.translate_expr(names, b)?;
                let (r1, r2, r3) = (self.r1, self.r2, self.r3);
                self.emit(OpCode::Mov { from: bb, to: r3 });
                self.emit(OpCode::ReadTemp { value: r2 });
                self.emit(OpCode::ReleaseTemp);
                self.emit(OpCode::ReadTemp { value: r1 });
                self.emit(OpCode::ReleaseTemp);
                self.emit(OpCode::CondSelect { t: r1, a: r2, b: r3, result: r1 });
                Ok(r1)
            },
            Expr::Assign(p, rhs) => {
                let rr = self.translate_expr(names, rhs)?;
                self.translate_pat_assign(names, p, rr, DeclareKind::Undeclared)?;
                let r1 = self.r1;
                self.emit(OpCode::Mov { from: rr, to: r1 });
                Ok(r1)
            },
            Expr::Await(a) => {
                let x = self.translate_expr(names, a)?;
                let r1 = self.r1;
                if !a.is_literal() {
                    self.emit(OpCode::Await { result: r1, future: x });
                }
                Ok(r1)
            },
            Expr::Yield(arg) => {
                let x = match arg {
                    Some(a) => self.translate_expr(names, a)?,
                    None => {
                        let r2 = self.r2;
                        self.emit(OpCode::LoadUndefined { result: r2 });
                        r2
                    },
                };
                let r1 = self.r1;
                self.emit(OpCode::Yield { result: r1, arg: x });
                Ok(r1)
            },
            Expr::MetaProp(k) => {
                let r1 = self.r1;
                match k {
                    MetaPropKind::NewTarget => self.emit(OpCode::NewTarget { result: r1 }),
                    MetaPropKind::ImportMeta => self.emit(OpCode::ImportMeta { result: r1 }),
                }
                Ok(r1)
            },
            Expr::Member(_, _) => self.translate_member(names, expr),
            Expr::Call(_, _) => self.translate_call(names, expr),
            Expr::New(_, _) => self.translate_new(names, expr),
            Expr::Update(_, _, _) => self.translate_update(names, expr),
            Expr::Fn(f) => {
                let id = self.compile_function(names, f, true)?;
                let r1 = self.r1;
                self.emit(OpCode::CreateFunction { result: r1, id });
                Ok(r1)
            },
            Expr::Class(c) => self.translate_class(names, c),
            Expr::Str(_) | Expr::Dot(_, _) => self.translate_named(names, expr),
            Expr::Arrow(a) => {
                let id = self.compile_arrow(names, a)?;
                let (r1, r2) = (self.r1, self.r2);
                self.emit(OpCode::LoadThis { result: r2 });
                self.emit(OpCode::CreateArrow { result: r1, this: r2, id });
                Ok(r1)
            },
        }
    }

    /// Bind the value in `value` to the pattern `pat`, declaring its names
    /// with kind `declare` (or assigning them, for `Undeclared`).
    pub fn translate_pat_assign(
        &mut self,
        names: &mut DynamicVarNames,
        pat: &Pat,
        value: Register,
        declare: DeclareKind,
    ) -> (r: Result<Register, Error>)
        requires
            old(self).wf(),
            spec_translate_pat_assign(old(self)@, old(names)@, *pat, value, declare) is Some,
        ensures
            final(self).wf(),
            (final(self)@, final(names)@, result_view(r)) == spec_translate_pat_assign(
                old(self)@,
                old(names)@,
                *pat,
                value,
                declare,
            )->0,
        decreases pat, 1int,
    {
        match pat {
            Pat::Ident(x) => {
                let code = self.ctx.declare(names, *x, value, declare);
                self.emit(code);
                Ok(value)
            },
            Pat::Assign(left, right) => {
                let vv = self.translate_expr(names, right)?;
                let r1 = self.r1;
                self.emit(OpCode::Select { a: value, b: vv, result: r1 });
                self.translate_pat_assign(names, left, r1, declare)?;
                Ok(self.r1)
            },
        }
    }
}

impl FunctionBuilder {
    /// A string literal, numbered in the table of strings, or `obj.name`, the
    /// name numbered in the table of property names.
    fn translate_named(&mut self, names: &mut DynamicVarNames, expr: &Expr) -> (r: Result<Register, Error>)
        requires
            old(self).wf(),
            spec_translate_expr(old(self)@, old(names)@, *expr) is Some,
            expr is Str || expr is Dot,
        ensures
            final(self).wf(),
            (final(self)@, final(names)@, result_view(r)) == spec_translate_expr(old(self)@, old(names)@, *expr)->0,
        decreases expr, 0int,
    {
        match expr {
            Expr::Str(text) => {
                let id = self.table.register_string(text.as_str());
                let r1 = self.r1;
                self.emit(OpCode::LoadStaticString { result: r1, id: StringID(id) });
                Ok(r1)
            },
            Expr::Dot(o, name) => {
                let obj = self.translate_expr(names, o)?;
                let id = self.table.register_field_name(name.as_str());
                let r1 = self.r1;
                let off = self.ctx.current_stack_offset();
                let c = CompactRegister::from_registers(obj, r1);
                self.emit(OpCode::ReadFieldStatic { obj_result: c, field_id: id, stack_offset: off });
                Ok(r1)
            },
            _ => Ok(self.r1),
        }
    }

    /// `obj[prop]`: the object is kept in a temporary slot while the
    /// property is computed, then the field is read.
    fn translate_member(&mut self, names: &mut DynamicVarNames, expr: &Expr) -> (r: Result<Register, Error>)
        requires
            old(self).wf(),
            spec_translate_expr(old(self)@, old(names)@, *expr) is Some,
            expr is Member,
        ensures
            final(self).wf(),
            (final(self)@, final(names)@, result_view(r)) == spec_translate_expr(old(self)@, old(names)@, *expr)->0,
        decreases expr, 0int,
    {
        match expr {
            Expr::Member(o, p) => {
                let obj = self.translate_expr(names, o)?;
                self.emit(OpCode::StoreTemp { value: obj });
                let key = self.translate_expr(names, p)?;
                let (r1, r2) = (self.r1, self.r2);
                self.emit(OpCode::Mov { from: key, to: r1 });
                self.emit(OpCode::ReadTemp { value: r2 });
                self.emit(OpCode::ReleaseTemp);
                let off = self.ctx.current_stack_offset();
                self.emit(OpCode::ReadField { obj: r2, field: key, result: r1, stack_offset: off });
                Ok(r1)
            },
            _ => Ok(self.r1),
        }
    }

    /// The argument list of a call, written to the stack from the current
    /// stack offset on.
    fn translate_args(&mut self, names: &mut DynamicVarNames, args: &Vec<ExprOrSpread>) -> (r: Result<(), Error>)
        requires
            old(self).wf(),
            spec_call_args(old(self)@, old(names)@, args@) is Some,
        ensures
            final(self).wf(),
            (final(self)@, final(names)@, result_view(r)) == spec_call_args(old(self)@, old(names)@, args@)->0,
        decreases args, 0int,
    {
        let base = self.ctx.current_stack_offset();
        let len = args.len();
        self.emit(OpCode::CreateArg { stack_offset: base, len: len as u32 });
        let ghost v1 = self@;
        let ghost n1 = names@;
        assert(spec_translate_args(v1, n1, args@, 0, base) matches Some((_, _, Err(_))) ==> spec_call_args(
            old(self)@,
            old(names)@,
            args@,
        ) == spec_translate_args(v1, n1, args@, 0, base));
        let mut i: usize = 0;
        while i < len
            invariant
                spec_translate_args(v1, n1, args@, 0, base) matches Some((_, _, Err(_))) ==> spec_call_args(
                    old(self)@,
                    old(names)@,
                    args@,
                ) == spec_translate_args(v1, n1, args@, 0, base),
                len == args@.len(),
                base + len <= u16::MAX,
                i <= len,
                self.wf(),
                v1 == emit(old(self)@, OpCode::CreateArg { stack_offset: base, len: len as u32 }),
                n1 == old(names)@,
                base == current(old(self)@.ctx).stack_offset,
                spec_translate_args(v1, n1, args@, 0, base) == spec_translate_args(self@, names@, args@, i as int, base),
                spec_translate_args(v1, n1, args@, 0, base) is Some,
            decreases len - i,
        {
            proof {
                assert(decreases_to!(args => args@));
                assert(decreases_to!(args@ => args@[i as int]));
                assert(decreases_to!(args@[i as int] => args@[i as int].expr));
            }
            let a = match self.translate_expr(names, &args[i].expr) {
                Ok(a) => a,
                Err(e) => {
                    assert(spec_translate_args(v1, n1, args@, 0, base) == Some((self@, names@, Err::<(), ErrorView>(e@))));
                    return Err(e);
                },
            };
            let off: u16 = base + (i as u16);
            if args[i].spread {
                self.emit(OpCode::PushArgSpread { value: a, stack_offset: off });
            } else {
                self.emit(OpCode::PushArg { value: a, stack_offset: off });
            }
            i = i + 1;
        }
        self.emit(OpCode::FinishArgs { base_stack_offset: base, len: len as u16 });
        Ok(())
    }

    /// `callee(args)`: the arguments, then the callee, called with the
    /// object of a member callee as `this`, else with the current `this`.
    fn translate_call(&mut self, names: &mut DynamicVarNames, expr: &Expr) -> (r: Result<Register, Error>)
        requires
            old(self).wf(),
            spec_translate_expr(old(self)@, old(names)@, *expr) is Some,
            expr is Call,
        ensures
            final(self).wf(),
            (final(self)@, final(names)@, result_view(r)) == spec_translate_expr(old(self)@, old(names)@, *expr)->0,
        decreases expr, 0int,
    {
        match expr {
            Expr::Call(callee, args) => {
                self.translate_args(names, args)?;
                match &**callee {
                    Expr::Member(o, _) => {
                        let obj = self.translate_expr(names, o)?;
                        self.emit(OpCode::StoreTemp { value: obj });
                        let c = self.translate_expr(names, callee)?;
                        let (r1, r3) = (self.r1, self.r3);
                        self.emit(OpCode::ReadTemp { value: r3 });
                        let off = self.ctx.current_stack_offset();
                        self.emit(OpCode::Call { result: r1, this: r3, callee: c, stack_offset: off });
                        self.emit(OpCode::ReleaseTemp);
                        Ok(r1)
                    },
                    _ => {
                        let c = self.translate_expr(names, callee)?;
                        let (r1, r3) = (self.r1, self.r3);
                        self.emit(OpCode::LoadThis { result: r3 });
                        let off = self.ctx.current_stack_offset();
                        self.emit(OpCode::Call { result: r1, this: r3, callee: c, stack_offset: off });
                        Ok(r1)
                    },
                }
            },
            _ => Ok(self.r1),
        }
    }

    /// `new callee(args)`: the arguments, if any, then the callee.
    fn translate_new(&mut self, names: &mut DynamicVarNames, expr: &Expr) -> (r: Result<Register, Error>)
        requires
            old(self).wf(),
            spec_translate_expr(old(self)@, old(names)@, *expr) is Some,
            expr is New,
        ensures
            final(self).wf(),
            (final(self)@, final(names)@, result_view(r)) == spec_translate_expr(old(self)@, old(names)@, *expr)->0,
        decreases expr, 0int,
    {
        match expr {
            Expr::New(callee, args) => {
                match args {
                    Some(a) => {
                        proof {
                            assert(decreases_to!(*expr => *args));
                            assert(decreases_to!(*args => *a));
                        }
                        self.translate_args(names, a)?;
                    },
                    None => {},
                }
                let c = self.translate_expr(names, callee)?;
                let r1 = self.r1;
                let off = self.ctx.current_stack_offset();
                self.emit(OpCode::New { result: r1, callee: c, stack_offset: off });
                Ok(r1)
            },
            _ => Ok(self.r1),
        }
    }

    /// `++arg`, `arg--` and the like: one is added or subtracted, the sum
    /// written back to the variable or field, and the new value (prefix) or
    /// the old one (postfix) is the result.
    fn translate_update(&mut self, names: &mut DynamicVarNames, expr: &Expr) -> (r: Result<Register, Error>)
        requires
            old(self).wf(),
            spec_translate_expr(old(self)@, old(names)@, *expr) is Some,
            expr is Update,
        ensures
            final(self).wf(),
            (final(self)@, final(names)@, result_view(r)) == spec_translate_expr(old(self)@, old(names)@, *expr)->0,
        decreases expr, 0int,
    {
        match expr {
            Expr::Update(op, prefix, arg) => {
                let value = self.translate_expr(names, arg)?;
                let (r1, r2, r3) = (self.r1, self.r2, self.r3);
                self.emit(OpCode::LoadStaticFloat32 { result: r2, value: ONE_F32_BITS });
                match op {
                    UpdateOp::PlusPlus => self.emit(OpCode::Add { result: r3, left: value, right: r2 }),
                    UpdateOp::MinusMinus => self.emit(OpCode::Sub { result: r3, left: value, right: r2 }),
                }
                match &**arg {
                    Expr::Ident(x) => {
                        let code = self.ctx.set(names, *x, r3);
                        self.emit(code);
                        if *prefix {
                            self.emit(OpCode::Mov { from: r3, to: r1 });
                        } else {
                            self.emit(OpCode::Mov { from: value, to: r1 });
                        }
                        Ok(r1)
                    },
                    Expr::Member(o, k) => {
                        if !*prefix {
                            self.emit(OpCode::StoreTemp { value });
                        }
                        self.emit(OpCode::StoreTemp { value: r3 });
                        let obj = self.translate_expr(names, o)?;
                        self.emit(OpCode::StoreTemp { value: obj });
                        let key = self.translate_expr(names, k)?;
                        let (r1, r2, r3) = (self.r1, self.r2, self.r3);
                        self.emit(OpCode::ReadTemp { value: r2 });
                        self.emit(OpCode::ReleaseTemp);
                        self.emit(OpCode::ReadTemp { value: r3 });
                        let off = self.ctx.current_stack_offset();
                        self.emit(OpCode::WriteField { obj: r2, field: key, value: r3, stack_offset: off });
                        if *prefix {
                            self.emit(OpCode::ReadTemp { value: r1 });
                        }
                        self.emit(OpCode::ReleaseTemp);
                        if !*prefix {
                            self.emit(OpCode::ReadTemp { value: r1 });
                            self.emit(OpCode::ReleaseTemp);
                        }
                        Ok(r1)
                    },
                    _ => Ok(r1),
                }
            },
            _ => Ok(self.r1),
        }
    }
}

/// The instruction of a binary operator.
fn bin_code(op: BinaryOp, result: Register, left: Register, right: Register) -> (r: OpCode)
    ensures
        r == bin_instruction(op, result, left, right),
{
    match op {
        BinaryOp::Add => OpCode::Add { result, left, right },
        BinaryOp::BitAnd => OpCode::BitAnd { result, left, right },
        BinaryOp::BitOr => OpCode::BitOr { result, left, right },
        BinaryOp::BitXor => OpCode::BitXor { result, left, right },
        BinaryOp::Div => OpCode::Div { result, left, right },
        BinaryOp::EqEq => OpCode::EqEq { result, left, right },
        BinaryOp::EqEqEq => OpCode::EqEqEq { result, left, right },
        BinaryOp::Exp => OpCode::Exp { result, left, right },
        BinaryOp::Gt => OpCode::Gt { result, left, right },
        BinaryOp::GtEq => OpCode::Add { result, left, right },
        BinaryOp::In => OpCode::In { result, left, right },
        BinaryOp::InstanceOf => OpCode::InstanceOf { result, left, right },
        BinaryOp::LShift => OpCode::LShift { result, left, right },
        BinaryOp::LogicalAnd => OpCode::And { result, left, right },
        BinaryOp::LogicalOr => OpCode::Or { result, left, right },
        BinaryOp::Lt => OpCode::Lt { result, left, right },
        BinaryOp::LtEq => OpCode::LtEq { result, left, right },
        BinaryOp::Mod => OpCode::Rem { result, left, right },
        BinaryOp::Mul => OpCode::Mul { result, left, right },
        BinaryOp::NotEq => OpCode::NotEq { result, left, right },
        BinaryOp::NotEqEq => OpCode::NotEqEq { result, left, right },
        BinaryOp::NullishCoalescing => OpCode::Nullish { result, left, right },
        BinaryOp::RShift => OpCode::RShift { result, left, right },
        BinaryOp::Sub => OpCode::Sub { result, left, right },
        BinaryOp::ZeroFillRShift => OpCode::ZeroFillRShift { result, left, right },
    }
}

/// Closing the current scope is allowed: the global scope is never
/// closed, and another scope must have no pending captures.
pub open spec fn close_ok(c: Seq<FrameView>) -> bool {
    c.len() > 1 ==> current(c).need_done.len() == 0
}

/// The builder after a block scope is opened.
pub open spec fn open_scope(v: FunctionBuilderView) -> FunctionBuilderView {
    with_ctx(v, with_block_scope(v.ctx))
}

/// The builder after its current scope is closed.
pub open spec fn close_scope(v: FunctionBuilderView) -> FunctionBuilderView {
    with_ctx(v, closed_scope(v.ctx))
}

/// The label of a `break` or `continue` as characters.
pub open spec fn string_label(l: Option<String>) -> Option<Seq<char>> {
    match l {
        Some(s) => Some(s@),
        None => None,
    }
}

/// The error of a `break` or `continue` whose loop is not found.
pub open spec fn jump_error(l: Option<String>) -> ErrorView {
    match l {
        Some(s) => ErrorView::LabelUndefined(s@),
        None => ErrorView::IllegalBreak,
    }
}

/// The declaration kind of a variable declaration.
pub open spec fn declare_kind(k: VarDeclKind) -> DeclareKind {
    match k {
        VarDeclKind::Var => DeclareKind::Var,
        VarDeclKind::Let => DeclareKind::Let,
        VarDeclKind::Const => DeclareKind::Const,
    }
}

/// The result `r` of switch tests with the blocks `p` put before the
/// blocks it lists.
pub open spec fn prepend_blocks(
    p: Seq<Block>,
    r: Option<(FunctionBuilderView, Seq<DynamicName>, Result<Seq<Block>, ErrorView>)>,
) -> Option<(FunctionBuilderView, Seq<DynamicName>, Result<Seq<Block>, ErrorView>)> {
    match r {
        Some((v, n, Ok(bs))) => Some((v, n, Ok(p + bs))),
        other => other,
    }
}

/// The tests of the cases of `cases` from index `i` on: a case with a test
/// gets a block, entered when its value is strictly equal to the value in
/// the current temporary slot; the default case's statements are generated
/// where it stands, followed by a jump to `exit`. The blocks are listed in
/// order.
pub open spec fn spec_switch_tests(
    v: FunctionBuilderView,
    n: Seq<DynamicName>,
    cases: Seq<SwitchCase>,
    i: int,
    exit: Block,
) -> Option<(FunctionBuilderView, Seq<DynamicName>, Result<Seq<Block>, ErrorView>)>
    decreases cases, cases.len() - i,
{
    if i < 0 || i >= cases.len() {
        Some((v, n, Ok(seq![])))
    } else {
        match cases[i].test {
            Some(t) => if v.block_count >= u32::MAX {
                None
            } else {
                let (v1, b) = spec_create_block(v);
                match spec_translate_expr(v1, n, t) {
                    Some((v2, n2, Ok(c))) => {
                        let v3 = emit(
                            emit(
                                emit(v2, OpCode::ReadTemp { value: v2.r2 }),
                                OpCode::EqEqEq { result: v2.r1, left: c, right: v2.r2 },
                            ),
                            OpCode::JumpIfTrue { value: v2.r1, to: b, line: 0 },
                        );
                        prepend_blocks(seq![b], spec_switch_tests(v3, n2, cases, i + 1, exit))
                    },
                    Some((v2, n2, Err(e))) => Some((v2, n2, Err(e))),
                    None => None,
                }
            },
            None => match spec_translate_statements(open_scope(v), n, cases[i].cons@, 0) {
                Some((v1, n1, Ok(()))) => if close_ok(v1.ctx) {
                    spec_switch_tests(emit(close_scope(v1), OpCode::Jump { to: exit, line: 0 }), n1, cases, i + 1, exit)
                } else {
                    None
                },
                Some((v1, n1, Err(e))) => Some((v1, n1, Err(e))),
                None => None,
            },
        }
    }
}

/// The bodies of the cases with a test, from case `k` on, the `j`th such
/// case in the block `blocks[j]`, each in a scope of its own and followed by
/// a jump to `exit`; then generation continues in `exit`.
pub open spec fn spec_switch_bodies(
    v: FunctionBuilderView,
    n: Seq<DynamicName>,
    cases: Seq<SwitchCase>,
    blocks: Seq<Block>,
    k: int,
    j: int,
    exit: Block,
) -> Option<(FunctionBuilderView, Seq<DynamicName>, Result<(), ErrorView>)>
    decreases cases, cases.len() - k,
{
    if k < 0 || k >= cases.len() {
        Some((emit(v, OpCode::SwitchToBlock(exit)), n, Ok(())))
    } else if cases[k].test is None {
        spec_switch_bodies(v, n, cases, blocks, k + 1, j, exit)
    } else if j < 0 || j >= blocks.len() {
        None
    } else {
        let v1 = emit(v, OpCode::SwitchToBlock(blocks[j]));
        match spec_translate_statements(open_scope(v1), n, cases[k].cons@, 0) {
            Some((v2, n2, Ok(()))) => if close_ok(v2.ctx) {
                spec_switch_bodies(
                    emit(close_scope(v2), OpCode::Jump { to: exit, line: 0 }),
                    n2,
                    cases,
                    blocks,
                    k + 1,
                    j + 1,
                    exit,
                )
            } else {
                None
            },
            other => other,
        }
    }
}

/// A `switch` statement after its value is computed: an exit block, the
/// tests, a jump to the exit for a value no case matches, and the bodies.
/// The cases compare their value with the current temporary slot, which
/// the statement itself does not fill.
pub open spec fn spec_switch_rest(v: FunctionBuilderView, n: Seq<DynamicName>, cases: Seq<SwitchCase>) -> Option<
    (FunctionBuilderView, Seq<DynamicName>, Result<(), ErrorView>),
>
    decreases cases, cases.len() + 2,
{
    if v.block_count >= u32::MAX {
        None
    } else {
        let (v1, exit) = spec_create_block(v);
        match spec_switch_tests(v1, n, cases, 0, exit) {
            Some((v2, n2, Ok(bs))) => spec_switch_bodies(
                emit(v2, OpCode::Jump { to: exit, line: 0 }),
                n2,
                cases,
                bs,
                0,
                0,
                exit,
            ),
            Some((v2, n2, Err(e))) => Some((v2, n2, Err(e))),
            None => None,
        }
    }
}

/// The model of the blocks listed by switch tests.
pub open spec fn blocks_view(r: Result<Vec<Block>, Error>) -> Result<Seq<Block>, ErrorView> {
    match r {
        Ok(b) => Ok(b@),
        Err(e) => Err(e@),
    }
}

proof fn lemma_prepend_empty(r: Option<(FunctionBuilderView, Seq<DynamicName>, Result<Seq<Block>, ErrorView>)>)
    ensures
        prepend_blocks(seq![], r) == r,
{
    if let Some((v, n, Ok(bs))) = r {
        assert(Seq::<Block>::empty() + bs =~= bs);
    }
}

proof fn lemma_prepend_assoc(
    p: Seq<Block>,
    q: Seq<Block>,
    r: Option<(FunctionBuilderView, Seq<DynamicName>, Result<Seq<Block>, ErrorView>)>,
)
    ensures
        prepend_blocks(p, prepend_blocks(q, r)) == prepend_blocks(p + q, r),
{
    if let Some((v, n, Ok(bs))) = r {
        assert(p + (q + bs) =~= (p + q) + bs);
    }
}

/// The builder, name table and outcome after the statement `s` is
/// translated, `label` being the label it carries; `None` where the
/// translation is undefined (a counter or table is exhausted, a scope with
/// pending captures would be closed, or an expression is undefined).
pub open spec fn spec_translate_statement(
    v: FunctionBuilderView,
    n: Seq<DynamicName>,
    label: Option<Seq<char>>,
    s: Stmt,
) -> Option<(FunctionBuilderView, Seq<DynamicName>, Result<(), ErrorView>)>
    decreases s, 3int,
{
    match s {
        Stmt::Block(ss) => match spec_translate_statements(open_scope(v), n, ss@, 0) {
            Some((v1, n1, Ok(()))) => if close_ok(v1.ctx) {
                Some((close_scope(v1), n1, Ok(())))
            } else {
                None
            },
            other => other,
        },
        Stmt::Break(l) => match target_loop(v.loops, string_label(l)) {
            Some(i) => Some((emit(v, OpCode::Jump { to: v.loops[i].exit, line: 0 }), n, Ok(()))),
            None => Some((v, n, Err(jump_error(l)))),
        },
        Stmt::Continue(l) => match target_loop(v.loops, string_label(l)) {
            Some(i) => Some((emit(v, OpCode::Jump { to: v.loops[i].continue_, line: 0 }), n, Ok(()))),
            None => Some((v, n, Err(jump_error(l)))),
        },
        Stmt::Debugger => Some((emit(v, OpCode::Debugger), n, Ok(()))),
        Stmt::Empty => Some((v, n, Ok(()))),
        Stmt::Expr(e) => match spec_translate_expr(v, n, *e) {
            Some((v1, n1, Ok(_))) => Some((v1, n1, Ok(()))),
            Some((v1, n1, Err(err))) => Some((v1, n1, Err(err))),
            None => None,
        },
        Stmt::DoWhile(body, test) => if v.block_count + 2 > u32::MAX {
            None
        } else {
            let (v1, header, exit) = spec_start_loop(v, label);
            match spec_translate_statement(open_scope(v1), n, None, *body) {
                Some((v2, n2, Ok(()))) => match spec_translate_expr(v2, n2, *test) {
                    Some((v3, n3, Ok(val))) => {
                        let v4 = emit(
                            emit(v3, OpCode::JumpIfFalse { value: val, to: exit, line: 0 }),
                            OpCode::Jump { to: header, line: 0 },
                        );
                        if close_ok(v4.ctx) && close_scope(v4).loops.len() > 0 {
                            Some((spec_end_loop(close_scope(v4)), n3, Ok(())))
                        } else {
                            None
                        }
                    },
                    Some((v3, n3, Err(err))) => Some((v3, n3, Err(err))),
                    None => None,
                },
                other => other,
            }
        },
        Stmt::While(test, body) => if v.block_count + 2 > u32::MAX {
            None
        } else {
            let (v1, header, exit) = spec_start_loop(v, label);
            match spec_translate_expr(open_scope(v1), n, *test) {
                Some((v2, n2, Ok(val))) => {
                    let v3 = emit(v2, OpCode::JumpIfFalse { value: val, to: exit, line: 0 });
                    match spec_translate_statement(v3, n2, None, *body) {
                        Some((v4, n4, Ok(()))) => {
                            let v5 = emit(v4, OpCode::Jump { to: header, line: 0 });
                            if close_ok(v5.ctx) && close_scope(v5).loops.len() > 0 {
                                Some((spec_end_loop(close_scope(v5)), n4, Ok(())))
                            } else {
                                None
                            }
                        },
                        other => other,
                    }
                },
                Some((v2, n2, Err(err))) => Some((v2, n2, Err(err))),
                None => None,
            }
        },
        Stmt::If(test, cons, alt) => if v.block_count + 2 > u32::MAX {
            None
        } else {
            let (v1, cond) = spec_create_block(v);
            let (v2, exit) = spec_create_block(v1);
            match spec_translate_expr(v2, n, *test) {
                Some((v3, n3, Ok(value))) => {
                    let v4 = emit(v3, OpCode::JumpIfTrue { value, to: cond, line: 0 });
                    let else_part = match alt {
                        Some(a) => match spec_translate_statement(open_scope(v4), n3, None, *a) {
                            Some((v5, n5, Ok(()))) => if close_ok(v5.ctx) {
                                Some((close_scope(v5), n5, Ok(())))
                            } else {
                                None
                            },
                            other => other,
                        },
                        None => Some((v4, n3, Ok(()))),
                    };
                    match else_part {
                        Some((v6, n6, Ok(()))) => {
                            let v7 = emit(
                                emit(v6, OpCode::Jump { to: exit, line: 0 }),
                                OpCode::SwitchToBlock(cond),
                            );
                            match spec_translate_statement(open_scope(v7), n6, None, *cons) {
                                Some((v8, n8, Ok(()))) => if close_ok(v8.ctx) {
                                    let v9 = emit(
                                        emit(close_scope(v8), OpCode::Jump { to: exit, line: 0 }),
                                        OpCode::SwitchToBlock(exit),
                                    );
                                    Some((v9, n8, Ok(())))
                                } else {
                                    None
                                },
                                other => other,
                            }
                        },
                        other => other,
                    }
                },
                Some((v3, n3, Err(err))) => Some((v3, n3, Err(err))),
                None => None,
            }
        },
        Stmt::Labeled(l, body) => spec_translate_statement(v, n, Some(l@), *body),
        Stmt::Return(arg) => match arg {
            Some(e) => match spec_translate_expr(v, n, *e) {
                Some((v1, n1, Ok(r))) => Some((emit(v1, OpCode::Return { value: r }), n1, Ok(()))),
                Some((v1, n1, Err(err))) => Some((v1, n1, Err(err))),
                None => None,
            },
            None => Some(
                (
                    emit(emit(v, OpCode::LoadUndefined { result: v.r1 }), OpCode::Return { value: v.r1 }),
                    n,
                    Ok(()),
                ),
            ),
        },
        Stmt::Throw(e) => match spec_translate_expr(v, n, *e) {
            Some((v1, n1, Ok(r))) => Some((emit(v1, OpCode::Throw { value: r }), n1, Ok(()))),
            Some((v1, n1, Err(err))) => Some((v1, n1, Err(err))),
            None => None,
        },
        Stmt::Var(kind, decls) => spec_translate_declarators(v, n, declare_kind(kind), decls@, 0),
        Stmt::FnDecl(name, f) => match spec_compile_function(v, n, f, true) {
            Some((v1, n1, Ok(id))) => {
                let v2 = emit(v1, OpCode::CreateFunction { result: v1.r1, id });
                match spec_declare_var(v2, n1, name, v2.r1, DeclareKind::Let) {
                    Some((v3, n3)) => Some((v3, n3, Ok(()))),
                    None => None,
                }
            },
            Some((v1, n1, Err(e))) => Some((v1, n1, Err(e))),
            None => None,
        },
        Stmt::Switch(d, cases) => match spec_translate_expr(v, n, *d) {
            Some((v1, n1, Ok(_))) => spec_switch_rest(v1, n1, cases@),
            Some((v1, n1, Err(e))) => Some((v1, n1, Err(e))),
            None => None,
        },
        Stmt::ClassDecl(name, c) => match spec_translate_class(v, n, c) {
            Some((v1, n1, Ok(r))) => match spec_declare_var(v1, n1, name, r, DeclareKind::Let) {
                Some((v2, n2)) => Some((v2, n2, Ok(()))),
                None => None,
            },
            Some((v1, n1, Err(e))) => Some((v1, n1, Err(e))),
            None => None,
        },
    }
}

/// The statements of `ss` from index `i` on, translated in order; the
/// first error ends the translation.
pub open spec fn spec_translate_statements(
    v: FunctionBuilderView,
    n: Seq<DynamicName>,
    ss: Seq<Stmt>,
    i: int,
) -> Option<(FunctionBuilderView, Seq<DynamicName>, Result<(), ErrorView>)>
    decreases ss, ss.len() - i,
{
    if i < 0 || i >= ss.len() {
        Some((v, n, Ok(())))
    } else {
        match spec_translate_statement(v, n, None, ss[i]) {
            Some((v1, n1, Ok(()))) => spec_translate_statements(v1, n1, ss, i + 1),
            other => other,
        }
    }
}

/// The declarators of `ds` from index `i` on, translated in order: the
/// initial value (or `undefined`) is computed and bound to the pattern; an
/// error of the binding itself is not reported.
pub open spec fn spec_translate_declarators(
    v: FunctionBuilderView,
    n: Seq<DynamicName>,
    kind: DeclareKind,
    ds: Seq<(Pat, Option<Expr>)>,
    i: int,
) -> Option<(FunctionBuilderView, Seq<DynamicName>, Result<(), ErrorView>)>
    decreases ds, ds.len() - i,
{
    if i < 0 || i >= ds.len() {
        Some((v, n, Ok(())))
    } else {
        let value = match ds[i].1 {
            Some(e) => spec_translate_expr(v, n, e),
            None => Some((emit(v, OpCode::LoadUndefined { result: v.r1 }), n, Ok(v.r1))),
        };
        match value {
            Some((v1, n1, Ok(r))) => match spec_translate_pat_assign(v1, n1, ds[i].0, r, kind) {
                Some((v2, n2, _)) => spec_translate_declarators(v2, n2, kind, ds, i + 1),
                None => None,
            },
            Some((v1, n1, Err(err))) => Some((v1, n1, Err(err))),
            None => None,
        }
    }
}

impl FunctionBuilder {
    /// Translate a statement; `label` is the label it carries, which a loop
    /// takes as its own.
    pub fn translate_statement(&mut self, names: &mut DynamicVarNames, label: Option<&str>, stmt: &Stmt) -> (r: Result<(), Error>)
        requires
            old(self).wf(),
            spec_translate_statement(old(self)@, old(names)@, label_view(label), *stmt) is Some,
        ensures
            final(self).wf(),
            (final(self)@, final(names)@, result_view(r)) == spec_translate_statement(
                old(self)@,
                old(names)@,
                label_view(label),
                *stmt,
            )->0,
        decreases stmt, 3int,
    {
        match stmt {
            Stmt::Block(_) => self.translate_block(names, label, stmt),
            Stmt::Break(l) => {
                match l {
                    Some(s) => self.translate_break(Some(s.as_str())),
                    None => self.translate_break(None),
                }
            },
            Stmt::Continue(l) => {
                match l {
                    Some(s) => self.translate_continue(Some(s.as_str())),
                    None => self.translate_continue(None),
                }
            },
            Stmt::Debugger => {
                self.emit(OpCode::Debugger);
                Ok(())
            },
            Stmt::Empty => Ok(()),
            Stmt::Expr(e) => {
                self.translate_expr(names, e)?;
                Ok(())
            },
            Stmt::DoWhile(_, _) => self.translate_do_while(names, label, stmt),
            Stmt::While(_, _) => self.translate_while(names, label, stmt),
            Stmt::If(_, _, _) => self.translate_if(names, label, stmt),
            Stmt::Labeled(l, body) => self.translate_statement(names, Some(l.as_str()), body),
            Stmt::Return(arg) => {
                let r = match arg {
                    Some(e) => self.translate_expr(names, e)?,
                    None => {
                        let r1 = self.r1;
                        self.emit(OpCode::LoadUndefined { result: r1 });
                        r1
                    },
                };
                self.emit(OpCode::Return { value: r });
                Ok(())
            },
            Stmt::Throw(e) => {
                let r = self.translate_expr(names, e)?;
                self.emit(OpCode::Throw { value: r });
                Ok(())
            },
            Stmt::Var(_, _) => self.translate_var_decl(names, label, stmt),
            Stmt::FnDecl(name, f) => {
                let id = self.compile_function(names, f, true)?;
                let r1 = self.r1;
                self.emit(OpCode::CreateFunction { result: r1, id });
                let code = self.ctx.declare(names, *name, r1, DeclareKind::Let);
                self.emit(code);
                Ok(())
            },
            Stmt::Switch(d, cases) => {
                self.translate_expr(names, d)?;
                self.translate_switch_rest(names, cases)
            },
            Stmt::ClassDecl(name, c) => {
                let r = self.translate_class(names, c)?;
                let code = self.ctx.declare(names, *name, r, DeclareKind::Let);
                self.emit(code);
                Ok(())
            },
        }
    }

    /// The declarators of a variable declaration: each initial value (or
    /// `undefined`) bound to its pattern in turn.
    fn translate_declarators(&mut self, names: &mut DynamicVarNames, k: DeclareKind, decls: &Vec<(Pat, Option<Expr>)>) -> (r: Result<(), Error>)
        requires
            old(self).wf(),
            spec_translate_declarators(old(self)@, old(names)@, k, decls@, 0) is Some,
        ensures
            final(self).wf(),
            (final(self)@, final(names)@, result_view(r)) == spec_translate_declarators(old(self)@, old(names)@, k, decls@, 0)->0,
        decreases decls, 0int,
    {
        let ghost v0 = self@;
        let ghost n0 = names@;
        let mut i: usize = 0;
        while i < decls.len()
            invariant
                i <= decls@.len(),
                self.wf(),
                v0 == old(self)@,
                n0 == old(names)@,
                spec_translate_declarators(v0, n0, k, decls@, 0) == spec_translate_declarators(
                    self@,
                    names@,
                    k,
                    decls@,
                    i as int,
                ),
                spec_translate_declarators(v0, n0, k, decls@, 0) is Some,
            decreases decls@.len() - i,
        {
            proof {
                assert(decreases_to!(decls => decls@));
                assert(decreases_to!(decls@ => decls@[i as int]));
            }
            let value = match &decls[i].1 {
                Some(e) => self.translate_expr(names, e)?,
                None => {
                    let r1 = self.r1;
                    self.emit(OpCode::LoadUndefined { result: r1 });
                    r1
                },
            };
            let _ = self.translate_pat_assign(names, &decls[i].0, value, k);
            i = i + 1;
        }
        Ok(())
    }

    /// A `switch` statement after its value is computed.
    fn translate_switch_rest(&mut self, names: &mut DynamicVarNames, cases: &Vec<SwitchCase>) -> (r: Result<(), Error>)
        requires
            old(self).wf(),
            spec_switch_rest(old(self)@, old(names)@, cases@) is Some,
        ensures
            final(self).wf(),
            (final(self)@, final(names)@, result_view(r)) == spec_switch_rest(old(self)@, old(names)@, cases@)->0,
        decreases cases, 2int,
    {
        let exit = self.create_block();
        let blocks = match self.translate_switch_tests(names, cases, exit) {
            Ok(b) => b,
            Err(e) => {
                return Err(e);
            },
        };
        self.emit(OpCode::Jump { to: exit, line: 0 });
        self.translate_switch_bodies(names, cases, &blocks, exit)
    }

    /// The tests of the cases of a `switch`, with the blocks of the cases
    /// that have a test.
    fn translate_switch_tests(&mut self, names: &mut DynamicVarNames, cases: &Vec<SwitchCase>, exit: Block) -> (r: Result<Vec<Block>, Error>)
        requires
            old(self).wf(),
            spec_switch_tests(old(self)@, old(names)@, cases@, 0, exit) is Some,
        ensures
            final(self).wf(),
            (final(self)@, final(names)@, blocks_view(r)) == spec_switch_tests(old(self)@, old(names)@, cases@, 0, exit)->0,
        decreases cases, 1int,
    {
        let ghost v0 = self@;
        let ghost n0 = names@;
        let mut blocks: Vec<Block> = Vec::new();
        assert(prepend_blocks(blocks@, spec_switch_tests(v0, n0, cases@, 0, exit)) == spec_switch_tests(v0, n0, cases@, 0, exit)) by {
            lemma_prepend_empty(spec_switch_tests(v0, n0, cases@, 0, exit));
        }
        let mut i: usize = 0;
        while i < cases.len()
            invariant
                i <= cases@.len(),
                self.wf(),
                spec_switch_tests(v0, n0, cases@, 0, exit) == prepend_blocks(
                    blocks@,
                    spec_switch_tests(self@, names@, cases@, i as int, exit),
                ),
                spec_switch_tests(v0, n0, cases@, 0, exit) is Some,
                v0 == old(self)@,
                n0 == old(names)@,
            decreases cases@.len() - i,
        {
            proof {
                assert(decreases_to!(cases => cases@));
                assert(decreases_to!(cases@ => cases@[i as int]));
            }
            let ghost cur = self@;
            let ghost ncur = names@;
            match &cases[i].test {
                Some(t) => {
                    let b = self.create_block();
                    let c = match self.translate_expr(names, t) {
                        Ok(c) => c,
                        Err(e) => {
                            assert(spec_switch_tests(cur, ncur, cases@, i as int, exit) == Some(
                                (self@, names@, Err::<Seq<Block>, ErrorView>(e@)),
                            ));
                            return Err(e);
                        },
                    };
                    let (r1, r2) = (self.r1, self.r2);
                    self.emit(OpCode::ReadTemp { value: r2 });
                    self.emit(OpCode::EqEqEq { result: r1, left: c, right: r2 });
                    self.emit(OpCode::JumpIfTrue { value: r1, to: b, line: 0 });
                    proof {
                        lemma_prepend_assoc(blocks@, seq![b], spec_switch_tests(self@, names@, cases@, i + 1, exit));
                        assert(blocks@ + seq![b] =~= blocks@.push(b));
                    }
                    blocks.push(b);
                },
                None => {
                    self.ctx.new_context();
                    match self.translate_stmts(names, &cases[i].cons) {
                        Ok(()) => {},
                        Err(e) => {
                            assert(spec_switch_tests(cur, ncur, cases@, i as int, exit) == Some(
                                (self@, names@, Err::<Seq<Block>, ErrorView>(e@)),
                            ));
                            return Err(e);
                        },
                    }
                    self.ctx.close_context();
                    self.emit(OpCode::Jump { to: exit, line: 0 });
                },
            }
            i = i + 1;
        }
        assert(blocks@ + Seq::<Block>::empty() =~= blocks@);
        Ok(blocks)
    }

    /// The bodies of the cases of a `switch` that have a test, each in its
    /// block, then the exit block.
    fn translate_switch_bodies(
        &mut self,
        names: &mut DynamicVarNames,
        cases: &Vec<SwitchCase>,
        blocks: &Vec<Block>,
        exit: Block,
    ) -> (r: Result<(), Error>)
        requires
            old(self).wf(),
            spec_switch_bodies(old(self)@, old(names)@, cases@, blocks@, 0, 0, exit) is Some,
        ensures
            final(self).wf(),
            (final(self)@, final(names)@, result_view(r)) == spec_switch_bodies(
                old(self)@,
                old(names)@,
                cases@,
                blocks@,
                0,
                0,
                exit,
            )->0,
        decreases cases, 0int,
    {
        let ghost v0 = self@;
        let ghost n0 = names@;
        let mut k: usize = 0;
        let mut j: usize = 0;
        while k < cases.len()
            invariant
                k <= cases@.len(),
                j <= k,
                self.wf(),
                spec_switch_bodies(v0, n0, cases@, blocks@, 0, 0, exit) == spec_switch_bodies(
                    self@,
                    names@,
                    cases@,
                    blocks@,
                    k as int,
                    j as int,
                    exit,
                ),
                spec_switch_bodies(v0, n0, cases@, blocks@, 0, 0, exit) is Some,
                v0 == old(self)@,
                n0 == old(names)@,
            decreases cases@.len() - k,
        {
            proof {
                assert(decreases_to!(cases => cases@));
                assert(decreases_to!(cases@ => cases@[k as int]));
            }
            let ghost cur = self@;
            let ghost ncur = names@;
            if cases[k].test.is_some() {
                let b = blocks[j];
                self.emit(OpCode::SwitchToBlock(b));
                self.ctx.new_context();
                match self.translate_stmts(names, &cases[k].cons) {
                    Ok(()) => {},
                    Err(e) => {
                        assert(spec_switch_bodies(cur, ncur, cases@, blocks@, k as int, j as int, exit) == Some(
                            (self@, names@, Err::<(), ErrorView>(e@)),
                        ));
                        return Err(e);
                    },
                }
                self.ctx.close_context();
                self.emit(OpCode::Jump { to: exit, line: 0 });
                j = j + 1;
            }
            k = k + 1;
        }
        self.emit(OpCode::SwitchToBlock(exit));
        Ok(())
    }

    /// A block: its statements in a scope of their own.
    fn translate_block(&mut self, names: &mut DynamicVarNames, label: Option<&str>, stmt: &Stmt) -> (r: Result<(), Error>)
        requires
            old(self).wf(),
            spec_translate_statement(old(self)@, old(names)@, label_view(label), *stmt) is Some,
            stmt is Block,
        ensures
            final(self).wf(),
            (final(self)@, final(names)@, result_view(r)) == spec_translate_statement(
                old(self)@,
                old(names)@,
                label_view(label),
                *stmt,
            )->0,
        decreases stmt, 0int,
    {
        match stmt {
            Stmt::Block(ss) => {
                self.ctx.new_context();
                let ghost v0 = self@;
                let ghost n0 = names@;
                let mut i: usize = 0;
                while i < ss.len()
                    invariant
                        i <= ss@.len(),
                        self.wf(),
                        *stmt == Stmt::Block(*ss),
                        v0 == open_scope(old(self)@),
                        n0 == old(names)@,
                        spec_translate_statements(v0, n0, ss@, 0) == spec_translate_statements(self@, names@, ss@, i as int),
                        spec_translate_statements(v0, n0, ss@, 0) is Some,
                    decreases ss@.len() - i,
                {
                    proof {
                        assert(decreases_to!(*stmt => *ss));
                        assert(decreases_to!(*ss => ss@));
                        assert(decreases_to!(ss@ => ss@[i as int]));
                    }
                    self.translate_statement(names, None, &ss[i])?;
                    i = i + 1;
                }
                self.ctx.close_context();
                Ok(())
            },
            _ => Ok(()),
        }
    }

    /// `do body while (test)`: the body, then the test, in a loop with a
    /// scope of its own.
    fn translate_do_while(&mut self, names: &mut DynamicVarNames, label: Option<&str>, stmt: &Stmt) -> (r: Result<(), Error>)
        requires
            old(self).wf(),
            spec_translate_statement(old(self)@, old(names)@, label_view(label), *stmt) is Some,
            stmt is DoWhile,
        ensures
            final(self).wf(),
            (final(self)@, final(names)@, result_view(r)) == spec_translate_statement(
                old(self)@,
                old(names)@,
                label_view(label),
                *stmt,
            )->0,
        decreases stmt, 0int,
    {
        match stmt {
            Stmt::DoWhile(body, test) => {
                let (header, exit) = self.start_loop(label);
                self.ctx.new_context();
                self.translate_statement(names, None, body)?;
                let v = self.translate_expr(names, test)?;
                self.emit(OpCode::JumpIfFalse { value: v, to: exit, line: 0 });
                self.emit(OpCode::Jump { to: header, line: 0 });
                self.ctx.close_context();
                self.end_loop();
                Ok(())
            },
            _ => Ok(()),
        }
    }

    /// `while (test) body`: the test, a jump out when it fails, and the body,
    /// in a loop with a scope of its own.
    fn translate_while(&mut self, names: &mut DynamicVarNames, label: Option<&str>, stmt: &Stmt) -> (r: Result<(), Error>)
        requires
            old(self).wf(),
            spec_translate_statement(old(self)@, old(names)@, label_view(label), *stmt) is Some,
            stmt is While,
        ensures
            final(self).wf(),
            (final(self)@, final(names)@, result_view(r)) == spec_translate_statement(
                old(self)@,
                old(names)@,
                label_view(label),
                *stmt,
            )->0,
        decreases stmt, 0int,
    {
        match stmt {
            Stmt::While(test, body) => {
                let (header, exit) = self.start_loop(label);
                self.ctx.new_context();
                let v = self.translate_expr(names, test)?;
                self.emit(OpCode::JumpIfFalse { value: v, to: exit, line: 0 });
                self.translate_statement(names, None, body)?;
                self.emit(OpCode::Jump { to: header, line: 0 });
                self.ctx.close_context();
                self.end_loop();
                Ok(())
            },
            _ => Ok(()),
        }
    }

    /// `if (test) cons else alt`: the else branch falls through, the then
    /// branch has a block of its own, and both continue in an exit block.
    #[verifier::rlimit(40)]
    fn translate_if(&mut self, names: &mut DynamicVarNames, label: Option<&str>, stmt: &Stmt) -> (r: Result<(), Error>)
        requires
            old(self).wf(),
            spec_translate_statement(old(self)@, old(names)@, label_view(label), *stmt) is Some,
            stmt is If,
        ensures
            final(self).wf(),
            (final(self)@, final(names)@, result_view(r)) == spec_translate_statement(
                old(self)@,
                old(names)@,
                label_view(label),
                *stmt,
            )->0,
        decreases stmt, 0int,
    {
        match stmt {
            Stmt::If(test, cons, alt) => {
                let cond = self.create_block();
                let exit = self.create_block();
                let value = self.translate_expr(names, test)?;
                self.emit(OpCode::JumpIfTrue { value, to: cond, line: 0 });
                match alt {
                    Some(a) => {
                        self.ctx.new_context();
                        self.translate_statement(names, None, a)?;
                        self.ctx.close_context();
                    },
                    None => {},
                }
                self.emit(OpCode::Jump { to: exit, line: 0 });
                self.emit(OpCode::SwitchToBlock(cond));
                self.ctx.new_context();
                self.translate_statement(names, None, cons)?;
                self.ctx.close_context();
                self.emit(OpCode::Jump { to: exit, line: 0 });
                self.emit(OpCode::SwitchToBlock(exit));
                Ok(())
            },
            _ => Ok(()),
        }
    }

    /// A variable declaration: each initial value (or `undefined`) bound to
    /// its pattern in turn.
    fn translate_var_decl(&mut self, names: &mut DynamicVarNames, label: Option<&str>, stmt: &Stmt) -> (r: Result<(), Error>)
        requires
            old(self).wf(),
            spec_translate_statement(old(self)@, old(names)@, label_view(label), *stmt) is Some,
            stmt is Var,
        ensures
            final(self).wf(),
            (final(self)@, final(names)@, result_view(r)) == spec_translate_statement(
                old(self)@,
                old(names)@,
                label_view(label),
                *stmt,
            )->0,
        decreases stmt, 0int,
    {
        match stmt {
            Stmt::Var(kind, decls) => {
                let k = match kind {
                    VarDeclKind::Var => DeclareKind::Var,
                    VarDeclKind::Let => DeclareKind::Let,
                    VarDeclKind::Const => DeclareKind::Const,
                };
                self.translate_declarators(names, k, decls)
            },
            _ => Ok(()),
        }
    }
}

/// The builder, name table and outcome after parameter `index`, bound to
/// the pattern `p`, is read: the parameter count grows to cover it.
pub open spec fn spec_translate_param(v: FunctionBuilderView, n: Seq<DynamicName>, p: Pat, index: u32) -> Option<
    (FunctionBuilderView, Seq<DynamicName>, Result<(), ErrorView>),
>
    decreases p, 2int,
{
    if index == u32::MAX && v.args_len <= index {
        None
    } else {
        let v1 = if v.args_len <= index {
            FunctionBuilderView { args_len: (index + 1) as u32, ..v }
        } else {
            v
        };
        let v2 = emit(v1, OpCode::ReadParam { result: v1.r1, index });
        match spec_translate_pat_assign(v2, n, p, v2.r1, DeclareKind::Var) {
            Some((v3, n3, Ok(_))) => Some((v3, n3, Ok(()))),
            Some((v3, n3, Err(err))) => Some((v3, n3, Err(err))),
            None => None,
        }
    }
}

/// The parameters of `ps` from index `i` on, read in order.
pub open spec fn spec_translate_params(v: FunctionBuilderView, n: Seq<DynamicName>, ps: Seq<Pat>, i: int) -> Option<
    (FunctionBuilderView, Seq<DynamicName>, Result<(), ErrorView>),
>
    decreases ps, ps.len() - i,
{
    if i < 0 || i >= ps.len() {
        Some((v, n, Ok(())))
    } else if i > u32::MAX {
        None
    } else {
        match spec_translate_param(v, n, ps[i], i as u32) {
            Some((v1, n1, Ok(()))) => spec_translate_params(v1, n1, ps, i + 1),
            other => other,
        }
    }
}

/// The code of a function: its parameters, then the statements of its
/// body.
pub open spec fn spec_build_function(v: FunctionBuilderView, n: Seq<DynamicName>, f: Function) -> Option<
    (FunctionBuilderView, Seq<DynamicName>, Result<(), ErrorView>),
>
    decreases f, 0int,
{
    match spec_translate_params(v, n, f.params@, 0) {
        Some((v1, n1, Ok(()))) => match f.body {
            Some(ss) => spec_translate_statements(v1, n1, ss@, 0),
            None => Some((v1, n1, Ok(()))),
        },
        other => other,
    }
}

/// The model of the function a builder in state `c` finishes.
pub open spec fn finished_function(c: FunctionBuilderView) -> FunctionView {
    FunctionView {
        is_async: c.is_async,
        is_generator: c.is_generator,
        args_len: c.args_len as u16,
        var_count: current(c.ctx).max_stack_offset,
        capture_stack_size: current(c.ctx).capture_offset,
        code: spec_optimize(finished_code(c)),
    }
}

/// The builder `v` after the builder `c` of a function nested in it, which
/// holds the shared scope chain and tables, is finished: the function is
/// registered, its scope closed, and the captures then pending in `v`'s
/// scope emitted; with the function's number. `None` where finishing is
/// undefined.
pub open spec fn spec_adopt_finished(v: FunctionBuilderView, c: FunctionBuilderView) -> Option<
    (FunctionBuilderView, FuncID),
> {
    if c.ctx.len() > 0 && optimize_defined(finished_code(c)) && c.table.functions.len() < u32::MAX {
        let ctx1 = closed_scope(spec_need_done(c.ctx).0);
        let (ctx2, pending) = spec_need_done(ctx1);
        let table = CodeTableView { functions: c.table.functions.push(finished_function(c)), ..c.table };
        Some(
            (
                FunctionBuilderView { ctx: ctx2, table, bytecode: v.bytecode + pending, ..v },
                FuncID(c.table.functions.len() as u32),
            ),
        )
    } else {
        None
    }
}

/// Compiling the function `f` in a builder of its own that shares the
/// scope chain and the tables: a function scope is opened, the parameters
/// and the body are generated (for a constructor without a body, when
/// `always` is unset, nothing), and the function is finished and
/// registered. On an error the chain and tables stay as the nested builder
/// left them.
pub open spec fn spec_compile_function(v: FunctionBuilderView, n: Seq<DynamicName>, f: Function, always: bool) -> Option<
    (FunctionBuilderView, Seq<DynamicName>, Result<FuncID, ErrorView>),
>
    decreases f, 1int,
{
    if v.ctx.len() == 0 {
        None
    } else {
        let child = initial_view(with_function_scope(v.ctx), v.table, f.is_async, f.is_generator);
        let built = if always || f.body is Some {
            spec_build_function(child, n, f)
        } else {
            Some((child, n, Ok(())))
        };
        match built {
            Some((c, n1, Ok(()))) => match spec_adopt_finished(v, c) {
                Some((v1, id)) => Some((v1, n1, Ok(id))),
                None => None,
            },
            Some((c, n1, Err(e))) => Some((FunctionBuilderView { ctx: c.ctx, table: c.table, ..v }, n1, Err(e))),
            None => None,
        }
    }
}

/// The code of an arrow function in the builder `c`: its parameters, then
/// its statements, or its expression and a return of its value.
pub open spec fn spec_build_arrow(c: FunctionBuilderView, n: Seq<DynamicName>, a: ArrowFunction) -> Option<
    (FunctionBuilderView, Seq<DynamicName>, Result<(), ErrorView>),
>
    decreases a, 0int,
{
    match spec_translate_params(c, n, a.params@, 0) {
        Some((c1, n1, Ok(()))) => match a.body {
            ArrowBody::Block(ss) => spec_translate_statements(c1, n1, ss@, 0),
            ArrowBody::Expr(e) => match spec_translate_expr(c1, n1, *e) {
                Some((c2, n2, Ok(re))) => Some((emit(c2, OpCode::Return { value: re }), n2, Ok(()))),
                Some((c2, n2, Err(err))) => Some((c2, n2, Err(err))),
                None => None,
            },
        },
        other => other,
    }
}

/// Compiling the arrow function `a` in a builder of its own that shares the
/// scope chain and the tables, as [`spec_compile_function`] does.
pub open spec fn spec_compile_arrow(v: FunctionBuilderView, n: Seq<DynamicName>, a: ArrowFunction) -> Option<
    (FunctionBuilderView, Seq<DynamicName>, Result<FuncID, ErrorView>),
>
    decreases a, 1int,
{
    if v.ctx.len() == 0 {
        None
    } else {
        let child = initial_view(with_function_scope(v.ctx), v.table, a.is_async, a.is_generator);
        match spec_build_arrow(child, n, a) {
            Some((c, n1, Ok(()))) => match spec_adopt_finished(v, c) {
                Some((v1, id)) => Some((v1, n1, Ok(id))),
                None => None,
            },
            Some((c, n1, Err(e))) => Some((FunctionBuilderView { ctx: c.ctx, table: c.table, ..v }, n1, Err(e))),
            None => None,
        }
    }
}

/// A builder with its tables replaced.
pub open spec fn with_table(v: FunctionBuilderView, t: CodeTableView) -> FunctionBuilderView {
    FunctionBuilderView { table: t, ..v }
}

/// The class `c`: a class is registered; the class it extends is computed
/// into the first scratch register; the class is created in the third,
/// bound to its super class, and kept in a temporary slot while its members
/// are generated; the result is the class, read back into the first
/// scratch register.
pub open spec fn spec_translate_class(v: FunctionBuilderView, n: Seq<DynamicName>, c: Class) -> Option<
    (FunctionBuilderView, Seq<DynamicName>, Result<Register, ErrorView>),
>
    decreases c, 2int,
{
    if v.table.class_count >= u32::MAX {
        None
    } else {
        let cid = ClassID(v.table.class_count as u32);
        let v0 = with_table(v, CodeTableView { class_count: v.table.class_count + 1, ..v.table });
        let sup = match c.super_class {
            Some(s) => match spec_translate_expr(v0, n, *s) {
                Some((v1, n1, Ok(i))) => Some(
                    (
                        if i != v1.r1 {
                            emit(v1, OpCode::Mov { from: i, to: v1.r1 })
                        } else {
                            v1
                        },
                        n1,
                        Ok(true),
                    ),
                ),
                Some((v1, n1, Err(e))) => Some((v1, n1, Err(e))),
                None => None,
            },
            None => Some((v0, n, Ok(false))),
        };
        match sup {
            Some((v2, n2, Ok(has_super))) => {
                let v3 = emit(v2, OpCode::CreateClass { result: v2.r3, class_id: cid });
                let v4 = if has_super {
                    emit(v3, OpCode::ClassBindSuper { class: v3.r3, super_: v3.r1 })
                } else {
                    v3
                };
                let v5 = emit(v4, OpCode::StoreTemp { value: v4.r3 });
                match spec_class_members(v5, n2, cid, c.body@, 0) {
                    Some((v6, n6, Ok(()))) => {
                        let v7 = emit(emit(v6, OpCode::ReadTemp { value: v6.r1 }), OpCode::ReleaseTemp);
                        Some((v7, n6, Ok(v7.r1)))
                    },
                    Some((v6, n6, Err(e))) => Some((v6, n6, Err(e))),
                    None => None,
                }
            },
            Some((v2, n2, Err(e))) => Some((v2, n2, Err(e))),
            None => None,
        }
    }
}

/// The members of `ms` from index `i` on, generated in order for class
/// `cid`.
pub open spec fn spec_class_members(
    v: FunctionBuilderView,
    n: Seq<DynamicName>,
    cid: ClassID,
    ms: Seq<ClassMember>,
    i: int,
) -> Option<(FunctionBuilderView, Seq<DynamicName>, Result<(), ErrorView>)>
    decreases ms, ms.len() - i,
{
    if i < 0 || i >= ms.len() {
        Some((v, n, Ok(())))
    } else {
        match spec_class_member(v, n, cid, ms[i]) {
            Some((v1, n1, Ok(()))) => spec_class_members(v1, n1, cid, ms, i + 1),
            other => other,
        }
    }
}

/// The initial value `e` of a property numbered `fid`, written to the
/// class in the current temporary slot (static) or to its prototype.
pub open spec fn spec_prop_value(v1: FunctionBuilderView, n: Seq<DynamicName>, e: Expr, fid: u32, is_static: bool) -> Option<
    (FunctionBuilderView, Seq<DynamicName>, Result<(), ErrorView>),
>
    decreases e, 1int,
{
    match spec_translate_expr(v1, n, e) {
        Some((v2, n2, Ok(r))) => if v2.r1.0 >= 4 || v2.r3.0 >= 4 || v2.table.fields.len() >= u32::MAX {
            None
        } else {
            let v3 = if r != v2.r1 {
                emit(v2, OpCode::Mov { from: r, to: v2.r1 })
            } else {
                v2
            };
            let v4 = emit(v3, OpCode::ReadTemp { value: v3.r3 });
            let v5 = if is_static {
                v4
            } else {
                let (fields2, proto) = spec_register_name(v4.table.fields, "prototype"@);
                let v4a = with_table(v4, CodeTableView { fields: fields2, ..v4.table });
                emit(
                    v4a,
                    OpCode::ReadFieldStatic {
                        obj_result: compact_of(v4a.r3, v4a.r3),
                        field_id: proto as u32,
                        stack_offset: current(v4a.ctx).stack_offset,
                    },
                )
            };
            let code = OpCode::WriteFieldStatic {
                obj_value: compact_of(v5.r3, v5.r1),
                field_id: fid,
                stack_offset: current(v5.ctx).stack_offset,
            };
            Some((emit(v5, code), n2, Ok(())))
        },
        Some((v2, n2, Err(e))) => Some((v2, n2, Err(e))),
        None => None,
    }
}

/// A property `name` of class `cid`: it is declared, and its initial value,
/// if any, written.
pub open spec fn spec_class_prop(
    v: FunctionBuilderView,
    n: Seq<DynamicName>,
    cid: ClassID,
    name: Seq<char>,
    is_static: bool,
    value: Option<Expr>,
) -> Option<(FunctionBuilderView, Seq<DynamicName>, Result<(), ErrorView>)>
    decreases value, 2int,
{
    if v.table.fields.len() >= u32::MAX {
        None
    } else {
        let (fields1, fid) = spec_register_name(v.table.fields, name);
        let v1 = with_table(
            v,
            CodeTableView { props: v.table.props.push((cid, name, is_static)), fields: fields1, ..v.table },
        );
        match value {
            None => Some((v1, n, Ok(()))),
            Some(e) => spec_prop_value(v1, n, e, fid as u32, is_static),
        }
    }
}

/// A static block: the statements run in a scope of their own with `this`
/// set to the class in the current temporary slot, and `this` is restored
/// after.
pub open spec fn spec_static_block(v: FunctionBuilderView, n: Seq<DynamicName>, ss: Seq<Stmt>) -> Option<
    (FunctionBuilderView, Seq<DynamicName>, Result<(), ErrorView>),
>
    decreases ss, ss.len() + 1,
{
    let v1 = emit(
        emit(
            emit(emit(v, OpCode::ReadTemp { value: v.r1 }), OpCode::LoadThis { result: v.r3 }),
            OpCode::StoreTemp { value: v.r3 },
        ),
        OpCode::SetThis { value: v.r1 },
    );
    match spec_translate_statements(open_scope(v1), n, ss, 0) {
        Some((v2, n2, Ok(()))) => if close_ok(v2.ctx) {
            let v3 = emit(
                emit(emit(close_scope(v2), OpCode::ReadTemp { value: v2.r3 }), OpCode::ReleaseTemp),
                OpCode::SetThis { value: v2.r3 },
            );
            Some((v3, n2, Ok(())))
        } else {
            None
        },
        other => other,
    }
    
}

/// A member of class `cid`, the class being in the current temporary slot:
/// a constructor or method is compiled and bound to the class; a property
/// is declared, and its initial value written to the class (static) or to
/// its prototype; a static block runs with `this` set to the class.
pub open spec fn spec_class_member(v: FunctionBuilderView, n: Seq<DynamicName>, cid: ClassID, m: ClassMember) -> Option<
    (FunctionBuilderView, Seq<DynamicName>, Result<(), ErrorView>),
>
    decreases m, 2int,
{
    match m {
        ClassMember::Constructor(f) => match spec_compile_function(v, n, f, false) {
            Some((v1, n1, Ok(id))) => Some(
                (with_table(v1, CodeTableView { constructors: v1.table.constructors.push((cid, id)), ..v1.table }), n1, Ok(())),
            ),
            Some((v1, n1, Err(e))) => Some((v1, n1, Err(e))),
            None => None,
        },
        ClassMember::Method { name, kind, is_static, function } => match spec_compile_function(v, n, function, true) {
            Some((v1, n1, Ok(id))) => Some(
                (
                    with_table(
                        v1,
                        CodeTableView { methods: v1.table.methods.push((cid, name@, kind, is_static, id)), ..v1.table },
                    ),
                    n1,
                    Ok(()),
                ),
            ),
            Some((v1, n1, Err(e))) => Some((v1, n1, Err(e))),
            None => None,
        },
        ClassMember::Prop { name, is_static, value } => spec_class_prop(v, n, cid, name@, is_static, value),
        ClassMember::StaticBlock(ss) => spec_static_block(v, n, ss@),
        ClassMember::Empty => Some((v, n, Ok(()))),
    }
}

impl FunctionBuilder {
    /// Read parameter `index` into the pattern `pat`.
    pub fn translate_param_pat(&mut self, names: &mut DynamicVarNames, pat: &Pat, index: u32) -> (r: Result<(), Error>)
        requires
            old(self).wf(),
            spec_translate_param(old(self)@, old(names)@, *pat, index) is Some,
        ensures
            final(self).wf(),
            (final(self)@, final(names)@, result_view(r)) == spec_translate_param(old(self)@, old(names)@, *pat, index)->0,
        decreases pat, 2int,
    {
        if self.args_len <= index {
            self.args_len = index + 1;
        }
        let r1 = self.r1;
        self.emit(OpCode::ReadParam { result: r1, index: index });
        self.translate_pat_assign(names, pat, r1, DeclareKind::Var)?;
        Ok(())
    }

    /// Read the parameters of `params` in order.
    fn translate_params(&mut self, names: &mut DynamicVarNames, params: &Vec<Pat>) -> (r: Result<(), Error>)
        requires
            old(self).wf(),
            spec_translate_params(old(self)@, old(names)@, params@, 0) is Some,
        ensures
            final(self).wf(),
            (final(self)@, final(names)@, result_view(r)) == spec_translate_params(old(self)@, old(names)@, params@, 0)->0,
        decreases params, 0int,
    {
        let ghost v0 = self@;
        let ghost n0 = names@;
        let mut i: usize = 0;
        while i < params.len()
            invariant
                i <= params@.len(),
                self.wf(),
                v0 == old(self)@,
                n0 == old(names)@,
                spec_translate_params(v0, n0, params@, 0) == spec_translate_params(self@, names@, params@, i as int),
                spec_translate_params(v0, n0, params@, 0) is Some,
            decreases params@.len() - i,
        {
            proof {
                assert(decreases_to!(params => params@));
                assert(decreases_to!(params@ => params@[i as int]));
            }
            assert(i <= u32::MAX);
            self.translate_param_pat(names, &params[i], i as u32)?;
            i = i + 1;
        }
        Ok(())
    }

    /// Generate the code of a function from its parameters and body.
    #[verifier::rlimit(20)]
    pub fn build_function(&mut self, names: &mut DynamicVarNames, func: &Function) -> (r: Result<(), Error>)
        requires
            old(self).wf(),
            spec_build_function(old(self)@, old(names)@, *func) is Some,
        ensures
            final(self).wf(),
            (final(self)@, final(names)@, result_view(r)) == spec_build_function(old(self)@, old(names)@, *func)->0,
        decreases func, 0int,
    {
        self.translate_params(names, &func.params)?;
        match &func.body {
            Some(ss) => self.translate_stmts(names, ss),
            None => Ok(()),
        }
    }

    /// Compile the function `f` in a builder of its own that shares the
    /// scope chain and the tables; `always` unset, a function without a
    /// body (a constructor declared without one) generates nothing.
    fn compile_function(&mut self, names: &mut DynamicVarNames, f: &Function, always: bool) -> (r: Result<FuncID, Error>)
        requires
            old(self).wf(),
            spec_compile_function(old(self)@, old(names)@, *f, always) is Some,
        ensures
            final(self).wf(),
            (final(self)@, final(names)@, result_view(r)) == spec_compile_function(old(self)@, old(names)@, *f, always)->0,
        decreases f, 1int,
    {
        let mut ctx = FunctionBuilderContext::new();
        std::mem::swap(&mut ctx, &mut self.ctx);
        let mut table = CodeTable::new();
        std::mem::swap(&mut table, &mut self.table);
        let mut child = FunctionBuilder::new_with_context(table, ctx, f.is_async, f.is_generator);
        let built = if always || f.body.is_some() {
            child.build_function(names, f)
        } else {
            Ok(())
        };
        match built {
            Ok(()) => {},
            Err(e) => {
                std::mem::swap(&mut self.ctx, &mut child.ctx);
                std::mem::swap(&mut self.table, &mut child.table);
                return Err(e);
            },
        }
        let func = child.finish();
        std::mem::swap(&mut self.ctx, &mut child.ctx);
        std::mem::swap(&mut self.table, &mut child.table);
        let id = self.table.add_function(func);
        let mut pending = self.ctx.need_done();
        self.bytecode.append(&mut pending);
        Ok(id)
    }

    /// Generate the code of an arrow function: its parameters, then its
    /// statements, or its expression and a return of its value.
    #[verifier::rlimit(20)]
    fn build_arrow(&mut self, names: &mut DynamicVarNames, a: &ArrowFunction) -> (r: Result<(), Error>)
        requires
            old(self).wf(),
            spec_build_arrow(old(self)@, old(names)@, *a) is Some,
        ensures
            final(self).wf(),
            (final(self)@, final(names)@, result_view(r)) == spec_build_arrow(old(self)@, old(names)@, *a)->0,
        decreases a, 0int,
    {
        let ghost v0 = self@;
        let ghost n0 = names@;
        let params = &a.params;
        let mut i: usize = 0;
        while i < params.len()
            invariant
                i <= params@.len(),
                self.wf(),
                v0 == old(self)@,
                n0 == old(names)@,
                *params == a.params,
                spec_translate_params(v0, n0, params@, 0) == spec_translate_params(self@, names@, params@, i as int),
                spec_translate_params(v0, n0, params@, 0) is Some,
            decreases params@.len() - i,
        {
            proof {
                assert(decreases_to!(*a => a.params));
                assert(decreases_to!(a.params => a.params@));
                assert(decreases_to!(a.params@ => a.params@[i as int]));
            }
            assert(i <= u32::MAX);
            self.translate_param_pat(names, &params[i], i as u32)?;
            i = i + 1;
        }
        match &a.body {
            ArrowBody::Block(ss) => self.translate_stmts(names, ss),
            ArrowBody::Expr(e) => {
                let re = self.translate_expr(names, e)?;
                self.emit(OpCode::Return { value: re });
                Ok(())
            },
        }
    }

    /// Compile the arrow function `a` in a builder of its own that shares
    /// the scope chain and the tables.
    fn compile_arrow(&mut self, names: &mut DynamicVarNames, a: &ArrowFunction) -> (r: Result<FuncID, Error>)
        requires
            old(self).wf(),
            spec_compile_arrow(old(self)@, old(names)@, *a) is Some,
        ensures
            final(self).wf(),
            (final(self)@, final(names)@, result_view(r)) == spec_compile_arrow(old(self)@, old(names)@, *a)->0,
        decreases a, 1int,
    {
        let mut ctx = FunctionBuilderContext::new();
        std::mem::swap(&mut ctx, &mut self.ctx);
        let mut table = CodeTable::new();
        std::mem::swap(&mut table, &mut self.table);
        let mut child = FunctionBuilder::new_with_context(table, ctx, a.is_async, a.is_generator);
        match child.build_arrow(names, a) {
            Ok(()) => {},
            Err(e) => {
                std::mem::swap(&mut self.ctx, &mut child.ctx);
                std::mem::swap(&mut self.table, &mut child.table);
                return Err(e);
            },
        }
        let func = child.finish();
        std::mem::swap(&mut self.ctx, &mut child.ctx);
        std::mem::swap(&mut self.table, &mut child.table);
        let id = self.table.add_function(func);
        let mut pending = self.ctx.need_done();
        self.bytecode.append(&mut pending);
        Ok(id)
    }

    /// Generate a class: see [`spec_translate_class`].
    pub fn translate_class(&mut self, names: &mut DynamicVarNames, class: &Class) -> (r: Result<Register, Error>)
        requires
            old(self).wf(),
            spec_translate_class(old(self)@, old(names)@, *class) is Some,
        ensures
            final(self).wf(),
            (final(self)@, final(names)@, result_view(r)) == spec_translate_class(old(self)@, old(names)@, *class)->0,
        decreases class, 2int,
    {
        let cid = self.table.new_class();
        let has_super = match &class.super_class {
            Some(s) => {
                let i = self.translate_expr(names, s)?;
                let r1 = self.r1;
                if i.0 != r1.0 {
                    self.emit(OpCode::Mov { from: i, to: r1 });
                }
                true
            },
            None => false,
        };
        let (r1, r3) = (self.r1, self.r3);
        self.emit(OpCode::CreateClass { result: r3, class_id: cid });
        if has_super {
            self.emit(OpCode::ClassBindSuper { class: r3, super_: r1 });
        }
        self.emit(OpCode::StoreTemp { value: r3 });
        let ghost v5 = self@;
        let ghost n5 = names@;
        let body = &class.body;
        assert(spec_class_members(v5, n5, cid, body@, 0) matches Some((va, na, Err(e))) ==> spec_translate_class(
            old(self)@,
            old(names)@,
            *class,
        ) == Some((va, na, Err::<Register, ErrorView>(e))));
        let mut i: usize = 0;
        while i < body.len()
            invariant
                i <= body@.len(),
                self.wf(),
                *body == class.body,
                spec_class_members(v5, n5, cid, body@, 0) matches Some((va, na, Err(e))) ==> spec_translate_class(
                    old(self)@,
                    old(names)@,
                    *class,
                ) == Some((va, na, Err::<Register, ErrorView>(e))),
                spec_class_members(v5, n5, cid, body@, 0) == spec_class_members(self@, names@, cid, body@, i as int),
                spec_class_members(v5, n5, cid, body@, 0) is Some,
            decreases body@.len() - i,
        {
            proof {
                assert(decreases_to!(*class => class.body));
                assert(decreases_to!(class.body => class.body@));
                assert(decreases_to!(class.body@ => class.body@[i as int]));
            }
            match self.translate_class_member(names, cid, &body[i]) {
                Ok(()) => {},
                Err(e) => {
                    return Err(e);
                },
            }
            i = i + 1;
        }
        let r1 = self.r1;
        self.emit(OpCode::ReadTemp { value: r1 });
        self.emit(OpCode::ReleaseTemp);
        Ok(r1)
    }

    /// Generate one member of class `cid`: see [`spec_class_member`].
    fn translate_class_member(&mut self, names: &mut DynamicVarNames, cid: ClassID, m: &ClassMember) -> (r: Result<(), Error>)
        requires
            old(self).wf(),
            spec_class_member(old(self)@, old(names)@, cid, *m) is Some,
        ensures
            final(self).wf(),
            (final(self)@, final(names)@, result_view(r)) == spec_class_member(old(self)@, old(names)@, cid, *m)->0,
        decreases m, 2int,
    {
        match m {
            ClassMember::Constructor(f) => {
                let id = self.compile_function(names, f, false)?;
                self.table.bind_class_constructor(cid, id);
                Ok(())
            },
            ClassMember::Method { name, kind, is_static, function } => {
                let id = self.compile_function(names, function, true)?;
                self.table.bind_class_method(cid, name.as_str(), *kind, *is_static, id);
                Ok(())
            },
            ClassMember::Prop { name, is_static, value } => self.translate_class_prop(names, cid, name, *is_static, value),
            ClassMember::StaticBlock(ss) => self.translate_static_block(names, ss),
            ClassMember::Empty => Ok(()),
        }
    }

    /// The statements of `ss` in order, in the current scope.
    fn translate_stmts(&mut self, names: &mut DynamicVarNames, ss: &Vec<Stmt>) -> (r: Result<(), Error>)
        requires
            old(self).wf(),
            spec_translate_statements(old(self)@, old(names)@, ss@, 0) is Some,
        ensures
            final(self).wf(),
            (final(self)@, final(names)@, result_view(r)) == spec_translate_statements(old(self)@, old(names)@, ss@, 0)->0,
        decreases ss, 0int,
    {
        let ghost v0 = self@;
        let ghost n0 = names@;
        let mut i: usize = 0;
        while i < ss.len()
            invariant
                i <= ss@.len(),
                self.wf(),
                v0 == old(self)@,
                n0 == old(names)@,
                spec_translate_statements(v0, n0, ss@, 0) == spec_translate_statements(self@, names@, ss@, i as int),
                spec_translate_statements(v0, n0, ss@, 0) is Some,
            decreases ss@.len() - i,
        {
            proof {
                assert(decreases_to!(ss => ss@));
                assert(decreases_to!(ss@ => ss@[i as int]));
            }
            self.translate_statement(names, None, &ss[i])?;
            i = i + 1;
        }
        Ok(())
    }

    /// The initial value `e` of a property numbered `fid`, written to the
    /// class in the current temporary slot (static) or to its prototype.
    fn translate_prop_value(&mut self, names: &mut DynamicVarNames, e: &Expr, fid: u32, is_static: bool) -> (r: Result<(), Error>)
        requires
            old(self).wf(),
            spec_prop_value(old(self)@, old(names)@, *e, fid, is_static) is Some,
        ensures
            final(self).wf(),
            (final(self)@, final(names)@, result_view(r)) == spec_prop_value(old(self)@, old(names)@, *e, fid, is_static)->0,
        decreases e, 2int,
    {
        let v = self.translate_expr(names, e)?;
        let (r1, r3) = (self.r1, self.r3);
        if v.0 != r1.0 {
            self.emit(OpCode::Mov { from: v, to: r1 });
        }
        self.emit(OpCode::ReadTemp { value: r3 });
        if !is_static {
            let proto = self.table.register_field_name("prototype");
            let off = self.ctx.current_stack_offset();
            let c = CompactRegister::from_registers(r3, r3);
            self.emit(OpCode::ReadFieldStatic { obj_result: c, field_id: proto, stack_offset: off });
        }
        let off = self.ctx.current_stack_offset();
        let c = CompactRegister::from_registers(r3, r1);
        self.emit(OpCode::WriteFieldStatic { obj_value: c, field_id: fid, stack_offset: off });
        Ok(())
    }

    /// A property `name` of class `cid` and its initial value.
    fn translate_class_prop(
        &mut self,
        names: &mut DynamicVarNames,
        cid: ClassID,
        name: &String,
        is_static: bool,
        value: &Option<Expr>,
    ) -> (r: Result<(), Error>)
        requires
            old(self).wf(),
            spec_class_prop(old(self)@, old(names)@, cid, name@, is_static, *value) is Some,
        ensures
            final(self).wf(),
            (final(self)@, final(names)@, result_view(r)) == spec_class_prop(old(self)@, old(names)@, cid, name@, is_static, *value)->0,
        decreases value, 2int,
    {
        let fid = self.table.bind_class_prop(cid, name.as_str(), is_static);
        match value {
            None => Ok(()),
            Some(e) => self.translate_prop_value(names, e, fid, is_static),
        }
    }

    /// A static block, run with `this` set to the class.
    fn translate_static_block(&mut self, names: &mut DynamicVarNames, ss: &Vec<Stmt>) -> (r: Result<(), Error>)
        requires
            old(self).wf(),
            spec_static_block(old(self)@, old(names)@, ss@) is Some,
        ensures
            final(self).wf(),
            (final(self)@, final(names)@, result_view(r)) == spec_static_block(old(self)@, old(names)@, ss@)->0,
        decreases ss, 1int,
    {
        let (r1, r3) = (self.r1, self.r3);
        self.emit(OpCode::ReadTemp { value: r1 });
        self.emit(OpCode::LoadThis { result: r3 });
        self.emit(OpCode::StoreTemp { value: r3 });
        self.emit(OpCode::SetThis { value: r1 });
        self.ctx.new_context();
        self.translate_stmts(names, ss)?;
        self.ctx.close_context();
        let r3 = self.r3;
        self.emit(OpCode::ReadTemp { value: r3 });
        self.emit(OpCode::ReleaseTemp);
        self.emit(OpCode::SetThis { value: r3 });
        Ok(())
    }
}

} // verus!
