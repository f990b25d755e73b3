use vstd::prelude::*;

use crate::bytecodes::{Block, OpCode, Register};
use crate::optimize::{optimize, optimize_defined, spec_optimize};

verus! {

/// The rewriting of one instruction of an inlined function body is defined
/// without overflowing a stack offset or a block number.
pub open spec fn inline_rewrite_ok(c: OpCode, base_stack_offset: u16, block_shift: u16) -> bool {
    match c {
        OpCode::ReadFromStack { stack_offset, .. } => stack_offset + base_stack_offset <= u16::MAX,
        OpCode::WriteToStack { stack_offset, .. } => stack_offset + base_stack_offset <= u16::MAX,
        OpCode::CreateBlock(b) => b.0 + block_shift <= u16::MAX,
        OpCode::SwitchToBlock(b) => b.0 + block_shift <= u16::MAX,
        OpCode::Jump { to, .. } => to.0 + block_shift <= u16::MAX,
        OpCode::JumpIfFalse { to, .. } => to.0 + block_shift <= u16::MAX,
        OpCode::JumpIfTrue { to, .. } => to.0 + block_shift <= u16::MAX,
        _ => true,
    }
}

/// The instructions one instruction of the inlined body becomes: a return
/// becomes a move into `result` and a jump to `exit`; stack accesses are
/// shifted by `base_stack_offset`; block numbers are shifted by
/// `block_shift` and resolved lines are reset.
pub open spec fn inline_rewrite(
    c: OpCode,
    result: Register,
    exit: Block,
    base_stack_offset: u16,
    block_shift: u16,
) -> Seq<OpCode> {
    match c {
        OpCode::Return { value } => seq![
            OpCode::Mov { from: value, to: result },
            OpCode::Jump { to: exit, line: 0 },
        ],
        OpCode::ReadFromStack { result: r, stack_offset } => seq![
            OpCode::ReadFromStack { result: r, stack_offset: (stack_offset + base_stack_offset) as u16 },
        ],
        OpCode::WriteToStack { from, stack_offset } => seq![
            OpCode::WriteToStack { from, stack_offset: (stack_offset + base_stack_offset) as u16 },
        ],
        OpCode::CreateBlock(b) => seq![OpCode::CreateBlock(Block((b.0 + block_shift) as u16))],
        OpCode::SwitchToBlock(b) => seq![OpCode::SwitchToBlock(Block((b.0 + block_shift) as u16))],
        OpCode::Jump { to, .. } => seq![OpCode::Jump { to: Block((to.0 + block_shift) as u16), line: 0 }],
        OpCode::JumpIfFalse { value, to, .. } => seq![
            OpCode::JumpIfFalse { value, to: Block((to.0 + block_shift) as u16), line: 0 },
        ],
        OpCode::JumpIfTrue { value, to, .. } => seq![
            OpCode::JumpIfTrue { value, to: Block((to.0 + block_shift) as u16), line: 0 },
        ],
        _ => seq![c],
    }
}

/// The rewriting of the first `n` instructions of `src`, concatenated.
pub open spec fn inline_body(
    src: Seq<OpCode>,
    n: int,
    result: Register,
    exit: Block,
    base_stack_offset: u16,
    block_shift: u16,
) -> Seq<OpCode>
    decreases n,
{
    if n <= 0 {
        seq![]
    } else {
        inline_body(src, n - 1, result, exit, base_stack_offset, block_shift) + inline_rewrite(
            src[n - 1],
            result,
            exit,
            base_stack_offset,
            block_shift,
        )
    }
}

/// The instructions rewritten by the inlining loop: the block creation of
/// the exit block, then the callee's code.
pub open spec fn inlined_source(cs: Seq<OpCode>, block_count: u16) -> Seq<OpCode> {
    seq![OpCode::CreateBlock(Block(block_count))] + cs
}

/// The code handed to the optimiser when `cs` is inlined.
pub open spec fn spec_inlined_code(
    cs: Seq<OpCode>,
    result: Register,
    this: Register,
    block_count: u16,
    base_stack_offset: u16,
) -> Seq<OpCode> {
    let exit = Block(block_count);
    let src = inlined_source(cs, block_count);
    seq![
        OpCode::PrepareInlinedCall { stack_offset: base_stack_offset },
        OpCode::SetThis { value: this },
    ] + inline_body(src, src.len() as int, result, exit, base_stack_offset, (block_count + 1) as u16)
        + seq![
        OpCode::LoadUndefined { result },
        OpCode::Jump { to: exit, line: 0 },
        OpCode::SwitchToBlock(exit),
    ]
}

/// The inputs on which inlining is defined: the block counter and every
/// shifted offset and block number fit in a `u16`, and the optimiser
/// succeeds on the inlined code.
pub open spec fn inlining_defined(
    cs: Seq<OpCode>,
    result: Register,
    this: Register,
    block_count: u16,
    base_stack_offset: u16,
) -> bool {
    &&& block_count < u16::MAX
    &&& forall|i: int|
        0 <= i < inlined_source(cs, block_count).len() ==> inline_rewrite_ok(
            #[trigger] inlined_source(cs, block_count)[i],
            base_stack_offset,
            (block_count + 1) as u16,
        )
    &&& optimize_defined(spec_inlined_code(cs, result, this, block_count, base_stack_offset))
}

/// Prepare the code `cs` of a callee for inlining into a caller: the callee
/// runs in the caller's frame shifted by `base_stack_offset`, its blocks are
/// renumbered after the caller's `block_count` blocks, and each return
/// stores its value into `result` and jumps to a fresh exit block.
pub fn prepare_inlining(
    cs: &[OpCode],
    result: Register,
    this: Register,
    block_count: u16,
    base_stack_offset: u16,
) -> (r: Vec<OpCode>)
    requires
        inlining_defined(cs@, result, this, block_count, base_stack_offset),
    ensures
        r@ == spec_optimize(spec_inlined_code(cs@, result, this, block_count, base_stack_offset)),
{
    let exit = Block(block_count);
    let shift = block_count + 1;
    let ghost src = inlined_source(cs@, block_count);
    let mut codes: Vec<OpCode> = Vec::new();
    codes.push(OpCode::PrepareInlinedCall { stack_offset: base_stack_offset });
    codes.push(OpCode::SetThis { value: this });
    // the exit block creation is rewritten like the callee's instructions
    codes.push(OpCode::CreateBlock(Block(block_count + shift)));
    proof {
        assert(src[0] == OpCode::CreateBlock(exit));
        assert(inline_rewrite_ok(src[0], base_stack_offset, shift));
        reveal_with_fuel(inline_body, 2);
        assert(codes@ =~= seq![
            OpCode::PrepareInlinedCall { stack_offset: base_stack_offset },
            OpCode::SetThis { value: this },
        ] + inline_body(src, 1, result, exit, base_stack_offset, shift));
    }
    let n = cs.len();
    let mut i: usize = 0;
    while i < n
        invariant
            i <= n,
            n == cs@.len(),
            src == inlined_source(cs@, block_count),
            shift == block_count + 1,
            exit == Block(block_count),
            forall|k: int|
                0 <= k < src.len() ==> inline_rewrite_ok(
                    #[trigger] src[k],
                    base_stack_offset,
                    shift,
                ),
            codes@ == seq![
                OpCode::PrepareInlinedCall { stack_offset: base_stack_offset },
                OpCode::SetThis { value: this },
            ] + inline_body(src, i + 1, result, exit, base_stack_offset, shift),
        decreases n - i,
    {
        let code = cs[i];
        assert(code == src[i + 1]);
        assert(inline_rewrite_ok(src[i + 1], base_stack_offset, shift));
        let ghost before = codes@;
        match code {
            OpCode::Return { value } => {
                codes.push(OpCode::Mov { from: value, to: result });
                codes.push(OpCode::Jump { to: exit, line: 0 });
            },
            OpCode::ReadFromStack { result: r, stack_offset } => {
                codes.push(OpCode::ReadFromStack { result: r, stack_offset: stack_offset + base_stack_offset });
            },
            OpCode::WriteToStack { from, stack_offset } => {
                codes.push(OpCode::WriteToStack { from, stack_offset: stack_offset + base_stack_offset });
            },
            OpCode::CreateBlock(b) => {
                codes.push(OpCode::CreateBlock(Block(b.0 + shift)));
            },
            OpCode::SwitchToBlock(b) => {
                codes.push(OpCode::SwitchToBlock(Block(b.0 + shift)));
            },
            OpCode::Jump { to, line: _ } => {
                codes.push(OpCode::Jump { to: Block(to.0 + shift), line: 0 });
            },
            OpCode::JumpIfFalse { value, to, line: _ } => {
                codes.push(OpCode::JumpIfFalse { value, to: Block(to.0 + shift), line: 0 });
            },
            OpCode::JumpIfTrue { value, to, line: _ } => {
                codes.push(OpCode::JumpIfTrue { value, to: Block(to.0 + shift), line: 0 });
            },
            _ => {
                codes.push(code);
            },
        }
        assert(codes@ =~= before + inline_rewrite(src[i + 1], result, exit, base_stack_offset, shift));
        i += 1;
    }
    codes.push(OpCode::LoadUndefined { result });
    codes.push(OpCode::Jump { to: exit, line: 0 });
    codes.push(OpCode::SwitchToBlock(exit));
    assert(src.len() == n + 1);
    assert(codes@ =~= spec_inlined_code(cs@, result, this, block_count, base_stack_offset));
    optimize(codes)
}

/// The rewriting of a prefix of the source is a prefix of the rewriting of
/// more of it.
proof fn lemma_inline_body_prefix(
    src: Seq<OpCode>,
    m: int,
    n: int,
    result: Register,
    exit: Block,
    base_stack_offset: u16,
    block_shift: u16,
)
    requires
        0 <= m <= n,
    ensures
        inline_body(src, m, result, exit, base_stack_offset, block_shift).len() <= inline_body(
            src,
            n,
            result,
            exit,
            base_stack_offset,
            block_shift,
        ).len(),
        forall|i: int|
            0 <= i < inline_body(src, m, result, exit, base_stack_offset, block_shift).len() ==> inline_body(
                src,
                n,
                result,
                exit,
                base_stack_offset,
                block_shift,
            )[i] == inline_body(src, m, result, exit, base_stack_offset, block_shift)[i],
    decreases n - m,
{
    if m < n {
        lemma_inline_body_prefix(src, m, n - 1, result, exit, base_stack_offset, block_shift);
    }
}

/// The code prepared for inlining, before it is optimised, starts by
/// preparing the callee's frame and binding `this`, ends by loading
/// `undefined` into `result`, jumping to the exit block and continuing
/// there, and every return of the callee has become a move of the returned
/// value into `result` followed by a jump to the exit block.
pub proof fn lemma_inlined_code_shape(
    cs: Seq<OpCode>,
    result: Register,
    this: Register,
    block_count: u16,
    base_stack_offset: u16,
    k: int,
)
    requires
        0 <= k < cs.len(),
    ensures
        ({
            let code = spec_inlined_code(cs, result, this, block_count, base_stack_offset);
            let exit = Block(block_count);
            let src = inlined_source(cs, block_count);
            let shift = (block_count + 1) as u16;
            &&& code[0] == OpCode::PrepareInlinedCall { stack_offset: base_stack_offset }
            &&& code[1] == OpCode::SetThis { value: this }
            &&& code[code.len() - 3] == OpCode::LoadUndefined { result }
            &&& code[code.len() - 2] == OpCode::Jump { to: exit, line: 0 }
            &&& code[code.len() - 1] == OpCode::SwitchToBlock(exit)
            &&& cs[k] matches OpCode::Return { value } ==> {
                let p = 2 + inline_body(src, k + 1, result, exit, base_stack_offset, shift).len() as int;
                &&& code[p] == OpCode::Mov { from: value, to: result }
                &&& code[p + 1] == OpCode::Jump { to: exit, line: 0 }
            }
        }),
{
    let exit = Block(block_count);
    let src = inlined_source(cs, block_count);
    let shift = (block_count + 1) as u16;
    let body = inline_body(src, src.len() as int, result, exit, base_stack_offset, shift);
    let code = spec_inlined_code(cs, result, this, block_count, base_stack_offset);
    assert(src[k + 1] == cs[k]);
    lemma_inline_body_prefix(src, k + 2, src.len() as int, result, exit, base_stack_offset, shift);
    let before = inline_body(src, k + 1, result, exit, base_stack_offset, shift);
    let upto = inline_body(src, k + 2, result, exit, base_stack_offset, shift);
    assert(upto == before + inline_rewrite(src[k + 1], result, exit, base_stack_offset, shift));
    if let OpCode::Return { value } = cs[k] {
        let p = 2 + before.len() as int;
        assert(upto[before.len() as int] == OpCode::Mov { from: value, to: result });
        assert(upto[before.len() + 1int] == OpCode::Jump { to: exit, line: 0 });
        assert(code[p] == body[p - 2]);
        assert(code[p + 1] == body[p - 1]);
    }
}

} // verus!
