use vstd::prelude::*;

use std::collections::HashMap;

use crate::bytecodes::{spec_reads, spec_reads_from, spec_writes_to, Block, OpCode, Register};

verus! {

broadcast use vstd::std_specs::hash::group_hash_axioms;

// ---------------------------------------------------------------------------
// Unreachable code
// ---------------------------------------------------------------------------

/// Instructions after which control never falls through.
pub open spec fn is_terminator(op: OpCode) -> bool {
    ||| op is Jump
    ||| op is Return
    ||| op is Throw
}

/// Whether, after the first `i` instructions, control can no longer fall
/// through: a terminator was seen and no block switch followed it.
pub open spec fn terminated_before(s: Seq<OpCode>, i: int) -> bool
    decreases i,
{
    if i <= 0 {
        false
    } else {
        let c = s[i - 1];
        if c is SwitchToBlock {
            false
        } else if terminated_before(s, i - 1) {
            true
        } else {
            is_terminator(c)
        }
    }
}

/// Whether instruction `i` can be reached by falling through.
pub open spec fn reachable_at(s: Seq<OpCode>, i: int) -> bool {
    s[i] is SwitchToBlock || !terminated_before(s, i)
}

/// The reachable instructions among the first `n`, in order.
pub open spec fn reachable_prefix(s: Seq<OpCode>, n: int) -> Seq<OpCode>
    decreases n,
{
    if n <= 0 {
        seq![]
    } else {
        let r = reachable_prefix(s, n - 1);
        if reachable_at(s, n - 1) {
            r.push(s[n - 1])
        } else {
            r
        }
    }
}

/// `s` without the instructions that follow a terminator in the same block.
pub open spec fn spec_remove_unreachable(s: Seq<OpCode>) -> Seq<OpCode> {
    reachable_prefix(s, s.len() as int)
}

/// Remove the instructions that follow a `Jump`, `Return` or `Throw`
/// up to the next `SwitchToBlock`.
pub fn remove_unreachable(codes: Vec<OpCode>) -> (r: Vec<OpCode>)
    ensures
        r@ == spec_remove_unreachable(codes@),
{
    let mut out: Vec<OpCode> = Vec::new();
    let mut is_terminated = false;
    let mut i: usize = 0;
    while i < codes.len()
        invariant
            i <= codes.len(),
            out@ == reachable_prefix(codes@, i as int),
            is_terminated == terminated_before(codes@, i as int),
        decreases codes.len() - i,
    {
        let code = codes[i];
        if let OpCode::SwitchToBlock(_) = code {
            is_terminated = false;
        }
        if !is_terminated {
            out.push(code);
            match code {
                OpCode::Jump { .. } | OpCode::Return { .. } | OpCode::Throw { .. } => {
                    is_terminated = true;
                },
                _ => {},
            }
        }
        i += 1;
    }
    out
}

proof fn lemma_terminated_prefix(s1: Seq<OpCode>, s2: Seq<OpCode>, i: int)
    requires
        0 <= i <= s1.len(),
        i <= s2.len(),
        forall|j: int| 0 <= j < i ==> s1[j] == s2[j],
    ensures
        terminated_before(s1, i) == terminated_before(s2, i),
    decreases i,
{
    if i > 0 {
        lemma_terminated_prefix(s1, s2, i - 1);
    }
}

proof fn lemma_reachable_prefix_prefix(s1: Seq<OpCode>, s2: Seq<OpCode>, n: int)
    requires
        0 <= n <= s1.len(),
        n <= s2.len(),
        forall|j: int| 0 <= j < n ==> s1[j] == s2[j],
    ensures
        reachable_prefix(s1, n) == reachable_prefix(s2, n),
    decreases n,
{
    if n > 0 {
        lemma_reachable_prefix_prefix(s1, s2, n - 1);
        lemma_terminated_prefix(s1, s2, n - 1);
    }
}

proof fn lemma_reachable_prefix_stable(s: Seq<OpCode>, n: int)
    requires
        0 <= n <= s.len(),
    ensures
        ({
            let t = reachable_prefix(s, n);
            &&& terminated_before(t, t.len() as int) == terminated_before(s, n)
            &&& reachable_prefix(t, t.len() as int) == t
        }),
    decreases n,
{
    if n > 0 {
        lemma_reachable_prefix_stable(s, n - 1);
        let tp = reachable_prefix(s, n - 1);
        let t = reachable_prefix(s, n);
        if reachable_at(s, n - 1) {
            assert(t == tp.push(s[n - 1]));
            lemma_terminated_prefix(t, tp, tp.len() as int);
            lemma_reachable_prefix_prefix(t, tp, tp.len() as int);
        }
    }
}

/// With no `Jump`, `Return` or `Throw` before it, no instruction is
/// unreachable: conditional jumps fall through.
proof fn lemma_not_terminated_without_unconditional_jumps(s: Seq<OpCode>, i: int)
    requires
        i <= s.len(),
        forall|j: int| 0 <= j < s.len() ==> !(s[j] is Jump) && !(s[j] is Return) && !(s[j] is Throw),
    ensures
        !terminated_before(s, i),
    decreases i,
{
    if i > 0 {
        lemma_not_terminated_without_unconditional_jumps(s, i - 1);
    }
}

proof fn lemma_reachable_prefix_is_prefix(s: Seq<OpCode>, n: int)
    requires
        0 <= n <= s.len(),
        forall|j: int| 0 <= j < s.len() ==> !(s[j] is Jump) && !(s[j] is Return) && !(s[j] is Throw),
    ensures
        reachable_prefix(s, n) == s.take(n),
    decreases n,
{
    if n > 0 {
        lemma_reachable_prefix_is_prefix(s, n - 1);
        lemma_not_terminated_without_unconditional_jumps(s, n - 1);
        assert(s.take(n - 1).push(s[n - 1]) =~= s.take(n));
    }
}

/// Code in which no instruction is a `Jump`, a `Return` or a `Throw` has no
/// unreachable instruction, whatever conditional jumps it holds: removing
/// unreachable code leaves it as it is.
pub proof fn law_remove_unreachable_keeps_fallthrough(s: Seq<OpCode>)
    requires
        forall|j: int| 0 <= j < s.len() ==> !(s[j] is Jump) && !(s[j] is Return) && !(s[j] is Throw),
    ensures
        spec_remove_unreachable(s) == s,
{
    lemma_reachable_prefix_is_prefix(s, s.len() as int);
    assert(s.take(s.len() as int) =~= s);
}

/// Removing unreachable code twice removes nothing more than removing it once.
pub proof fn lemma_remove_unreachable_idempotent(s: Seq<OpCode>)
    ensures
        spec_remove_unreachable(spec_remove_unreachable(s)) == spec_remove_unreachable(s),
{
    lemma_reachable_prefix_stable(s, s.len() as int);
}

/// After removing unreachable code, every instruction that follows a
/// terminator is a `SwitchToBlock`.
pub proof fn lemma_remove_unreachable_no_fallthrough(s: Seq<OpCode>, k: int)
    requires
        0 < k < spec_remove_unreachable(s).len(),
        is_terminator(spec_remove_unreachable(s)[k - 1]),
    ensures
        spec_remove_unreachable(s)[k] is SwitchToBlock,
{
    let t = spec_remove_unreachable(s);
    lemma_reachable_prefix_stable(s, s.len() as int);
    assert(t.take(t.len() as int) =~= t);
    lemma_all_reachable(t, t.len() as int);
    assert(reachable_at(t, k));
    assert(terminated_before(t, k));
}

proof fn lemma_all_reachable(t: Seq<OpCode>, n: int)
    requires
        0 <= n <= t.len(),
        reachable_prefix(t, n) == t.take(n),
    ensures
        forall|k: int| 0 <= k < n ==> reachable_at(t, k),
    decreases n,
{
    if n > 0 {
        if !reachable_at(t, n - 1) {
            assert(reachable_prefix(t, n).len() == reachable_prefix(t, n - 1).len());
            lemma_reachable_len(t, n - 1);
        } else {
            assert(reachable_prefix(t, n - 1) == reachable_prefix(t, n).drop_last());
            assert(t.take(n).drop_last() == t.take(n - 1));
        }
        if !reachable_at(t, n - 1) {
        } else {
            lemma_all_reachable(t, n - 1);
        }
    }
}

proof fn lemma_reachable_len(t: Seq<OpCode>, n: int)
    requires
        0 <= n <= t.len(),
    ensures
        reachable_prefix(t, n).len() <= n,
    decreases n,
{
    if n > 0 {
        lemma_reachable_len(t, n - 1);
    }
}

// ---------------------------------------------------------------------------
// Moves from a register to itself
// ---------------------------------------------------------------------------

/// A `Mov` whose source and destination are the same register.
pub open spec fn is_self_mov(op: OpCode) -> bool {
    match op {
        OpCode::Mov { from, to } => from == to,
        _ => false,
    }
}

/// The first `n` instructions of `s` without the self moves.
pub open spec fn without_self_movs(s: Seq<OpCode>, n: int) -> Seq<OpCode>
    decreases n,
{
    if n <= 0 {
        seq![]
    } else {
        let r = without_self_movs(s, n - 1);
        if is_self_mov(s[n - 1]) {
            r
        } else {
            r.push(s[n - 1])
        }
    }
}

/// `s` without the moves from a register to itself.
pub open spec fn spec_remove_unused_mov(s: Seq<OpCode>) -> Seq<OpCode> {
    without_self_movs(s, s.len() as int)
}

/// Remove the moves from a register to itself.
pub fn remove_unused_mov(codes: Vec<OpCode>) -> (r: Vec<OpCode>)
    ensures
        r@ == spec_remove_unused_mov(codes@),
{
    let mut out: Vec<OpCode> = Vec::new();
    let mut i: usize = 0;
    while i < codes.len()
        invariant
            i <= codes.len(),
            out@ == without_self_movs(codes@, i as int),
        decreases codes.len() - i,
    {
        let code = codes[i];
        let keep = match code {
            OpCode::Mov { from, to } => from != to,
            _ => true,
        };
        if keep {
            out.push(code);
        }
        i += 1;
    }
    out
}

proof fn lemma_without_self_movs_props(s: Seq<OpCode>, n: int)
    requires
        0 <= n <= s.len(),
    ensures
        forall|k: int|
            0 <= k < without_self_movs(s, n).len() ==> !is_self_mov(
                #[trigger] without_self_movs(s, n)[k],
            ),
        (forall|j: int| 0 <= j < n ==> !is_self_mov(#[trigger] s[j])) ==> without_self_movs(s, n)
            == s.take(n),
    decreases n,
{
    if n > 0 {
        lemma_without_self_movs_props(s, n - 1);
        let p = without_self_movs(s, n - 1);
        let r = without_self_movs(s, n);
        assert forall|k: int| 0 <= k < r.len() implies !is_self_mov(#[trigger] r[k]) by {
            if k < p.len() {
                assert(r[k] == p[k]);
            }
        }
        if forall|j: int| 0 <= j < n ==> !is_self_mov(#[trigger] s[j]) {
            assert(s.take(n - 1).push(s[n - 1]) =~= s.take(n));
        }
    } else {
        assert(s.take(0) =~= seq![]);
    }
}

/// No move from a register to itself is left, every other instruction is,
/// and removing them a second time changes nothing.
pub proof fn lemma_remove_unused_mov_laws(s: Seq<OpCode>)
    ensures
        forall|k: int|
            0 <= k < spec_remove_unused_mov(s).len() ==> !is_self_mov(
                #[trigger] spec_remove_unused_mov(s)[k],
            ),
        spec_remove_unused_mov(spec_remove_unused_mov(s)) == spec_remove_unused_mov(s),
{
    let t = spec_remove_unused_mov(s);
    lemma_without_self_movs_props(s, s.len() as int);
    lemma_without_self_movs_props(t, t.len() as int);
    assert(t.take(t.len() as int) =~= t);
}

// ---------------------------------------------------------------------------
// Jump resolution
// ---------------------------------------------------------------------------

/// The block an instruction transfers control to, for the instructions
/// whose `line` field is resolved.
pub open spec fn jump_target(op: OpCode) -> Option<Block> {
    match op {
        OpCode::Jump { to, .. } => Some(to),
        OpCode::JumpIfTrue { to, .. } => Some(to),
        OpCode::JumpIfFalse { to, .. } => Some(to),
        OpCode::EnterTry { catch_block, .. } => Some(catch_block),
        _ => None,
    }
}

/// The instruction with its resolved `line` replaced.
pub open spec fn with_line(op: OpCode, line: u32) -> OpCode {
    match op {
        OpCode::Jump { to, .. } => OpCode::Jump { to, line },
        OpCode::JumpIfTrue { value, to, .. } => OpCode::JumpIfTrue { value, to, line },
        OpCode::JumpIfFalse { value, to, .. } => OpCode::JumpIfFalse { value, to, line },
        OpCode::EnterTry { catch_block, .. } => OpCode::EnterTry { catch_block, line },
        _ => op,
    }
}

/// The index of the last `SwitchToBlock(b)` among the first `n` instructions.
pub open spec fn last_switch(s: Seq<OpCode>, b: u16, n: int) -> Option<int>
    decreases n,
{
    if n <= 0 {
        None
    } else if s[n - 1] == OpCode::SwitchToBlock(Block(b)) {
        Some(n - 1)
    } else {
        last_switch(s, b, n - 1)
    }
}

/// Every jump target of `s` has a `SwitchToBlock` in `s`.
pub open spec fn jumps_resolvable(s: Seq<OpCode>) -> bool {
    forall|i: int|
        0 <= i < s.len() ==> match #[trigger] jump_target(s[i]) {
            Some(b) => last_switch(s, b.0, s.len() as int) is Some,
            None => true,
        }
}

/// `s` with the `line` of each jump set to the index of the last
/// `SwitchToBlock` of its target block.
pub open spec fn spec_resolve_jump_locations(s: Seq<OpCode>) -> Seq<OpCode> {
    Seq::new(
        s.len(),
        |i: int|
            match jump_target(s[i]) {
                Some(b) => with_line(s[i], last_switch(s, b.0, s.len() as int)->0 as u32),
                None => s[i],
            },
    )
}

proof fn lemma_last_switch_bounds(s: Seq<OpCode>, b: u16, n: int)
    ensures
        last_switch(s, b, n) matches Some(k) ==> 0 <= k < n && s[k] == OpCode::SwitchToBlock(
            Block(b),
        ),
    decreases n,
{
    if n > 0 {
        lemma_last_switch_bounds(s, b, n - 1);
    }
}

/// Set the `line` of every jump to the index of the `SwitchToBlock` of its
/// target (the last one, when a block is switched to more than once).
pub fn resolve_jump_locations(codes: Vec<OpCode>) -> (r: Vec<OpCode>)
    requires
        jumps_resolvable(codes@),
    ensures
        r@ == spec_resolve_jump_locations(codes@),
{
    let mut blocks: HashMap<u16, usize> = HashMap::new();
    let n = codes.len();
    let mut i: usize = 0;
    while i < n
        invariant
            i <= n,
            n == codes.len(),
            forall|k: u16|
                #![trigger blocks@.contains_key(k)]
                blocks@.contains_key(k) <==> last_switch(codes@, k, i as int) is Some,
            forall|k: u16|
                #![trigger blocks@[k]]
                blocks@.contains_key(k) ==> blocks@[k] as int == last_switch(
                    codes@,
                    k,
                    i as int,
                )->0,
        decreases n - i,
    {
        if let OpCode::SwitchToBlock(b) = codes[i] {
            blocks.insert(b.0, i);
        }
        i += 1;
    }
    let ghost orig = codes@;
    let mut codes = codes;
    let mut i: usize = 0;
    while i < n
        invariant
            i <= n,
            n == codes.len(),
            n == orig.len(),
            jumps_resolvable(orig),
            forall|k: u16|
                #![trigger blocks@.contains_key(k)]
                blocks@.contains_key(k) <==> last_switch(orig, k, n as int) is Some,
            forall|k: u16|
                #![trigger blocks@[k]]
                blocks@.contains_key(k) ==> blocks@[k] as int == last_switch(orig, k, n as int)->0,
            forall|j: int| i <= j < n ==> codes@[j] == orig[j],
            forall|j: int|
                0 <= j < i ==> codes@[j] == #[trigger] spec_resolve_jump_locations(orig)[j],
        decreases n - i,
    {
        let code = codes[i];
        assert(code == orig[i as int]);
        let new_code = match code {
            OpCode::Jump { to, line: _ } => {
                assert(jump_target(orig[i as int]) == Some(to));
                let line = *blocks.get(&to.0).unwrap();
                OpCode::Jump { to, line: line as u32 }
            },
            OpCode::JumpIfTrue { value, to, line: _ } => {
                assert(jump_target(orig[i as int]) == Some(to));
                let line = *blocks.get(&to.0).unwrap();
                OpCode::JumpIfTrue { value, to, line: line as u32 }
            },
            OpCode::JumpIfFalse { value, to, line: _ } => {
                assert(jump_target(orig[i as int]) == Some(to));
                let line = *blocks.get(&to.0).unwrap();
                OpCode::JumpIfFalse { value, to, line: line as u32 }
            },
            OpCode::EnterTry { catch_block, line: _ } => {
                assert(jump_target(orig[i as int]) == Some(catch_block));
                let line = *blocks.get(&catch_block.0).unwrap();
                OpCode::EnterTry { catch_block, line: line as u32 }
            },
            _ => code,
        };
        codes.set(i, new_code);
        i += 1;
    }
    assert(codes@ =~= spec_resolve_jump_locations(orig));
    codes
}

/// After resolution, the `line` of every jump names an instruction that
/// switches to the jump's target block (when every index fits in a `u32`).
pub proof fn lemma_resolved_jumps_land_on_their_block(s: Seq<OpCode>, i: int)
    requires
        jumps_resolvable(s),
        s.len() <= u32::MAX as int + 1,
        0 <= i < s.len(),
        jump_target(s[i]) is Some,
    ensures
        ({
            let r = spec_resolve_jump_locations(s);
            let b = jump_target(s[i])->0;
            let line = match r[i] {
                OpCode::Jump { line, .. } => line,
                OpCode::JumpIfTrue { line, .. } => line,
                OpCode::JumpIfFalse { line, .. } => line,
                OpCode::EnterTry { line, .. } => line,
                _ => 0,
            };
            &&& jump_target(r[i]) == Some(b)
            &&& line < r.len()
            &&& r[line as int] == OpCode::SwitchToBlock(b)
        }),
{
    let b = jump_target(s[i])->0;
    assert(last_switch(s, b.0, s.len() as int) is Some);
    lemma_last_switch_bounds(s, b.0, s.len() as int);
    let k = last_switch(s, b.0, s.len() as int)->0;
    assert(k as u32 == k);
    assert(jump_target(s[k]) is None);
}

// ---------------------------------------------------------------------------
// Dead register writes
// ---------------------------------------------------------------------------

/// What happens first to a register after some instruction.
#[derive(Debug, Clone, Copy, PartialEq, Eq, Structural)]
pub enum RegisterUse {
    /// a later instruction reads it
    Read,
    /// a later instruction writes it before anything reads it
    Overwritten,
    /// neither happens before the end of the code
    Unused,
}

/// The first event on register `w` at or after index `j`: an instruction
/// that reads `w` counts as a read even when it also writes `w`.
pub open spec fn next_use(s: Seq<OpCode>, w: Register, j: int) -> RegisterUse
    decreases s.len() - j,
{
    if j < 0 || j >= s.len() {
        RegisterUse::Unused
    } else if spec_reads(s[j], w) {
        RegisterUse::Read
    } else if spec_writes_to(s[j]) == Some(w) {
        RegisterUse::Overwritten
    } else {
        next_use(s, w, j + 1)
    }
}

/// Instruction `i` writes a register that is overwritten before it is read.
pub open spec fn is_dead_write(s: Seq<OpCode>, i: int) -> bool {
    match spec_writes_to(s[i]) {
        Some(w) => next_use(s, w, i + 1) == RegisterUse::Overwritten,
        None => false,
    }
}

/// The first `n` instructions of `s` without the dead writes.
pub open spec fn without_dead_writes(s: Seq<OpCode>, n: int) -> Seq<OpCode>
    decreases n,
{
    if n <= 0 {
        seq![]
    } else {
        let r = without_dead_writes(s, n - 1);
        if is_dead_write(s, n - 1) {
            r
        } else {
            r.push(s[n - 1])
        }
    }
}

/// `s` without the instructions whose result is overwritten unread.
pub open spec fn spec_remove_unuse_operations(s: Seq<OpCode>) -> Seq<OpCode> {
    without_dead_writes(s, s.len() as int)
}

fn next_use_from(codes: &Vec<OpCode>, w: Register, start: usize) -> (r: RegisterUse)
    requires
        start <= codes.len(),
    ensures
        r == next_use(codes@, w, start as int),
    decreases codes.len() - start,
{
    let mut j = start;
    while j < codes.len()
        invariant
            start <= j <= codes.len(),
            next_use(codes@, w, start as int) == next_use(codes@, w, j as int),
        decreases codes.len() - j,
    {
        let code = codes[j];
        let rs = code.reads_from();
        if rs[0] == w || rs[1] == w || rs[2] == w {
            return RegisterUse::Read;
        }
        if let Some(wr) = code.writes_to() {
            if wr == w {
                return RegisterUse::Overwritten;
            }
        }
        j += 1;
    }
    RegisterUse::Unused
}

/// Remove the instructions that write a register which a later instruction
/// overwrites before anything reads it.
pub fn remove_unuse_operations(codes: Vec<OpCode>) -> (r: Vec<OpCode>)
    requires
        codes.len() > 0,
    ensures
        r@ == spec_remove_unuse_operations(codes@),
{
    let mut out: Vec<OpCode> = Vec::new();
    let mut i: usize = 0;
    while i < codes.len()
        invariant
            i <= codes.len(),
            out@ == without_dead_writes(codes@, i as int),
        decreases codes.len() - i,
    {
        let code = codes[i];
        let dead = match code.writes_to() {
            Some(w) => next_use_from(&codes, w, i + 1) == RegisterUse::Overwritten,
            None => false,
        };
        if !dead {
            out.push(code);
        }
        i += 1;
    }
    out
}

// ---------------------------------------------------------------------------
// Temporary slots that only hold a stack value
// ---------------------------------------------------------------------------

/// The state of the pass that reads temporary slots straight from the stack:
/// the code so far, the index of the next instruction, and for each
/// slot still open, innermost last, the `(index, stack offset)` of the slot when it only
/// holds a value just read from the stack.
pub struct StackTempState {
    pub codes: Seq<OpCode>,
    pub i: int,
    pub temps: Seq<Option<(usize, u16)>>,
}

/// One step of the pass; `None` where the step would fail (a temporary
/// read or released with no slot recorded, an index out of range, or the
/// instruction index dropping below zero).
pub open spec fn stack_temp_step(st: StackTempState) -> Option<StackTempState> {
    let c = st.codes;
    let i = st.i;
    let next = StackTempState { codes: c, i: i + 1, temps: st.temps };
    match c[i] {
        OpCode::ReadFromStack { result, stack_offset } => {
            if i + 1 < c.len() {
                match c[i + 1] {
                    OpCode::StoreTemp { value } => Some(
                        StackTempState {
                            codes: c,
                            i: i + 2,
                            temps: st.temps.push(
                                if value == result {
                                    Some(((i + 1) as usize, stack_offset))
                                } else {
                                    None
                                },
                            ),
                        },
                    ),
                    _ => Some(next),
                }
            } else {
                Some(next)
            }
        },
        OpCode::StoreTemp { .. } => Some(
            StackTempState { codes: c, i: i + 1, temps: st.temps.push(None) },
        ),
        OpCode::ReadTemp { value } => {
            if st.temps.len() == 0 {
                None
            } else {
                match st.temps.last() {
                    Some((_, off)) => Some(
                        StackTempState {
                            codes: c.update(
                                i,
                                OpCode::ReadFromStack { result: value, stack_offset: off },
                            ),
                            i: i + 1,
                            temps: st.temps,
                        },
                    ),
                    None => Some(next),
                }
            }
        },
        OpCode::ReleaseTemp => {
            if st.temps.len() == 0 {
                None
            } else {
                match st.temps.last() {
                    Some((line, _)) => {
                        let c1 = c.remove(i);
                        if (line as int) < c1.len() && i >= 2 {
                            Some(
                                StackTempState {
                                    codes: c1.remove(line as int),
                                    i: i - 1,
                                    temps: st.temps.drop_last(),
                                },
                            )
                        } else {
                            None
                        }
                    },
                    None => Some(StackTempState { codes: c, i: i + 1, temps: st.temps.drop_last() }),
                }
            }
        },
        _ => Some(next),
    }
}

/// Running the pass from a state to the end of the code.
pub open spec fn stack_temp_run(st: StackTempState) -> Option<Seq<OpCode>>
    decreases st.codes.len() - st.i,
{
    if st.i < 0 {
        None
    } else if st.i >= st.codes.len() {
        Some(st.codes)
    } else {
        match stack_temp_step(st) {
            Some(n) => stack_temp_run(n),
            None => None,
        }
    }
}

/// The result of the pass on `s`, or `None` where it would fail.
pub open spec fn spec_remove_temp_read_from_stack(s: Seq<OpCode>) -> Option<Seq<OpCode>> {
    stack_temp_run(StackTempState { codes: s, i: 0, temps: seq![] })
}

/// Replace the temporary slots that only hold a value just read from the
/// stack: each `ReadTemp` of such a slot becomes a read from the stack, and
/// the `StoreTemp` and `ReleaseTemp` of the slot are removed.
pub fn remove_temp_read_from_stack(codes: Vec<OpCode>) -> (r: Vec<OpCode>)
    requires
        spec_remove_temp_read_from_stack(codes@) is Some,
    ensures
        r@ == spec_remove_temp_read_from_stack(codes@)->0,
{
    let ghost result = spec_remove_temp_read_from_stack(codes@);
    let mut codes = codes;
    let mut temps: Vec<Option<(usize, u16)>> = Vec::new();
    let mut i: usize = 0;
    while i < codes.len()
        invariant
            i <= codes.len(),
            result is Some,
            stack_temp_run(StackTempState { codes: codes@, i: i as int, temps: temps@ })
                == result,
        decreases codes.len() - i,
    {
        let ghost st = StackTempState { codes: codes@, i: i as int, temps: temps@ };
        assert(stack_temp_step(st) is Some);
        let code = codes[i];
        match code {
            OpCode::ReadFromStack { result, stack_offset } => {
                if i + 1 < codes.len() {
                    if let OpCode::StoreTemp { value } = codes[i + 1] {
                        if value == result {
                            temps.push(Some((i + 1, stack_offset)));
                        } else {
                            temps.push(None);
                        }
                        i += 1;
                    }
                }
            },
            OpCode::StoreTemp { .. } => {
                temps.push(None);
            },
            OpCode::ReadTemp { value } => {
                let v = temps[temps.len() - 1];
                if let Some((_, stack_offset)) = v {
                    codes.set(i, OpCode::ReadFromStack { result: value, stack_offset });
                }
            },
            OpCode::ReleaseTemp => {
                let v = temps.pop().unwrap();
                if let Some((line, _)) = v {
                    codes.remove(i);
                    codes.remove(line);
                    i -= 2;
                }
            },
            _ => {},
        }
        proof {
            let n = stack_temp_step(st)->0;
            assert(codes@ =~= n.codes);
            assert(temps@ =~= n.temps);
        }
        i += 1;
    }
    codes
}

// ---------------------------------------------------------------------------
// Temporary slots replaced by moves
// ---------------------------------------------------------------------------

/// A temporary slot opened by a `StoreTemp` and not yet released.
pub struct TempSlot {
    /// index of the `StoreTemp`
    pub idx: usize,
    /// the register whose value the slot holds
    pub reg: Register,
    /// whether an instruction after the `StoreTemp` wrote `reg`
    pub written: bool,
    /// the `ReadTemp`s of the slot: their index and destination register
    pub reads: Vec<(usize, Register)>,
    /// which of the registers 0, 1, 2 an instruction inside the slot writes
    pub used: [bool; 3],
}

/// The mathematical form of a [`TempSlot`].
pub struct TempSlotView {
    pub idx: usize,
    pub reg: Register,
    pub written: bool,
    pub reads: Seq<(usize, Register)>,
    pub used: Seq<bool>,
}

impl View for TempSlot {
    type V = TempSlotView;

    open spec fn view(&self) -> TempSlotView {
        TempSlotView {
            idx: self.idx,
            reg: self.reg,
            written: self.written,
            reads: self.reads@,
            used: self.used@,
        }
    }
}

/// The state of the pass that turns temporary slots into moves.
pub struct TempState {
    pub codes: Seq<OpCode>,
    pub i: int,
    pub temps: Seq<TempSlotView>,
}

/// Replace the instruction at each of the first `n` recorded reads by a
/// move from `from` to the read's register, in order; `None` if an index is
/// out of range.
pub open spec fn apply_movs(c: Seq<OpCode>, reads: Seq<(usize, Register)>, from: Register, n: int) -> Option<Seq<OpCode>>
    decreases n,
{
    if n <= 0 {
        Some(c)
    } else {
        match apply_movs(c, reads, from, n - 1) {
            Some(c1) => if (reads[n - 1].0 as int) < c1.len() {
                Some(c1.update(reads[n - 1].0 as int, OpCode::Mov { from, to: reads[n - 1].1 }))
            } else {
                None
            },
            None => None,
        }
    }
}

/// The highest of the registers 0, 1, 2 that the slot leaves unwritten
/// (0 when there is none).
pub open spec fn last_unused_register(used: Seq<bool>) -> u8 {
    if !used[2] {
        2
    } else if !used[1] {
        1
    } else {
        0
    }
}

/// A register flag set when `r` is one of the registers 0, 1, 2.
pub open spec fn mark_register(used: Seq<bool>, r: Register) -> Seq<bool> {
    if r.0 < 3 {
        used.update(r.0 as int, true)
    } else {
        used
    }
}

/// A slot after an instruction inside it writes `w` and reads `rd`: the
/// slot's register counts as written when it is `w`, and every register of
/// 0, 1, 2 that is written or read counts as used, so that it is not chosen
/// to park the slot's value.
pub open spec fn touch(t: TempSlotView, w: Option<Register>, rd: (Register, Register, Register)) -> TempSlotView {
    let u0 = match w {
        Some(r) => mark_register(t.used, r),
        None => t.used,
    };
    TempSlotView {
        written: t.written || w == Some(t.reg),
        used: mark_register(mark_register(mark_register(u0, rd.0), rd.1), rd.2),
        ..t
    }
}

/// The open slots after an instruction writing `w` and reading `rd`: the
/// first `n` of them (those the instruction lies inside) are touched.
pub open spec fn touch_slots(
    temps: Seq<TempSlotView>,
    n: int,
    w: Option<Register>,
    rd: (Register, Register, Register),
) -> Seq<TempSlotView> {
    Seq::new(temps.len(), |j: int| if j < n { touch(temps[j], w, rd) } else { temps[j] })
}

/// No register, the padding of a read set.
pub open spec fn no_reads() -> (Register, Register, Register) {
    (Register(255), Register(255), Register(255))
}

/// One step of the pass; `None` where the step would fail.
pub open spec fn temp_step(st: TempState) -> Option<TempState> {
    let c = st.codes;
    let i = st.i;
    let temps = st.temps;
    match c[i] {
        OpCode::StoreTemp { value } => Some(
            TempState {
                codes: c,
                i: i + 1,
                temps: touch_slots(temps, temps.len() as int, None, (value, Register(255), Register(255))).push(
                    TempSlotView {
                        idx: i as usize,
                        reg: value,
                        written: false,
                        reads: seq![],
                        used: seq![false, false, false],
                    },
                ),
            },
        ),
        OpCode::ReadTemp { value } => {
            if temps.len() == 0 {
                None
            } else {
                let t = temps.last();
                let t2 = TempSlotView { reads: t.reads.push((i as usize, value)), ..t };
                let outer = touch_slots(temps.drop_last(), temps.len() - 1, Some(value), no_reads());
                Some(TempState { codes: c, i: i + 1, temps: outer.push(t2) })
            }
        },
        OpCode::ReleaseTemp => {
            if temps.len() == 0 {
                None
            } else {
                let t = temps.last();
                let rest = temps.drop_last();
                if t.reads.len() == 0 {
                    let c1 = c.remove(i);
                    if (t.idx as int) < c1.len() && i >= 1 {
                        Some(TempState { codes: c1.remove(t.idx as int), i: i - 1, temps: rest })
                    } else {
                        None
                    }
                } else if !t.written {
                    match apply_movs(c, t.reads, t.reg, t.reads.len() as int) {
                        Some(c2) => {
                            let c3 = c2.remove(i);
                            if (t.idx as int) < c3.len() && i >= 1 {
                                Some(
                                    TempState {
                                        codes: c3.remove(t.idx as int),
                                        i: i - 1,
                                        temps: touch_slots(rest, rest.len() as int, None, (t.reg, Register(255), Register(255))),
                                    },
                                )
                            } else {
                                None
                            }
                        },
                        None => None,
                    }
                } else if t.used != seq![true, true, true] {
                    let k = last_unused_register(t.used);
                    if (t.idx as int) < c.len() && i >= 1 {
                        let c2 = c.update(t.idx as int, OpCode::Mov { from: t.reg, to: Register(k) });
                        match apply_movs(c2, t.reads, Register(k), t.reads.len() as int) {
                            Some(c3) => Some(
                                TempState {
                                    codes: c3.remove(i),
                                    i: i,
                                    temps: touch_slots(rest, rest.len() as int, Some(Register(k)), (t.reg, Register(k), Register(255))),
                                },
                            ),
                            None => None,
                        }
                    } else {
                        None
                    }
                } else {
                    Some(TempState { codes: c, i: i + 1, temps: rest })
                }
            }
        },
        _ => {
            if temps.len() == 0 {
                Some(TempState { codes: c, i: i + 1, temps })
            } else {
                match spec_writes_to(c[i]) {
                    Some(r) => {
                        if r.0 >= 3 {
                            None
                        } else {
                            Some(
                                TempState {
                                    codes: c,
                                    i: i + 1,
                                    temps: touch_slots(temps, temps.len() as int, Some(r), spec_reads_from(c[i])),
                                },
                            )
                        }
                    },
                    None => Some(
                        TempState {
                            codes: c,
                            i: i + 1,
                            temps: touch_slots(temps, temps.len() as int, None, spec_reads_from(c[i])),
                        },
                    ),
                }
            }
        },
    }
}

/// Running the pass from a state to the end of the code.
pub open spec fn temp_run(st: TempState) -> Option<Seq<OpCode>>
    decreases st.codes.len() - st.i via temp_run_decreases
{
    if st.i < 0 {
        None
    } else if st.i >= st.codes.len() {
        Some(st.codes)
    } else {
        match temp_step(st) {
            Some(n) => temp_run(n),
            None => None,
        }
    }
}

#[via_fn]
proof fn temp_run_decreases(st: TempState) {
    if 0 <= st.i < st.codes.len() && st.temps.len() > 0 {
        let t = st.temps.last();
        if apply_movs(st.codes, t.reads, t.reg, t.reads.len() as int) is Some {
            lemma_apply_movs_prefix(st.codes, t.reads, t.reg, t.reads.len() as int, t.reads.len() as int);
        }
        if (t.idx as int) < st.codes.len() {
            let k = last_unused_register(t.used);
            let c2 = st.codes.update(t.idx as int, OpCode::Mov { from: t.reg, to: Register(k) });
            if apply_movs(c2, t.reads, Register(k), t.reads.len() as int) is Some {
                lemma_apply_movs_prefix(c2, t.reads, Register(k), t.reads.len() as int, t.reads.len() as int);
            }
        }
    }
}

/// The result of the pass on `s`, or `None` where it would fail.
pub open spec fn spec_remove_unused_temp(s: Seq<OpCode>) -> Option<Seq<OpCode>> {
    temp_run(TempState { codes: s, i: 0, temps: seq![] })
}

proof fn lemma_apply_movs_prefix(c: Seq<OpCode>, reads: Seq<(usize, Register)>, from: Register, j: int, n: int)
    requires
        0 <= j <= n,
        apply_movs(c, reads, from, n) is Some,
    ensures
        apply_movs(c, reads, from, j) is Some,
        apply_movs(c, reads, from, j)->0.len() == c.len(),
    decreases n,
{
    if j < n {
        lemma_apply_movs_prefix(c, reads, from, j, n - 1);
    } else if n > 0 {
        lemma_apply_movs_prefix(c, reads, from, n - 1, n - 1);
    }
}

fn write_movs(codes: &mut Vec<OpCode>, reads: &Vec<(usize, Register)>, from: Register)
    requires
        apply_movs(old(codes)@, reads@, from, reads@.len() as int) is Some,
    ensures
        final(codes)@ == apply_movs(old(codes)@, reads@, from, reads@.len() as int)->0,
        final(codes)@.len() == old(codes)@.len(),
{
    proof {
        lemma_apply_movs_prefix(old(codes)@, reads@, from, reads@.len() as int, reads@.len() as int);
    }
    let mut j: usize = 0;
    while j < reads.len()
        invariant
            j <= reads.len(),
            apply_movs(old(codes)@, reads@, from, reads@.len() as int) is Some,
            apply_movs(old(codes)@, reads@, from, j as int) == Some(codes@),
        decreases reads.len() - j,
    {
        proof {
            lemma_apply_movs_prefix(old(codes)@, reads@, from, j + 1, reads@.len() as int);
        }
        let (index, write_to) = reads[j];
        codes.set(index, OpCode::Mov { from, to: write_to });
        j += 1;
    }
}

/// Set the flag of `r` when it is one of the registers 0, 1, 2.
fn mark_used(used: &mut [bool; 3], r: Register)
    ensures
        final(used)@ == mark_register(old(used)@, r),
{
    if r.0 < 3 {
        used[r.0 as usize] = true;
    }
}

/// Touch the first `n` open slots with an instruction writing `w` and
/// reading `rd`.
fn touch_open_slots(temps: &mut Vec<TempSlot>, n: usize, w: Option<Register>, rd: (Register, Register, Register))
    requires
        n <= old(temps)@.len(),
    ensures
        final(temps)@.map_values(|t: TempSlot| t@) == touch_slots(
            old(temps)@.map_values(|t: TempSlot| t@),
            n as int,
            w,
            rd,
        ),
{
    let ghost before = old(temps)@.map_values(|t: TempSlot| t@);
    let mut j: usize = 0;
    while j < n
        invariant
            j <= n,
            n <= temps@.len(),
            temps@.len() == before.len(),
            forall|k: int| 0 <= k < j ==> #[trigger] temps@[k]@ == touch(before[k], w, rd),
            forall|k: int| j <= k < temps@.len() ==> #[trigger] temps@[k]@ == before[k],
        decreases n - j,
    {
        let mut t = TempSlot { idx: 0, reg: Register(0), written: false, reads: Vec::new(), used: [false, false, false] };
        std::mem::swap(&mut t, &mut temps[j]);
        assert(t@ == before[j as int]);
        match w {
            Some(r) => {
                if r == t.reg {
                    t.written = true;
                }
                mark_used(&mut t.used, r);
            },
            None => {},
        }
        let (a, b, c) = rd;
        mark_used(&mut t.used, a);
        mark_used(&mut t.used, b);
        mark_used(&mut t.used, c);
        assert(t@ == touch(before[j as int], w, rd));
        temps.set(j, t);
        j += 1;
    }
    assert(temps@.map_values(|t: TempSlot| t@) =~= touch_slots(before, n as int, w, rd));
}

/// Replace temporary slots by register moves: a slot that is never read
/// is dropped; a slot whose register is not written while it is open is
/// replaced by moves from that register; otherwise, when one of the
/// registers 0, 1, 2 is neither written nor read inside the slot, the value
/// is parked in that register. A write or read inside nested slots counts
/// for every slot that encloses it.
pub fn remove_unused_temp(codes: Vec<OpCode>) -> (r: Vec<OpCode>)
    requires
        spec_remove_unused_temp(codes@) is Some,
    ensures
        r@ == spec_remove_unused_temp(codes@)->0,
{
    let ghost result = spec_remove_unused_temp(codes@);
    let mut codes = codes;
    let mut temps: Vec<TempSlot> = Vec::new();
    let mut i: usize = 0;
    assert(temps@.map_values(|t: TempSlot| t@) =~= seq![]);
    while i < codes.len()
        invariant
            i <= codes.len(),
            result is Some,
            temp_run(TempState { codes: codes@, i: i as int, temps: temps@.map_values(|t: TempSlot| t@) })
                == result,
        decreases codes.len() - i,
    {
        let ghost st = TempState { codes: codes@, i: i as int, temps: temps@.map_values(|t: TempSlot| t@) };
        assert(temp_step(st) is Some);
        let ghost n = temp_step(st)->0;
        let code = codes[i];
        match code {
            OpCode::StoreTemp { value } => {
                let len = temps.len();
                touch_open_slots(&mut temps, len, None, (value, Register(255), Register(255)));
                temps.push(TempSlot { idx: i, reg: value, written: false, reads: Vec::new(), used: [false, false, false] });
                i += 1;
            },
            OpCode::ReadTemp { value } => {
                let mut t = temps.pop().unwrap();
                let ghost tv = t@;
                proof {
                    assert(temps@.map_values(|t: TempSlot| t@) =~= st.temps.drop_last());
                }
                let len = temps.len();
                touch_open_slots(&mut temps, len, Some(value), (Register(255), Register(255), Register(255)));
                t.reads.push((i, value));
                temps.push(t);
                i += 1;
            },
            OpCode::ReleaseTemp => {
                let t = temps.pop().unwrap();
                assert(t@ == st.temps.last());
                assert(temps@.map_values(|t: TempSlot| t@) =~= st.temps.drop_last());
                if t.reads.len() == 0 {
                    codes.remove(i);
                    codes.remove(t.idx);
                    i -= 1;
                } else if !t.written {
                    write_movs(&mut codes, &t.reads, t.reg);
                    codes.remove(i);
                    codes.remove(t.idx);
                    let len = temps.len();
                    touch_open_slots(&mut temps, len, None, (t.reg, Register(255), Register(255)));
                    i -= 1;
                } else if !(t.used[0] && t.used[1] && t.used[2]) {
                    assert(t.used@ != seq![true, true, true]) by {
                        if t.used@ == seq![true, true, true] {
                            assert(t.used@[0] && t.used@[1] && t.used@[2]);
                        }
                    }
                    let mut not_used_reg: u8 = 0;
                    if !t.used[1] {
                        not_used_reg = 1;
                    }
                    if !t.used[2] {
                        not_used_reg = 2;
                    }
                    codes.set(t.idx, OpCode::Mov { from: t.reg, to: Register(not_used_reg) });
                    write_movs(&mut codes, &t.reads, Register(not_used_reg));
                    codes.remove(i);
                    let len = temps.len();
                    touch_open_slots(
                        &mut temps,
                        len,
                        Some(Register(not_used_reg)),
                        (t.reg, Register(not_used_reg), Register(255)),
                    );
                } else {
                    assert(t.used@ =~= seq![true, true, true]);
                    i += 1;
                }
            },
            _ => {
                if temps.len() > 0 {
                    let w = code.writes_to();
                    let rs = code.reads_from();
                    let len = temps.len();
                    touch_open_slots(&mut temps, len, w, (rs[0], rs[1], rs[2]));
                }
                i += 1;
            },
        }
        proof {
            assert(codes@ =~= n.codes);
            assert(temps@.map_values(|t: TempSlot| t@) =~= n.temps);
        }
    }
    codes
}

// ---------------------------------------------------------------------------
// The optimisation pipeline
// ---------------------------------------------------------------------------

/// No instruction of `s` uses a temporary slot.
pub open spec fn no_temp_ops(s: Seq<OpCode>) -> bool {
    forall|j: int| 0 <= j < s.len() ==> !(s[j] is StoreTemp) && !(s[j] is ReadTemp) && !(s[j] is ReleaseTemp)
}

proof fn lemma_temp_run_skip(c: Seq<OpCode>, i: int, j: int)
    requires
        0 <= i <= j <= c.len(),
        forall|k: int| i <= k < j ==> !(c[k] is StoreTemp) && !(c[k] is ReadTemp) && !(c[k] is ReleaseTemp),
    ensures
        temp_run(TempState { codes: c, i, temps: seq![] }) == temp_run(TempState { codes: c, i: j, temps: seq![] }),
    decreases j - i,
{
    if i < j {
        let st = TempState { codes: c, i, temps: seq![] };
        assert(temp_step(st) == Some(TempState { codes: c, i: i + 1, temps: Seq::<TempSlotView>::empty() }));
        lemma_temp_run_skip(c, i + 1, j);
    }
}

proof fn lemma_stack_run_skip(c: Seq<OpCode>, i: int, j: int)
    requires
        0 <= i <= j <= c.len(),
        forall|k: int| i <= k < j ==> !(c[k] is StoreTemp) && !(c[k] is ReadTemp) && !(c[k] is ReleaseTemp),
        j < c.len() ==> !(c[j] is StoreTemp),
    ensures
        stack_temp_run(StackTempState { codes: c, i, temps: seq![] }) == stack_temp_run(
            StackTempState { codes: c, i: j, temps: seq![] },
        ),
    decreases j - i,
{
    if i < j {
        let st = StackTempState { codes: c, i, temps: seq![] };
        if i + 1 < c.len() {
            assert(!(c[i + 1] is StoreTemp));
        }
        assert(stack_temp_step(st) == Some(StackTempState { codes: c, i: i + 1, temps: Seq::<Option<(usize, u16)>>::empty() }));
        lemma_stack_run_skip(c, i + 1, j);
    }
}

/// Code that uses no temporary slot is left as it is by both passes over
/// temporary slots.
pub proof fn law_temp_passes_keep_code_without_temporaries(s: Seq<OpCode>)
    requires
        no_temp_ops(s),
    ensures
        spec_remove_unused_temp(s) == Some(s),
        spec_remove_temp_read_from_stack(s) == Some(s),
{
    lemma_temp_run_skip(s, 0, s.len() as int);
    lemma_stack_run_skip(s, 0, s.len() as int);
}

/// A temporary slot that holds the value of register `a` and is read once
/// into register `b`, with nothing in between, becomes a move from `a` to
/// `b`; the code around it, which uses no temporary slot, is kept.
pub proof fn law_temp_read_once_becomes_a_move(p: Seq<OpCode>, q: Seq<OpCode>, a: Register, b: Register)
    requires
        no_temp_ops(p),
        no_temp_ops(q),
        p.len() + q.len() + 3 <= usize::MAX,
    ensures
        spec_remove_unused_temp(
            p + seq![OpCode::StoreTemp { value: a }, OpCode::ReadTemp { value: b }, OpCode::ReleaseTemp] + q,
        ) == Some(p + seq![OpCode::Mov { from: a, to: b }] + q),
{
    let s = p + seq![OpCode::StoreTemp { value: a }, OpCode::ReadTemp { value: b }, OpCode::ReleaseTemp] + q;
    let m = p.len() as int;
    assert forall|k: int| 0 <= k < m implies !(s[k] is StoreTemp) && !(s[k] is ReadTemp) && !(s[k] is ReleaseTemp) by {
        assert(s[k] == p[k]);
    }
    lemma_temp_run_skip(s, 0, m);
    assert(s[m] == OpCode::StoreTemp { value: a });
    assert(s[m + 1] == OpCode::ReadTemp { value: b });
    assert(s[m + 2] == OpCode::ReleaseTemp);
    let slot = TempSlotView { idx: m as usize, reg: a, written: false, reads: seq![], used: seq![false, false, false] };
    let st0 = TempState { codes: s, i: m, temps: seq![] };
    let st1 = TempState { codes: s, i: m + 1, temps: seq![slot] };
    assert(touch_slots(Seq::<TempSlotView>::empty(), 0, None, (a, Register(255), Register(255))) =~= Seq::<TempSlotView>::empty());
    assert(temp_step(st0) == Some(st1));
    let slot2 = TempSlotView { reads: seq![((m + 1) as usize, b)], ..slot };
    let st2 = TempState { codes: s, i: m + 2, temps: seq![slot2] };
    assert(seq![slot].drop_last() =~= Seq::<TempSlotView>::empty());
    assert(touch_slots(Seq::<TempSlotView>::empty(), 0, Some(b), no_reads()) =~= Seq::<TempSlotView>::empty());
    assert(seq![slot].last().reads.push(((m + 1) as usize, b)) =~= seq![((m + 1) as usize, b)]);
    assert(Seq::<TempSlotView>::empty().push(slot2) =~= seq![slot2]);
    assert(temp_step(st1) == Some(st2));
    let c2 = s.update(m + 1, OpCode::Mov { from: a, to: b });
    assert(apply_movs(s, slot2.reads, a, 0) == Some(s));
    assert(apply_movs(s, slot2.reads, a, 1) == Some(c2));
    let out = p + seq![OpCode::Mov { from: a, to: b }] + q;
    assert(c2.remove(m + 2).remove(m) =~= out);
    assert(touch_slots(Seq::<TempSlotView>::empty(), 0, None, (a, Register(255), Register(255))) =~= Seq::<TempSlotView>::empty());
    assert(seq![slot2].drop_last() =~= Seq::<TempSlotView>::empty());
    let st3 = TempState { codes: out, i: m + 1, temps: seq![] };
    assert(temp_step(st2) == Some(st3));
    assert forall|k: int| m + 1 <= k < out.len() implies !(out[k] is StoreTemp) && !(out[k] is ReadTemp) && !(out[k] is ReleaseTemp) by {
        assert(out[k] == q[k - m - 1]);
    }
    lemma_temp_run_skip(out, m + 1, out.len() as int);
    assert(temp_run(st0) == temp_run(st1));
    assert(temp_run(st1) == temp_run(st2));
    assert(temp_run(st2) == temp_run(st3));
    assert(temp_run(TempState { codes: out, i: out.len() as int, temps: seq![] }) == Some(out));
}

/// A temporary slot that only holds a value just read from the stack, read
/// once into register `b`, becomes a second read of the same stack slot
/// into `b`; the slot's store and release go, and the code around it, which
/// uses no temporary slot, is kept.
pub proof fn law_stack_value_slot_reads_the_stack(p: Seq<OpCode>, q: Seq<OpCode>, r: Register, off: u16, b: Register)
    requires
        no_temp_ops(p),
        no_temp_ops(q),
        p.len() + q.len() + 4 <= usize::MAX,
    ensures
        spec_remove_temp_read_from_stack(
            p + seq![
                OpCode::ReadFromStack { result: r, stack_offset: off },
                OpCode::StoreTemp { value: r },
                OpCode::ReadTemp { value: b },
                OpCode::ReleaseTemp,
            ] + q,
        ) == Some(
            p + seq![
                OpCode::ReadFromStack { result: r, stack_offset: off },
                OpCode::ReadFromStack { result: b, stack_offset: off },
            ] + q,
        ),
{
    let s = p + seq![
        OpCode::ReadFromStack { result: r, stack_offset: off },
        OpCode::StoreTemp { value: r },
        OpCode::ReadTemp { value: b },
        OpCode::ReleaseTemp,
    ] + q;
    let m = p.len() as int;
    assert forall|k: int| 0 <= k < m implies !(s[k] is StoreTemp) && !(s[k] is ReadTemp) && !(s[k] is ReleaseTemp) by {
        assert(s[k] == p[k]);
    }
    assert(s[m] == OpCode::ReadFromStack { result: r, stack_offset: off });
    lemma_stack_run_skip(s, 0, m);
    assert(s[m + 1] == OpCode::StoreTemp { value: r });
    assert(s[m + 2] == OpCode::ReadTemp { value: b });
    assert(s[m + 3] == OpCode::ReleaseTemp);
    let t = seq![Some(((m + 1) as usize, off))];
    let st1 = StackTempState { codes: s, i: m + 2, temps: t };
    assert(Seq::<Option<(usize, u16)>>::empty().push(Some(((m + 1) as usize, off))) =~= t);
    assert(stack_temp_step(StackTempState { codes: s, i: m, temps: seq![] }) == Some(st1));
    let c2 = s.update(m + 2, OpCode::ReadFromStack { result: b, stack_offset: off });
    let st2 = StackTempState { codes: c2, i: m + 3, temps: t };
    assert(stack_temp_step(st1) == Some(st2));
    let out = p + seq![
        OpCode::ReadFromStack { result: r, stack_offset: off },
        OpCode::ReadFromStack { result: b, stack_offset: off },
    ] + q;
    assert(c2.remove(m + 3).remove(m + 1) =~= out);
    assert(t.drop_last() =~= Seq::<Option<(usize, u16)>>::empty());
    let st3 = StackTempState { codes: out, i: m + 2, temps: seq![] };
    assert(stack_temp_step(st2) == Some(st3));
    assert forall|k: int| m + 2 <= k < out.len() implies !(out[k] is StoreTemp) && !(out[k] is ReadTemp) && !(out[k] is ReleaseTemp) by {
        assert(out[k] == q[k - m - 2]);
    }
    lemma_stack_run_skip(out, m + 2, out.len() as int);
    let st0 = StackTempState { codes: s, i: m, temps: seq![] };
    assert(stack_temp_run(st0) == stack_temp_run(st1));
    assert(stack_temp_run(st1) == stack_temp_run(st2));
    assert(stack_temp_run(st2) == stack_temp_run(st3));
    assert(stack_temp_run(StackTempState { codes: out, i: out.len() as int, temps: seq![] }) == Some(out));
}

/// The code after the passes that run before jump resolution.
pub open spec fn spec_optimize_prefix(s: Seq<OpCode>) -> Seq<OpCode> {
    let a = spec_remove_unreachable(s);
    let b = spec_remove_temp_read_from_stack(a)->0;
    let c = spec_remove_unused_temp(b)->0;
    spec_remove_unused_mov(c)
}

/// Every pass of the pipeline succeeds on `s`.
pub open spec fn optimize_defined(s: Seq<OpCode>) -> bool {
    let a = spec_remove_unreachable(s);
    &&& spec_remove_temp_read_from_stack(a) is Some
    &&& spec_remove_unused_temp(spec_remove_temp_read_from_stack(a)->0) is Some
    &&& jumps_resolvable(spec_optimize_prefix(s))
}

/// The optimised form of `s`.
pub open spec fn spec_optimize(s: Seq<OpCode>) -> Seq<OpCode> {
    spec_resolve_jump_locations(spec_optimize_prefix(s))
}

/// Run the optimisation passes: remove unreachable code, read stack-only
/// temporaries straight from the stack, turn the remaining temporaries into
/// moves, drop self moves, and resolve the jump locations.
pub fn optimize(codes: Vec<OpCode>) -> (r: Vec<OpCode>)
    requires
        optimize_defined(codes@),
    ensures
        r@ == spec_optimize(codes@),
{
    let codes = remove_unreachable(codes);
    let codes = remove_temp_read_from_stack(codes);
    let codes = remove_unused_temp(codes);
    let codes = remove_unused_mov(codes);
    resolve_jump_locations(codes)
}

/// After optimisation no move from a register to itself is left, and the
/// `line` of every jump names an instruction that switches to the jump's
/// target block (when every index fits in a `u32`).
pub proof fn lemma_optimize_laws(s: Seq<OpCode>, i: int)
    requires
        optimize_defined(s),
        spec_optimize(s).len() <= u32::MAX as int + 1,
        0 <= i < spec_optimize(s).len(),
    ensures
        !is_self_mov(spec_optimize(s)[i]),
        jump_target(spec_optimize(s)[i]) is Some ==> ({
            let r = spec_optimize(s);
            let line = match r[i] {
                OpCode::Jump { line, .. } => line,
                OpCode::JumpIfTrue { line, .. } => line,
                OpCode::JumpIfFalse { line, .. } => line,
                OpCode::EnterTry { line, .. } => line,
                _ => 0,
            };
            &&& line < r.len()
            &&& r[line as int] == OpCode::SwitchToBlock(jump_target(r[i])->0)
        }),
{
    let p = spec_optimize_prefix(s);
    let a = spec_remove_unreachable(s);
    let b = spec_remove_temp_read_from_stack(a)->0;
    let c = spec_remove_unused_temp(b)->0;
    lemma_remove_unused_mov_laws(c);
    assert(!is_self_mov(p[i]));
    if jump_target(p[i]) is Some {
        lemma_resolved_jumps_land_on_their_block(p, i);
    }
}

// ---------------------------------------------------------------------------
// Sources of the operands of an instruction
// ---------------------------------------------------------------------------

/// The last instruction at index `j` or before that writes register `r`.
pub open spec fn last_writer(s: Seq<OpCode>, r: Register, j: int) -> Option<int>
    decreases j + 1,
{
    if j < 0 {
        None
    } else if spec_writes_to(s[j]) == Some(r) {
        Some(j)
    } else {
        last_writer(s, r, j - 1)
    }
}

/// The writer of operand register `r` of the instruction at `index`, where
/// `r` is an operand (not the padding register 255).
pub open spec fn operand_source(s: Seq<OpCode>, r: Register, index: int) -> Seq<usize> {
    if r.0 == 255 {
        seq![]
    } else {
        seq![last_writer(s, r, index - 1)->0 as usize]
    }
}

/// Every operand of the instruction at `index` was written before it.
pub open spec fn sources_defined(s: Seq<OpCode>, index: int) -> bool {
    let (a, b, c) = spec_reads_from(s[index]);
    &&& 0 <= index < s.len()
    &&& forall|r: Register| (r == a || r == b || r == c) && r.0 != 255 ==> #[trigger] last_writer(s, r, index - 1) is Some
}

/// The indices of the instructions that last wrote the operands of the
/// instruction at `index`, in operand order.
pub open spec fn spec_source_of(s: Seq<OpCode>, index: int) -> Seq<usize> {
    let (a, b, c) = spec_reads_from(s[index]);
    operand_source(s, a, index) + operand_source(s, b, index) + operand_source(s, c, index)
}

proof fn lemma_last_writer_range(s: Seq<OpCode>, r: Register, j: int)
    ensures
        last_writer(s, r, j) matches Some(k) ==> 0 <= k <= j && spec_writes_to(s[k]) == Some(r),
    decreases j + 1,
{
    if j >= 0 && spec_writes_to(s[j]) != Some(r) {
        lemma_last_writer_range(s, r, j - 1);
    }
}

/// The index of the last instruction before `index` that writes `r`.
fn last_writer_before(codes: &[OpCode], r: Register, index: usize) -> (k: usize)
    requires
        index <= codes@.len(),
        last_writer(codes@, r, index - 1) is Some,
    ensures
        k == last_writer(codes@, r, index - 1)->0,
{
    proof {
        lemma_last_writer_range(codes@, r, index - 1);
    }
    let mut idx = index - 1;
    loop
        invariant
            idx < codes@.len(),
            last_writer(codes@, r, index - 1) == last_writer(codes@, r, idx as int),
            last_writer(codes@, r, idx as int) is Some,
        decreases idx,
    {
        let c = &codes[idx];
        if let Some(re) = c.writes_to() {
            if re == r {
                return idx;
            }
        }
        assert(spec_writes_to(codes@[idx as int]) != Some(r));
        assert(last_writer(codes@, r, idx as int) == last_writer(codes@, r, idx - 1));
        idx -= 1;
    }
}

/// The instructions that produced the operands of the instruction at
/// `index`: for each operand register, the last instruction before `index`
/// that writes it.
pub fn source_of(codes: &[OpCode], index: usize) -> (r: Vec<usize>)
    requires
        sources_defined(codes@, index as int),
    ensures
        r@ == spec_source_of(codes@, index as int),
{
    let code = &codes[index];
    let mut srcs: Vec<usize> = Vec::new();
    let rs = code.reads_from();
    let ghost (a, b, c) = spec_reads_from(codes@[index as int]);
    let mut i: usize = 0;
    while i < 3
        invariant
            i <= 3,
            rs@ == seq![a, b, c],
            sources_defined(codes@, index as int),
            (a, b, c) == spec_reads_from(codes@[index as int]),
            srcs@ == (if i == 0 {
                seq![]
            } else if i == 1 {
                operand_source(codes@, a, index as int)
            } else if i == 2 {
                operand_source(codes@, a, index as int) + operand_source(codes@, b, index as int)
            } else {
                spec_source_of(codes@, index as int)
            }),
        decreases 3 - i,
    {
        let r = rs[i];
        if r.0 != 255 {
            assert(last_writer(codes@, r, index - 1) is Some);
            let k = last_writer_before(codes, r, index);
            srcs.push(k);
        }
        proof {
            if i == 0 {
                assert(srcs@ =~= operand_source(codes@, a, index as int));
            } else if i == 1 {
                assert(srcs@ =~= operand_source(codes@, a, index as int) + operand_source(codes@, b, index as int));
            } else {
                assert(srcs@ =~= spec_source_of(codes@, index as int));
            }
        }
        i = i + 1;
    }
    srcs
}

/// Whether two instructions read the same source; no two instructions are
/// recognised as such yet.
pub fn is_same_source(a: OpCode, b: OpCode) -> (r: bool)
    ensures
        !r,
{
    false
}

/// The pass that looks for induction variables in comparisons of a register
/// with an immediate; the instruction set has no such comparison, so the
/// code is left as it is.
pub fn induction_variable_pass(codes: Vec<OpCode>) -> (r: Vec<OpCode>)
    ensures
        r@ == codes@,
{
    codes
}

} // verus!
