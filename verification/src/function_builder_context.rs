use vstd::prelude::*;

use crate::bytecodes::{DeclareKind, OpCode, Register};

verus! {

/// An offset into the stack frame of a function, counted in values.
pub type StackOffset = u16;

/// Where a declared variable lives.
#[derive(Debug, Clone, Copy, PartialEq, Eq, Structural)]
pub enum Variable {
    Let(StackOffset),
    Var(StackOffset),
    Const(StackOffset),
    /// Captured variables are stored in the capture environment of the
    /// function and are read and written there.
    Captured(StackOffset),
}

/// The name of a variable: an interned symbol and the syntax context that
/// tells apart variables of the same spelling.
#[derive(Debug, Clone, Copy, PartialEq, Eq, Structural, Hash)]
pub struct VarName {
    pub sym: u32,
    pub ctxt: u32,
}

/// The key under which a variable is looked up at run time when it cannot
/// be resolved statically: its symbol alone, or its symbol qualified by its
/// syntax context.
#[derive(Debug, Clone, Copy, PartialEq, Eq, Structural)]
pub enum DynamicName {
    Plain(u32),
    Scoped(u32, u32),
}

/// The table that numbers the dynamically resolved variable names.
pub struct DynamicVarNames {
    names: Vec<DynamicName>,
}

/// The index of the first occurrence of `n` among the first `k` names.
pub open spec fn first_index(s: Seq<DynamicName>, n: DynamicName, k: int) -> Option<int>
    decreases k,
{
    if k <= 0 {
        None
    } else {
        match first_index(s, n, k - 1) {
            Some(j) => Some(j),
            None => if s[k - 1] == n {
                Some(k - 1)
            } else {
                None
            },
        }
    }
}

/// The table after registering `n`, and the number `n` gets.
pub open spec fn spec_register(s: Seq<DynamicName>, n: DynamicName) -> (Seq<DynamicName>, u32) {
    match first_index(s, n, s.len() as int) {
        Some(j) => (s, j as u32),
        None => (s.push(n), s.len() as u32),
    }
}

impl View for DynamicVarNames {
    type V = Seq<DynamicName>;

    closed spec fn view(&self) -> Seq<DynamicName> {
        self.names@
    }
}

impl DynamicVarNames {
    /// An empty table.
    pub fn new() -> (r: Self)
        ensures
            r@ == Seq::<DynamicName>::empty(),
    {
        DynamicVarNames { names: Vec::new() }
    }

    /// The number of a name: the one it was given when first registered,
    /// or the next free number.
    pub fn register(&mut self, n: DynamicName) -> (id: u32)
        requires
            old(self)@.len() < u32::MAX,
        ensures
            (final(self)@, id) == spec_register(old(self)@, n),
    {
        let mut j: usize = 0;
        while j < self.names.len()
            invariant
                j <= self.names@.len(),
                self.names@.len() < u32::MAX,
                first_index(self.names@, n, j as int) is None,
            decreases self.names@.len() - j,
        {
            if self.names[j] == n {
                proof {
                    lemma_first_index_extend(self.names@, n, j as int + 1, self.names@.len() as int);
                }
                return j as u32;
            }
            j += 1;
        }
        self.names.push(n);
        (self.names.len() - 1) as u32
    }
}

proof fn lemma_first_index_extend(s: Seq<DynamicName>, n: DynamicName, k: int, m: int)
    requires
        0 < k <= m <= s.len(),
        first_index(s, n, k) is Some,
    ensures
        first_index(s, n, m) == first_index(s, n, k),
    decreases m - k,
{
    if m > k {
        lemma_first_index_extend(s, n, k, m - 1);
    }
}

proof fn lemma_first_index_found(s: Seq<DynamicName>, n: DynamicName, k: int)
    requires
        0 <= k <= s.len(),
    ensures
        first_index(s, n, k) matches Some(j) ==> 0 <= j < k && s[j] == n,
    decreases k,
{
    if k > 0 {
        lemma_first_index_found(s, n, k - 1);
    }
}

/// Registering a name twice gives it the same number, and two different
/// registered names never share a number.
pub proof fn lemma_register_stable(s: Seq<DynamicName>, n: DynamicName, m: DynamicName)
    requires
        s.len() + 2 < u32::MAX,
    ensures
        ({
            let (s1, id1) = spec_register(s, n);
            let (s2, id2) = spec_register(s1, n);
            &&& s2 == s1
            &&& id2 == id1
            &&& s1[id1 as int] == n
            &&& ({
                let (s3, id3) = spec_register(s1, m);
                s3[id3 as int] == m && (m != n ==> id3 != id1)
            })
        }),
{
    let (s1, id1) = spec_register(s, n);
    lemma_first_index_found(s, n, s.len() as int);
    if first_index(s, n, s.len() as int) is None {
        assert(first_index(s1, n, s.len() as int) == first_index(s, n, s.len() as int)) by {
            lemma_first_index_prefix(s, s1, n, s.len() as int);
        }
        assert(first_index(s1, n, s1.len() as int) == Some(s.len() as int));
    }
    lemma_first_index_found(s1, n, s1.len() as int);
    lemma_first_index_found(s1, m, s1.len() as int);
    let (s3, id3) = spec_register(s1, m);
    if first_index(s1, m, s1.len() as int) is None {
        lemma_first_index_prefix(s1, s3, m, s1.len() as int);
        assert(first_index(s1, n, s1.len() as int) is Some);
    }
}

proof fn lemma_first_index_prefix(s: Seq<DynamicName>, t: Seq<DynamicName>, n: DynamicName, k: int)
    requires
        0 <= k <= s.len(),
        k <= t.len(),
        forall|j: int| 0 <= j < k ==> s[j] == t[j],
    ensures
        first_index(s, n, k) == first_index(t, n, k),
    decreases k,
{
    if k > 0 {
        lemma_first_index_prefix(s, t, n, k - 1);
    }
}

/// One scope of the context: a block, a function body or the global scope.
pub struct FunctionBuilderContextInner {
    is_function_context: bool,
    is_global_context: bool,
    pub is_try: bool,
    /// The declarations in order, a later one of a name shadowing an
    /// earlier one: lookups scan from the end, and the sequence is what the
    /// scope-chain specification reads.
    variables: Vec<(VarName, Variable)>,
    stack_offset: StackOffset,
    capture_offset: Option<u16>,
    max_stack_offset: u16,
    pub(crate) need_done: Vec<OpCode>,
}

/// The mathematical form of a scope.
pub struct FrameView {
    pub is_function: bool,
    pub is_global: bool,
    pub is_try: bool,
    /// the declarations in order; a later one shadows an earlier one
    pub vars: Seq<(VarName, Variable)>,
    pub stack_offset: u16,
    pub capture_offset: Option<u16>,
    pub max_stack_offset: u16,
    /// the captures that must be emitted before the scope's code continues
    pub need_done: Seq<OpCode>,
}

impl View for FunctionBuilderContextInner {
    type V = FrameView;

    closed spec fn view(&self) -> FrameView {
        FrameView {
            is_function: self.is_function_context,
            is_global: self.is_global_context,
            is_try: self.is_try,
            vars: self.variables@,
            stack_offset: self.stack_offset,
            capture_offset: self.capture_offset,
            max_stack_offset: self.max_stack_offset,
            need_done: self.need_done@,
        }
    }
}

/// The variable a scope binds to `name`: its latest declaration.
pub open spec fn find_var(vars: Seq<(VarName, Variable)>, name: VarName) -> Option<Variable>
    decreases vars.len(),
{
    if vars.len() == 0 {
        None
    } else if vars.last().0 == name {
        Some(vars.last().1)
    } else {
        find_var(vars.drop_last(), name)
    }
}

fn lookup_var(vars: &Vec<(VarName, Variable)>, name: VarName) -> (r: Option<Variable>)
    ensures
        r == find_var(vars@, name),
{
    let mut j = vars.len();
    assert(vars@.take(j as int) =~= vars@);
    while j > 0
        invariant
            j <= vars@.len(),
            find_var(vars@, name) == find_var(vars@.take(j as int), name),
        decreases j,
    {
        let (n, v) = vars[j - 1];
        proof {
            assert(vars@.take(j as int).drop_last() =~= vars@.take(j - 1));
        }
        if n == name {
            return Some(v);
        }
        j -= 1;
    }
    None
}

// ---------------------------------------------------------------------------
// The meaning of the scope operations
// ---------------------------------------------------------------------------

/// The stack offset a declared (not captured) variable lives at.
pub open spec fn var_offset(v: Variable) -> u16 {
    match v {
        Variable::Let(o) => o,
        Variable::Var(o) => o,
        Variable::Const(o) => o,
        Variable::Captured(o) => o,
    }
}

/// Some scope in `lo + 1 ..= hi` is a function scope.
pub open spec fn has_function_between(frames: Seq<FrameView>, lo: int, hi: int) -> bool
    decreases hi - lo,
{
    if hi <= lo {
        false
    } else {
        frames[hi].is_function || has_function_between(frames, lo, hi - 1)
    }
}

/// The innermost scope at index `k` or below that declares `name`.
pub open spec fn find_frame(frames: Seq<FrameView>, name: VarName, k: int) -> Option<int>
    decreases k + 1,
{
    if k < 0 {
        None
    } else if find_var(frames[k].vars, name) is Some {
        Some(k)
    } else {
        find_frame(frames, name, k - 1)
    }
}

/// The scope that hands out capture slots to scope `j`: the innermost one
/// at `j` or below that owns a capture environment, provided no global
/// scope comes first.
pub open spec fn capture_frame(frames: Seq<FrameView>, j: int) -> Option<int>
    decreases j + 1,
{
    if j < 0 {
        None
    } else if frames[j].is_global {
        None
    } else if frames[j].capture_offset is Some {
        Some(j)
    } else {
        capture_frame(frames, j - 1)
    }
}

proof fn lemma_capture_frame_range(frames: Seq<FrameView>, j: int)
    ensures
        capture_frame(frames, j) matches Some(i) ==> 0 <= i <= j,
    decreases j + 1,
{
    if j >= 0 {
        lemma_capture_frame_range(frames, j - 1);
    }
}

/// Take the next capture slot for the current scope; `None` when there is
/// no capture environment to take it from or its counter is exhausted.
pub open spec fn take_capture_offset(frames: Seq<FrameView>) -> Option<(Seq<FrameView>, u16)> {
    match capture_frame(frames, frames.len() - 1) {
        Some(j) => {
            let off = frames[j].capture_offset->0;
            if off == u16::MAX {
                None
            } else {
                Some(
                    (
                        frames.update(
                            j,
                            FrameView { capture_offset: Some((off + 1) as u16), ..frames[j] },
                        ),
                        off,
                    ),
                )
            }
        },
        None => None,
    }
}

/// Move the variable `name` of scope `k`, stored at stack offset `off`,
/// into a fresh capture slot: scope `k` records the slot and queues the
/// `Capture` instruction that moves the value.
pub open spec fn capture_into(frames: Seq<FrameView>, k: int, name: VarName, off: u16) -> Option<
    (Seq<FrameView>, u16),
> {
    match take_capture_offset(frames) {
        Some((f1, c)) => Some(
            (
                f1.update(
                    k,
                    FrameView {
                        need_done: f1[k].need_done.push(
                            OpCode::Capture { stack_offset: off, capture_stack_offset: c },
                        ),
                        vars: f1[k].vars.push((name, Variable::Captured(c))),
                        ..f1[k]
                    },
                ),
                c,
            ),
        ),
        None => None,
    }
}

/// The result of reading `name` into `write_to`: the new scope chain, the
/// new name table and the instruction that reads; `None` where it fails.
pub open spec fn spec_get(
    frames: Seq<FrameView>,
    names: Seq<DynamicName>,
    name: VarName,
    write_to: Register,
) -> Option<(Seq<FrameView>, Seq<DynamicName>, OpCode)> {
    let cur = frames.len() - 1;
    let dynamic = spec_register(names, DynamicName::Plain(name.sym));
    let dyn_read = Some((frames, dynamic.0, OpCode::ReadDynamicVar { result: write_to, id: dynamic.1 }));
    match find_var(frames[cur].vars, name) {
        Some(Variable::Captured(off)) => Some(
            (frames, names, OpCode::ReadCapturedVar { result: write_to, offset: off }),
        ),
        Some(v) => if !frames[cur].is_global {
            Some((frames, names, OpCode::ReadFromStack { result: write_to, stack_offset: var_offset(v) }))
        } else {
            dyn_read
        },
        None => match find_frame(frames, name, cur - 1) {
            None => dyn_read,
            Some(k) => match find_var(frames[k].vars, name)->0 {
                Variable::Captured(off) => Some(
                    (frames, names, OpCode::ReadCapturedVar { result: write_to, offset: off }),
                ),
                v => if has_function_between(frames, k, cur) && !frames[k].is_global {
                    match capture_into(frames, k, name, var_offset(v)) {
                        Some((f2, c)) => Some(
                            (f2, names, OpCode::ReadCapturedVar { result: write_to, offset: c }),
                        ),
                        None => None,
                    }
                } else if frames[k].is_global {
                    dyn_read
                } else {
                    Some((frames, names, OpCode::ReadFromStack { result: write_to, stack_offset: var_offset(v) }))
                },
            },
        },
    }
}

/// The result of writing `from` into `name`; `None` where it fails
/// (assigning a constant, or capturing without a capture environment).
pub open spec fn spec_set(
    frames: Seq<FrameView>,
    names: Seq<DynamicName>,
    name: VarName,
    from: Register,
) -> Option<(Seq<FrameView>, Seq<DynamicName>, OpCode)> {
    let cur = frames.len() - 1;
    let plain = spec_register(names, DynamicName::Plain(name.sym));
    let dyn_write = Some((frames, plain.0, OpCode::WriteDynamicVar { from, id: plain.1 }));
    match find_var(frames[cur].vars, name) {
        Some(Variable::Captured(off)) => Some(
            (frames, names, OpCode::WriteCapturedVar { from, offset: off }),
        ),
        Some(Variable::Const(_)) => None,
        Some(v) => if frames[cur].is_global {
            dyn_write
        } else {
            Some((frames, names, OpCode::WriteToStack { from, stack_offset: var_offset(v) }))
        },
        None => match find_frame(frames, name, cur - 1) {
            None => dyn_write,
            Some(k) => match find_var(frames[k].vars, name)->0 {
                Variable::Captured(off) => Some(
                    (frames, names, OpCode::WriteCapturedVar { from, offset: off }),
                ),
                Variable::Const(_) => None,
                v => if has_function_between(frames, k, cur) && !frames[k].is_global {
                    match capture_into(frames, k, name, var_offset(v)) {
                        Some((f2, c)) => Some((f2, names, OpCode::WriteCapturedVar { from, offset: c })),
                        None => None,
                    }
                } else if frames[k].is_global {
                    match v {
                        Variable::Var(_) => {
                            let scoped = spec_register(names, DynamicName::Scoped(name.sym, name.ctxt));
                            Some((frames, scoped.0, OpCode::WriteDynamicVar { from, id: scoped.1 }))
                        },
                        _ => dyn_write,
                    }
                } else {
                    Some((frames, names, OpCode::WriteToStack { from, stack_offset: var_offset(v) }))
                },
            },
        },
    }
}

proof fn lemma_find_frame_skips(frames: Seq<FrameView>, extra: Seq<FrameView>, name: VarName, k: int)
    requires
        frames.len() > 0,
        find_var(frames[frames.len() - 1].vars, name) is Some,
        frames.len() - 1 <= k < frames.len() + extra.len(),
        forall|j: int| 0 <= j < extra.len() ==> find_var(#[trigger] extra[j].vars, name) is None,
    ensures
        find_frame(frames + extra, name, k) == Some(frames.len() - 1),
    decreases k,
{
    let all = frames + extra;
    if k >= frames.len() {
        assert(all[k] == extra[k - frames.len()]);
        lemma_find_frame_skips(frames, extra, name, k - 1);
    } else {
        assert(all[k] == frames[k]);
    }
}

proof fn lemma_no_function_between(frames: Seq<FrameView>, extra: Seq<FrameView>, hi: int)
    requires
        frames.len() > 0,
        frames.len() - 1 <= hi < frames.len() + extra.len(),
        forall|j: int| 0 <= j < extra.len() ==> !(#[trigger] extra[j]).is_function,
    ensures
        !has_function_between(frames + extra, frames.len() - 1, hi),
    decreases hi,
{
    if hi > frames.len() - 1 {
        assert((frames + extra)[hi] == extra[hi - frames.len()]);
        lemma_no_function_between(frames, extra, hi - 1);
    }
}

/// A variable declared with `let` or `var` in a scope that is not the global
/// one is written to its stack slot, the name table unchanged: assigned in
/// that scope, and the same when assigned from block scopes nested in it
/// (within the same function) that do not redeclare it.
pub proof fn law_set_writes_the_local_slot(
    frames: Seq<FrameView>,
    extra: Seq<FrameView>,
    names: Seq<DynamicName>,
    name: VarName,
    from: Register,
    off: u16,
)
    requires
        frames.len() > 0,
        !current(frames).is_global,
        find_var(current(frames).vars, name) == Some(Variable::Let(off)) || find_var(current(frames).vars, name)
            == Some(Variable::Var(off)),
        extra.len() > 0,
        forall|j: int| 0 <= j < extra.len() ==> !(#[trigger] extra[j]).is_function,
        forall|j: int| 0 <= j < extra.len() ==> find_var(#[trigger] extra[j].vars, name) is None,
    ensures
        spec_set(frames, names, name, from) == Some((frames, names, OpCode::WriteToStack { from, stack_offset: off })),
        spec_set(frames + extra, names, name, from) == Some(
            (frames + extra, names, OpCode::WriteToStack { from, stack_offset: off }),
        ),
{
    let all = frames + extra;
    let cur = all.len() - 1;
    assert(all[cur] == extra[extra.len() - 1]);
    assert(find_var(extra[extra.len() - 1].vars, name) is None);
    lemma_find_frame_skips(frames, extra, name, cur - 1);
    lemma_no_function_between(frames, extra, cur);
    assert(all[frames.len() - 1] == frames[frames.len() - 1]);
}

/// A variable declared (and not captured) in a scope that is not the
/// global one is read from its stack slot, the name table unchanged: in
/// that scope, and the same from block scopes nested in it (within the same
/// function) that do not redeclare it; the slot is the one an assignment
/// writes.
pub proof fn law_get_reads_the_local_slot(
    frames: Seq<FrameView>,
    extra: Seq<FrameView>,
    names: Seq<DynamicName>,
    name: VarName,
    to: Register,
    var: Variable,
)
    requires
        frames.len() > 0,
        !current(frames).is_global,
        find_var(current(frames).vars, name) == Some(var),
        !(var is Captured),
        extra.len() > 0,
        forall|j: int| 0 <= j < extra.len() ==> !(#[trigger] extra[j]).is_function,
        forall|j: int| 0 <= j < extra.len() ==> find_var(#[trigger] extra[j].vars, name) is None,
    ensures
        spec_get(frames, names, name, to) == Some(
            (frames, names, OpCode::ReadFromStack { result: to, stack_offset: var_offset(var) }),
        ),
        spec_get(frames + extra, names, name, to) == Some(
            (frames + extra, names, OpCode::ReadFromStack { result: to, stack_offset: var_offset(var) }),
        ),
        var is Let || var is Var ==> spec_set(frames + extra, names, name, to) == Some(
            (frames + extra, names, OpCode::WriteToStack { from: to, stack_offset: var_offset(var) }),
        ),
{
    let all = frames + extra;
    let cur = all.len() - 1;
    assert(all[cur] == extra[extra.len() - 1]);
    assert(find_var(extra[extra.len() - 1].vars, name) is None);
    lemma_find_frame_skips(frames, extra, name, cur - 1);
    lemma_no_function_between(frames, extra, cur);
    assert(all[frames.len() - 1] == frames[frames.len() - 1]);
}

/// Take the next stack offset of the current scope, which must be a
/// function or the global scope; a function scope records it as its
/// largest offset when it is.
pub open spec fn spec_next_stack_offset(frames: Seq<FrameView>) -> (Seq<FrameView>, u16) {
    let f = current(frames);
    let off = f.stack_offset;
    let f1 = FrameView { stack_offset: (off + 1) as u16, ..f };
    if f.is_global {
        (set_current(frames, f1), off)
    } else if f.is_function {
        (
            set_current(
                frames,
                FrameView {
                    max_stack_offset: if off > f.max_stack_offset {
                        off
                    } else {
                        f.max_stack_offset
                    },
                    ..f1
                },
            ),
            off,
        )
    } else {
        let fr = set_current(frames, f1);
        match function_below(frames, frames.len() - 1) {
            Some(j) => (
                fr.update(
                    j,
                    FrameView {
                        max_stack_offset: if off > fr[j].max_stack_offset {
                            off
                        } else {
                            fr[j].max_stack_offset
                        },
                        ..fr[j]
                    },
                ),
                off,
            ),
            None => (fr, off),
        }
    }
}

/// Taking a stack offset is defined: the current scope is a function or the
/// global scope, and its counter is not exhausted.
pub open spec fn next_stack_offset_defined(frames: Seq<FrameView>) -> bool {
    current(frames).stack_offset < u16::MAX
}

/// The variable a declaration of kind `kind` at offset `off` creates.
pub open spec fn declared_variable(kind: DeclareKind, off: u16) -> Variable {
    match kind {
        DeclareKind::Let => Variable::Let(off),
        DeclareKind::Var => Variable::Var(off),
        _ => Variable::Const(off),
    }
}

/// The result of declaring `name` with the value of `from`.
pub open spec fn spec_declare(
    frames: Seq<FrameView>,
    names: Seq<DynamicName>,
    name: VarName,
    from: Register,
    kind: DeclareKind,
) -> Option<(Seq<FrameView>, Seq<DynamicName>, OpCode)> {
    if !next_stack_offset_defined(frames) {
        None
    } else {
        let (f1, off) = spec_next_stack_offset(frames);
        if kind == DeclareKind::Undeclared {
            spec_set(f1, names, name, from)
        } else {
            let c = current(f1);
            let f2 = set_current(
                f1,
                FrameView { vars: c.vars.push((name, declared_variable(kind, off))), ..c },
            );
            if !c.is_global {
                Some((f2, names, OpCode::WriteToStack { from, stack_offset: off }))
            } else {
                let (n2, id) = spec_register(names, DynamicName::Plain(name.sym));
                Some((f2, n2, OpCode::DeclareDynamicVar { from, kind, id }))
            }
        }
    }
}

/// Collect and clear the pending captures of the scopes from `k` down to
/// the enclosing function scope, stopping before a global scope.
pub open spec fn collect_need_done(frames: Seq<FrameView>, k: int) -> (Seq<FrameView>, Seq<OpCode>)
    decreases k + 1,
{
    if k < 0 || k >= frames.len() {
        (frames, seq![])
    } else if frames[k].is_global {
        (frames, seq![])
    } else {
        let taken = frames[k].need_done;
        let f1 = frames.update(k, FrameView { need_done: seq![], ..frames[k] });
        if frames[k].is_function {
            (f1, taken)
        } else {
            let (f2, rest) = collect_need_done(f1, k - 1);
            (f2, taken + rest)
        }
    }
}

/// The captures to emit now: those of the current scope, and for a block
/// scope those of the enclosing blocks up to its function.
pub open spec fn spec_need_done(frames: Seq<FrameView>) -> (Seq<FrameView>, Seq<OpCode>) {
    let c = current(frames);
    let f1 = set_current(frames, FrameView { need_done: seq![], ..c });
    if c.is_function || c.is_global {
        (f1, c.need_done)
    } else {
        let (f2, rest) = collect_need_done(f1, frames.len() - 2);
        (f2, c.need_done + rest)
    }
}

/// The innermost function scope strictly below scope `k`.
pub open spec fn function_below(frames: Seq<FrameView>, k: int) -> Option<int>
    decreases k,
{
    if k <= 0 {
        None
    } else if frames[k - 1].is_function {
        Some(k - 1)
    } else {
        function_below(frames, k - 1)
    }
}

proof fn lemma_hfb_extend_low(frames: Seq<FrameView>, lo: int, hi: int)
    requires
        0 <= lo <= hi,
    ensures
        has_function_between(frames, lo - 1, hi) == (frames[lo].is_function || has_function_between(
            frames,
            lo,
            hi,
        )),
    decreases hi - lo,
{
    if hi > lo {
        lemma_hfb_extend_low(frames, lo, hi - 1);
        assert(has_function_between(frames, lo - 1, hi) == (frames[hi].is_function
            || has_function_between(frames, lo - 1, hi - 1)));
    } else {
        assert(has_function_between(frames, lo - 1, lo) == (frames[lo].is_function
            || has_function_between(frames, lo - 1, lo - 1)));
    }
}

proof fn lemma_find_frame_range(frames: Seq<FrameView>, name: VarName, k: int)
    ensures
        find_frame(frames, name, k) matches Some(i) ==> 0 <= i <= k && find_var(frames[i].vars, name) is Some,
    decreases k + 1,
{
    if k >= 0 {
        lemma_find_frame_range(frames, name, k - 1);
    }
}

fn variable_offset(v: Variable) -> (r: u16)
    ensures
        r == var_offset(v),
{
    match v {
        Variable::Let(o) => o,
        Variable::Var(o) => o,
        Variable::Const(o) => o,
        Variable::Captured(o) => o,
    }
}

// ---------------------------------------------------------------------------
// Laws of the scope chain
// ---------------------------------------------------------------------------

/// A variable declared in a function scope is written to the next free
/// stack slot, the slot counter moves on by one, and reading or assigning
/// the variable right after goes to that same slot without changing the
/// context.
pub proof fn lemma_declare_then_access(
    frames: Seq<FrameView>,
    names: Seq<DynamicName>,
    name: VarName,
    from: Register,
    kind: DeclareKind,
    reader: Register,
    writer: Register,
)
    requires
        frames.len() > 0,
        kind != DeclareKind::Undeclared,
        current(frames).is_function,
        !current(frames).is_global,
        current(frames).stack_offset < u16::MAX,
    ensures
        ({
            let off = current(frames).stack_offset;
            let d = spec_declare(frames, names, name, from, kind);
            let (f1, n1, op) = d->0;
            &&& d is Some
            &&& op == OpCode::WriteToStack { from, stack_offset: off }
            &&& n1 == names
            &&& current(f1).stack_offset == off + 1
            &&& current(f1).max_stack_offset >= off
            &&& spec_get(f1, n1, name, reader) == Some(
                (f1, n1, OpCode::ReadFromStack { result: reader, stack_offset: off }),
            )
            &&& kind != DeclareKind::Const ==> spec_set(f1, n1, name, writer) == Some(
                (f1, n1, OpCode::WriteToStack { from: writer, stack_offset: off }),
            )
        }),
{
}

proof fn lemma_find_frame_transfer(f: Seq<FrameView>, g: Seq<FrameView>, name: VarName, k: int, m: int)
    requires
        0 <= k <= m < f.len(),
        g.len() == f.len(),
        find_frame(f, name, m) == Some(k),
        forall|i: int| k < i <= m ==> #[trigger] g[i].vars == f[i].vars,
        find_var(g[k].vars, name) is Some,
    ensures
        find_frame(g, name, m) == Some(k),
    decreases m - k,
{
    if m > k {
        assert(find_var(f[m].vars, name) is None) by {
            if find_var(f[m].vars, name) is Some {
                assert(find_frame(f, name, m) == Some(m));
            }
        }
        lemma_find_frame_transfer(f, g, name, k, m - 1);
    }
}

/// The first access from an inner function to a variable of an enclosing
/// function moves it into a fresh capture slot and queues the `Capture`
/// instruction in the declaring scope; from then on reads and writes of the
/// variable go through that same slot and leave the context unchanged.
pub proof fn lemma_captured_variable_shares_one_slot(
    frames: Seq<FrameView>,
    names: Seq<DynamicName>,
    name: VarName,
    k: int,
    reader: Register,
    writer: Register,
    from: Register,
)
    requires
        frames.len() > 1,
        0 <= k < frames.len() - 1,
        find_var(current(frames).vars, name) is None,
        find_frame(frames, name, frames.len() - 2) == Some(k),
        find_var(frames[k].vars, name) matches Some(v) && (v is Let || v is Var),
        !frames[k].is_global,
        has_function_between(frames, k, frames.len() - 1),
        take_capture_offset(frames) is Some,
    ensures
        ({
            let (_, c) = take_capture_offset(frames)->0;
            let off = var_offset(find_var(frames[k].vars, name)->0);
            let g = spec_get(frames, names, name, reader);
            let (g1, n1, op) = g->0;
            &&& g is Some
            &&& op == OpCode::ReadCapturedVar { result: reader, offset: c }
            &&& n1 == names
            &&& g1[k].need_done == frames[k].need_done.push(
                OpCode::Capture { stack_offset: off, capture_stack_offset: c },
            )
            &&& spec_get(g1, names, name, reader) == Some(
                (g1, names, OpCode::ReadCapturedVar { result: reader, offset: c }),
            )
            &&& spec_set(g1, names, name, writer) == Some(
                (g1, names, OpCode::WriteCapturedVar { from: writer, offset: c }),
            )
        }),
{
    let cur = frames.len() - 1;
    let v = find_var(frames[k].vars, name)->0;
    lemma_capture_frame_range(frames, cur);
    let j = capture_frame(frames, cur)->0;
    let (f1, c) = take_capture_offset(frames)->0;
    let (f2, _) = capture_into(frames, k, name, var_offset(v))->0;
    assert(f1.len() == frames.len());
    assert forall|i: int| 0 <= i < frames.len() implies #[trigger] f1[i].vars == frames[i].vars by {
        if i == j {
        }
    }
    assert(find_var(f2[k].vars, name) == Some(Variable::Captured(c)));
    assert forall|i: int| k < i <= cur - 1 implies #[trigger] f2[i].vars == frames[i].vars by {
        assert(f1[i].vars == frames[i].vars);
    }
    lemma_find_frame_transfer(frames, f2, name, k, cur - 1);
    assert(f2[cur].vars == frames[cur].vars) by {
        assert(f1[cur].vars == frames[cur].vars);
    }
}

/// The scope chain of a new context: the global scope alone.
pub open spec fn global_frames() -> Seq<FrameView> {
    seq![
        FrameView {
            is_function: true,
            is_global: true,
            is_try: false,
            vars: seq![],
            stack_offset: 0,
            capture_offset: None,
            max_stack_offset: 0,
            need_done: seq![],
        },
    ]
}

/// The scope chain with a block scope opened on top: it shares the stack
/// frame and the try state of the current scope.
pub open spec fn with_block_scope(frames: Seq<FrameView>) -> Seq<FrameView> {
    frames.push(
        FrameView {
            is_function: false,
            is_global: current(frames).is_global,
            is_try: current(frames).is_try,
            vars: seq![],
            stack_offset: current(frames).stack_offset,
            capture_offset: None,
            max_stack_offset: 0,
            need_done: seq![],
        },
    )
}

/// The scope chain with a function scope opened on top: a fresh stack
/// frame, which owns a capture environment when it is opened at the global
/// level.
pub open spec fn with_function_scope(frames: Seq<FrameView>) -> Seq<FrameView> {
    frames.push(
        FrameView {
            is_function: true,
            is_global: false,
            is_try: false,
            vars: seq![],
            stack_offset: 0,
            capture_offset: if current(frames).is_global {
                Some(0)
            } else {
                None
            },
            max_stack_offset: 0,
            need_done: seq![],
        },
    )
}

/// The scope chain of the code generator: the global scope first, then one
/// scope per nested function or block, the current scope last.
pub struct FunctionBuilderContext {
    frames: Vec<FunctionBuilderContextInner>,
}

impl View for FunctionBuilderContext {
    type V = Seq<FrameView>;

    closed spec fn view(&self) -> Seq<FrameView> {
        self.frames@.map_values(|f: FunctionBuilderContextInner| f@)
    }
}

/// The current scope of a scope chain.
pub open spec fn current(frames: Seq<FrameView>) -> FrameView {
    frames.last()
}

/// The scope chain with its current scope replaced.
pub open spec fn set_current(frames: Seq<FrameView>, f: FrameView) -> Seq<FrameView> {
    frames.update(frames.len() - 1, f)
}

impl FunctionBuilderContext {
    /// The chain holds at least the global scope.
    pub open spec fn wf(&self) -> bool {
        self@.len() > 0
    }

    proof fn lemma_view(&self)
        ensures
            self@.len() == self.frames@.len(),
            forall|k: int| 0 <= k < self@.len() ==> #[trigger] self@[k] == self.frames@[k]@,
    {
    }

    /// A context holding only the global scope, which is also the body of
    /// the top-level function.
    pub fn new() -> (r: Self)
        ensures
            r.wf(),
            r@ == global_frames(),
    {
        let mut frames = Vec::new();
        frames.push(
            FunctionBuilderContextInner {
                is_function_context: true,
                is_global_context: true,
                is_try: false,
                variables: Vec::new(),
                stack_offset: 0,
                capture_offset: None,
                max_stack_offset: 0,
                need_done: Vec::new(),
            },
        );
        let r = FunctionBuilderContext { frames };
        assert(r@ =~= seq![r.frames@[0]@]);
        r
    }

    /// Open a block scope: it shares the stack frame and the try state of
    /// the current scope.
    pub fn new_context(&mut self)
        requires
            old(self).wf(),
        ensures
            final(self).wf(),
            final(self)@ == with_block_scope(old(self)@),
    {
        let last = self.frames.len() - 1;
        let f = FunctionBuilderContextInner {
            is_function_context: false,
            is_global_context: self.frames[last].is_global_context,
            is_try: self.frames[last].is_try,
            variables: Vec::new(),
            stack_offset: self.frames[last].stack_offset,
            capture_offset: None,
            max_stack_offset: 0,
            need_done: Vec::new(),
        };
        self.frames.push(f);
        assert(self@ =~= old(self)@.push(f@));
    }

    /// Open a function scope: a fresh stack frame; a function declared at
    /// the global level owns the capture environment its inner functions
    /// capture into.
    pub fn new_function(&mut self)
        requires
            old(self).wf(),
        ensures
            final(self).wf(),
            final(self)@ == with_function_scope(old(self)@),
    {
        let last = self.frames.len() - 1;
        let f = FunctionBuilderContextInner {
            is_function_context: true,
            is_global_context: false,
            is_try: false,
            variables: Vec::new(),
            stack_offset: 0,
            capture_offset: if self.frames[last].is_global_context {
                Some(0)
            } else {
                None
            },
            max_stack_offset: 0,
            need_done: Vec::new(),
        };
        self.frames.push(f);
        assert(self@ =~= old(self)@.push(f@));
    }

    /// Close the current scope and return to its parent; the global scope
    /// is never closed. The closed scope must have no pending captures.
    pub fn close_context(&mut self)
        requires
            old(self).wf(),
            old(self)@.len() > 1 ==> current(old(self)@).need_done.len() == 0,
        ensures
            final(self).wf(),
            final(self)@ == if old(self)@.len() > 1 {
                old(self)@.drop_last()
            } else {
                old(self)@
            },
    {
        if self.frames.len() > 1 {
            self.frames.pop();
            assert(self@ =~= old(self)@.drop_last());
        }
    }

    /// Take the next capture slot for the current scope.
    fn get_next_capture_offset(&mut self) -> (r: u16)
        requires
            old(self).wf(),
            take_capture_offset(old(self)@) is Some,
        ensures
            final(self).wf(),
            (final(self)@, r) == take_capture_offset(old(self)@)->0,
    {
        let ghost v = self@;
        let mut j = self.frames.len() - 1;
        while !self.frames[j].is_global_context && self.frames[j].capture_offset.is_none()
            invariant
                j < self.frames@.len(),
                self@ == v,
                capture_frame(v, v.len() - 1) == capture_frame(v, j as int),
                capture_frame(v, v.len() - 1) is Some,
            decreases j,
        {
            assert(capture_frame(v, j as int) == capture_frame(v, j - 1));
            j -= 1;
        }
        let off = self.frames[j].capture_offset.unwrap();
        self.frames[j].capture_offset = Some(off + 1);
        assert(self@ =~= v.update(
            j as int,
            FrameView { capture_offset: Some((off + 1) as u16), ..v[j as int] },
        ));
        off
    }

    /// Move variable `name` of scope `k`, stored at `off`, into a fresh
    /// capture slot and return the slot.
    fn capture(&mut self, k: usize, name: VarName, off: u16) -> (r: u16)
        requires
            old(self).wf(),
            k < old(self)@.len(),
            capture_into(old(self)@, k as int, name, off) is Some,
        ensures
            final(self).wf(),
            (final(self)@, r) == capture_into(old(self)@, k as int, name, off)->0,
    {
        let c = self.get_next_capture_offset();
        let ghost v1 = self@;
        proof {
            self.lemma_view();
            old(self).lemma_view();
            lemma_capture_frame_range(old(self)@, old(self)@.len() - 1);
        }
        self.frames[k].need_done.push(OpCode::Capture { stack_offset: off, capture_stack_offset: c });
        self.frames[k].variables.push((name, Variable::Captured(c)));
        assert(self@ =~= v1.update(
            k as int,
            FrameView {
                need_done: v1[k as int].need_done.push(
                    OpCode::Capture { stack_offset: off, capture_stack_offset: c },
                ),
                vars: v1[k as int].vars.push((name, Variable::Captured(c))),
                ..v1[k as int]
            },
        ));
        c
    }

    /// Take the next stack offset of the current scope.
    pub fn get_next_stack_offset(&mut self) -> (r: u16)
        requires
            old(self).wf(),
            next_stack_offset_defined(old(self)@),
        ensures
            final(self).wf(),
            (final(self)@, r) == spec_next_stack_offset(old(self)@),
    {
        proof {
            self.lemma_view();
        }
        let cur = self.frames.len() - 1;
        let off = self.frames[cur].stack_offset;
        self.frames[cur].stack_offset = off + 1;
        if self.frames[cur].is_global_context {
            assert(self@ =~= spec_next_stack_offset(old(self)@).0);
        } else if self.frames[cur].is_function_context {
            if off > self.frames[cur].max_stack_offset {
                self.frames[cur].max_stack_offset = off;
            }
            assert(self@ =~= spec_next_stack_offset(old(self)@).0);
        } else {
            // a block scope: the enclosing function's frame grows
            let ghost v = old(self)@;
            let ghost fr = self@;
            assert(fr =~= set_current(v, FrameView { stack_offset: (off + 1) as u16, ..current(v) }));
            let mut k = cur;
            while k > 0 && !self.frames[k - 1].is_function_context
                invariant
                    k <= cur,
                    cur == v.len() - 1,
                    fr.len() == v.len(),
                    self@ == fr,
                    self@.len() == self.frames@.len(),
                    forall|i: int| 0 <= i < self@.len() ==> #[trigger] self@[i] == self.frames@[i]@,
                    function_below(v, cur as int) == function_below(v, k as int),
                    forall|i: int| 0 <= i < cur ==> #[trigger] fr[i] == v[i],
                decreases k,
            {
                assert(fr[k - 1] == v[k - 1]);
                k -= 1;
            }
            if k > 0 {
                assert(fr[k - 1] == v[k - 1]);
                let j = k - 1;
                if off > self.frames[j].max_stack_offset {
                    self.frames[j].max_stack_offset = off;
                }
                assert(self@ =~= spec_next_stack_offset(old(self)@).0);
            } else {
                assert(self@ =~= spec_next_stack_offset(old(self)@).0);
            }
        }
        off
    }

    /// The instruction that reads variable `name` into `write_to`. A
    /// variable of an enclosing function that is not yet captured is moved
    /// into the capture environment; names not declared in any scope, and
    /// names of the global scope, are read dynamically by their number in
    /// `names`.
    pub fn get(&mut self, names: &mut DynamicVarNames, name: &VarName, write_to: Register) -> (r: OpCode)
        requires
            old(self).wf(),
            old(names)@.len() < u32::MAX,
            spec_get(old(self)@, old(names)@, *name, write_to) is Some,
        ensures
            final(self).wf(),
            (final(self)@, final(names)@, r) == spec_get(old(self)@, old(names)@, *name, write_to)->0,
    {
        let key = *name;
        let ghost v = self@;
        proof {
            self.lemma_view();
        }
        let cur = self.frames.len() - 1;
        match lookup_var(&self.frames[cur].variables, key) {
            Some(Variable::Captured(off)) => {
                return OpCode::ReadCapturedVar { result: write_to, offset: off };
            },
            Some(var) => {
                let off = variable_offset(var);
                if !self.frames[cur].is_global_context {
                    return OpCode::ReadFromStack { result: write_to, stack_offset: off };
                } else {
                    let id = names.register(DynamicName::Plain(key.sym));
                    return OpCode::ReadDynamicVar { result: write_to, id };
                }
            },
            None => {},
        }
        let mut k = cur;
        let mut need_capture = false;
        let mut is_func = self.frames[cur].is_function_context;
        while k > 0
            invariant
                k <= cur,
                cur == v.len() - 1,
                self@ == v,
                v == old(self)@,
                v.len() == self.frames@.len(),
                names@ == old(names)@,
                key == *name,
                old(names)@.len() < u32::MAX,
                forall|i: int| 0 <= i < v.len() ==> #[trigger] v[i] == self.frames@[i]@,
                is_func == v[k as int].is_function,
                need_capture == has_function_between(v, k as int, cur as int),
                find_var(v[cur as int].vars, key) is None,
                find_frame(v, key, cur - 1) == find_frame(v, key, k - 1),
                spec_get(v, old(names)@, key, write_to) is Some,
            decreases k,
        {
            proof {
                lemma_hfb_extend_low(v, k as int, cur as int);
            }
            if is_func {
                need_capture = true;
            }
            k -= 1;
            is_func = self.frames[k].is_function_context;
            let is_global = self.frames[k].is_global_context;
            let found = lookup_var(&self.frames[k].variables, key);
            proof {
                assert(v[k as int].vars == self.frames@[k as int].variables@);
                if found is Some {
                    assert(find_frame(v, key, k as int) == Some(k as int));
                } else {
                    assert(find_frame(v, key, k as int) == find_frame(v, key, k - 1));
                }
            }
            match found {
                Some(Variable::Captured(off)) => {
                    return OpCode::ReadCapturedVar { result: write_to, offset: off };
                },
                Some(var) => {
                    let off = variable_offset(var);
                    if need_capture && !is_global {
                        let c = self.capture(k, key, off);
                        return OpCode::ReadCapturedVar { result: write_to, offset: c };
                    } else if is_global {
                        let id = names.register(DynamicName::Plain(key.sym));
                        return OpCode::ReadDynamicVar { result: write_to, id };
                    } else {
                        return OpCode::ReadFromStack { result: write_to, stack_offset: off };
                    }
                },
                None => {},
            }
        }
        let id = names.register(DynamicName::Plain(key.sym));
        OpCode::ReadDynamicVar { result: write_to, id }
    }

    /// The instruction that writes `from` into variable `name`, resolved
    /// like [`FunctionBuilderContext::get`]; a variable declared with `var`
    /// in the global scope is written under its name qualified by its
    /// syntax context.
    pub fn set(&mut self, names: &mut DynamicVarNames, name: VarName, from: Register) -> (r: OpCode)
        requires
            old(self).wf(),
            old(names)@.len() < u32::MAX,
            spec_set(old(self)@, old(names)@, name, from) is Some,
        ensures
            final(self).wf(),
            (final(self)@, final(names)@, r) == spec_set(old(self)@, old(names)@, name, from)->0,
    {
        let ghost v = self@;
        proof {
            self.lemma_view();
        }
        let cur = self.frames.len() - 1;
        match lookup_var(&self.frames[cur].variables, name) {
            Some(Variable::Captured(off)) => {
                return OpCode::WriteCapturedVar { from, offset: off };
            },
            Some(var) => {
                let off = variable_offset(var);
                if self.frames[cur].is_global_context {
                    let id = names.register(DynamicName::Plain(name.sym));
                    return OpCode::WriteDynamicVar { from, id };
                }
                return OpCode::WriteToStack { from, stack_offset: off };
            },
            None => {},
        }
        let mut k = cur;
        let mut need_capture = false;
        let mut is_func = self.frames[cur].is_function_context;
        while k > 0
            invariant
                k <= cur,
                cur == v.len() - 1,
                self@ == v,
                v == old(self)@,
                v.len() == self.frames@.len(),
                names@ == old(names)@,
                old(names)@.len() < u32::MAX,
                forall|i: int| 0 <= i < v.len() ==> #[trigger] v[i] == self.frames@[i]@,
                is_func == v[k as int].is_function,
                need_capture == has_function_between(v, k as int, cur as int),
                find_var(v[cur as int].vars, name) is None,
                find_frame(v, name, cur - 1) == find_frame(v, name, k - 1),
                spec_set(v, old(names)@, name, from) is Some,
            decreases k,
        {
            proof {
                lemma_hfb_extend_low(v, k as int, cur as int);
            }
            if is_func {
                need_capture = true;
            }
            k -= 1;
            is_func = self.frames[k].is_function_context;
            let is_global = self.frames[k].is_global_context;
            let found = lookup_var(&self.frames[k].variables, name);
            proof {
                assert(v[k as int].vars == self.frames@[k as int].variables@);
                if found is Some {
                    assert(find_frame(v, name, k as int) == Some(k as int));
                } else {
                    assert(find_frame(v, name, k as int) == find_frame(v, name, k - 1));
                }
            }
            match found {
                Some(Variable::Captured(off)) => {
                    return OpCode::WriteCapturedVar { from, offset: off };
                },
                Some(var) => {
                    let off = variable_offset(var);
                    if need_capture && !is_global {
                        let c = self.capture(k, name, off);
                        return OpCode::WriteCapturedVar { from, offset: c };
                    } else if is_global {
                        let id = match var {
                            Variable::Var(_) => names.register(DynamicName::Scoped(name.sym, name.ctxt)),
                            _ => names.register(DynamicName::Plain(name.sym)),
                        };
                        return OpCode::WriteDynamicVar { from, id };
                    } else {
                        return OpCode::WriteToStack { from, stack_offset: off };
                    }
                },
                None => {},
            }
        }
        let id = names.register(DynamicName::Plain(name.sym));
        OpCode::WriteDynamicVar { from, id }
    }

    /// Declare `name` in the current scope, which must be a function or the
    /// global scope, and return the instruction that stores `from` into it:
    /// a stack write in a function, a dynamic declaration in the global
    /// scope. Without a declaration keyword the name is assigned instead,
    /// after a stack slot has been taken.
    pub fn declare(&mut self, names: &mut DynamicVarNames, name: VarName, from: Register, kind: DeclareKind) -> (r: OpCode)
        requires
            old(self).wf(),
            old(names)@.len() < u32::MAX,
            spec_declare(old(self)@, old(names)@, name, from, kind) is Some,
        ensures
            final(self).wf(),
            (final(self)@, final(names)@, r) == spec_declare(old(self)@, old(names)@, name, from, kind)->0,
    {
        let off = self.get_next_stack_offset();
        if kind == DeclareKind::Undeclared {
            return self.set(names, name, from);
        }
        let var = match kind {
            DeclareKind::Let => Variable::Let(off),
            DeclareKind::Var => Variable::Var(off),
            _ => Variable::Const(off),
        };
        proof {
            self.lemma_view();
        }
        let ghost v1 = self@;
        let cur = self.frames.len() - 1;
        self.frames[cur].variables.push((name, var));
        assert(self@ =~= set_current(v1, FrameView { vars: current(v1).vars.push((name, var)), ..current(v1) }));
        if !self.frames[cur].is_global_context {
            OpCode::WriteToStack { from, stack_offset: off }
        } else {
            let id = names.register(DynamicName::Plain(name.sym));
            OpCode::DeclareDynamicVar { from, kind, id }
        }
    }

    /// Take the captures that must be emitted now: those of the current
    /// scope and, for a block scope, those of the enclosing blocks up to and
    /// including its function scope; they are cleared from the scopes.
    pub fn need_done(&mut self) -> (r: Vec<OpCode>)
        requires
            old(self).wf(),
        ensures
            final(self).wf(),
            (final(self)@, r@) == spec_need_done(old(self)@),
    {
        proof {
            self.lemma_view();
        }
        let cur = self.frames.len() - 1;
        let mut v: Vec<OpCode> = Vec::new();
        std::mem::swap(&mut self.frames[cur].need_done, &mut v);
        let ghost c = current(old(self)@);
        assert(self@ =~= set_current(old(self)@, FrameView { need_done: seq![], ..c }));
        if self.frames[cur].is_function_context || self.frames[cur].is_global_context {
            return v;
        }
        let ghost f1 = self@;
        let mut k = cur;
        let mut done = false;
        while !done && k > 0
            invariant
                k <= cur,
                cur == old(self)@.len() - 1,
                self@.len() == old(self)@.len(),
                self@.len() == self.frames@.len(),
                forall|i: int| 0 <= i < self@.len() ==> #[trigger] self@[i] == self.frames@[i]@,
                !c.is_function && !c.is_global,
                v@.len() >= c.need_done.len(),
                done ==> spec_need_done(old(self)@) == (self@, v@),
                !done ==> spec_need_done(old(self)@) == ({
                    let (f2, rest) = collect_need_done(self@, k - 1);
                    (f2, v@ + rest)
                }),
            decreases k,
        {
            k -= 1;
            if self.frames[k].is_global_context {
                done = true;
            } else {
                let is_function = self.frames[k].is_function_context;
                let ghost before = self@;
                let ghost vb = v@;
                let mut f: Vec<OpCode> = Vec::new();
                std::mem::swap(&mut self.frames[k].need_done, &mut f);
                assert(self@ =~= before.update(k as int, FrameView { need_done: seq![], ..before[k as int] }));
                let ghost taken = f@;
                v.append(&mut f);
                if is_function {
                    done = true;
                } else {
                    proof {
                        let (f2, rest) = collect_need_done(self@, k - 1);
                        assert(vb + (taken + rest) =~= v@ + rest);
                    }
                }
            }
        }
        v
    }

    /// The index of the function scope that encloses the current block
    /// scope.
    pub fn function_parent(&self) -> (r: usize)
        requires
            self.wf(),
            !current(self@).is_function,
            function_below(self@, self@.len() - 1) is Some,
        ensures
            r == function_below(self@, self@.len() - 1)->0,
    {
        proof {
            self.lemma_view();
        }
        let mut k = self.frames.len() - 1;
        while !self.frames[k - 1].is_function_context
            invariant
                0 < k < self.frames@.len(),
                self@.len() == self.frames@.len(),
                function_below(self@, self@.len() - 1) == function_below(self@, k as int),
                function_below(self@, k as int) is Some,
            decreases k,
        {
            k -= 1;
        }
        k - 1
    }

    /// Whether the current scope is inside a `try` block.
    pub fn is_try(&self) -> (r: bool)
        requires
            self.wf(),
        ensures
            r == current(self@).is_try,
    {
        self.frames[self.frames.len() - 1].is_try
    }

    /// Mark the current scope as inside a `try` block.
    pub fn set_try(&mut self)
        requires
            old(self).wf(),
        ensures
            final(self).wf(),
            final(self)@ == set_current(old(self)@, FrameView { is_try: true, ..current(old(self)@) }),
    {
        let last = self.frames.len() - 1;
        self.frames[last].is_try = true;
        assert(self@ =~= set_current(old(self)@, FrameView { is_try: true, ..current(old(self)@) }));
    }

    /// The next free stack offset of the current scope.
    pub fn current_stack_offset(&self) -> (r: StackOffset)
        requires
            self.wf(),
        ensures
            r == current(self@).stack_offset,
    {
        self.frames[self.frames.len() - 1].stack_offset
    }

    /// The largest stack offset used by the current function scope.
    pub fn max_stack_offset(&self) -> (r: StackOffset)
        requires
            self.wf(),
        ensures
            r == current(self@).max_stack_offset,
    {
        self.frames[self.frames.len() - 1].max_stack_offset
    }

    /// The size of the capture environment owned by the current scope.
    pub fn capture_len(&self) -> (r: Option<u16>)
        requires
            self.wf(),
        ensures
            r == current(self@).capture_offset,
    {
        self.frames[self.frames.len() - 1].capture_offset
    }
}

} // verus!
