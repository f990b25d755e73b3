use vstd::prelude::*;

use crate::ids::{ClassID, ConstID, FuncID, RegexID, StringID, TemplateID};
use crate::value::JValue;

verus! {

/// One of the machine registers of the bytecode interpreter.
#[derive(Clone, Copy, PartialEq, Eq, Structural, PartialOrd, Hash, Debug)]
pub struct Register(pub u8);

/// A basic block label.
#[derive(Clone, Copy, Hash, PartialEq, Eq, Structural, Debug)]
pub struct Block(pub u16);

/// The kind of loop an iterator is created for.
#[derive(Debug, Clone, Copy, PartialEq, Eq, Structural, PartialOrd, Ord)]
pub enum LoopHint {
    While,
    For,
    ForOf,
    ForIn,
}

/// The declaration keyword of a variable.
#[derive(Debug, Clone, Copy, PartialEq, Eq, Structural)]
pub enum DeclareKind {
    Var,
    Let,
    Const,
    /// no declaration keyword: the name is assigned, not declared
    Undeclared,
}

/// A value in the temporary allocation array.
#[derive(Clone, Copy, Debug)]
pub struct TempAllocValue {
    /// an opaque data
    pub flag: u8,
    /// the value
    pub value: JValue,
}

/// An encoded pair of registers `(target, value)`, both in `0..4`.
///
/// This enum keeps the instructions that carry two registers small.
#[derive(Debug, Clone, Copy, PartialEq, Eq, Structural)]
pub enum CompactRegister {
    T0R0,
    T0R1,
    T0R2,
    T0R3,
    T1R0,
    T1R1,
    T1R2,
    T1R3,
    T2R0,
    T2R1,
    T2R2,
    T2R3,
    T3R0,
    T3R1,
    T3R2,
    T3R3,
}

impl CompactRegister {
    /// Index of the first register encoded by `self`.
    pub open spec fn target_index(self) -> u8 {
        match self {
            CompactRegister::T0R0 | CompactRegister::T0R1 | CompactRegister::T0R2
            | CompactRegister::T0R3 => 0,
            CompactRegister::T1R0 | CompactRegister::T1R1 | CompactRegister::T1R2
            | CompactRegister::T1R3 => 1,
            CompactRegister::T2R0 | CompactRegister::T2R1 | CompactRegister::T2R2
            | CompactRegister::T2R3 => 2,
            CompactRegister::T3R0 | CompactRegister::T3R1 | CompactRegister::T3R2
            | CompactRegister::T3R3 => 3,
        }
    }

    /// Index of the second register encoded by `self`.
    pub open spec fn value_index(self) -> u8 {
        match self {
            CompactRegister::T0R0 | CompactRegister::T1R0 | CompactRegister::T2R0
            | CompactRegister::T3R0 => 0,
            CompactRegister::T0R1 | CompactRegister::T1R1 | CompactRegister::T2R1
            | CompactRegister::T3R1 => 1,
            CompactRegister::T0R2 | CompactRegister::T1R2 | CompactRegister::T2R2
            | CompactRegister::T3R2 => 2,
            CompactRegister::T0R3 | CompactRegister::T1R3 | CompactRegister::T2R3
            | CompactRegister::T3R3 => 3,
        }
    }

    /// the first register of this enum
    pub fn target(&self) -> (r: Register)
        ensures
            r == Register(self.target_index()),
    {
        match self {
            CompactRegister::T0R0 | CompactRegister::T0R1 | CompactRegister::T0R2
            | CompactRegister::T0R3 => Register(0),
            CompactRegister::T1R0 | CompactRegister::T1R1 | CompactRegister::T1R2
            | CompactRegister::T1R3 => Register(1),
            CompactRegister::T2R0 | CompactRegister::T2R1 | CompactRegister::T2R2
            | CompactRegister::T2R3 => Register(2),
            CompactRegister::T3R0 | CompactRegister::T3R1 | CompactRegister::T3R2
            | CompactRegister::T3R3 => Register(3),
        }
    }

    /// the second register of this enum
    pub fn value(&self) -> (r: Register)
        ensures
            r == Register(self.value_index()),
    {
        match self {
            CompactRegister::T0R0 | CompactRegister::T1R0 | CompactRegister::T2R0
            | CompactRegister::T3R0 => Register(0),
            CompactRegister::T0R1 | CompactRegister::T1R1 | CompactRegister::T2R1
            | CompactRegister::T3R1 => Register(1),
            CompactRegister::T0R2 | CompactRegister::T1R2 | CompactRegister::T2R2
            | CompactRegister::T3R2 => Register(2),
            CompactRegister::T0R3 | CompactRegister::T1R3 | CompactRegister::T2R3
            | CompactRegister::T3R3 => Register(3),
        }
    }

    /// Convert two registers, each in `0..4`, into a compact pair.
    pub fn from_registers(target: Register, value: Register) -> (c: CompactRegister)
        requires
            target.0 < 4,
            value.0 < 4,
        ensures
            c.target_index() == target.0,
            c.value_index() == value.0,
            c == compact_of(target, value),
    {
        let c = match target.0 {
            0 => match value.0 {
                0 => CompactRegister::T0R0,
                1 => CompactRegister::T0R1,
                2 => CompactRegister::T0R2,
                _ => CompactRegister::T0R3,
            },
            1 => match value.0 {
                0 => CompactRegister::T1R0,
                1 => CompactRegister::T1R1,
                2 => CompactRegister::T1R2,
                _ => CompactRegister::T1R3,
            },
            2 => match value.0 {
                0 => CompactRegister::T2R0,
                1 => CompactRegister::T2R1,
                2 => CompactRegister::T2R2,
                _ => CompactRegister::T2R3,
            },
            _ => match value.0 {
                0 => CompactRegister::T3R0,
                1 => CompactRegister::T3R1,
                2 => CompactRegister::T3R2,
                _ => CompactRegister::T3R3,
            },
        };
        proof {
            assert(c.target_index() == target.0 && c.value_index() == value.0);
            lemma_compact_register_roundtrip(c, compact_of(target, value));
        }
        c
    }
}

/// The compact register that encodes `target` and `value`.
pub open spec fn compact_of(target: Register, value: Register) -> CompactRegister {
    choose|c: CompactRegister| c.target_index() == target.0 && c.value_index() == value.0
}

/// One instruction of the register machine.
///
/// Stack offsets count values, not bytes.
#[derive(Debug, Clone, Copy)]
#[allow(inconsistent_fields)]
pub enum OpCode {
    /// no op
    NoOp,
    /// call the debugger; a no op when no debugger is set
    Debugger,
    /// mov from register to another; a no op if the two registers are the same
    Mov { from: Register, to: Register },
    /// return b if a is undefined, else a
    Select { a: Register, b: Register, result: Register },
    /// return a if t is true, else b
    CondSelect { t: Register, a: Register, b: Register, result: Register },
    /// create a code block, but not switch to it
    CreateBlock(Block),
    /// switch to a code block, operations after this point are written into it
    SwitchToBlock(Block),
    /// jump to a code block; `line` is the resolved instruction index
    Jump { to: Block, line: u32 },
    JumpIfTrue { value: Register, to: Block, line: u32 },
    JumpIfFalse { value: Register, to: Block, line: u32 },
    /// jump to a code block if the iterator in scope is done
    JumpIfIterDone { to: Block },
    /// enters a loop, only used by the interpreter
    Loop { body_start: u32, body_len: u16 },
    /// break without label, only used by the interpreter
    Break { exit: Block },
    /// break if value is true, only used by the interpreter
    BreakIfTrue { value: Register, exit: Block },
    /// break if value is false, only used by the interpreter
    BreakIfFalse { value: Register, exit: Block },
    /// break if iterator is done, only used by the interpreter
    BreakIfIterDone { exit: Block },
    /// enter a try context; on error, control moves to the catch block
    EnterTry { catch_block: Block, line: u32 },
    /// finish try
    ExitTry,
    /// throw the value
    Throw { value: Register },
    /// return the value
    Return { value: Register },
    /// reserve the stack frame of an inlined call
    PrepareInlinedCall { stack_offset: u16 },
    /// create a list of arguments on stack
    CreateArg { stack_offset: u16, len: u32 },
    /// write an argument to its location on stack
    PushArg { value: Register, stack_offset: u16 },
    /// write an argument that needs to be spread
    PushArgSpread { value: Register, stack_offset: u16 },
    /// finish the creation of arguments, spreading where required
    FinishArgs { base_stack_offset: u16, len: u16 },
    /// allocate temporary memory (size in bytes)
    TempAlloc { size: u32 },
    /// deallocate the temporary memory (size in bytes)
    TempDealloc { size: u32 },
    /// write a value into the temporary memory (offset in bytes)
    StoreTempAlloc { offset: u16, flag: u8, value: Register },
    /// read a value from the temporary memory (offset in bytes)
    ReadTempAlloc { offset: u16, result: Register },
    /// create a temporary slot holding the value
    StoreTemp { value: Register },
    /// read from the current temporary slot into the register
    ReadTemp { value: Register },
    /// release the current temporary slot
    ReleaseTemp,
    /// declare a dynamic variable
    DeclareDynamicVar { from: Register, kind: DeclareKind, id: u32 },
    /// write to a dynamic variable, or to the global object if undeclared
    WriteDynamicVar { from: Register, id: u32 },
    /// read from a dynamic variable, or from the global object if undeclared
    ReadDynamicVar { result: Register, id: u32 },
    /// move a stack variable into the capture environment
    Capture { stack_offset: u16, capture_stack_offset: u16 },
    /// read a variable from the capture environment
    ReadCapturedVar { result: Register, offset: u16 },
    /// write a variable to the capture environment
    WriteCapturedVar { from: Register, offset: u16 },
    /// write to the stack
    WriteToStack { from: Register, stack_offset: u16 },
    /// read from the stack
    ReadFromStack { result: Register, stack_offset: u16 },
    /// read a param
    ReadParam { result: Register, index: u32 },
    /// collect all the params from index `start` into an array
    CollectParam { result: Register, start: u32 },
    /// call a function, arguments are already on the stack
    Call { result: Register, this: Register, callee: Register, stack_offset: u16 },
    /// call if callee is not null or undefined
    CallOptChain { result: Register, this: Register, callee: Register, stack_offset: u16 },
    /// invoke a new operation
    New { result: Register, callee: Register, stack_offset: u16 },
    /// get the metadata new.target
    NewTarget { result: Register },
    /// get the metadata import.meta
    ImportMeta { result: Register },
    /// create an iterator from a value
    IntoIter { target: Register, hint: LoopHint },
    /// get the next value from the iterator
    IterNext { result: Register, hint: LoopHint, stack_offset: u16 },
    /// collect all the unread values from the iterator
    IterCollect { result: Register, stack_offset: u16 },
    /// destroy the current iterator and restore the previous one
    IterDrop,
    Add { result: Register, left: Register, right: Register },
    Sub { result: Register, left: Register, right: Register },
    Mul { result: Register, left: Register, right: Register },
    Div { result: Register, left: Register, right: Register },
    Exp { result: Register, left: Register, right: Register },
    LShift { result: Register, left: Register, right: Register },
    RShift { result: Register, left: Register, right: Register },
    ZeroFillRShift { result: Register, left: Register, right: Register },
    Rem { result: Register, left: Register, right: Register },
    Await { result: Register, future: Register },
    Yield { result: Register, arg: Register },
    And { result: Register, left: Register, right: Register },
    Or { result: Register, left: Register, right: Register },
    Not { result: Register, right: Register },
    BitNot { result: Register, right: Register },
    BitAnd { result: Register, left: Register, right: Register },
    BitOr { result: Register, left: Register, right: Register },
    BitXor { result: Register, left: Register, right: Register },
    Minus { result: Register, right: Register },
    Plus { result: Register, right: Register },
    /// right if left is null or undefined, else left
    Nullish { result: Register, left: Register, right: Register },
    EqEq { result: Register, left: Register, right: Register },
    EqEqEq { result: Register, left: Register, right: Register },
    NotEq { result: Register, left: Register, right: Register },
    NotEqEq { result: Register, left: Register, right: Register },
    Gt { result: Register, left: Register, right: Register },
    GtEq { result: Register, left: Register, right: Register },
    Lt { result: Register, left: Register, right: Register },
    LtEq { result: Register, left: Register, right: Register },
    In { result: Register, left: Register, right: Register },
    PrivateIn { result: Register, name: u32, right: Register },
    InstanceOf { result: Register, left: Register, right: Register },
    TypeOf { result: Register, right: Register },
    /// write the value of a field whose name is in a register
    WriteField { obj: Register, field: Register, value: Register, stack_offset: u16 },
    ReadField { obj: Register, field: Register, result: Register, stack_offset: u16 },
    /// read the field if obj is not null or undefined
    ReadFieldOptChain { obj: Register, field: Register, result: Register, stack_offset: u16 },
    /// write the field if obj is not null or undefined
    WriteFieldOptChain { obj: Register, field: Register, from: Register, stack_offset: u16 },
    /// write the field of an object with a static field name
    WriteFieldStatic { obj_value: CompactRegister, field_id: u32, stack_offset: u16 },
    /// read the field of an object with a static field name
    ReadFieldStatic { obj_result: CompactRegister, field_id: u32, stack_offset: u16 },
    /// read the field if obj is not null or undefined
    ReadFieldStaticOptChain { obj_result: CompactRegister, field_id: u32, stack_offset: u16 },
    /// remove a field from an object
    RemoveFieldStatic { obj: Register, field_id: u32 },
    /// bind a setter into an object
    BindSetter { obj: Register, field_id: u32, setter: Register },
    /// bind a getter into an object
    BindGetter { obj: Register, field_id: u32, getter: Register },
    /// extend an object by an object
    ExtendObject { obj: Register, from: Register },
    /// read from field of the super object
    ReadSuperField { constructor_result: CompactRegister, field: Register, stack_offset: u16 },
    ReadSuperFieldStatic { constructor_result: CompactRegister, field_id: u32, stack_offset: u16 },
    WriteSuperField { constructor_value: CompactRegister, field: Register, stack_offset: u16 },
    WriteSuperFieldStatic { constructor_value: CompactRegister, field: u32, stack_offset: u16 },
    LoadStaticString { result: Register, id: StringID },
    /// load a single-precision constant, given by its IEEE-754 bit pattern
    LoadStaticFloat32 { result: Register, value: u32 },
    LoadStaticFloat { result: Register, id: ConstID },
    LoadStaticBigInt { result: Register, id: ConstID },
    LoadStaticBigInt32 { result: Register, value: i32 },
    LoadTrue { result: Register },
    LoadFalse { result: Register },
    LoadNull { result: Register },
    LoadUndefined { result: Register },
    LoadThis { result: Register },
    /// override the this value with value
    SetThis { value: Register },
    /// create a normal object
    CreateObject { result: Register },
    /// create array, reading elements from the temporary memory
    CreateArray { result: Register },
    /// create an arrow function, capturing the this value
    CreateArrow { result: Register, this: Register, id: FuncID },
    CreateFunction { result: Register, id: FuncID },
    CreateClass { result: Register, class_id: ClassID },
    /// create regexp
    CreateRegExp { result: Register, reg_id: RegexID },
    /// arguments are created as for a function call
    CreateTemplate { result: Register, id: TemplateID, stack_offset: u16 },
    /// arguments are created as for a function call
    CreateTaggedTemplate { result: Register, id: TemplateID, stack_offset: u16 },
    /// set the super value of a class
    ClassBindSuper { class: Register, super_: Register },
    /// deep clone an object
    CloneObject { obj: Register, result: Register },
}

/// The register an instruction writes, if any.
pub open spec fn spec_writes_to(op: OpCode) -> Option<Register> {
    match op {
        OpCode::Mov { from, to } => Some(to),
        OpCode::Select { a, b, result } => Some(result),
        OpCode::CondSelect { t, a, b, result } => Some(result),
        OpCode::ReadTempAlloc { result, .. } => Some(result),
        OpCode::ReadTemp { value } => Some(value),
        OpCode::ReadDynamicVar { result, .. } => Some(result),
        OpCode::ReadCapturedVar { result, .. } => Some(result),
        OpCode::ReadFromStack { result, .. } => Some(result),
        OpCode::ReadParam { result, .. } => Some(result),
        OpCode::CollectParam { result, .. } => Some(result),
        OpCode::Call { result, this, callee, .. } => Some(result),
        OpCode::CallOptChain { result, this, callee, .. } => Some(result),
        OpCode::New { result, callee, .. } => Some(result),
        OpCode::NewTarget { result } => Some(result),
        OpCode::ImportMeta { result } => Some(result),
        OpCode::IterNext { result, .. } => Some(result),
        OpCode::IterCollect { result, .. } => Some(result),
        OpCode::Add { result, left, right } => Some(result),
        OpCode::Sub { result, left, right } => Some(result),
        OpCode::Mul { result, left, right } => Some(result),
        OpCode::Div { result, left, right } => Some(result),
        OpCode::Exp { result, left, right } => Some(result),
        OpCode::LShift { result, left, right } => Some(result),
        OpCode::RShift { result, left, right } => Some(result),
        OpCode::ZeroFillRShift { result, left, right } => Some(result),
        OpCode::Rem { result, left, right } => Some(result),
        OpCode::And { result, left, right } => Some(result),
        OpCode::Or { result, left, right } => Some(result),
        OpCode::BitAnd { result, left, right } => Some(result),
        OpCode::BitOr { result, left, right } => Some(result),
        OpCode::BitXor { result, left, right } => Some(result),
        OpCode::Nullish { result, left, right } => Some(result),
        OpCode::EqEq { result, left, right } => Some(result),
        OpCode::EqEqEq { result, left, right } => Some(result),
        OpCode::NotEq { result, left, right } => Some(result),
        OpCode::NotEqEq { result, left, right } => Some(result),
        OpCode::Gt { result, left, right } => Some(result),
        OpCode::GtEq { result, left, right } => Some(result),
        OpCode::Lt { result, left, right } => Some(result),
        OpCode::LtEq { result, left, right } => Some(result),
        OpCode::In { result, left, right } => Some(result),
        OpCode::InstanceOf { result, left, right } => Some(result),
        OpCode::Await { result, future } => Some(result),
        OpCode::Yield { result, arg } => Some(result),
        OpCode::Not { result, right } => Some(result),
        OpCode::BitNot { result, right } => Some(result),
        OpCode::Minus { result, right } => Some(result),
        OpCode::Plus { result, right } => Some(result),
        OpCode::PrivateIn { result, right, .. } => Some(result),
        OpCode::TypeOf { result, right } => Some(result),
        OpCode::ReadField { obj, field, result, .. } => Some(result),
        OpCode::ReadFieldOptChain { obj, field, result, .. } => Some(result),
        OpCode::ReadFieldStatic { obj_result, .. } => Some(Register(obj_result.value_index())),
        OpCode::ReadFieldStaticOptChain { obj_result, .. } => Some(Register(obj_result.value_index())),
        OpCode::ReadSuperField { constructor_result, field, .. } => Some(Register(constructor_result.value_index())),
        OpCode::ReadSuperFieldStatic { constructor_result, .. } => Some(Register(constructor_result.value_index())),
        OpCode::LoadStaticString { result, .. } => Some(result),
        OpCode::LoadStaticFloat32 { result, .. } => Some(result),
        OpCode::LoadStaticFloat { result, .. } => Some(result),
        OpCode::LoadStaticBigInt { result, .. } => Some(result),
        OpCode::LoadStaticBigInt32 { result, .. } => Some(result),
        OpCode::LoadTrue { result } => Some(result),
        OpCode::LoadFalse { result } => Some(result),
        OpCode::LoadNull { result } => Some(result),
        OpCode::LoadUndefined { result } => Some(result),
        OpCode::LoadThis { result } => Some(result),
        OpCode::CreateObject { result } => Some(result),
        OpCode::CreateArray { result } => Some(result),
        OpCode::CreateArrow { result, this, .. } => Some(result),
        OpCode::CreateFunction { result, .. } => Some(result),
        OpCode::CreateClass { result, .. } => Some(result),
        OpCode::CreateRegExp { result, .. } => Some(result),
        OpCode::CreateTemplate { result, .. } => Some(result),
        OpCode::CreateTaggedTemplate { result, .. } => Some(result),
        OpCode::CloneObject { obj, result } => Some(result),
        _ => None,
    }
}

/// The registers an instruction reads, padded with `Register(255)`.
pub open spec fn spec_reads_from(op: OpCode) -> (Register, Register, Register) {
    match op {
        OpCode::Mov { from, to } => (from, Register(255), Register(255)),
        OpCode::Select { a, b, result } => (a, b, Register(255)),
        OpCode::CondSelect { t, a, b, result } => (t, a, b),
        OpCode::JumpIfTrue { value, .. } => (value, Register(255), Register(255)),
        OpCode::JumpIfFalse { value, .. } => (value, Register(255), Register(255)),
        OpCode::BreakIfTrue { value, .. } => (value, Register(255), Register(255)),
        OpCode::BreakIfFalse { value, .. } => (value, Register(255), Register(255)),
        OpCode::Throw { value } => (value, Register(255), Register(255)),
        OpCode::Return { value } => (value, Register(255), Register(255)),
        OpCode::PushArg { value, .. } => (value, Register(255), Register(255)),
        OpCode::PushArgSpread { value, .. } => (value, Register(255), Register(255)),
        OpCode::StoreTempAlloc { value, .. } => (value, Register(255), Register(255)),
        OpCode::StoreTemp { value } => (value, Register(255), Register(255)),
        OpCode::DeclareDynamicVar { from, .. } => (from, Register(255), Register(255)),
        OpCode::WriteDynamicVar { from, .. } => (from, Register(255), Register(255)),
        OpCode::WriteCapturedVar { from, .. } => (from, Register(255), Register(255)),
        OpCode::WriteToStack { from, .. } => (from, Register(255), Register(255)),
        OpCode::Call { result, this, callee, .. } => (this, callee, Register(255)),
        OpCode::CallOptChain { result, this, callee, .. } => (this, callee, Register(255)),
        OpCode::New { result, callee, .. } => (callee, Register(255), Register(255)),
        OpCode::IntoIter { target, .. } => (target, Register(255), Register(255)),
        OpCode::Add { result, left, right } => (left, right, Register(255)),
        OpCode::Sub { result, left, right } => (left, right, Register(255)),
        OpCode::Mul { result, left, right } => (left, right, Register(255)),
        OpCode::Div { result, left, right } => (left, right, Register(255)),
        OpCode::Exp { result, left, right } => (left, right, Register(255)),
        OpCode::LShift { result, left, right } => (left, right, Register(255)),
        OpCode::RShift { result, left, right } => (left, right, Register(255)),
        OpCode::ZeroFillRShift { result, left, right } => (left, right, Register(255)),
        OpCode::Rem { result, left, right } => (left, right, Register(255)),
        OpCode::And { result, left, right } => (left, right, Register(255)),
        OpCode::Or { result, left, right } => (left, right, Register(255)),
        OpCode::BitAnd { result, left, right } => (left, right, Register(255)),
        OpCode::BitOr { result, left, right } => (left, right, Register(255)),
        OpCode::BitXor { result, left, right } => (left, right, Register(255)),
        OpCode::Nullish { result, left, right } => (left, right, Register(255)),
        OpCode::EqEq { result, left, right } => (left, right, Register(255)),
        OpCode::EqEqEq { result, left, right } => (left, right, Register(255)),
        OpCode::NotEq { result, left, right } => (left, right, Register(255)),
        OpCode::NotEqEq { result, left, right } => (left, right, Register(255)),
        OpCode::Gt { result, left, right } => (left, right, Register(255)),
        OpCode::GtEq { result, left, right } => (left, right, Register(255)),
        OpCode::Lt { result, left, right } => (left, right, Register(255)),
        OpCode::LtEq { result, left, right } => (left, right, Register(255)),
        OpCode::In { result, left, right } => (left, right, Register(255)),
        OpCode::InstanceOf { result, left, right } => (left, right, Register(255)),
        OpCode::Await { result, future } => (future, Register(255), Register(255)),
        OpCode::Yield { result, arg } => (arg, Register(255), Register(255)),
        OpCode::Not { result, right } => (right, Register(255), Register(255)),
        OpCode::BitNot { result, right } => (right, Register(255), Register(255)),
        OpCode::Minus { result, right } => (right, Register(255), Register(255)),
        OpCode::Plus { result, right } => (right, Register(255), Register(255)),
        OpCode::PrivateIn { result, right, .. } => (right, Register(255), Register(255)),
        OpCode::TypeOf { result, right } => (right, Register(255), Register(255)),
        OpCode::WriteField { obj, field, value, .. } => (obj, field, value),
        OpCode::ReadField { obj, field, result, .. } => (obj, field, Register(255)),
        OpCode::ReadFieldOptChain { obj, field, result, .. } => (obj, field, Register(255)),
        OpCode::WriteFieldOptChain { obj, field, from, .. } => (obj, field, from),
        OpCode::WriteFieldStatic { obj_value, .. } => (Register(obj_value.target_index()), Register(obj_value.value_index()), Register(255)),
        OpCode::ReadFieldStatic { obj_result, .. } => (Register(obj_result.target_index()), Register(255), Register(255)),
        OpCode::ReadFieldStaticOptChain { obj_result, .. } => (Register(obj_result.target_index()), Register(255), Register(255)),
        OpCode::RemoveFieldStatic { obj, .. } => (obj, Register(255), Register(255)),
        OpCode::BindSetter { obj, setter, .. } => (obj, setter, Register(255)),
        OpCode::BindGetter { obj, getter, .. } => (obj, getter, Register(255)),
        OpCode::ExtendObject { obj, from } => (obj, from, Register(255)),
        OpCode::ReadSuperField { constructor_result, field, .. } => (Register(constructor_result.target_index()), field, Register(255)),
        OpCode::ReadSuperFieldStatic { constructor_result, .. } => (Register(constructor_result.target_index()), Register(255), Register(255)),
        OpCode::WriteSuperField { constructor_value, field, .. } => (Register(constructor_value.target_index()), Register(constructor_value.value_index()), field),
        OpCode::WriteSuperFieldStatic { constructor_value, .. } => (Register(constructor_value.target_index()), Register(constructor_value.value_index()), Register(255)),
        OpCode::SetThis { value } => (value, Register(255), Register(255)),
        OpCode::CreateArrow { result, this, .. } => (this, Register(255), Register(255)),
        OpCode::ClassBindSuper { class, super_ } => (class, super_, Register(255)),
        OpCode::CloneObject { obj, result } => (obj, Register(255), Register(255)),
        _ => (Register(255), Register(255), Register(255)),
    }
}

/// Whether the instruction reads register `r` (the padding register never counts as read).
pub open spec fn spec_reads(op: OpCode, r: Register) -> bool {
    let (a, b, c) = spec_reads_from(op);
    a == r || b == r || c == r
}

impl OpCode {
    /// The register this instruction writes, if any.
    pub fn writes_to(&self) -> (r: Option<Register>)
        ensures
            r == spec_writes_to(*self),
    {
        match *self {
            OpCode::Mov { from, to } => Some(to),
            OpCode::Select { a, b, result } => Some(result),
            OpCode::CondSelect { t, a, b, result } => Some(result),
            OpCode::ReadTempAlloc { result, .. } => Some(result),
            OpCode::ReadTemp { value } => Some(value),
            OpCode::ReadDynamicVar { result, .. } => Some(result),
            OpCode::ReadCapturedVar { result, .. } => Some(result),
            OpCode::ReadFromStack { result, .. } => Some(result),
            OpCode::ReadParam { result, .. } => Some(result),
            OpCode::CollectParam { result, .. } => Some(result),
            OpCode::Call { result, this, callee, .. } => Some(result),
            OpCode::CallOptChain { result, this, callee, .. } => Some(result),
            OpCode::New { result, callee, .. } => Some(result),
            OpCode::NewTarget { result } => Some(result),
            OpCode::ImportMeta { result } => Some(result),
            OpCode::IterNext { result, .. } => Some(result),
            OpCode::IterCollect { result, .. } => Some(result),
            OpCode::Add { result, left, right } => Some(result),
            OpCode::Sub { result, left, right } => Some(result),
            OpCode::Mul { result, left, right } => Some(result),
            OpCode::Div { result, left, right } => Some(result),
            OpCode::Exp { result, left, right } => Some(result),
            OpCode::LShift { result, left, right } => Some(result),
            OpCode::RShift { result, left, right } => Some(result),
            OpCode::ZeroFillRShift { result, left, right } => Some(result),
            OpCode::Rem { result, left, right } => Some(result),
            OpCode::And { result, left, right } => Some(result),
            OpCode::Or { result, left, right } => Some(result),
            OpCode::BitAnd { result, left, right } => Some(result),
            OpCode::BitOr { result, left, right } => Some(result),
            OpCode::BitXor { result, left, right } => Some(result),
            OpCode::Nullish { result, left, right } => Some(result),
            OpCode::EqEq { result, left, right } => Some(result),
            OpCode::EqEqEq { result, left, right } => Some(result),
            OpCode::NotEq { result, left, right } => Some(result),
            OpCode::NotEqEq { result, left, right } => Some(result),
            OpCode::Gt { result, left, right } => Some(result),
            OpCode::GtEq { result, left, right } => Some(result),
            OpCode::Lt { result, left, right } => Some(result),
            OpCode::LtEq { result, left, right } => Some(result),
            OpCode::In { result, left, right } => Some(result),
            OpCode::InstanceOf { result, left, right } => Some(result),
            OpCode::Await { result, future } => Some(result),
            OpCode::Yield { result, arg } => Some(result),
            OpCode::Not { result, right } => Some(result),
            OpCode::BitNot { result, right } => Some(result),
            OpCode::Minus { result, right } => Some(result),
            OpCode::Plus { result, right } => Some(result),
            OpCode::PrivateIn { result, right, .. } => Some(result),
            OpCode::TypeOf { result, right } => Some(result),
            OpCode::ReadField { obj, field, result, .. } => Some(result),
            OpCode::ReadFieldOptChain { obj, field, result, .. } => Some(result),
            OpCode::ReadFieldStatic { obj_result, .. } => Some(obj_result.value()),
            OpCode::ReadFieldStaticOptChain { obj_result, .. } => Some(obj_result.value()),
            OpCode::ReadSuperField { constructor_result, field, .. } => Some(constructor_result.value()),
            OpCode::ReadSuperFieldStatic { constructor_result, .. } => Some(constructor_result.value()),
            OpCode::LoadStaticString { result, .. } => Some(result),
            OpCode::LoadStaticFloat32 { result, .. } => Some(result),
            OpCode::LoadStaticFloat { result, .. } => Some(result),
            OpCode::LoadStaticBigInt { result, .. } => Some(result),
            OpCode::LoadStaticBigInt32 { result, .. } => Some(result),
            OpCode::LoadTrue { result } => Some(result),
            OpCode::LoadFalse { result } => Some(result),
            OpCode::LoadNull { result } => Some(result),
            OpCode::LoadUndefined { result } => Some(result),
            OpCode::LoadThis { result } => Some(result),
            OpCode::CreateObject { result } => Some(result),
            OpCode::CreateArray { result } => Some(result),
            OpCode::CreateArrow { result, this, .. } => Some(result),
            OpCode::CreateFunction { result, .. } => Some(result),
            OpCode::CreateClass { result, .. } => Some(result),
            OpCode::CreateRegExp { result, .. } => Some(result),
            OpCode::CreateTemplate { result, .. } => Some(result),
            OpCode::CreateTaggedTemplate { result, .. } => Some(result),
            OpCode::CloneObject { obj, result } => Some(result),
            _ => None,
        }
    }

    /// The registers this instruction reads, padded with `Register(255)`.
    pub fn reads_from(&self) -> (r: [Register; 3])
        ensures
            r@ == seq![spec_reads_from(*self).0, spec_reads_from(*self).1, spec_reads_from(*self).2],
    {
        let (a, b, c) = match *self {
            OpCode::Mov { from, to } => (from, Register(255), Register(255)),
            OpCode::Select { a, b, result } => (a, b, Register(255)),
            OpCode::CondSelect { t, a, b, result } => (t, a, b),
            OpCode::JumpIfTrue { value, .. } => (value, Register(255), Register(255)),
            OpCode::JumpIfFalse { value, .. } => (value, Register(255), Register(255)),
            OpCode::BreakIfTrue { value, .. } => (value, Register(255), Register(255)),
            OpCode::BreakIfFalse { value, .. } => (value, Register(255), Register(255)),
            OpCode::Throw { value } => (value, Register(255), Register(255)),
            OpCode::Return { value } => (value, Register(255), Register(255)),
            OpCode::PushArg { value, .. } => (value, Register(255), Register(255)),
            OpCode::PushArgSpread { value, .. } => (value, Register(255), Register(255)),
            OpCode::StoreTempAlloc { value, .. } => (value, Register(255), Register(255)),
            OpCode::StoreTemp { value } => (value, Register(255), Register(255)),
            OpCode::DeclareDynamicVar { from, .. } => (from, Register(255), Register(255)),
            OpCode::WriteDynamicVar { from, .. } => (from, Register(255), Register(255)),
            OpCode::WriteCapturedVar { from, .. } => (from, Register(255), Register(255)),
            OpCode::WriteToStack { from, .. } => (from, Register(255), Register(255)),
            OpCode::Call { result, this, callee, .. } => (this, callee, Register(255)),
            OpCode::CallOptChain { result, this, callee, .. } => (this, callee, Register(255)),
            OpCode::New { result, callee, .. } => (callee, Register(255), Register(255)),
            OpCode::IntoIter { target, .. } => (target, Register(255), Register(255)),
            OpCode::Add { result, left, right } => (left, right, Register(255)),
            OpCode::Sub { result, left, right } => (left, right, Register(255)),
            OpCode::Mul { result, left, right } => (left, right, Register(255)),
            OpCode::Div { result, left, right } => (left, right, Register(255)),
            OpCode::Exp { result, left, right } => (left, right, Register(255)),
            OpCode::LShift { result, left, right } => (left, right, Register(255)),
            OpCode::RShift { result, left, right } => (left, right, Register(255)),
            OpCode::ZeroFillRShift { result, left, right } => (left, right, Register(255)),
            OpCode::Rem { result, left, right } => (left, right, Register(255)),
            OpCode::And { result, left, right } => (left, right, Register(255)),
            OpCode::Or { result, left, right } => (left, right, Register(255)),
            OpCode::BitAnd { result, left, right } => (left, right, Register(255)),
            OpCode::BitOr { result, left, right } => (left, right, Register(255)),
            OpCode::BitXor { result, left, right } => (left, right, Register(255)),
            OpCode::Nullish { result, left, right } => (left, right, Register(255)),
            OpCode::EqEq { result, left, right } => (left, right, Register(255)),
            OpCode::EqEqEq { result, left, right } => (left, right, Register(255)),
            OpCode::NotEq { result, left, right } => (left, right, Register(255)),
            OpCode::NotEqEq { result, left, right } => (left, right, Register(255)),
            OpCode::Gt { result, left, right } => (left, right, Register(255)),
            OpCode::GtEq { result, left, right } => (left, right, Register(255)),
            OpCode::Lt { result, left, right } => (left, right, Register(255)),
            OpCode::LtEq { result, left, right } => (left, right, Register(255)),
            OpCode::In { result, left, right } => (left, right, Register(255)),
            OpCode::InstanceOf { result, left, right } => (left, right, Register(255)),
            OpCode::Await { result, future } => (future, Register(255), Register(255)),
            OpCode::Yield { result, arg } => (arg, Register(255), Register(255)),
            OpCode::Not { result, right } => (right, Register(255), Register(255)),
            OpCode::BitNot { result, right } => (right, Register(255), Register(255)),
            OpCode::Minus { result, right } => (right, Register(255), Register(255)),
            OpCode::Plus { result, right } => (right, Register(255), Register(255)),
            OpCode::PrivateIn { result, right, .. } => (right, Register(255), Register(255)),
            OpCode::TypeOf { result, right } => (right, Register(255), Register(255)),
            OpCode::WriteField { obj, field, value, .. } => (obj, field, value),
            OpCode::ReadField { obj, field, result, .. } => (obj, field, Register(255)),
            OpCode::ReadFieldOptChain { obj, field, result, .. } => (obj, field, Register(255)),
            OpCode::WriteFieldOptChain { obj, field, from, .. } => (obj, field, from),
            OpCode::WriteFieldStatic { obj_value, .. } => (obj_value.target(), obj_value.value(), Register(255)),
            OpCode::ReadFieldStatic { obj_result, .. } => (obj_result.target(), Register(255), Register(255)),
            OpCode::ReadFieldStaticOptChain { obj_result, .. } => (obj_result.target(), Register(255), Register(255)),
            OpCode::RemoveFieldStatic { obj, .. } => (obj, Register(255), Register(255)),
            OpCode::BindSetter { obj, setter, .. } => (obj, setter, Register(255)),
            OpCode::BindGetter { obj, getter, .. } => (obj, getter, Register(255)),
            OpCode::ExtendObject { obj, from } => (obj, from, Register(255)),
            OpCode::ReadSuperField { constructor_result, field, .. } => (constructor_result.target(), field, Register(255)),
            OpCode::ReadSuperFieldStatic { constructor_result, .. } => (constructor_result.target(), Register(255), Register(255)),
            OpCode::WriteSuperField { constructor_value, field, .. } => (constructor_value.target(), constructor_value.value(), field),
            OpCode::WriteSuperFieldStatic { constructor_value, .. } => (constructor_value.target(), constructor_value.value(), Register(255)),
            OpCode::SetThis { value } => (value, Register(255), Register(255)),
            OpCode::CreateArrow { result, this, .. } => (this, Register(255), Register(255)),
            OpCode::ClassBindSuper { class, super_ } => (class, super_, Register(255)),
            OpCode::CloneObject { obj, result } => (obj, Register(255), Register(255)),
            _ => (Register(255), Register(255), Register(255)),
        };
        [a, b, c]
    }
}

/// A compact register is determined by the two registers it encodes, so
/// splitting one into its pair and rebuilding it gives it back.
pub proof fn lemma_compact_register_roundtrip(c: CompactRegister, d: CompactRegister)
    ensures
        d.target_index() == c.target_index() && d.value_index() == c.value_index() ==> d == c,
{
}

} // verus!
