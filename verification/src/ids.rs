use vstd::prelude::*;

verus! {

/// Identifier of a compiled function registered with the runtime.
#[derive(Clone, Copy, Debug, PartialEq, Eq, Structural, Hash)]
pub struct FuncID(pub u32);

/// Identifier of a class definition registered with the runtime.
#[derive(Clone, Copy, Debug, PartialEq, Eq, Structural, Hash)]
pub struct ClassID(pub u32);

/// Identifier of a constant (float or bigint literal) in the constant pool.
#[derive(Clone, Copy, Debug, PartialEq, Eq, Structural, Hash)]
pub struct ConstID(pub u32);

/// Identifier of a regular-expression literal.
#[derive(Clone, Copy, Debug, PartialEq, Eq, Structural, Hash)]
pub struct RegexID(pub u32);

/// Identifier of an interned string literal.
#[derive(Clone, Copy, Debug, PartialEq, Eq, Structural, Hash)]
pub struct StringID(pub u32);

/// Identifier of a template literal.
#[derive(Clone, Copy, Debug, PartialEq, Eq, Structural, Hash)]
pub struct TemplateID(pub u32);

/// Identifier of a pending asynchronous task.
#[derive(Clone, Copy, Debug, PartialEq, Eq, Structural, Hash)]
pub struct AsyncId(pub u32);

} // verus!
