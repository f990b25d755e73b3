use vstd::prelude::*;

use crate::function_builder_context::VarName;

verus! {

/// A binary operator.
#[derive(Debug, Clone, Copy, PartialEq, Eq, Structural)]
pub enum BinaryOp {
    Add,
    BitAnd,
    BitOr,
    BitXor,
    Div,
    EqEq,
    EqEqEq,
    Exp,
    Gt,
    GtEq,
    In,
    InstanceOf,
    LShift,
    LogicalAnd,
    LogicalOr,
    Lt,
    LtEq,
    Mod,
    Mul,
    NotEq,
    NotEqEq,
    NullishCoalescing,
    RShift,
    Sub,
    ZeroFillRShift,
}

/// A unary operator.
#[derive(Debug, Clone, Copy, PartialEq, Eq, Structural)]
pub enum UnaryOp {
    Bang,
    Delete,
    Minus,
    Plus,
    Tilde,
    TypeOf,
    Void,
}

/// An increment or a decrement.
#[derive(Debug, Clone, Copy, PartialEq, Eq, Structural)]
pub enum UpdateOp {
    PlusPlus,
    MinusMinus,
}

/// A meta property.
#[derive(Debug, Clone, Copy, PartialEq, Eq, Structural)]
pub enum MetaPropKind {
    /// `new.target`
    NewTarget,
    /// `import.meta`
    ImportMeta,
}

/// An argument of a call, spread (`...expr`) or not.
#[derive(Debug)]
pub struct ExprOrSpread {
    pub spread: bool,
    pub expr: Expr,
}

/// An expression of the syntax tree.
#[derive(Debug)]
pub enum Expr {
    This,
    Ident(VarName),
    /// A boolean literal.
    Bool(bool),
    /// The `null` literal.
    Null,
    /// A range of the source that the parser could not read as an
    /// expression.
    Invalid { lo: u32, hi: u32 },
    Paren(Box<Expr>),
    /// A comma-separated sequence; its value is the last one's.
    Comma(Vec<Expr>),
    Unary(UnaryOp, Box<Expr>),
    Bin(BinaryOp, Box<Expr>, Box<Expr>),
    /// `test ? cons : alt`
    Cond(Box<Expr>, Box<Expr>, Box<Expr>),
    /// `target = value`
    Assign(Box<Pat>, Box<Expr>),
    /// `await arg`
    Await(Box<Expr>),
    /// `yield arg`, or `yield` alone; `yield*` is not compiled.
    Yield(Option<Box<Expr>>),
    MetaProp(MetaPropKind),
    /// `obj[prop]`, the property computed.
    Member(Box<Expr>, Box<Expr>),
    /// `callee(args)`
    Call(Box<Expr>, Vec<ExprOrSpread>),
    /// `new callee(args)`, or `new callee` without an argument list.
    New(Box<Expr>, Option<Vec<ExprOrSpread>>),
    /// `++arg` or `--arg` when the flag (prefix) is set, else `arg++` or
    /// `arg--`.
    Update(UpdateOp, bool, Box<Expr>),
    /// A string literal.
    Str(String),
    /// `obj.name`, the property named in the source.
    Dot(Box<Expr>, String),
    /// A function expression.
    Fn(Function),
    /// An arrow function expression; it keeps the `this` of where it is
    /// created.
    Arrow(ArrowFunction),
    /// A class expression.
    Class(Class),
}

/// A binding pattern.
#[derive(Debug)]
pub enum Pat {
    Ident(VarName),
    /// A pattern with a default value, used where the value is undefined.
    Assign(Box<Pat>, Box<Expr>),
}

/// The kind of a variable declaration.
#[derive(Debug, Clone, Copy, PartialEq, Eq, Structural)]
pub enum VarDeclKind {
    Var,
    Let,
    Const,
}

/// A function: its parameters, its body (absent for a declaration without
/// one) and its kind.
#[derive(Debug)]
pub struct Function {
    pub params: Vec<Pat>,
    pub body: Option<Vec<Stmt>>,
    pub is_async: bool,
    pub is_generator: bool,
}

/// What a class method is.
#[derive(Debug, Clone, Copy, PartialEq, Eq, Structural)]
pub enum MethodKind {
    Method,
    Getter,
    Setter,
}

/// The body of an arrow function: statements, or an expression whose
/// value it returns.
#[derive(Debug)]
pub enum ArrowBody {
    Block(Vec<Stmt>),
    Expr(Box<Expr>),
}

/// An arrow function.
#[derive(Debug)]
pub struct ArrowFunction {
    pub params: Vec<Pat>,
    pub body: ArrowBody,
    pub is_async: bool,
    pub is_generator: bool,
}

/// A member of a class body. A member's name is its text; a private name
/// keeps its `#`.
#[derive(Debug)]
pub enum ClassMember {
    Constructor(Function),
    Method { name: String, kind: MethodKind, is_static: bool, function: Function },
    /// A property, with its initial value if it has one.
    Prop { name: String, is_static: bool, value: Option<Expr> },
    /// `static { ... }`
    StaticBlock(Vec<Stmt>),
    Empty,
}

/// A class: the class it extends, if any, and its members.
#[derive(Debug)]
pub struct Class {
    pub super_class: Option<Box<Expr>>,
    pub body: Vec<ClassMember>,
}

/// A case of a `switch` statement: its test (none for `default`) and its
/// statements.
#[derive(Debug)]
pub struct SwitchCase {
    pub test: Option<Expr>,
    pub cons: Vec<Stmt>,
}

/// A statement of the syntax tree.
#[derive(Debug)]
pub enum Stmt {
    Block(Vec<Stmt>),
    Break(Option<String>),
    Continue(Option<String>),
    Debugger,
    Empty,
    Expr(Box<Expr>),
    /// `do body while (test)`
    DoWhile(Box<Stmt>, Box<Expr>),
    /// `while (test) body`
    While(Box<Expr>, Box<Stmt>),
    /// `if (test) cons else alt`
    If(Box<Expr>, Box<Stmt>, Option<Box<Stmt>>),
    Labeled(String, Box<Stmt>),
    Return(Option<Box<Expr>>),
    Throw(Box<Expr>),
    /// A declaration of variables, each a pattern with an optional
    /// initial value.
    Var(VarDeclKind, Vec<(Pat, Option<Expr>)>),
    /// `function name(...) { ... }`
    FnDecl(VarName, Function),
    /// `class name { ... }`
    ClassDecl(VarName, Class),
    /// `switch (value) { cases }`
    Switch(Box<Expr>, Vec<SwitchCase>),
}

impl Expr {
    /// Whether the expression is a literal.
    pub open spec fn is_lit(&self) -> bool {
        self is Bool || self is Null || self is Str
    }

    /// Whether the expression is a literal.
    pub fn is_literal(&self) -> (r: bool)
        ensures
            r == self.is_lit(),
    {
        match self {
            Expr::Bool(_) | Expr::Null | Expr::Str(_) => true,
            _ => false,
        }
    }
}

} // verus!
