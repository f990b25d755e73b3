//! Core data structures and compiler passes of a bytecode-based JavaScript
//! engine: the register-machine instruction set, the optimisation passes
//! that run over a function's bytecode, the scope context that resolves
//! variables while bytecode is generated, and the small builtin value
//! helpers (property flags, regular-expression flags, strings, symbols).

pub mod value;
pub mod ids;
pub mod bytecodes;
pub mod optimize;
pub mod inlining;
pub mod function_builder_context;
pub mod bultins;
pub mod error;
pub mod ast;
pub mod code_table;
pub mod bytecode_builder;
pub mod baseline;
pub mod debug;
pub mod text;
mod shared;
