//! The builtin value kinds of the engine.

pub mod bigint;
pub mod function;
pub mod generator;
pub mod object;
pub mod object_property;
pub mod promise;
pub mod prop;
pub mod regex;
pub mod strings;
pub mod symbol;
pub mod typed_array;
