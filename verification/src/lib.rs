//! Execution core of a small scripting-language engine: a bytecode
//! compiler that lowers expressions to a compact instruction stream, and a
//! virtual machine that executes that stream against a value stack split
//! into per-invocation register windows.
//!
//! The number model is exact: numbers are integers within the safe range,
//! and results only floating point could hold surface as range errors
//! instead of silently losing precision. Arbitrary-precision integers and
//! strings are exact at any size.

pub mod ast;
pub mod bigint;
pub mod codec;
pub mod compiler;
pub mod error;
pub mod object;
pub mod opcode;
pub mod ops;
pub mod promise;
pub mod register;
pub mod string;
pub mod typed_array;
pub mod value;
pub mod vm;
