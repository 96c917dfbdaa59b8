//! A small bytecode pipeline: a tagged value model, a closed instruction
//! set with a fixed byte encoding, a compiler that lowers an expression
//! and statement tree to an instruction sequence with a deduplicated
//! constant pool, a printable-symbol serialization of the byte stream,
//! and a stack-based virtual machine that executes the bytes.

pub mod compiler;
pub mod emoji;
pub mod lox_type;
pub mod numeric;
pub mod syntax;
pub mod vm;

use vstd::prelude::*;

verus! {

} // verus!
