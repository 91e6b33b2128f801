//! The decoded instruction set: a closed enumeration, each variant either
//! bare or carrying its decoded immediates.

use vstd::prelude::*;

verus! {

/// The alignment hint and byte offset carried by a memory-access
/// instruction.
#[derive(Debug, Clone, Copy, PartialEq, Eq, Structural)]
pub struct MemArg {
    pub align: u32,
    pub offset: u32,
}

/// One decoded instruction. A function body is a flat ordered sequence of
/// these, terminated by `End`.
#[derive(Debug, Clone, Copy, PartialEq, Eq, Structural)]
pub enum Instruction {
    /// Terminates the current function body.
    End,
    /// Pushes a copy of frame local `i`.
    LocalGet(u32),
    /// Pops the top value into frame local `i`.
    LocalSet(u32),
    /// Pops a value and an address and writes through linear memory.
    I32Store(MemArg),
    /// Pushes the immediate as an `I32`.
    I32Const(i32),
    /// Pops two `I32` operands and pushes their wrapping sum.
    I32Add,
    /// Calls the function at the given index in the function index space.
    Call(u32),
}

} // verus!
