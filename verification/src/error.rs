//! Error kinds. A decode failure is always a [`FormatError`]; an execution
//! failure is a [`RuntimeError`]. Neither is ever recovered from: every
//! error unwinds to the caller of `decode` or of `call`.

use vstd::prelude::*;

verus! {

/// A malformed binary module. Fatal to the decode call that found it.
#[derive(Debug, Clone, Copy, PartialEq, Eq, Structural)]
pub enum FormatError {
    /// The first four bytes are not the `\0asm` magic literal.
    BadMagic,
    /// The version word is not the supported value 1.
    BadVersion,
    /// A variable-length integer is unterminated or overflows its width.
    MalformedVarint,
    /// The input ended before a declared region was complete.
    UnexpectedEnd,
    /// A section code byte that is not Type, Function or Code.
    UnknownSection(u8),
    /// A value-type byte that is neither `i32` nor `i64`.
    UnknownValueType(u8),
    /// An opcode byte outside the recognized instruction set.
    UnknownOpcode(u8),
}

/// A failed execution step. Fatal to the in-flight call.
#[derive(Debug, Clone, Copy, PartialEq, Eq, Structural)]
pub enum RuntimeError {
    /// An operand's type disagrees with what the instruction expects.
    TypeMismatch,
    /// An invalid function, type or local index.
    OutOfRange,
    /// An instruction needed more operands than the stack holds.
    StackUnderflow,
    /// Call resolution found no function under the given name.
    UnknownImport,
    /// A host import reported a failure of its own.
    HostFailure,
}

} // verus!
