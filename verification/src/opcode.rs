//! The opcode byte table: the numeric tag of each recognized instruction.

use vstd::prelude::*;

verus! {

/// A recognized opcode byte, before its immediates are decoded.
#[derive(Debug, Clone, Copy, PartialEq, Eq, Structural)]
pub enum Opcode {
    End,
    LocalGet,
    LocalSet,
    I32Store,
    I32Const,
    I32Add,
    Call,
}

impl Opcode {
    /// The opcode byte mapping, as a mathematical function.
    pub open spec fn spec_from_u8(code: u8) -> Option<Opcode> {
        if code == 0x0b {
            Some(Opcode::End)
        } else if code == 0x10 {
            Some(Opcode::Call)
        } else if code == 0x20 {
            Some(Opcode::LocalGet)
        } else if code == 0x21 {
            Some(Opcode::LocalSet)
        } else if code == 0x36 {
            Some(Opcode::I32Store)
        } else if code == 0x41 {
            Some(Opcode::I32Const)
        } else if code == 0x6a {
            Some(Opcode::I32Add)
        } else {
            None
        }
    }

    /// Decodes an opcode byte; an unlisted byte is unrecognized and fatal
    /// to the decode.
    pub fn from_u8(code: u8) -> (r: Option<Opcode>)
        ensures
            r == Opcode::spec_from_u8(code),
    {
        match code {
            0x0b => Some(Opcode::End),
            0x10 => Some(Opcode::Call),
            0x20 => Some(Opcode::LocalGet),
            0x21 => Some(Opcode::LocalSet),
            0x36 => Some(Opcode::I32Store),
            0x41 => Some(Opcode::I32Const),
            0x6a => Some(Opcode::I32Add),
            _ => None,
        }
    }
}

} // verus!
