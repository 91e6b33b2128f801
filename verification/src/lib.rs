//! A minimal WebAssembly runtime: a verified decoder for the binary
//! module format and a verified stack machine that executes the decoded
//! bytecode, with a narrow host-call surface for WASI-style imports.
//!
//! The decoder ([`module`]) is a pure function from bytes to a
//! [`module::Module`], proved equal to a mathematical parse of the byte
//! sequence. The engine ([`runtime`]) drives a small-step machine over a
//! [`store::Store`] built from the decoded module, proved to follow the
//! machine's mathematical transition function wherever that function
//! determines the outcome; host imports are the one seam whose behaviour
//! is the embedder's own.

use vstd::prelude::*;

pub mod error;
pub mod instruction;
pub mod leb128;
pub mod module;
pub mod opcode;
pub mod runtime;
pub mod store;
pub mod types;
pub mod value;

verus! {

} // verus!
