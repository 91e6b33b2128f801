//! The type model of the decoded module: value types, function signatures,
//! run-length-encoded local declarations, and export descriptors.

use vstd::prelude::*;

verus! {

/// A WebAssembly value type. Only the two integer widths are supported.
#[derive(Debug, Clone, Copy, PartialEq, Eq, Structural)]
pub enum ValueType {
    I32,
    I64,
}

impl ValueType {
    /// Decodes a value-type byte: `0x7f` is `I32`, `0x7e` is `I64`,
    /// anything else is unrecognized and fatal to the decode.
    pub fn from_u8(value: u8) -> (r: Option<ValueType>)
        ensures
            r == ValueType::spec_from_u8(value),
    {
        match value {
            0x7f => Some(ValueType::I32),
            0x7e => Some(ValueType::I64),
            _ => None,
        }
    }

    /// The value-type byte mapping, as a mathematical function.
    pub open spec fn spec_from_u8(value: u8) -> Option<ValueType> {
        if value == 0x7f {
            Some(ValueType::I32)
        } else if value == 0x7e {
            Some(ValueType::I64)
        } else {
            None
        }
    }
}

/// A function signature: ordered parameter types and ordered result types.
/// Equality is structural.
#[derive(Debug, Clone, PartialEq, Eq)]
pub struct FuncType {
    pub params: Vec<ValueType>,
    pub results: Vec<ValueType>,
}

/// The mathematical model of a [`FuncType`].
#[verifier::ext_equal]
pub ghost struct FuncTypeV {
    pub params: Seq<ValueType>,
    pub results: Seq<ValueType>,
}

impl View for FuncType {
    type V = FuncTypeV;

    open spec fn view(&self) -> FuncTypeV {
        FuncTypeV { params: self.params@, results: self.results@ }
    }
}

impl Default for FuncType {
    /// The empty signature `() -> ()`.
    fn default() -> (r: Self)
        ensures
            r@.params =~= Seq::<ValueType>::empty(),
            r@.results =~= Seq::<ValueType>::empty(),
    {
        FuncType { params: Vec::new(), results: Vec::new() }
    }
}

/// One run-length-encoded group of local declarations: `value_type`,
/// repeated `type_count` times.
#[derive(Debug, Clone, Copy, PartialEq, Eq, Structural)]
pub struct FunctionLocal {
    pub type_count: u32,
    pub value_type: ValueType,
}

/// What an export points at; only function exports are modelled.
#[derive(Debug, Clone, Copy, PartialEq, Eq, Structural)]
pub enum ExportDesc {
    Func(u32),
}

/// A named export: the name the embedder calls, and the function index
/// it resolves to.
#[derive(Debug, Clone, PartialEq, Eq)]
pub struct Export {
    pub name: String,
    pub desc: ExportDesc,
}

/// The mathematical model of an [`Export`].
#[verifier::ext_equal]
pub ghost struct ExportV {
    pub name: Seq<char>,
    pub desc: ExportDesc,
}

impl View for Export {
    type V = ExportV;

    open spec fn view(&self) -> ExportV {
        ExportV { name: self.name@, desc: self.desc }
    }
}

} // verus!
