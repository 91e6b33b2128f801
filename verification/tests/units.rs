//! Unit tests for the byte tables and the value model.

use tinywasm::error::RuntimeError;
use tinywasm::instruction::MemArg;
use tinywasm::module::{Function, Module};
use tinywasm::opcode::Opcode;
use tinywasm::runtime::{ImportResolver, Runtime};
use tinywasm::store::Store;
use tinywasm::types::{FuncType, ValueType};
use tinywasm::value::Value;

#[test]
fn value_type_byte_table() {
    assert_eq!(ValueType::from_u8(0x7f), Some(ValueType::I32));
    assert_eq!(ValueType::from_u8(0x7e), Some(ValueType::I64));
    assert_eq!(ValueType::from_u8(0x7d), None);
    assert_eq!(ValueType::from_u8(0x00), None);
}

#[test]
fn opcode_byte_table() {
    assert_eq!(Opcode::from_u8(0x0b), Some(Opcode::End));
    assert_eq!(Opcode::from_u8(0x10), Some(Opcode::Call));
    assert_eq!(Opcode::from_u8(0x20), Some(Opcode::LocalGet));
    assert_eq!(Opcode::from_u8(0x21), Some(Opcode::LocalSet));
    assert_eq!(Opcode::from_u8(0x36), Some(Opcode::I32Store));
    assert_eq!(Opcode::from_u8(0x41), Some(Opcode::I32Const));
    assert_eq!(Opcode::from_u8(0x6a), Some(Opcode::I32Add));
    assert_eq!(Opcode::from_u8(0x00), None);
}

#[test]
fn value_from_integers() {
    assert_eq!(Value::from(3i32), Value::I32(3));
    assert_eq!(Value::from(-9i64), Value::I64(-9));
    assert_eq!(Value::I32(-1).ty(), ValueType::I32);
    assert_eq!(Value::I64(0).ty(), ValueType::I64);
}

/// A host whose import always reports its own failure.
struct FailingHost;

impl ImportResolver for FailingHost {
    fn call_import(
        &mut self,
        _store: &mut Store,
        _module_name: &String,
        _field_name: &String,
        _args: Vec<Value>,
    ) -> Result<Option<Value>, RuntimeError> {
        Err(RuntimeError::HostFailure)
    }

    fn write_memory(
        &mut self,
        _store: &mut Store,
        _addr: i32,
        _value: i32,
        _memarg: MemArg,
    ) -> Result<(), RuntimeError> {
        Err(RuntimeError::HostFailure)
    }
}

#[test]
fn host_failure_unwinds_to_caller() {
    let module = Module {
        type_section: Some(vec![FuncType { params: vec![], results: vec![] }]),
        function_section: Some(vec![0]),
        code_section: Some(vec![Function {
            locals: vec![],
            code: vec![
                tinywasm::instruction::Instruction::Call(0),
                tinywasm::instruction::Instruction::End,
            ],
        }]),
        ..Default::default()
    };
    let decl = tinywasm::store::ImportDecl {
        module_name: "env".to_string(),
        field_name: "boom".to_string(),
        func_type: FuncType { params: vec![], results: vec![] },
    };
    let store = Store::build(&module, vec![decl]).unwrap();
    let mut rt = Runtime::new(store, FailingHost, vec![]);
    assert_eq!(rt.call_by_index(1, vec![]), Err(RuntimeError::HostFailure));
}
