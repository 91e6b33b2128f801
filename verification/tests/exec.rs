//! Execution-engine tests: arithmetic, locals, call resolution by name
//! and by index, the host import bridge, and every runtime-error kind.

use tinywasm::error::RuntimeError;
use tinywasm::instruction::{Instruction, MemArg};
use tinywasm::module::{Function, Module};
use tinywasm::runtime::{ImportResolver, Runtime};
use tinywasm::store::{ImportDecl, Store};
use tinywasm::types::{Export, ExportDesc, FuncType, ValueType};
use tinywasm::value::Value;

/// A host bridge with no functions registered: every import call fails.
struct NoImports;

impl ImportResolver for NoImports {
    fn call_import(
        &mut self,
        _store: &mut Store,
        _module_name: &String,
        _field_name: &String,
        _args: Vec<Value>,
    ) -> Result<Option<Value>, RuntimeError> {
        Err(RuntimeError::UnknownImport)
    }

    fn write_memory(
        &mut self,
        _store: &mut Store,
        _addr: i32,
        _value: i32,
        _memarg: MemArg,
    ) -> Result<(), RuntimeError> {
        Err(RuntimeError::UnknownImport)
    }
}

/// A host bridge that records what it was called with and answers with a
/// fixed optional value.
struct RecordingHost {
    seen_module: String,
    seen_field: String,
    seen_args: Vec<Value>,
    seen_writes: Vec<(i32, i32, u32, u32)>,
    answer: Option<Value>,
}

impl RecordingHost {
    fn new(answer: Option<Value>) -> RecordingHost {
        RecordingHost {
            seen_module: String::new(),
            seen_field: String::new(),
            seen_args: vec![],
            seen_writes: vec![],
            answer,
        }
    }
}

impl ImportResolver for RecordingHost {
    fn call_import(
        &mut self,
        _store: &mut Store,
        module_name: &String,
        field_name: &String,
        args: Vec<Value>,
    ) -> Result<Option<Value>, RuntimeError> {
        self.seen_module = module_name.clone();
        self.seen_field = field_name.clone();
        self.seen_args = args;
        Ok(self.answer)
    }

    fn write_memory(
        &mut self,
        _store: &mut Store,
        addr: i32,
        value: i32,
        memarg: MemArg,
    ) -> Result<(), RuntimeError> {
        self.seen_writes.push((addr, value, memarg.align, memarg.offset));
        Ok(())
    }
}

fn add_module() -> Module {
    let wasm = wat::parse_str(
        "(module (func (param i32 i32) (result i32) local.get 0 local.get 1 i32.add))",
    )
    .unwrap();
    Module::new(&wasm).unwrap()
}

fn runtime_for(module: &Module, exports: Vec<Export>) -> Runtime<NoImports> {
    let store = Store::build(module, vec![]).unwrap();
    Runtime::new(store, NoImports, exports)
}

fn add_exports() -> Vec<Export> {
    vec![Export { name: "add".to_string(), desc: ExportDesc::Func(0) }]
}

#[test]
fn call_add_returns_sum() {
    let module = add_module();
    let mut rt = runtime_for(&module, add_exports());
    let r = rt.call("add", vec![Value::I32(2), Value::I32(3)]).unwrap();
    assert_eq!(r, Some(Value::I32(5)));
}

#[test]
fn i32_add_wraps_on_overflow() {
    let wasm = wat::parse_str("(module (func (result i32) i32.const 2147483647 i32.const 1 i32.add))")
        .unwrap();
    let module = Module::new(&wasm).unwrap();
    let mut rt = runtime_for(&module, add_exports());
    let r = rt.call_by_index(0, vec![]).unwrap();
    assert_eq!(r, Some(Value::I32(i32::MIN)));
}

#[test]
fn i32_add_const_pairs() {
    for (a, b) in [(0i32, 0i32), (-5, 12), (i32::MIN, -1), (250, -250)] {
        let text = format!(
            "(module (func (result i32) i32.const {} i32.const {} i32.add))",
            a, b
        );
        let wasm = wat::parse_str(&text).unwrap();
        let module = Module::new(&wasm).unwrap();
        let mut rt = runtime_for(&module, vec![]);
        let r = rt.call_by_index(0, vec![]).unwrap();
        assert_eq!(r, Some(Value::I32(a.wrapping_add(b))));
    }
}

#[test]
fn locals_are_zero_initialized_and_settable() {
    let wasm = wat::parse_str(
        "(module (func (result i64) (local i64) local.get 0))",
    )
    .unwrap();
    let module = Module::new(&wasm).unwrap();
    let mut rt = runtime_for(&module, vec![]);
    let r = rt.call_by_index(0, vec![]).unwrap();
    assert_eq!(r, Some(Value::I64(0)));

    let wasm2 = wat::parse_str(
        "(module (func (result i32) (local i32) i32.const 5 local.set 0 local.get 0))",
    )
    .unwrap();
    let module2 = Module::new(&wasm2).unwrap();
    let mut rt2 = runtime_for(&module2, vec![]);
    let r2 = rt2.call_by_index(0, vec![]).unwrap();
    assert_eq!(r2, Some(Value::I32(5)));
}

#[test]
fn unknown_export_name_fails() {
    let module = add_module();
    let mut rt = runtime_for(&module, add_exports());
    let r = rt.call("missing", vec![Value::I32(1), Value::I32(2)]);
    assert_eq!(r, Err(RuntimeError::UnknownImport));
}

#[test]
fn out_of_range_index_fails() {
    let module = add_module();
    let mut rt = runtime_for(&module, add_exports());
    let r = rt.call_by_index(7, vec![]);
    assert_eq!(r, Err(RuntimeError::OutOfRange));
}

#[test]
fn wrong_argument_types_fail() {
    let module = add_module();
    let mut rt = runtime_for(&module, add_exports());
    let r = rt.call("add", vec![Value::I32(2), Value::I64(3)]);
    assert_eq!(r, Err(RuntimeError::TypeMismatch));
    let r2 = rt.call("add", vec![Value::I32(2)]);
    assert_eq!(r2, Err(RuntimeError::TypeMismatch));
}

#[test]
fn stack_underflow_is_fatal() {
    // A body that adds with an empty operand stack.
    let module = Module {
        type_section: Some(vec![FuncType { params: vec![], results: vec![] }]),
        function_section: Some(vec![0]),
        code_section: Some(vec![Function {
            locals: vec![],
            code: vec![Instruction::I32Add, Instruction::End],
        }]),
        ..Default::default()
    };
    let mut rt = runtime_for(&module, vec![]);
    let r = rt.call_by_index(0, vec![]);
    assert_eq!(r, Err(RuntimeError::StackUnderflow));
}

#[test]
fn add_type_mismatch_is_fatal() {
    assert_eq!(
        Value::I32(1).add(Value::I64(2)),
        Err(RuntimeError::TypeMismatch)
    );
    assert_eq!(Value::I32(1).add(Value::I32(2)), Ok(Value::I32(3)));
    assert_eq!(
        Value::I64(i64::MAX).add(Value::I64(1)),
        Ok(Value::I64(i64::MIN))
    );
}

#[test]
fn store_build_rejects_bad_type_index() {
    let module = Module {
        type_section: Some(vec![FuncType::default()]),
        function_section: Some(vec![3]),
        code_section: Some(vec![Function { locals: vec![], code: vec![Instruction::End] }]),
        ..Default::default()
    };
    assert_eq!(
        Store::build(&module, vec![]).err(),
        Some(RuntimeError::OutOfRange)
    );
}

#[test]
fn store_build_rejects_section_length_mismatch() {
    let module = Module {
        type_section: Some(vec![FuncType::default()]),
        function_section: Some(vec![0, 0]),
        code_section: Some(vec![Function { locals: vec![], code: vec![Instruction::End] }]),
        ..Default::default()
    };
    assert_eq!(
        Store::build(&module, vec![]).err(),
        Some(RuntimeError::OutOfRange)
    );
}

#[test]
fn import_call_forwards_args_and_pushes_result() {
    // Index 0 is the import; index 1 is an internal function that loads
    // its parameter and calls the import with it.
    let module = Module {
        type_section: Some(vec![FuncType {
            params: vec![ValueType::I32],
            results: vec![ValueType::I32],
        }]),
        function_section: Some(vec![0]),
        code_section: Some(vec![Function {
            locals: vec![],
            code: vec![
                Instruction::LocalGet(0),
                Instruction::Call(0),
                Instruction::End,
            ],
        }]),
        ..Default::default()
    };
    let decl = ImportDecl {
        module_name: "env".to_string(),
        field_name: "echo".to_string(),
        func_type: FuncType { params: vec![ValueType::I32], results: vec![ValueType::I32] },
    };
    let store = Store::build(&module, vec![decl]).unwrap();
    let host = RecordingHost::new(Some(Value::I32(42)));
    let mut rt = Runtime::new(store, host, vec![]);
    let r = rt.call_by_index(1, vec![Value::I32(7)]).unwrap();
    assert_eq!(r, Some(Value::I32(42)));
    assert_eq!(rt.imports.seen_module, "env");
    assert_eq!(rt.imports.seen_field, "echo");
    assert_eq!(rt.imports.seen_args, vec![Value::I32(7)]);
}

#[test]
fn import_returning_nothing_pushes_nothing() {
    let module = Module {
        type_section: Some(vec![FuncType { params: vec![], results: vec![] }]),
        function_section: Some(vec![0]),
        code_section: Some(vec![Function {
            locals: vec![],
            code: vec![Instruction::Call(0), Instruction::End],
        }]),
        ..Default::default()
    };
    let decl = ImportDecl {
        module_name: "env".to_string(),
        field_name: "ping".to_string(),
        func_type: FuncType { params: vec![], results: vec![] },
    };
    let store = Store::build(&module, vec![decl]).unwrap();
    let host = RecordingHost::new(None);
    let mut rt = Runtime::new(store, host, vec![]);
    let r = rt.call_by_index(1, vec![]).unwrap();
    assert_eq!(r, None);
    assert_eq!(rt.imports.seen_field, "ping");
    assert_eq!(rt.imports.seen_args, vec![]);
}

#[test]
fn unresolved_import_call_fails() {
    let module = Module {
        type_section: Some(vec![FuncType { params: vec![], results: vec![] }]),
        function_section: Some(vec![0]),
        code_section: Some(vec![Function {
            locals: vec![],
            code: vec![Instruction::Call(0), Instruction::End],
        }]),
        ..Default::default()
    };
    let decl = ImportDecl {
        module_name: "env".to_string(),
        field_name: "absent".to_string(),
        func_type: FuncType { params: vec![], results: vec![] },
    };
    let store = Store::build(&module, vec![decl]).unwrap();
    let mut rt = Runtime::new(store, NoImports, vec![]);
    let r = rt.call_by_index(1, vec![]);
    assert_eq!(r, Err(RuntimeError::UnknownImport));
}

#[test]
fn store_write_goes_through_host() {
    let module = Module {
        type_section: Some(vec![FuncType { params: vec![], results: vec![] }]),
        function_section: Some(vec![0]),
        code_section: Some(vec![Function {
            locals: vec![],
            code: vec![
                Instruction::I32Const(16),
                Instruction::I32Const(99),
                Instruction::I32Store(MemArg { align: 2, offset: 4 }),
                Instruction::End,
            ],
        }]),
        ..Default::default()
    };
    let store = Store::build(&module, vec![]).unwrap();
    let host = RecordingHost::new(None);
    let mut rt = Runtime::new(store, host, vec![]);
    let r = rt.call_by_index(0, vec![]).unwrap();
    assert_eq!(r, None);
    assert_eq!(rt.imports.seen_writes, vec![(16, 99, 2, 4)]);
}

#[test]
fn nested_internal_call() {
    // Function 1 calls function 0 with constants and returns its result.
    let wasm = wat::parse_str(
        "(module
           (func (param i32 i32) (result i32) local.get 0 local.get 1 i32.add)
           (func (result i32) i32.const 20 i32.const 22 call 0))",
    )
    .unwrap();
    let module = Module::new(&wasm).unwrap();
    let mut rt = runtime_for(&module, vec![]);
    let r = rt.call_by_index(1, vec![]).unwrap();
    assert_eq!(r, Some(Value::I32(42)));
}

#[test]
fn local_set_type_mismatch_is_fatal() {
    let module = Module {
        type_section: Some(vec![FuncType { params: vec![ValueType::I64], results: vec![] }]),
        function_section: Some(vec![0]),
        code_section: Some(vec![Function {
            locals: vec![tinywasm::types::FunctionLocal {
                type_count: 1,
                value_type: ValueType::I32,
            }],
            code: vec![
                Instruction::LocalGet(0),
                Instruction::LocalSet(1),
                Instruction::End,
            ],
        }]),
        ..Default::default()
    };
    let mut rt = runtime_for(&module, vec![]);
    let r = rt.call_by_index(0, vec![Value::I64(5)]);
    assert_eq!(r, Err(RuntimeError::TypeMismatch));
}

#[test]
fn local_get_out_of_range_is_fatal() {
    let module = Module {
        type_section: Some(vec![FuncType { params: vec![], results: vec![] }]),
        function_section: Some(vec![0]),
        code_section: Some(vec![Function {
            locals: vec![],
            code: vec![Instruction::LocalGet(3), Instruction::End],
        }]),
        ..Default::default()
    };
    let mut rt = runtime_for(&module, vec![]);
    let r = rt.call_by_index(0, vec![]);
    assert_eq!(r, Err(RuntimeError::OutOfRange));
}
