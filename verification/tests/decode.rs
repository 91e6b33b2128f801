//! Decoder tests: the module preamble, the three recognized sections,
//! instruction streams, and every format-error variant.

use tinywasm::error::FormatError;
use tinywasm::instruction::Instruction;
use tinywasm::module::{Function, Module};
use tinywasm::types::{FuncType, FunctionLocal, ValueType};

#[test]
fn decode_simplest_module() {
    let wasm = wat::parse_str("(module)").unwrap();
    let module = Module::new(&wasm).unwrap();
    assert_eq!(module, Module::default());
}

#[test]
fn decode_simplest_func() {
    let wasm = wat::parse_str("(module (func))").unwrap();
    let module = Module::new(&wasm).unwrap();
    assert_eq!(
        module,
        Module {
            type_section: Some(vec![FuncType::default()]),
            function_section: Some(vec![0]),
            code_section: Some(vec![Function {
                locals: vec![],
                code: vec![Instruction::End],
            }]),
            ..Default::default()
        }
    );
}

#[test]
fn decode_func_param() {
    let wasm = wat::parse_str("(module (func (param i32 i64)))").unwrap();
    let module = Module::new(&wasm).unwrap();
    assert_eq!(
        module,
        Module {
            type_section: Some(vec![FuncType {
                params: vec![ValueType::I32, ValueType::I64],
                results: vec![]
            }]),
            function_section: Some(vec![0]),
            code_section: Some(vec![Function {
                locals: vec![],
                code: vec![Instruction::End]
            }]),
            ..Default::default()
        }
    );
}

#[test]
fn decode_func_local() {
    let wasm = wat::parse_str("(module (func (local i32) (local i64 i64)))").unwrap();
    let module = Module::new(&wasm).unwrap();
    assert_eq!(
        module,
        Module {
            type_section: Some(vec![FuncType::default()]),
            function_section: Some(vec![0]),
            code_section: Some(vec![Function {
                locals: vec![
                    FunctionLocal {
                        type_count: 1,
                        value_type: ValueType::I32
                    },
                    FunctionLocal {
                        type_count: 2,
                        value_type: ValueType::I64
                    },
                ],
                code: vec![Instruction::End],
            }]),
            ..Default::default()
        }
    );
}

#[test]
fn decode_func_add() {
    let wasm = wat::parse_str(
        "(module (func (param i32 i32) (result i32) local.get 0 local.get 1 i32.add))",
    )
    .unwrap();
    let module = Module::new(&wasm).unwrap();
    assert_eq!(
        module,
        Module {
            type_section: Some(vec![FuncType {
                params: vec![ValueType::I32, ValueType::I32],
                results: vec![ValueType::I32],
            }]),
            function_section: Some(vec![0]),
            code_section: Some(vec![Function {
                locals: vec![],
                code: vec![
                    Instruction::LocalGet(0),
                    Instruction::LocalGet(1),
                    Instruction::I32Add,
                    Instruction::End
                ],
            }]),
            ..Default::default()
        }
    );
}

#[test]
fn decode_is_deterministic() {
    let wasm = wat::parse_str(
        "(module (func (param i32 i32) (result i32) local.get 0 local.get 1 i32.add))",
    )
    .unwrap();
    let first = Module::new(&wasm).unwrap();
    let second = Module::new(&wasm).unwrap();
    assert_eq!(first, second);
}

#[test]
fn decode_rejects_bad_magic() {
    let bytes = vec![0x00u8, 0x61, 0x73, 0x6e, 0x01, 0x00, 0x00, 0x00];
    assert_eq!(Module::new(&bytes), Err(FormatError::BadMagic));
}

#[test]
fn decode_rejects_short_input() {
    let bytes = vec![0x00u8, 0x61, 0x73];
    assert_eq!(Module::new(&bytes), Err(FormatError::BadMagic));
}

#[test]
fn decode_rejects_bad_version() {
    let bytes = vec![0x00u8, 0x61, 0x73, 0x6d, 0x02, 0x00, 0x00, 0x00];
    assert_eq!(Module::new(&bytes), Err(FormatError::BadVersion));
}

#[test]
fn decode_rejects_unknown_section() {
    // Section code 0x0c with an empty body.
    let bytes = vec![0x00u8, 0x61, 0x73, 0x6d, 0x01, 0x00, 0x00, 0x00, 0x0c, 0x00];
    assert_eq!(Module::new(&bytes), Err(FormatError::UnknownSection(0x0c)));
}

#[test]
fn decode_rejects_unterminated_varint() {
    // Section code 0x01 whose size varint never terminates.
    let bytes = vec![0x00u8, 0x61, 0x73, 0x6d, 0x01, 0x00, 0x00, 0x00, 0x01, 0x80];
    assert_eq!(Module::new(&bytes), Err(FormatError::MalformedVarint));
}

#[test]
fn decode_rejects_overlong_varint() {
    // A six-byte size varint overflows the 32-bit width.
    let bytes = vec![
        0x00u8, 0x61, 0x73, 0x6d, 0x01, 0x00, 0x00, 0x00, 0x01, 0x80, 0x80, 0x80, 0x80, 0x80,
        0x01,
    ];
    assert_eq!(Module::new(&bytes), Err(FormatError::MalformedVarint));
}

#[test]
fn decode_rejects_truncated_section() {
    // Type section claims 5 content bytes but only 1 remains.
    let bytes = vec![0x00u8, 0x61, 0x73, 0x6d, 0x01, 0x00, 0x00, 0x00, 0x01, 0x05, 0x00];
    assert_eq!(Module::new(&bytes), Err(FormatError::UnexpectedEnd));
}

#[test]
fn decode_rejects_unknown_value_type() {
    // One type entry whose single parameter byte 0x7d is not recognized.
    let bytes = vec![
        0x00u8, 0x61, 0x73, 0x6d, 0x01, 0x00, 0x00, 0x00, 0x01, 0x05, 0x01, 0x60, 0x01, 0x7d,
        0x00,
    ];
    assert_eq!(Module::new(&bytes), Err(FormatError::UnknownValueType(0x7d)));
}

#[test]
fn decode_rejects_unknown_opcode() {
    // One function whose body starts with the unassigned opcode 0xff.
    let bytes = vec![
        0x00u8, 0x61, 0x73, 0x6d, 0x01, 0x00, 0x00, 0x00, // preamble
        0x01, 0x04, 0x01, 0x60, 0x00, 0x00, // type section: () -> ()
        0x03, 0x02, 0x01, 0x00, // function section: [0]
        0x0a, 0x04, 0x01, 0x02, 0x00, 0xff, // code section: body [0xff]
    ];
    assert_eq!(Module::new(&bytes), Err(FormatError::UnknownOpcode(0xff)));
}

#[test]
fn decode_signed_const_immediate() {
    let wasm = wat::parse_str("(module (func (result i32) i32.const -1))").unwrap();
    let module = Module::new(&wasm).unwrap();
    let code = &module.code_section.as_ref().unwrap()[0].code;
    assert_eq!(
        code,
        &vec![Instruction::I32Const(-1), Instruction::End]
    );
}

#[test]
fn decode_store_instruction() {
    let bytes = vec![
        0x00u8, 0x61, 0x73, 0x6d, 0x01, 0x00, 0x00, 0x00, // preamble
        0x01, 0x04, 0x01, 0x60, 0x00, 0x00, // type section: () -> ()
        0x03, 0x02, 0x01, 0x00, // function section: [0]
        0x0a, 0x07, 0x01, 0x05, 0x00, 0x36, 0x02, 0x08, 0x0b, // body: i32.store align=2 offset=8; end
    ];
    let module = Module::new(&bytes).unwrap();
    let code = &module.code_section.as_ref().unwrap()[0].code;
    assert_eq!(code.len(), 2);
    match code[0] {
        Instruction::I32Store(memarg) => {
            assert_eq!(memarg.align, 2);
            assert_eq!(memarg.offset, 8);
        }
        _ => panic!("expected a store instruction"),
    }
    assert_eq!(code[1], Instruction::End);
}

#[test]
fn decode_accepts_nonminimal_varint() {
    // The type-section size 1 written in two varint bytes.
    let bytes = vec![
        0x00u8, 0x61, 0x73, 0x6d, 0x01, 0x00, 0x00, 0x00, 0x01, 0x81, 0x00, 0x00,
    ];
    let module = Module::new(&bytes).unwrap();
    assert_eq!(module.type_section, Some(vec![]));
}

#[test]
fn decode_empty_type_section() {
    // A type section holding only its zero entry count.
    let bytes = vec![0x00u8, 0x61, 0x73, 0x6d, 0x01, 0x00, 0x00, 0x00, 0x01, 0x01, 0x00];
    let module = Module::new(&bytes).unwrap();
    assert_eq!(module.type_section, Some(vec![]));
    assert_eq!(module.function_section, None);
    assert_eq!(module.code_section, None);
}
