use parity_wasm::builder;
use parity_wasm::elements::{Instruction, Instructions};
use wasm_packer::codec::read_u32;
use wasm_packer::eval::{load_data, run_code, CallEvent};
use wasm_packer::module::{
    DataSegment, ExportEntry, FuncBody, FunctionType, ImportEntry, ImportKind, Internal, Module,
    Opcode, ValueType,
};
use wasm_packer::pack::{pack_instance, Error};

fn empty_module() -> Module {
    Module { types: None, imports: None, functions: None, exports: None, code: None, data: None }
}

fn end_body() -> FuncBody {
    FuncBody { locals: Vec::new(), code: vec![Opcode::End] }
}

/// A deployer with a memory import, one data segment at offset 16, a
/// `() -> ()` function and an `(i32) -> ()` constructor exported as
/// `_create`.
fn sample_deployer() -> Module {
    Module {
        types: Some(vec![
            FunctionType { params: vec![], result: None },
            FunctionType { params: vec![ValueType::I32], result: None },
        ]),
        imports: Some(vec![ImportEntry {
            module: "env".to_string(),
            field: "memory".to_string(),
            kind: ImportKind::Memory(1, Some(1)),
        }]),
        functions: Some(vec![0, 1]),
        exports: Some(vec![ExportEntry {
            field: "_create".to_string(),
            internal: Internal::Function(1),
        }]),
        code: Some(vec![end_body(), end_body()]),
        data: Some(vec![DataSegment {
            index: 0,
            offset: vec![Opcode::I32Const(16), Opcode::End],
            value: vec![0u8],
        }]),
    }
}

/// A serialized runtime module whose only export is `_call`.
fn sample_runtime_bytes() -> Vec<u8> {
    let module = builder::module()
        .function()
        .signature()
        .build()
        .body()
        .with_instructions(Instructions::new(vec![Instruction::End]))
        .build()
        .build()
        .export()
        .field("_call")
        .internal()
        .func(0)
        .build()
        .build();
    parity_wasm::serialize(module).expect("runtime module serializes")
}

#[test]
fn call_returns_code() {
    let raw_module = sample_runtime_bytes();
    let ctor_module = sample_deployer();

    let packed = pack_instance(raw_module.clone(), ctor_module).expect("Packing failed");

    let memory = vec![0u8; 65536];
    let loaded = load_data(packed.data.as_ref().unwrap(), memory).expect("data segments fit");

    let code = packed.code.as_ref().unwrap();
    let trampoline = &code[code.len() - 1].code;
    let machine = run_code(trampoline, 1024, loaded).expect("trampoline runs");

    let pointer = read_u32(&machine.memory, 1024 + 8);
    let len = read_u32(&machine.memory, 1024 + 12);

    let contract_code = &machine.memory[pointer as usize..(pointer + len) as usize];
    assert_eq!(raw_module, contract_code);

    // The constructor (combined function index 1) ran exactly once, with
    // the descriptor pointer as its argument.
    assert_eq!(machine.calls, vec![CallEvent { func: 1, arg: 1024 }]);

    let contract_module: parity_wasm::elements::Module =
        parity_wasm::elements::deserialize_buffer(contract_code)
            .expect("Constructed contract module is not valid");
    let has_call = contract_module
        .export_section()
        .expect("contract module has exports")
        .entries()
        .iter()
        .any(|e| e.field() == "_call");
    assert!(has_call);
}

#[test]
fn packed_shape() {
    let raw = vec![1u8, 2, 3];
    let packed = pack_instance(raw, sample_deployer()).expect("Packing failed");
    let exports = packed.exports.as_ref().unwrap();
    let calls: Vec<_> = exports.iter().filter(|e| e.field == "_call").collect();
    let creates: Vec<_> = exports.iter().filter(|e| e.field == "_create").collect();
    assert_eq!(calls.len(), 1);
    assert_eq!(creates.len(), 0);
    // The trampoline is the third function: one past the two local ones,
    // with no function imports.
    assert!(matches!(calls[0].internal, Internal::Function(2)));
}

#[test]
fn packed_trampoline_well_typed() {
    let raw = vec![1u8, 2, 3];
    let packed = pack_instance(raw, sample_deployer()).expect("Packing failed");
    let functions = packed.functions.as_ref().unwrap();
    let types = packed.types.as_ref().unwrap();
    // The trampoline's signature was appended: one `i32` parameter, no
    // result.
    let type_ref = functions[functions.len() - 1] as usize;
    let sig = &types[type_ref];
    assert_eq!(sig.params, vec![ValueType::I32]);
    assert!(sig.result.is_none());
}

#[test]
fn packed_trampoline_body() {
    let raw = vec![9u8; 5];
    let packed = pack_instance(raw, sample_deployer()).expect("Packing failed");
    let code = packed.code.as_ref().unwrap();
    let body = &code[code.len() - 1];
    // Data went to 16 + (1 + 4) - 1 % 4 = 20.
    assert_eq!(
        body.code,
        vec![
            Opcode::GetLocal(0),
            Opcode::Call(1),
            Opcode::GetLocal(0),
            Opcode::I32Const(20),
            Opcode::I32Store(0, 8),
            Opcode::GetLocal(0),
            Opcode::I32Const(5),
            Opcode::I32Store(0, 12),
            Opcode::End,
        ]
    );
}

#[test]
fn pack_twice_fails() {
    let packed = pack_instance(vec![1u8], sample_deployer()).expect("Packing failed");
    assert!(matches!(pack_instance(vec![1u8], packed), Err(Error::NoCreateSymbol)));
}

#[test]
fn existing_call_export_left_alone() {
    let mut deployer = sample_deployer();
    deployer.exports = Some(vec![
        ExportEntry { field: "_call".to_string(), internal: Internal::Function(0) },
        ExportEntry { field: "_create".to_string(), internal: Internal::Function(1) },
    ]);
    let packed = pack_instance(vec![1u8], deployer).expect("Packing failed");
    let exports = packed.exports.as_ref().unwrap();
    assert_eq!(exports.len(), 2);
    assert_eq!(exports[0].field, "_call");
    assert!(matches!(exports[0].internal, Internal::Function(0)));
    assert_eq!(exports[1].field, "_call");
    assert!(matches!(exports[1].internal, Internal::Function(2)));
}

#[test]
fn no_create_export() {
    let mut deployer = sample_deployer();
    deployer.exports = Some(vec![ExportEntry {
        field: "_call".to_string(),
        internal: Internal::Function(0),
    }]);
    assert!(matches!(pack_instance(vec![0u8], deployer), Err(Error::NoCreateSymbol)));
}

#[test]
fn wrong_create_kind() {
    let mut deployer = sample_deployer();
    deployer.exports = Some(vec![ExportEntry {
        field: "_create".to_string(),
        internal: Internal::Global(0),
    }]);
    assert!(matches!(pack_instance(vec![0u8], deployer), Err(Error::InvalidCreateMember)));
}

#[test]
fn wrong_create_signature() {
    let mut deployer = sample_deployer();
    // Point `_create` at the `() -> ()` function instead.
    deployer.exports = Some(vec![ExportEntry {
        field: "_create".to_string(),
        internal: Internal::Function(0),
    }]);
    assert!(matches!(pack_instance(vec![0u8], deployer), Err(Error::InvalidCreateSignature)));
}

#[test]
fn no_export_section() {
    let deployer = empty_module();
    assert!(matches!(pack_instance(vec![0u8], deployer), Err(Error::NoExportSection)));
}

#[test]
fn no_function_section() {
    let mut deployer = empty_module();
    deployer.exports = Some(vec![ExportEntry {
        field: "_create".to_string(),
        internal: Internal::Function(0),
    }]);
    assert!(matches!(pack_instance(vec![0u8], deployer), Err(Error::NoCodeSection)));
}

#[test]
fn no_type_section() {
    let mut deployer = sample_deployer();
    deployer.types = None;
    assert!(matches!(pack_instance(vec![0u8], deployer), Err(Error::NoTypeSection)));
}

#[test]
fn function_index_out_of_bounds() {
    let mut deployer = sample_deployer();
    deployer.exports = Some(vec![ExportEntry {
        field: "_create".to_string(),
        internal: Internal::Function(7),
    }]);
    assert!(matches!(pack_instance(vec![0u8], deployer), Err(Error::MalformedModule)));
}

#[test]
fn type_index_out_of_bounds() {
    let mut deployer = sample_deployer();
    deployer.functions = Some(vec![0, 9]);
    assert!(matches!(pack_instance(vec![0u8], deployer), Err(Error::MalformedModule)));
}

#[test]
fn empty_data_section() {
    let mut deployer = sample_deployer();
    deployer.data = None;
    let raw = vec![7u8, 8];
    let packed = pack_instance(raw.clone(), deployer).expect("Packing failed");
    let data = packed.data.as_ref().unwrap();
    assert_eq!(data.len(), 1);
    assert_eq!(data[0].offset, vec![Opcode::I32Const(0), Opcode::End]);
    assert_eq!(data[0].value, raw);
    assert_eq!(data[0].index, 0);
}

#[test]
fn alignment_case() {
    let mut deployer = sample_deployer();
    deployer.data = Some(vec![DataSegment {
        index: 0,
        offset: vec![Opcode::I32Const(16), Opcode::End],
        value: vec![0u8, 1, 2],
    }]);
    let packed = pack_instance(vec![5u8], deployer).expect("Packing failed");
    let data = packed.data.as_ref().unwrap();
    // 16 + (3 + 4) - 3 % 4 = 20: four-byte aligned, past the old segment.
    assert_eq!(data[1].offset, vec![Opcode::I32Const(20), Opcode::End]);
}

#[test]
fn non_constant_offset_falls_back_to_zero() {
    let mut deployer = sample_deployer();
    deployer.data = Some(vec![DataSegment {
        index: 3,
        offset: vec![Opcode::GetLocal(0), Opcode::End],
        value: vec![0u8],
    }]);
    let packed = pack_instance(vec![5u8], deployer).expect("Packing failed");
    let data = packed.data.as_ref().unwrap();
    assert_eq!(data[1].offset, vec![Opcode::I32Const(0), Opcode::End]);
    // The memory index still comes from the last existing segment.
    assert_eq!(data[1].index, 3);
}
