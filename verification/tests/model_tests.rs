use wasm_packer::builder::push_function;
use wasm_packer::codec::{read_u32, write_u32};
use wasm_packer::eval::{load_data, run_code, CallEvent};
use wasm_packer::logger::{call, CallArgs};
use wasm_packer::module::{
    DataSegment, FuncBody, FunctionType, ImportEntry, ImportKind, Module, Opcode, ValueType,
};
use wasm_packer::storage::Storage;

#[test]
fn word_codec_exact() {
    let mut buf = vec![0u8; 8];
    write_u32(&mut buf, 0, 0x0102_0304);
    assert_eq!(buf, vec![0x04, 0x03, 0x02, 0x01, 0, 0, 0, 0]);
    assert_eq!(read_u32(&buf, 0), 0x0102_0304);
}

#[test]
fn word_codec_roundtrip_at_offset() {
    let mut buf = vec![0xffu8; 12];
    write_u32(&mut buf, 5, 0xdead_beef);
    assert_eq!(read_u32(&buf, 5), 0xdead_beef);
    // Bytes outside the written word are untouched.
    assert_eq!(buf[4], 0xff);
    assert_eq!(buf[9], 0xff);
}

#[test]
fn builder_appends_function() {
    let mut module = Module {
        types: Some(vec![FunctionType { params: vec![], result: None }]),
        imports: Some(vec![ImportEntry {
            module: "env".to_string(),
            field: "f".to_string(),
            kind: ImportKind::Function(0),
        }]),
        functions: Some(vec![0]),
        exports: None,
        code: Some(vec![FuncBody { locals: vec![], code: vec![Opcode::End] }]),
        data: None,
    };
    let sig = FunctionType { params: vec![ValueType::I32], result: None };
    let body = FuncBody { locals: vec![], code: vec![Opcode::End] };
    let idx = push_function(&mut module, sig, body);
    // One function import plus one local function before the new one.
    assert_eq!(idx, 2);
    assert_eq!(module.functions.as_ref().unwrap().len(), 2);
    assert_eq!(module.functions.as_ref().unwrap()[1], 1);
    assert_eq!(module.types.as_ref().unwrap().len(), 2);
    assert_eq!(module.code.as_ref().unwrap().len(), 2);
}

#[test]
fn builder_creates_missing_sections() {
    let mut module = Module {
        types: None,
        imports: None,
        functions: None,
        exports: None,
        code: None,
        data: None,
    };
    let sig = FunctionType { params: vec![ValueType::I32], result: None };
    let body = FuncBody { locals: vec![], code: vec![Opcode::End] };
    let idx = push_function(&mut module, sig, body);
    assert_eq!(idx, 0);
    assert_eq!(module.types.as_ref().unwrap().len(), 1);
    assert_eq!(module.functions.as_ref().unwrap(), &vec![0u32]);
    assert_eq!(module.code.as_ref().unwrap().len(), 1);
}

#[test]
fn storage_append_returns_offsets() {
    let mut storage = Storage::new();
    let first = storage.append(&vec![1u8, 2, 3]).ok().unwrap();
    let second = storage.append(&vec![4u8]).ok().unwrap();
    assert_eq!(first, 0);
    assert_eq!(second, 3);
    assert_eq!(storage.data, vec![1, 2, 3, 4]);
}

#[test]
fn storage_read_back() {
    let mut storage = Storage::new();
    storage.append(&vec![10u8, 11, 12, 13]).ok().unwrap();
    let mut dst = vec![0u8; 2];
    let n = storage.read(1, &mut dst).ok().unwrap();
    assert_eq!(n, 2);
    assert_eq!(dst, vec![11, 12]);
}

#[test]
fn storage_read_out_of_bounds() {
    let storage = Storage::new();
    let mut dst = vec![0u8; 1];
    assert!(storage.read(0, &mut dst).is_err());
    assert_eq!(dst, vec![0u8]);
}

#[test]
fn storage_write_gap_rejected() {
    let mut storage = Storage::new();
    assert!(storage.write(4, &vec![1u8]).is_err());
    assert_eq!(storage.data, Vec::<u8>::new());
}

#[test]
fn storage_write_overwrites_and_extends() {
    let mut storage = Storage::new();
    storage.append(&vec![1u8, 2, 3]).ok().unwrap();
    let n = storage.write(2, &vec![7u8, 8]).ok().unwrap();
    assert_eq!(n, 2);
    assert_eq!(storage.data, vec![1, 2, 7, 8]);
}

#[test]
fn logger_call_appends_and_returns_input() {
    let mut storage = Storage::new();
    storage.append(&vec![9u8]).ok().unwrap();
    let mut args = CallArgs::new(vec![1u8, 2, 3], Vec::new());
    call(&mut args, &mut storage);
    assert_eq!(storage.data, vec![9, 1, 2, 3]);
    assert_eq!(args.result_mut().clone(), vec![1, 2, 3]);
    assert_eq!(args.context(), &vec![1u8, 2, 3]);
}

#[test]
fn eval_store_and_call() {
    let code = vec![
        Opcode::GetLocal(0),
        Opcode::Call(4),
        Opcode::GetLocal(0),
        Opcode::I32Const(77),
        Opcode::I32Store(0, 8),
        Opcode::End,
    ];
    let machine = run_code(&code, 32, vec![0u8; 64]).expect("runs");
    assert_eq!(machine.calls, vec![CallEvent { func: 4, arg: 32 }]);
    assert_eq!(read_u32(&machine.memory, 40), 77);
}

#[test]
fn eval_traps_outside_memory() {
    let code = vec![
        Opcode::GetLocal(0),
        Opcode::I32Const(1),
        Opcode::I32Store(0, 8),
        Opcode::End,
    ];
    assert!(run_code(&code, 60, vec![0u8; 64]).is_none());
}

#[test]
fn load_data_places_segments() {
    let segments = vec![
        DataSegment { index: 0, offset: vec![Opcode::I32Const(2), Opcode::End], value: vec![5u8, 6] },
        DataSegment { index: 0, offset: vec![Opcode::I32Const(3), Opcode::End], value: vec![9u8] },
    ];
    let mem = load_data(&segments, vec![0u8; 6]).expect("fits");
    assert_eq!(mem, vec![0, 0, 5, 9, 0, 0]);
}

#[test]
fn load_data_rejects_overflowing_segment() {
    let segments = vec![DataSegment {
        index: 0,
        offset: vec![Opcode::I32Const(5), Opcode::End],
        value: vec![1u8, 2],
    }];
    assert!(load_data(&segments, vec![0u8; 6]).is_none());
}
