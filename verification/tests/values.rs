//! Values between host and guest, and what a returned word means.

use sc_executor_common::runtime_blob::RuntimeBlob;
use sc_executor_common::wasm_runtime::InvokeMethod;
use sc_executor_wasmedge::error::{ErrorKind, SetupStep, WasmError};
use sc_executor_wasmedge::host::ValType;
use sc_executor_wasmedge::instance_wrapper::{GlobalLookup, InstanceWrapper};
use sc_executor_wasmedge::runtime::{create_runtime, Config, Invoking, WasmEdgeInstance};
use sc_executor_wasmedge::util::{from_wasmedge_val, into_wasmedge_val, GuestValue};
use sp_wasm_interface::Value;

fn instance(heap_base: i32) -> WasmEdgeInstance {
    let wasm = wat::parse_str(
        r#"(module (import "env" "memory" (memory 1))
            (global (export "__heap_base") i32 (i32.const 0)))"#,
    )
    .unwrap();
    let blob = RuntimeBlob::uncompress_if_needed(&wasm).unwrap();
    let rt =
        create_runtime(blob, Config { heap_pages: 1, max_memory_size: None }, vec![]).unwrap();
    let mut wrapper = rt.new_instance().unwrap();
    while wrapper.next_step().is_some() {
        wrapper = wrapper.advance(true).unwrap();
    }
    rt.complete_instance(wrapper, GlobalLookup::Found(heap_base)).unwrap()
}

fn invoking() -> Invoking {
    Invoking { export: "main".to_owned(), params: vec![] }
}

#[test]
fn guest_values_become_host_values_of_the_same_kind() {
    assert_eq!(from_wasmedge_val(GuestValue::I32(-7)), Value::I32(-7));
    assert_eq!(from_wasmedge_val(GuestValue::I64(i64::MIN)), Value::I64(i64::MIN));
    assert_eq!(from_wasmedge_val(GuestValue::F32(3)), Value::F32(3));
    assert_eq!(from_wasmedge_val(GuestValue::F64(u64::MAX)), Value::F64(u64::MAX));
}

#[test]
fn host_values_become_guest_values_of_the_same_kind() {
    assert_eq!(into_wasmedge_val(Value::I32(i32::MAX)), GuestValue::I32(i32::MAX));
    assert_eq!(into_wasmedge_val(Value::I64(-1)), GuestValue::I64(-1));
    assert_eq!(into_wasmedge_val(Value::F32(0)), GuestValue::F32(0));
    assert_eq!(into_wasmedge_val(Value::F64(12)), GuestValue::F64(12));
}

#[test]
fn values_come_back_unchanged() {
    for v in [Value::I32(5), Value::I64(-5), Value::F32(u32::MAX), Value::F64(1)] {
        assert_eq!(from_wasmedge_val(into_wasmedge_val(v)), v);
    }
    for g in [GuestValue::I32(0), GuestValue::I64(9), GuestValue::F32(2), GuestValue::F64(3)] {
        assert!(g.is_supported());
        assert_eq!(into_wasmedge_val(from_wasmedge_val(g)), g);
    }
}

#[test]
fn kinds_without_a_host_value() {
    assert!(!GuestValue::V128.is_supported());
    assert!(!GuestValue::FuncRef.is_supported());
    assert!(!GuestValue::ExternRef.is_supported());
    assert_eq!(GuestValue::V128.ty(), ValType::V128);
    assert_eq!(GuestValue::FuncRef.ty(), ValType::FuncRef);
    assert_eq!(GuestValue::ExternRef.ty(), ValType::ExternRef);
    assert_eq!(GuestValue::I32(1).ty(), ValType::I32);
    assert_eq!(GuestValue::I64(1).ty(), ValType::I64);
    assert_eq!(GuestValue::F32(1).ty(), ValType::F32);
    assert_eq!(GuestValue::F64(1).ty(), ValType::F64);
}

#[test]
fn returned_word_is_read_as_unsigned() {
    let wrapper = InstanceWrapper::new(1, None, &vec![]).unwrap();
    assert_eq!(wrapper.call(Ok(vec![GuestValue::I64(0)])).unwrap(), 0);
    assert_eq!(wrapper.call(Ok(vec![GuestValue::I64(-1)])).unwrap(), u64::MAX);
    assert_eq!(wrapper.call(Ok(vec![GuestValue::I64(i64::MIN)])).unwrap(), 1 << 63);
    assert_eq!(
        wrapper.call(Ok(vec![GuestValue::I64(0x0000_0004_0000_00c8)])).unwrap(),
        0x0000_0004_0000_00c8
    );
}

#[test]
fn anything_but_one_i64_is_an_invalid_return() {
    let wrapper = InstanceWrapper::new(1, None, &vec![]).unwrap();
    assert!(matches!(wrapper.call(Ok(vec![])), Err(WasmError::InvalidReturn)));
    assert!(matches!(wrapper.call(Ok(vec![GuestValue::I32(1)])), Err(WasmError::InvalidReturn)));
    assert!(matches!(wrapper.call(Ok(vec![GuestValue::F64(1)])), Err(WasmError::InvalidReturn)));
    assert!(matches!(
        wrapper.call(Ok(vec![GuestValue::I64(1), GuestValue::I64(2)])),
        Err(WasmError::InvalidReturn)
    ));
    assert_eq!(WasmError::InvalidReturn.kind(), ErrorKind::Invocation);
}

#[test]
fn engine_failure_keeps_its_text() {
    let wrapper = InstanceWrapper::new(1, None, &vec![]).unwrap();
    let err = wrapper.call(Err("out of bounds memory access".to_owned())).unwrap_err();
    assert!(matches!(&err, WasmError::Invocation(text) if text == "out of bounds memory access"));
}

#[test]
fn returned_takes_pointer_from_the_low_half_and_length_from_the_high_half() {
    let instance = instance(0);
    let memory: Vec<u8> = (0..=255).collect();
    // pointer 200, length 4
    let word: i64 = (4 << 32) | 200;
    assert_eq!(
        instance.returned(invoking(), &memory, Ok(vec![GuestValue::I64(word)])).unwrap(),
        vec![200, 201, 202, 203]
    );
    // pointer 4, length 200: the halves are not the same
    let word: i64 = (200 << 32) | 4;
    let out = instance.returned(invoking(), &memory, Ok(vec![GuestValue::I64(word)])).unwrap();
    assert_eq!(out.len(), 200);
    assert_eq!(out[0], 4);
    assert_eq!(out[199], 203);
    // the library's reading agrees with the packing of the runtime interface
    let word = sp_runtime_interface::pack_ptr_and_len(17, 3);
    assert_eq!(
        instance.returned(invoking(), &memory, Ok(vec![GuestValue::I64(word as i64)])).unwrap(),
        vec![17, 18, 19]
    );
}

#[test]
fn returned_with_a_negative_word() {
    let instance = instance(0);
    let memory = vec![1u8; 16];
    // all bits set: pointer and length are both the largest 32-bit value
    assert!(matches!(
        instance.returned(invoking(), &memory, Ok(vec![GuestValue::I64(-1)])),
        Err(WasmError::InvalidMemory)
    ));
    // length zero at the end of the memory
    assert_eq!(
        instance.returned(invoking(), &memory, Ok(vec![GuestValue::I64(16)])).unwrap(),
        Vec::<u8>::new()
    );
    assert!(matches!(
        instance.returned(invoking(), &memory, Ok(vec![GuestValue::I64(17)])),
        Err(WasmError::InvalidMemory)
    ));
}

#[test]
fn returned_hands_on_engine_and_shape_errors() {
    let instance = instance(0);
    let memory = vec![1u8; 16];
    let err = instance.returned(invoking(), &memory, Err("trap".to_owned())).unwrap_err();
    assert!(matches!(&err, WasmError::Invocation(text) if text == "trap"));
    assert!(matches!(
        instance.returned(invoking(), &memory, Ok(vec![GuestValue::I32(0)])),
        Err(WasmError::InvalidReturn)
    ));
}

#[test]
fn parameters_carry_the_bit_pattern_of_pointer_and_length() {
    let instance = instance(16);
    let mut memory = vec![0u8; 64];
    let restoring = instance.call(InvokeMethod::Export("main"), &mut memory, &[7; 9]).unwrap();
    let invoking = instance.globals_restored(restoring, &mut memory).unwrap();
    assert_eq!(invoking.params, vec![GuestValue::I32(24), GuestValue::I32(9)]);
    assert_eq!(invoking.export, "main");
    assert_eq!(&memory[24..33], &[7; 9]);
}

#[test]
fn every_error_has_its_kind() {
    assert_eq!(WasmError::Setup(SetupStep::CreateVm).kind(), ErrorKind::ImportBinding);
    assert_eq!(WasmError::Setup(SetupStep::LoadModule).kind(), ErrorKind::Module);
    assert_eq!(WasmError::Snapshot("x".to_owned()).kind(), ErrorKind::Module);
    assert_eq!(WasmError::InvalidMemory.kind(), ErrorKind::MemoryAccess);
    assert_eq!(WasmError::Invocation("x".to_owned()).kind(), ErrorKind::Invocation);
    assert_eq!(WasmError::InvalidReturn.kind(), ErrorKind::Invocation);
    assert_eq!(
        WasmError::Allocator(sc_allocator::Error::MemoryShrinked).kind(),
        ErrorKind::Allocation
    );
}
