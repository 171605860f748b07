//! The data segments of real modules, written back into a memory.

use sc_executor_common::runtime_blob::{DataSegmentsSnapshot, RuntimeBlob};
use sc_executor_common::wasm_runtime::InvokeMethod;
use sc_executor_wasmedge::error::WasmError;
use sc_executor_wasmedge::instance_wrapper::GlobalLookup;
use sc_executor_wasmedge::runtime::{create_runtime, Config, WasmEdgeInstance};
use sc_executor_wasmedge::snapshot::DataSegments;

fn instance(code: &str) -> WasmEdgeInstance {
    let wasm = wat::parse_str(code).expect("wat parsing failed");
    let blob = RuntimeBlob::uncompress_if_needed(&wasm).unwrap();
    let rt =
        create_runtime(blob, Config { heap_pages: 1, max_memory_size: None }, vec![]).unwrap();
    let mut wrapper = rt.new_instance().unwrap();
    while wrapper.next_step().is_some() {
        wrapper = wrapper.advance(true).unwrap();
    }
    rt.complete_instance(wrapper, GlobalLookup::Found(0)).unwrap()
}

#[test]
fn segments_are_written_to_their_offsets() {
    let instance = instance(
        r#"(module (import "env" "memory" (memory 1))
            (global (export "__heap_base") i32 (i32.const 0))
            (data (i32.const 2) "\01\02\03")
            (data (i32.const 8) "\09"))"#,
    );
    let mut memory = vec![0xeeu8; 10];
    assert!(instance.call(InvokeMethod::Export("main"), &mut memory, &[]).is_ok());
    assert_eq!(memory, vec![0xee, 0xee, 1, 2, 3, 0xee, 0xee, 0xee, 9, 0xee]);
}

#[test]
fn a_later_segment_overwrites_an_earlier_one() {
    let instance = instance(
        r#"(module (import "env" "memory" (memory 1))
            (global (export "__heap_base") i32 (i32.const 0))
            (data (i32.const 0) "\01\01\01\01")
            (data (i32.const 2) "\02\02\02"))"#,
    );
    let mut memory = vec![0u8; 6];
    assert!(instance.call(InvokeMethod::Export("main"), &mut memory, &[]).is_ok());
    assert_eq!(memory, vec![1, 1, 2, 2, 2, 0]);
}

#[test]
fn no_segments_change_nothing() {
    let instance = instance(
        r#"(module (import "env" "memory" (memory 1))
            (global (export "__heap_base") i32 (i32.const 0)))"#,
    );
    let mut memory = vec![4u8; 3];
    assert!(instance.call(InvokeMethod::Export("main"), &mut memory, &[]).is_ok());
    assert_eq!(memory, vec![4, 4, 4]);
}

#[test]
fn the_first_segment_that_does_not_fit_ends_the_writing() {
    let instance = instance(
        r#"(module (import "env" "memory" (memory 1))
            (global (export "__heap_base") i32 (i32.const 0))
            (data (i32.const 0) "\01")
            (data (i32.const 3) "\02\02")
            (data (i32.const 1) "\03")
            (data (i32.const 9) "\04"))"#,
    );
    let mut memory = vec![0u8; 4];
    let res = instance.call(InvokeMethod::Export("main"), &mut memory, &[]);
    assert!(matches!(res, Err(WasmError::InvalidMemory)));
    assert_eq!(memory, vec![1, 0, 0, 0]);
}

#[test]
fn a_segment_that_ends_with_the_memory_fits() {
    let instance = instance(
        r#"(module (import "env" "memory" (memory 1))
            (global (export "__heap_base") i32 (i32.const 0)) (data (i32.const 6) "\07\08"))"#,
    );
    let mut memory = vec![0u8; 8];
    assert!(instance.call(InvokeMethod::Export("main"), &mut memory, &[]).is_ok());
    assert_eq!(memory, vec![0, 0, 0, 0, 0, 0, 7, 8]);
    let mut short = vec![0u8; 7];
    let res = instance.call(InvokeMethod::Export("main"), &mut short, &[]);
    assert!(matches!(res, Err(WasmError::InvalidMemory)));
    assert_eq!(short, vec![0u8; 7]);
}

#[test]
fn a_negative_offset_is_read_as_unsigned() {
    let instance = instance(
        r#"(module (import "env" "memory" (memory 1))
            (global (export "__heap_base") i32 (i32.const 0)) (data (i32.const -1) "\07"))"#,
    );
    let mut memory = vec![0u8; 16];
    let res = instance.call(InvokeMethod::Export("main"), &mut memory, &[]);
    assert!(matches!(res, Err(WasmError::InvalidMemory)));
    assert_eq!(memory, vec![0u8; 16]);
}

#[test]
fn restoring_undoes_changes_inside_segments_only() {
    let instance = instance(
        r#"(module (import "env" "memory" (memory 1))
            (global (export "__heap_base") i32 (i32.const 0)) (data (i32.const 4) "\0a\0b\0c\0d"))"#,
    );
    let mut memory = vec![0u8; 12];
    instance.call(InvokeMethod::Export("main"), &mut memory, &[]).unwrap();
    let pristine = memory.clone();
    memory[5] = 99;
    memory[7] = 98;
    memory[9] = 97;
    instance.call(InvokeMethod::Export("main"), &mut memory, &[]).unwrap();
    assert_eq!(&memory[4..8], &pristine[4..8]);
    assert_eq!(&memory[4..8], &[10, 11, 12, 13]);
    assert_eq!(memory[9], 97);
    let mut other = vec![0xffu8; 12];
    instance.call(InvokeMethod::Export("main"), &mut other, &[]).unwrap();
    assert_eq!(&other[4..8], &memory[4..8]);
    assert_eq!(other[3], 0xff);
}

#[test]
fn instances_of_one_runtime_share_the_segments() {
    let wasm = wat::parse_str(
        r#"(module (import "env" "memory" (memory 1))
            (global (export "__heap_base") i32 (i32.const 0)) (data (i32.const 1) "\05\06"))"#,
    )
    .unwrap();
    let blob = RuntimeBlob::uncompress_if_needed(&wasm).unwrap();
    let rt =
        create_runtime(blob, Config { heap_pages: 1, max_memory_size: None }, vec![]).unwrap();
    let mut memories = vec![];
    for _ in 0..3 {
        let mut wrapper = rt.new_instance().unwrap();
        while wrapper.next_step().is_some() {
            wrapper = wrapper.advance(true).unwrap();
        }
        let instance = rt.complete_instance(wrapper, GlobalLookup::Found(0)).unwrap();
        let mut memory = vec![0u8; 4];
        instance.call(InvokeMethod::Export("main"), &mut memory, &[]).unwrap();
        memories.push(memory);
    }
    assert_eq!(memories, vec![vec![0, 5, 6, 0]; 3]);
}

#[test]
fn a_list_of_segments_is_written_in_order() {
    let segments = DataSegments::new(vec![(2, vec![1, 2, 3]), (8, vec![9]), (3, vec![7])]);
    let mut memory = vec![0xeeu8; 10];
    assert!(segments.apply(&mut memory).is_ok());
    assert_eq!(memory, vec![0xee, 0xee, 1, 7, 3, 0xee, 0xee, 0xee, 9, 0xee]);
}

#[test]
fn a_list_stops_at_the_first_segment_that_does_not_fit() {
    let segments =
        DataSegments::new(vec![(0, vec![1]), (3, vec![2, 2]), (1, vec![3]), (9, vec![4])]);
    let mut memory = vec![0u8; 4];
    assert!(matches!(segments.apply(&mut memory), Err(WasmError::InvalidMemory)));
    assert_eq!(memory, vec![1, 0, 0, 0]);
    let mut longer = vec![0u8; 5];
    assert!(matches!(segments.apply(&mut longer), Err(WasmError::InvalidMemory)));
    assert_eq!(longer, vec![1, 3, 0, 2, 2]);
    let mut enough = vec![0u8; 10];
    assert!(segments.apply(&mut enough).is_ok());
    assert_eq!(enough, vec![1, 3, 0, 2, 2, 0, 0, 0, 0, 4]);
}

#[test]
fn segments_come_out_of_a_snapshot_as_the_module_declares_them() {
    let wasm = wat::parse_str(
        r#"(module (import "env" "memory" (memory 1))
            (global (export "__heap_base") i32 (i32.const 0))
            (data (i32.const 5) "ab")
            (data (i32.const 1) "")
            (data (i32.const 0) "\ff"))"#,
    )
    .unwrap();
    let blob = RuntimeBlob::uncompress_if_needed(&wasm).unwrap();
    let snapshot = DataSegmentsSnapshot::take(&blob).unwrap();
    assert_eq!(
        DataSegments::from_snapshot(&snapshot),
        DataSegments::new(vec![(5, vec![97, 98]), (1, vec![]), (0, vec![255])])
    );
}
