//! A compiled module with what was captured of it, the instances made from it, and the path of
//! one call.

use std::sync::Arc;
use vstd::prelude::*;
use sc_executor_common::runtime_blob::{DataSegmentsSnapshot, ExposedMutableGlobalsSet, RuntimeBlob};
use sc_executor_common::wasm_runtime::InvokeMethod;
use wasm_instrument::parity_wasm::elements::Internal;
use crate::error::{SetupStep, WasmError};
use crate::host::HostFunction;
use crate::instance_wrapper::{binding_steps, heap_base_of, max_pages, max_pages_of,
    returned_word, GlobalLookup, InstanceWrapper, HEAP_BASE};
use crate::snapshot::{fitting_prefix, restored, segments_fit, segments_of, DataSegments};
use crate::util::{in_bounds, read_memory, write_memory_from, written, GuestValue};

verus! {

/// `sc_executor_common::runtime_blob::RuntimeBlob`: a compiled module, parsed. Nothing inside it
/// is read here.
#[verifier::external_type_specification]
#[verifier::external_body]
pub struct ExRuntimeBlob(sc_executor_common::runtime_blob::RuntimeBlob);

/// `sc_executor_common::runtime_blob::ExposedMutableGlobalsSet`: the names of the globals that
/// a module exports for their values to be captured. Nothing inside it is read here.
#[verifier::external_type_specification]
#[verifier::external_body]
pub struct ExExposedMutableGlobalsSet(sc_executor_common::runtime_blob::ExposedMutableGlobalsSet);

/// `sc_executor_common::wasm_runtime::InvokeMethod`, with the three variants that the crate
/// gives it: an export by its name, and two ways through the exported table.
#[verifier::external_type_specification]
pub struct ExInvokeMethod<'a>(sc_executor_common::wasm_runtime::InvokeMethod<'a>);

/// What `DataSegmentsSnapshot::take` makes of a module: the snapshot of its data segments, or
/// the text of the error that says why there is none.
pub uninterp spec fn taken_from(blob: RuntimeBlob) -> Result<DataSegmentsSnapshot, String>;

/// The bytecode that `RuntimeBlob::serialize` makes of a module.
pub uninterp spec fn serialized(blob: RuntimeBlob) -> Seq<u8>;

/// The set that `ExposedMutableGlobalsSet::collect` makes of a module.
pub uninterp spec fn mutable_globals_of(blob: RuntimeBlob) -> ExposedMutableGlobalsSet;

/// The exports of a module, in the order of its export section: the name of each and what it
/// is.
pub uninterp spec fn exports_of(blob: RuntimeBlob) -> Seq<(Seq<char>, ExportKind)>;

/// What a module can export.
#[derive(Clone, Copy, Debug, PartialEq, Eq)]
pub enum ExportKind {
    Function,
    Table,
    Memory,
    Global,
}

/// `DataSegmentsSnapshot::take`, with the error turned into its text by `to_string`. The outcome
/// depends on the module alone.
#[verifier::external_body]
fn take_data_segments(blob: &RuntimeBlob) -> (res: Result<DataSegmentsSnapshot, String>)
    ensures
        res == taken_from(*blob),
{
    DataSegmentsSnapshot::take(blob).map_err(|e| e.to_string())
}

/// `ExposedMutableGlobalsSet::collect`: the names of the globals that the module exposes.
#[verifier::external_body]
fn collect_mutable_globals(blob: &RuntimeBlob) -> (res: ExposedMutableGlobalsSet)
    ensures
        res == mutable_globals_of(*blob),
{
    ExposedMutableGlobalsSet::collect(blob)
}

/// `RuntimeBlob::serialize`: the bytecode of the module.
#[verifier::external_body]
fn serialize(blob: RuntimeBlob) -> (res: Vec<u8>)
    ensures
        res@ == serialized(blob),
{
    blob.serialize()
}

/// The entries of the export section of the module that `RuntimeBlob::into_inner` hands out,
/// each as its name and its kind. A module without an export section has none.
#[verifier::external_body]
fn exports(blob: &RuntimeBlob) -> (res: Vec<(String, ExportKind)>)
    ensures
        exports_view(res@) == exports_of(*blob),
{
    let module = blob.clone().into_inner();
    let entries = module.export_section().map(|section| section.entries()).unwrap_or(&[]);
    entries.iter().map(|entry| {
        let kind = match entry.internal() {
            Internal::Function(_) => ExportKind::Function,
            Internal::Table(_) => ExportKind::Table,
            Internal::Memory(_) => ExportKind::Memory,
            Internal::Global(_) => ExportKind::Global,
        };
        (entry.field().to_owned(), kind)
    }).collect()
}

/// The exports of `list` by the characters of their names.
pub open spec fn exports_view(list: Seq<(String, ExportKind)>) -> Seq<(Seq<char>, ExportKind)> {
    Seq::new(list.len(), |i: int| (list[i].0@, list[i].1))
}

/// Whether a global named `__heap_base` is among the exports.
pub open spec fn has_heap_base(exports: Seq<(Seq<char>, ExportKind)>) -> bool {
    exists|i: int|
        0 <= i < exports.len() && (#[trigger] exports[i]).0 == HEAP_BASE@ && exports[i].1
            == ExportKind::Global
}

/// Looks for a global named `__heap_base` among the exports.
pub fn exports_heap_base(exports: &Vec<(String, ExportKind)>) -> (res: bool)
    ensures
        res == has_heap_base(exports_view(exports@)),
{
    let wanted = HEAP_BASE.to_owned();
    let mut i: usize = 0;
    while i < exports.len()
        invariant
            i <= exports@.len(),
            wanted@ == HEAP_BASE@,
            forall|k: int|
                0 <= k < i ==> !((#[trigger] exports_view(exports@)[k]).0 == HEAP_BASE@
                    && exports_view(exports@)[k].1 == ExportKind::Global),
        decreases exports@.len() - i,
    {
        let is_global = match exports[i].1 {
            ExportKind::Global => true,
            _ => false,
        };
        if is_global && exports[i].0 == wanted {
            assert(exports_view(exports@)[i as int].0 == HEAP_BASE@);
            return true;
        }
        i = i + 1;
    }
    false
}

/// `Arc::clone` of std: one more pointer to the value that `shared` points to. The value itself
/// is not copied, so the new pointer shows the same value.
#[verifier::external_body]
fn share(shared: &Arc<DataSegments>) -> (res: Arc<DataSegments>)
    ensures
        *res == **shared,
{
    Arc::clone(shared)
}

/// How the memory of every instance of a runtime is sized.
#[derive(Clone, Copy, Debug, PartialEq, Eq)]
pub struct Config {
    /// The number of pages that the linear memory of a fresh instance has.
    pub heap_pages: u32,
    /// The number of bytes up to which the memory may grow; `None` where only the address space
    /// bounds it.
    pub max_memory_size: Option<u32>,
}

/// What is written back into an instance before every call.
struct InstanceSnapshotData {
    mutable_globals: ExposedMutableGlobalsSet,
    data_segments_snapshot: Arc<DataSegments>,
}

/// A compiled module, with what was captured of it and the host functions that it may import.
/// Nothing of it changes once it is made.
pub struct WasmEdgeRuntime {
    module: Vec<u8>,
    snapshot_data: InstanceSnapshotData,
    host_functions: Vec<HostFunction>,
    config: Config,
}

impl WasmEdgeRuntime {
    /// The bytecode.
    pub closed spec fn spec_module(&self) -> Seq<u8> {
        self.module@
    }

    /// The captured data segments.
    pub closed spec fn data_segments(&self) -> Seq<(u32, Seq<u8>)> {
        self.snapshot_data.data_segments_snapshot@
    }

    /// The names of the mutable globals.
    pub closed spec fn spec_mutable_globals(&self) -> ExposedMutableGlobalsSet {
        self.snapshot_data.mutable_globals
    }

    /// The registry of host functions.
    pub closed spec fn spec_host_functions(&self) -> Vec<HostFunction> {
        self.host_functions
    }

    /// The configuration.
    pub closed spec fn spec_config(&self) -> Config {
        self.config
    }

    /// The steps that make a live context from the stored bytecode: the loader is made, the
    /// bytecode is parsed anew, then memory and host functions are bound and the module linked.
    pub open spec fn instantiation_steps(&self) -> Seq<SetupStep> {
        seq![SetupStep::CreateLoader, SetupStep::LoadModule] + binding_steps(
            self.spec_config().heap_pages,
            max_pages_of(self.spec_config().max_memory_size),
            self.spec_host_functions()@.len(),
        )
    }

    /// The bytecode.
    pub fn module(&self) -> (res: &[u8])
        ensures
            res@ == self.spec_module(),
    {
        self.module.as_slice()
    }

    /// The names of the mutable globals.
    pub fn mutable_globals(&self) -> (res: &ExposedMutableGlobalsSet)
        ensures
            *res == self.spec_mutable_globals(),
    {
        &self.snapshot_data.mutable_globals
    }

    /// The registry of host functions.
    pub fn host_functions(&self) -> (res: &Vec<HostFunction>)
        ensures
            *res == self.spec_host_functions(),
    {
        &self.host_functions
    }

    #[verifier::when_used_as_spec(spec_config)]
    pub fn config(&self) -> (res: Config)
        ensures
            res == self.spec_config(),
    {
        self.config
    }

    /// Starts the building of a fresh instance: see `instantiation_steps`. Every instance is
    /// built from the stored bytecode alone, whatever became of the instances before it. Fails
    /// where the configuration asks for a memory that starts larger than it may grow.
    pub fn new_instance(&self) -> (res: Result<InstanceWrapper, WasmError>)
        ensures
            self.spec_config().heap_pages <= max_pages_of(self.spec_config().max_memory_size)
                ==> res is Ok && res->Ok_0.steps() == self.instantiation_steps()
                && res->Ok_0.done() == 0,
            self.spec_config().heap_pages > max_pages_of(self.spec_config().max_memory_size)
                ==> res == Err::<InstanceWrapper, WasmError>(
                WasmError::Setup(
                    SetupStep::CreateMemoryType {
                        min_pages: self.spec_config().heap_pages,
                        max_pages: max_pages_of(self.spec_config().max_memory_size),
                    },
                ),
            ),
    {
        let max_pages = max_pages(self.config.max_memory_size);
        if self.config.heap_pages > max_pages {
            return Err(
                WasmError::Setup(
                    SetupStep::CreateMemoryType { min_pages: self.config.heap_pages, max_pages },
                ),
            );
        }
        Ok(
            InstanceWrapper::planned(
                true,
                self.config.heap_pages,
                max_pages,
                self.host_functions.len(),
            ),
        )
    }

    /// Makes the instance once its context is built. `lookup` is the engine's answer for the
    /// global `__heap_base`. Fails where the building is not one that this runtime has
    /// started, where a step of the building is still due, with that step, and where there is
    /// no heap base. The instance shares the data segments with the runtime.
    pub fn complete_instance(&self, instance: InstanceWrapper, lookup: GlobalLookup) -> (res:
        Result<WasmEdgeInstance, WasmError>)
        ensures
            if instance.steps() != self.instantiation_steps() {
                res == Err::<WasmEdgeInstance, WasmError>(WasmError::ForeignBuilding)
            } else {
                match instance.spec_next_step() {
                    Some(step) => res == Err::<WasmEdgeInstance, WasmError>(
                        WasmError::Setup(step),
                    ),
                    None => match heap_base_of(lookup) {
                        Err(e) => res == Err::<WasmEdgeInstance, WasmError>(e),
                        Ok(base) => res is Ok && res->Ok_0.heap_base() == base
                            && res->Ok_0.data_segments() == self.data_segments()
                            && res->Ok_0.wrapper() == instance,
                    },
                }
            },
    {
        if !instance.follows(
            true,
            self.config.heap_pages,
            max_pages(self.config.max_memory_size),
            self.host_functions.len(),
        ) {
            return Err(WasmError::ForeignBuilding);
        }
        match instance.next_step() {
            Some(step) => {
                return Err(WasmError::Setup(step));
            },
            None => {},
        }
        let heap_base = match instance.extract_heap_base(lookup) {
            Ok(base) => base,
            Err(e) => {
                return Err(e);
            },
        };
        Ok(
            WasmEdgeInstance {
                instance,
                heap_base,
                data_segments_snapshot: share(&self.snapshot_data.data_segments_snapshot),
            },
        )
    }
}

/// Makes a runtime from a compiled module: takes its data segments, collects the names of its
/// mutable globals and keeps its bytecode. Fails where the data segments cannot be taken, with
/// the text that says why, and where the module exports no global `__heap_base`.
pub fn create_runtime(blob: RuntimeBlob, config: Config, host_functions: Vec<HostFunction>) -> (res:
    Result<WasmEdgeRuntime, WasmError>)
    ensures
        match taken_from(blob) {
            Err(text) => res == Err::<WasmEdgeRuntime, WasmError>(WasmError::Snapshot(text)),
            Ok(snapshot) => if has_heap_base(exports_of(blob)) {
                res is Ok && res->Ok_0.spec_module() == serialized(blob)
                    && res->Ok_0.data_segments() == segments_of(snapshot)
                    && res->Ok_0.spec_mutable_globals() == mutable_globals_of(blob)
                    && res->Ok_0.spec_host_functions() == host_functions
                    && res->Ok_0.spec_config() == config
            } else {
                res == Err::<WasmEdgeRuntime, WasmError>(WasmError::HeapBaseNotFound)
            },
        },
{
    let data_segments_snapshot = match take_data_segments(&blob) {
        Ok(snapshot) => snapshot,
        Err(text) => {
            return Err(WasmError::Snapshot(text));
        },
    };
    if !exports_heap_base(&exports(&blob)) {
        return Err(WasmError::HeapBaseNotFound);
    }
    let data_segments_snapshot = Arc::new(DataSegments::from_snapshot(&data_segments_snapshot));
    let mutable_globals = collect_mutable_globals(&blob);
    let snapshot_data = InstanceSnapshotData { mutable_globals, data_segments_snapshot };
    Ok(WasmEdgeRuntime { module: serialize(blob), snapshot_data, host_functions, config })
}

/// A call whose data segments are written back: the values that the mutable globals had when the
/// instance was made are to be written back into them.
#[derive(Debug, PartialEq, Eq)]
pub struct RestoringGlobals {
    pub export: String,
    pub payload: Vec<u8>,
}

/// A call whose payload lies in the guest's memory: the engine is to run `export` with `params`.
#[derive(Debug, PartialEq, Eq)]
pub struct Invoking {
    pub export: String,
    pub params: Vec<GuestValue>,
}

/// The signed 32-bit integer with the bit pattern of `raw`.
pub open spec fn reinterpret_u32(raw: u32) -> i32 {
    if raw < 0x8000_0000 {
        raw as i32
    } else {
        (raw - 0x1_0000_0000) as i32
    }
}

/// The pointer that a returned 64-bit word holds: its low 32 bits.
pub open spec fn unpacked_ptr(val: u64) -> u32 {
    (val & 0xffff_ffff) as u32
}

/// The length that a returned 64-bit word holds: its high 32 bits.
pub open spec fn unpacked_len(val: u64) -> u32 {
    (val >> 32) as u32
}

/// `sp_runtime_interface::unpack_ptr_and_len`: the pointer is the low half of `val`, the length
/// its high half.
#[verifier::external_body]
fn unpack_ptr_and_len(val: u64) -> (res: (u32, u32))
    ensures
        res.0 == unpacked_ptr(val),
        res.1 == unpacked_len(val),
{
    sp_runtime_interface::unpack_ptr_and_len(val)
}

/// The number that eight bytes spell, the lowest byte first.
pub open spec fn le_u64(bytes: Seq<u8>) -> int
    recommends
        bytes.len() == 8,
{
    bytes[0] + 0x100 * bytes[1] + 0x1_0000 * bytes[2] + 0x100_0000 * bytes[3] + 0x1_0000_0000
        * bytes[4] + 0x100_0000_0000 * bytes[5] + 0x1_0000_0000_0000 * bytes[6]
        + 0x100_0000_0000_0000 * bytes[7]
}

/// The eight bytes that spell `val`, the lowest byte first.
pub open spec fn le_bytes(val: u64) -> Seq<u8> {
    seq![
        (val % 0x100) as u8,
        (val / 0x100 % 0x100) as u8,
        (val / 0x1_0000 % 0x100) as u8,
        (val / 0x100_0000 % 0x100) as u8,
        (val / 0x1_0000_0000 % 0x100) as u8,
        (val / 0x100_0000_0000 % 0x100) as u8,
        (val / 0x1_0000_0000_0000 % 0x100) as u8,
        (val / 0x100_0000_0000_0000 % 0x100) as u8,
    ]
}

/// Reads and writes of whole 64-bit words of the guest's linear memory, the lowest byte first.
///
/// Nothing in this library hands the memory over in this form: `sc_allocator` keeps to itself
/// the trait through which an allocator would be given such access, and takes the byte slice
/// itself, which it measures by its length; see `allocation_of`.
pub struct MemoryWrapper {}

impl MemoryWrapper {
    /// Reads the word at `ptr`. Fails where its eight bytes do not all lie inside the memory.
    pub fn read_le_u64(memory: &[u8], ptr: u32) -> (res: Result<u64, sc_allocator::Error>)
        ensures
            in_bounds(memory@.len(), ptr, 8) ==> res is Ok && res->Ok_0 == le_u64(
                memory@.subrange(ptr as int, ptr + 8),
            ),
            !in_bounds(memory@.len(), ptr, 8) ==> res == Err::<u64, sc_allocator::Error>(
                sc_allocator::Error::Other("memory out of range"),
            ),
    {
        let start: usize = ptr as usize;
        if start > memory.len() || 8 > memory.len() - start {
            return Err(sc_allocator::Error::Other("memory out of range"));
        }
        let ghost word = memory@.subrange(ptr as int, ptr + 8);
        let mut res: u64 = 0;
        let mut i: usize = 8;
        while i > 0
            invariant
                i <= 8,
                start == ptr,
                start + 8 <= memory@.len() <= usize::MAX,
                word == memory@.subrange(ptr as int, ptr + 8),
                i == 8 ==> res == 0,
                i == 7 ==> res == word[7],
                i == 6 ==> res == word[6] + 0x100 * word[7],
                i == 5 ==> res == word[5] + 0x100 * word[6] + 0x1_0000 * word[7],
                i == 4 ==> res == word[4] + 0x100 * word[5] + 0x1_0000 * word[6] + 0x100_0000
                    * word[7],
                i == 3 ==> res == word[3] + 0x100 * word[4] + 0x1_0000 * word[5] + 0x100_0000
                    * word[6] + 0x1_0000_0000 * word[7],
                i == 2 ==> res == word[2] + 0x100 * word[3] + 0x1_0000 * word[4] + 0x100_0000
                    * word[5] + 0x1_0000_0000 * word[6] + 0x100_0000_0000 * word[7],
                i == 1 ==> res == word[1] + 0x100 * word[2] + 0x1_0000 * word[3] + 0x100_0000
                    * word[4] + 0x1_0000_0000 * word[5] + 0x100_0000_0000 * word[6]
                    + 0x1_0000_0000_0000 * word[7],
                i == 0 ==> res == le_u64(word),
            decreases i,
        {
            i = i - 1;
            assert(word[i as int] == memory@[start + i]);
            res = res * 0x100 + memory[start + i] as u64;
        }
        Ok(res)
    }

    /// Writes the word `val` at `ptr`. Fails where its eight bytes do not all lie inside the
    /// memory; nothing is written then.
    pub fn write_le_u64(memory: &mut [u8], ptr: u32, val: u64) -> (res: Result<
        (),
        sc_allocator::Error,
    >)
        ensures
            in_bounds(old(memory)@.len(), ptr, 8) ==> res is Ok && final(memory)@ == written(
                old(memory)@,
                ptr,
                le_bytes(val),
            ),
            !in_bounds(old(memory)@.len(), ptr, 8) ==> res == Err::<(), sc_allocator::Error>(
                sc_allocator::Error::AllocatorOutOfSpace,
            ) && final(memory)@ == old(memory)@,
    {
        let start: usize = ptr as usize;
        if start > memory.len() || 8 > memory.len() - start {
            return Err(sc_allocator::Error::AllocatorOutOfSpace);
        }
        let mut rest: u64 = val;
        let mut i: usize = 0;
        while i < 8
            invariant
                i <= 8,
                start == ptr,
                start + 8 <= memory@.len() <= usize::MAX,
                memory@.len() == old(memory)@.len(),
                i == 0 ==> rest == val,
                i == 1 ==> rest == val / 0x100,
                i == 2 ==> rest == val / 0x1_0000,
                i == 3 ==> rest == val / 0x100_0000,
                i == 4 ==> rest == val / 0x1_0000_0000,
                i == 5 ==> rest == val / 0x100_0000_0000,
                i == 6 ==> rest == val / 0x1_0000_0000_0000,
                i == 7 ==> rest == val / 0x100_0000_0000_0000,
                forall|j: int|
                    0 <= j < memory@.len() ==> memory@[j] == if start <= j < start + i {
                        le_bytes(val)[j - start]
                    } else {
                        old(memory)@[j]
                    },
            decreases 8 - i,
        {
            memory[start + i] = (rest % 0x100) as u8;
            rest = rest / 0x100;
            i = i + 1;
        }
        assert(memory@ =~= written(old(memory)@, ptr, le_bytes(val)));
        Ok(())
    }

    /// The number of bytes that a 32-bit address can reach, whatever the memory holds now. The
    /// allocator in use does not ask for it.
    pub fn size(_memory: &[u8]) -> (res: u32)
        ensures
            res == u32::MAX,
    {
        u32::MAX
    }
}

/// A word that was spelt as eight bytes is read back from them as it was.
pub proof fn lemma_le_round_trip(val: u64)
    ensures
        le_bytes(val).len() == 8,
        le_u64(le_bytes(val)) == val,
{
    assert(val % 0x100 + 0x100 * (val / 0x100 % 0x100) + 0x1_0000 * (val / 0x1_0000 % 0x100)
        + 0x100_0000 * (val / 0x100_0000 % 0x100) + 0x1_0000_0000 * (val / 0x1_0000_0000 % 0x100)
        + 0x100_0000_0000 * (val / 0x100_0000_0000 % 0x100) + 0x1_0000_0000_0000 * (val
        / 0x1_0000_0000_0000 % 0x100) + 0x100_0000_0000_0000 * (val / 0x100_0000_0000_0000 % 0x100)
        == val) by (bit_vector);
}

/// What `write_le_u64` has written at a place, `read_le_u64` reads there.
pub proof fn lemma_word_read_back(memory: Seq<u8>, ptr: u32, val: u64)
    requires
        in_bounds(memory.len(), ptr, 8),
    ensures
        le_u64(written(memory, ptr, le_bytes(val)).subrange(ptr as int, ptr + 8)) == val,
{
    lemma_le_round_trip(val);
    crate::util::lemma_read_back(memory, ptr, le_bytes(val));
}

/// The largest number of bytes that the allocator hands out in one chunk.
pub const MAX_POSSIBLE_ALLOCATION: u32 = 33554432;

/// The heap base rounded up to a multiple of eight: where a fresh allocator starts its heap.
pub open spec fn aligned_base(heap_base: u32) -> int {
    (heap_base + 7) / 8 * 8
}

/// The least of `chunk`, `2 * chunk`, `4 * chunk`, ... that is at least `size`.
pub open spec fn chunk_from(size: u32, chunk: nat) -> nat
    decreases (if chunk < 33554432 { 33554432 - chunk } else { 0 }),
{
    if chunk >= size || chunk >= 33554432 || chunk == 0 {
        chunk
    } else {
        chunk_from(size, 2 * chunk)
    }
}

/// The size of the chunk that the allocator takes for `size` bytes: the least power of two that
/// is at least `size`, and at least eight.
pub open spec fn chunk_of(size: u32) -> nat {
    chunk_from(size, 8)
}

/// The number of doublings that lead from `chunk` to `chunk_from(size, chunk)`, counted on
/// from `order`.
pub open spec fn order_from(size: u32, chunk: nat, order: nat) -> nat
    decreases (if chunk < 33554432 { 33554432 - chunk } else { 0 }),
{
    if chunk >= size || chunk >= 33554432 || chunk == 0 {
        order
    } else {
        order_from(size, 2 * chunk, order + 1)
    }
}

/// The word that the allocator writes in front of a chunk for `size` bytes: the mark of a chunk
/// in use in its upper half, and in its lower half the number of doublings that lead from eight
/// to the size of the chunk.
pub open spec fn header_of(size: u32) -> u64 {
    (0x1_0000_0000 + order_from(size, 8, 0)) as u64
}

/// The number of bytes of a memory of `size` bytes that the allocator can reach: all of them,
/// up to the end of the 32-bit address space.
pub open spec fn reach(size: nat) -> nat {
    if size > u32::MAX {
        u32::MAX as nat
    } else {
        size
    }
}

/// What a fresh allocator whose heap starts at `heap_base` answers when it is asked for `size`
/// bytes of `memory`, and the memory that it leaves.
///
/// More than `MAX_POSSIBLE_ALLOCATION` bytes are refused as too many. Else the chunk is taken
/// at the rounded heap base, with its header of eight bytes before it: where chunk and header
/// do not end inside the memory and the 32-bit address space, the heap is out of space; else
/// the header is written and the place after it is the answer. The allocator measures the
/// memory as it is, so a payload is refused where its chunk does not fit, though the payload
/// alone would.
pub open spec fn allocation_of(heap_base: u32, memory: Seq<u8>, size: u32) -> (
    Seq<u8>,
    Result<u32, sc_allocator::Error>,
) {
    if size > MAX_POSSIBLE_ALLOCATION {
        (memory, Err(sc_allocator::Error::RequestedAllocationTooLarge))
    } else if aligned_base(heap_base) + chunk_of(size) + 8 > reach(memory.len()) {
        (memory, Err(sc_allocator::Error::AllocatorOutOfSpace))
    } else {
        (
            written(memory, aligned_base(heap_base) as u32, le_bytes(header_of(size))),
            Ok((aligned_base(heap_base) + 8) as u32),
        )
    }
}

/// `FreeingBumpHeapAllocator::new` and one `allocate` on it, as every call makes them: a fresh
/// allocator whose heap starts at `heap_base` is asked for `size` bytes of `memory`, which it
/// reaches as the byte slice that it is. Its answer is `allocation_of`. The bounds keep its
/// 32-bit sums and its measure of the memory from overflowing: it adds eight to the heap base
/// before anything else, it measures the memory by a 32-bit number, and it adds the size of
/// chunk and header to the rounded heap base.
#[verifier::external_body]
fn fresh_allocation(heap_base: u32, memory: &mut [u8], size: u32) -> (res: Result<
    u32,
    sc_allocator::Error,
>)
    requires
        old(memory)@.len() <= u32::MAX,
        heap_base <= u32::MAX - 8,
        size <= MAX_POSSIBLE_ALLOCATION ==> aligned_base(heap_base) + chunk_of(size) + 8
            <= u32::MAX,
    ensures
        (final(memory)@, res) == allocation_of(heap_base, old(memory)@, size),
{
    sc_allocator::FreeingBumpHeapAllocator::new(heap_base).allocate(memory, size).map(u32::from)
}

/// The size of the chunk for `size` bytes.
fn chunk_size(size: u32) -> (chunk: u32)
    requires
        size <= MAX_POSSIBLE_ALLOCATION,
    ensures
        chunk == chunk_of(size),
        chunk <= 2 * MAX_POSSIBLE_ALLOCATION,
{
    let mut chunk: u32 = 8;
    while chunk < size
        invariant
            0 < chunk <= 2 * MAX_POSSIBLE_ALLOCATION,
            size <= MAX_POSSIBLE_ALLOCATION,
            chunk_from(size, chunk as nat) == chunk_of(size),
        decreases 2 * MAX_POSSIBLE_ALLOCATION - chunk,
    {
        chunk = chunk * 2;
    }
    chunk
}

/// Asks a fresh allocator for `size` bytes above `heap_base`. The allocator is handed the
/// memory up to the end of the 32-bit address space, which is all that it can measure. Where
/// the chunk and its header would end beyond that, no memory has room for them, and the
/// allocator is not asked.
pub fn allocate(heap_base: u32, memory: &mut [u8], size: u32) -> (res: Result<
    u32,
    sc_allocator::Error,
>)
    ensures
        (final(memory)@, res) == allocation_of(heap_base, old(memory)@, size),
{
    if size <= MAX_POSSIBLE_ALLOCATION {
        let chunk = chunk_size(size);
        let end: u64 = (heap_base as u64 + 7) / 8 * 8 + chunk as u64 + 8;
        if end > u32::MAX as u64 {
            return Err(sc_allocator::Error::AllocatorOutOfSpace);
        }
    } else if heap_base > u32::MAX - 8 {
        return Err(sc_allocator::Error::RequestedAllocationTooLarge);
    }
    if memory.len() > u32::MAX as usize {
        let (within, beyond) = memory.split_at_mut(u32::MAX as usize);
        let ghost before = within@;
        let res = fresh_allocation(heap_base, within, size);
        proof {
            assert(old(memory)@ =~= before + beyond@);
            if res is Ok {
                assert(written(
                    old(memory)@,
                    aligned_base(heap_base) as u32,
                    le_bytes(header_of(size)),
                ) =~= within@ + beyond@);
            }
        }
        res
    } else {
        fresh_allocation(heap_base, memory, size)
    }
}

/// The chunk for `size` bytes holds them.
pub proof fn lemma_chunk_holds(size: u32, chunk: nat)
    requires
        size <= MAX_POSSIBLE_ALLOCATION,
        0 < chunk,
    ensures
        chunk_from(size, chunk) >= size,
        chunk_from(size, chunk) >= chunk,
    decreases (if chunk < 33554432 { 33554432 - chunk } else { 0 }),
{
    if !(chunk >= size || chunk >= 33554432) {
        lemma_chunk_holds(size, 2 * chunk);
    }
}

/// The memory and the result of `inject_input_data`.
pub open spec fn injected(
    memory: Seq<u8>,
    allocation: Result<u32, sc_allocator::Error>,
    data: Seq<u8>,
) -> (Seq<u8>, Result<(u32, u32), WasmError>) {
    if data.len() > u32::MAX {
        (memory, Err(WasmError::Allocator(sc_allocator::Error::RequestedAllocationTooLarge)))
    } else {
        match allocation {
            Err(e) => (memory, Err(WasmError::Allocator(e))),
            Ok(ptr) => if in_bounds(memory.len(), ptr, data.len()) {
                (written(memory, ptr, data), Ok((ptr, data.len() as u32)))
            } else {
                (memory, Err(WasmError::InvalidMemory))
            },
        }
    }
}

/// Puts the payload of a call into the guest's memory, at the place that the heap allocator gave
/// for it, and hands back that place and the payload's length. Fails where the payload is too
/// long for a 32-bit length, where the allocator refused, and where the place does not lie
/// inside the memory; nothing is written then.
pub fn inject_input_data(
    memory: &mut [u8],
    allocation: Result<u32, sc_allocator::Error>,
    data: &[u8],
) -> (res: Result<(u32, u32), WasmError>)
    ensures
        final(memory)@ == injected(old(memory)@, allocation, data@).0,
        res == injected(old(memory)@, allocation, data@).1,
{
    if data.len() > u32::MAX as usize {
        return Err(WasmError::Allocator(sc_allocator::Error::RequestedAllocationTooLarge));
    }
    let data_len: u32 = data.len() as u32;
    let data_ptr = match allocation {
        Ok(ptr) => ptr,
        Err(e) => {
            return Err(WasmError::Allocator(e));
        },
    };
    match write_memory_from(memory, data_ptr, data) {
        Ok(()) => Ok((data_ptr, data_len)),
        Err(e) => Err(e),
    }
}

/// The parameters on which an export is run for a payload of `len` bytes at `ptr`: the two
/// numbers, each as a signed 32-bit integer of the same bit pattern.
pub open spec fn params_of(ptr: u32, len: u32) -> Seq<GuestValue> {
    seq![GuestValue::I32(reinterpret_u32(ptr)), GuestValue::I32(reinterpret_u32(len))]
}

/// The memory that `WasmEdgeInstance::globals_restored` leaves, and the place and the length of
/// the payload in it, or why the payload has no place.
///
/// A payload too long for a 32-bit length is refused as too large. Else a fresh allocator is
/// asked, and the payload written where it says.
pub open spec fn placed(heap_base: u32, memory: Seq<u8>, payload: Seq<u8>) -> (
    Seq<u8>,
    Result<(u32, u32), WasmError>,
) {
    if payload.len() > u32::MAX {
        (memory, Err(WasmError::Allocator(sc_allocator::Error::RequestedAllocationTooLarge)))
    } else {
        let (heap, allocation) = allocation_of(heap_base, memory, payload.len() as u32);
        injected(heap, allocation, payload)
    }
}

/// The bytes that `WasmEdgeInstance::returned` hands back: those that the returned word names
/// by its place in the low half and its length in the high half, if they all lie inside the
/// memory.
pub open spec fn output_of(memory: Seq<u8>, outcome: Result<Vec<GuestValue>, String>) -> Result<
    Seq<u8>,
    WasmError,
> {
    match returned_word(outcome) {
        Err(e) => Err(e),
        Ok(word) => if in_bounds(memory.len(), unpacked_ptr(word), unpacked_len(word) as nat) {
            Ok(
                memory.subrange(
                    unpacked_ptr(word) as int,
                    unpacked_ptr(word) + unpacked_len(word),
                ),
            )
        } else {
            Err(WasmError::InvalidMemory)
        },
    }
}

/// One instance of a runtime: its context, the lowest address of its heap, and the data segments
/// of its module.
pub struct WasmEdgeInstance {
    instance: InstanceWrapper,
    heap_base: u32,
    data_segments_snapshot: Arc<DataSegments>,
}

impl WasmEdgeInstance {
    /// The context of the instance.
    pub closed spec fn wrapper(&self) -> InstanceWrapper {
        self.instance
    }

    /// The lowest address of the heap.
    pub closed spec fn heap_base(&self) -> u32 {
        self.heap_base
    }

    /// The data segments of the module.
    pub closed spec fn data_segments(&self) -> Seq<(u32, Seq<u8>)> {
        self.data_segments_snapshot@
    }

    /// Starts a call: writes the data segments back into the memory. Fails where one of them
    /// does not lie inside the memory. Any way of choosing the export but by its name is a
    /// mistake of the caller.
    pub fn call(&self, method: InvokeMethod, memory: &mut [u8], data: &[u8]) -> (res: Result<
        RestoringGlobals,
        WasmError,
    >)
        requires
            method is Export,
        ensures
            final(memory)@.len() == old(memory)@.len(),
            final(memory)@ == restored(
                self.data_segments().take(
                    fitting_prefix(self.data_segments(), old(memory)@.len()) as int,
                ),
                old(memory)@,
            ),
            !segments_fit(self.data_segments(), old(memory)@.len()) ==> res == Err::<
                RestoringGlobals,
                WasmError,
            >(WasmError::InvalidMemory),
            segments_fit(self.data_segments(), old(memory)@.len()) ==> res is Ok
                && res->Ok_0.payload@ == data@ && (method matches InvokeMethod::Export(name)
                && res->Ok_0.export@ == name@),
    {
        match self.data_segments_snapshot.apply(memory) {
            Ok(()) => {},
            Err(e) => {
                return Err(e);
            },
        }
        let payload = vstd::slice::slice_to_vec(data);
        match method {
            InvokeMethod::Export(name) => Ok(RestoringGlobals { export: name.to_owned(), payload }),
            _ => {
                proof {
                    assert(false);
                }
                Err(WasmError::InvalidReturn)
            },
        }
    }

    /// Goes on once the globals are written back: a fresh heap allocator that starts at the heap
    /// base makes room for the payload, the payload is written there, and the export is to be
    /// run on that place and the payload's length: see `placed` and `params_of`.
    ///
    /// Fails where the payload is too long for a 32-bit length and where the allocator
    /// refuses. The memory is then as it was.
    pub fn globals_restored(&self, call: RestoringGlobals, memory: &mut [u8]) -> (res: Result<
        Invoking,
        WasmError,
    >)
        ensures
            final(memory)@ == placed(self.heap_base(), old(memory)@, call.payload@).0,
            match placed(self.heap_base(), old(memory)@, call.payload@).1 {
                Err(e) => res == Err::<Invoking, WasmError>(e),
                Ok((ptr, len)) => res is Ok && res->Ok_0.export == call.export
                    && res->Ok_0.params@ == params_of(ptr, len),
            },
    {
        if call.payload.len() > u32::MAX as usize {
            return Err(WasmError::Allocator(sc_allocator::Error::RequestedAllocationTooLarge));
        }
        let size: u32 = call.payload.len() as u32;
        let allocation = allocate(self.heap_base, memory, size);
        let (data_ptr, data_len) = match inject_input_data(
            memory,
            allocation,
            call.payload.as_slice(),
        ) {
            Ok(placed) => placed,
            Err(e) => {
                return Err(e);
            },
        };
        assert(data_ptr as i32 == reinterpret_u32(data_ptr)) by (bit_vector);
        assert(data_len as i32 == reinterpret_u32(data_len)) by (bit_vector);
        let mut params: Vec<GuestValue> = Vec::with_capacity(2);
        params.push(GuestValue::I32(data_ptr as i32));
        params.push(GuestValue::I32(data_len as i32));
        assert(params@ =~= params_of(data_ptr, data_len));
        Ok(Invoking { export: call.export, params })
    }

    /// Ends the call once the export has returned: takes the returned word apart into a pointer
    /// and a length, and reads that many bytes from that place. Fails as `InstanceWrapper::call`
    /// does, and where the bytes do not all lie inside the memory.
    pub fn returned(
        &self,
        call: Invoking,
        memory: &[u8],
        outcome: Result<Vec<GuestValue>, String>,
    ) -> (res: Result<Vec<u8>, WasmError>)
        ensures
            match output_of(memory@, outcome) {
                Err(e) => res == Err::<Vec<u8>, WasmError>(e),
                Ok(bytes) => res is Ok && res->Ok_0@ == bytes,
            },
    {
        let word = match self.instance.call(outcome) {
            Ok(word) => word,
            Err(e) => {
                return Err(e);
            },
        };
        let (output_ptr, output_len) = unpack_ptr_and_len(word);
        read_memory(memory, output_ptr, output_len)
    }
}

/// The 64-bit word that holds `ptr` in its low half and `len` in its high half.
pub open spec fn packed(ptr: u32, len: u32) -> u64 {
    ((len as u64) << 32) | (ptr as u64)
}

/// A pointer and a length that were packed into one word come out of it as they went in.
pub proof fn lemma_unpack_packed(ptr: u32, len: u32)
    ensures
        unpacked_ptr(packed(ptr, len)) == ptr,
        unpacked_len(packed(ptr, len)) == len,
{
    assert((((len as u64) << 32) | (ptr as u64)) & 0xffff_ffff == ptr as u64) by (bit_vector);
    assert((((len as u64) << 32) | (ptr as u64)) >> 32 == len as u64) by (bit_vector);
}

/// How a whole call ends, from the memory that it finds to the bytes that it hands back: what
/// `call`, `globals_restored` and `returned` make of it, one after the other, with the engine
/// running the export in between.
///
/// `run` is the guest with its mutable globals written back: from the memory, the name of an
/// export and the parameters to the memory that it leaves and the engine's answer.
pub open spec fn call_result(
    instance: WasmEdgeInstance,
    run: spec_fn(Seq<u8>, String, Seq<GuestValue>) -> (Seq<u8>, Result<Vec<GuestValue>, String>),
    memory: Seq<u8>,
    export: String,
    data: Seq<u8>,
) -> Result<Seq<u8>, WasmError> {
    if !segments_fit(instance.data_segments(), memory.len()) {
        Err(WasmError::InvalidMemory)
    } else {
        let clean = restored(instance.data_segments(), memory);
        let (ready, place) = placed(instance.heap_base(), clean, data);
        match place {
            Err(e) => Err(e),
            Ok((ptr, len)) => {
                let (after, outcome) = run(ready, export, params_of(ptr, len));
                output_of(after, outcome)
            },
        }
    }
}

/// `call_result` is what the three steps of a call come to. Given what `call` ensures of the
/// memory `first` that it leaves, what `globals_restored` ensures of the memory `second` and of
/// the parameters, and what `returned` ensures of its result on the memory and the answer that
/// `run` gives, the result is `call_result`.
pub proof fn lemma_steps_give_call_result(
    instance: WasmEdgeInstance,
    run: spec_fn(Seq<u8>, String, Seq<GuestValue>) -> (Seq<u8>, Result<Vec<GuestValue>, String>),
    memory: Seq<u8>,
    export: String,
    data: Seq<u8>,
    first: Seq<u8>,
    second: Seq<u8>,
    params: Seq<GuestValue>,
)
    requires
        segments_fit(instance.data_segments(), memory.len()),
        first == restored(
            instance.data_segments().take(
                fitting_prefix(instance.data_segments(), memory.len()) as int,
            ),
            memory,
        ),
        second == placed(instance.heap_base(), first, data).0,
        placed(instance.heap_base(), first, data).1 matches Ok((ptr, len)) && params == params_of(
            ptr,
            len,
        ),
    ensures
        call_result(instance, run, memory, export, data) == output_of(
            run(second, export, params).0,
            run(second, export, params).1,
        ),
{
    crate::snapshot::lemma_fitting_prefix(instance.data_segments(), memory.len());
    assert(instance.data_segments().take(instance.data_segments().len() as int)
        =~= instance.data_segments());
}

/// Whether a memory of `size` bytes has room for a payload of `len` bytes above `heap_base`:
/// the payload is no longer than one allocation may be, and its chunk with the header ends
/// inside the memory and inside the 32-bit address space.
pub open spec fn has_room(heap_base: u32, size: nat, len: nat) -> bool {
    &&& len <= MAX_POSSIBLE_ALLOCATION
    &&& aligned_base(heap_base) + chunk_of(len as u32) + 8 <= reach(size)
}

/// Where the memory has room, the payload is placed: eight bytes above the rounded heap base,
/// byte for byte. Only the payload and the eight bytes before it have changed, so nothing
/// below the heap base has. Where the payload is not placed, the memory is as it was.
pub proof fn lemma_placed(heap_base: u32, memory: Seq<u8>, payload: Seq<u8>)
    ensures
        placed(heap_base, memory, payload).0.len() == memory.len(),
        placed(heap_base, memory, payload).1 is Ok <==> has_room(
            heap_base,
            memory.len(),
            payload.len(),
        ),
        placed(heap_base, memory, payload).1 is Err ==> placed(heap_base, memory, payload).0
            == memory,
        placed(heap_base, memory, payload).1 matches Ok((ptr, len)) ==> {
            &&& ptr == aligned_base(heap_base) + 8
            &&& len == payload.len()
            &&& in_bounds(memory.len(), ptr, payload.len())
            &&& placed(heap_base, memory, payload).0.subrange(ptr as int, ptr + len) == payload
            &&& placed(heap_base, memory, payload).0.subrange(ptr - 8, ptr as int) == le_bytes(
                header_of(len),
            )
            &&& forall|at: int|
                0 <= at < memory.len() && !(ptr - 8 <= at < ptr + len) ==> placed(
                    heap_base,
                    memory,
                    payload,
                ).0[at] == memory[at]
        },
{
    if payload.len() <= u32::MAX {
        let size = payload.len() as u32;
        if size <= MAX_POSSIBLE_ALLOCATION {
            lemma_chunk_holds(size, 8);
            if aligned_base(heap_base) + chunk_of(size) + 8 <= reach(memory.len()) {
                let base = aligned_base(heap_base) as u32;
                let heap = written(memory, base, le_bytes(header_of(size)));
                crate::util::lemma_read_back(memory, base, le_bytes(header_of(size)));
                crate::util::lemma_read_back(heap, (base + 8) as u32, payload);
                assert(placed(heap_base, memory, payload).0.subrange(base as int, base + 8)
                    =~= le_bytes(header_of(size)));
            }
        }
    }
}

/// Whether two memories have the same length and hold the same byte wherever a call leaves
/// the byte as it finds it: outside the data segments, and outside the place of a payload of
/// `len` bytes with its header.
pub open spec fn agree_where_kept(
    segments: Seq<(u32, Seq<u8>)>,
    heap_base: u32,
    len: nat,
    first: Seq<u8>,
    second: Seq<u8>,
) -> bool {
    &&& first.len() == second.len()
    &&& forall|at: int|
        0 <= at < first.len() && !crate::snapshot::covered(segments, at) && !(aligned_base(
            heap_base,
        ) <= at < aligned_base(heap_base) + 8 + len) ==> first[at] == second[at]
}

/// Two calls of one export with one payload end alike, on one instance or on two instances of
/// one runtime, whenever the memories that they find have the same length and differ only
/// where the call writes before the export runs: in the data segments, and at the place of the
/// payload and its header. What an earlier call left there is gone.
pub proof fn lemma_call_forgets_history(
    first_instance: WasmEdgeInstance,
    second_instance: WasmEdgeInstance,
    run: spec_fn(Seq<u8>, String, Seq<GuestValue>) -> (Seq<u8>, Result<Vec<GuestValue>, String>),
    first: Seq<u8>,
    second: Seq<u8>,
    export: String,
    data: Seq<u8>,
)
    requires
        first_instance.data_segments() == second_instance.data_segments(),
        first_instance.heap_base() == second_instance.heap_base(),
        agree_where_kept(
            first_instance.data_segments(),
            first_instance.heap_base(),
            data.len(),
            first,
            second,
        ),
    ensures
        call_result(first_instance, run, first, export, data) == call_result(
            second_instance,
            run,
            second,
            export,
            data,
        ),
{
    let segments = first_instance.data_segments();
    let heap_base = first_instance.heap_base();
    if segments_fit(segments, first.len()) {
        let clean = restored(segments, first);
        let other = restored(segments, second);
        crate::snapshot::lemma_restored_is_pristine(segments, first, second);
        crate::snapshot::lemma_restored_is_pristine(segments, second, first);
        lemma_placed(heap_base, clean, data);
        lemma_placed(heap_base, other, data);
        if placed(heap_base, clean, data).1 is Ok {
            let ptr = placed(heap_base, clean, data).1->Ok_0.0;
            let len = placed(heap_base, clean, data).1->Ok_0.1;
            let ready = placed(heap_base, clean, data).0;
            let again = placed(heap_base, other, data).0;
            assert forall|at: int| 0 <= at < ready.len() implies ready[at] == again[at] by {
                if ptr - 8 <= at < ptr {
                    assert(ready[at] == ready.subrange(ptr - 8, ptr as int)[at - (ptr - 8)]);
                    assert(again[at] == again.subrange(ptr - 8, ptr as int)[at - (ptr - 8)]);
                } else if ptr <= at < ptr + len {
                    assert(ready[at] == ready.subrange(ptr as int, ptr + len)[at - ptr]);
                    assert(again[at] == again.subrange(ptr as int, ptr + len)[at - ptr]);
                } else {
                    if crate::snapshot::covered(segments, at) {
                        assert(clean[at] == other[at]);
                    } else {
                        assert(clean[at] == first[at]);
                        assert(other[at] == second[at]);
                    }
                }
            }
            assert(ready =~= again);
        }
    }
}

/// A call on the memory that an earlier call has left ends as that call did, where the export
/// has changed the memory only in the data segments and at the place of the payload and its
/// header: one instance called twice gives the same output twice.
pub proof fn lemma_second_call(
    instance: WasmEdgeInstance,
    run: spec_fn(Seq<u8>, String, Seq<GuestValue>) -> (Seq<u8>, Result<Vec<GuestValue>, String>),
    memory: Seq<u8>,
    export: String,
    data: Seq<u8>,
)
    requires
        segments_fit(instance.data_segments(), memory.len()),
        placed(instance.heap_base(), restored(instance.data_segments(), memory), data).1 is Ok,
        ({
            let (ready, place) = placed(
                instance.heap_base(),
                restored(instance.data_segments(), memory),
                data,
            );
            agree_where_kept(
                instance.data_segments(),
                instance.heap_base(),
                data.len(),
                memory,
                run(ready, export, params_of(place->Ok_0.0, place->Ok_0.1)).0,
            )
        }),
    ensures
        ({
            let (ready, place) = placed(
                instance.heap_base(),
                restored(instance.data_segments(), memory),
                data,
            );
            call_result(
                instance,
                run,
                run(ready, export, params_of(place->Ok_0.0, place->Ok_0.1)).0,
                export,
                data,
            ) == call_result(instance, run, memory, export, data)
        }),
{
    let (ready, place) = placed(
        instance.heap_base(),
        restored(instance.data_segments(), memory),
        data,
    );
    lemma_call_forgets_history(
        instance,
        instance,
        run,
        memory,
        run(ready, export, params_of(place->Ok_0.0, place->Ok_0.1)).0,
        export,
        data,
    );
}

/// An export that hands its two parameters back, packed into one word, and leaves the memory
/// as it is, returns the payload: whole and unchanged, whatever its length, wherever the
/// memory has room for it.
pub proof fn lemma_pass_through(
    instance: WasmEdgeInstance,
    run: spec_fn(Seq<u8>, String, Seq<GuestValue>) -> (Seq<u8>, Result<Vec<GuestValue>, String>),
    memory: Seq<u8>,
    export: String,
    data: Seq<u8>,
)
    requires
        segments_fit(instance.data_segments(), memory.len()),
        has_room(instance.heap_base(), memory.len(), data.len()),
        forall|ready: Seq<u8>, ptr: u32, len: u32|
            #![trigger run(ready, export, params_of(ptr, len))]
            run(ready, export, params_of(ptr, len)).0 == ready && returned_word(
                run(ready, export, params_of(ptr, len)).1,
            ) == Ok::<u64, WasmError>(packed(ptr, len)),
    ensures
        call_result(instance, run, memory, export, data) == Ok::<Seq<u8>, WasmError>(data),
{
    let clean = restored(instance.data_segments(), memory);
    crate::snapshot::lemma_restored_is_pristine(instance.data_segments(), memory, memory);
    lemma_placed(instance.heap_base(), clean, data);
    let (ready, place) = placed(instance.heap_base(), clean, data);
    let ptr = place->Ok_0.0;
    let len = place->Ok_0.1;
    lemma_unpack_packed(ptr, len);
}

} // verus!
