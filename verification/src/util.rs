//! Values that cross between host and guest, and bounded access to the guest's linear memory.

use vstd::prelude::*;
use sp_wasm_interface::Value;
use crate::error::WasmError;
use crate::host::ValType;

verus! {

/// `sp_wasm_interface::Value`, the value as the host holds it, with the four variants that the
/// crate gives it: a 32-bit or a 64-bit integer, or a float of either width carried as an
/// unsigned integer.
#[verifier::external_type_specification]
pub struct ExValue(sp_wasm_interface::Value);

/// A value as the guest engine hands it over, by its tag. The four number kinds carry the number,
/// a float as its bit pattern, which is how the host stores it; the other kinds carry nothing,
/// for the host has no use for them.
#[derive(Clone, Copy, Debug, PartialEq, Eq)]
pub enum GuestValue {
    I32(i32),
    I64(i64),
    F32(u32),
    F64(u64),
    V128,
    FuncRef,
    ExternRef,
}

impl GuestValue {
    /// Whether the host has a value of this kind.
    pub open spec fn spec_is_supported(self) -> bool {
        self is I32 || self is I64 || self is F32 || self is F64
    }

    /// The kind of the value.
    pub open spec fn spec_ty(self) -> ValType {
        match self {
            GuestValue::I32(_) => ValType::I32,
            GuestValue::I64(_) => ValType::I64,
            GuestValue::F32(_) => ValType::F32,
            GuestValue::F64(_) => ValType::F64,
            GuestValue::V128 => ValType::V128,
            GuestValue::FuncRef => ValType::FuncRef,
            GuestValue::ExternRef => ValType::ExternRef,
        }
    }

    #[verifier::when_used_as_spec(spec_ty)]
    pub fn ty(self) -> (kind: ValType)
        ensures
            kind == self.spec_ty(),
    {
        match self {
            GuestValue::I32(_) => ValType::I32,
            GuestValue::I64(_) => ValType::I64,
            GuestValue::F32(_) => ValType::F32,
            GuestValue::F64(_) => ValType::F64,
            GuestValue::V128 => ValType::V128,
            GuestValue::FuncRef => ValType::FuncRef,
            GuestValue::ExternRef => ValType::ExternRef,
        }
    }

    #[verifier::when_used_as_spec(spec_is_supported)]
    pub fn is_supported(self) -> (b: bool)
        ensures
            b == self.spec_is_supported(),
    {
        match self {
            GuestValue::I32(_) => true,
            GuestValue::I64(_) => true,
            GuestValue::F32(_) => true,
            GuestValue::F64(_) => true,
            _ => false,
        }
    }
}

/// The host value that stands for a guest value of a supported kind: same kind, same number.
pub open spec fn host_value_of(val: GuestValue) -> Value
    recommends
        val.spec_is_supported(),
{
    match val {
        GuestValue::I32(n) => Value::I32(n),
        GuestValue::I64(n) => Value::I64(n),
        GuestValue::F32(n) => Value::F32(n),
        GuestValue::F64(n) => Value::F64(n),
        _ => arbitrary(),
    }
}

/// The guest value that stands for a host value: same kind, same number.
pub open spec fn guest_value_of(val: Value) -> GuestValue {
    match val {
        Value::I32(n) => GuestValue::I32(n),
        Value::I64(n) => GuestValue::I64(n),
        Value::F32(n) => GuestValue::F32(n),
        Value::F64(n) => GuestValue::F64(n),
    }
}

/// Turns a value of the guest engine into the host's. A kind that the host does not have is a
/// mistake of the caller.
pub fn from_wasmedge_val(val: GuestValue) -> (res: Value)
    requires
        val.spec_is_supported(),
    ensures
        res == host_value_of(val),
{
    match val {
        GuestValue::I32(n) => Value::I32(n),
        GuestValue::I64(n) => Value::I64(n),
        GuestValue::F32(n) => Value::F32(n),
        GuestValue::F64(n) => Value::F64(n),
        _ => {
            proof {
                assert(false);
            }
            Value::I32(0)
        },
    }
}

/// Turns a value of the host into the guest engine's.
pub fn into_wasmedge_val(val: Value) -> (res: GuestValue)
    ensures
        res == guest_value_of(val),
        res.spec_is_supported(),
{
    match val {
        Value::I32(n) => GuestValue::I32(n),
        Value::I64(n) => GuestValue::I64(n),
        Value::F32(n) => GuestValue::F32(n),
        Value::F64(n) => GuestValue::F64(n),
    }
}

/// Whether the `len` bytes from `ptr` on lie inside a memory of `size` bytes.
pub open spec fn in_bounds(size: nat, ptr: u32, len: nat) -> bool {
    ptr + len <= size
}

/// The memory `memory` with `data` written from `ptr` on.
pub open spec fn written(memory: Seq<u8>, ptr: u32, data: Seq<u8>) -> Seq<u8>
    recommends
        in_bounds(memory.len(), ptr, data.len()),
{
    Seq::new(
        memory.len(),
        |i: int|
            if ptr <= i < ptr + data.len() {
                data[i - ptr]
            } else {
                memory[i]
            },
    )
}

/// Copies `data` into the memory from `data_ptr` on. A range that does not lie inside the memory
/// is refused, and nothing is written.
pub fn write_memory_from(memory: &mut [u8], data_ptr: u32, data: &[u8]) -> (res: Result<
    (),
    WasmError,
>)
    ensures
        final(memory)@.len() == old(memory)@.len(),
        in_bounds(old(memory)@.len(), data_ptr, data@.len()) ==> res is Ok && final(memory)@
            == written(old(memory)@, data_ptr, data@),
        !in_bounds(old(memory)@.len(), data_ptr, data@.len()) ==> res == Err::<(), WasmError>(
            WasmError::InvalidMemory,
        ) && final(memory)@ == old(memory)@,
{
    let start: usize = data_ptr as usize;
    if start > memory.len() || data.len() > memory.len() - start {
        return Err(WasmError::InvalidMemory);
    }
    let mut i: usize = 0;
    while i < data.len()
        invariant
            i <= data@.len(),
            start == data_ptr,
            start + data@.len() <= memory@.len() <= usize::MAX,
            memory@.len() == old(memory)@.len(),
            forall|j: int|
                0 <= j < memory@.len() ==> memory@[j] == if start <= j < start + i {
                    data@[j - start]
                } else {
                    old(memory)@[j]
                },
        decreases data@.len() - i,
    {
        memory[start + i] = data[i];
        i = i + 1;
    }
    assert(memory@ =~= written(old(memory)@, data_ptr, data@));
    Ok(())
}

/// Reads the `len` bytes from `ptr` on. A range that does not lie inside the memory is refused:
/// what comes back is never shorter than what was asked for.
pub fn read_memory(memory: &[u8], ptr: u32, len: u32) -> (res: Result<Vec<u8>, WasmError>)
    ensures
        in_bounds(memory@.len(), ptr, len as nat) ==> res is Ok && res->Ok_0@ == memory@.subrange(
            ptr as int,
            ptr + len,
        ),
        !in_bounds(memory@.len(), ptr, len as nat) ==> res == Err::<Vec<u8>, WasmError>(
            WasmError::InvalidMemory,
        ),
{
    let start: usize = ptr as usize;
    let count: usize = len as usize;
    if start > memory.len() || count > memory.len() - start {
        return Err(WasmError::InvalidMemory);
    }
    let mut out: Vec<u8> = Vec::with_capacity(count);
    let mut i: usize = 0;
    while i < count
        invariant
            i <= count,
            start == ptr,
            count == len,
            start + count <= memory@.len() <= usize::MAX,
            out@ == memory@.subrange(start as int, start + i),
        decreases count - i,
    {
        out.push(memory[start + i]);
        i = i + 1;
        assert(out@ =~= memory@.subrange(start as int, start + i));
    }
    Ok(out)
}

/// A value of the host comes back unchanged from the guest's form, and a guest value of a
/// supported kind from the host's.
pub proof fn lemma_value_round_trip(host: Value, guest: GuestValue)
    ensures
        host_value_of(guest_value_of(host)) == host,
        guest.spec_is_supported() ==> guest_value_of(host_value_of(guest)) == guest,
{
}

/// What was written into the memory is read back from the same place byte for byte, and no
/// byte outside that place has changed.
pub proof fn lemma_read_back(memory: Seq<u8>, ptr: u32, data: Seq<u8>)
    requires
        in_bounds(memory.len(), ptr, data.len()),
    ensures
        written(memory, ptr, data).len() == memory.len(),
        written(memory, ptr, data).subrange(ptr as int, ptr + data.len()) == data,
        forall|at: int|
            0 <= at < memory.len() && !(ptr <= at < ptr + data.len()) ==> written(
                memory,
                ptr,
                data,
            )[at] == memory[at],
{
    assert(written(memory, ptr, data).subrange(ptr as int, ptr + data.len()) =~= data);
}

} // verus!
