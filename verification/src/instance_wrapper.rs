//! How one live context of the guest engine is built, and what its answers mean.

use vstd::prelude::*;
use crate::error::{SetupStep, WasmError};
use crate::host::HostFunction;
use crate::util::GuestValue;

verus! {

/// The import namespace into which the memory and the host functions are bound.
pub const IMPORT_MODULE: &'static str = "env";

/// The name under which the linear memory is bound.
pub const MEMORY_NAME: &'static str = "memory";

/// The name under which the guest module is registered.
pub const MODULE_NAME: &'static str = "default";

/// The exported global that holds the lowest address of the guest's heap.
pub const HEAP_BASE: &'static str = "__heap_base";

/// The number of bytes of one page of linear memory.
pub const PAGE_SIZE: u32 = 65536;

/// The number of pages up to which a memory may grow that is bounded by `max_memory_size`
/// bytes: the whole pages that fit into the bound, and where there is no bound, as many as a
/// 32-bit count can say.
pub open spec fn max_pages_of(max_memory_size: Option<u32>) -> u32 {
    match max_memory_size {
        Some(bytes) => bytes / PAGE_SIZE,
        None => u32::MAX,
    }
}

/// The engine operations that bind a memory of `heap_pages` pages, which may grow to
/// `max_pages`, and `host_functions` host functions into the import namespace and link the
/// module against it, in the order in which they are performed.
pub open spec fn binding_steps(heap_pages: u32, max_pages: u32, host_functions: nat) -> Seq<
    SetupStep,
> {
    seq![
        SetupStep::CreateImportObject { module: IMPORT_MODULE },
        SetupStep::CreateMemoryType { min_pages: heap_pages, max_pages },
        SetupStep::CreateMemory,
        SetupStep::AddMemory { name: MEMORY_NAME },
    ] + Seq::new(host_functions, |i: int| SetupStep::AddFunction { index: i as usize }) + seq![
        SetupStep::CreateVm,
        SetupStep::RegisterImports,
        SetupStep::RegisterModule { name: MODULE_NAME },
        SetupStep::AcquireStore,
        SetupStep::FindMemory { module: IMPORT_MODULE, name: MEMORY_NAME },
    ]
}

/// Appends the steps of `binding_steps` to `steps`.
pub(crate) fn push_binding_steps(
    steps: &mut Vec<SetupStep>,
    heap_pages: u32,
    max_pages: u32,
    host_functions: usize,
)
    ensures
        final(steps)@ == old(steps)@ + binding_steps(heap_pages, max_pages, host_functions as nat),
{
    let ghost before = steps@;
    steps.push(SetupStep::CreateImportObject { module: IMPORT_MODULE });
    steps.push(SetupStep::CreateMemoryType { min_pages: heap_pages, max_pages });
    steps.push(SetupStep::CreateMemory);
    steps.push(SetupStep::AddMemory { name: MEMORY_NAME });
    let mut i: usize = 0;
    while i < host_functions
        invariant
            i <= host_functions,
            steps@ == before + seq![
                SetupStep::CreateImportObject { module: IMPORT_MODULE },
                SetupStep::CreateMemoryType { min_pages: heap_pages, max_pages },
                SetupStep::CreateMemory,
                SetupStep::AddMemory { name: MEMORY_NAME },
            ] + Seq::new(i as nat, |k: int| SetupStep::AddFunction { index: k as usize }),
        decreases host_functions - i,
    {
        steps.push(SetupStep::AddFunction { index: i });
        i = i + 1;
        assert(steps@ =~= before + seq![
            SetupStep::CreateImportObject { module: IMPORT_MODULE },
            SetupStep::CreateMemoryType { min_pages: heap_pages, max_pages },
            SetupStep::CreateMemory,
            SetupStep::AddMemory { name: MEMORY_NAME },
        ] + Seq::new(i as nat, |k: int| SetupStep::AddFunction { index: k as usize }));
    }
    steps.push(SetupStep::CreateVm);
    steps.push(SetupStep::RegisterImports);
    steps.push(SetupStep::RegisterModule { name: MODULE_NAME });
    steps.push(SetupStep::AcquireStore);
    steps.push(SetupStep::FindMemory { module: IMPORT_MODULE, name: MEMORY_NAME });
    assert(steps@ =~= before + binding_steps(heap_pages, max_pages, host_functions as nat));
}

/// The number of pages up to which a memory bounded by `max_memory_size` bytes may grow.
pub fn max_pages(max_memory_size: Option<u32>) -> (res: u32)
    ensures
        res == max_pages_of(max_memory_size),
{
    match max_memory_size {
        Some(bytes) => bytes / PAGE_SIZE,
        None => u32::MAX,
    }
}

/// What the engine answered when it was asked for a global of the guest module.
#[derive(Clone, Copy, Debug, PartialEq, Eq)]
pub enum GlobalLookup {
    /// The virtual machine gave no store to look into.
    NoStore,
    /// The store holds no global of that name.
    NoGlobal,
    /// The global, read as a 32-bit integer.
    Found(i32),
}

/// The unsigned 32-bit integer with the bit pattern of `raw`.
pub open spec fn reinterpret_i32(raw: i32) -> u32 {
    if raw >= 0 {
        raw as u32
    } else {
        (raw + 0x1_0000_0000) as u32
    }
}

/// The unsigned 64-bit integer with the bit pattern of `raw`.
pub open spec fn reinterpret_i64(raw: i64) -> u64 {
    if raw >= 0 {
        raw as u64
    } else {
        (raw + 0x1_0000_0000_0000_0000) as u64
    }
}

/// What `InstanceWrapper::extract_heap_base` makes of the engine's answer.
pub open spec fn heap_base_of(lookup: GlobalLookup) -> Result<u32, WasmError> {
    match lookup {
        GlobalLookup::NoStore => Err(WasmError::Setup(SetupStep::LocateStore)),
        GlobalLookup::NoGlobal => Err(
            WasmError::Setup(SetupStep::FindGlobal { module: MODULE_NAME, name: HEAP_BASE }),
        ),
        GlobalLookup::Found(raw) => Ok(reinterpret_i32(raw)),
    }
}

/// What `InstanceWrapper::call` makes of the engine's answer: the only result of the export, a
/// 64-bit integer, by its bit pattern.
pub open spec fn returned_word(outcome: Result<Vec<GuestValue>, String>) -> Result<u64, WasmError> {
    match outcome {
        Err(text) => Err(WasmError::Invocation(text)),
        Ok(values) => if values@.len() == 1 && values@[0] is I64 {
            Ok(reinterpret_i64(values@[0]->I64_0))
        } else {
            Err(WasmError::InvalidReturn)
        },
    }
}

/// The building of one live context of the guest engine: the operations that the engine is asked
/// for, in order, and how many of them it has performed.
///
/// The context is ready when no step is left. A step that fails ends the building.
#[derive(Debug)]
pub struct InstanceWrapper {
    steps: Vec<SetupStep>,
    done: usize,
    loads: bool,
    heap_pages: u32,
    max_pages: u32,
    host_functions: usize,
}

/// The steps of a building: where it `loads`, the making of the loader and the parsing of the
/// bytecode, and then the steps of `binding_steps`.
pub open spec fn planned_steps(loads: bool, heap_pages: u32, max_pages: u32, host_functions: nat) -> Seq<
    SetupStep,
> {
    if loads {
        seq![SetupStep::CreateLoader, SetupStep::LoadModule] + binding_steps(
            heap_pages,
            max_pages,
            host_functions,
        )
    } else {
        binding_steps(heap_pages, max_pages, host_functions)
    }
}

/// Two plans are the same only if they were made for the same memory and as many host
/// functions, both with the loading or both without.
pub proof fn lemma_plans_differ(
    loads: bool,
    heap_pages: u32,
    max_pages: u32,
    host_functions: nat,
    other_loads: bool,
    other_heap_pages: u32,
    other_max_pages: u32,
    other_host_functions: nat,
)
    requires
        planned_steps(loads, heap_pages, max_pages, host_functions) == planned_steps(
            other_loads,
            other_heap_pages,
            other_max_pages,
            other_host_functions,
        ),
    ensures
        loads == other_loads,
        heap_pages == other_heap_pages,
        max_pages == other_max_pages,
        host_functions == other_host_functions,
{
    let plan = planned_steps(loads, heap_pages, max_pages, host_functions);
    let other = planned_steps(
        other_loads,
        other_heap_pages,
        other_max_pages,
        other_host_functions,
    );
    let binding = binding_steps(heap_pages, max_pages, host_functions);
    let other_binding = binding_steps(other_heap_pages, other_max_pages, other_host_functions);
    assert(binding.len() == host_functions + 9);
    assert(other_binding.len() == other_host_functions + 9);
    assert(binding[0] == (SetupStep::CreateImportObject { module: IMPORT_MODULE }));
    assert(other_binding[0] == (SetupStep::CreateImportObject { module: IMPORT_MODULE }));
    assert(binding[1] == (SetupStep::CreateMemoryType { min_pages: heap_pages, max_pages }));
    assert(other_binding[1] == (SetupStep::CreateMemoryType {
        min_pages: other_heap_pages,
        max_pages: other_max_pages,
    }));
    assert(plan[0] == if loads {
        SetupStep::CreateLoader
    } else {
        binding[0]
    });
    assert(other[0] == if other_loads {
        SetupStep::CreateLoader
    } else {
        other_binding[0]
    });
    assert(plan[0] == other[0]);
    assert(plan.len() == if loads {
        binding.len() + 2
    } else {
        binding.len()
    });
    assert(other.len() == if other_loads {
        other_binding.len() + 2
    } else {
        other_binding.len()
    });
    assert(plan.len() == other.len());
    if loads {
        assert(plan[3] == binding[1]);
        assert(other[3] == other_binding[1]);
    } else {
        assert(plan[1] == binding[1]);
        assert(other[1] == other_binding[1]);
    }
}

impl Clone for InstanceWrapper {
    /// A building with the same steps, and as many of them performed.
    fn clone(&self) -> (res: Self)
        ensures
            res.steps() == self.steps(),
            res.done() == self.done(),
    {
        proof {
            use_type_invariant(self);
        }
        let mut steps: Vec<SetupStep> = Vec::with_capacity(self.steps.len());
        let mut i: usize = 0;
        while i < self.steps.len()
            invariant
                i <= self.steps@.len(),
                steps@ == self.steps@.take(i as int),
            decreases self.steps@.len() - i,
        {
            steps.push(self.steps[i]);
            i = i + 1;
            assert(steps@ =~= self.steps@.take(i as int));
        }
        assert(self.steps@.take(i as int) =~= self.steps@);
        InstanceWrapper {
            steps,
            done: self.done,
            loads: self.loads,
            heap_pages: self.heap_pages,
            max_pages: self.max_pages,
            host_functions: self.host_functions,
        }
    }
}

impl InstanceWrapper {
    #[verifier::type_invariant]
    spec fn well_formed(&self) -> bool {
        &&& self.done <= self.steps@.len()
        &&& self.steps@ == planned_steps(
            self.loads,
            self.heap_pages,
            self.max_pages,
            self.host_functions as nat,
        )
    }

    /// All the steps of the building, performed or not, in order.
    pub closed spec fn steps(&self) -> Seq<SetupStep> {
        self.steps@
    }

    /// How many steps the engine has performed.
    pub closed spec fn done(&self) -> nat {
        self.done as nat
    }

    /// The step that the engine is to perform next, if one is left.
    pub open spec fn spec_next_step(&self) -> Option<SetupStep> {
        if self.done() < self.steps().len() {
            Some(self.steps()[self.done() as int])
        } else {
            None
        }
    }

    /// Whether no step is left.
    pub open spec fn spec_is_ready(&self) -> bool {
        self.done() == self.steps().len()
    }

    /// A building that starts with the steps of `planned_steps`, none of them performed.
    pub(crate) fn planned(
        loads: bool,
        heap_pages: u32,
        max_pages: u32,
        host_functions: usize,
    ) -> (res: Self)
        ensures
            res.steps() == planned_steps(loads, heap_pages, max_pages, host_functions as nat),
            res.done() == 0,
    {
        let mut steps: Vec<SetupStep> = Vec::new();
        if loads {
            steps.push(SetupStep::CreateLoader);
            steps.push(SetupStep::LoadModule);
        }
        push_binding_steps(&mut steps, heap_pages, max_pages, host_functions);
        assert(steps@ =~= planned_steps(loads, heap_pages, max_pages, host_functions as nat));
        InstanceWrapper { steps, done: 0, loads, heap_pages, max_pages, host_functions }
    }

    /// Whether the steps of this building are those of `planned_steps`.
    pub fn follows(&self, loads: bool, heap_pages: u32, max_pages: u32, host_functions: usize) -> (res:
        bool)
        ensures
            res == (self.steps() == planned_steps(
                loads,
                heap_pages,
                max_pages,
                host_functions as nat,
            )),
    {
        proof {
            use_type_invariant(self);
            if self.steps@ == planned_steps(loads, heap_pages, max_pages, host_functions as nat) {
                lemma_plans_differ(
                    self.loads,
                    self.heap_pages,
                    self.max_pages,
                    self.host_functions as nat,
                    loads,
                    heap_pages,
                    max_pages,
                    host_functions as nat,
                );
            }
        }
        self.loads == loads && self.heap_pages == heap_pages && self.max_pages == max_pages
            && self.host_functions == host_functions
    }

    /// Starts the building of a context with the host functions of the registry and a memory
    /// of `heap_pages` pages that may grow to `max_memory_size` bytes: see `binding_steps` and
    /// `max_pages_of`. Where the memory would start larger than it may grow, there is no such
    /// memory, and the building fails as it would at the step that describes the memory.
    pub fn new(
        heap_pages: u32,
        max_memory_size: Option<u32>,
        host_functions: &Vec<HostFunction>,
    ) -> (res: Result<Self, WasmError>)
        ensures
            heap_pages <= max_pages_of(max_memory_size) ==> res is Ok && res->Ok_0.steps()
                == binding_steps(
                heap_pages,
                max_pages_of(max_memory_size),
                host_functions@.len(),
            ) && res->Ok_0.done() == 0,
            heap_pages > max_pages_of(max_memory_size) ==> res == Err::<Self, WasmError>(
                WasmError::Setup(
                    SetupStep::CreateMemoryType {
                        min_pages: heap_pages,
                        max_pages: max_pages_of(max_memory_size),
                    },
                ),
            ),
    {
        let max_pages = max_pages(max_memory_size);
        if heap_pages > max_pages {
            return Err(
                WasmError::Setup(SetupStep::CreateMemoryType { min_pages: heap_pages, max_pages }),
            );
        }
        Ok(InstanceWrapper::planned(false, heap_pages, max_pages, host_functions.len()))
    }

    #[verifier::when_used_as_spec(spec_next_step)]
    pub fn next_step(&self) -> (res: Option<SetupStep>)
        ensures
            res == self.spec_next_step(),
    {
        proof {
            use_type_invariant(self);
        }
        if self.done < self.steps.len() {
            Some(self.steps[self.done])
        } else {
            None
        }
    }

    #[verifier::when_used_as_spec(spec_is_ready)]
    pub fn is_ready(&self) -> (res: bool)
        ensures
            res == self.spec_is_ready(),
            self.done() <= self.steps().len(),
    {
        proof {
            use_type_invariant(self);
        }
        self.done == self.steps.len()
    }

    /// Takes the engine's word on the step that was due. After a success the next step is due;
    /// a failure ends the building with the error of the failed step. Where no step was due,
    /// nothing changes.
    pub fn advance(self, succeeded: bool) -> (res: Result<Self, WasmError>)
        ensures
            match self.spec_next_step() {
                None => res is Ok && res->Ok_0.steps() == self.steps() && res->Ok_0.done()
                    == self.done(),
                Some(step) => if succeeded {
                    res is Ok && res->Ok_0.steps() == self.steps() && res->Ok_0.done()
                        == self.done() + 1
                } else {
                    res == Err::<Self, WasmError>(WasmError::Setup(step))
                },
            },
    {
        proof {
            use_type_invariant(&self);
        }
        if self.done < self.steps.len() {
            if succeeded {
                Ok(
                    InstanceWrapper {
                        steps: self.steps,
                        done: self.done + 1,
                        loads: self.loads,
                        heap_pages: self.heap_pages,
                        max_pages: self.max_pages,
                        host_functions: self.host_functions,
                    },
                )
            } else {
                Err(WasmError::Setup(self.steps[self.done]))
            }
        } else {
            Ok(self)
        }
    }

    /// The lowest address of the guest's heap: the bit pattern of the global `__heap_base`, read
    /// as an unsigned 32-bit integer. Fails where the engine found no such global.
    pub fn extract_heap_base(&self, lookup: GlobalLookup) -> (res: Result<u32, WasmError>)
        ensures
            res == heap_base_of(lookup),
    {
        match lookup {
            GlobalLookup::NoStore => Err(WasmError::Setup(SetupStep::LocateStore)),
            GlobalLookup::NoGlobal => Err(
                WasmError::Setup(SetupStep::FindGlobal { module: MODULE_NAME, name: HEAP_BASE }),
            ),
            GlobalLookup::Found(raw) => {
                assert(raw as u32 == reinterpret_i32(raw)) by (bit_vector);
                Ok(raw as u32)
            },
        }
    }

    /// The 64-bit word that an export returned. Fails where the export was missing or trapped,
    /// with the engine's text, and where it returned anything else than one 64-bit integer.
    pub fn call(&self, outcome: Result<Vec<GuestValue>, String>) -> (res: Result<u64, WasmError>)
        ensures
            res == returned_word(outcome),
    {
        match outcome {
            Err(text) => Err(WasmError::Invocation(text)),
            Ok(values) => {
                if values.len() != 1 {
                    return Err(WasmError::InvalidReturn);
                }
                match values[0] {
                    GuestValue::I64(raw) => {
                        assert(raw as u64 == reinterpret_i64(raw)) by (bit_vector);
                        Ok(raw as u64)
                    },
                    _ => Err(WasmError::InvalidReturn),
                }
            },
        }
    }
}

/// A heap base of any unsigned 32-bit value, zero and the largest included, comes out of its
/// global as it went in: the global holds its bit pattern as a signed integer.
pub proof fn lemma_heap_base_extraction(heap_base: u32)
    ensures
        heap_base_of(GlobalLookup::Found(crate::runtime::reinterpret_u32(heap_base))) == Ok::<
            u32,
            WasmError,
        >(heap_base),
{
}

/// The memory is bound first, with the growth bound that was asked for, then every host
/// function of the registry once and in its order, and only then is the virtual machine made
/// and the module linked.
pub proof fn lemma_binding_order(heap_pages: u32, max_pages: u32, host_functions: nat)
    ensures
        binding_steps(heap_pages, max_pages, host_functions).len() == host_functions + 9,
        binding_steps(heap_pages, max_pages, host_functions)[1] == (SetupStep::CreateMemoryType {
            min_pages: heap_pages,
            max_pages,
        }),
        binding_steps(heap_pages, max_pages, host_functions)[3] == (SetupStep::AddMemory {
            name: MEMORY_NAME,
        }),
        forall|i: int|
            0 <= i < host_functions ==> #[trigger] binding_steps(
                heap_pages,
                max_pages,
                host_functions,
            )[4 + i] == (SetupStep::AddFunction { index: i as usize }),
        binding_steps(heap_pages, max_pages, host_functions)[4 + host_functions as int]
            == SetupStep::CreateVm,
        binding_steps(heap_pages, max_pages, host_functions)[6 + host_functions as int] == (
        SetupStep::RegisterModule { name: MODULE_NAME }),
{
}

/// A memory that is bounded never grows beyond its bound: the pages that the plan allows hold
/// no more bytes than the bound.
pub proof fn lemma_growth_is_bounded(bytes: u32)
    ensures
        max_pages_of(Some(bytes)) * PAGE_SIZE <= bytes,
{
}

} // verus!
