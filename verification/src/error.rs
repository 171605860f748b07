//! Failures, by what went wrong and where.

use vstd::prelude::*;

verus! {

/// `sc_allocator::Error`, what the heap allocator says when it refuses a request, with the four
/// variants that the crate gives it.
#[verifier::external_type_specification]
pub struct ExAllocatorError(sc_allocator::Error);

/// One operation of the guest engine that building a live context asks for.
#[derive(Clone, Copy, Debug, PartialEq, Eq)]
pub enum SetupStep {
    /// Make the engine's loader.
    CreateLoader,
    /// Parse the stored bytecode into a module.
    LoadModule,
    /// Make the import namespace `module`.
    CreateImportObject { module: &'static str },
    /// Describe a linear memory of `min_pages` pages that may grow to `max_pages`.
    CreateMemoryType { min_pages: u32, max_pages: u32 },
    /// Make the linear memory that was described.
    CreateMemory,
    /// Put the linear memory into the import namespace as `name`.
    AddMemory { name: &'static str },
    /// Put host function number `index` of the registry into the import namespace, under its own
    /// name.
    AddFunction { index: usize },
    /// Make the virtual machine.
    CreateVm,
    /// Register the import namespace with the virtual machine.
    RegisterImports,
    /// Link the module against the imports and register it as `name`.
    RegisterModule { name: &'static str },
    /// Take the store out of the virtual machine.
    AcquireStore,
    /// Find the linear memory `name` of the namespace `module` in the store.
    FindMemory { module: &'static str, name: &'static str },
    /// Take the store out of the virtual machine, to read a global.
    LocateStore,
    /// Find the global `name` of the module `module` in the store.
    FindGlobal { module: &'static str, name: &'static str },
}

/// The five kinds of failure that a caller can tell apart.
#[derive(Clone, Copy, Debug, PartialEq, Eq)]
pub enum ErrorKind {
    /// The bytecode cannot be loaded, or lacks what a runtime needs.
    Module,
    /// The memory or a host function could not be bound, or the module not linked.
    ImportBinding,
    /// A read or a write crossed the bounds of the linear memory.
    MemoryAccess,
    /// The export is missing, trapped, or returned something else than one 64-bit integer.
    Invocation,
    /// The heap allocator refused the request.
    Allocation,
}

/// Why a runtime could not be made, an instance not built, or a call not completed.
#[derive(Debug)]
pub enum WasmError {
    /// The engine failed at this step while a live context was built.
    Setup(SetupStep),
    /// The static data of the bytecode could not be captured; the text says why.
    Snapshot(String),
    /// The module exports no global `__heap_base`.
    HeapBaseNotFound,
    /// The building that was handed over is not one that the runtime has started.
    ForeignBuilding,
    /// A read or a write crossed the bounds of the linear memory.
    InvalidMemory,
    /// The export could not be run to its end; the text is the engine's.
    Invocation(String),
    /// The export returned something else than exactly one 64-bit integer.
    InvalidReturn,
    /// The heap allocator refused to make room for the payload.
    Allocator(sc_allocator::Error),
}

impl SetupStep {
    /// The kind of failure that a failed step is.
    pub open spec fn spec_kind(self) -> ErrorKind {
        match self {
            SetupStep::CreateLoader => ErrorKind::Module,
            SetupStep::LoadModule => ErrorKind::Module,
            SetupStep::LocateStore => ErrorKind::Module,
            SetupStep::FindGlobal { .. } => ErrorKind::Module,
            _ => ErrorKind::ImportBinding,
        }
    }

    /// The short text that names the failure of this step, for the steps that have one. A
    /// bytecode that does not parse and a memory that cannot be made are told by the step alone.
    pub open spec fn spec_describe(self) -> Option<&'static str> {
        match self {
            SetupStep::CreateLoader => Some("loader create err"),
            SetupStep::CreateImportObject { .. } => Some("ImportObj create err"),
            SetupStep::CreateVm => Some("VM create err"),
            SetupStep::RegisterImports => Some("vm regist import err"),
            SetupStep::RegisterModule { .. } => Some("vm regist module err"),
            SetupStep::AcquireStore => Some("store err"),
            SetupStep::FindMemory { .. } => Some("memory not found"),
            SetupStep::LocateStore => Some("store not found in vm"),
            SetupStep::FindGlobal { .. } => Some("global __heap_base not found"),
            _ => None,
        }
    }

    #[verifier::when_used_as_spec(spec_kind)]
    pub fn kind(self) -> (k: ErrorKind)
        ensures
            k == self.spec_kind(),
    {
        match self {
            SetupStep::CreateLoader => ErrorKind::Module,
            SetupStep::LoadModule => ErrorKind::Module,
            SetupStep::LocateStore => ErrorKind::Module,
            SetupStep::FindGlobal { .. } => ErrorKind::Module,
            _ => ErrorKind::ImportBinding,
        }
    }

    #[verifier::when_used_as_spec(spec_describe)]
    pub fn describe(self) -> (text: Option<&'static str>)
        ensures
            text == self.spec_describe(),
    {
        match self {
            SetupStep::CreateLoader => Some("loader create err"),
            SetupStep::CreateImportObject { .. } => Some("ImportObj create err"),
            SetupStep::CreateVm => Some("VM create err"),
            SetupStep::RegisterImports => Some("vm regist import err"),
            SetupStep::RegisterModule { .. } => Some("vm regist module err"),
            SetupStep::AcquireStore => Some("store err"),
            SetupStep::FindMemory { .. } => Some("memory not found"),
            SetupStep::LocateStore => Some("store not found in vm"),
            SetupStep::FindGlobal { .. } => Some("global __heap_base not found"),
            _ => None,
        }
    }
}

impl WasmError {
    /// The kind of failure that this error is.
    pub open spec fn spec_kind(&self) -> ErrorKind {
        match self {
            WasmError::Setup(step) => step.spec_kind(),
            WasmError::Snapshot(_) => ErrorKind::Module,
            WasmError::HeapBaseNotFound => ErrorKind::Module,
            WasmError::ForeignBuilding => ErrorKind::ImportBinding,
            WasmError::InvalidMemory => ErrorKind::MemoryAccess,
            WasmError::Invocation(_) => ErrorKind::Invocation,
            WasmError::InvalidReturn => ErrorKind::Invocation,
            WasmError::Allocator(_) => ErrorKind::Allocation,
        }
    }

    #[verifier::when_used_as_spec(spec_kind)]
    pub fn kind(&self) -> (k: ErrorKind)
        ensures
            k == self.spec_kind(),
    {
        match self {
            WasmError::Setup(step) => step.kind(),
            WasmError::Snapshot(_) => ErrorKind::Module,
            WasmError::HeapBaseNotFound => ErrorKind::Module,
            WasmError::ForeignBuilding => ErrorKind::ImportBinding,
            WasmError::InvalidMemory => ErrorKind::MemoryAccess,
            WasmError::Invocation(_) => ErrorKind::Invocation,
            WasmError::InvalidReturn => ErrorKind::Invocation,
            WasmError::Allocator(_) => ErrorKind::Allocation,
        }
    }
}

} // verus!
