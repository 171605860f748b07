//! Repeated calls into the exports of a compiled WebAssembly binary, each from the same initial
//! state.
//!
//! The guest engine that runs the bytecode is not part of this library. The library decides what
//! the engine is asked to do and in which order, what is written to and read from the guest's
//! linear memory, and which error a failure becomes. Whoever drives the engine performs each
//! request and hands the answer back.
//!
//! The module is parsed and its data segments are taken out of it by `sc_executor_common`, the
//! heap is managed by `sc_allocator`, and a returned word is taken apart by
//! `sp_runtime_interface`. What is believed of them without proof is said at each place where
//! one of them is called.
//!
//! Two crates are named for the build's sake. `wasm-instrument` gives the names of the kinds of
//! export that a module can have, by which the export of the heap base is found.
//! `substrate-bip39` is held at 0.4.4: `sp-core` 17, which the allocator depends on, does not
//! compile with a later one.

pub mod error;
pub mod host;
pub mod instance_wrapper;
pub mod runtime;
pub mod snapshot;
pub mod util;
