//! The host functions that a guest module may import.

use vstd::prelude::*;

verus! {

/// The kinds of value that the guest engine knows.
#[derive(Clone, Copy, Debug, PartialEq, Eq)]
pub enum ValType {
    I32,
    I64,
    F32,
    F64,
    V128,
    FuncRef,
    ExternRef,
}

/// A host function as the registry lists it: the name under which the guest imports it, and the
/// kinds of its parameters and of its results. The code behind it stays with whoever drives the
/// engine.
#[derive(Clone, Debug, PartialEq, Eq)]
pub struct HostFunction {
    pub name: String,
    pub params: Vec<ValType>,
    pub results: Vec<ValType>,
}

impl HostFunction {
    /// Lists a host function under `name`, with the given signature.
    pub fn wrap(name: String, params: Vec<ValType>, results: Vec<ValType>) -> (res: Self)
        ensures
            res.name == name,
            res.params == params,
            res.results == results,
    {
        HostFunction { name, params, results }
    }
}

} // verus!
