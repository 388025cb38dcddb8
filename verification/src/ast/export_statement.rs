//! The type of a Fix value exported to C, split into the parts the C function is built from.
use crate::ast::types::TypeNode;
use std::sync::Arc;
use vstd::prelude::*;

verus! {

/// The type of an exported Fix value: `{doms} -> {codom}` where `io_type` is `Pure`,
/// `{doms} -> IO {codom}` where it is `IO`, and `{doms} -> IOState -> (IOState, {codom})` where
/// it is `IOState`.
pub struct ExportedFunctionType {
    /// The types of the arguments, in the order the C function takes them.
    pub doms: Vec<Arc<TypeNode>>,
    /// The type of the result, with the `IO` wrapper or the `IOState` threading taken off.
    pub codom: Arc<TypeNode>,
    /// How the value produces a result of type `codom`.
    pub io_type: IOType,
}

/// How an exported Fix value produces its result.
#[derive(PartialEq, Eq, Structural, Clone, Copy)]
pub enum IOType {
    /// The value is the result itself.
    Pure,
    /// The value is an `IO` action, which the C function runs.
    IO,
    /// The value takes an `IOState` token and gives it back beside the result.
    IOState,
}

} // verus!
