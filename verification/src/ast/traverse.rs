//! What a visitor walking the expressions of a program answers as it enters a node.
use vstd::prelude::*;

verus! {

/// What a visitor answers as it enters a node: to go on into the node's children.
#[derive(PartialEq, Eq, Structural, Clone, Copy)]
pub enum StartVisitResult {
    /// Visit the node's children.
    VisitChildren,
}

} // verus!
