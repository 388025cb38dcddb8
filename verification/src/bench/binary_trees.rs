//! Full binary trees built to a depth and counted node by node.
use vstd::prelude::*;

verus! {

/// A binary tree whose leaves carry nothing.
pub enum Tree {
    /// A leaf.
    Leaf,
    /// A node with its two subtrees.
    Node(Box<Tree>, Box<Tree>),
}

/// The full binary tree of depth `d`: a leaf at depth zero, and a node over two full trees of
/// depth `d - 1` otherwise.
pub open spec fn full_tree(d: nat) -> Tree
    decreases d,
{
    if d == 0 {
        Tree::Leaf
    } else {
        Tree::Node(Box::new(full_tree((d - 1) as nat)), Box::new(full_tree((d - 1) as nat)))
    }
}

/// The number of nodes and leaves of `t`.
pub open spec fn tree_size(t: Tree) -> nat
    decreases t,
{
    match t {
        Tree::Leaf => 1,
        Tree::Node(l, r) => 1 + tree_size(*l) + tree_size(*r),
    }
}

/// A full binary tree of depth `d` has `2^(d+1) - 1` nodes and leaves.
pub proof fn lemma_full_tree_size(d: nat)
    ensures
        tree_size(full_tree(d)) + 1 == vstd::arithmetic::power2::pow2(d + 1),
    decreases d,
{
    vstd::arithmetic::power2::lemma_pow2_unfold(d + 1);
    if d > 0 {
        lemma_full_tree_size((d - 1) as nat);
    } else {
        vstd::arithmetic::power2::lemma2_to64();
    }
}

/// The full binary tree of depth `d`.
pub fn make(d: i64) -> (t: Tree)
    requires
        d >= 0,
    ensures
        t == full_tree(d as nat),
    decreases d,
{
    if d == 0 {
        Tree::Leaf
    } else {
        Tree::Node(Box::new(make(d - 1)), Box::new(make(d - 1)))
    }
}

/// The number of nodes and leaves of `t`.
pub fn check(t: &Tree) -> (r: i64)
    requires
        tree_size(*t) <= i64::MAX,
    ensures
        r == tree_size(*t),
    decreases t,
{
    match t {
        Tree::Leaf => 1,
        Tree::Node(l, r) => 1 + check(l) + check(r),
    }
}

} // verus!
