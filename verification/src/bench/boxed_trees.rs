//! Full binary trees built to a depth and counted node by node, with every node, leaves
//! included, in an allocation of its own.
use vstd::prelude::*;

verus! {

/// A binary tree: a leaf has no children, a node two.
pub struct Tree {
    /// The two subtrees of a node; none for a leaf.
    pub children: Option<(Box<Tree>, Box<Tree>)>,
}

/// The full binary tree of depth `d`: a leaf at depth zero, and a node over two full trees of
/// depth `d - 1` otherwise.
pub open spec fn full_tree(d: nat) -> Tree
    decreases d,
{
    if d == 0 {
        Tree { children: None }
    } else {
        Tree {
            children: Some(
                (Box::new(full_tree((d - 1) as nat)), Box::new(full_tree((d - 1) as nat))),
            ),
        }
    }
}

/// The number of nodes and leaves of `t`.
pub open spec fn tree_size(t: Tree) -> nat
    decreases t,
{
    match t.children {
        None => 1,
        Some((l, r)) => 1 + tree_size(*l) + tree_size(*r),
    }
}

/// A full binary tree of depth `d` has `2^(d+1) - 1` nodes and leaves.
pub proof fn lemma_full_tree_size(d: nat)
    ensures
        tree_size(full_tree(d)) + 1 == vstd::arithmetic::power2::pow2(d + 1),
    decreases d,
{
    vstd::arithmetic::power2::lemma_pow2_unfold(d + 1);
    if d > 0 {
        lemma_full_tree_size((d - 1) as nat);
    } else {
        vstd::arithmetic::power2::lemma2_to64();
    }
}

/// The full binary tree of depth `d`.
pub fn make(d: i64) -> (t: Box<Tree>)
    requires
        d >= 0,
    ensures
        *t == full_tree(d as nat),
    decreases d,
{
    if d == 0 {
        Box::new(Tree { children: None })
    } else {
        Box::new(Tree { children: Some((make(d - 1), make(d - 1))) })
    }
}

/// The number of nodes and leaves of `t`.
pub fn check(t: &Tree) -> (r: i64)
    requires
        tree_size(*t) <= i64::MAX,
    ensures
        r == tree_size(*t),
    decreases t,
{
    match &t.children {
        None => 1,
        Some((l, r)) => 1 + check(l) + check(r),
    }
}

} // verus!
