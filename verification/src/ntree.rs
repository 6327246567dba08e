//! The tree itself: the single owner of a root node.
use crate::ntree_node::NtreeNode;
use crate::ntree_node::NtreeNodeInterface;
use crate::tree::Tree;
use vstd::prelude::*;
use vstd::std_specs::cmp::PartialEqSpec;
use vstd::std_specs::cmp::PartialEqSpecImpl;
use vstd::std_specs::convert::FromSpecImpl;

verus! {

/// A tree of arity `N` over payloads of type `T`.
///
/// The tree owns its root node and is used through it: [`interface`] gives
/// shared access to the root, [`interface_mut`] exclusive access, and the
/// operations of
/// [`NtreeNodeInterface`](crate::ntree_node::NtreeNodeInterface) lead from
/// there to every other node.
///
/// [`interface`]: Ntree::interface
/// [`interface_mut`]: Ntree::interface_mut
pub struct Ntree<const N: usize, T> {
    root: NtreeNode<N, T>,
}

impl<const N: usize, T> View for Ntree<N, T> {
    type V = Tree<T>;

    closed spec fn view(&self) -> Tree<T> {
        self.root@
    }
}

impl<const N: usize, T> Ntree<N, T> {
    /// A tree whose root holds `default_data` and has no children.
    pub fn new(default_data: T) -> (tree: Self)
        ensures
            tree@ == Tree::leaf(default_data, N as nat),
    {
        Ntree { root: NtreeNode::new(default_data) }
    }

    /// Shared access to the root.
    pub fn interface(&self) -> (root: &NtreeNode<N, T>)
        ensures
            root@ == self@,
    {
        &self.root
    }

    /// Exclusive access to the root. The tree ends up as the caller leaves
    /// the root.
    pub fn interface_mut(&mut self) -> (root: &mut NtreeNode<N, T>)
        ensures
            root@ == old(self)@,
            final(self)@ == final(root)@,
    {
        &mut self.root
    }

    /// Every node of the tree has exactly `N` slots.
    pub proof fn lemma_view_arity(self)
        ensures
            self@.has_arity(N as nat),
    {
        self.root.lemma_view_arity();
    }
}

impl<const N: usize, T> From<NtreeNode<N, T>> for Ntree<N, T> {
    /// The tree that has `root` for its root.
    fn from(root: NtreeNode<N, T>) -> (tree: Self)
        ensures
            tree@ == root@,
    {
        Ntree { root }
    }
}

impl<const N: usize, T> FromSpecImpl<NtreeNode<N, T>> for Ntree<N, T> {
    open spec fn obeys_from_spec() -> bool {
        true
    }

    closed spec fn from_spec(root: NtreeNode<N, T>) -> Self {
        Ntree { root }
    }
}

impl<const N: usize, T: PartialEq> PartialEq for Ntree<N, T> {
    fn eq(&self, other: &Self) -> (same: bool) {
        self.root == other.root
    }
}

impl<const N: usize, T: PartialEq> PartialEqSpecImpl for Ntree<N, T> {
    open spec fn obeys_eq_spec() -> bool {
        T::obeys_eq_spec()
    }

    open spec fn eq_spec(&self, other: &Self) -> bool {
        self@.agrees(other@)
    }
}

impl<const N: usize, T: Eq> Eq for Ntree<N, T> {}

} // verus!
