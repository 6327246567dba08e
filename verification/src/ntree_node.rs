//! Nodes, and the interface through which a node and its children are used.
use crate::slots::none_array;
use crate::tree::Tree;
use vstd::prelude::*;
use vstd::std_specs::cmp::PartialEqSpec;
use vstd::std_specs::cmp::PartialEqSpecImpl;

verus! {

/// What can be done with a node of arity `N` that carries a `T`.
///
/// A node is described by its view, a [`Tree`]: the payload and what each of
/// the `N` slots holds. Children are addressed by slot index. Each child
/// operation comes in two forms that differ only in how they treat an index:
/// the plain form requires `i < N` of its caller, the `bounded_` form accepts
/// any index, answers `None` for one that is out of range and then leaves the
/// node untouched.
///
/// Operations with `_mut` in their name hand out exclusive access to the child;
/// the others hand out shared access, through which nothing can be changed.
/// For an exclusive handle the contract relates the node's final value to the
/// final value of the child behind the handle, since the caller may go on to
/// change that child.
pub trait NtreeNodeInterface<const N: usize, T>: View<V = Tree<T>> + Sized {
    /// The node has exactly `N` slots, and so has every node below it.
    proof fn lemma_view_arity(&self)
        ensures
            self@.has_arity(N as nat),
    ;

    /// The payload of this node.
    fn get_data(&self) -> (data: &T)
        ensures
            *data == self@.data,
    ;

    /// Exclusive access to the payload of this node. Whatever the caller
    /// leaves there is the node's payload afterwards; no child is affected.
    fn get_data_mut(&mut self) -> (data: &mut T)
        ensures
            *data == old(self)@.data,
            final(self)@ == old(self)@.with_data(*final(data)),
    ;

    /// Replaces the payload and returns the previous one. No child is
    /// affected.
    fn set_data(&mut self, data: T) -> (previous: T)
        ensures
            previous == old(self)@.data,
            final(self)@ == old(self)@.with_data(data),
    ;

    /// Exclusive access to the child in slot `i`, if the slot is occupied.
    fn peek_mut(&mut self, i: usize) -> (child: Option<&mut Self>)
        requires
            i < N,
        ensures
            match old(self)@.child(i as int) {
                Some(sub) => child is Some && child.unwrap()@ == sub && final(self)@ == old(
                    self,
                )@.with_slot(i as int, Some(final(child.unwrap())@)),
                None => child is None && final(self)@ == old(self)@,
            },
    ;

    /// As [`peek_mut`](Self::peek_mut), for any index: one that is out of
    /// range yields `None`.
    fn bounded_peek_mut(&mut self, i: usize) -> (child: Option<&mut Self>)
        ensures
            child is Some ==> i < N,
            match old(self)@.child(i as int) {
                Some(sub) => child is Some && child.unwrap()@ == sub && final(self)@ == old(
                    self,
                )@.with_slot(i as int, Some(final(child.unwrap())@)),
                None => child is None && final(self)@ == old(self)@,
            },
    {
        proof {
            self.lemma_view_arity();
        }
        if i >= N {
            return None;
        }
        self.peek_mut(i)
    }

    /// Shared access to the child in slot `i`, if the slot is occupied.
    fn peek(&self, i: usize) -> (child: Option<&Self>)
        requires
            i < N,
        ensures
            match self@.child(i as int) {
                Some(sub) => child is Some && child.unwrap()@ == sub,
                None => child is None,
            },
    ;

    /// As [`peek`](Self::peek), for any index: one that is out of range
    /// yields `None`.
    fn bounded_peek(&self, i: usize) -> (child: Option<&Self>)
        ensures
            child is Some ==> i < N,
            match self@.child(i as int) {
                Some(sub) => child is Some && child.unwrap()@ == sub,
                None => child is None,
            },
    {
        proof {
            self.lemma_view_arity();
        }
        if i >= N {
            return None;
        }
        self.peek(i)
    }

    /// Puts a fresh child with `data` and no children of its own into slot
    /// `i`, dropping whatever subtree was there, and hands out exclusive
    /// access to the new child.
    fn push_mut(&mut self, i: usize, data: T) -> (child: &mut Self)
        requires
            i < N,
        ensures
            child@ == Tree::leaf(data, N as nat),
            final(self)@ == old(self)@.with_slot(i as int, Some(final(child)@)),
    ;

    /// As [`push_mut`](Self::push_mut), for any index: one that is out of
    /// range yields `None` and changes nothing.
    fn bounded_push_mut(&mut self, i: usize, data: T) -> (child: Option<&mut Self>)
        ensures
            child is Some <==> i < N,
            child is Some ==> child.unwrap()@ == Tree::leaf(data, N as nat) && final(self)@
                == old(self)@.with_slot(i as int, Some(final(child.unwrap())@)),
            child is None ==> final(self)@ == old(self)@,
    {
        if i >= N {
            return None;
        }
        Some(self.push_mut(i, data))
    }

    /// Puts a fresh child with `data` and no children of its own into slot
    /// `i`, dropping whatever subtree was there, and hands out shared access
    /// to the new child.
    fn push(&mut self, i: usize, data: T) -> (child: &Self)
        requires
            i < N,
        ensures
            child@ == Tree::leaf(data, N as nat),
            final(self)@ == old(self)@.pushed(i as int, data),
    {
        proof {
            self.lemma_view_arity();
        }
        self.push_mut(i, data)
    }

    /// As [`push`](Self::push), for any index: one that is out of range
    /// yields `None` and changes nothing.
    fn bounded_push(&mut self, i: usize, data: T) -> (child: Option<&Self>)
        ensures
            child is Some <==> i < N,
            child is Some ==> child.unwrap()@ == Tree::leaf(data, N as nat),
            final(self)@ == old(self)@.pushed(i as int, data),
            i >= N ==> final(self)@ == old(self)@,
    {
        proof {
            self.lemma_view_arity();
        }
        if i >= N {
            return None;
        }
        Some(self.push(i, data))
    }

    /// Shared access to the child in slot `i`; an empty slot is first filled
    /// with a fresh child that carries `default_data`. An occupied slot is
    /// left as it is and `default_data` is dropped.
    fn peek_or_push(&mut self, i: usize, default_data: T) -> (child: &Self)
        requires
            i < N,
        ensures
            child@ == old(self)@.child_or_leaf(i as int, default_data),
            final(self)@ == old(self)@.peek_or_pushed(i as int, default_data),
    {
        self.peek_or_push_mut(i, default_data)
    }

    /// As [`peek_or_push`](Self::peek_or_push), for any index: one that is
    /// out of range yields `None` and changes nothing.
    fn bounded_peek_or_push(&mut self, i: usize, default_data: T) -> (child: Option<&Self>)
        ensures
            child is Some <==> i < N,
            child is Some ==> child.unwrap()@ == old(self)@.child_or_leaf(i as int, default_data),
            final(self)@ == old(self)@.peek_or_pushed(i as int, default_data),
            i >= N ==> final(self)@ == old(self)@,
    {
        proof {
            self.lemma_view_arity();
        }
        if i >= N {
            return None;
        }
        Some(self.peek_or_push(i, default_data))
    }

    /// Exclusive access to the child in slot `i`; an empty slot is first
    /// filled with a fresh child that carries `default_data`. An occupied
    /// slot is left as it is and `default_data` is dropped.
    fn peek_or_push_mut(&mut self, i: usize, default_data: T) -> (child: &mut Self)
        requires
            i < N,
        ensures
            child@ == old(self)@.child_or_leaf(i as int, default_data),
            final(self)@ == old(self)@.with_slot(i as int, Some(final(child)@)),
    {
        proof {
            self.lemma_view_arity();
        }
        if self.peek(i).is_none() {
            self.push_mut(i, default_data);
            proof {
                old(self)@.lemma_with_slot_overwrites(i as int, self@.child(i as int));
            }
        }
        self.peek_mut(i).unwrap()
    }

    /// As [`peek_or_push_mut`](Self::peek_or_push_mut), for any index: one
    /// that is out of range yields `None` and changes nothing.
    fn bounded_peek_or_push_mut(&mut self, i: usize, default_data: T) -> (child: Option<
        &mut Self,
    >)
        ensures
            child is Some <==> i < N,
            child is Some ==> child.unwrap()@ == old(self)@.child_or_leaf(i as int, default_data)
                && final(self)@ == old(self)@.with_slot(
                i as int,
                Some(final(child.unwrap())@),
            ),
            child is None ==> final(self)@ == old(self)@,
    {
        if i >= N {
            return None;
        }
        Some(self.peek_or_push_mut(i, default_data))
    }

    /// Empties slot `i`. Of the subtree that was there only the payload of
    /// its root is handed back; everything below that root is dropped.
    fn pop(&mut self, i: usize) -> (payload: Option<T>)
        requires
            i < N,
        ensures
            payload == old(self)@.payload_at(i as int),
            final(self)@ == old(self)@.popped(i as int),
    ;

    /// As [`pop`](Self::pop), for any index: one that is out of range
    /// yields `None` and changes nothing.
    fn bounded_pop(&mut self, i: usize) -> (payload: Option<T>)
        ensures
            payload is Some ==> i < N,
            payload == old(self)@.payload_at(i as int),
            final(self)@ == old(self)@.popped(i as int),
            i >= N ==> final(self)@ == old(self)@,
    {
        proof {
            self.lemma_view_arity();
        }
        if i >= N {
            return None;
        }
        self.pop(i)
    }
}

/// A node: one payload and `N` slots, each empty or owning a child node of
/// the same arity.
pub struct NtreeNode<const N: usize, T> {
    data: T,
    children: Vec<Option<Box<NtreeNode<N, T>>>>,
}

impl<const N: usize, T> NtreeNode<N, T> {
    /// The row of slots is made with `N` entries and never resized.
    #[verifier::type_invariant]
    spec fn full(self) -> bool {
        self.children.len() == N
    }

    /// The tree in the `i`-th entry of the row of slots. An entry that the
    /// row lacks counts as empty, so that the tree of a node has `N` slots
    /// whatever the row.
    spec fn slot(self, i: int) -> Option<Tree<T>>
        decreases self, 0nat,
    {
        if 0 <= i < self.children.len() {
            Self::slot_tree(self.children[i])
        } else {
            None
        }
    }

    /// The payload with, for each of the `N` slots, the tree of the child
    /// in it.
    pub closed spec fn tree(self) -> Tree<T>
        decreases self, 1nat,
    {
        Tree { data: self.data, slots: Seq::new(N as nat, |i: int| self.slot(i)) }
    }

    /// What a slot holds, as a tree.
    pub open spec fn slot_tree(slot: Option<Box<NtreeNode<N, T>>>) -> Option<Tree<T>>
        decreases slot,
    {
        match slot {
            Some(child) => Some(child.tree()),
            None => None,
        }
    }
}

impl<const N: usize, T> View for NtreeNode<N, T> {
    type V = Tree<T>;

    open spec fn view(&self) -> Tree<T> {
        self.tree()
    }
}

impl<const N: usize, T> NtreeNode<N, T> {
    /// A node that holds `data` and has all of its `N` slots empty.
    pub fn new(data: T) -> (node: Self)
        ensures
            node@ == Tree::leaf(data, N as nat),
    {
        let children = none_array(N);
        let node = NtreeNode { data, children };
        assert(node@.slots =~= Tree::leaf(data, N as nat).slots);
        node
    }

    /// A node that holds `data` over the given slots, taken in order.
    pub fn from_parts(data: T, children: [Option<Box<NtreeNode<N, T>>>; N]) -> (node: Self)
        ensures
            node@ == (Tree {
                data,
                slots: Seq::new(N as nat, |i: int| Self::slot_tree(children[i])),
            }),
    {
        let ghost given = children;
        let mut children = children;
        let mut row: Vec<Option<Box<NtreeNode<N, T>>>> = Vec::with_capacity(N);
        let mut moved: usize = 0;
        while moved < N
            invariant
                moved <= N,
                row.len() == moved,
                forall|j: int| 0 <= j < moved ==> row[j] == given[j],
                forall|j: int| moved <= j < N ==> children[j] == given[j],
            decreases N - moved,
        {
            row.push(children[moved].take());
            moved = moved + 1;
        }
        let node = NtreeNode { data, children: row };
        assert(node@.slots =~= Seq::new(N as nat, |i: int| Self::slot_tree(given[i])));
        node
    }

    /// Puts a fresh child with `data` into slot `i`, over whatever was there.
    fn new_node(&mut self, i: usize, data: T)
        requires
            i < N,
        ensures
            final(self)@ == old(self)@.pushed(i as int, data),
    {
        proof {
            use_type_invariant(&*self);
            Self::lemma_slot_written(*self, i as int);
        }
        self.children[i] = Some(Box::new(NtreeNode::new(data)));
    }

    /// Gives up the node for its payload; its children are dropped.
    fn take_data(self) -> (data: T)
        ensures
            data == self@.data,
    {
        self.data
    }

    /// Whatever is written into entry `i` of the row of slots, the tree
    /// changes in slot `i` and nowhere else.
    proof fn lemma_slot_written(before: Self, i: int)
        requires
            0 <= i < before.children.len() == N,
        ensures
            forall|after: Self|
                after.data == before.data && after.children@ =~= before.children@.update(
                    i,
                    after.children[i],
                ) ==> #[trigger] after.tree() == before@.with_slot(i, after.slot(i)),
    {
        assert forall|after: Self|
            after.data == before.data && after.children@ =~= before.children@.update(
                i,
                after.children[i],
            ) implies #[trigger] after.tree() == before@.with_slot(i, after.slot(i)) by {
            assert(after@.slots =~= before@.slots.update(i, after.slot(i)));
        }
    }

    /// Whatever is written into the payload, the tree changes in its payload
    /// and nowhere else.
    proof fn lemma_data_written(before: Self)
        ensures
            forall|after: Self|
                after.children == before.children ==> #[trigger] after.tree()
                    == before@.with_data(after.data),
    {
        assert forall|after: Self| after.children == before.children implies #[trigger] after.tree()
            == before@.with_data(after.data) by {
            assert(after@.slots =~= before@.slots);
        }
    }

    /// The tree of a node has `N` slots at every level, whatever the node.
    proof fn lemma_arity(self)
        ensures
            self@.has_arity(N as nat),
        decreases self,
    {
        assert forall|i: int| 0 <= i < self@.slots.len() implies (#[trigger] self@.slots[i]
            matches Some(sub) ==> sub.has_arity(N as nat)) by {
            if i < self.children.len() {
                if let Some(child) = self.children[i] {
                    child.lemma_arity();
                }
            }
        }
    }
}

/// Hands an exclusive borrow on unchanged: what the caller later leaves
/// behind the result is what `place` ends up holding.
fn lend<V>(place: &mut V) -> (lent: &mut V)
    ensures
        *lent == *old(place),
        *final(place) == *final(lent),
    no_unwind
{
    place
}

impl<const N: usize, T> NtreeNodeInterface<N, T> for NtreeNode<N, T> {
    proof fn lemma_view_arity(&self) {
        self.lemma_arity();
    }

    fn get_data(&self) -> (data: &T) {
        &self.data
    }

    fn get_data_mut(&mut self) -> (data: &mut T) {
        proof {
            use_type_invariant(&*self);
            Self::lemma_data_written(*self);
        }
        lend(&mut self.data)
    }

    fn set_data(&mut self, data: T) -> (previous: T) {
        proof {
            use_type_invariant(&*self);
            Self::lemma_data_written(*self);
        }
        let mut previous = data;
        std::mem::swap(&mut self.data, &mut previous);
        previous
    }

    fn peek_mut(&mut self, i: usize) -> (child: Option<&mut Self>) {
        proof {
            use_type_invariant(&*self);
            Self::lemma_slot_written(*self, i as int);
        }
        match &mut self.children[i] {
            Some(node) => Some(&mut **node),
            None => None,
        }
    }

    fn peek(&self, i: usize) -> (child: Option<&Self>) {
        proof {
            use_type_invariant(self);
        }
        match &self.children[i] {
            Some(node) => Some(&**node),
            None => None,
        }
    }

    fn pop(&mut self, i: usize) -> (payload: Option<T>) {
        proof {
            use_type_invariant(&*self);
            Self::lemma_slot_written(*self, i as int);
        }
        match self.children[i].take() {
            Some(node) => Some(node.take_data()),
            None => None,
        }
    }

    fn push_mut(&mut self, i: usize, data: T) -> (child: &mut Self) {
        self.new_node(i, data);
        proof {
            old(self)@.lemma_with_slot_overwrites(i as int, self@.child(i as int));
        }
        self.peek_mut(i).unwrap()
    }
}

impl<const N: usize, T: PartialEq> NtreeNode<N, T> {
    /// Compares payload with payload and slot with slot, all the way down.
    fn equals(&self, other: &Self) -> (same: bool)
        ensures
            T::obeys_eq_spec() ==> same == self@.agrees(other@),
        decreases self,
    {
        proof {
            use_type_invariant(self);
            use_type_invariant(other);
        }
        if !(self.data == other.data) {
            return false;
        }
        let mut i: usize = 0;
        while i < N
            invariant
                i <= N,
                self.children.len() == N,
                other.children.len() == N,
                T::obeys_eq_spec() ==> self.data.eq_spec(&other.data),
                T::obeys_eq_spec() ==> forall|j: int|
                    0 <= j < i ==> match (#[trigger] self@.slots[j], other@.slots[j]) {
                        (Some(a), Some(b)) => a.agrees(b),
                        (None, None) => true,
                        _ => false,
                    },
            decreases N - i,
        {
            let same = match (&self.children[i], &other.children[i]) {
                (Some(a), Some(b)) => a.equals(b),
                (None, None) => true,
                _ => false,
            };
            proof {
                assert(self@.slots[i as int] == self.slot(i as int));
            }
            if !same {
                return false;
            }
            i = i + 1;
        }
        true
    }
}

impl<const N: usize, T: PartialEq> PartialEq for NtreeNode<N, T> {
    fn eq(&self, other: &Self) -> (same: bool) {
        self.equals(other)
    }
}

impl<const N: usize, T: PartialEq> PartialEqSpecImpl for NtreeNode<N, T> {
    open spec fn obeys_eq_spec() -> bool {
        T::obeys_eq_spec()
    }

    open spec fn eq_spec(&self, other: &Self) -> bool {
        self@.agrees(other@)
    }
}

impl<const N: usize, T: Eq> Eq for NtreeNode<N, T> {}

} // verus!
