//! The mathematical content of a tree of fixed arity.
//!
//! Every contract of this crate is stated over [`Tree`]: a payload together
//! with a sequence of slots, each of which is empty or holds a subtree. The
//! functions below say what the node operations do to that value, and the
//! lemmas after them record how the operations interact.
use vstd::prelude::*;
use vstd::std_specs::cmp::PartialEqSpec;

verus! {

/// A payload and, for each slot in order, the subtree held there (if any).
#[verifier::ext_equal]
pub struct Tree<T> {
    pub data: T,
    pub slots: Seq<Option<Tree<T>>>,
}

impl<T> Tree<T> {
    /// The tree of a freshly made node: `data` over `arity` empty slots.
    pub open spec fn leaf(data: T, arity: nat) -> Tree<T> {
        Tree { data, slots: Seq::new(arity, |i: int| None) }
    }

    /// Every node of the tree, the root included, has exactly `arity` slots.
    pub open spec fn has_arity(self, arity: nat) -> bool
        decreases self,
    {
        &&& self.slots.len() == arity
        &&& forall|i: int|
            0 <= i < self.slots.len() ==> (#[trigger] self.slots[i] matches Some(sub)
                ==> sub.has_arity(arity))
    }

    /// What slot `i` holds; an index that names no slot holds nothing.
    pub open spec fn child(self, i: int) -> Option<Tree<T>> {
        if 0 <= i < self.slots.len() {
            self.slots[i]
        } else {
            None
        }
    }

    /// The payload of the subtree in slot `i`, if the slot is occupied.
    pub open spec fn payload_at(self, i: int) -> Option<T> {
        match self.child(i) {
            Some(sub) => Some(sub.data),
            None => None,
        }
    }

    /// The same slots under another payload.
    pub open spec fn with_data(self, data: T) -> Tree<T> {
        Tree { data, slots: self.slots }
    }

    /// The tree with slot `i` holding `slot` and nothing else changed. An
    /// index that names no slot changes nothing.
    pub open spec fn with_slot(self, i: int, slot: Option<Tree<T>>) -> Tree<T> {
        if 0 <= i < self.slots.len() {
            Tree { data: self.data, slots: self.slots.update(i, slot) }
        } else {
            self
        }
    }

    /// The tree after a push: slot `i` holds a fresh leaf with `data`,
    /// whatever it held before.
    pub open spec fn pushed(self, i: int, data: T) -> Tree<T> {
        self.with_slot(i, Some(Tree::leaf(data, self.slots.len())))
    }

    /// The tree after a pop: slot `i` is empty.
    pub open spec fn popped(self, i: int) -> Tree<T> {
        self.with_slot(i, None)
    }

    /// The subtree that a peek-or-push at slot `i` yields: the one already
    /// there, or else a fresh leaf with `data`.
    pub open spec fn child_or_leaf(self, i: int, data: T) -> Tree<T> {
        match self.child(i) {
            Some(sub) => sub,
            None => Tree::leaf(data, self.slots.len()),
        }
    }

    /// The tree after a peek-or-push: an occupied slot `i` is kept, an empty
    /// one is filled with a fresh leaf.
    pub open spec fn peek_or_pushed(self, i: int, data: T) -> Tree<T> {
        self.with_slot(i, Some(self.child_or_leaf(i, data)))
    }

    /// Both trees have the same pattern of occupied and empty slots, all the
    /// way down; payloads are not compared.
    pub open spec fn same_shape<U>(self, other: Tree<U>) -> bool
        decreases self,
    {
        &&& self.slots.len() == other.slots.len()
        &&& forall|i: int|
            0 <= i < self.slots.len() ==> match (#[trigger] self.slots[i], other.slots[i]) {
                (Some(a), Some(b)) => a.same_shape(b),
                (None, None) => true,
                _ => false,
            }
    }

    /// Putting back what a slot already holds changes nothing.
    pub proof fn lemma_with_slot_same(self, i: int)
        ensures
            self.with_slot(i, self.child(i)) == self,
    {
        assert(self.with_slot(i, self.child(i)).slots =~= self.slots);
    }

    /// Of two writes to one slot only the second counts.
    pub proof fn lemma_with_slot_overwrites(self, i: int, first: Option<Tree<T>>)
        ensures
            forall|second: Option<Tree<T>>| #[trigger]
                self.with_slot(i, first).with_slot(i, second) == self.with_slot(i, second),
    {
        assert forall|second: Option<Tree<T>>| #[trigger]
            self.with_slot(i, first).with_slot(i, second) == self.with_slot(i, second) by {
            assert(self.with_slot(i, first).with_slot(i, second).slots =~= self.with_slot(
                i,
                second,
            ).slots);
        }
    }

    /// Push, then peek: for a slot index in range, the slot then holds a
    /// child whose payload is the pushed one, and that child has no children
    /// of its own. The payload of the node and its other slots are as they
    /// were.
    pub proof fn lemma_push_then_peek(self, i: int, data: T)
        requires
            0 <= i < self.slots.len(),
        ensures
            self.pushed(i, data).child(i) == Some(Tree::leaf(data, self.slots.len())),
            self.pushed(i, data).payload_at(i) == Some(data),
            forall|j: int| (#[trigger] Tree::leaf(data, self.slots.len()).child(j)) is None,
            self.pushed(i, data).data == self.data,
            forall|j: int| j != i ==> #[trigger] self.pushed(i, data).child(j) == self.child(j),
    {
    }

    /// Push is an overwrite: whatever subtree `earlier` stood in the slot,
    /// a push leaves the same tree as a push into the empty slot would, so
    /// nothing of `earlier` can be reached afterwards. In particular a
    /// second push wins over a first.
    pub proof fn lemma_push_overwrites(self, i: int, earlier: Option<Tree<T>>, first: T, data: T)
        requires
            0 <= i < self.slots.len(),
        ensures
            self.with_slot(i, earlier).pushed(i, data) == self.popped(i).pushed(i, data),
            self.with_slot(i, earlier).pushed(i, data).child(i) == Some(
                Tree::leaf(data, self.slots.len()),
            ),
            self.pushed(i, first).pushed(i, data) == self.pushed(i, data),
            self.pushed(i, first).pushed(i, data).payload_at(i) == Some(data),
    {
        self.lemma_with_slot_overwrites(i, earlier);
        self.lemma_with_slot_overwrites(i, None);
        self.lemma_with_slot_overwrites(i, Some(Tree::leaf(first, self.slots.len())));
    }

    /// Push, then pop: the pop hands back the pushed payload and leaves the
    /// slot empty.
    pub proof fn lemma_push_then_pop(self, i: int, data: T)
        requires
            0 <= i < self.slots.len(),
        ensures
            self.pushed(i, data).payload_at(i) == Some(data),
            self.pushed(i, data).popped(i).child(i) is None,
            self.pushed(i, data).popped(i) == self.popped(i),
    {
        self.lemma_with_slot_overwrites(i, Some(Tree::leaf(data, self.slots.len())));
    }

    /// Pop peels one layer: only the payload of the slot's root comes back,
    /// and nothing that stood below it is left in the tree.
    pub proof fn lemma_pop_peels(self, i: int, sub: Tree<T>)
        requires
            0 <= i < self.slots.len(),
        ensures
            self.with_slot(i, Some(sub)).payload_at(i) == Some(sub.data),
            self.with_slot(i, Some(sub)).popped(i) == self.popped(i),
    {
        self.lemma_with_slot_overwrites(i, Some(sub));
    }

    /// Peek-or-push twice on a slot that starts empty: the first call makes
    /// the child with its payload, the second finds that child and changes
    /// nothing.
    pub proof fn lemma_peek_or_push_twice(self, i: int, first: T, second: T)
        requires
            0 <= i < self.slots.len(),
            self.child(i) is None,
        ensures
            self.child_or_leaf(i, first) == Tree::leaf(first, self.slots.len()),
            self.peek_or_pushed(i, first) == self.pushed(i, first),
            self.peek_or_pushed(i, first).child_or_leaf(i, second) == Tree::leaf(
                first,
                self.slots.len(),
            ),
            self.peek_or_pushed(i, first).peek_or_pushed(i, second) == self.peek_or_pushed(
                i,
                first,
            ),
    {
        let once = self.peek_or_pushed(i, first);
        once.lemma_with_slot_same(i);
    }

    /// Peek-or-push never discards: an occupied slot is left as it is.
    pub proof fn lemma_peek_or_push_keeps(self, i: int, data: T)
        requires
            self.child(i) is Some,
        ensures
            self.child_or_leaf(i, data) == self.child(i).unwrap(),
            self.peek_or_pushed(i, data) == self,
    {
        self.lemma_with_slot_same(i);
    }

    /// An index at or past the number of slots names no slot: nothing is
    /// found there, and no write there changes the tree.
    pub proof fn lemma_out_of_range(self, i: int, slot: Option<Tree<T>>, data: T)
        requires
            i >= self.slots.len(),
        ensures
            self.child(i) is None,
            self.payload_at(i) is None,
            self.with_slot(i, slot) == self,
            self.pushed(i, data) == self,
            self.popped(i) == self,
    {
    }

    /// With no slots at all, every index is out of range.
    pub proof fn lemma_zero_arity(self)
        requires
            self.slots.len() == 0,
        ensures
            forall|i: int| (#[trigger] self.child(i)) is None,
            forall|i: int| (#[trigger] self.payload_at(i)) is None,
            forall|i: int, slot: Option<Tree<T>>| #[trigger] self.with_slot(i, slot) == self,
    {
    }
}

impl<T: PartialEqSpec> Tree<T> {
    /// Structural equality, with payloads compared as `T`'s own `==`
    /// compares them: equal payloads at every position and the same pattern
    /// of occupied and empty slots throughout.
    pub open spec fn agrees(self, other: Tree<T>) -> bool
        decreases self,
    {
        &&& self.data.eq_spec(&other.data)
        &&& self.slots.len() == other.slots.len()
        &&& forall|i: int|
            0 <= i < self.slots.len() ==> match (#[trigger] self.slots[i], other.slots[i]) {
                (Some(a), Some(b)) => a.agrees(b),
                (None, None) => true,
                _ => false,
            }
    }

    /// Where `T`'s `==` is equality of values, structural equality of trees
    /// is equality of trees: two trees compare equal exactly if they are
    /// the same tree. So trees made by the same operations compare equal.
    pub proof fn lemma_agrees_is_equality(self, other: Tree<T>)
        requires
            forall|x: T, y: T| #[trigger] x.eq_spec(&y) <==> x == y,
        ensures
            self.agrees(other) <==> self == other,
        decreases self,
    {
        if self.agrees(other) {
            assert forall|i: int| 0 <= i < self.slots.len() implies self.slots[i]
                == other.slots[i] by {
                if let (Some(a), Some(b)) = (self.slots[i], other.slots[i]) {
                    a.lemma_agrees_is_equality(b);
                }
            }
            assert(self.slots =~= other.slots);
        }
        if self == other {
            assert forall|i: int| 0 <= i < self.slots.len() implies match (
                #[trigger] self.slots[i],
                other.slots[i],
            ) {
                (Some(a), Some(b)) => a.agrees(b),
                (None, None) => true,
                _ => false,
            } by {
                if let (Some(a), Some(b)) = (self.slots[i], other.slots[i]) {
                    a.lemma_agrees_is_equality(b);
                }
            }
        }
    }

    /// A tree with a slot occupied that the other has empty (or lacks)
    /// does not compare equal to it, whatever the payloads are.
    pub proof fn lemma_extra_slot_disagrees(self, other: Tree<T>, i: int)
        requires
            self.child(i) is Some,
            other.child(i) is None,
        ensures
            !self.agrees(other),
            !other.agrees(self),
    {
    }
}

} // verus!
