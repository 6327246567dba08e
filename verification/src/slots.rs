//! Building a row of empty slots.
//!
//! A node owns one slot per child position. What a slot may come to hold
//! need not have a default value nor be copyable, so the row is made by
//! writing the empty marker into each position in turn; callers only ever
//! see the finished row.
use vstd::prelude::*;

verus! {

/// A row of `size` slots with nothing in any of them.
pub open spec fn all_empty<S>(row: Seq<Option<S>>, size: nat) -> bool {
    &&& row.len() == size
    &&& forall|i: int| 0 <= i < size ==> (#[trigger] row[i]) is None
}

/// Makes a row of exactly `size` empty slots. `S`, the type of what a slot
/// can hold, needs no capability at all: no value of it is ever made here.
pub fn none_array<S>(size: usize) -> (row: Vec<Option<S>>)
    ensures
        all_empty(row@, size as nat),
{
    let mut row: Vec<Option<S>> = Vec::with_capacity(size);
    let mut filled: usize = 0;
    while filled < size
        invariant
            filled <= size,
            all_empty(row@, filled as nat),
        decreases size - filled,
    {
        row.push(None);
        filled = filled + 1;
    }
    row
}

} // verus!
