//! Sequences by the values of their items.

use vstd::prelude::*;

verus! {

/// The values of the items of a sequence, in order.
pub open spec fn views<T: View>(items: Seq<T>) -> Seq<T::V> {
    Seq::new(items.len(), |i: int| items[i]@)
}

} // verus!
