//! Views of lists.

use vstd::prelude::*;

verus! {

/// The views of the items of a list, in the list's order.
pub open spec fn views<T: View>(items: Seq<T>) -> Seq<T::V> {
    Seq::new(items.len(), |i: int| items[i]@)
}

} // verus!
