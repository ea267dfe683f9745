//! What a collection of values stands for.

use vstd::prelude::*;

verus! {

/// What the elements of `values` stand for, in their order.
pub open spec fn seq_view<T: View>(values: Seq<T>) -> Seq<T::V> {
    values.map_values(|value: T| value@)
}

/// What the value in `value` stands for, where there is one.
pub open spec fn option_view<T: View>(value: Option<T>) -> Option<T::V> {
    match value {
        Some(inner) => Some(inner@),
        None => None,
    }
}

} // verus!
