//! Views of compound values: what an option or a run of values looks like once
//! each value in it is replaced by its own view.

use vstd::prelude::*;

verus! {

/// The view of what an option holds, if anything.
pub open spec fn option_view<T: View>(value: Option<T>) -> Option<T::V> {
    match value {
        Some(inner) => Some(inner@),
        None => None,
    }
}

/// The views of a run of values, in order.
pub open spec fn seq_view<T: View>(values: Seq<T>) -> Seq<T::V> {
    values.map_values(|value: T| value@)
}

/// One value more is one view more.
pub broadcast proof fn lemma_seq_view_push<T: View>(values: Seq<T>, value: T)
    ensures
        #[trigger] seq_view(values.push(value)) == seq_view(values).push(value@),
{
    assert(seq_view(values.push(value)) =~= seq_view(values).push(value@));
}

/// The views of one value more of a run.
pub proof fn lemma_seq_view_take<T: View>(values: Seq<T>, i: int)
    requires
        0 <= i < values.len(),
    ensures
        seq_view(values).take(i + 1) == seq_view(values).take(i).push(values[i]@),
{
    assert(seq_view(values).take(i + 1) =~= seq_view(values).take(i).push(values[i]@));
}

/// A view of many is the view of each, in its place.
pub proof fn law_each_is_seen_in_its_place<T: View>(values: Seq<T>, i: int, value: T)
    requires
        0 <= i < values.len(),
    ensures
        seq_view(values).len() == values.len(),
        seq_view(values)[i] == values[i]@,
        option_view(Some(value)) == Some(value@),
        option_view(None::<T>) is None,
{
}

} // verus!
