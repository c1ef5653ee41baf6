//! Mathematical views of containers whose elements have a view.

use vstd::prelude::*;

verus! {

/// The views of the elements of `s`, in order.
pub open spec fn views<T: View>(s: Seq<T>) -> Seq<T::V> {
    s.map_values(|x: T| x@)
}

/// The view of what `o` holds, if anything.
pub open spec fn view_of<T: View>(o: Option<T>) -> Option<T::V> {
    match o {
        Some(x) => Some(x@),
        None => None,
    }
}

/// The views of the first `n + 1` elements are the views of the first `n`
/// followed by the view of the element at `n`.
pub proof fn lemma_views_take_next<T: View>(s: Seq<T>, n: int)
    requires
        0 <= n < s.len(),
    ensures
        views(s.take(n + 1)) == views(s.take(n)).push(s[n]@),
{
    assert(views(s.take(n + 1)) =~= views(s.take(n)).push(s[n]@));
}

/// Appending an element appends its view.
pub proof fn lemma_views_push<T: View>(s: Seq<T>, x: T)
    ensures
        views(s.push(x)) == views(s).push(x@),
{
    assert(views(s.push(x)) =~= views(s).push(x@));
}

} // verus!
