//! Moving one element of a sequence, as insertion sorts do: what stays the
//! same for every class of elements.
use vstd::prelude::*;

verus! {

/// Taking `x` out at `i` and putting it back at `j <= i` keeps, for each
/// class of elements, the order of its members, when no element it passes
/// belongs to the class of `x`.
pub proof fn lemma_move_back_keeps_class<T>(mid: Seq<T>, x: T, i: int, j: int, class: spec_fn(T) -> bool)
    requires
        0 <= j <= i <= mid.len(),
        class(x) ==> forall|k: int| j <= k < i ==> !class(#[trigger] mid[k]),
    ensures
        mid.insert(j, x).filter(class) == mid.insert(i, x).filter(class),
{
    let a = mid.take(j);
    let b = mid.subrange(j, i);
    let c = mid.skip(i);
    let xs = seq![x];
    assert(mid.insert(j, x) =~= a + (xs + (b + c)));
    assert(mid.insert(i, x) =~= a + (b + (xs + c)));
    Seq::filter_distributes_over_add(a, xs + (b + c), class);
    Seq::filter_distributes_over_add(xs, b + c, class);
    Seq::filter_distributes_over_add(b, c, class);
    Seq::filter_distributes_over_add(a, b + (xs + c), class);
    Seq::filter_distributes_over_add(b, xs + c, class);
    Seq::filter_distributes_over_add(xs, c, class);
    reveal_with_fuel(Seq::filter, 2);
    assert(xs.drop_last() =~= Seq::<T>::empty());
    if class(x) {
        assert(b.all(|y: T| !class(y))) by {
            assert forall|k: int| 0 <= k < b.len() implies !class(#[trigger] b[k]) by {
                assert(b[k] == mid[j + k]);
            }
        }
        b.lemma_all_neg_filter_empty(class);
        assert(b.filter(class) =~= Seq::<T>::empty());
    } else {
        assert(xs.filter(class) =~= Seq::<T>::empty());
    }
}

} // verus!
