//! Selection of the best match among similarity scores, and the dimension
//! rule that every comparison of embeddings obeys.
use crate::error::RagError;
use std::ops::Div;
use vstd::prelude::*;
use vstd::std_specs::cmp::PartialOrdIs;
use vstd::std_specs::cmp::PartialOrdSpec;

verus! {

/// A numeric element type: the components of an embedding and the scores
/// computed from them. Its order is that of `PartialOrd`.
pub trait Float: PartialOrd + Copy + Div<Output = Self> {
    /// The element that stands for the count `n`.
    fn from_usize(n: usize) -> Self;
}

impl Float for u64 {
    fn from_usize(n: usize) -> (x: Self)
        ensures
            x == n,
    {
        n as u64
    }
}

impl Float for i128 {
    fn from_usize(n: usize) -> (x: Self)
        ensures
            x == n,
    {
        n as i128
    }
}

/// `a > b` in the order of `T`.
pub open spec fn greater<T: Float>(a: T, b: T) -> bool {
    a.is_gt(&b)
}

/// `a < b` in the order of `T`.
pub open spec fn less<T: Float>(a: T, b: T) -> bool {
    a.is_lt(&b)
}

/// The comparison operators of `T` compute what `greater` and `less` state. This
/// holds of the integer types; of another type it is what its
/// implementation of the order provides.
pub open spec fn order_is_specified<T: Float>() -> bool {
    T::obeys_partial_cmp_spec()
}

/// The index that a scan from the left settles on when it moves only to a
/// strictly greater element; 0 for an empty sequence.
pub open spec fn first_max<T: Float>(s: Seq<T>) -> int
    decreases s.len(),
{
    if s.len() <= 1 {
        0
    } else {
        let p = first_max(s.drop_last());
        if greater(s.last(), s[p]) {
            s.len() - 1
        } else {
            p
        }
    }
}

/// `first_max` of a non-empty sequence is one of its indices.
pub proof fn lemma_first_max_in_range<T: Float>(s: Seq<T>)
    requires
        s.len() > 0,
    ensures
        0 <= first_max(s) < s.len(),
    decreases s.len(),
{
    if s.len() > 1 {
        lemma_first_max_in_range(s.drop_last());
    }
}

/// `greater` orders the elements of `s` as a strict weak order does: no
/// two elements are each greater than the other, and an element that is
/// not greater than a second, which is not greater than a third, is not
/// greater than the third.
pub open spec fn weakly_ordered<T: Float>(s: Seq<T>) -> bool {
    &&& forall|i: int, j: int|
        0 <= i < s.len() && 0 <= j < s.len() ==> !(#[trigger] greater(s[i], s[j]) && greater(
            s[j],
            s[i],
        ))
    &&& forall|i: int, j: int, k: int|
        0 <= i < s.len() && 0 <= j < s.len() && 0 <= k < s.len() && !#[trigger] greater(s[i], s[j])
            && !#[trigger] greater(s[j], s[k]) ==> !greater(s[i], s[k])
}

/// Ties go to the smallest index: under a strict weak order no element is
/// greater than the one at `first_max`, and that one is greater than every
/// element before it.
pub proof fn lemma_first_max_is_first_maximum<T: Float>(s: Seq<T>)
    requires
        s.len() > 0,
        weakly_ordered(s),
    ensures
        forall|j: int| 0 <= j < s.len() ==> !greater(#[trigger] s[j], s[first_max(s)]),
        forall|j: int| 0 <= j < first_max(s) ==> greater(s[first_max(s)], #[trigger] s[j]),
    decreases s.len(),
{
    lemma_first_max_in_range(s);
    if s.len() > 1 {
        let t = s.drop_last();
        let p = first_max(t);
        let n = s.len() - 1;
        lemma_first_max_in_range(t);
        assert(weakly_ordered(t)) by {
            assert forall|i: int, j: int| 0 <= i < t.len() && 0 <= j < t.len() implies !(
            #[trigger] greater(t[i], t[j]) && greater(t[j], t[i])) by {
            }
            assert forall|i: int, j: int, k: int|
                0 <= i < t.len() && 0 <= j < t.len() && 0 <= k < t.len() && !#[trigger] greater(
                    t[i],
                    t[j],
                ) && !#[trigger] greater(t[j], t[k]) implies !greater(t[i], t[k]) by {
            }
        }
        lemma_first_max_is_first_maximum(t);
        if greater(s[n], s[p]) {
            assert forall|j: int| 0 <= j < s.len() implies !greater(#[trigger] s[j], s[n]) by {
                if j < n {
                    assert(t[j] == s[j]);
                }
            }
            assert forall|j: int| 0 <= j < n implies greater(s[n], #[trigger] s[j]) by {
                assert(t[j] == s[j]);
            }
        } else {
            assert forall|j: int| 0 <= j < s.len() implies !greater(#[trigger] s[j], s[p]) by {
                if j < n {
                    assert(t[j] == s[j]);
                }
            }
            assert forall|j: int| 0 <= j < p implies greater(s[p], #[trigger] s[j]) by {
                assert(t[j] == s[j]);
            }
        }
    }
}

/// Among unsigned scores `first_max` is the least index of the greatest.
pub proof fn lemma_first_max_of_integers(s: Seq<u64>)
    requires
        s.len() > 0,
    ensures
        forall|j: int| 0 <= j < s.len() ==> #[trigger] s[j] <= s[first_max(s)],
        forall|j: int| 0 <= j < first_max(s) ==> #[trigger] s[j] < s[first_max(s)],
{
    lemma_first_max_is_first_maximum(s);
    lemma_first_max_in_range(s);
    let p = first_max(s);
    assert forall|j: int| 0 <= j < s.len() implies #[trigger] s[j] <= s[p] by {
    }
    assert forall|j: int| 0 <= j < p implies #[trigger] s[j] < s[p] by {
    }
}

/// The index of the greatest score, the smallest such index where several
/// scores are greatest; `None` for no scores.
pub fn argmax<T: Float>(scores: &Vec<T>) -> (best: Option<usize>)
    ensures
        scores@.len() == 0 <==> best is None,
        best matches Some(i) ==> i < scores@.len(),
        order_is_specified::<T>() ==> (best matches Some(i) ==> i == first_max(scores@)),
{
    if scores.len() == 0 {
        return None;
    }
    let mut best: usize = 0;
    let mut i: usize = 1;
    while i < scores.len()
        invariant
            1 <= i <= scores.len(),
            best < i,
            order_is_specified::<T>() ==> best == first_max(scores@.take(i as int)),
        decreases scores.len() - i,
    {
        proof {
            assert(scores@.take(i + 1).drop_last() =~= scores@.take(i as int));
        }
        if scores[i] > scores[best] {
            best = i;
        }
        i += 1;
    }
    proof {
        assert(scores@.take(i as int) =~= scores@);
    }
    Some(best)
}

/// Replaces every element less than `min` by `min`.
pub fn saturate_lower<T: Float>(values: &mut Vec<T>, min: T)
    ensures
        final(values)@.len() == old(values)@.len(),
        order_is_specified::<T>() ==> forall|i: int|
            0 <= i < old(values)@.len() ==> #[trigger] final(values)@[i] == if less(
                old(values)@[i],
                min,
            ) {
                min
            } else {
                old(values)@[i]
            },
{
    let mut i: usize = 0;
    while i < values.len()
        invariant
            i <= values.len(),
            values@.len() == old(values)@.len(),
            forall|j: int| i <= j < values@.len() ==> values@[j] == old(values)@[j],
            order_is_specified::<T>() ==> forall|j: int|
                0 <= j < i ==> #[trigger] values@[j] == if less(old(values)@[j], min) {
                    min
                } else {
                    old(values)@[j]
                },
        decreases values.len() - i,
    {
        if values[i] < min {
            values.set(i, min);
        }
        i += 1;
    }
}

/// All embeddings of `s` have `dimension` components.
pub open spec fn all_of_dimension<E>(s: Seq<Vec<E>>, dimension: nat) -> bool {
    forall|i: int| 0 <= i < s.len() ==> (#[trigger] s[i])@.len() == dimension
}

/// Admits a comparison of `query` with `candidates` only where every
/// candidate has the query's dimension.
pub fn check_dimensions<E>(query: &Vec<E>, candidates: &Vec<Vec<E>>) -> (r: Result<
    (),
    RagError,
>)
    ensures
        all_of_dimension(candidates@, query@.len()) ==> r == Ok::<(), RagError>(()),
        !all_of_dimension(candidates@, query@.len()) ==> r == Err::<(), RagError>(
            RagError::DimensionMismatch,
        ),
{
    let mut i: usize = 0;
    while i < candidates.len()
        invariant
            i <= candidates.len(),
            all_of_dimension(candidates@.take(i as int), query@.len()),
        decreases candidates.len() - i,
    {
        if candidates[i].len() != query.len() {
            return Err(RagError::DimensionMismatch);
        }
        proof {
            let t = candidates@.take(i + 1);
            assert forall|j: int| 0 <= j < t.len() implies (#[trigger] t[j])@.len()
                == query@.len() by {}
        }
        i += 1;
    }
    proof {
        assert(candidates@.take(i as int) =~= candidates@);
    }
    Ok(())
}

} // verus!
