use vstd::prelude::*;
use crate::ordered::TotalOrdered;

verus! {

/// Index of a maximal element within `s[lo..hi)`, found by splitting the
/// range in half and comparing the two halves' maxima.
fn max_in_range<T: TotalOrdered>(s: &[T], lo: usize, hi: usize) -> (r: usize)
    requires
        lo < hi <= s@.len(),
    ensures
        lo <= r < hi,
        forall|j: int| lo <= j < hi ==> s@[j].le_spec(s@[r as int]),
    decreases hi - lo,
{
    if hi - lo == 1 {
        proof {
            T::lemma_total(s@[lo as int], s@[lo as int]);
        }
        return lo;
    }
    let mid = lo + (hi - lo) / 2;
    let left = max_in_range(s, lo, mid);
    let right = max_in_range(s, mid, hi);
    if s[left].le(&s[right]) {
        proof {
            assert forall|j: int| lo <= j < hi implies s@[j].le_spec(s@[right as int]) by {
                if j < mid {
                    T::lemma_transitive(s@[j], s@[left as int], s@[right as int]);
                }
            }
        }
        right
    } else {
        proof {
            T::lemma_total(s@[left as int], s@[right as int]);
            assert forall|j: int| lo <= j < hi implies s@[j].le_spec(s@[left as int]) by {
                if j >= mid {
                    T::lemma_transitive(s@[j], s@[right as int], s@[left as int]);
                }
            }
        }
        left
    }
}

/// Greatest element of the slice under the trait order, found by divide
/// and conquer; `None` exactly when the slice is empty.
pub fn max_elem<T: TotalOrdered>(s: &[T]) -> (r: Option<&T>)
    ensures
        r is Some <==> s@.len() > 0,
        (match r {
            Option::Some(v) => s@.contains(*v) && forall|j: int|
                0 <= j < s@.len() ==> s@[j].le_spec(*v),
            Option::None => true,
        }),
{
    let n = s.len();
    if n == 0 {
        return None;
    }
    let idx = max_in_range(s, 0, n);
    Some(&s[idx])
}

} // verus!
