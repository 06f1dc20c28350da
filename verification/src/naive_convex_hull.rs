use vstd::prelude::*;
use crate::point::Point;
use crate::point::angle_sorted;
use crate::point::point_le;
use crate::point::sort_points;
use crate::triangle::Triangle;
use crate::triangle::sort3;
use vstd::seq_lib::group_to_multiset_ensures;

verus! {

/// Errors of the two hull solvers.
#[derive(Debug, Clone, Copy, PartialEq, Eq, Structural)]
pub enum HullError {
    /// Fewer than three points were supplied; no hull exists.
    InsufficientPoints,
    /// The sweep stack would shrink below the two elements a direction
    /// test needs.
    HullUnderflow,
}

/// The canonical triangle spanned by three points.
pub open spec fn triangle_of(a: Point, b: Point, c: Point) -> Triangle {
    let (q0, q1, q2) = sort3(a, b, c);
    (Triangle { p0: q0, p1: q1, p2: q2 })
}

/// `p` lies strictly inside the triangle spanned by some three points of
/// the sequence. Such a point cannot be a hull vertex.
pub open spec fn is_interior(p: Point, s: Seq<Point>) -> bool {
    exists|i: int, j: int, k: int|
        0 <= i < s.len() && 0 <= j < s.len() && 0 <= k < s.len() && #[trigger] triangle_of(
            s[i],
            s[j],
            s[k],
        ).contains_spec(p)
}

/// No triangle whose first chosen vertex lies in the prefix of length `i`
/// strictly contains `p`.
spec fn no_witness_upto(p: Point, s: Seq<Point>, i: int) -> bool {
    forall|i2: int, j2: int, k2: int|
        0 <= i2 < i && 0 <= j2 < s.len() && 0 <= k2 < s.len() ==> !#[trigger] triangle_of(
            s[i2],
            s[j2],
            s[k2],
        ).contains_spec(p)
}

/// The point stands at some slot of the first `m` input positions and is
/// not interior.
spec fn from_prefix(p: Point, s: Seq<Point>, m: int) -> bool {
    exists|t: int| 0 <= t < m && s[t] == p && !is_interior(p, s)
}

/// Exhaustively tests whether the point at position `m` is strictly inside
/// some triangle of input points.
fn point_is_interior(points: &Vec<Point>, m: usize) -> (r: bool)
    requires
        m < points@.len(),
    ensures
        r == is_interior(points@[m as int], points@),
{
    let n = points.len();
    let p = points[m];
    let mut i: usize = 0;
    while i < n
        invariant
            i <= n,
            n == points@.len(),
            m < n,
            p == points@[m as int],
            no_witness_upto(p, points@, i as int),
        decreases n - i,
    {
        let mut j: usize = 0;
        while j < n
            invariant
                i < n,
                j <= n,
                n == points@.len(),
                m < n,
                p == points@[m as int],
                no_witness_upto(p, points@, i as int),
                forall|j2: int, k2: int|
                    0 <= j2 < j && 0 <= k2 < n ==> !#[trigger] triangle_of(
                        points@[i as int],
                        points@[j2],
                        points@[k2],
                    ).contains_spec(p),
            decreases n - j,
        {
            let mut k: usize = 0;
            while k < n
                invariant
                    i < n,
                    j < n,
                    k <= n,
                    n == points@.len(),
                    m < n,
                    p == points@[m as int],
                    no_witness_upto(p, points@, i as int),
                    forall|j2: int, k2: int|
                        0 <= j2 < j && 0 <= k2 < n ==> !#[trigger] triangle_of(
                            points@[i as int],
                            points@[j2],
                            points@[k2],
                        ).contains_spec(p),
                    forall|k2: int|
                        0 <= k2 < k ==> !#[trigger] triangle_of(
                            points@[i as int],
                            points@[j as int],
                            points@[k2],
                        ).contains_spec(p),
                decreases n - k,
            {
                let t = Triangle::new(points[i], points[j], points[k]);
                proof {
                    assert(t == triangle_of(points@[i as int], points@[j as int], points@[
                    k as int]));
                }
                if t.contains(p) {
                    return true;
                }
                k = k + 1;
            }
            j = j + 1;
        }
        i = i + 1;
    }
    false
}

/// If two sequences carry the same multiset and one is duplicate-free, so
/// is the other.
pub(crate) proof fn lemma_distinct_preserved<T>(a: Seq<T>, b: Seq<T>)
    requires
        a.no_duplicates(),
        a.to_multiset() == b.to_multiset(),
    ensures
        b.no_duplicates(),
{
    a.lemma_multiset_has_no_duplicates();
    b.lemma_multiset_has_no_duplicates_conv();
}

/// Idempotence of interior elimination: when no input point is strictly
/// inside a triangle of input points (the input is already in convex
/// position), the elimination pass keeps exactly the input set, so the
/// hull of a convex polygon's vertex set is that vertex set.
pub proof fn lemma_hull_of_convex_input(s: Seq<Point>)
    requires
        forall|q: Point| s.contains(q) ==> !is_interior(q, s),
    ensures
        forall|q: Point| (s.contains(q) && !is_interior(q, s)) <==> s.contains(q),
{
}

/// Exhaustive (naive) convex hull: fails on fewer than three points;
/// otherwise removes every input point that is strictly interior to a
/// triangle of input points and returns the survivors, anchored at the
/// lexicographically least point and ordered by ascending angle about it.
pub fn convex_hull(points: &Vec<Point>) -> (r: Result<Vec<Point>, HullError>)
    requires
        points@.no_duplicates(),
    ensures
        r is Err <==> points@.len() < 3,
        r is Err ==> r->Err_0 == HullError::InsufficientPoints,
        r is Ok ==> {
            let h = r->Ok_0@;
            &&& h.no_duplicates()
            &&& (forall|q: Point|
                h.contains(q) <==> (points@.contains(q) && !is_interior(q, points@)))
            &&& (h.len() >= 1 ==> forall|k: int| 0 <= k < h.len() ==> point_le(h[0], h[k]))
            &&& (h.len() >= 1 ==> angle_sorted(h[0], h.subrange(1, h.len() as int)))
        },
{
    broadcast use group_to_multiset_ensures;

    if points.len() < 3 {
        return Err(HullError::InsufficientPoints);
    }
    let n = points.len();
    let mut hull: Vec<Point> = Vec::new();
    let mut m: usize = 0;
    while m < n
        invariant
            m <= n,
            n == points@.len(),
            points@.no_duplicates(),
            forall|t: int|
                0 <= t < m ==> (hull@.contains(#[trigger] points@[t]) <==> !is_interior(
                    points@[t],
                    points@,
                )),
            forall|u: int|
                0 <= u < hull@.len() ==> from_prefix(#[trigger] hull@[u], points@, m as int),
            hull@.no_duplicates(),
        decreases n - m,
    {
        if !point_is_interior(points, m) {
            let ghost before = hull@;
            hull.push(points[m]);
            proof {
                assert(hull@[before.len() as int] == points@[m as int]);
                assert forall|u: int| 0 <= u < hull@.len() implies from_prefix(
                    #[trigger] hull@[u],
                    points@,
                    m as int + 1,
                ) by {
                    if u < before.len() {
                        assert(hull@[u] == before[u]);
                        let t = choose|t: int|
                            0 <= t < m && points@[t] == before[u] && !is_interior(
                                before[u],
                                points@,
                            );
                        assert(0 <= t < m + 1 && points@[t] == hull@[u]);
                    } else {
                        assert(hull@[u] == points@[m as int]);
                        assert(0 <= m < m + 1 && points@[m as int] == hull@[u]);
                    }
                }
                // the new element cannot already be present: everything in
                // the old hull came from an earlier, distinct input slot
                assert forall|u: int| 0 <= u < before.len() implies before[u] != points@[
                m as int] by {
                    assert(from_prefix(before[u], points@, m as int));
                    let t = choose|t: int|
                        0 <= t < m && points@[t] == before[u] && !is_interior(before[u], points@);
                    assert(points@[t] != points@[m as int]);
                }
                assert(hull@.no_duplicates());
                assert forall|t: int| 0 <= t < m + 1 implies (hull@.contains(
                    #[trigger] points@[t],
                ) <==> !is_interior(points@[t], points@)) by {
                    if t < m {
                        assert(points@[t] != points@[m as int]);
                        if !is_interior(points@[t], points@) {
                            let u = choose|u: int|
                                0 <= u < before.len() && before[u] == points@[t];
                            assert(hull@[u] == points@[t]);
                        } else {
                            assert forall|u: int| 0 <= u < hull@.len() implies hull@[u] != points@[
                            t] by {
                                if u < before.len() {
                                    assert(before[u] == hull@[u]);
                                }
                            }
                        }
                    }
                }
            }
        } else {
            proof {
                // the interior point at slot `m` is not in the hull: every
                // hull element came from an earlier, distinct input slot
                assert forall|u: int| 0 <= u < hull@.len() implies hull@[u] != points@[
                m as int] by {
                    assert(from_prefix(hull@[u], points@, m as int));
                }
                assert forall|u: int| 0 <= u < hull@.len() implies from_prefix(
                    #[trigger] hull@[u],
                    points@,
                    m as int + 1,
                ) by {
                    assert(from_prefix(hull@[u], points@, m as int));
                    let t = choose|t: int|
                        0 <= t < m && points@[t] == hull@[u] && !is_interior(hull@[u], points@);
                    assert(0 <= t < m + 1 && points@[t] == hull@[u]);
                }
            }
        }
        m = m + 1;
    }
    assert forall|q: Point| hull@.contains(q) <==> (points@.contains(q) && !is_interior(
        q,
        points@,
    )) by {
        if hull@.contains(q) {
            let u = choose|u: int| 0 <= u < hull@.len() && hull@[u] == q;
            assert(from_prefix(hull@[u], points@, n as int));
            let t = choose|t: int|
                0 <= t < n && points@[t] == hull@[u] && !is_interior(hull@[u], points@);
            assert(points@[t] == q);
        }
        if points@.contains(q) && !is_interior(q, points@) {
            let t = choose|t: int| 0 <= t < points@.len() && points@[t] == q;
            assert(hull@.contains(points@[t]));
        }
    }
    let ghost unsorted = hull@;
    sort_points(&mut hull);
    proof {
        lemma_distinct_preserved(unsorted, hull@);
        assert forall|q: Point| hull@.contains(q) <==> (points@.contains(q) && !is_interior(
            q,
            points@,
        )) by {
            assert(hull@.contains(q) <==> hull@.to_multiset().count(q) > 0);
            assert(unsorted.contains(q) <==> unsorted.to_multiset().count(q) > 0);
        }
    }
    Ok(hull)
}

} // verus!
