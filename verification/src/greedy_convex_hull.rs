use vstd::prelude::*;
use crate::naive_convex_hull::HullError;
use crate::point::Direction;
use crate::point::Point;
use crate::point::angle_le_about;
use crate::point::angle_sorted;
use crate::point::cross;
use crate::point::direction_spec;
use crate::point::point_le;
use crate::point::sort_points;

verus! {

/// The angular sweep, written as a recursion over the sorted input: with a
/// stack holding at least the anchor and one more point, inspect the turn
/// formed by the two topmost stack points and the next input point. A
/// counter-clockwise turn pushes the point; a collinear triple replaces the
/// top of the stack (keeping the farther of the two collinear points); a
/// clockwise turn pops the top and retries. Popping is refused when it
/// would leave fewer than the two points a turn test needs: that is the
/// underflow outcome, `None`.
pub open spec fn scan_from(stack: Seq<Point>, pts: Seq<Point>, i: int) -> Option<Seq<Point>>
    decreases pts.len() - i, stack.len(),
{
    if i >= pts.len() {
        Some(stack)
    } else if stack.len() < 2 {
        None
    } else {
        let d = direction_spec(stack[stack.len() - 2], stack[stack.len() - 1], pts[i]);
        if d == Direction::Left {
            scan_from(stack.push(pts[i]), pts, i + 1)
        } else if d == Direction::Ahead {
            scan_from(stack.drop_last().push(pts[i]), pts, i + 1)
        } else if stack.len() == 2 {
            None
        } else {
            scan_from(stack.drop_last(), pts, i)
        }
    }
}

/// Idempotence of the sweep on a three-point convex input: a triple in
/// canonical angular order whose corners are not collinear survives the
/// sweep unchanged, so the hull of a triangle's vertex set is that vertex
/// set.
pub proof fn lemma_scan_keeps_triangle(pts: Seq<Point>)
    requires
        pts.len() == 3,
        angle_sorted(pts[0], pts.subrange(1, 3)),
        cross(pts[0], pts[1], pts[2]) != 0,
    ensures
        scan_from(seq![pts[0], pts[1]], pts, 2) == Some(pts),
{
    let stack = seq![pts[0], pts[1]];
    let sub = pts.subrange(1, 3);
    assert(angle_le_about(pts[0], sub[0], sub[1]));
    assert(direction_spec(stack[0], stack[1], pts[2]) == Direction::Left);
    assert(scan_from(stack, pts, 2) == scan_from(stack.push(pts[2]), pts, 3));
    assert(stack.push(pts[2]) =~= pts);
}

/// Angular-sweep convex hull ("Graham scan" anchored at the leftmost
/// point): fails on fewer than three points, leaving the input untouched;
/// otherwise sorts the input in place into the canonical angular order and
/// sweeps it once with a stack, discarding points that would create a
/// clockwise turn. The result is exactly the sweep of the sorted sequence;
/// a sweep that would pop the stack below two elements reports underflow
/// instead.
pub fn graham_scan(points: &mut Vec<Point>) -> (r: Result<Vec<Point>, HullError>)
    ensures
        old(points)@.len() < 3 ==> r is Err && r->Err_0 == HullError::InsufficientPoints
            && final(points)@ == old(points)@,
        old(points)@.len() >= 3 ==> {
            let pts = final(points)@;
            &&& pts.len() == old(points)@.len()
            &&& pts.to_multiset() == old(points)@.to_multiset()
            &&& (forall|k: int| 0 <= k < pts.len() ==> point_le(pts[0], pts[k]))
            &&& angle_sorted(pts[0], pts.subrange(1, pts.len() as int))
            &&& (match r {
                Result::Ok(h) => scan_from(seq![pts[0], pts[1]], pts, 2) == Some(h@),
                Result::Err(e) => e == HullError::HullUnderflow && scan_from(
                    seq![pts[0], pts[1]],
                    pts,
                    2,
                ) is None,
            })
        },
{
    if points.len() < 3 {
        return Err(HullError::InsufficientPoints);
    }
    sort_points(points);
    let ghost pts = points@;
    let n = points.len();
    let mut hull: Vec<Point> = Vec::new();
    hull.push(points[0]);
    hull.push(points[1]);
    proof {
        assert(hull@ =~= seq![pts[0], pts[1]]);
    }
    let mut i: usize = 2;
    while i < n
        invariant
            n == points@.len(),
            points@ == pts,
            old(points)@.len() >= 3,
            pts.len() == old(points)@.len(),
            pts.to_multiset() == old(points)@.to_multiset(),
            forall|k: int| 0 <= k < pts.len() ==> point_le(pts[0], pts[k]),
            angle_sorted(pts[0], pts.subrange(1, pts.len() as int)),
            2 <= i <= n,
            hull@.len() >= 2,
            scan_from(hull@, pts, i as int) == scan_from(seq![pts[0], pts[1]], pts, 2),
        decreases n - i, hull@.len(),
    {
        let ghost stack = hull@;
        let m1 = hull.len() - 1;
        let m0 = m1 - 1;
        let p0 = hull[m0];
        let p1 = hull[m1];
        let d = p0.direction(&p1, &points[i]);
        match d {
            Direction::Left => {
                hull.push(points[i]);
                proof {
                    assert(hull@ =~= stack.push(pts[i as int]));
                }
                i = i + 1;
            },
            Direction::Ahead => {
                hull.pop();
                hull.push(points[i]);
                proof {
                    assert(hull@ =~= stack.drop_last().push(pts[i as int]));
                }
                i = i + 1;
            },
            Direction::Right => {
                if hull.len() == 2 {
                    return Err(HullError::HullUnderflow);
                }
                hull.pop();
                proof {
                    assert(hull@ =~= stack.drop_last());
                }
            },
        }
    }
    Ok(hull)
}

} // verus!
