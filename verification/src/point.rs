use vstd::prelude::*;
use crate::definite_num::COORD_LIMIT;
use crate::definite_num::DefinitelyANumber;
use crate::insertion_sort::insertion_sort;
use crate::insertion_sort::lemma_patch_multiset;
use crate::insertion_sort::lemma_rotate_multiset;
use crate::ordered::TotalOrdered;
use vstd::seq_lib::group_to_multiset_ensures;
use vstd::seq_lib::lemma_multiset_commutative;

verus! {

/// Orientation of the turn from the ray `anchor -> p1` to the ray
/// `anchor -> p2`: counter-clockwise (`Left`), clockwise (`Right`), or
/// collinear (`Ahead`).
#[derive(Debug, Clone, Copy, PartialEq, Eq, Structural)]
pub enum Direction {
    Left,
    Right,
    Ahead,
}

/// An immutable 2-D coordinate pair of validated scalars.
#[derive(Debug, Clone, Copy, PartialEq, Eq, Structural)]
pub struct Point {
    pub x: DefinitelyANumber,
    pub y: DefinitelyANumber,
}

/// Magnitude bound on a difference of two coordinates.
pub const DIFF_LIMIT: i64 = 1073741824;

impl Point {
    /// The mathematical x coordinate.
    pub open spec fn x_val(self) -> int {
        self.x.value()
    }

    /// The mathematical y coordinate.
    pub open spec fn y_val(self) -> int {
        self.y.value()
    }
}

/// Lexicographic total order on points: by x coordinate, then by y.
/// This is the coordinate order that canonicalizes triangles and picks the
/// sweep anchor.
pub open spec fn point_le(a: Point, b: Point) -> bool {
    a.x_val() < b.x_val() || (a.x_val() == b.x_val() && a.y_val() <= b.y_val())
}

/// Cross product of the vectors `anchor -> p1` and `anchor -> p2`. Its sign
/// classifies the turn; it is the single primitive both hull solvers build
/// on.
pub open spec fn cross(anchor: Point, p1: Point, p2: Point) -> int {
    (p1.x_val() - anchor.x_val()) * (p2.y_val() - anchor.y_val()) - (p1.y_val() - anchor.y_val())
        * (p2.x_val() - anchor.x_val())
}

/// The orientation of the ordered triple `(anchor, p1, p2)`.
pub open spec fn direction_spec(anchor: Point, p1: Point, p2: Point) -> Direction {
    if cross(anchor, p1, p2) < 0 {
        Direction::Right
    } else if cross(anchor, p1, p2) > 0 {
        Direction::Left
    } else {
        Direction::Ahead
    }
}

/// `a` precedes `b` (non-strictly) in the angular sweep about `anchor`:
/// either the turn from `a` to `b` is counter-clockwise, or the two lie on
/// the same ray and the tie is broken by the coordinate order. When `anchor`
/// is the lexicographic minimum of a duplicate-free collection, this orders
/// the remaining points by ascending polar angle.
pub open spec fn angle_le_about(anchor: Point, a: Point, b: Point) -> bool {
    cross(anchor, a, b) > 0 || (cross(anchor, a, b) == 0 && point_le(a, b))
}

/// Bounded factors give a bounded product.
pub proof fn lemma_mul_bound(a: int, b: int, m: int, n: int)
    by (nonlinear_arith)
    requires
        -m <= a <= m,
        -n <= b <= n,
    ensures
        -(m * n) <= a * b <= m * n,
{
}

/// Swapping the two target points negates the cross product.
pub proof fn lemma_cross_antisymmetric(anchor: Point, p1: Point, p2: Point)
    ensures
        cross(anchor, p1, p2) == -cross(anchor, p2, p1),
{
    let ax = anchor.x_val();
    let ay = anchor.y_val();
    let x1 = p1.x_val();
    let y1 = p1.y_val();
    let x2 = p2.x_val();
    let y2 = p2.y_val();
    assert((x1 - ax) * (y2 - ay) - (y1 - ay) * (x2 - ax) == -((x2 - ax) * (y1 - ay) - (y2 - ay) * (
    x1 - ax))) by (nonlinear_arith);
}

/// Exchanging the two target points of an orientation query flips `Left`
/// and `Right` and preserves `Ahead`: the triple is collinear in one order
/// exactly when it is collinear in the other.
pub proof fn lemma_direction_antisymmetric(anchor: Point, p1: Point, p2: Point)
    ensures
        direction_spec(anchor, p1, p2) == Direction::Left <==> direction_spec(anchor, p2, p1)
            == Direction::Right,
        direction_spec(anchor, p1, p2) == Direction::Ahead <==> direction_spec(anchor, p2, p1)
            == Direction::Ahead,
{
    lemma_cross_antisymmetric(anchor, p1, p2);
}

/// Two points are equal exactly when both coordinates agree.
pub proof fn lemma_point_eq(a: Point, b: Point)
    ensures
        a == b <==> (a.x_val() == b.x_val() && a.y_val() == b.y_val()),
{
    DefinitelyANumber::lemma_value_injective(a.x, b.x);
    DefinitelyANumber::lemma_value_injective(a.y, b.y);
    if a.x_val() == b.x_val() && a.y_val() == b.y_val() {
        assert(a == b);
    }
}

impl Point {
    /// Builds a point from two admissible raw coordinates; this is the
    /// single validation gate through which coordinates enter the system.
    pub fn new(x: i64, y: i64) -> (p: Point)
        requires
            -COORD_LIMIT <= x <= COORD_LIMIT,
            -COORD_LIMIT <= y <= COORD_LIMIT,
        ensures
            p.x_val() == x as int,
            p.y_val() == y as int,
    {
        let gx = DefinitelyANumber::new(x).unwrap();
        let gy = DefinitelyANumber::new(y).unwrap();
        Point { x: gx, y: gy }
    }

    /// Component-wise sum; the caller must keep both coordinates
    /// admissible.
    pub fn add(self, rhs: Point) -> (r: Point)
        requires
            -COORD_LIMIT <= self.x_val() + rhs.x_val() <= COORD_LIMIT,
            -COORD_LIMIT <= self.y_val() + rhs.y_val() <= COORD_LIMIT,
        ensures
            r.x_val() == self.x_val() + rhs.x_val(),
            r.y_val() == self.y_val() + rhs.y_val(),
    {
        Point { x: self.x.add(rhs.x), y: self.y.add(rhs.y) }
    }

    /// Component-wise difference; the caller must keep both coordinates
    /// admissible.
    pub fn sub(self, rhs: Point) -> (r: Point)
        requires
            -COORD_LIMIT <= self.x_val() - rhs.x_val() <= COORD_LIMIT,
            -COORD_LIMIT <= self.y_val() - rhs.y_val() <= COORD_LIMIT,
        ensures
            r.x_val() == self.x_val() - rhs.x_val(),
            r.y_val() == self.y_val() - rhs.y_val(),
    {
        Point { x: self.x.sub(rhs.x), y: self.y.sub(rhs.y) }
    }

    /// Dot product of the two position vectors, exact in `i64`.
    pub fn dot(self, rhs: Point) -> (r: i64)
        ensures
            r as int == self.x_val() * rhs.x_val() + self.y_val() * rhs.y_val(),
    {
        let ax = self.x.to_raw();
        let ay = self.y.to_raw();
        let bx = rhs.x.to_raw();
        let by = rhs.y.to_raw();
        proof {
            lemma_mul_bound(ax as int, bx as int, COORD_LIMIT as int, COORD_LIMIT as int);
            lemma_mul_bound(ay as int, by as int, COORD_LIMIT as int, COORD_LIMIT as int);
        }
        ax * bx + ay * by
    }

    /// Square of the Euclidean distance, exact in `i64`. The distance
    /// itself is irrational in general and is not computed here.
    pub fn distance_squared(self, other: Point) -> (r: i64)
        ensures
            r as int == (other.x_val() - self.x_val()) * (other.x_val() - self.x_val()) + (
            other.y_val() - self.y_val()) * (other.y_val() - self.y_val()),
    {
        let dx = other.x.to_raw() - self.x.to_raw();
        let dy = other.y.to_raw() - self.y.to_raw();
        proof {
            lemma_mul_bound(dx as int, dx as int, DIFF_LIMIT as int, DIFF_LIMIT as int);
            lemma_mul_bound(dy as int, dy as int, DIFF_LIMIT as int, DIFF_LIMIT as int);
        }
        dx * dx + dy * dy
    }

    /// Orientation of the ordered triple `(self, p1, p2)`, evaluated with
    /// `self` as the anchor, by the exact sign of the cross product.
    pub fn direction(&self, p1: &Point, p2: &Point) -> (d: Direction)
        ensures
            d == direction_spec(*self, *p1, *p2),
    {
        let ax = self.x.to_raw();
        let ay = self.y.to_raw();
        let v1x = p1.x.to_raw() - ax;
        let v1y = p1.y.to_raw() - ay;
        let v2x = p2.x.to_raw() - ax;
        let v2y = p2.y.to_raw() - ay;
        proof {
            lemma_mul_bound(v1x as int, v2y as int, DIFF_LIMIT as int, DIFF_LIMIT as int);
            lemma_mul_bound(v1y as int, v2x as int, DIFF_LIMIT as int, DIFF_LIMIT as int);
        }
        let det = (v1x as i128) * (v2y as i128) - (v1y as i128) * (v2x as i128);
        if det < 0 {
            Direction::Right
        } else if det > 0 {
            Direction::Left
        } else {
            Direction::Ahead
        }
    }

    /// Executable coordinate-order comparison.
    pub fn le_coord(&self, other: &Point) -> (r: bool)
        ensures
            r == point_le(*self, *other),
    {
        let ax = self.x.to_raw();
        let bx = other.x.to_raw();
        if ax < bx {
            true
        } else if ax == bx {
            self.y.to_raw() <= other.y.to_raw()
        } else {
            false
        }
    }
}

impl TotalOrdered for Point {
    open spec fn le_spec(self, other: Self) -> bool {
        point_le(self, other)
    }

    proof fn lemma_total(a: Self, b: Self) {
    }

    proof fn lemma_transitive(a: Self, b: Self, c: Self) {
    }

    proof fn lemma_antisymmetric(a: Self, b: Self) {
        lemma_point_eq(a, b);
    }

    fn le(&self, other: &Self) -> (r: bool) {
        self.le_coord(other)
    }
}

/// Either `a` comes before `b` in the sweep about `anchor`, or `b` comes
/// before `a`: the angular order is total.
pub proof fn lemma_angle_total(anchor: Point, a: Point, b: Point)
    ensures
        angle_le_about(anchor, a, b) || angle_le_about(anchor, b, a),
{
    lemma_cross_antisymmetric(anchor, a, b);
}

/// Executable angular comparison about an anchor.
fn angle_le(anchor: &Point, a: &Point, b: &Point) -> (r: bool)
    ensures
        r == angle_le_about(*anchor, *a, *b),
{
    let ax = anchor.x.to_raw();
    let ay = anchor.y.to_raw();
    let v1x = a.x.to_raw() - ax;
    let v1y = a.y.to_raw() - ay;
    let v2x = b.x.to_raw() - ax;
    let v2y = b.y.to_raw() - ay;
    proof {
        lemma_mul_bound(v1x as int, v2y as int, DIFF_LIMIT as int, DIFF_LIMIT as int);
        lemma_mul_bound(v1y as int, v2x as int, DIFF_LIMIT as int, DIFF_LIMIT as int);
    }
    let det = (v1x as i128) * (v2y as i128) - (v1y as i128) * (v2x as i128);
    if det > 0 {
        true
    } else if det == 0 {
        a.le_coord(b)
    } else {
        false
    }
}

/// The sequence is sorted step by step under the angular order about
/// `anchor`.
pub open spec fn angle_sorted(anchor: Point, s: Seq<Point>) -> bool {
    forall|k: int| 0 <= k < s.len() - 1 ==> angle_le_about(anchor, #[trigger] s[k], s[k + 1])
}

/// After the shift loop has placed `value` at position `slot`, the prefix
/// of length `pos + 1` is sorted under the angular order and carries the
/// same multiset as before.
proof fn lemma_insert_shape_angle(
    anchor: Point,
    pre: Seq<Point>,
    post: Seq<Point>,
    slot: int,
    pos: int,
    value: Point,
)
    requires
        pre.len() == post.len(),
        1 <= pos < pre.len(),
        0 <= slot <= pos,
        angle_sorted(anchor, pre.subrange(0, pos)),
        pre[pos] == value,
        post[slot] == value,
        forall|j: int| 0 <= j < slot ==> post[j] == pre[j],
        forall|j: int| slot < j <= pos ==> post[j] == pre[j - 1],
        forall|j: int| slot <= j < pos ==> !angle_le_about(anchor, pre[j], value),
        slot > 0 ==> angle_le_about(anchor, pre[slot - 1], value),
    ensures
        angle_sorted(anchor, post.subrange(0, pos + 1)),
        post.subrange(0, pos + 1).to_multiset() == pre.subrange(0, pos + 1).to_multiset(),
{
    let a = pre.subrange(0, slot);
    let b = pre.subrange(slot, pos);
    assert(post.subrange(0, pos + 1) =~= a + seq![value] + b);
    assert(pre.subrange(0, pos + 1) =~= a + b + seq![value]);
    lemma_rotate_multiset(a, b, value);
    let sub = pre.subrange(0, pos);
    let s = post.subrange(0, pos + 1);
    assert forall|k: int| 0 <= k < s.len() - 1 implies angle_le_about(anchor, #[trigger] s[k], s[k + 1]) by {
        if k + 1 < slot {
            assert(angle_le_about(anchor, sub[k], sub[k + 1]));
            assert(s[k] == pre[k] && s[k + 1] == pre[k + 1]);
        } else if k + 1 == slot {
            assert(s[k] == pre[slot - 1] && s[k + 1] == value);
        } else if k == slot {
            lemma_angle_total(anchor, pre[slot], value);
            assert(s[k] == value && s[k + 1] == pre[slot]);
        } else {
            assert(angle_le_about(anchor, sub[k - 1], sub[k]));
            assert(s[k] == pre[k - 1] && s[k + 1] == pre[k]);
        }
    }
}

/// Moves `value`, which sits at position `pos`, into its place within the
/// prefix `[0, pos)` sorted by angle about `anchor`.
fn insert_by_angle(anchor: &Point, vec: &mut Vec<Point>, pos: usize, value: Point)
    requires
        1 <= pos < old(vec)@.len(),
        angle_sorted(*anchor, old(vec)@.subrange(0, pos as int)),
        old(vec)@[pos as int] == value,
    ensures
        final(vec)@.len() == old(vec)@.len(),
        angle_sorted(*anchor, final(vec)@.subrange(0, pos as int + 1)),
        final(vec)@.subrange(0, pos as int + 1).to_multiset() == old(vec)@.subrange(
            0,
            pos as int + 1,
        ).to_multiset(),
        final(vec)@.subrange(pos as int + 1, old(vec)@.len() as int) == old(vec)@.subrange(
            pos as int + 1,
            old(vec)@.len() as int,
        ),
{
    let mut p: usize = pos - 1;
    loop
        invariant
            1 <= pos < vec@.len(),
            vec@.len() == old(vec)@.len(),
            p < pos,
            old(vec)@[pos as int] == value,
            angle_sorted(*anchor, old(vec)@.subrange(0, pos as int)),
            forall|j: int| 0 <= j <= p + 1 ==> vec@[j] == old(vec)@[j],
            forall|j: int| p + 2 <= j <= pos ==> vec@[j] == old(vec)@[j - 1],
            forall|j: int| pos < j < vec@.len() ==> vec@[j] == old(vec)@[j],
            forall|j: int| p + 1 <= j < pos ==> !angle_le_about(*anchor, old(vec)@[j], value),
        ensures
            p < pos,
            vec@.len() == old(vec)@.len(),
            angle_le_about(*anchor, old(vec)@[p as int], value),
            forall|j: int| 0 <= j <= p + 1 ==> vec@[j] == old(vec)@[j],
            forall|j: int| p + 2 <= j <= pos ==> vec@[j] == old(vec)@[j - 1],
            forall|j: int| pos < j < vec@.len() ==> vec@[j] == old(vec)@[j],
            forall|j: int| p + 1 <= j < pos ==> !angle_le_about(*anchor, old(vec)@[j], value),
        decreases p,
    {
        let value_at_pos = vec[p];
        if angle_le(anchor, &value_at_pos, &value) {
            break;
        }
        vec[p + 1] = value_at_pos;
        if p == 0 {
            vec[0] = value;
            proof {
                lemma_insert_shape_angle(*anchor, old(vec)@, vec@, 0, pos as int, value);
            }
            return ;
        }
        p = p - 1;
    }
    vec[p + 1] = value;
    proof {
        lemma_insert_shape_angle(*anchor, old(vec)@, vec@, p as int + 1, pos as int, value);
    }
}

/// Sorts the vector in place by ascending angle about `anchor`, breaking
/// angular ties by the coordinate order.
fn sort_by_angle_about(anchor: &Point, vec: &mut Vec<Point>)
    ensures
        final(vec)@.len() == old(vec)@.len(),
        final(vec)@.to_multiset() == old(vec)@.to_multiset(),
        angle_sorted(*anchor, final(vec)@),
{
    let n = vec.len();
    if n <= 1 {
        return ;
    }
    for i in 1..n
        invariant
            n == vec@.len(),
            vec@.len() == old(vec)@.len(),
            angle_sorted(*anchor, vec@.subrange(0, i as int)),
            vec@.to_multiset() == old(vec)@.to_multiset(),
    {
        let ghost before = vec@;
        let value = vec[i];
        insert_by_angle(anchor, vec, i, value);
        proof {
            lemma_patch_multiset(before, vec@, i as int + 1);
        }
    }
    assert(vec@.subrange(0, n as int) =~= vec@);
}

/// Canonical ordering used by both hull solvers: the lexicographically
/// least point is placed first as the anchor; the remaining points follow
/// by ascending polar angle about the anchor, with angular ties broken by
/// the coordinate order.
pub fn sort_points(points: &mut Vec<Point>)
    ensures
        final(points)@.len() == old(points)@.len(),
        final(points)@.to_multiset() == old(points)@.to_multiset(),
        final(points)@.len() >= 1 ==> forall|k: int|
            0 <= k < final(points)@.len() ==> point_le(final(points)@[0], final(points)@[k]),
        final(points)@.len() >= 1 ==> angle_sorted(
            final(points)@[0],
            final(points)@.subrange(1, final(points)@.len() as int),
        ),
{
    broadcast use group_to_multiset_ensures;

    if points.len() == 0 {
        return ;
    }
    insertion_sort(points);
    let ghost s1 = points@;
    let anchor = points[0];
    let n = points.len();
    let mut tail: Vec<Point> = Vec::new();
    for idx in 1..n
        invariant
            n == points@.len(),
            points@ == s1,
            tail@ == s1.subrange(1, idx as int),
    {
        tail.push(points[idx]);
        proof {
            assert(tail@ =~= s1.subrange(1, idx as int + 1));
        }
    }
    let ghost tail_pre = tail@;
    sort_by_angle_about(&anchor, &mut tail);
    let mut result: Vec<Point> = Vec::new();
    result.push(anchor);
    let m = tail.len();
    for idx in 0..m
        invariant
            m == tail@.len(),
            result@ == seq![anchor].add(tail@.subrange(0, idx as int)),
    {
        result.push(tail[idx]);
        proof {
            assert(result@ =~= seq![anchor].add(tail@.subrange(0, idx as int + 1)));
        }
    }
    let ghost tail_post = tail@;
    *points = result;
    proof {
        assert(tail_post.subrange(0, m as int) =~= tail_post);
        assert(points@ =~= seq![anchor] + tail_post);
        assert(s1 =~= seq![anchor] + tail_pre);
        lemma_multiset_commutative(seq![anchor], tail_post);
        lemma_multiset_commutative(seq![anchor], tail_pre);
        assert(points@.to_multiset() == s1.to_multiset());
        // the anchor is the least point: every tail element already stood
        // at some position of the coordinate-sorted sequence
        assert forall|k: int| 0 <= k < points@.len() implies point_le(points@[0], points@[k]) by {
            if k > 0 {
                let x = tail_post[k - 1];
                assert(tail_post.to_multiset().contains(x));
                assert(tail_pre.contains(x));
                let j = choose|j: int| 0 <= j < tail_pre.len() && tail_pre[j] == x;
                assert(s1[j + 1] == x);
                assert(s1[0].le_spec(s1[j + 1]));
            }
        }
        assert(points@.subrange(1, points@.len() as int) =~= tail_post);
    }
}

} // verus!
