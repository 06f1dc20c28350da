use vstd::prelude::*;
use crate::point::DIFF_LIMIT;
use crate::point::Point;
use crate::point::lemma_mul_bound;
use crate::point::lemma_point_eq;
use crate::point::point_le;

verus! {

/// Magnitude bound on a dot product of two coordinate differences.
pub const DOT_LIMIT: i128 = 2305843009213693952;

/// The three input points arranged in ascending coordinate order: the
/// canonical vertex order of a triangle.
pub open spec fn sort3(a: Point, b: Point, c: Point) -> (Point, Point, Point) {
    if point_le(a, b) {
        if point_le(b, c) {
            (a, b, c)
        } else if point_le(a, c) {
            (a, c, b)
        } else {
            (c, a, b)
        }
    } else {
        if point_le(a, c) {
            (b, a, c)
        } else if point_le(b, c) {
            (b, c, a)
        } else {
            (c, b, a)
        }
    }
}

/// An immutable triple of points, stored in canonical (coordinate-sorted)
/// vertex order, so that triangle identity does not depend on the order in
/// which the vertices were supplied. Nothing enforces non-degeneracy: the
/// three vertices may be collinear, in which case the triangle has zero
/// area and contains no point strictly.
#[derive(Debug, Clone, Copy, PartialEq, Eq, Structural)]
pub struct Triangle {
    pub p0: Point,
    pub p1: Point,
    pub p2: Point,
}

impl Triangle {
    /// The vertices are in canonical order.
    pub open spec fn well_formed(self) -> bool {
        point_le(self.p0, self.p1) && point_le(self.p1, self.p2)
    }

    /// Strict interior test by exact barycentric coordinates: `p` lies
    /// strictly inside exactly when both barycentric weights are strictly
    /// positive and their sum is strictly below one. The weights `un /
    /// denom` and `vn / denom` are kept as exact integer fractions, so the
    /// comparisons below are the weight comparisons with every term
    /// multiplied through by the positive denominator. A degenerate
    /// (zero-area) triangle has a zero denominator and contains nothing.
    pub open spec fn contains_spec(self, p: Point) -> bool {
        let v0x = self.p2.x_val() - self.p0.x_val();
        let v0y = self.p2.y_val() - self.p0.y_val();
        let v1x = self.p1.x_val() - self.p0.x_val();
        let v1y = self.p1.y_val() - self.p0.y_val();
        let v2x = p.x_val() - self.p0.x_val();
        let v2y = p.y_val() - self.p0.y_val();
        let dot00 = v0x * v0x + v0y * v0y;
        let dot01 = v0x * v1x + v0y * v1y;
        let dot02 = v0x * v2x + v0y * v2y;
        let dot11 = v1x * v1x + v1y * v1y;
        let dot12 = v1x * v2x + v1y * v2y;
        let denom = dot00 * dot11 - dot01 * dot01;
        let un = dot11 * dot02 - dot01 * dot12;
        let vn = dot00 * dot12 - dot01 * dot02;
        denom > 0 && un > 0 && vn > 0 && un + vn < denom
    }

    /// Canonicalizing constructor: sorts the three vertices under the
    /// coordinate order, so all six input permutations build the same
    /// triangle.
    pub fn new(p0: Point, p1: Point, p2: Point) -> (t: Triangle)
        ensures
            (t.p0, t.p1, t.p2) == sort3(p0, p1, p2),
            t.well_formed(),
    {
        let t = if p0.le_coord(&p1) {
            if p1.le_coord(&p2) {
                Triangle { p0, p1, p2 }
            } else if p0.le_coord(&p2) {
                Triangle { p0, p1: p2, p2: p1 }
            } else {
                Triangle { p0: p2, p1: p0, p2: p1 }
            }
        } else {
            if p0.le_coord(&p2) {
                Triangle { p0: p1, p1: p0, p2 }
            } else if p1.le_coord(&p2) {
                Triangle { p0: p1, p1: p2, p2: p0 }
            } else {
                Triangle { p0: p2, p1, p2: p0 }
            }
        };
        t
    }

    /// Minimum and maximum x coordinate over the three vertices; on a
    /// canonical triangle these are the first and last vertex.
    pub fn range_x(&self) -> (r: (i64, i64))
        requires
            self.well_formed(),
        ensures
            r.0 as int == self.p0.x_val(),
            r.1 as int == self.p2.x_val(),
            r.0 as int <= self.p1.x_val() <= r.1 as int,
    {
        (self.p0.x.to_raw(), self.p2.x.to_raw())
    }

    /// Minimum and maximum y coordinate over the three vertices.
    pub fn range_y(&self) -> (r: (i64, i64))
        ensures
            r.0 as int == min3(self.p0.y_val(), self.p1.y_val(), self.p2.y_val()),
            r.1 as int == max3(self.p0.y_val(), self.p1.y_val(), self.p2.y_val()),
    {
        let y0 = self.p0.y.to_raw();
        let y1 = self.p1.y.to_raw();
        let y2 = self.p2.y.to_raw();
        let lo = if y0 <= y1 && y0 <= y2 {
            y0
        } else if y1 <= y2 {
            y1
        } else {
            y2
        };
        let hi = if y0 >= y1 && y0 >= y2 {
            y0
        } else if y1 >= y2 {
            y1
        } else {
            y2
        };
        (lo, hi)
    }

    /// Strict point-in-triangle test; exact, and explicitly false on a
    /// degenerate triangle. Vertices and points on an edge are not
    /// contained.
    pub fn contains(&self, p: Point) -> (r: bool)
        ensures
            r == self.contains_spec(p),
    {
        let x0 = self.p0.x.to_raw();
        let y0 = self.p0.y.to_raw();
        let v0x = (self.p2.x.to_raw() - x0) as i128;
        let v0y = (self.p2.y.to_raw() - y0) as i128;
        let v1x = (self.p1.x.to_raw() - x0) as i128;
        let v1y = (self.p1.y.to_raw() - y0) as i128;
        let v2x = (p.x.to_raw() - x0) as i128;
        let v2y = (p.y.to_raw() - y0) as i128;
        proof {
            lemma_mul_bound(v0x as int, v0x as int, DIFF_LIMIT as int, DIFF_LIMIT as int);
            lemma_mul_bound(v0y as int, v0y as int, DIFF_LIMIT as int, DIFF_LIMIT as int);
            lemma_mul_bound(v0x as int, v1x as int, DIFF_LIMIT as int, DIFF_LIMIT as int);
            lemma_mul_bound(v0y as int, v1y as int, DIFF_LIMIT as int, DIFF_LIMIT as int);
            lemma_mul_bound(v0x as int, v2x as int, DIFF_LIMIT as int, DIFF_LIMIT as int);
            lemma_mul_bound(v0y as int, v2y as int, DIFF_LIMIT as int, DIFF_LIMIT as int);
            lemma_mul_bound(v1x as int, v1x as int, DIFF_LIMIT as int, DIFF_LIMIT as int);
            lemma_mul_bound(v1y as int, v1y as int, DIFF_LIMIT as int, DIFF_LIMIT as int);
            lemma_mul_bound(v1x as int, v2x as int, DIFF_LIMIT as int, DIFF_LIMIT as int);
            lemma_mul_bound(v1y as int, v2y as int, DIFF_LIMIT as int, DIFF_LIMIT as int);
        }
        let dot00 = v0x * v0x + v0y * v0y;
        let dot01 = v0x * v1x + v0y * v1y;
        let dot02 = v0x * v2x + v0y * v2y;
        let dot11 = v1x * v1x + v1y * v1y;
        let dot12 = v1x * v2x + v1y * v2y;
        proof {
            lemma_mul_bound(dot00 as int, dot11 as int, DOT_LIMIT as int, DOT_LIMIT as int);
            lemma_mul_bound(dot01 as int, dot01 as int, DOT_LIMIT as int, DOT_LIMIT as int);
            lemma_mul_bound(dot11 as int, dot02 as int, DOT_LIMIT as int, DOT_LIMIT as int);
            lemma_mul_bound(dot01 as int, dot12 as int, DOT_LIMIT as int, DOT_LIMIT as int);
            lemma_mul_bound(dot00 as int, dot12 as int, DOT_LIMIT as int, DOT_LIMIT as int);
            lemma_mul_bound(dot01 as int, dot02 as int, DOT_LIMIT as int, DOT_LIMIT as int);
        }
        let denom = dot00 * dot11 - dot01 * dot01;
        if denom <= 0 {
            return false;
        }
        let un = dot11 * dot02 - dot01 * dot12;
        let vn = dot00 * dot12 - dot01 * dot02;
        un > 0 && vn > 0 && un + vn < denom
    }
}

/// Least of three integers.
pub open spec fn min3(a: int, b: int, c: int) -> int {
    if a <= b && a <= c {
        a
    } else if b <= c {
        b
    } else {
        c
    }
}

/// Greatest of three integers.
pub open spec fn max3(a: int, b: int, c: int) -> int {
    if a >= b && a >= c {
        a
    } else if b >= c {
        b
    } else {
        c
    }
}

/// All six permutations of the same three points canonicalize to the same
/// vertex triple, so `Triangle::new` is permutation-invariant.
pub proof fn lemma_sort3_permutation_invariant(a: Point, b: Point, c: Point)
    ensures
        sort3(a, b, c) == sort3(a, c, b),
        sort3(a, b, c) == sort3(b, a, c),
        sort3(a, b, c) == sort3(b, c, a),
        sort3(a, b, c) == sort3(c, a, b),
        sort3(a, b, c) == sort3(c, b, a),
{
    lemma_point_eq(a, b);
    lemma_point_eq(a, c);
    lemma_point_eq(b, c);
}

} // verus!
