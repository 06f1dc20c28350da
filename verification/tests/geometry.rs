use algorithms_in_a_nutshell::definite_num::COORD_LIMIT;
use algorithms_in_a_nutshell::definite_num::DefinitelyANumber;
use algorithms_in_a_nutshell::definite_num::NumericError;
use algorithms_in_a_nutshell::point::Direction;
use algorithms_in_a_nutshell::point::Point;
use algorithms_in_a_nutshell::triangle::Triangle;

#[test]
fn test_guard_roundtrip() {
    // every admissible value is stored unchanged
    let g = DefinitelyANumber::new(42).unwrap();
    assert_eq!(42, g.to_raw());
    let g = DefinitelyANumber::new(-COORD_LIMIT).unwrap();
    assert_eq!(-COORD_LIMIT, g.to_raw());
    let g = DefinitelyANumber::new(COORD_LIMIT).unwrap();
    assert_eq!(COORD_LIMIT, g.to_raw());
    // an inadmissible value is rejected at the single validation gate
    assert_eq!(Err(NumericError::OutOfRange), DefinitelyANumber::new(COORD_LIMIT + 1));
    assert_eq!(Err(NumericError::OutOfRange), DefinitelyANumber::new(i64::MIN));
}

#[test]
fn test_guard_arithmetic() {
    let a = DefinitelyANumber::new(7).unwrap();
    let b = DefinitelyANumber::new(-3).unwrap();
    assert_eq!(4, a.add(b).to_raw());
    assert_eq!(10, a.sub(b).to_raw());
    assert_eq!(-21, a.mul(b).to_raw());
    assert!(b.lt(&a));
    assert!(b.le(&a));
    assert!(!a.le(&b));
}

#[test]
fn test_point_ops() {
    let p = Point::new(3, 4);
    let q = Point::new(1, -2);
    assert_eq!(Point::new(4, 2), p.add(q));
    assert_eq!(Point::new(2, 6), p.sub(q));
    assert_eq!(3 * 1 + 4 * (-2), p.dot(q));
    assert_eq!(4 + 36, p.distance_squared(q));
}

#[test]
fn test_direction() {
    let p1 = Point::new(2, 2);
    let p2 = Point::new(4, 4);
    let p3 = Point::new(6, 6);
    assert_eq!(p1.direction(&p2, &p3), Direction::Ahead);
    let p1 = Point::new(2, 2);
    let p2 = Point::new(4, 4);
    let p3 = Point::new(6, 5);
    assert_eq!(p1.direction(&p2, &p3), Direction::Right);
    let p1 = Point::new(2, 2);
    let p2 = Point::new(4, 4);
    let p3 = Point::new(6, 7);
    assert_eq!(p1.direction(&p2, &p3), Direction::Left);
    let p1 = Point::new(2, -2);
    let p2 = Point::new(4, -4);
    let p3 = Point::new(6, -6);
    assert_eq!(p1.direction(&p2, &p3), Direction::Ahead);
    let p1 = Point::new(2, -2);
    let p2 = Point::new(4, -4);
    let p3 = Point::new(6, -5);
    assert_eq!(p1.direction(&p2, &p3), Direction::Left);
    let p1 = Point::new(2, -2);
    let p2 = Point::new(4, -4);
    let p3 = Point::new(6, -7);
    assert_eq!(p1.direction(&p2, &p3), Direction::Right);
    let p3 = Point::new(2, -2);
    let p2 = Point::new(4, -4);
    let p1 = Point::new(6, -7);
    assert_eq!(p1.direction(&p2, &p3), Direction::Left);
    let p3 = Point::new(2, -2);
    let p2 = Point::new(4, -4);
    let p1 = Point::new(6, -5);
    assert_eq!(p1.direction(&p2, &p3), Direction::Right);
}

#[test]
fn test_direction_swap_is_opposite() {
    // swapping the two target points flips Left and Right and keeps a
    // collinear verdict collinear
    let a = Point::new(0, 0);
    let b = Point::new(5, 1);
    let c = Point::new(2, 7);
    assert_eq!(a.direction(&b, &c), Direction::Left);
    assert_eq!(a.direction(&c, &b), Direction::Right);
    let d = Point::new(10, 2);
    assert_eq!(a.direction(&b, &d), Direction::Ahead);
    assert_eq!(a.direction(&d, &b), Direction::Ahead);
}

#[test]
fn test_triangle() {
    let p2 = Point::new(0, 0);
    let p1 = Point::new(0, 100);
    let p0 = Point::new(100, 100);
    let t = Triangle::new(p0, p1, p2);
    assert_eq!(t.range_x(), (0, 100));
    assert_eq!(t.range_y(), (0, 100));
    assert_eq!(t.p0, p2);
    assert_eq!(t.p1, p1);
    assert_eq!(t.p2, p0);
    // triangle should not contain its vertices
    assert!(!t.contains(p0));
    assert!(!t.contains(p1));
    assert!(!t.contains(p2));
    // triangle should not contain points on any side
    assert!(!t.contains(Point::new(50, 50)));
    assert!(!t.contains(Point::new(30, 30)));
    assert!(!t.contains(Point::new(20, 20)));
    assert!(!t.contains(Point::new(10, 10)));
    assert!(!t.contains(Point::new(0, 10)));
    assert!(!t.contains(Point::new(0, 20)));
    assert!(!t.contains(Point::new(10, 100)));
    assert!(!t.contains(Point::new(20, 100)));
    assert!(!t.contains(Point::new(20, 110)));
    // strictly inside the triangle
    assert!(t.contains(Point::new(50, 51)));
    assert!(t.contains(Point::new(50, 52)));
    assert!(t.contains(Point::new(50, 53)));
    let p2 = Point::new(0, 0);
    let p1 = Point::new(50, 100);
    let p0 = Point::new(100, 50);
    let t = Triangle::new(p0, p1, p2);
    assert_eq!(t.range_x(), (0, 100));
    assert_eq!(t.range_y(), (0, 100));
    assert_eq!(t.p0, p2);
    assert_eq!(t.p1, p1);
    assert_eq!(t.p2, p0);
}

#[test]
fn test_triangle_permutations() {
    // all six vertex orders canonicalize to the same triangle
    let a = Point::new(3, 1);
    let b = Point::new(-2, 4);
    let c = Point::new(0, 0);
    let t = Triangle::new(a, b, c);
    assert_eq!(t, Triangle::new(a, c, b));
    assert_eq!(t, Triangle::new(b, a, c));
    assert_eq!(t, Triangle::new(b, c, a));
    assert_eq!(t, Triangle::new(c, a, b));
    assert_eq!(t, Triangle::new(c, b, a));
}

#[test]
fn test_degenerate_triangle_contains_nothing() {
    // collinear vertices: zero area, explicit false rather than an
    // indeterminate comparison
    let t = Triangle::new(Point::new(0, 0), Point::new(2, 2), Point::new(4, 4));
    assert!(!t.contains(Point::new(1, 1)));
    assert!(!t.contains(Point::new(3, 3)));
    assert!(!t.contains(Point::new(1, 0)));
}
