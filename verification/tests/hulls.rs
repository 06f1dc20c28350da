use algorithms_in_a_nutshell::greedy_convex_hull::graham_scan;
use algorithms_in_a_nutshell::naive_convex_hull::HullError;
use algorithms_in_a_nutshell::naive_convex_hull::convex_hull;
use algorithms_in_a_nutshell::point::Point;

#[test]
fn test_convex_hull_naive() {
    let mut points: Vec<Point> = Vec::new();
    for i in 0..4 {
        for j in 0..4 {
            points.push(Point::new(i, j));
        }
    }
    assert_eq!(points.len(), 16);
    let hull = convex_hull(&points).unwrap();
    let hull_should_be = vec![
        Point::new(0, 0),
        Point::new(1, 0),
        Point::new(2, 0),
        Point::new(3, 0),
        Point::new(3, 1),
        Point::new(3, 2),
        Point::new(3, 3),
        Point::new(2, 3),
        Point::new(1, 3),
        Point::new(0, 3),
        Point::new(0, 2),
        Point::new(0, 1),
    ];
    assert_eq!(hull.len(), hull_should_be.len());
    for p in &hull_should_be {
        assert!(hull.contains(p));
    }
    let interior = vec![Point::new(1, 1), Point::new(1, 2), Point::new(2, 1), Point::new(2, 2)];
    for p in &interior {
        assert!(!hull.contains(p));
    }
}

#[test]
fn test_graham_scan() {
    let mut points: Vec<Point> = Vec::new();
    // these points form a triangle, so only the 3 vertices should be in
    // the convex hull
    for i in 1..10 {
        points.push(Point::new(i, i));
        points.push(Point::new(i, -i));
        points.push(Point::new(i, 0));
    }
    points.push(Point::new(0, 0));
    let hull = graham_scan(&mut points).unwrap();
    let hull_should_be = vec![Point::new(0, 0), Point::new(9, -9), Point::new(9, 9)];
    assert_eq!(hull, hull_should_be);
}

#[test]
fn test_naive_hull_too_few_points() {
    let points = vec![Point::new(0, 0), Point::new(1, 1)];
    assert_eq!(Err(HullError::InsufficientPoints), convex_hull(&points));
}

#[test]
fn test_graham_scan_too_few_points() {
    let mut points = vec![Point::new(0, 0), Point::new(1, 1)];
    assert_eq!(Err(HullError::InsufficientPoints), graham_scan(&mut points));
}

#[test]
fn test_hull_of_convex_input_is_input() {
    // a convex polygon's vertex set is its own hull, for both solvers
    let square = vec![Point::new(0, 0), Point::new(4, 0), Point::new(4, 4), Point::new(0, 4)];
    let hull = convex_hull(&square).unwrap();
    assert_eq!(hull.len(), 4);
    for p in &square {
        assert!(hull.contains(p));
    }
    let mut triangle = vec![Point::new(2, 5), Point::new(0, 0), Point::new(4, 1)];
    let hull = graham_scan(&mut triangle).unwrap();
    assert_eq!(hull.len(), 3);
    for p in &triangle {
        assert!(hull.contains(p));
    }
}

#[test]
fn test_solvers_agree_on_pentagon() {
    // a convex pentagon with one strictly interior point: both solvers
    // drop the interior point and emit the vertices in the same order
    let mut points = vec![
        Point::new(5, 6),
        Point::new(3, 2),
        Point::new(0, 0),
        Point::new(7, 1),
        Point::new(1, 4),
        Point::new(4, -2),
    ];
    let naive = convex_hull(&points).unwrap();
    let sweep = graham_scan(&mut points).unwrap();
    let expected = vec![
        Point::new(0, 0),
        Point::new(4, -2),
        Point::new(7, 1),
        Point::new(5, 6),
        Point::new(1, 4),
    ];
    assert_eq!(naive, expected);
    assert_eq!(sweep, expected);
}
