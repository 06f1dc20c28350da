use algorithms_in_a_nutshell::insertion_sort::insertion_sort;
use algorithms_in_a_nutshell::max_elem::max_elem;
use algorithms_in_a_nutshell::point::Point;
use algorithms_in_a_nutshell::point::sort_points;

#[test]
fn test_insertion_sort() {
    let mut vec = vec![9, 8, 7, 11, 10];
    insertion_sort(&mut vec);
    let vec_res: Vec<_> = (7..12).collect();
    assert_eq!(vec, vec_res);
}

#[test]
fn test_max_elem() {
    let array = [11, 2, 9, 1, 3, 88];
    assert_eq!(Some(&88), max_elem(&array));
}

#[test]
fn test_max_elem_empty() {
    let array: [i32; 0] = [];
    assert_eq!(None, max_elem(&array));
}

#[test]
fn test_insertion_sort_points() {
    let mut vec = vec![Point::new(2, 1), Point::new(0, 5), Point::new(2, 0), Point::new(-1, 3)];
    insertion_sort(&mut vec);
    let expected = vec![Point::new(-1, 3), Point::new(0, 5), Point::new(2, 0), Point::new(2, 1)];
    assert_eq!(vec, expected);
}

#[test]
fn test_sort_points_angular() {
    // anchor (0, 0); the rest ascend by polar angle, ties broken by the
    // coordinate order (nearer point first on a shared ray)
    let mut points = vec![
        Point::new(1, 1),
        Point::new(2, -2),
        Point::new(0, 0),
        Point::new(2, 2),
        Point::new(1, 0),
        Point::new(1, -1),
    ];
    sort_points(&mut points);
    let expected = vec![
        Point::new(0, 0),
        Point::new(1, -1),
        Point::new(2, -2),
        Point::new(1, 0),
        Point::new(1, 1),
        Point::new(2, 2),
    ];
    assert_eq!(points, expected);
}
