use staticmap::simplify;
use staticmap::simplify::is_far;

#[test]
fn two_points_are_kept() {
    let pts = vec![(10, 20), (12, 21)];
    assert_eq!(simplify(pts.clone(), 25), pts);
}

#[test]
fn close_points_are_dropped() {
    let pts = vec![(0, 0), (1, 0), (3, 0), (10, 0), (11, 0)];
    assert_eq!(simplify(pts, 4), vec![(0, 0), (3, 0), (10, 0), (11, 0)]);
}

#[test]
fn distance_equal_to_tolerance_is_dropped() {
    let pts = vec![(0, 0), (3, 4), (6, 8), (100, 100)];
    assert_eq!(simplify(pts, 25), vec![(0, 0), (6, 8), (100, 100)]);
    let pts = vec![(0, 0), (3, 4), (6, 8), (100, 100)];
    assert_eq!(simplify(pts, 24), vec![(0, 0), (3, 4), (6, 8), (100, 100)]);
}

#[test]
fn last_point_kept_once() {
    let pts = vec![(0, 0), (50, 0), (100, 0)];
    assert_eq!(simplify(pts, 4), vec![(0, 0), (50, 0), (100, 0)]);
    let pts = vec![(0, 0), (0, 0), (0, 0)];
    assert_eq!(simplify(pts, 0), vec![(0, 0), (0, 0)]);
}

#[test]
fn short_inputs_unchanged() {
    assert_eq!(simplify(vec![], 25), vec![]);
    assert_eq!(simplify(vec![(5, 5)], 25), vec![(5, 5)]);
}

#[test]
fn simplify_twice_is_simplify_once() {
    let pts = vec![(0, 0), (2, 1), (4, 4), (5, 5), (20, 3), (21, 3), (22, 4), (40, 40), (41, 41)];
    for tol in [0i64, 1, 4, 25, 100, 10000] {
        let once = simplify(pts.clone(), tol);
        let twice = simplify(once.clone(), tol);
        assert_eq!(once, twice);
    }
}

#[test]
fn endpoints_always_kept() {
    let pts = vec![(7, 7), (7, 8), (8, 8), (9, 9), (9, 10)];
    for tol in [0i64, 1, 2, 50, i64::MAX] {
        let r = simplify(pts.clone(), tol);
        assert_eq!(r[0], (7, 7));
        assert_eq!(*r.last().unwrap(), (9, 10));
    }
}

#[test]
fn negative_tolerance_keeps_every_point() {
    let pts = vec![(1, 1), (1, 1), (1, 1), (2, 2)];
    assert_eq!(simplify(pts.clone(), -1), pts);
}

#[test]
fn distance_test_does_not_overflow() {
    assert!(is_far((i64::MIN, i64::MIN), (i64::MAX, i64::MAX), i64::MAX));
    assert!(is_far((0, i64::MIN), (0, i64::MAX), i64::MAX));
    assert!(!is_far((5, 5), (5, 5), 0));
    assert!(is_far((0, 0), (3, 4), 24));
    assert!(!is_far((0, 0), (3, 4), 25));
}
