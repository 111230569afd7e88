use thermo_fem::extrema::{max, min};

#[test]
fn empty_has_no_extrema() {
    assert_eq!(max(&Vec::new()), None);
    assert_eq!(min(&Vec::new()), None);
}

#[test]
fn max_takes_last_of_equal_greatest() {
    assert_eq!(max(&vec![3, 5, 5, 1, 1]), Some(2));
    assert_eq!(max(&vec![7]), Some(0));
    assert_eq!(max(&vec![-4, -9, -4]), Some(2));
}

#[test]
fn min_takes_first_of_equal_least() {
    assert_eq!(min(&vec![3, 5, 5, 1, 1]), Some(3));
    assert_eq!(min(&vec![i64::MIN, 0, i64::MIN]), Some(0));
}

#[test]
fn least_is_not_above_greatest() {
    let keys = vec![4, -2, 9, 9, -2, 0];
    let lo = min(&keys).unwrap();
    let hi = max(&keys).unwrap();
    assert_eq!((lo, hi), (1, 3));
    assert!(keys[lo] <= keys[hi]);
}
