use integritee_parachain::chainlink_feed::utils::median;

#[test]
fn median_works() {
    let mut values = vec![4u64, 6, 2, 7];
    assert_eq!(median(&mut values), 5);
    let mut values = vec![4u64, 6, 2, 7, 9];
    assert_eq!(median(&mut values), 6);
}

#[test]
#[should_panic]
fn median_panics_on_empty_slice() {
    let mut empty: Vec<u64> = Vec::new();
    median(&mut empty);
}

#[test]
fn median_leaves_values_sorted_and_saturates() {
    let mut values = vec![u64::MAX, u64::MAX - 2, 3, 1];
    assert_eq!(median(&mut values), u64::MAX / 2);
    assert_eq!(values, vec![1, 3, u64::MAX - 2, u64::MAX]);
    let mut single = vec![42u64];
    assert_eq!(median(&mut single), 42);
}

#[test]
fn the_median_lies_among_the_submissions() {
    let mut values = vec![9u64, 1, 5];
    let m = median(&mut values);
    assert_eq!(m, 5);
    assert!(values.contains(&m));
    let mut values = vec![10u64, 2, 30, 4];
    let m = median(&mut values);
    assert_eq!(m, 7);
    assert!(4 <= m && m <= 10);
}
