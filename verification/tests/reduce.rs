use parallel_reduce::model::THRESHOLD;
use parallel_reduce::reduce::{
    parallel_min, parallel_min_counted, scan_min, split_at_midpoint, ReduceError, Reduction,
};

fn predicted_splits(len: usize) -> usize {
    if len <= THRESHOLD {
        0
    } else {
        let mid: usize = len / 2;
        1 + predicted_splits(mid) + predicted_splits(len - mid)
    }
}

fn mixed(len: usize) -> Vec<i32> {
    let mut values: Vec<i32> = Vec::new();
    let mut state: i64 = 12345;
    let mut i: usize = 0;
    while i < len {
        state = (state * 1103515245 + 12345) % 2147483648;
        values.push((state % 200001) as i32 - 100000);
        i += 1;
    }
    values
}

#[test]
fn threshold_is_ten() {
    assert_eq!(THRESHOLD, 10);
}

#[test]
fn twelve_elements_split_once_at_six() {
    let s: Vec<i32> = vec![100, 2, 37, -5, 64, 0, 88, 13, 45, -20, 7, 99];
    let (left, right) = split_at_midpoint(&s);
    assert_eq!(left, &[100, 2, 37, -5, 64, 0]);
    assert_eq!(right, &[88, 13, 45, -20, 7, 99]);
    assert_eq!(scan_min(left), Ok(-5));
    assert_eq!(scan_min(right), Ok(-20));
    assert_eq!(parallel_min(&s), Ok(-20));
    assert_eq!(parallel_min_counted(&s), Ok(Reduction { min: -20, splits: 1 }));
}

#[test]
fn single_element_is_its_own_minimum() {
    let s: Vec<i32> = vec![3];
    assert_eq!(parallel_min(&s), Ok(3));
    assert_eq!(parallel_min_counted(&s), Ok(Reduction { min: 3, splits: 0 }));
    assert_eq!(scan_min(&s), Ok(3));
}

#[test]
fn empty_input_is_an_error() {
    let s: Vec<i32> = Vec::new();
    assert_eq!(parallel_min(&s), Err(ReduceError::EmptyInput));
    assert_eq!(parallel_min_counted(&s), Err(ReduceError::EmptyInput));
    assert_eq!(scan_min(&s), Err(ReduceError::EmptyInput));
}

#[test]
fn parallel_agrees_with_sequential_scan() {
    let mut len: usize = 1;
    while len <= 300 {
        let s: Vec<i32> = mixed(len);
        let expected: i32 = *s.iter().min().unwrap();
        assert_eq!(parallel_min(&s), Ok(expected));
        assert_eq!(scan_min(&s), Ok(expected));
        assert_eq!(parallel_min(&s), scan_min(&s));
        len += 1;
    }
}

#[test]
fn no_split_up_to_threshold() {
    let mut len: usize = 1;
    while len <= THRESHOLD {
        let s: Vec<i32> = mixed(len);
        assert_eq!(parallel_min_counted(&s).unwrap().splits, 0);
        len += 1;
    }
}

#[test]
fn split_count_follows_binary_recursion() {
    let mut len: usize = THRESHOLD + 1;
    while len <= 400 {
        let s: Vec<i32> = mixed(len);
        let counted: Reduction = parallel_min_counted(&s).unwrap();
        assert_eq!(counted.splits, predicted_splits(len));
        assert_eq!(counted.min, *s.iter().min().unwrap());
        len += 1;
    }
}

#[test]
fn hundred_descending_values() {
    let data: Vec<i32> = (1..=100).rev().collect();
    assert_eq!(parallel_min(&data), Ok(1));
    assert_eq!(parallel_min_counted(&data), Ok(Reduction { min: 1, splits: 15 }));
}

#[test]
fn exact_split_counts() {
    assert_eq!(parallel_min_counted(&mixed(11)).unwrap().splits, 1);
    assert_eq!(parallel_min_counted(&mixed(20)).unwrap().splits, 1);
    assert_eq!(parallel_min_counted(&mixed(21)).unwrap().splits, 2);
    assert_eq!(parallel_min_counted(&mixed(22)).unwrap().splits, 3);
    assert_eq!(parallel_min_counted(&mixed(40)).unwrap().splits, 3);
    assert_eq!(parallel_min_counted(&mixed(44)).unwrap().splits, 7);
}

#[test]
fn halves_partition_the_parent() {
    let mut len: usize = 0;
    while len <= 64 {
        let s: Vec<i32> = mixed(len);
        let (left, right) = split_at_midpoint(&s);
        assert_eq!(left.len(), len / 2);
        assert_eq!(left.len() + right.len(), len);
        assert_eq!(left, &s[..len / 2]);
        assert_eq!(right, &s[len / 2..]);
        let mut joined: Vec<i32> = left.to_vec();
        joined.extend_from_slice(right);
        assert_eq!(joined, s);
        len += 1;
    }
}

#[test]
fn halves_above_threshold_are_not_empty() {
    let s: Vec<i32> = mixed(THRESHOLD + 1);
    let (left, right) = split_at_midpoint(&s);
    assert_eq!(left.len(), 5);
    assert_eq!(right.len(), 6);
}

#[test]
fn same_sequence_twice_gives_same_result() {
    let s: Vec<i32> = mixed(1000);
    let first: Result<i32, ReduceError> = parallel_min(&s);
    let second: Result<i32, ReduceError> = parallel_min(&s);
    assert_eq!(first, second);
    assert_eq!(parallel_min_counted(&s), parallel_min_counted(&s));
    let empty: Vec<i32> = Vec::new();
    assert_eq!(parallel_min(&empty), parallel_min(&empty));
}

#[test]
fn length_at_threshold_is_scanned_directly() {
    let s: Vec<i32> = vec![9, 8, 7, 6, 5, 4, 3, 2, 1, 0];
    assert_eq!(s.len(), THRESHOLD);
    assert_eq!(parallel_min_counted(&s), Ok(Reduction { min: 0, splits: 0 }));
}

#[test]
fn length_just_above_threshold_splits_once() {
    let s: Vec<i32> = vec![9, 8, 7, 6, 5, 4, 3, 2, 1, 0, -1];
    assert_eq!(s.len(), THRESHOLD + 1);
    assert_eq!(parallel_min_counted(&s), Ok(Reduction { min: -1, splits: 1 }));
}

#[test]
fn minimum_at_either_end() {
    let mut s: Vec<i32> = mixed(257);
    s[0] = -1_000_000;
    assert_eq!(parallel_min(&s), Ok(-1_000_000));
    s[0] = 5;
    s[256] = -2_000_000;
    assert_eq!(parallel_min(&s), Ok(-2_000_000));
    s[256] = 5;
    s[128] = -3_000_000;
    assert_eq!(parallel_min(&s), Ok(-3_000_000));
}

#[test]
fn extreme_and_repeated_values() {
    let all_same: Vec<i32> = vec![7; 50];
    assert_eq!(parallel_min(&all_same), Ok(7));
    let mut s: Vec<i32> = vec![i32::MAX; 33];
    assert_eq!(parallel_min(&s), Ok(i32::MAX));
    s[17] = i32::MIN;
    assert_eq!(parallel_min(&s), Ok(i32::MIN));
    assert_eq!(scan_min(&s), Ok(i32::MIN));
    let twice: Vec<i32> = vec![4, -9, 4, -9, 0, 12, -9, 3, 3, 3, 8, 1, -9];
    assert_eq!(parallel_min(&twice), Ok(-9));
}

#[test]
fn large_input_runs_on_the_pool() {
    let len: usize = 200_000;
    let mut s: Vec<i32> = mixed(len);
    s[123_456] = -123_456_789;
    let counted: Reduction = parallel_min_counted(&s).unwrap();
    assert_eq!(counted.min, -123_456_789);
    assert_eq!(counted.splits, predicted_splits(len));
    assert!(counted.splits < len);
}

#[test]
fn scan_takes_sub_ranges() {
    let s: Vec<i32> = vec![5, 1, 9, -3, 7];
    assert_eq!(scan_min(&s[0..3]), Ok(1));
    assert_eq!(scan_min(&s[2..5]), Ok(-3));
    assert_eq!(scan_min(&s[4..5]), Ok(7));
    assert_eq!(scan_min(&s[5..5]), Err(ReduceError::EmptyInput));
}
