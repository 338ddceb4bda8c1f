use sysmon::history::History;

fn window(values: &[u64]) -> History {
    let mut h = History::with_capacity(values.len());
    for v in values {
        h.push(*v);
    }
    h
}

#[test]
fn with_capacity_is_all_zero() {
    let h = History::with_capacity(4);
    assert_eq!(h.len(), 4);
    assert_eq!(h.to_vec(), vec![0, 0, 0, 0]);
    assert!(!h.is_empty());
    assert!(History::with_capacity(0).is_empty());
}

#[test]
fn filled_uses_the_fill_value() {
    let h = History::filled(3, 7u8);
    assert_eq!(h.to_vec(), vec![7, 7, 7]);
}

#[test]
fn push_slides_the_window() {
    let mut h = window(&[1, 2, 3]);
    assert_eq!(h.to_vec(), vec![1, 2, 3]);
    h.push(9);
    assert_eq!(h.to_vec(), vec![2, 3, 9]);
    assert_eq!(h.len(), 3);
    assert_eq!(h.get(2), 9);
    assert_eq!(h.latest(), Some(9));
}

#[test]
fn push_into_empty_window_holds_one_sample() {
    let mut h = History::with_capacity(0);
    h.push(5);
    assert_eq!(h.to_vec(), vec![5]);
}

#[test]
fn resize_shrinks_to_newest() {
    let mut h = window(&[1, 2, 3, 4]);
    h.resize(2);
    assert_eq!(h.to_vec(), vec![3, 4]);
}

#[test]
fn resize_grows_with_zeros_in_front() {
    let mut h = window(&[1, 2]);
    h.resize(5);
    assert_eq!(h.to_vec(), vec![0, 0, 0, 1, 2]);
}

#[test]
fn resize_to_same_length_keeps_window() {
    let mut h = window(&[4, 5, 6]);
    h.resize(3);
    assert_eq!(h.to_vec(), vec![4, 5, 6]);
    h.resize(0);
    assert!(h.is_empty());
}

#[test]
fn resize_with_pads_with_given_value() {
    let mut h = History::filled(1, 2i32);
    h.resize_with(3, -1);
    assert_eq!(h.to_vec(), vec![-1, -1, 2]);
}

#[test]
fn peak_is_largest_sample() {
    assert_eq!(window(&[3, 17, 4, 17, 0]).peak(), 17);
    assert_eq!(History::with_capacity(3).peak(), 0);
    assert_eq!(History::with_capacity(0).peak(), 0);
    assert_eq!(window(&[u64::MAX, 1]).peak(), u64::MAX);
}

#[test]
fn latest_of_empty_window() {
    let h = History::with_capacity(0);
    assert_eq!(h.latest(), None);
    assert_eq!(h.latest_or_zero(), 0);
    assert_eq!(window(&[1, 8]).latest_or_zero(), 8);
}
