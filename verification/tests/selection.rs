use rust_primer::selection::{largest, largest_char, largest_clone, largest_i32, largest_ref};
use std::cmp::Ordering;

/// Ordered and compared by `key` alone; `tag` tells equal keys apart.
#[derive(Debug, Clone, Copy)]
struct Tagged {
    key: i32,
    tag: u32,
}

impl PartialEq for Tagged {
    fn eq(&self, other: &Tagged) -> bool {
        self.key == other.key
    }
}

impl PartialOrd for Tagged {
    fn partial_cmp(&self, other: &Tagged) -> Option<Ordering> {
        self.key.partial_cmp(&other.key)
    }
}

fn tagged(keys: &[i32]) -> Vec<Tagged> {
    let mut out = Vec::new();
    for (i, k) in keys.iter().enumerate() {
        out.push(Tagged { key: *k, tag: i as u32 });
    }
    out
}

fn fold_with_max(list: &[i32]) -> i32 {
    list.iter().copied().fold(list[0], |acc, x| if x > acc { x } else { acc })
}

#[test]
fn test_largest_i32_numbers() {
    assert_eq!(largest_i32(&[42, 4, 2, 4242, 24]), 4242);
}

#[test]
fn test_largest_char_letters() {
    assert_eq!(largest_char(&['n', 'y', 'p', 'a', 's', 'u']), 'y');
}

#[test]
fn test_largest_numbers() {
    assert_eq!(largest(&[42, 4, 2, 4242, 24]), 4242);
}

#[test]
fn test_largest_letters() {
    assert_eq!(largest(&['n', 'y', 'p', 'a', 's', 'u']), 'y');
}

#[test]
fn test_largest_clone_numbers() {
    assert_eq!(largest_clone(&[42, 4, 2, 4242, 24]), 4242);
}

#[test]
fn test_largest_ref_numbers() {
    assert_eq!(*largest_ref(&[42, 4, 2, 4242, 24]), 4242);
}

#[test]
fn test_largest_single_element() {
    assert_eq!(largest_i32(&[-7]), -7);
    assert_eq!(largest_char(&['q']), 'q');
    assert_eq!(largest(&[-7]), -7);
    assert_eq!(largest_clone(&[String::from("only")]), "only");
    assert_eq!(*largest_ref(&[-7]), -7);
}

#[test]
fn test_largest_at_the_ends() {
    assert_eq!(largest_i32(&[9, 1, 2]), 9);
    assert_eq!(largest_i32(&[1, 2, 9]), 9);
    assert_eq!(largest(&[9, 1, 2]), 9);
    assert_eq!(largest(&[1, 2, 9]), 9);
    assert_eq!(*largest_ref(&[9, 1, 2]), 9);
    assert_eq!(*largest_ref(&[1, 2, 9]), 9);
    assert_eq!(largest_clone(&[9, 1, 2]), 9);
    assert_eq!(largest_clone(&[1, 2, 9]), 9);
}

#[test]
fn test_largest_negative_numbers() {
    assert_eq!(largest_i32(&[-5, -2, -9, i32::MIN]), -2);
    assert_eq!(largest(&[-5, -2, -9, i32::MIN]), -2);
}

#[test]
fn test_selectors_agree_with_fold() {
    let lists: Vec<Vec<i32>> = vec![
        vec![0],
        vec![1, 1, 1],
        vec![3, 1, 4, 1, 5, 9, 2, 6, 5, 3, 5],
        vec![i32::MAX, i32::MIN, 0],
        vec![-1, -1, -3],
    ];
    for list in lists {
        let expected = fold_with_max(&list);
        assert_eq!(largest_i32(&list), expected);
        assert_eq!(largest(&list), expected);
        assert_eq!(largest_clone(&list), expected);
        assert_eq!(*largest_ref(&list), expected);
    }
}

#[test]
fn test_largest_clone_of_strings() {
    let words = vec![String::from("pear"), String::from("zebra"), String::from("apple")];
    assert_eq!(largest_clone(&words), "zebra");
    assert_eq!(words.len(), 3);
    assert_eq!(words[1], "zebra");
}

#[test]
fn test_largest_ref_points_into_the_slice() {
    let list = vec![3, 8, 5];
    let r = largest_ref(&list);
    assert!(std::ptr::eq(r, &list[1]));
}

#[test]
fn test_first_occurrence_wins_by_reference() {
    let list = tagged(&[2, 7, 1, 7, 7, 3]);
    let r = largest_ref(&list);
    assert!(std::ptr::eq(r, &list[1]));
    assert_eq!(r.tag, 1);
}

#[test]
fn test_first_occurrence_wins_by_copy() {
    let list = tagged(&[2, 7, 1, 7, 7, 3]);
    assert_eq!(largest(&list).tag, 1);
}

#[test]
fn test_first_occurrence_wins_by_clone() {
    let list = tagged(&[2, 7, 1, 7, 7, 3]);
    assert_eq!(largest_clone(&list).tag, 1);
}

#[test]
fn test_first_occurrence_wins_when_all_equal() {
    let list = tagged(&[4, 4, 4]);
    assert_eq!(largest(&list).tag, 0);
    assert_eq!(largest_clone(&list).tag, 0);
    assert_eq!(largest_ref(&list).tag, 0);
}

#[test]
fn test_selectors_leave_input_unchanged() {
    let list = vec![5, 3, 9, 1];
    let _ = largest_i32(&list);
    let _ = largest(&list);
    let _ = largest_clone(&list);
    let _ = largest_ref(&list);
    assert_eq!(list, vec![5, 3, 9, 1]);
}
