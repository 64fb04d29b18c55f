use bidir_iter::{BidirIterate, BidirIterator};

#[test]
fn walks_forward_to_the_end_and_back_to_the_start() {
    let a: &[i64] = &[1, 2, 3];
    let mut iter = a.bidir_iter();

    assert_eq!(iter.next(), Some(&1));
    assert_eq!(iter.next(), Some(&2));
    assert_eq!(iter.next(), Some(&3));
    assert_eq!(iter.next(), None);
    assert_eq!(iter.prev(), Some(&3));
    assert_eq!(iter.prev(), Some(&2));
    assert_eq!(iter.prev(), Some(&1));
    assert_eq!(iter.prev(), None);
    assert_eq!(iter.next(), Some(&1));
}

#[test]
fn prev_at_the_start_returns_none_and_stays() {
    let a: &[i64] = &[7, 8];
    let mut iter = a.bidir_iter();

    assert_eq!(iter.prev(), None);
    assert_eq!(iter.prev(), None);
    assert_eq!(iter.prev(), None);
    assert_eq!(iter.next(), Some(&7));
}

#[test]
fn next_at_the_end_returns_none_and_stays() {
    let a: &[i64] = &[7, 8];
    let mut iter = a.bidir_iter();

    assert_eq!(iter.next(), Some(&7));
    assert_eq!(iter.next(), Some(&8));
    for _ in 0..5 {
        assert_eq!(iter.next(), None);
    }
    assert_eq!(iter.prev(), Some(&8));
    assert_eq!(iter.prev(), Some(&7));
    assert_eq!(iter.prev(), None);
}

#[test]
fn next_then_prev_returns_the_same_item() {
    let a: &[i64] = &[10, 20, 30, 40];
    let mut iter = a.bidir_iter();

    assert_eq!(iter.next(), Some(&10));
    assert_eq!(iter.next(), Some(&20));
    assert_eq!(iter.prev(), Some(&20));
    assert_eq!(iter.next(), Some(&20));
    assert_eq!(iter.next(), Some(&30));
    assert_eq!(iter.prev(), Some(&30));
    assert_eq!(iter.prev(), Some(&20));
    assert_eq!(iter.next(), Some(&20));
}

#[test]
fn next_then_prev_at_every_cursor_restores_the_cursor() {
    let a: &[i64] = &[5, 6, 7, 8, 9];
    for start in 0..a.len() {
        let mut iter = a.bidir_iter();
        for _ in 0..start {
            iter.next();
        }
        let after = iter.next();
        assert_eq!(after, Some(&a[start]));
        assert_eq!(iter.prev(), after);
        assert_eq!(iter.next(), after);
    }
}

#[test]
fn prev_then_next_at_every_cursor_restores_the_cursor() {
    let a: &[i64] = &[5, 6, 7, 8, 9];
    for start in 1..=a.len() {
        let mut iter = a.bidir_iter();
        for _ in 0..start {
            iter.next();
        }
        let before = iter.prev();
        assert_eq!(before, Some(&a[start - 1]));
        assert_eq!(iter.next(), before);
        assert_eq!(iter.prev(), before);
    }
}

#[test]
fn empty_slice_has_no_items_in_either_direction() {
    let a: &[i64] = &[];
    let mut iter = a.bidir_iter();

    assert_eq!(iter.next(), None);
    assert_eq!(iter.prev(), None);
    assert_eq!(iter.next(), None);
}

#[test]
fn single_item_is_met_from_both_sides() {
    let a: &[i64] = &[42];
    let mut iter = a.bidir_iter();

    assert_eq!(iter.next(), Some(&42));
    assert_eq!(iter.next(), None);
    assert_eq!(iter.prev(), Some(&42));
    assert_eq!(iter.prev(), None);
    assert_eq!(iter.next(), Some(&42));
}

#[test]
fn items_are_references_into_the_slice() {
    let a: Vec<String> = vec![String::from("x"), String::from("y")];
    let s: &[String] = &a;
    let mut iter = s.bidir_iter();

    let first = iter.next().unwrap();
    assert!(std::ptr::eq(first, &a[0]));
    let second = iter.next().unwrap();
    assert!(std::ptr::eq(second, &a[1]));
    assert_eq!(a.len(), 2);
}

#[test]
fn a_mutable_borrow_steps_the_borrowed_iterator() {
    let a: &[i64] = &[1, 2, 3];
    let mut iter = a.bidir_iter();
    {
        let mut borrowed = &mut iter;
        assert_eq!(BidirIterator::next(&mut borrowed), Some(&1));
        assert_eq!(BidirIterator::next(&mut borrowed), Some(&2));
        assert_eq!(BidirIterator::prev(&mut borrowed), Some(&2));
    }
    assert_eq!(iter.next(), Some(&2));
    assert_eq!(iter.next(), Some(&3));
    assert_eq!(iter.next(), None);
}
