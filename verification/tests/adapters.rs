use bidir_iter::{BidirIterate, BidirIterator};

#[test]
fn filter_keeps_the_accepted_items_in_both_directions() {
    let a: &[i64] = &[1, 2, 3, 4, 5, 6, 7];
    let mut iter = a.bidir_iter().filter(|n| *n % 2 == 0);

    assert_eq!(iter.next(), Some(&2));
    assert_eq!(iter.next(), Some(&4));
    assert_eq!(iter.next(), Some(&6));
    assert_eq!(iter.next(), None);
    assert_eq!(iter.prev(), Some(&6));
    assert_eq!(iter.prev(), Some(&4));
    assert_eq!(iter.prev(), Some(&2));
    assert_eq!(iter.prev(), None);
}

#[test]
fn filter_yields_the_accepted_subsequence_forward_and_reversed_backward() {
    let a: &[i64] = &[9, 4, 7, 7, 2, 10, 3, 8];
    let expected: Vec<&i64> = a.iter().filter(|n| **n > 5).collect();

    let mut iter = a.bidir_iter().filter(|n| **n > 5);
    let forward = iter.forward().collect();
    assert_eq!(forward, expected);
    assert_eq!(forward, vec![&9, &7, &7, &10, &8]);

    let backward = iter.backward().collect();
    let mut reversed = expected.clone();
    reversed.reverse();
    assert_eq!(backward, reversed);
    assert_eq!(backward, vec![&8, &10, &7, &7, &9]);
}

#[test]
fn filter_next_then_prev_returns_the_same_item() {
    let a: &[i64] = &[1, 2, 3, 4, 5, 6, 7];
    let mut iter = a.bidir_iter().filter(|n| *n % 2 == 0);

    assert_eq!(iter.next(), Some(&2));
    assert_eq!(iter.next(), Some(&4));
    assert_eq!(iter.prev(), Some(&4));
    assert_eq!(iter.prev(), Some(&2));
    assert_eq!(iter.next(), Some(&2));
}

#[test]
fn filter_that_rejects_everything_is_empty() {
    let a: &[i64] = &[1, 3, 5];
    let mut iter = a.bidir_iter().filter(|n| *n % 2 == 0);

    assert_eq!(iter.next(), None);
    assert_eq!(iter.next(), None);
    assert_eq!(iter.prev(), None);
    assert_eq!(iter.prev(), None);
    assert_eq!(iter.next(), None);
}

#[test]
fn filter_starts_at_the_cursor_of_the_iterator_it_wraps() {
    let a: &[i64] = &[2, 4, 6, 8];
    let mut inner = a.bidir_iter();
    inner.next();
    inner.next();
    let mut iter = inner.filter(|n| *n % 2 == 0);

    assert_eq!(iter.next(), Some(&6));
    assert_eq!(iter.prev(), Some(&6));
    assert_eq!(iter.prev(), Some(&4));
    assert_eq!(iter.prev(), Some(&2));
    assert_eq!(iter.prev(), None);
}

#[test]
fn filter_leaves_a_borrowed_iterator_just_past_the_item_it_returned() {
    let a: &[i64] = &[1, 3, 4, 5, 7];
    let mut inner = a.bidir_iter();
    {
        let mut evens = (&mut inner).filter(|n| *n % 2 == 0);
        assert_eq!(evens.next(), Some(&4));
    }
    assert_eq!(inner.next(), Some(&5));
    {
        let mut evens = (&mut inner).filter(|n| *n % 2 == 0);
        assert_eq!(evens.next(), None);
    }
    assert_eq!(inner.next(), None);
    assert_eq!(inner.prev(), Some(&7));
    {
        let mut evens = (&mut inner).filter(|n| *n % 2 == 0);
        assert_eq!(evens.prev(), Some(&4));
    }
    assert_eq!(inner.next(), Some(&4));
    {
        let mut evens = (&mut inner).filter(|n| *n % 2 == 0);
        assert_eq!(evens.prev(), Some(&4));
        assert_eq!(evens.prev(), None);
    }
    assert_eq!(inner.prev(), None);
    assert_eq!(inner.next(), Some(&1));
}

#[test]
fn filter_calls_the_predicate_once_for_each_item_it_passes() {
    let a: &[i64] = &[1, 3, 4, 5];
    let mut calls = 0;
    {
        let mut iter = a.bidir_iter().filter(|n| {
            calls += 1;
            *n % 2 == 0
        });
        assert_eq!(iter.next(), Some(&4));
    }
    assert_eq!(calls, 3);
}

#[test]
fn map_transforms_each_item() {
    let a: &[i64] = &[1, 2, 3];
    let mut iter = a.bidir_iter().map(|n| *n * 10);

    assert_eq!(iter.next(), Some(10));
    assert_eq!(iter.next(), Some(20));
    assert_eq!(iter.next(), Some(30));
    assert_eq!(iter.next(), None);
    assert_eq!(iter.prev(), Some(30));
}

#[test]
fn map_commutes_with_collecting_in_either_direction() {
    let a: &[i64] = &[3, 1, 4, 1, 5];

    let mut plain = a.bidir_iter();
    plain.next();
    let plain_forward: Vec<i64> = plain.forward().collect().into_iter().map(|n| n * n + 1).collect();
    assert_eq!(plain_forward, vec![2, 17, 2, 26]);

    let mut start = a.bidir_iter();
    start.next();
    let mut mapped = start.map(|n| n * n + 1);
    assert_eq!(mapped.forward().collect(), plain_forward);

    let plain_backward: Vec<i64> = plain.backward().collect().into_iter().map(|n| n * n + 1).collect();
    assert_eq!(plain_backward, vec![26, 2, 17, 2, 10]);
    assert_eq!(mapped.backward().collect(), plain_backward);
}

#[test]
fn map_changes_the_item_type() {
    let a: &[i64] = &[1, 22, 333];
    let mut iter = a.bidir_iter().map(|n| n.to_string());

    assert_eq!(iter.next(), Some(String::from("1")));
    assert_eq!(iter.next(), Some(String::from("22")));
    assert_eq!(iter.prev(), Some(String::from("22")));
    assert_eq!(iter.prev(), Some(String::from("1")));
    assert_eq!(iter.prev(), None);
}

#[test]
fn map_takes_one_step_of_the_borrowed_iterator_per_step() {
    let a: &[i64] = &[1, 2, 3];
    let mut inner = a.bidir_iter();
    {
        let mut tens = (&mut inner).map(|n| *n * 10);
        assert_eq!(tens.next(), Some(10));
        assert_eq!(tens.next(), Some(20));
    }
    assert_eq!(inner.next(), Some(&3));
    {
        let mut tens = (&mut inner).map(|n| *n * 10);
        assert_eq!(tens.next(), None);
        assert_eq!(tens.prev(), Some(30));
    }
    assert_eq!(inner.prev(), Some(&2));
}

#[test]
fn filter_map_skips_the_items_without_a_result() {
    let a: &[i64] = &[0, 1, 2, 0, 3];
    let mut iter = a.bidir_iter().filter_map(|i| if *i == 0 { None } else { Some(1 / i) });

    assert_eq!(iter.next(), Some(1 / 1));
    assert_eq!(iter.next(), Some(1 / 2));
    assert_eq!(iter.next(), Some(1 / 3));
    assert_eq!(iter.next(), None);
}

#[test]
fn filter_map_walks_backward_over_the_same_results() {
    let a: &[i64] = &[0, 1, 2, 0, 3];
    let mut iter = a.bidir_iter().filter_map(|i| if *i == 0 { None } else { Some(*i * 100) });

    assert_eq!(iter.next(), Some(100));
    assert_eq!(iter.next(), Some(200));
    assert_eq!(iter.prev(), Some(200));
    assert_eq!(iter.next(), Some(200));
    assert_eq!(iter.next(), Some(300));
    assert_eq!(iter.next(), None);
    assert_eq!(iter.next(), None);
    assert_eq!(iter.prev(), Some(300));
    assert_eq!(iter.prev(), Some(200));
    assert_eq!(iter.prev(), Some(100));
    assert_eq!(iter.prev(), None);
    assert_eq!(iter.prev(), None);
    assert_eq!(iter.next(), Some(100));
}

#[test]
fn filter_map_leaves_a_borrowed_iterator_just_past_the_item_it_used() {
    let a: &[i64] = &[0, 0, 5, 0, 6];
    let mut inner = a.bidir_iter();
    {
        let mut halves = (&mut inner).filter_map(|i| if *i == 0 { None } else { Some(*i * 2) });
        assert_eq!(halves.next(), Some(10));
    }
    assert_eq!(inner.next(), Some(&0));
    assert_eq!(inner.next(), Some(&6));
    {
        let mut halves = (&mut inner).filter_map(|i| if *i == 0 { None } else { Some(*i * 2) });
        assert_eq!(halves.prev(), Some(12));
        assert_eq!(halves.prev(), Some(10));
        assert_eq!(halves.prev(), None);
    }
    assert_eq!(inner.prev(), None);
    assert_eq!(inner.next(), Some(&0));
}

#[test]
fn filter_map_equals_filter_followed_by_map() {
    let a: &[i64] = &[4, 0, 9, 0, 0, 16, 1];

    let mut combined = a.bidir_iter().filter_map(|i| if *i == 0 { None } else { Some(*i + 1) });
    let mut chained = a.bidir_iter().filter(|i| **i != 0).map(|i| *i + 1);

    assert_eq!(combined.forward().collect(), chained.forward().collect());
    assert_eq!(combined.backward().collect(), chained.backward().collect());
    assert_eq!(combined.forward().collect(), vec![5, 10, 17, 2]);
}

#[test]
fn adapters_chain() {
    let a: &[i64] = &[1, 2, 3, 4, 5, 6];
    let mut iter = a
        .bidir_iter()
        .filter(|n| *n % 2 == 1)
        .map(|n| *n * 2)
        .filter_map(|n| if n > 2 { Some(n + 1) } else { None });

    assert_eq!(iter.next(), Some(7));
    assert_eq!(iter.next(), Some(11));
    assert_eq!(iter.next(), None);
    assert_eq!(iter.prev(), Some(11));
    assert_eq!(iter.prev(), Some(7));
    assert_eq!(iter.prev(), None);
}
