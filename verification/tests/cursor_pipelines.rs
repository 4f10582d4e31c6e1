use lazyseq::cursor::Cursor;
use lazyseq::ops::{FoldOp, MapOp, Pred};

fn collect(c: Cursor) -> Vec<i64> {
    c.collect()
}

#[test]
fn range_collects_in_order() {
    assert_eq!(collect(Cursor::range(1, 6)), vec![1, 2, 3, 4, 5]);
    assert_eq!(collect(Cursor::range_inclusive(0, 4)), vec![0, 1, 2, 3, 4]);
    assert_eq!(collect(Cursor::range(5, 5)), Vec::<i64>::new());
    assert_eq!(collect(Cursor::range(7, 3)), Vec::<i64>::new());
}

#[test]
fn from_vec_collects_its_elements() {
    assert_eq!(collect(Cursor::from_vec(vec![9, -2, 4])), vec![9, -2, 4]);
    assert_eq!(collect(Cursor::from_vec(vec![])), Vec::<i64>::new());
}

#[test]
fn fold_of_one_through_ten_is_fifty_five() {
    let total = Cursor::range_inclusive(1, 10).fold(FoldOp::Plus, 0);
    assert_eq!(total, 55);
}

#[test]
fn product_of_one_through_ten_is_ten_factorial() {
    let product = Cursor::range_inclusive(1, 10).product();
    assert_eq!(product, 3628800);
}

#[test]
fn sum_of_squares_one_through_ten() {
    let total = Cursor::range_inclusive(1, 10).map(MapOp::Square).sum();
    assert_eq!(total, 385);
}

#[test]
fn fold_small_examples() {
    assert_eq!(Cursor::range_inclusive(1, 3).fold(FoldOp::Plus, 0), 6);
    assert_eq!(Cursor::range_inclusive(1, 5).fold(FoldOp::Times, 1), 120);
}

#[test]
fn fold_over_empty_returns_initial_accumulator() {
    assert_eq!(Cursor::range(3, 3).fold(FoldOp::Plus, 42), 42);
    assert_eq!(Cursor::from_vec(vec![]).fold(FoldOp::Times, -7), -7);
}

#[test]
fn reduce_over_empty_returns_no_result() {
    assert_eq!(Cursor::range(1, 1).reduce(FoldOp::Plus), None);
    assert_eq!(Cursor::from_vec(vec![]).reduce(FoldOp::Times), None);
}

#[test]
fn reduce_uses_first_element_as_seed() {
    assert_eq!(Cursor::range(1, 3).reduce(FoldOp::Plus), Some(3));
    assert_eq!(Cursor::from_vec(vec![7]).reduce(FoldOp::Times), Some(7));
}

#[test]
fn take_five_of_squared_evens_from_counting() {
    let out = Cursor::counting(0)
        .filter(Pred::Even)
        .map(MapOp::Square)
        .take(5)
        .collect();
    assert_eq!(out, vec![0, 4, 16, 36, 64]);
}

#[test]
fn take_of_counting_terminates_quickly() {
    let out = Cursor::counting(0).take(10).collect();
    assert_eq!(out, vec![0, 1, 2, 3, 4, 5, 6, 7, 8, 9]);
}

#[test]
fn skip_then_take_slides_a_window_forward() {
    let out = Cursor::range(1, 100).skip(10).take(5).collect();
    assert_eq!(out, vec![11, 12, 13, 14, 15]);
}

#[test]
fn filtered_then_doubled_range() {
    let out = Cursor::range_inclusive(0, 10)
        .filter(Pred::Even)
        .map(MapOp::Times(2))
        .collect();
    assert_eq!(out, vec![0, 4, 8, 12, 16, 20]);
}

#[test]
fn filter_keeps_only_matches() {
    let evens = Cursor::range_inclusive(0, 10).filter(Pred::Even).collect();
    assert_eq!(evens, vec![0, 2, 4, 6, 8, 10]);
    let odds = Cursor::range_inclusive(0, 10).filter(Pred::Odd).collect();
    assert_eq!(odds, vec![1, 3, 5, 7, 9]);
}

#[test]
fn chain_produces_first_then_second() {
    let out = Cursor::range(1, 3).chain(Cursor::range(10, 12)).collect();
    assert_eq!(out, vec![1, 2, 10, 11]);
}

#[test]
fn map_fusion_two_maps_equal_one_composed_map() {
    let twice: Vec<i64> = Cursor::range(0, 6)
        .map(MapOp::Plus(3))
        .map(MapOp::Square)
        .collect();
    let fused: Vec<i64> = Cursor::range(0, 6)
        .map(MapOp::Composed(
            Box::new(MapOp::Plus(3)),
            Box::new(MapOp::Square),
        ))
        .collect();
    assert_eq!(twice, fused);
    assert_eq!(fused, vec![9, 16, 25, 36, 49, 64]);
}

#[test]
fn any_over_unbounded_counting_stops_at_first_hit() {
    assert!(Cursor::counting(1).any(Pred::DivisibleBy(1000)));
    assert!(Cursor::range(1, 5).any(Pred::Even));
    assert!(!Cursor::from_vec(vec![1, 3, 5, 7]).any(Pred::Even));
}

#[test]
fn all_stops_at_the_first_failing_element() {
    assert!(!Cursor::range(-10, 10).all(Pred::Above(0)));
    assert!(Cursor::range(1, 10).all(Pred::Above(0)));
    assert!(Cursor::from_vec(vec![]).all(Pred::Above(100)));
}

#[test]
fn find_returns_first_match_only() {
    assert_eq!(
        Cursor::range_inclusive(1, 10).find(Pred::DivisibleBy(3)),
        Some(3)
    );
    assert_eq!(Cursor::range(1, 5).find(Pred::Above(10)), None);
    assert_eq!(Cursor::counting(50).find(Pred::DivisibleBy(64)), Some(64));
}

#[test]
fn partition_splits_by_predicate_keeping_order() {
    let (even, odd) = Cursor::range_inclusive(0, 10).partition(Pred::Even);
    assert_eq!(even, vec![0, 2, 4, 6, 8, 10]);
    assert_eq!(odd, vec![1, 3, 5, 7, 9]);
}

#[test]
fn exhausted_cursor_keeps_answering_done() {
    let mut cur = Cursor::range(0, 2);
    let (c1, v1) = cur.produce_next();
    assert_eq!(v1, Some(0));
    let (c2, v2) = c1.produce_next();
    assert_eq!(v2, Some(1));
    cur = c2;
    for _ in 0..5 {
        let (next, v) = cur.produce_next();
        assert_eq!(v, None);
        cur = next;
    }
}

#[test]
fn peek_does_not_consume_and_repeats() {
    let cur = Cursor::from_vec(vec![5, 6]);
    let (cur, first) = cur.peek();
    assert_eq!(first, Some(5));
    let (cur, again) = cur.peek();
    assert_eq!(again, Some(5));
    let (cur, produced) = cur.produce_next();
    assert_eq!(produced, Some(5));
    let (cur, second) = cur.peek();
    assert_eq!(second, Some(6));
    let (cur, produced) = cur.produce_next();
    assert_eq!(produced, Some(6));
    let (_, done) = cur.peek();
    assert_eq!(done, None);
}

#[test]
fn flatten_lays_rows_end_to_end() {
    let out = Cursor::flatten_rows(vec![vec![1, 2], vec![3, 4]]).collect();
    assert_eq!(out, vec![1, 2, 3, 4]);
    let with_empties = Cursor::flatten_rows(vec![vec![], vec![7], vec![], vec![8, 9]]).collect();
    assert_eq!(with_empties, vec![7, 8, 9]);
}

#[test]
fn flat_map_flattens_then_maps() {
    let out = Cursor::flat_map_rows(vec![vec![1, 2, 3], vec![4, 5, 6]], MapOp::Times(2)).collect();
    assert_eq!(out, vec![2, 4, 6, 8, 10, 12]);
}

#[test]
fn negative_numbers_and_parity() {
    assert!(Cursor::from_vec(vec![-4]).all(Pred::Even));
    assert!(Cursor::from_vec(vec![-3]).all(Pred::Odd));
    assert!(Cursor::from_vec(vec![-9]).any(Pred::DivisibleBy(3)));
    assert!(!Cursor::from_vec(vec![5]).any(Pred::DivisibleBy(0)));
}

#[test]
fn wrapping_arithmetic_is_stated_not_hidden() {
    let out = Cursor::from_vec(vec![i64::MAX]).map(MapOp::Plus(1)).collect();
    assert_eq!(out, vec![i64::MIN]);
    let doubled = Cursor::from_vec(vec![i64::MAX]).map(MapOp::Double).collect();
    assert_eq!(doubled, vec![-2]);
}

#[test]
fn fib_first_ten() {
    let got: Vec<u64> = (0..10).map(|i| lazyseq::fib::fib(i).unwrap()).collect();
    assert_eq!(got, vec![0, 1, 1, 2, 3, 5, 8, 13, 21, 34]);
}

#[test]
fn fib_reports_when_the_number_no_longer_fits() {
    assert_eq!(lazyseq::fib::fib(93), Some(12200160415121876738));
    assert_eq!(lazyseq::fib::fib(94), None);
    assert_eq!(lazyseq::fib::fib(1000), None);
}
