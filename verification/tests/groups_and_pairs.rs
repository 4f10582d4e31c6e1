use lazyseq::cursor::Cursor;
use lazyseq::cycle::CycleCursor;
use lazyseq::groups::GroupCursor;
use lazyseq::ops::MapOp;
use lazyseq::pairs::{EnumCursor, ZipCursor};

#[test]
fn windows_of_three_over_five_elements() {
    let cur = GroupCursor::windows(vec![1, 2, 3, 4, 5], 3).unwrap();
    let got = cur.collect_groups();
    assert_eq!(got, vec![vec![1, 2, 3], vec![2, 3, 4], vec![3, 4, 5]]);
}

#[test]
fn windows_count_is_len_minus_width_plus_one() {
    let cur = GroupCursor::windows(vec![1, 2, 3, 4, 5, 6, 7], 2).unwrap();
    let got = cur.collect_groups();
    assert_eq!(got.len(), 6);
    for w in &got {
        assert_eq!(w.len(), 2);
    }
}

#[test]
fn windows_wider_than_data_produce_nothing() {
    let cur = GroupCursor::windows(vec![1, 2], 3).unwrap();
    assert_eq!(cur.collect_groups(), Vec::<Vec<i64>>::new());
}

#[test]
fn window_width_zero_is_rejected() {
    assert!(GroupCursor::windows(vec![1, 2, 3], 0).is_none());
    assert!(GroupCursor::chunks(vec![1, 2, 3], 0).is_none());
}

#[test]
fn chunks_of_two_over_five_elements() {
    let cur = GroupCursor::chunks(vec![1, 2, 3, 4, 5], 2).unwrap();
    let got = cur.collect_groups();
    assert_eq!(got, vec![vec![1, 2], vec![3, 4], vec![5]]);
}

#[test]
fn chunks_concatenation_restores_the_source() {
    let data = vec![4, 8, 15, 16, 23, 42, 7];
    for width in 1..9usize {
        let cur = GroupCursor::chunks(data.clone(), width).unwrap();
        let got = cur.collect_groups();
        let expected = (data.len() + width - 1) / width;
        assert_eq!(got.len(), expected);
        let rejoined: Vec<i64> = got.into_iter().flatten().collect();
        assert_eq!(rejoined, data);
    }
}

#[test]
fn sliding_sums_from_windows() {
    let cur = GroupCursor::windows(vec![1, 2, 3, 4], 2).unwrap();
    let sums: Vec<i64> = cur.collect_groups().iter().map(|w| w[0] + w[1]).collect();
    assert_eq!(sums, vec![3, 5, 7]);
    let cur = GroupCursor::windows(vec![1, 2, 3, 4, 5, 6, 7], 3).unwrap();
    let sums: Vec<i64> = cur
        .collect_groups()
        .iter()
        .map(|w| w[0] + w[1] + w[2])
        .collect();
    assert_eq!(sums, vec![6, 9, 12, 15, 18]);
}

#[test]
fn zip_pairs_until_the_shorter_side_ends() {
    let z = ZipCursor::zip(
        Cursor::from_vec(vec![1, 2, 3, 4]),
        Cursor::from_vec(vec![11, 12, 13, 14]),
    );
    assert_eq!(
        z.collect_pairs(),
        vec![(1, 11), (2, 12), (3, 13), (4, 14)]
    );
    let z = ZipCursor::zip(Cursor::range(0, 2), Cursor::counting(100));
    assert_eq!(z.collect_pairs(), vec![(0, 100), (1, 101)]);
}

#[test]
fn enumerate_numbers_from_zero() {
    let e = EnumCursor::enumerate(Cursor::range(10, 15));
    assert_eq!(
        e.collect_pairs(),
        vec![(0, 10), (1, 11), (2, 12), (3, 13), (4, 14)]
    );
}

#[test]
fn enumerate_then_add_index_and_element() {
    let e = EnumCursor::enumerate(Cursor::range(10, 15));
    let v: Vec<i64> = e
        .collect_pairs()
        .into_iter()
        .map(|(i, x)| i as i64 + x)
        .collect();
    assert_eq!(v, vec![10, 12, 14, 16, 18]);
}

#[test]
fn cycle_repeats_its_elements() {
    let mut c = CycleCursor::cycle(vec![1, 2, 3, 4, 5]).unwrap();
    let got = c.take_vec(10);
    assert_eq!(got, vec![1, 2, 3, 4, 5, 1, 2, 3, 4, 5]);
    let more = c.take_vec(3);
    assert_eq!(more, vec![1, 2, 3]);
}

#[test]
fn cycle_never_signals_completion() {
    let mut c = CycleCursor::cycle(vec![7]).unwrap();
    for _ in 0..20 {
        assert_eq!(c.produce_next(), 7);
    }
}

#[test]
fn cycling_nothing_is_rejected() {
    assert!(CycleCursor::cycle(vec![]).is_none());
}

#[test]
fn a_lazy_pipeline_mixing_groups_and_cursors() {
    // squares of the first six counting numbers, in chunks of four
    let squares = Cursor::counting(1).map(MapOp::Square).take(6).collect();
    assert_eq!(squares, vec![1, 4, 9, 16, 25, 36]);
    let cur = GroupCursor::chunks(squares, 4).unwrap();
    assert_eq!(
        cur.collect_groups(),
        vec![vec![1, 4, 9, 16], vec![25, 36]]
    );
}
