use local_engine::expr::AggKind;
use local_engine::window::{
    same_key, window_offset, window_rank, window_row_number, window_running_agg,
};

fn keys(values: &[i64]) -> Vec<Vec<Option<i64>>> {
    values.iter().map(|v| vec![Some(*v)]).collect()
}

#[test]
fn rank_skips_and_dense_rank_does_not() {
    let k = keys(&[1, 1, 2, 3, 3, 3]);
    assert_eq!(window_rank(&k, false), vec![1, 1, 3, 4, 4, 4]);
    assert_eq!(window_rank(&k, true), vec![1, 1, 2, 3, 3, 3]);
}

#[test]
fn rank_of_no_rows_and_of_nulls() {
    let none: Vec<Vec<Option<i64>>> = Vec::new();
    assert_eq!(window_rank(&none, false), Vec::<u64>::new());
    let k = vec![vec![None], vec![None], vec![Some(0)]];
    assert_eq!(window_rank(&k, false), vec![1, 1, 3]);
    assert_eq!(window_rank(&k, true), vec![1, 1, 2]);
}

#[test]
fn row_number_counts_from_one() {
    assert_eq!(window_row_number(0), Vec::<u64>::new());
    assert_eq!(window_row_number(5), vec![1, 2, 3, 4, 5]);
}

#[test]
fn offset_beyond_the_partition_is_null_or_default() {
    let values = vec![Some(10), Some(20), Some(30)];
    assert_eq!(
        window_offset(&values, 1, None),
        vec![Some(20), Some(30), None]
    );
    let defaults = vec![Some(-1), Some(-2), Some(-3)];
    assert_eq!(
        window_offset(&values, 1, Some(&defaults)),
        vec![Some(20), Some(30), Some(-3)]
    );
    assert_eq!(
        window_offset(&values, -2, Some(&defaults)),
        vec![Some(-1), Some(-2), Some(10)]
    );
    assert_eq!(window_offset(&values, 0, None), values);
    assert_eq!(
        window_offset(&values, i64::MIN, None),
        vec![None, None, None]
    );
}

#[test]
fn running_aggregates_skip_nulls() {
    let values = vec![Some(3), None, Some(-1), Some(7)];
    assert_eq!(
        window_running_agg(AggKind::Sum, &values),
        vec![Some(3), Some(3), Some(2), Some(9)]
    );
    assert_eq!(
        window_running_agg(AggKind::Count, &values),
        vec![Some(1), Some(1), Some(2), Some(3)]
    );
    assert_eq!(
        window_running_agg(AggKind::Min, &values),
        vec![Some(3), Some(3), Some(-1), Some(-1)]
    );
    assert_eq!(
        window_running_agg(AggKind::Max, &values),
        vec![Some(3), Some(3), Some(3), Some(7)]
    );
    let nulls = vec![None, None];
    assert_eq!(window_running_agg(AggKind::Sum, &nulls), vec![None, None]);
    assert_eq!(
        window_running_agg(AggKind::Count, &nulls),
        vec![Some(0), Some(0)]
    );
}

#[test]
fn same_key_compares_cells() {
    assert!(same_key(&vec![Some(1), None], &vec![Some(1), None]));
    assert!(!same_key(&vec![Some(1), None], &vec![Some(1), Some(0)]));
    assert!(!same_key(&vec![Some(1)], &vec![Some(1), None]));
}
