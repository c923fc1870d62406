use cubestore::columns::ColumnArray;
use cubestore::data_frame::DataFrame;
use cubestore::error::ErrorKind;
use cubestore::metastore::{Column, ColumnType, IdRow, Partition};
use cubestore::router::{
    batch_rows, check_bound, check_bounds, check_chained, key_equal, partition_batch, route_rows,
    row_in_range, split_rows, take_columns, RoutedRows,
};
use cubestore::table::{Row, TableValue};

fn ints(values: &[i64]) -> ColumnArray {
    ColumnArray::Int(values.to_vec())
}

fn strs(values: &[&str]) -> ColumnArray {
    ColumnArray::Str(values.iter().map(|s| s.to_string()).collect())
}

fn bound(value: i64) -> Option<Row> {
    Some(Row::new(vec![TableValue::Int(value)]))
}

fn partition(id: u64, min: Option<Row>, max: Option<Row>) -> IdRow<Partition> {
    IdRow::new(id, Partition::new(1, min, max))
}

/// Three partitions: up to 10, above 10 up to 20, above 20.
fn three_ranges() -> Vec<IdRow<Partition>> {
    vec![
        partition(11, None, bound(10)),
        partition(12, bound(10), bound(20)),
        partition(13, bound(20), None),
    ]
}

fn batch() -> Vec<ColumnArray> {
    vec![
        ints(&[5, 10, 11, 20, 21, 0, 30]),
        strs(&["five", "ten", "eleven", "twenty", "twenty-one", "zero", "thirty"]),
    ]
}

fn columns_35() -> Vec<Column> {
    vec![
        Column::new("foo_int".to_string(), ColumnType::Int, 0),
        Column::new("foo".to_string(), ColumnType::String, 1),
        Column::new("boo".to_string(), ColumnType::String, 2),
    ]
}

fn rows_35(descending: bool) -> Vec<Row> {
    (0..35)
        .map(|i| if descending { 34 - i } else { i })
        .map(|i| {
            Row::new(vec![
                TableValue::Int(i),
                TableValue::String(format!("Foo {}", i)),
                TableValue::String(format!("Boo {}", i)),
            ])
        })
        .collect()
}

#[test]
fn range_is_open_below_and_closed_above() {
    let columns = vec![ints(&[9, 10, 11, 19, 20, 21])];
    let min = bound(10);
    let max = bound(20);
    let inside: Vec<bool> =
        (0..6).map(|r| row_in_range(&columns, 1, &min, &max, r)).collect();
    assert_eq!(inside, vec![false, false, true, true, true, false]);
    let below: Vec<bool> =
        (0..6).map(|r| row_in_range(&columns, 1, &None, &max, r)).collect();
    assert_eq!(below, vec![true, true, true, true, true, false]);
    let above: Vec<bool> =
        (0..6).map(|r| row_in_range(&columns, 1, &min, &None, r)).collect();
    assert_eq!(above, vec![false, false, true, true, true, true]);
    assert!((0..6).all(|r| row_in_range(&columns, 1, &None, &None, r)));
}

#[test]
fn range_compares_the_whole_key() {
    let columns = vec![ints(&[1, 1, 1, 2]), strs(&["a", "m", "z", "a"])];
    let min = Some(Row::new(vec![TableValue::Int(1), TableValue::String("a".to_string())]));
    let max = Some(Row::new(vec![TableValue::Int(1), TableValue::String("z".to_string())]));
    let inside: Vec<bool> =
        (0..4).map(|r| row_in_range(&columns, 2, &min, &max, r)).collect();
    assert_eq!(inside, vec![false, true, true, false]);
}

#[test]
fn split_rows_keeps_the_order_in_both_parts() {
    let columns = batch();
    let (inside, outside) =
        split_rows(&columns, 1, &bound(10), &bound(20), vec![6, 3, 0, 2, 5, 1, 4]);
    assert_eq!(inside, vec![3, 2]);
    assert_eq!(outside, vec![6, 0, 5, 1, 4]);
    let (all, none) = split_rows(&columns, 1, &None, &None, vec![2, 1]);
    assert_eq!(all, vec![2, 1]);
    assert_eq!(none, Vec::<usize>::new());
    let (a, b) = split_rows(&columns, 1, &None, &None, vec![]);
    assert!(a.is_empty() && b.is_empty());
}

#[test]
fn take_columns_gathers_every_column() {
    let taken = take_columns(&batch(), &vec![5, 0]);
    assert_eq!(taken, vec![ints(&[0, 5]), strs(&["zero", "five"])]);
    assert_eq!(take_columns(&Vec::new(), &vec![]), Vec::<ColumnArray>::new());
}

#[test]
fn route_rows_gives_each_row_to_the_first_partition_that_takes_it() {
    let columns = batch();
    let order = vec![5, 0, 1, 2, 3, 4, 6];
    let routed = route_rows(&columns, 1, order, &three_ranges()).unwrap();
    assert_eq!(
        routed,
        vec![
            RoutedRows {
                partition: 0,
                partition_id: 11,
                rows: vec![5, 0, 1],
                columns: vec![ints(&[0, 5, 10]), strs(&["zero", "five", "ten"])],
            },
            RoutedRows {
                partition: 1,
                partition_id: 12,
                rows: vec![2, 3],
                columns: vec![ints(&[11, 20]), strs(&["eleven", "twenty"])],
            },
            RoutedRows {
                partition: 2,
                partition_id: 13,
                rows: vec![4, 6],
                columns: vec![ints(&[21, 30]), strs(&["twenty-one", "thirty"])],
            },
        ]
    );
}

#[test]
fn partition_batch_sorts_and_routes() {
    let routed = partition_batch(&batch(), 1, &three_ranges()).unwrap();
    let rows: Vec<Vec<usize>> = routed.iter().map(|r| r.rows.to_vec()).collect();
    assert_eq!(rows, vec![vec![5, 0, 1], vec![2, 3], vec![4, 6]]);
    let ids: Vec<u64> = routed.iter().map(|r| r.partition_id).collect();
    assert_eq!(ids, vec![11, 12, 13]);
    assert_eq!(routed[1].columns, vec![ints(&[11, 20]), strs(&["eleven", "twenty"])]);
}

#[test]
fn every_row_is_routed_exactly_once_and_into_its_range() {
    let columns = vec![ints(&[7, 25, 10, 20, 10, -3, 21, 7, 100, 11])];
    let routed = partition_batch(&columns, 1, &three_ranges()).unwrap();
    let mut seen: Vec<usize> = routed.iter().flat_map(|r| r.rows.to_vec()).collect();
    seen.sort();
    assert_eq!(seen, (0..10).collect::<Vec<usize>>());
    let keys = [7i64, 25, 10, 20, 10, -3, 21, 7, 100, 11];
    for r in routed.iter() {
        for row in r.rows.iter() {
            let key = keys[*row];
            match r.partition_id {
                11 => assert!(key <= 10),
                12 => assert!(key > 10 && key <= 20),
                _ => assert!(key > 20),
            }
        }
        let routed_keys: Vec<i64> = r.rows.iter().map(|row| keys[*row]).collect();
        let mut sorted = routed_keys.to_vec();
        sorted.sort();
        assert_eq!(routed_keys, sorted);
        assert_eq!(r.columns, vec![ColumnArray::Int(routed_keys)]);
    }
}

#[test]
fn partitions_without_rows_are_left_out() {
    let columns = vec![ints(&[1, 2, 50])];
    let routed = partition_batch(&columns, 1, &three_ranges()).unwrap();
    let parts: Vec<usize> = routed.iter().map(|r| r.partition).collect();
    assert_eq!(parts, vec![0, 2]);
    assert_eq!(routed[1].partition_id, 13);
    assert_eq!(routed[1].rows, vec![2]);
}

#[test]
fn partitions_are_served_in_the_order_given() {
    let partitions = vec![
        partition(13, bound(20), None),
        partition(11, None, bound(10)),
        partition(12, bound(10), bound(20)),
    ];
    let routed = partition_batch(&batch(), 1, &partitions).unwrap();
    let ids: Vec<u64> = routed.iter().map(|r| r.partition_id).collect();
    assert_eq!(ids, vec![13, 11, 12]);
    let rows: Vec<Vec<usize>> = routed.iter().map(|r| r.rows.to_vec()).collect();
    assert_eq!(rows, vec![vec![4, 6], vec![5, 0, 1], vec![2, 3]]);
}

#[test]
fn of_overlapping_partitions_the_first_takes_the_row() {
    let partitions = vec![partition(1, None, bound(20)), partition(2, bound(10), None)];
    let routed = partition_batch(&batch(), 1, &partitions).unwrap();
    let rows: Vec<Vec<usize>> = routed.iter().map(|r| r.rows.to_vec()).collect();
    assert_eq!(rows, vec![vec![5, 0, 1, 2, 3], vec![4, 6]]);
}

#[test]
fn a_row_that_no_partition_takes_is_an_internal_error() {
    let gap = vec![partition(11, None, bound(10)), partition(13, bound(20), None)];
    let e = partition_batch(&batch(), 1, &gap).unwrap_err();
    assert_eq!(e.get_kind(), ErrorKind::Internal);
    assert_eq!(e.get_message(), "Rows left unrouted after partitioning");
    let e = partition_batch(&batch(), 1, &Vec::new()).unwrap_err();
    assert_eq!(e.get_kind(), ErrorKind::Internal);
    assert_eq!(e.get_message(), "Rows left unrouted after partitioning");
    let e = route_rows(&batch(), 1, vec![0, 2], &gap).unwrap_err();
    assert_eq!(e.get_kind(), ErrorKind::Internal);
    assert_eq!(e.get_message(), "Rows left unrouted after partitioning");
    // Rows that the partitions do cover are routed.
    let covered = route_rows(&batch(), 1, vec![0, 4], &gap).unwrap();
    assert_eq!(covered.len(), 2);
}

#[test]
fn a_batch_without_rows_routes_to_nothing() {
    let columns = vec![ints(&[]), strs(&[])];
    assert_eq!(partition_batch(&columns, 1, &three_ranges()).unwrap(), Vec::new());
    assert_eq!(partition_batch(&columns, 1, &Vec::new()).unwrap(), Vec::new());
    assert_eq!(partition_batch(&Vec::new(), 0, &three_ranges()).unwrap(), Vec::new());
}

#[test]
fn malformed_bounds_are_an_internal_error() {
    let short = vec![partition(1, None, Some(Row::new(Vec::new()))), partition(2, None, None)];
    let e = partition_batch(&batch(), 1, &short).unwrap_err();
    assert_eq!(e.get_kind(), ErrorKind::Internal);
    assert_eq!(e.get_message(), "Malformed partition bounds");
    let wrong_type = vec![partition(
        1,
        Some(Row::new(vec![TableValue::String("10".to_string())])),
        None,
    )];
    let e = partition_batch(&batch(), 1, &wrong_type).unwrap_err();
    assert_eq!(e.get_kind(), ErrorKind::Internal);
    assert!(check_bound(&bound(1), &batch(), 1));
    assert!(check_bound(&None, &batch(), 2));
    assert!(!check_bound(&bound(1), &batch(), 2));
    assert!(!check_bound(&wrong_type[0].row.min_value, &batch(), 1));
    assert!(check_bounds(&three_ranges(), &batch(), 1));
    assert!(!check_bounds(&short, &batch(), 1));
    assert!(check_bounds(&short, &batch(), 0));
}

#[test]
fn a_malformed_batch_is_an_internal_error() {
    let ragged = vec![ints(&[1, 2]), strs(&["a"])];
    assert_eq!(batch_rows(&ragged), None);
    let e = partition_batch(&ragged, 1, &three_ranges()).unwrap_err();
    assert_eq!(e.get_kind(), ErrorKind::Internal);
    assert_eq!(e.get_message(), "Columns of unequal length");
    let e = partition_batch(&batch(), 3, &three_ranges()).unwrap_err();
    assert_eq!(e.get_kind(), ErrorKind::Internal);
    assert_eq!(e.get_message(), "Sort key wider than the batch");
    let e = partition_batch(&ragged, 3, &three_ranges()).unwrap_err();
    assert_eq!(e.get_message(), "Sort key wider than the batch");
    assert_eq!(batch_rows(&batch()), Some(7));
    assert_eq!(batch_rows(&Vec::new()), Some(0));
}

#[test]
fn ascending_rows_into_one_unbounded_partition_keep_their_order() {
    let columns = columns_35();
    let frame = DataFrame::new(columns_35(), rows_35(false));
    let data = frame.to_columns(&columns);
    let routed = partition_batch(&data, 1, &vec![partition(1, None, None)]).unwrap();
    assert_eq!(routed.len(), 1);
    assert_eq!(routed[0].partition_id, 1);
    assert_eq!(routed[0].rows, (0..35).collect::<Vec<usize>>());
    assert_eq!(routed[0].columns, data);
    assert_eq!(routed[0].columns[0], ColumnArray::Int((0..35).collect()));
    assert_eq!(
        routed[0].columns[1],
        ColumnArray::Str((0..35).map(|i| format!("Foo {}", i)).collect())
    );
}

#[test]
fn descending_rows_into_one_unbounded_partition_come_out_ascending() {
    let columns = columns_35();
    let frame = DataFrame::new(columns_35(), rows_35(true));
    let data = frame.to_columns(&columns);
    assert_eq!(data[0], ColumnArray::Int((0..35).map(|i| 34 - i).collect()));
    let routed = partition_batch(&data, 1, &vec![partition(1, None, None)]).unwrap();
    assert_eq!(routed.len(), 1);
    assert_eq!(routed[0].rows, (0..35).map(|i| 34 - i).collect::<Vec<usize>>());
    assert_ne!(routed[0].columns, data);
    let ascending = DataFrame::new(columns_35(), rows_35(false)).to_columns(&columns);
    assert_eq!(routed[0].columns, ascending);
}

#[test]
fn chained_bounds_are_told_from_broken_ones() {
    assert!(check_chained(&three_ranges(), 1));
    assert!(check_chained(&vec![partition(1, None, None)], 1));
    assert!(!check_chained(&Vec::new(), 1));
    // A gap between the first maximum and the second minimum.
    let gap = vec![partition(11, None, bound(10)), partition(13, bound(20), None)];
    assert!(!check_chained(&gap, 1));
    // Not in key order.
    let unordered = vec![
        partition(13, bound(20), None),
        partition(11, None, bound(10)),
        partition(12, bound(10), bound(20)),
    ];
    assert!(!check_chained(&unordered, 1));
    // An end that is not open.
    let closed = vec![partition(11, bound(0), bound(10)), partition(12, bound(10), None)];
    assert!(!check_chained(&closed, 1));
    // A bound with fewer cells than the key is wide.
    assert!(!check_chained(&three_ranges(), 2));
    assert!(check_chained(&three_ranges(), 0));
}

#[test]
fn key_equal_compares_the_leading_cells() {
    let a = Row::new(vec![TableValue::Int(1), TableValue::String("x".to_string()), TableValue::Int(5)]);
    let b = Row::new(vec![TableValue::Int(1), TableValue::String("x".to_string()), TableValue::Int(6)]);
    let c = Row::new(vec![TableValue::Int(1), TableValue::Int(7)]);
    assert!(key_equal(&a, &b, 2));
    assert!(!key_equal(&a, &b, 3));
    assert!(key_equal(&a, &c, 1));
    assert!(!key_equal(&a, &c, 2));
    assert!(key_equal(&a, &c, 0));
}

#[test]
fn chained_partitions_take_every_row() {
    let columns = vec![ints(&[i64::MIN, -1, 0, 10, 11, 20, 21, i64::MAX])];
    assert!(check_chained(&three_ranges(), 1));
    let routed = partition_batch(&columns, 1, &three_ranges()).unwrap();
    let rows: Vec<Vec<usize>> = routed.iter().map(|r| r.rows.to_vec()).collect();
    assert_eq!(rows, vec![vec![0, 1, 2, 3], vec![4, 5], vec![6, 7]]);
}
