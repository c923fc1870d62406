use cubestore::columns::ColumnArray;
use cubestore::error::ErrorKind;
use cubestore::ingest::check_layout;
use cubestore::metastore::{Column, ColumnType};
use cubestore::remap::{find_column, remap_columns};

fn ints(values: &[i64]) -> ColumnArray {
    ColumnArray::Int(values.to_vec())
}

fn strs(values: &[&str]) -> ColumnArray {
    ColumnArray::Str(values.iter().map(|s| s.to_string()).collect())
}

fn column(name: &str, column_type: ColumnType, index: usize) -> Column {
    Column::new(name.to_string(), column_type, index)
}

fn table_columns() -> Vec<Column> {
    vec![
        column("id", ColumnType::Int, 0),
        column("city", ColumnType::String, 1),
        column("amount", ColumnType::Int, 2),
    ]
}

fn table_data() -> Vec<ColumnArray> {
    vec![ints(&[1, 2]), strs(&["Oslo", "Rome"]), ints(&[70, 80])]
}

#[test]
fn find_column_gives_the_first_of_that_name() {
    let columns = vec![
        column("a", ColumnType::Int, 0),
        column("b", ColumnType::Int, 1),
        column("a", ColumnType::String, 2),
    ];
    assert_eq!(find_column(&columns, &"a".to_string()), Some(0));
    assert_eq!(find_column(&columns, &"b".to_string()), Some(1));
    assert_eq!(find_column(&columns, &"c".to_string()), None);
    assert_eq!(find_column(&Vec::new(), &"a".to_string()), None);
}

#[test]
fn remap_reorders_columns_by_name() {
    let index_columns = vec![
        column("city", ColumnType::String, 0),
        column("amount", ColumnType::Int, 1),
        column("id", ColumnType::Int, 2),
    ];
    let new = remap_columns(&table_data(), &table_columns(), &index_columns).unwrap();
    assert_eq!(new, vec![strs(&["Oslo", "Rome"]), ints(&[70, 80]), ints(&[1, 2])]);
}

#[test]
fn remap_selects_and_repeats_columns() {
    let wanted = vec![
        column("amount", ColumnType::Int, 0),
        column("amount", ColumnType::Int, 1),
    ];
    let new = remap_columns(&table_data(), &table_columns(), &wanted).unwrap();
    assert_eq!(new, vec![ints(&[70, 80]), ints(&[70, 80])]);
    let none = remap_columns(&table_data(), &table_columns(), &Vec::new()).unwrap();
    assert_eq!(none, Vec::<ColumnArray>::new());
}

#[test]
fn remap_goes_by_the_index_of_the_old_column() {
    // The buffers lie in another order than the columns that describe them.
    let described = vec![
        column("id", ColumnType::Int, 2),
        column("city", ColumnType::String, 0),
        column("amount", ColumnType::Int, 1),
    ];
    let data = vec![strs(&["Oslo"]), ints(&[70]), ints(&[1])];
    let wanted = vec![column("id", ColumnType::Int, 0), column("city", ColumnType::String, 1)];
    let new = remap_columns(&data, &described, &wanted).unwrap();
    assert_eq!(new, vec![ints(&[1]), strs(&["Oslo"])]);
}

#[test]
fn remap_names_the_first_missing_column() {
    let wanted = vec![
        column("id", ColumnType::Int, 0),
        column("country", ColumnType::String, 1),
        column("zip", ColumnType::String, 2),
    ];
    let e = remap_columns(&table_data(), &table_columns(), &wanted).unwrap_err();
    assert_eq!(e.get_kind(), ErrorKind::NotFound);
    assert_eq!(e.get_message(), "Column 'country' not found");
}

#[test]
fn remap_there_and_back_gives_the_batch_again() {
    let index_columns = vec![
        column("amount", ColumnType::Int, 0),
        column("id", ColumnType::Int, 1),
        column("city", ColumnType::String, 2),
    ];
    let there = remap_columns(&table_data(), &table_columns(), &index_columns).unwrap();
    assert_ne!(there, table_data());
    let back = remap_columns(&there, &index_columns, &table_columns()).unwrap();
    assert_eq!(back, table_data());
}

#[test]
fn check_layout_tells_whether_columns_describe_a_batch() {
    assert!(check_layout(&table_data(), &table_columns()));
    assert!(check_layout(&Vec::new(), &Vec::new()));
    let short = vec![column("id", ColumnType::Int, 0)];
    assert!(!check_layout(&table_data(), &short));
    let outside = vec![
        column("id", ColumnType::Int, 0),
        column("city", ColumnType::String, 1),
        column("amount", ColumnType::Int, 3),
    ];
    assert!(!check_layout(&table_data(), &outside));
}
