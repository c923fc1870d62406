use cubestore::columns::ColumnArray;
use cubestore::data_frame::{check_cell, ChunkData, DataFrame};
use cubestore::metastore::{Column, ColumnType};
use cubestore::table::{Row, TableValue};

fn columns() -> Vec<Column> {
    vec![
        Column::new("foo_int".to_string(), ColumnType::Int, 0),
        Column::new("foo".to_string(), ColumnType::String, 1),
        Column::new("boo".to_string(), ColumnType::String, 2),
    ]
}

fn row(i: i64) -> Row {
    Row::new(vec![
        TableValue::Int(i),
        TableValue::String(format!("Foo {}", i)),
        TableValue::String(format!("Boo {}", i)),
    ])
}

fn frame(n: i64) -> DataFrame {
    DataFrame::new(columns(), (0..n).map(row).collect())
}

#[test]
fn row_holds_its_values() {
    let r = row(4);
    assert_eq!(r.len(), 3);
    assert_eq!(r.values()[0], TableValue::Int(4));
    assert_eq!(r.values()[2], TableValue::String("Boo 4".to_string()));
    assert_eq!(r.duplicate(), row(4));
    assert_eq!(TableValue::Int(3).duplicate(), TableValue::Int(3));
    assert_eq!(Row::new(Vec::new()).len(), 0);
}

#[test]
fn data_frame_holds_columns_and_rows() {
    let f = frame(35);
    assert_eq!(f.len(), 35);
    assert_eq!(f.get_columns(), &columns());
    assert_eq!(f.get_rows().len(), 35);
    assert_eq!(f.get_rows()[34], row(34));
    assert_eq!(f.into_rows(), (0..35).map(row).collect::<Vec<_>>());
    assert_eq!(DataFrame::new(columns(), Vec::new()).len(), 0);
}

#[test]
fn mut_rows_changes_the_rows_in_place() {
    let mut f = frame(2);
    f.mut_rows().push(row(2));
    f.mut_rows()[0] = row(9);
    assert_eq!(f.len(), 3);
    assert_eq!(f.get_rows(), &vec![row(9), row(1), row(2)]);
    assert_eq!(f.get_columns(), &columns());
}

#[test]
fn equal_frames_compare_equal() {
    assert!(frame(35) == frame(35));
    assert!(frame(35) != frame(34));
    assert!(frame(1) != DataFrame::new(Vec::new(), vec![row(0)]));
}

#[test]
fn to_columns_projects_rows_into_columns_in_row_order() {
    let data = frame(3).to_columns(&columns());
    assert_eq!(
        data,
        vec![
            ColumnArray::Int(vec![0, 1, 2]),
            ColumnArray::Str(vec!["Foo 0".to_string(), "Foo 1".to_string(), "Foo 2".to_string()]),
            ColumnArray::Str(vec!["Boo 0".to_string(), "Boo 1".to_string(), "Boo 2".to_string()]),
        ]
    );
}

#[test]
fn to_columns_takes_the_columns_asked_for() {
    let wanted = vec![
        Column::new("boo".to_string(), ColumnType::String, 2),
        Column::new("foo_int".to_string(), ColumnType::Int, 0),
    ];
    let data = frame(2).to_columns(&wanted);
    assert_eq!(
        data,
        vec![
            ColumnArray::Str(vec!["Boo 0".to_string(), "Boo 1".to_string()]),
            ColumnArray::Int(vec![0, 1]),
        ]
    );
    assert_eq!(frame(2).to_columns(&Vec::new()), Vec::<ColumnArray>::new());
    let empty = DataFrame::new(columns(), Vec::new()).to_columns(&columns());
    assert_eq!(
        empty,
        vec![ColumnArray::Int(vec![]), ColumnArray::Str(vec![]), ColumnArray::Str(vec![])]
    );
}

#[test]
fn column_values_reads_one_column() {
    let f = frame(3);
    assert_eq!(f.column_values(&columns()[0]), ColumnArray::Int(vec![0, 1, 2]));
}

#[test]
fn conformance_checks_position_and_type_of_each_cell() {
    let f = frame(3);
    assert!(f.conforms_to(&columns()));
    assert!(f.is_well_formed());
    let wrong_type = vec![Column::new("foo_int".to_string(), ColumnType::String, 0)];
    assert!(!f.conforms_to(&wrong_type));
    let outside = vec![Column::new("more".to_string(), ColumnType::Int, 3)];
    assert!(!f.conforms_to(&outside));
    assert!(check_cell(&row(1), &columns()[1]));
    assert!(!check_cell(&row(1), &wrong_type[0]));
    assert!(!check_cell(&row(1), &outside[0]));
}

#[test]
fn a_frame_with_a_short_or_long_row_is_not_well_formed() {
    let mut f = frame(2);
    assert!(f.is_well_formed());
    f.mut_rows().push(Row::new(vec![TableValue::Int(2)]));
    assert!(!f.is_well_formed());
    let mut g = frame(1);
    g.mut_rows()[0] = Row::new(vec![
        TableValue::Int(0),
        TableValue::String("a".to_string()),
        TableValue::String("b".to_string()),
        TableValue::Int(1),
    ]);
    assert!(g.conforms_to(&columns()));
    assert!(!g.is_well_formed());
    let mut h = frame(1);
    h.mut_rows()[0] = Row::new(vec![
        TableValue::String("0".to_string()),
        TableValue::String("a".to_string()),
        TableValue::String("b".to_string()),
    ]);
    assert!(!h.is_well_formed());
}

#[test]
fn chunk_data_holds_a_frame_and_columns() {
    let mut chunk = ChunkData::new(frame(3), columns());
    assert_eq!(chunk.len(), 3);
    chunk.mut_rows().pop();
    assert_eq!(chunk.len(), 2);
    assert_eq!(chunk.data_frame, frame(2));
    assert_eq!(chunk.columns, columns());
}
