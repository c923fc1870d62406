use cubestore::error::{CubeError, ErrorKind};
use cubestore::metastore::{Chunk, Column, ColumnType, IdRow, Index, Partition, WAL};
use cubestore::protocol::{collect_uploads, protocol_error, Progress};
use cubestore::table::{Row, TableValue};

fn chunk(id: u64) -> IdRow<Chunk> {
    IdRow::new(id, Chunk::new(1, 10))
}

fn failure(message: &str) -> CubeError {
    CubeError::new(ErrorKind::Io, message.to_string())
}

#[test]
fn collect_uploads_gives_the_ids_in_order() {
    assert_eq!(collect_uploads(vec![Ok(chunk(3)), Ok(chunk(1)), Ok(chunk(2))]), Ok(vec![3, 1, 2]));
    assert_eq!(collect_uploads(vec![Ok(chunk(8))]), Ok(vec![8]));
    assert_eq!(collect_uploads(Vec::new()), Ok(Vec::new()));
}

#[test]
fn collect_uploads_fails_with_the_first_failure() {
    let outcomes = vec![Ok(chunk(3)), Err(failure("a")), Ok(chunk(2)), Err(failure("b"))];
    assert_eq!(collect_uploads(outcomes), Err(failure("a")));
    assert_eq!(collect_uploads(vec![Err(failure("only"))]), Err(failure("only")));
    assert_eq!(collect_uploads(vec![Ok(chunk(1)), Ok(chunk(2)), Err(failure("last"))]), Err(failure("last")));
}

#[test]
fn protocol_error_is_internal() {
    match protocol_error::<u8, u8>() {
        Progress::Done(Err(e)) => {
            assert_eq!(e.get_kind(), ErrorKind::Internal);
            assert_eq!(e.get_message(), "Unexpected reply");
        }
        other => panic!("{:?}", other),
    }
}

#[test]
fn errors_carry_kind_and_message() {
    let e = CubeError::internal("broken".to_string());
    assert_eq!(e.get_kind(), ErrorKind::Internal);
    assert_eq!(e.get_message(), "broken");
    assert_eq!(CubeError::precondition("p".to_string()).get_kind(), ErrorKind::Precondition);
    assert_eq!(CubeError::not_found("n".to_string()).get_kind(), ErrorKind::NotFound);
    assert_eq!(CubeError::new(ErrorKind::Catalog, "c".to_string()).get_kind(), ErrorKind::Catalog);
    assert_eq!(CubeError::new(ErrorKind::Io, "i".to_string()), failure("i"));
}

#[test]
fn catalog_entities_hold_what_they_were_made_with() {
    let column = Column::new("foo".to_string(), ColumnType::String, 1);
    assert_eq!(column.get_name(), "foo");
    assert_eq!(column.get_column_type(), ColumnType::String);
    assert_eq!(column.get_index(), 1);
    assert_eq!(column.duplicate(), column);

    let index = Index::new("default".to_string(), 4, vec![column.duplicate()], 1);
    assert_eq!(index.get_name(), "default");
    assert_eq!(index.table_id(), 4);
    assert_eq!(index.columns(), &vec![column.duplicate()]);
    assert_eq!(index.sort_key_size(), 1);
    assert_eq!(index.duplicate(), index);

    let row = IdRow::new(6, index);
    assert_eq!(row.get_id(), 6);
    assert_eq!(row.get_row().table_id(), 4);
    assert_eq!(row.into_row().get_name(), "default");

    let wal = IdRow::new(1, WAL::new(1, 10));
    assert_eq!(wal.get_id(), 1);
    assert_eq!(wal.get_row().table_id(), 1);
    assert_eq!(wal.get_row().get_row_count(), 10);
    assert!(!wal.get_row().uploaded());
    assert!(wal.get_row().set_uploaded(true).uploaded());

    let chunk = Chunk::new(3, 35);
    assert_eq!(chunk.get_partition_id(), 3);
    assert_eq!(chunk.get_row_count(), 35);
    assert!(!chunk.uploaded());
    assert!(chunk.set_uploaded(true).uploaded());
    assert_eq!(chunk.set_uploaded(true).set_uploaded(false), chunk);
}

#[test]
fn partitions_hold_their_bounds_and_flag() {
    let min = Row::new(vec![TableValue::Int(1)]);
    let max = Row::new(vec![TableValue::Int(9)]);
    let p = Partition::new(2, Some(min.duplicate()), Some(max.duplicate()));
    assert_eq!(p.get_index_id(), 2);
    assert_eq!(p.get_min_val(), &Some(min));
    assert_eq!(p.get_max_val(), &Some(max));
    assert!(p.is_active());
    let p = p.to_active(false);
    assert!(!p.is_active());
    assert_eq!(p.get_index_id(), 2);
    let open = Partition::new(2, None, None);
    assert_eq!(open.get_min_val(), &None);
    assert_eq!(open.get_max_val(), &None);
}
