//! The catalog's entities, as the store sees them.

use crate::table::Row;
use vstd::prelude::*;

verus! {

/// The semantic type of a column.
#[derive(Clone, Copy, Debug, PartialEq, Eq, Structural)]
pub enum ColumnType {
    String,
    Int,
}

/// A named, typed column at a fixed position within a row.
#[derive(Debug, PartialEq, Eq)]
pub struct Column {
    pub name: String,
    pub column_type: ColumnType,
    pub column_index: usize,
}

impl Column {
    pub fn new(name: String, column_type: ColumnType, column_index: usize) -> (c: Column)
        ensures
            c.name == name,
            c.column_type == column_type,
            c.column_index == column_index,
    {
        Column { name, column_type, column_index }
    }

    pub fn get_name(&self) -> (n: &String)
        ensures
            n == &self.name,
    {
        &self.name
    }

    pub fn get_column_type(&self) -> (t: ColumnType)
        ensures
            t == self.column_type,
    {
        self.column_type
    }

    pub fn get_index(&self) -> (i: usize)
        ensures
            i == self.column_index,
    {
        self.column_index
    }

    /// A copy of this column.
    pub fn duplicate(&self) -> (c: Column)
        ensures
            c == *self,
    {
        Column {
            name: self.name.clone(),
            column_type: self.column_type,
            column_index: self.column_index,
        }
    }
}

/// An entity together with the identity the catalog gave it.
#[derive(Debug, PartialEq, Eq)]
pub struct IdRow<T> {
    pub id: u64,
    pub row: T,
}

impl<T> IdRow<T> {
    pub fn new(id: u64, row: T) -> (r: IdRow<T>)
        ensures
            r.id == id,
            r.row == row,
    {
        IdRow { id, row }
    }

    pub fn get_id(&self) -> (id: u64)
        ensures
            id == self.id,
    {
        self.id
    }

    pub fn get_row(&self) -> (row: &T)
        ensures
            row == &self.row,
    {
        &self.row
    }

    pub fn into_row(self) -> (row: T)
        ensures
            row == self.row,
    {
        self.row
    }
}

/// A column order over a table whose leading `sort_key_size` columns are the
/// sort key.
#[derive(Debug, PartialEq, Eq)]
pub struct Index {
    pub name: String,
    pub table_id: u64,
    pub columns: Vec<Column>,
    pub sort_key_size: u64,
}

impl Index {
    pub fn new(name: String, table_id: u64, columns: Vec<Column>, sort_key_size: u64) -> (i: Index)
        ensures
            i.name == name,
            i.table_id == table_id,
            i.columns == columns,
            i.sort_key_size == sort_key_size,
    {
        Index { name, table_id, columns, sort_key_size }
    }

    pub fn get_name(&self) -> (n: &String)
        ensures
            n == &self.name,
    {
        &self.name
    }

    pub fn table_id(&self) -> (id: u64)
        ensures
            id == self.table_id,
    {
        self.table_id
    }

    pub fn columns(&self) -> (c: &Vec<Column>)
        ensures
            c == &self.columns,
    {
        &self.columns
    }

    pub fn sort_key_size(&self) -> (k: u64)
        ensures
            k == self.sort_key_size,
    {
        self.sort_key_size
    }

    /// A copy of this index.
    pub fn duplicate(&self) -> (i: Index)
        ensures
            i.name == self.name,
            i.table_id == self.table_id,
            i.columns@ == self.columns@,
            i.sort_key_size == self.sort_key_size,
    {
        let mut columns: Vec<Column> = Vec::new();
        let mut j: usize = 0;
        while j < self.columns.len()
            invariant
                j <= self.columns.len(),
                columns@ == self.columns@.take(j as int),
            decreases self.columns.len() - j,
        {
            columns.push(self.columns[j].duplicate());
            assert(self.columns@.take(j + 1) == self.columns@.take(j as int).push(
                self.columns@[j as int],
            ));
            j += 1;
        }
        assert(self.columns@.take(j as int) == self.columns@);
        Index {
            name: self.name.clone(),
            table_id: self.table_id,
            columns,
            sort_key_size: self.sort_key_size,
        }
    }
}

/// A sort-key range of one index. A missing bound leaves that end open.
#[derive(Debug, PartialEq, Eq)]
pub struct Partition {
    pub index_id: u64,
    pub min_value: Option<Row>,
    pub max_value: Option<Row>,
    pub active: bool,
}

impl Partition {
    pub fn new(index_id: u64, min_value: Option<Row>, max_value: Option<Row>) -> (p: Partition)
        ensures
            p.index_id == index_id,
            p.min_value == min_value,
            p.max_value == max_value,
            p.active,
    {
        Partition { index_id, min_value, max_value, active: true }
    }

    pub fn get_index_id(&self) -> (id: u64)
        ensures
            id == self.index_id,
    {
        self.index_id
    }

    pub fn get_min_val(&self) -> (v: &Option<Row>)
        ensures
            v == &self.min_value,
    {
        &self.min_value
    }

    pub fn get_max_val(&self) -> (v: &Option<Row>)
        ensures
            v == &self.max_value,
    {
        &self.max_value
    }

    pub fn is_active(&self) -> (a: bool)
        ensures
            a == self.active,
    {
        self.active
    }

    /// This partition with its active flag set to `active`.
    pub fn to_active(self, active: bool) -> (p: Partition)
        ensures
            p.index_id == self.index_id,
            p.min_value == self.min_value,
            p.max_value == self.max_value,
            p.active == active,
    {
        Partition {
            index_id: self.index_id,
            min_value: self.min_value,
            max_value: self.max_value,
            active,
        }
    }
}

/// One columnar file of a partition, as registered in the catalog.
#[derive(Clone, Copy, Debug, PartialEq, Eq, Structural)]
pub struct Chunk {
    pub partition_id: u64,
    pub row_count: usize,
    pub uploaded: bool,
}

impl Chunk {
    pub fn new(partition_id: u64, row_count: usize) -> (c: Chunk)
        ensures
            c == (Chunk { partition_id, row_count, uploaded: false }),
    {
        Chunk { partition_id, row_count, uploaded: false }
    }

    pub fn get_partition_id(&self) -> (id: u64)
        ensures
            id == self.partition_id,
    {
        self.partition_id
    }

    pub fn get_row_count(&self) -> (n: usize)
        ensures
            n == self.row_count,
    {
        self.row_count
    }

    pub fn uploaded(&self) -> (u: bool)
        ensures
            u == self.uploaded,
    {
        self.uploaded
    }

    /// This chunk with its uploaded flag set to `uploaded`.
    pub fn set_uploaded(&self, uploaded: bool) -> (c: Chunk)
        ensures
            c == (Chunk { uploaded, ..*self }),
    {
        Chunk { partition_id: self.partition_id, row_count: self.row_count, uploaded }
    }
}

/// A write-ahead record: a raw batch of one table, kept for replay.
#[derive(Clone, Copy, Debug, PartialEq, Eq, Structural)]
pub struct WAL {
    pub table_id: u64,
    pub row_count: usize,
    pub uploaded: bool,
}

impl WAL {
    pub fn new(table_id: u64, row_count: usize) -> (w: WAL)
        ensures
            w == (WAL { table_id, row_count, uploaded: false }),
    {
        WAL { table_id, row_count, uploaded: false }
    }

    pub fn table_id(&self) -> (id: u64)
        ensures
            id == self.table_id,
    {
        self.table_id
    }

    pub fn get_row_count(&self) -> (n: usize)
        ensures
            n == self.row_count,
    {
        self.row_count
    }

    pub fn uploaded(&self) -> (u: bool)
        ensures
            u == self.uploaded,
    {
        self.uploaded
    }

    /// This record with its uploaded flag set to `uploaded`.
    pub fn set_uploaded(&self, uploaded: bool) -> (w: WAL)
        ensures
            w == (WAL { uploaded, ..*self }),
    {
        WAL { table_id: self.table_id, row_count: self.row_count, uploaded }
    }
}

} // verus!
