//! Row-oriented batches as they arrive, and their projection into columns.

use crate::columns::ColumnArray;
use crate::metastore::{Column, ColumnType};
use crate::table::{Datum, Row, TableValue};
use vstd::prelude::*;

verus! {

/// A batch of rows with the columns that describe them.
#[derive(Debug, PartialEq, Eq)]
pub struct DataFrame {
    pub columns: Vec<Column>,
    pub data: Vec<Row>,
}

/// The type of a cell.
pub open spec fn type_of(value: TableValue) -> ColumnType {
    match value {
        TableValue::String(_) => ColumnType::String,
        TableValue::Int(_) => ColumnType::Int,
    }
}

/// Whether `row` has a cell of `column`'s type at `column`'s index.
pub open spec fn row_has_column(row: Row, column: Column) -> bool {
    &&& column.column_index < row.values@.len()
    &&& type_of(row.values@[column.column_index as int]) == column.column_type
}

/// Whether every row has, for each of `columns`, a cell of the column's type
/// at the column's index.
pub open spec fn rows_conform(rows: Seq<Row>, columns: Seq<Column>) -> bool {
    forall|i: int, c: int|
        0 <= i < rows.len() && 0 <= c < columns.len() ==> row_has_column(
            #[trigger] rows[i],
            #[trigger] columns[c],
        )
}

/// The cells that the rows hold at position `index`, in row order.
pub open spec fn column_cells(rows: Seq<Row>, index: int) -> Seq<Datum> {
    Seq::new(rows.len(), |i: int| rows[i]@[index])
}

/// Whether `row` has a cell of `column`'s type at `column`'s index.
pub fn check_cell(row: &Row, column: &Column) -> (ok: bool)
    ensures
        ok == row_has_column(*row, *column),
{
    if column.column_index >= row.values.len() {
        return false;
    }
    match (&row.values[column.column_index], column.column_type) {
        (TableValue::String(_), ColumnType::String) => true,
        (TableValue::Int(_), ColumnType::Int) => true,
        _ => false,
    }
}

impl DataFrame {
    pub fn new(columns: Vec<Column>, data: Vec<Row>) -> (frame: DataFrame)
        ensures
            frame.columns == columns,
            frame.data == data,
    {
        DataFrame { columns, data }
    }

    /// The number of rows.
    pub fn len(&self) -> (n: usize)
        ensures
            n == self.data@.len(),
    {
        self.data.len()
    }

    pub fn get_columns(&self) -> (columns: &Vec<Column>)
        ensures
            columns == &self.columns,
    {
        &self.columns
    }

    pub fn get_rows(&self) -> (rows: &Vec<Row>)
        ensures
            rows == &self.data,
    {
        &self.data
    }

    /// The rows, for changing in place. The columns stay as they are.
    pub fn mut_rows(&mut self) -> (rows: &mut Vec<Row>)
        ensures
            *rows == old(self).data,
            final(self).data == *final(rows),
            final(self).columns == old(self).columns,
    {
        &mut self.data
    }

    pub fn into_rows(self) -> (rows: Vec<Row>)
        ensures
            rows == self.data,
    {
        self.data
    }

    /// Whether the batch keeps its invariant: every row has one cell per
    /// column, and each cell has the type of its column.
    pub open spec fn well_formed(&self) -> bool {
        &&& rows_conform(self.data@, self.columns@)
        &&& forall|i: int|
            0 <= i < self.data@.len() ==> (#[trigger] self.data@[i]).values@.len()
                == self.columns@.len()
    }

    /// Whether the batch keeps its invariant.
    pub fn is_well_formed(&self) -> (ok: bool)
        ensures
            ok == self.well_formed(),
    {
        if !self.conforms_to(&self.columns) {
            return false;
        }
        let mut i: usize = 0;
        while i < self.data.len()
            invariant
                i <= self.data@.len(),
                forall|j: int|
                    0 <= j < i ==> (#[trigger] self.data@[j]).values@.len() == self.columns@.len(),
            decreases self.data.len() - i,
        {
            if self.data[i].values.len() != self.columns.len() {
                return false;
            }
            i += 1;
        }
        true
    }

    /// Whether every row has, for each of `columns`, a cell of the column's
    /// type at the column's index.
    pub fn conforms_to(&self, columns: &Vec<Column>) -> (ok: bool)
        ensures
            ok == rows_conform(self.data@, columns@),
    {
        let mut i: usize = 0;
        while i < self.data.len()
            invariant
                i <= self.data@.len(),
                rows_conform(self.data@.take(i as int), columns@),
            decreases self.data.len() - i,
        {
            let mut c: usize = 0;
            while c < columns.len()
                invariant
                    i < self.data@.len(),
                    c <= columns@.len(),
                    forall|d: int|
                        0 <= d < c ==> row_has_column(self.data@[i as int], #[trigger] columns@[d]),
                decreases columns.len() - c,
            {
                if !check_cell(&self.data[i], &columns[c]) {
                    return false;
                }
                c += 1;
            }
            assert forall|a: int, d: int|
                0 <= a < i + 1 && 0 <= d < columns@.len() implies row_has_column(
                #[trigger] self.data@.take(i + 1)[a],
                #[trigger] columns@[d],
            ) by {
                if a < i {
                    assert(self.data@.take(i as int)[a] == self.data@[a]);
                }
            }
            i += 1;
        }
        assert(self.data@.take(i as int) == self.data@);
        true
    }

    /// The cells of `column` over all rows, in row order.
    pub fn column_values(&self, column: &Column) -> (out: ColumnArray)
        requires
            forall|i: int|
                0 <= i < self.data@.len() ==> row_has_column(#[trigger] self.data@[i], *column),
        ensures
            out@ == column_cells(self.data@, column.column_index as int),
            out.column_type() == column.column_type,
    {
        let at = column.column_index;
        match column.column_type {
            ColumnType::Int => {
                let mut values: Vec<i64> = Vec::new();
                let mut i: usize = 0;
                while i < self.data.len()
                    invariant
                        i <= self.data@.len(),
                        at == column.column_index,
                        column.column_type == ColumnType::Int,
                        forall|j: int|
                            0 <= j < self.data@.len() ==> row_has_column(
                                #[trigger] self.data@[j],
                                *column,
                            ),
                        values@.len() == i,
                        forall|j: int|
                            0 <= j < i ==> Datum::Int(#[trigger] values@[j]) == self.data@[j]@[at as int],
                    decreases self.data.len() - i,
                {
                    assert(row_has_column(self.data@[i as int], *column));
                    match &self.data[i].values[at] {
                        TableValue::Int(v) => {
                            values.push(*v);
                        },
                        TableValue::String(_) => {
                            assert(false);
                        },
                    }
                    i += 1;
                }
                let out = ColumnArray::Int(values);
                assert(out@ =~= column_cells(self.data@, at as int));
                out
            },
            ColumnType::String => {
                let mut values: Vec<String> = Vec::new();
                let mut i: usize = 0;
                while i < self.data.len()
                    invariant
                        i <= self.data@.len(),
                        at == column.column_index,
                        column.column_type == ColumnType::String,
                        forall|j: int|
                            0 <= j < self.data@.len() ==> row_has_column(
                                #[trigger] self.data@[j],
                                *column,
                            ),
                        values@.len() == i,
                        forall|j: int|
                            0 <= j < i ==> Datum::Str((#[trigger] values@[j])@)
                                == self.data@[j]@[at as int],
                    decreases self.data.len() - i,
                {
                    assert(row_has_column(self.data@[i as int], *column));
                    match &self.data[i].values[at] {
                        TableValue::String(v) => {
                            values.push(v.clone());
                        },
                        TableValue::Int(_) => {
                            assert(false);
                        },
                    }
                    i += 1;
                }
                let out = ColumnArray::Str(values);
                assert(out@ =~= column_cells(self.data@, at as int));
                out
            },
        }
    }

    /// The batch in column-oriented form: for each of `columns`, in that
    /// order, the cells that the rows hold at the column's index, in row
    /// order.
    pub fn to_columns(&self, columns: &Vec<Column>) -> (out: Vec<ColumnArray>)
        requires
            rows_conform(self.data@, columns@),
        ensures
            out@.len() == columns@.len(),
            forall|c: int|
                0 <= c < columns@.len() ==> {
                    &&& (#[trigger] out@[c])@ == column_cells(
                        self.data@,
                        columns@[c].column_index as int,
                    )
                    &&& out@[c].column_type() == columns@[c].column_type
                },
    {
        let mut out: Vec<ColumnArray> = Vec::new();
        let mut c: usize = 0;
        while c < columns.len()
            invariant
                c <= columns@.len(),
                rows_conform(self.data@, columns@),
                out@.len() == c,
                forall|d: int|
                    0 <= d < c ==> {
                        &&& (#[trigger] out@[d])@ == column_cells(
                            self.data@,
                            columns@[d].column_index as int,
                        )
                        &&& out@[d].column_type() == columns@[d].column_type
                    },
            decreases columns.len() - c,
        {
            assert forall|i: int| 0 <= i < self.data@.len() implies row_has_column(
                #[trigger] self.data@[i],
                columns@[c as int],
            ) by {}
            out.push(self.column_values(&columns[c]));
            c += 1;
        }
        out
    }
}

/// The rows of one chunk together with the columns of its index.
#[derive(Debug, PartialEq, Eq)]
pub struct ChunkData {
    pub data_frame: DataFrame,
    pub columns: Vec<Column>,
}

impl ChunkData {
    pub fn new(data_frame: DataFrame, columns: Vec<Column>) -> (chunk: ChunkData)
        ensures
            chunk.data_frame == data_frame,
            chunk.columns == columns,
    {
        ChunkData { data_frame, columns }
    }

    /// The number of rows.
    pub fn len(&self) -> (n: usize)
        ensures
            n == self.data_frame.data@.len(),
    {
        self.data_frame.len()
    }

    /// The rows, for changing in place. The columns stay as they are.
    pub fn mut_rows(&mut self) -> (rows: &mut Vec<Row>)
        ensures
            *rows == old(self).data_frame.data,
            final(self).data_frame.data == *final(rows),
            final(self).data_frame.columns == old(self).data_frame.columns,
            final(self).columns == old(self).columns,
    {
        &mut self.data_frame.data
    }
}

} // verus!
