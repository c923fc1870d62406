//! The column remapper: reorders the columns of a batch into the column
//! order of an index, matching columns by name.

use crate::columns::ColumnArray;
use crate::error::{CubeError, ErrorKind};
use crate::metastore::Column;
use crate::table::Datum;
use vstd::prelude::*;

verus! {

/// The position of the first column at or after `from` that is named
/// `name`, or the number of columns if there is none.
pub open spec fn first_named(columns: Seq<Column>, name: Seq<char>, from: int) -> int
    decreases columns.len() - from,
{
    if from < 0 || from >= columns.len() {
        columns.len() as int
    } else if columns[from].name@ == name {
        from
    } else {
        first_named(columns, name, from + 1)
    }
}

/// The position in `old_columns` of the column that new column `j` is taken
/// from, or the number of old columns if none has its name.
pub open spec fn source_of(old_columns: Seq<Column>, new_columns: Seq<Column>, j: int) -> int {
    first_named(old_columns, new_columns[j].name@, 0)
}

/// The first new column at or after `from` whose name no old column has, or
/// the number of new columns if every name is found.
pub open spec fn first_missing(old_columns: Seq<Column>, new_columns: Seq<Column>, from: int) -> int
    decreases new_columns.len() - from,
{
    if from < 0 || from >= new_columns.len() {
        new_columns.len() as int
    } else if source_of(old_columns, new_columns, from) >= old_columns.len() {
        from
    } else {
        first_missing(old_columns, new_columns, from + 1)
    }
}

/// The batch `old`, laid out by `old_columns`, in the order of
/// `new_columns`: each new column is the buffer at the index of the first
/// old column of the same name.
pub open spec fn remapped(
    old: Seq<Seq<Datum>>,
    old_columns: Seq<Column>,
    new_columns: Seq<Column>,
) -> Seq<Seq<Datum>> {
    Seq::new(
        new_columns.len(),
        |j: int| old[old_columns[source_of(old_columns, new_columns, j)].column_index as int],
    )
}

/// What the error says when no column is named `name`.
pub open spec fn missing_column_message(name: Seq<char>) -> Seq<char> {
    "Column '"@ + name + "' not found"@
}

/// Whether every column's index is a position in a batch of `width` columns.
pub open spec fn indexes_within(columns: Seq<Column>, width: nat) -> bool {
    forall|i: int| 0 <= i < columns.len() ==> (#[trigger] columns[i]).column_index < width
}

/// The first column named `name` is named so, no earlier column is, and
/// where no column is found none has that name.
pub proof fn lemma_first_named(columns: Seq<Column>, name: Seq<char>, from: int)
    requires
        0 <= from <= columns.len(),
    ensures
        from <= first_named(columns, name, from) <= columns.len(),
        first_named(columns, name, from) < columns.len() ==> columns[first_named(
            columns,
            name,
            from,
        )].name@ == name,
        forall|i: int|
            from <= i < first_named(columns, name, from) ==> (#[trigger] columns[i]).name@ != name,
    decreases columns.len() - from,
{
    if from < columns.len() && columns[from].name@ != name {
        lemma_first_named(columns, name, from + 1);
    }
}

/// The first missing column is missing, every new column before it is
/// found, and where none is missing every new column is found.
pub proof fn lemma_first_missing(old_columns: Seq<Column>, new_columns: Seq<Column>, from: int)
    requires
        0 <= from <= new_columns.len(),
    ensures
        from <= first_missing(old_columns, new_columns, from) <= new_columns.len(),
        first_missing(old_columns, new_columns, from) < new_columns.len() ==> source_of(
            old_columns,
            new_columns,
            first_missing(old_columns, new_columns, from),
        ) >= old_columns.len(),
        forall|j: int|
            from <= j < first_missing(old_columns, new_columns, from) ==> #[trigger] source_of(
                old_columns,
                new_columns,
                j,
            ) < old_columns.len(),
    decreases new_columns.len() - from,
{
    if from < new_columns.len() && source_of(old_columns, new_columns, from) < old_columns.len() {
        lemma_first_missing(old_columns, new_columns, from + 1);
    }
}

/// The position of the first column named `name`, if there is one.
pub fn find_column(columns: &Vec<Column>, name: &String) -> (found: Option<usize>)
    ensures
        match found {
            Some(i) => i == first_named(columns@, name@, 0) && i < columns@.len(),
            None => first_named(columns@, name@, 0) == columns@.len(),
        },
{
    let mut i: usize = 0;
    while i < columns.len()
        invariant
            i <= columns.len(),
            first_named(columns@, name@, 0) == first_named(columns@, name@, i as int),
        decreases columns.len() - i,
    {
        if columns[i].name == *name {
            return Some(i);
        }
        i += 1;
    }
    None
}

impl ColumnArray {
    /// A copy of this column.
    pub fn duplicate(&self) -> (out: ColumnArray)
        ensures
            out@ == self@,
            out.column_type() == self.column_type(),
    {
        match self {
            ColumnArray::Int(v) => {
                let mut copy: Vec<i64> = Vec::new();
                let mut i: usize = 0;
                while i < v.len()
                    invariant
                        i <= v.len(),
                        copy@ == v@.take(i as int),
                    decreases v.len() - i,
                {
                    copy.push(v[i]);
                    assert(v@.take(i + 1) == v@.take(i as int).push(v@[i as int]));
                    i += 1;
                }
                assert(v@.take(i as int) == v@);
                ColumnArray::Int(copy)
            },
            ColumnArray::Str(v) => {
                let mut copy: Vec<String> = Vec::new();
                let mut i: usize = 0;
                while i < v.len()
                    invariant
                        i <= v.len(),
                        copy@ == v@.take(i as int),
                    decreases v.len() - i,
                {
                    copy.push(v[i].clone());
                    assert(v@.take(i + 1) == v@.take(i as int).push(v@[i as int]));
                    i += 1;
                }
                assert(v@.take(i as int) == v@);
                ColumnArray::Str(copy)
            },
        }
    }
}

/// Lays the batch `old`, described by `old_columns`, out in the order of
/// `new_columns`: for each new column, the buffer at the index of the first
/// old column of the same name. Fails with a not-found error that names the
/// first new column that no old column matches.
pub fn remap_columns(
    old: &Vec<ColumnArray>,
    old_columns: &Vec<Column>,
    new_columns: &Vec<Column>,
) -> (res: Result<Vec<ColumnArray>, CubeError>)
    requires
        old_columns@.len() == old@.len(),
        indexes_within(old_columns@, old@.len()),
    ensures
        match res {
            Ok(new) => {
                &&& first_missing(old_columns@, new_columns@, 0) == new_columns@.len()
                &&& new@.len() == new_columns@.len()
                &&& forall|j: int|
                    0 <= j < new@.len() ==> {
                        let from = old@[old_columns@[source_of(
                            old_columns@,
                            new_columns@,
                            j,
                        )].column_index as int];
                        &&& (#[trigger] new@[j])@ == from@
                        &&& new@[j].column_type() == from.column_type()
                    }
            },
            Err(e) => {
                let j = first_missing(old_columns@, new_columns@, 0);
                &&& j < new_columns@.len()
                &&& e.kind == ErrorKind::NotFound
                &&& e.message@ == missing_column_message(new_columns@[j].name@)
            },
        },
{
    let mut new: Vec<ColumnArray> = Vec::new();
    let mut j: usize = 0;
    while j < new_columns.len()
        invariant
            j <= new_columns.len(),
            old_columns@.len() == old@.len(),
            indexes_within(old_columns@, old@.len()),
            first_missing(old_columns@, new_columns@, 0) == first_missing(
                old_columns@,
                new_columns@,
                j as int,
            ),
            new@.len() == j,
            forall|i: int|
                0 <= i < j ==> {
                    let from = old@[old_columns@[source_of(
                        old_columns@,
                        new_columns@,
                        i,
                    )].column_index as int];
                    &&& (#[trigger] new@[i])@ == from@
                    &&& new@[i].column_type() == from.column_type()
                },
        decreases new_columns.len() - j,
    {
        let name = &new_columns[j].name;
        match find_column(old_columns, name) {
            Some(p) => {
                new.push(old[old_columns[p].column_index].duplicate());
            },
            None => {
                let mut message = String::from_str("Column '");
                message.append(name.as_str());
                message.append("' not found");
                return Err(CubeError::not_found(message));
            },
        }
        j += 1;
    }
    Ok(new)
}

/// Whether each column's index is its position.
pub open spec fn positional(columns: Seq<Column>) -> bool {
    forall|i: int| 0 <= i < columns.len() ==> (#[trigger] columns[i]).column_index == i
}

/// Whether no two columns have the same name.
pub open spec fn distinct_names(columns: Seq<Column>) -> bool {
    forall|i: int, j: int|
        0 <= i < j < columns.len() ==> (#[trigger] columns[i]).name@ != (#[trigger] columns[j]).name@
}

/// Whether each of `wanted` has its name among `columns`.
pub open spec fn all_named(columns: Seq<Column>, wanted: Seq<Column>) -> bool {
    forall|j: int|
        0 <= j < wanted.len() ==> #[trigger] source_of(columns, wanted, j) < columns.len()
}

/// Remapping into another order of the same column names and back again
/// gives the batch that one started from, buffer for buffer.
pub proof fn lemma_remap_round_trip(
    old: Seq<Seq<Datum>>,
    old_columns: Seq<Column>,
    new_columns: Seq<Column>,
)
    requires
        old.len() == old_columns.len(),
        positional(old_columns),
        positional(new_columns),
        distinct_names(old_columns),
        all_named(new_columns, old_columns),
    ensures
        remapped(remapped(old, old_columns, new_columns), new_columns, old_columns) == old,
{
    let there = remapped(old, old_columns, new_columns);
    let back = remapped(there, new_columns, old_columns);
    assert forall|i: int| 0 <= i < old.len() implies back[i] == old[i] by {
        let q = source_of(new_columns, old_columns, i);
        lemma_first_named(new_columns, old_columns[i].name@, 0);
        assert(new_columns[q].column_index == q);
        let p = source_of(old_columns, new_columns, q);
        lemma_first_named(old_columns, new_columns[q].name@, 0);
        assert(p == i) by {
            if p < i {
                assert(old_columns[p].name@ != old_columns[i].name@);
            }
        }
        assert(old_columns[i].column_index == i);
        assert(there[q] == old[i]);
    }
    assert(back =~= old);
}

} // verus!
