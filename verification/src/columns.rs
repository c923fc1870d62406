//! Column-oriented batches: one buffer per column, and the kernels that
//! gather rows from a column or join columns end to end.

use crate::metastore::ColumnType;
use crate::table::{
    chars_lt, key_lt, key_lt_from, lemma_key_eq_congruent, lemma_key_irreflexive,
    lemma_key_total, lemma_key_transitive, Datum, Row, TableValue,
};
use arrow::array::{Array, AsArray, Int64Array, LargeStringArray, UInt64Array};
use arrow::datatypes::Int64Type;
use vstd::prelude::*;

verus! {

/// The values of one column, in row order.
#[derive(Debug, PartialEq, Eq)]
pub enum ColumnArray {
    Int(Vec<i64>),
    Str(Vec<String>),
}

/// A buffer of integers read as cells.
pub open spec fn int_cells(s: Seq<i64>) -> Seq<Datum> {
    Seq::new(s.len(), |i: int| Datum::Int(s[i]))
}

/// A buffer of strings read as cells.
pub open spec fn str_cells(s: Seq<String>) -> Seq<Datum> {
    Seq::new(s.len(), |i: int| Datum::Str(s[i]@))
}

impl View for ColumnArray {
    type V = Seq<Datum>;

    open spec fn view(&self) -> Seq<Datum> {
        match self {
            ColumnArray::Int(v) => int_cells(v@),
            ColumnArray::Str(v) => str_cells(v@),
        }
    }
}

/// The cells of a batch, column by column.
pub open spec fn batch_view(columns: Seq<ColumnArray>) -> Seq<Seq<Datum>> {
    Seq::new(columns.len(), |j: int| columns[j]@)
}

/// Whether every column of the batch holds exactly `n` rows.
pub open spec fn batch_has_rows(columns: Seq<ColumnArray>, n: nat) -> bool {
    forall|j: int| 0 <= j < columns.len() ==> (#[trigger] columns[j])@.len() == n
}

/// The cells of `column` at the positions `rows`, in that order.
pub open spec fn gathered(column: Seq<Datum>, rows: Seq<usize>) -> Seq<Datum> {
    Seq::new(rows.len(), |i: int| column[rows[i] as int])
}

/// Whether every position in `rows` is below `n`.
pub open spec fn rows_below(rows: Seq<usize>, n: nat) -> bool {
    forall|i: int| 0 <= i < rows.len() ==> (#[trigger] rows[i]) < n
}

/// The row positions `0, 1, ..` below `n`, in ascending order.
pub open spec fn first_rows(n: usize) -> Seq<usize> {
    Seq::new(n as nat, |i: int| i as usize)
}

/// Whether `order` holds each row position below `n` exactly once.
pub open spec fn is_row_order(order: Seq<usize>, n: usize) -> bool {
    order.to_multiset() == first_rows(n).to_multiset()
}

/// Whether every row in `rows` exists in each of the first `k` columns.
pub open spec fn key_rows_all_exist(columns: Seq<ColumnArray>, k: usize, rows: Seq<usize>) -> bool {
    &&& k <= columns.len()
    &&& forall|i: int, j: int|
        0 <= i < rows.len() && 0 <= j < k ==> (#[trigger] rows[i]) < (#[trigger] columns[j])@.len()
}

/// The columns of `parts`, joined end to end in order.
pub open spec fn joined(parts: Seq<Seq<Datum>>) -> Seq<Datum> {
    parts.flatten()
}

/// The sort key of row `r`: its cells in the first `k` columns.
pub open spec fn row_key(batch: Seq<Seq<Datum>>, r: int, k: int) -> Seq<Datum> {
    Seq::new(k as nat, |j: int| batch[j][r])
}

/// Whether row `a` comes strictly before row `b` by the first `k` columns.
pub open spec fn row_before(columns: Seq<ColumnArray>, k: usize, a: usize, b: usize) -> bool {
    key_lt(
        row_key(batch_view(columns), a as int, k as int),
        row_key(batch_view(columns), b as int, k as int),
        k as int,
    )
}

/// Whether `bound` comes strictly before the key of row `r`.
pub open spec fn bound_before_row(bound: Seq<Datum>, columns: Seq<ColumnArray>, k: usize, r: usize) -> bool {
    key_lt(bound, row_key(batch_view(columns), r as int, k as int), k as int)
}

/// Whether rows `a` and `b` exist in each of the first `k` columns.
pub open spec fn key_rows_exist(columns: Seq<ColumnArray>, k: usize, a: usize, b: usize) -> bool {
    &&& k <= columns.len()
    &&& forall|j: int| 0 <= j < k ==> a < (#[trigger] columns[j])@.len() && b < columns[j]@.len()
}

/// `str`'s `<`: std orders strings lexicographically by their bytes, which is
/// their order by code point, a proper prefix first.
#[verifier::external_body]
fn str_lt(a: &str, b: &str) -> (r: bool)
    ensures
        r == chars_lt(a@, b@),
{
    a < b
}

/// `arrow::compute::take` on an `Int64Array` without nulls and `UInt64Array`
/// indices: the result holds, for each index in turn, the value at that
/// index. Every index must be in bounds, or the kernel panics.
#[verifier::external_body]
fn take_ints(values: &Vec<i64>, rows: &Vec<usize>) -> (out: Vec<i64>)
    requires
        rows_below(rows@, values@.len()),
    ensures
        int_cells(out@) == gathered(int_cells(values@), rows@),
{
    let array = Int64Array::from(values.clone());
    let indices = UInt64Array::from_iter_values(rows.iter().map(|r| *r as u64));
    let taken = arrow::compute::take(&array, &indices, None).unwrap();
    taken.as_primitive::<Int64Type>().values().to_vec()
}

/// `arrow::compute::take` on a `LargeStringArray` without nulls and
/// `UInt64Array` indices: the result holds, for each index in turn, the
/// string at that index. Every index must be in bounds, or the kernel panics.
#[verifier::external_body]
fn take_strings(values: &Vec<String>, rows: &Vec<usize>) -> (out: Vec<String>)
    requires
        rows_below(rows@, values@.len()),
    ensures
        str_cells(out@) == gathered(str_cells(values@), rows@),
{
    let array = LargeStringArray::from_iter_values(values.iter());
    let indices = UInt64Array::from_iter_values(rows.iter().map(|r| *r as u64));
    let taken = arrow::compute::take(&array, &indices, None).unwrap();
    let taken = taken.as_string::<i64>();
    (0..taken.len()).map(|i| taken.value(i).to_string()).collect()
}

/// `arrow::compute::concat` on `Int64Array`s without nulls: the result holds
/// the values of the first array, then those of the second, and so on. With
/// no array at all the kernel fails.
#[verifier::external_body]
fn concat_ints(parts: &Vec<&Vec<i64>>) -> (out: Vec<i64>)
    requires
        parts@.len() > 0,
    ensures
        int_cells(out@) == joined(Seq::new(parts@.len(), |i: int| int_cells(parts@[i]@))),
{
    let arrays: Vec<Int64Array> = parts.iter().map(|p| Int64Array::from((*p).clone())).collect();
    let refs: Vec<&dyn Array> = arrays.iter().map(|a| a as &dyn Array).collect();
    let all = arrow::compute::concat(&refs).unwrap();
    all.as_primitive::<Int64Type>().values().to_vec()
}

/// `arrow::compute::concat` on `LargeStringArray`s without nulls: the result
/// holds the strings of the first array, then those of the second, and so
/// on. With no array at all the kernel fails.
#[verifier::external_body]
fn concat_strings(parts: &Vec<&Vec<String>>) -> (out: Vec<String>)
    requires
        parts@.len() > 0,
    ensures
        str_cells(out@) == joined(Seq::new(parts@.len(), |i: int| str_cells(parts@[i]@))),
{
    let arrays: Vec<LargeStringArray> =
        parts.iter().map(|p| LargeStringArray::from_iter_values(p.iter())).collect();
    let refs: Vec<&dyn Array> = arrays.iter().map(|a| a as &dyn Array).collect();
    let all = arrow::compute::concat(&refs).unwrap();
    let all = all.as_string::<i64>();
    (0..all.len()).map(|i| all.value(i).to_string()).collect()
}

impl ColumnArray {
    /// The number of rows.
    pub fn len(&self) -> (n: usize)
        ensures
            n == self@.len(),
    {
        match self {
            ColumnArray::Int(v) => v.len(),
            ColumnArray::Str(v) => v.len(),
        }
    }

    /// The type of the cells.
    pub open spec fn spec_column_type(&self) -> ColumnType {
        match self {
            ColumnArray::Int(_) => ColumnType::Int,
            ColumnArray::Str(_) => ColumnType::String,
        }
    }

    /// The type of the cells.
    #[verifier::when_used_as_spec(spec_column_type)]
    pub fn column_type(&self) -> (t: ColumnType)
        ensures
            t == self.spec_column_type(),
    {
        match self {
            ColumnArray::Int(_) => ColumnType::Int,
            ColumnArray::Str(_) => ColumnType::String,
        }
    }

    /// The cell at row `r`.
    pub fn value(&self, r: usize) -> (v: TableValue)
        requires
            r < self@.len(),
        ensures
            v@ == self@[r as int],
    {
        match self {
            ColumnArray::Int(v) => TableValue::Int(v[r]),
            ColumnArray::Str(v) => TableValue::String(v[r].clone()),
        }
    }

    /// The cells at the positions `rows`, in that order, as a new column of
    /// the same type.
    pub fn take(&self, rows: &Vec<usize>) -> (out: ColumnArray)
        requires
            rows_below(rows@, self@.len()),
        ensures
            out@ == gathered(self@, rows@),
            out.column_type() == self.column_type(),
    {
        match self {
            ColumnArray::Int(v) => ColumnArray::Int(take_ints(v, rows)),
            ColumnArray::Str(v) => ColumnArray::Str(take_strings(v, rows)),
        }
    }
}

/// Column `c` of every batch, joined end to end in batch order.
pub open spec fn joined_column(batches: Seq<Vec<ColumnArray>>, c: int) -> Seq<Datum> {
    joined(Seq::new(batches.len(), |b: int| batches[b]@[c]@))
}

/// Whether every batch has more than `c` columns and column `c` has the same
/// type in all of them.
pub open spec fn column_joinable(batches: Seq<Vec<ColumnArray>>, c: int) -> bool {
    &&& batches.len() > 0
    &&& forall|b: int|
        0 <= b < batches.len() ==> c < (#[trigger] batches[b])@.len()
            && batches[b]@[c].column_type() == batches[0]@[c].column_type()
}

/// Joins column `c` of every batch end to end, in batch order.
pub fn concat_column(batches: &Vec<Vec<ColumnArray>>, c: usize) -> (out: ColumnArray)
    requires
        column_joinable(batches@, c as int),
    ensures
        out@ == joined_column(batches@, c as int),
        out.column_type() == batches@[0]@[c as int].column_type(),
{
    match &batches[0][c] {
        ColumnArray::Int(_) => {
            let mut parts: Vec<&Vec<i64>> = Vec::new();
            let mut b: usize = 0;
            while b < batches.len()
                invariant
                    b <= batches.len(),
                    parts@.len() == b,
                    column_joinable(batches@, c as int),
                    batches@[0]@[c as int].column_type() == ColumnType::Int,
                    forall|i: int| 0 <= i < b ==> int_cells(parts@[i]@) == batches@[i]@[c as int]@,
                decreases batches.len() - b,
            {
                match &batches[b][c] {
                    ColumnArray::Int(v) => {
                        parts.push(v);
                    },
                    ColumnArray::Str(_) => {
                        assert(false);
                    },
                }
                b += 1;
            }
            let out = concat_ints(&parts);
            assert(Seq::new(parts@.len(), |i: int| int_cells(parts@[i]@)) =~= Seq::new(
                batches@.len(),
                |b: int| batches@[b]@[c as int]@,
            ));
            ColumnArray::Int(out)
        },
        ColumnArray::Str(_) => {
            let mut parts: Vec<&Vec<String>> = Vec::new();
            let mut b: usize = 0;
            while b < batches.len()
                invariant
                    b <= batches.len(),
                    parts@.len() == b,
                    column_joinable(batches@, c as int),
                    batches@[0]@[c as int].column_type() == ColumnType::String,
                    forall|i: int| 0 <= i < b ==> str_cells(parts@[i]@) == batches@[i]@[c as int]@,
                decreases batches.len() - b,
            {
                match &batches[b][c] {
                    ColumnArray::Str(v) => {
                        parts.push(v);
                    },
                    ColumnArray::Int(_) => {
                        assert(false);
                    },
                }
                b += 1;
            }
            let out = concat_strings(&parts);
            assert(Seq::new(parts@.len(), |i: int| str_cells(parts@[i]@)) =~= Seq::new(
                batches@.len(),
                |b: int| batches@[b]@[c as int]@,
            ));
            ColumnArray::Str(out)
        },
    }
}

/// Whether row `a` comes strictly before row `b` by the first `k` columns.
pub fn row_lt(columns: &Vec<ColumnArray>, k: usize, a: usize, b: usize) -> (r: bool)
    requires
        key_rows_exist(columns@, k, a, b),
    ensures
        r == row_before(columns@, k, a, b),
{
    let ghost ka = row_key(batch_view(columns@), a as int, k as int);
    let ghost kb = row_key(batch_view(columns@), b as int, k as int);
    let mut j: usize = 0;
    while j < k
        invariant
            j <= k,
            key_rows_exist(columns@, k, a, b),
            ka == row_key(batch_view(columns@), a as int, k as int),
            kb == row_key(batch_view(columns@), b as int, k as int),
            key_lt(ka, kb, k as int) == key_lt_from(ka, kb, j as int, k as int),
        decreases k - j,
    {
        assert(ka[j as int] == columns@[j as int]@[a as int]);
        assert(kb[j as int] == columns@[j as int]@[b as int]);
        match &columns[j] {
            ColumnArray::Int(v) => {
                if v[a] != v[b] {
                    return v[a] < v[b];
                }
            },
            ColumnArray::Str(v) => {
                if v[a] != v[b] {
                    return str_lt(v[a].as_str(), v[b].as_str());
                }
            },
        }
        j += 1;
    }
    false
}

/// Whether `bound` comes strictly before the key of row `r`.
pub fn bound_lt_row(bound: &Row, columns: &Vec<ColumnArray>, k: usize, r: usize) -> (lt: bool)
    requires
        k <= bound@.len(),
        key_rows_exist(columns@, k, r, r),
    ensures
        lt == bound_before_row(bound@, columns@, k, r),
{
    let ghost kr = row_key(batch_view(columns@), r as int, k as int);
    let mut j: usize = 0;
    while j < k
        invariant
            j <= k,
            k <= bound@.len(),
            key_rows_exist(columns@, k, r, r),
            kr == row_key(batch_view(columns@), r as int, k as int),
            key_lt(bound@, kr, k as int) == key_lt_from(bound@, kr, j as int, k as int),
        decreases k - j,
    {
        assert(kr[j as int] == columns@[j as int]@[r as int]);
        assert(bound@[j as int] == bound.values@[j as int]@);
        match (&bound.values[j], &columns[j]) {
            (TableValue::Int(x), ColumnArray::Int(v)) => {
                if *x != v[r] {
                    return *x < v[r];
                }
            },
            (TableValue::String(x), ColumnArray::Str(v)) => {
                if *x != v[r] {
                    return str_lt(x.as_str(), v[r].as_str());
                }
            },
            (TableValue::Int(_), ColumnArray::Str(_)) => {
                return true;
            },
            (TableValue::String(_), ColumnArray::Int(_)) => {
                return false;
            },
        }
        j += 1;
    }
    false
}

/// No row comes before itself, and of two rows at most one comes before the
/// other.
pub proof fn lemma_row_order_asymmetric(columns: Seq<ColumnArray>, k: usize, a: usize, b: usize)
    ensures
        !row_before(columns, k, a, a),
        row_before(columns, k, a, b) ==> !row_before(columns, k, b, a),
{
    let ka = row_key(batch_view(columns), a as int, k as int);
    let kb = row_key(batch_view(columns), b as int, k as int);
    lemma_key_irreflexive(ka, k as int);
    if key_lt(ka, kb, k as int) && key_lt(kb, ka, k as int) {
        lemma_key_transitive(ka, kb, ka, k as int);
    }
}

/// The order of rows by key is transitive.
pub proof fn lemma_row_order_transitive(
    columns: Seq<ColumnArray>,
    k: usize,
    a: usize,
    b: usize,
    c: usize,
)
    requires
        row_before(columns, k, a, b),
        row_before(columns, k, b, c),
    ensures
        row_before(columns, k, a, c),
{
    lemma_key_transitive(
        row_key(batch_view(columns), a as int, k as int),
        row_key(batch_view(columns), b as int, k as int),
        row_key(batch_view(columns), c as int, k as int),
        k as int,
    );
}

/// Being not after is transitive too: together with the two laws above, rows
/// are totally ordered by key, rows of equal key standing level.
pub proof fn lemma_row_order_total(columns: Seq<ColumnArray>, k: usize, a: usize, b: usize, c: usize)
    requires
        !row_before(columns, k, b, a),
        !row_before(columns, k, c, b),
    ensures
        !row_before(columns, k, c, a),
{
    let ka = row_key(batch_view(columns), a as int, k as int);
    let kb = row_key(batch_view(columns), b as int, k as int);
    let kc = row_key(batch_view(columns), c as int, k as int);
    if key_lt(kc, ka, k as int) {
        if key_lt(ka, kb, k as int) {
            lemma_key_transitive(kc, ka, kb, k as int);
        } else {
            lemma_key_total(ka, kb, k as int);
            lemma_key_eq_congruent(ka, kb, kc, k as int);
        }
    }
}

} // verus!
