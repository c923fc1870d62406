//! The order of rows by sort key.

use crate::columns::{
    first_rows, is_row_order, key_rows_all_exist, key_rows_exist, lemma_row_order_asymmetric,
    row_before, row_lt, ColumnArray,
};
use std::cmp::Ordering;
use vstd::prelude::*;

verus! {

/// Whether no row of `rows` comes strictly before a row that stands earlier.
pub open spec fn sorted_by_key(columns: Seq<ColumnArray>, k: usize, rows: Seq<usize>) -> bool {
    forall|i: int, j: int|
        0 <= i < j < rows.len() ==> !row_before(columns, k, #[trigger] rows[j], #[trigger] rows[i])
}

/// Compares rows `a` and `b` by the first `k` columns, column by column.
pub fn row_ordering(columns: &Vec<ColumnArray>, k: usize, a: usize, b: usize) -> (o: Ordering)
    requires
        key_rows_exist(columns@, k, a, b),
    ensures
        (o == Ordering::Less) == row_before(columns@, k, a, b),
        (o == Ordering::Greater) == row_before(columns@, k, b, a),
{
    proof {
        lemma_row_order_asymmetric(columns@, k, a, b);
    }
    if row_lt(columns, k, a, b) {
        Ordering::Less
    } else if row_lt(columns, k, b, a) {
        Ordering::Greater
    } else {
        Ordering::Equal
    }
}

/// `slice::sort_unstable_by` with [`row_ordering`] as the comparison. std
/// documents that it reorders the slice in place into ascending order by the
/// comparison and may reorder elements that compare equal; with a comparison
/// that is a total order, which the laws on `row_before` show this one to be,
/// it does not panic.
#[verifier::external_body]
fn sort_by_key(columns: &Vec<ColumnArray>, k: usize, rows: Vec<usize>) -> (sorted: Vec<usize>)
    requires
        key_rows_all_exist(columns@, k, rows@),
    ensures
        sorted@.to_multiset() == rows@.to_multiset(),
        sorted_by_key(columns@, k, sorted@),
{
    let mut rows = rows;
    rows.sort_unstable_by(|a, b| row_ordering(columns, k, *a, *b));
    rows
}

/// The positions of the batch's `n` rows, ordered by the first `k` columns.
/// Rows of equal key come in no particular order.
pub fn sort_rows(columns: &Vec<ColumnArray>, k: usize, n: usize) -> (order: Vec<usize>)
    requires
        k <= columns@.len(),
        forall|j: int| 0 <= j < k ==> (#[trigger] columns@[j])@.len() == n,
    ensures
        is_row_order(order@, n),
        sorted_by_key(columns@, k, order@),
{
    let mut rows: Vec<usize> = Vec::new();
    let mut i: usize = 0;
    while i < n
        invariant
            i <= n,
            rows@ == first_rows(i),
        decreases n - i,
    {
        let next = i + 1;
        rows.push(i);
        assert(rows@ =~= first_rows(next));
        i = next;
    }
    sort_by_key(columns, k, rows)
}

} // verus!
