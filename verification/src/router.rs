//! The partition router: splits the rows of a sorted batch among the active
//! partitions of an index by their sort-key bounds.

use crate::columns::{
    batch_has_rows, batch_view, bound_before_row, bound_lt_row, first_rows, gathered,
    is_row_order, key_rows_exist, row_before, row_key, rows_below, ColumnArray,
};
use crate::error::{CubeError, ErrorKind};
use crate::metastore::{IdRow, Partition};
use crate::sorting::{sort_rows, sorted_by_key};
use crate::table::{key_eq, lemma_key_eq_congruent, Row, TableValue};
use vstd::seq_lib::{to_multiset_contains, to_multiset_len};
use vstd::prelude::*;

verus! {

/// Whether a bound, where there is one, has a cell for each of the `k` key
/// columns.
pub open spec fn bound_fits(bound: Option<Row>, k: usize) -> bool {
    bound matches Some(b) ==> k <= b@.len()
}

/// Whether every bound of every partition has a cell for each key column.
pub open spec fn bounds_fit(partitions: Seq<IdRow<Partition>>, k: usize) -> bool {
    forall|j: int|
        0 <= j < partitions.len() ==> bound_fits((#[trigger] partitions[j]).row.min_value, k)
            && bound_fits(partitions[j].row.max_value, k)
}

/// Whether every row in `rows` exists in every column.
pub open spec fn rows_exist(columns: Seq<ColumnArray>, rows: Seq<usize>) -> bool {
    forall|i: int, c: int|
        0 <= i < rows.len() && 0 <= c < columns.len() ==> (#[trigger] rows[i]) < (
        #[trigger] columns[c])@.len()
}

/// Whether the key of row `r` lies in the range `(min, max]`: strictly above
/// `min` and not above `max`, a missing bound leaving its end open.
pub open spec fn in_range(
    columns: Seq<ColumnArray>,
    k: usize,
    min: Option<Row>,
    max: Option<Row>,
    r: usize,
) -> bool {
    &&& (min matches Some(lo) ==> bound_before_row(lo@, columns, k, r))
    &&& (max matches Some(hi) ==> !bound_before_row(hi@, columns, k, r))
}

/// Whether partition `j` takes row `r`.
pub open spec fn takes(
    columns: Seq<ColumnArray>,
    k: usize,
    partitions: Seq<IdRow<Partition>>,
    j: int,
    r: usize,
) -> bool {
    in_range(columns, k, partitions[j].row.min_value, partitions[j].row.max_value, r)
}

/// The first partition at or after `from` that takes row `r`, or the number
/// of partitions if none does.
pub open spec fn taker_from(
    columns: Seq<ColumnArray>,
    k: usize,
    partitions: Seq<IdRow<Partition>>,
    r: usize,
    from: int,
) -> int
    decreases partitions.len() - from,
{
    if from < 0 || from >= partitions.len() {
        partitions.len() as int
    } else if takes(columns, k, partitions, from, r) {
        from
    } else {
        taker_from(columns, k, partitions, r, from + 1)
    }
}

/// The partition that row `r` is routed to: the first in the list that takes
/// it, or the number of partitions if none does.
pub open spec fn taker(
    columns: Seq<ColumnArray>,
    k: usize,
    partitions: Seq<IdRow<Partition>>,
    r: usize,
) -> int {
    taker_from(columns, k, partitions, r, 0)
}

/// The rows of `order`, in that order, whose partition lies in `lo..hi`.
pub open spec fn routed_between(
    columns: Seq<ColumnArray>,
    k: usize,
    partitions: Seq<IdRow<Partition>>,
    order: Seq<usize>,
    lo: int,
    hi: int,
) -> Seq<usize>
    decreases order.len(),
{
    if order.len() == 0 {
        Seq::empty()
    } else {
        let rest = routed_between(columns, k, partitions, order.drop_last(), lo, hi);
        if lo <= taker(columns, k, partitions, order.last()) < hi {
            rest.push(order.last())
        } else {
            rest
        }
    }
}

/// The rows of `order`, in that order, that none of the first `j`
/// partitions takes.
pub open spec fn rows_past(
    columns: Seq<ColumnArray>,
    k: usize,
    partitions: Seq<IdRow<Partition>>,
    order: Seq<usize>,
    j: int,
) -> Seq<usize> {
    routed_between(columns, k, partitions, order, j, partitions.len() as int + 1)
}

/// The rows of `order`, in that order, that are routed to partition `j`.
pub open spec fn rows_of_partition(
    columns: Seq<ColumnArray>,
    k: usize,
    partitions: Seq<IdRow<Partition>>,
    order: Seq<usize>,
    j: int,
) -> Seq<usize> {
    routed_between(columns, k, partitions, order, j, j + 1)
}

/// The rows of `order` that no partition takes.
pub open spec fn unrouted_rows(
    columns: Seq<ColumnArray>,
    k: usize,
    partitions: Seq<IdRow<Partition>>,
    order: Seq<usize>,
) -> Seq<usize> {
    rows_of_partition(columns, k, partitions, order, partitions.len() as int)
}

/// The rows of `rows`, in that order, whose key lies in `(min, max]`.
pub open spec fn selected(
    columns: Seq<ColumnArray>,
    k: usize,
    min: Option<Row>,
    max: Option<Row>,
    rows: Seq<usize>,
) -> Seq<usize>
    decreases rows.len(),
{
    if rows.len() == 0 {
        Seq::empty()
    } else {
        let rest = selected(columns, k, min, max, rows.drop_last());
        if in_range(columns, k, min, max, rows.last()) {
            rest.push(rows.last())
        } else {
            rest
        }
    }
}

/// The rows of `rows`, in that order, whose key lies outside `(min, max]`.
pub open spec fn rejected(
    columns: Seq<ColumnArray>,
    k: usize,
    min: Option<Row>,
    max: Option<Row>,
    rows: Seq<usize>,
) -> Seq<usize>
    decreases rows.len(),
{
    if rows.len() == 0 {
        Seq::empty()
    } else {
        let rest = rejected(columns, k, min, max, rows.drop_last());
        if in_range(columns, k, min, max, rows.last()) {
            rest
        } else {
            rest.push(rows.last())
        }
    }
}

/// Whether the key of row `r` lies in `(min, max]`.
pub fn row_in_range(
    columns: &Vec<ColumnArray>,
    k: usize,
    min: &Option<Row>,
    max: &Option<Row>,
    r: usize,
) -> (b: bool)
    requires
        key_rows_exist(columns@, k, r, r),
        bound_fits(*min, k),
        bound_fits(*max, k),
    ensures
        b == in_range(columns@, k, *min, *max, r),
{
    let above = match min {
        Some(lo) => bound_lt_row(lo, columns, k, r),
        None => true,
    };
    if !above {
        return false;
    }
    match max {
        Some(hi) => !bound_lt_row(hi, columns, k, r),
        None => true,
    }
}

/// Splits `rows` into those whose key lies in `(min, max]` and the others,
/// each part keeping the order of `rows`.
pub fn split_rows(
    columns: &Vec<ColumnArray>,
    k: usize,
    min: &Option<Row>,
    max: &Option<Row>,
    rows: Vec<usize>,
) -> (parts: (Vec<usize>, Vec<usize>))
    requires
        k <= columns@.len(),
        rows_exist(columns@, rows@),
        bound_fits(*min, k),
        bound_fits(*max, k),
    ensures
        parts.0@ == selected(columns@, k, *min, *max, rows@),
        parts.1@ == rejected(columns@, k, *min, *max, rows@),
        rows_exist(columns@, parts.0@),
        rows_exist(columns@, parts.1@),
{
    let mut inside: Vec<usize> = Vec::new();
    let mut outside: Vec<usize> = Vec::new();
    let mut i: usize = 0;
    while i < rows.len()
        invariant
            i <= rows.len(),
            k <= columns@.len(),
            rows_exist(columns@, rows@),
            bound_fits(*min, k),
            bound_fits(*max, k),
            inside@ == selected(columns@, k, *min, *max, rows@.take(i as int)),
            outside@ == rejected(columns@, k, *min, *max, rows@.take(i as int)),
            rows_exist(columns@, inside@),
            rows_exist(columns@, outside@),
        decreases rows.len() - i,
    {
        let r = rows[i];
        assert(rows@.take(i + 1).drop_last() == rows@.take(i as int));
        assert(rows@.take(i + 1).last() == r);
        assert(r == rows@[i as int]);
        if row_in_range(columns, k, min, max, r) {
            inside.push(r);
        } else {
            outside.push(r);
        }
        i += 1;
    }
    assert(rows@.take(i as int) == rows@);
    (inside, outside)
}

/// Whether `out` holds, column by column, the cells of `columns` at `rows`.
pub open spec fn columns_gathered(
    out: Seq<ColumnArray>,
    columns: Seq<ColumnArray>,
    rows: Seq<usize>,
) -> bool {
    &&& out.len() == columns.len()
    &&& forall|c: int|
        0 <= c < columns.len() ==> (#[trigger] out[c])@ == gathered(columns[c]@, rows)
            && out[c].column_type() == columns[c].column_type()
}

/// The cells of every column at the positions `rows`, in that order.
pub fn take_columns(columns: &Vec<ColumnArray>, rows: &Vec<usize>) -> (out: Vec<ColumnArray>)
    requires
        rows_exist(columns@, rows@),
    ensures
        columns_gathered(out@, columns@, rows@),
{
    let mut out: Vec<ColumnArray> = Vec::new();
    let mut c: usize = 0;
    while c < columns.len()
        invariant
            c <= columns.len(),
            rows_exist(columns@, rows@),
            out@.len() == c,
            forall|d: int|
                0 <= d < c ==> (#[trigger] out@[d])@ == gathered(columns@[d]@, rows@)
                    && out@[d].column_type() == columns@[d].column_type(),
        decreases columns.len() - c,
    {
        assert(rows_below(rows@, columns@[c as int]@.len()));
        out.push(columns[c].take(rows));
        c += 1;
    }
    out
}

/// The rows routed to one partition.
#[derive(Debug, PartialEq, Eq)]
pub struct RoutedRows {
    /// The position of the partition in the list that was given.
    pub partition: usize,
    /// The identity of the partition.
    pub partition_id: u64,
    /// The positions of the rows in the batch, in sorted order.
    pub rows: Vec<usize>,
    /// The cells of those rows, column by column.
    pub columns: Vec<ColumnArray>,
}

/// Whether `routed` is what partition `routed.partition` receives.
pub open spec fn route_is(
    routed: RoutedRows,
    columns: Seq<ColumnArray>,
    k: usize,
    partitions: Seq<IdRow<Partition>>,
    order: Seq<usize>,
) -> bool {
    &&& routed.partition < partitions.len()
    &&& routed.partition_id == partitions[routed.partition as int].id
    &&& routed.rows@ == rows_of_partition(columns, k, partitions, order, routed.partition as int)
    &&& routed.rows@.len() > 0
    &&& columns_gathered(routed.columns@, columns, routed.rows@)
}

/// Whether `routed` has an entry for partition `j`.
pub open spec fn routed_has(routed: Seq<RoutedRows>, j: int) -> bool {
    exists|i: int| 0 <= i < routed.len() && (#[trigger] routed[i]).partition == j
}

/// Whether row `r` stands among the rows of some entry of `routed`.
pub open spec fn routed_somewhere(routed: Seq<RoutedRows>, r: usize) -> bool {
    exists|i: int| 0 <= i < routed.len() && (#[trigger] routed[i]).rows@.contains(r)
}

/// Whether `routed` lists, in the order of the partitions, exactly those of
/// the first `upto` partitions that receive a row, each with its rows.
pub open spec fn routes_upto(
    routed: Seq<RoutedRows>,
    columns: Seq<ColumnArray>,
    k: usize,
    partitions: Seq<IdRow<Partition>>,
    order: Seq<usize>,
    upto: int,
) -> bool {
    &&& forall|i: int|
        0 <= i < routed.len() ==> route_is(#[trigger] routed[i], columns, k, partitions, order)
            && routed[i].partition < upto
    &&& forall|a: int, b: int|
        0 <= a < b < routed.len() ==> (#[trigger] routed[a]).partition < (
        #[trigger] routed[b]).partition
    &&& forall|p: int|
        0 <= p < upto && (#[trigger] rows_of_partition(columns, k, partitions, order, p)).len() > 0
            ==> routed_has(routed, p)
}

/// Whether `routed` is the routing of `order` among `partitions`.
pub open spec fn routes_all(
    routed: Seq<RoutedRows>,
    columns: Seq<ColumnArray>,
    k: usize,
    partitions: Seq<IdRow<Partition>>,
    order: Seq<usize>,
) -> bool {
    routes_upto(routed, columns, k, partitions, order, partitions.len() as int)
}

proof fn lemma_taker_from(
    columns: Seq<ColumnArray>,
    k: usize,
    partitions: Seq<IdRow<Partition>>,
    r: usize,
    from: int,
)
    requires
        0 <= from <= partitions.len(),
    ensures
        from <= taker_from(columns, k, partitions, r, from) <= partitions.len(),
        taker_from(columns, k, partitions, r, from) < partitions.len() ==> takes(
            columns,
            k,
            partitions,
            taker_from(columns, k, partitions, r, from),
            r,
        ),
        forall|i: int|
            from <= i < taker_from(columns, k, partitions, r, from) ==> !takes(
                columns,
                k,
                partitions,
                i,
                r,
            ),
    decreases partitions.len() - from,
{
    if from < partitions.len() && !takes(columns, k, partitions, from, r) {
        lemma_taker_from(columns, k, partitions, r, from + 1);
    }
}

/// A row is routed to the first partition that takes it: that partition
/// takes it, no earlier one does, and a row that some partition takes is
/// routed.
pub proof fn lemma_taker(
    columns: Seq<ColumnArray>,
    k: usize,
    partitions: Seq<IdRow<Partition>>,
    r: usize,
)
    ensures
        0 <= taker(columns, k, partitions, r) <= partitions.len(),
        taker(columns, k, partitions, r) < partitions.len() ==> takes(
            columns,
            k,
            partitions,
            taker(columns, k, partitions, r),
            r,
        ),
        forall|i: int|
            0 <= i < taker(columns, k, partitions, r) ==> !takes(columns, k, partitions, i, r),
{
    lemma_taker_from(columns, k, partitions, r, 0);
}

proof fn lemma_split_bucket(
    columns: Seq<ColumnArray>,
    k: usize,
    partitions: Seq<IdRow<Partition>>,
    order: Seq<usize>,
    j: int,
)
    requires
        0 <= j < partitions.len(),
    ensures
        selected(
            columns,
            k,
            partitions[j].row.min_value,
            partitions[j].row.max_value,
            rows_past(columns, k, partitions, order, j),
        ) == rows_of_partition(columns, k, partitions, order, j),
        rejected(
            columns,
            k,
            partitions[j].row.min_value,
            partitions[j].row.max_value,
            rows_past(columns, k, partitions, order, j),
        ) == rows_past(columns, k, partitions, order, j + 1),
    decreases order.len(),
{
    let min = partitions[j].row.min_value;
    let max = partitions[j].row.max_value;
    let all = rows_past(columns, k, partitions, order, j);
    if order.len() > 0 {
        let x = order.last();
        let t = taker(columns, k, partitions, x);
        let rest = rows_past(columns, k, partitions, order.drop_last(), j);
        lemma_split_bucket(columns, k, partitions, order.drop_last(), j);
        lemma_taker(columns, k, partitions, x);
        assert(in_range(columns, k, min, max, x) == takes(columns, k, partitions, j, x));
        if j <= t {
            assert(all == rest.push(x));
            assert(all.drop_last() == rest);
            assert(all.last() == x);
            assert(takes(columns, k, partitions, j, x) == (t == j));
        } else {
            assert(all == rest);
        }
    } else {
        assert(all.len() == 0);
    }
}

/// A row stands among those routed to partitions `lo..hi` exactly if it
/// stands in `order` and its partition lies in `lo..hi`.
pub proof fn lemma_routed_between_contains(
    columns: Seq<ColumnArray>,
    k: usize,
    partitions: Seq<IdRow<Partition>>,
    order: Seq<usize>,
    lo: int,
    hi: int,
    r: usize,
)
    ensures
        routed_between(columns, k, partitions, order, lo, hi).contains(r) <==> order.contains(r)
            && lo <= taker(columns, k, partitions, r) < hi,
    decreases order.len(),
{
    let all = routed_between(columns, k, partitions, order, lo, hi);
    if order.len() > 0 {
        let rest = routed_between(columns, k, partitions, order.drop_last(), lo, hi);
        let x = order.last();
        lemma_routed_between_contains(columns, k, partitions, order.drop_last(), lo, hi, r);
        if order.contains(r) && !order.drop_last().contains(r) {
            let i = choose|i: int| 0 <= i < order.len() && order[i] == r;
            if i < order.len() - 1 {
                assert(order.drop_last()[i] == r);
            }
        }
        if order.drop_last().contains(r) {
            let i = choose|i: int| 0 <= i < order.drop_last().len() && order.drop_last()[i] == r;
            assert(order[i] == r);
        }
        if lo <= taker(columns, k, partitions, x) < hi {
            if all.contains(r) {
                let i = choose|i: int| 0 <= i < all.len() && all[i] == r;
                if i < rest.len() {
                    assert(rest[i] == r);
                }
            }
            if rest.contains(r) {
                let i = choose|i: int| 0 <= i < rest.len() && rest[i] == r;
                assert(all[i] == r);
            }
            if x == r {
                assert(all[rest.len() as int] == r);
                assert(order[order.len() - 1] == r);
            }
        } else if x == r {
            assert(order[order.len() - 1] == r);
        }
    }
}

/// Splits the rows of `order` among `partitions`: each row goes to the first
/// partition in the list whose range `(min, max]` holds its key. Partitions
/// that receive no row are left out. Fails if a row is left that no
/// partition takes.
pub fn route_rows(
    columns: &Vec<ColumnArray>,
    k: usize,
    order: Vec<usize>,
    partitions: &Vec<IdRow<Partition>>,
) -> (res: Result<Vec<RoutedRows>, CubeError>)
    requires
        k <= columns@.len(),
        rows_exist(columns@, order@),
        bounds_fit(partitions@, k),
    ensures
        match res {
            Ok(routed) => {
                &&& unrouted_rows(columns@, k, partitions@, order@).len() == 0
                &&& routes_all(routed@, columns@, k, partitions@, order@)
            },
            Err(e) => {
                &&& unrouted_rows(columns@, k, partitions@, order@).len() > 0
                &&& e.kind == ErrorKind::Internal
                &&& e.message@ == "Rows left unrouted after partitioning"@
            },
        },
{
    let ghost len = partitions@.len() as int;
    let mut routed: Vec<RoutedRows> = Vec::new();
    let mut remaining = order;
    let mut j: usize = 0;
    proof {
        lemma_routed_between_all(columns@, k, partitions@, order@);
    }
    while j < partitions.len()
        invariant
            j <= partitions.len(),
            len == partitions@.len(),
            k <= columns@.len(),
            bounds_fit(partitions@, k),
            rows_exist(columns@, remaining@),
            remaining@ == rows_past(columns@, k, partitions@, order@, j as int),
            routes_upto(routed@, columns@, k, partitions@, order@, j as int),
        decreases partitions.len() - j,
    {
        let partition = &partitions[j];
        let (to_write, next) = split_rows(
            columns,
            k,
            &partition.row.min_value,
            &partition.row.max_value,
            remaining,
        );
        proof {
            lemma_split_bucket(columns@, k, partitions@, order@, j as int);
        }
        if to_write.len() > 0 {
            let taken = take_columns(columns, &to_write);
            let ghost before = routed@;
            let entry = RoutedRows {
                partition: j,
                partition_id: partition.id,
                rows: to_write,
                columns: taken,
            };
            routed.push(entry);
            proof {
                assert forall|p: int|
                    0 <= p < j + 1 && (#[trigger] rows_of_partition(
                        columns@,
                        k,
                        partitions@,
                        order@,
                        p,
                    )).len() > 0 implies routed_has(routed@, p) by {
                    if p < j {
                        assert(routed_has(before, p));
                        let i = choose|i: int| 0 <= i < before.len() && before[i].partition == p;
                        assert(routed@[i].partition == p);
                    } else {
                        assert(routed@[before.len() as int].partition == p);
                    }
                }
            }
        }
        remaining = next;
        j += 1;
    }
    if remaining.len() > 0 {
        Err(CubeError::internal(String::from_str("Rows left unrouted after partitioning")))
    } else {
        Ok(routed)
    }
}

proof fn lemma_routed_between_all(
    columns: Seq<ColumnArray>,
    k: usize,
    partitions: Seq<IdRow<Partition>>,
    order: Seq<usize>,
)
    ensures
        rows_past(columns, k, partitions, order, 0) == order,
    decreases order.len(),
{
    if order.len() > 0 {
        lemma_routed_between_all(columns, k, partitions, order.drop_last());
        lemma_taker(columns, k, partitions, order.last());
        assert(order.drop_last().push(order.last()) == order);
    }
}

/// The number of rows of a batch: that of its first column, and none
/// without a column.
pub open spec fn batch_row_count(columns: Seq<ColumnArray>) -> nat {
    if columns.len() == 0 {
        0
    } else {
        columns[0]@.len()
    }
}

/// Whether a bound, where there is one, has for each of the `k` key columns
/// a cell of that column's type.
pub open spec fn bound_conforms(bound: Option<Row>, columns: Seq<ColumnArray>, k: usize) -> bool {
    bound matches Some(b) ==> {
        &&& k <= b.values@.len()
        &&& forall|j: int|
            0 <= j < k ==> ((#[trigger] b.values@[j]) is Int) == (columns[j] is Int)
    }
}

/// Whether the bounds of every partition conform to the key columns.
pub open spec fn bounds_conform(
    partitions: Seq<IdRow<Partition>>,
    columns: Seq<ColumnArray>,
    k: usize,
) -> bool {
    forall|j: int|
        0 <= j < partitions.len() ==> bound_conforms(
            (#[trigger] partitions[j]).row.min_value,
            columns,
            k,
        ) && bound_conforms(partitions[j].row.max_value, columns, k)
}

/// Whether a batch can be routed at all: its columns are equally long, it
/// has the `k` key columns, and the partitions' bounds conform to them.
pub open spec fn batch_routable(
    columns: Seq<ColumnArray>,
    k: usize,
    partitions: Seq<IdRow<Partition>>,
) -> bool {
    &&& batch_has_rows(columns, batch_row_count(columns))
    &&& k <= columns.len()
    &&& bounds_conform(partitions, columns, k)
}

/// What the error says when a batch cannot be routed, or when it can and
/// some row is taken by no partition.
pub open spec fn routing_failure(
    columns: Seq<ColumnArray>,
    k: usize,
    partitions: Seq<IdRow<Partition>>,
) -> Seq<char> {
    if k > columns.len() {
        "Sort key wider than the batch"@
    } else if !batch_has_rows(columns, batch_row_count(columns)) {
        "Columns of unequal length"@
    } else if !bounds_conform(partitions, columns, k) {
        "Malformed partition bounds"@
    } else {
        "Rows left unrouted after partitioning"@
    }
}

/// Whether every row of the batch is taken by some partition.
pub open spec fn all_rows_taken(
    columns: Seq<ColumnArray>,
    k: usize,
    partitions: Seq<IdRow<Partition>>,
) -> bool {
    forall|r: usize|
        r < batch_row_count(columns) ==> #[trigger] taker(columns, k, partitions, r)
            < partitions.len()
}

/// The number of rows of the batch if its columns are equally long.
pub fn batch_rows(columns: &Vec<ColumnArray>) -> (n: Option<usize>)
    ensures
        match n {
            Some(n) => n == batch_row_count(columns@) && batch_has_rows(columns@, n as nat),
            None => !batch_has_rows(columns@, batch_row_count(columns@)),
        },
{
    if columns.len() == 0 {
        return Some(0);
    }
    let n = columns[0].len();
    let mut c: usize = 1;
    while c < columns.len()
        invariant
            1 <= c <= columns.len(),
            n == columns@[0]@.len(),
            forall|j: int| 0 <= j < c ==> (#[trigger] columns@[j])@.len() == n,
        decreases columns.len() - c,
    {
        if columns[c].len() != n {
            return None;
        }
        c += 1;
    }
    Some(n)
}

/// Whether `bound`, if there is one, conforms to the key columns.
pub fn check_bound(bound: &Option<Row>, columns: &Vec<ColumnArray>, k: usize) -> (ok: bool)
    requires
        k <= columns@.len(),
    ensures
        ok == bound_conforms(*bound, columns@, k),
{
    match bound {
        None => true,
        Some(b) => {
            if b.values.len() < k {
                return false;
            }
            let mut j: usize = 0;
            while j < k
                invariant
                    j <= k,
                    k <= columns@.len(),
                    k <= b.values@.len(),
                    *bound == Some(*b),
                    forall|i: int|
                        0 <= i < j ==> ((#[trigger] b.values@[i]) is Int) == (columns@[i] is Int),
                decreases k - j,
            {
                let bound_is_int = match &b.values[j] {
                    TableValue::Int(_) => true,
                    TableValue::String(_) => false,
                };
                let column_is_int = match &columns[j] {
                    ColumnArray::Int(_) => true,
                    ColumnArray::Str(_) => false,
                };
                if bound_is_int != column_is_int {
                    assert((b.values@[j as int] is Int) != (columns@[j as int] is Int));
                    return false;
                }
                j += 1;
            }
            true
        },
    }
}

/// Whether the bounds of every partition conform to the key columns.
pub fn check_bounds(partitions: &Vec<IdRow<Partition>>, columns: &Vec<ColumnArray>, k: usize) -> (ok:
    bool)
    requires
        k <= columns@.len(),
    ensures
        ok == bounds_conform(partitions@, columns@, k),
{
    let mut j: usize = 0;
    while j < partitions.len()
        invariant
            j <= partitions.len(),
            k <= columns@.len(),
            forall|i: int|
                0 <= i < j ==> bound_conforms((#[trigger] partitions@[i]).row.min_value, columns@, k)
                    && bound_conforms(partitions@[i].row.max_value, columns@, k),
        decreases partitions.len() - j,
    {
        if !check_bound(&partitions[j].row.min_value, columns, k) {
            return false;
        }
        if !check_bound(&partitions[j].row.max_value, columns, k) {
            return false;
        }
        j += 1;
    }
    true
}

/// An order of the batch's rows holds each row position below `n` once and
/// nothing else.
pub proof fn lemma_row_order(order: Seq<usize>, n: usize)
    requires
        is_row_order(order, n),
    ensures
        order.len() == n,
        order.no_duplicates(),
        forall|r: usize| order.contains(r) <==> r < n,
{
    let all = first_rows(n);
    to_multiset_len(order);
    to_multiset_len(all);
    assert forall|r: usize| order.contains(r) <==> r < n by {
        to_multiset_contains(order, r);
        to_multiset_contains(all, r);
        if r < n {
            assert(all[r as int] == r);
        }
    }
    assert(all.no_duplicates());
    all.lemma_multiset_has_no_duplicates();
    order.lemma_multiset_has_no_duplicates_conv();
}

/// Sorts the rows of a batch by its first `k` columns and splits them among
/// `partitions`, each row going to the first partition in the list whose
/// range `(min, max]` holds its key. Fails with an internal error if the
/// batch cannot be routed or if some row is taken by no partition. On
/// success every row of the batch stands in the rows of exactly one
/// partition, once, with its key in that partition's range, and the rows of
/// each partition are sorted by key.
pub fn partition_batch(
    columns: &Vec<ColumnArray>,
    k: usize,
    partitions: &Vec<IdRow<Partition>>,
) -> (res: Result<Vec<RoutedRows>, CubeError>)
    ensures
        match res {
            Ok(routed) => {
                &&& batch_routable(columns@, k, partitions@)
                &&& all_rows_taken(columns@, k, partitions@)
                &&& exists|order: Seq<usize>|
                    {
                        &&& is_row_order(order, batch_row_count(columns@) as usize)
                        &&& sorted_by_key(columns@, k, order)
                        &&& #[trigger] routes_all(routed@, columns@, k, partitions@, order)
                    }
                &&& forall|r: usize|
                    r < batch_row_count(columns@) ==> #[trigger] routed_somewhere(routed@, r)
                &&& forall|i: int, j: int, r: usize|
                    0 <= i < routed@.len() && 0 <= j < routed@.len()
                        && #[trigger] routed@[i].rows@.contains(r)
                        && #[trigger] routed@[j].rows@.contains(r) ==> i == j
                &&& forall|i: int|
                    0 <= i < routed@.len() ==> (#[trigger] routed@[i]).rows@.no_duplicates()
                        && sorted_by_key(columns@, k, routed@[i].rows@)
                &&& forall|i: int, r: usize|
                    0 <= i < routed@.len() && #[trigger] routed@[i].rows@.contains(r) ==> in_range(
                        columns@,
                        k,
                        partitions@[routed@[i].partition as int].row.min_value,
                        partitions@[routed@[i].partition as int].row.max_value,
                        r,
                    )
            },
            Err(e) => {
                &&& e.kind == ErrorKind::Internal
                &&& e.message@ == routing_failure(columns@, k, partitions@)
                &&& !(batch_routable(columns@, k, partitions@) && all_rows_taken(
                    columns@,
                    k,
                    partitions@,
                ))
            },
        },
{
    if k > columns.len() {
        return Err(CubeError::internal(String::from_str("Sort key wider than the batch")));
    }
    let n = match batch_rows(columns) {
        Some(n) => n,
        None => {
            return Err(CubeError::internal(String::from_str("Columns of unequal length")));
        },
    };
    if !check_bounds(partitions, columns, k) {
        return Err(CubeError::internal(String::from_str("Malformed partition bounds")));
    }
    let order = sort_rows(columns, k, n);
    let ghost sorted = order@;
    proof {
        lemma_row_order(sorted, n);
        assert(rows_exist(columns@, sorted)) by {
            assert forall|i: int, c: int|
                0 <= i < sorted.len() && 0 <= c < columns@.len() implies (#[trigger] sorted[i]) < (
            #[trigger] columns@[c])@.len() by {
                assert(sorted.contains(sorted[i]));
            }
        }
        assert(bounds_fit(partitions@, k)) by {
            assert forall|j: int| 0 <= j < partitions@.len() implies bound_fits(
                (#[trigger] partitions@[j]).row.min_value,
                k,
            ) && bound_fits(partitions@[j].row.max_value, k) by {
                assert(bound_conforms(partitions@[j].row.min_value, columns@, k));
                assert(bound_conforms(partitions@[j].row.max_value, columns@, k));
            }
        }
    }
    let res = route_rows(columns, k, order, partitions);
    proof {
        let unrouted = unrouted_rows(columns@, k, partitions@, sorted);
        let len = partitions@.len() as int;
        match &res {
            Ok(routed) => {
                assert forall|r: usize| r < n implies #[trigger] taker(columns@, k, partitions@, r)
                    < len by {
                    lemma_routed_between_contains(columns@, k, partitions@, sorted, len, len + 1, r);
                    lemma_taker(columns@, k, partitions@, r);
                    if unrouted.contains(r) {
                        let i = choose|i: int| 0 <= i < unrouted.len() && unrouted[i] == r;
                    }
                }
                assert(routes_all(routed@, columns@, k, partitions@, sorted));
                lemma_each_row_routed_once(routed@, columns@, k, partitions@, sorted, n);
                lemma_routed_rows_in_range(routed@, columns@, k, partitions@, sorted);
                lemma_routed_rows_sorted(routed@, columns@, k, partitions@, sorted);
            },
            Err(_) => {
                let r = unrouted[0];
                assert(unrouted.contains(r));
                lemma_routed_between_contains(columns@, k, partitions@, sorted, len, len + 1, r);
                assert(r < n);
                assert(taker(columns@, k, partitions@, r) == len);
            },
        }
    }
    res
}

proof fn lemma_routed_between_no_duplicates(
    columns: Seq<ColumnArray>,
    k: usize,
    partitions: Seq<IdRow<Partition>>,
    order: Seq<usize>,
    lo: int,
    hi: int,
)
    requires
        order.no_duplicates(),
    ensures
        routed_between(columns, k, partitions, order, lo, hi).no_duplicates(),
    decreases order.len(),
{
    if order.len() > 0 {
        let x = order.last();
        let rest = routed_between(columns, k, partitions, order.drop_last(), lo, hi);
        lemma_routed_between_no_duplicates(columns, k, partitions, order.drop_last(), lo, hi);
        lemma_routed_between_contains(columns, k, partitions, order.drop_last(), lo, hi, x);
        if order.drop_last().contains(x) {
            let i = choose|i: int| 0 <= i < order.drop_last().len() && order.drop_last()[i] == x;
            assert(order[i] == order[order.len() - 1]);
        }
        assert forall|i: int| 0 <= i < rest.len() implies rest[i] != x by {
            assert(rest.contains(rest[i]));
        }
    }
}

proof fn lemma_routed_between_sorted(
    columns: Seq<ColumnArray>,
    k: usize,
    partitions: Seq<IdRow<Partition>>,
    order: Seq<usize>,
    lo: int,
    hi: int,
)
    requires
        sorted_by_key(columns, k, order),
    ensures
        sorted_by_key(columns, k, routed_between(columns, k, partitions, order, lo, hi)),
    decreases order.len(),
{
    let all = routed_between(columns, k, partitions, order, lo, hi);
    if order.len() > 0 {
        let x = order.last();
        let before = order.drop_last();
        let rest = routed_between(columns, k, partitions, before, lo, hi);
        assert(sorted_by_key(columns, k, before)) by {
            assert forall|i: int, j: int| 0 <= i < j < before.len() implies !row_before(
                columns,
                k,
                #[trigger] before[j],
                #[trigger] before[i],
            ) by {
                assert(before[i] == order[i] && before[j] == order[j]);
            }
        }
        lemma_routed_between_sorted(columns, k, partitions, before, lo, hi);
        assert forall|i: int, j: int| 0 <= i < j < all.len() implies !row_before(
            columns,
            k,
            #[trigger] all[j],
            #[trigger] all[i],
        ) by {
            if j < rest.len() {
                assert(all[i] == rest[i] && all[j] == rest[j]);
            } else {
                assert(all[j] == x);
                assert(all[i] == rest[i]);
                assert(rest.contains(rest[i]));
                lemma_routed_between_contains(columns, k, partitions, before, lo, hi, rest[i]);
                let at = choose|at: int| 0 <= at < before.len() && before[at] == rest[i];
                assert(order[at] == rest[i]);
                assert(order[order.len() - 1] == x);
            }
        }
    }
}

/// The rows of each partition come in the order of the sort: where the
/// order is sorted by key, so are the rows of every routed entry.
pub proof fn lemma_routed_rows_sorted(
    routed: Seq<RoutedRows>,
    columns: Seq<ColumnArray>,
    k: usize,
    partitions: Seq<IdRow<Partition>>,
    order: Seq<usize>,
)
    requires
        routes_all(routed, columns, k, partitions, order),
        sorted_by_key(columns, k, order),
    ensures
        forall|i: int|
            0 <= i < routed.len() ==> sorted_by_key(columns, k, (#[trigger] routed[i]).rows@),
{
    assert forall|i: int| 0 <= i < routed.len() implies sorted_by_key(
        columns,
        k,
        (#[trigger] routed[i]).rows@,
    ) by {
        let p = routed[i].partition as int;
        lemma_routed_between_sorted(columns, k, partitions, order, p, p + 1);
    }
}

/// Coverage: where a routing left no row over, every row of the batch
/// stands in the rows of exactly one partition, and there exactly once.
pub proof fn lemma_each_row_routed_once(
    routed: Seq<RoutedRows>,
    columns: Seq<ColumnArray>,
    k: usize,
    partitions: Seq<IdRow<Partition>>,
    order: Seq<usize>,
    n: usize,
)
    requires
        is_row_order(order, n),
        routes_all(routed, columns, k, partitions, order),
        unrouted_rows(columns, k, partitions, order).len() == 0,
    ensures
        forall|r: usize| r < n ==> #[trigger] routed_somewhere(routed, r),
        forall|i: int, j: int, r: usize|
            0 <= i < routed.len() && 0 <= j < routed.len() && #[trigger] routed[i].rows@.contains(r)
                && #[trigger] routed[j].rows@.contains(r) ==> i == j,
        forall|i: int|
            0 <= i < routed.len() ==> (#[trigger] routed[i]).rows@.no_duplicates() && rows_below(
                routed[i].rows@,
                n as nat,
            ),
{
    let len = partitions.len() as int;
    let unrouted = unrouted_rows(columns, k, partitions, order);
    lemma_row_order(order, n);
    assert forall|r: usize| r < n implies #[trigger] routed_somewhere(routed, r) by {
        let p = taker(columns, k, partitions, r);
        lemma_taker(columns, k, partitions, r);
        lemma_routed_between_contains(columns, k, partitions, order, len, len + 1, r);
        if unrouted.contains(r) {
            let i = choose|i: int| 0 <= i < unrouted.len() && unrouted[i] == r;
        }
        lemma_routed_between_contains(columns, k, partitions, order, p, p + 1, r);
        let mine = rows_of_partition(columns, k, partitions, order, p);
        assert(mine.contains(r));
        let at = choose|at: int| 0 <= at < mine.len() && mine[at] == r;
        assert(mine.len() > 0);
        assert(routed_has(routed, p));
        let i = choose|i: int| 0 <= i < routed.len() && (#[trigger] routed[i]).partition == p;
        assert(routed[i].rows@.contains(r));
    }
    assert forall|i: int, j: int, r: usize|
        0 <= i < routed.len() && 0 <= j < routed.len() && #[trigger] routed[i].rows@.contains(r)
            && #[trigger] routed[j].rows@.contains(r) implies i == j by {
        let pi = routed[i].partition as int;
        let pj = routed[j].partition as int;
        lemma_routed_between_contains(columns, k, partitions, order, pi, pi + 1, r);
        lemma_routed_between_contains(columns, k, partitions, order, pj, pj + 1, r);
        assert(pi == pj);
        if i < j {
            assert(routed[i].partition < routed[j].partition);
        }
        if j < i {
            assert(routed[j].partition < routed[i].partition);
        }
    }
    assert forall|i: int| 0 <= i < routed.len() implies (#[trigger] routed[i]).rows@.no_duplicates()
        && rows_below(routed[i].rows@, n as nat) by {
        let p = routed[i].partition as int;
        lemma_routed_between_no_duplicates(columns, k, partitions, order, p, p + 1);
        let rows = routed[i].rows@;
        assert forall|x: int| 0 <= x < rows.len() implies (#[trigger] rows[x]) < n by {
            assert(rows.contains(rows[x]));
            lemma_routed_between_contains(columns, k, partitions, order, p, p + 1, rows[x]);
        }
    }
}

/// Correctness: every row routed to a partition has its key in that
/// partition's range, strictly above the minimum and not above the maximum,
/// where the bound is present.
pub proof fn lemma_routed_rows_in_range(
    routed: Seq<RoutedRows>,
    columns: Seq<ColumnArray>,
    k: usize,
    partitions: Seq<IdRow<Partition>>,
    order: Seq<usize>,
)
    requires
        routes_all(routed, columns, k, partitions, order),
    ensures
        forall|i: int, r: usize|
            0 <= i < routed.len() && #[trigger] routed[i].rows@.contains(r) ==> {
                let p = partitions[routed[i].partition as int].row;
                &&& (p.min_value matches Some(lo) ==> bound_before_row(lo@, columns, k, r))
                &&& (p.max_value matches Some(hi) ==> !bound_before_row(hi@, columns, k, r))
            },
{
    assert forall|i: int, r: usize|
        0 <= i < routed.len() && #[trigger] routed[i].rows@.contains(r) implies in_range(
        columns,
        k,
        partitions[routed[i].partition as int].row.min_value,
        partitions[routed[i].partition as int].row.max_value,
        r,
    ) by {
        let p = routed[i].partition as int;
        lemma_routed_between_contains(columns, k, partitions, order, p, p + 1, r);
        lemma_taker(columns, k, partitions, r);
        assert(takes(columns, k, partitions, p, r));
    }
}

/// Where one partition alone takes a row, the row is routed to it, wherever
/// that partition stands in the list: with ranges that do not overlap, the
/// order of the partitions does not change what each receives.
pub proof fn lemma_sole_taker(
    columns: Seq<ColumnArray>,
    k: usize,
    partitions: Seq<IdRow<Partition>>,
    r: usize,
    j: int,
)
    requires
        0 <= j < partitions.len(),
        takes(columns, k, partitions, j, r),
        forall|i: int|
            0 <= i < partitions.len() && i != j ==> !takes(columns, k, partitions, i, r),
    ensures
        taker(columns, k, partitions, r) == j,
{
    lemma_taker(columns, k, partitions, r);
}

/// Whether the partitions' ranges follow one another without a gap: the
/// first has no minimum, the last no maximum, and each one's minimum is its
/// predecessor's maximum.
pub open spec fn bounds_chained(partitions: Seq<IdRow<Partition>>, k: usize) -> bool {
    &&& partitions.len() > 0
    &&& partitions[0].row.min_value is None
    &&& partitions[partitions.len() - 1].row.max_value is None
    &&& forall|j: int|
        0 <= j < partitions.len() - 1 ==> {
            &&& (#[trigger] partitions[j]).row.max_value matches Some(hi)
            &&& partitions[j + 1].row.min_value matches Some(lo)
            &&& key_eq(hi@, lo@, k as int)
        }
}

proof fn lemma_chain_takes_from(
    columns: Seq<ColumnArray>,
    k: usize,
    partitions: Seq<IdRow<Partition>>,
    r: usize,
    j: int,
) -> (p: int)
    requires
        bounds_chained(partitions, k),
        0 <= j < partitions.len(),
        partitions[j].row.min_value matches Some(lo) ==> bound_before_row(lo@, columns, k, r),
    ensures
        j <= p < partitions.len(),
        takes(columns, k, partitions, p, r),
    decreases partitions.len() - j,
{
    match partitions[j].row.max_value {
        None => j,
        Some(hi) => {
            if bound_before_row(hi@, columns, k, r) {
                assert(j < partitions.len() - 1);
                let lo = partitions[j + 1].row.min_value->0;
                lemma_key_eq_congruent(
                    hi@,
                    lo@,
                    row_key(batch_view(columns), r as int, k as int),
                    k as int,
                );
                lemma_chain_takes_from(columns, k, partitions, r, j + 1)
            } else {
                j
            }
        },
    }
}

/// Partitions whose ranges follow one another without a gap take every row.
pub proof fn lemma_chain_takes_every_row(
    columns: Seq<ColumnArray>,
    k: usize,
    partitions: Seq<IdRow<Partition>>,
)
    requires
        bounds_chained(partitions, k),
    ensures
        all_rows_taken(columns, k, partitions),
{
    assert forall|r: usize| r < batch_row_count(columns) implies #[trigger] taker(
        columns,
        k,
        partitions,
        r,
    ) < partitions.len() by {
        let p = lemma_chain_takes_from(columns, k, partitions, r, 0);
        lemma_taker(columns, k, partitions, r);
    }
}

/// Whether two bounds agree on their first `k` cells.
pub fn key_equal(a: &Row, b: &Row, k: usize) -> (same: bool)
    requires
        k <= a@.len(),
        k <= b@.len(),
    ensures
        same == key_eq(a@, b@, k as int),
{
    let mut j: usize = 0;
    while j < k
        invariant
            j <= k,
            k <= a@.len(),
            k <= b@.len(),
            forall|i: int| 0 <= i < j ==> a@[i] == b@[i],
        decreases k - j,
    {
        assert(a@[j as int] == a.values@[j as int]@);
        assert(b@[j as int] == b.values@[j as int]@);
        let same = match (&a.values[j], &b.values[j]) {
            (TableValue::Int(x), TableValue::Int(y)) => *x == *y,
            (TableValue::String(x), TableValue::String(y)) => *x == *y,
            _ => false,
        };
        if !same {
            return false;
        }
        j += 1;
    }
    true
}

/// Whether the partitions' ranges follow one another without a gap, each
/// bound holding a cell for each of the `k` key columns.
pub fn check_chained(partitions: &Vec<IdRow<Partition>>, k: usize) -> (ok: bool)
    ensures
        ok == (bounds_chained(partitions@, k) && bounds_fit(partitions@, k)),
{
    let n = partitions.len();
    if n == 0 {
        return false;
    }
    if partitions[0].row.min_value.is_some() || partitions[n - 1].row.max_value.is_some() {
        return false;
    }
    let mut j: usize = 0;
    while j < n - 1
        invariant
            j <= n - 1,
            n == partitions@.len(),
            partitions@[0].row.min_value is None,
            partitions@[n - 1].row.max_value is None,
            forall|i: int|
                0 <= i < j ==> {
                    &&& (#[trigger] partitions@[i]).row.max_value matches Some(hi)
                    &&& partitions@[i + 1].row.min_value matches Some(lo)
                    &&& k <= hi@.len()
                    &&& k <= lo@.len()
                    &&& key_eq(hi@, lo@, k as int)
                },
        decreases n - 1 - j,
    {
        let linked = match (&partitions[j].row.max_value, &partitions[j + 1].row.min_value) {
            (Some(hi), Some(lo)) => hi.values.len() >= k && lo.values.len() >= k && key_equal(
                hi,
                lo,
                k,
            ),
            _ => false,
        };
        if !linked {
            proof {
                if bounds_chained(partitions@, k) && bounds_fit(partitions@, k) {
                    assert(bound_fits(partitions@[j as int].row.max_value, k));
                    assert(bound_fits(partitions@[j + 1].row.min_value, k));
                }
            }
            return false;
        }
        j += 1;
    }
    proof {
        assert forall|i: int| 0 <= i < partitions@.len() implies bound_fits(
            (#[trigger] partitions@[i]).row.min_value,
            k,
        ) && bound_fits(partitions@[i].row.max_value, k) by {
            if i > 0 {
                assert(partitions@[i - 1].row.max_value is Some);
            }
            if i < n - 1 {
                assert(partitions@[i].row.max_value is Some);
            }
        }
    }
    true
}

} // verus!
