//! Ingestion: routes a fresh batch into the partitions of every index of
//! its table and writes one chunk per partition that receives rows.

use crate::chunk_store::{same_index, ChunkStore};
use crate::columns::{batch_view, is_row_order, ColumnArray};
use crate::error::{CubeError, ErrorKind};
use crate::metastore::{Column, IdRow, Index, Partition};
use crate::protocol::{ends_on_protocol_error, protocol_error, Progress, Reply, Request};
use crate::remap::{
    first_missing, indexes_within, lemma_first_missing, lemma_first_named,
    missing_column_message, remap_columns, remapped, source_of,
};
use crate::router::{
    all_rows_taken, batch_routable, batch_row_count, partition_batch, routes_all,
    routing_failure, RoutedRows,
};
use crate::sorting::sorted_by_key;
use vstd::prelude::*;

verus! {

/// Routing a batch into the partitions of one index: where the operation
/// stands.
#[derive(Debug, PartialEq, Eq)]
pub enum PartitionRows {
    /// The catalog is looking the index up.
    AwaitIndex { index_id: u64, columns: Vec<ColumnArray> },
    /// The catalog is listing the active partitions of the index.
    AwaitPartitions { index: Index, columns: Vec<ColumnArray> },
    /// A chunk is being written; `pending` are the routed rows still to be
    /// written, and `started` counts the uploads started so far.
    Writing { index: Index, pending: Vec<RoutedRows>, started: usize },
}

/// Routing a batch into every index of a table: where the operation stands.
#[derive(Debug, PartialEq, Eq)]
pub enum PartitionData {
    /// The catalog is listing the indexes of the table.
    AwaitIndexes { rows: Vec<ColumnArray>, columns: Vec<Column> },
    /// The batch is being routed into index `at`; `started` counts the
    /// uploads started for the indexes before it.
    Routing {
        indexes: Vec<IdRow<Index>>,
        at: usize,
        rows: Vec<ColumnArray>,
        columns: Vec<Column>,
        started: usize,
    },
}

/// Whether `routed` is a routing of the batch, sorted by its first `k`
/// columns, among `partitions`.
pub open spec fn is_routing(
    routed: Seq<RoutedRows>,
    columns: Seq<ColumnArray>,
    k: usize,
    partitions: Seq<IdRow<Partition>>,
) -> bool {
    exists|order: Seq<usize>|
        {
            &&& is_row_order(order, batch_row_count(columns) as usize)
            &&& sorted_by_key(columns, k, order)
            &&& #[trigger] routes_all(routed, columns, k, partitions, order)
        }
}

/// Whether `out` goes on to write the first of `pending`, or ends the
/// operation with `started` where nothing is pending.
pub open spec fn writes_next(
    index: Index,
    pending: Seq<RoutedRows>,
    started: usize,
    out: Progress<PartitionRows, usize>,
) -> bool {
    if pending.len() == 0 {
        out == Progress::<PartitionRows, usize>::Done(Ok(started))
    } else {
        &&& out matches Progress::Next(
            PartitionRows::Writing { index: layout, pending: rest, started: count },
            Request::AddChunkColumns { index: target, partition_id, columns },
        )
        &&& same_index(layout, index)
        &&& same_index(target, index)
        &&& rest@ == pending.drop_first()
        &&& count == started
        &&& partition_id == pending[0].partition_id
        &&& columns == pending[0].columns
    }
}

/// Whether the columns describe the batch: one per buffer, each with an
/// index inside the batch.
pub open spec fn layout_fits(rows: Seq<ColumnArray>, columns: Seq<Column>) -> bool {
    &&& columns.len() == rows.len()
    &&& indexes_within(columns, rows.len())
}

/// Whether `out` goes on to route the batch into index `at`, or ends the
/// operation with `started` where no index is left.
pub open spec fn routes_next(
    indexes: Seq<IdRow<Index>>,
    at: int,
    rows: Seq<ColumnArray>,
    columns: Seq<Column>,
    started: usize,
    out: Progress<PartitionData, usize>,
) -> bool {
    if at >= indexes.len() {
        out == Progress::<PartitionData, usize>::Done(Ok(started))
    } else if !layout_fits(rows, columns) {
        &&& out matches Progress::Done(Err(e))
        &&& e.kind == ErrorKind::Internal
        &&& e.message@ == "Columns do not describe the batch"@
    } else {
        let wanted = indexes[at].row.columns@;
        let missing = first_missing(columns, wanted, 0);
        if missing < wanted.len() {
            &&& out matches Progress::Done(Err(e))
            &&& e.kind == ErrorKind::NotFound
            &&& e.message@ == missing_column_message(wanted[missing].name@)
        } else {
            &&& out matches Progress::Next(
                PartitionData::Routing { indexes: all, at: position, rows: batch, columns: layout, started: count },
                Request::PartitionRows { index_id, columns: laid_out },
            )
            &&& all@ == indexes
            &&& position == at
            &&& batch@ == rows
            &&& layout@ == columns
            &&& count == started
            &&& index_id == indexes[at].id
            &&& batch_view(laid_out@) == remapped(batch_view(rows), columns, wanted)
        }
    }
}

impl PartitionRows {
    /// The step that reply `reply` makes from this state.
    pub open spec fn step(self, reply: Reply, out: Progress<PartitionRows, usize>) -> bool {
        match (self, reply) {
            (_, Reply::Failed(e)) => out == Progress::<PartitionRows, usize>::Done(Err(e)),
            (PartitionRows::AwaitIndex { index_id, columns }, Reply::Index(index)) => out
                == Progress::<PartitionRows, usize>::Next(
                PartitionRows::AwaitPartitions { index: index.row, columns },
                Request::GetActivePartitionsByIndexId { index_id },
            ),
            (PartitionRows::AwaitPartitions { index, columns }, Reply::Partitions(partitions)) => {
                let k = index.sort_key_size;
                if k <= columns@.len() && batch_routable(columns@, k as usize, partitions@)
                    && all_rows_taken(columns@, k as usize, partitions@) {
                    exists|routed: Seq<RoutedRows>|
                        {
                            &&& #[trigger] is_routing(routed, columns@, k as usize, partitions@)
                            &&& writes_next(index, routed, 0, out)
                        }
                } else {
                    &&& out matches Progress::Done(Err(e))
                    &&& e.kind == ErrorKind::Internal
                    &&& e.message@ == if k > columns@.len() {
                        "Sort key wider than the batch"@
                    } else {
                        routing_failure(columns@, k as usize, partitions@)
                    }
                }
            },
            (PartitionRows::Writing { index, pending, started }, Reply::Done) => if started
                < usize::MAX {
                writes_next(index, pending@, (started + 1) as usize, out)
            } else {
                &&& out matches Progress::Done(Err(e))
                &&& e.kind == ErrorKind::Internal
                &&& e.message@ == "Too many uploads"@
            },
            _ => ends_on_protocol_error(out),
        }
    }

    fn write_next(index: Index, pending: Vec<RoutedRows>, started: usize) -> (out: Progress<
        PartitionRows,
        usize,
    >)
        ensures
            writes_next(index, pending@, started, out),
    {
        let mut pending = pending;
        if pending.len() == 0 {
            return Progress::Done(Ok(started));
        }
        let ghost all = pending@;
        let first = pending.remove(0);
        assert(pending@ == all.drop_first());
        let target = index.duplicate();
        Progress::Next(
            PartitionRows::Writing { index, pending, started },
            Request::AddChunkColumns {
                index: target,
                partition_id: first.partition_id,
                columns: first.columns,
            },
        )
    }

    /// Takes the reply to the last request and says how the operation goes
    /// on: with the index and its active partitions known, the batch is
    /// sorted by the index's sort key and routed, and one chunk is written
    /// for each partition that receives rows, in the order of the
    /// partitions. The operation ends with the number of uploads started. A
    /// batch that cannot be routed, or a row that no partition takes, ends
    /// it with an internal error before any chunk is written.
    pub fn resume(self, reply: Reply) -> (out: Progress<PartitionRows, usize>)
        ensures
            self.step(reply, out),
    {
        match (self, reply) {
            (_, Reply::Failed(e)) => Progress::Done(Err(e)),
            (PartitionRows::AwaitIndex { index_id, columns }, Reply::Index(index)) => {
                Progress::Next(
                    PartitionRows::AwaitPartitions { index: index.row, columns },
                    Request::GetActivePartitionsByIndexId { index_id },
                )
            },
            (PartitionRows::AwaitPartitions { index, columns }, Reply::Partitions(partitions)) => {
                if index.sort_key_size > columns.len() as u64 {
                    return Progress::Done(
                        Err(CubeError::internal(String::from_str("Sort key wider than the batch"))),
                    );
                }
                let k = index.sort_key_size as usize;
                match partition_batch(&columns, k, &partitions) {
                    Err(e) => Progress::Done(Err(e)),
                    Ok(routed) => {
                        assert(is_routing(routed@, columns@, k, partitions@));
                        Self::write_next(index, routed, 0)
                    },
                }
            },
            (PartitionRows::Writing { index, pending, started }, Reply::Done) => {
                if started == usize::MAX {
                    return Progress::Done(
                        Err(CubeError::internal(String::from_str("Too many uploads"))),
                    );
                }
                Self::write_next(index, pending, started + 1)
            },
            _ => protocol_error(),
        }
    }
}

/// Whether the columns describe the batch: one per buffer, each with an
/// index inside the batch.
pub fn check_layout(rows: &Vec<ColumnArray>, columns: &Vec<Column>) -> (ok: bool)
    ensures
        ok == layout_fits(rows@, columns@),
{
    if columns.len() != rows.len() {
        return false;
    }
    let mut i: usize = 0;
    while i < columns.len()
        invariant
            i <= columns@.len(),
            forall|j: int| 0 <= j < i ==> (#[trigger] columns@[j]).column_index < rows@.len(),
        decreases columns.len() - i,
    {
        if columns[i].column_index >= rows.len() {
            return false;
        }
        i += 1;
    }
    true
}

impl PartitionData {
    /// The step that reply `reply` makes from this state.
    pub open spec fn step(self, reply: Reply, out: Progress<PartitionData, usize>) -> bool {
        match (self, reply) {
            (_, Reply::Failed(e)) => out == Progress::<PartitionData, usize>::Done(Err(e)),
            (PartitionData::AwaitIndexes { rows, columns }, Reply::Indexes(indexes)) => routes_next(
                indexes@,
                0,
                rows@,
                columns@,
                0,
                out,
            ),
            (
                PartitionData::Routing { indexes, at, rows, columns, started },
                Reply::Started(n),
            ) => if at >= indexes@.len() {
                ends_on_protocol_error(out)
            } else if started + n <= usize::MAX {
                routes_next(indexes@, at + 1, rows@, columns@, (started + n) as usize, out)
            } else {
                &&& out matches Progress::Done(Err(e))
                &&& e.kind == ErrorKind::Internal
                &&& e.message@ == "Too many uploads"@
            },
            _ => ends_on_protocol_error(out),
        }
    }

    fn route_next(
        indexes: Vec<IdRow<Index>>,
        at: usize,
        rows: Vec<ColumnArray>,
        columns: Vec<Column>,
        started: usize,
    ) -> (out: Progress<PartitionData, usize>)
        ensures
            routes_next(indexes@, at as int, rows@, columns@, started, out),
    {
        if at >= indexes.len() {
            return Progress::Done(Ok(started));
        }
        if !check_layout(&rows, &columns) {
            return Progress::Done(
                Err(CubeError::internal(String::from_str("Columns do not describe the batch"))),
            );
        }
        match remap_columns(&rows, &columns, &indexes[at].row.columns) {
            Err(e) => Progress::Done(Err(e)),
            Ok(laid_out) => {
                let index_id = indexes[at].id;
                proof {
                    let wanted = indexes@[at as int].row.columns@;
                    let there = remapped(batch_view(rows@), columns@, wanted);
                    lemma_first_missing(columns@, wanted, 0);
                    assert forall|j: int| 0 <= j < wanted.len() implies batch_view(laid_out@)[j]
                        == there[j] by {
                        let p = source_of(columns@, wanted, j);
                        lemma_first_named(columns@, wanted[j].name@, 0);
                        assert(0 <= p < columns@.len());
                        assert(columns@[p].column_index < rows@.len());
                        assert(laid_out@[j]@ == rows@[columns@[p].column_index as int]@);
                    }
                    assert(batch_view(laid_out@) =~= there);
                }
                Progress::Next(
                    PartitionData::Routing { indexes, at, rows, columns, started },
                    Request::PartitionRows { index_id, columns: laid_out },
                )
            },
        }
    }

    /// Takes the reply to the last request and says how the operation goes
    /// on: for each index of the table in turn, the batch is laid out in
    /// the index's column order and routed into its partitions. The
    /// operation ends with the number of uploads started over all indexes,
    /// or with the error of the first index that fails.
    pub fn resume(self, reply: Reply) -> (out: Progress<PartitionData, usize>)
        ensures
            self.step(reply, out),
    {
        match (self, reply) {
            (_, Reply::Failed(e)) => Progress::Done(Err(e)),
            (PartitionData::AwaitIndexes { rows, columns }, Reply::Indexes(indexes)) => {
                Self::route_next(indexes, 0, rows, columns, 0)
            },
            (
                PartitionData::Routing { indexes, at, rows, columns, started },
                Reply::Started(n),
            ) => {
                if at >= indexes.len() {
                    return protocol_error();
                }
                if n > usize::MAX - started {
                    return Progress::Done(
                        Err(CubeError::internal(String::from_str("Too many uploads"))),
                    );
                }
                Self::route_next(indexes, at + 1, rows, columns, started + n)
            },
            _ => protocol_error(),
        }
    }
}

impl ChunkStore {
    /// Starts routing the batch `columns`, laid out in the column order of
    /// index `index_id`, into the active partitions of that index: first
    /// the catalog looks the index up.
    pub fn partition_rows(&self, index_id: u64, columns: Vec<ColumnArray>) -> (start: (
        PartitionRows,
        Request,
    ))
        ensures
            start.0 == (PartitionRows::AwaitIndex { index_id, columns }),
            start.1 == (Request::GetIndex { index_id }),
    {
        (PartitionRows::AwaitIndex { index_id, columns }, Request::GetIndex { index_id })
    }

    /// Starts routing the batch `rows`, described by `columns`, into each of
    /// `indexes` in turn.
    pub fn build_index_chunks(
        &self,
        indexes: Vec<IdRow<Index>>,
        rows: Vec<ColumnArray>,
        columns: Vec<Column>,
    ) -> (out: Progress<PartitionData, usize>)
        ensures
            routes_next(indexes@, 0, rows@, columns@, 0, out),
    {
        PartitionData::route_next(indexes, 0, rows, columns, 0)
    }

    /// Starts ingesting the batch `rows`, described by `columns`, into table
    /// `table_id`: first the catalog lists the indexes of the table.
    pub fn partition_data(&self, table_id: u64, rows: Vec<ColumnArray>, columns: Vec<Column>) -> (start:
        (PartitionData, Request))
        ensures
            start.0 == (PartitionData::AwaitIndexes { rows, columns }),
            start.1 == (Request::GetTableIndexes { table_id }),
    {
        (PartitionData::AwaitIndexes { rows, columns }, Request::GetTableIndexes { table_id })
    }
}

} // verus!
