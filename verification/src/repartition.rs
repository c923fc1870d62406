//! Repartitioning: reads the chunks of an inactive partition back, routes
//! their rows anew among the partitions that are active now, and swaps the
//! old chunks for the new ones in one step.

use crate::chunk_store::{AddChunkColumns, ChunkStore, DownloadChunk, GetChunkColumns};
use crate::columns::{column_joinable, concat_column, joined_column, ColumnArray};
use crate::data_frame::DataFrame;
use crate::error::{CubeError, ErrorKind};
use crate::ingest::{PartitionData, PartitionRows};
use crate::metastore::{Chunk, IdRow, Index, WAL};
use crate::naming::{decimal, decimal_string};
use crate::protocol::{
    collect_uploads, ends_on_protocol_error, first_failed, protocol_error, uploaded_ids,
    ChunkUploadJob, Progress, Reply, Request,
};
use crate::wal_store::{AddWal, GetWal};
use vstd::prelude::*;

verus! {

/// Repartitioning a partition: where the operation stands.
#[derive(Debug, PartialEq, Eq)]
pub enum Repartition {
    /// The catalog is looking the partition up.
    AwaitPartition { partition_id: u64 },
    /// The catalog is listing the chunks of the partition.
    AwaitChunks { partition_id: u64, index_id: u64 },
    /// Chunk `at` is being decoded; `batches` holds what the chunks before
    /// it gave.
    Reading {
        index_id: u64,
        old_ids: Vec<u64>,
        chunks: Vec<IdRow<Chunk>>,
        at: usize,
        batches: Vec<Vec<ColumnArray>>,
    },
    /// The unified batch is being routed and written as new chunks.
    Routing { old_ids: Vec<u64> },
    /// The uploads of the new chunks are being waited for.
    Joining { old_ids: Vec<u64>, expected: usize },
    /// The catalog is swapping the old chunks for the new ones.
    Swapping { old_ids: Vec<u64>, new_ids: Vec<u64> },
}

/// What the error says when partition `partition_id` is active.
pub open spec fn active_partition_message(partition_id: u64) -> Seq<char> {
    "Tried to repartition active partition: "@ + decimal(partition_id as nat)
}

/// The identities of `chunks`, in order.
pub open spec fn chunk_ids(chunks: Seq<IdRow<Chunk>>) -> Seq<u64> {
    Seq::new(chunks.len(), |i: int| chunks[i].id)
}

/// Whether the batches can be joined into one: there is one at least, and
/// each column of the first is there, with the same type, in all of them.
pub open spec fn batches_joinable(batches: Seq<Vec<ColumnArray>>) -> bool {
    &&& batches.len() > 0
    &&& forall|c: int| 0 <= c < batches[0]@.len() ==> #[trigger] column_joinable(batches, c)
}

/// Whether `out` asks the catalog to swap `old_ids` for `new_ids`.
pub open spec fn swaps(old_ids: Seq<u64>, new_ids: Seq<u64>, out: Progress<Repartition, ()>) -> bool {
    &&& out matches Progress::Next(
        Repartition::Swapping { old_ids: old_kept, new_ids: new_kept },
        Request::SwapChunks { old_ids: dropped, new_ids: installed },
    )
    &&& old_kept@ == old_ids
    &&& dropped@ == old_ids
    &&& new_kept@ == new_ids
    &&& installed@ == new_ids
}

/// Whether `out` routes the batches, joined into one, into the partitions
/// of index `index_id`; without a batch there is nothing to route and the
/// old chunks are swapped for none.
pub open spec fn routes_unified(
    index_id: u64,
    old_ids: Seq<u64>,
    batches: Seq<Vec<ColumnArray>>,
    out: Progress<Repartition, ()>,
) -> bool {
    if batches.len() == 0 {
        swaps(old_ids, Seq::empty(), out)
    } else if !batches_joinable(batches) {
        &&& out matches Progress::Done(Err(e))
        &&& e.kind == ErrorKind::Internal
        &&& e.message@ == "Chunks of different layout"@
    } else {
        &&& out matches Progress::Next(
            Repartition::Routing { old_ids: kept },
            Request::PartitionRows { index_id: target, columns },
        )
        &&& kept@ == old_ids
        &&& target == index_id
        &&& columns@.len() == batches[0]@.len()
        &&& forall|c: int|
            0 <= c < columns@.len() ==> (#[trigger] columns@[c])@ == joined_column(batches, c)
    }
}

/// Whether `out` goes on to decode chunk `at`, or, with every chunk
/// decoded, to route what they gave.
pub open spec fn reads_next(
    index_id: u64,
    old_ids: Seq<u64>,
    chunks: Seq<IdRow<Chunk>>,
    at: int,
    batches: Seq<Vec<ColumnArray>>,
    out: Progress<Repartition, ()>,
) -> bool {
    if at < chunks.len() {
        &&& out matches Progress::Next(
            Repartition::Reading {
                index_id: target,
                old_ids: kept,
                chunks: all,
                at: position,
                batches: read,
            },
            Request::GetChunkColumns { chunk },
        )
        &&& target == index_id
        &&& kept@ == old_ids
        &&& all@ == chunks
        &&& position == at
        &&& read@ == batches
        &&& chunk == chunks[at]
    } else {
        routes_unified(index_id, old_ids, batches, out)
    }
}

/// Whether the batches can be joined into one.
pub fn check_joinable(batches: &Vec<Vec<ColumnArray>>) -> (ok: bool)
    ensures
        ok == batches_joinable(batches@),
{
    if batches.len() == 0 {
        return false;
    }
    let width = batches[0].len();
    let mut c: usize = 0;
    while c < width
        invariant
            c <= width,
            batches@.len() > 0,
            width == batches@[0]@.len(),
            forall|d: int| 0 <= d < c ==> #[trigger] column_joinable(batches@, d),
        decreases width - c,
    {
        let mut b: usize = 0;
        while b < batches.len()
            invariant
                b <= batches@.len(),
                c < width,
                batches@.len() > 0,
                width == batches@[0]@.len(),
                forall|a: int|
                    0 <= a < b ==> c < (#[trigger] batches@[a])@.len() && batches@[a]@[c as int].column_type()
                        == batches@[0]@[c as int].column_type(),
            decreases batches.len() - b,
        {
            if batches[b].len() <= c {
                assert(!column_joinable(batches@, c as int));
                return false;
            }
            let same = match (&batches[b][c], &batches[0][c]) {
                (ColumnArray::Int(_), ColumnArray::Int(_)) => true,
                (ColumnArray::Str(_), ColumnArray::Str(_)) => true,
                _ => false,
            };
            if !same {
                assert(!column_joinable(batches@, c as int));
                return false;
            }
            b += 1;
        }
        c += 1;
    }
    true
}

/// Joins the batches into one: each column of the result is that column of
/// every batch, end to end in batch order.
pub fn concat_batches(batches: &Vec<Vec<ColumnArray>>) -> (out: Vec<ColumnArray>)
    requires
        batches_joinable(batches@),
    ensures
        out@.len() == batches@[0]@.len(),
        forall|c: int|
            0 <= c < out@.len() ==> (#[trigger] out@[c])@ == joined_column(batches@, c)
                && out@[c].column_type() == batches@[0]@[c].column_type(),
{
    let width = batches[0].len();
    let mut out: Vec<ColumnArray> = Vec::new();
    let mut c: usize = 0;
    while c < width
        invariant
            c <= width,
            batches_joinable(batches@),
            width == batches@[0]@.len(),
            out@.len() == c,
            forall|d: int|
                0 <= d < c ==> (#[trigger] out@[d])@ == joined_column(batches@, d)
                    && out@[d].column_type() == batches@[0]@[d].column_type(),
        decreases width - c,
    {
        assert(column_joinable(batches@, c as int));
        out.push(concat_column(batches, c));
        c += 1;
    }
    out
}

fn copy_ids(ids: &Vec<u64>) -> (out: Vec<u64>)
    ensures
        out@ == ids@,
{
    let mut out: Vec<u64> = Vec::new();
    let mut i: usize = 0;
    while i < ids.len()
        invariant
            i <= ids@.len(),
            out@ == ids@.take(i as int),
        decreases ids.len() - i,
    {
        out.push(ids[i]);
        assert(ids@.take(i + 1) == ids@.take(i as int).push(ids@[i as int]));
        i += 1;
    }
    assert(ids@.take(i as int) == ids@);
    out
}

fn ids_of(chunks: &Vec<IdRow<Chunk>>) -> (out: Vec<u64>)
    ensures
        out@ == chunk_ids(chunks@),
{
    let mut out: Vec<u64> = Vec::new();
    let mut i: usize = 0;
    while i < chunks.len()
        invariant
            i <= chunks@.len(),
            out@.len() == i,
            forall|j: int| 0 <= j < i ==> #[trigger] out@[j] == chunks@[j].id,
        decreases chunks.len() - i,
    {
        out.push(chunks[i].id);
        i += 1;
    }
    assert(out@ =~= chunk_ids(chunks@));
    out
}

impl Repartition {
    /// The step that reply `reply` makes from this state.
    pub open spec fn step(self, reply: Reply, out: Progress<Repartition, ()>) -> bool {
        match (self, reply) {
            (_, Reply::Failed(e)) => out == Progress::<Repartition, ()>::Done(Err(e)),
            (Repartition::AwaitPartition { partition_id }, Reply::Partition(partition)) => if partition.row.active {
                &&& out matches Progress::Done(Err(e))
                &&& e.kind == ErrorKind::Precondition
                &&& e.message@ == active_partition_message(partition.id)
            } else {
                out == Progress::<Repartition, ()>::Next(
                    Repartition::AwaitChunks { partition_id, index_id: partition.row.index_id },
                    Request::GetChunksByPartition { partition_id, active_only: false },
                )
            },
            (Repartition::AwaitChunks { partition_id, index_id }, Reply::Chunks(chunks)) => reads_next(
                index_id,
                chunk_ids(chunks@),
                chunks@,
                0,
                Seq::empty(),
                out,
            ),
            (
                Repartition::Reading { index_id, old_ids, chunks, at, batches },
                Reply::Batches(more),
            ) => if at < chunks@.len() {
                reads_next(index_id, old_ids@, chunks@, at + 1, batches@ + more@, out)
            } else {
                ends_on_protocol_error(out)
            },
            (Repartition::Routing { old_ids }, Reply::Started(n)) => {
                &&& out matches Progress::Next(
                    Repartition::Joining { old_ids: kept, expected },
                    Request::JoinUploads,
                )
                &&& kept@ == old_ids@
                &&& expected == n
            },
            (Repartition::Joining { old_ids, expected }, Reply::Uploads(outcomes)) => {
                let failed = first_failed(outcomes@, 0);
                if outcomes@.len() != expected {
                    &&& out matches Progress::Done(Err(e))
                    &&& e.kind == ErrorKind::Internal
                    &&& e.message@ == "Uploads unaccounted for"@
                } else if failed < outcomes@.len() {
                    out == Progress::<Repartition, ()>::Done(Err(outcomes@[failed]->Err_0))
                } else {
                    swaps(old_ids@, uploaded_ids(outcomes@), out)
                }
            },
            (Repartition::Swapping { old_ids, new_ids }, Reply::Done) => out == Progress::<
                Repartition,
                (),
            >::Done(Ok(())),
            _ => ends_on_protocol_error(out),
        }
    }

    fn swap(old_ids: Vec<u64>, new_ids: Vec<u64>) -> (out: Progress<Repartition, ()>)
        ensures
            swaps(old_ids@, new_ids@, out),
    {
        let dropped = copy_ids(&old_ids);
        let installed = copy_ids(&new_ids);
        Progress::Next(
            Repartition::Swapping { old_ids, new_ids },
            Request::SwapChunks { old_ids: dropped, new_ids: installed },
        )
    }

    fn read_next(
        index_id: u64,
        old_ids: Vec<u64>,
        chunks: Vec<IdRow<Chunk>>,
        at: usize,
        batches: Vec<Vec<ColumnArray>>,
    ) -> (out: Progress<Repartition, ()>)
        ensures
            reads_next(index_id, old_ids@, chunks@, at as int, batches@, out),
    {
        if at < chunks.len() {
            let chunk = IdRow { id: chunks[at].id, row: chunks[at].row };
            return Progress::Next(
                Repartition::Reading { index_id, old_ids, chunks, at, batches },
                Request::GetChunkColumns { chunk },
            );
        }
        if batches.len() == 0 {
            return Self::swap(old_ids, Vec::new());
        }
        if !check_joinable(&batches) {
            return Progress::Done(
                Err(CubeError::internal(String::from_str("Chunks of different layout"))),
            );
        }
        let columns = concat_batches(&batches);
        Progress::Next(
            Repartition::Routing { old_ids },
            Request::PartitionRows { index_id, columns },
        )
    }

    /// Takes the reply to the last request and says how the operation goes
    /// on. An active partition is refused. Else every chunk of the
    /// partition is decoded, what they hold is joined into one batch and
    /// routed into the partitions that are active now, the uploads of the
    /// new chunks are waited for, and the catalog is asked to swap the old
    /// chunks for the new ones only if every upload succeeded. The
    /// operation succeeds only when that swap did.
    pub fn resume(self, reply: Reply) -> (out: Progress<Repartition, ()>)
        ensures
            self.step(reply, out),
    {
        match (self, reply) {
            (_, Reply::Failed(e)) => Progress::Done(Err(e)),
            (Repartition::AwaitPartition { partition_id }, Reply::Partition(partition)) => {
                if partition.row.active {
                    let mut message = String::from_str("Tried to repartition active partition: ");
                    message.append(decimal_string(partition.id).as_str());
                    Progress::Done(Err(CubeError::precondition(message)))
                } else {
                    let index_id = partition.row.index_id;
                    Progress::Next(
                        Repartition::AwaitChunks { partition_id, index_id },
                        Request::GetChunksByPartition { partition_id, active_only: false },
                    )
                }
            },
            (Repartition::AwaitChunks { partition_id, index_id }, Reply::Chunks(chunks)) => {
                let old_ids = ids_of(&chunks);
                Self::read_next(index_id, old_ids, chunks, 0, Vec::new())
            },
            (
                Repartition::Reading { index_id, old_ids, chunks, at, batches },
                Reply::Batches(more),
            ) => {
                if at >= chunks.len() {
                    return protocol_error();
                }
                let mut batches = batches;
                let mut more = more;
                batches.append(&mut more);
                Self::read_next(index_id, old_ids, chunks, at + 1, batches)
            },
            (Repartition::Routing { old_ids }, Reply::Started(n)) => Progress::Next(
                Repartition::Joining { old_ids, expected: n },
                Request::JoinUploads,
            ),
            (Repartition::Joining { old_ids, expected }, Reply::Uploads(outcomes)) => {
                if outcomes.len() != expected {
                    return Progress::Done(
                        Err(CubeError::internal(String::from_str("Uploads unaccounted for"))),
                    );
                }
                match collect_uploads(outcomes) {
                    Err(e) => Progress::Done(Err(e)),
                    Ok(new_ids) => Self::swap(old_ids, new_ids),
                }
            },
            (Repartition::Swapping { old_ids, new_ids }, Reply::Done) => Progress::Done(Ok(())),
            _ => protocol_error(),
        }
    }
}

impl ChunkStore {
    /// Starts repartitioning partition `partition_id`: first the catalog
    /// looks the partition up.
    pub fn repartition(&self, partition_id: u64) -> (start: (Repartition, Request))
        ensures
            start.0 == (Repartition::AwaitPartition { partition_id }),
            start.1 == (Request::GetPartition { partition_id }),
    {
        (Repartition::AwaitPartition { partition_id }, Request::GetPartition { partition_id })
    }
}

/// The chunks that the catalog shows as active once it has answered
/// `request` with `reply`, given those it showed before: a swap that
/// succeeds drops the old chunks and installs the new ones, and nothing
/// else that the store asks for activates or deactivates a chunk.
pub open spec fn active_after(active: Set<u64>, request: Request, reply: Reply) -> Set<u64> {
    match (request, reply) {
        (Request::SwapChunks { old_ids, new_ids }, Reply::Done) => active.difference(
            old_ids@.to_set(),
        ).union(new_ids@.to_set()),
        _ => active,
    }
}

/// Whether `request` is what a repartitioning in state `state` waits for,
/// as far as swapping goes: in the swapping state it is the swap of the
/// state's chunks, and in no other state is it a swap.
pub open spec fn awaits(state: Repartition, request: Request) -> bool {
    match state {
        Repartition::Swapping { old_ids, new_ids } => {
            &&& request matches Request::SwapChunks { old_ids: dropped, new_ids: installed }
            &&& dropped@ == old_ids@
            &&& installed@ == new_ids@
        },
        _ => !(request is SwapChunks),
    }
}

/// Atomicity: a step of a repartitioning leaves the active chunks as they
/// are, but for the step that ends it with success; that one drops every
/// old chunk and installs every new one. So after a repartitioning that
/// failed, be it on the swap itself, the catalog shows what it showed
/// before.
pub proof fn lemma_repartition_atomic(
    state: Repartition,
    request: Request,
    reply: Reply,
    out: Progress<Repartition, ()>,
    active: Set<u64>,
)
    requires
        awaits(state, request),
        state.step(reply, out),
    ensures
        out matches Progress::Done(Ok(_)) ==> {
            &&& state matches Repartition::Swapping { old_ids, new_ids }
            &&& active_after(active, request, reply) == active.difference(old_ids@.to_set()).union(
                new_ids@.to_set(),
            )
            &&& forall|id: u64| new_ids@.contains(id) ==> active_after(active, request, reply).contains(id)
            &&& forall|id: u64|
                old_ids@.contains(id) && !new_ids@.contains(id) ==> !active_after(
                    active,
                    request,
                    reply,
                ).contains(id)
        },
        out matches Progress::Done(Err(_)) ==> active_after(active, request, reply) == active,
        out matches Progress::Next(next, asked) ==> active_after(active, request, reply) == active
            && awaits(next, asked),
{
}

/// A swap carries the chunks that the catalog listed for the partition as
/// old and those that the uploads reported as new: it is asked for either
/// on the report of the uploads, all of them successful, or, with no new
/// chunk, where the partition held no rows.
pub proof fn lemma_swap_follows_uploads(
    state: Repartition,
    reply: Reply,
    out: Progress<Repartition, ()>,
)
    requires
        state.step(reply, out),
        out matches Progress::Next(_, Request::SwapChunks { .. }),
    ensures
        state matches Repartition::Joining { old_ids, expected } ==> {
            &&& reply matches Reply::Uploads(outcomes)
            &&& forall|i: int| 0 <= i < outcomes@.len() ==> (#[trigger] outcomes@[i]) is Ok
            &&& swaps(old_ids@, uploaded_ids(outcomes@), out)
        },
        !(state is Joining) ==> out->Next_1->SwapChunks_new_ids@.len() == 0,
{
    if let Repartition::Joining { old_ids, expected } = state {
        if let Reply::Uploads(outcomes) = reply {
            lemma_first_failed(outcomes@, 0);
        }
    }
}

/// The first failed upload failed, none before it did, and where none is
/// found all succeeded.
pub proof fn lemma_first_failed(outcomes: Seq<Result<IdRow<Chunk>, CubeError>>, from: int)
    requires
        0 <= from <= outcomes.len(),
    ensures
        from <= first_failed(outcomes, from) <= outcomes.len(),
        first_failed(outcomes, from) < outcomes.len() ==> outcomes[first_failed(
            outcomes,
            from,
        )] is Err,
        forall|i: int| from <= i < first_failed(outcomes, from) ==> (#[trigger] outcomes[i]) is Ok,
    decreases outcomes.len() - from,
{
    if from < outcomes.len() && outcomes[from] is Ok {
        lemma_first_failed(outcomes, from + 1);
    }
}

/// Failure isolation: if one upload of the batch fails, the repartitioning
/// fails with the error of the first upload that failed, and asks for
/// nothing more: no swap, and nothing that would touch the chunks whose
/// upload succeeded.
pub proof fn lemma_failed_upload_fails_all(
    state: Repartition,
    outcomes: Vec<Result<IdRow<Chunk>, CubeError>>,
    out: Progress<Repartition, ()>,
    failed: int,
)
    requires
        state matches Repartition::Joining { expected, .. } && expected == outcomes@.len(),
        state.step(Reply::Uploads(outcomes), out),
        0 <= failed < outcomes@.len(),
        outcomes@[failed] is Err,
    ensures
        out matches Progress::Done(Err(e)) && exists|i: int|
            0 <= i <= failed && #[trigger] outcomes@[i] == Err::<IdRow<Chunk>, CubeError>(e),
{
    lemma_first_failed(outcomes@, 0);
    let at = first_failed(outcomes@, 0);
    assert(at <= failed) by {
        if failed < at {
            assert(outcomes@[failed] is Ok);
        }
    }
    assert(outcomes@[at] == Err::<IdRow<Chunk>, CubeError>(outcomes@[at]->Err_0));
}

/// No operation but repartitioning asks the catalog for a swap.
pub proof fn lemma_only_repartition_swaps(
    add_wal: (AddWal, Progress<AddWal, IdRow<WAL>>),
    get_wal: (GetWal, Progress<GetWal, DataFrame>),
    download: (DownloadChunk, Progress<DownloadChunk, (String, Index)>),
    decode: (GetChunkColumns, Progress<GetChunkColumns, Vec<Vec<ColumnArray>>>),
    write: (AddChunkColumns, Progress<AddChunkColumns, ChunkUploadJob>),
    route: (PartitionRows, Progress<PartitionRows, usize>),
    ingest: (PartitionData, Progress<PartitionData, usize>),
    reply: Reply,
)
    ensures
        add_wal.0.step(reply, add_wal.1) && add_wal.1 is Next ==> !(add_wal.1->Next_1 is SwapChunks),
        get_wal.0.step(reply, get_wal.1) && get_wal.1 is Next ==> !(get_wal.1->Next_1 is SwapChunks),
        download.0.step(reply, download.1) && download.1 is Next ==> !(download.1->Next_1
            is SwapChunks),
        decode.0.step(reply, decode.1) && decode.1 is Next ==> !(decode.1->Next_1 is SwapChunks),
        write.0.step(reply, write.1) && write.1 is Next ==> !(write.1->Next_1 is SwapChunks),
        route.0.step(reply, route.1) && route.1 is Next ==> !(route.1->Next_1 is SwapChunks),
        ingest.0.step(reply, ingest.1) && ingest.1 is Next ==> !(ingest.1->Next_1 is SwapChunks),
{
}

} // verus!
