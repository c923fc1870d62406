//! The protocol between the store's operations and whoever drives them.
//!
//! An operation never touches the catalog, durable storage or a file. It
//! hands its driver one [`Request`] at a time, and the driver hands back the
//! [`Reply`]; what to ask next, and when to stop with what result, is
//! decided here.

use crate::columns::ColumnArray;
use crate::data_frame::DataFrame;
use crate::error::{CubeError, ErrorKind};
use crate::metastore::{Chunk, IdRow, Index, Partition, WAL};
use vstd::prelude::*;

verus! {

/// The number of rows per row group of a chunk file.
pub const ROW_GROUP_SIZE: usize = 16384;

/// What an operation asks its driver to do.
#[derive(Debug, PartialEq, Eq)]
pub enum Request {
    /// Catalog: register a write-ahead record of `row_count` rows.
    CreateWal { table_id: u64, row_count: usize },
    /// Catalog: mark a write-ahead record as uploaded.
    WalUploaded { wal_id: u64 },
    /// Catalog: look a write-ahead record up.
    GetWal { wal_id: u64 },
    /// Catalog: register a chunk of `row_count` rows under a partition.
    CreateChunk { partition_id: u64, row_count: usize },
    /// Catalog: list the chunks of a partition.
    GetChunksByPartition { partition_id: u64, active_only: bool },
    /// Catalog: look a partition up.
    GetPartition { partition_id: u64 },
    /// Catalog: look an index up.
    GetIndex { index_id: u64 },
    /// Catalog: list the indexes of a table.
    GetTableIndexes { table_id: u64 },
    /// Catalog: list the active partitions of an index.
    GetActivePartitionsByIndexId { index_id: u64 },
    /// Catalog: in one transaction, drop the references to `old_ids` and
    /// install `new_ids`.
    SwapChunks { old_ids: Vec<u64>, new_ids: Vec<u64> },
    /// Storage: the local path that stands for a durable name.
    LocalFile { remote_path: String },
    /// Storage: make a durable object locally present.
    DownloadFile { remote_path: String },
    /// Storage: a local staging path for a durable name.
    TempUploadPath { remote_path: String },
    /// Storage: remove a durable object.
    DeleteFile { remote_path: String },
    /// Codec: encode `columns` into a chunk file in the layout of `index`.
    WriteData { local_path: String, index: Index, row_group_size: usize, columns: Vec<ColumnArray> },
    /// Codec: decode a chunk file in the layout of `index`.
    ReadColumns { local_path: String, index: Index, row_group_size: usize },
    /// Serialize a raw batch into a local file.
    SaveFrame { local_path: String, data: DataFrame },
    /// Deserialize a raw batch from a local file.
    LoadFrame { local_path: String },
    /// Run the operation that locates the file of a chunk.
    DownloadChunk { chunk: IdRow<Chunk> },
    /// Run the operation that decodes a chunk.
    GetChunkColumns { chunk: IdRow<Chunk> },
    /// Run the operation that writes a chunk, and start its upload in the
    /// background.
    AddChunkColumns { index: Index, partition_id: u64, columns: Vec<ColumnArray> },
    /// Run the operation that routes a batch into the partitions of an index.
    PartitionRows { index_id: u64, columns: Vec<ColumnArray> },
    /// Wait for every upload that this operation has started.
    JoinUploads,
}

/// What the driver hands back.
#[derive(Debug, PartialEq, Eq)]
pub enum Reply {
    /// The request was carried out and has nothing to report.
    Done,
    Wal(IdRow<WAL>),
    Chunk(IdRow<Chunk>),
    Chunks(Vec<IdRow<Chunk>>),
    Partition(IdRow<Partition>),
    Partitions(Vec<IdRow<Partition>>),
    Index(IdRow<Index>),
    Indexes(Vec<IdRow<Index>>),
    Path(String),
    /// The local file of a chunk and the index it is laid out by.
    ChunkFile(String, Index),
    Batches(Vec<Vec<ColumnArray>>),
    Frame(DataFrame),
    /// The number of uploads that a nested operation has started.
    Started(usize),
    /// How each upload ended, in the order in which they were started.
    Uploads(Vec<Result<IdRow<Chunk>, CubeError>>),
    /// The request failed.
    Failed(CubeError),
}

/// Where an operation stands after a reply.
#[derive(Debug, PartialEq, Eq)]
pub enum Progress<S, T> {
    /// The operation goes on in state `S` once the request is answered.
    Next(S, Request),
    /// The operation has ended.
    Done(Result<T, CubeError>),
}

/// An upload that is to run in the background: it sends `local_path` to
/// durable storage under `remote_path` and then resolves to `chunk`.
#[derive(Debug, PartialEq, Eq)]
pub struct ChunkUploadJob {
    pub chunk: IdRow<Chunk>,
    pub local_path: String,
    pub remote_path: String,
}

/// Whether `out` ends the operation on a reply that the protocol does not
/// allow at this point.
pub open spec fn ends_on_protocol_error<S, T>(out: Progress<S, T>) -> bool {
    &&& out matches Progress::Done(Err(e))
    &&& e.kind == ErrorKind::Internal
    &&& e.message@ == "Unexpected reply"@
}

/// Ends an operation on a reply that the protocol does not allow.
pub fn protocol_error<S, T>() -> (out: Progress<S, T>)
    ensures
        ends_on_protocol_error(out),
{
    Progress::Done(Err(CubeError::internal(String::from_str("Unexpected reply"))))
}

/// The position of the first upload that failed, or the number of uploads if
/// none did.
pub open spec fn first_failed(outcomes: Seq<Result<IdRow<Chunk>, CubeError>>, from: int) -> int
    decreases outcomes.len() - from,
{
    if from < 0 || from >= outcomes.len() {
        outcomes.len() as int
    } else if outcomes[from] is Err {
        from
    } else {
        first_failed(outcomes, from + 1)
    }
}

/// The identities of the chunks of a batch of uploads that all succeeded.
pub open spec fn uploaded_ids(outcomes: Seq<Result<IdRow<Chunk>, CubeError>>) -> Seq<u64> {
    Seq::new(outcomes.len(), |i: int| outcomes[i]->Ok_0.id)
}

/// Gathers the outcome of a batch of uploads: the identities of the chunks,
/// in order, if every upload succeeded, and else the error of the first one
/// that failed.
pub fn collect_uploads(outcomes: Vec<Result<IdRow<Chunk>, CubeError>>) -> (res: Result<
    Vec<u64>,
    CubeError,
>)
    ensures
        match res {
            Ok(ids) => {
                &&& first_failed(outcomes@, 0) == outcomes@.len()
                &&& forall|i: int| 0 <= i < outcomes@.len() ==> (#[trigger] outcomes@[i]) is Ok
                &&& ids@ == uploaded_ids(outcomes@)
            },
            Err(e) => {
                let at = first_failed(outcomes@, 0);
                &&& at < outcomes@.len()
                &&& outcomes@[at] == Err::<IdRow<Chunk>, CubeError>(e)
            },
        },
{
    let ghost all = outcomes@;
    let n = outcomes.len();
    let mut outcomes = outcomes;
    // Outcomes are taken from the back, so the earliest failure is met last.
    let mut failure: Option<CubeError> = None;
    let mut ids_back: Vec<u64> = Vec::new();
    let mut i: usize = n;
    while i > 0
        invariant
            i <= n,
            n == all.len(),
            outcomes@ == all.take(i as int),
            match failure {
                Some(e) => first_failed(all, i as int) < n && all[first_failed(all, i as int)]
                    == Err::<IdRow<Chunk>, CubeError>(e),
                None => first_failed(all, i as int) == n && ids_back@.len() == n - i
                    && forall|j: int|
                    i <= j < n ==> (#[trigger] all[j]) is Ok && ids_back@[n - 1 - j]
                        == all[j]->Ok_0.id,
            },
        decreases i,
    {
        let last = outcomes.pop();
        i -= 1;
        assert(all.take(i + 1).drop_last() == all.take(i as int));
        assert(last == Some(all[i as int]));
        match last {
            Some(Ok(chunk)) => {
                if failure.is_none() {
                    ids_back.push(chunk.id);
                }
            },
            Some(Err(e)) => {
                failure = Some(e);
            },
            None => {},
        }
    }
    match failure {
        Some(e) => Err(e),
        None => {
            let mut ids: Vec<u64> = Vec::new();
            let mut k: usize = n;
            while k > 0
                invariant
                    k <= n,
                    ids_back@.len() == n,
                    n == all.len(),
                    ids@.len() == n - k,
                    forall|j: int| 0 <= j < n ==> ids_back@[n - 1 - j] == (#[trigger] all[j])->Ok_0.id,
                    forall|j: int| 0 <= j < n - k ==> #[trigger] ids@[j] == all[j]->Ok_0.id,
                decreases k,
            {
                k -= 1;
                assert(ids_back@[n - 1 - (n - 1 - k)] == all[n - 1 - k]->Ok_0.id);
                ids.push(ids_back[k]);
            }
            assert(ids@ =~= uploaded_ids(all));
            Ok(ids)
        },
    }
}

} // verus!
