//! The chunk store: the life of a chunk from its registration to its file
//! in durable storage, and the way back from a chunk to its columns.

use crate::columns::ColumnArray;
use crate::error::{CubeError, ErrorKind};
use crate::metastore::{Chunk, IdRow, Index};
use crate::naming::{chunk_file_name, chunk_path, decimal, decimal_string};
use crate::protocol::{
    ends_on_protocol_error, protocol_error, ChunkUploadJob, Progress, Reply, Request,
    ROW_GROUP_SIZE,
};
use crate::router::batch_row_count;
use vstd::prelude::*;

verus! {

/// The chunk store's configuration.
#[derive(Debug, PartialEq, Eq)]
pub struct ChunkStore {
    pub chunk_size: usize,
}

/// Locating the file of a chunk: where the operation stands.
#[derive(Debug, PartialEq, Eq)]
pub enum DownloadChunk {
    /// The catalog is looking up the partition of the chunk.
    AwaitPartition { chunk: IdRow<Chunk> },
    /// The catalog is looking up the index of that partition.
    AwaitIndex { chunk: IdRow<Chunk> },
    /// Storage is making the chunk's file locally present.
    Downloading { chunk: IdRow<Chunk>, index: Index },
    /// Storage is naming the chunk's local file.
    Locating { index: Index },
}

/// Decoding a chunk: where the operation stands.
#[derive(Debug, PartialEq, Eq)]
pub enum GetChunkColumns {
    /// The chunk's file is being located.
    Locating,
    /// The codec is decoding the file.
    Decoding,
}

/// Writing a chunk: where the operation stands.
#[derive(Debug, PartialEq, Eq)]
pub enum AddChunkColumns {
    /// The catalog is registering the chunk.
    Registering { index: Index, data: Vec<ColumnArray> },
    /// Storage is naming a staging path for the chunk's file.
    Staging { chunk: IdRow<Chunk>, index: Index, data: Vec<ColumnArray> },
    /// The codec is encoding the columns into the staging file.
    Writing { chunk: IdRow<Chunk>, local_path: String },
}

/// What the error says when chunk `chunk_id` is asked for before it was
/// uploaded.
pub open spec fn chunk_not_uploaded_message(chunk_id: u64) -> Seq<char> {
    "Trying to get not uploaded chunk: "@ + decimal(chunk_id as nat)
}

/// Whether two indexes say the same.
pub open spec fn same_index(a: Index, b: Index) -> bool {
    &&& a.name == b.name
    &&& a.table_id == b.table_id
    &&& a.columns@ == b.columns@
    &&& a.sort_key_size == b.sort_key_size
}

impl DownloadChunk {
    /// How the operation starts for `chunk`.
    pub open spec fn starts(chunk: IdRow<Chunk>, out: Progress<DownloadChunk, (String, Index)>) -> bool {
        if chunk.row.uploaded {
            out == Progress::<DownloadChunk, (String, Index)>::Next(
                DownloadChunk::AwaitPartition { chunk },
                Request::GetPartition { partition_id: chunk.row.partition_id },
            )
        } else {
            &&& out matches Progress::Done(Err(e))
            &&& e.kind == ErrorKind::Precondition
            &&& e.message@ == chunk_not_uploaded_message(chunk.id)
        }
    }

    /// The step that reply `reply` makes from this state.
    pub open spec fn step(self, reply: Reply, out: Progress<DownloadChunk, (String, Index)>) -> bool {
        match (self, reply) {
            (_, Reply::Failed(e)) => out == Progress::<DownloadChunk, (String, Index)>::Done(Err(e)),
            (DownloadChunk::AwaitPartition { chunk }, Reply::Partition(partition)) => out
                == Progress::<DownloadChunk, (String, Index)>::Next(
                DownloadChunk::AwaitIndex { chunk },
                Request::GetIndex { index_id: partition.row.index_id },
            ),
            (DownloadChunk::AwaitIndex { chunk }, Reply::Index(index)) => {
                &&& out matches Progress::Next(
                    DownloadChunk::Downloading { chunk: kept, index: layout },
                    Request::DownloadFile { remote_path },
                )
                &&& kept == chunk
                &&& layout == index.row
                &&& remote_path@ == chunk_path(chunk.id)
            },
            (DownloadChunk::Downloading { chunk, index }, Reply::Done) => {
                &&& out matches Progress::Next(
                    DownloadChunk::Locating { index: layout },
                    Request::LocalFile { remote_path },
                )
                &&& layout == index
                &&& remote_path@ == chunk_path(chunk.id)
            },
            (DownloadChunk::Locating { index }, Reply::Path(local_path)) => out == Progress::<
                DownloadChunk,
                (String, Index),
            >::Done(Ok((local_path, index))),
            _ => ends_on_protocol_error(out),
        }
    }

    /// Takes the reply to the last request and says how the operation goes
    /// on: the chunk's partition gives its index, the chunk's file is made
    /// locally present under its durable name, and the operation ends with
    /// the local path and the index.
    pub fn resume(self, reply: Reply) -> (out: Progress<DownloadChunk, (String, Index)>)
        ensures
            self.step(reply, out),
    {
        match (self, reply) {
            (_, Reply::Failed(e)) => Progress::Done(Err(e)),
            (DownloadChunk::AwaitPartition { chunk }, Reply::Partition(partition)) => {
                let index_id = partition.row.index_id;
                Progress::Next(DownloadChunk::AwaitIndex { chunk }, Request::GetIndex { index_id })
            },
            (DownloadChunk::AwaitIndex { chunk }, Reply::Index(index)) => {
                let remote_path = chunk_file_name(chunk.id);
                Progress::Next(
                    DownloadChunk::Downloading { chunk, index: index.row },
                    Request::DownloadFile { remote_path },
                )
            },
            (DownloadChunk::Downloading { chunk, index }, Reply::Done) => {
                let remote_path = chunk_file_name(chunk.id);
                Progress::Next(DownloadChunk::Locating { index }, Request::LocalFile { remote_path })
            },
            (DownloadChunk::Locating { index }, Reply::Path(local_path)) => Progress::Done(
                Ok((local_path, index)),
            ),
            _ => protocol_error(),
        }
    }
}

impl GetChunkColumns {
    /// The step that reply `reply` makes from this state.
    pub open spec fn step(
        self,
        reply: Reply,
        out: Progress<GetChunkColumns, Vec<Vec<ColumnArray>>>,
    ) -> bool {
        match (self, reply) {
            (_, Reply::Failed(e)) => out == Progress::<
                GetChunkColumns,
                Vec<Vec<ColumnArray>>,
            >::Done(Err(e)),
            (GetChunkColumns::Locating, Reply::ChunkFile(local_path, index)) => out == Progress::<
                GetChunkColumns,
                Vec<Vec<ColumnArray>>,
            >::Next(
                GetChunkColumns::Decoding,
                Request::ReadColumns { local_path, index, row_group_size: ROW_GROUP_SIZE },
            ),
            (GetChunkColumns::Decoding, Reply::Batches(batches)) => out == Progress::<
                GetChunkColumns,
                Vec<Vec<ColumnArray>>,
            >::Done(Ok(batches)),
            _ => ends_on_protocol_error(out),
        }
    }

    /// Takes the reply to the last request and says how the operation goes
    /// on: once the chunk's file is located it is decoded in the layout of
    /// the chunk's index, and the operation ends with the decoded batches.
    pub fn resume(self, reply: Reply) -> (out: Progress<GetChunkColumns, Vec<Vec<ColumnArray>>>)
        ensures
            self.step(reply, out),
    {
        match (self, reply) {
            (_, Reply::Failed(e)) => Progress::Done(Err(e)),
            (GetChunkColumns::Locating, Reply::ChunkFile(local_path, index)) => Progress::Next(
                GetChunkColumns::Decoding,
                Request::ReadColumns { local_path, index, row_group_size: ROW_GROUP_SIZE },
            ),
            (GetChunkColumns::Decoding, Reply::Batches(batches)) => Progress::Done(Ok(batches)),
            _ => protocol_error(),
        }
    }
}

impl AddChunkColumns {
    /// The step that reply `reply` makes from this state.
    pub open spec fn step(self, reply: Reply, out: Progress<AddChunkColumns, ChunkUploadJob>) -> bool {
        match (self, reply) {
            (_, Reply::Failed(e)) => out == Progress::<AddChunkColumns, ChunkUploadJob>::Done(
                Err(e),
            ),
            (AddChunkColumns::Registering { index, data }, Reply::Chunk(chunk)) => {
                &&& out matches Progress::Next(
                    AddChunkColumns::Staging { chunk: kept, index: layout, data: columns },
                    Request::TempUploadPath { remote_path },
                )
                &&& kept == chunk
                &&& layout == index
                &&& columns == data
                &&& remote_path@ == chunk_path(chunk.id)
            },
            (AddChunkColumns::Staging { chunk, index, data }, Reply::Path(local_path)) => out
                == Progress::<AddChunkColumns, ChunkUploadJob>::Next(
                AddChunkColumns::Writing { chunk, local_path },
                Request::WriteData {
                    local_path,
                    index,
                    row_group_size: ROW_GROUP_SIZE,
                    columns: data,
                },
            ),
            (AddChunkColumns::Writing { chunk, local_path }, Reply::Done) => {
                &&& out matches Progress::Done(Ok(job))
                &&& job.chunk == chunk
                &&& job.local_path == local_path
                &&& job.remote_path@ == chunk_path(chunk.id)
            },
            _ => ends_on_protocol_error(out),
        }
    }

    /// Takes the reply to the last request and says how the operation goes
    /// on: the chunk is registered first, its columns are then encoded into
    /// a staging file, and the operation ends with the upload that is to
    /// send that file to durable storage under the chunk's durable name.
    pub fn resume(self, reply: Reply) -> (out: Progress<AddChunkColumns, ChunkUploadJob>)
        ensures
            self.step(reply, out),
    {
        match (self, reply) {
            (_, Reply::Failed(e)) => Progress::Done(Err(e)),
            (AddChunkColumns::Registering { index, data }, Reply::Chunk(chunk)) => {
                let remote_path = chunk_file_name(chunk.id);
                Progress::Next(
                    AddChunkColumns::Staging { chunk, index, data },
                    Request::TempUploadPath { remote_path },
                )
            },
            (AddChunkColumns::Staging { chunk, index, data }, Reply::Path(local_path)) => {
                let staged = local_path.clone();
                Progress::Next(
                    AddChunkColumns::Writing { chunk, local_path: staged },
                    Request::WriteData {
                        local_path,
                        index,
                        row_group_size: ROW_GROUP_SIZE,
                        columns: data,
                    },
                )
            },
            (AddChunkColumns::Writing { chunk, local_path }, Reply::Done) => {
                let remote_path = chunk_file_name(chunk.id);
                Progress::Done(Ok(ChunkUploadJob { chunk, local_path, remote_path }))
            },
            _ => protocol_error(),
        }
    }
}

impl ChunkStore {
    pub fn new(chunk_size: usize) -> (store: ChunkStore)
        ensures
            store.chunk_size == chunk_size,
    {
        ChunkStore { chunk_size }
    }

    /// The number of rows that ingestion aims at per chunk.
    pub fn get_chunk_size(&self) -> (n: usize)
        ensures
            n == self.chunk_size,
    {
        self.chunk_size
    }

    /// The durable name of `chunk`.
    pub fn chunk_file_name(chunk: IdRow<Chunk>) -> (path: String)
        ensures
            path@ == chunk_path(chunk.id),
    {
        Self::chunk_remote_path(chunk.id)
    }

    /// The durable name of the chunk `chunk_id`.
    pub fn chunk_remote_path(chunk_id: u64) -> (path: String)
        ensures
            path@ == chunk_path(chunk_id),
    {
        chunk_file_name(chunk_id)
    }

    /// Starts locating the file of `chunk`. A chunk that is not marked as
    /// uploaded is refused at once.
    pub fn download_chunk(&self, chunk: IdRow<Chunk>) -> (out: Progress<
        DownloadChunk,
        (String, Index),
    >)
        ensures
            DownloadChunk::starts(chunk, out),
    {
        if !chunk.row.uploaded {
            let mut message = String::from_str("Trying to get not uploaded chunk: ");
            message.append(decimal_string(chunk.id).as_str());
            Progress::Done(Err(CubeError::precondition(message)))
        } else {
            let partition_id = chunk.row.partition_id;
            Progress::Next(
                DownloadChunk::AwaitPartition { chunk },
                Request::GetPartition { partition_id },
            )
        }
    }

    /// Starts decoding `chunk`: first its file is located.
    pub fn get_chunk_columns(&self, chunk: IdRow<Chunk>) -> (start: (GetChunkColumns, Request))
        ensures
            start.0 == GetChunkColumns::Locating,
            start.1 == (Request::DownloadChunk { chunk }),
    {
        (GetChunkColumns::Locating, Request::DownloadChunk { chunk })
    }

    /// What to ask of storage to remove the durable file of `chunk`. The
    /// catalog is left as it is.
    pub fn delete_remote_chunk(&self, chunk: IdRow<Chunk>) -> (request: Request)
        ensures
            request matches Request::DeleteFile { remote_path } && remote_path@ == chunk_path(
                chunk.id,
            ),
    {
        Request::DeleteFile { remote_path: Self::chunk_file_name(chunk) }
    }

    /// Starts writing `data` as a new chunk of partition `partition_id` in
    /// the layout of `index`: first the catalog registers a chunk sized to
    /// the number of rows of `data`.
    pub fn add_chunk_columns(&self, index: Index, partition_id: u64, data: Vec<ColumnArray>) -> (start:
        (AddChunkColumns, Request))
        ensures
            start.0 == (AddChunkColumns::Registering { index, data }),
            start.1 == (Request::CreateChunk {
                partition_id,
                row_count: batch_row_count(data@) as usize,
            }),
    {
        let row_count = if data.len() > 0 {
            data[0].len()
        } else {
            0
        };
        (AddChunkColumns::Registering { index, data }, Request::CreateChunk { partition_id, row_count })
    }
}

/// A chunk that is not marked as uploaded is never read, and the upload of
/// a new chunk is handed out only once its file has been written.
pub proof fn lemma_chunk_guards(
    chunk: IdRow<Chunk>,
    started: Progress<DownloadChunk, (String, Index)>,
    state: AddChunkColumns,
    reply: Reply,
    out: Progress<AddChunkColumns, ChunkUploadJob>,
)
    requires
        DownloadChunk::starts(chunk, started),
        state.step(reply, out),
    ensures
        started is Next ==> chunk.row.uploaded,
        !chunk.row.uploaded ==> (started matches Progress::Done(Err(e)) && e.kind
            == ErrorKind::Precondition),
        out matches Progress::Done(Ok(job)) ==> state is Writing && reply is Done,
{
}

} // verus!
