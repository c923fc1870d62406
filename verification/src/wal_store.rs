//! The write-ahead store: keeps a raw batch as a write-ahead record before
//! it is partitioned, and gives it back for replay.

use crate::data_frame::DataFrame;
use crate::error::{CubeError, ErrorKind};
use crate::metastore::{IdRow, WAL};
use crate::naming::{decimal, decimal_string, wal_file_name, wal_path};
use crate::protocol::{ends_on_protocol_error, protocol_error, Progress, Reply, Request};
use vstd::prelude::*;

verus! {

/// The write-ahead store's configuration.
#[derive(Debug, PartialEq, Eq)]
pub struct WALStore {
    pub wal_chunk_size: usize,
}

/// Adding a write-ahead record: where the operation stands.
#[derive(Debug, PartialEq, Eq)]
pub enum AddWal {
    /// The catalog is registering the record.
    Registering { data: DataFrame },
    /// Storage is naming the record's local file.
    Locating { wal: IdRow<WAL>, data: DataFrame },
    /// The batch is being written to the local file.
    Saving { wal: IdRow<WAL> },
    /// The catalog is marking the record as uploaded.
    Marking { wal: IdRow<WAL> },
}

/// Reading a write-ahead record back: where the operation stands.
#[derive(Debug, PartialEq, Eq)]
pub enum GetWal {
    /// The catalog is looking the record up.
    Fetching { wal_id: u64 },
    /// Storage is making the record's file locally present.
    Downloading { wal_id: u64 },
    /// Storage is naming the record's local file.
    Locating { wal_id: u64 },
    /// The batch is being read from the local file.
    Loading { wal_id: u64 },
}

/// What the error says when record `wal_id` is asked for before it was
/// uploaded.
pub open spec fn wal_not_uploaded_message(wal_id: u64) -> Seq<char> {
    "Trying to get not uploaded WAL: "@ + decimal(wal_id as nat)
}

impl AddWal {
    /// The step that reply `reply` makes from this state.
    pub open spec fn step(self, reply: Reply, out: Progress<AddWal, IdRow<WAL>>) -> bool {
        match (self, reply) {
            (_, Reply::Failed(e)) => out == Progress::<AddWal, IdRow<WAL>>::Done(Err(e)),
            (AddWal::Registering { data }, Reply::Wal(wal)) => {
                &&& out matches Progress::Next(
                    AddWal::Locating { wal: kept, data: batch },
                    Request::LocalFile { remote_path },
                )
                &&& kept == wal
                &&& batch == data
                &&& remote_path@ == wal_path(wal.id)
            },
            (AddWal::Locating { wal, data }, Reply::Path(local_path)) => out == Progress::<
                AddWal,
                IdRow<WAL>,
            >::Next(AddWal::Saving { wal }, Request::SaveFrame { local_path, data }),
            (AddWal::Saving { wal }, Reply::Done) => out == Progress::<AddWal, IdRow<WAL>>::Next(
                AddWal::Marking { wal },
                Request::WalUploaded { wal_id: wal.id },
            ),
            (AddWal::Marking { wal }, Reply::Done) => out == Progress::<AddWal, IdRow<WAL>>::Done(
                Ok(wal),
            ),
            _ => ends_on_protocol_error(out),
        }
    }

    /// Takes the reply to the last request and says how the operation goes
    /// on: the record's local file is named after the record was registered,
    /// the batch is written there, and only when that is done is the record
    /// marked as uploaded. Any failure ends the operation with that error.
    pub fn resume(self, reply: Reply) -> (out: Progress<AddWal, IdRow<WAL>>)
        ensures
            self.step(reply, out),
    {
        match (self, reply) {
            (_, Reply::Failed(e)) => Progress::Done(Err(e)),
            (AddWal::Registering { data }, Reply::Wal(wal)) => {
                let remote_path = wal_file_name(wal.id);
                Progress::Next(AddWal::Locating { wal, data }, Request::LocalFile { remote_path })
            },
            (AddWal::Locating { wal, data }, Reply::Path(local_path)) => Progress::Next(
                AddWal::Saving { wal },
                Request::SaveFrame { local_path, data },
            ),
            (AddWal::Saving { wal }, Reply::Done) => {
                let wal_id = wal.id;
                Progress::Next(AddWal::Marking { wal }, Request::WalUploaded { wal_id })
            },
            (AddWal::Marking { wal }, Reply::Done) => Progress::Done(Ok(wal)),
            _ => protocol_error(),
        }
    }
}

impl GetWal {
    /// The step that reply `reply` makes from this state.
    pub open spec fn step(self, reply: Reply, out: Progress<GetWal, DataFrame>) -> bool {
        match (self, reply) {
            (_, Reply::Failed(e)) => out == Progress::<GetWal, DataFrame>::Done(Err(e)),
            (GetWal::Fetching { wal_id }, Reply::Wal(wal)) => if wal.row.uploaded {
                &&& out matches Progress::Next(
                    GetWal::Downloading { wal_id: id },
                    Request::DownloadFile { remote_path },
                )
                &&& id == wal_id
                &&& remote_path@ == wal_path(wal_id)
            } else {
                &&& out matches Progress::Done(Err(e))
                &&& e.kind == ErrorKind::Precondition
                &&& e.message@ == wal_not_uploaded_message(wal.id)
            },
            (GetWal::Downloading { wal_id }, Reply::Done) => {
                &&& out matches Progress::Next(
                    GetWal::Locating { wal_id: id },
                    Request::LocalFile { remote_path },
                )
                &&& id == wal_id
                &&& remote_path@ == wal_path(wal_id)
            },
            (GetWal::Locating { wal_id }, Reply::Path(local_path)) => out == Progress::<
                GetWal,
                DataFrame,
            >::Next(GetWal::Loading { wal_id }, Request::LoadFrame { local_path }),
            (GetWal::Loading { wal_id }, Reply::Frame(data)) => out == Progress::<
                GetWal,
                DataFrame,
            >::Done(Ok(data)),
            _ => ends_on_protocol_error(out),
        }
    }

    /// Takes the reply to the last request and says how the operation goes
    /// on: a record that is not marked as uploaded is refused; else its file
    /// is made locally present and the batch is read from it.
    pub fn resume(self, reply: Reply) -> (out: Progress<GetWal, DataFrame>)
        ensures
            self.step(reply, out),
    {
        match (self, reply) {
            (_, Reply::Failed(e)) => Progress::Done(Err(e)),
            (GetWal::Fetching { wal_id }, Reply::Wal(wal)) => {
                if !wal.row.uploaded {
                    let mut message = String::from_str("Trying to get not uploaded WAL: ");
                    message.append(decimal_string(wal.id).as_str());
                    Progress::Done(Err(CubeError::precondition(message)))
                } else {
                    let remote_path = wal_file_name(wal_id);
                    Progress::Next(
                        GetWal::Downloading { wal_id },
                        Request::DownloadFile { remote_path },
                    )
                }
            },
            (GetWal::Downloading { wal_id }, Reply::Done) => {
                let remote_path = wal_file_name(wal_id);
                Progress::Next(GetWal::Locating { wal_id }, Request::LocalFile { remote_path })
            },
            (GetWal::Locating { wal_id }, Reply::Path(local_path)) => Progress::Next(
                GetWal::Loading { wal_id },
                Request::LoadFrame { local_path },
            ),
            (GetWal::Loading { wal_id }, Reply::Frame(data)) => Progress::Done(Ok(data)),
            _ => protocol_error(),
        }
    }
}

impl WALStore {
    pub fn new(wal_chunk_size: usize) -> (store: WALStore)
        ensures
            store.wal_chunk_size == wal_chunk_size,
    {
        WALStore { wal_chunk_size }
    }

    /// The durable name of the write-ahead record `wal_id`.
    pub fn wal_remote_path(wal_id: u64) -> (path: String)
        ensures
            path@ == wal_path(wal_id),
    {
        wal_file_name(wal_id)
    }

    /// The number of rows that ingestion aims at per write-ahead record.
    pub fn get_wal_chunk_size(&self) -> (n: usize)
        ensures
            n == self.wal_chunk_size,
    {
        self.wal_chunk_size
    }

    /// Starts keeping `data` as a write-ahead record of table `table_id`:
    /// first the catalog registers a record sized to the batch.
    pub fn add_wal(&self, table_id: u64, data: DataFrame) -> (start: (AddWal, Request))
        ensures
            start.0 == (AddWal::Registering { data }),
            start.1 == (Request::CreateWal { table_id, row_count: data.data@.len() as usize }),
    {
        let row_count = data.len();
        (AddWal::Registering { data }, Request::CreateWal { table_id, row_count })
    }

    /// Starts reading the write-ahead record `wal_id` back: first the
    /// catalog looks the record up.
    pub fn get_wal(&self, wal_id: u64) -> (start: (GetWal, Request))
        ensures
            start.0 == (GetWal::Fetching { wal_id }),
            start.1 == (Request::GetWal { wal_id }),
    {
        (GetWal::Fetching { wal_id }, Request::GetWal { wal_id })
    }
}

/// A write-ahead record is marked as uploaded only once its batch has been
/// written, and adding it succeeds only once it has been marked; the batch
/// handed to be written is the batch that was given, under the record's
/// durable name.
pub proof fn lemma_add_wal_order(state: AddWal, reply: Reply, out: Progress<AddWal, IdRow<WAL>>)
    requires
        state.step(reply, out),
    ensures
        out matches Progress::Next(_, Request::WalUploaded { wal_id }) ==> state is Saving
            && reply is Done && wal_id == state->Saving_wal.id,
        out matches Progress::Done(Ok(wal)) ==> state is Marking && reply is Done,
        out matches Progress::Next(_, Request::SaveFrame { data, .. }) ==> state is Locating
            && data == state->Locating_data,
{
}

/// A write-ahead record that is not marked as uploaded is never read: its
/// file is asked for only after the catalog has shown the record uploaded.
pub proof fn lemma_get_wal_guard(state: GetWal, reply: Reply, out: Progress<GetWal, DataFrame>)
    requires
        state is Fetching,
        state.step(reply, out),
    ensures
        out is Next ==> reply is Wal && reply->Wal_0.row.uploaded,
        (reply matches Reply::Wal(wal) && !wal.row.uploaded) ==> (out matches Progress::Done(Err(e))
            && e.kind == ErrorKind::Precondition),
{
}

/// Round trip, as far as the store decides it. Against a catalog that marks
/// the record, a storage that names local files by their durable names, and
/// files that give back what was written to them, reading a record back
/// gives the batch that was added: the batch is written unchanged to the
/// local file of the record's durable name, and it is that file that is
/// read and handed on unchanged.
pub proof fn lemma_wal_round_trip(
    data: DataFrame,
    wal: IdRow<WAL>,
    local_path: String,
    added: (
        Progress<AddWal, IdRow<WAL>>,
        Progress<AddWal, IdRow<WAL>>,
        Progress<AddWal, IdRow<WAL>>,
        Progress<AddWal, IdRow<WAL>>,
    ),
    read: (
        Progress<GetWal, DataFrame>,
        Progress<GetWal, DataFrame>,
        Progress<GetWal, DataFrame>,
        Progress<GetWal, DataFrame>,
    ),
)
    requires
        (AddWal::Registering { data }).step(Reply::Wal(wal), added.0),
        added.0 is Next ==> added.0->Next_0.step(Reply::Path(local_path), added.1),
        added.1 is Next ==> added.1->Next_0.step(Reply::Done, added.2),
        added.2 is Next ==> added.2->Next_0.step(Reply::Done, added.3),
        (GetWal::Fetching { wal_id: wal.id }).step(
            Reply::Wal(IdRow { id: wal.id, row: WAL { uploaded: true, ..wal.row } }),
            read.0,
        ),
        read.0 is Next ==> read.0->Next_0.step(Reply::Done, read.1),
        read.1 is Next ==> read.1->Next_0.step(Reply::Path(local_path), read.2),
        read.2 is Next ==> read.2->Next_0.step(Reply::Frame(data), read.3),
    ensures
        added.0 matches Progress::Next(_, Request::LocalFile { remote_path }) && remote_path@
            == wal_path(wal.id),
        added.1 matches Progress::Next(_, Request::SaveFrame { local_path: written, data: batch })
            && written == local_path && batch == data,
        added.2 matches Progress::Next(_, Request::WalUploaded { wal_id }) && wal_id == wal.id,
        added.3 == Progress::<AddWal, IdRow<WAL>>::Done(Ok(wal)),
        read.0 matches Progress::Next(_, Request::DownloadFile { remote_path }) && remote_path@
            == wal_path(wal.id),
        read.1 matches Progress::Next(_, Request::LocalFile { remote_path }) && remote_path@
            == wal_path(wal.id),
        read.2 matches Progress::Next(_, Request::LoadFrame { local_path: asked }) && asked
            == local_path,
        read.3 == Progress::<GetWal, DataFrame>::Done(Ok(data)),
{
}

} // verus!
