use cubestore::chunk_store::ChunkStore;
use cubestore::wal_store::WALStore;

#[test]
fn wal_remote_path_is_id_with_suffix() {
    assert_eq!(WALStore::wal_remote_path(0), "0.wal");
    assert_eq!(WALStore::wal_remote_path(7), "7.wal");
    assert_eq!(WALStore::wal_remote_path(1234567890), "1234567890.wal");
    assert_eq!(WALStore::wal_remote_path(u64::MAX), "18446744073709551615.wal");
}

#[test]
fn chunk_remote_path_is_id_with_suffix() {
    assert_eq!(ChunkStore::chunk_remote_path(1), "1.chunk.parquet");
    assert_eq!(ChunkStore::chunk_remote_path(10), "10.chunk.parquet");
    assert_eq!(ChunkStore::chunk_remote_path(4096), "4096.chunk.parquet");
}
