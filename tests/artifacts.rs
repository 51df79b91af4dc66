use ml_tracker::storage::join;
use ml_tracker::{Artifact, Config, LocalStorage, StrMap, TrackerError};

#[test]
fn stored_bytes_come_back_unchanged() {
    let data = b"test artifact data".to_vec();
    let a = Artifact::record(5, "test.txt", "p/test.txt".to_string(), &data);
    assert_eq!(a.run_id, 5);
    assert_eq!(a.name, "test.txt");
    assert_eq!(a.path, "p/test.txt");
    assert_eq!(a.metadata.size_bytes, 18);
    assert_eq!(a.verify(data.clone()).unwrap(), data);
}

#[test]
fn one_changed_byte_is_detected() {
    let data = b"test artifact data".to_vec();
    let a = Artifact::record(5, "test.txt", "p".to_string(), &data);
    let mut corrupt = data.clone();
    corrupt[3] ^= 1;
    let err = a.verify(corrupt).err().unwrap();
    assert!(matches!(err, TrackerError::InvalidOperation(_)));
}

#[test]
fn content_hash_is_blake3_hex() {
    let data = b"abc".to_vec();
    let a = Artifact::record(1, "n", "p".to_string(), &data);
    assert_eq!(a.metadata.content_hash, blake3::hash(&data).to_hex().to_string());
    assert_eq!(a.metadata.content_hash.len(), 64);
    let empty = Artifact::record(1, "n", "p".to_string(), &[]);
    assert_eq!(
        empty.metadata.content_hash,
        "af1349b9f5f9a1a6a0404dea36dcc9499bcb25c9adc112b7cc9a93cae41f3262"
    );
    assert_eq!(empty.metadata.size_bytes, 0);
}

#[test]
fn local_paths_are_root_run_name() {
    let s = LocalStorage::new("/data/ml");
    let id: u128 = 0x0123_4567_89ab_cdef_0123_4567_89ab_cdef;
    assert_eq!(s.run_dir(id), "/data/ml/01234567-89ab-cdef-0123-456789abcdef");
    assert_eq!(
        s.artifact_path(id, "model.bin"),
        "/data/ml/01234567-89ab-cdef-0123-456789abcdef/model.bin"
    );
    let t = LocalStorage::new("root/");
    assert_eq!(t.artifact_path(id, "x"), "root/01234567-89ab-cdef-0123-456789abcdef/x");
    assert_eq!(t.root(), "root/");
}

#[test]
fn join_adds_one_separator() {
    assert_eq!(join("a", "b"), "a/b");
    assert_eq!(join("a/", "b"), "a/b");
    assert_eq!(join("", "b"), "b");
}

#[test]
fn strmap_last_write_wins() {
    let mut m = StrMap::new();
    assert!(m.get("k").is_none());
    m.insert("k", "1");
    m.insert("j", "2");
    m.insert("k", "3");
    assert_eq!(m.get("k").unwrap(), "3");
    assert_eq!(m.get("j").unwrap(), "2");
    assert_eq!(m.len(), 2);
}

#[test]
fn default_config() {
    let c = Config::default();
    assert_eq!(c.storage_path, "./mltracker");
    assert_eq!(c.database_url, "sqlite:experiments.db");
    assert_eq!(c.db_pool_size, 5);
    assert_eq!(c.db_connection_timeout_secs, 30);
    assert_eq!(c.metric_buffer_size, 1000);
    assert_eq!(c.metric_flush_interval_ms, 60_000);
    let l = c.clone().logger_config();
    assert_eq!(l.buffer_size, 1000);
    assert_eq!(l.flush_interval_ms, 60_000);
}
