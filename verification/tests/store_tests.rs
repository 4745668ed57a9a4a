use oicana_server::errors::ServiceError;
use oicana_server::ids::BlobId;
use oicana_server::ids::blob_file_name;
use oicana_server::ids::default_blob_id;
use oicana_server::store::BlobStore;

fn put_ok(store: &mut BlobStore, data: Vec<u8>) -> BlobId {
    match store.put(data, true) {
        Ok(id) => id,
        Err(_) => panic!("a durable write that was accepted must succeed"),
    }
}

#[test]
fn round_trip_returns_identical_bytes() {
    let mut store = BlobStore::new();
    let id = put_ok(&mut store, vec![1, 2, 3]);
    assert_eq!(store.get(id), Some(vec![1, 2, 3]));
}

#[test]
fn round_trip_of_empty_bytes() {
    let mut store = BlobStore::new();
    let id = put_ok(&mut store, vec![]);
    assert_eq!(store.get(id), Some(vec![]));
}

#[test]
fn miss_then_heal_after_cache_clear() {
    let mut store = BlobStore::new();
    let id = put_ok(&mut store, vec![42, 43]);
    store.clear_cache();
    assert_eq!(store.get(id), Some(vec![42, 43]));
    // The miss repopulated the cache; a second lookup still answers.
    assert_eq!(store.get(id), Some(vec![42, 43]));
}

#[test]
fn unknown_id_misses_before_and_after_restart() {
    let mut store = BlobStore::new();
    let _ = put_ok(&mut store, vec![1]);
    let unknown = BlobId { value: 0xdead_beef };
    assert_eq!(store.get(unknown), None);
    store.clear_cache();
    assert_eq!(store.get(unknown), None);
}

#[test]
fn rejected_durable_write_leaves_no_trace() {
    let mut store = BlobStore::new();
    match store.put(vec![9, 9], false) {
        Err(ServiceError::StorageFailure) => {}
        _ => panic!("a rejected durable write must surface as a storage failure"),
    }
    // The store still works and holds nothing from the failed write.
    let id = put_ok(&mut store, vec![5]);
    assert_eq!(store.get(id), Some(vec![5]));
}

#[test]
fn identical_bytes_get_distinct_identifiers() {
    let mut store = BlobStore::new();
    let a = put_ok(&mut store, vec![1, 2, 3]);
    let b = put_ok(&mut store, vec![1, 2, 3]);
    assert!(a != b);
    assert_eq!(store.get(a), Some(vec![1, 2, 3]));
    assert_eq!(store.get(b), Some(vec![1, 2, 3]));
}

#[test]
fn preloaded_blob_survives_cache_clear() {
    let mut store = BlobStore::new();
    let id = default_blob_id();
    assert_eq!(id.value, 0);
    store.preload(id, vec![10, 20]);
    assert_eq!(store.get(id), Some(vec![10, 20]));
    store.clear_cache();
    assert_eq!(store.get(id), Some(vec![10, 20]));
}

#[test]
fn storage_failure_maps_to_internal_error() {
    let e = ServiceError::StorageFailure;
    assert_eq!(e.status(), 500);
    assert_eq!(e.message(), "Failed to save file".to_string());
}

#[test]
fn blob_file_names_use_the_hyphenated_id() {
    let id = BlobId { value: 0x550e_8400_e29b_41d4_a716_4466_5544_0000 };
    assert_eq!(
        blob_file_name(id),
        "blobs/550e8400-e29b-41d4-a716-446655440000".to_string()
    );
    assert_eq!(
        blob_file_name(default_blob_id()),
        "blobs/00000000-0000-0000-0000-000000000000".to_string()
    );
}
