use storage_workload::memory::MemoryStorage;
use storage_workload::storage::{FakeStorageImpl, StorageError, SupportedDatabase};

#[test]
fn write_then_read_gives_the_payload_back() {
    let mut db = MemoryStorage::new();
    db.add_camera("camera0");
    assert_eq!(db.write_image("camera0", 0, &[1, 2, 3]), Ok(()));
    assert_eq!(db.read_image("camera0", 0), Ok(Some(vec![1, 2, 3])));
}

#[test]
fn read_of_an_unwritten_index_is_absent() {
    let mut db = MemoryStorage::new();
    db.add_camera("camera0");
    assert_eq!(db.read_image("camera0", 0), Ok(None));
    assert_eq!(db.write_image("camera0", 0, &[9]), Ok(()));
    assert_eq!(db.read_image("camera0", 1), Ok(None));
    assert_eq!(db.read_image("camera0", u64::MAX), Ok(None));
}

#[test]
fn write_to_an_unregistered_camera_is_a_write_failure() {
    let mut db = MemoryStorage::new();
    assert_eq!(db.write_image("camera0", 0, &[1]), Err(StorageError::WriteFailure));
    db.add_camera("camera1");
    assert_eq!(db.write_image("camera0", 0, &[1]), Err(StorageError::WriteFailure));
    assert_eq!(db.read_image("camera1", 0), Ok(None));
}

#[test]
fn read_from_an_unregistered_camera_is_a_read_failure() {
    let mut db = MemoryStorage::new();
    assert_eq!(db.read_image("camera0", 0), Err(StorageError::ReadFailure));
    db.add_camera("camera1");
    assert_eq!(db.read_image("camera0", 0), Err(StorageError::ReadFailure));
}

#[test]
fn a_second_write_replaces_the_first() {
    let mut db = MemoryStorage::new();
    db.add_camera("camera0");
    assert_eq!(db.write_image("camera0", 4, &[1, 1]), Ok(()));
    assert_eq!(db.write_image("camera0", 4, &[2]), Ok(()));
    assert_eq!(db.read_image("camera0", 4), Ok(Some(vec![2])));
}

#[test]
fn registering_twice_keeps_the_frames() {
    let mut db = MemoryStorage::new();
    db.add_camera("camera0");
    assert_eq!(db.write_image("camera0", 0, &[7]), Ok(()));
    db.add_camera("camera0");
    db.add_camera("camera0");
    assert_eq!(db.read_image("camera0", 0), Ok(Some(vec![7])));
    assert_eq!(db.write_image("camera0", 1, &[8]), Ok(()));
    assert_eq!(db.read_image("camera0", 1), Ok(Some(vec![8])));
}

#[test]
fn cameras_do_not_share_frames() {
    let mut db = MemoryStorage::new();
    db.add_camera("a");
    db.add_camera("b");
    assert_eq!(db.write_image("a", 0, &[1]), Ok(()));
    assert_eq!(db.read_image("b", 0), Ok(None));
    assert_eq!(db.write_image("b", 0, &[2]), Ok(()));
    assert_eq!(db.read_image("a", 0), Ok(Some(vec![1])));
    assert_eq!(db.read_image("b", 0), Ok(Some(vec![2])));
}

#[test]
fn an_empty_payload_is_a_frame() {
    let mut db = MemoryStorage::new();
    db.add_camera("a");
    assert_eq!(db.write_image("a", 3, &[]), Ok(()));
    assert_eq!(db.read_image("a", 3), Ok(Some(vec![])));
}

#[test]
fn every_kind_of_back_end_is_reached_through_the_enum() {
    let mut kinds: Vec<SupportedDatabase<MemoryStorage, MemoryStorage, MemoryStorage>> = vec![
        SupportedDatabase::Filesystem(MemoryStorage::new()),
        SupportedDatabase::RocksDB(MemoryStorage::new()),
        SupportedDatabase::Sled(MemoryStorage::new()),
    ];
    for db in kinds.iter_mut() {
        assert_eq!(db.read_image("camera0", 0), Err(StorageError::ReadFailure));
        db.add_camera("camera0");
        assert_eq!(db.read_image("camera0", 0), Ok(None));
        assert_eq!(db.write_image("camera0", 0, &[5, 6]), Ok(()));
        assert_eq!(db.read_image("camera0", 0), Ok(Some(vec![5, 6])));
        assert_eq!(db.write_image("camera1", 0, &[5, 6]), Err(StorageError::WriteFailure));
    }
}

#[test]
fn errors_say_what_failed() {
    assert_eq!(
        StorageError::NamespaceCreationFailure.describe(),
        "the namespace of a camera could not be created"
    );
    assert_eq!(StorageError::WriteFailure.describe(), "a frame could not be written");
    assert_eq!(StorageError::ReadFailure.describe(), "a frame could not be read");
}

/// A back end without a store, to tell the kinds of handle apart.
#[derive(Clone)]
struct Nowhere;

impl FakeStorageImpl for Nowhere {
    fn add_camera(&mut self, _name: &str) {}

    fn write_image(&mut self, _camera: &str, _index: u64, _image: &[u8]) -> Result<(), StorageError> {
        Err(StorageError::WriteFailure)
    }

    fn read_image(&self, _camera: &str, _index: u64) -> Result<Option<Vec<u8>>, StorageError> {
        Err(StorageError::ReadFailure)
    }
}

#[test]
fn a_cloned_handle_is_of_the_same_kind() {
    let filesystem: SupportedDatabase<Nowhere, Nowhere, Nowhere> =
        SupportedDatabase::Filesystem(Nowhere);
    let rocks: SupportedDatabase<Nowhere, Nowhere, Nowhere> = SupportedDatabase::RocksDB(Nowhere);
    let sled: SupportedDatabase<Nowhere, Nowhere, Nowhere> = SupportedDatabase::Sled(Nowhere);
    assert!(matches!(filesystem.clone(), SupportedDatabase::Filesystem(_)));
    assert!(matches!(rocks.clone(), SupportedDatabase::RocksDB(_)));
    assert!(matches!(sled.clone(), SupportedDatabase::Sled(_)));
    let mut handle = sled.clone();
    assert_eq!(handle.write_image("camera0", 0, &[1]), Err(StorageError::WriteFailure));
    assert_eq!(handle.read_image("camera0", 0), Err(StorageError::ReadFailure));
}
