use storage_workload::memory::MemoryStorage;
use storage_workload::reader::{spawn_readers, ReadTick, ReaderTask};
use storage_workload::seeder::seed_db;
use storage_workload::storage::{FakeStorageImpl, StorageError};
use storage_workload::writer::{spawn_writers, WriteTick, WriterTask};

fn store_with(cameras: &[&str]) -> MemoryStorage {
    let mut db = MemoryStorage::new();
    for camera in cameras {
        db.add_camera(camera);
    }
    db
}

#[test]
fn a_new_writer_stands_at_its_start() {
    let task = WriterTask::new("camera0".to_owned(), 100);
    assert_eq!(task.camera_name(), "camera0");
    assert_eq!(task.next_index(), 100);
    assert!(task.is_running());
    assert!(task.is_due());
    assert_eq!(task.max_latency_nanos(), 0);
}

#[test]
fn a_write_that_succeeds_moves_the_cursor_by_one() {
    let mut task = WriterTask::new("camera0".to_owned(), 100);
    assert_eq!(
        task.complete(Ok(()), 5),
        WriteTick::Written { index: 100, elapsed_nanos: 5, raised: true }
    );
    assert_eq!(task.next_index(), 101);
    assert_eq!(
        task.complete(Ok(()), 3),
        WriteTick::Written { index: 101, elapsed_nanos: 3, raised: false }
    );
    assert_eq!(task.next_index(), 102);
    assert_eq!(
        task.complete(Ok(()), 8),
        WriteTick::Written { index: 102, elapsed_nanos: 8, raised: true }
    );
    assert_eq!(task.next_index(), 103);
    assert_eq!(task.max_latency_nanos(), 8);
    assert!(task.is_running());
}

#[test]
fn the_cursor_moves_whatever_the_write_took() {
    let mut task = WriterTask::new("camera0".to_owned(), 0);
    assert_eq!(
        task.complete(Ok(()), u128::MAX),
        WriteTick::Written { index: 0, elapsed_nanos: u128::MAX, raised: true }
    );
    assert_eq!(
        task.complete(Ok(()), 0),
        WriteTick::Written { index: 1, elapsed_nanos: 0, raised: false }
    );
    assert_eq!(task.next_index(), 2);
}

#[test]
fn a_write_that_fails_stops_the_writer() {
    let mut task = WriterTask::new("camera0".to_owned(), 100);
    assert_eq!(
        task.complete(Ok(()), 5),
        WriteTick::Written { index: 100, elapsed_nanos: 5, raised: true }
    );
    assert_eq!(
        task.complete(Err(StorageError::WriteFailure), 50),
        WriteTick::Failed(StorageError::WriteFailure)
    );
    assert!(!task.is_running());
    assert!(!task.is_due());
    assert_eq!(task.next_index(), 101);
    assert_eq!(task.max_latency_nanos(), 5);
    assert_eq!(task.complete(Ok(()), 1), WriteTick::Stopped);
    assert_eq!(task.next_index(), 101);
    assert_eq!(task.max_latency_nanos(), 5);
}

#[test]
fn a_writer_stops_when_no_index_is_left() {
    let mut db = store_with(&["camera0"]);
    let mut task = WriterTask::new("camera0".to_owned(), u64::MAX - 1);
    match task.tick(&mut db, &[1]) {
        WriteTick::Written { index, .. } => assert_eq!(index, u64::MAX - 1),
        other => panic!("{:?}", other),
    }
    assert_eq!(task.next_index(), u64::MAX);
    assert!(!task.is_due());
    assert_eq!(task.tick(&mut db, &[1]), WriteTick::Stopped);
    assert!(!task.is_running());
    assert_eq!(db.read_image("camera0", u64::MAX), Ok(None));
    assert_eq!(db.read_image("camera0", u64::MAX - 1), Ok(Some(vec![1])));
}

#[test]
fn a_tick_writes_the_payload_at_the_cursor() {
    let mut db = store_with(&["camera0"]);
    let mut task = WriterTask::new("camera0".to_owned(), 3);
    let payload = vec![1u8, 2, 3];
    match task.tick(&mut db, &payload) {
        WriteTick::Written { index, raised, elapsed_nanos } => {
            assert_eq!(index, 3);
            assert_eq!(raised, elapsed_nanos > 0);
        },
        other => panic!("{:?}", other),
    }
    assert_eq!(task.next_index(), 4);
    assert_eq!(db.read_image("camera0", 3), Ok(Some(payload)));
    assert_eq!(db.read_image("camera0", 4), Ok(None));
    assert_eq!(db.read_image("camera0", 2), Ok(None));
}

#[test]
fn a_tick_on_an_unregistered_camera_fails_and_stops() {
    let mut db = store_with(&["camera1"]);
    let mut task = WriterTask::new("camera0".to_owned(), 0);
    assert_eq!(task.tick(&mut db, &[1]), WriteTick::Failed(StorageError::WriteFailure));
    assert!(!task.is_running());
    assert_eq!(task.next_index(), 0);
    db.add_camera("camera0");
    assert_eq!(task.tick(&mut db, &[1]), WriteTick::Stopped);
    assert_eq!(db.read_image("camera0", 0), Ok(None));
}

#[test]
fn the_indices_of_a_writer_rise_by_one() {
    let mut db = store_with(&["camera0"]);
    let mut task = WriterTask::new("camera0".to_owned(), 100);
    let mut indices: Vec<u64> = Vec::new();
    for _ in 0..250 {
        match task.tick(&mut db, &[0]) {
            WriteTick::Written { index, .. } => indices.push(index),
            other => panic!("{:?}", other),
        }
    }
    let expected: Vec<u64> = (100..350).collect();
    assert_eq!(indices, expected);
    assert_eq!(task.next_index(), 350);
}

#[test]
fn the_largest_duration_of_a_writer_is_the_largest_reported() {
    let mut db = store_with(&["camera0"]);
    let mut task = WriterTask::new("camera0".to_owned(), 0);
    let mut largest: u128 = 0;
    for _ in 0..50 {
        match task.tick(&mut db, &[0]) {
            WriteTick::Written { elapsed_nanos, raised, .. } => {
                assert_eq!(raised, elapsed_nanos > largest);
                if raised {
                    largest = elapsed_nanos;
                }
            },
            other => panic!("{:?}", other),
        }
        assert_eq!(task.max_latency_nanos(), largest);
    }
}

#[test]
fn one_writer_for_each_camera_in_order() {
    let cameras = vec!["a".to_owned(), "b".to_owned(), "c".to_owned()];
    let writers = spawn_writers(&cameras, 100);
    assert_eq!(writers.len(), 3);
    for (writer, camera) in writers.iter().zip(cameras.iter()) {
        assert_eq!(writer.camera_name(), camera);
        assert_eq!(writer.next_index(), 100);
        assert!(writer.is_running());
        assert_eq!(writer.max_latency_nanos(), 0);
    }
}

#[test]
fn no_camera_no_writer() {
    let cameras: Vec<String> = Vec::new();
    assert!(spawn_writers(&cameras, 5).is_empty());
}

#[test]
fn a_reader_needs_an_index_to_draw() {
    assert!(ReaderTask::new("camera0".to_owned(), 0, 0).is_none());
    assert!(ReaderTask::new("camera0".to_owned(), 5, 5).is_none());
    assert!(ReaderTask::new("camera0".to_owned(), 6, 5).is_none());
    assert!(ReaderTask::new("camera0".to_owned(), 5, 6).is_some());
}

#[test]
fn a_new_reader_keeps_its_camera_and_range() {
    let task = ReaderTask::new("camera1".to_owned(), 0, 100).unwrap();
    assert_eq!(task.camera_name(), "camera1");
    assert_eq!(task.range(), (0, 100));
    assert!(task.is_running());
    assert_eq!(task.max_latency_nanos(), 0);
}

#[test]
fn a_read_that_gives_a_result_is_a_success() {
    let mut task = ReaderTask::new("camera0".to_owned(), 0, 10).unwrap();
    assert_eq!(
        task.complete(4, Ok(Some(vec![1, 2])), 7),
        ReadTick::Read { index: 4, frame: Some(vec![1, 2]), elapsed_nanos: 7, raised: true }
    );
    assert_eq!(
        task.complete(9, Ok(None), 7),
        ReadTick::Read { index: 9, frame: None, elapsed_nanos: 7, raised: false }
    );
    assert_eq!(
        task.complete(0, Ok(None), 11),
        ReadTick::Read { index: 0, frame: None, elapsed_nanos: 11, raised: true }
    );
    assert!(task.is_running());
    assert_eq!(task.max_latency_nanos(), 11);
}

#[test]
fn a_read_that_fails_stops_the_reader() {
    let mut task = ReaderTask::new("camera0".to_owned(), 0, 10).unwrap();
    assert_eq!(
        task.complete(4, Err(StorageError::ReadFailure), 7),
        ReadTick::Failed(StorageError::ReadFailure)
    );
    assert!(!task.is_running());
    assert_eq!(task.max_latency_nanos(), 0);
    assert_eq!(task.complete(4, Ok(None), 7), ReadTick::Stopped);
    assert_eq!(task.max_latency_nanos(), 0);
    let db = store_with(&["camera0"]);
    assert_eq!(task.tick(&db), ReadTick::Stopped);
}

#[test]
fn a_reader_of_one_index_draws_that_index() {
    let mut db = store_with(&["camera0"]);
    assert_eq!(db.write_image("camera0", 41, &[4, 1]), Ok(()));
    let mut task = ReaderTask::new("camera0".to_owned(), 41, 42).unwrap();
    for _ in 0..20 {
        match task.tick(&db) {
            ReadTick::Read { index, frame, .. } => {
                assert_eq!(index, 41);
                assert_eq!(frame, Some(vec![4, 1]));
            },
            other => panic!("{:?}", other),
        }
    }
}

#[test]
fn a_reader_draws_within_its_range_and_not_one_index_only() {
    let mut db = store_with(&["camera0"]);
    let cameras = vec!["camera0".to_owned()];
    assert_eq!(seed_db(&mut db, &cameras, 1000, &[3]), Ok(1000));
    let mut task = ReaderTask::new("camera0".to_owned(), 200, 1000).unwrap();
    let mut drawn: Vec<u64> = Vec::new();
    for _ in 0..200 {
        match task.tick(&db) {
            ReadTick::Read { index, frame, .. } => {
                assert!(index >= 200 && index < 1000);
                assert_eq!(frame, Some(vec![3]));
                drawn.push(index);
            },
            other => panic!("{:?}", other),
        }
    }
    drawn.sort();
    drawn.dedup();
    assert!(drawn.len() > 1);
}

#[test]
fn a_reader_takes_an_absent_frame_as_a_result() {
    let db = store_with(&["camera0"]);
    let mut task = ReaderTask::new("camera0".to_owned(), 0, 10).unwrap();
    match task.tick(&db) {
        ReadTick::Read { index, frame, .. } => {
            assert!(index < 10);
            assert_eq!(frame, None);
        },
        other => panic!("{:?}", other),
    }
    assert!(task.is_running());
}

#[test]
fn a_reader_of_an_unregistered_camera_fails_and_stops() {
    let db = store_with(&["camera1"]);
    let mut task = ReaderTask::new("camera0".to_owned(), 0, 10).unwrap();
    assert_eq!(task.tick(&db), ReadTick::Failed(StorageError::ReadFailure));
    assert!(!task.is_running());
    assert_eq!(task.tick(&db), ReadTick::Stopped);
}

#[test]
fn readers_are_bound_to_cameras_of_the_run() {
    let cameras = vec!["a".to_owned(), "b".to_owned(), "c".to_owned()];
    let readers = spawn_readers(&cameras, 0, 100, 60).unwrap();
    assert_eq!(readers.len(), 60);
    let mut bound: Vec<String> = Vec::new();
    for reader in &readers {
        assert!(cameras.iter().any(|camera| camera == reader.camera_name()));
        assert_eq!(reader.range(), (0, 100));
        assert!(reader.is_running());
        bound.push(reader.camera_name().to_owned());
    }
    bound.sort();
    bound.dedup();
    assert!(bound.len() > 1);
}

#[test]
fn readers_of_one_camera_are_bound_to_it() {
    let cameras = vec!["only".to_owned()];
    let readers = spawn_readers(&cameras, 3, 4, 5).unwrap();
    assert_eq!(readers.len(), 5);
    for reader in &readers {
        assert_eq!(reader.camera_name(), "only");
        assert_eq!(reader.range(), (3, 4));
    }
}

#[test]
fn no_readers_without_a_camera_or_an_index() {
    let none: Vec<String> = Vec::new();
    let cameras = vec!["a".to_owned()];
    assert!(spawn_readers(&none, 0, 100, 1).is_none());
    assert!(spawn_readers(&cameras, 0, 0, 1).is_none());
    assert!(spawn_readers(&cameras, 7, 3, 1).is_none());
}

#[test]
fn asking_for_no_reader_gives_none_of_them() {
    let none: Vec<String> = Vec::new();
    let cameras = vec!["a".to_owned()];
    assert_eq!(spawn_readers(&none, 0, 100, 0).map(|readers| readers.len()), Some(0));
    assert_eq!(spawn_readers(&cameras, 0, 0, 0).map(|readers| readers.len()), Some(0));
}
