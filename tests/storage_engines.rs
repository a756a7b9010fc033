use tokki::log::Log;
use tokki::offset::Offset;
use tokki::record::Record;
use tokki::storage::{
    append_batch, InMemoryLockFree, InMemoryStorage, LogFile, LogFileRequest, LogFileResponse,
    Storage, StorageError,
};

fn record(key: &str) -> Record {
    Record::new(key.as_bytes().to_vec(), format!("value-{key}").into_bytes(), key.len() as u64)
}

fn keys(records: &[Record]) -> Vec<Vec<u8>> {
    records.iter().map(|r| r.key().to_vec()).collect()
}

fn abc_scenario<S: Storage>(mut engine: S) {
    assert_eq!(engine.max_offset(), None);
    assert_eq!(engine.len(), 0);
    for (i, k) in ["a", "b", "c"].iter().enumerate() {
        assert_eq!(engine.put_record(record(k)), Ok(Offset(i)));
    }
    assert_eq!(engine.max_offset(), Some(Offset(2)));
    let (records, next) = engine.get_records(Offset(0), 10).unwrap();
    assert_eq!(keys(&records), vec![b"a".to_vec(), b"b".to_vec(), b"c".to_vec()]);
    assert_eq!(records[1], record("b"));
    assert_eq!(next, Offset(3));
}

#[test]
fn mutex_engine_abc_scenario() {
    abc_scenario(InMemoryStorage::new());
}

#[test]
fn lockfree_engine_abc_scenario() {
    abc_scenario(InMemoryLockFree::with_capacity(16, 4096));
}

#[test]
fn lockfree_default_engine_abc_scenario() {
    abc_scenario(InMemoryLockFree::new());
}

#[test]
fn log_abc_scenario() {
    let mut log = Log::new();
    assert_eq!(log.max_offset(), None);
    assert_eq!(log.put_record(&record("a")), Offset(0));
    assert_eq!(log.put_record(&record("b")), Offset(1));
    assert_eq!(log.put_record(&record("c")), Offset(2));
    assert_eq!(log.max_offset(), Some(Offset(2)));
    let (records, next) = log.get_records(Offset(0), 10);
    assert_eq!(keys(&records), vec![b"a".to_vec(), b"b".to_vec(), b"c".to_vec()]);
    assert_eq!(next, Offset(3));
}

#[test]
fn channel_worker_abc_scenario() {
    let mut file = LogFile::new();
    assert!(matches!(file.handle(LogFileRequest::MaxOffset), LogFileResponse::MaxOffset(None)));
    for (i, k) in ["a", "b", "c"].iter().enumerate() {
        match file.handle(LogFileRequest::Put(record(k))) {
            LogFileResponse::Put(o) => assert_eq!(o, Offset(i)),
            _ => panic!("wrong reply"),
        }
    }
    assert!(matches!(
        file.handle(LogFileRequest::MaxOffset),
        LogFileResponse::MaxOffset(Some(Offset(2)))
    ));
    match file.handle(LogFileRequest::Get(Offset(0), 10)) {
        LogFileResponse::Get(records, next) => {
            assert_eq!(keys(&records), vec![b"a".to_vec(), b"b".to_vec(), b"c".to_vec()]);
            assert_eq!(next, Offset(3));
        }
        _ => panic!("wrong reply"),
    }
}

fn windows<S: Storage>(mut engine: S) {
    for k in ["a", "b", "c", "d"] {
        engine.put_record(record(k)).unwrap();
    }
    let (records, next) = engine.get_records(Offset(1), 2).unwrap();
    assert_eq!(keys(&records), vec![b"b".to_vec(), b"c".to_vec()]);
    assert_eq!(next, Offset(3));
    let (records, next) = engine.get_records(Offset(3), 10).unwrap();
    assert_eq!(keys(&records), vec![b"d".to_vec()]);
    assert_eq!(next, Offset(4));
    let (records, next) = engine.get_records(Offset(0), 0).unwrap();
    assert!(records.is_empty());
    assert_eq!(next, Offset(0));
    let (records, next) = engine.get_records(Offset(4), 10).unwrap();
    assert!(records.is_empty());
    assert_eq!(next, Offset(4));
    let (records, next) = engine.get_records(Offset(9), usize::MAX).unwrap();
    assert!(records.is_empty());
    assert_eq!(next, Offset(9));
    let (records, next) = engine.get_records(Offset(2), usize::MAX).unwrap();
    assert_eq!(records.len(), 2);
    assert_eq!(next, Offset(4));
}

#[test]
fn mutex_engine_read_windows() {
    windows(InMemoryStorage::new());
}

#[test]
fn lockfree_engine_read_windows() {
    windows(InMemoryLockFree::with_capacity(8, 1024));
}

#[test]
fn batch_offsets_are_gap_free() {
    let mut engine = InMemoryStorage::new();
    let batch: Vec<Record> = (0..5).map(|i| record(&i.to_string())).collect();
    let offsets = append_batch(&mut engine, batch).unwrap();
    assert_eq!(offsets, (0..5).map(Offset).collect::<Vec<_>>());
    let more = append_batch(&mut engine, vec![record("x"), record("y")]).unwrap();
    assert_eq!(more, vec![Offset(5), Offset(6)]);
    assert_eq!(append_batch(&mut engine, Vec::new()).unwrap(), Vec::<Offset>::new());
}

#[test]
fn lockfree_slot_capacity_exceeded() {
    let mut engine = InMemoryLockFree::with_capacity(2, 4096);
    assert_eq!(engine.put_record(record("a")), Ok(Offset(0)));
    assert_eq!(engine.put_record(record("b")), Ok(Offset(1)));
    assert_eq!(engine.put_record(record("c")), Err(StorageError::CapacityExceeded));
    assert_eq!(engine.max_offset(), Some(Offset(1)));
    let (records, next) = engine.get_records(Offset(0), 10).unwrap();
    assert_eq!(records, vec![record("a"), record("b")]);
    assert_eq!(next, Offset(2));
}

#[test]
fn lockfree_byte_capacity_exceeded() {
    let one = record("a").serialized_len();
    let mut engine = InMemoryLockFree::with_capacity(16, 2 * one + 1);
    assert_eq!(engine.put_record(record("a")), Ok(Offset(0)));
    assert_eq!(engine.put_record(record("b")), Ok(Offset(1)));
    assert_eq!(engine.put_record(record("c")), Err(StorageError::CapacityExceeded));
    let (records, _) = engine.get_records(Offset(0), 10).unwrap();
    assert_eq!(records, vec![record("a"), record("b")]);
}

#[test]
fn lockfree_record_filling_arena_exactly_fits() {
    let one = record("a").serialized_len();
    let mut engine = InMemoryLockFree::with_capacity(4, one);
    assert_eq!(engine.put_record(record("a")), Ok(Offset(0)));
    assert_eq!(engine.put_record(record("b")), Err(StorageError::CapacityExceeded));
}

#[test]
fn batch_stops_at_first_refusal() {
    let mut engine = InMemoryLockFree::with_capacity(2, 4096);
    let result = append_batch(&mut engine, vec![record("a"), record("b"), record("c")]);
    assert_eq!(result, Err(StorageError::CapacityExceeded));
    assert_eq!(engine.len(), 2);
}

#[test]
fn stalled_append_holds_back_later_ones() {
    let mut engine = InMemoryLockFree::with_capacity(8, 1024);
    let a = record("a");
    let b = record("b");
    let ra = engine.reserve(a.serialized_len()).unwrap();
    let rb = engine.reserve(b.serialized_len()).unwrap();
    assert_eq!((ra.slot, rb.slot), (0, 1));
    assert_eq!(ra.end, rb.start);
    engine.write(&rb, &b);
    // Slot 1 is written, but slot 0 is not published yet.
    assert!(!engine.publish(&rb));
    assert_eq!(engine.max_offset(), None);
    assert!(engine.get_records(Offset(0), 10).unwrap().0.is_empty());
    engine.write(&ra, &a);
    assert!(engine.publish(&ra));
    assert_eq!(engine.max_offset(), Some(Offset(0)));
    assert!(engine.publish(&rb));
    let (records, next) = engine.get_records(Offset(0), 10).unwrap();
    assert_eq!(records, vec![a, b]);
    assert_eq!(next, Offset(2));
}

#[test]
fn failed_reservation_changes_nothing() {
    let mut engine = InMemoryLockFree::with_capacity(1, 64);
    assert_eq!(engine.reserve(65), Err(StorageError::CapacityExceeded));
    let r = engine.reserve(64).unwrap();
    assert_eq!((r.slot, r.start, r.end), (0, 0, 64));
    assert_eq!(engine.reserve(0), Err(StorageError::CapacityExceeded));
}
