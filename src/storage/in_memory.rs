use vstd::prelude::*;

use crate::log::Log;
use crate::offset::Offset;
use crate::record::{Record, RecordView};
use crate::storage::{Storage, StorageError};

verus! {

/// The engine that keeps its records in one `Log`; a caller that shares it guards it with one
/// exclusive lock, so reads and writes exclude each other.
pub struct InMemoryStorage {
    log: Log,
}

impl InMemoryStorage {
    pub fn new() -> (r: InMemoryStorage)
        ensures
            r.log() == Seq::<RecordView>::empty(),
            r.wf(),
    {
        InMemoryStorage { log: Log::new() }
    }
}

impl Storage for InMemoryStorage {
    closed spec fn log(&self) -> Seq<RecordView> {
        self.log@
    }

    closed spec fn wf(&self) -> bool {
        true
    }

    open spec fn has_room_for(&self, r: RecordView) -> bool {
        true
    }

    fn len(&self) -> (r: usize) {
        self.log.len()
    }

    fn max_offset(&self) -> (r: Option<Offset>) {
        self.log.max_offset()
    }

    fn put_record(&mut self, record: Record) -> (r: Result<Offset, StorageError>) {
        Ok(self.log.put_record(&record))
    }

    fn get_records(&self, offset: Offset, max_records: usize) -> (r: Result<
        (Vec<Record>, Offset),
        StorageError,
    >) {
        Ok(self.log.get_records(offset, max_records))
    }
}

} // verus!
