use vstd::prelude::*;

use crate::log::Log;
use crate::offset::Offset;
use crate::record::{Record, RecordView};
use crate::storage::{high_watermark, is_read_of, Storage, StorageError};

verus! {

/// A request to the worker that owns a `LogFile`.
#[derive(Debug)]
pub enum LogFileRequest {
    Put(Record),
    Get(Offset, usize),
    MaxOffset,
}

/// The worker's reply to a `LogFileRequest`.
#[derive(Debug)]
pub enum LogFileResponse {
    Put(Offset),
    Get(Vec<Record>, Offset),
    MaxOffset(Option<Offset>),
}

/// The record sequence of the message-queue engine. One worker owns it and handles the
/// requests one at a time in arrival order, which orders all appends without a lock.
pub struct LogFile {
    log: Log,
}

impl View for LogFile {
    type V = Seq<RecordView>;

    closed spec fn view(&self) -> Seq<RecordView> {
        self.log@
    }
}

impl LogFile {
    pub fn new() -> (r: LogFile)
        ensures
            r@ == Seq::<RecordView>::empty(),
    {
        LogFile { log: Log::new() }
    }

    /// Handles one request and returns its reply.
    pub fn handle(&mut self, request: LogFileRequest) -> (r: LogFileResponse)
        ensures
            match request {
                LogFileRequest::Put(record) => {
                    &&& r == LogFileResponse::Put(Offset(old(self)@.len() as usize))
                    &&& final(self)@ == old(self)@.push(record@)
                },
                LogFileRequest::Get(offset, max_records) => {
                    &&& r is Get
                    &&& is_read_of((r->Get_0, r->Get_1), old(self)@, offset.0 as nat, max_records as nat)
                    &&& final(self)@ == old(self)@
                },
                LogFileRequest::MaxOffset => {
                    &&& r == LogFileResponse::MaxOffset(high_watermark(old(self)@))
                    &&& final(self)@ == old(self)@
                },
            },
    {
        match request {
            LogFileRequest::Put(record) => {
                let offset = self.log.put_record(&record);
                LogFileResponse::Put(offset)
            },
            LogFileRequest::Get(offset, max_records) => {
                let (records, next) = self.log.get_records(offset, max_records);
                LogFileResponse::Get(records, next)
            },
            LogFileRequest::MaxOffset => LogFileResponse::MaxOffset(self.log.max_offset()),
        }
    }
}

/// The worker's own view of its sequence: it appends and reads without a queue hop.
impl Storage for LogFile {
    closed spec fn log(&self) -> Seq<RecordView> {
        self@
    }

    closed spec fn wf(&self) -> bool {
        true
    }

    open spec fn has_room_for(&self, r: RecordView) -> bool {
        true
    }

    fn len(&self) -> (r: usize) {
        self.log.len()
    }

    fn max_offset(&self) -> (r: Option<Offset>) {
        self.log.max_offset()
    }

    fn put_record(&mut self, record: Record) -> (r: Result<Offset, StorageError>) {
        Ok(self.log.put_record(&record))
    }

    fn get_records(&self, offset: Offset, max_records: usize) -> (r: Result<
        (Vec<Record>, Offset),
        StorageError,
    >) {
        Ok(self.log.get_records(offset, max_records))
    }
}

} // verus!
