use vstd::prelude::*;

use crate::hmac::HmacValue;
use crate::offset::Offset;
use crate::record::Record;

verus! {

/// A read of up to `max_records` records from `offset`.
#[derive(Debug)]
pub struct GetRecordsRequest {
    pub offset: Offset,
    pub max_records: usize,
}

impl GetRecordsRequest {
    pub fn new(offset: Offset, max_records: usize) -> (r: GetRecordsRequest)
        ensures
            r.offset == offset,
            r.max_records == max_records,
    {
        GetRecordsRequest { offset, max_records }
    }

    pub fn offset(&self) -> (r: Offset)
        ensures
            r == self.offset,
    {
        self.offset
    }

    pub fn max_records(&self) -> (r: usize)
        ensures
            r == self.max_records,
    {
        self.max_records
    }
}

/// The records read, and the offset to resume from.
#[derive(Debug)]
pub struct GetRecordsResponse {
    records: Vec<Record>,
    next_offset: Offset,
}

impl GetRecordsResponse {
    pub closed spec fn spec_records(&self) -> Seq<Record> {
        self.records@
    }

    pub closed spec fn spec_next_offset(&self) -> Offset {
        self.next_offset
    }

    pub fn new(records: Vec<Record>, next_offset: Offset) -> (r: GetRecordsResponse)
        ensures
            r.spec_records() == records@,
            r.spec_next_offset() == next_offset,
    {
        GetRecordsResponse { records, next_offset }
    }

    pub fn records(&self) -> (r: &[Record])
        ensures
            r@ == self.spec_records(),
    {
        self.records.as_slice()
    }

    pub fn next_offset(&self) -> (r: Offset)
        ensures
            r == self.spec_next_offset(),
    {
        self.next_offset
    }

    /// The records, handed over.
    pub fn into_records(self) -> (r: Vec<Record>)
        ensures
            r@ == self.spec_records(),
    {
        self.records
    }
}

/// A batch of records to append.
#[derive(Debug)]
pub struct PutRecordsRequest {
    pub records: Vec<Record>,
}

impl PutRecordsRequest {
    /// A batch of one record.
    pub fn single(record: Record) -> (r: PutRecordsRequest)
        ensures
            r.records@ == seq![record],
    {
        PutRecordsRequest { records: vec![record] }
    }

    pub fn new(records: Vec<Record>) -> (r: PutRecordsRequest)
        ensures
            r.records@ == records@,
    {
        PutRecordsRequest { records }
    }
}

/// Where an appended batch starts, and how many records it holds.
#[derive(Debug, Clone, Copy, PartialEq, Eq, Structural)]
pub struct PutRecordsResponse {
    pub offset: Offset,
    pub len: usize,
}

impl PutRecordsResponse {
    pub fn new(offset: Offset, len: usize) -> (r: PutRecordsResponse)
        ensures
            r.offset == offset,
            r.len == len,
    {
        PutRecordsResponse { offset, len }
    }
}

/// A follower's pull: its callback address and the highest offset it holds.
#[derive(Debug)]
pub struct ReplicateLogRequest {
    pub follower_url: String,
    pub max_acknowledged_offset: Option<Offset>,
}

impl ReplicateLogRequest {
    pub fn new(follower_url: String, max_acknowledged_offset: Option<Offset>) -> (r:
        ReplicateLogRequest)
        ensures
            r.follower_url@ == follower_url@,
            r.max_acknowledged_offset == max_acknowledged_offset,
    {
        ReplicateLogRequest { follower_url, max_acknowledged_offset }
    }
}

/// The address's bytes, then the offset's presence marker and bytes.
impl HmacValue for ReplicateLogRequest {
    open spec fn mac_input(&self) -> Seq<u8> {
        self.follower_url.mac_input() + self.max_acknowledged_offset.mac_input()
    }

    fn update_mac(&self, mac: &mut Vec<u8>) {
        self.follower_url.update_mac(mac);
        self.max_acknowledged_offset.update_mac(mac);
        assert(mac@ =~= old(mac)@ + self.mac_input());
    }
}

/// The records a leader sends a follower.
#[derive(Debug)]
pub struct ReplicateLogResponse {
    pub records: Vec<Record>,
}

/// The bytes of the records of `rs`, one after the other.
pub open spec fn records_mac_input(rs: Seq<Record>) -> Seq<u8>
    decreases rs.len(),
{
    if rs.len() == 0 {
        Seq::empty()
    } else {
        records_mac_input(rs.drop_last()) + rs.last().mac_input()
    }
}

impl ReplicateLogResponse {
    pub fn new(records: Vec<Record>) -> (r: ReplicateLogResponse)
        ensures
            r.records@ == records@,
    {
        ReplicateLogResponse { records }
    }
}

/// Each record's bytes, in order.
impl HmacValue for ReplicateLogResponse {
    open spec fn mac_input(&self) -> Seq<u8> {
        records_mac_input(self.records@)
    }

    fn update_mac(&self, mac: &mut Vec<u8>) {
        let mut i: usize = 0;
        while i < self.records.len()
            invariant
                i <= self.records@.len(),
                mac@ == old(mac)@ + records_mac_input(self.records@.subrange(0, i as int)),
            decreases self.records@.len() - i,
        {
            let ghost before = mac@;
            self.records[i].update_mac(mac);
            i = i + 1;
            proof {
                let prefix = self.records@.subrange(0, i as int);
                assert(prefix.drop_last() =~= self.records@.subrange(0, i - 1));
                assert(mac@ =~= old(mac)@ + records_mac_input(prefix));
            }
        }
        assert(self.records@.subrange(0, i as int) =~= self.records@);
    }
}

#[derive(Debug)]
pub struct HealthcheckRequest {}

impl HealthcheckRequest {
    pub fn new() -> HealthcheckRequest {
        HealthcheckRequest {  }
    }
}

#[derive(Debug)]
pub struct HealthcheckResponse {
    pub status: String,
}

impl HealthcheckResponse {
    pub fn new(status: String) -> (r: HealthcheckResponse)
        ensures
            r.status@ == status@,
    {
        HealthcheckResponse { status }
    }
}

/// The body of an error reply: a message, and the node to try instead, if any.
#[derive(Debug)]
pub struct ApiErrorResponse {
    pub message: String,
    pub prefer: Option<String>,
}

impl ApiErrorResponse {
    pub fn new(message: String, prefer: Option<String>) -> (r: ApiErrorResponse)
        ensures
            r.message@ == message@,
            r.prefer == prefer,
    {
        ApiErrorResponse { message, prefer }
    }
}

} // verus!
