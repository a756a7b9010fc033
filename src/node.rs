use vstd::prelude::*;
use vstd::utf8::encode_utf8;

use crate::api::{PutRecordsResponse, ReplicateLogRequest, ReplicateLogResponse};
use crate::hmac::{hmac_sha256, tag_matches, HmacError, HmacForm, HmacValue};
use crate::offset::Offset;
use crate::record::{views, Record};
use crate::replication::{queued, report_outcome, Replication, WaitingRequest};
use crate::storage::{append_batch, high_watermark, read_window, Storage, StorageError};

verus! {

/// Seconds that a write waits for its quorum before it fails.
pub const REPLICATION_TIMEOUT_S: i32 = 5;

/// Most records that a leader sends in answer to one pull.
pub const REPLICATION_BATCH: usize = 10;

/// Poll interval of a follower that has not yet heard from its leader.
pub const INITIAL_BACKOFF_MS: u64 = 100;

/// Poll interval after a pull that brought records.
pub const MIN_BACKOFF_MS: u64 = 10;

/// The poll interval grows while below this bound.
pub const MAX_BACKOFF_MS: u64 = 1000;

/// Growth of the poll interval after each empty pull.
pub const BACKOFF_STEP_MS: u64 = 10;

/// Why a node refused a request.
#[derive(Debug)]
pub enum ControllerError {
    /// The quorum was not reached within `timeout_s` seconds; the records stay appended.
    Replication { timeout_s: i32 },
    /// An envelope failed authentication.
    Hmac(HmacError),
    /// A follower could not forward a write to its leader.
    LeaderForwarding { leader: String },
    /// The request is for the leader, at `leader`.
    IsFollower { leader: String },
    /// The storage engine refused the operation.
    Storage(StorageError),
}

impl ControllerError {
    /// The transport status that the error maps to.
    pub fn status(&self) -> (r: u16)
        ensures
            r == match self {
                ControllerError::Replication { .. } => 500u16,
                ControllerError::Hmac(_) => 401u16,
                ControllerError::LeaderForwarding { .. } => 500u16,
                ControllerError::IsFollower { .. } => 421u16,
                ControllerError::Storage(_) => 500u16,
            },
    {
        match self {
            ControllerError::Replication { .. } => 500,
            ControllerError::Hmac(_) => 401,
            ControllerError::LeaderForwarding { .. } => 500,
            ControllerError::IsFollower { .. } => 421,
            ControllerError::Storage(_) => 500,
        }
    }

    /// The node to try instead, where there is one.
    pub fn prefer(&self) -> (r: Option<String>)
        ensures
            match self {
                ControllerError::LeaderForwarding { leader } => r is Some && r->Some_0@ == leader@,
                ControllerError::IsFollower { leader } => r is Some && r->Some_0@ == leader@,
                _ => r is None,
            },
    {
        match self {
            ControllerError::LeaderForwarding { leader } => Some(leader.clone()),
            ControllerError::IsFollower { leader } => Some(leader.clone()),
            _ => None,
        }
    }
}

/// The error of a write whose quorum wait ran out.
pub fn replication_timeout() -> (r: ControllerError)
    ensures
        r == (ControllerError::Replication { timeout_s: REPLICATION_TIMEOUT_S }),
{
    ControllerError::Replication { timeout_s: REPLICATION_TIMEOUT_S }
}

/// What a leader's write comes to once its records are appended.
#[derive(Debug)]
pub enum WriteOutcome {
    /// Nothing more to wait for.
    Committed(PutRecordsResponse),
    /// A wait on the batch's last offset is queued; the write succeeds when it is woken.
    AwaitingQuorum(PutRecordsResponse),
}

/// The offset a leader sends from: one past what the follower holds, or the origin.
pub open spec fn next_batch_offset(max_acknowledged: Option<Offset>) -> usize {
    match max_acknowledged {
        None => 0,
        Some(o) => if o.0 < usize::MAX {
            (o.0 + 1) as usize
        } else {
            usize::MAX
        },
    }
}

/// The leader: it accepts writes and serves its log to followers.
pub struct Leader<S, T> {
    token: String,
    storage: S,
    replication: Replication<T>,
}

impl<S: Storage, T> Leader<S, T> {
    pub closed spec fn secret(&self) -> Seq<u8> {
        encode_utf8(self.token@)
    }

    pub closed spec fn store(&self) -> S {
        self.storage
    }

    pub closed spec fn tracker(&self) -> Replication<T> {
        self.replication
    }

    pub open spec fn wf(&self) -> bool {
        self.store().wf() && self.tracker().wf()
    }

    pub fn new(token: String, storage: S, required_replicas: usize) -> (r: Leader<S, T>)
        requires
            storage.wf(),
        ensures
            r.wf(),
            r.secret() == encode_utf8(token@),
            r.store() == storage,
            r.tracker().required() == required_replicas,
            r.tracker().pending().len() == 0,
            r.tracker().acks().len() == 0,
    {
        Leader { token, storage, replication: Replication::new(required_replicas) }
    }

    pub fn storage(&self) -> (r: &S)
        ensures
            *r == self.store(),
    {
        &self.storage
    }

    /// Appends one record to the leader's storage, with no quorum wait.
    pub fn put_record(&mut self, record: Record) -> (r: Result<Offset, StorageError>)
        requires
            old(self).store().wf(),
        ensures
            final(self).store().wf(),
            final(self).secret() == old(self).secret(),
            final(self).tracker() == old(self).tracker(),
            r is Ok <==> old(self).store().has_room_for(record@),
            r is Ok ==> r->Ok_0.0 == old(self).store().log().len() && final(self).store().log()
                == old(self).store().log().push(record@),
            r is Err ==> r == Err::<Offset, StorageError>(StorageError::CapacityExceeded)
                && final(self).store() == old(self).store(),
    {
        self.storage.put_record(record)
    }

    /// Appends a batch in order. When followers must confirm and the batch is not empty, queues
    /// `wake_tx` to wait for the batch's last offset.
    pub fn put_records(&mut self, records: Vec<Record>, wake_tx: T) -> (r: Result<
        WriteOutcome,
        ControllerError,
    >)
        requires
            old(self).wf(),
        ensures
            final(self).wf(),
            final(self).secret() == old(self).secret(),
            r is Err ==> (r matches Err(ControllerError::Storage(StorageError::CapacityExceeded)))
                && final(self).tracker() == old(self).tracker() && exists|k: int|
                0 <= k < records@.len() && final(self).store().log() == old(self).store().log()
                    + views(records@.subrange(0, k)) && !final(self).store().has_room_for(
                    #[trigger] records@[k]@,
                ),
            r is Ok ==> {
                let start = old(self).store().log().len();
                let n = records@.len();
                let response = PutRecordsResponse { offset: Offset(start as usize), len: n as usize };
                &&& final(self).store().log() == old(self).store().log() + views(records@)
                &&& if old(self).tracker().required() > 0 && n > 0 {
                    &&& r->Ok_0 == WriteOutcome::AwaitingQuorum(response)
                    &&& final(self).tracker().acks() == old(self).tracker().acks()
                    &&& final(self).tracker().required() == old(self).tracker().required()
                    &&& queued(
                        old(self).tracker().pending(),
                        final(self).tracker().pending(),
                        WaitingRequest { waiting_for: Offset((start + n - 1) as usize), wake_tx },
                    )
                } else {
                    &&& r->Ok_0 == WriteOutcome::Committed(response)
                    &&& final(self).tracker() == old(self).tracker()
                }
            },
    {
        let start = self.storage.len();
        let n = records.len();
        let offsets = match append_batch(&mut self.storage, records) {
            Ok(offsets) => offsets,
            Err(e) => {
                return Err(ControllerError::Storage(e));
            },
        };
        if n == 0 {
            return Ok(WriteOutcome::Committed(PutRecordsResponse { offset: Offset(start), len: 0 }));
        }
        let last = offsets[n - 1];
        let response = PutRecordsResponse { offset: Offset(start), len: n };
        if self.replication.required_replicas() > 0 {
            self.replication.register_wait(last, wake_tx);
            Ok(WriteOutcome::AwaitingQuorum(response))
        } else {
            Ok(WriteOutcome::Committed(response))
        }
    }

    /// Serves a follower's pull: authenticates it, records the follower's offset (waking the
    /// writes that now have their quorum; their signals come back), and answers with up to
    /// `REPLICATION_BATCH` records from one past that offset, sealed with the same secret.
    pub fn get_records_for_replication(&mut self, form: HmacForm<ReplicateLogRequest>) -> (r:
        Result<(HmacForm<ReplicateLogResponse>, Vec<T>), ControllerError>)
        requires
            old(self).wf(),
        ensures
            final(self).wf(),
            final(self).secret() == old(self).secret(),
            final(self).store() == old(self).store(),
            r is Err <==> !tag_matches(form.tag(), form.payload(), old(self).secret()),
            r is Err ==> (r matches Err(ControllerError::Hmac(HmacError::Mismatch)))
                && final(self).tracker() == old(self).tracker(),
            r is Ok ==> {
                let req = form.payload();
                let response = r->Ok_0.0;
                &&& report_outcome(
                    old(self).tracker(),
                    final(self).tracker(),
                    req.follower_url@,
                    req.max_acknowledged_offset,
                    r->Ok_0.1@,
                )
                &&& views(response.payload().records@) == read_window(
                    old(self).store().log(),
                    next_batch_offset(req.max_acknowledged_offset) as nat,
                    REPLICATION_BATCH as nat,
                )
                &&& response.tag() == hmac_sha256(old(self).secret(), response.payload().mac_input())
            },
    {
        let req = match form.into_verified(self.token.as_str()) {
            Ok(req) => req,
            Err(e) => {
                return Err(ControllerError::Hmac(e));
            },
        };
        let next = match req.max_acknowledged_offset {
            None => 0,
            Some(o) => if o.0 < usize::MAX {
                o.0 + 1
            } else {
                usize::MAX
            },
        };
        let woken = self.replication.update_follower_max_offset(
            req.follower_url,
            req.max_acknowledged_offset,
        );
        let records = match self.storage.get_records(Offset(next), REPLICATION_BATCH) {
            Ok((records, _)) => records,
            Err(e) => {
                return Err(ControllerError::Storage(e));
            },
        };
        let response = HmacForm::new(ReplicateLogResponse::new(records), self.token.as_str());
        Ok((response, woken))
    }
}

/// A follower: it pulls its leader's log and replays it.
pub struct Follower<S> {
    token: String,
    storage: S,
    follower_url: String,
    leader_url: String,
}

impl<S: Storage> Follower<S> {
    pub closed spec fn secret(&self) -> Seq<u8> {
        encode_utf8(self.token@)
    }

    pub closed spec fn store(&self) -> S {
        self.storage
    }

    /// The follower's own callback address.
    pub closed spec fn address(&self) -> Seq<char> {
        self.follower_url@
    }

    /// The leader's address.
    pub closed spec fn leader(&self) -> Seq<char> {
        self.leader_url@
    }

    pub fn new(token: String, storage: S, follower_url: String, leader_url: String) -> (r:
        Follower<S>)
        ensures
            r.secret() == encode_utf8(token@),
            r.store() == storage,
            r.address() == follower_url@,
            r.leader() == leader_url@,
    {
        Follower { token, storage, follower_url, leader_url }
    }

    pub fn storage(&self) -> (r: &S)
        ensures
            *r == self.store(),
    {
        &self.storage
    }

    /// Appends one record to the follower's storage.
    pub fn put_record(&mut self, record: Record) -> (r: Result<Offset, StorageError>)
        requires
            old(self).store().wf(),
        ensures
            final(self).store().wf(),
            final(self).secret() == old(self).secret(),
            final(self).address() == old(self).address(),
            final(self).leader() == old(self).leader(),
            r is Ok <==> old(self).store().has_room_for(record@),
            r is Ok ==> r->Ok_0.0 == old(self).store().log().len() && final(self).store().log()
                == old(self).store().log().push(record@),
            r is Err ==> r == Err::<Offset, StorageError>(StorageError::CapacityExceeded)
                && final(self).store() == old(self).store(),
    {
        self.storage.put_record(record)
    }

    /// The sealed pull that reports the follower's high-watermark to its leader.
    pub fn replication_request(&self) -> (r: HmacForm<ReplicateLogRequest>)
        requires
            self.store().wf(),
        ensures
            r.payload().follower_url@ == self.address(),
            r.payload().max_acknowledged_offset == high_watermark(self.store().log()),
            r.tag() == hmac_sha256(self.secret(), r.payload().mac_input()),
    {
        let req = ReplicateLogRequest::new(self.follower_url.clone(), self.storage.max_offset());
        HmacForm::new(req, self.token.as_str())
    }

    /// Authenticates the leader's answer and appends its records in order; returns how many.
    pub fn apply_replication(&mut self, form: HmacForm<ReplicateLogResponse>) -> (r: Result<
        usize,
        ControllerError,
    >)
        requires
            old(self).store().wf(),
        ensures
            final(self).store().wf(),
            final(self).secret() == old(self).secret(),
            final(self).address() == old(self).address(),
            final(self).leader() == old(self).leader(),
            !tag_matches(form.tag(), form.payload(), old(self).secret()) ==> (r matches Err(
                ControllerError::Hmac(HmacError::Mismatch),
            )) && final(self).store() == old(self).store(),
            tag_matches(form.tag(), form.payload(), old(self).secret()) ==> {
                let records = form.payload().records@;
                &&& r is Ok ==> r->Ok_0 == records.len() && final(self).store().log() == old(
                    self,
                ).store().log() + views(records)
                &&& r is Err ==> (r matches Err(ControllerError::Storage(StorageError::CapacityExceeded)))
                    && exists|k: int|
                    0 <= k < records.len() && final(self).store().log() == old(self).store().log()
                        + views(records.subrange(0, k)) && !final(self).store().has_room_for(
                        #[trigger] records[k]@,
                    )
            },
    {
        let response = match form.into_verified(self.token.as_str()) {
            Ok(response) => response,
            Err(e) => {
                return Err(ControllerError::Hmac(e));
            },
        };
        let n = response.records.len();
        match append_batch(&mut self.storage, response.records) {
            Ok(_) => Ok(n),
            Err(e) => Err(ControllerError::Storage(e)),
        }
    }

    /// The answer to a request that only the leader serves.
    pub fn is_follower_error(&self) -> (r: ControllerError)
        ensures
            r matches ControllerError::IsFollower { leader } && leader@ == self.leader(),
    {
        ControllerError::IsFollower { leader: self.leader_url.clone() }
    }

    /// The answer to a write that could not be forwarded to the leader.
    pub fn forwarding_error(&self) -> (r: ControllerError)
        ensures
            r matches ControllerError::LeaderForwarding { leader } && leader@ == self.leader(),
    {
        ControllerError::LeaderForwarding { leader: self.leader_url.clone() }
    }
}

/// The follower's next poll interval: back to the floor after a pull that brought records;
/// one step longer after an empty one, while below the ceiling.
pub fn next_backoff(backoff_ms: u64, received: usize) -> (r: u64)
    ensures
        received > 0 ==> r == MIN_BACKOFF_MS,
        received == 0 && backoff_ms < MAX_BACKOFF_MS ==> r == backoff_ms + BACKOFF_STEP_MS,
        received == 0 && backoff_ms >= MAX_BACKOFF_MS ==> r == backoff_ms,
{
    if received > 0 {
        MIN_BACKOFF_MS
    } else if backoff_ms < MAX_BACKOFF_MS {
        backoff_ms + BACKOFF_STEP_MS
    } else {
        backoff_ms
    }
}

} // verus!
