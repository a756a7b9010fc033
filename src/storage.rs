use vstd::prelude::*;

use crate::offset::Offset;
use crate::record::{views, Record, RecordView};

pub mod in_memory;
pub mod in_memory_channel;
pub mod in_memory_lockfree;

pub use in_memory::InMemoryStorage;
pub use in_memory_channel::{LogFile, LogFileRequest, LogFileResponse};
pub use in_memory_lockfree::InMemoryLockFree;

verus! {

/// Why a storage engine refused an operation.
#[derive(Debug, Clone, Copy, PartialEq, Eq, Structural)]
pub enum StorageError {
    /// A fixed-size arena has no room left for the record.
    CapacityExceeded,
    /// A stored record did not decode.
    CorruptRecord,
}

/// The highest assigned offset of `log`, `None` when it is empty.
pub open spec fn high_watermark(log: Seq<RecordView>) -> Option<Offset> {
    if log.len() == 0 {
        None
    } else {
        Some(Offset((log.len() - 1) as usize))
    }
}

/// Index one past the last record that a read of at most `max` records from `from` returns.
pub open spec fn window_end(len: nat, from: nat, max: nat) -> nat {
    if from >= len {
        from
    } else if from + max >= len {
        len
    } else {
        from + max
    }
}

/// The records that a read of at most `max` records from `from` returns: the contiguous run
/// starting there, cut at the high-watermark.
pub open spec fn read_window(log: Seq<RecordView>, from: nat, max: nat) -> Seq<RecordView> {
    if from >= log.len() {
        Seq::empty()
    } else {
        log.subrange(from as int, window_end(log.len(), from, max) as int)
    }
}

/// Whether `r` is the outcome of a read of at most `max` records from `from`: the records, and
/// the offset one past the last one returned (`from` itself when none is).
pub open spec fn is_read_of(
    r: (Vec<Record>, Offset),
    log: Seq<RecordView>,
    from: nat,
    max: nat,
) -> bool {
    &&& views(r.0@) == read_window(log, from, max)
    &&& r.1.0 == window_end(log.len(), from, max)
}

/// An append-only record store addressed by offset.
pub trait Storage: Sized {
    /// The records held, in offset order.
    spec fn log(&self) -> Seq<RecordView>;

    /// Whether the engine's internal state is consistent.
    spec fn wf(&self) -> bool;

    /// Whether an append of `r` finds room.
    spec fn has_room_for(&self, r: RecordView) -> bool;

    /// Number of records held: the offset that the next append gets.
    fn len(&self) -> (r: usize)
        requires
            self.wf(),
        ensures
            r == self.log().len(),
    ;

    /// The current high-watermark.
    fn max_offset(&self) -> (r: Option<Offset>)
        requires
            self.wf(),
        ensures
            r == high_watermark(self.log()),
    ;

    /// Appends `record` at the next offset, which it returns.
    fn put_record(&mut self, record: Record) -> (r: Result<Offset, StorageError>)
        requires
            old(self).wf(),
        ensures
            final(self).wf(),
            r is Ok <==> old(self).has_room_for(record@),
            r is Ok ==> r->Ok_0.0 == old(self).log().len() && final(self).log() == old(
                self,
            ).log().push(record@),
            r is Err ==> r == Err::<Offset, StorageError>(StorageError::CapacityExceeded)
                && *final(self) == *old(self),
    ;

    /// Reads up to `max_records` contiguous records from `offset`.
    fn get_records(&self, offset: Offset, max_records: usize) -> (r: Result<
        (Vec<Record>, Offset),
        StorageError,
    >)
        requires
            self.wf(),
        ensures
            r is Ok,
            is_read_of(r->Ok_0, self.log(), offset.0 as nat, max_records as nat),
    ;
}

/// Offsets handed out one after another from `start` are exactly `start .. start + n`: none
/// twice, none skipped. From an empty log, `start` is 0.
pub proof fn lemma_offsets_gap_free(offsets: Seq<Offset>, start: nat)
    requires
        forall|i: int| 0 <= i < offsets.len() ==> (#[trigger] offsets[i]).0 == start + i,
    ensures
        offsets.no_duplicates(),
        offsets.map_values(|o: Offset| o.0 as nat).to_set() == Set::new(
            |x: nat| start <= x < start + offsets.len(),
        ),
{
    let s = offsets.map_values(|o: Offset| o.0 as nat);
    assert forall|x: nat| #[trigger] s.to_set().contains(x) <==> start <= x < start + offsets.len() by {
        if start <= x < start + offsets.len() {
            assert(s[x - start] == x);
        }
        if s.to_set().contains(x) {
            let i = choose|i: int| 0 <= i < s.len() && s[i] == x;
        }
    }
    assert(s.to_set() =~= Set::new(|x: nat| start <= x < start + offsets.len()));
}

/// Appends `records` in order; returns the offset each one got, or the first refusal.
pub fn append_batch<S: Storage>(storage: &mut S, records: Vec<Record>) -> (r: Result<
    Vec<Offset>,
    StorageError,
>)
    requires
        old(storage).wf(),
    ensures
        final(storage).wf(),
        r is Ok ==> r->Ok_0@.len() == records@.len() && final(storage).log() == old(storage).log()
            + views(records@) && (forall|i: int|
            0 <= i < records@.len() ==> (#[trigger] r->Ok_0@[i]).0 == old(storage).log().len()
                + i),
        r is Err ==> r == Err::<Vec<Offset>, StorageError>(StorageError::CapacityExceeded) && exists|
            k: int|
            0 <= k < records@.len() && final(storage).log() == old(storage).log() + views(
                records@.subrange(0, k),
            ) && !final(storage).has_room_for(#[trigger] records@[k]@),
{
    let mut offsets: Vec<Offset> = Vec::new();
    let ghost start = storage.log();
    let mut i: usize = 0;
    while i < records.len()
        invariant
            storage.wf(),
            start == old(storage).log(),
            i <= records@.len(),
            offsets@.len() == i,
            storage.log() == start + views(records@.subrange(0, i as int)),
            forall|j: int| 0 <= j < i ==> (#[trigger] offsets@[j]).0 == start.len() + j,
        decreases records@.len() - i,
    {
        let ghost before = *storage;
        let record = records[i].copy_record();
        let offset = match storage.put_record(record) {
            Ok(o) => o,
            Err(e) => {
                assert(*storage == before);
                assert(!storage.has_room_for(records@[i as int]@));
                assert(storage.log() == start + views(records@.subrange(0, i as int)));
                assert(e == StorageError::CapacityExceeded);
                return Err(e);
            },
        };
        offsets.push(offset);
        i = i + 1;
        assert(views(records@.subrange(0, i as int)) =~= views(records@.subrange(0, i - 1)).push(
            records@[i - 1]@,
        ));
    }
    assert(records@.subrange(0, i as int) =~= records@);
    Ok(offsets)
}

} // verus!
