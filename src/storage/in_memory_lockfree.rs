use vstd::prelude::*;
use vstd::slice::slice_subrange;

use crate::offset::Offset;
use crate::record::{encoded_len, encoding, fits, lemma_round_trip, views, Record, RecordView};
use crate::storage::{read_window, window_end, Storage, StorageError};

verus! {

/// Slots of the offset table of an engine made by `InMemoryLockFree::new`.
pub const DEFAULT_SLOTS: usize = 1048576;

/// Bytes of the data arena of an engine made by `InMemoryLockFree::new`.
pub const DEFAULT_BYTES: usize = 67108864;

/// Whether `data` holds the encoding of `r` from position `start`.
pub open spec fn holds_at(data: Seq<u8>, start: int, r: RecordView) -> bool {
    &&& fits(r.key.len(), r.value.len())
    &&& 0 <= start
    &&& start + encoded_len(r) <= data.len()
    &&& data.subrange(start, start + encoded_len(r)) == encoding(r)
}

/// A slot and a byte range `[start, end)` that one append reserved and owns alone.
#[derive(Debug, Clone, Copy, PartialEq, Eq, Structural)]
pub struct Reservation {
    pub slot: usize,
    pub start: usize,
    pub end: usize,
}

/// The arena engine: two arenas fixed at construction, an offset table of slots and a byte
/// arena, with four heads. An append reserves the next slot and the next byte range by bumping
/// `offset_head` and `data_head`; encodes the record into its range, which no other append
/// owns; records the range's start in its slot; then publishes by moving
/// `committed_offset_head` from its slot to the next and `committed_data_head` from its start
/// to its end. Publication succeeds only when every lower slot is published, so readers see a
/// gap-free prefix, and an append that stalls before publishing holds back every later one
/// although their bytes are written.
pub struct InMemoryLockFree {
    offsets: Vec<usize>,
    data: Vec<u8>,
    offset_head: usize,
    committed_offset_head: usize,
    data_head: usize,
    committed_data_head: usize,
    /// `bounds[i]` and `bounds[i + 1]` delimit the range of slot `i`.
    bounds: Ghost<Seq<int>>,
    /// What each reserved slot holds, once written.
    written: Ghost<Seq<Option<RecordView>>>,
}

impl InMemoryLockFree {
    /// Number of slots of the offset table.
    pub closed spec fn slot_capacity(&self) -> nat {
        self.offsets@.len()
    }

    /// Number of bytes of the data arena.
    pub closed spec fn byte_capacity(&self) -> nat {
        self.data@.len()
    }

    /// Number of slots reserved so far.
    pub closed spec fn slots_reserved(&self) -> nat {
        self.offset_head as nat
    }

    /// Number of bytes reserved so far.
    pub closed spec fn bytes_used(&self) -> nat {
        self.data_head as nat
    }

    /// Number of slots published: readers see exactly these.
    pub closed spec fn committed(&self) -> nat {
        self.committed_offset_head as nat
    }

    /// Whether `res` is reserved here and not yet written.
    pub closed spec fn is_reserved(&self, res: Reservation) -> bool {
        &&& res.slot < self.offset_head
        &&& self.bounds@[res.slot as int] == res.start
        &&& self.bounds@[res.slot + 1] == res.end
        &&& self.written@[res.slot as int] is None
    }

    /// Whether `res` is reserved here and holds the encoding of `r`.
    pub closed spec fn is_written(&self, res: Reservation, r: RecordView) -> bool {
        &&& res.slot < self.offset_head
        &&& self.bounds@[res.slot as int] == res.start
        &&& self.bounds@[res.slot + 1] == res.end
        &&& self.written@[res.slot as int] == Some(r)
    }

    /// The engine's invariant, whatever appends are in flight.
    pub closed spec fn inv(&self) -> bool {
        &&& self.offset_head <= self.offsets@.len()
        &&& self.data_head <= self.data@.len()
        &&& self.bounds@.len() == self.offset_head + 1
        &&& self.written@.len() == self.offset_head
        &&& self.bounds@[0] == 0
        &&& self.bounds@[self.offset_head as int] == self.data_head
        &&& forall|i: int, j: int|
            0 <= i <= j <= self.offset_head ==> #[trigger] self.bounds@[i] <= #[trigger] self.bounds@[j]
        &&& self.committed_offset_head <= self.offset_head
        &&& self.committed_data_head == self.bounds@[self.committed_offset_head as int]
        &&& forall|i: int| 0 <= i < self.committed_offset_head ==> #[trigger] self.written@[i] is Some
        &&& forall|i: int|
            0 <= i < self.offset_head && #[trigger] self.written@[i] is Some ==> {
                let r = self.written@[i]->Some_0;
                &&& self.offsets@[i] == self.bounds@[i]
                &&& self.bounds@[i + 1] - self.bounds@[i] == encoded_len(r)
                &&& holds_at(self.data@, self.bounds@[i], r)
            }
    }

    /// An engine with `DEFAULT_SLOTS` slots and `DEFAULT_BYTES` bytes.
    pub fn new() -> (r: InMemoryLockFree)
        ensures
            r.wf(),
            r.log() == Seq::<RecordView>::empty(),
            r.slot_capacity() == DEFAULT_SLOTS,
            r.byte_capacity() == DEFAULT_BYTES,
            r.slots_reserved() == 0,
            r.bytes_used() == 0,
    {
        InMemoryLockFree::with_capacity(DEFAULT_SLOTS, DEFAULT_BYTES)
    }

    /// An engine with `slots` slots and `bytes` bytes.
    pub fn with_capacity(slots: usize, bytes: usize) -> (r: InMemoryLockFree)
        ensures
            r.wf(),
            r.log() == Seq::<RecordView>::empty(),
            r.slot_capacity() == slots,
            r.byte_capacity() == bytes,
            r.slots_reserved() == 0,
            r.bytes_used() == 0,
    {
        let r = InMemoryLockFree {
            offsets: vec![0usize; slots],
            data: vec![0u8; bytes],
            offset_head: 0,
            committed_offset_head: 0,
            data_head: 0,
            committed_data_head: 0,
            bounds: Ghost(Seq::empty().push(0int)),
            written: Ghost(Seq::empty()),
        };
        assert(r.log() =~= Seq::<RecordView>::empty());
        r
    }

    /// Reserves the next slot and the next `len` bytes, or fails with `CapacityExceeded`
    /// when either arena lacks room; a failed reservation changes nothing.
    pub fn reserve(&mut self, len: usize) -> (r: Result<Reservation, StorageError>)
        requires
            old(self).inv(),
        ensures
            final(self).inv(),
            final(self).slot_capacity() == old(self).slot_capacity(),
            final(self).byte_capacity() == old(self).byte_capacity(),
            final(self).committed() == old(self).committed(),
            final(self).log() == old(self).log(),
            r is Ok <==> old(self).slots_reserved() < old(self).slot_capacity()
                && old(self).bytes_used() + len <= old(self).byte_capacity(),
            r is Ok ==> {
                let res = r->Ok_0;
                &&& res.slot == old(self).slots_reserved()
                &&& res.start == old(self).bytes_used()
                &&& res.end == res.start + len
                &&& final(self).is_reserved(res)
                &&& final(self).slots_reserved() == old(self).slots_reserved() + 1
                &&& final(self).bytes_used() == res.end
            },
            r is Err ==> r == Err::<Reservation, StorageError>(StorageError::CapacityExceeded)
                && *final(self) == *old(self),
            forall|x: Reservation| old(self).is_reserved(x) ==> #[trigger] final(self).is_reserved(x),
            forall|x: Reservation, v: RecordView|
                old(self).is_written(x, v) ==> #[trigger] final(self).is_written(x, v),
    {
        if self.offset_head >= self.offsets.len() {
            return Err(StorageError::CapacityExceeded);
        }
        if len > self.data.len() - self.data_head {
            return Err(StorageError::CapacityExceeded);
        }
        let slot = self.offset_head;
        let start = self.data_head;
        let end = start + len;
        self.offset_head = slot + 1;
        self.data_head = end;
        self.bounds = Ghost(self.bounds@.push(end as int));
        self.written = Ghost(self.written@.push(None));
        proof {
            let b = self.bounds@;
            assert forall|i: int, j: int| 0 <= i <= j <= self.offset_head implies #[trigger] b[i]
                <= #[trigger] b[j] by {
                if j == self.offset_head && i < j {
                    assert(old(self).bounds@[i] <= old(self).bounds@[slot as int]);
                }
            }
            assert(self.log() =~= old(self).log());
        }
        Ok(Reservation { slot, start, end })
    }

    /// Encodes `record` into the range of `res` and records the range's start in its slot.
    /// Only the owner of `res` writes there.
    pub fn write(&mut self, res: &Reservation, record: &Record)
        requires
            old(self).inv(),
            old(self).is_reserved(*res),
            res.end - res.start == encoded_len(record@),
        ensures
            final(self).inv(),
            final(self).is_written(*res, record@),
            final(self).slot_capacity() == old(self).slot_capacity(),
            final(self).byte_capacity() == old(self).byte_capacity(),
            final(self).slots_reserved() == old(self).slots_reserved(),
            final(self).bytes_used() == old(self).bytes_used(),
            final(self).committed() == old(self).committed(),
            final(self).log() == old(self).log(),
            forall|x: Reservation|
                old(self).is_reserved(x) && x.slot != res.slot
                    ==> #[trigger] final(self).is_reserved(x),
            forall|x: Reservation, v: RecordView|
                old(self).is_written(x, v) ==> #[trigger] final(self).is_written(x, v),
    {
        let bytes = record.to_bytes();
        let start = res.start;
        let end = res.end;
        proof {
            assert(self.bounds@[res.slot as int] <= self.bounds@[res.slot + 1]);
            assert(self.bounds@[res.slot + 1] <= self.bounds@[self.offset_head as int]);
        }
        let ghost before = self.data@;
        let mut j: usize = start;
        while j < end
            invariant
                start <= j <= end,
                end <= self.data@.len(),
                self.data@.len() == before.len(),
                before == old(self).data@,
                bytes@ == encoding(record@),
                bytes@.len() == end - start,
                self.offsets@ == old(self).offsets@,
                self.offset_head == old(self).offset_head,
                self.data_head == old(self).data_head,
                self.committed_offset_head == old(self).committed_offset_head,
                self.committed_data_head == old(self).committed_data_head,
                self.bounds == old(self).bounds,
                self.written == old(self).written,
                forall|k: int| 0 <= k < start ==> #[trigger] self.data@[k] == before[k],
                forall|k: int| end <= k < before.len() ==> #[trigger] self.data@[k] == before[k],
                forall|k: int| start <= k < j ==> #[trigger] self.data@[k] == bytes@[k - start],
            decreases end - j,
        {
            self.data[j] = bytes[j - start];
            j = j + 1;
        }
        self.offsets[res.slot] = start;
        self.written = Ghost(self.written@.update(res.slot as int, Some(record@)));
        proof {
            let data = self.data@;
            let b = self.bounds@;
            let s = res.slot as int;
            assert(data.subrange(start as int, end as int) =~= encoding(record@));
            assert forall|i: int|
                0 <= i < self.offset_head && #[trigger] self.written@[i] is Some implies {
                let r = self.written@[i]->Some_0;
                &&& self.offsets@[i] == b[i]
                &&& b[i + 1] - b[i] == encoded_len(r)
                &&& holds_at(data, b[i], r)
            } by {
                if i != s {
                    let r = self.written@[i]->Some_0;
                    let lo = b[i];
                    let hi = lo + encoded_len(r);
                    if i < s {
                        assert(b[i + 1] <= b[s]);
                    } else {
                        assert(b[s + 1] <= b[i]);
                    }
                    assert(data.subrange(lo, hi) =~= before.subrange(lo, hi));
                }
            }
            assert(self.log() =~= old(self).log());
        }
    }

    /// Publishes `res` if every lower slot is published: advances the committed heads past
    /// its slot and range, and returns true. Otherwise changes nothing and returns false; the
    /// owner tries again later.
    pub fn publish(&mut self, res: &Reservation) -> (r: bool)
        requires
            old(self).inv(),
            exists|v: RecordView| old(self).is_written(*res, v),
        ensures
            final(self).inv(),
            r == (old(self).committed() == res.slot),
            r ==> final(self).committed() == res.slot + 1 && (exists|v: RecordView|
                #[trigger] old(self).is_written(*res, v)
                    && final(self).log() == old(self).log().push(v)),
            !r ==> *final(self) == *old(self),
            final(self).slot_capacity() == old(self).slot_capacity(),
            final(self).byte_capacity() == old(self).byte_capacity(),
            final(self).slots_reserved() == old(self).slots_reserved(),
            final(self).bytes_used() == old(self).bytes_used(),
            forall|x: Reservation| old(self).is_reserved(x) ==> #[trigger] final(self).is_reserved(x),
            forall|x: Reservation, v: RecordView|
                old(self).is_written(x, v) ==> #[trigger] final(self).is_written(x, v),
    {
        if self.committed_offset_head != res.slot {
            return false;
        }
        self.committed_offset_head = res.slot + 1;
        self.committed_data_head = res.end;
        proof {
            let v = self.written@[res.slot as int]->Some_0;
            assert(old(self).is_written(*res, v));
            assert(self.log() =~= old(self).log().push(v));
        }
        true
    }

    /// Decodes the record that published slot `k` points at.
    fn read_slot(&self, k: usize) -> (r: Result<Record, StorageError>)
        requires
            self.inv(),
            k < self.committed(),
        ensures
            r is Ok && r->Ok_0@ == self.log()[k as int],
    {
        let pos = self.offsets[k];
        let buf = slice_subrange(self.data.as_slice(), pos, self.data.len());
        proof {
            assert(self.written@[k as int] is Some);
            let rec = self.written@[k as int]->Some_0;
            let n = encoded_len(rec) as int;
            assert(holds_at(self.data@, pos as int, rec));
            let rest = self.data@.subrange(pos + n, self.data@.len() as int);
            assert(buf@ =~= encoding(rec) + rest);
            lemma_round_trip(rec, rest);
        }
        match Record::from_bytes(buf) {
            Ok((record, _)) => Ok(record),
            Err(_) => Err(StorageError::CorruptRecord),
        }
    }
}

impl Storage for InMemoryLockFree {
    /// The published records.
    closed spec fn log(&self) -> Seq<RecordView> {
        Seq::new(self.committed_offset_head as nat, |i: int| self.written@[i]->Some_0)
    }

    /// The invariant, with no append in flight.
    closed spec fn wf(&self) -> bool {
        self.inv() && self.committed_offset_head == self.offset_head
    }

    open spec fn has_room_for(&self, r: RecordView) -> bool {
        &&& self.slots_reserved() < self.slot_capacity()
        &&& self.bytes_used() + encoded_len(r) <= self.byte_capacity()
    }

    fn len(&self) -> (r: usize) {
        self.committed_offset_head
    }

    fn max_offset(&self) -> (r: Option<Offset>) {
        if self.committed_offset_head == 0 {
            None
        } else {
            Some(Offset(self.committed_offset_head - 1))
        }
    }

    fn put_record(&mut self, record: Record) -> (r: Result<Offset, StorageError>) {
        let len = record.serialized_len();
        let res = match self.reserve(len) {
            Ok(res) => res,
            Err(e) => {
                return Err(e);
            },
        };
        self.write(&res, &record);
        let published = self.publish(&res);
        assert(published);
        Ok(Offset(res.slot))
    }

    fn get_records(&self, offset: Offset, max_records: usize) -> (r: Result<
        (Vec<Record>, Offset),
        StorageError,
    >) {
        let committed = self.committed_offset_head;
        let from = offset.0;
        if from >= committed {
            let empty: Vec<Record> = Vec::new();
            assert(views(empty@) =~= read_window(self.log(), from as nat, max_records as nat));
            return Ok((empty, offset));
        }
        let end = if max_records >= committed - from {
            committed
        } else {
            from + max_records
        };
        assert(end == window_end(committed as nat, from as nat, max_records as nat));
        let mut out: Vec<Record> = Vec::new();
        let mut k: usize = from;
        while k < end
            invariant
                self.inv(),
                from <= k <= end <= committed,
                committed == self.committed_offset_head,
                views(out@) == self.log().subrange(from as int, k as int),
            decreases end - k,
        {
            match self.read_slot(k) {
                Ok(record) => {
                    let ghost prev = out@;
                    out.push(record);
                    assert(views(out@) =~= views(prev).push(record@));
                },
                Err(e) => {
                    return Err(e);
                },
            }
            k = k + 1;
            assert(views(out@) =~= self.log().subrange(from as int, k as int));
        }
        Ok((out, Offset(end)))
    }
}

} // verus!
