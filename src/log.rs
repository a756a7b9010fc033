use vstd::prelude::*;

use crate::offset::Offset;
use crate::record::{views, Record, RecordView};
use crate::storage::{high_watermark, is_read_of, read_window, window_end};

verus! {

/// An in-memory sequence of records addressed by offset.
pub struct Log {
    records: Vec<Record>,
}

impl View for Log {
    type V = Seq<RecordView>;

    closed spec fn view(&self) -> Seq<RecordView> {
        views(self.records@)
    }
}

impl Log {
    pub fn new() -> (r: Log)
        ensures
            r@ == Seq::<RecordView>::empty(),
    {
        let r = Log { records: Vec::new() };
        assert(r@ =~= Seq::<RecordView>::empty());
        r
    }

    /// Number of records held.
    pub fn len(&self) -> (r: usize)
        ensures
            r == self@.len(),
    {
        self.records.len()
    }

    /// The current high-watermark: the offset of the last record, `None` when empty.
    pub fn max_offset(&self) -> (r: Option<Offset>)
        ensures
            r == high_watermark(self@),
    {
        if self.records.len() == 0 {
            None
        } else {
            Some(Offset(self.records.len() - 1))
        }
    }

    /// Appends a copy of `record`; returns the offset it got.
    pub fn put_record(&mut self, record: &Record) -> (r: Offset)
        ensures
            r.0 == old(self)@.len(),
            final(self)@ == old(self)@.push(record@),
    {
        let offset = self.records.len();
        self.records.push(record.copy_record());
        proof {
            assert(views(self.records@) =~= views(old(self).records@).push(record@));
        }
        Offset(offset)
    }

    /// Reads up to `max_records` contiguous records from `offset`; returns them with the offset
    /// one past the last one returned.
    pub fn get_records(&self, offset: Offset, max_records: usize) -> (r: (Vec<Record>, Offset))
        ensures
            is_read_of(r, self@, offset.0 as nat, max_records as nat),
    {
        let len = self.records.len();
        let from = offset.0;
        assert(self@.len() == len);
        if from >= len {
            let empty: Vec<Record> = Vec::new();
            assert(views(empty@) =~= read_window(self@, from as nat, max_records as nat));
            return (empty, offset);
        }
        let end = if max_records >= len - from {
            len
        } else {
            from + max_records
        };
        assert(end == window_end(len as nat, from as nat, max_records as nat));
        let mut out: Vec<Record> = Vec::new();
        let mut i: usize = from;
        while i < end
            invariant
                from <= i <= end <= len,
                len == self.records@.len(),
                views(out@) == self@.subrange(from as int, i as int),
            decreases end - i,
        {
            let r = self.records[i].copy_record();
            assert(r@ == self@[i as int]);
            let ghost prev = out@;
            out.push(r);
            assert(views(out@) =~= views(prev).push(r@));
            i = i + 1;
            assert(views(out@) =~= self@.subrange(from as int, i as int));
        }
        (out, Offset(end))
    }
}

} // verus!
