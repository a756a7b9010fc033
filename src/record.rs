use vstd::prelude::*;

use crate::bytes::{
    copy_range, le_bytes, lemma_le_round_trip, push_bytes, push_word, read_word, word_at, WORD_BYTES,
};

verus! {

/// What a record holds, as mathematical values.
pub struct RecordView {
    pub key: Seq<u8>,
    pub value: Seq<u8>,
    pub checksum: u64,
}

/// Whether a record of these lengths has an encoding whose length fits a machine word.
pub open spec fn fits(key_len: nat, value_len: nat) -> bool {
    key_len + value_len + 3 * WORD_BYTES <= usize::MAX
}

/// Number of bytes the encoding of `r` takes.
pub open spec fn encoded_len(r: RecordView) -> nat {
    (r.key.len() + r.value.len() + 3 * WORD_BYTES) as nat
}

/// `key_len ‖ key ‖ value_len ‖ value ‖ checksum`, each word little-endian.
pub open spec fn encoding(r: RecordView) -> Seq<u8> {
    le_bytes(r.key.len() as u64) + r.key + le_bytes(r.value.len() as u64) + r.value + le_bytes(
        r.checksum,
    )
}

/// The record framed at the front of `b` and the number of bytes it takes, or `None` when `b`
/// ends before the frame does.
pub open spec fn decoding(b: Seq<u8>) -> Option<(RecordView, nat)> {
    if b.len() < 8 {
        None
    } else {
        let kl = word_at(b, 0) as int;
        if b.len() < 16 + kl {
            None
        } else {
            let vl = word_at(b, 8 + kl) as int;
            if b.len() < 24 + kl + vl {
                None
            } else {
                Some(
                    (
                        RecordView {
                            key: b.subrange(8, 8 + kl),
                            value: b.subrange(16 + kl, 16 + kl + vl),
                            checksum: word_at(b, 16 + kl + vl),
                        },
                        (24 + kl + vl) as nat,
                    ),
                )
            }
        }
    }
}

/// The views of a sequence of records.
pub open spec fn views(rs: Seq<Record>) -> Seq<RecordView> {
    rs.map_values(|r: Record| r@)
}

/// Why a buffer could not be read as a record.
#[derive(Debug, Clone, Copy, PartialEq, Eq, Structural)]
pub enum CodecError {
    /// The buffer ends before the record's frame does.
    Truncated,
    /// The stored checksum disagrees with the one computed over the key and value.
    CorruptRecord,
}

/// A key/value pair with the checksum of `key ‖ value`. The checksum (gxhash with the empty
/// seed) is computed by the caller; the library stores, encodes and compares it.
#[derive(Debug, PartialEq, Eq)]
pub struct Record {
    key: Vec<u8>,
    value: Vec<u8>,
    checksum: u64,
}

impl View for Record {
    type V = RecordView;

    closed spec fn view(&self) -> RecordView {
        RecordView { key: self.key@, value: self.value@, checksum: self.checksum }
    }
}

impl Record {
    #[verifier::type_invariant]
    spec fn inv(&self) -> bool {
        fits(self.key@.len(), self.value@.len())
    }

    /// Builds a record from its key, its value and the checksum of `key ‖ value`.
    pub fn new(key: Vec<u8>, value: Vec<u8>, checksum: u64) -> (r: Record)
        requires
            fits(key@.len(), value@.len()),
        ensures
            r@ == (RecordView { key: key@, value: value@, checksum }),
    {
        Record { key, value, checksum }
    }

    /// The checksum stored with the record.
    pub fn checksum(&self) -> (r: u64)
        ensures
            r == self@.checksum,
    {
        self.checksum
    }

    pub fn key(&self) -> (r: &[u8])
        ensures
            r@ == self@.key,
    {
        self.key.as_slice()
    }

    pub fn value(&self) -> (r: &[u8])
        ensures
            r@ == self@.value,
    {
        self.value.as_slice()
    }

    /// A record equal to this one.
    pub fn copy_record(&self) -> (r: Record)
        ensures
            r@ == self@,
    {
        proof {
            use_type_invariant(self);
        }
        let key = self.key.clone();
        let value = self.value.clone();
        assert(key@ =~= self.key@);
        assert(value@ =~= self.value@);
        Record { key, value, checksum: self.checksum }
    }

    /// Number of bytes that the encoding of this record takes.
    pub fn serialized_len(&self) -> (r: usize)
        ensures
            r == encoded_len(self@),
            r == encoding(self@).len(),
    {
        proof {
            use_type_invariant(self);
        }
        self.key.len() + self.value.len() + 3 * WORD_BYTES
    }

    /// The encoding of this record.
    pub fn to_bytes(&self) -> (r: Vec<u8>)
        ensures
            r@ == encoding(self@),
    {
        proof {
            use_type_invariant(self);
        }
        let mut out: Vec<u8> = Vec::new();
        push_word(&mut out, self.key.len() as u64);
        push_bytes(&mut out, self.key.as_slice());
        push_word(&mut out, self.value.len() as u64);
        push_bytes(&mut out, self.value.as_slice());
        push_word(&mut out, self.checksum);
        assert(out@ =~= encoding(self@));
        out
    }

    /// Reads the record framed at the front of `buf`; returns it with the number of bytes read.
    /// The stored checksum is taken as it stands: `verify_checksum` compares it.
    pub fn from_bytes(buf: &[u8]) -> (r: Result<(Record, usize), CodecError>)
        ensures
            match decoding(buf@) {
                None => r == Err::<(Record, usize), CodecError>(CodecError::Truncated),
                Some((v, n)) => r is Ok && r->Ok_0.0@ == v && r->Ok_0.1 == n,
            },
    {
        let len = buf.len();
        if len < 2 * WORD_BYTES {
            return Err(CodecError::Truncated);
        }
        let key_len = read_word(buf, 0);
        if key_len > (len - 2 * WORD_BYTES) as u64 {
            return Err(CodecError::Truncated);
        }
        let key_len = key_len as usize;
        let value_at = WORD_BYTES + key_len;
        let value_len = read_word(buf, value_at);
        if len - 2 * WORD_BYTES - key_len < WORD_BYTES {
            return Err(CodecError::Truncated);
        }
        if value_len > (len - 3 * WORD_BYTES - key_len) as u64 {
            return Err(CodecError::Truncated);
        }
        let value_len = value_len as usize;
        let key = copy_range(buf, WORD_BYTES, value_at);
        let value_start = value_at + WORD_BYTES;
        let checksum_at = value_start + value_len;
        let value = copy_range(buf, value_start, checksum_at);
        let checksum = read_word(buf, checksum_at);
        Ok((Record { key, value, checksum }, checksum_at + WORD_BYTES))
    }

    /// Compares the stored checksum with `computed`, the checksum of this record's key and value.
    pub fn verify_checksum(&self, computed: u64) -> (r: Result<(), CodecError>)
        ensures
            r is Ok <==> computed == self@.checksum,
            r is Err ==> r == Err::<(), CodecError>(CodecError::CorruptRecord),
    {
        if computed == self.checksum {
            Ok(())
        } else {
            Err(CodecError::CorruptRecord)
        }
    }
}

/// Decoding an encoded record, followed by any bytes, gives back the record and the length of
/// its encoding.
pub proof fn lemma_round_trip(r: RecordView, rest: Seq<u8>)
    requires
        fits(r.key.len(), r.value.len()),
    ensures
        encoding(r).len() == encoded_len(r),
        decoding(encoding(r) + rest) == Some((r, encoded_len(r))),
{
    let kl = r.key.len() as int;
    let vl = r.value.len() as int;
    let b = encoding(r) + rest;
    assert(b.subrange(0, 8) =~= le_bytes(kl as u64));
    assert(b.subrange(8, 8 + kl) =~= r.key);
    assert(b.subrange(8 + kl, 16 + kl) =~= le_bytes(vl as u64));
    assert(b.subrange(16 + kl, 16 + kl + vl) =~= r.value);
    assert(b.subrange(16 + kl + vl, 24 + kl + vl) =~= le_bytes(r.checksum));
    lemma_le_round_trip(kl as u64);
    lemma_le_round_trip(vl as u64);
    lemma_le_round_trip(r.checksum);
}

/// Changing one byte of the key or value region of an encoding still frames a record, with the
/// stored checksum unchanged but a different key or value: `verify_checksum` then reports
/// corruption unless the checksum of the changed content collides with the stored one.
pub proof fn lemma_flipped_byte_changes_content(r: RecordView, i: int, x: u8)
    requires
        fits(r.key.len(), r.value.len()),
        8 <= i < 8 + r.key.len() || 16 + r.key.len() <= i < 16 + r.key.len() + r.value.len(),
        x != encoding(r)[i],
    ensures
        decoding(encoding(r).update(i, x)) is Some,
        ({
            let v = decoding(encoding(r).update(i, x))->Some_0.0;
            v.checksum == r.checksum && (v.key != r.key || v.value != r.value)
        }),
{
    let kl = r.key.len() as int;
    let vl = r.value.len() as int;
    let b = encoding(r).update(i, x);
    assert(b.subrange(0, 8) =~= le_bytes(kl as u64));
    assert(b.subrange(8 + kl, 16 + kl) =~= le_bytes(vl as u64));
    assert(b.subrange(16 + kl + vl, 24 + kl + vl) =~= le_bytes(r.checksum));
    lemma_le_round_trip(kl as u64);
    lemma_le_round_trip(vl as u64);
    lemma_le_round_trip(r.checksum);
    let v = decoding(b)->Some_0.0;
    if i < 8 + kl {
        assert(v.key[i - 8] == x);
        assert(r.key[i - 8] == encoding(r)[i]);
    } else {
        assert(v.value[i - 16 - kl] == x);
        assert(r.value[i - 16 - kl] == encoding(r)[i]);
    }
}

} // verus!
