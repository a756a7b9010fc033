use vstd::prelude::*;

verus! {

/// Bytes taken by each length field and by the checksum in the encoding.
pub const WORD_BYTES: usize = 8;

/// The eight little-endian bytes of `n`.
pub open spec fn le_bytes(n: u64) -> Seq<u8> {
    seq![
        (n & 0xff) as u8,
        ((n >> 8u64) & 0xff) as u8,
        ((n >> 16u64) & 0xff) as u8,
        ((n >> 24u64) & 0xff) as u8,
        ((n >> 32u64) & 0xff) as u8,
        ((n >> 40u64) & 0xff) as u8,
        ((n >> 48u64) & 0xff) as u8,
        ((n >> 56u64) & 0xff) as u8,
    ]
}

/// The value of the eight little-endian bytes at the front of `b`.
pub open spec fn le_value(b: Seq<u8>) -> u64
    recommends
        b.len() >= 8,
{
    (b[0] as u64) | ((b[1] as u64) << 8u64) | ((b[2] as u64) << 16u64) | ((b[3] as u64) << 24u64)
        | ((b[4] as u64) << 32u64) | ((b[5] as u64) << 40u64) | ((b[6] as u64) << 48u64) | ((
    b[7] as u64) << 56u64)
}

/// The word stored at position `at` of `b`.
pub open spec fn word_at(b: Seq<u8>, at: int) -> u64 {
    le_value(b.subrange(at, at + 8))
}

pub proof fn lemma_le_round_trip(n: u64)
    ensures
        le_value(le_bytes(n)) == n,
{
    let b = le_bytes(n);
    let b0 = b[0];
    let b1 = b[1];
    let b2 = b[2];
    let b3 = b[3];
    let b4 = b[4];
    let b5 = b[5];
    let b6 = b[6];
    let b7 = b[7];
    assert(b0 == (n & 0xff) as u8);
    assert(b7 == ((n >> 56u64) & 0xff) as u8);
    assert(((n & 0xff) as u8 as u64) | ((((n >> 8u64) & 0xff) as u8 as u64) << 8u64) | ((((n
        >> 16u64) & 0xff) as u8 as u64) << 16u64) | ((((n >> 24u64) & 0xff) as u8 as u64) << 24u64)
        | ((((n >> 32u64) & 0xff) as u8 as u64) << 32u64) | ((((n >> 40u64) & 0xff) as u8 as u64)
        << 40u64) | ((((n >> 48u64) & 0xff) as u8 as u64) << 48u64) | ((((n >> 56u64) & 0xff) as u8
        as u64) << 56u64) == n) by (bit_vector);
}


pub(crate) fn push_word(out: &mut Vec<u8>, n: u64)
    ensures
        final(out)@ == old(out)@ + le_bytes(n),
{
    out.push((n & 0xff) as u8);
    out.push(((n >> 8u64) & 0xff) as u8);
    out.push(((n >> 16u64) & 0xff) as u8);
    out.push(((n >> 24u64) & 0xff) as u8);
    out.push(((n >> 32u64) & 0xff) as u8);
    out.push(((n >> 40u64) & 0xff) as u8);
    out.push(((n >> 48u64) & 0xff) as u8);
    out.push(((n >> 56u64) & 0xff) as u8);
    assert(out@ =~= old(out)@ + le_bytes(n));
}

pub(crate) fn push_bytes(out: &mut Vec<u8>, src: &[u8])
    ensures
        final(out)@ == old(out)@ + src@,
{
    let mut i: usize = 0;
    while i < src.len()
        invariant
            i <= src@.len(),
            out@ == old(out)@ + src@.subrange(0, i as int),
        decreases src@.len() - i,
    {
        out.push(src[i]);
        i = i + 1;
        assert(out@ =~= old(out)@ + src@.subrange(0, i as int));
    }
    assert(src@.subrange(0, i as int) =~= src@);
}

pub(crate) fn copy_range(src: &[u8], start: usize, end: usize) -> (r: Vec<u8>)
    requires
        start <= end <= src@.len(),
    ensures
        r@ == src@.subrange(start as int, end as int),
{
    let mut out: Vec<u8> = Vec::new();
    let mut i: usize = start;
    while i < end
        invariant
            start <= i <= end,
            end <= src@.len(),
            out@ == src@.subrange(start as int, i as int),
        decreases end - i,
    {
        out.push(src[i]);
        i = i + 1;
        assert(out@ =~= src@.subrange(start as int, i as int));
    }
    out
}

pub(crate) fn read_word(buf: &[u8], at: usize) -> (r: u64)
    requires
        at + 8 <= buf@.len(),
    ensures
        r == word_at(buf@, at as int),
{
    proof {
        let w = buf@.subrange(at as int, at + 8);
        assert(w[0] == buf@[at as int] && w[7] == buf@[at + 7]);
    }
    (buf[at] as u64) | ((buf[at + 1] as u64) << 8u64) | ((buf[at + 2] as u64) << 16u64) | ((
    buf[at + 3] as u64) << 24u64) | ((buf[at + 4] as u64) << 32u64) | ((buf[at + 5] as u64)
        << 40u64) | ((buf[at + 6] as u64) << 48u64) | ((buf[at + 7] as u64) << 56u64)
}

/// Whether two byte strings are equal.
pub(crate) fn bytes_eq(a: &[u8], b: &[u8]) -> (r: bool)
    ensures
        r == (a@ == b@),
{
    if a.len() != b.len() {
        return false;
    }
    let mut i: usize = 0;
    while i < a.len()
        invariant
            a@.len() == b@.len(),
            i <= a@.len(),
            forall|k: int| 0 <= k < i ==> a@[k] == b@[k],
        decreases a@.len() - i,
    {
        if a[i] != b[i] {
            return false;
        }
        i = i + 1;
    }
    assert(a@ =~= b@);
    true
}

} // verus!
