use vstd::prelude::*;

use vstd::utf8::encode_utf8;

use crate::bytes::{bytes_eq, le_bytes, push_bytes, push_word};
use crate::offset::Offset;
use crate::record::Record;

verus! {

/// The HMAC-SHA256 tag of `message` under `key`.
pub uninterp spec fn hmac_sha256(key: Seq<u8>, message: Seq<u8>) -> Seq<u8>;

/// Number of bytes of an HMAC-SHA256 tag.
pub const TAG_BYTES: usize = 32;

/// Relies on hmac's `Hmac<Sha256>`: `new_from_slice` takes a key of any length (it hashes or
/// pads it, and never fails), `update` then `finalize` give the tag of the bytes fed, and the
/// tag has SHA-256's 32 bytes.
#[verifier::external_body]
fn compute_mac(key: &[u8], message: &[u8]) -> (r: Vec<u8>)
    ensures
        r@ == hmac_sha256(key@, message@),
        r@.len() == TAG_BYTES,
{
    let mut mac = <hmac::Hmac<sha2::Sha256> as hmac::Mac>::new_from_slice(key).expect(
        "HMAC can take key of any size",
    );
    hmac::Mac::update(&mut mac, message);
    hmac::Mac::finalize(mac).into_bytes().to_vec()
}

/// Why an envelope was refused.
#[derive(Debug, Clone, Copy, PartialEq, Eq, Structural)]
pub enum HmacError {
    /// The carried tag differs from the one computed with the candidate secret.
    Mismatch,
}

/// A value that contributes its canonical bytes to a MAC input.
pub trait HmacValue {
    /// The bytes this value contributes.
    spec fn mac_input(&self) -> Seq<u8>;

    /// Appends this value's bytes to `mac`.
    fn update_mac(&self, mac: &mut Vec<u8>)
        ensures
            final(mac)@ == old(mac)@ + self.mac_input(),
    ;
}

/// A string contributes its UTF-8 bytes, with no length prefix.
impl HmacValue for String {
    open spec fn mac_input(&self) -> Seq<u8> {
        encode_utf8(self@)
    }

    fn update_mac(&self, mac: &mut Vec<u8>) {
        push_bytes(mac, self.as_str().as_bytes());
    }
}

/// A present value contributes a 1 byte then its own bytes; an absent one a 0 byte.
impl<T: HmacValue> HmacValue for Option<T> {
    open spec fn mac_input(&self) -> Seq<u8> {
        match self {
            Some(v) => seq![1u8] + v.mac_input(),
            None => seq![0u8],
        }
    }

    fn update_mac(&self, mac: &mut Vec<u8>) {
        match self {
            Some(v) => {
                mac.push(1u8);
                v.update_mac(mac);
                assert(mac@ =~= old(mac)@ + (seq![1u8] + v.mac_input()));
            },
            None => {
                mac.push(0u8);
                assert(mac@ =~= old(mac)@ + seq![0u8]);
            },
        }
    }
}

/// An offset contributes its eight little-endian bytes.
impl HmacValue for Offset {
    open spec fn mac_input(&self) -> Seq<u8> {
        le_bytes(self.0 as u64)
    }

    fn update_mac(&self, mac: &mut Vec<u8>) {
        push_word(mac, self.0 as u64);
    }
}

/// A record contributes its checksum's eight little-endian bytes, its key, then its value.
impl HmacValue for Record {
    open spec fn mac_input(&self) -> Seq<u8> {
        le_bytes(self@.checksum) + self@.key + self@.value
    }

    fn update_mac(&self, mac: &mut Vec<u8>) {
        push_word(mac, self.checksum());
        push_bytes(mac, self.key());
        push_bytes(mac, self.value());
        assert(mac@ =~= old(mac)@ + (le_bytes(self@.checksum) + self@.key + self@.value));
    }
}

/// The canonical bytes of `data`.
pub fn canonical_bytes<T: HmacValue>(data: &T) -> (r: Vec<u8>)
    ensures
        r@ == data.mac_input(),
{
    let mut out: Vec<u8> = Vec::new();
    data.update_mac(&mut out);
    assert(out@ =~= data.mac_input());
    out
}

/// A payload with the HMAC-SHA256 tag of its canonical bytes.
#[derive(Debug)]
pub struct HmacForm<T> {
    hmac: Vec<u8>,
    data: T,
}

/// Whether `tag` is the tag of `data` under `secret`.
pub open spec fn tag_matches<T: HmacValue>(tag: Seq<u8>, data: T, secret: Seq<u8>) -> bool {
    tag == hmac_sha256(secret, data.mac_input())
}

impl<T: HmacValue> HmacForm<T> {
    /// The carried tag.
    pub closed spec fn tag(&self) -> Seq<u8> {
        self.hmac@
    }

    /// The carried payload.
    pub closed spec fn payload(&self) -> T {
        self.data
    }

    /// Seals `data` with the tag of its canonical bytes under `token`.
    pub fn new(data: T, token: &str) -> (r: HmacForm<T>)
        ensures
            r.payload() == data,
            r.tag() == hmac_sha256(encode_utf8(token@), data.mac_input()),
    {
        let message = canonical_bytes(&data);
        let hmac = compute_mac(token.as_bytes(), message.as_slice());
        HmacForm { hmac, data }
    }

    /// An envelope as received: a tag and the payload it claims to cover.
    pub fn from_parts(hmac: Vec<u8>, data: T) -> (r: HmacForm<T>)
        ensures
            r.tag() == hmac@,
            r.payload() == data,
    {
        HmacForm { hmac, data }
    }

    /// The tag and the payload, for sending.
    pub fn into_parts(self) -> (r: (Vec<u8>, T))
        ensures
            r.0@ == self.tag(),
            r.1 == self.payload(),
    {
        (self.hmac, self.data)
    }

    /// Recomputes the tag with `token` and compares it byte for byte with the carried one:
    /// the payload when they are equal, `Mismatch` otherwise.
    pub fn into_verified(self, token: &str) -> (r: Result<T, HmacError>)
        ensures
            r is Ok <==> tag_matches(self.tag(), self.payload(), encode_utf8(token@)),
            r is Ok ==> r->Ok_0 == self.payload(),
            r is Err ==> r == Err::<T, HmacError>(HmacError::Mismatch),
    {
        let message = canonical_bytes(&self.data);
        let expected = compute_mac(token.as_bytes(), message.as_slice());
        if bytes_eq(expected.as_slice(), self.hmac.as_slice()) {
            Ok(self.data)
        } else {
            Err(HmacError::Mismatch)
        }
    }
}

/// An envelope sealed with a secret verifies with that same secret, and yields the payload
/// that was sealed.
pub proof fn lemma_seal_then_verify<T: HmacValue>(form: HmacForm<T>, data: T, secret: Seq<u8>)
    requires
        form.payload() == data,
        form.tag() == hmac_sha256(secret, data.mac_input()),
    ensures
        tag_matches(form.tag(), form.payload(), secret),
{
}

} // verus!
