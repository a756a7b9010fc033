use tokki::record::{CodecError, Record};

fn record(key: &[u8], value: &[u8], checksum: u64) -> Record {
    Record::new(key.to_vec(), value.to_vec(), checksum)
}

#[test]
fn encoding_layout_is_exact() {
    let r = record(b"ab", b"c", 0x0102);
    let bytes = r.to_bytes();
    let mut expected = vec![2u8, 0, 0, 0, 0, 0, 0, 0, b'a', b'b'];
    expected.extend_from_slice(&[1, 0, 0, 0, 0, 0, 0, 0, b'c']);
    expected.extend_from_slice(&[0x02, 0x01, 0, 0, 0, 0, 0, 0]);
    assert_eq!(bytes, expected);
    assert_eq!(r.serialized_len(), 27);
}

#[test]
fn round_trip_keeps_record_and_length() {
    let cases = vec![
        record(b"", b"", 0),
        record(b"a", b"", 7),
        record(b"", b"value", u64::MAX),
        record(b"key", b"value", 0xdead_beef_0123_4567),
    ];
    for r in cases {
        let bytes = r.to_bytes();
        assert_eq!(r.serialized_len(), bytes.len());
        let (decoded, used) = Record::from_bytes(&bytes).unwrap();
        assert_eq!(decoded, r);
        assert_eq!(used, bytes.len());
    }
}

#[test]
fn decode_reads_only_the_front_record() {
    let first = record(b"k1", b"v1", 1);
    let second = record(b"k22", b"v22", 2);
    let mut bytes = first.to_bytes();
    bytes.extend_from_slice(&second.to_bytes());
    let (a, used) = Record::from_bytes(&bytes).unwrap();
    assert_eq!(a, first);
    let (b, used2) = Record::from_bytes(&bytes[used..]).unwrap();
    assert_eq!(b, second);
    assert_eq!(used + used2, bytes.len());
}

#[test]
fn every_short_prefix_is_truncated() {
    let bytes = record(b"key", b"value", 9).to_bytes();
    for n in 0..bytes.len() {
        assert_eq!(Record::from_bytes(&bytes[..n]), Err(CodecError::Truncated));
    }
}

#[test]
fn oversized_length_field_is_truncated() {
    let mut bytes = record(b"key", b"value", 9).to_bytes();
    bytes[0] = 0xff;
    bytes[7] = 0xff;
    assert_eq!(Record::from_bytes(&bytes), Err(CodecError::Truncated));
}

#[test]
fn flipped_key_byte_keeps_old_checksum() {
    let encoded = record(b"key", b"value", 0x55);
    let mut bytes = encoded.to_bytes();
    bytes[8] ^= 0x01;
    let (decoded, _) = Record::from_bytes(&bytes).unwrap();
    assert_eq!(decoded.key(), b"jey");
    assert_eq!(decoded.value(), b"value");
    assert_eq!(decoded.checksum(), 0x55);
    assert_eq!(decoded.verify_checksum(0x56), Err(CodecError::CorruptRecord));
}

#[test]
fn flipped_value_byte_changes_value() {
    let encoded = record(b"key", b"value", 0x55);
    let mut bytes = encoded.to_bytes();
    let at = 8 + 3 + 8;
    bytes[at] = b'V';
    let (decoded, _) = Record::from_bytes(&bytes).unwrap();
    assert_eq!(decoded.value(), b"Value");
    assert_ne!(decoded, encoded);
}

#[test]
fn checksum_check_accepts_only_equal_value() {
    let r = record(b"k", b"v", 42);
    assert_eq!(r.verify_checksum(42), Ok(()));
    assert_eq!(r.verify_checksum(41), Err(CodecError::CorruptRecord));
}

#[test]
fn accessors_and_copy() {
    let r = record(b"k", b"v", 3);
    assert_eq!(r.key(), b"k");
    assert_eq!(r.value(), b"v");
    assert_eq!(r.checksum(), 3);
    assert_eq!(r.copy_record(), r);
}
