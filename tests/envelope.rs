use tokki::api::{ReplicateLogRequest, ReplicateLogResponse};
use tokki::hmac::{canonical_bytes, HmacError, HmacForm, TAG_BYTES};
use tokki::offset::Offset;
use tokki::record::Record;

fn hex(bytes: &[u8]) -> String {
    bytes.iter().map(|b| format!("{b:02x}")).collect()
}

#[test]
fn tag_matches_known_hmac_sha256_vector() {
    let form = HmacForm::new("what do ya want for nothing?".to_string(), "Jefe");
    let (tag, data) = form.into_parts();
    assert_eq!(tag.len(), TAG_BYTES);
    assert_eq!(hex(&tag), "5bdcc146bf60754e6a042426089575c75a003f089d2739839dec58b964ec3843");
    assert_eq!(data, "what do ya want for nothing?");
}

#[test]
fn sealed_payload_verifies_with_same_secret() {
    let req = ReplicateLogRequest::new("http://follower:1".to_string(), Some(Offset(4)));
    let form = HmacForm::new(req, "secret");
    let back = form.into_verified("secret").unwrap();
    assert_eq!(back.follower_url, "http://follower:1");
    assert_eq!(back.max_acknowledged_offset, Some(Offset(4)));
}

#[test]
fn other_secret_is_refused() {
    let req = ReplicateLogRequest::new("http://follower:1".to_string(), None);
    let form = HmacForm::new(req, "secret");
    assert!(matches!(form.into_verified("secret2"), Err(HmacError::Mismatch)));
}

#[test]
fn tampered_payload_is_refused() {
    let req = ReplicateLogRequest::new("http://follower:1".to_string(), Some(Offset(1)));
    let (tag, _) = HmacForm::new(req, "secret").into_parts();
    let forged = ReplicateLogRequest::new("http://follower:1".to_string(), Some(Offset(2)));
    let form = HmacForm::from_parts(tag, forged);
    assert!(matches!(form.into_verified("secret"), Err(HmacError::Mismatch)));
}

#[test]
fn tampered_tag_is_refused() {
    let (mut tag, data) = HmacForm::new("payload".to_string(), "k").into_parts();
    tag[0] ^= 1;
    assert!(matches!(HmacForm::from_parts(tag, data).into_verified("k"), Err(HmacError::Mismatch)));
}

#[test]
fn canonical_bytes_of_values() {
    assert_eq!(canonical_bytes(&"ab".to_string()), b"ab".to_vec());
    assert_eq!(canonical_bytes(&Offset(258)), vec![2, 1, 0, 0, 0, 0, 0, 0]);
    assert_eq!(canonical_bytes(&None::<Offset>), vec![0]);
    assert_eq!(canonical_bytes(&Some(Offset(1))), vec![1, 1, 0, 0, 0, 0, 0, 0, 0]);
    let r = Record::new(b"k".to_vec(), b"v".to_vec(), 3);
    assert_eq!(canonical_bytes(&r), vec![3, 0, 0, 0, 0, 0, 0, 0, b'k', b'v']);
    let req = ReplicateLogRequest::new("u".to_string(), None);
    assert_eq!(canonical_bytes(&req), vec![b'u', 0]);
    let resp = ReplicateLogResponse::new(vec![
        Record::new(b"a".to_vec(), b"b".to_vec(), 1),
        Record::new(b"c".to_vec(), b"".to_vec(), 2),
    ]);
    assert_eq!(
        canonical_bytes(&resp),
        vec![1, 0, 0, 0, 0, 0, 0, 0, b'a', b'b', 2, 0, 0, 0, 0, 0, 0, 0, b'c']
    );
}

#[test]
fn adjacent_fields_share_one_byte_stream() {
    let a = ReplicateLogRequest::new("x".to_string(), None);
    let b = ReplicateLogRequest::new("x".to_string(), Some(Offset(0)));
    assert_ne!(canonical_bytes(&a), canonical_bytes(&b));
    let t1 = HmacForm::new(a, "s").into_parts().0;
    let t2 = HmacForm::new(b, "s").into_parts().0;
    assert_ne!(t1, t2);
}
