use tokki::api::{
    ApiErrorResponse, GetRecordsRequest, GetRecordsResponse, HealthcheckRequest,
    HealthcheckResponse, PutRecordsRequest, PutRecordsResponse, ReplicateLogResponse,
};
use tokki::cli::{CliCommand, CliStorageEngine};
use tokki::error::{Error, ServerError};
use tokki::offset::Offset;
use tokki::record::Record;

#[test]
fn get_records_messages_keep_their_fields() {
    let req = GetRecordsRequest::new(Offset(4), 10);
    assert_eq!(req.offset(), Offset(4));
    assert_eq!(req.max_records(), 10);
    let r = Record::new(b"k".to_vec(), b"v".to_vec(), 1);
    let resp = GetRecordsResponse::new(vec![r.copy_record()], Offset(5));
    assert_eq!(resp.records().len(), 1);
    assert_eq!(resp.records()[0], r);
    assert_eq!(resp.next_offset(), Offset(5));
    assert_eq!(resp.into_records(), vec![r]);
}

#[test]
fn put_records_messages_keep_their_fields() {
    let r = Record::new(b"k".to_vec(), b"v".to_vec(), 1);
    let single = PutRecordsRequest::single(r.copy_record());
    assert_eq!(single.records, vec![r.copy_record()]);
    let batch = PutRecordsRequest::new(vec![r.copy_record(), r.copy_record()]);
    assert_eq!(batch.records.len(), 2);
    let resp = PutRecordsResponse::new(Offset(7), 2);
    assert_eq!(resp, PutRecordsResponse { offset: Offset(7), len: 2 });
    assert_eq!(ReplicateLogResponse::new(vec![r]).records.len(), 1);
}

#[test]
fn health_and_error_bodies() {
    let _ = HealthcheckRequest::new();
    assert_eq!(HealthcheckResponse::new("ok".to_string()).status, "ok");
    let e = ApiErrorResponse::new("boom".to_string(), Some("http://l".to_string()));
    assert_eq!(e.message, "boom");
    assert_eq!(e.prefer.as_deref(), Some("http://l"));
    assert_eq!(Offset::new(3), Offset(3));
}

#[test]
fn plain_enums_compare() {
    assert_ne!(CliStorageEngine::InMemoryMutex, CliStorageEngine::InMemoryLockFree);
    assert_eq!(
        CliCommand::LoadTest { count: 10, batch_size: 2 },
        CliCommand::LoadTest { count: 10, batch_size: 2 }
    );
    assert_eq!(Error::PortBind { port: 9999 }, Error::PortBind { port: 9999 });
    assert_ne!(ServerError::Serve, ServerError::PortBind { port: 1 });
}
