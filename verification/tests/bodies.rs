use ciborium::value::{Integer, Value};

use prismoire::cbor::{self, Cbor};
use prismoire::federation::handshake::intersect_caps;
use prismoire::federation::moves::{
    admit_moves, open_moves_push, MoveRejectReason, MoveStatus, MovesBody, MovesPushError,
    MAX_CLOCK_SKEW_MS, MAX_MOVE_BATCH, MAX_MOVE_OBJECTS_PER_HOUR,
};
use prismoire::federation::outbound_queue::encode_batch_body;
use prismoire::federation::peering::{
    PeerDecision, PeerRelationshipDeleteBody, PeerRequestBody, PeerResponseBody, TerminationReason,
};
use prismoire::federation::push::{
    encode_by_hash, encode_results, open_by_hash, open_objects_push, ByHashRefusal, HashesBody,
    ObjectsBody, PushRefusal, PushResult,
};
use prismoire::federation::push_rate_limit::PushRateLimiter;
use prismoire::federation::reports::{ReportRejectReason, ReportResultKind, MAX_REPORT_BATCH};
use prismoire::federation::thread_status::{
    ThreadStatusRejectReason, ThreadStatusResultKind, MAX_THREAD_STATUS_BATCH,
    MAX_THREAD_STATUS_HASHES,
};
use prismoire::federation::user_status::{
    UserStatusRejectReason, UserStatusResultKind, MAX_USER_STATUS_BATCH, MAX_USER_STATUS_HASHES,
};
use prismoire::federation::wire::{decode_signed_object, encode_signed_object};

fn written(value: &Value) -> Vec<u8> {
    let mut buf = Vec::new();
    ciborium::ser::into_writer(value, &mut buf).unwrap();
    buf
}

fn read(bytes: &[u8]) -> Value {
    ciborium::de::from_reader(bytes).expect("cbor")
}

fn map_of(value: Value) -> Vec<(Value, Value)> {
    match value {
        Value::Map(m) => m,
        _ => panic!("not a map"),
    }
}

fn list_under(bytes: &[u8], key: &str) -> Vec<Value> {
    let found = map_of(read(bytes))
        .into_iter()
        .find_map(|(k, v)| match k {
            Value::Text(t) if t == key => Some(v),
            _ => None,
        })
        .expect("the key");
    match found {
        Value::Array(a) => a,
        _ => panic!("not an array"),
    }
}

fn text_under(entries: &[(Value, Value)], key: &str) -> Option<String> {
    entries.iter().find_map(|(k, v)| match (k, v) {
        (Value::Text(t), Value::Text(s)) if t == key => Some(s.clone()),
        _ => None,
    })
}

fn check_results(bytes: &[u8], expected: &[(&str, Option<&str>)]) {
    let arr = list_under(bytes, "results");
    assert_eq!(arr.len(), expected.len());
    for (idx, (want_status, want_reason)) in expected.iter().enumerate() {
        let entries = map_of(arr[idx].clone());
        assert_eq!(text_under(&entries, "status").as_deref(), Some(*want_status), "status[{idx}]");
        assert_eq!(text_under(&entries, "reason").as_deref(), *want_reason, "reason[{idx}]");
    }
}

fn result<S>(b: u8, status: S) -> PushResult<S> {
    PushResult { canonical_hash: [b; 32], status }
}

#[test]
fn results_response_uses_spec_status_tags() {
    let results = vec![
        result(1, MoveStatus::Applied),
        result(2, MoveStatus::Duplicate),
        result(3, MoveStatus::Deferred),
        result(4, MoveStatus::Superseded),
        result(5, MoveStatus::Rejected(MoveRejectReason::SkewExceeded)),
        result(6, MoveStatus::Rejected(MoveRejectReason::WrongClass)),
    ];
    let bytes = encode_results(&results);
    check_results(
        &bytes,
        &[
            ("applied", None),
            ("duplicate", None),
            ("deferred", None),
            ("superseded", None),
            ("rejected", Some("skew_exceeded")),
            ("rejected", Some("wrong_class")),
        ],
    );
}

#[test]
fn results_carry_the_hash_of_their_object() {
    let bytes = encode_results(&[result(9, MoveStatus::Applied)]);
    let entries = map_of(list_under(&bytes, "results")[0].clone());
    assert!(entries.contains(&(
        Value::Text("canonical_hash".into()),
        Value::Bytes(vec![9u8; 32])
    )));
}

#[test]
fn moves_body_decoder_accepts_bstr_elements() {
    let body = Value::Map(vec![(
        Value::Text("moves".into()),
        Value::Array(vec![Value::Bytes(vec![0xaa, 0xbb])]),
    )]);
    let parsed = MovesBody::decode(&written(&body)).expect("decode");
    assert_eq!(parsed.moves.len(), 1);
    assert_eq!(parsed.moves[0], vec![0xaa, 0xbb]);
}

#[test]
fn moves_body_decoder_rejects_non_bstr_elements() {
    let body = Value::Map(vec![(
        Value::Text("moves".into()),
        Value::Array(vec![Value::Map(vec![])]),
    )]);
    assert!(MovesBody::decode(&written(&body)).is_none());
}

#[test]
fn moves_body_decoder_rejects_unknown_top_level_key() {
    let body = Value::Map(vec![
        (
            Value::Text("moves".into()),
            Value::Array(vec![Value::Bytes(vec![0x01])]),
        ),
        (Value::Text("extra".into()), Value::Bytes(vec![0xff])),
    ]);
    assert!(MovesBody::decode(&written(&body)).is_none());
}

#[test]
fn max_clock_skew_matches_spec() {
    assert_eq!(MAX_CLOCK_SKEW_MS, 300_000);
}

fn list_body(key: &str, items: usize, len: usize) -> Vec<u8> {
    written(&Value::Map(vec![(
        Value::Text(key.into()),
        Value::Array(vec![Value::Bytes(vec![1; len]); items]),
    )]))
}

#[test]
fn move_batches_have_their_bounds() {
    assert_eq!((MAX_MOVE_BATCH, MAX_MOVE_OBJECTS_PER_HOUR), (64, 1_000));
    assert_eq!(open_moves_push(b"junk").unwrap_err(), MovesPushError::Malformed);
    assert_eq!(open_moves_push(&list_body("moves", 0, 1)).unwrap_err(), MovesPushError::EmptyBatch);
    assert_eq!(
        open_moves_push(&list_body("moves", 65, 1)).unwrap_err(),
        MovesPushError::BatchTooLarge
    );
    assert_eq!(open_moves_push(&list_body("moves", 64, 1)).unwrap().len(), 64);
    let covered = admit_moves(vec![vec![1], vec![2]], true);
    assert_eq!(covered.unwrap(), vec![vec![1], vec![2]]);
    assert_eq!(admit_moves(vec![vec![1]], false).unwrap_err(), MovesPushError::RateLimited);
    assert_eq!(MovesPushError::RateLimited.as_str(), "rate_limited");
    assert_eq!(MovesPushError::Malformed.as_str(), "malformed");
    assert_eq!(MovesPushError::EmptyBatch.as_str(), "empty_batch");
    assert_eq!(MovesPushError::BatchTooLarge.as_str(), "batch_too_large");
}

#[test]
fn object_pushes_are_refused_in_order() {
    let mut limiter = PushRateLimiter::new(4);
    let sender = [3u8; 32];
    assert_eq!(
        open_objects_push(&mut limiter, sender, 10, b"junk", 2).unwrap_err(),
        PushRefusal::Malformed
    );
    assert_eq!(
        open_objects_push(&mut limiter, sender, 10, &list_body("objects", 0, 1), 2).unwrap_err(),
        PushRefusal::EmptyBatch
    );
    assert_eq!(
        open_objects_push(&mut limiter, sender, 10, &list_body("objects", 3, 1), 2).unwrap_err(),
        PushRefusal::BatchTooLarge
    );
    let objects = open_objects_push(&mut limiter, sender, 10, &list_body("objects", 2, 1), 2);
    assert_eq!(objects.unwrap(), vec![vec![1u8], vec![1u8]]);
    // The budget is looked at before the body.
    let refused = open_objects_push(&mut limiter, sender, 10, b"junk", 2).unwrap_err();
    assert!(matches!(refused, PushRefusal::RateLimited(t) if t.status == 429));
    assert_eq!(refused.error(), None);
    assert_eq!(PushRefusal::Malformed.error(), Some("malformed"));
    assert_eq!(PushRefusal::EmptyBatch.error(), Some("empty_batch"));
    assert_eq!(PushRefusal::BatchTooLarge.error(), Some("batch_too_large"));
}

#[test]
fn by_hash_requests_are_answered_in_full() {
    assert_eq!(open_by_hash(b"junk", 2).unwrap_err(), ByHashRefusal::Malformed);
    assert_eq!(
        open_by_hash(&list_body("hashes", 0, 32), 2).unwrap_err(),
        ByHashRefusal::EmptyBatch
    );
    assert_eq!(
        open_by_hash(&list_body("hashes", 3, 32), 2).unwrap_err(),
        ByHashRefusal::TooManyHashes
    );
    assert_eq!(ByHashRefusal::Malformed.as_str(), "malformed");
    assert_eq!(ByHashRefusal::EmptyBatch.as_str(), "empty_batch");
    assert_eq!(ByHashRefusal::TooManyHashes.as_str(), "too_many_hashes");
    let hashes = open_by_hash(&list_body("hashes", 2, 32), 2).unwrap();
    assert_eq!(hashes, vec![[1u8; 32], [1u8; 32]]);
    let body = encode_by_hash(&vec![[1u8; 32], [2u8; 32]], &vec![Some(vec![7, 8]), None]);
    assert_eq!(list_under(&body, "objects"), vec![Value::Bytes(vec![7, 8])]);
    assert_eq!(list_under(&body, "missing"), vec![Value::Bytes(vec![2u8; 32])]);
}

#[test]
fn encode_batch_body_round_trips() {
    let wires: Vec<Vec<u8>> = vec![b"alpha".to_vec(), b"beta".to_vec(), b"gamma".to_vec()];
    let body = encode_batch_body("objects", &wires);
    assert_eq!(list_under(&body, "objects").len(), 3);
    assert_eq!(ObjectsBody::decode(&body).unwrap().objects, wires);
}

// Peer bodies.

fn sample_request() -> PeerRequestBody {
    PeerRequestBody {
        initiator_domain: "alpha.example".into(),
        initiator_instance_pubkey: [9u8; 32],
        proposed_capabilities: vec!["edge-sync".into(), "content-sync".into()],
        introduction: Some("hi".into()),
        request_id: [0xab; 16],
        created_at: 1_700_000_000_000,
    }
}

fn sample_response() -> PeerResponseBody {
    PeerResponseBody {
        request_id: [0xab; 16],
        responder_domain: "beta.example".into(),
        responder_instance_pubkey: [7u8; 32],
        decision: PeerDecision::Accept,
        agreed_capabilities: Some(vec!["edge-sync".into()]),
        decision_message: Some("welcome".into()),
        created_at: 1_700_000_001_000,
    }
}

#[test]
fn peer_request_round_trips() {
    let r = sample_request();
    let bytes = r.encode();
    let decoded = PeerRequestBody::decode(&bytes).expect("decode");
    assert_eq!(decoded, r);
}

#[test]
fn peer_request_round_trips_without_introduction() {
    let mut r = sample_request();
    r.introduction = None;
    let bytes = r.encode();
    let decoded = PeerRequestBody::decode(&bytes).expect("decode");
    assert_eq!(decoded, r);
}

#[test]
fn peer_response_round_trips() {
    let r = sample_response();
    let bytes = r.encode();
    let decoded = PeerResponseBody::decode(&bytes).expect("decode");
    assert_eq!(decoded, r);
}

#[test]
fn peer_response_reject_without_agreed_caps() {
    let mut r = sample_response();
    r.decision = PeerDecision::Reject;
    r.agreed_capabilities = None;
    r.decision_message = Some("not at this time".into());
    let bytes = r.encode();
    let decoded = PeerResponseBody::decode(&bytes).expect("decode");
    assert_eq!(decoded, r);
}

#[test]
fn intersect_caps_preserves_our_order_and_filters() {
    let ours: Vec<String> = vec!["a".into(), "b".into(), "c".into()];
    let proposed: Vec<String> = vec!["c".into(), "b".into(), "z".into()];
    let got = intersect_caps(&ours, &proposed);
    assert_eq!(got, vec!["b".to_string(), "c".to_string()]);
}

fn sample_delete() -> PeerRelationshipDeleteBody {
    PeerRelationshipDeleteBody {
        terminator_domain: "gamma.example".into(),
        reason: TerminationReason::PolicyViolation,
        message: Some("abuse policy §3".into()),
        created_at: 1_700_000_002_000,
    }
}

#[test]
fn peer_relationship_delete_round_trips() {
    let r = sample_delete();
    let bytes = r.encode();
    let decoded = PeerRelationshipDeleteBody::decode(&bytes).expect("decode");
    assert_eq!(decoded, r);
}

#[test]
fn peer_relationship_delete_round_trips_without_message() {
    let mut r = sample_delete();
    r.message = None;
    r.reason = TerminationReason::OperatorInitiated;
    let bytes = r.encode();
    let decoded = PeerRelationshipDeleteBody::decode(&bytes).expect("decode");
    assert_eq!(decoded, r);
}

#[test]
fn peer_relationship_delete_rejects_unknown_reason() {
    let value = Value::Map(vec![
        (
            Value::Text("terminator_domain".into()),
            Value::Text("x".into()),
        ),
        (Value::Text("reason".into()), Value::Text("bored".into())),
        (
            Value::Text("created_at".into()),
            Value::Integer(Integer::from(1u64)),
        ),
    ]);
    assert!(PeerRelationshipDeleteBody::decode(&written(&value)).is_none());
}

#[test]
fn words_of_decisions_and_reasons_read_back() {
    for d in [PeerDecision::Accept, PeerDecision::Reject] {
        assert_eq!(PeerDecision::parse(d.as_str()), Some(d));
    }
    assert_eq!(PeerDecision::parse("maybe"), None);
    for r in [
        TerminationReason::OperatorInitiated,
        TerminationReason::CompromiseResponse,
        TerminationReason::PolicyViolation,
    ] {
        assert_eq!(TerminationReason::parse(r.as_str()), Some(r));
    }
}

// Status tags and bodies of the other pushes.

#[test]
fn reports_results_encode_with_spec_status_tags() {
    let results = vec![
        result(1, ReportResultKind::Applied),
        result(2, ReportResultKind::Duplicate),
        result(3, ReportResultKind::Rejected(ReportRejectReason::WrongRecipient)),
    ];
    check_results(
        &encode_results(&results),
        &[("applied", None), ("duplicate", None), ("rejected", Some("wrong_recipient"))],
    );
}

#[test]
fn reports_objects_body_decoder_roundtrips() {
    let body = Value::Map(vec![(
        Value::Text("objects".into()),
        Value::Array(vec![Value::Bytes(vec![0x09])]),
    )]);
    assert_eq!(ObjectsBody::decode(&written(&body)).unwrap().objects, vec![vec![0x09]]);
}

#[test]
fn report_batch_cap_matches_spec() {
    assert_eq!(MAX_REPORT_BATCH, 64);
}

#[test]
fn thread_status_results_encode_with_spec_status_tags() {
    let results = vec![
        result(1, ThreadStatusResultKind::Applied),
        result(2, ThreadStatusResultKind::Deferred),
        result(
            3,
            ThreadStatusResultKind::Rejected(ThreadStatusRejectReason::UnauthorizedSigner),
        ),
    ];
    check_results(
        &encode_results(&results),
        &[("applied", None), ("deferred", None), ("rejected", Some("unauthorized_signer"))],
    );
}

#[test]
fn thread_status_objects_body_decoder_roundtrips() {
    let body = Value::Map(vec![(
        Value::Text("objects".into()),
        Value::Array(vec![Value::Bytes(vec![0x01, 0x02])]),
    )]);
    assert_eq!(ObjectsBody::decode(&written(&body)).unwrap().objects, vec![vec![0x01, 0x02]]);
}

#[test]
fn thread_status_hashes_body_decoder_rejects_wrong_length() {
    let body = Value::Map(vec![(
        Value::Text("hashes".into()),
        Value::Array(vec![Value::Bytes(vec![0x01; 33])]),
    )]);
    assert!(HashesBody::decode(&written(&body)).is_none());
}

#[test]
fn caps_match_spec() {
    assert_eq!(MAX_THREAD_STATUS_BATCH, 256);
    assert_eq!(MAX_THREAD_STATUS_HASHES, 50);
}

#[test]
fn user_status_results_encode_with_spec_status_tags() {
    let results = vec![
        result(1, UserStatusResultKind::Applied),
        result(2, UserStatusResultKind::Superseded),
        result(3, UserStatusResultKind::Rejected(UserStatusRejectReason::UnauthorizedSigner)),
    ];
    check_results(
        &encode_results(&results),
        &[("applied", None), ("superseded", None), ("rejected", Some("unauthorized_signer"))],
    );
}

#[test]
fn objects_body_decoder_accepts_bstr_elements() {
    let body = Value::Map(vec![(
        Value::Text("objects".into()),
        Value::Array(vec![Value::Bytes(vec![0xaa, 0xbb])]),
    )]);
    let parsed = ObjectsBody::decode(&written(&body)).expect("decode");
    assert_eq!(parsed.objects, vec![vec![0xaa, 0xbb]]);
}

#[test]
fn objects_body_decoder_rejects_unknown_key() {
    let body = Value::Map(vec![(
        Value::Text("nope".into()),
        Value::Array(vec![Value::Bytes(vec![0x01])]),
    )]);
    assert!(ObjectsBody::decode(&written(&body)).is_none());
}

#[test]
fn user_status_hashes_body_decoder_rejects_wrong_length() {
    let body = Value::Map(vec![(
        Value::Text("hashes".into()),
        Value::Array(vec![Value::Bytes(vec![0x01; 31])]),
    )]);
    assert!(HashesBody::decode(&written(&body)).is_none());
}

#[test]
fn batch_cap_matches_spec() {
    assert_eq!(MAX_USER_STATUS_BATCH, 256);
    assert_eq!(MAX_USER_STATUS_HASHES, 50);
}

// Frames and items.

#[test]
fn signed_objects_keep_payload_and_signature() {
    let bytes = encode_signed_object(b"payload", &[5u8; 64]);
    let object = decode_signed_object(&bytes).unwrap();
    assert_eq!(object.payload, b"payload");
    assert_eq!(object.signature, vec![5u8; 64]);
    let entries = map_of(read(&bytes));
    assert_eq!(entries[0], (Value::Text("p".into()), Value::Bytes(b"payload".to_vec())));
    assert_eq!(entries[1], (Value::Text("s".into()), Value::Bytes(vec![5u8; 64])));
    assert!(decode_signed_object(b"junk").is_none());
}

#[test]
fn items_read_back_as_they_were_written() {
    let item = Cbor::Dict(vec![
        (cbor::text("n"), cbor::uint(u64::MAX)),
        (cbor::text("minus"), Cbor::Integer(-5)),
        (cbor::text("list"), Cbor::Array(vec![cbor::bytes(b"ab"), Cbor::Bool(true)])),
    ]);
    let bytes = cbor::encode(&item);
    assert_eq!(
        read(&bytes),
        Value::Map(vec![
            (Value::Text("n".into()), Value::Integer(Integer::from(u64::MAX))),
            (Value::Text("minus".into()), Value::Integer(Integer::from(-5))),
            (
                Value::Text("list".into()),
                Value::Array(vec![Value::Bytes(b"ab".to_vec()), Value::Bool(true)])
            ),
        ])
    );
    let back = cbor::decode(&bytes).unwrap();
    assert_eq!(format!("{back:?}"), format!("{item:?}"));
    assert!(cbor::decode(&[0xff]).is_none());
    assert!(matches!(cbor::decode(&written(&Value::Null)), Some(Cbor::Other)));
}
