use ciborium::value::Value;
use ed25519_dalek::{Signer, SigningKey};

use prismoire::crypto::sha256;
use prismoire::federation::prior_home::{
    admit_challenge, encode_challenge_body, encode_probe_body, handle_challenge,
    handle_challenge_at, handle_probe, is_subject_deactivated, iso_to_unix_ms, issue_challenge, judge_probe, open_probe,
    verify_prior_home_request, ChallengeReq, PriorHomeRefusal, ProbeProof, ProbeReq,
    MAX_FEDERATION_CLOCK_SKEW_MS, PRIOR_HOME_CHALLENGE_TTL_MS, PRIOR_HOME_NONCE_BYTES,
};
use prismoire::federation::prior_home_client::{
    answer_challenge, encode_challenge_request, encode_probe_request, parse_challenge_response,
    parse_probe_response, take_challenge, take_outcome, ProbeError,
};
use prismoire::federation::prior_home_challenge_rate_limit::{
    CallerAddr, PriorHomeChallengeRateLimiter,
};
use prismoire::federation::prior_home_rate_limit::PriorHomeRateLimiter;
use prismoire::federation::signed::{
    Deactivation, ParseError, Parsed, PriorHomeChallenge, PriorHomeResponse, SignedPayload,
};
use prismoire::federation::transport::{PeerId, TransportError};
use prismoire::federation::wire::encode_signed_object;

fn written(value: &Value) -> Vec<u8> {
    let mut buf = Vec::new();
    ciborium::ser::into_writer(value, &mut buf).unwrap();
    buf
}

fn map_of(bytes: &[u8]) -> Vec<(Value, Value)> {
    match ciborium::de::from_reader(bytes).expect("cbor") {
        Value::Map(m) => m,
        _ => panic!("expected map"),
    }
}

#[test]
fn challenge_ttl_constant_matches_spec() {
    assert_eq!(PRIOR_HOME_CHALLENGE_TTL_MS, 60_000);
}

#[test]
fn prior_home_nonce_size_constant_matches_spec() {
    assert_eq!(PRIOR_HOME_NONCE_BYTES, 32);
}

#[test]
fn challenge_req_decode_round_trips() {
    let key = [0xabu8; 32];
    let body = Value::Map(vec![(Value::Text("key".into()), Value::Bytes(key.to_vec()))]);
    let parsed = ChallengeReq::decode(&written(&body)).expect("decode");
    assert_eq!(parsed.key, key);
}

#[test]
fn challenge_req_rejects_wrong_length_key() {
    let body = Value::Map(vec![(Value::Text("key".into()), Value::Bytes(vec![0u8; 31]))]);
    assert!(ChallengeReq::decode(&written(&body)).is_none());
}

#[test]
fn challenge_req_rejects_extra_keys() {
    let body = Value::Map(vec![
        (Value::Text("key".into()), Value::Bytes(vec![0u8; 32])),
        (Value::Text("extra".into()), Value::Bool(true)),
    ]);
    assert!(ChallengeReq::decode(&written(&body)).is_none());
}

#[test]
fn probe_req_decode_round_trips() {
    let body = Value::Map(vec![
        (Value::Text("challenge".into()), Value::Bytes(b"chal".to_vec())),
        (Value::Text("response".into()), Value::Bytes(b"resp".to_vec())),
    ]);
    let parsed = ProbeReq::decode(&written(&body)).expect("decode");
    assert_eq!(parsed.challenge, b"chal");
    assert_eq!(parsed.response, b"resp");
}

#[test]
fn encode_probe_body_omits_earliest_seen_when_not_active() {
    let map = map_of(&encode_probe_body(false, None));
    assert_eq!(map.len(), 1);
    let (k, v) = &map[0];
    assert_eq!(*k, Value::Text("has_activity".into()));
    assert_eq!(*v, Value::Bool(false));
}

#[test]
fn encode_probe_body_includes_earliest_seen_when_active() {
    let map = map_of(&encode_probe_body(true, Some(1_700_000_000_000)));
    assert_eq!(map.len(), 2);
    assert_eq!(map[0].0, Value::Text("earliest_seen".into()));
    assert_eq!(map[1].0, Value::Text("has_activity".into()));
}

#[test]
fn iso_to_unix_ms_parses_typical_value() {
    assert_eq!(iso_to_unix_ms("2026-01-01T00:00:00Z"), 1_767_225_600_000);
}

#[test]
fn iso_to_unix_ms_returns_zero_on_garbage() {
    assert_eq!(iso_to_unix_ms("not a date"), 0);
}

#[test]
fn challenge_request_encodes_canonically() {
    let key = [0xab; 32];
    let entries = map_of(&encode_challenge_request(&key));
    assert_eq!(entries.len(), 1);
    assert_eq!(entries[0].0, Value::Text("key".into()));
    assert_eq!(entries[0].1, Value::Bytes(key.to_vec()));
}

#[test]
fn probe_request_encodes_canonically() {
    let ch = vec![0xc1, 0xc2, 0xc3];
    let resp = vec![0xd1, 0xd2];
    let entries = map_of(&encode_probe_request(&ch, &resp));
    assert_eq!(entries.len(), 2);
    assert_eq!(entries[0].0, Value::Text("challenge".into()));
    assert_eq!(entries[1].0, Value::Text("response".into()));
}

#[test]
fn parse_challenge_response_round_trips() {
    let wire = vec![0xa0, 0xa1, 0xa2, 0xa3];
    let body = Value::Map(vec![(Value::Text("challenge".into()), Value::Bytes(wire.clone()))]);
    let parsed = parse_challenge_response(&written(&body)).expect("parse");
    assert_eq!(parsed, wire);
}

#[test]
fn parse_challenge_response_rejects_extra_keys() {
    let body = Value::Map(vec![
        (Value::Text("challenge".into()), Value::Bytes(vec![1, 2])),
        (Value::Text("extra".into()), Value::Bool(true)),
    ]);
    assert!(parse_challenge_response(&written(&body)).is_none());
}

#[test]
fn parse_probe_response_active() {
    let body = Value::Map(vec![
        (
            Value::Text("earliest_seen".into()),
            Value::Integer(1_700_000_000_000u64.into()),
        ),
        (Value::Text("has_activity".into()), Value::Bool(true)),
    ]);
    let parsed = parse_probe_response(&written(&body)).expect("parse");
    assert!(parsed.has_activity);
    assert_eq!(parsed.earliest_seen, Some(1_700_000_000_000));
}

#[test]
fn parse_probe_response_inactive_omits_earliest() {
    let body = Value::Map(vec![(Value::Text("has_activity".into()), Value::Bool(false))]);
    let parsed = parse_probe_response(&written(&body)).expect("parse");
    assert!(!parsed.has_activity);
    assert!(parsed.earliest_seen.is_none());
}

#[test]
fn parse_probe_response_requires_has_activity() {
    let body = Value::Map(vec![(
        Value::Text("earliest_seen".into()),
        Value::Integer(1u64.into()),
    )]);
    assert!(parse_probe_response(&written(&body)).is_none());
}

// Challenges.

const NOW: u64 = 1_700_000_000_000;

#[test]
fn challenges_bind_the_key_the_instance_and_the_time() {
    let subject = SigningKey::from_bytes(&[4; 32]).verifying_key().to_bytes();
    let body = encode_challenge_request(&subject);
    let c = handle_challenge_at(&body, &[8; 32], [1; 32], NOW).unwrap();
    assert_eq!(c.subject_key, subject);
    assert_eq!(c.responder_instance_key, [8; 32]);
    assert_eq!(c.nonce, [1; 32]);
    assert_eq!((c.created_at, c.expires_at), (NOW, NOW + 60_000));
    // At the end of time the expiry stays there.
    let last = issue_challenge(&subject, true, &[8; 32], [1; 32], u64::MAX).unwrap();
    assert_eq!(last.expires_at, u64::MAX);
}

#[test]
fn only_a_key_is_charged_for_challenges() {
    let subject = SigningKey::from_bytes(&[4; 32]).verifying_key().to_bytes();
    let body = encode_challenge_request(&subject);
    let mut no_key = [0u8; 32];
    no_key[0] = 2;
    let ip = |b: u8| CallerAddr::V4([127, 0, 0, b]);
    let mut l = PriorHomeChallengeRateLimiter::new(2, 1);
    let bad = encode_challenge_request(&no_key);
    assert_eq!(admit_challenge(&bad, ip(1), &mut l, 5), Err(PriorHomeRefusal::InvalidKey));
    assert!(l.key_window(&no_key).is_none());
    assert_eq!(admit_challenge(b"junk", ip(1), &mut l, 5), Err(PriorHomeRefusal::Malformed));
    // The caller has used up its budget; the key keeps its own.
    let throttled = Err(PriorHomeRefusal::TooManyRequests);
    assert_eq!(admit_challenge(&body, ip(1), &mut l, 5), throttled);
    assert!(l.key_window(&subject).is_none());
    assert_eq!(admit_challenge(&body, ip(2), &mut l, 5), Ok(()));
    assert_eq!(admit_challenge(&body, ip(2), &mut l, 5), throttled);
    assert_eq!(admit_challenge(&body, ip(3), &mut l, 65), Ok(()));
}

#[test]
fn challenges_are_refused() {
    assert_eq!(
        handle_challenge_at(b"junk", &[8; 32], [1; 32], NOW).unwrap_err(),
        PriorHomeRefusal::Malformed
    );
    // These bytes are the coordinate of no point of the curve.
    let mut no_key = [0u8; 32];
    no_key[0] = 2;
    assert_eq!(
        handle_challenge(&encode_challenge_request(&no_key), &[8; 32]).unwrap_err(),
        PriorHomeRefusal::InvalidKey
    );
    assert_eq!(
        issue_challenge(&no_key, false, &[8; 32], [1; 32], NOW).unwrap_err(),
        PriorHomeRefusal::InvalidKey
    );
}

#[test]
fn fresh_challenges_differ_in_their_nonce() {
    let subject = SigningKey::from_bytes(&[4; 32]).verifying_key().to_bytes();
    let body = encode_challenge_request(&subject);
    let a = handle_challenge(&body, &[8; 32]).unwrap();
    let b = handle_challenge(&body, &[8; 32]).unwrap();
    assert_ne!(a.nonce, b.nonce);
    assert!(a.created_at > 1_700_000_000_000);
    assert_eq!(parse_challenge_response(&encode_challenge_body(b"framed")).unwrap(), b"framed");
}

// Probes.

fn good_proof() -> ProbeProof {
    ProbeProof {
        own_key_valid: true,
        challenge_signed: true,
        response_signed: true,
        challenge_hash: [6; 32],
    }
}

fn challenge() -> PriorHomeChallenge {
    PriorHomeChallenge {
        responder_instance_key: [8; 32],
        subject_key: [9; 32],
        nonce: [1; 32],
        created_at: NOW,
        expires_at: NOW + 60_000,
    }
}

fn response() -> PriorHomeResponse {
    PriorHomeResponse { subject_key: [9; 32], challenge_hash: [6; 32], created_at: NOW }
}

fn refusal(
    c: PriorHomeChallenge,
    r: PriorHomeResponse,
    proof: ProbeProof,
    now: u64,
    deactivated: bool,
) -> Result<[u8; 32], PriorHomeRefusal> {
    let c: Parsed = Ok(SignedPayload::PriorHomeChallenge(c));
    let r: Parsed = Ok(SignedPayload::PriorHomeResponse(r));
    judge_probe(&c, &r, &[8; 32], now, &proof, deactivated)
}

#[test]
fn an_answered_challenge_proves_the_key() {
    assert_eq!(refusal(challenge(), response(), good_proof(), NOW, false), Ok([9; 32]));
    assert_eq!(refusal(challenge(), response(), good_proof(), NOW + 60_000, false), Ok([9; 32]));
}

#[test]
fn every_fault_of_a_probe_is_told() {
    let p = good_proof;
    assert_eq!(
        refusal(challenge(), response(), ProbeProof { own_key_valid: false, ..p() }, NOW, false),
        Err(PriorHomeRefusal::Internal)
    );
    assert_eq!(
        refusal(challenge(), response(), ProbeProof { challenge_signed: false, ..p() }, NOW, false),
        Err(PriorHomeRefusal::WrongResponder)
    );
    let mut c = challenge();
    c.responder_instance_key = [7; 32];
    assert_eq!(refusal(c, response(), p(), NOW, false), Err(PriorHomeRefusal::WrongResponder));
    assert_eq!(
        refusal(challenge(), response(), ProbeProof { response_signed: false, ..p() }, NOW, false),
        Err(PriorHomeRefusal::InvalidResponse)
    );
    let mut r = response();
    r.subject_key = [10; 32];
    assert_eq!(refusal(challenge(), r, p(), NOW, false), Err(PriorHomeRefusal::SubjectMismatch));
    let mut r = response();
    r.challenge_hash = [0; 32];
    assert_eq!(refusal(challenge(), r, p(), NOW, false), Err(PriorHomeRefusal::SubjectMismatch));
    assert_eq!(
        refusal(challenge(), response(), p(), NOW + 60_001, false),
        Err(PriorHomeRefusal::ExpiredChallenge)
    );
    let mut r = response();
    r.created_at = NOW - MAX_FEDERATION_CLOCK_SKEW_MS - 1;
    assert_eq!(refusal(challenge(), r, p(), NOW, false), Err(PriorHomeRefusal::SkewExceeded));
    assert_eq!(
        refusal(challenge(), response(), p(), NOW, true),
        Err(PriorHomeRefusal::SubjectDeactivated)
    );
    let other: Parsed = Ok(SignedPayload::Attestation);
    let bad: Parsed = Err(ParseError::Invalid);
    let c: Parsed = Ok(SignedPayload::PriorHomeChallenge(challenge()));
    assert_eq!(
        judge_probe(&other, &bad, &[8; 32], NOW, &p(), false),
        Err(PriorHomeRefusal::InvalidChallenge)
    );
    assert_eq!(
        judge_probe(&c, &bad, &[8; 32], NOW, &p(), false),
        Err(PriorHomeRefusal::InvalidResponse)
    );
}

#[test]
fn refusals_have_their_status_and_code() {
    assert_eq!(PriorHomeRefusal::Malformed.status(), 400);
    assert_eq!(PriorHomeRefusal::Malformed.code(), Some("malformed"));
    assert_eq!(PriorHomeRefusal::SubjectDeactivated.status(), 403);
    assert_eq!(PriorHomeRefusal::SubjectDeactivated.code(), Some("subject_deactivated"));
    assert_eq!(PriorHomeRefusal::TooManyRequests.status(), 429);
    assert_eq!(PriorHomeRefusal::Internal.status(), 500);
    assert_eq!(PriorHomeRefusal::Internal.code(), None);
}

#[test]
fn a_probe_with_real_signatures_passes_until_the_budget_is_gone() {
    let home = SigningKey::from_bytes(&[1; 32]);
    let subject = SigningKey::from_bytes(&[2; 32]);
    let own = home.verifying_key().to_bytes();
    let key = subject.verifying_key().to_bytes();
    let challenge_payload = b"challenge payload".to_vec();
    let answer = answer_challenge(&key, &challenge_payload, NOW);
    assert_eq!(answer.challenge_hash, sha256(&challenge_payload));
    assert_eq!((answer.subject_key, answer.created_at), (key, NOW));
    let response_payload = b"response payload".to_vec();
    let framed_challenge = encode_signed_object(
        &challenge_payload,
        &home.sign(&challenge_payload).to_bytes(),
    );
    let framed_response = encode_signed_object(
        &response_payload,
        &subject.sign(&response_payload).to_bytes(),
    );
    let body = encode_probe_request(&framed_challenge, &framed_response);
    let pair = open_probe(&body).unwrap();
    assert_eq!(pair.challenge.payload, challenge_payload);
    assert_eq!(pair.response.payload, response_payload);
    let c: Parsed = Ok(SignedPayload::PriorHomeChallenge(PriorHomeChallenge {
        responder_instance_key: own,
        subject_key: key,
        nonce: [1; 32],
        created_at: NOW,
        expires_at: NOW + 60_000,
    }));
    let r: Parsed = Ok(SignedPayload::PriorHomeResponse(answer));
    let mut limiter = PriorHomeRateLimiter::new(1);
    let none: Vec<Option<Parsed>> = vec![];
    let ended: Vec<Option<Parsed>> =
        vec![Some(Ok(SignedPayload::Deactivation(Deactivation { user: key })))];
    assert_eq!(
        verify_prior_home_request(&body, &c, &r, &own, NOW, &ended, &mut limiter, 5),
        Err(PriorHomeRefusal::SubjectDeactivated)
    );
    let first = verify_prior_home_request(&body, &c, &r, &own, NOW, &none, &mut limiter, 5);
    assert_eq!(first, Ok(key));
    let second = verify_prior_home_request(&body, &c, &r, &own, NOW, &none, &mut limiter, 6);
    assert_eq!(second, Err(PriorHomeRefusal::TooManyRequests));
    // Signed by another key, it proves nothing and uses no budget.
    let forged = encode_probe_request(
        &framed_challenge,
        &encode_signed_object(&response_payload, &home.sign(&response_payload).to_bytes()),
    );
    let mut fresh = PriorHomeRateLimiter::new(1);
    assert_eq!(
        verify_prior_home_request(&forged, &c, &r, &own, NOW, &none, &mut fresh, 5),
        Err(PriorHomeRefusal::InvalidResponse)
    );
    assert!(fresh.window_of(&key).is_none());
    assert_eq!(
        verify_prior_home_request(b"junk", &c, &r, &own, NOW, &none, &mut fresh, 5),
        Err(PriorHomeRefusal::Malformed)
    );
}

#[test]
fn a_deactivated_subject_is_found_among_rows() {
    let rows: Vec<Option<Parsed>> = vec![
        None,
        Some(Err(ParseError::Invalid)),
        Some(Ok(SignedPayload::Deactivation(Deactivation { user: [3; 32] }))),
    ];
    assert!(is_subject_deactivated(&rows, &[3; 32]));
    assert!(!is_subject_deactivated(&rows, &[4; 32]));
}

#[test]
fn a_probe_tells_since_when_the_key_is_known() {
    let known = parse_probe_response(&handle_probe(&Some("2021-01-01T00:00:00Z".to_string())));
    let known = known.unwrap();
    assert!(known.has_activity);
    assert_eq!(known.earliest_seen, Some(1_609_459_200_000));
    let unknown = parse_probe_response(&handle_probe(&None)).unwrap();
    assert!(!unknown.has_activity);
    assert_eq!(unknown.earliest_seen, None);
}

// The asking side.

#[test]
fn replies_are_taken_by_their_status() {
    let framed = encode_signed_object(b"payload", b"signature");
    let body = encode_challenge_body(&framed);
    let got = take_challenge(200, &body).unwrap();
    assert_eq!(got.framed, framed);
    assert_eq!(got.payload, b"payload");
    assert!(matches!(take_challenge(429, &body), Err(ProbeError::Status(429))));
    assert!(matches!(take_challenge(200, b"junk"), Err(ProbeError::Decode(_))));
    let outcome = take_outcome(200, &encode_probe_body(true, Some(5))).unwrap();
    assert_eq!((outcome.has_activity, outcome.earliest_seen), (true, Some(5)));
    // Activity and when it began are told together or not at all.
    assert!(parse_probe_response(&encode_probe_body(true, None)).is_none());
    let lone = Value::Map(vec![
        (Value::Text("has_activity".into()), Value::Bool(false)),
        (Value::Text("earliest_seen".into()), Value::Integer(5u64.into())),
    ]);
    assert!(parse_probe_response(&written(&lone)).is_none());
    assert!(matches!(take_outcome(500, b""), Err(ProbeError::Status(500))));
    assert!(matches!(take_outcome(200, b""), Err(ProbeError::Decode(_))));
}

#[test]
fn probe_errors_are_told() {
    let id = PeerId::from_bytes([1; 32]);
    let t = ProbeError::Transport(TransportError::UnknownPeer(id)).display();
    assert!(t.contains(&id.display()), "got {t}");
    let s = ProbeError::Status(404).display();
    assert!(s.contains("404"), "got {s}");
    assert!(ProbeError::Decode("what").display().contains("what"));
}
