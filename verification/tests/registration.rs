use ed25519_dalek::{Signer, SigningKey};

use prismoire::base64_text::{from_base64, to_base64};
use prismoire::error::{AppError, ErrorCode};
use prismoire::federation::registration::{
    authored_move, begin, begin_at, begin_response, complete, complete_at, decode_fields,
    decode_hex32, judge_complete, open_ceremony, settle, verify_answer, BeginFacts, BeginRequest,
    Ceremony, CompleteRequest, KeyProof, NonceRecord, SettleFacts, REGISTRATION_CHALLENGE_TTL_MS,
    REGISTRATION_NONCE_BYTES,
};
use prismoire::federation::signed::{ParseError, Parsed, RegistrationChallenge, SignedPayload};

const OWN: [u8; 32] = [1; 32];
const NOW: u64 = 1_700_000_000_000;

#[test]
fn ttl_constant_matches_spec() {
    assert_eq!(REGISTRATION_CHALLENGE_TTL_MS, 600_000);
}

#[test]
fn registration_nonce_size_constant_matches_spec() {
    assert_eq!(REGISTRATION_NONCE_BYTES, 32);
}

#[test]
fn decode_hex32_round_trips() {
    let s = "deadbeef".repeat(8);
    let bytes = decode_hex32(&s).expect("decode");
    assert_eq!(bytes.len(), 32);
    assert_eq!(&bytes[0..4], &[0xde, 0xad, 0xbe, 0xef]);
}

#[test]
fn decode_hex32_rejects_wrong_length() {
    assert!(decode_hex32("deadbeef").is_none());
    assert!(decode_hex32(&"de".repeat(33)).is_none());
}

#[test]
fn decode_hex32_rejects_non_hex() {
    let bad = format!("{}gg", "de".repeat(31));
    assert!(decode_hex32(&bad).is_none());
}

#[test]
fn decode_hex32_takes_both_cases() {
    assert_eq!(decode_hex32(&"aB".repeat(32)), Some([0xab; 32]));
}

fn facts() -> BeginFacts {
    BeginFacts { name_error: None, name_taken: false, key_taken: false }
}

fn told(result: Result<RegistrationChallenge, AppError>) -> (ErrorCode, Option<&'static str>) {
    let e = result.unwrap_err();
    (e.code, e.message)
}

#[test]
fn a_ceremony_begins_with_a_bound_challenge() {
    let request = BeginRequest { display_name: "alice".to_string(), user_key: "ab".repeat(32) };
    let c = begin_at(&request, &facts(), &OWN, "own.example", [9; 32], NOW).unwrap();
    assert_eq!((c.user_key, c.dest_instance_key), ([0xab; 32], OWN));
    assert_eq!((c.dest_domain.as_str(), c.nonce, c.created_at), ("own.example", [9; 32], NOW));
    let a = begin(&request, &facts(), &OWN, "own.example").unwrap();
    let b = begin(&request, &facts(), &OWN, "own.example").unwrap();
    assert_ne!(a.nonce, b.nonce);
    let response = begin_response("id".to_string(), b"bytes");
    assert_eq!(response.challenge_id, "id");
    assert_eq!(response.registration_challenge, "Ynl0ZXM=");
}

#[test]
fn beginnings_are_refused_in_order() {
    let ask = |key: &str, f: BeginFacts| {
        let request = BeginRequest { display_name: "alice".to_string(), user_key: key.to_string() };
        told(begin_at(&request, &f, &OWN, "own.example", [9; 32], NOW))
    };
    let hex = "ab".repeat(32);
    let all = BeginFacts { name_error: Some("too long"), name_taken: true, key_taken: true };
    assert_eq!(ask("xx", all), (ErrorCode::InvalidDisplayName, Some("too long")));
    let taken = BeginFacts { name_error: None, ..all };
    assert_eq!(ask("xx", taken), (ErrorCode::BadRequest, Some("invalid user_key")));
    assert_eq!(ask(&hex, taken), (ErrorCode::DisplayNameTaken, None));
    let key = BeginFacts { name_taken: false, ..taken };
    assert_eq!(ask(&hex, key), (ErrorCode::BadRequest, Some("user_key_taken")));
}

fn request(challenge: &[u8], signature: &[u8], private_key: &[u8]) -> CompleteRequest {
    CompleteRequest {
        challenge_id: "c".to_string(),
        registration_challenge: to_base64(challenge),
        signature: to_base64(signature),
        private_key: to_base64(private_key),
        move_from_domain: None,
    }
}

fn ceremony() -> Option<Ceremony> {
    Some(Ceremony { display_name: Some("alice".to_string()), user_id: Some("u".to_string()) })
}

fn challenge(user_key: [u8; 32], created_at: u64) -> Parsed {
    Ok(SignedPayload::RegistrationChallenge(RegistrationChallenge {
        user_key,
        dest_instance_key: OWN,
        dest_domain: "own.example".to_string(),
        nonce: [9; 32],
        created_at,
    }))
}

#[test]
fn a_fresh_challenge_completes_once() {
    let user = SigningKey::from_bytes(&[5; 32]);
    let key = user.verifying_key().to_bytes();
    let bytes = b"challenge".to_vec();
    let signature = user.sign(&bytes).to_bytes();
    let req = request(&bytes, &signature, &[5; 32]);
    let parsed = challenge(key, NOW);
    let account =
        complete_at(&req, ceremony(), true, &parsed, &OWN, "own.example", NOW + 600_000).unwrap();
    assert_eq!((account.display_name.as_str(), account.user_id.as_str()), ("alice", "u"));
    let late = complete_at(&req, ceremony(), true, &parsed, &OWN, "own.example", NOW + 600_001);
    assert_eq!(late.unwrap_err().message, Some("expired_challenge"));
    let stale = complete(&req, ceremony(), true, &challenge(key, 0), &OWN, "own.example");
    assert_eq!(stale.unwrap_err().message, Some("expired_challenge"));
    let other = request(&bytes, &signature, &[6; 32]);
    let mismatch = complete_at(&other, ceremony(), true, &parsed, &OWN, "own.example", NOW);
    assert_eq!(mismatch.unwrap_err().message, Some("key_mismatch"));
    let fields = decode_fields(&req).unwrap();
    assert!(verify_answer(&fields, &parsed, &OWN, "own.example", NOW).is_ok());
    let forged = decode_fields(&request(b"challengf", &signature, &[5; 32])).unwrap();
    assert_eq!(
        verify_answer(&forged, &parsed, &OWN, "own.example", NOW).unwrap_err().message,
        Some("invalid_signature")
    );
    // Then the nonce is used, and only once.
    let fresh = |consumed: bool| SettleFacts {
        nonce: Some(NonceRecord { consumed, user_key: key.to_vec() }),
        ceremony_removed: true,
        key_taken: false,
        name_taken: false,
    };
    assert!(settle(&key, &fresh(false)).is_ok());
    assert_eq!(settle(&key, &fresh(true)).unwrap_err().message, Some("invalid_signature"));
}

#[test]
fn every_fault_of_an_answer_is_told() {
    let key = [7; 32];
    let good = KeyProof {
        key_valid: true,
        signature_holds: true,
        private_key_belongs_to: Some(key),
    };
    let judge = |parsed: &Parsed, own: &[u8; 32], domain: &str, found: KeyProof| {
        judge_complete(parsed, own, domain, NOW, &found).map_err(|e| e.message.unwrap())
    };
    let parsed = challenge(key, NOW);
    assert_eq!(judge(&parsed, &OWN, "own.example", good), Ok(()));
    assert_eq!(
        judge(&Err(ParseError::Invalid), &OWN, "own.example", good),
        Err("challenge schema_invalid")
    );
    assert_eq!(
        judge(&Ok(SignedPayload::Attestation), &OWN, "own.example", good),
        Err("challenge is not a registration-challenge")
    );
    assert_eq!(judge(&parsed, &[2; 32], "own.example", good), Err("wrong_destination_key"));
    assert_eq!(judge(&parsed, &OWN, "other.example", good), Err("wrong_destination_domain"));
    let proof = KeyProof { key_valid: false, ..good };
    assert_eq!(
        judge(&parsed, &OWN, "own.example", proof),
        Err("user_key is not a valid Ed25519 pubkey")
    );
    let proof = KeyProof { signature_holds: false, ..good };
    assert_eq!(judge(&parsed, &OWN, "own.example", proof), Err("invalid_signature"));
    let proof = KeyProof { private_key_belongs_to: None, ..good };
    assert_eq!(judge(&parsed, &OWN, "own.example", proof), Err("private_key length"));
    let proof = KeyProof { private_key_belongs_to: Some([8; 32]), ..good };
    assert_eq!(judge(&parsed, &OWN, "own.example", proof), Err("key_mismatch"));
}

#[test]
fn requests_to_complete_are_read_first() {
    let mut req = request(b"a", b"b", b"c");
    req.private_key = "*".to_string();
    assert_eq!(
        decode_fields(&req).unwrap_err().message,
        Some("private_key is not valid base64")
    );
    req.signature = "*".to_string();
    assert_eq!(decode_fields(&req).unwrap_err().message, Some("signature is not valid base64"));
    req.registration_challenge = "*".to_string();
    assert_eq!(
        decode_fields(&req).unwrap_err().message,
        Some("registration_challenge is not valid base64")
    );
    assert_eq!(open_ceremony(None, true).unwrap_err().code, ErrorCode::InvalidChallenge);
    assert_eq!(open_ceremony(ceremony(), false).unwrap_err().code, ErrorCode::Internal);
    let nameless = Some(Ceremony { display_name: None, user_id: Some("u".to_string()) });
    assert_eq!(open_ceremony(nameless, true).unwrap_err().code, ErrorCode::Internal);
    assert_eq!(from_base64("Ynl0ZXM="), Some(b"bytes".to_vec()));
    assert_eq!(from_base64("Ynl0ZXM"), None);
}

#[test]
fn settling_is_refused_in_order() {
    let facts = |nonce: bool, removed: bool, key: bool, name: bool| SettleFacts {
        nonce: if nonce {
            Some(NonceRecord { consumed: false, user_key: vec![7; 32] })
        } else {
            None
        },
        ceremony_removed: removed,
        key_taken: key,
        name_taken: name,
    };
    let told = |f: SettleFacts| settle(&[7; 32], &f).map_err(|e| (e.code, e.message));
    assert_eq!(
        told(facts(false, false, true, true)),
        Err((ErrorCode::BadRequest, Some("invalid_signature")))
    );
    assert_eq!(told(facts(true, false, true, true)), Err((ErrorCode::InvalidChallenge, None)));
    assert_eq!(
        told(facts(true, true, true, true)),
        Err((ErrorCode::BadRequest, Some("user_key_taken")))
    );
    assert_eq!(told(facts(true, true, false, true)), Err((ErrorCode::DisplayNameTaken, None)));
    assert_eq!(told(facts(true, true, false, false)), Ok(()));
}

#[test]
fn a_move_is_told_where_the_former_home_is_a_peer() {
    let from = Some("old.example".to_string());
    let m = authored_move(&[7; 32], &from, &Some(vec![3; 32]), &OWN, "own.example", NOW).unwrap();
    assert_eq!((m.key, m.from_instance_key, m.to_instance_key), ([7; 32], [3; 32], OWN));
    assert_eq!((m.from_instance.as_str(), m.to_instance.as_str()), ("old.example", "own.example"));
    assert!(authored_move(&[7; 32], &from, &None, &OWN, "own.example", NOW).is_none());
    assert!(authored_move(&[7; 32], &None, &Some(vec![3; 32]), &OWN, "o", NOW).is_none());
    let empty = Some(String::new());
    assert!(authored_move(&[7; 32], &empty, &Some(vec![3; 32]), &OWN, "o", NOW).is_none());
    assert!(authored_move(&[7; 32], &from, &Some(vec![3]), &OWN, "o", NOW).is_none());
}
