use ciborium::value::Value;

use prismoire::federation::domain::{blocked_address, parse_instance_domain};
use prismoire::federation::handshake::{
    accept_peer_request_at, callback_outcome, decode_text_array, encode_text_array,
    handle_peer_relationship_delete, handle_peer_request, handle_peer_response, handle_peers_list,
    initiate_outcome, initiate_peer_request_at, operator_accept_peer_request,
    operator_initiate_peer_request, operator_terminate_peer_relationship, peer_is_admitted,
    record_change, record_initiation, record_request, settle_acceptance, settle_termination,
    terminate_peer_relationship_at, ActivePeer, InitiateError, KnownPeer, PeerChange,
    PeerDirection, PeerRefusal, PeerRow, PeerStatus, RecordedPeer,
};
use prismoire::federation::peering::{
    PeerDecision, PeerRelationshipDeleteBody, PeerRequestBody, PeerResponseBody, TerminationReason,
};
use prismoire::federation::prior_home_challenge_rate_limit::CallerAddr;
use prismoire::federation::transport::{PeerId, TransportError};

const A: [u8; 32] = [0xaa; 32];
const B: [u8; 32] = [0xbb; 32];
const NOW: u64 = 1_700_000_000_000;

fn caps(words: &[&str]) -> Vec<String> {
    words.iter().map(|w| w.to_string()).collect()
}

fn request() -> PeerRequestBody {
    initiate_peer_request_at(
        &A,
        "a.example",
        &B,
        "b.example",
        false,
        caps(&["edge-sync", "content-sync"]),
        Some("hello".to_string()),
        [5; 16],
        NOW,
    )
    .unwrap()
}

#[test]
fn a_handshake_ends_in_agreement() {
    // A asks.
    let asked = request();
    assert_eq!(asked.initiator_domain, "a.example");
    assert_eq!(asked.initiator_instance_pubkey, A);
    assert_eq!(asked.request_id, [5; 16]);
    assert_eq!(asked.created_at, NOW);
    // B records the request.
    let inbound = handle_peer_request(&asked.encode(), &A, false).unwrap();
    assert_eq!(inbound.request, asked);
    assert_eq!(
        decode_text_array(&inbound.capabilities),
        Some(caps(&["edge-sync", "content-sync"]))
    );
    // B's operator accepts.
    let accepted = accept_peer_request_at(
        &A,
        &Some(inbound.capabilities),
        &B,
        "b.example",
        &caps(&["moves", "edge-sync"]),
        [5; 16],
        NOW + 1,
    )
    .unwrap();
    assert_eq!(accepted.initiator, A);
    assert_eq!(accepted.response.decision, PeerDecision::Accept);
    assert_eq!(accepted.response.agreed_capabilities, Some(caps(&["edge-sync"])));
    // A records the answer: both agree on the same.
    let recorded =
        Some(RecordedPeer { instance_pubkey: B.to_vec(), status: PeerStatus::PendingOutbound });
    let change = handle_peer_response(&accepted.response.encode(), &B, &recorded).unwrap();
    match change {
        PeerChange::Activate { agreed, .. } => assert_eq!(agreed, accepted.agreed),
        other => panic!("{other:?}"),
    }
}

#[test]
fn requests_that_make_no_peering_are_not_sent() {
    let ask = |target: &[u8; 32], domain: &str, taken: bool| {
        operator_initiate_peer_request(&A, "a.example", target, domain, taken, vec![], None)
    };
    assert!(matches!(ask(&A, "b.example", false), Err(InitiateError::SelfPeering)));
    assert!(matches!(ask(&B, "b.example/x", false), Err(InitiateError::InvalidTargetDomain)));
    assert!(matches!(ask(&B, "b.example", true), Err(InitiateError::DomainConflict)));
    let sent = ask(&B, "b.example", false).unwrap();
    assert!(sent.created_at > NOW);
    assert_ne!(sent.request_id, ask(&B, "b.example", false).unwrap().request_id);
    // The id of a request is a random UUID.
    assert_eq!((sent.request_id[6] >> 4, sent.request_id[8] >> 6), (4, 2));
    assert!(initiate_outcome(202).is_ok());
    assert!(matches!(initiate_outcome(200), Err(InitiateError::UnexpectedStatus(200))));
    assert!(matches!(initiate_outcome(409), Err(InitiateError::UnexpectedStatus(409))));
    assert!(callback_outcome(200).is_ok());
    assert!(matches!(callback_outcome(500), Err(InitiateError::UnexpectedStatus(500))));
}

#[test]
fn requests_are_refused() {
    let body = request().encode();
    assert_eq!(handle_peer_request(b"junk", &A, false).unwrap_err(), PeerRefusal::InvalidBody);
    assert_eq!(handle_peer_request(&body, &B, false).unwrap_err(), PeerRefusal::Unauthorized);
    assert_eq!(handle_peer_request(&body, &A, true).unwrap_err(), PeerRefusal::DomainTaken);
    let mut odd = request();
    odd.initiator_domain = "a.example/evil".to_string();
    assert_eq!(
        handle_peer_request(&odd.encode(), &A, false).unwrap_err(),
        PeerRefusal::InvalidInitiatorDomain
    );
    assert_eq!(
        (PeerRefusal::DomainTaken.status(), PeerRefusal::DomainTaken.code()),
        (409, Some("domain_taken"))
    );
    assert_eq!((PeerRefusal::Internal.status(), PeerRefusal::Internal.code()), (500, None));
}

fn response(decision: PeerDecision) -> Vec<u8> {
    PeerResponseBody {
        request_id: [5; 16],
        responder_domain: "b.example".to_string(),
        responder_instance_pubkey: B,
        decision,
        agreed_capabilities: match decision {
            PeerDecision::Accept => Some(caps(&["edge-sync"])),
            PeerDecision::Reject => None,
        },
        decision_message: Some("word".to_string()),
        created_at: NOW,
    }
    .encode()
}

fn recorded(key: Vec<u8>, status: PeerStatus) -> Option<RecordedPeer> {
    Some(RecordedPeer { instance_pubkey: key, status })
}

#[test]
fn only_the_asked_instance_answers() {
    let accept = response(PeerDecision::Accept);
    let pending = || recorded(B.to_vec(), PeerStatus::PendingOutbound);
    assert_eq!(
        handle_peer_response(b"junk", &B, &pending()).unwrap_err(),
        PeerRefusal::InvalidBody
    );
    assert_eq!(
        handle_peer_response(&accept, &A, &pending()).unwrap_err(),
        PeerRefusal::Unauthorized
    );
    assert_eq!(
        handle_peer_response(&accept, &B, &None).unwrap_err(),
        PeerRefusal::UnknownRequest
    );
    for status in [PeerStatus::PendingInbound, PeerStatus::Rejected, PeerStatus::Terminated] {
        assert_eq!(
            handle_peer_response(&accept, &B, &recorded(B.to_vec(), status)).unwrap_err(),
            PeerRefusal::UnknownRequest
        );
    }
    assert_eq!(
        handle_peer_response(&accept, &B, &recorded(A.to_vec(), PeerStatus::PendingOutbound))
            .unwrap_err(),
        PeerRefusal::Unauthorized
    );
    assert_eq!(
        handle_peer_response(&accept, &B, &recorded(vec![1], PeerStatus::PendingOutbound))
            .unwrap_err(),
        PeerRefusal::Internal
    );
}

#[test]
fn answers_with_long_messages_are_refused() {
    let answer = |len: usize| {
        PeerResponseBody {
            request_id: [5; 16],
            responder_domain: "b.example".to_string(),
            responder_instance_pubkey: B,
            decision: PeerDecision::Reject,
            agreed_capabilities: None,
            decision_message: Some("m".repeat(len)),
            created_at: NOW,
        }
        .encode()
    };
    let pending = recorded(B.to_vec(), PeerStatus::PendingOutbound);
    assert!(handle_peer_response(&answer(4096), &B, &pending).is_ok());
    assert_eq!(
        handle_peer_response(&answer(4097), &B, &pending).unwrap_err(),
        PeerRefusal::InvalidBody
    );
}

#[test]
fn a_refusal_ends_only_what_is_pending() {
    let reject = response(PeerDecision::Reject);
    let pending = recorded(B.to_vec(), PeerStatus::PendingOutbound);
    assert!(matches!(
        handle_peer_response(&reject, &B, &pending).unwrap(),
        PeerChange::Reject { message: Some(m) } if m == "word"
    ));
    let active = recorded(B.to_vec(), PeerStatus::Active);
    assert!(matches!(handle_peer_response(&reject, &B, &active).unwrap(), PeerChange::Keep));
}

#[test]
fn operators_accept_only_what_is_on_record() {
    let accept = |key: &[u8], stored: &Option<Vec<u8>>| {
        accept_peer_request_at(key, stored, &B, "b.example", &caps(&["x"]), [5; 16], NOW)
    };
    assert!(accept(&[1, 2], &None).is_err());
    // Nothing proposed, nothing agreed.
    let bare = accept(&A, &None).unwrap();
    assert_eq!(bare.response.agreed_capabilities, Some(vec![]));
    assert_eq!(decode_text_array(&bare.agreed), Some(vec![]));
    let now = operator_accept_peer_request(&A, &None, &B, "b.example", &caps(&["x"]), [5; 16]);
    assert!(now.unwrap().response.created_at > 0);
}

#[test]
fn terminations_name_the_domain_on_record() {
    let known = |domain: &str, status: PeerStatus| {
        Some(KnownPeer { instance_domain: domain.to_string(), status })
    };
    let a = known("a.example", PeerStatus::Active);
    let body = terminate_peer_relationship_at(
        "a.example",
        TerminationReason::CompromiseResponse,
        Some("sorry".to_string()),
        NOW,
    );
    assert_eq!(body.created_at, NOW);
    let bytes = body.encode();
    let change = handle_peer_relationship_delete(&bytes, &a).unwrap();
    assert!(matches!(
        change,
        PeerChange::Terminate { reason: TerminationReason::CompromiseResponse, message: Some(m) }
            if m == "sorry"
    ));
    assert_eq!(
        handle_peer_relationship_delete(&bytes, &None).unwrap_err(),
        PeerRefusal::Unauthorized
    );
    assert_eq!(
        handle_peer_relationship_delete(&bytes, &known("b.example", PeerStatus::Active)).unwrap_err(),
        PeerRefusal::InvalidBody
    );
    assert_eq!(
        handle_peer_relationship_delete(b"", &a).unwrap_err(),
        PeerRefusal::InvalidBody
    );
    let long = PeerRelationshipDeleteBody {
        terminator_domain: "a.example".to_string(),
        reason: TerminationReason::OperatorInitiated,
        message: Some("m".repeat(4097)),
        created_at: NOW,
    };
    assert_eq!(
        handle_peer_relationship_delete(&long.encode(), &a).unwrap_err(),
        PeerRefusal::InvalidBody
    );
    // Told twice, it ends once.
    let over = known("a.example", PeerStatus::Terminated);
    let again = handle_peer_relationship_delete(&bytes, &over).unwrap();
    assert!(matches!(again, PeerChange::Keep));
    let pending = known("a.example", PeerStatus::PendingInbound);
    assert_eq!(
        handle_peer_relationship_delete(&bytes, &pending).unwrap_err(),
        PeerRefusal::Unauthorized
    );
    let reason = TerminationReason::OperatorInitiated;
    let now = operator_terminate_peer_relationship("a.example", reason, None);
    assert!(now.created_at > 0);
    assert_eq!(now.reason, reason);
}

fn row(status: PeerStatus) -> PeerRow {
    PeerRow {
        instance_pubkey: B.to_vec(),
        instance_domain: "b.example".to_string(),
        status,
        direction: PeerDirection::Inbound,
        request_id: vec![4; 16],
        capabilities: encode_text_array(&caps(&["old"])),
        agreed_capabilities: Some(vec![1]),
        decision_message: Some("before".to_string()),
        termination_reason: Some(TerminationReason::CompromiseResponse),
    }
}

#[test]
fn a_request_starts_a_record_or_starts_it_over() {
    let asked = request();
    let fresh = record_initiation(None, &B, "b.example", &asked);
    assert_eq!(fresh.instance_pubkey, B.to_vec());
    assert_eq!(fresh.instance_domain, "b.example");
    assert_eq!(
        (fresh.status, fresh.direction),
        (PeerStatus::PendingOutbound, PeerDirection::Outbound)
    );
    assert_eq!(fresh.request_id, vec![5; 16]);
    assert_eq!(
        decode_text_array(&fresh.capabilities),
        Some(caps(&["edge-sync", "content-sync"]))
    );
    assert!(fresh.agreed_capabilities.is_none() && fresh.decision_message.is_none());
    // The record of an earlier peering keeps what the request does not say.
    let again = record_initiation(Some(row(PeerStatus::Terminated)), &B, "new.example", &asked);
    assert_eq!((again.status, again.direction), (fresh.status, fresh.direction));
    assert_eq!(again.instance_domain, "b.example");
    assert_eq!(again.request_id, vec![5; 16]);
    assert_eq!(again.agreed_capabilities, Some(vec![1]));
    assert_eq!(again.decision_message.as_deref(), Some("before"));

    let inbound = record_request(None, &asked);
    assert_eq!(inbound.instance_pubkey, A.to_vec());
    assert_eq!(
        (inbound.status, inbound.direction),
        (PeerStatus::PendingInbound, PeerDirection::Inbound)
    );
    // Another instance tells under which domain it is reached now.
    let moved = record_request(Some(row(PeerStatus::Rejected)), &asked);
    assert_eq!(moved.instance_domain, "a.example");
    assert_eq!((moved.status, moved.request_id), (PeerStatus::PendingInbound, vec![5; 16]));
    assert_eq!(moved.termination_reason, Some(TerminationReason::CompromiseResponse));
}

fn unreachable_peer() -> TransportError {
    TransportError::UnknownPeer(PeerId::from_bytes(A))
}

#[test]
fn an_acceptance_is_recorded_once_it_has_arrived() {
    let accepted =
        accept_peer_request_at(&A, &None, &B, "b.example", &caps(&["x"]), [5; 16], NOW).unwrap();
    let settled = settle_acceptance(Ok(200), row(PeerStatus::PendingInbound), &accepted).unwrap();
    assert_eq!(settled.status, PeerStatus::Active);
    assert_eq!(settled.agreed_capabilities.as_deref(), Some(accepted.agreed.as_slice()));
    assert_eq!(settled.decision_message.as_deref(), Some("before"));
    // What was ended meanwhile stays ended.
    let ended = settle_acceptance(Ok(200), row(PeerStatus::Terminated), &accepted).unwrap();
    assert_eq!((ended.status, ended.agreed_capabilities), (PeerStatus::Terminated, Some(vec![1])));
    assert!(matches!(
        settle_acceptance(Ok(409), row(PeerStatus::PendingInbound), &accepted),
        Err(InitiateError::UnexpectedStatus(409))
    ));
    assert!(matches!(
        settle_acceptance(Err(unreachable_peer()), row(PeerStatus::PendingInbound), &accepted),
        Err(InitiateError::Transport(TransportError::UnknownPeer(_)))
    ));
}

#[test]
fn both_sides_record_a_termination() {
    let reason = TerminationReason::OperatorInitiated;
    let told =
        || terminate_peer_relationship_at("a.example", reason, Some("bye".to_string()), NOW);
    let known =
        Some(KnownPeer { instance_domain: "a.example".to_string(), status: PeerStatus::Active });
    let theirs = handle_peer_relationship_delete(&told().encode(), &known).unwrap();
    let ours = settle_termination(Ok(200), PeerStatus::Active, told()).unwrap();
    for change in [theirs, ours] {
        let changed = record_change(row(PeerStatus::Active), change);
        assert_eq!(changed.status, PeerStatus::Terminated);
        assert_eq!(changed.termination_reason, Some(reason));
        assert_eq!(changed.decision_message.as_deref(), Some("bye"));
    }
    assert!(matches!(
        settle_termination(Ok(200), PeerStatus::Rejected, told()),
        Ok(PeerChange::Keep)
    ));
    assert!(matches!(
        settle_termination(Ok(500), PeerStatus::Active, told()),
        Err(InitiateError::UnexpectedStatus(500))
    ));
    assert!(matches!(
        settle_termination(Err(unreachable_peer()), PeerStatus::Active, told()),
        Err(InitiateError::Transport(_))
    ));
}

#[test]
fn a_former_peer_may_only_end_it_again() {
    assert!(peer_is_admitted(Some(PeerStatus::Active), false));
    assert!(peer_is_admitted(Some(PeerStatus::Active), true));
    assert!(peer_is_admitted(Some(PeerStatus::Terminated), true));
    assert!(!peer_is_admitted(Some(PeerStatus::Terminated), false));
    for status in [PeerStatus::PendingInbound, PeerStatus::PendingOutbound, PeerStatus::Rejected] {
        assert!(!peer_is_admitted(Some(status), true));
    }
    assert!(!peer_is_admitted(None, true));
}

#[test]
fn answers_change_the_record() {
    let change = PeerChange::Activate { agreed: vec![9], message: None };
    let active = record_change(row(PeerStatus::PendingOutbound), change);
    assert_eq!((active.status, active.agreed_capabilities), (PeerStatus::Active, Some(vec![9])));
    assert_eq!(active.decision_message, None);
    let change = PeerChange::Reject { message: Some("no".to_string()) };
    let rejected = record_change(row(PeerStatus::PendingOutbound), change);
    assert_eq!(rejected.status, PeerStatus::Rejected);
    assert_eq!(rejected.decision_message.as_deref(), Some("no"));
    assert_eq!(rejected.agreed_capabilities, Some(vec![1]));
    let kept = record_change(row(PeerStatus::Active), PeerChange::Keep);
    assert_eq!((kept.status, kept.request_id), (PeerStatus::Active, vec![4; 16]));
}

#[test]
fn an_acceptance_says_what_is_agreed() {
    let answer = |decision: PeerDecision, agreed: Option<Vec<String>>| {
        PeerResponseBody {
            request_id: [5; 16],
            responder_domain: "b.example".to_string(),
            responder_instance_pubkey: B,
            decision,
            agreed_capabilities: agreed,
            decision_message: None,
            created_at: NOW,
        }
        .encode()
    };
    assert!(PeerResponseBody::decode(&answer(PeerDecision::Accept, Some(vec![]))).is_some());
    assert!(PeerResponseBody::decode(&answer(PeerDecision::Reject, None)).is_some());
    assert!(PeerResponseBody::decode(&answer(PeerDecision::Accept, None)).is_none());
    assert!(PeerResponseBody::decode(&answer(PeerDecision::Reject, Some(vec![]))).is_none());
}

#[test]
fn statuses_are_stored_under_their_words() {
    for direction in [PeerDirection::Outbound, PeerDirection::Inbound] {
        assert_eq!(PeerDirection::parse(direction.as_str()), Some(direction));
    }
    assert_eq!(PeerDirection::parse("inbound"), Some(PeerDirection::Inbound));
    assert_eq!(PeerDirection::parse("sideways"), None);
    assert_eq!(PeerStatus::parse("pending_outbound"), Some(PeerStatus::PendingOutbound));
    assert_eq!(PeerStatus::parse("terminated"), Some(PeerStatus::Terminated));
    assert_eq!(PeerStatus::parse("closed"), None);
    for status in [PeerStatus::PendingInbound, PeerStatus::Active, PeerStatus::Rejected] {
        assert_eq!(PeerStatus::parse(status.as_str()), Some(status));
    }
}

#[test]
fn active_peers_are_listed() {
    let peers = vec![
        ActivePeer {
            instance_pubkey: B.to_vec(),
            instance_domain: "b.example".to_string(),
            first_seen: "2021-01-01T00:00:00Z".to_string(),
            capabilities: Some(encode_text_array(&caps(&["edge-sync"]))),
        },
        // What cannot be read of a record is told as nothing.
        ActivePeer {
            instance_pubkey: A.to_vec(),
            instance_domain: "c.example".to_string(),
            first_seen: "long ago".to_string(),
            capabilities: None,
        },
    ];
    let text = |t: &str| Value::Text(t.into());
    let peer = |domain: &str, key: [u8; 32], since: u64, caps: Vec<Value>| {
        Value::Map(vec![
            (text("domain"), text(domain)),
            (text("instance_pubkey"), Value::Bytes(key.to_vec())),
            (text("since"), Value::Integer(since.into())),
            (text("capabilities"), Value::Array(caps)),
        ])
    };
    let value: Value = ciborium::de::from_reader(handle_peers_list(&peers).as_slice()).unwrap();
    assert_eq!(
        value,
        Value::Map(vec![(
            text("peers"),
            Value::Array(vec![
                peer("b.example", B, 1_609_459_200_000, vec![text("edge-sync")]),
                peer("c.example", A, 0, vec![]),
            ])
        )])
    );
}

#[test]
fn text_arrays_read_back() {
    let list = caps(&["b", "a", "b"]);
    assert_eq!(decode_text_array(&encode_text_array(&list)), Some(list));
    assert_eq!(decode_text_array(b"junk"), None);
}

// Domains.

#[test]
fn domains_are_bare_authorities() {
    let d = parse_instance_domain("example.com").unwrap();
    assert_eq!((d.host.as_str(), d.port), ("example.com", None));
    let d = parse_instance_domain("host.local:8443").unwrap();
    assert_eq!((d.host.as_str(), d.port), ("host.local", Some(8443)));
    let d = parse_instance_domain("[2001:db8::1]:443").unwrap();
    assert_eq!(d.port, Some(443));
    for bad in [
        "",
        "example.com/",
        "example.com:",
        "example.com:0x1",
        "example.com:99999",
        "user@example.com",
        "exa mple.com",
        "https://example.com",
        "[2001:db8::1",
    ] {
        assert!(parse_instance_domain(bad).is_err(), "{bad}");
    }
    assert!(parse_instance_domain(&"a".repeat(256)).is_err());
}

#[test]
fn private_addresses_are_blocked() {
    for v4 in [[127, 0, 0, 1], [10, 0, 0, 1], [192, 168, 1, 1], [172, 16, 0, 1], [169, 254, 1, 1]] {
        assert!(blocked_address(&CallerAddr::V4(v4)), "{v4:?}");
    }
    assert!(!blocked_address(&CallerAddr::V4([93, 184, 216, 34])));
    let mut loopback = [0u8; 16];
    loopback[15] = 1;
    assert!(blocked_address(&CallerAddr::V6(loopback)));
    let mut public = [0u8; 16];
    public[0] = 0x26;
    public[1] = 0x06;
    assert!(!blocked_address(&CallerAddr::V6(public)));
}
