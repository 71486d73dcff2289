use prismoire::federation::prior_home_challenge_rate_limit::CallerAddr;
use prismoire::federation::transport::{
    classify_reqwest_error, header_is_forwardable, outbound_url, NullTransport, PeerId,
    SendFailure, TransportError,
};

#[test]
fn peer_id_display_is_lowercase_hex() {
    let mut bytes = [0u8; 32];
    bytes[0] = 0xab;
    bytes[31] = 0xcd;
    let id = PeerId::from_bytes(bytes);
    let rendered = id.display();
    assert_eq!(rendered.len(), 64);
    assert!(rendered.starts_with("ab"));
    assert!(rendered.ends_with("cd"));
    assert_eq!(rendered, rendered.to_lowercase());
}

#[test]
fn peer_id_round_trips_through_bytes() {
    let bytes = [0x42u8; 32];
    let id = PeerId::from_bytes(bytes);
    assert_eq!(id.as_bytes(), &bytes);
}

#[test]
fn transport_error_display_mentions_peer() {
    let id = PeerId::from_bytes([0xff; 32]);
    let err = TransportError::UnknownPeer(id);
    let s = err.display();
    assert!(s.contains(&id.display()), "got {s}");
}

#[test]
fn every_transport_error_is_told() {
    let id = PeerId::from_bytes([0xee; 32]);
    for err in [TransportError::InvalidPeerDomain(id), TransportError::BlockedTarget(id)] {
        assert!(err.display().contains(&id.display()));
    }
    assert!(TransportError::Dispatch("timeout").display().contains("timeout"));
}

#[test]
fn requests_go_to_the_domain_on_record() {
    let id = PeerId::from_bytes([1; 32]);
    let url = outbound_url(&id, Some("peer.example:8443"), &None, false, Some("/a?b=c")).unwrap();
    assert_eq!(url, "https://peer.example:8443/a?b=c");
    let bare = outbound_url(&id, Some("peer.example"), &None, false, None).unwrap();
    assert_eq!(bare, "https://peer.example/");
}

#[test]
fn requests_without_a_sound_target_are_not_sent() {
    let id = PeerId::from_bytes([1; 32]);
    assert!(matches!(
        outbound_url(&id, None, &None, false, Some("/")),
        Err(TransportError::UnknownPeer(_))
    ));
    assert!(matches!(
        outbound_url(&id, Some("peer.example/x"), &None, false, Some("/")),
        Err(TransportError::InvalidPeerDomain(_))
    ));
    let local = Some(CallerAddr::V4([10, 1, 2, 3]));
    assert!(matches!(
        outbound_url(&id, Some("10.1.2.3"), &local, false, Some("/")),
        Err(TransportError::BlockedTarget(_))
    ));
    // A developer may allow it.
    assert_eq!(
        outbound_url(&id, Some("10.1.2.3"), &local, true, Some("/")).unwrap(),
        "https://10.1.2.3/"
    );
}

#[test]
fn only_chosen_headers_go_out() {
    assert!(header_is_forwardable("content-type", "x-auth"));
    assert!(header_is_forwardable("Content-Type", "x-auth"));
    assert!(header_is_forwardable("X-Auth", "x-auth"));
    assert!(!header_is_forwardable("cookie", "x-auth"));
    assert!(!header_is_forwardable("host", "x-auth"));
}

#[test]
fn failures_fall_into_categories() {
    let none = SendFailure {
        timeout: false,
        connect: false,
        request: false,
        redirect: false,
        body: false,
        decode: false,
    };
    assert_eq!(classify_reqwest_error(&none), "other");
    assert_eq!(classify_reqwest_error(&SendFailure { timeout: true, connect: true, ..none }), "timeout");
    assert_eq!(classify_reqwest_error(&SendFailure { connect: true, ..none }), "connect");
    assert_eq!(classify_reqwest_error(&SendFailure { request: true, ..none }), "build");
    assert_eq!(classify_reqwest_error(&SendFailure { redirect: true, ..none }), "redirect");
    assert_eq!(classify_reqwest_error(&SendFailure { body: true, ..none }), "body");
    assert_eq!(classify_reqwest_error(&SendFailure { decode: true, ..none }), "body");
}

#[test]
fn the_null_transport_knows_no_peer() {
    let id = PeerId::from_bytes([7; 32]);
    assert!(matches!(NullTransport.request(&id), TransportError::UnknownPeer(p) if p == id));
}
