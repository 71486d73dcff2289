use ciborium::value::Value;

use prismoire::federation::prior_home_client::ProbeError;
use prismoire::federation::prior_home_recovery::{
    backfill_candidates, by_author_path, drive_recovery, edges_by_key_path,
    encode_bulk_fetch_body, ingest_route, list_active_peers, needs_peers, page_path,
    proactive_author_backfill, recover_via_peer_network, recover_via_prior_home, retry_after_secs,
    serves_author, signed_path, BackfillAction, Candidate, EdgeDirection, InFlightAuthors, Ingest,
    Page, PageAction, PageError, PageReply, Paging, PeerRun, RecoveryStats, SurfaceStats,
    MAX_FALLBACK_PEERS, MAX_RECOVERY_PAGES, THROTTLE_MAX_RETRIES,
};
use prismoire::federation::signed::{Parsed, SignedPayload, TrustEdge, TrustStance};
use prismoire::federation::transport::{PeerId, TransportError};

fn map_of(bytes: &[u8]) -> Vec<(Value, Value)> {
    match ciborium::de::from_reader(bytes).unwrap() {
        Value::Map(m) => m,
        _ => panic!("not a map"),
    }
}

#[test]
fn encode_bulk_fetch_body_omits_since_when_none() {
    let m = map_of(&encode_bulk_fetch_body(b"chal", b"resp", None));
    assert_eq!(m.len(), 2);
    assert_eq!(m[0].0, Value::Text("challenge".into()));
    assert_eq!(m[1].0, Value::Text("response".into()));
}

#[test]
fn encode_bulk_fetch_body_carries_since_when_some() {
    let m = map_of(&encode_bulk_fetch_body(b"chal", b"resp", Some(b"cursor")));
    assert_eq!(m.len(), 3);
    assert_eq!(m[2].0, Value::Text("since".into()));
    assert_eq!(m[2].1, Value::Bytes(b"cursor".to_vec()));
}

#[test]
fn retry_after_secs_parses_delta_seconds() {
    assert_eq!(retry_after_secs(Some("60")), Some(60));
    // Leading/trailing whitespace is tolerated.
    assert_eq!(retry_after_secs(Some(" 5 ")), Some(5));
}

#[test]
fn retry_after_secs_rejects_non_integer_and_absent() {
    assert_eq!(retry_after_secs(Some("Wed, 21 Oct 2026 07:28:00 GMT")), None);
    assert_eq!(retry_after_secs(Some("soon")), None);
    assert_eq!(retry_after_secs(None), None);
}

#[test]
fn stats_is_incomplete_unless_some_layer_succeeded() {
    let mut s = RecoveryStats::default();
    assert!(s.is_incomplete()); // nothing attempted

    s.primary_attempted = true;
    assert!(s.is_incomplete());

    s.primary_complete = true;
    assert!(!s.is_incomplete());

    s.primary_complete = false;
    s.fallback_attempted = true;
    s.fallback_complete = true;
    assert!(!s.is_incomplete());
}

fn page(objects: usize, cursor: Option<&[u8]>, complete: bool) -> PageReply {
    PageReply::Answered {
        status: 200,
        retry_after: None,
        page: Some(Page { objects, next_cursor: cursor.map(|c| c.to_vec()), complete }),
    }
}

fn status(status: u16, retry_after: Option<u64>) -> PageReply {
    PageReply::Answered { status, retry_after, page: None }
}

#[test]
fn pages_are_fetched_until_the_last() {
    let mut p = Paging::from_prior_home();
    assert!(p.cursor().is_none());
    assert!(matches!(p.advance(page(3, Some(b"c1"), false)), PageAction::Fetch));
    assert_eq!(p.cursor(), Some(&b"c1".to_vec()));
    match p.advance(page(2, None, true)) {
        PageAction::Done(s) => {
            assert_eq!((s.pages_fetched, s.objects_seen, s.complete), (2, 5, true))
        }
        other => panic!("{other:?}"),
    }
}

#[test]
fn fetching_ends_after_so_many_pages() {
    let mut p = Paging::from_peer();
    for _ in 1..MAX_RECOVERY_PAGES {
        assert!(matches!(p.advance(page(1, Some(b"c"), false)), PageAction::Fetch));
    }
    match p.advance(page(1, Some(b"c"), false)) {
        PageAction::Done(s) => assert!(!s.complete && s.pages_fetched == MAX_RECOVERY_PAGES),
        other => panic!("{other:?}"),
    }
}

#[test]
fn peers_may_ask_for_patience() {
    let mut p = Paging::from_peer();
    assert!(matches!(p.advance(status(429, Some(7))), PageAction::WaitAndFetch(7)));
    // Not for longer than a minute, and not for ever.
    assert!(matches!(p.advance(status(429, Some(9_999))), PageAction::WaitAndFetch(60)));
    for _ in 2..THROTTLE_MAX_RETRIES {
        assert!(matches!(p.advance(status(429, Some(1))), PageAction::WaitAndFetch(1)));
    }
    assert!(matches!(
        p.advance(status(429, Some(1))),
        PageAction::Fail(PageError::Status(429))
    ));
    // A former home is not asked again.
    let mut home = Paging::from_prior_home();
    assert!(matches!(
        home.advance(status(429, Some(1))),
        PageAction::Fail(PageError::Status(429))
    ));
}

#[test]
fn broken_replies_end_the_fetching() {
    let id = PeerId::from_bytes([1; 32]);
    let lost = || Paging::from_peer();
    assert!(matches!(
        lost().advance(PageReply::Failed(TransportError::UnknownPeer(id))),
        PageAction::Fail(PageError::Transport(_))
    ));
    assert!(matches!(
        lost().advance(status(500, None)),
        PageAction::Fail(PageError::Status(500))
    ));
    assert!(matches!(
        lost().advance(status(200, None)),
        PageAction::Fail(PageError::Decode(_))
    ));
    assert!(matches!(
        lost().advance(page(1, None, false)),
        PageAction::Fail(PageError::Decode(_))
    ));
    assert!(PageError::Status(503).display().contains("503"));
    assert!(PageError::Decode("what").display().contains("what"));
    assert!(matches!(PageError::from(ProbeError::Status(404)), PageError::Status(404)));
    assert!(matches!(PageError::from(ProbeError::Decode("x")), PageError::Decode("x")));
}

#[test]
fn paths_carry_the_key_and_the_cursor() {
    let key = [0xab; 32];
    let hex = "ab".repeat(32);
    let base = by_author_path(&key);
    assert_eq!(base, format!("/federation/v1/backfill/by-author?key={hex}"));
    assert_eq!(
        edges_by_key_path(&key, EdgeDirection::Both),
        format!("/federation/v1/backfill/edges-by-key?key={hex}&direction=both")
    );
    assert_eq!(
        edges_by_key_path(&key, EdgeDirection::Target),
        format!("/federation/v1/backfill/edges-by-key?key={hex}&direction=target")
    );
    assert_eq!(page_path(&base, None), base);
    let cursor = vec![0xfb, 0xff];
    assert_eq!(page_path(&base, Some(&cursor)), format!("{base}&since=-_8"));
    assert_eq!(signed_path(&base), "/federation/v1/backfill/by-author");
    assert_eq!(signed_path("/plain"), "/plain");
}

fn candidate(b: u8) -> Candidate {
    Candidate { key: [b; 32], domain: format!("{b}.example") }
}

#[test]
fn the_preferred_peer_is_asked_first_and_few_are_asked() {
    let active = || (0..20u8).map(candidate).collect::<Vec<_>>();
    let asked = backfill_candidates(active(), Some(candidate(7)));
    assert_eq!(asked[0].key, [7; 32]);
    assert_eq!(asked.len(), MAX_FALLBACK_PEERS);
    assert_eq!(asked.iter().filter(|c| c.key == [7; 32]).count(), 1);
    assert_eq!(asked[1].key, [0; 32]);
    let plain = backfill_candidates(active(), None);
    assert_eq!(plain[0].key, [0; 32]);
    let stranger = backfill_candidates(vec![candidate(1)], Some(candidate(99)));
    assert_eq!(stranger.iter().map(|c| c.key[0]).collect::<Vec<_>>(), vec![99, 1]);
    let rows = vec![(vec![1u8; 32], "a".to_string()), (vec![2u8; 5], "b".to_string())];
    let listed = list_active_peers(&rows);
    assert_eq!(listed.len(), 1);
    assert_eq!(listed[0].domain, "a");
}

#[test]
fn peers_are_asked_until_one_has_the_author() {
    let mut b = proactive_author_backfill(vec![candidate(1), candidate(2), candidate(3)], None);
    assert_eq!(b.peer().unwrap().key, [1; 32]);
    assert_eq!(b.advance(&None), BackfillAction::FetchContent);
    assert_eq!(b.peer().unwrap().key, [2; 32]);
    // All of nothing is not enough.
    assert_eq!(b.advance(&Some(surface(1, 0, true))), BackfillAction::FetchContent);
    assert_eq!(b.advance(&Some(surface(1, 5, true))), BackfillAction::FetchEdges);
    assert_eq!(b.peer().unwrap().key, [3; 32]);
    let mut none = proactive_author_backfill(vec![candidate(1)], None);
    assert_eq!(none.advance(&Some(surface(1, 5, false))), BackfillAction::Done);
    assert!(none.peer().is_none());
}

fn surface(pages: usize, objects: usize, complete: bool) -> SurfaceStats {
    SurfaceStats { pages_fetched: pages, objects_seen: objects, complete }
}

#[test]
fn recovery_falls_back_to_the_network() {
    let whole = Some((surface(1, 4, true), surface(1, 2, true)));
    assert!(!needs_peers(&whole) && needs_peers(&None));
    let stats = drive_recovery(&whole, &vec![]);
    assert!(stats.primary_attempted && stats.primary_complete && !stats.fallback_attempted);
    assert_eq!(stats.objects_seen, 6);
    let part = Some((surface(1, 4, true), surface(1, 2, false)));
    assert!(needs_peers(&part));
    let run = PeerRun { content: Some(surface(1, 3, true)), edges: Some(surface(1, 1, true)) };
    let stats = drive_recovery(&part, &vec![run]);
    assert!(!stats.primary_complete && stats.fallback_attempted && stats.fallback_complete);
    assert_eq!(stats.objects_seen, 10);
    assert!(!stats.is_incomplete());
    let none = drive_recovery(&None, &vec![]);
    assert!(!none.primary_attempted && none.fallback_attempted && !none.fallback_complete);
    assert!(none.is_incomplete());
    let (content, edges) = recover_via_peer_network(&vec![
        run,
        PeerRun { content: None, edges: Some(surface(2, 5, false)) },
    ]);
    assert_eq!((content.objects_seen, content.pages_fetched), (3, 1));
    assert_eq!((edges.objects_seen, edges.pages_fetched), (6, 3));
}

#[test]
fn a_failed_surface_leaves_the_other_as_it_is() {
    let whole = Ok(surface(2, 4, true));
    let failed = Err(PageError::Status(503));
    assert_eq!(
        recover_via_prior_home(&whole, &failed),
        (surface(2, 4, true), surface(0, 0, false))
    );
    assert_eq!(
        recover_via_prior_home(&failed, &whole),
        (surface(0, 0, false), surface(2, 4, true))
    );
    // The former home was asked, and what it gave counts.
    let stats = drive_recovery(&Some(recover_via_prior_home(&whole, &failed)), &vec![]);
    assert!(stats.primary_attempted && !stats.primary_complete && stats.fallback_attempted);
    assert_eq!(stats.objects_seen, 4);
}

#[test]
fn objects_go_where_they_belong() {
    let edge: Parsed = Ok(SignedPayload::TrustEdge(TrustEdge {
        from_key: [1; 32],
        to_key: [2; 32],
        stance: TrustStance::Trust,
        created_at: 1,
        prior_edge_hash: None,
    }));
    assert_eq!(ingest_route(&Some(edge)), Ingest::Edge);
    assert_eq!(ingest_route(&Some(Ok(SignedPayload::ThreadCreate))), Ingest::Content);
    assert_eq!(ingest_route(&None), Ingest::Content);
    assert!(serves_author(&Some(surface(1, 1, true))));
    assert!(!serves_author(&None));
}

#[test]
fn an_author_is_backfilled_once_at_a_time() {
    let mut authors = InFlightAuthors::new();
    assert!(authors.try_claim([1; 32]));
    assert!(!authors.try_claim([1; 32]));
    assert!(authors.try_claim([2; 32]));
    authors.release(&[1; 32]);
    assert!(authors.try_claim([1; 32]));
}
