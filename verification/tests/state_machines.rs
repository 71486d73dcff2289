use ed25519_dalek::{Signer, SigningKey};

use prismoire::crypto::{key_is_valid, public_key_of, sha256, signature_holds};
use prismoire::federation::latest_wins::{new_wins, CurrentClaim};
use prismoire::federation::moves::{
    apply_one_move, dispose_local_user_authority, home_row, judge_move,
    move_routing_key_from_bytes, LocalAccount, MoveFacts, MoveRejectReason, MoveStatus, Rehome,
};
use prismoire::federation::push::Outcome;
use prismoire::federation::remote_users::{
    edge_stamp, edge_stamp_at, erases_chain, hydrate_stub_user, pending_candidate,
    resolve_current_home, resolve_home_at_t, sanitize_remote_display_name, stored_move_ends,
    sweep_pending_projections, try_project_trust_edge, EdgeLink, KnownUser, MoveEnds, MoveRecord,
    StubAction, TrustEdgeProjection,
};
use prismoire::federation::reports::{
    apply_one_report, judge_report, queued_kind, reject, HomeFacts, ReportFacts,
    ReportRejectReason, ReportResultKind,
};
use prismoire::federation::signed::{
    Move, ParseError, Parsed, Report, SignedPayload, ThreadStatus, ThreadStatusKind, TrustEdge,
    TrustStance, UserStatus, UserStatusKind,
};
use prismoire::federation::thread_status::{
    apply_one_thread_status, dispatch_local_thread_status, dispatch_local_thread_status_at,
    judge_thread_status, LocalThread, ThreadStatusFacts, ThreadStatusRejectReason,
    ThreadStatusResultKind,
};
use prismoire::federation::user_status::{
    apply_one_user_status, judge_user_status, registered_home_of, resolve_subject_home_at_t,
    SubjectFacts, UserStatusFacts, UserStatusRejectReason, UserStatusResultKind,
};
use prismoire::federation::wire::encode_signed_object;

const LOCAL: [u8; 32] = [1; 32];
const OTHER: [u8; 32] = [2; 32];
const HASH: [u8; 32] = [7; 32];
const NOW: u64 = 1_700_000_000_000;

fn a_move(key: [u8; 32]) -> Move {
    Move {
        key,
        from_instance_key: LOCAL,
        from_instance: "local.example".to_string(),
        to_instance_key: OTHER,
        to_instance: "other.example".to_string(),
        created_at: NOW,
        prior_move_hash: None,
    }
}

fn move_facts() -> MoveFacts {
    MoveFacts { stored_payload_gone: None, prior_stored: false, current: None }
}

fn judged(m: Move, signature_ok: bool, facts: MoveFacts) -> MoveStatus {
    let parsed: Parsed = Ok(SignedPayload::Move(m));
    judge_move(&parsed, &HASH, signature_ok, &facts, &LOCAL, NOW).status
}

#[test]
fn moves_take_each_way_through_the_machine() {
    assert_eq!(judged(a_move(OTHER), true, move_facts()), MoveStatus::Applied);
    assert_eq!(
        judged(a_move(OTHER), false, move_facts()),
        MoveStatus::Rejected(MoveRejectReason::InvalidSignature)
    );
    let mut ahead = a_move(OTHER);
    ahead.created_at = NOW + 300_001;
    assert_eq!(
        judged(ahead, true, move_facts()),
        MoveStatus::Rejected(MoveRejectReason::SkewExceeded)
    );
    let mut chained = a_move(OTHER);
    chained.prior_move_hash = Some([9; 32]);
    assert_eq!(judged(chained, true, move_facts()), MoveStatus::Deferred);
    let mut chained = a_move(OTHER);
    chained.prior_move_hash = Some([9; 32]);
    let known = MoveFacts { prior_stored: true, ..move_facts() };
    assert_eq!(judged(chained, true, known), MoveStatus::Applied);
    let newer = MoveFacts {
        current: Some(CurrentClaim { created_at: NOW as i64 + 1, hash: vec![0; 32] }),
        ..move_facts()
    };
    assert_eq!(judged(a_move(OTHER), true, newer), MoveStatus::Superseded);
    let stored = MoveFacts { stored_payload_gone: Some(false), ..move_facts() };
    assert_eq!(judged(a_move(OTHER), true, stored), MoveStatus::Duplicate);
    let gone = MoveFacts { stored_payload_gone: Some(true), ..move_facts() };
    assert_eq!(
        judged(a_move(OTHER), true, gone),
        MoveStatus::Rejected(MoveRejectReason::SchemaInvalid)
    );
    let status = |parsed: Parsed| {
        judge_move(&parsed, &HASH, true, &move_facts(), &LOCAL, NOW).status
    };
    assert_eq!(
        status(Err(ParseError::UnknownClass)),
        MoveStatus::Rejected(MoveRejectReason::UnknownClass)
    );
    assert_eq!(
        status(Err(ParseError::Invalid)),
        MoveStatus::Rejected(MoveRejectReason::SchemaInvalid)
    );
    assert_eq!(
        status(Ok(SignedPayload::ThreadCreate)),
        MoveStatus::Rejected(MoveRejectReason::WrongClass)
    );
    assert_eq!(
        status(Ok(SignedPayload::FedEnvelope)),
        MoveStatus::Rejected(MoveRejectReason::UnknownClass)
    );
}

#[test]
fn what_follows_from_a_move() {
    let parsed: Parsed = Ok(SignedPayload::Move(a_move(OTHER)));
    let away = judge_move(&parsed, &HASH, true, &move_facts(), &LOCAL, NOW);
    assert!(away.persist && away.forward && away.dispose_authority);
    assert_eq!(away.rehome, Rehome::Away);
    let here = judge_move(&parsed, &HASH, true, &move_facts(), &OTHER, NOW);
    assert_eq!(here.rehome, Rehome::Here);
    assert!(!here.dispose_authority);
    let refused = judge_move(&parsed, &HASH, false, &move_facts(), &LOCAL, NOW);
    assert!(!refused.persist && !refused.forward && !refused.dispose_authority);
    assert_eq!(refused.rehome, Rehome::Keep);
}

#[test]
fn pushed_moves_are_verified_under_their_own_key() {
    let user = SigningKey::from_bytes(&[3; 32]);
    let key = user.verifying_key().to_bytes();
    let payload = b"move payload".to_vec();
    let wire =
        |signer: &SigningKey| encode_signed_object(&payload, &signer.sign(&payload).to_bytes());
    let parsed: Parsed = Ok(SignedPayload::Move(a_move(key)));
    let (result, verdict) =
        apply_one_move(&wire(&user), &parsed, &move_facts(), &LOCAL, NOW);
    assert_eq!(result.status, MoveStatus::Applied);
    assert_eq!(result.canonical_hash, sha256(&payload));
    assert!(verdict.persist);
    let forger = SigningKey::from_bytes(&[4; 32]);
    let (result, _) =
        apply_one_move(&wire(&forger), &parsed, &move_facts(), &LOCAL, NOW);
    assert_eq!(result.status, MoveStatus::Rejected(MoveRejectReason::InvalidSignature));
    let (result, _) = apply_one_move(b"wire", &parsed, &move_facts(), &LOCAL, NOW);
    assert_eq!(result.status, MoveStatus::Rejected(MoveRejectReason::SchemaInvalid));
    assert_eq!(result.canonical_hash, sha256(b"wire"));
}

#[test]
fn moves_are_recorded_and_routed() {
    let row = home_row(&a_move(OTHER), &HASH);
    assert_eq!((row.home_key, row.home_domain.as_str()), (OTHER, "other.example"));
    assert_eq!((row.move_hash, row.created_at), (HASH, NOW as i64));
    let parsed: Parsed = Ok(SignedPayload::Move(a_move([6; 32])));
    assert_eq!(move_routing_key_from_bytes(&parsed), Some(vec![6; 32]));
    assert_eq!(move_routing_key_from_bytes(&Ok(SignedPayload::ThreadCreate)), None);
    let account = |method: &str| {
        Some(LocalAccount { user_id: "u".to_string(), signup_method: method.to_string() })
    };
    let local = dispose_local_user_authority(&account("invite"));
    assert!(local.delete_signing_keys && local.delete_sessions && local.delete_credentials);
    assert!(local.become_federated);
    let nobody = dispose_local_user_authority(&None);
    assert!(!nobody.delete_signing_keys && !nobody.become_federated);
    let stub = dispose_local_user_authority(&account("federated"));
    assert!(!stub.become_federated);
}

#[test]
fn the_latest_claim_wins_and_ties_go_to_the_smaller_hash() {
    let current = |t: i64, h: u8| Some(CurrentClaim { created_at: t, hash: vec![h; 32] });
    assert!(new_wins(5, &[1; 32], &None));
    assert!(new_wins(6, &[0; 32], &current(5, 9)));
    assert!(!new_wins(4, &[9; 32], &current(5, 1)));
    assert!(new_wins(5, &[1; 32], &current(5, 2)));
    assert!(!new_wins(5, &[2; 32], &current(5, 1)));
    assert!(!new_wins(5, &[1; 32], &current(5, 1)));
}

#[test]
fn claims_settle_alike_in_whatever_order_they_arrive() {
    let settle = |start: Option<(i64, u8)>, claims: [(i64, u8); 2]| {
        let mut current = start.map(|(t, h)| CurrentClaim { created_at: t, hash: vec![h; 32] });
        for (t, h) in claims {
            if new_wins(t as u64, &[h; 32], &current) {
                current = Some(CurrentClaim { created_at: t, hash: vec![h; 32] });
            }
        }
        current.map(|c| (c.created_at, c.hash[0]))
    };
    for start in [None, Some((4, 1)), Some((5, 3)), Some((9, 9))] {
        for (a, b) in [((5, 1), (5, 2)), ((3, 7), (6, 7)), ((5, 3), (5, 3))] {
            assert_eq!(settle(start, [a, b]), settle(start, [b, a]));
        }
    }
    assert_eq!(settle(Some((4, 1)), [(5, 2), (5, 1)]), Some((5, 1)));
}

// User status.

fn user_claim() -> UserStatus {
    UserStatus {
        subject: [5; 32],
        status: UserStatusKind::Suspended,
        suspended_until: Some(NOW + 60_000),
        signing_instance: "other.example".to_string(),
        reason: Some("spam".to_string()),
        created_at: NOW,
        prior_status_hash: None,
    }
}

fn lives_at(row_home: Option<Option<Vec<u8>>>) -> SubjectFacts {
    SubjectFacts { chain: vec![], row_home }
}

fn user_facts() -> UserStatusFacts {
    UserStatusFacts {
        stored_payload_gone: None,
        subject: lives_at(Some(Some(OTHER.to_vec()))),
        prior_stored: false,
        current: None,
    }
}

fn user_kind(s: UserStatus, ok: bool, domain: &str, facts: UserStatusFacts) -> UserStatusResultKind {
    let parsed: Parsed = Ok(SignedPayload::UserStatus(s));
    judge_user_status(&parsed, &HASH, ok, &OTHER, domain, &LOCAL, &facts)
}

#[test]
fn claims_about_users_take_each_way() {
    let d = "other.example";
    assert_eq!(user_kind(user_claim(), true, d, user_facts()), UserStatusResultKind::Applied);
    assert_eq!(
        user_kind(user_claim(), false, d, user_facts()),
        UserStatusResultKind::Rejected(UserStatusRejectReason::InvalidSignature)
    );
    assert_eq!(
        user_kind(user_claim(), true, "third.example", user_facts()),
        UserStatusResultKind::Rejected(UserStatusRejectReason::UnauthorizedSigner)
    );
    let unknown = UserStatusFacts { subject: lives_at(None), ..user_facts() };
    assert_eq!(
        user_kind(user_claim(), true, d, unknown),
        UserStatusResultKind::Rejected(UserStatusRejectReason::UnknownSubjectHome)
    );
    let elsewhere = UserStatusFacts { subject: lives_at(Some(None)), ..user_facts() };
    assert_eq!(
        user_kind(user_claim(), true, d, elsewhere),
        UserStatusResultKind::Rejected(UserStatusRejectReason::UnauthorizedSigner)
    );
    let mut chained = user_claim();
    chained.prior_status_hash = Some([9; 32]);
    assert_eq!(user_kind(chained, true, d, user_facts()), UserStatusResultKind::Deferred);
    let newer = UserStatusFacts {
        current: Some(CurrentClaim { created_at: NOW as i64 + 1, hash: vec![0; 32] }),
        ..user_facts()
    };
    assert_eq!(user_kind(user_claim(), true, d, newer), UserStatusResultKind::Superseded);
    let stored = UserStatusFacts { stored_payload_gone: Some(false), ..user_facts() };
    assert_eq!(user_kind(user_claim(), true, d, stored), UserStatusResultKind::Duplicate);
    let unknown_class: Parsed = Err(ParseError::UnknownClass);
    assert_eq!(
        judge_user_status(&unknown_class, &HASH, true, &OTHER, d, &LOCAL, &user_facts()),
        UserStatusResultKind::Rejected(UserStatusRejectReason::UnknownClass)
    );
}

#[test]
fn pushed_user_claims_are_verified_under_the_senders_key() {
    let sender = SigningKey::from_bytes(&[8; 32]);
    let key = sender.verifying_key().to_bytes();
    let payload = b"claim".to_vec();
    let wire = encode_signed_object(&payload, &sender.sign(&payload).to_bytes());
    let parsed: Parsed = Ok(SignedPayload::UserStatus(user_claim()));
    let facts =
        UserStatusFacts { subject: lives_at(Some(Some(key.to_vec()))), ..user_facts() };
    let d = "other.example";
    let (r, v) = apply_one_user_status(&wire, &parsed, &key, d, &LOCAL, &facts);
    assert_eq!(r.status, UserStatusResultKind::Applied);
    assert_eq!(r.canonical_hash, sha256(b"claim"));
    assert!(v.persist);
    let row = v.row.unwrap();
    assert_eq!((row.subject, row.status), ([5; 32], "suspended"));
    assert_eq!(row.suspended_until, Some(NOW as i64 + 60_000));
    assert_eq!(row.signing_instance, "other.example");
    assert_eq!(row.reason.as_deref(), Some("spam"));
    assert_eq!((row.created_at, row.hash), (NOW as i64, sha256(b"claim")));
    let newer = UserStatusFacts {
        subject: lives_at(Some(Some(key.to_vec()))),
        current: Some(CurrentClaim { created_at: NOW as i64 + 1, hash: vec![0; 32] }),
        ..user_facts()
    };
    let (r, v) = apply_one_user_status(&wire, &parsed, &key, d, &LOCAL, &newer);
    assert_eq!(r.status, UserStatusResultKind::Superseded);
    assert!(v.persist && v.row.is_none());
    let (r, v) = apply_one_user_status(&wire, &parsed, &OTHER, d, &LOCAL, &facts);
    assert_eq!(r.status, UserStatusResultKind::Rejected(UserStatusRejectReason::InvalidSignature));
    assert!(!v.persist && v.row.is_none());
    let (r, v) = apply_one_user_status(b"w", &parsed, &key, d, &LOCAL, &facts);
    assert_eq!(r.status, UserStatusResultKind::Rejected(UserStatusRejectReason::SchemaInvalid));
    assert!(!v.persist && v.row.is_none());
    assert_eq!(UserStatusKind::Active.as_str(), "active");
    assert_eq!(UserStatusKind::Banned.as_str(), "banned");
}

#[test]
fn a_claim_is_heard_from_the_home_of_its_time() {
    let d = "other.example";
    let moved = |ms: u64| {
        let subject = SubjectFacts {
            chain: vec![MoveRecord {
                created_at: ms as i64,
                canonical_hash: vec![1; 32],
                ends: Some(MoveEnds { from_instance_key: OTHER, to_instance_key: [3; 32] }),
            }],
            row_home: Some(Some(vec![3; 32])),
        };
        UserStatusFacts { subject, ..user_facts() }
    };
    let unauthorized = UserStatusResultKind::Rejected(UserStatusRejectReason::UnauthorizedSigner);
    assert_eq!(user_kind(user_claim(), true, d, moved(NOW + 1)), UserStatusResultKind::Applied);
    assert_eq!(user_kind(user_claim(), true, d, moved(NOW - 1)), unauthorized);
}

#[test]
fn homes_are_resolved_from_moves_and_rows() {
    assert_eq!(registered_home_of(&None, &LOCAL), None);
    assert_eq!(registered_home_of(&Some(None), &LOCAL), Some(LOCAL));
    assert_eq!(registered_home_of(&Some(Some(OTHER.to_vec())), &LOCAL), Some(OTHER));
    assert_eq!(registered_home_of(&Some(Some(vec![1])), &LOCAL), None);
    let record = |t: i64, h: u8, from: [u8; 32], to: [u8; 32]| MoveRecord {
        created_at: t,
        canonical_hash: vec![h; 32],
        ends: Some(MoveEnds { from_instance_key: from, to_instance_key: to }),
    };
    let facts = SubjectFacts {
        chain: vec![record(100, 1, LOCAL, OTHER), record(200, 2, OTHER, [3; 32])],
        row_home: Some(None),
    };
    assert_eq!(resolve_subject_home_at_t(&facts, &LOCAL, 50), Some(LOCAL));
    assert_eq!(resolve_subject_home_at_t(&facts, &LOCAL, 150), Some(OTHER));
    assert_eq!(resolve_subject_home_at_t(&facts, &LOCAL, 250), Some([3; 32]));
    assert_eq!(resolve_home_at_t(&facts.chain, 150, &[9; 32]), OTHER);
    assert_eq!(resolve_home_at_t(&vec![], 150, &[9; 32]), [9; 32]);
    assert_eq!(resolve_current_home(&None, &[9; 32]), [9; 32]);
    assert_eq!(resolve_current_home(&Some(OTHER.to_vec()), &[9; 32]), OTHER);
}

#[test]
fn stored_moves_tell_their_ends_where_the_bytes_are_sound() {
    let payload = b"stored".to_vec();
    let hash = sha256(&payload);
    let parsed: Parsed = Ok(SignedPayload::Move(a_move(OTHER)));
    let ends = stored_move_ends(&hash, &Some(payload), &parsed).unwrap();
    assert_eq!((ends.from_instance_key, ends.to_instance_key), (LOCAL, OTHER));
    assert!(stored_move_ends(&hash, &None, &parsed).is_none());
    assert!(stored_move_ends(&hash, &Some(b"stored".to_vec()), &Err(ParseError::Invalid)).is_none());
}

// Thread status.

fn thread_claim(status: ThreadStatusKind) -> ThreadStatus {
    ThreadStatus {
        thread_id: [4; 16],
        status,
        signing_instance: "other.example".to_string(),
        reason: Some("off topic".to_string()),
        created_at: NOW,
        prior_status_hash: None,
    }
}

fn thread_facts() -> ThreadStatusFacts {
    ThreadStatusFacts {
        stored_payload_gone: None,
        thread_home: Some(Some(OTHER.to_vec())),
        peer_domain: Some("other.example".to_string()),
        prior_stored: false,
        current: None,
    }
}

#[test]
fn claims_about_threads_take_each_way() {
    let judge = |s: ThreadStatus, ok: bool, facts: ThreadStatusFacts| {
        let parsed: Parsed = Ok(SignedPayload::ThreadStatus(s));
        judge_thread_status(&parsed, &HASH, ok, &LOCAL, "here.example", &facts)
    };
    let locked = judge(thread_claim(ThreadStatusKind::Locked), true, thread_facts());
    assert_eq!(locked.status, ThreadStatusResultKind::Applied);
    assert_eq!(locked.set_locked, Some(true));
    assert!(locked.persist && locked.forward);
    let open = judge(thread_claim(ThreadStatusKind::Open), true, thread_facts());
    assert_eq!(open.set_locked, Some(false));
    let unknown = ThreadStatusFacts { thread_home: None, ..thread_facts() };
    let deferred = judge(thread_claim(ThreadStatusKind::Open), true, unknown);
    assert_eq!(deferred.status, ThreadStatusResultKind::Deferred);
    assert_eq!(deferred.set_locked, None);
    assert_eq!(
        judge(thread_claim(ThreadStatusKind::Open), false, thread_facts()).status,
        ThreadStatusResultKind::Rejected(ThreadStatusRejectReason::InvalidSignature)
    );
    let moved = ThreadStatusFacts {
        peer_domain: Some("third.example".to_string()),
        ..thread_facts()
    };
    assert_eq!(
        judge(thread_claim(ThreadStatusKind::Open), true, moved).status,
        ThreadStatusResultKind::Rejected(ThreadStatusRejectReason::UnauthorizedSigner)
    );
    let ours = ThreadStatusFacts { thread_home: Some(None), peer_domain: None, ..thread_facts() };
    assert_eq!(
        judge(thread_claim(ThreadStatusKind::Open), true, ours).status,
        ThreadStatusResultKind::Rejected(ThreadStatusRejectReason::UnauthorizedSigner)
    );
    let stranger = ThreadStatusFacts { peer_domain: None, ..thread_facts() };
    assert_eq!(
        judge(thread_claim(ThreadStatusKind::Open), true, stranger).status,
        ThreadStatusResultKind::Applied
    );
    let mut chained = thread_claim(ThreadStatusKind::Open);
    chained.prior_status_hash = Some([9; 32]);
    assert_eq!(
        judge(chained, true, thread_facts()).status,
        ThreadStatusResultKind::Deferred
    );
    let newer = ThreadStatusFacts {
        current: Some(CurrentClaim { created_at: NOW as i64 + 1, hash: vec![0; 32] }),
        ..thread_facts()
    };
    let late = judge(thread_claim(ThreadStatusKind::Locked), true, newer);
    assert_eq!(late.status, ThreadStatusResultKind::Superseded);
    assert!(late.persist && late.set_locked.is_none());
}

#[test]
fn pushed_thread_claims_are_verified_under_the_key_of_the_home() {
    let home = SigningKey::from_bytes(&[8; 32]);
    let payload = b"thread claim".to_vec();
    let wire = encode_signed_object(&payload, &home.sign(&payload).to_bytes());
    let parsed: Parsed = Ok(SignedPayload::ThreadStatus(thread_claim(ThreadStatusKind::Locked)));
    let facts = ThreadStatusFacts {
        thread_home: Some(Some(home.verifying_key().to_bytes().to_vec())),
        ..thread_facts()
    };
    let done = apply_one_thread_status(&wire, &parsed, &LOCAL, "here.example", &facts);
    assert_eq!(done.result.status, ThreadStatusResultKind::Applied);
    assert_eq!(done.result.canonical_hash, sha256(b"thread claim"));
    assert_eq!(done.verdict.set_locked, Some(true));
    assert_eq!(done.charge, Some(home.verifying_key().to_bytes()));
    let row = done.row.unwrap();
    assert_eq!((row.thread_id, row.status), ([4; 16], "locked"));
    assert_eq!(row.signing_instance, "other.example");
    assert_eq!(row.reason.as_deref(), Some("off topic"));
    assert_eq!((row.created_at, row.hash), (NOW as i64, sha256(b"thread claim")));
    let facts = thread_facts();
    let done = apply_one_thread_status(&wire, &parsed, &LOCAL, "here.example", &facts);
    assert_eq!(
        done.result.status,
        ThreadStatusResultKind::Rejected(ThreadStatusRejectReason::InvalidSignature)
    );
    assert!(done.row.is_none() && done.charge.is_none());
    let done = apply_one_thread_status(b"w", &parsed, &LOCAL, "here.example", &facts);
    assert_eq!(done.result.canonical_hash, sha256(b"w"));
    assert!(!done.verdict.persist && done.row.is_none());
}

#[test]
fn only_own_threads_are_claimed() {
    let thread = |home: Option<Vec<u8>>, current: Option<Vec<u8>>| {
        Some(LocalThread {
            home_instance: home,
            author_key: vec![6; 32],
            current_status_hash: current,
        })
    };
    let reason = Some("off topic".to_string());
    let claim = |thread: &Option<LocalThread>| {
        let locked = ThreadStatusKind::Locked;
        dispatch_local_thread_status_at(thread, &[4; 16], locked, &reason, "here.example", NOW)
    };
    let made = claim(&thread(None, Some(vec![3; 32]))).unwrap();
    assert_eq!(made.claim.thread_id, [4; 16]);
    assert_eq!(made.claim.status, ThreadStatusKind::Locked);
    assert_eq!(made.claim.signing_instance, "here.example");
    assert_eq!(made.claim.reason.as_deref(), Some("off topic"));
    assert_eq!(made.claim.created_at, NOW);
    assert_eq!(made.claim.prior_status_hash, Some([3; 32]));
    assert_eq!(made.routing_key, vec![6; 32]);
    assert_eq!(claim(&thread(None, None)).unwrap().claim.prior_status_hash, None);
    assert_eq!(claim(&thread(None, Some(vec![3]))).unwrap().claim.prior_status_hash, None);
    assert!(claim(&thread(Some(OTHER.to_vec()), None)).is_none());
    assert!(claim(&None).is_none());
    let open = ThreadStatusKind::Open;
    let now = dispatch_local_thread_status(&thread(None, None), &[4; 16], open, &None, "h");
    assert!(now.unwrap().claim.created_at > 0);
    assert!(dispatch_local_thread_status(&None, &[4; 16], open, &None, "h").is_none());

    // What the home claims, an instance that holds the thread takes in.
    let facts = ThreadStatusFacts {
        peer_domain: Some("here.example".to_string()),
        prior_stored: true,
        ..thread_facts()
    };
    let parsed: Parsed = Ok(SignedPayload::ThreadStatus(made.claim));
    let verdict = judge_thread_status(&parsed, &HASH, true, &[7; 32], "third.example", &facts);
    assert_eq!(verdict.status, ThreadStatusResultKind::Applied);
}

// Reports.

#[test]
fn reports_go_from_home_to_home() {
    let parsed: Parsed = Ok(SignedPayload::Report(Report {
        post_id: [1; 16],
        target_author: [2; 32],
        reporter: [3; 32],
        reason: "spam".to_string(),
        detail: None,
        created_at: NOW,
    }));
    let home = |key: Option<[u8; 32]>| HomeFacts {
        recorded: key.map(|k| k.to_vec()),
        row_home: None,
    };
    let facts = |reporter: Option<[u8; 32]>, author: Option<[u8; 32]>, again: bool| ReportFacts {
        reporter: home(reporter),
        author: home(author),
        already_reported: again,
    };
    let kind = |ok: bool, f: ReportFacts| judge_report(&parsed, ok, &OTHER, &LOCAL, &f);
    assert_eq!(kind(true, facts(Some(OTHER), Some(LOCAL), false)), ReportResultKind::Applied);
    assert_eq!(kind(true, facts(Some(OTHER), Some(LOCAL), true)), ReportResultKind::Duplicate);
    assert_eq!(
        kind(false, facts(Some(OTHER), Some(LOCAL), false)),
        ReportResultKind::Rejected(ReportRejectReason::InvalidSignature)
    );
    assert_eq!(
        kind(true, facts(Some(LOCAL), Some(LOCAL), false)),
        ReportResultKind::Rejected(ReportRejectReason::UnauthorizedReporter)
    );
    assert_eq!(
        kind(true, facts(Some(OTHER), None, false)),
        ReportResultKind::Rejected(ReportRejectReason::WrongRecipient)
    );
    assert_eq!(queued_kind(1), ReportResultKind::Applied);
    assert_eq!(queued_kind(0), ReportResultKind::Duplicate);
    let r = reject([9; 32], ReportRejectReason::SchemaInvalid);
    assert_eq!(r.canonical_hash, [9; 32]);
    let homeless = HomeFacts { recorded: None, row_home: None };
    assert_eq!(prismoire::federation::reports::resolve_current_home(&homeless, &LOCAL), None);
    let moved = HomeFacts { recorded: Some(OTHER.to_vec()), row_home: Some(None) };
    assert_eq!(prismoire::federation::reports::resolve_current_home(&moved, &LOCAL), Some(OTHER));
}

#[test]
fn pushed_reports_are_verified_under_the_reporters_key() {
    let reporter = SigningKey::from_bytes(&[3; 32]);
    let payload = b"report".to_vec();
    let wire = encode_signed_object(&payload, &reporter.sign(&payload).to_bytes());
    let parsed: Parsed = Ok(SignedPayload::Report(Report {
        post_id: [1; 16],
        target_author: [2; 32],
        reporter: reporter.verifying_key().to_bytes(),
        reason: "spam".to_string(),
        detail: Some("again".to_string()),
        created_at: NOW,
    }));
    let facts = ReportFacts {
        reporter: HomeFacts { recorded: Some(OTHER.to_vec()), row_home: Some(None) },
        author: HomeFacts { recorded: None, row_home: Some(None) },
        already_reported: false,
    };
    let (r, row) = apply_one_report(&wire, &parsed, &OTHER, &LOCAL, &facts);
    assert_eq!(r.status, ReportResultKind::Applied);
    let row = row.unwrap();
    assert_eq!((row.post_id, row.target_author), ([1; 16], [2; 32]));
    assert_eq!(row.reporter, reporter.verifying_key().to_bytes());
    assert_eq!((row.reason.as_str(), row.detail.as_deref()), ("spam", Some("again")));
    assert_eq!((row.canonical_hash, row.created_at), (sha256(b"report"), NOW as i64));
    let (r, row) = apply_one_report(b"w", &parsed, &OTHER, &LOCAL, &facts);
    assert!(row.is_none());
    assert_eq!(r.status, ReportResultKind::Rejected(ReportRejectReason::SchemaInvalid));
    assert_eq!(r.status.status_tag(), "rejected");
    assert_eq!(r.status.reason_tag(), Some("schema_invalid"));
}

// Remote users.

#[test]
fn remote_names_are_shown_without_tricks() {
    let key = [0xab; 32];
    assert_eq!(sanitize_remote_display_name("  alice ", &key), "  alice ");
    assert_eq!(sanitize_remote_display_name("al\u{202e}ice\u{7}", &key), "alice");
    assert_eq!(sanitize_remote_display_name("\u{200b}\u{feff}", &key), "abababab");
    assert_eq!(sanitize_remote_display_name("", &key), "abababab");
}

#[test]
fn stubs_leave_local_accounts_alone() {
    let stub = |method: Option<&str>| {
        let known = method.map(|m| KnownUser { id: "old".to_string(), signup_method: m.to_string() });
        hydrate_stub_user(&[0xab; 32], " bob ", &OTHER, &known, "new")
    };
    let row = stub(None);
    assert_eq!((row.action, row.id.as_str()), (StubAction::Insert, "new"));
    assert_eq!((row.public_key, row.home_instance), ([0xab; 32], OTHER));
    assert_eq!(row.display_name, " bob ");
    let row = stub(Some("federated"));
    assert_eq!((row.action, row.id.as_str()), (StubAction::Refresh, "old"));
    let row = stub(Some("invite"));
    assert_eq!((row.action, row.id.as_str()), (StubAction::Leave, "old"));
}

fn link(hash: u8, prior: Option<u8>) -> EdgeLink {
    EdgeLink {
        from_key: [1; 32],
        to_key: [2; 32],
        prior_edge_hash: prior.map(|p| [p; 32]),
        canonical_hash: [hash; 32],
    }
}

#[test]
fn edges_are_projected_along_their_chain() {
    let users = vec![[1u8; 32], [2u8; 32]];
    let first = link(10, None);
    assert_eq!(
        try_project_trust_edge(&users, &vec![], &first),
        (TrustEdgeProjection::Projected, true)
    );
    let second = link(11, Some(10));
    assert_eq!(
        try_project_trust_edge(&users, &vec![], &second).0,
        TrustEdgeProjection::Deferred
    );
    assert_eq!(
        try_project_trust_edge(&users, &vec![first], &second),
        (TrustEdgeProjection::Projected, true)
    );
    // Again: it stays, and nothing is written.
    assert_eq!(
        try_project_trust_edge(&users, &vec![first], &first),
        (TrustEdgeProjection::Projected, false)
    );
    assert_eq!(
        try_project_trust_edge(&users, &vec![first], &link(12, None)).0,
        TrustEdgeProjection::ChainFork
    );
    assert_eq!(
        try_project_trust_edge(&vec![[1u8; 32]], &vec![], &first).0,
        TrustEdgeProjection::EndpointMissing
    );
}

#[test]
fn a_sweep_projects_a_chain_in_any_order() {
    let users = vec![[1u8; 32], [2u8; 32]];
    let mut rows: Vec<EdgeLink> = vec![];
    sweep_pending_projections(
        &users,
        &mut rows,
        vec![link(13, Some(12)), link(11, None), link(12, Some(11))],
    );
    let hashes: Vec<u8> = rows.iter().map(|r| r.canonical_hash[0]).collect();
    assert_eq!(hashes, vec![11, 12, 13]);
}

#[test]
fn edges_of_interest_are_found() {
    let edge = |stance: TrustStance| TrustEdge {
        from_key: [1; 32],
        to_key: [2; 32],
        stance,
        created_at: 5,
        prior_edge_hash: None,
    };
    assert!(erases_chain(&edge(TrustStance::Neutral)));
    assert!(!erases_chain(&edge(TrustStance::Trust)));
    let parsed: Parsed = Ok(SignedPayload::TrustEdge(edge(TrustStance::Trust)));
    assert!(pending_candidate(&[9; 32], &parsed, &[1; 32]).is_some());
    assert!(pending_candidate(&[9; 32], &parsed, &[3; 32]).is_none());
    assert!(pending_candidate(&[9; 31], &parsed, &[1; 32]).is_none());
    assert_eq!(edge_stamp_at(1_609_459_200_000, 0), "2021-01-01T00:00:00Z");
    assert_eq!(edge_stamp_at(u64::MAX, 86_400), "1970-01-02T00:00:00Z");
    assert_eq!(edge_stamp(1_609_459_200_999), "2021-01-01T00:00:00Z");
    assert!(edge_stamp(u64::MAX) > "2021".to_string());
}

// Hashes and signatures.

#[test]
fn hashes_and_signatures_are_the_known_ones() {
    // SHA-256 of the empty message.
    assert_eq!(sha256(b"")[..4], [0xe3, 0xb0, 0xc4, 0x42]);
    let seed = [7u8; 32];
    let signer = SigningKey::from_bytes(&seed);
    let key = signer.verifying_key().to_bytes();
    assert_eq!(public_key_of(&seed), key);
    assert!(key_is_valid(&key));
    let signature = signer.sign(b"message").to_bytes();
    assert!(signature_holds(&key, b"message", &signature));
    assert!(!signature_holds(&key, b"another", &signature));
    assert!(!signature_holds(&key, b"message", &signature[..63]));
    let mut no_key = [0u8; 32];
    no_key[0] = 2;
    assert!(!key_is_valid(&no_key));
}
