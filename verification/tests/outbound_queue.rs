use prismoire::federation::outbound_queue::{
    after_dispatch, dispatch_outcome, drain_step, jitter_full, next_wait, DispatchOutcome,
    DrainStep, OutboundQueueConfig, OutboundQueues, MAX_CONTENT_BATCH_OUTBOUND,
};

const PATH: &str = "/federation/v1/content";

fn fast() -> OutboundQueueConfig {
    OutboundQueueConfig {
        total_bytes: 64 * 1024,
        bytes_per_peer: 16 * 1024,
        objects_per_peer: 100,
        object_max_age_ms: 60_000,
        max_batch: MAX_CONTENT_BATCH_OUTBOUND,
    }
}

/// Sends what a peer's queue holds, batch by batch, where the peer answers
/// with each status in turn: how many requests went out.
fn drain(q: &mut OutboundQueues, peer: [u8; 32], statuses: &[u16], mut now_ms: u64) -> usize {
    let mut calls = 0;
    loop {
        let batch = q.take_batch(peer, now_ms);
        if batch.is_empty() {
            q.mark_in_flight_false(&peer);
            return calls;
        }
        let status = statuses.get(calls).copied();
        calls += 1;
        match drain_step(dispatch_outcome(status)) {
            DrainStep::NextBatch => q.mark_in_flight_false(&peer),
            DrainStep::BackOff => {
                q.requeue_front(peer, batch);
                q.mark_in_flight_false(&peer);
                now_ms += 80;
            }
        }
    }
}

#[test]
fn enqueue_within_caps_increases_depth() {
    let mut q = OutboundQueues::new(fast());
    let peer = [0x11u8; 32];
    assert!(q.enqueue(peer, PATH, "objects", vec![0xAA; 16], 0).spawn_worker);
    assert!(!q.enqueue(peer, PATH, "objects", vec![0xBB; 16], 0).spawn_worker);
    q.enqueue(peer, PATH, "objects", vec![0xCC; 16], 0);
    assert_eq!(q.depth_for(&peer), (3, 48));
    assert!(!q.is_idle_now());
    assert!(drain(&mut q, peer, &[200, 200, 200], 0) >= 1);
    assert!(q.is_idle_now());
    assert_eq!(q.depth_for(&peer), (0, 0));
    assert_eq!(q.total_bytes(), 0);
}

#[test]
fn per_peer_byte_cap_drops_oldest() {
    let mut q = OutboundQueues::new(OutboundQueueConfig { bytes_per_peer: 100, ..fast() });
    let peer = [0x22u8; 32];
    for i in 0..5u8 {
        q.enqueue(peer, PATH, "objects", vec![i; 40], 0);
    }
    let (n, b) = q.depth_for(&peer);
    assert!(n <= 5, "depth must be bounded under cap (n={n})");
    assert!(b <= 100, "per-peer bytes must be <= cap: got {b}");
    // The two newest are left.
    let batch = q.take_batch(peer, 0);
    let firsts: Vec<u8> = batch.iter().map(|o| o.wire_bytes[0]).collect();
    assert_eq!(firsts, vec![3, 4]);
}

#[test]
fn per_peer_object_cap_drops_oldest() {
    let mut q = OutboundQueues::new(OutboundQueueConfig { objects_per_peer: 3, ..fast() });
    let peer = [0x33u8; 32];
    for i in 0..5u8 {
        q.enqueue(peer, PATH, "objects", vec![i; 8], 0);
    }
    let (n, _) = q.depth_for(&peer);
    assert!(n <= 3, "object cap must hold: got {n}");
    assert_eq!(q.take_batch(peer, 0)[0].wire_bytes[0], 2);
}

#[test]
fn global_byte_cap_evicts_from_largest_peer() {
    let mut q = OutboundQueues::new(OutboundQueueConfig {
        total_bytes: 1024,
        bytes_per_peer: 900,
        objects_per_peer: 100,
        ..fast()
    });
    let a = [0xAAu8; 32];
    let b = [0xBBu8; 32];
    q.enqueue(a, PATH, "objects", vec![0; 800], 0);
    q.enqueue(b, PATH, "objects", vec![0; 400], 0);
    let (a_n, a_b) = q.depth_for(&a);
    let (b_n, _) = q.depth_for(&b);
    assert!(q.total_bytes() <= 1024);
    assert!(b_n >= 1, "peer B should retain its newest object");
    assert!(a_b < 800 || a_n == 0, "peer A's queue should have shrunk under global pressure");
}

#[test]
fn stale_items_dropped_on_drain() {
    let mut q = OutboundQueues::new(OutboundQueueConfig { object_max_age_ms: 30, ..fast() });
    let peer = [0x44u8; 32];
    q.enqueue(peer, PATH, "objects", vec![0; 16], 0);
    q.enqueue(peer, PATH, "objects", vec![0; 16], 0);
    let calls = drain(&mut q, peer, &[503; 11], 0);
    assert_eq!(q.depth_for(&peer), (0, 0));
    assert!(calls <= 3, "stale items must short-circuit retries: got {calls} calls");
}

#[test]
fn backoff_grows_until_success() {
    let mut q = OutboundQueues::new(fast());
    let peer = [0x55u8; 32];
    q.enqueue(peer, PATH, "objects", vec![0xEE; 8], 0);
    let calls = drain(&mut q, peer, &[503, 503, 503, 200], 0);
    assert!(calls >= 4, "should retry at least 3 times before succeeding: got {calls}");
    assert_eq!(q.depth_for(&peer), (0, 0));
    assert_eq!(next_wait(4, 20), 4);
    assert_eq!(next_wait(40, 20), 20);
}

#[test]
fn a_failure_lengthens_the_wait_and_a_settled_batch_ends_it() {
    let ms = 1_000_000;
    let step = |status: Option<u16>, current: u128, drawn: u128| {
        let outcome = dispatch_outcome(status);
        after_dispatch(outcome, current, drawn, 2 * current, 100 * ms, 500 * ms)
    };
    let failed = step(Some(503), 200 * ms, 150 * ms);
    assert_eq!(failed.step, DrainStep::BackOff);
    assert_eq!((failed.pause, failed.current), (Some(150 * ms), 400 * ms));
    let again = step(None, 400 * ms, 0);
    assert_eq!((again.pause, again.current), (Some(40 * ms), 500 * ms));
    for status in [200, 404] {
        let settled = step(Some(status), 400 * ms, 0);
        assert_eq!(settled.step, DrainStep::NextBatch);
        assert_eq!((settled.pause, settled.current), (None, 100 * ms));
    }
}

#[test]
fn four_xx_is_terminal() {
    let mut q = OutboundQueues::new(fast());
    let peer = [0x66u8; 32];
    q.enqueue(peer, PATH, "objects", vec![0xFF; 8], 0);
    let calls = drain(&mut q, peer, &[400], 0);
    assert_eq!(q.depth_for(&peer), (0, 0));
    assert_eq!(calls, 1, "4xx should drop the batch after exactly one attempt");
}

#[test]
fn objects_larger_than_the_caps_are_refused() {
    let mut q = OutboundQueues::new(OutboundQueueConfig { bytes_per_peer: 10, ..fast() });
    let outcome = q.enqueue([1; 32], PATH, "objects", vec![0; 11], 0);
    assert!(!outcome.accepted);
    assert_eq!(q.total_bytes(), 0);
}

#[test]
fn batches_end_where_the_route_changes() {
    let mut q = OutboundQueues::new(OutboundQueueConfig { max_batch: 2, ..fast() });
    let peer = [2u8; 32];
    q.enqueue(peer, PATH, "objects", vec![1], 0);
    q.enqueue(peer, "/federation/v1/edges", "edges", vec![2], 0);
    for i in 3..6u8 {
        q.enqueue(peer, "/federation/v1/edges", "edges", vec![i], 0);
    }
    assert_eq!(q.take_batch(peer, 0).len(), 1);
    let second = q.take_batch(peer, 0);
    assert_eq!(second.len(), 2);
    assert_eq!(second[0].body_key, "edges");
    // Put back, it comes first again.
    q.requeue_front(peer, second);
    assert_eq!(q.take_batch(peer, 0)[0].wire_bytes, vec![2]);
}

#[test]
fn the_bytes_about_to_join_count_for_their_peer() {
    let mut q = OutboundQueues::new(OutboundQueueConfig {
        total_bytes: 1000,
        bytes_per_peer: 900,
        ..fast()
    });
    let (a, b) = ([1u8; 32], [2u8; 32]);
    q.enqueue(a, PATH, "objects", vec![0; 500], 0);
    q.enqueue(b, PATH, "objects", vec![0; 400], 0);
    // With what joins it, the second queue is the larger one and gives way.
    q.enqueue(b, PATH, "objects", vec![0; 300], 0);
    assert_eq!(q.depth_for(&a), (1, 500));
    assert_eq!(q.depth_for(&b), (1, 300));
    assert_eq!(q.total_bytes(), 800);
    // Whatever is within the caps finds room.
    q.enqueue([3u8; 32], PATH, "objects", vec![0; 900], 0);
    assert_eq!(q.depth_for(&[3u8; 32]), (1, 900));
    assert!(q.total_bytes() <= 1000);
}

#[test]
fn a_dropped_peer_is_forgotten_by_its_worker() {
    let mut q = OutboundQueues::new(fast());
    let peer = [3u8; 32];
    q.enqueue(peer, PATH, "objects", vec![1, 2, 3], 0);
    assert!(!q.check_and_remove_if_stopped(&peer));
    assert!(q.drop_peer(&peer));
    assert!(q.check_and_remove_if_stopped(&peer));
    assert_eq!(q.total_bytes(), 0);
    assert!(q.check_and_remove_if_stopped(&peer));
    assert!(!q.drop_peer(&peer));
}

#[test]
fn replies_sort_into_outcomes() {
    assert_eq!(dispatch_outcome(Some(200)), DispatchOutcome::Success);
    assert_eq!(dispatch_outcome(Some(204)), DispatchOutcome::Success);
    assert_eq!(dispatch_outcome(Some(404)), DispatchOutcome::Terminal4xx(404));
    for status in [Some(429), Some(500), Some(503), Some(302), Some(100), None] {
        assert_eq!(dispatch_outcome(status), DispatchOutcome::Transient, "{status:?}");
    }
}

#[test]
fn waits_have_a_floor() {
    let ms = 1_000_000u128;
    assert_eq!(jitter_full(1_000 * ms, 700 * ms), 700 * ms);
    assert_eq!(jitter_full(1_000 * ms, 1), 100 * ms);
    assert_eq!(jitter_full(5 * ms, 0), ms);
}
