use prismoire::federation::bloom::{BloomError, BloomFilter};
use prismoire::federation::routing::{
    build_filter, classify_mode, peers_interested_in, FilterRow, ForwardingClass, Mode, RoutingRow,
    HIGH_THRESHOLD_PERCENT, LOW_THRESHOLD_PERCENT, REDUNDANCY_K, REDUNDANCY_K_MOVE,
};

fn one_key_filter(keys: &[&[u8]]) -> BloomFilter {
    let mut f = BloomFilter::new_empty(7, 1024, keys.len() as u64, 10_000).unwrap();
    for k in keys {
        f.insert(k);
    }
    f
}

#[test]
fn classify_promotes_on_high_coverage() {
    let alice = [1u8; 32];
    let bob = [2u8; 32];
    let mut f = BloomFilter::new_empty(7, 1024, 2, 10_000).unwrap();
    f.insert(&alice);
    f.insert(&bob);
    assert_eq!(classify_mode(Mode::Filtered, &f, &[alice, bob]), Mode::All);
}

#[test]
fn classify_holds_at_filtered_in_hysteresis_band() {
    let mut keys = Vec::new();
    for i in 0..10u8 {
        keys.push([i; 32]);
    }
    let mut f = BloomFilter::new_empty(7, 1024, 5, 10_000).unwrap();
    for k in &keys[..5] {
        f.insert(k);
    }
    assert_eq!(
        classify_mode(Mode::Filtered, &f, &keys),
        Mode::Filtered,
        "below HIGH_THRESHOLD must stay in Filtered"
    );
}

#[test]
fn classify_demotes_below_low_threshold() {
    let empty = BloomFilter::new_empty(7, 1024, 0, 10_000).unwrap();
    let alice = [1u8; 32];
    assert_eq!(classify_mode(Mode::All, &empty, &[alice]), Mode::Filtered);
}

#[test]
fn classify_empty_local_users_preserves_current_mode() {
    let f = BloomFilter::new_empty(7, 1024, 0, 10_000).unwrap();
    assert_eq!(
        classify_mode(Mode::Filtered, &f, &[]),
        Mode::Filtered,
        "empty local-user set on a Filtered pair must NOT promote to All"
    );
    assert_eq!(
        classify_mode(Mode::All, &f, &[]),
        Mode::All,
        "empty local-user set on an All pair must NOT demote"
    );
}

#[test]
fn classify_all_mode_holds_in_hysteresis_band() {
    let mut keys = Vec::new();
    for i in 0..10u8 {
        keys.push([i; 32]);
    }
    let mut f = BloomFilter::new_empty(7, 1024, 7, 10_000).unwrap();
    for k in &keys[..7] {
        f.insert(k);
    }
    assert_eq!(classify_mode(Mode::All, &f, &keys), Mode::All);
}

#[test]
fn forwarding_class_dispatch() {
    let cf = one_key_filter(&[b"alice"]);
    let ef = one_key_filter(&[b"bob"]);
    assert!(ForwardingClass::Authored.select_filter(&cf, &ef).contains(b"alice"));
    assert!(!ForwardingClass::TrustEdge.select_filter(&cf, &ef).contains(b"alice"));
    assert!(ForwardingClass::TrustEdge.select_filter(&cf, &ef).contains(b"bob"));
}

#[test]
fn redundancy_k_is_two() {
    assert_eq!(REDUNDANCY_K, 2);
}

#[test]
fn build_filter_round_trip() {
    let f = build_filter(&FilterRow {
        k: Some(7),
        m: Some(1024),
        n_est: Some(0),
        fpr_ppm: Some(10_000),
        bytes: Some(vec![0u8; 128]),
    });
    assert!(f.is_some());
}

#[test]
fn build_filter_null_returns_none() {
    assert!(build_filter(&no_filter()).is_none());
}

fn no_filter() -> FilterRow {
    FilterRow { k: None, m: None, n_est: None, fpr_ppm: None, bytes: None }
}

#[test]
fn build_filter_refuses_what_makes_no_filter() {
    let row = |k: i64, m: i64, len: usize| FilterRow {
        k: Some(k),
        m: Some(m),
        n_est: Some(1),
        fpr_ppm: Some(10_000),
        bytes: Some(vec![0u8; len]),
    };
    assert!(build_filter(&row(7, 1024, 128)).is_some());
    assert!(build_filter(&row(-1, 1024, 128)).is_none());
    assert!(build_filter(&row(7, -5, 128)).is_none());
    assert!(build_filter(&row(7, 1024, 127)).is_none());
    assert!(build_filter(&row(0, 1024, 128)).is_none());
    assert!(build_filter(&row(1 << 40, 1024, 128)).is_none());
}

fn filled(keys: &[&[u8]]) -> FilterRow {
    // Every bit set: such a filter holds every key.
    let byte = if keys.is_empty() { 0u8 } else { 0xff };
    FilterRow {
        k: Some(7),
        m: Some(1024),
        n_est: Some(1),
        fpr_ppm: Some(10_000),
        bytes: Some(vec![byte; 128]),
    }
}

fn row(key: u8, content: FilterRow, edge_origin: FilterRow, mode: Option<&str>) -> RoutingRow {
    RoutingRow {
        instance_pubkey: vec![key; 32],
        content,
        edge_origin,
        outbound_mode: mode.map(|m| m.to_string()),
    }
}

#[test]
fn peers_get_what_they_announced() {
    let rows = vec![
        row(1, filled(&[b"k"]), filled(&[]), Some("filtered")),
        row(2, filled(&[]), filled(&[b"k"]), Some("filtered")),
        row(3, filled(&[]), filled(&[]), Some("all")),
        row(4, no_filter(), no_filter(), None),
    ];
    let keys = |class: ForwardingClass| -> Vec<u8> {
        peers_interested_in(&rows, class, b"k").iter().map(|p| p.instance_pubkey[0]).collect()
    };
    assert_eq!(keys(ForwardingClass::Authored), vec![1, 3]);
    assert_eq!(keys(ForwardingClass::TrustEdge), vec![2, 3]);
    assert_eq!(keys(ForwardingClass::Move), vec![1, 2, 3, 4]);
}

#[test]
fn a_peer_is_told_how_it_is_served() {
    let rows = vec![row(1, filled(&[b"k"]), filled(&[]), Some("all"))];
    let peers = peers_interested_in(&rows, ForwardingClass::Authored, b"k");
    assert_eq!(peers[0].mode, Mode::All);
    let rows = vec![row(1, filled(&[b"k"]), filled(&[]), None)];
    let peers = peers_interested_in(&rows, ForwardingClass::Authored, b"k");
    assert_eq!(peers[0].mode, Mode::Filtered);
}

#[test]
fn mode_words_read_back() {
    assert_eq!(Mode::Filtered.as_db_str(), "filtered");
    assert_eq!(Mode::All.as_db_str(), "all");
    for m in [Mode::Filtered, Mode::All] {
        assert_eq!(Mode::from_db_str(m.as_db_str()), m);
    }
    assert_eq!(Mode::from_db_str("anything"), Mode::Filtered);
}

#[test]
fn classes_have_their_redundancy() {
    assert_eq!(ForwardingClass::Authored.redundancy_cap(), REDUNDANCY_K);
    assert_eq!(ForwardingClass::TrustEdge.redundancy_cap(), REDUNDANCY_K);
    assert_eq!(ForwardingClass::Move.redundancy_cap(), REDUNDANCY_K_MOVE);
    assert!(ForwardingClass::Move.bypasses_filters());
    assert!(!ForwardingClass::Authored.bypasses_filters());
    assert_eq!((LOW_THRESHOLD_PERCENT, HIGH_THRESHOLD_PERCENT), (60, 80));
}

#[test]
fn a_filter_has_no_false_negatives() {
    let mut f = BloomFilter::new_empty(7, 4096, 50, 10_000).unwrap();
    let keys: Vec<[u8; 32]> = (0..50u8).map(|i| [i; 32]).collect();
    assert_eq!(f.coverage(&keys), 0);
    for k in &keys {
        f.insert(k);
    }
    assert_eq!(f.coverage(&keys), 50);
    assert_eq!(f.n_est(), 50);
    assert_eq!(f.fpr_ppm(), 10_000);
    assert!(!f.contains(b"another"));
}

#[test]
fn filters_refuse_what_makes_none() {
    assert_eq!(BloomFilter::new_empty(0, 8, 0, 1).unwrap_err(), BloomError::HashCount);
    assert_eq!(BloomFilter::new_empty(65, 8, 0, 1).unwrap_err(), BloomError::HashCount);
    assert_eq!(BloomFilter::new_empty(7, 0, 0, 1).unwrap_err(), BloomError::BitCount);
    assert_eq!(
        BloomFilter::from_parts(7, 8, 0, 1_000_001, vec![0]).unwrap_err(),
        BloomError::Rate
    );
    assert_eq!(
        BloomFilter::from_parts(7, 16, 0, 1, vec![0]).unwrap_err(),
        BloomError::Length
    );
}
