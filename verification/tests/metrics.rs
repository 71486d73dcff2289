use prismoire::metrics::{
    classify, HourlyCounter, Metrics, RingHistogram, StatusClass, HISTOGRAM_CAPACITY, MS_PER_HOUR,
};

const T0: u64 = 1_700_000_000_000;

/// Durations are kept by a number that orders them.
fn bits(v: f64) -> u64 {
    v.to_bits()
}

fn floats(v: Option<u64>) -> Option<f64> {
    v.map(f64::from_bits)
}

#[test]
fn ring_histogram_quantiles_on_small_sample() {
    let mut h = RingHistogram::new(10);
    for v in [10.0, 20.0, 30.0, 40.0, 50.0, 60.0, 70.0, 80.0, 90.0, 100.0] {
        h.push(0, bits(v));
    }
    assert_eq!(floats(h.quantile(50)), Some(60.0));
    assert_eq!(floats(h.quantile(95)), Some(100.0));
    assert_eq!(floats(h.quantile(0)), Some(10.0));
    assert_eq!(floats(h.quantile(100)), Some(100.0));
}

#[test]
fn ring_histogram_drops_oldest_when_full() {
    let mut h = RingHistogram::new(3);
    h.push(0, bits(1.0));
    h.push(0, bits(2.0));
    h.push(0, bits(3.0));
    h.push(0, bits(4.0));
    assert_eq!(h.len(), 3);
    // 1.0 was dropped, so min is 2.0
    assert_eq!(floats(h.quantile(0)), Some(2.0));
    assert_eq!(floats(h.quantile(100)), Some(4.0));
}

#[test]
fn ring_histogram_quantile_since_filters_old_samples() {
    let mut h = RingHistogram::new(100);
    h.push(100, bits(1.0));
    h.push(200, bits(2.0));
    h.push(300, bits(3.0));
    assert_eq!(floats(h.quantile_since(50, 200)), Some(3.0));
    assert_eq!(h.quantile_since(50, 400), None);
    assert_eq!(h.quantile_since(50, 0), h.quantile(50));
}

#[test]
fn empty_histogram_returns_none() {
    let h = RingHistogram::new(10);
    assert_eq!(h.quantile(50), None);
}

#[test]
fn quantiles_of_unsorted_samples_and_odd_percentages() {
    let mut h = RingHistogram::new(10);
    for v in [5u64, 1, 4, 2, 3] {
        h.push(0, v);
    }
    assert_eq!(h.quantile(50), Some(3));
    assert_eq!(h.quantile(12), Some(1));
    assert_eq!(h.quantile(13), Some(2));
    // More than all of it is all of it.
    assert_eq!(h.quantile(200), Some(5));
}

/// The nearest rank is where the product of floating-point numbers rounds to.
#[test]
fn ranks_agree_with_floating_point() {
    for n in 1..=HISTOGRAM_CAPACITY {
        let mut h = RingHistogram::new(HISTOGRAM_CAPACITY);
        if n % 37 != 0 && n > 130 {
            continue;
        }
        for v in 0..n {
            h.push(0, v as u64);
        }
        for (percent, q) in [(50u8, 0.50f64), (95, 0.95), (99, 0.99)] {
            let idx = ((n as f64 - 1.0) * q).round() as u64;
            assert_eq!(h.quantile(percent), Some(idx), "n={n} q={q}");
        }
    }
}

#[test]
fn metrics_hit_rate_none_when_no_lookups() {
    let m = Metrics::new();
    assert_eq!(m.snapshot().bfs_hit_rate, None);
    assert_eq!(Metrics::default().snapshot().bfs_total_lookups, 0);
}

#[test]
fn metrics_hit_rate_combines_forward_and_reverse() {
    let mut m = Metrics::new();
    m.record_bfs_forward_hit();
    m.record_bfs_forward_hit();
    m.record_bfs_forward_miss();
    m.record_bfs_reverse_hit();
    m.record_bfs_reverse_miss();
    // 3 hits / 5 total
    let snap = m.snapshot();
    let rate = snap.bfs_hit_rate.map(|(hits, total)| hits as f64 / total as f64);
    assert_eq!(rate, Some(0.6));
    assert_eq!(snap.bfs_total_lookups, 5);
}

#[test]
fn record_request_counts_both_window_and_cumulative() {
    let mut m = Metrics::new();
    m.record_request_at("GET", "/a", 200, bits(5.0), T0);
    m.record_request_at("GET", "/a", 500, bits(25.0), T0);
    m.record_request_at("POST", "/b", 404, bits(10.0), T0);

    let snap = m.route_snapshot_at(T0);
    assert_eq!(snap.len(), 2);
    assert_eq!(snap[0].path, "/a");
    assert_eq!(snap[0].total_24h, 2);
    assert_eq!(snap[0].success_24h, 1);
    assert_eq!(snap[0].server_error_24h, 1);
    assert_eq!(snap[0].total_all, 2);
    assert_eq!(snap[1].path, "/b");
    assert_eq!(snap[1].client_error_24h, 1);
    assert_eq!(snap[1].client_error_all, 1);
}

#[test]
fn window_drops_samples_older_than_24h() {
    let mut m = Metrics::new();
    m.record_request_at("GET", "/a", 200, bits(5.0), T0);
    let later = T0 + 25 * MS_PER_HOUR;
    m.record_request_at("GET", "/a", 200, bits(7.0), later);

    let snap = m.route_snapshot_at(later);
    assert_eq!(snap.len(), 1);
    assert_eq!(snap[0].total_24h, 1);
    assert_eq!(snap[0].total_all, 2);
    assert_eq!(floats(snap[0].latency_ms_p50_24h), Some(7.0));
}

#[test]
fn window_retains_samples_within_24h_even_across_hour_rollover() {
    let mut m = Metrics::new();
    m.record_request_at("GET", "/a", 200, bits(5.0), T0);
    let later = T0 + 23 * MS_PER_HOUR;
    m.record_request_at("GET", "/a", 200, bits(7.0), later);

    let snap = m.route_snapshot_at(later);
    assert_eq!(snap[0].total_24h, 2);
}

#[test]
fn same_slot_reused_after_24h_does_not_leak_old_counts() {
    let mut m = Metrics::new();
    m.record_request_at("GET", "/a", 200, bits(5.0), T0);
    let later = T0 + 24 * MS_PER_HOUR;
    m.record_request_at("GET", "/a", 500, bits(7.0), later);

    let snap = m.route_snapshot_at(later);
    assert_eq!(snap[0].total_24h, 1);
    assert_eq!(snap[0].success_24h, 0);
    assert_eq!(snap[0].server_error_24h, 1);
    assert_eq!(snap[0].total_all, 2);
}

#[test]
fn failed_auth_counter_windows_24h() {
    let mut c = HourlyCounter::new();
    c.record_at(T0);
    c.record_at(T0);
    c.record_at(T0);
    let later = T0 + 23 * MS_PER_HOUR;
    c.record_at(later);
    assert_eq!(c.count_24h_at(later), 4);

    let much_later = T0 + 25 * MS_PER_HOUR;
    assert_eq!(c.count_24h_at(much_later), 1);
}

#[test]
fn reset_bfs_counters_clears_only_counters() {
    let mut m = Metrics::new();
    m.record_bfs_forward_hit();
    m.record_graph_load_ms(bits(42.0));
    m.reset_bfs_counters();
    let snap = m.snapshot();
    assert_eq!(snap.bfs_hit_rate, None);
    // Graph load histogram was not cleared
    assert_eq!(floats(snap.graph_load_ms_p50), Some(42.0));
}

#[test]
fn the_busiest_route_comes_first_and_others_are_untouched() {
    let mut m = Metrics::new();
    m.record_request_at("GET", "/quiet", 200, 1, T0);
    for _ in 0..3 {
        m.record_request_at("GET", "/busy", 200, 1, T0);
    }
    // Same path, another method: another route.
    m.record_request_at("POST", "/quiet", 200, 1, T0);
    m.record_request_at("POST", "/quiet", 200, 1, T0);
    let snap = m.route_snapshot_at(T0);
    let order: Vec<(String, String, u64)> =
        snap.into_iter().map(|s| (s.method, s.path, s.total_24h)).collect();
    assert_eq!(
        order,
        vec![
            ("GET".to_string(), "/busy".to_string(), 3),
            ("POST".to_string(), "/quiet".to_string(), 2),
            ("GET".to_string(), "/quiet".to_string(), 1),
        ]
    );
}

#[test]
fn a_window_over_many_days_counts_the_last_one() {
    let mut c = HourlyCounter::new();
    for day in 0..5u64 {
        for hour in 0..24u64 {
            c.record_at(T0 + (day * 24 + hour) * MS_PER_HOUR);
        }
    }
    assert_eq!(c.count_24h_at(T0 + (4 * 24 + 23) * MS_PER_HOUR), 24);
    assert_eq!(c.count_24h_at(T0 + (5 * 24 + 11) * MS_PER_HOUR), 12);
    assert_eq!(c.count_24h_at(T0 + 10 * 24 * MS_PER_HOUR), 0);
}

#[test]
fn a_fresh_record_is_empty() {
    let m = Metrics::default();
    assert_eq!(m.failed_auth_count_24h_at(T0), 0);
    assert!(m.route_snapshot_at(T0).is_empty());
    let snap = m.snapshot();
    assert_eq!((snap.bfs_hit_rate, snap.bfs_total_lookups), (None, 0));
    assert_eq!((snap.graph_load_ms_p50, snap.last_rebuild_at), (None, None));
}

#[test]
fn a_route_shows_its_last_day_and_all_its_requests() {
    let mut m = Metrics::new();
    for day in 0..3u64 {
        for hour in 0..24u64 {
            let now = T0 + (day * 24 + hour) * MS_PER_HOUR;
            let status = if hour % 2 == 0 { 200 } else { 404 };
            m.record_request_at("GET", "/a", status, 1, now);
        }
    }
    let snap = m.route_snapshot_at(T0 + (3 * 24 + 5) * MS_PER_HOUR);
    assert_eq!((snap[0].total_24h, snap[0].total_all), (18, 72));
    assert_eq!((snap[0].success_24h, snap[0].success_all), (9, 36));
    assert_eq!((snap[0].client_error_24h, snap[0].client_error_all), (9, 36));
    assert_eq!((snap[0].server_error_24h, snap[0].server_error_all), (0, 0));
}

#[test]
fn failed_logins_and_rebuilds_are_recorded_now() {
    let mut m = Metrics::new();
    m.record_failed_auth();
    m.record_failed_auth();
    assert_eq!(m.failed_auth_count_24h(), 2);
    let mut past = Metrics::new();
    past.record_failed_auth_at(T0);
    assert_eq!(past.failed_auth_count_24h_at(T0), 1);
    assert_eq!(m.snapshot().last_rebuild_at, None);
    m.set_last_rebuild((1_700_000_000, 5));
    assert_eq!(m.snapshot().last_rebuild_at, Some((1_700_000_000, 5)));
    m.record_request("GET", "/a", 204, 3);
    assert_eq!(m.route_snapshot()[0].success_24h, 1);
}

#[test]
fn statuses_fall_into_classes() {
    assert_eq!(classify(200), StatusClass::Success);
    assert_eq!(classify(399), StatusClass::Success);
    assert_eq!(classify(400), StatusClass::ClientError);
    assert_eq!(classify(499), StatusClass::ClientError);
    assert_eq!(classify(500), StatusClass::ServerError);
    assert_eq!(classify(101), StatusClass::ServerError);
}

#[test]
fn the_classes_add_up_to_the_total() {
    let mut m = Metrics::new();
    let later = T0 + 30 * MS_PER_HOUR;
    for (path, status, at) in [
        ("/a", 200, T0),
        ("/a", 404, T0),
        ("/a", 301, later),
        ("/a", 500, later),
        ("/a", 418, later),
        ("/a", 101, later),
        ("/b", 200, T0),
    ] {
        m.record_request_at("GET", path, status, 1, at);
    }
    let shown = m.route_snapshot_at(later);
    assert_eq!(shown.len(), 2);
    let a = &shown[0];
    assert_eq!(a.path, "/a");
    assert_eq!((a.total_24h, a.total_all), (4, 6));
    assert_eq!((a.success_24h, a.client_error_24h, a.server_error_24h), (1, 1, 2));
    assert_eq!((a.success_all, a.client_error_all, a.server_error_all), (2, 2, 2));
    let b = &shown[1];
    assert_eq!((b.path.as_str(), b.total_24h, b.total_all), ("/b", 0, 1));
}
