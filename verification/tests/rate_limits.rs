use prismoire::federation::prior_home_challenge_rate_limit::{
    prior_home_challenge_too_many_requests, CallerAddr, PriorHomeChallengeRateLimiter,
    PRIOR_HOME_CHALLENGE_RPM_PER_IP, PRIOR_HOME_CHALLENGE_RPM_PER_KEY,
};
use prismoire::federation::prior_home_rate_limit::{
    prior_home_too_many_requests, PriorHomeRateLimiter, PRIOR_HOME_PROBES_PER_DAY_PER_KEY,
};
use prismoire::federation::push_rate_limit::{
    push_too_many_requests, PushRateLimiter, REPORTS_RPM_PER_PEER, THREAD_STATUS_RPM_PER_PEER,
    USER_STATUS_RPM_PER_PEER,
};
use prismoire::federation::window::WindowTable;

fn key(b: u8) -> [u8; 32] {
    [b; 32]
}

fn peer(b: u8) -> [u8; 32] {
    [b; 32]
}

fn ip(b: u8) -> CallerAddr {
    CallerAddr::V4([127, 0, 0, b])
}

// Per-subject-key daily budget.

#[test]
fn admits_within_daily_budget() {
    let mut l = PriorHomeRateLimiter::new(3);
    assert!(l.try_admit_at(key(1), 1000));
    assert!(l.try_admit_at(key(1), 1000));
    assert!(l.try_admit_at(key(1), 1000));
    // 4th call inside the same window exceeds the cap.
    assert!(!l.try_admit_at(key(1), 1000));
}

#[test]
fn prior_home_rate_limit_separate_keys_have_separate_budgets() {
    let mut l = PriorHomeRateLimiter::new(1);
    assert!(l.try_admit_at(key(1), 1000));
    assert!(!l.try_admit_at(key(1), 1000));
    assert!(l.try_admit_at(key(2), 1000));
}

#[test]
fn window_rolls_after_a_day() {
    let mut l = PriorHomeRateLimiter::new(2);
    assert!(l.try_admit_at(key(1), 1000));
    assert!(l.try_admit_at(key(1), 1000));
    assert!(!l.try_admit_at(key(1), 1030));
    // 24h later, fresh window, count zeroed.
    assert!(l.try_admit_at(key(1), 1000 + 86_400));
}

#[test]
fn prior_home_rate_limit_rejected_admit_does_not_burn_budget() {
    let mut l = PriorHomeRateLimiter::new(2);
    assert!(l.try_admit_at(key(1), 1000));
    assert!(l.try_admit_at(key(1), 1000));
    assert!(!l.try_admit_at(key(1), 1000));
    assert!(!l.try_admit_at(key(1), 1000));
    assert_eq!(l.window_of(&key(1)).unwrap().count, 2);
}

#[test]
fn prior_home_rate_limit_cleanup_drops_expired_entries() {
    let mut l = PriorHomeRateLimiter::new(20);
    l.try_admit_at(key(1), 1000);
    l.try_admit_at(key(2), 1000 + 86_500);
    l.cleanup_stale_at(1000 + 86_500);
    assert!(l.window_of(&key(1)).is_none());
    assert!(l.window_of(&key(2)).is_some());
}

#[test]
fn too_many_requests_response_carries_retry_after_day() {
    let r = prior_home_too_many_requests();
    assert_eq!(r.status, 429);
    assert_eq!(r.retry_after, "86400");
}

#[test]
fn daily_limiter_defaults_to_two_hundred() {
    assert_eq!(PRIOR_HOME_PROBES_PER_DAY_PER_KEY, 200);
    let mut l = PriorHomeRateLimiter::default();
    for _ in 0..200 {
        assert!(l.try_admit_at(key(1), 5));
    }
    assert!(!l.try_admit_at(key(1), 5));
}

// Per-address and per-key budgets of challenges.

#[test]
fn ip_admits_within_per_minute_budget() {
    let mut l = PriorHomeChallengeRateLimiter::new(3, 10);
    assert!(l.try_admit_ip_at(ip(1), 1000));
    assert!(l.try_admit_ip_at(ip(1), 1000));
    assert!(l.try_admit_ip_at(ip(1), 1000));
    assert!(!l.try_admit_ip_at(ip(1), 1000));
}

#[test]
fn key_admits_within_per_minute_budget() {
    let mut l = PriorHomeChallengeRateLimiter::new(60, 2);
    assert!(l.try_admit_key_at(key(1), 1000));
    assert!(l.try_admit_key_at(key(1), 1000));
    assert!(!l.try_admit_key_at(key(1), 1000));
}

#[test]
fn separate_ips_have_separate_budgets() {
    let mut l = PriorHomeChallengeRateLimiter::new(1, 10);
    assert!(l.try_admit_ip_at(ip(1), 1000));
    assert!(!l.try_admit_ip_at(ip(1), 1000));
    assert!(l.try_admit_ip_at(ip(2), 1000));
}

#[test]
fn prior_home_challenge_rate_limit_separate_keys_have_separate_budgets() {
    let mut l = PriorHomeChallengeRateLimiter::new(60, 1);
    assert!(l.try_admit_key_at(key(1), 1000));
    assert!(!l.try_admit_key_at(key(1), 1000));
    assert!(l.try_admit_key_at(key(2), 1000));
}

#[test]
fn ip_and_key_counters_are_independent() {
    let mut l = PriorHomeChallengeRateLimiter::new(2, 1);
    assert!(l.try_admit_key_at(key(1), 1000));
    assert!(!l.try_admit_key_at(key(1), 1000));
    assert!(l.try_admit_ip_at(ip(1), 1000));
    assert!(l.try_admit_ip_at(ip(1), 1000));
    assert!(!l.try_admit_ip_at(ip(1), 1000));
}

#[test]
fn prior_home_challenge_rate_limit_window_rolls_after_a_minute() {
    let mut l = PriorHomeChallengeRateLimiter::new(2, 10);
    assert!(l.try_admit_ip_at(ip(1), 1000));
    assert!(l.try_admit_ip_at(ip(1), 1000));
    assert!(!l.try_admit_ip_at(ip(1), 1030));
    assert!(l.try_admit_ip_at(ip(1), 1060));
}

#[test]
fn prior_home_challenge_rate_limit_rejected_admit_does_not_burn_budget() {
    let mut l = PriorHomeChallengeRateLimiter::new(60, 2);
    assert!(l.try_admit_key_at(key(1), 1000));
    assert!(l.try_admit_key_at(key(1), 1000));
    assert!(!l.try_admit_key_at(key(1), 1000));
    assert!(!l.try_admit_key_at(key(1), 1000));
    assert_eq!(l.key_window(&key(1)).unwrap().count, 2);
}

#[test]
fn cleanup_drops_expired_entries_from_both_maps() {
    let mut l = PriorHomeChallengeRateLimiter::new(60, 10);
    l.try_admit_ip_at(ip(1), 1000);
    l.try_admit_key_at(key(1), 1000);
    l.try_admit_ip_at(ip(2), 1080);
    l.try_admit_key_at(key(2), 1080);
    l.cleanup_stale_at(1080);
    assert!(l.ip_window(&ip(1)).is_none());
    assert!(l.ip_window(&ip(2)).is_some());
    assert!(l.key_window(&key(1)).is_none());
    assert!(l.key_window(&key(2)).is_some());
}

#[test]
fn too_many_requests_response_carries_retry_after_minute() {
    let r = prior_home_challenge_too_many_requests();
    assert_eq!(r.status, 429);
    assert_eq!(r.retry_after, "60");
}

#[test]
fn challenge_limiter_defaults_and_new_caps() {
    assert_eq!(PRIOR_HOME_CHALLENGE_RPM_PER_IP, 60);
    assert_eq!(PRIOR_HOME_CHALLENGE_RPM_PER_KEY, 10);
    let mut l = PriorHomeChallengeRateLimiter::default();
    for _ in 0..10 {
        assert!(l.try_admit_key_at(key(1), 7));
    }
    assert!(!l.try_admit_key_at(key(1), 7));
    l.set_caps(60, 11);
    assert!(l.try_admit_key_at(key(1), 7));
    assert!(!l.try_admit_key_at(key(1), 7));
}

#[test]
fn the_two_kinds_of_address_are_told_apart() {
    let mut l = PriorHomeChallengeRateLimiter::new(1, 1);
    let mut six = [0u8; 16];
    six[0] = 127;
    assert!(l.try_admit_ip_at(ip(0), 9));
    assert!(l.try_admit_ip_at(CallerAddr::V6(six), 9));
    assert!(!l.try_admit_ip_at(CallerAddr::V6(six), 9));
}

// Per-peer request budgets.

#[test]
fn admits_within_request_budget() {
    let mut l = PushRateLimiter::new(3);
    assert!(l.try_admit_at(peer(1), 1000));
    assert!(l.try_admit_at(peer(1), 1000));
    assert!(l.try_admit_at(peer(1), 1000));
    assert!(!l.try_admit_at(peer(1), 1000));
}

#[test]
fn budget_is_per_peer() {
    let mut l = PushRateLimiter::new(1);
    assert!(l.try_admit_at(peer(1), 1000));
    assert!(!l.try_admit_at(peer(1), 1000));
    assert!(l.try_admit_at(peer(2), 1000));
}

#[test]
fn push_rate_limit_window_rolls_after_a_minute() {
    let mut l = PushRateLimiter::new(2);
    assert!(l.try_admit_at(peer(1), 1000));
    assert!(l.try_admit_at(peer(1), 1000));
    assert!(!l.try_admit_at(peer(1), 1030));
    assert!(l.try_admit_at(peer(1), 1000 + 60));
}

#[test]
fn push_rate_limit_rejected_admit_does_not_burn_budget() {
    let mut l = PushRateLimiter::new(2);
    assert!(l.try_admit_at(peer(1), 1000));
    assert!(l.try_admit_at(peer(1), 1000));
    assert!(!l.try_admit_at(peer(1), 1000));
    assert!(!l.try_admit_at(peer(1), 1000));
    assert_eq!(l.window_of(&peer(1)).unwrap().count, 2);
}

#[test]
fn push_rate_limit_cleanup_drops_expired_entries() {
    let mut l = PushRateLimiter::new(100);
    l.try_admit_at(peer(1), 1000);
    l.try_admit_at(peer(2), 1090);
    l.cleanup_stale_at(1090);
    assert!(l.window_of(&peer(1)).is_none());
    assert!(l.window_of(&peer(2)).is_some());
}

#[test]
fn route_constructors_carry_spec_defaults() {
    let mut us = PushRateLimiter::for_user_status();
    for _ in 0..USER_STATUS_RPM_PER_PEER {
        assert!(us.try_admit_at(peer(1), 1000));
    }
    assert!(!us.try_admit_at(peer(1), 1000));

    let mut ts = PushRateLimiter::for_thread_status();
    for _ in 0..THREAD_STATUS_RPM_PER_PEER {
        assert!(ts.try_admit_at(peer(1), 1000));
    }
    assert!(!ts.try_admit_at(peer(1), 1000));

    let mut rp = PushRateLimiter::for_reports();
    for _ in 0..REPORTS_RPM_PER_PEER {
        assert!(rp.try_admit_at(peer(1), 1000));
    }
    assert!(!rp.try_admit_at(peer(1), 1000));
}

#[test]
fn too_many_requests_response_carries_retry_after_60() {
    let r = push_too_many_requests();
    assert_eq!(r.status, 429);
    assert_eq!(r.retry_after, "60");
}

// The clock.

#[test]
fn limiters_run_on_the_wall_clock() {
    let mut l = PushRateLimiter::new(1);
    assert!(l.try_admit(peer(1)));
    // Counted in a window that began well after the epoch.
    assert!(l.window_of(&peer(1)).unwrap().start_secs > 1_700_000_000);
    let mut d = PriorHomeRateLimiter::new(1);
    assert!(d.try_admit(key(1)));
    assert!(!d.try_admit(key(1)));
    let mut c = PriorHomeChallengeRateLimiter::new(1, 1);
    assert!(c.try_admit_ip(ip(1)));
    assert!(c.try_admit_key(key(1)));
}

// The table of windows.

#[test]
fn a_clock_that_goes_back_opens_no_window() {
    let mut t = WindowTable::new();
    assert!(t.request(&[1], 1000, 60, 1));
    assert!(!t.request(&[1], 900, 60, 1));
    assert_eq!(t.get(&[1]).unwrap().start_secs, 1000);
}

#[test]
fn a_budget_of_none_admits_none() {
    let mut t = WindowTable::new();
    assert!(!t.request(&[1], 1000, 60, 0));
    assert!(!t.request(&[1], 2000, 60, 0));
}

#[test]
fn cleaning_up_changes_no_decision() {
    let mut kept = WindowTable::new();
    let mut cleaned = WindowTable::new();
    for t in [1000u64, 1010, 1061, 1062, 1063] {
        let a = kept.request(&[7], t, 60, 2);
        cleaned.drop_stale(t, 60);
        let b = cleaned.request(&[7], t, 60, 2);
        assert_eq!(a, b);
    }
}

#[test]
fn any_stretch_admits_at_most_twice_the_budget() {
    let mut t = WindowTable::new();
    let admitted: Vec<u64> = [1000u64, 1059, 1059, 1059, 1060, 1060, 1060, 1119]
        .into_iter()
        .filter(|at| t.request(&[1], *at, 60, 3))
        .collect();
    assert_eq!(admitted, vec![1000, 1059, 1059, 1060, 1060, 1060]);
    // Within one period, around the edge of two windows.
    let stretch = admitted.iter().filter(|at| (1001..1061).contains(*at)).count();
    assert!(stretch <= 2 * 3);
    assert_eq!(t.get(&[1]).unwrap().count, 3);
}
