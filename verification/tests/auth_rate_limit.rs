//! The login rate limiter.

use execlaw_server::auth_rate_limit::{
    peer_ip, Bucket, LoginRateLimiter, PeerIp, MAX_ATTEMPTS, NANOS_PER_SECOND, WINDOW_NANOS,
};

#[test]
fn first_attempts_within_limit_are_allowed() {
    let mut limiter = LoginRateLimiter::new();
    for _ in 0..MAX_ATTEMPTS {
        assert!(limiter.check_and_record("10.0.0.1").is_ok());
    }
}

#[test]
fn attempt_beyond_limit_returns_err() {
    let mut limiter = LoginRateLimiter::new();
    for _ in 0..MAX_ATTEMPTS {
        let _ = limiter.check_and_record("10.0.0.2");
    }
    let result = limiter.check_and_record("10.0.0.2");
    assert!(result.is_err(), "6th attempt should be rate-limited");
    assert!(result.unwrap_err() > 0);
}

#[test]
fn reset_clears_bucket() {
    let mut limiter = LoginRateLimiter::new();
    for _ in 0..MAX_ATTEMPTS {
        let _ = limiter.check_and_record("10.0.0.3");
    }
    assert!(limiter.check_and_record("10.0.0.3").is_err());
    limiter.reset("10.0.0.3");
    assert!(limiter.check_and_record("10.0.0.3").is_ok());
}

#[test]
fn different_ips_are_isolated() {
    let mut limiter = LoginRateLimiter::new();
    for _ in 0..MAX_ATTEMPTS {
        let _ = limiter.check_and_record("192.168.1.1");
    }
    assert!(limiter.check_and_record("192.168.1.1").is_err());
    assert!(limiter.check_and_record("192.168.1.2").is_ok());
}

#[test]
fn purge_expired_does_not_remove_active_buckets() {
    let mut limiter = LoginRateLimiter::new();
    let _ = limiter.check_and_record("10.0.0.4");
    limiter.purge_expired();
    assert!(limiter.buckets.contains_key("10.0.0.4"));
}

#[test]
fn peer_ip_falls_back_to_sentinel_when_no_connect_info() {
    let PeerIp(ip) = peer_ip(None);
    assert_eq!(ip, "test-sentinel-no-connectinfo");
    let PeerIp(known) = peer_ip(Some("10.1.2.3".to_owned()));
    assert_eq!(known, "10.1.2.3");
}

#[test]
fn refused_attempts_are_recorded_too() {
    let mut limiter = LoginRateLimiter::default();
    for i in 0..7u128 {
        let _ = limiter.check_and_record_at("a", i);
    }
    assert_eq!(limiter.buckets.get("a").map(|b| b.len()), Some(7));
}

#[test]
fn the_wait_counts_from_the_oldest_attempt_in_the_window() {
    let mut limiter = LoginRateLimiter::new();
    for i in 0..5u128 {
        assert_eq!(limiter.check_and_record_at("a", i * NANOS_PER_SECOND), Ok(()));
    }
    // The oldest is 100 seconds old: 500 whole seconds are left, and one on top.
    assert_eq!(limiter.check_and_record_at("a", 100 * NANOS_PER_SECOND), Err(501));
    assert_eq!(limiter.check_and_record_at("b", 100 * NANOS_PER_SECOND), Ok(()));
}

#[test]
fn attempts_age_out_of_the_window() {
    let mut limiter = LoginRateLimiter::new();
    for _ in 0..5 {
        assert!(limiter.check_and_record_at("a", 0).is_ok());
    }
    assert!(limiter.check_and_record_at("b", 0).is_ok());
    assert!(limiter.check_and_record_at("a", WINDOW_NANOS - 1).is_err());
    // At the end of the window only the attempt of a moment ago still counts.
    assert!(limiter.check_and_record_at("a", WINDOW_NANOS).is_ok());
    limiter.purge_expired_at(WINDOW_NANOS);
    assert!(limiter.buckets.contains_key("a"));
    assert!(!limiter.buckets.contains_key("b"));
}

#[test]
fn a_bucket_prunes_and_waits() {
    let mut bucket = Bucket::new();
    assert_eq!(bucket.retry_after_secs(7), 1);
    bucket.record(0);
    bucket.record(WINDOW_NANOS);
    assert!(!bucket.is_limited(WINDOW_NANOS));
    assert_eq!(bucket.attempts, vec![WINDOW_NANOS]);
    assert_eq!(bucket.retry_after_secs(WINDOW_NANOS), 601);
    bucket.prune(2 * WINDOW_NANOS);
    assert!(bucket.attempts.is_empty());
}
