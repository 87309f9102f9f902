use linebot_rs::rate_limit::extract_rate_limit_key;
use linebot_rs::rate_limit::RateLimitConfig;
use linebot_rs::rate_limit::RateLimitEntry;
use linebot_rs::rate_limit::RateLimitResult;
use linebot_rs::rate_limit::RateLimiter;

#[test]
fn test_rate_limit_entry_creation() {
    let entry = RateLimitEntry::new(0);
    assert_eq!(entry.count, 1);
}

#[test]
fn test_rate_limit_entry_increment() {
    let mut entry = RateLimitEntry::new(0);
    let window = 60;

    entry.increment(window, 1);
    assert_eq!(entry.count, 2);

    for _ in 0..8 {
        entry.increment(window, 1);
    }
    assert_eq!(entry.count, 10);

    entry.increment(window, 1);
    assert_eq!(entry.count, 11);
}

#[test]
fn test_rate_limiter_basic() {
    let config = RateLimitConfig { max_requests: 5, window_duration: 60, cleanup_interval: 300 };

    let mut limiter = RateLimiter::new(config);
    let key = "test_key";

    for i in 1u32..=5 {
        match limiter.check_rate_limit(key, 0) {
            RateLimitResult::Allowed { remaining, .. } => {
                assert_eq!(remaining, 5 - i);
            }
            RateLimitResult::Exceeded { .. } => panic!("Should be allowed"),
        }
    }

    match limiter.check_rate_limit(key, 0) {
        RateLimitResult::Exceeded { .. } => {}
        RateLimitResult::Allowed { .. } => panic!("Should be exceeded"),
    }
}

#[test]
fn test_rate_limit_config_default() {
    let config = RateLimitConfig::default();
    assert_eq!(config.max_requests, 10);
    assert_eq!(config.window_duration, 60);
    assert_eq!(config.cleanup_interval, 300);
}

#[test]
fn window_expiry_starts_fresh_count() {
    let config = RateLimitConfig { max_requests: 3, window_duration: 60, cleanup_interval: 300 };
    let mut limiter = RateLimiter::new(config);
    for _ in 0..3 {
        match limiter.check_rate_limit("k", 0) {
            RateLimitResult::Allowed { .. } => {}
            RateLimitResult::Exceeded { .. } => panic!("within quota"),
        }
    }
    match limiter.check_rate_limit("k", 10) {
        RateLimitResult::Exceeded { retry_after } => assert_eq!(retry_after, 50),
        RateLimitResult::Allowed { .. } => panic!("over quota"),
    }
    match limiter.check_rate_limit("k", 60) {
        RateLimitResult::Allowed { remaining, reset_after } => {
            assert_eq!(remaining, 2);
            assert_eq!(reset_after, 60);
        }
        RateLimitResult::Exceeded { .. } => panic!("new window"),
    }
}

#[test]
fn separate_keys_have_separate_quotas() {
    let config = RateLimitConfig { max_requests: 1, window_duration: 60, cleanup_interval: 300 };
    let mut limiter = RateLimiter::new(config);
    match limiter.check_rate_limit("a", 0) {
        RateLimitResult::Allowed { .. } => {}
        RateLimitResult::Exceeded { .. } => panic!("first call for a"),
    }
    match limiter.check_rate_limit("b", 0) {
        RateLimitResult::Allowed { .. } => {}
        RateLimitResult::Exceeded { .. } => panic!("first call for b"),
    }
    match limiter.check_rate_limit("a", 1) {
        RateLimitResult::Exceeded { .. } => {}
        RateLimitResult::Allowed { .. } => panic!("a is over quota"),
    }
}

#[test]
fn cleanup_removes_only_idle_expired_entries() {
    let config = RateLimitConfig { max_requests: 10, window_duration: 60, cleanup_interval: 300 };
    let mut limiter = RateLimiter::new(config);
    limiter.check_rate_limit("old", 0);
    limiter.check_rate_limit("fresh", 0);
    limiter.check_rate_limit("fresh", 50);

    // At 61 ticks the "old" entry has been idle past one window; "fresh" was
    // touched at 50 and stays.
    let removed = limiter.cleanup_expired_entries(61);
    assert_eq!(removed, 1);
    assert!(!limiter.contains_key("old"));
    assert!(limiter.contains_key("fresh"));
}

#[test]
fn cleanup_is_idempotent() {
    let config = RateLimitConfig { max_requests: 10, window_duration: 60, cleanup_interval: 300 };
    let mut limiter = RateLimiter::new(config);
    limiter.check_rate_limit("a", 0);
    limiter.check_rate_limit("b", 40);

    let first = limiter.cleanup_expired_entries(100);
    assert_eq!(first, 1);
    let second = limiter.cleanup_expired_entries(100);
    assert_eq!(second, 0);
    assert!(limiter.contains_key("b"));
}

#[test]
fn cleanup_keeps_entries_within_window() {
    let config = RateLimitConfig { max_requests: 10, window_duration: 60, cleanup_interval: 300 };
    let mut limiter = RateLimiter::new(config);
    limiter.check_rate_limit("k", 0);
    let removed = limiter.cleanup_expired_entries(60);
    assert_eq!(removed, 0);
    assert!(limiter.contains_key("k"));
}

#[test]
fn extract_key_prefers_forwarded_header() {
    let key = extract_rate_limit_key(Some("1.2.3.4, 5.6.7.8"), Some("9.9.9.9"), Some("7.7.7.7"));
    assert_eq!(key, "1.2.3.4");
}

#[test]
fn extract_key_trims_forwarded_value() {
    let key = extract_rate_limit_key(Some("  1.2.3.4  "), None, None);
    assert_eq!(key, "1.2.3.4");
}

#[test]
fn extract_key_falls_back_in_order() {
    assert_eq!(extract_rate_limit_key(None, Some("9.9.9.9"), Some("7.7.7.7")), "9.9.9.9");
    assert_eq!(extract_rate_limit_key(None, None, Some("7.7.7.7")), "7.7.7.7");
    assert_eq!(extract_rate_limit_key(None, None, None), "unknown");
}
