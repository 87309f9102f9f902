use linebot_rs::pipeline::admit_request;
use linebot_rs::pipeline::health_check;
use linebot_rs::pipeline::AdmitOutcome;
use linebot_rs::rate_limit::RateLimitConfig;
use linebot_rs::rate_limit::RateLimiter;
use linebot_rs::signature::sign;

fn limiter_with(max_requests: u32) -> RateLimiter {
    RateLimiter::new(RateLimitConfig {
        max_requests,
        window_duration: 60,
        cleanup_interval: 300,
    })
}

const SECRET: &str = "test_channel_secret";
const BODY: &[u8] = b"{\"destination\":\"test\",\"events\":[]}";

#[test]
fn signed_request_is_admitted() {
    let mut limiter = limiter_with(10);
    let header = sign(SECRET, BODY);
    let outcome = admit_request(&mut limiter, SECRET, BODY, Some(&header), "1.2.3.4", 0);
    match outcome {
        AdmitOutcome::Admitted { remaining, reset_after } => {
            assert_eq!(remaining, 9);
            assert_eq!(reset_after, 60);
        }
        other => panic!("Expected admission, got {:?}", other),
    }
    assert_eq!(outcome.status_code(), 200);
}

#[test]
fn missing_header_is_malformed() {
    let mut limiter = limiter_with(10);
    let outcome = admit_request(&mut limiter, SECRET, BODY, None, "1.2.3.4", 0);
    assert_eq!(outcome, AdmitOutcome::MissingHeader);
    assert_eq!(outcome.status_code(), 400);
    // The limiter was never consulted.
    assert!(!limiter.contains_key("1.2.3.4"));
}

#[test]
fn wrong_signature_is_unauthorized() {
    let mut limiter = limiter_with(10);
    let outcome = admit_request(
        &mut limiter,
        SECRET,
        BODY,
        Some("sha256=invalid_signature"),
        "1.2.3.4",
        0,
    );
    assert_eq!(outcome, AdmitOutcome::InvalidSignature);
    assert_eq!(outcome.status_code(), 401);
    assert!(!limiter.contains_key("1.2.3.4"));
}

#[test]
fn signature_for_other_body_is_unauthorized() {
    let mut limiter = limiter_with(10);
    let header = sign(SECRET, b"something else entirely");
    let outcome = admit_request(&mut limiter, SECRET, BODY, Some(&header), "1.2.3.4", 0);
    assert_eq!(outcome, AdmitOutcome::InvalidSignature);
}

#[test]
fn over_quota_caller_gets_positive_retry_after() {
    let mut limiter = limiter_with(2);
    let header = sign(SECRET, BODY);
    for _ in 0..2 {
        match admit_request(&mut limiter, SECRET, BODY, Some(&header), "1.2.3.4", 5) {
            AdmitOutcome::Admitted { .. } => {}
            other => panic!("Expected admission, got {:?}", other),
        }
    }
    let outcome = admit_request(&mut limiter, SECRET, BODY, Some(&header), "1.2.3.4", 5);
    match outcome {
        AdmitOutcome::RateLimited { retry_after } => assert!(retry_after > 0),
        other => panic!("Expected rate limiting, got {:?}", other),
    }
    assert_eq!(outcome.status_code(), 429);
}

#[test]
fn quota_is_per_caller_key() {
    let mut limiter = limiter_with(1);
    let header = sign(SECRET, BODY);
    match admit_request(&mut limiter, SECRET, BODY, Some(&header), "1.1.1.1", 0) {
        AdmitOutcome::Admitted { .. } => {}
        other => panic!("Expected admission, got {:?}", other),
    }
    match admit_request(&mut limiter, SECRET, BODY, Some(&header), "2.2.2.2", 0) {
        AdmitOutcome::Admitted { .. } => {}
        other => panic!("Expected admission, got {:?}", other),
    }
    match admit_request(&mut limiter, SECRET, BODY, Some(&header), "1.1.1.1", 1) {
        AdmitOutcome::RateLimited { .. } => {}
        other => panic!("Expected rate limiting, got {:?}", other),
    }
}

#[test]
fn health_path_answers_ok() {
    assert_eq!(health_check(), "OK");
}
