use rate_limiters::token_bucket::RateLimiter;

#[test]
fn token_bucket_starts_full_and_takes_tokens() {
    let mut b = RateLimiter::new(10);
    assert_eq!(b.bucket(), 10);
    assert!(b.is_allow(0, 4));
    assert_eq!(b.bucket(), 6);
    assert!(!b.is_allow(0, 7));
    assert_eq!(b.bucket(), 6);
    assert!(b.is_allow(0, 6));
    assert_eq!(b.bucket(), 0);
}

#[test]
fn token_bucket_refill_stops_at_limit() {
    let mut b = RateLimiter::new(10);
    assert!(b.is_allow(0, 8));
    assert_eq!(b.bucket(), 2);
    assert!(b.is_allow(100, 1));
    assert_eq!(b.bucket(), 9);
    assert_eq!(b.limit(), 10);
}

#[test]
fn token_bucket_refill_then_take() {
    let mut b = RateLimiter::new(5);
    assert!(b.is_allow(0, 5));
    assert!(!b.is_allow(2, 3));
    assert_eq!(b.bucket(), 2);
    assert!(b.is_allow(1, 3));
    assert_eq!(b.bucket(), 0);
}

#[test]
fn token_bucket_oversized_request_refused() {
    let mut b = RateLimiter::new(10);
    assert!(!b.is_allow(u64::MAX, 11));
    assert_eq!(b.bucket(), 10);
    assert!(b.is_allow(0, 0));
}

#[test]
fn token_bucket_conserves_tokens() {
    let mut b = RateLimiter::new(3);
    let steps: [(u64, u64); 6] = [(0, 2), (1, 2), (5, 3), (0, 1), (2, 1), (0, 1)];
    let mut taken = 0;
    let mut brought = 0;
    for (new_tokens, req) in steps {
        brought += new_tokens;
        if b.is_allow(new_tokens, req) {
            taken += req;
        }
    }
    assert!(taken + b.bucket() <= 3 + brought);
    assert_eq!(taken, 9);
    assert_eq!(b.bucket(), 0);
}
