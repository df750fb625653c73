use rate_limiters::leaky_bucket::LeakyBucket;

#[test]
fn leaky_bucket_queues_up_to_limit() {
    let mut b: LeakyBucket<u32> = LeakyBucket::new(2);
    assert_eq!(b.accept(1), None);
    assert_eq!(b.accept(2), None);
    assert_eq!(b.accept(3), Some(3));
    assert_eq!(b.len(), 2);
    assert_eq!(b.limit(), 2);
}

#[test]
fn leaky_bucket_leaks_in_arrival_order() {
    let mut b: LeakyBucket<&str> = LeakyBucket::new(4);
    assert_eq!(b.accept("a"), None);
    assert_eq!(b.accept("b"), None);
    assert_eq!(b.leak(), Some("a"));
    assert_eq!(b.accept("c"), None);
    assert_eq!(b.leak(), Some("b"));
    assert_eq!(b.leak(), Some("c"));
    assert_eq!(b.leak(), None);
    assert_eq!(b.len(), 0);
}

#[test]
fn leaky_bucket_room_after_leak() {
    let mut b: LeakyBucket<u8> = LeakyBucket::new(1);
    assert_eq!(b.accept(7), None);
    assert_eq!(b.accept(8), Some(8));
    assert_eq!(b.leak(), Some(7));
    assert_eq!(b.accept(9), None);
    assert_eq!(b.leak(), Some(9));
}

#[test]
fn leaky_bucket_zero_limit_rejects() {
    let mut b: LeakyBucket<u8> = LeakyBucket::new(0);
    assert_eq!(b.accept(1), Some(1));
    assert_eq!(b.leak(), None);
}
