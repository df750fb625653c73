use rate_limiters::protocol::{encode_keep_polling, encode_poll_ticket, encode_request_grant, Request};
use rate_limiters::queue::{handle_request, Action, CanExit, RateLimiter, ShouldThrottle, RELEASED_REQUEST_KEY};

#[test]
fn queue_starts_empty() {
    let rl = RateLimiter::new(1234);
    assert_eq!(rl.next_poll_key(), 0);
    assert_eq!(rl.releasable_poll_key(), 0);
    assert_eq!(rl.last_rate_reduce_second(), 1234);
}

#[test]
fn queue_tickets_increase() {
    let mut rl = RateLimiter::new(0);
    assert_eq!(rl.should_throttle(0), ShouldThrottle::Yes(0));
    assert_eq!(rl.should_throttle(0), ShouldThrottle::Yes(1));
    assert_eq!(rl.should_throttle(0), ShouldThrottle::Yes(2));
    assert_eq!(rl.next_poll_key(), 3);
}

#[test]
fn queue_ticket_jumps_to_released() {
    let mut rl = RateLimiter::new(0);
    assert_eq!(rl.should_throttle(0), ShouldThrottle::Yes(0));
    assert_eq!(rl.should_throttle(5), ShouldThrottle::Yes(5));
    assert_eq!(rl.releasable_poll_key(), 5);
    assert_eq!(rl.next_poll_key(), 6);
    assert_eq!(rl.should_throttle(0), ShouldThrottle::Yes(6));
}

#[test]
fn queue_exit_after_release() {
    let mut rl = RateLimiter::new(0);
    assert_eq!(rl.should_throttle(0), ShouldThrottle::Yes(0));
    assert_eq!(rl.should_throttle(0), ShouldThrottle::Yes(1));
    assert_eq!(rl.can_exit(0, 0), CanExit::Yes(0xdeadbeef));
    assert_eq!(rl.can_exit(1, 0), CanExit::No);
    assert_eq!(rl.can_exit(1, 1), CanExit::Yes(RELEASED_REQUEST_KEY));
    assert_eq!(rl.can_exit(1, 0), CanExit::Yes(RELEASED_REQUEST_KEY));
    assert_eq!(rl.can_exit(0, 0), CanExit::Yes(RELEASED_REQUEST_KEY));
    assert_eq!(rl.can_exit(3, 0), CanExit::No);
}

#[test]
fn queue_refresh_reports_restart() {
    let mut rl = RateLimiter::new(0);
    assert!(!rl.refresh_poll_release_key(0));
    assert!(rl.refresh_poll_release_key(3));
    assert_eq!(rl.releasable_poll_key(), 3);
}

#[test]
fn queue_lower_rate_once_per_second() {
    let mut rl = RateLimiter::new(100);
    assert!(!rl.lower_rate(100));
    assert!(!rl.lower_rate(99));
    assert!(rl.lower_rate(101));
    assert_eq!(rl.last_rate_reduce_second(), 101);
    assert!(!rl.lower_rate(101));
    assert!(rl.lower_rate(105));
}

#[test]
fn queue_every_request_key_is_valid() {
    let rl = RateLimiter::new(0);
    assert!(rl.valid_request_key(0));
    assert!(rl.valid_request_key(u64::MAX));
}

#[test]
fn handle_unauthorized_request_gets_ticket() {
    let mut rl = RateLimiter::new(0);
    let d = handle_request(&mut rl, Request::UnauthorizedRequest(b"hello".to_vec()), 0);
    assert!(matches!(d.action, Action::Reply(ref b) if *b == encode_poll_ticket(0)));
    assert!(!d.restart_clock);
    let d = handle_request(&mut rl, Request::UnauthorizedRequest(b"hello".to_vec()), 2);
    assert!(matches!(d.action, Action::Reply(ref b) if *b == encode_poll_ticket(2)));
    assert!(d.restart_clock);
    assert_eq!(rl.next_poll_key(), 3);
}

#[test]
fn handle_poll_request() {
    let mut rl = RateLimiter::new(0);
    let d = handle_request(&mut rl, Request::Poll(1), 0);
    assert!(matches!(d.action, Action::Reply(ref b) if *b == encode_keep_polling()));
    let d = handle_request(&mut rl, Request::Poll(1), 1);
    assert!(matches!(d.action, Action::Reply(ref b) if *b == encode_request_grant(0xdeadbeef)));
    assert!(d.restart_clock);
}

#[test]
fn handle_authorized_request_forwards() {
    let mut rl = RateLimiter::new(0);
    let d = handle_request(&mut rl, Request::AuthorizedRequest(9, b"hello".to_vec()), 4);
    match d.action {
        Action::Forward { msg, lower_rate_on_failure } => {
            assert_eq!(msg, b"hello".to_vec());
            assert!(lower_rate_on_failure);
        }
        Action::Reply(_) => panic!("expected a forward"),
    }
    assert!(!d.restart_clock);
    assert_eq!(rl.releasable_poll_key(), 0);
    assert_eq!(rl.next_poll_key(), 0);
}

#[test]
fn queue_can_handle_checks_overflow() {
    let mut rl = RateLimiter::new(0);
    assert!(rl.can_handle(&Request::UnauthorizedRequest(Vec::new()), 5));
    assert!(rl.can_handle(&Request::Poll(0), u64::MAX));
    assert!(rl.refresh_poll_release_key(u64::MAX - 1));
    assert!(rl.can_handle(&Request::UnauthorizedRequest(Vec::new()), 0));
    assert!(!rl.can_handle(&Request::UnauthorizedRequest(Vec::new()), 1));
    assert!(!rl.can_handle(&Request::UnauthorizedRequest(Vec::new()), 2));
    assert!(rl.can_handle(&Request::Poll(0), 1));
    assert!(!rl.can_handle(&Request::Poll(0), 2));
    assert!(rl.can_handle(&Request::AuthorizedRequest(1, Vec::new()), u64::MAX));
}
