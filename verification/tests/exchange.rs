use rate_limiters::polling_client::{ClientState, PollingClient};
use rate_limiters::protocol::{parse_request, parse_response};
use rate_limiters::queue::{handle_request, Action, RateLimiter};

fn deliver(bytes: &[u8]) -> ([u8; 32], usize) {
    let mut buf = [0u8; 32];
    buf[..bytes.len()].copy_from_slice(bytes);
    (buf, bytes.len())
}

#[test]
fn exchange_client_is_queued_polls_and_gets_through() {
    let mut server = RateLimiter::new(0);
    let mut client = PollingClient::new();

    // First request: queued under ticket 0.
    let (buf, len) = deliver(&client.next_request());
    let req = parse_request(&buf, len).unwrap();
    let d = handle_request(&mut server, req, 0);
    let reply = match d.action {
        Action::Reply(b) => b,
        Action::Forward { .. } => panic!("expected a reply"),
    };
    let (buf, len) = deliver(&reply);
    let resp = parse_response(&buf, len);
    assert!(client.expects(&resp));
    client.on_response(Some(resp));
    assert_eq!(client.state, ClientState::Polling(0));

    // Poll with nothing released: ticket 0 is already releasable (0 <= 0).
    let (buf, len) = deliver(&client.next_request());
    let req = parse_request(&buf, len).unwrap();
    let d = handle_request(&mut server, req, 0);
    let reply = match d.action {
        Action::Reply(b) => b,
        Action::Forward { .. } => panic!("expected a reply"),
    };
    let (buf, len) = deliver(&reply);
    let resp = parse_response(&buf, len);
    client.on_response(Some(resp));
    assert_eq!(client.state, ClientState::Authorized(0xdeadbeef));

    // Let-through request: forwarded to the backend.
    let (buf, len) = deliver(&client.next_request());
    let req = parse_request(&buf, len).unwrap();
    let d = handle_request(&mut server, req, 0);
    match d.action {
        Action::Forward { msg, lower_rate_on_failure } => {
            let mut expected = b"hello".to_vec();
            expected.resize(24, 0);
            assert_eq!(msg, expected);
            assert!(lower_rate_on_failure);
        }
        Action::Reply(_) => panic!("expected a forward"),
    }
    let (buf, len) = deliver(b"hello");
    client.on_response(Some(parse_response(&buf, len)));
    assert_eq!(client.state, ClientState::Completed);
}

#[test]
fn exchange_second_client_keeps_polling() {
    let mut server = RateLimiter::new(0);
    let mut first = PollingClient::new();
    let mut second = PollingClient::new();
    for c in [&mut first, &mut second] {
        let (buf, len) = deliver(&c.next_request());
        let d = handle_request(&mut server, parse_request(&buf, len).unwrap(), 0);
        if let Action::Reply(b) = d.action {
            let (buf, len) = deliver(&b);
            c.on_response(Some(parse_response(&buf, len)));
        }
    }
    assert_eq!(first.state, ClientState::Polling(0));
    assert_eq!(second.state, ClientState::Polling(1));

    let (buf, len) = deliver(&second.next_request());
    let d = handle_request(&mut server, parse_request(&buf, len).unwrap(), 0);
    if let Action::Reply(b) = d.action {
        let (buf, len) = deliver(&b);
        second.on_response(Some(parse_response(&buf, len)));
    }
    assert_eq!(second.state, ClientState::Polling(1));

    let (buf, len) = deliver(&second.next_request());
    let d = handle_request(&mut server, parse_request(&buf, len).unwrap(), 1);
    assert!(d.restart_clock);
    if let Action::Reply(b) = d.action {
        let (buf, len) = deliver(&b);
        second.on_response(Some(parse_response(&buf, len)));
    }
    assert_eq!(second.state, ClientState::Authorized(0xdeadbeef));
}
