use rate_limiters::polling_client::{ClientState, PollingClient};
use rate_limiters::protocol::Response;

#[test]
fn client_starts_at_init() {
    let c = PollingClient::new();
    assert_eq!(c.state, ClientState::Init);
    assert!(!c.is_finished());
    assert_eq!(c.next_request(), b"\0\0\0\0\0\0\0\0hello".to_vec());
}

#[test]
fn client_direct_pong_completes() {
    let mut c = PollingClient::new();
    let resp = Response::Pong(b"hello".to_vec());
    assert!(c.expects(&resp));
    c.on_response(Some(resp));
    assert_eq!(c.state, ClientState::Completed);
    assert!(c.is_finished());
}

#[test]
fn client_polls_then_is_let_through() {
    let mut c = PollingClient::new();
    c.on_response(Some(Response::StartPoll(3)));
    assert_eq!(c.state, ClientState::Polling(3));
    assert_eq!(c.next_request(), b"\0\0\0\0\0\0\0\x03POLL".to_vec());
    assert!(c.expects(&Response::KeepPolling));
    c.on_response(Some(Response::KeepPolling));
    assert_eq!(c.state, ClientState::Polling(3));
    c.on_response(Some(Response::RequestGranted(0xdeadbeef)));
    assert_eq!(c.state, ClientState::Authorized(0xdeadbeef));
    assert_eq!(c.next_request(), b"\0\0\0\0\xde\xad\xbe\xefhello".to_vec());
    c.on_response(Some(Response::Pong(b"hello".to_vec())));
    assert_eq!(c.state, ClientState::Completed);
}

#[test]
fn client_failure_ends() {
    let mut c = PollingClient::new();
    c.on_response(Some(Response::StartPoll(1)));
    c.on_response(None);
    assert_eq!(c.state, ClientState::Failed);
    assert!(c.is_finished());
}

#[test]
fn client_expects_only_fitting_answers() {
    let c = PollingClient::new();
    assert!(!c.expects(&Response::KeepPolling));
    assert!(!c.expects(&Response::RequestGranted(1)));
    assert!(c.expects(&Response::StartPoll(1)));
    let p = PollingClient { state: ClientState::Polling(1) };
    assert!(!p.expects(&Response::Pong(Vec::new())));
    assert!(!p.expects(&Response::StartPoll(2)));
    let a = PollingClient { state: ClientState::Authorized(1) };
    assert!(a.expects(&Response::Pong(Vec::new())));
    assert!(!a.expects(&Response::KeepPolling));
    let done = PollingClient { state: ClientState::Completed };
    assert!(!done.expects(&Response::Pong(Vec::new())));
}
