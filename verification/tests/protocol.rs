use rate_limiters::protocol::{
    encode_authorized_request, encode_init_request, encode_keep_polling, encode_poll_request,
    encode_poll_ticket, encode_request_grant, parse_request, parse_response, InvalidRequest,
    Request, Response,
};

fn buffer(bytes: &[u8]) -> [u8; 32] {
    let mut buf = [0u8; 32];
    buf[..bytes.len()].copy_from_slice(bytes);
    buf
}

fn padded(bytes: &[u8]) -> Vec<u8> {
    let mut v = bytes.to_vec();
    v.resize(24, 0);
    v
}

#[test]
fn encoders_give_the_wire_bytes() {
    assert_eq!(encode_init_request(), b"\0\0\0\0\0\0\0\0hello".to_vec());
    assert_eq!(encode_poll_request(0x0102030405060708), b"\x01\x02\x03\x04\x05\x06\x07\x08POLL".to_vec());
    assert_eq!(encode_authorized_request(0xdeadbeef), b"\0\0\0\0\xde\xad\xbe\xefhello".to_vec());
    assert_eq!(encode_poll_ticket(1), b"POLL\0\0\0\0\0\0\0\x01".to_vec());
    assert_eq!(encode_request_grant(0xdeadbeef), b"REQUEST\0\0\0\0\xde\xad\xbe\xef".to_vec());
    assert_eq!(encode_keep_polling(), b"POLL".to_vec());
}

#[test]
fn parse_request_poll() {
    let buf = buffer(b"\0\0\0\0\0\0\0\x05POLL");
    assert_eq!(parse_request(&buf, 12), Ok(Request::Poll(5)));
}

#[test]
fn parse_request_poll_needs_exact_length() {
    let buf = buffer(b"\0\0\0\0\0\0\0\x05POLL");
    assert_eq!(parse_request(&buf, 13), Ok(Request::AuthorizedRequest(5, padded(b"POLL"))));
}

#[test]
fn parse_request_without_key() {
    let buf = buffer(b"\0\0\0\0\0\0\0\0hello");
    assert_eq!(parse_request(&buf, 13), Ok(Request::UnauthorizedRequest(padded(b"hello"))));
}

#[test]
fn parse_request_with_key() {
    let buf = buffer(b"\x01\x02\x03\x04\x05\x06\x07\x08hello");
    assert_eq!(
        parse_request(&buf, 13),
        Ok(Request::AuthorizedRequest(0x0102030405060708, padded(b"hello")))
    );
}

#[test]
fn parse_request_eight_bytes_is_enough() {
    let buf = buffer(b"\0\0\0\0\0\0\0\0");
    assert_eq!(parse_request(&buf, 8), Ok(Request::UnauthorizedRequest(vec![0u8; 24])));
}

#[test]
fn parse_request_too_short() {
    let buf = buffer(b"hello");
    assert_eq!(parse_request(&buf, 5), Err(InvalidRequest));
    assert_eq!(parse_request(&buf, 0), Err(InvalidRequest));
}

#[test]
fn parse_response_keep_polling() {
    let buf = buffer(b"POLL");
    assert_eq!(parse_response(&buf, 4), Response::KeepPolling);
}

#[test]
fn parse_response_ticket() {
    let buf = buffer(b"POLL\0\0\0\0\0\0\0\x07");
    assert_eq!(parse_response(&buf, 12), Response::StartPoll(7));
}

#[test]
fn parse_response_grant() {
    let buf = buffer(b"REQUEST\0\0\0\0\xde\xad\xbe\xef");
    assert_eq!(parse_response(&buf, 15), Response::RequestGranted(0xdeadbeef));
}

#[test]
fn parse_response_pong() {
    let buf = buffer(b"hello");
    assert_eq!(parse_response(&buf, 5), Response::Pong(b"hello".to_vec()));
    let buf = buffer(b"POLL");
    assert_eq!(parse_response(&buf, 5), Response::Pong(b"POLL\0".to_vec()));
    assert_eq!(parse_response(&buf, 0), Response::Pong(Vec::new()));
}

#[test]
fn wire_round_trips() {
    for key in [0u64, 1, 255, 256, 0xdeadbeef, u64::MAX] {
        assert_eq!(parse_request(&buffer(&encode_poll_request(key)), 12), Ok(Request::Poll(key)));
        assert_eq!(parse_response(&buffer(&encode_poll_ticket(key)), 12), Response::StartPoll(key));
        assert_eq!(
            parse_response(&buffer(&encode_request_grant(key)), 15),
            Response::RequestGranted(key)
        );
    }
    assert_eq!(parse_response(&buffer(&encode_keep_polling()), 4), Response::KeepPolling);
}
