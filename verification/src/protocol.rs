//! The byte protocol between the ticket queue (the server) and its polling
//! clients.
//!
//! A client request is an eight-byte big-endian key followed by a payload:
//! key zero marks a request that has not been let through yet, any other key
//! one that has; eight key bytes followed by `POLL` (twelve bytes in all) ask
//! whether the poll ticket in the key may leave the queue. The server answers
//! `POLL` and a ticket (twelve bytes) when it queues a request, `POLL` alone
//! while a ticket has to wait, `REQUEST` and a request key (fifteen bytes)
//! when a ticket may leave, and the backend's bytes otherwise.
use vstd::prelude::*;
use crate::wire::{
    be_value, bytes_match, copy_range, push_u64_be, read_u64_be, received, u64_be, zeros,
    lemma_u64_be_round_trip, BUFFER_LEN,
};

verus! {

/// The bytes `POLL`.
pub open spec fn poll_tag() -> Seq<u8> {
    seq![0x50u8, 0x4fu8, 0x4cu8, 0x4cu8]
}

/// The bytes `REQUEST`.
pub open spec fn request_tag() -> Seq<u8> {
    seq![0x52u8, 0x45u8, 0x51u8, 0x55u8, 0x45u8, 0x53u8, 0x54u8]
}

/// The bytes `hello`, the payload that clients send.
pub open spec fn hello() -> Seq<u8> {
    seq![0x68u8, 0x65u8, 0x6cu8, 0x6cu8, 0x6fu8]
}

fn poll_tag_bytes() -> (v: Vec<u8>)
    ensures
        v@ == poll_tag(),
{
    let v: Vec<u8> = vec![0x50u8, 0x4fu8, 0x4cu8, 0x4cu8];
    assert(v@ =~= poll_tag());
    v
}

fn request_tag_bytes() -> (v: Vec<u8>)
    ensures
        v@ == request_tag(),
{
    let v: Vec<u8> = vec![0x52u8, 0x45u8, 0x51u8, 0x55u8, 0x45u8, 0x53u8, 0x54u8];
    assert(v@ =~= request_tag());
    v
}

fn hello_bytes() -> (v: Vec<u8>)
    ensures
        v@ == hello(),
{
    let v: Vec<u8> = vec![0x68u8, 0x65u8, 0x6cu8, 0x6cu8, 0x6fu8];
    assert(v@ =~= hello());
    v
}

// ---------------------------------------------------------------------------
// Client to server.

/// A request as the server reads it.
#[derive(Debug, PartialEq, Eq)]
pub enum Request {
    /// A request with key zero: it has not been let through yet.
    UnauthorizedRequest(Vec<u8>),
    /// A request that carries a non-zero request key.
    AuthorizedRequest(u64, Vec<u8>),
    /// A question whether the poll ticket may leave the queue.
    Poll(u64),
}

/// The abstract value of a [`Request`].
pub enum RequestView {
    UnauthorizedRequest(Seq<u8>),
    AuthorizedRequest(u64, Seq<u8>),
    Poll(u64),
}

impl View for Request {
    type V = RequestView;

    open spec fn view(&self) -> RequestView {
        match self {
            Request::UnauthorizedRequest(m) => RequestView::UnauthorizedRequest(m@),
            Request::AuthorizedRequest(k, m) => RequestView::AuthorizedRequest(*k, m@),
            Request::Poll(k) => RequestView::Poll(*k),
        }
    }
}

/// A message too short to hold a key.
#[derive(Debug, Clone, Copy, PartialEq, Eq)]
pub struct InvalidRequest;

/// What the server reads from the buffer `buf` into which `read_len` bytes
/// were received: a poll when exactly twelve bytes came and the last four
/// are `POLL`; otherwise, when at least eight came, a request whose key is
/// the first eight bytes and whose payload is the rest of the buffer;
/// otherwise nothing.
pub open spec fn request_of(buf: Seq<u8>, read_len: nat) -> Result<RequestView, InvalidRequest> {
    if read_len == 12 && buf.subrange(8, 12) == poll_tag() {
        Ok(RequestView::Poll(be_value(buf.subrange(0, 8)) as u64))
    } else if read_len >= 8 {
        let key = be_value(buf.subrange(0, 8)) as u64;
        if key > 0 {
            Ok(RequestView::AuthorizedRequest(key, buf.subrange(8, BUFFER_LEN as int)))
        } else {
            Ok(RequestView::UnauthorizedRequest(buf.subrange(8, BUFFER_LEN as int)))
        }
    } else {
        Err(InvalidRequest)
    }
}

/// How the server reads a buffer: fewer than eight bytes are refused; a
/// poll is read only from exactly twelve bytes whose last four are `POLL`,
/// with the ticket in the first eight; any other message of at least eight
/// bytes is a request whose key is its first eight bytes (big-endian) and
/// whose payload is the rest of the buffer, with a key (authorized) exactly
/// when that key is not zero.
pub proof fn lemma_request_of_cases(buf: Seq<u8>, read_len: nat)
    requires
        buf.len() == BUFFER_LEN,
    ensures
        ({
            let key = be_value(buf.subrange(0, 8));
            let payload = buf.subrange(8, 32);
            let is_poll = read_len == 12 && buf[8] == 0x50 && buf[9] == 0x4f && buf[10] == 0x4c
                && buf[11] == 0x4c;
            let r = request_of(buf, read_len);
            &&& key < 0x1_0000_0000_0000_0000
            &&& r is Err <==> read_len < 8
            &&& (r matches Ok(RequestView::Poll(k)) ==> is_poll && k == key)
            &&& is_poll ==> r == Ok::<RequestView, InvalidRequest>(RequestView::Poll(key as u64))
            &&& (read_len >= 8 && !is_poll && key > 0) ==> r == Ok::<RequestView, InvalidRequest>(
                RequestView::AuthorizedRequest(key as u64, payload),
            )
            &&& (read_len >= 8 && !is_poll && key == 0) ==> r == Ok::<RequestView, InvalidRequest>(
                RequestView::UnauthorizedRequest(payload),
            )
        }),
{
    lemma_be_value_u64(buf.subrange(0, 8));
    let is_poll = read_len == 12 && buf[8] == 0x50 && buf[9] == 0x4f && buf[10] == 0x4c && buf[11]
        == 0x4c;
    if read_len == 12 {
        if is_poll {
            assert(buf.subrange(8, 12) =~= poll_tag());
        } else {
            assert(buf.subrange(8, 12) != poll_tag()) by {
                if buf.subrange(8, 12) == poll_tag() {
                    assert(buf.subrange(8, 12)[0] == buf[8]);
                    assert(buf.subrange(8, 12)[1] == buf[9]);
                    assert(buf.subrange(8, 12)[2] == buf[10]);
                    assert(buf.subrange(8, 12)[3] == buf[11]);
                }
            }
        }
    }
}

/// Reads a request out of the receive buffer `buf`, into which `read_len`
/// bytes were received.
pub fn parse_request(buf: &[u8; 32], read_len: usize) -> (r: Result<Request, InvalidRequest>)
    ensures
        match r {
            Ok(req) => request_of(buf@, read_len as nat) == Ok::<RequestView, InvalidRequest>(req@),
            Err(e) => request_of(buf@, read_len as nat) == Err::<RequestView, InvalidRequest>(e),
        },
{
    proof {
        lemma_be_value_u64(buf@.subrange(0, 8));
    }
    if read_len == 12 && bytes_match(buf, 8, &poll_tag_bytes()) {
        let poll_key = read_u64_be(buf, 0);
        Ok(Request::Poll(poll_key))
    } else if read_len >= 8 {
        let request_key = read_u64_be(buf, 0);
        if request_key > 0 {
            Ok(Request::AuthorizedRequest(request_key, copy_range(buf, 8, BUFFER_LEN)))
        } else {
            Ok(Request::UnauthorizedRequest(copy_range(buf, 8, BUFFER_LEN)))
        }
    } else {
        Err(InvalidRequest)
    }
}

proof fn lemma_be_value_u64(s: Seq<u8>)
    requires
        s.len() == 8,
    ensures
        be_value(s) < 0x1_0000_0000_0000_0000,
{
    crate::wire::lemma_be_value_bound(s);
    crate::wire::lemma_pow256_8();
}

/// The first request of a client: key zero and `hello`.
pub open spec fn init_request_msg() -> Seq<u8> {
    zeros(8) + hello()
}

/// A client's question whether its ticket may leave: the ticket and `POLL`.
pub open spec fn poll_request_msg(poll_key: u64) -> Seq<u8> {
    u64_be(poll_key) + poll_tag()
}

/// A client's request once it was let through: the request key and `hello`.
pub open spec fn authorized_request_msg(request_key: u64) -> Seq<u8> {
    u64_be(request_key) + hello()
}

/// Builds [`init_request_msg`].
pub fn encode_init_request() -> (v: Vec<u8>)
    ensures
        v@ == init_request_msg(),
{
    let mut v: Vec<u8> = Vec::new();
    push_u64_be(&mut v, 0);
    let mut h = hello_bytes();
    v.append(&mut h);
    proof {
        assert(u64_be(0) =~= zeros(8)) by {
            reveal_with_fuel(crate::wire::be_bytes, 9);
        }
        assert(v@ =~= init_request_msg());
    }
    v
}

/// Builds [`poll_request_msg`].
pub fn encode_poll_request(poll_key: u64) -> (v: Vec<u8>)
    ensures
        v@ == poll_request_msg(poll_key),
{
    let mut v: Vec<u8> = Vec::new();
    push_u64_be(&mut v, poll_key);
    let mut t = poll_tag_bytes();
    v.append(&mut t);
    assert(v@ =~= poll_request_msg(poll_key));
    v
}

/// Builds [`authorized_request_msg`].
pub fn encode_authorized_request(request_key: u64) -> (v: Vec<u8>)
    ensures
        v@ == authorized_request_msg(request_key),
{
    let mut v: Vec<u8> = Vec::new();
    push_u64_be(&mut v, request_key);
    let mut h = hello_bytes();
    v.append(&mut h);
    assert(v@ =~= authorized_request_msg(request_key));
    v
}

// ---------------------------------------------------------------------------
// Server to client.

/// A server answer as the client reads it.
#[derive(Debug, PartialEq, Eq)]
pub enum Response {
    /// The backend's answer.
    Pong(Vec<u8>),
    /// The request was queued under this poll ticket.
    StartPoll(u64),
    /// The ticket has to wait.
    KeepPolling,
    /// The ticket may leave; the request is let through with this key.
    RequestGranted(u64),
}

/// The abstract value of a [`Response`].
pub enum ResponseView {
    Pong(Seq<u8>),
    StartPoll(u64),
    KeepPolling,
    RequestGranted(u64),
}

impl View for Response {
    type V = ResponseView;

    open spec fn view(&self) -> ResponseView {
        match self {
            Response::Pong(m) => ResponseView::Pong(m@),
            Response::StartPoll(k) => ResponseView::StartPoll(*k),
            Response::KeepPolling => ResponseView::KeepPolling,
            Response::RequestGranted(k) => ResponseView::RequestGranted(*k),
        }
    }
}

/// What the client reads from the buffer `buf` into which `len` bytes were
/// received: `POLL` alone says keep polling, `POLL` and eight bytes give a
/// ticket, `REQUEST` and eight bytes give a request key, and anything else is
/// the backend's answer.
pub open spec fn response_of(buf: Seq<u8>, len: nat) -> ResponseView {
    if len == 4 && buf.subrange(0, 4) == poll_tag() {
        ResponseView::KeepPolling
    } else if len == 12 && buf.subrange(0, 4) == poll_tag() {
        ResponseView::StartPoll(be_value(buf.subrange(4, 12)) as u64)
    } else if len == 15 && buf.subrange(0, 7) == request_tag() {
        ResponseView::RequestGranted(be_value(buf.subrange(7, 15)) as u64)
    } else {
        ResponseView::Pong(buf.subrange(0, len as int))
    }
}

/// How the client reads a buffer: `POLL` alone is "keep polling"; exactly
/// twelve bytes starting with `POLL` carry a ticket in their last eight;
/// exactly fifteen starting with `REQUEST` carry a request key in their
/// last eight; anything else is the backend's answer, the received bytes
/// unchanged.
pub proof fn lemma_response_of_cases(buf: Seq<u8>, len: nat)
    requires
        buf.len() == BUFFER_LEN,
        len <= BUFFER_LEN,
    ensures
        ({
            let starts_poll = buf[0] == 0x50 && buf[1] == 0x4f && buf[2] == 0x4c && buf[3] == 0x4c;
            let starts_request = buf[0] == 0x52 && buf[1] == 0x45 && buf[2] == 0x51 && buf[3] == 0x55
                && buf[4] == 0x45 && buf[5] == 0x53 && buf[6] == 0x54;
            let r = response_of(buf, len);
            &&& (len == 4 && starts_poll) ==> r == ResponseView::KeepPolling
            &&& (len == 12 && starts_poll) ==> r == ResponseView::StartPoll(
                be_value(buf.subrange(4, 12)) as u64,
            )
            &&& (len == 15 && starts_request) ==> r == ResponseView::RequestGranted(
                be_value(buf.subrange(7, 15)) as u64,
            )
            &&& !((len == 4 || len == 12) && starts_poll) && !(len == 15 && starts_request) ==> r
                == ResponseView::Pong(buf.subrange(0, len as int))
            &&& be_value(buf.subrange(4, 12)) < 0x1_0000_0000_0000_0000
            &&& be_value(buf.subrange(7, 15)) < 0x1_0000_0000_0000_0000
        }),
{
    lemma_be_value_u64(buf.subrange(4, 12));
    lemma_be_value_u64(buf.subrange(7, 15));
    let p = buf.subrange(0, 4);
    let q = buf.subrange(0, 7);
    assert(p[0] == buf[0] && p[1] == buf[1] && p[2] == buf[2] && p[3] == buf[3]);
    assert(q[0] == buf[0] && q[1] == buf[1] && q[2] == buf[2] && q[3] == buf[3] && q[4] == buf[4]
        && q[5] == buf[5] && q[6] == buf[6]);
    if buf[0] == 0x50 && buf[1] == 0x4f && buf[2] == 0x4c && buf[3] == 0x4c {
        assert(p =~= poll_tag());
    }
    if buf[0] == 0x52 && buf[1] == 0x45 && buf[2] == 0x51 && buf[3] == 0x55 && buf[4] == 0x45
        && buf[5] == 0x53 && buf[6] == 0x54 {
        assert(q =~= request_tag());
    }
}

/// Reads a server answer out of the receive buffer `buf`, into which
/// `resp_len` bytes were received.
pub fn parse_response(buf: &[u8; 32], resp_len: usize) -> (r: Response)
    requires
        resp_len <= BUFFER_LEN,
    ensures
        r@ == response_of(buf@, resp_len as nat),
{
    proof {
        lemma_be_value_u64(buf@.subrange(4, 12));
        lemma_be_value_u64(buf@.subrange(7, 15));
    }
    let poll = poll_tag_bytes();
    if resp_len == 4 && bytes_match(buf, 0, &poll) {
        Response::KeepPolling
    } else if resp_len == 12 && bytes_match(buf, 0, &poll) {
        Response::StartPoll(read_u64_be(buf, 4))
    } else if resp_len == 15 && bytes_match(buf, 0, &request_tag_bytes()) {
        Response::RequestGranted(read_u64_be(buf, 7))
    } else {
        Response::Pong(copy_range(buf, 0, resp_len))
    }
}

/// The answer that queues a request: `POLL` and the ticket.
pub open spec fn poll_ticket_msg(poll_key: u64) -> Seq<u8> {
    poll_tag() + u64_be(poll_key)
}

/// The answer that lets a ticket leave: `REQUEST` and the request key.
pub open spec fn request_grant_msg(request_key: u64) -> Seq<u8> {
    request_tag() + u64_be(request_key)
}

/// The answer that makes a ticket wait: `POLL`.
pub open spec fn keep_polling_msg() -> Seq<u8> {
    poll_tag()
}

/// Builds [`poll_ticket_msg`].
pub fn encode_poll_ticket(poll_key: u64) -> (v: Vec<u8>)
    ensures
        v@ == poll_ticket_msg(poll_key),
{
    let mut v = poll_tag_bytes();
    push_u64_be(&mut v, poll_key);
    v
}

/// Builds [`request_grant_msg`].
pub fn encode_request_grant(request_key: u64) -> (v: Vec<u8>)
    ensures
        v@ == request_grant_msg(request_key),
{
    let mut v = request_tag_bytes();
    push_u64_be(&mut v, request_key);
    v
}

/// Builds [`keep_polling_msg`].
pub fn encode_keep_polling() -> (v: Vec<u8>)
    ensures
        v@ == keep_polling_msg(),
{
    poll_tag_bytes()
}

// ---------------------------------------------------------------------------
// What one side writes, the other side reads back.

proof fn lemma_received_prefix(m: Seq<u8>)
    requires
        m.len() <= BUFFER_LEN,
    ensures
        received(m).len() == BUFFER_LEN,
        received(m).subrange(0, m.len() as int) == m,
        received(m).subrange(m.len() as int, BUFFER_LEN as int) == zeros((BUFFER_LEN - m.len()) as nat),
{
    assert(received(m).subrange(0, m.len() as int) =~= m);
    assert(received(m).subrange(m.len() as int, BUFFER_LEN as int) =~= zeros(
        (BUFFER_LEN - m.len()) as nat,
    ));
}

proof fn lemma_zero_key()
    ensures
        u64_be(0) == zeros(8),
        be_value(zeros(8)) == 0,
{
    assert(u64_be(0) =~= zeros(8)) by {
        reveal_with_fuel(crate::wire::be_bytes, 9);
    }
    lemma_u64_be_round_trip(0);
}

/// A client's first request reaches the server as a request with key zero
/// whose payload is `hello` and the zeroed rest of the buffer.
pub proof fn lemma_init_request_round_trip()
    ensures
        init_request_msg().len() == 13,
        request_of(received(init_request_msg()), 13) == Ok::<RequestView, InvalidRequest>(
            RequestView::UnauthorizedRequest(hello() + zeros(19)),
        ),
{
    let m = init_request_msg();
    lemma_zero_key();
    lemma_received_prefix(m);
    let buf = received(m);
    assert(buf.subrange(0, 8) =~= zeros(8));
    assert(buf.subrange(8, BUFFER_LEN as int) =~= hello() + zeros(19));
}

/// A client's poll reaches the server as a poll of the same ticket.
pub proof fn lemma_poll_request_round_trip(poll_key: u64)
    ensures
        poll_request_msg(poll_key).len() == 12,
        request_of(received(poll_request_msg(poll_key)), 12) == Ok::<RequestView, InvalidRequest>(
            RequestView::Poll(poll_key),
        ),
{
    let m = poll_request_msg(poll_key);
    lemma_u64_be_round_trip(poll_key);
    lemma_received_prefix(m);
    let buf = received(m);
    assert(buf.subrange(0, 8) =~= u64_be(poll_key));
    assert(buf.subrange(8, 12) =~= poll_tag());
}

/// A request sent with a key reaches the server with that key and the
/// payload `hello` (and the zeroed rest of the buffer); with key zero it
/// counts as a request that was not let through.
pub proof fn lemma_authorized_request_round_trip(request_key: u64)
    ensures
        authorized_request_msg(request_key).len() == 13,
        request_key > 0 ==> request_of(received(authorized_request_msg(request_key)), 13) == Ok::<
            RequestView,
            InvalidRequest,
        >(RequestView::AuthorizedRequest(request_key, hello() + zeros(19))),
        request_key == 0 ==> request_of(received(authorized_request_msg(request_key)), 13) == Ok::<
            RequestView,
            InvalidRequest,
        >(RequestView::UnauthorizedRequest(hello() + zeros(19))),
{
    let m = authorized_request_msg(request_key);
    lemma_u64_be_round_trip(request_key);
    lemma_received_prefix(m);
    let buf = received(m);
    assert(buf.subrange(0, 8) =~= u64_be(request_key));
    assert(buf.subrange(8, BUFFER_LEN as int) =~= hello() + zeros(19));
}

/// A poll ticket sent by the server reaches the client as that ticket.
pub proof fn lemma_poll_ticket_round_trip(poll_key: u64)
    ensures
        poll_ticket_msg(poll_key).len() == 12,
        response_of(received(poll_ticket_msg(poll_key)), 12) == ResponseView::StartPoll(poll_key),
{
    let m = poll_ticket_msg(poll_key);
    lemma_u64_be_round_trip(poll_key);
    lemma_received_prefix(m);
    let buf = received(m);
    assert(buf.subrange(0, 4) =~= poll_tag());
    assert(buf.subrange(4, 12) =~= u64_be(poll_key));
}

/// The server's `POLL` reaches the client as "keep polling".
pub proof fn lemma_keep_polling_round_trip()
    ensures
        keep_polling_msg().len() == 4,
        response_of(received(keep_polling_msg()), 4) == ResponseView::KeepPolling,
{
    let m = keep_polling_msg();
    lemma_received_prefix(m);
    assert(received(m).subrange(0, 4) =~= poll_tag());
}

/// A grant sent by the server reaches the client with the same request key.
pub proof fn lemma_request_grant_round_trip(request_key: u64)
    ensures
        request_grant_msg(request_key).len() == 15,
        response_of(received(request_grant_msg(request_key)), 15) == ResponseView::RequestGranted(
            request_key,
        ),
{
    let m = request_grant_msg(request_key);
    lemma_u64_be_round_trip(request_key);
    lemma_received_prefix(m);
    let buf = received(m);
    assert(buf.subrange(0, 7) =~= request_tag());
    assert(buf.subrange(7, 15) =~= u64_be(request_key));
}

/// Whether the bytes `m` would be read as one of the server's own answers
/// rather than as the backend's.
pub open spec fn looks_like_control(m: Seq<u8>) -> bool {
    ||| (m.len() == 4 || m.len() == 12) && m.subrange(0, 4) == poll_tag()
    ||| m.len() == 15 && m.subrange(0, 7) == request_tag()
}

/// Any other answer of the backend reaches the client unchanged.
pub proof fn lemma_pong_round_trip(m: Seq<u8>)
    requires
        m.len() <= BUFFER_LEN,
        !looks_like_control(m),
    ensures
        response_of(received(m), m.len()) == ResponseView::Pong(m),
{
    lemma_received_prefix(m);
    let buf = received(m);
    if m.len() == 4 || m.len() == 12 {
        assert(buf.subrange(0, 4) =~= m.subrange(0, 4));
    }
    if m.len() == 15 {
        assert(buf.subrange(0, 7) =~= m.subrange(0, 7));
    }
}

} // verus!
