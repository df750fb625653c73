//! Statements about whole exchanges between a [`PollingClient`] and the
//! ticket queue: what the client sends, the server reads and decides, and
//! the client reads back and does.
//!
//! [`PollingClient`]: crate::polling_client::PollingClient
use vstd::prelude::*;
use crate::polling_client::ClientState;
use crate::protocol::{
    hello, keep_polling_msg, looks_like_control, poll_ticket_msg, request_grant_msg, request_of,
    response_of, InvalidRequest, RequestView, ResponseView, lemma_authorized_request_round_trip,
    lemma_init_request_round_trip, lemma_keep_polling_round_trip, lemma_poll_request_round_trip,
    lemma_poll_ticket_round_trip, lemma_pong_round_trip, lemma_request_grant_round_trip,
};
use crate::queue::{decide, ActionView, PollQueueView, RELEASED_REQUEST_KEY};
use crate::wire::{received, zeros, BUFFER_LEN};

verus! {

/// A client's first request is queued: the server reads it as a request
/// without a key, answers with the ticket that the queue hands out, and the
/// client, reading that answer, goes on to poll with that ticket.
pub proof fn lemma_first_request_is_queued(s: PollQueueView, increase: nat)
    requires
        s.throttle_fits(increase),
    ensures
        ({
            let sent = ClientState::Init.request_msg();
            let ticket = s.throttle(increase).1 as u64;
            let answer = poll_ticket_msg(ticket);
            let read_back = response_of(received(answer), answer.len());
            &&& request_of(received(sent), sent.len()) == Ok::<RequestView, InvalidRequest>(
                RequestView::UnauthorizedRequest(hello() + zeros(19)),
            )
            &&& decide(s, RequestView::UnauthorizedRequest(hello() + zeros(19)), increase).1
                == ActionView::Reply(answer)
            &&& ClientState::Init.expects(read_back)
            &&& ClientState::Init.next(Some(read_back)) == ClientState::Polling(ticket)
        }),
{
    lemma_init_request_round_trip();
    lemma_poll_ticket_round_trip(s.throttle(increase).1 as u64);
}

/// A poll is answered by whether the ticket was released: the server reads
/// the client's poll as a poll of its ticket; when the ticket may leave the
/// client is let through with [`RELEASED_REQUEST_KEY`], otherwise it keeps
/// polling with the same ticket.
pub proof fn lemma_poll_is_answered(s: PollQueueView, poll_key: u64, increase: nat)
    ensures
        ({
            let client = ClientState::Polling(poll_key);
            let sent = client.request_msg();
            let released = s.exit(poll_key as nat, increase).1;
            let answer = if released {
                request_grant_msg(RELEASED_REQUEST_KEY)
            } else {
                keep_polling_msg()
            };
            let read_back = response_of(received(answer), answer.len());
            &&& request_of(received(sent), sent.len()) == Ok::<RequestView, InvalidRequest>(
                RequestView::Poll(poll_key),
            )
            &&& decide(s, RequestView::Poll(poll_key), increase).1 == ActionView::Reply(answer)
            &&& client.expects(read_back)
            &&& client.next(Some(read_back)) == if released {
                ClientState::Authorized(RELEASED_REQUEST_KEY)
            } else {
                client
            }
        }),
{
    lemma_poll_request_round_trip(poll_key);
    lemma_request_grant_round_trip(RELEASED_REQUEST_KEY);
    lemma_keep_polling_round_trip();
}

/// A client that was let through reaches the backend: the server reads its
/// request with the key it got, forwards the payload without touching the
/// queue, and lowers the rate if the backend fails; an answer of the backend
/// that does not look like one of the server's own completes the client.
pub proof fn lemma_authorized_request_is_forwarded(
    s: PollQueueView,
    request_key: u64,
    increase: nat,
    backend_answer: Seq<u8>,
)
    requires
        request_key > 0,
        backend_answer.len() <= BUFFER_LEN,
        !looks_like_control(backend_answer),
    ensures
        ({
            let client = ClientState::Authorized(request_key);
            let sent = client.request_msg();
            let read_back = response_of(received(backend_answer), backend_answer.len());
            &&& request_of(received(sent), sent.len()) == Ok::<RequestView, InvalidRequest>(
                RequestView::AuthorizedRequest(request_key, hello() + zeros(19)),
            )
            &&& decide(s, RequestView::AuthorizedRequest(request_key, hello() + zeros(19)), increase)
                == (s, ActionView::Forward { msg: hello() + zeros(19), lower_rate_on_failure: true }, false)
            &&& client.expects(read_back)
            &&& client.next(Some(read_back)) == ClientState::Completed
        }),
{
    lemma_authorized_request_round_trip(request_key);
    lemma_pong_round_trip(backend_answer);
}

} // verus!
