//! A client of the ticket queue: it sends its request, polls with the ticket
//! it is given until the ticket is released, then sends the request again
//! with the request key it got.
//!
//! Each attempt is one exchange: [`PollingClient::next_request`] says what
//! to send, the caller sends it and reads the answer, and
//! [`PollingClient::on_response`] takes the answer (or the failure to get
//! one).
use vstd::prelude::*;
use crate::protocol::{
    authorized_request_msg, encode_authorized_request, encode_init_request, encode_poll_request,
    init_request_msg, poll_request_msg, Response, ResponseView,
};

verus! {

/// Where a client is in its exchange with the queue.
#[derive(Debug, Clone, Copy, PartialEq, Eq, Structural)]
pub enum ClientState {
    /// Nothing sent yet.
    Init,
    /// Queued under this poll ticket.
    Polling(u64),
    /// Let through with this request key.
    Authorized(u64),
    /// The backend answered.
    Completed,
    /// An exchange failed.
    Failed,
}

impl ClientState {
    /// A client in this state still makes attempts.
    pub open spec fn is_active(self) -> bool {
        ||| self is Init
        ||| self is Polling
        ||| self is Authorized
    }

    /// How far the exchange has come.
    pub open spec fn stage(self) -> nat {
        match self {
            ClientState::Init => 0,
            ClientState::Polling(_) => 1,
            ClientState::Authorized(_) => 2,
            ClientState::Completed => 3,
            ClientState::Failed => 3,
        }
    }

    /// The bytes that a client in this state sends.
    pub open spec fn request_msg(self) -> Seq<u8> {
        match self {
            ClientState::Init => init_request_msg(),
            ClientState::Polling(poll_key) => poll_request_msg(poll_key),
            ClientState::Authorized(request_key) => authorized_request_msg(request_key),
            _ => Seq::empty(),
        }
    }

    /// The answers that a client in this state can take: the backend's
    /// answer or a ticket at first, "keep polling" or a grant while polling,
    /// the backend's answer once let through.
    pub open spec fn expects(self, response: ResponseView) -> bool {
        match self {
            ClientState::Init => response is Pong || response is StartPoll,
            ClientState::Polling(_) => response is KeepPolling || response is RequestGranted,
            ClientState::Authorized(_) => response is Pong,
            _ => false,
        }
    }

    /// The state after an attempt that got `response` (`None`: the exchange
    /// failed).
    pub open spec fn next(self, response: Option<ResponseView>) -> ClientState {
        match response {
            None => ClientState::Failed,
            Some(r) => match (self, r) {
                (ClientState::Init, ResponseView::Pong(_)) => ClientState::Completed,
                (ClientState::Init, ResponseView::StartPoll(poll_key)) => ClientState::Polling(
                    poll_key,
                ),
                (ClientState::Polling(_), ResponseView::RequestGranted(request_key)) => {
                    ClientState::Authorized(request_key)
                },
                (ClientState::Authorized(_), ResponseView::Pong(_)) => ClientState::Completed,
                _ => self,
            },
        }
    }
}

/// The abstract value of an optional answer.
pub open spec fn response_view(response: Option<Response>) -> Option<ResponseView> {
    match response {
        Some(r) => Some(r@),
        None => None,
    }
}

/// A client of the ticket queue.
pub struct PollingClient {
    pub state: ClientState,
}

impl PollingClient {
    /// A client that has sent nothing yet.
    pub fn new() -> (c: Self)
        ensures
            c.state == ClientState::Init,
    {
        PollingClient { state: ClientState::Init }
    }

    /// The bytes to send in the next attempt. A finished client makes no
    /// more attempts.
    pub fn next_request(&self) -> (msg: Vec<u8>)
        requires
            self.state.is_active(),
        ensures
            msg@ == self.state.request_msg(),
    {
        match self.state {
            ClientState::Init => encode_init_request(),
            ClientState::Polling(poll_key) => encode_poll_request(poll_key),
            ClientState::Authorized(request_key) => encode_authorized_request(request_key),
            _ => Vec::new(),
        }
    }

    /// Whether the client can take `response` in its state.
    pub fn expects(&self, response: &Response) -> (ok: bool)
        ensures
            ok == self.state.expects(response@),
    {
        match (self.state, response) {
            (ClientState::Init, Response::Pong(_)) => true,
            (ClientState::Init, Response::StartPoll(_)) => true,
            (ClientState::Polling(_), Response::KeepPolling) => true,
            (ClientState::Polling(_), Response::RequestGranted(_)) => true,
            (ClientState::Authorized(_), Response::Pong(_)) => true,
            _ => false,
        }
    }

    /// Ends an attempt: `response` is the server's answer, or `None` when
    /// sending or reading failed.
    pub fn on_response(&mut self, response: Option<Response>)
        requires
            old(self).state.is_active(),
            response matches Some(r) ==> old(self).state.expects(r@),
        ensures
            final(self).state == old(self).state.next(response_view(response)),
    {
        match response {
            None => {
                self.state = ClientState::Failed;
            },
            Some(r) => match (self.state, r) {
                (ClientState::Init, Response::Pong(_)) => {
                    self.state = ClientState::Completed;
                },
                (ClientState::Init, Response::StartPoll(poll_key)) => {
                    self.state = ClientState::Polling(poll_key);
                },
                (ClientState::Polling(_), Response::RequestGranted(request_key)) => {
                    self.state = ClientState::Authorized(request_key);
                },
                (ClientState::Authorized(_), Response::Pong(_)) => {
                    self.state = ClientState::Completed;
                },
                _ => {},
            },
        }
    }

    /// Whether the client has finished, one way or the other.
    pub fn is_finished(&self) -> (done: bool)
        ensures
            done == !self.state.is_active(),
    {
        match self.state {
            ClientState::Completed | ClientState::Failed => true,
            _ => false,
        }
    }
}

/// What each answer does to a client: a failed exchange fails it; the
/// backend's answer completes a client at its first request or one that was
/// let through; a ticket makes a fresh client poll with that ticket; "keep
/// polling" keeps a polling client on its ticket; a grant lets a polling
/// client through with the granted key.
pub proof fn lemma_client_transitions(
    state: ClientState,
    key: u64,
    msg: Seq<u8>,
)
    ensures
        state.next(None) == ClientState::Failed,
        ClientState::Init.next(Some(ResponseView::Pong(msg))) == ClientState::Completed,
        ClientState::Init.next(Some(ResponseView::StartPoll(key))) == ClientState::Polling(key),
        ClientState::Polling(key).next(Some(ResponseView::KeepPolling)) == ClientState::Polling(key),
        state is Polling ==> state.next(Some(ResponseView::RequestGranted(key)))
            == ClientState::Authorized(key),
        state is Authorized ==> state.next(Some(ResponseView::Pong(msg))) == ClientState::Completed,
        ClientState::Init.expects(ResponseView::Pong(msg)) && ClientState::Init.expects(
            ResponseView::StartPoll(key),
        ),
        !ClientState::Init.expects(ResponseView::KeepPolling) && !ClientState::Init.expects(
            ResponseView::RequestGranted(key),
        ),
        state is Polling ==> state.expects(ResponseView::KeepPolling) && state.expects(
            ResponseView::RequestGranted(key),
        ) && !state.expects(ResponseView::Pong(msg)) && !state.expects(ResponseView::StartPoll(key)),
        state is Authorized ==> state.expects(ResponseView::Pong(msg)) && !state.expects(
            ResponseView::KeepPolling,
        ) && !state.expects(ResponseView::StartPoll(key)) && !state.expects(
            ResponseView::RequestGranted(key),
        ),
        !state.is_active() ==> !state.expects(ResponseView::Pong(msg)),
{
}

/// A client only moves forward: from the first request to polling, to being
/// let through, to an end; and an attempt from an active state that was
/// answered as expected or failed ends in a state no earlier.
pub proof fn lemma_client_moves_forward(state: ClientState, response: Option<ResponseView>)
    requires
        state.is_active(),
        response matches Some(r) ==> state.expects(r),
    ensures
        state.next(response).stage() >= state.stage(),
        response is None ==> state.next(response) == ClientState::Failed,
        state.next(response).stage() == state.stage() ==> state.next(response) == state,
{
}

} // verus!
