//! The ticket queue: a request that arrives without a key gets a poll ticket,
//! tickets are released in order at a rate, and a released ticket is let
//! through with a request key. When the backend fails on a let-through
//! request the release rate is lowered, at most once per clock second.
//!
//! The clock and the rate itself (a float) stay with the caller: it turns
//! the time since the last release into the number of tickets to release,
//! and it lowers the rate when [`RateLimiter::lower_rate`] says so.
use vstd::prelude::*;
use crate::protocol::{
    encode_keep_polling, encode_poll_ticket, encode_request_grant, keep_polling_msg,
    poll_ticket_msg, request_grant_msg, Request, RequestView,
};

verus! {

/// The request key that a released ticket receives.
pub const RELEASED_REQUEST_KEY: u64 = 0xdeadbeef;

/// Whether a request without a key has to queue.
#[derive(Debug, Clone, Copy, PartialEq, Eq, Structural)]
pub enum ShouldThrottle {
    No,
    /// It has to, under this poll ticket.
    Yes(u64),
}

/// Whether a ticket may leave the queue.
#[derive(Debug, Clone, Copy, PartialEq, Eq, Structural)]
pub enum CanExit {
    No,
    /// It may, with this request key.
    Yes(u64),
}

/// The abstract state of a [`RateLimiter`].
pub struct PollQueueView {
    /// The ticket that the next queued request gets, unless the released
    /// tickets have passed it.
    pub next_poll_key: nat,
    /// Every ticket up to this one may leave.
    pub releasable_poll_key: nat,
    /// The clock second of the last rate reduction.
    pub last_rate_reduce_second: nat,
}

/// One operation on the queue, for statements about runs of them.
pub enum QueueOp {
    /// [`RateLimiter::should_throttle`] with this many tickets to release.
    Throttle(nat),
    /// [`RateLimiter::can_exit`] of a ticket with this many to release.
    Exit(nat, nat),
    /// [`RateLimiter::lower_rate`] at a clock second.
    Lower(nat),
}

impl PollQueueView {
    /// `increase` more tickets released.
    pub open spec fn refresh(self, increase: nat) -> PollQueueView {
        PollQueueView { releasable_poll_key: self.releasable_poll_key + increase, ..self }
    }

    /// A request queues: tickets are released first, then it gets the next
    /// ticket, or the last released one when those have passed it.
    pub open spec fn throttle(self, increase: nat) -> (PollQueueView, nat) {
        let r = self.refresh(increase);
        let key = if r.next_poll_key < r.releasable_poll_key {
            r.releasable_poll_key
        } else {
            r.next_poll_key
        };
        (PollQueueView { next_poll_key: key + 1, ..r }, key)
    }

    /// A ticket asks to leave: tickets are released first, then it may leave
    /// when it is among them.
    pub open spec fn exit(self, poll_key: nat, increase: nat) -> (PollQueueView, bool) {
        let r = self.refresh(increase);
        (r, poll_key <= r.releasable_poll_key)
    }

    /// A rate reduction at clock second `now`: refused in a second that is
    /// not later than the last reduction's.
    pub open spec fn lower(self, now: nat) -> (PollQueueView, bool) {
        if now <= self.last_rate_reduce_second {
            (self, false)
        } else {
            (PollQueueView { last_rate_reduce_second: now, ..self }, true)
        }
    }

    /// The state after one operation.
    pub open spec fn apply(self, op: QueueOp) -> PollQueueView {
        match op {
            QueueOp::Throttle(increase) => self.throttle(increase).0,
            QueueOp::Exit(poll_key, increase) => self.exit(poll_key, increase).0,
            QueueOp::Lower(now) => self.lower(now).0,
        }
    }

    /// The state after a run of operations.
    pub open spec fn run(self, ops: Seq<QueueOp>) -> PollQueueView
        decreases ops.len(),
    {
        if ops.len() == 0 {
            self
        } else {
            self.run(ops.drop_last()).apply(ops.last())
        }
    }

    /// Releasing `increase` tickets keeps the keys within `u64`.
    pub open spec fn refresh_fits(self, increase: nat) -> bool {
        self.releasable_poll_key + increase <= u64::MAX
    }

    /// Queueing a request with `increase` tickets to release keeps the keys
    /// within `u64`.
    pub open spec fn throttle_fits(self, increase: nat) -> bool {
        &&& self.refresh_fits(increase)
        &&& self.throttle(increase).1 + 1 <= u64::MAX
    }
}

/// The state of the ticket queue.
pub struct RateLimiter {
    next_poll_key: u64,
    releasable_poll_key: u64,
    last_rate_reduce_second: u64,
}

impl View for RateLimiter {
    type V = PollQueueView;

    closed spec fn view(&self) -> PollQueueView {
        PollQueueView {
            next_poll_key: self.next_poll_key as nat,
            releasable_poll_key: self.releasable_poll_key as nat,
            last_rate_reduce_second: self.last_rate_reduce_second as nat,
        }
    }
}

impl RateLimiter {
    /// An empty queue; `current_second` is the clock second (since the Unix
    /// epoch) at which it starts.
    pub fn new(current_second: u64) -> (rl: Self)
        ensures
            rl@ == (PollQueueView {
                next_poll_key: 0,
                releasable_poll_key: 0,
                last_rate_reduce_second: current_second as nat,
            }),
    {
        RateLimiter { next_poll_key: 0, releasable_poll_key: 0, last_rate_reduce_second: current_second }
    }

    /// Releases `increase` more tickets (what the rate gives for the time
    /// since the last release). Returns whether any were released, in which
    /// case the caller starts timing the next release from now.
    pub fn refresh_poll_release_key(&mut self, increase: u64) -> (restart_clock: bool)
        requires
            old(self)@.refresh_fits(increase as nat),
        ensures
            final(self)@ == old(self)@.refresh(increase as nat),
            restart_clock == (increase > 0),
    {
        self.releasable_poll_key = self.releasable_poll_key + increase;
        increase > 0
    }

    /// A request without a key arrives, with `increase` tickets to release:
    /// it always queues, under the ticket that [`PollQueueView::throttle`]
    /// gives.
    pub fn should_throttle(&mut self, increase: u64) -> (s: ShouldThrottle)
        requires
            old(self)@.throttle_fits(increase as nat),
        ensures
            s == ShouldThrottle::Yes(old(self)@.throttle(increase as nat).1 as u64),
            final(self)@ == old(self)@.throttle(increase as nat).0,
    {
        self.refresh_poll_release_key(increase);
        if self.next_poll_key < self.releasable_poll_key {
            self.next_poll_key = self.releasable_poll_key;
        }
        self.next_poll_key = self.next_poll_key + 1;
        ShouldThrottle::Yes(self.next_poll_key - 1)
    }

    /// The ticket `poll_key` asks to leave, with `increase` tickets to
    /// release: it may when it is among the released ones, and then gets
    /// [`RELEASED_REQUEST_KEY`].
    pub fn can_exit(&mut self, poll_key: u64, increase: u64) -> (c: CanExit)
        requires
            old(self)@.refresh_fits(increase as nat),
        ensures
            final(self)@ == old(self)@.exit(poll_key as nat, increase as nat).0,
            c == if old(self)@.exit(poll_key as nat, increase as nat).1 {
                CanExit::Yes(RELEASED_REQUEST_KEY)
            } else {
                CanExit::No
            },
    {
        self.refresh_poll_release_key(increase);
        if poll_key <= self.releasable_poll_key {
            CanExit::Yes(RELEASED_REQUEST_KEY)
        } else {
            CanExit::No
        }
    }

    /// Whether a request key may be used: every key is accepted.
    pub fn valid_request_key(&self, request_key: u64) -> (valid: bool)
        ensures
            valid,
    {
        true
    }

    /// The backend failed at clock second `current_second`: returns whether
    /// the rate is to be lowered, which is refused when a reduction already
    /// happened in this second or a later one.
    pub fn lower_rate(&mut self, current_second: u64) -> (lowered: bool)
        ensures
            (final(self)@, lowered) == old(self)@.lower(current_second as nat),
    {
        if current_second <= self.last_rate_reduce_second {
            return false;
        }
        self.last_rate_reduce_second = current_second;
        true
    }

    /// Whether [`handle_request`] can take `request` with `increase` tickets
    /// to release without a key passing `u64::MAX`.
    pub fn can_handle(&self, request: &Request, increase: u64) -> (ok: bool)
        ensures
            ok == can_handle_spec(self@, request@, increase as nat),
    {
        let room = u64::MAX - self.releasable_poll_key;
        match request {
            Request::UnauthorizedRequest(_) => {
                if increase > room {
                    false
                } else {
                    let released = self.releasable_poll_key + increase;
                    let key = if self.next_poll_key < released {
                        released
                    } else {
                        self.next_poll_key
                    };
                    key < u64::MAX
                }
            },
            Request::AuthorizedRequest(_, _) => true,
            Request::Poll(_) => increase <= room,
        }
    }

    /// The next ticket, unless the released ones have passed it.
    pub fn next_poll_key(&self) -> (k: u64)
        ensures
            k == self@.next_poll_key,
    {
        self.next_poll_key
    }

    /// Every ticket up to this one may leave.
    pub fn releasable_poll_key(&self) -> (k: u64)
        ensures
            k == self@.releasable_poll_key,
    {
        self.releasable_poll_key
    }

    /// The clock second of the last rate reduction.
    pub fn last_rate_reduce_second(&self) -> (s: u64)
        ensures
            s == self@.last_rate_reduce_second,
    {
        self.last_rate_reduce_second
    }
}

/// No operation moves the next ticket, the released tickets or the second of
/// the last rate reduction back.
pub proof fn lemma_queue_never_goes_back(s: PollQueueView, ops: Seq<QueueOp>)
    ensures
        s.run(ops).next_poll_key >= s.next_poll_key,
        s.run(ops).releasable_poll_key >= s.releasable_poll_key,
        s.run(ops).last_rate_reduce_second >= s.last_rate_reduce_second,
    decreases ops.len(),
{
    if ops.len() > 0 {
        lemma_queue_never_goes_back(s, ops.drop_last());
    }
}

/// The ticket handed to a queued request is the larger of the next ticket
/// and the last released one (after this call's release), so it is never
/// below a ticket that was already released; the next ticket then follows
/// it, and the release is kept.
pub proof fn lemma_ticket_is_max_of_next_and_released(s: PollQueueView, increase: nat)
    ensures
        ({
            let (after, ticket) = s.throttle(increase);
            let released = s.releasable_poll_key + increase;
            &&& ticket >= s.next_poll_key
            &&& ticket >= released
            &&& ticket == s.next_poll_key || ticket == released
            &&& after.next_poll_key == ticket + 1
            &&& after.releasable_poll_key == released
            &&& after.last_rate_reduce_second == s.last_rate_reduce_second
        }),
{
}

/// A poll releases `increase` more tickets for good and is let out exactly
/// when its ticket is at or below the released ones; nothing else changes.
pub proof fn lemma_exit_keeps_release(s: PollQueueView, poll_key: nat, increase: nat)
    ensures
        ({
            let (after, ok) = s.exit(poll_key, increase);
            &&& after.releasable_poll_key == s.releasable_poll_key + increase
            &&& after.next_poll_key == s.next_poll_key
            &&& after.last_rate_reduce_second == s.last_rate_reduce_second
            &&& ok <==> poll_key <= s.releasable_poll_key + increase
        }),
{
}

/// A rate reduction happens exactly in a second later than the last one,
/// and then remembers that second; a refused one changes nothing. The
/// tickets are never touched.
pub proof fn lemma_lower_once_per_second(s: PollQueueView, now: nat)
    ensures
        ({
            let (after, lowered) = s.lower(now);
            &&& lowered <==> now > s.last_rate_reduce_second
            &&& lowered ==> after.last_rate_reduce_second == now
            &&& !lowered ==> after == s
            &&& after.next_poll_key == s.next_poll_key
            &&& after.releasable_poll_key == s.releasable_poll_key
        }),
{
}

/// A ticket is handed out once: whatever happens in between, every later
/// ticket is larger.
pub proof fn lemma_tickets_are_unique(
    s: PollQueueView,
    increase: nat,
    ops: Seq<QueueOp>,
    later_increase: nat,
)
    ensures
        ({
            let (after, ticket) = s.throttle(increase);
            ticket < after.run(ops).throttle(later_increase).1
        }),
{
    lemma_queue_never_goes_back(s.throttle(increase).0, ops);
}

/// Once a ticket may leave the queue it may always leave.
pub proof fn lemma_release_is_permanent(
    s: PollQueueView,
    poll_key: nat,
    increase: nat,
    ops: Seq<QueueOp>,
    later_increase: nat,
)
    requires
        s.exit(poll_key, increase).1,
    ensures
        s.exit(poll_key, increase).0.run(ops).exit(poll_key, later_increase).1,
{
    lemma_queue_never_goes_back(s.exit(poll_key, increase).0, ops);
}

/// Tickets leave in order: when a ticket may leave, so may every earlier
/// one.
pub proof fn lemma_release_in_ticket_order(
    s: PollQueueView,
    earlier: nat,
    later: nat,
    increase: nat,
)
    requires
        earlier <= later,
        s.exit(later, increase).1,
    ensures
        s.exit(earlier, increase).1,
{
}

/// The rate is lowered at most once per clock second: after a reduction,
/// whatever happens, a reduction at the same or an earlier second is
/// refused.
pub proof fn lemma_one_reduction_per_second(
    s: PollQueueView,
    now: nat,
    ops: Seq<QueueOp>,
    later: nat,
)
    requires
        s.lower(now).1,
        later <= now,
    ensures
        !s.lower(now).0.run(ops).lower(later).1,
{
    lemma_queue_never_goes_back(s.lower(now).0, ops);
}

/// What the server does for a request.
pub enum Action {
    /// Write these bytes back to the client.
    Reply(Vec<u8>),
    /// Send `msg` to the backend and write its answer back to the client;
    /// when the backend fails and `lower_rate_on_failure` holds, call
    /// [`RateLimiter::lower_rate`].
    Forward { msg: Vec<u8>, lower_rate_on_failure: bool },
}

/// The abstract value of an [`Action`].
pub enum ActionView {
    Reply(Seq<u8>),
    Forward { msg: Seq<u8>, lower_rate_on_failure: bool },
}

impl View for Action {
    type V = ActionView;

    open spec fn view(&self) -> ActionView {
        match self {
            Action::Reply(b) => ActionView::Reply(b@),
            Action::Forward { msg, lower_rate_on_failure } => ActionView::Forward {
                msg: msg@,
                lower_rate_on_failure: *lower_rate_on_failure,
            },
        }
    }
}

/// The server's decision on one request.
pub struct Decision {
    pub action: Action,
    /// Tickets were released: time the next release from now.
    pub restart_clock: bool,
}

/// No key passes `u64::MAX` while the request is handled.
pub open spec fn can_handle_spec(s: PollQueueView, request: RequestView, increase: nat) -> bool {
    match request {
        RequestView::UnauthorizedRequest(_) => s.throttle_fits(increase),
        RequestView::AuthorizedRequest(_, _) => true,
        RequestView::Poll(_) => s.refresh_fits(increase),
    }
}

/// The server's policy: a request without a key is queued and told its
/// ticket; a request with a key goes to the backend, and a failure there
/// lowers the rate; a poll is told to leave with [`RELEASED_REQUEST_KEY`]
/// when its ticket was released, and to keep polling otherwise. Gives the
/// new queue state, the action and whether the release clock restarts.
pub open spec fn decide(s: PollQueueView, request: RequestView, increase: nat) -> (
    PollQueueView,
    ActionView,
    bool,
) {
    match request {
        RequestView::UnauthorizedRequest(_) => {
            let (s2, key) = s.throttle(increase);
            (s2, ActionView::Reply(poll_ticket_msg(key as u64)), increase > 0)
        },
        RequestView::AuthorizedRequest(_, msg) => (
            s,
            ActionView::Forward { msg, lower_rate_on_failure: true },
            false,
        ),
        RequestView::Poll(poll_key) => {
            let (s2, ok) = s.exit(poll_key as nat, increase);
            (
                s2,
                ActionView::Reply(
                    if ok {
                        request_grant_msg(RELEASED_REQUEST_KEY)
                    } else {
                        keep_polling_msg()
                    },
                ),
                increase > 0,
            )
        },
    }
}

/// What the server does with each kind of request, in terms of the queue:
/// a request without a key gets the ticket that [`PollQueueView::throttle`]
/// hands out, and the queue keeps the release and moves past the ticket; a
/// request with a key is forwarded, with the rate lowered on failure, and
/// the queue is untouched; a poll keeps this call's release, is granted
/// [`RELEASED_REQUEST_KEY`] exactly when its ticket is at or below the
/// released ones and is told to keep polling otherwise. The release clock
/// restarts exactly when tickets were released.
pub proof fn lemma_decide_per_request(s: PollQueueView, request: RequestView, increase: nat)
    ensures
        ({
            let (after, action, restart) = decide(s, request, increase);
            let released = s.releasable_poll_key + increase;
            match request {
                RequestView::UnauthorizedRequest(_) => {
                    let ticket = s.throttle(increase).1;
                    &&& action == ActionView::Reply(poll_ticket_msg(ticket as u64))
                    &&& ticket >= s.next_poll_key && ticket >= released
                    &&& after.next_poll_key == ticket + 1
                    &&& after.releasable_poll_key == released
                    &&& after.last_rate_reduce_second == s.last_rate_reduce_second
                    &&& restart == (increase > 0)
                },
                RequestView::AuthorizedRequest(_, msg) => {
                    &&& after == s
                    &&& action == ActionView::Forward { msg, lower_rate_on_failure: true }
                    &&& !restart
                },
                RequestView::Poll(poll_key) => {
                    &&& after.releasable_poll_key == released
                    &&& after.next_poll_key == s.next_poll_key
                    &&& after.last_rate_reduce_second == s.last_rate_reduce_second
                    &&& poll_key <= released ==> action == ActionView::Reply(
                        request_grant_msg(RELEASED_REQUEST_KEY),
                    )
                    &&& poll_key > released ==> action == ActionView::Reply(keep_polling_msg())
                    &&& restart == (increase > 0)
                },
            }
        }),
{
}

/// The server can take a request exactly when handling it keeps every key
/// within `u64`: a request without a key needs room for the release and for
/// the ticket after the one it gets; a poll needs room for the release; a
/// request with a key touches no key.
pub proof fn lemma_can_handle_exactly_when_keys_fit(
    s: PollQueueView,
    request: RequestView,
    increase: nat,
)
    ensures
        ({
            let released = s.releasable_poll_key + increase;
            let ticket = if s.next_poll_key > released {
                s.next_poll_key
            } else {
                released
            };
            match request {
                RequestView::UnauthorizedRequest(_) => can_handle_spec(s, request, increase) <==> (
                released <= u64::MAX && ticket < u64::MAX),
                RequestView::AuthorizedRequest(_, _) => can_handle_spec(s, request, increase),
                RequestView::Poll(_) => can_handle_spec(s, request, increase) <==> released
                    <= u64::MAX,
            }
        }),
{
}

/// Released tickets are never lost while requests are handled: after any
/// request the released tickets are at least those before, and a ticket at
/// or below them is granted when it polls later.
pub proof fn lemma_handling_keeps_release(
    s: PollQueueView,
    request: RequestView,
    increase: nat,
    poll_key: u64,
    later_increase: nat,
)
    requires
        poll_key <= s.releasable_poll_key,
    ensures
        decide(s, request, increase).0.releasable_poll_key >= s.releasable_poll_key,
        decide(decide(s, request, increase).0, RequestView::Poll(poll_key), later_increase).1
            == ActionView::Reply(request_grant_msg(RELEASED_REQUEST_KEY)),
{
}

/// Decides what the server does with `request`, where `increase` is the
/// number of tickets that the rate releases for the time since the last
/// release.
pub fn handle_request(rate_limiter: &mut RateLimiter, request: Request, increase: u64) -> (d:
    Decision)
    requires
        can_handle_spec(old(rate_limiter)@, request@, increase as nat),
    ensures
        (final(rate_limiter)@, d.action@, d.restart_clock) == decide(
            old(rate_limiter)@,
            request@,
            increase as nat,
        ),
{
    match request {
        Request::UnauthorizedRequest(msg) => {
            let should_throttle = rate_limiter.should_throttle(increase);
            match should_throttle {
                ShouldThrottle::Yes(poll_key) => Decision {
                    action: Action::Reply(encode_poll_ticket(poll_key)),
                    restart_clock: increase > 0,
                },
                ShouldThrottle::No => Decision {
                    action: Action::Forward { msg, lower_rate_on_failure: false },
                    restart_clock: increase > 0,
                },
            }
        },
        Request::AuthorizedRequest(request_key, msg) => {
            let valid = rate_limiter.valid_request_key(request_key);
            assert(valid);
            Decision {
                action: Action::Forward { msg, lower_rate_on_failure: true },
                restart_clock: false,
            }
        },
        Request::Poll(poll_key) => {
            let can_exit = rate_limiter.can_exit(poll_key, increase);
            match can_exit {
                CanExit::Yes(request_key) => Decision {
                    action: Action::Reply(encode_request_grant(request_key)),
                    restart_clock: increase > 0,
                },
                CanExit::No => Decision {
                    action: Action::Reply(encode_keep_polling()),
                    restart_clock: increase > 0,
                },
            }
        },
    }
}

} // verus!
