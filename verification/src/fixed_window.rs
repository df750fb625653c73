//! A fixed window limiter: at most `limit` requests are allowed in each
//! clock second; the counter starts over when a later second begins.
use vstd::prelude::*;

verus! {

/// The abstract state of a [`FixedWindow`].
pub struct FixedWindowView {
    /// Requests allowed so far in the current window.
    pub counter: nat,
    /// Requests allowed per window.
    pub limit: nat,
    /// The clock second that the current window belongs to.
    pub last_second: nat,
}

impl FixedWindowView {
    /// The counter never passes the limit.
    pub open spec fn wf(self) -> bool {
        self.counter <= self.limit
    }

    /// One request at clock second `now`: the new state, and whether the
    /// request is allowed.
    pub open spec fn step(self, now: nat) -> (FixedWindowView, bool) {
        let base = if now > self.last_second {
            FixedWindowView { counter: 0, last_second: now, ..self }
        } else {
            self
        };
        if base.counter >= base.limit {
            (base, false)
        } else {
            (FixedWindowView { counter: base.counter + 1, ..base }, true)
        }
    }

    /// Requests at the clock seconds `times`, in order: the final state.
    pub open spec fn run(self, times: Seq<nat>) -> FixedWindowView
        decreases times.len(),
    {
        if times.len() == 0 {
            self
        } else {
            self.run(times.drop_last()).step(times.last()).0
        }
    }

    /// Of the requests at the clock seconds `times`, how many were allowed
    /// and counted in the window of clock second `w`.
    pub open spec fn allowed_in_window(self, times: Seq<nat>, w: nat) -> nat
        decreases times.len(),
    {
        if times.len() == 0 {
            0
        } else {
            let (last, ok) = self.run(times.drop_last()).step(times.last());
            self.allowed_in_window(times.drop_last(), w) + if ok && last.last_second == w {
                1nat
            } else {
                0nat
            }
        }
    }

    /// `n` requests, all at clock second `now`: the final state and how many
    /// of them were allowed.
    pub open spec fn run_at(self, now: nat, n: nat) -> (FixedWindowView, nat)
        decreases n,
    {
        if n == 0 {
            (self, 0)
        } else {
            let (mid, allowed) = self.run_at(now, (n - 1) as nat);
            let (last, ok) = mid.step(now);
            (last, if ok { allowed + 1 } else { allowed })
        }
    }
}

/// Counts the requests of the current clock second.
pub struct FixedWindow {
    counter: u64,
    limit: u64,
    last_second: u64,
}

impl View for FixedWindow {
    type V = FixedWindowView;

    closed spec fn view(&self) -> FixedWindowView {
        FixedWindowView {
            counter: self.counter as nat,
            limit: self.limit as nat,
            last_second: self.last_second as nat,
        }
    }
}

impl FixedWindow {
    #[verifier::type_invariant]
    spec fn inv(self) -> bool {
        self.counter <= self.limit
    }

    /// A limiter that allows `limit` requests per second, whose first window
    /// is the clock second `current_second` (seconds since the Unix epoch).
    pub fn new(limit: u64, current_second: u64) -> (w: Self)
        ensures
            w@ == (FixedWindowView { counter: 0, limit: limit as nat, last_second: current_second as nat }),
            w@.wf(),
    {
        FixedWindow { counter: 0, limit, last_second: current_second }
    }

    /// Decides a request that arrives at clock second `current_second`.
    /// A second later than the current window's starts a new window with a
    /// zero counter; the request is allowed when the counter is below the
    /// limit, and then counted.
    pub fn is_allow(&mut self, current_second: u64) -> (allowed: bool)
        ensures
            (final(self)@, allowed) == old(self)@.step(current_second as nat),
            old(self)@.wf(),
            final(self)@.wf(),
            final(self)@.limit == old(self)@.limit,
            final(self)@.last_second == if current_second > old(self)@.last_second {
                current_second as nat
            } else {
                old(self)@.last_second
            },
            allowed == if current_second > old(self)@.last_second {
                old(self)@.limit > 0
            } else {
                old(self)@.counter < old(self)@.limit
            },
            final(self)@.counter == (if current_second > old(self)@.last_second {
                0
            } else {
                old(self)@.counter
            }) + if allowed { 1nat } else { 0nat },
    {
        proof {
            use_type_invariant(&*self);
        }
        if current_second > self.last_second {
            self.last_second = current_second;
            self.counter = 0;
        }
        if self.counter >= self.limit {
            false
        } else {
            self.counter = self.counter + 1;
            true
        }
    }

    /// Requests allowed so far in the current window.
    pub fn counter(&self) -> (c: u64)
        ensures
            c == self@.counter,
    {
        self.counter
    }

    /// Requests allowed per window.
    pub fn limit(&self) -> (l: u64)
        ensures
            l == self@.limit,
    {
        self.limit
    }

    /// The clock second of the current window.
    pub fn last_second(&self) -> (s: u64)
        ensures
            s == self@.last_second,
    {
        self.last_second
    }
}

/// Within one clock second a limiter allows at most `limit` requests, however
/// many arrive and whatever its state before the first of them.
pub proof fn lemma_at_most_limit_per_second(v: FixedWindowView, now: nat, n: nat)
    requires
        v.wf(),
    ensures
        v.run_at(now, n).1 <= v.limit,
        v.run_at(now, n).0.wf(),
{
    lemma_run_at_counts(v, now, n);
}

/// One request: a second later than the window's starts a new window, which
/// lets the request in exactly when the limit is not zero; otherwise the
/// window stays and the request gets in exactly when the counter is below
/// the limit. An allowed request is counted, a refused one is not, and the
/// limit never changes.
pub proof fn lemma_step_counts_in_window(v: FixedWindowView, now: nat)
    requires
        v.wf(),
    ensures
        ({
            let (after, ok) = v.step(now);
            &&& after.limit == v.limit
            &&& after.wf()
            &&& after.last_second >= v.last_second && after.last_second >= now
            &&& (after.last_second == v.last_second || after.last_second == now)
            &&& now > v.last_second ==> (ok <==> v.limit > 0) && after.counter == if ok {
                1nat
            } else {
                0nat
            }
            &&& now <= v.last_second ==> (ok <==> v.counter < v.limit) && after.counter == v.counter
                + if ok {
                1nat
            } else {
                0nat
            }
        }),
{
}

/// Whatever the clock does, forwards or back, no window lets more than
/// `limit` requests through: over any run of requests, those allowed while
/// the window was that of clock second `w` number at most `limit`.
pub proof fn lemma_at_most_limit_per_window(v: FixedWindowView, times: Seq<nat>, w: nat)
    requires
        v.wf(),
    ensures
        v.allowed_in_window(times, w) <= v.limit,
{
    lemma_window_counts(v, times, w);
}

/// How the requests counted for window `w` relate to the state: none before
/// that window begins, at most the counter while it lasts.
proof fn lemma_window_counts(v: FixedWindowView, times: Seq<nat>, w: nat)
    requires
        v.wf(),
    ensures
        v.run(times).wf(),
        v.run(times).limit == v.limit,
        v.run(times).last_second >= v.last_second,
        v.run(times).last_second < w ==> v.allowed_in_window(times, w) == 0,
        v.run(times).last_second == w ==> v.allowed_in_window(times, w) <= v.run(times).counter,
        v.allowed_in_window(times, w) <= v.limit,
    decreases times.len(),
{
    if times.len() > 0 {
        lemma_window_counts(v, times.drop_last(), w);
    }
}

/// What a run of requests in one second does to the counter: in a later
/// second the counter holds exactly the requests allowed in it; otherwise it
/// grows by them.
proof fn lemma_run_at_counts(v: FixedWindowView, now: nat, n: nat)
    requires
        v.wf(),
    ensures
        ({
            let (s, allowed) = v.run_at(now, n);
            &&& s.wf()
            &&& s.limit == v.limit
            &&& (now > v.last_second && n > 0) ==> s.last_second == now && s.counter == allowed
            &&& now <= v.last_second ==> s.last_second == v.last_second && s.counter == v.counter
                + allowed
            &&& n == 0 ==> s == v && allowed == 0
        }),
    decreases n,
{
    if n > 0 {
        lemma_run_at_counts(v, now, (n - 1) as nat);
    }
}

} // verus!
