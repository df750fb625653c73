//! A token bucket: the bucket holds up to `limit` tokens, refills at a rate,
//! and a request of size `req` is allowed when the bucket holds at least
//! `req` tokens, which it then takes.
//!
//! The clock and the rate (a float) stay with the caller, which turns the
//! time since the last refill into the number of new tokens.
use vstd::prelude::*;

verus! {

/// The abstract state of a [`RateLimiter`].
pub struct TokenBucketView {
    /// Tokens in the bucket.
    pub bucket: nat,
    /// Tokens that the bucket holds at most.
    pub limit: nat,
}

impl TokenBucketView {
    /// The bucket never holds more than its limit.
    pub open spec fn wf(self) -> bool {
        self.bucket <= self.limit
    }

    /// The tokens after a refill of `new_tokens`: the bucket fills up to its
    /// limit and the rest is lost.
    pub open spec fn refilled(self, new_tokens: nat) -> nat {
        if self.bucket + new_tokens > self.limit {
            self.limit
        } else {
            self.bucket + new_tokens
        }
    }

    /// A refill of `new_tokens`, then a request of size `req`: the new state
    /// and whether the request is allowed.
    pub open spec fn step(self, new_tokens: nat, req: nat) -> (TokenBucketView, bool) {
        let filled = self.refilled(new_tokens);
        if filled >= req {
            (TokenBucketView { bucket: (filled - req) as nat, ..self }, true)
        } else {
            (TokenBucketView { bucket: filled, ..self }, false)
        }
    }

    /// A run of (new tokens, request size) steps: the final state and the
    /// total size of the allowed requests.
    pub open spec fn run(self, steps: Seq<(nat, nat)>) -> (TokenBucketView, nat)
        decreases steps.len(),
    {
        if steps.len() == 0 {
            (self, 0)
        } else {
            let (mid, taken) = self.run(steps.drop_last());
            let (last, ok) = mid.step(steps.last().0, steps.last().1);
            (last, if ok { taken + steps.last().1 } else { taken })
        }
    }
}

/// The tokens that a run of steps brings in.
pub open spec fn total_new_tokens(steps: Seq<(nat, nat)>) -> nat
    decreases steps.len(),
{
    if steps.len() == 0 {
        0
    } else {
        total_new_tokens(steps.drop_last()) + steps.last().0
    }
}

/// A token bucket.
pub struct RateLimiter {
    bucket: u64,
    limit: u64,
}

impl View for RateLimiter {
    type V = TokenBucketView;

    closed spec fn view(&self) -> TokenBucketView {
        TokenBucketView { bucket: self.bucket as nat, limit: self.limit as nat }
    }
}

impl RateLimiter {
    #[verifier::type_invariant]
    spec fn inv(self) -> bool {
        self.bucket <= self.limit
    }

    /// A full bucket of `limit` tokens.
    pub fn new(limit: u64) -> (rl: Self)
        ensures
            rl@ == (TokenBucketView { bucket: limit as nat, limit: limit as nat }),
            rl@.wf(),
    {
        RateLimiter { bucket: limit, limit }
    }

    /// Refills the bucket with `new_tokens` (up to its limit), then decides
    /// a request of size `req`: it is allowed when the bucket holds at least
    /// `req` tokens, and then they are taken.
    pub fn is_allow(&mut self, new_tokens: u64, req: u64) -> (allowed: bool)
        ensures
            (final(self)@, allowed) == old(self)@.step(new_tokens as nat, req as nat),
            old(self)@.wf(),
            final(self)@.wf(),
            final(self)@.limit == old(self)@.limit,
            allowed == (old(self)@.refilled(new_tokens as nat) >= req),
            allowed ==> final(self)@.bucket + req == old(self)@.refilled(new_tokens as nat),
            !allowed ==> final(self)@.bucket == old(self)@.refilled(new_tokens as nat),
    {
        proof {
            use_type_invariant(&*self);
        }
        let room = self.limit - self.bucket;
        let new_cap = if new_tokens < room {
            new_tokens
        } else {
            room
        };
        self.bucket = self.bucket + new_cap;
        if self.bucket >= req {
            self.bucket = self.bucket - req;
            true
        } else {
            false
        }
    }

    /// Tokens in the bucket.
    pub fn bucket(&self) -> (b: u64)
        ensures
            b == self@.bucket,
    {
        self.bucket
    }

    /// Tokens that the bucket holds at most.
    pub fn limit(&self) -> (l: u64)
        ensures
            l == self@.limit,
    {
        self.limit
    }
}

/// Tokens are never made up: over any run, the allowed requests and the
/// tokens left together come to at most the tokens at the start and those
/// brought in, and the bucket stays within its limit.
pub proof fn lemma_tokens_are_conserved(s: TokenBucketView, steps: Seq<(nat, nat)>)
    requires
        s.wf(),
    ensures
        s.run(steps).1 + s.run(steps).0.bucket <= s.bucket + total_new_tokens(steps),
        s.run(steps).0.wf(),
        s.run(steps).0.limit == s.limit,
    decreases steps.len(),
{
    if steps.len() > 0 {
        lemma_tokens_are_conserved(s, steps.drop_last());
    }
}

/// A refill fills the bucket up to its limit and loses nothing below it: the
/// refilled amount is the smaller of the bucket plus the new tokens and the
/// limit.
pub proof fn lemma_refill_is_min(s: TokenBucketView, new_tokens: nat)
    requires
        s.wf(),
    ensures
        s.bucket <= s.refilled(new_tokens),
        s.refilled(new_tokens) <= s.limit,
        s.refilled(new_tokens) <= s.bucket + new_tokens,
        s.refilled(new_tokens) == s.limit || s.refilled(new_tokens) == s.bucket + new_tokens,
        s.bucket + new_tokens <= s.limit ==> s.refilled(new_tokens) == s.bucket + new_tokens,
{
}

/// A request is allowed exactly when the refilled bucket holds at least its
/// size, and then exactly that many tokens are taken; a refused request
/// takes nothing.
pub proof fn lemma_step_takes_request(s: TokenBucketView, new_tokens: nat, req: nat)
    requires
        s.wf(),
    ensures
        ({
            let (after, allowed) = s.step(new_tokens, req);
            let filled = if s.bucket + new_tokens <= s.limit {
                s.bucket + new_tokens
            } else {
                s.limit
            };
            &&& allowed <==> filled >= req
            &&& allowed ==> after.bucket + req == filled
            &&& !allowed ==> after.bucket == filled
            &&& after.limit == s.limit
            &&& after.wf()
        }),
{
}

/// A request larger than the bucket's limit is never allowed.
pub proof fn lemma_oversized_request_is_refused(s: TokenBucketView, new_tokens: nat, req: nat)
    requires
        s.wf(),
        req > s.limit,
    ensures
        !s.step(new_tokens, req).1,
        s.step(new_tokens, req).0.bucket == s.refilled(new_tokens),
{
}

} // verus!
