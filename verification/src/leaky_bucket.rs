//! A leaky bucket: items (connections) queue up to a limit, the rest are
//! handed back to be turned away, and items leave the queue one at a time,
//! in the order they came, at a rate that the caller keeps.
use vstd::prelude::*;
use std::collections::VecDeque;

verus! {

/// The abstract state of a [`LeakyBucket`].
pub struct LeakyBucketView<T> {
    /// The queued items, the oldest first.
    pub items: Seq<T>,
    /// Items that the bucket holds at most.
    pub limit: nat,
}

impl<T> LeakyBucketView<T> {
    /// The queue never holds more than the limit.
    pub open spec fn wf(self) -> bool {
        self.items.len() <= self.limit
    }

    /// An item arrives: it is queued when there is room, and handed back
    /// otherwise.
    pub open spec fn accept(self, item: T) -> (LeakyBucketView<T>, Option<T>) {
        if self.items.len() >= self.limit {
            (self, Some(item))
        } else {
            (LeakyBucketView { items: self.items.push(item), ..self }, None)
        }
    }

    /// The oldest item leaves, if there is one.
    pub open spec fn leak(self) -> (LeakyBucketView<T>, Option<T>) {
        if self.items.len() == 0 {
            (self, None)
        } else {
            (LeakyBucketView { items: self.items.drop_first(), ..self }, Some(self.items[0]))
        }
    }

    /// The bucket after the items `arrivals` arrived, in order.
    pub open spec fn accept_all(self, arrivals: Seq<T>) -> LeakyBucketView<T>
        decreases arrivals.len(),
    {
        if arrivals.len() == 0 {
            self
        } else {
            self.accept_all(arrivals.drop_last()).accept(arrivals.last()).0
        }
    }

    /// Of the items `arrivals`, in order, those that found room when they
    /// arrived.
    pub open spec fn admitted(self, arrivals: Seq<T>) -> Seq<T>
        decreases arrivals.len(),
    {
        if arrivals.len() == 0 {
            Seq::empty()
        } else {
            let before = self.accept_all(arrivals.drop_last());
            let earlier = self.admitted(arrivals.drop_last());
            if before.items.len() < before.limit {
                earlier.push(arrivals.last())
            } else {
                earlier
            }
        }
    }

    /// `n` leaks in a row: the final state and the items that left, in the
    /// order they left.
    pub open spec fn drain(self, n: nat) -> (LeakyBucketView<T>, Seq<T>)
        decreases n,
    {
        if n == 0 {
            (self, Seq::empty())
        } else {
            let (mid, out) = self.drain((n - 1) as nat);
            let (last, item) = mid.leak();
            (
                last,
                match item {
                    Some(x) => out.push(x),
                    None => out,
                },
            )
        }
    }
}

/// A bounded queue that lets its items out one at a time.
pub struct LeakyBucket<T> {
    limit: usize,
    queue: VecDeque<T>,
}

impl<T> View for LeakyBucket<T> {
    type V = LeakyBucketView<T>;

    closed spec fn view(&self) -> LeakyBucketView<T> {
        LeakyBucketView { items: self.queue@, limit: self.limit as nat }
    }
}

impl<T> LeakyBucket<T> {
    #[verifier::type_invariant]
    spec fn inv(self) -> bool {
        self.queue@.len() <= self.limit
    }

    /// An empty bucket that holds at most `limit` items.
    pub fn new(limit: usize) -> (b: Self)
        ensures
            b@.items == Seq::<T>::empty(),
            b@.limit == limit,
            b@.wf(),
    {
        LeakyBucket { limit, queue: VecDeque::new() }
    }

    /// Queues `item` when there is room (returns `None`); hands it back
    /// unchanged when the bucket is full.
    pub fn accept(&mut self, item: T) -> (rejected: Option<T>)
        ensures
            (final(self)@, rejected) == old(self)@.accept(item),
            old(self)@.wf(),
            final(self)@.wf(),
    {
        proof {
            use_type_invariant(&*self);
        }
        if self.queue.len() >= self.limit {
            Some(item)
        } else {
            let mut queue = VecDeque::new();
            std::mem::swap(&mut queue, &mut self.queue);
            queue.push_back(item);
            self.queue = queue;
            None
        }
    }

    /// Lets the oldest item out, if there is one.
    pub fn leak(&mut self) -> (item: Option<T>)
        ensures
            (final(self)@, item) == old(self)@.leak(),
            final(self)@.wf(),
    {
        proof {
            use_type_invariant(&*self);
        }
        let mut queue = VecDeque::new();
        std::mem::swap(&mut queue, &mut self.queue);
        let item = queue.pop_front();
        self.queue = queue;
        proof {
            if old(self)@.items.len() > 0 {
                assert(self.queue@ =~= old(self)@.items.drop_first());
            }
        }
        item
    }

    /// Items queued.
    pub fn len(&self) -> (n: usize)
        ensures
            n == self@.items.len(),
    {
        self.queue.len()
    }

    /// Items that the bucket holds at most.
    pub fn limit(&self) -> (l: usize)
        ensures
            l == self@.limit,
    {
        self.limit
    }
}

/// What an arrival does: a full bucket hands the item back and leaves its
/// queue exactly as it was; a bucket with room puts the item at the back and
/// hands nothing back.
pub proof fn lemma_accept_turns_away_or_appends<T>(v: LeakyBucketView<T>, item: T)
    ensures
        v.items.len() >= v.limit ==> v.accept(item).0 == v && v.accept(item).1 == Some(item),
        v.items.len() < v.limit ==> v.accept(item).0.items == v.items.push(item)
            && v.accept(item).0.limit == v.limit && v.accept(item).1 == None::<T>,
{
}

/// What a leak does: an empty bucket gives nothing and stays as it is;
/// otherwise the oldest item leaves and the others keep their order.
pub proof fn lemma_leak_takes_front<T>(v: LeakyBucketView<T>)
    ensures
        v.items.len() == 0 ==> v.leak().0 == v && v.leak().1 == None::<T>,
        v.items.len() > 0 ==> v.leak().1 == Some(v.items[0]) && v.leak().0.items == v.items.subrange(
            1,
            v.items.len() as int,
        ) && v.leak().0.limit == v.limit,
{
}

/// Over any run of arrivals, full bucket or not, the queue holds what it
/// held before followed by exactly the admitted items in arrival order.
pub proof fn lemma_arrivals_queue_in_order<T>(v: LeakyBucketView<T>, arrivals: Seq<T>)
    ensures
        v.accept_all(arrivals).items == v.items + v.admitted(arrivals),
        v.accept_all(arrivals).limit == v.limit,
    decreases arrivals.len(),
{
    if arrivals.len() > 0 {
        lemma_arrivals_queue_in_order(v, arrivals.drop_last());
        let before = v.accept_all(arrivals.drop_last());
        if before.items.len() < before.limit {
            assert(v.items + v.admitted(arrivals) =~= (v.items + v.admitted(arrivals.drop_last())).push(
                arrivals.last(),
            ));
        }
    } else {
        assert(v.items + v.admitted(arrivals) =~= v.items);
    }
}

/// Over any run of arrivals into an empty bucket, the items that then leak
/// out are exactly the admitted ones, in arrival order.
pub proof fn lemma_admitted_leak_in_arrival_order<T>(v: LeakyBucketView<T>, arrivals: Seq<T>)
    requires
        v.items.len() == 0,
    ensures
        v.accept_all(arrivals).drain(v.admitted(arrivals).len()).1 == v.admitted(arrivals),
        v.accept_all(arrivals).drain(v.admitted(arrivals).len()).0.items.len() == 0,
{
    lemma_arrivals_queue_in_order(v, arrivals);
    let after = v.accept_all(arrivals);
    assert(after.items =~= v.admitted(arrivals));
    lemma_drain_takes_oldest(after, after.items.len());
    assert(after.items.take(after.items.len() as int) =~= after.items);
}

/// Leaking `n` items lets out the `n` oldest, in order, and keeps the rest.
pub proof fn lemma_drain_takes_oldest<T>(v: LeakyBucketView<T>, n: nat)
    requires
        n <= v.items.len(),
    ensures
        v.drain(n).1 == v.items.take(n as int),
        v.drain(n).0.items == v.items.skip(n as int),
        v.drain(n).0.limit == v.limit,
    decreases n,
{
    if n > 0 {
        lemma_drain_takes_oldest(v, (n - 1) as nat);
        let mid = v.drain((n - 1) as nat).0;
        assert(mid.items.drop_first() =~= v.items.skip(n as int));
        assert(v.items.take((n - 1) as int).push(mid.items[0]) =~= v.items.take(n as int));
    } else {
        assert(v.items.skip(0) =~= v.items);
        assert(v.items.take(0) =~= Seq::<T>::empty());
    }
}

/// First in, first out: an item that is let in leaves after exactly the
/// items that were queued before it, which leave in the order they came.
pub proof fn lemma_leaks_in_arrival_order<T>(v: LeakyBucketView<T>, item: T)
    requires
        v.wf(),
        v.items.len() < v.limit,
    ensures
        v.accept(item).1 is None,
        v.accept(item).0.drain(v.items.len() + 1).1 == v.items.push(item),
        v.accept(item).0.drain(v.items.len() + 1).0.items.len() == 0,
{
    let after = v.accept(item).0;
    lemma_drain_takes_oldest(after, v.items.len() + 1);
    assert(after.items.take(v.items.len() + 1 as int) =~= v.items.push(item));
}

} // verus!
