use crate::rb::SharedRb;
use vstd::prelude::*;

verus! {

/// The deadline side of the blocking protocol: turns an optional total
/// timeout into a lazy sequence of optional remaining times, driven by an
/// abstract monotonic clock whose readings are plain tick counts.
///
/// The first value produced is the full timeout (`None` standing for "wait
/// forever"); each later value is what remains of it at the given instant;
/// the sequence is exhausted once the deadline has passed. A `None` timeout
/// never exhausts.
pub struct TimeoutIterator {
    timeout: Option<u64>,
    start: u64,
    started: bool,
}

impl TimeoutIterator {
    /// The total timeout this sequence was created with.
    pub closed spec fn spec_timeout(self) -> Option<u64> {
        self.timeout
    }

    /// The clock reading taken when the sequence was created.
    pub closed spec fn spec_start(self) -> u64 {
        self.start
    }

    /// The first value has been produced.
    pub closed spec fn spec_started(self) -> bool {
        self.started
    }

    /// The sequence yields nothing more at instant `now`.
    pub open spec fn spec_exhausted(self, now: u64) -> bool {
        self.spec_started() && match self.spec_timeout() {
            None => false,
            Some(t) => now - self.spec_start() >= t,
        }
    }

    /// Begins a deadline sequence at clock reading `now`.
    pub fn new(timeout: Option<u64>, now: u64) -> (it: Self)
        ensures
            it.spec_timeout() == timeout,
            it.spec_start() == now,
            !it.spec_started(),
    {
        TimeoutIterator { timeout, start: now, started: false }
    }

    /// Produces the next remaining-time value at clock reading `now`:
    /// first the full timeout, then its remainder, then — once the
    /// deadline has passed — nothing.
    pub fn next(&mut self, now: u64) -> (r: Option<Option<u64>>)
        requires
            old(self).spec_start() <= now,
        ensures
            final(self).spec_timeout() == old(self).spec_timeout(),
            final(self).spec_start() == old(self).spec_start(),
            final(self).spec_started(),
            !old(self).spec_started() ==> r == Some(old(self).spec_timeout()),
            old(self).spec_started() ==> match old(self).spec_timeout() {
                None => r == Some(None::<u64>),
                Some(t) => if now - old(self).spec_start() >= t {
                    r is None
                } else {
                    r == Some(Some((t - (now - old(self).spec_start())) as u64))
                },
            },
    {
        if !self.started {
            self.started = true;
            return Some(self.timeout);
        }
        match self.timeout {
            None => Some(None),
            Some(t) => {
                let elapsed = now - self.start;
                if elapsed >= t {
                    None
                } else {
                    Some(Some(t - elapsed))
                }
            },
        }
    }
}

/// The producer side of the blocking protocol. The model is sequential: no
/// partner can act while a call is in progress, so a wait is an immediate
/// check of the condition, and every call happens at a single instant of
/// the abstract clock. The real parking loop belongs to the platform glue
/// around the library, which retries these verified steps as the clock
/// advances.
pub trait BlockingProducer: Sized {
    type Item;

    /// Buffered items, oldest first.
    spec fn items(&self) -> Seq<Self::Item>;

    /// Slot count of the underlying buffer.
    spec fn rb_capacity(&self) -> int;

    /// The consumer side has been dropped.
    spec fn consumer_closed(&self) -> bool;

    /// Well-formedness of the underlying buffer.
    spec fn inv(&self) -> bool;

    /// Occupancy never exceeds the capacity; every implementation must
    /// justify this from its own invariant.
    proof fn lemma_inv_occupancy(&self)
        requires
            self.inv(),
        ensures
            0 <= self.items().len() <= self.rb_capacity(),
    ;

    /// Waits until at least `count` slots are vacant or the timeout
    /// elapses; reports whether the vacancy was reached. Already-satisfied
    /// conditions report success at once, without mutating anything.
    fn wait_vacant(&self, count: usize, timeout: Option<u64>) -> (r: bool)
        requires
            self.inv(),
        ensures
            r == (self.rb_capacity() - self.items().len() >= count),
    ;

    /// Non-blocking push of one item; a full buffer hands it back.
    fn try_push(&mut self, item: Self::Item) -> (r: Result<(), Self::Item>)
        requires
            old(self).inv(),
        ensures
            final(self).inv(),
            final(self).rb_capacity() == old(self).rb_capacity(),
            final(self).consumer_closed() == old(self).consumer_closed(),
            old(self).items().len() < old(self).rb_capacity() ==> r is Ok && final(self).items() == old(self).items().push(item),
            old(self).items().len() == old(self).rb_capacity() ==> r == Err::<(), Self::Item>(item)
                && final(self).items() == old(self).items(),
    ;

    /// Non-blocking bulk push copied from the front of `elems`; returns the
    /// count moved.
    fn push_slice(&mut self, elems: &[Self::Item]) -> (n: usize) where Self::Item: Copy
        requires
            old(self).inv(),
        ensures
            final(self).inv(),
            final(self).rb_capacity() == old(self).rb_capacity(),
            final(self).consumer_closed() == old(self).consumer_closed(),
            n as int == vstd::math::min(
                elems@.len() as int,
                old(self).rb_capacity() - old(self).items().len(),
            ),
            final(self).items() == old(self).items() + elems@.take(n as int),
    ;

    /// Non-blocking push moving items out of the front of `items`; returns
    /// the count moved, the rest stays in `items`.
    fn push_iter(&mut self, items: &mut Vec<Self::Item>) -> (n: usize)
        requires
            old(self).inv(),
        ensures
            final(self).inv(),
            final(self).rb_capacity() == old(self).rb_capacity(),
            final(self).consumer_closed() == old(self).consumer_closed(),
            n as int == vstd::math::min(
                old(items)@.len() as int,
                old(self).rb_capacity() - old(self).items().len(),
            ),
            final(self).items() == old(self).items() + old(items)@.take(n as int),
            final(items)@ == old(items)@.skip(n as int),
    ;

    /// Pushes one item, waiting for a vacant slot within the timeout; a
    /// buffer that stays full hands the item back.
    fn push(&mut self, item: Self::Item, timeout: Option<u64>) -> (r: Result<(), Self::Item>)
        requires
            old(self).inv(),
        ensures
            final(self).inv(),
            final(self).rb_capacity() == old(self).rb_capacity(),
            final(self).consumer_closed() == old(self).consumer_closed(),
            old(self).items().len() < old(self).rb_capacity() ==> r is Ok && final(self).items() == old(self).items().push(item),
            old(self).items().len() == old(self).rb_capacity() ==> r == Err::<(), Self::Item>(item)
                && final(self).items() == old(self).items(),
    {
        if self.wait_vacant(1, timeout) {
            let r = self.try_push(item);
            match r {
                Ok(()) => Ok(()),
                Err(it) => Err(it),
            }
        } else {
            Err(item)
        }
    }

    /// Pushes as much of `items` as ever fits, retrying across the deadline
    /// window; returns the count moved rather than an error — a timeout or
    /// a full buffer is signaled by a short count.
    fn push_iter_all(&mut self, items: &mut Vec<Self::Item>, timeout: Option<u64>) -> (n: usize)
        requires
            old(self).inv(),
        ensures
            final(self).inv(),
            final(self).rb_capacity() == old(self).rb_capacity(),
            final(self).consumer_closed() == old(self).consumer_closed(),
            n as int == vstd::math::min(
                old(items)@.len() as int,
                old(self).rb_capacity() - old(self).items().len(),
            ),
            final(self).items() == old(self).items() + old(items)@.take(n as int),
            final(items)@ == old(items)@.skip(n as int),
    {
        proof {
            self.lemma_inv_occupancy();
            assert(old(items)@.take(0) =~= Seq::<Self::Item>::empty());
            assert(old(self).items() + old(items)@.take(0) =~= old(self).items());
            assert(old(items)@.skip(0) =~= old(items)@);
        }
        let mut deadline = TimeoutIterator::new(timeout, 0);
        let total = items.len();
        let mut count: usize = 0;
        while count < total
            invariant
                self.inv(),
                self.rb_capacity() == old(self).rb_capacity(),
                self.consumer_closed() == old(self).consumer_closed(),
                total == old(items)@.len(),
                count <= total,
                count as int <= old(self).rb_capacity() - old(self).items().len(),
                self.items() == old(self).items() + old(items)@.take(count as int),
                items@ == old(items)@.skip(count as int),
                deadline.spec_start() == 0,
                deadline.spec_started() ==> count as int == vstd::math::min(
                    total as int,
                    old(self).rb_capacity() - old(self).items().len(),
                ),
            ensures
                self.inv(),
                self.rb_capacity() == old(self).rb_capacity(),
                self.consumer_closed() == old(self).consumer_closed(),
                total == old(items)@.len(),
                count as int == vstd::math::min(
                    total as int,
                    old(self).rb_capacity() - old(self).items().len(),
                ),
                self.items() == old(self).items() + old(items)@.take(count as int),
                items@ == old(items)@.skip(count as int),
            decreases total - count,
        {
            let step = deadline.next(0);
            match step {
                None => {
                    break;
                },
                Some(t) => {
                    if self.wait_vacant(1, t) {
                        let n = self.push_iter(items);
                        proof {
                            assert(old(items)@.skip(count as int).take(n as int)
                                =~= old(items)@.subrange(count as int, count + n));
                            assert((old(self).items() + old(items)@.take(count as int)) + old(items)@.subrange(count as int, count + n) =~= old(self).items() + old(items)@.take(count + n));
                            assert(old(items)@.skip(count as int).skip(n as int) =~= old(items)@.skip(count + n));
                        }
                        count = count + n;
                    } else {
                        break;
                    }
                },
            }
        }
        count
    }

    /// Pushes as much of `elems` as ever fits, retrying across the deadline
    /// window; returns the count moved — a timeout or a full buffer is
    /// signaled by a short count.
    fn push_slice_all(&mut self, elems: &[Self::Item], timeout: Option<u64>) -> (n: usize) where
        Self::Item: Copy

        requires
            old(self).inv(),
        ensures
            final(self).inv(),
            final(self).rb_capacity() == old(self).rb_capacity(),
            final(self).consumer_closed() == old(self).consumer_closed(),
            n as int == vstd::math::min(
                elems@.len() as int,
                old(self).rb_capacity() - old(self).items().len(),
            ),
            final(self).items() == old(self).items() + elems@.take(n as int),
    {
        proof {
            self.lemma_inv_occupancy();
            assert(elems@.take(0) =~= Seq::<Self::Item>::empty());
            assert(old(self).items() + elems@.take(0) =~= old(self).items());
        }
        let mut deadline = TimeoutIterator::new(timeout, 0);
        let total = elems.len();
        let mut count: usize = 0;
        while count < total
            invariant
                self.inv(),
                self.rb_capacity() == old(self).rb_capacity(),
                self.consumer_closed() == old(self).consumer_closed(),
                total == elems@.len(),
                count <= total,
                count as int <= old(self).rb_capacity() - old(self).items().len(),
                self.items() == old(self).items() + elems@.take(count as int),
                deadline.spec_start() == 0,
                deadline.spec_started() ==> count as int == vstd::math::min(
                    total as int,
                    old(self).rb_capacity() - old(self).items().len(),
                ),
            ensures
                self.inv(),
                self.rb_capacity() == old(self).rb_capacity(),
                self.consumer_closed() == old(self).consumer_closed(),
                total == elems@.len(),
                count as int == vstd::math::min(
                    total as int,
                    old(self).rb_capacity() - old(self).items().len(),
                ),
                self.items() == old(self).items() + elems@.take(count as int),
            decreases total - count,
        {
            let step = deadline.next(0);
            match step {
                None => {
                    break;
                },
                Some(t) => {
                    if self.wait_vacant(1, t) {
                        let rest = vstd::slice::slice_subrange(elems, count, total);
                        let n = self.push_slice(rest);
                        proof {
                            assert(rest@.take(n as int) =~= elems@.subrange(
                                count as int,
                                count + n,
                            ));
                            assert((old(self).items() + elems@.take(count as int))
                                + elems@.subrange(count as int, count + n) =~= old(self).items()
                                + elems@.take(count + n));
                        }
                        count = count + n;
                    } else {
                        break;
                    }
                },
            }
        }
        count
    }
}

/// The consumer side of the blocking protocol, under the same sequential
/// model as [`BlockingProducer`].
pub trait BlockingConsumer: Sized {
    type Item;

    /// Buffered items, oldest first.
    spec fn items(&self) -> Seq<Self::Item>;

    /// Slot count of the underlying buffer.
    spec fn rb_capacity(&self) -> int;

    /// The producer side has been dropped.
    spec fn producer_closed(&self) -> bool;

    /// Well-formedness of the underlying buffer.
    spec fn inv(&self) -> bool;

    /// Waits until at least `count` items are buffered or the timeout
    /// elapses; reports whether the occupancy was reached. Already-satisfied
    /// conditions report success at once, without mutating cursors or waker
    /// state — calling this repeatedly is observably idempotent.
    fn wait_occupied(&self, count: usize, timeout: Option<u64>) -> (r: bool)
        requires
            self.inv(),
        ensures
            r == (self.items().len() >= count),
    ;

    /// Non-blocking pop of the oldest item.
    fn try_pop(&mut self) -> (r: Option<Self::Item>)
        requires
            old(self).inv(),
        ensures
            final(self).inv(),
            final(self).rb_capacity() == old(self).rb_capacity(),
            final(self).producer_closed() == old(self).producer_closed(),
            old(self).items().len() == 0 ==> r is None && final(self).items() == old(self).items(),
            old(self).items().len() > 0 ==> r == Some(old(self).items()[0]) && final(self).items() == old(self).items().drop_first(),
    ;

    /// Non-blocking bulk pop into the front of `elems`; returns the count
    /// moved.
    fn pop_slice(&mut self, elems: &mut [Self::Item]) -> (n: usize) where Self::Item: Copy
        requires
            old(self).inv(),
        ensures
            final(self).inv(),
            final(self).rb_capacity() == old(self).rb_capacity(),
            final(self).producer_closed() == old(self).producer_closed(),
            n as int == vstd::math::min(old(elems)@.len() as int, old(self).items().len() as int),
            final(self).items() == old(self).items().skip(n as int),
            final(elems)@ == old(self).items().take(n as int) + old(elems)@.skip(n as int),
    ;

    /// Pops one item, waiting for it within the timeout; a buffer that
    /// stays empty yields `None`.
    fn pop_wait(&mut self, timeout: Option<u64>) -> (r: Option<Self::Item>)
        requires
            old(self).inv(),
        ensures
            final(self).inv(),
            final(self).rb_capacity() == old(self).rb_capacity(),
            final(self).producer_closed() == old(self).producer_closed(),
            old(self).items().len() == 0 ==> r is None && final(self).items() == old(self).items(),
            old(self).items().len() > 0 ==> r == Some(old(self).items()[0]) && final(self).items() == old(self).items().drop_first(),
    {
        if self.wait_occupied(1, timeout) {
            self.try_pop()
        } else {
            None
        }
    }

    /// Begins a draining iteration across the deadline window. The deadline
    /// starts at clock reading `0`, so the `now` values handed to each step
    /// are measured from the start of the operation; a caller holding an
    /// absolute clock builds `PopAllIter::new(timeout, now)` directly.
    fn pop_iter_all(&self, timeout: Option<u64>) -> (it: PopAllIter)
        ensures
            it.spec_timeout().spec_timeout() == timeout,
            it.spec_timeout().spec_start() == 0,
            !it.spec_timeout().spec_started(),
    {
        PopAllIter::new(timeout, 0)
    }

    /// Pops into `elems` until it is full, retrying across the deadline
    /// window; returns the count moved — a timeout or a drained buffer is
    /// signaled by a short count.
    fn pop_slice_all(&mut self, elems: &mut [Self::Item], timeout: Option<u64>) -> (n: usize) where
        Self::Item: Copy

        requires
            old(self).inv(),
        ensures
            final(self).inv(),
            final(self).rb_capacity() == old(self).rb_capacity(),
            final(self).producer_closed() == old(self).producer_closed(),
            n as int == vstd::math::min(old(elems)@.len() as int, old(self).items().len() as int),
            final(self).items() == old(self).items().skip(n as int),
            final(elems)@ == old(self).items().take(n as int) + old(elems)@.skip(n as int),
    {
        proof {
            assert(old(self).items().skip(0) =~= old(self).items());
            assert(old(self).items().take(0) + old(elems)@.skip(0) =~= old(elems)@);
        }
        let mut deadline = TimeoutIterator::new(timeout, 0);
        let total = elems.len();
        let mut count: usize = 0;
        while count < total
            invariant
                self.inv(),
                self.rb_capacity() == old(self).rb_capacity(),
                self.producer_closed() == old(self).producer_closed(),
                total == old(elems)@.len(),
                elems@.len() == old(elems)@.len(),
                count <= total,
                count as int <= old(self).items().len(),
                self.items() == old(self).items().skip(count as int),
                elems@ == old(self).items().take(count as int) + old(elems)@.skip(count as int),
                deadline.spec_start() == 0,
                deadline.spec_started() ==> count as int == vstd::math::min(
                    total as int,
                    old(self).items().len() as int,
                ),
            ensures
                self.inv(),
                self.rb_capacity() == old(self).rb_capacity(),
                self.producer_closed() == old(self).producer_closed(),
                total == old(elems)@.len(),
                count as int == vstd::math::min(total as int, old(self).items().len() as int),
                self.items() == old(self).items().skip(count as int),
                elems@ == old(self).items().take(count as int) + old(elems)@.skip(count as int),
            decreases total - count,
        {
            let step = deadline.next(0);
            match step {
                None => {
                    break;
                },
                Some(t) => {
                    if self.wait_occupied(1, t) {
                        let (_front, rest) = elems.split_at_mut(count);
                        let n = self.pop_slice(rest);
                        proof {
                            assert(old(self).items().skip(count as int).take(n as int)
                                =~= old(self).items().subrange(count as int, count + n));
                            assert(elems@ =~= old(self).items().take(count + n) + old(elems)@.skip(count + n));
                            assert(old(self).items().skip(count as int).skip(n as int) =~= old(self).items().skip(count + n));
                        }
                        count = count + n;
                    } else {
                        break;
                    }
                },
            }
        }
        count
    }
}

/// A ring buffer together with its blocking-protocol state: one closed
/// flag per side. Closing is the observable shadow of a handle being
/// dropped, recorded here when the surrounding code drops its producer or
/// consumer handle.
pub struct BlockingRb<T> {
    rb: SharedRb<T>,
    prod_closed: bool,
    cons_closed: bool,
}

impl<T> BlockingRb<T> {
    /// Buffered items, oldest first.
    pub closed spec fn spec_items(&self) -> Seq<T> {
        self.rb@
    }

    /// Slot count of the underlying buffer.
    pub closed spec fn spec_rb_capacity(&self) -> int {
        self.rb.spec_capacity()
    }

    /// The producer side has been dropped.
    pub closed spec fn spec_producer_closed(&self) -> bool {
        self.prod_closed
    }

    /// The consumer side has been dropped.
    pub closed spec fn spec_consumer_closed(&self) -> bool {
        self.cons_closed
    }

    /// Well-formedness of the underlying buffer.
    pub closed spec fn spec_inv(&self) -> bool {
        self.rb.inv()
    }

    /// Wraps a buffer with fresh blocking state: both sides open.
    pub fn new(rb: SharedRb<T>) -> (r: Self)
        requires
            rb.inv(),
        ensures
            r.spec_inv(),
            r.spec_items() == rb@,
            r.spec_rb_capacity() == rb.spec_capacity(),
            !r.spec_producer_closed(),
            !r.spec_consumer_closed(),
    {
        BlockingRb { rb, prod_closed: false, cons_closed: false }
    }

    /// Marks the producer side as dropped.
    pub fn close_producer(&mut self)
        requires
            old(self).spec_inv(),
        ensures
            final(self).spec_inv(),
            final(self).spec_producer_closed(),
            final(self).spec_consumer_closed() == old(self).spec_consumer_closed(),
            final(self).spec_items() == old(self).spec_items(),
            final(self).spec_rb_capacity() == old(self).spec_rb_capacity(),
    {
        self.prod_closed = true;
    }

    /// Whether the producer side has been dropped: the signal, distinct
    /// from mere emptiness, that no more items will ever arrive.
    pub fn is_producer_closed(&self) -> (r: bool)
        ensures
            r == self.spec_producer_closed(),
    {
        self.prod_closed
    }

    /// Whether the consumer side has been dropped: the signal, distinct
    /// from mere fullness, that no more space will ever free.
    pub fn is_consumer_closed(&self) -> (r: bool)
        ensures
            r == self.spec_consumer_closed(),
    {
        self.cons_closed
    }

    /// Marks the consumer side as dropped.
    pub fn close_consumer(&mut self)
        requires
            old(self).spec_inv(),
        ensures
            final(self).spec_inv(),
            final(self).spec_consumer_closed(),
            final(self).spec_producer_closed() == old(self).spec_producer_closed(),
            final(self).spec_items() == old(self).spec_items(),
            final(self).spec_rb_capacity() == old(self).spec_rb_capacity(),
    {
        self.cons_closed = true;
    }
}

impl<T> BlockingProducer for BlockingRb<T> {
    type Item = T;

    open spec fn items(&self) -> Seq<T> {
        self.spec_items()
    }

    open spec fn rb_capacity(&self) -> int {
        self.spec_rb_capacity()
    }

    open spec fn consumer_closed(&self) -> bool {
        self.spec_consumer_closed()
    }

    open spec fn inv(&self) -> bool {
        self.spec_inv()
    }

    proof fn lemma_inv_occupancy(&self) {
        self.rb.lemma_occupancy();
    }

    fn wait_vacant(&self, count: usize, _timeout: Option<u64>) -> (r: bool) {
        self.rb.vacant_len() >= count
    }

    fn try_push(&mut self, item: T) -> (r: Result<(), T>) {
        self.rb.try_push(item)
    }

    fn push_slice(&mut self, elems: &[T]) -> (n: usize) where T: Copy {
        self.rb.push_slice(elems)
    }

    fn push_iter(&mut self, items: &mut Vec<T>) -> (n: usize) {
        self.rb.push_iter(items)
    }
}

impl<T> BlockingConsumer for BlockingRb<T> {
    type Item = T;

    open spec fn items(&self) -> Seq<T> {
        self.spec_items()
    }

    open spec fn rb_capacity(&self) -> int {
        self.spec_rb_capacity()
    }

    open spec fn producer_closed(&self) -> bool {
        self.spec_producer_closed()
    }

    open spec fn inv(&self) -> bool {
        self.spec_inv()
    }

    fn wait_occupied(&self, count: usize, _timeout: Option<u64>) -> (r: bool) {
        self.rb.occupied_len() >= count
    }

    fn try_pop(&mut self) -> (r: Option<T>) {
        self.rb.try_pop()
    }

    fn pop_slice(&mut self, elems: &mut [T]) -> (n: usize) where T: Copy {
        self.rb.pop_slice(elems)
    }
}

/// Draining iteration across the deadline window: each step consumes one
/// deadline value, waits for one item within it, and pops it. The consumer
/// it drains is passed to each step.
pub struct PopAllIter {
    timeout: TimeoutIterator,
}

impl PopAllIter {
    /// The deadline sequence driving the iteration.
    pub closed spec fn spec_timeout(self) -> TimeoutIterator {
        self.timeout
    }

    /// Begins a draining iteration at clock reading `now`.
    pub fn new(timeout: Option<u64>, now: u64) -> (it: Self)
        ensures
            it.spec_timeout().spec_timeout() == timeout,
            it.spec_timeout().spec_start() == now,
            !it.spec_timeout().spec_started(),
    {
        PopAllIter { timeout: TimeoutIterator::new(timeout, now) }
    }

    /// One draining step at clock reading `now`: `None` once the deadline
    /// has passed or the buffer stays empty, otherwise the popped item.
    pub fn next<C: BlockingConsumer>(&mut self, target: &mut C, now: u64) -> (r: Option<C::Item>)
        requires
            old(target).inv(),
            old(self).spec_timeout().spec_start() <= now,
        ensures
            final(target).inv(),
            final(target).rb_capacity() == old(target).rb_capacity(),
            final(target).producer_closed() == old(target).producer_closed(),
            final(self).spec_timeout().spec_timeout() == old(self).spec_timeout().spec_timeout(),
            final(self).spec_timeout().spec_start() == old(self).spec_timeout().spec_start(),
            final(self).spec_timeout().spec_started(),
            old(self).spec_timeout().spec_exhausted(now) ==> r is None && final(target).items()
                == old(target).items(),
            !old(self).spec_timeout().spec_exhausted(now) && old(target).items().len() == 0
                ==> r is None && final(target).items() == old(target).items(),
            !old(self).spec_timeout().spec_exhausted(now) && old(target).items().len() > 0 ==> r
                == Some(old(target).items()[0]) && final(target).items() == old(target).items().drop_first(),
    {
        match self.timeout.next(now) {
            None => None,
            Some(t) => {
                if target.wait_occupied(1, t) {
                    target.try_pop()
                } else {
                    None
                }
            },
        }
    }
}

} // verus!
