use crate::rb::SharedRb;
use vstd::prelude::*;

verus! {

/// Outcome of one poll step: the operation has produced its value, or the
/// caller should suspend until the registered waiter is signaled.
#[derive(PartialEq, Eq, Debug)]
pub enum Poll<T> {
    Ready(T),
    Pending,
}

/// The consumer side of the waking protocol over a ring buffer. Waiters
/// are plain tokens; the surrounding executor owns the mapping from tokens
/// to real wakers, and performs every signal this layer hands back.
///
/// Each direction has a single waker slot, overwritten on registration:
/// only the most recently registered waiter per direction is guaranteed to
/// be signaled. The `write` direction is woken when the write cursor
/// advances (items arrive), the `read` direction when the read cursor
/// advances (space frees).
pub trait AsyncConsumer: Sized {
    type Item;

    /// Buffered items, oldest first.
    spec fn items(&self) -> Seq<Self::Item>;

    /// Slot count of the underlying buffer.
    spec fn rb_capacity(&self) -> int;

    /// The producer side has been dropped: no more items will ever arrive.
    spec fn producer_closed(&self) -> bool;

    /// Waker slot for the write direction (a waiting consumer).
    spec fn write_waker(&self) -> Option<u64>;

    /// Waker slot for the read direction (a waiting producer).
    spec fn read_waker(&self) -> Option<u64>;

    /// Well-formedness of the underlying buffer.
    spec fn inv(&self) -> bool;

    /// Occupancy never exceeds the capacity; every implementation must
    /// justify this from its own invariant.
    proof fn lemma_inv_occupancy(&self)
        requires
            self.inv(),
        ensures
            0 <= self.items().len() <= self.rb_capacity(),
    ;

    /// Stores `waker` as the single write-direction waiter, replacing any
    /// previously registered one.
    fn register_write_waker(&mut self, waker: u64)
        requires
            old(self).inv(),
        ensures
            final(self).inv(),
            final(self).write_waker() == Some(waker),
            final(self).items() == old(self).items(),
            final(self).rb_capacity() == old(self).rb_capacity(),
            final(self).producer_closed() == old(self).producer_closed(),
            final(self).read_waker() == old(self).read_waker(),
    ;

    /// Whether the producer side has been dropped.
    fn is_closed(&self) -> (r: bool)
        requires
            self.inv(),
        ensures
            r == self.producer_closed(),
    ;

    /// Number of buffered items.
    fn occupied_len(&self) -> (n: usize)
        requires
            self.inv(),
        ensures
            n as int == self.items().len(),
    ;

    /// Slot count of the underlying buffer.
    fn capacity(&self) -> (c: usize)
        requires
            self.inv(),
        ensures
            c as int == self.rb_capacity(),
    ;

    /// Non-blocking pop. When an item comes out, the read-direction waiter
    /// is taken from its slot and handed back to be signaled.
    fn try_pop(&mut self) -> (r: (Option<Self::Item>, Option<u64>))
        requires
            old(self).inv(),
        ensures
            final(self).inv(),
            final(self).rb_capacity() == old(self).rb_capacity(),
            final(self).producer_closed() == old(self).producer_closed(),
            final(self).write_waker() == old(self).write_waker(),
            old(self).items().len() == 0 ==> r.0 is None && final(self).items() == old(self).items() && r.1 is None && final(self).read_waker() == old(self).read_waker(),
            old(self).items().len() > 0 ==> r.0 == Some(old(self).items()[0]) && final(self).items() == old(self).items().drop_first() && r.1 == old(self).read_waker()
                && final(self).read_waker() is None,
    ;

    /// Non-blocking bulk pop into the front of `elems`. When anything moved,
    /// the read-direction waiter is taken and handed back to be signaled.
    fn pop_slice(&mut self, elems: &mut [Self::Item]) -> (r: (usize, Option<u64>)) where
        Self::Item: Copy

        requires
            old(self).inv(),
        ensures
            final(self).inv(),
            final(self).rb_capacity() == old(self).rb_capacity(),
            final(self).producer_closed() == old(self).producer_closed(),
            final(self).write_waker() == old(self).write_waker(),
            r.0 as int == vstd::math::min(old(elems)@.len() as int, old(self).items().len() as int),
            final(self).items() == old(self).items().skip(r.0 as int),
            final(elems)@ == old(self).items().take(r.0 as int) + old(elems)@.skip(r.0 as int),
            r.0 > 0 ==> r.1 == old(self).read_waker() && final(self).read_waker() is None,
            r.0 == 0 ==> r.1 is None && final(self).read_waker() == old(self).read_waker(),
    ;

    /// Begins an asynchronous pop of one item.
    fn pop(&self) -> (f: PopFuture)
        ensures
            !f.spec_done(),
    ;

    /// Begins a wait until at least `count` items are buffered or the
    /// producer side closes. Asking for more than the capacity could never
    /// be satisfied, so it is a caller bug, excluded here.
    fn wait_occupied(&self, count: usize) -> (f: WaitOccupiedFuture)
        requires
            self.inv(),
            count as int <= self.rb_capacity(),
        ensures
            f.spec_count() == count,
            !f.spec_done(),
    ;

    /// Begins an asynchronous fill of a whole target slice.
    fn pop_slice_all(&self) -> (f: PopSliceFuture)
        ensures
            f.spec_filled() == 0,
            !f.spec_done(),
    ;
}

/// A ring buffer together with its waking-protocol state: one closed flag
/// per side and one waker slot per direction.
///
/// Closing is not a field of the buffer core; it is the observable shadow
/// of a handle being dropped, recorded here when the surrounding code drops
/// its producer or consumer handle.
pub struct AsyncRb<T> {
    rb: SharedRb<T>,
    prod_closed: bool,
    cons_closed: bool,
    write_waiter: Option<u64>,
    read_waiter: Option<u64>,
}

impl<T> AsyncRb<T> {
    /// The consumer side has been dropped.
    pub closed spec fn consumer_closed(&self) -> bool {
        self.cons_closed
    }

    /// Wraps a buffer with fresh waking state: both sides open, no waiters.
    pub fn new(rb: SharedRb<T>) -> (r: Self)
        requires
            rb.inv(),
        ensures
            r.inv(),
            r.items() == rb@,
            r.rb_capacity() == rb.spec_capacity(),
            !r.producer_closed(),
            !r.consumer_closed(),
            r.write_waker() is None,
            r.read_waker() is None,
    {
        AsyncRb { rb, prod_closed: false, cons_closed: false, write_waiter: None, read_waiter: None }
    }

    /// Stores `waker` as the single read-direction waiter, replacing any
    /// previously registered one.
    pub fn register_read_waker(&mut self, waker: u64)
        requires
            old(self).inv(),
        ensures
            final(self).inv(),
            final(self).read_waker() == Some(waker),
            final(self).items() == old(self).items(),
            final(self).rb_capacity() == old(self).rb_capacity(),
            final(self).producer_closed() == old(self).producer_closed(),
            final(self).consumer_closed() == old(self).consumer_closed(),
            final(self).write_waker() == old(self).write_waker(),
    {
        self.read_waiter = Some(waker);
    }

    /// Non-blocking push. When the item goes in, the write-direction waiter
    /// is taken from its slot and handed back to be signaled — whether or
    /// not anyone is waiting, signaling an empty slot being a no-op.
    pub fn try_push(&mut self, item: T) -> (r: (Result<(), T>, Option<u64>))
        requires
            old(self).inv(),
        ensures
            final(self).inv(),
            final(self).rb_capacity() == old(self).rb_capacity(),
            final(self).producer_closed() == old(self).producer_closed(),
            final(self).consumer_closed() == old(self).consumer_closed(),
            final(self).read_waker() == old(self).read_waker(),
            old(self).items().len() < old(self).rb_capacity() ==> r.0 is Ok && final(self).items() == old(self).items().push(item) && r.1 == old(self).write_waker()
                && final(self).write_waker() is None,
            old(self).items().len() == old(self).rb_capacity() ==> r.0 == Err::<(), T>(item)
                && final(self).items() == old(self).items() && r.1 is None && final(self).write_waker() == old(self).write_waker(),
    {
        match self.rb.try_push(item) {
            Ok(()) => {
                let wake = self.write_waiter.take();
                (Ok(()), wake)
            },
            Err(item) => (Err(item), None),
        }
    }

    /// Marks the producer side as dropped and takes the write-direction
    /// waiter, so that a suspended consumer is signaled and observes the
    /// closure.
    pub fn close_producer(&mut self) -> (wake: Option<u64>)
        requires
            old(self).inv(),
        ensures
            final(self).inv(),
            final(self).producer_closed(),
            final(self).consumer_closed() == old(self).consumer_closed(),
            final(self).items() == old(self).items(),
            final(self).rb_capacity() == old(self).rb_capacity(),
            wake == old(self).write_waker(),
            final(self).write_waker() is None,
            final(self).read_waker() == old(self).read_waker(),
    {
        self.prod_closed = true;
        self.write_waiter.take()
    }

    /// Marks the consumer side as dropped and takes the read-direction
    /// waiter, so that a suspended producer is signaled and observes the
    /// closure.
    pub fn close_consumer(&mut self) -> (wake: Option<u64>)
        requires
            old(self).inv(),
        ensures
            final(self).inv(),
            final(self).consumer_closed(),
            final(self).producer_closed() == old(self).producer_closed(),
            final(self).items() == old(self).items(),
            final(self).rb_capacity() == old(self).rb_capacity(),
            wake == old(self).read_waker(),
            final(self).read_waker() is None,
            final(self).write_waker() == old(self).write_waker(),
    {
        self.cons_closed = true;
        self.read_waiter.take()
    }

    /// Whether the consumer side has been dropped.
    pub fn is_consumer_closed(&self) -> (r: bool)
        ensures
            r == self.consumer_closed(),
    {
        self.cons_closed
    }
}

impl<T> AsyncConsumer for AsyncRb<T> {
    type Item = T;

    closed spec fn items(&self) -> Seq<T> {
        self.rb@
    }

    closed spec fn rb_capacity(&self) -> int {
        self.rb.spec_capacity()
    }

    closed spec fn producer_closed(&self) -> bool {
        self.prod_closed
    }

    closed spec fn write_waker(&self) -> Option<u64> {
        self.write_waiter
    }

    closed spec fn read_waker(&self) -> Option<u64> {
        self.read_waiter
    }

    closed spec fn inv(&self) -> bool {
        self.rb.inv()
    }

    proof fn lemma_inv_occupancy(&self) {
        self.rb.lemma_occupancy();
    }

    fn register_write_waker(&mut self, waker: u64) {
        self.write_waiter = Some(waker);
    }

    fn is_closed(&self) -> (r: bool) {
        self.prod_closed
    }

    fn occupied_len(&self) -> (n: usize) {
        self.rb.occupied_len()
    }

    fn capacity(&self) -> (c: usize) {
        self.rb.capacity()
    }

    fn try_pop(&mut self) -> (r: (Option<T>, Option<u64>)) {
        match self.rb.try_pop() {
            Some(item) => {
                let wake = self.read_waiter.take();
                (Some(item), wake)
            },
            None => (None, None),
        }
    }

    fn pop_slice(&mut self, elems: &mut [T]) -> (r: (usize, Option<u64>)) where T: Copy {
        let n = self.rb.pop_slice(elems);
        if n > 0 {
            let wake = self.read_waiter.take();
            (n, wake)
        } else {
            (n, None)
        }
    }

    fn pop(&self) -> (f: PopFuture) {
        PopFuture::new()
    }

    fn wait_occupied(&self, count: usize) -> (f: WaitOccupiedFuture) {
        WaitOccupiedFuture::new(count)
    }

    fn pop_slice_all(&self) -> (f: PopSliceFuture) {
        PopSliceFuture::new()
    }
}

/// Asynchronous single-item pop, as an explicit poll-step state machine.
/// It is consumed by its first successful yield: polling again after
/// `Ready(Some(..))` is a caller bug, excluded by precondition.
pub struct PopFuture {
    done: bool,
}

impl PopFuture {
    /// The future has yielded an item and must not be polled again.
    pub closed spec fn spec_done(self) -> bool {
        self.done
    }

    /// A fresh pop future.
    pub fn new() -> (f: Self)
        ensures
            !f.spec_done(),
    {
        PopFuture { done: false }
    }

    /// The future has yielded an item and must not be polled again.
    pub fn is_consumed(&self) -> (r: bool)
        ensures
            r == self.spec_done(),
    {
        self.done
    }

    /// The future will never again make progress: it has yielded, or the
    /// producer side is gone.
    pub fn is_terminated<A: AsyncConsumer>(&self, owner: &A) -> (r: bool)
        requires
            owner.inv(),
        ensures
            r == (self.spec_done() || owner.producer_closed()),
    {
        self.done || owner.is_closed()
    }

    /// One poll step, in the race-free order: register the waiter, observe
    /// the closed flag, then attempt the pop. Reversing registration and
    /// attempt would allow a wakeup fired between them to be missed.
    ///
    /// Returns the outcome together with the read-direction waiter to
    /// signal when the pop freed a slot.
    pub fn poll<A: AsyncConsumer>(&mut self, owner: &mut A, waker: u64) -> (r: (
        Poll<Option<A::Item>>,
        Option<u64>,
    ))
        requires
            old(owner).inv(),
            !old(self).spec_done(),
        ensures
            final(owner).inv(),
            final(owner).rb_capacity() == old(owner).rb_capacity(),
            final(owner).producer_closed() == old(owner).producer_closed(),
            final(owner).write_waker() == Some(waker),
            old(owner).items().len() > 0 ==> r.0 == Poll::Ready(Some(old(owner).items()[0]))
                && final(owner).items() == old(owner).items().drop_first() && final(self).spec_done() && r.1 == old(owner).read_waker()
                && final(owner).read_waker() is None,
            old(owner).items().len() == 0 && old(owner).producer_closed() ==> r.0
                == Poll::Ready(None::<A::Item>) && final(owner).items() == old(owner).items()
                && !final(self).spec_done() && r.1 is None && final(owner).read_waker() == old(owner).read_waker(),
            old(owner).items().len() == 0 && !old(owner).producer_closed() ==> r.0
                == Poll::<Option<A::Item>>::Pending && final(owner).items() == old(owner).items()
                && !final(self).spec_done() && r.1 is None && final(owner).read_waker() == old(owner).read_waker(),
    {
        owner.register_write_waker(waker);
        let closed = owner.is_closed();
        let (popped, wake) = owner.try_pop();
        match popped {
            Some(item) => {
                self.done = true;
                (Poll::Ready(Some(item)), wake)
            },
            None => if closed {
                (Poll::Ready(None), wake)
            } else {
                (Poll::Pending, wake)
            },
        }
    }
}

/// Asynchronous wait for the buffer to hold at least `count` items or for
/// the producer side to close.
pub struct WaitOccupiedFuture {
    count: usize,
    done: bool,
}

impl WaitOccupiedFuture {
    /// The requested occupancy.
    pub closed spec fn spec_count(self) -> usize {
        self.count
    }

    /// Whether the future has been marked finished.
    pub closed spec fn spec_done(self) -> bool {
        self.done
    }

    /// A fresh wait future for the given occupancy.
    pub fn new(count: usize) -> (f: Self)
        ensures
            f.spec_count() == count,
            !f.spec_done(),
    {
        WaitOccupiedFuture { count, done: false }
    }

    /// Whether the future has been marked finished.
    pub fn is_terminated(&self) -> (r: bool)
        ensures
            r == self.spec_done(),
    {
        self.done
    }

    /// One poll step: register the waiter, observe the closed flag, then
    /// check the occupancy. Ready exactly when the requested count is
    /// buffered or the producer side is gone; the buffer itself is left
    /// untouched.
    pub fn poll<A: AsyncConsumer>(&self, owner: &mut A, waker: u64) -> (r: Poll<()>)
        requires
            old(owner).inv(),
            !self.spec_done(),
            self.spec_count() as int <= old(owner).rb_capacity(),
        ensures
            final(owner).inv(),
            final(owner).rb_capacity() == old(owner).rb_capacity(),
            final(owner).producer_closed() == old(owner).producer_closed(),
            final(owner).items() == old(owner).items(),
            final(owner).read_waker() == old(owner).read_waker(),
            final(owner).write_waker() == Some(waker),
            r == Poll::<()>::Ready(()) <==> (old(owner).items().len() >= self.spec_count()
                || old(owner).producer_closed()),
    {
        owner.register_write_waker(waker);
        let closed = owner.is_closed();
        if self.count <= owner.occupied_len() || closed {
            Poll::Ready(())
        } else {
            Poll::Pending
        }
    }
}

/// Asynchronous fill of a caller slice from repeated pops, as an explicit
/// poll-step state machine. The caller passes the same target slice to each
/// poll; the future tracks how much of its front is already filled.
pub struct PopSliceFuture {
    filled: usize,
    done: bool,
}

impl PopSliceFuture {
    /// Items moved into the target so far, across all polls.
    pub closed spec fn spec_filled(self) -> int {
        self.filled as int
    }

    /// The future has reported its terminal value.
    pub closed spec fn spec_done(self) -> bool {
        self.done
    }

    /// A fresh slice-fill future.
    pub fn new() -> (f: Self)
        ensures
            f.spec_filled() == 0,
            !f.spec_done(),
    {
        PopSliceFuture { filled: 0, done: false }
    }

    /// The future has reported its terminal value.
    pub fn is_terminated(&self) -> (r: bool)
        ensures
            r == self.spec_done(),
    {
        self.done
    }

    /// One poll step: register the waiter, observe the closed flag, then
    /// move as many buffered items as fit into the unfilled rest of
    /// `elems`. Ready with `Ok` once `elems` is entirely filled; ready with
    /// `Err(count)` — the total moved — once the producer side is closed
    /// and the buffer has drained; pending otherwise.
    pub fn poll<A: AsyncConsumer>(&mut self, owner: &mut A, waker: u64, elems: &mut [A::Item]) -> (r: (
        Poll<Result<(), usize>>,
        Option<u64>,
    )) where A::Item: Copy
        requires
            old(owner).inv(),
            !old(self).spec_done(),
            old(self).spec_filled() <= old(elems)@.len(),
        ensures
            final(owner).inv(),
            final(owner).rb_capacity() == old(owner).rb_capacity(),
            final(owner).producer_closed() == old(owner).producer_closed(),
            final(self).spec_filled() == old(self).spec_filled() + vstd::math::min(
                old(owner).items().len() as int,
                old(elems)@.len() - old(self).spec_filled(),
            ),
            final(owner).items() == old(owner).items().skip(
                vstd::math::min(
                    old(owner).items().len() as int,
                    old(elems)@.len() - old(self).spec_filled(),
                ),
            ),
            final(elems)@ == old(elems)@.take(old(self).spec_filled()) + old(owner).items().take(
                vstd::math::min(
                    old(owner).items().len() as int,
                    old(elems)@.len() - old(self).spec_filled(),
                ),
            ) + old(elems)@.skip(final(self).spec_filled()),
            final(owner).write_waker() == Some(waker),
            vstd::math::min(
                old(owner).items().len() as int,
                old(elems)@.len() - old(self).spec_filled(),
            ) > 0 ==> r.1 == old(owner).read_waker() && final(owner).read_waker() is None,
            vstd::math::min(
                old(owner).items().len() as int,
                old(elems)@.len() - old(self).spec_filled(),
            ) == 0 ==> r.1 is None && final(owner).read_waker() == old(owner).read_waker(),
            final(self).spec_filled() == old(elems)@.len() ==> r.0 == Poll::<Result<(), usize>>::Ready(
                Ok(()),
            ) && final(self).spec_done(),
            final(self).spec_filled() < old(elems)@.len() && old(owner).producer_closed() ==> r.0
                == Poll::<Result<(), usize>>::Ready(Err(final(self).spec_filled() as usize))
                && final(self).spec_done(),
            final(self).spec_filled() < old(elems)@.len() && !old(owner).producer_closed() ==> r.0
                == Poll::<Result<(), usize>>::Pending && !final(self).spec_done() && final(owner).write_waker() == Some(waker),
    {
        owner.register_write_waker(waker);
        let closed = owner.is_closed();
        let total = elems.len();
        let (_front, rest) = elems.split_at_mut(self.filled);
        let (len, wake) = owner.pop_slice(rest);
        proof {
            assert(old(self).spec_filled() + len <= total);
        }
        self.filled = self.filled + len;
        proof {
            assert(elems@ =~= old(elems)@.take(old(self).spec_filled()) + old(owner).items().take(len as int) + old(elems)@.skip(old(self).spec_filled() + len));
        }
        if self.filled == elems.len() {
            self.done = true;
            (Poll::Ready(Ok(())), wake)
        } else if closed {
            self.done = true;
            (Poll::Ready(Err(self.filled)), wake)
        } else {
            (Poll::Pending, wake)
        }
    }
}

/// One poll step of the pull-style sequence adapter: like a single pop, but
/// with no consumed-future state — a drained buffer whose producer is gone
/// keeps reporting `Ready(None)`.
pub fn poll_next<A: AsyncConsumer>(owner: &mut A, waker: u64) -> (r: (
    Poll<Option<A::Item>>,
    Option<u64>,
))
    requires
        old(owner).inv(),
    ensures
        final(owner).inv(),
        final(owner).rb_capacity() == old(owner).rb_capacity(),
        final(owner).producer_closed() == old(owner).producer_closed(),
        final(owner).write_waker() == Some(waker),
        old(owner).items().len() > 0 ==> r.0 == Poll::Ready(Some(old(owner).items()[0])) && final(owner).items() == old(owner).items().drop_first() && r.1 == old(owner).read_waker()
            && final(owner).read_waker() is None,
        old(owner).items().len() == 0 && old(owner).producer_closed() ==> r.0 == Poll::Ready(
            None::<A::Item>,
        ) && final(owner).items() == old(owner).items() && r.1 is None && final(owner).read_waker()
            == old(owner).read_waker(),
        old(owner).items().len() == 0 && !old(owner).producer_closed() ==> r.0 == Poll::<
            Option<A::Item>,
        >::Pending && final(owner).items() == old(owner).items() && r.1 is None && final(owner).read_waker() == old(owner).read_waker(),
{
    owner.register_write_waker(waker);
    let closed = owner.is_closed();
    let (popped, wake) = owner.try_pop();
    match popped {
        Some(item) => (Poll::Ready(Some(item)), wake),
        None => if closed {
            (Poll::Ready(None), wake)
        } else {
            (Poll::Pending, wake)
        },
    }
}

/// One poll step of the byte-stream read adapter: moves as many buffered
/// bytes as fit into the front of `buf`. Ready with the moved count when
/// anything moved or the producer side is closed (a zero count then means
/// end of stream); pending otherwise.
pub fn poll_read<A: AsyncConsumer<Item = u8>>(owner: &mut A, waker: u64, buf: &mut [u8]) -> (r: (
    Poll<usize>,
    Option<u64>,
))
    requires
        old(owner).inv(),
    ensures
        final(owner).inv(),
        final(owner).rb_capacity() == old(owner).rb_capacity(),
        final(owner).producer_closed() == old(owner).producer_closed(),
        final(owner).items() == old(owner).items().skip(
            vstd::math::min(old(buf)@.len() as int, old(owner).items().len() as int),
        ),
        final(buf)@ == old(owner).items().take(
            vstd::math::min(old(buf)@.len() as int, old(owner).items().len() as int),
        ) + old(buf)@.skip(vstd::math::min(old(buf)@.len() as int, old(owner).items().len() as int)),
        final(owner).write_waker() == Some(waker),
        vstd::math::min(old(buf)@.len() as int, old(owner).items().len() as int) > 0 ==> r.1
            == old(owner).read_waker() && final(owner).read_waker() is None,
        vstd::math::min(old(buf)@.len() as int, old(owner).items().len() as int) == 0 ==> r.1 is None
            && final(owner).read_waker() == old(owner).read_waker(),
        vstd::math::min(old(buf)@.len() as int, old(owner).items().len() as int) > 0 || old(owner).producer_closed() ==> r.0 == Poll::Ready(
            vstd::math::min(old(buf)@.len() as int, old(owner).items().len() as int) as usize,
        ),
        vstd::math::min(old(buf)@.len() as int, old(owner).items().len() as int) == 0 && !old(owner).producer_closed() ==> r.0 == Poll::<usize>::Pending,
{
    owner.register_write_waker(waker);
    let closed = owner.is_closed();
    let (len, wake) = owner.pop_slice(buf);
    if len != 0 || closed {
        (Poll::Ready(len), wake)
    } else {
        (Poll::Pending, wake)
    }
}

/// A satisfied wait is within capacity: whenever at least `count` items
/// are buffered, `count` does not exceed the capacity, so the wait
/// future's own precondition holds — repeated polls of a satisfied wait
/// are therefore always admitted, and by the poll contract each returns
/// ready and leaves the buffer unchanged.
pub proof fn lemma_wait_count_within_capacity<A: AsyncConsumer>(owner: &A, count: usize)
    requires
        owner.inv(),
        owner.items().len() >= count,
    ensures
        count as int <= owner.rb_capacity(),
{
    owner.lemma_inv_occupancy();
}

} // verus!
