use spsc_ring::{
    AsyncConsumer, AsyncRb, BlockingConsumer, BlockingProducer, BlockingRb, Poll, PopAllIter,
    SharedRb, TimeoutIterator,
};

#[test]
fn occupancy_split() {
    let mut rb = SharedRb::<u32>::new(3);
    let mut check = |rb: &SharedRb<u32>| {
        assert_eq!(rb.occupied_len() + rb.vacant_len(), rb.capacity());
        assert!(rb.occupied_len() <= rb.capacity());
    };
    check(&rb);
    assert!(rb.try_push(1).is_ok());
    check(&rb);
    assert!(rb.try_push(2).is_ok());
    check(&rb);
    assert_eq!(rb.try_pop(), Some(1));
    check(&rb);
    assert!(rb.try_push(3).is_ok());
    check(&rb);
    assert!(rb.try_push(4).is_ok());
    check(&rb);
    assert!(rb.is_full());
    assert_eq!(rb.try_push(5), Err(5));
    check(&rb);
    rb.clear();
    check(&rb);
    assert!(rb.is_empty());
}

#[test]
fn round_trip_slice() {
    let mut rb = SharedRb::<u16>::new(4);
    assert_eq!(rb.push_slice(&[10, 20, 30]), 3);
    assert_eq!(rb.try_pop(), Some(10));
    assert_eq!(rb.try_pop(), Some(20));
    assert_eq!(rb.try_pop(), Some(30));
    assert_eq!(rb.try_pop(), None);
}

#[test]
fn round_trip_iter_across_wrap() {
    let mut rb = SharedRb::<u16>::new(3);
    // move the cursors near the wrap boundary first
    assert!(rb.try_push(0).is_ok());
    assert!(rb.try_push(0).is_ok());
    assert_eq!(rb.try_pop(), Some(0));
    assert_eq!(rb.try_pop(), Some(0));
    let mut items = vec![7, 8, 9];
    assert_eq!(rb.push_iter(&mut items), 3);
    assert!(items.is_empty());
    assert_eq!(rb.pop_iter(), vec![7, 8, 9]);
}

#[test]
fn pop_slice_partial() {
    let mut rb = SharedRb::<u8>::new(4);
    assert_eq!(rb.push_slice(&[1, 2]), 2);
    let mut out = [0u8; 4];
    assert_eq!(rb.pop_slice(&mut out), 2);
    assert_eq!(out, [1, 2, 0, 0]);
    assert!(rb.is_empty());
}

#[test]
fn push_slice_partial() {
    let mut rb = SharedRb::<u8>::new(2);
    assert_eq!(rb.push_slice(&[1, 2, 3, 4]), 2);
    assert_eq!(rb.pop_iter(), vec![1, 2]);
}

#[test]
fn cursors_wrap_two_turns() {
    let mut rb = SharedRb::<u8>::new(2);
    assert_eq!((rb.read_end(), rb.write_end()), (0, 0));
    for turn in 0..2 {
        for k in 0..2 {
            assert!(rb.try_push(10 * turn + k).is_ok());
            assert_eq!(rb.try_pop(), Some(10 * turn + k));
        }
    }
    // four pushes and four pops walk the cursors once around the 2*capacity ring
    assert_eq!((rb.read_end(), rb.write_end()), (0, 0));
}

#[test]
fn slice_mapping_splits_at_wrap() {
    let mut rb = SharedRb::<u8>::new(4);
    assert_eq!(rb.push_slice(&[1, 2, 3, 4]), 4);
    let mut out = [0u8; 3];
    assert_eq!(rb.pop_slice(&mut out), 3);
    assert!(rb.try_push(5).is_ok());
    assert!(rb.try_push(6).is_ok());
    // read cursor sits at slot 3, three items occupied: slots 3, 0, 1
    assert_eq!(rb.slice_mapping(0, 3), ((3, 4), (0, 2)));
    // the vacant position starts one turn later, at slot 2
    assert_eq!(rb.slice_mapping(3, 1), ((2, 3), (0, 0)));
}

#[test]
fn async_pop_pending_then_closed() {
    let rb = SharedRb::<i64>::new(2);
    let mut arb = AsyncRb::new(rb);
    let mut fut = arb.pop();
    // empty and open: the consumer suspends
    assert_eq!(fut.poll(&mut arb, 1), (Poll::Pending, None));
    assert!(!fut.is_terminated(&arb));
    // producer side is dropped while the buffer is empty
    let woken = arb.close_producer();
    assert_eq!(woken, Some(1));
    assert_eq!(fut.poll(&mut arb, 1), (Poll::Ready(None), None));
    assert!(fut.is_terminated(&arb));
}

#[test]
fn async_pop_ready() {
    let rb = SharedRb::<i64>::new(2);
    let mut arb = AsyncRb::new(rb);
    let (r, woken) = arb.try_push(5);
    assert_eq!(r, Ok(()));
    assert_eq!(woken, None);
    let mut fut = arb.pop();
    assert_eq!(fut.poll(&mut arb, 7), (Poll::Ready(Some(5)), None));
    assert!(fut.is_terminated(&arb));
}

#[test]
fn async_push_wakes_registered_consumer() {
    let rb = SharedRb::<i64>::new(2);
    let mut arb = AsyncRb::new(rb);
    let mut fut = arb.pop();
    assert_eq!(fut.poll(&mut arb, 42), (Poll::Pending, None));
    // the push must signal the most recently registered write-direction waiter
    let (r, woken) = arb.try_push(9);
    assert_eq!(r, Ok(()));
    assert_eq!(woken, Some(42));
    assert_eq!(fut.poll(&mut arb, 42), (Poll::Ready(Some(9)), None));
}

#[test]
fn async_slice_fill_partial_on_closure() {
    let rb = SharedRb::<u8>::new(4);
    let mut arb = AsyncRb::new(rb);
    assert_eq!(arb.try_push(3).0, Ok(()));
    assert_eq!(arb.try_push(4).0, Ok(()));
    let mut fut = arb.pop_slice_all();
    let mut target = [0u8; 5];
    // the target is longer than will ever be filled before closure
    assert_eq!(fut.poll(&mut arb, 8, &mut target), (Poll::Pending, None));
    assert!(!fut.is_terminated());
    arb.close_producer();
    let (r, _) = fut.poll(&mut arb, 8, &mut target);
    assert_eq!(r, Poll::Ready(Err(2)));
    assert!(fut.is_terminated());
    assert_eq!(&target[..2], &[3, 4]);
}

#[test]
fn async_slice_fill_complete() {
    let rb = SharedRb::<u8>::new(4);
    let mut arb = AsyncRb::new(rb);
    assert_eq!(arb.try_push(1).0, Ok(()));
    let mut fut = arb.pop_slice_all();
    let mut target = [0u8; 3];
    assert_eq!(fut.poll(&mut arb, 8, &mut target), (Poll::Pending, None));
    assert_eq!(arb.try_push(2).0, Ok(()));
    assert_eq!(arb.try_push(3).0, Ok(()));
    let (r, _) = fut.poll(&mut arb, 8, &mut target);
    assert_eq!(r, Poll::Ready(Ok(())));
    assert_eq!(target, [1, 2, 3]);
}

#[test]
fn async_wait_occupied() {
    let rb = SharedRb::<u8>::new(3);
    let mut arb = AsyncRb::new(rb);
    let fut = arb.wait_occupied(2);
    assert_eq!(fut.poll(&mut arb, 3), Poll::Pending);
    assert_eq!(arb.try_push(1).0, Ok(()));
    assert_eq!(fut.poll(&mut arb, 3), Poll::Pending);
    assert_eq!(arb.try_push(2).0, Ok(()));
    assert_eq!(fut.poll(&mut arb, 3), Poll::Ready(()));
    // a closed producer also resolves the wait
    let rb2 = SharedRb::<u8>::new(3);
    let mut arb2 = AsyncRb::new(rb2);
    let fut2 = arb2.wait_occupied(2);
    assert_eq!(fut2.poll(&mut arb2, 3), Poll::Pending);
    arb2.close_producer();
    assert_eq!(fut2.poll(&mut arb2, 3), Poll::Ready(()));
}

#[test]
fn async_stream_and_read_steps() {
    let rb = SharedRb::<u8>::new(3);
    let mut arb = AsyncRb::new(rb);
    assert_eq!(spsc_ring::wake::poll_next(&mut arb, 1), (Poll::Pending, None));
    assert_eq!(arb.try_push(11).0, Ok(()));
    assert_eq!(spsc_ring::wake::poll_next(&mut arb, 1).0, Poll::Ready(Some(11)));
    assert_eq!(arb.try_push(12).0, Ok(()));
    assert_eq!(arb.try_push(13).0, Ok(()));
    let mut buf = [0u8; 8];
    let (r, _) = spsc_ring::wake::poll_read(&mut arb, 1, &mut buf);
    assert_eq!(r, Poll::Ready(2));
    assert_eq!(&buf[..2], &[12, 13]);
    // empty and open again: the reader suspends
    assert_eq!(spsc_ring::wake::poll_read(&mut arb, 1, &mut buf).0, Poll::Pending);
    arb.close_producer();
    // closed and drained: end of stream
    assert_eq!(spsc_ring::wake::poll_read(&mut arb, 1, &mut buf).0, Poll::Ready(0));
    assert_eq!(spsc_ring::wake::poll_next(&mut arb, 1).0, Poll::Ready(None));
}

#[test]
fn timeout_iterator_values() {
    let mut it = TimeoutIterator::new(Some(5), 10);
    assert_eq!(it.next(10), Some(Some(5)));
    assert_eq!(it.next(12), Some(Some(3)));
    assert_eq!(it.next(15), None);

    let mut forever = TimeoutIterator::new(None, 0);
    assert_eq!(forever.next(0), Some(None));
    assert_eq!(forever.next(1000), Some(None));

    let mut zero = TimeoutIterator::new(Some(0), 7);
    // the first value is always the full timeout
    assert_eq!(zero.next(7), Some(Some(0)));
    assert_eq!(zero.next(7), None);
}

#[test]
fn blocking_zero_timeout_immediate() {
    let rb = SharedRb::<u32>::new(2);
    let mut brb = BlockingRb::new(rb);
    // condition not met: immediate failure, nothing blocks
    assert!(!BlockingConsumer::wait_occupied(&brb, 1, Some(0)));
    assert_eq!(brb.pop_wait(Some(0)), None);
    assert_eq!(brb.push(1, Some(0)), Ok(()));
    // condition met: immediate success even with a zero timeout
    assert!(BlockingConsumer::wait_occupied(&brb, 1, Some(0)));
    assert_eq!(brb.pop_wait(Some(0)), Some(1));
}

#[test]
fn blocking_wait_idempotent() {
    let rb = SharedRb::<u32>::new(2);
    let mut brb = BlockingRb::new(rb);
    assert_eq!(brb.push(8, None), Ok(()));
    // repeated checks of an already-satisfied condition keep succeeding
    // and observably change nothing
    for _ in 0..3 {
        assert!(BlockingConsumer::wait_occupied(&brb, 1, None));
        assert!(BlockingProducer::wait_vacant(&brb, 1, None));
    }
    assert_eq!(brb.pop_wait(None), Some(8));
}

#[test]
fn blocking_push_full_returns_item() {
    let rb = SharedRb::<u32>::new(1);
    let mut brb = BlockingRb::new(rb);
    assert_eq!(brb.push(1, Some(10)), Ok(()));
    assert_eq!(brb.push(2, Some(10)), Err(2));
}

#[test]
fn blocking_bulk_short_counts() {
    let rb = SharedRb::<u8>::new(3);
    let mut brb = BlockingRb::new(rb);
    // a full buffer is signaled by a short count, not an error
    assert_eq!(brb.push_slice_all(&[1, 2, 3, 4, 5], Some(50)), 3);
    let mut out = [0u8; 2];
    assert_eq!(brb.pop_slice_all(&mut out, Some(50)), 2);
    assert_eq!(out, [1, 2]);
    let mut rest = vec![7, 8, 9];
    assert_eq!(brb.push_iter_all(&mut rest, Some(50)), 2);
    assert_eq!(rest, vec![9]);
    let mut big = [0u8; 8];
    // a drained buffer is signaled by a short count as well
    assert_eq!(brb.pop_slice_all(&mut big, Some(50)), 3);
    assert_eq!(&big[..3], &[3, 7, 8]);
}

#[test]
fn blocking_pop_all_iter() {
    let rb = SharedRb::<u8>::new(4);
    let mut brb = BlockingRb::new(rb);
    assert_eq!(brb.push_slice_all(&[5, 6], None), 2);
    let mut it: PopAllIter = brb.pop_iter_all(Some(100));
    assert_eq!(it.next(&mut brb, 0), Some(5));
    assert_eq!(it.next(&mut brb, 0), Some(6));
    assert_eq!(it.next(&mut brb, 0), None);
    // an elapsed deadline yields nothing even if items are buffered
    assert_eq!(brb.push(7, None), Ok(()));
    let mut late = PopAllIter::new(Some(10), 0);
    assert_eq!(late.next(&mut brb, 0), Some(7));
    assert_eq!(brb.push(9, None), Ok(()));
    assert_eq!(late.next(&mut brb, 20), None);
}

#[test]
fn overwrite_empty_capacity_edge() {
    let mut rb = SharedRb::<u8>::new(1);
    assert_eq!(rb.push_overwrite(1), None);
    assert_eq!(rb.push_overwrite(2), Some(1));
    assert_eq!(rb.pop_iter(), vec![2]);
    rb.push_iter_overwrite(vec![]);
    assert!(rb.is_empty());
}

#[test]
fn pop_wakes_registered_producer() {
    let rb = SharedRb::<u8>::new(1);
    let mut arb = AsyncRb::new(rb);
    assert_eq!(arb.capacity(), 1);
    assert_eq!(arb.try_push(1).0, Ok(()));
    assert_eq!(arb.occupied_len(), 1);
    arb.register_read_waker(99);
    // popping frees a slot and must signal the registered producer waiter
    let (v, woken) = AsyncConsumer::try_pop(&mut arb);
    assert_eq!(v, Some(1));
    assert_eq!(woken, Some(99));
    // dropping the consumer signals a waiting producer too
    arb.register_read_waker(100);
    assert_eq!(arb.close_consumer(), Some(100));
    assert!(arb.is_consumer_closed());
}

#[test]
fn blocking_closed_producer_drains() {
    let rb = SharedRb::<u8>::new(2);
    let mut brb = BlockingRb::new(rb);
    assert_eq!(brb.push(1, None), Ok(()));
    brb.close_producer();
    // closure is terminal but buffered items still come out first
    assert_eq!(brb.pop_wait(None), Some(1));
    assert_eq!(brb.pop_wait(None), None);
}

#[test]
fn blocking_closed_flags_observable() {
    let rb = SharedRb::<u8>::new(2);
    let mut brb = BlockingRb::new(rb);
    assert!(!brb.is_producer_closed());
    assert!(!brb.is_consumer_closed());
    brb.close_producer();
    assert!(brb.is_producer_closed());
    assert!(!brb.is_consumer_closed());
    brb.close_consumer();
    assert!(brb.is_consumer_closed());
}

#[test]
fn wait_occupied_idempotent() {
    let rb = SharedRb::<u8>::new(3);
    let mut arb = AsyncRb::new(rb);
    assert_eq!(arb.try_push(1).0, Ok(()));
    assert_eq!(arb.try_push(2).0, Ok(()));
    // two fresh waits under the already-satisfied condition both resolve
    // at once, and the buffer is observably unchanged in between
    let first = arb.wait_occupied(2);
    assert_eq!(first.poll(&mut arb, 1), Poll::Ready(()));
    assert_eq!(arb.occupied_len(), 2);
    let second = arb.wait_occupied(2);
    assert_eq!(second.poll(&mut arb, 2), Poll::Ready(()));
    assert_eq!(arb.occupied_len(), 2);
    assert_eq!(AsyncConsumer::try_pop(&mut arb).0, Some(1));
    assert_eq!(AsyncConsumer::try_pop(&mut arb).0, Some(2));
}
