//! A fixed-capacity single-producer single-consumer ring buffer, together
//! with the two protocol layers built on top of it: an asynchronous
//! suspension layer (futures expressed as explicit poll-step state machines)
//! and a blocking layer driven by a deadline iterator.
//!
//! The buffer never allocates after construction, never blocks and never
//! grows; all waiting policy lives in the layers above it.

pub mod blocking;
pub mod rb;
pub mod wake;

pub use blocking::{BlockingConsumer, BlockingProducer, BlockingRb, PopAllIter, TimeoutIterator};
pub use rb::SharedRb;
pub use wake::{AsyncConsumer, AsyncRb, Poll, PopFuture, PopSliceFuture, WaitOccupiedFuture};
