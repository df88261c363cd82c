//! A fixed-capacity single-producer/single-consumer ring buffer for
//! cooperatively scheduled tasks.
//!
//! The buffer moves elements first-in first-out between one writer and one
//! reader. Either side polls without blocking: a reader that finds the
//! buffer empty, or a writer that finds it full, leaves a wake handle
//! behind and suspends; the opposite side's next successful operation takes
//! that handle and invokes it exactly once. Closing the write side lets the
//! reader drain what is buffered and then observe end-of-stream.

mod laws;
mod ring;
mod waker;

pub use laws::law_round_trip;
pub use laws::lemma_pushed_in_order_appends;
pub use laws::pushed_in_order;
pub use ring::Full;
pub use ring::ReadPoll;
pub use ring::RingBuffer;
pub use ring::WritePoll;
