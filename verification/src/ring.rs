//! The ring buffer proper: fixed-capacity FIFO storage, the suspension
//! registry for one pending reader and one pending writer, and the
//! half-close flag.
//!
//! The abstract state of a buffer is
//! - its contents, `self@`, the buffered elements in arrival order;
//! - its `capacity`;
//! - the close flag, `write_closed`;
//! - the two waker slots, `pending_reader` and `pending_writer`;
//! - ghost counters: elements pushed and popped since creation
//!   (`push_count`, `pop_count`) and wake invocations delivered to each
//!   side (`reader_wake_count`, `writer_wake_count`).
//!
//! Every contract below is stated over these alone.

use vstd::prelude::*;

verus! {

use core::task::Waker;
use crate::waker;
use vstd::math::min;

/// Error returned by [`RingBuffer::push`] when the buffer is at capacity.
/// Transient: space reappears as soon as the consumer pops.
#[derive(Clone, Copy, Debug, PartialEq, Eq)]
pub struct Full;

/// Outcome of [`RingBuffer::poll_next`].
#[derive(Clone, Copy, Debug, PartialEq, Eq)]
pub enum ReadPoll<T> {
    /// An element was available and has been removed from the buffer.
    Item(T),
    /// The buffer is closed and drained: the stream has ended, permanently.
    Done,
    /// Nothing to read yet; the caller's waker is registered and the
    /// caller must suspend until it is invoked.
    Pending,
}

/// Outcome of [`RingBuffer::poll_write`].
#[derive(Clone, Copy, Debug, PartialEq, Eq)]
pub enum WritePoll {
    /// This many elements from the front of the supplied slice were
    /// buffered. Short writes are normal; zero is possible only for an
    /// empty slice.
    Wrote(usize),
    /// The buffer was closed: no write can ever succeed again.
    Closed,
    /// The buffer is full; the caller's waker is registered and the
    /// caller must suspend until it is invoked.
    Pending,
}

/// A fixed-capacity single-producer/single-consumer FIFO buffer with
/// suspension support for one reader and one writer.
pub struct RingBuffer<T> {
    /// Circular storage; its length is the capacity and never changes.
    /// Occupied slots hold `Some`, free slots are irrelevant.
    storage: Vec<Option<T>>,
    /// Index of the oldest buffered element, always in `[0, capacity)`.
    read: usize,
    /// Occupancy, always in `[0, capacity]`.
    count: usize,
    /// Monotonic: set by `close`, never reset.
    closed: bool,
    /// Wake handle of a reader that saw the buffer empty, at most one.
    read_waker: Option<Waker>,
    /// Wake handle of a writer that saw the buffer full, at most one.
    write_waker: Option<Waker>,
    /// Successful pushes since creation.
    pushes: Ghost<nat>,
    /// Successful pops since creation.
    pops: Ghost<nat>,
    /// Wake invocations delivered to a registered reader.
    reader_wakes: Ghost<nat>,
    /// Wake invocations delivered to a registered writer.
    writer_wakes: Ghost<nat>,
}

impl<T> RingBuffer<T> {
    /// Number of slots, fixed at construction.
    pub closed spec fn capacity(self) -> int {
        self.storage.len() as int
    }

    /// Storage index holding the `i`-th buffered element: the read cursor
    /// advanced by `i`, wrapped back into `[0, capacity)`.
    pub closed spec fn slot(self, i: int) -> int {
        if self.read + i < self.storage.len() {
            self.read + i
        } else {
            self.read + i - self.storage.len()
        }
    }

    /// Whether `close` has been called.
    pub closed spec fn write_closed(self) -> bool {
        self.closed
    }

    /// The waker left behind by a suspended reader, if any.
    pub closed spec fn pending_reader(self) -> Option<Waker> {
        self.read_waker
    }

    /// The waker left behind by a suspended writer, if any.
    pub closed spec fn pending_writer(self) -> Option<Waker> {
        self.write_waker
    }

    /// A reader is suspended on this buffer.
    pub open spec fn reader_registered(self) -> bool {
        self.pending_reader() is Some
    }

    /// A writer is suspended on this buffer.
    pub open spec fn writer_registered(self) -> bool {
        self.pending_writer() is Some
    }

    /// Successful pushes since creation.
    pub closed spec fn push_count(self) -> nat {
        self.pushes@
    }

    /// Successful pops since creation.
    pub closed spec fn pop_count(self) -> nat {
        self.pops@
    }

    /// Wake invocations delivered to a registered reader since creation.
    pub closed spec fn reader_wake_count(self) -> nat {
        self.reader_wakes@
    }

    /// Wake invocations delivered to a registered writer since creation.
    pub closed spec fn writer_wake_count(self) -> nat {
        self.writer_wakes@
    }

    /// Well-formedness: cursors in range, occupancy bounded by capacity,
    /// every occupied slot filled, occupancy equal to the number of
    /// elements pushed minus the number popped, and no reader left
    /// suspended once the buffer is closed — closing wakes the pending
    /// reader, and a read poll on a closed buffer never suspends.
    pub closed spec fn wf(self) -> bool {
        &&& self.storage.len() >= 1
        &&& self.count <= self.storage.len()
        &&& self.read < self.storage.len()
        &&& (forall|i: int| 0 <= i < self.count ==> self.storage@[#[trigger] self.slot(i)] is Some)
        &&& self.pushes@ == self.pops@ + self.count
        &&& (self.closed ==> self.read_waker is None)
    }

    /// Creates an empty buffer with `capacity` slots.
    pub fn new(capacity: usize) -> (rb: RingBuffer<T>)
        requires
            capacity >= 1,
        ensures
            rb.wf(),
            rb.capacity() == capacity,
            rb@ == Seq::<T>::empty(),
            !rb.write_closed(),
            rb.pending_reader() is None,
            rb.pending_writer() is None,
            rb.push_count() == 0,
            rb.pop_count() == 0,
            rb.reader_wake_count() == 0,
            rb.writer_wake_count() == 0,
    {
        let mut storage: Vec<Option<T>> = Vec::new();
        let mut i: usize = 0;
        while i < capacity
            invariant
                i <= capacity,
                storage@.len() == i,
            decreases capacity - i,
        {
            storage.push(None);
            i = i + 1;
        }
        let rb = RingBuffer {
            storage,
            read: 0,
            count: 0,
            closed: false,
            read_waker: None,
            write_waker: None,
            pushes: Ghost(0),
            pops: Ghost(0),
            reader_wakes: Ghost(0),
            writer_wakes: Ghost(0),
        };
        proof {
            assert(rb@ =~= Seq::<T>::empty());
        }
        rb
    }

    /// Number of elements currently buffered.
    pub fn len(&self) -> (n: usize)
        ensures
            n == self@.len(),
    {
        self.count
    }

    /// Number of further elements the buffer can accept.
    pub fn remaining(&self) -> (n: usize)
        requires
            self.wf(),
        ensures
            n == self.capacity() - self@.len(),
    {
        self.storage.len() - self.count
    }

    /// True when nothing is buffered.
    pub fn is_empty(&self) -> (b: bool)
        ensures
            b == (self@.len() == 0),
    {
        self.count == 0
    }

    /// True when the buffer is at capacity.
    pub fn is_full(&self) -> (b: bool)
        ensures
            b == (self@.len() == self.capacity()),
    {
        self.count == self.storage.len()
    }

    /// Whether `close` has been called.
    pub fn is_closed(&self) -> (b: bool)
        ensures
            b == self.write_closed(),
    {
        self.closed
    }

    /// Whether a suspended reader's waker is registered.
    pub fn has_read_waker(&self) -> (b: bool)
        ensures
            b == self.reader_registered(),
    {
        self.read_waker.is_some()
    }

    /// Whether a suspended writer's waker is registered.
    pub fn has_write_waker(&self) -> (b: bool)
        ensures
            b == self.writer_registered(),
    {
        self.write_waker.is_some()
    }

    /// Occupancy accounting: in any well-formed buffer the number of
    /// buffered elements equals the number of successful pushes minus the
    /// number of successful pops since creation, and always lies between
    /// zero and the capacity. Every operation above preserves `wf`, so
    /// this holds after any sequence of operations that started at `new`.
    pub proof fn law_occupancy(self)
        requires
            self.wf(),
        ensures
            self@.len() == self.push_count() - self.pop_count(),
            0 <= self@.len() <= self.capacity(),
    {
    }
}

impl<T> RingBuffer<T> {
    /// Takes the pending reader's waker, if one is registered, and invokes
    /// it, exactly once per registration: the slot is emptied in the same
    /// step, so a handle is never invoked while still registered.
    fn wake_reader(&mut self)
        requires
            old(self).wf(),
        ensures
            final(self).wf(),
            final(self).pending_reader() is None,
            final(self).reader_wake_count() == old(self).reader_wake_count() + (
                if old(self).reader_registered() {
                    1int
                } else {
                    0int
                }
            ),
            final(self)@ == old(self)@,
            final(self).storage == old(self).storage,
            final(self).read == old(self).read,
            final(self).count == old(self).count,
            final(self).closed == old(self).closed,
            final(self).write_waker == old(self).write_waker,
            final(self).pushes == old(self).pushes,
            final(self).pops == old(self).pops,
            final(self).writer_wakes == old(self).writer_wakes,
    {
        match self.read_waker.take() {
            Some(w) => {
                self.reader_wakes = Ghost(self.reader_wakes@ + 1);
                waker::wake(w);
            }
            None => {}
        }
        proof {
            assert forall|i: int| 0 <= i < self.count implies self.storage@[
                #[trigger] self.slot(i)
            ] is Some by {
                assert(self.slot(i) == old(self).slot(i));
            }
            assert(self@ =~= old(self)@);
        }
    }

    /// Takes the pending writer's waker, if one is registered, and invokes
    /// it, exactly once per registration.
    fn wake_writer(&mut self)
        requires
            old(self).wf(),
        ensures
            final(self).wf(),
            final(self).pending_writer() is None,
            final(self).writer_wake_count() == old(self).writer_wake_count() + (
                if old(self).writer_registered() {
                    1int
                } else {
                    0int
                }
            ),
            final(self)@ == old(self)@,
            final(self).storage == old(self).storage,
            final(self).read == old(self).read,
            final(self).count == old(self).count,
            final(self).closed == old(self).closed,
            final(self).read_waker == old(self).read_waker,
            final(self).pushes == old(self).pushes,
            final(self).pops == old(self).pops,
            final(self).reader_wakes == old(self).reader_wakes,
    {
        match self.write_waker.take() {
            Some(w) => {
                self.writer_wakes = Ghost(self.writer_wakes@ + 1);
                waker::wake(w);
            }
            None => {}
        }
        proof {
            assert forall|i: int| 0 <= i < self.count implies self.storage@[
                #[trigger] self.slot(i)
            ] is Some by {
                assert(self.slot(i) == old(self).slot(i));
            }
            assert(self@ =~= old(self)@);
        }
    }

    /// Appends `item` if the buffer is below capacity, failing with [`Full`]
    /// otherwise. A successful push wakes a pending reader, exactly once,
    /// and clears its registration; a failed push changes nothing.
    pub fn push(&mut self, item: T) -> (r: Result<(), Full>)
        requires
            old(self).wf(),
        ensures
            final(self).wf(),
            final(self).capacity() == old(self).capacity(),
            final(self).write_closed() == old(self).write_closed(),
            final(self).pending_writer() == old(self).pending_writer(),
            final(self).writer_wake_count() == old(self).writer_wake_count(),
            final(self).pop_count() == old(self).pop_count(),
            old(self)@.len() < old(self).capacity() ==> {
                &&& r is Ok
                &&& final(self)@ == old(self)@.push(item)
                &&& final(self).push_count() == old(self).push_count() + 1
                &&& final(self).pending_reader() is None
                &&& final(self).reader_wake_count() == old(self).reader_wake_count() + (
                    if old(self).reader_registered() {
                        1int
                    } else {
                        0int
                    }
                )
            },
            old(self)@.len() == old(self).capacity() ==> {
                &&& r == Err::<(), Full>(Full)
                &&& final(self)@ == old(self)@
                &&& final(self).push_count() == old(self).push_count()
                &&& final(self).pending_reader() == old(self).pending_reader()
                &&& final(self).reader_wake_count() == old(self).reader_wake_count()
            },
    {
        let cap = self.storage.len();
        if self.count == cap {
            Err(Full)
        } else {
            let idx = if self.count < cap - self.read {
                self.read + self.count
            } else {
                self.count - (cap - self.read)
            };
            self.storage[idx] = Some(item);
            self.count = self.count + 1;
            self.pushes = Ghost(self.pushes@ + 1);
            proof {
                assert(self.slot(old(self).count as int) == idx);
                assert forall|i: int| 0 <= i < self.count implies self.storage@[
                    #[trigger] self.slot(i)
                ] is Some by {
                    if i < old(self).count {
                        assert(self.slot(i) == old(self).slot(i));
                        assert(self.slot(i) != idx);
                    }
                }
                assert(self@ =~= old(self)@.push(item));
            }
            self.wake_reader();
            Ok(())
        }
    }

    /// Removes and returns the oldest element, or returns `None` on an
    /// empty buffer. A successful pop wakes a pending writer, exactly
    /// once, and clears its registration; a pop from an empty buffer
    /// changes nothing.
    pub fn pop(&mut self) -> (r: Option<T>)
        requires
            old(self).wf(),
        ensures
            final(self).wf(),
            final(self).capacity() == old(self).capacity(),
            final(self).write_closed() == old(self).write_closed(),
            final(self).pending_reader() == old(self).pending_reader(),
            final(self).reader_wake_count() == old(self).reader_wake_count(),
            final(self).push_count() == old(self).push_count(),
            old(self)@.len() == 0 ==> {
                &&& r is None
                &&& final(self)@ == old(self)@
                &&& final(self).pop_count() == old(self).pop_count()
                &&& final(self).pending_writer() == old(self).pending_writer()
                &&& final(self).writer_wake_count() == old(self).writer_wake_count()
            },
            old(self)@.len() > 0 ==> {
                &&& r == Some(old(self)@[0])
                &&& final(self)@ == old(self)@.skip(1)
                &&& final(self).pop_count() == old(self).pop_count() + 1
                &&& final(self).pending_writer() is None
                &&& final(self).writer_wake_count() == old(self).writer_wake_count() + (
                    if old(self).writer_registered() {
                        1int
                    } else {
                        0int
                    }
                )
            },
    {
        if self.count == 0 {
            None
        } else {
            let cap = self.storage.len();
            let item = self.storage[self.read].take();
            self.read = if self.read + 1 == cap {
                0
            } else {
                self.read + 1
            };
            self.count = self.count - 1;
            self.pops = Ghost(self.pops@ + 1);
            proof {
                assert(old(self).slot(0) == old(self).read);
                assert(item == Some(old(self)@[0]));
                assert forall|i: int| 0 <= i < self.count implies self.storage@[
                    #[trigger] self.slot(i)
                ] is Some && self.storage@[self.slot(i)] == old(self).storage@[old(self).slot(
                    i + 1,
                )] by {
                    assert(self.slot(i) == old(self).slot(i + 1));
                    assert(old(self).slot(i + 1) != old(self).read);
                }
                assert(self@ =~= old(self)@.skip(1));
            }
            self.wake_writer();
            item
        }
    }

    /// Marks the buffer closed for writing; idempotent, never reverted.
    /// Buffered elements stay readable. A pending reader is woken, exactly
    /// once, so it can re-poll and observe the end of the stream; a pending
    /// writer is deliberately left suspended and discovers closure only at
    /// its next write attempt.
    pub fn close(&mut self)
        requires
            old(self).wf(),
        ensures
            final(self).wf(),
            final(self).capacity() == old(self).capacity(),
            final(self)@ == old(self)@,
            final(self).write_closed(),
            final(self).pending_reader() is None,
            final(self).reader_wake_count() == old(self).reader_wake_count() + (
                if old(self).reader_registered() {
                    1int
                } else {
                    0int
                }
            ),
            final(self).pending_writer() == old(self).pending_writer(),
            final(self).writer_wake_count() == old(self).writer_wake_count(),
            final(self).push_count() == old(self).push_count(),
            final(self).pop_count() == old(self).pop_count(),
    {
        self.wake_reader();
        self.closed = true;
        proof {
            assert forall|i: int| 0 <= i < self.count implies self.storage@[
                #[trigger] self.slot(i)
            ] is Some by {
                assert(self.slot(i) == old(self).slot(i));
            }
            assert(self@ =~= old(self)@);
        }
    }

    /// Read poll: pops the oldest element if one is buffered (waking a
    /// pending writer as any pop does); on an empty, closed buffer reports
    /// the permanent end of the stream; on an empty, open buffer registers
    /// `w` as the pending reader, overwriting without invoking any stale
    /// registration, and reports not-ready.
    pub fn poll_next(&mut self, w: Waker) -> (r: ReadPoll<T>)
        requires
            old(self).wf(),
        ensures
            final(self).wf(),
            final(self).capacity() == old(self).capacity(),
            final(self).write_closed() == old(self).write_closed(),
            final(self).reader_wake_count() == old(self).reader_wake_count(),
            final(self).push_count() == old(self).push_count(),
            old(self)@.len() > 0 ==> {
                &&& r == ReadPoll::Item(old(self)@[0])
                &&& final(self)@ == old(self)@.skip(1)
                &&& final(self).pop_count() == old(self).pop_count() + 1
                &&& final(self).pending_reader() == old(self).pending_reader()
                &&& final(self).pending_writer() is None
                &&& final(self).writer_wake_count() == old(self).writer_wake_count() + (
                    if old(self).writer_registered() {
                        1int
                    } else {
                        0int
                    }
                )
            },
            old(self)@.len() == 0 && old(self).write_closed() ==> {
                &&& r is Done
                &&& final(self)@ == old(self)@
                &&& final(self).pop_count() == old(self).pop_count()
                &&& final(self).pending_reader() == old(self).pending_reader()
                &&& final(self).pending_writer() == old(self).pending_writer()
                &&& final(self).writer_wake_count() == old(self).writer_wake_count()
            },
            old(self)@.len() == 0 && !old(self).write_closed() ==> {
                &&& r is Pending
                &&& final(self)@ == old(self)@
                &&& final(self).pop_count() == old(self).pop_count()
                &&& final(self).pending_reader() == Some(w)
                &&& final(self).pending_writer() == old(self).pending_writer()
                &&& final(self).writer_wake_count() == old(self).writer_wake_count()
            },
    {
        match self.pop() {
            Some(item) => ReadPoll::Item(item),
            None => {
                if self.closed {
                    ReadPoll::Done
                } else {
                    self.read_waker = Some(w);
                    proof {
                        assert forall|i: int| 0 <= i < self.count implies self.storage@[
                            #[trigger] self.slot(i)
                        ] is Some by {
                            assert(self.slot(i) == old(self).slot(i));
                        }
                        assert(self@ =~= old(self)@);
                    }
                    ReadPoll::Pending
                }
            }
        }
    }
}

impl<T: Copy> RingBuffer<T> {
    /// Moves the longest prefix of `data` that fits into the buffer, one
    /// element at a time, wrapping around the end of the storage as
    /// needed, and returns how many elements were transferred. A short
    /// write is normal, not an error. If at least one element was moved, a
    /// pending reader is woken, exactly once.
    pub fn push_slice(&mut self, data: &[T]) -> (n: usize)
        requires
            old(self).wf(),
        ensures
            final(self).wf(),
            final(self).capacity() == old(self).capacity(),
            final(self).write_closed() == old(self).write_closed(),
            final(self).pending_writer() == old(self).pending_writer(),
            final(self).writer_wake_count() == old(self).writer_wake_count(),
            final(self).pop_count() == old(self).pop_count(),
            n as int == min(data@.len() as int, old(self).capacity() - old(self)@.len()),
            final(self)@ == old(self)@ + data@.take(n as int),
            final(self).push_count() == old(self).push_count() + n,
            n > 0 ==> final(self).pending_reader() is None && final(self).reader_wake_count()
                == old(self).reader_wake_count() + (
                if old(self).reader_registered() {
                    1int
                } else {
                    0int
                }
            ),
            n == 0 ==> final(self).pending_reader() == old(self).pending_reader()
                && final(self).reader_wake_count() == old(self).reader_wake_count(),
    {
        let mut n: usize = 0;
        while n < data.len() && !self.is_full()
            invariant
                self.wf(),
                n <= data@.len(),
                self.capacity() == old(self).capacity(),
                self.write_closed() == old(self).write_closed(),
                self.pending_writer() == old(self).pending_writer(),
                self.writer_wake_count() == old(self).writer_wake_count(),
                self.pop_count() == old(self).pop_count(),
                self@ == old(self)@ + data@.take(n as int),
                self.push_count() == old(self).push_count() + n,
                n > 0 ==> self.pending_reader() is None
                    && self.reader_wake_count() == old(self).reader_wake_count() + (
                    if old(self).reader_registered() {
                        1int
                    } else {
                        0int
                    }
                ),
                n == 0 ==> self.pending_reader() == old(self).pending_reader()
                    && self.reader_wake_count() == old(self).reader_wake_count(),
            decreases data@.len() - n,
        {
            let _ = self.push(data[n]);
            n = n + 1;
            proof {
                assert(self@ =~= old(self)@ + data@.take(n as int));
            }
        }
        n
    }

    /// Write poll: fails permanently once the buffer is closed; registers
    /// `w` as the pending writer and reports not-ready when the buffer is
    /// full; otherwise buffers the longest prefix of `data` that fits and
    /// reports the count, waking a pending reader exactly once if at least
    /// one element was moved.
    pub fn poll_write(&mut self, data: &[T], w: Waker) -> (r: WritePoll)
        requires
            old(self).wf(),
        ensures
            final(self).wf(),
            final(self).capacity() == old(self).capacity(),
            final(self).write_closed() == old(self).write_closed(),
            final(self).pop_count() == old(self).pop_count(),
            final(self).writer_wake_count() == old(self).writer_wake_count(),
            old(self).write_closed() ==> {
                &&& r is Closed
                &&& final(self)@ == old(self)@
                &&& final(self).push_count() == old(self).push_count()
                &&& final(self).pending_reader() == old(self).pending_reader()
                &&& final(self).reader_wake_count() == old(self).reader_wake_count()
                &&& final(self).pending_writer() == old(self).pending_writer()
            },
            !old(self).write_closed() && old(self)@.len() == old(self).capacity() ==> {
                &&& r is Pending
                &&& final(self)@ == old(self)@
                &&& final(self).push_count() == old(self).push_count()
                &&& final(self).pending_reader() == old(self).pending_reader()
                &&& final(self).reader_wake_count() == old(self).reader_wake_count()
                &&& final(self).pending_writer() == Some(w)
            },
            !old(self).write_closed() && old(self)@.len() < old(self).capacity() ==> ({
                let n = min(data@.len() as int, old(self).capacity() - old(self)@.len());
                &&& r matches WritePoll::Wrote(k) && k as int == n
                &&& final(self)@ == old(self)@ + data@.take(n)
                &&& final(self).push_count() == old(self).push_count() + n
                &&& final(self).pending_writer() == old(self).pending_writer()
                &&& (n > 0 ==> final(self).pending_reader() is None
                    && final(self).reader_wake_count() == old(self).reader_wake_count() + (
                    if old(self).reader_registered() {
                        1int
                    } else {
                        0int
                    }
                ))
                &&& (n == 0 ==> final(self).pending_reader() == old(self).pending_reader()
                    && final(self).reader_wake_count() == old(self).reader_wake_count())
            }),
    {
        if self.closed {
            WritePoll::Closed
        } else if self.is_full() {
            self.write_waker = Some(w);
            proof {
                assert forall|i: int| 0 <= i < self.count implies self.storage@[
                    #[trigger] self.slot(i)
                ] is Some by {
                    assert(self.slot(i) == old(self).slot(i));
                }
                assert(self@ =~= old(self)@);
            }
            WritePoll::Pending
        } else {
            let n = self.push_slice(data);
            WritePoll::Wrote(n)
        }
    }
}

impl<T> View for RingBuffer<T> {
    type V = Seq<T>;

    /// The buffered elements in arrival order.
    closed spec fn view(&self) -> Seq<T> {
        Seq::new(self.count as nat, |i: int| self.storage@[self.slot(i)].unwrap())
    }
}

} // verus!
