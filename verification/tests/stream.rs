use futures::task::noop_waker;
use futures_ringbuf::ReadPoll;
use futures_ringbuf::RingBuffer;
use futures_ringbuf::WritePoll;
use futures_test::task::new_count_waker;

#[test]
fn stream() {
    let mut ring = RingBuffer::<u8>::new(2);

    // create a full buffer
    //
    ring.push(b'a').expect("write");
    ring.push(b'b').expect("write");

    // read 1
    //
    assert_eq!(ring.poll_next(noop_waker()), ReadPoll::Item(b'a'));

    assert!(!ring.is_empty());
    assert!(!ring.is_full());

    assert_eq!(ring.len(), 1);
    assert_eq!(ring.remaining(), 1);

    assert!(!ring.has_read_waker());
    assert!(!ring.has_write_waker());

    // read 2
    //
    assert_eq!(ring.poll_next(noop_waker()), ReadPoll::Item(b'b'));

    assert!(ring.is_empty());
    assert!(!ring.is_full());

    assert_eq!(ring.len(), 0);
    assert_eq!(ring.remaining(), 2);

    assert!(!ring.has_read_waker());
    assert!(!ring.has_write_waker());

    // read 3
    //
    let (waker, count) = new_count_waker();

    assert_eq!(ring.poll_next(waker.clone()), ReadPoll::Pending);

    assert!(ring.is_empty());
    assert!(!ring.is_full());

    assert_eq!(ring.len(), 0);
    assert_eq!(ring.remaining(), 2);

    assert!(ring.has_read_waker());
    assert!(!ring.has_write_waker());

    // Write one back, verify read_waker gets woken up and we can read again
    //
    let arr = [b'c'];

    assert_eq!(ring.poll_write(&arr, noop_waker()), WritePoll::Wrote(1));

    assert!(!ring.is_empty());
    assert!(!ring.is_full());

    assert_eq!(ring.len(), 1);
    assert_eq!(ring.remaining(), 1);

    assert!(!ring.has_read_waker());
    assert_eq!(count, 1);

    assert_eq!(ring.poll_next(waker), ReadPoll::Item(b'c'));

    assert!(ring.is_empty());
    assert!(!ring.is_full());

    assert_eq!(ring.len(), 0);
    assert_eq!(ring.remaining(), 2);
}

#[test]
fn closed_next() {
    let mut ring = RingBuffer::<u8>::new(2);
    let arr = [b'a'];

    assert_eq!(ring.poll_write(&arr, noop_waker()), WritePoll::Wrote(1));
    ring.close();

    assert_eq!(ring.poll_next(noop_waker()), ReadPoll::Item(b'a'));
    assert_eq!(ring.poll_next(noop_waker()), ReadPoll::Done);

    // try read again, just in case
    //
    assert_eq!(ring.poll_next(noop_waker()), ReadPoll::Done);
}
