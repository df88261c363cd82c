//! Laws that span whole operation histories rather than a single call.
//!
//! `RingBuffer::push` appends to the back of the contents and
//! `RingBuffer::pop` removes from the front; the lemmas here lift those
//! single-step contracts to the first-in first-out round trip over any
//! number of elements.

use vstd::prelude::*;

verus! {

/// The contents of a buffer that held `start` after the elements of `es`
/// are pushed one at a time, oldest first: each step appends one element
/// to the back, exactly as `RingBuffer::push`'s contract states.
pub open spec fn pushed_in_order<T>(start: Seq<T>, es: Seq<T>) -> Seq<T>
    decreases es.len(),
{
    if es.len() == 0 {
        start
    } else {
        pushed_in_order(start.push(es[0]), es.skip(1))
    }
}

/// Pushing in order appends: the contents end as `start` followed by the
/// whole of `es`, with nothing lost, duplicated or reordered.
pub proof fn lemma_pushed_in_order_appends<T>(start: Seq<T>, es: Seq<T>)
    ensures
        pushed_in_order(start, es) == start + es,
    decreases es.len(),
{
    if es.len() == 0 {
        assert(pushed_in_order(start, es) =~= start + es);
    } else {
        lemma_pushed_in_order_appends(start.push(es[0]), es.skip(1));
        assert(start.push(es[0]) + es.skip(1) =~= start + es);
    }
}

/// Round trip: pushing `e1..en` into an empty buffer leaves exactly
/// `e1..en` buffered, and popping then yields them in that order. After
/// `i` pops the contents are `es.skip(i)`; `RingBuffer::pop` returns the
/// head of the contents and leaves the rest, so the `i`-th pop returns
/// `es[i]` and leaves `es.skip(i + 1)`.
pub proof fn law_round_trip<T>(es: Seq<T>)
    ensures
        pushed_in_order(Seq::empty(), es) == es,
        forall|i: int|
            0 <= i < es.len() ==> (#[trigger] es.skip(i))[0] == es[i] && es.skip(i).skip(1)
                == es.skip(i + 1),
{
    lemma_pushed_in_order_appends(Seq::empty(), es);
    assert(Seq::empty() + es =~= es);
    assert forall|i: int|
        0 <= i < es.len() implies (#[trigger] es.skip(i))[0] == es[i] && es.skip(i).skip(1)
        == es.skip(i + 1) by {
        assert(es.skip(i).skip(1) =~= es.skip(i + 1));
    }
}

} // verus!
