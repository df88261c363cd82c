//! The trusted boundary around `core::task::Waker`.
//!
//! A waker is the opaque handle a suspended task leaves behind so that the
//! scheduler can be told to poll it again. The verifier sees nothing inside
//! a `Waker`; the buffer's contracts instead track *when* one is stored,
//! taken and invoked.

use vstd::prelude::*;

verus! {

#[verifier::external_type_specification]
#[verifier::external_body]
pub struct ExWaker(core::task::Waker);

/// Relies on `core::task::Waker::wake`: consumes the handle and signals the
/// scheduler to re-poll the task that registered it. Nothing is stated of
/// the call itself; the buffer's ghost wake counters record each use.
#[verifier::external_body]
pub(crate) fn wake(waker: core::task::Waker) {
    waker.wake()
}

} // verus!
