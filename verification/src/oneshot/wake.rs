//! Trusted declarations for `core::task::Waker`, the wake-callback handle
//! supplied by the cooperative scheduler.
//!
//! Wakers stay opaque to the proofs: the library only stores, clones,
//! compares and invokes them. Nothing is assumed about any outcome.

use vstd::prelude::*;

verus! {

/// `core::task::Waker` declared for Verus: an opaque handle that, when
/// invoked, schedules a suspended task for resumption.
#[verifier::external_type_specification]
#[verifier::external_body]
pub struct ExWaker(core::task::Waker);

/// Relies on `Waker::will_wake`: true when the two handles are known to
/// wake the same task. Used only to decide whether a stored waker must be
/// refreshed, so nothing is assumed of the answer. It compares the
/// handles' data and vtable pointers and runs no user code.
pub assume_specification[ core::task::Waker::will_wake ](
    stored: &core::task::Waker,
    other: &core::task::Waker,
) -> bool;

/// Relies on `Waker::clone`: the clone wakes the same task as the
/// original. Nothing is assumed of the returned handle. A waker's clone
/// callback must not unwind, as the cooperative model requires of all
/// scheduler callbacks.
#[verifier::external_body]
pub(crate) fn waker_clone(w: &core::task::Waker) -> (r: core::task::Waker)
    opens_invariants none
    no_unwind
{
    w.clone()
}

/// Relies on `Waker::wake`: schedules the waker's task for resumption and
/// consumes the handle. Its effect is on the external scheduler only. A
/// waker's wake callback must not unwind, as the cooperative model
/// requires of all scheduler callbacks.
#[verifier::external_body]
pub(crate) fn waker_wake(w: core::task::Waker)
    opens_invariants none
    no_unwind
{
    w.wake()
}

} // verus!
