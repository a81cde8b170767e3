//! A one-shot channel for sending a single value between cooperative,
//! single-threaded tasks.
//!
//! [`channel`] creates a [`Sender`] and [`Receiver`] pair over one shared
//! cell. The cell's state machine is verified in [`inner`]; the handles
//! here move the cell's state out of the shared slot, run a verified
//! transition on it, put it back, and only then invoke whatever waker the
//! transition handed out. Whatever comes out of the shared slot is treated
//! as an arbitrary channel state, so nothing is trusted about it.
//!
//! The channel is not thread-safe by design: sharing a handle across
//! threads is excluded by the types (no cross-thread-transfer capability),
//! not detected at run time.

use vstd::prelude::*;

use core::cell::Cell;
use core::task::Waker;
use std::rc::Rc;
use crate::oneshot::error::TryRecvError;
use crate::oneshot::inner::{ClosedPoll, Inner, RecvPoll};
use crate::oneshot::wake::waker_wake;

pub mod error;
pub mod inner;
pub mod state;
pub mod wake;

verus! {

/// `core::cell::Cell` declared for Verus: a single-threaded mutable slot.
/// Its contents stay outside the proofs' view.
#[verifier::external_type_specification]
#[verifier::external_body]
#[verifier::reject_recursive_types(T)]
pub struct ExCell<T: ?Sized>(Cell<T>);

/// Relies on `Cell::new`: wraps the seed value into a fresh cell.
#[verifier::external_body]
fn cell_new<T>(value: T) -> (r: Cell<T>)
    opens_invariants none
    no_unwind
{
    Cell::new(value)
}

/// Relies on `Rc::clone`: the clone is a second handle to the same
/// allocation, so as a value it equals the original.
#[verifier::external_body]
fn rc_clone<T>(rc: &Rc<Cell<T>>) -> (r: Rc<Cell<T>>)
    ensures
        r == *rc,
{
    rc.clone()
}

/// Relies on `Cell::replace` (reached through the shared handle): swaps
/// the slot's contents for `x` and returns what was stored. What comes
/// back is never trusted: callers treat it as an arbitrary channel state.
#[verifier::external_body]
fn slot_swap<T>(cell: &Rc<Cell<Option<Inner<T>>>>, x: Option<Inner<T>>) -> (r: Option<Inner<T>>)
    opens_invariants none
    no_unwind
{
    cell.replace(x)
}

/// Sends a value to the associated [`Receiver`].
///
/// A pair of both a `Sender` and a `Receiver` is created by the
/// [`channel`] function. Dropping the sender unsent completes the channel
/// without a value.
#[verifier::reject_recursive_types(T)]
pub struct Sender<T> {
    inner: Option<Rc<Cell<Option<Inner<T>>>>>,
}

/// Receives a value from the associated [`Sender`].
///
/// A pair of both a `Sender` and a `Receiver` is created by the
/// [`channel`] function. Dropping the receiver closes the channel.
#[verifier::reject_recursive_types(T)]
pub struct Receiver<T> {
    inner: Option<Rc<Cell<Option<Inner<T>>>>>,
}

impl<T> Sender<T> {
    /// Whether the handle still holds its reference to the shared cell;
    /// it is given up once a terminal outcome was observed locally.
    pub closed spec fn is_armed(&self) -> bool {
        self.inner is Some
    }
}

impl<T> Receiver<T> {
    /// Whether the handle still holds its reference to the shared cell;
    /// it is given up once a terminal outcome was observed locally.
    pub closed spec fn is_armed(&self) -> bool {
        self.inner is Some
    }
}

/// Whether the two handles hold references to one and the same shared
/// cell, as the two halves of one channel do.
pub closed spec fn connected<T>(tx: &Sender<T>, rx: &Receiver<T>) -> bool {
    &&& tx.inner is Some
    &&& rx.inner is Some
    &&& tx.inner->0 == rx.inner->0
}

/// Create a one-shot channel: separate send and receive handles over one
/// shared cell, which starts out open, incomplete and empty.
pub fn channel<T>() -> (r: (Sender<T>, Receiver<T>))
    ensures
        r.0.is_armed(),
        r.1.is_armed(),
        connected(&r.0, &r.1),
{
    let core = Inner::new();
    let cell = cell_new(Some(core));
    let rc = Rc::new(cell);
    let rc2 = rc_clone(&rc);
    (Sender { inner: Some(rc2) }, Receiver { inner: Some(rc) })
}

impl<T> Sender<T> {
    /// Attempt to send a value, consuming the sender; sending never
    /// suspends. The cell's verified `send` transition decides the
    /// outcome: on a channel the receiver already closed, the value comes
    /// straight back as the error payload; otherwise the channel completes
    /// and a registered receiver waker is woken after the cell is
    /// restored. An error therefore returns exactly the value passed in.
    pub fn send(self, t: T) -> (r: Result<(), T>)
        ensures
            r matches Err(v) ==> v == t,
    {
        let mut this = self;
        let slot = this.inner.take();
        match slot {
            Some(cell) => {
                match slot_swap(&cell, None) {
                    Some(mut core) => {
                        let (res, wake) = core.send(t);
                        let _prev = slot_swap(&cell, Some(core));
                        match wake {
                            Some(w) => waker_wake(w),
                            None => {},
                        }
                        res
                    },
                    None => Err(t),
                }
            },
            None => Err(t),
        }
    }

    /// Whether the receive half has closed the channel. Reads the shared
    /// cell; the verified fact `State::is_closed` is evaluated on whatever
    /// state the cell holds at this instant.
    pub fn is_closed(&self) -> bool {
        match &self.inner {
            Some(cell) => {
                match slot_swap(cell, None) {
                    Some(core) => {
                        let r = core.is_closed();
                        let _prev = slot_swap(cell, Some(core));
                        r
                    },
                    None => true,
                }
            },
            None => true,
        }
    }

    /// Check whether the channel has been closed and, if not, store the
    /// supplied waker to be notified when it is. Only the waker of the
    /// most recent call is kept. The verified `poll_closed` transition of
    /// the cell decides the outcome.
    pub fn poll_closed(&mut self, waker: &Waker) -> (r: ClosedPoll)
        ensures
            final(self).is_armed() == old(self).is_armed(),
    {
        match &self.inner {
            Some(cell) => {
                match slot_swap(cell, None) {
                    Some(mut core) => {
                        let r = core.poll_closed(waker);
                        let _prev = slot_swap(cell, Some(core));
                        r
                    },
                    None => ClosedPoll::Ready,
                }
            },
            None => ClosedPoll::Ready,
        }
    }
}

impl<T> Drop for Sender<T> {
    /// Dropping an unsent sender completes the channel without a value,
    /// waking a pending receiver so that it resolves to the closed
    /// outcome; a sender consumed by `send` has already given its
    /// reference up, so nothing happens twice.
    fn drop(&mut self)
        opens_invariants none
        no_unwind
    {
        match &self.inner {
            Some(cell) => {
                match slot_swap(cell, None) {
                    Some(mut core) => {
                        let (_won, wake) = core.complete();
                        let _prev = slot_swap(cell, Some(core));
                        match wake {
                            Some(w) => waker_wake(w),
                            None => {},
                        }
                    },
                    None => {},
                }
            },
            None => {},
        }
    }
}

impl<T> Receiver<T> {
    /// Prevent the sender from sending a value; idempotent, and a no-op
    /// on a channel already closed. Any send after `close` fails; a value
    /// sent before it can still be taken with `try_recv`. A sender waiting
    /// on `poll_closed` is woken after the cell is restored, by the one
    /// close that closes the channel and by no repeat of it.
    pub fn close(&self)
        opens_invariants none
        no_unwind
    {
        match &self.inner {
            Some(cell) => {
                match slot_swap(cell, None) {
                    Some(mut core) => {
                        let wake = core.close();
                        let _prev = slot_swap(cell, Some(core));
                        match wake {
                            Some(w) => waker_wake(w),
                            None => {},
                        }
                    },
                    None => {},
                }
            },
            None => {},
        }
    }

    /// Whether the channel is closed; a receiver that already observed a
    /// terminal outcome reports true without touching the cell.
    pub fn is_closed(&self) -> (r: bool)
        ensures
            !self.is_armed() ==> r,
    {
        match &self.inner {
            Some(cell) => {
                match slot_swap(cell, None) {
                    Some(core) => {
                        let r = core.is_closed();
                        let _prev = slot_swap(cell, Some(core));
                        r
                    },
                    None => true,
                }
            },
            None => true,
        }
    }

    /// Attempt to receive without suspending; never registers a waker, as
    /// this is an out-of-task-context query. The verified `try_recv`
    /// transition of the cell decides: the value if one is pending,
    /// `Closed` if no value can arrive any more, `Empty` otherwise. On
    /// `Empty` the receiver stays armed; on any terminal outcome it
    /// detaches from the cell, which makes a later receive report
    /// `Closed` and keeps drop from signaling twice.
    pub fn try_recv(&mut self) -> (r: Result<T, TryRecvError>)
        ensures
            !old(self).is_armed() ==> r matches Err(TryRecvError::Closed),
            r matches Err(TryRecvError::Empty) ==> final(self).is_armed() == old(
                self,
            ).is_armed(),
            !(r matches Err(TryRecvError::Empty)) ==> !final(self).is_armed(),
    {
        let slot = self.inner.take();
        match slot {
            Some(cell) => {
                match slot_swap(&cell, None) {
                    Some(mut core) => {
                        let r = core.try_recv();
                        let _prev = slot_swap(&cell, Some(core));
                        match r {
                            Err(TryRecvError::Empty) => {
                                self.inner = Some(cell);
                                Err(TryRecvError::Empty)
                            },
                            other => other,
                        }
                    },
                    None => Err(TryRecvError::Closed),
                }
            },
            None => Err(TryRecvError::Closed),
        }
    }

    /// The suspension point of the receiver as an awaitable: pending until
    /// the channel completes or closes, storing (or refreshing) the given
    /// waker; then the value, or `Closed` when none can arrive. After a
    /// terminal outcome the receiver detaches, and a further poll reports
    /// `Closed`.
    pub fn poll_recv(&mut self, waker: &Waker) -> (r: RecvPoll<T>)
        ensures
            !old(self).is_armed() ==> r is Closed,
            r is Pending ==> final(self).is_armed() == old(self).is_armed(),
            !(r is Pending) ==> !final(self).is_armed(),
    {
        let slot = self.inner.take();
        match slot {
            Some(cell) => {
                match slot_swap(&cell, None) {
                    Some(mut core) => {
                        let r = core.poll_recv(waker);
                        let _prev = slot_swap(&cell, Some(core));
                        match r {
                            RecvPoll::Pending => {
                                self.inner = Some(cell);
                                RecvPoll::Pending
                            },
                            other => other,
                        }
                    },
                    None => RecvPoll::Closed,
                }
            },
            None => RecvPoll::Closed,
        }
    }
}

impl<T> Drop for Receiver<T> {
    /// Dropping the receiver closes the channel (idempotent with an
    /// explicit `close`), so a sender suspended on `poll_closed` is always
    /// eventually woken, whatever the drop order of the two handles.
    fn drop(&mut self)
        opens_invariants none
        no_unwind
    {
        self.close();
    }
}

} // verus!
