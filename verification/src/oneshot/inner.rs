//! The shared cell of a oneshot channel and its verified state machine.
//!
//! Every transition of the protocol is a method of [`Inner`] whose
//! contract equates it with a model-level spec function over
//! [`ChannelModel`]; waking is returned to the caller as a cloned waker
//! rather than performed inside, so the transitions are pure state
//! changes.

use vstd::prelude::*;

use core::task::Waker;
use crate::oneshot::error::TryRecvError;
use crate::oneshot::state::State;
use crate::oneshot::wake::waker_clone;

verus! {

/// The model of a oneshot channel cell: what the contracts speak of.
pub ghost struct ChannelModel<T> {
    /// The value sent and not yet taken, if any.
    pub value: Option<T>,
    /// Whether the send half has completed (sent, or dropped unsent).
    pub complete: bool,
    /// Whether the receive half has closed the channel.
    pub closed: bool,
    /// Whether a receiver wake callback is stored.
    pub rx_task: bool,
    /// Whether a sender wake callback is stored.
    pub tx_task: bool,
}

/// The model of a freshly created channel.
pub open spec fn initial_model<T>() -> ChannelModel<T> {
    ChannelModel { value: None, complete: false, closed: false, rx_task: false, tx_task: false }
}

/// Model transition of `complete` (sender side: sent, or dropped unsent):
/// the channel becomes complete; the step reports failure when the channel
/// was already closed.
pub open spec fn spec_complete<T>(m: ChannelModel<T>) -> (ChannelModel<T>, bool) {
    ((ChannelModel { complete: true, ..m }), !m.closed)
}

/// Whether `complete` must invoke the stored receiver waker.
pub open spec fn complete_wakes<T>(m: ChannelModel<T>) -> bool {
    !m.closed && m.rx_task
}

/// Model transition of `close` (receiver side): the channel becomes
/// closed; everything else stays.
pub open spec fn spec_close<T>(m: ChannelModel<T>) -> ChannelModel<T> {
    ChannelModel { closed: true, ..m }
}

/// Whether `close` must invoke the stored sender waker: only the close
/// that actually closes the channel wakes; a repeated close is a no-op
/// and wakes nobody.
pub open spec fn close_wakes<T>(m: ChannelModel<T>) -> bool {
    m.tx_task && !m.complete && !m.closed
}

/// Model transition of `send`: the value lands in the cell and the channel
/// completes; but on a channel already closed the write is retracted and
/// the value handed straight back to the caller, which therefore learns it
/// was never observed.
pub open spec fn spec_send<T>(m: ChannelModel<T>, t: T) -> (ChannelModel<T>, Result<(), T>) {
    if m.closed {
        ((ChannelModel { complete: true, value: None, ..m }), Err(t))
    } else {
        ((ChannelModel { complete: true, value: Some(t), ..m }), Ok(()))
    }
}

/// Whether `send` must invoke the stored receiver waker.
pub open spec fn send_wakes<T>(m: ChannelModel<T>) -> bool {
    !m.closed && m.rx_task
}

/// Model transition of `try_recv`: take the value if the channel is
/// complete and still holds one; report closed when no value can arrive
/// any more; report empty otherwise, registering nothing.
pub open spec fn spec_try_recv<T>(m: ChannelModel<T>) -> (ChannelModel<T>, Result<
    T,
    TryRecvError,
>) {
    if m.complete {
        match m.value {
            Some(v) => ((ChannelModel { value: None, ..m }), Ok(v)),
            None => (m, Err(TryRecvError::Closed)),
        }
    } else if m.closed {
        (m, Err(TryRecvError::Closed))
    } else {
        (m, Err(TryRecvError::Empty))
    }
}

/// Outcome of polling the channel for its value.
pub enum RecvPoll<T> {
    /// No outcome yet; the receiver's waker is stored for wakeup.
    Pending,
    /// The channel completed with a value.
    Value(T),
    /// The channel completed without a value, or was closed: no value will
    /// ever arrive.
    Closed,
}

/// Outcome of polling for the channel to close.
pub enum ClosedPoll {
    /// The channel is still open; the sender's waker is stored for wakeup.
    Pending,
    /// The channel is closed.
    Ready,
}

/// Model transition of a suspending receive poll: resolve to the value or
/// to the closed outcome, or store the receiver waker and stay pending.
pub open spec fn spec_poll_recv<T>(m: ChannelModel<T>) -> (ChannelModel<T>, RecvPoll<T>) {
    if m.complete {
        match m.value {
            Some(v) => ((ChannelModel { value: None, ..m }), RecvPoll::Value(v)),
            None => (m, RecvPoll::Closed),
        }
    } else if m.closed {
        (m, RecvPoll::Closed)
    } else {
        ((ChannelModel { rx_task: true, ..m }), RecvPoll::Pending)
    }
}

/// Model transition of a suspending closed-poll: ready once closed, else
/// store the sender waker and stay pending.
pub open spec fn spec_poll_closed<T>(m: ChannelModel<T>) -> (ChannelModel<T>, ClosedPoll) {
    if m.closed {
        (m, ClosedPoll::Ready)
    } else {
        ((ChannelModel { tx_task: true, ..m }), ClosedPoll::Pending)
    }
}

/// The shared cell of a oneshot channel: the bit-packed state, the value
/// cell, and one waker slot for each direction of notification.
pub struct Inner<T> {
    /// The lifecycle state bits.
    state: State,
    /// The value cell: written once by the sender, taken at most once by
    /// the receiver.
    value: Option<T>,
    /// The waker to notify when the receiver closes before completion.
    tx_task: Option<Waker>,
    /// The waker to notify when the channel completes.
    rx_task: Option<Waker>,
}

impl<T> View for Inner<T> {
    type V = ChannelModel<T>;

    closed spec fn view(&self) -> ChannelModel<T> {
        ChannelModel {
            value: self.value,
            complete: self.state@.complete,
            closed: self.state@.closed,
            rx_task: self.rx_task is Some,
            tx_task: self.tx_task is Some,
        }
    }
}

impl<T> Inner<T> {
    /// The state bits agree with the waker slots: a slot is occupied
    /// exactly when its bit says so. Established at construction and
    /// preserved by every transition; the slots themselves are
    /// authoritative for the contracts.
    pub closed spec fn wf(self) -> bool {
        &&& self.state@.rx_task == (self.rx_task is Some)
        &&& self.state@.tx_task == (self.tx_task is Some)
    }

    /// A fresh cell: initial state, no value, no wakers.
    pub fn new() -> (r: Inner<T>)
        ensures
            r.wf(),
            r@ == initial_model::<T>(),
    {
        Inner { state: State::new(), value: None, tx_task: None, rx_task: None }
    }

    /// Whether the channel is closed.
    pub fn is_closed(&self) -> (r: bool)
        ensures
            r == self@.closed,
        opens_invariants none
        no_unwind
    {
        self.state.is_closed()
    }

    /// Whether the channel is complete.
    pub fn is_complete(&self) -> (r: bool)
        ensures
            r == self@.complete,
        opens_invariants none
        no_unwind
    {
        self.state.is_complete()
    }

    /// Take the value out of the cell, if present.
    pub(crate) fn consume_value(&mut self) -> (r: Option<T>)
        ensures
            r == old(self)@.value,
            final(self)@ == (ChannelModel { value: None, ..old(self)@ }),
            old(self).wf() ==> final(self).wf(),
    {
        self.value.take()
    }

    /// Mark the channel complete (sender side: sent, or dropped unsent).
    /// Reports whether completion won (the channel was not already closed)
    /// and, when it did and a receiver waker is stored, hands back a clone
    /// of that waker, which the caller must invoke.
    pub fn complete(&mut self) -> (r: (bool, Option<Waker>))
        ensures
            (final(self)@, r.0) == spec_complete(old(self)@),
            r.1 is Some <==> complete_wakes(old(self)@),
            old(self).wf() ==> final(self).wf(),
        opens_invariants none
        no_unwind
    {
        let s = self.state.set_complete();
        if s.is_closed() {
            (false, None)
        } else {
            match &self.rx_task {
                Some(w) => (true, Some(waker_clone(w))),
                None => (true, None),
            }
        }
    }

    /// Mark the channel closed (receiver side); idempotent, and a no-op
    /// when the channel is already closed. Only when this call is the one
    /// that closes an incomplete channel is a stored sender waker handed
    /// back, cloned, to be invoked: a repeated close never re-wakes.
    pub fn close(&mut self) -> (wake: Option<Waker>)
        ensures
            final(self)@ == spec_close(old(self)@),
            wake is Some <==> close_wakes(old(self)@),
            old(self).wf() ==> final(self).wf(),
        opens_invariants none
        no_unwind
    {
        let was_closed = self.state.is_closed();
        let s = self.state.set_closed();
        if was_closed || s.is_complete() {
            None
        } else {
            match &self.tx_task {
                Some(w) => Some(waker_clone(w)),
                None => None,
            }
        }
    }

    /// The sender's transition: write the value, then attempt to complete.
    /// On a channel already closed the write is retracted and the value
    /// returned as the error payload, and nobody is woken; otherwise a
    /// stored receiver waker is handed back, cloned, to be invoked.
    pub fn send(&mut self, t: T) -> (r: (Result<(), T>, Option<Waker>))
        ensures
            (final(self)@, r.0) == spec_send(old(self)@, t),
            r.1 is Some <==> send_wakes(old(self)@),
            old(self).wf() ==> final(self).wf(),
    {
        self.value = Some(t);
        let (ok, wake) = self.complete();
        if !ok {
            match self.consume_value() {
                Some(v) => (Err(v), wake),
                None => vstd::pervasive::unreached(),
            }
        } else {
            (Ok(()), wake)
        }
    }

    /// The receiver's non-suspending poll: the value if one is pending,
    /// `Closed` if no value can arrive any more, `Empty` otherwise —
    /// registering no waker, as this is an out-of-task-context query.
    pub fn try_recv(&mut self) -> (r: Result<T, TryRecvError>)
        ensures
            (final(self)@, r) == spec_try_recv(old(self)@),
            old(self).wf() ==> final(self).wf(),
    {
        if self.state.is_complete() {
            match self.consume_value() {
                Some(v) => Ok(v),
                None => Err(TryRecvError::Closed),
            }
        } else if self.state.is_closed() {
            Err(TryRecvError::Closed)
        } else {
            Err(TryRecvError::Empty)
        }
    }

    /// The receiver's suspending poll: resolve if complete or closed, else
    /// store (or refresh) the receiver waker and stay pending. On repeated
    /// polls only the waker of the most recent call stays stored: a stored
    /// waker that would wake a different task is dropped and replaced,
    /// never left dangling.
    pub fn poll_recv(&mut self, waker: &Waker) -> (r: RecvPoll<T>)
        ensures
            (final(self)@, r) == spec_poll_recv(old(self)@),
            old(self).wf() ==> final(self).wf(),
    {
        if self.state.is_complete() {
            match self.consume_value() {
                Some(v) => RecvPoll::Value(v),
                None => RecvPoll::Closed,
            }
        } else if self.state.is_closed() {
            RecvPoll::Closed
        } else {
            let refresh = match &self.rx_task {
                Some(stored) => !stored.will_wake(waker),
                None => true,
            };
            if refresh {
                self.rx_task = Some(waker_clone(waker));
            }
            self.state.set_rx_task();
            RecvPoll::Pending
        }
    }

    /// The sender's suspending poll for closure: ready once closed, else
    /// store (or refresh) the sender waker and stay pending, with the same
    /// stale-waker replacement discipline as the receive side.
    pub fn poll_closed(&mut self, waker: &Waker) -> (r: ClosedPoll)
        ensures
            (final(self)@, r) == spec_poll_closed(old(self)@),
            old(self).wf() ==> final(self).wf(),
    {
        if self.state.is_closed() {
            ClosedPoll::Ready
        } else {
            let refresh = match &self.tx_task {
                Some(stored) => !stored.will_wake(waker),
                None => true,
            };
            if refresh {
                self.tx_task = Some(waker_clone(waker));
            }
            self.state.set_tx_task();
            ClosedPoll::Pending
        }
    }
}

/// Law: a value sent on an open, incomplete channel is received exactly
/// once, whether by `try_recv` or by a suspending poll, and a second
/// receive attempt reports the channel closed.
pub proof fn lemma_send_recv_once<T>(m: ChannelModel<T>, x: T)
    requires
        !m.closed,
        !m.complete,
    ensures
        ({
            let (m1, r1) = spec_send(m, x);
            let (m2, r2) = spec_try_recv(m1);
            let (m3, r3) = spec_try_recv(m2);
            &&& r1 == Ok::<(), T>(())
            &&& r2 == Ok::<T, TryRecvError>(x)
            &&& r3 == Err::<T, TryRecvError>(TryRecvError::Closed)
            &&& spec_poll_recv(m1).1 == RecvPoll::Value(x)
            &&& spec_poll_recv(spec_poll_recv(m1).0).1 == RecvPoll::<T>::Closed
        }),
{
}

/// Law: a sender dropped before sending completes the channel without a
/// value, so a pending receive resolves to the closed outcome instead of
/// hanging.
pub proof fn lemma_sender_drop_closes<T>(m: ChannelModel<T>)
    requires
        !m.closed,
        !m.complete,
        m.value is None,
    ensures
        ({
            let (m1, _won) = spec_complete(m);
            &&& spec_poll_recv(m1).1 == RecvPoll::<T>::Closed
            &&& spec_try_recv(m1).1 == Err::<T, TryRecvError>(TryRecvError::Closed)
        }),
{
}

/// Law: once the receiver closes the channel, any send fails, hands the
/// value back to the caller, and leaves no value in the cell.
pub proof fn lemma_close_then_send<T>(m: ChannelModel<T>, x: T)
    ensures
        ({
            let m1 = spec_close(m);
            let (m2, r) = spec_send(m1, x);
            &&& m1.closed
            &&& r == Err::<(), T>(x)
            &&& m2.value is None
        }),
{
}

/// Law: `try_recv` reports empty before any send, the value after a send,
/// and closed after the sender completed without sending.
pub proof fn lemma_try_recv_stages<T>(x: T)
    ensures
        spec_try_recv(initial_model::<T>()).1 == Err::<T, TryRecvError>(TryRecvError::Empty),
        spec_try_recv(spec_send(initial_model::<T>(), x).0).1 == Ok::<T, TryRecvError>(x),
        spec_try_recv(spec_complete(initial_model::<T>()).0).1 == Err::<T, TryRecvError>(
            TryRecvError::Closed,
        ),
{
}

/// Law: closing is idempotent — a second close leaves the channel's state
/// exactly as the first left it, and wakes nobody.
pub proof fn lemma_close_idempotent<T>(m: ChannelModel<T>)
    ensures
        spec_close(spec_close(m)) == spec_close(m),
        !close_wakes(spec_close(m)),
{
}

/// Law: a fresh channel is not closed, closing marks it closed and makes
/// a sender's closed-poll ready at once, and a send attempted on any
/// closed channel always fails.
pub proof fn lemma_closed_flag<T>(m: ChannelModel<T>, x: T)
    ensures
        !initial_model::<T>().closed,
        spec_close(m).closed,
        spec_poll_closed(spec_close(m)).1 == ClosedPoll::Ready,
        !m.closed ==> spec_poll_closed(m).1 == ClosedPoll::Pending,
        m.closed ==> spec_send(m, x).1 == Err::<(), T>(x),
{
}

} // verus!
