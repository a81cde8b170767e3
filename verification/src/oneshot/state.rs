//! The bit-packed lifecycle state of a oneshot channel.

use vstd::prelude::*;

verus! {

/// Bit for "a receiver wake callback is stored".
pub const RX_TASK_SET: usize = 0b00001;

/// Bit for "the value has been sent" (the channel is complete).
pub const VALUE_SENT: usize = 0b00010;

/// Bit for "the channel is closed".
pub const CLOSED: usize = 0b00100;

/// Bit for "a sender wake callback is stored".
pub const TX_TASK_SET: usize = 0b01000;

/// The four independent boolean facts encoded in a [`State`].
pub ghost struct StateModel {
    /// A receiver wake callback is stored.
    pub rx_task: bool,
    /// The value has been sent (the channel is complete).
    pub complete: bool,
    /// The channel is closed.
    pub closed: bool,
    /// A sender wake callback is stored.
    pub tx_task: bool,
}

/// Four independent boolean facts about a oneshot channel's lifecycle,
/// bit-packed into one integer; every transition is a read-modify-write of
/// that integer.
#[derive(Clone, Copy)]
pub struct State(usize);

impl View for State {
    type V = StateModel;

    closed spec fn view(&self) -> StateModel {
        StateModel {
            rx_task: self.0 & RX_TASK_SET == RX_TASK_SET,
            complete: self.0 & VALUE_SENT == VALUE_SENT,
            closed: self.0 & CLOSED == CLOSED,
            tx_task: self.0 & TX_TASK_SET == TX_TASK_SET,
        }
    }
}

impl State {
    /// The raw bits.
    pub closed spec fn spec_bits(self) -> usize {
        self.0
    }

    /// A fresh state: no bits set.
    pub fn new() -> (s: State)
        ensures
            s@ == (StateModel { rx_task: false, complete: false, closed: false, tx_task: false }),
            s.spec_bits() == 0,
        opens_invariants none
        no_unwind
    {
        proof {
            assert(0usize & 0b00001 != 0b00001 && 0usize & 0b00010 != 0b00010 && 0usize & 0b00100
                != 0b00100 && 0usize & 0b01000 != 0b01000) by (bit_vector);
        }
        State(0)
    }

    /// Whether the value has been sent.
    pub fn is_complete(self) -> (r: bool)
        ensures
            r == self@.complete,
        opens_invariants none
        no_unwind
    {
        self.0 & VALUE_SENT == VALUE_SENT
    }

    /// Set the "value sent" bit; returns the new state.
    pub fn set_complete(&mut self) -> (s: State)
        ensures
            s == *final(self),
            final(self)@ == (StateModel { complete: true, ..old(self)@ }),
            final(self).spec_bits() == old(self).spec_bits() | VALUE_SENT,
        opens_invariants none
        no_unwind
    {
        proof {
            let b = self.0;
            assert(((b | 0b00010usize) & 0b00001 == 0b00001) == (b & 0b00001 == 0b00001) && ((b
                | 0b00010usize) & 0b00010 == 0b00010) && (((b | 0b00010usize) & 0b00100 == 0b00100)
                == (b & 0b00100 == 0b00100)) && (((b | 0b00010usize) & 0b01000 == 0b01000) == (b
                & 0b01000 == 0b01000))) by (bit_vector);
        }
        self.0 = self.0 | VALUE_SENT;
        *self
    }

    /// Whether a receiver wake callback is recorded as stored.
    pub fn is_rx_task_set(self) -> (r: bool)
        ensures
            r == self@.rx_task,
        opens_invariants none
        no_unwind
    {
        self.0 & RX_TASK_SET == RX_TASK_SET
    }

    /// Set the "receiver waker stored" bit; returns the new state.
    pub fn set_rx_task(&mut self) -> (s: State)
        ensures
            s == *final(self),
            final(self)@ == (StateModel { rx_task: true, ..old(self)@ }),
            final(self).spec_bits() == old(self).spec_bits() | RX_TASK_SET,
        opens_invariants none
        no_unwind
    {
        proof {
            let b = self.0;
            assert(((b | 0b00001usize) & 0b00001 == 0b00001) && (((b | 0b00001usize) & 0b00010
                == 0b00010) == (b & 0b00010 == 0b00010)) && (((b | 0b00001usize) & 0b00100
                == 0b00100) == (b & 0b00100 == 0b00100)) && (((b | 0b00001usize) & 0b01000
                == 0b01000) == (b & 0b01000 == 0b01000))) by (bit_vector);
        }
        self.0 = self.0 | RX_TASK_SET;
        *self
    }

    /// Clear the "receiver waker stored" bit; returns the new state.
    pub fn unset_rx_task(&mut self) -> (s: State)
        ensures
            s == *final(self),
            final(self)@ == (StateModel { rx_task: false, ..old(self)@ }),
            final(self).spec_bits() == old(self).spec_bits() & !RX_TASK_SET,
        opens_invariants none
        no_unwind
    {
        proof {
            let b = self.0;
            assert(((b & !0b00001usize) & 0b00001 != 0b00001) && (((b & !0b00001usize) & 0b00010
                == 0b00010) == (b & 0b00010 == 0b00010)) && (((b & !0b00001usize) & 0b00100
                == 0b00100) == (b & 0b00100 == 0b00100)) && (((b & !0b00001usize) & 0b01000
                == 0b01000) == (b & 0b01000 == 0b01000))) by (bit_vector);
        }
        self.0 = self.0 & !RX_TASK_SET;
        *self
    }

    /// Whether the channel is closed.
    pub fn is_closed(self) -> (r: bool)
        ensures
            r == self@.closed,
        opens_invariants none
        no_unwind
    {
        self.0 & CLOSED == CLOSED
    }

    /// Set the "closed" bit; returns the new state.
    pub fn set_closed(&mut self) -> (s: State)
        ensures
            s == *final(self),
            final(self)@ == (StateModel { closed: true, ..old(self)@ }),
            final(self).spec_bits() == old(self).spec_bits() | CLOSED,
        opens_invariants none
        no_unwind
    {
        proof {
            let b = self.0;
            assert((((b | 0b00100usize) & 0b00001 == 0b00001) == (b & 0b00001 == 0b00001)) && (((b
                | 0b00100usize) & 0b00010 == 0b00010) == (b & 0b00010 == 0b00010)) && ((b
                | 0b00100usize) & 0b00100 == 0b00100) && (((b | 0b00100usize) & 0b01000 == 0b01000)
                == (b & 0b01000 == 0b01000))) by (bit_vector);
        }
        self.0 = self.0 | CLOSED;
        *self
    }

    /// Set the "sender waker stored" bit; returns the new state.
    pub fn set_tx_task(&mut self) -> (s: State)
        ensures
            s == *final(self),
            final(self)@ == (StateModel { tx_task: true, ..old(self)@ }),
            final(self).spec_bits() == old(self).spec_bits() | TX_TASK_SET,
        opens_invariants none
        no_unwind
    {
        proof {
            let b = self.0;
            assert((((b | 0b01000usize) & 0b00001 == 0b00001) == (b & 0b00001 == 0b00001)) && (((b
                | 0b01000usize) & 0b00010 == 0b00010) == (b & 0b00010 == 0b00010)) && (((b
                | 0b01000usize) & 0b00100 == 0b00100) == (b & 0b00100 == 0b00100)) && ((b
                | 0b01000usize) & 0b01000 == 0b01000)) by (bit_vector);
        }
        self.0 = self.0 | TX_TASK_SET;
        *self
    }

    /// Clear the "sender waker stored" bit; returns the new state.
    pub fn unset_tx_task(&mut self) -> (s: State)
        ensures
            s == *final(self),
            final(self)@ == (StateModel { tx_task: false, ..old(self)@ }),
            final(self).spec_bits() == old(self).spec_bits() & !TX_TASK_SET,
        opens_invariants none
        no_unwind
    {
        proof {
            let b = self.0;
            assert((((b & !0b01000usize) & 0b00001 == 0b00001) == (b & 0b00001 == 0b00001)) && (((b
                & !0b01000usize) & 0b00010 == 0b00010) == (b & 0b00010 == 0b00010)) && (((b
                & !0b01000usize) & 0b00100 == 0b00100) == (b & 0b00100 == 0b00100)) && ((b
                & !0b01000usize) & 0b01000 != 0b01000)) by (bit_vector);
        }
        self.0 = self.0 & !TX_TASK_SET;
        *self
    }

    /// Whether a sender wake callback is recorded as stored.
    pub fn is_tx_task_set(self) -> (r: bool)
        ensures
            r == self@.tx_task,
        opens_invariants none
        no_unwind
    {
        self.0 & TX_TASK_SET == TX_TASK_SET
    }

    /// The raw bit pattern.
    pub fn as_usize(self) -> (r: usize)
        ensures
            r == self.spec_bits(),
        opens_invariants none
        no_unwind
    {
        self.0
    }
}

} // verus!
