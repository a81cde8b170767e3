//! Tests for the one-shot channel.

use std::sync::atomic::{AtomicUsize, Ordering};
use std::sync::Arc;
use std::task::{Wake, Waker};

use local_sync::oneshot::channel;
use local_sync::oneshot::error::{RecvError, TryRecvError};
use local_sync::oneshot::inner::{ClosedPoll, RecvPoll};
use local_sync::oneshot::state::State;

/// A waker that counts how often it is woken.
struct CountingWake(AtomicUsize);

impl Wake for CountingWake {
    fn wake(self: Arc<Self>) {
        self.0.fetch_add(1, Ordering::SeqCst);
    }
}

fn counting_waker() -> (Arc<CountingWake>, Waker) {
    let counter = Arc::new(CountingWake(AtomicUsize::new(0)));
    let waker = Waker::from(Arc::clone(&counter));
    (counter, waker)
}

#[test]
fn test_send_then_recv_exactly_once() {
    let (tx, mut rx) = channel();
    assert!(tx.send(42).is_ok());
    assert_eq!(rx.try_recv(), Ok(42));
    // the value was taken: a second receive attempt reports closed
    assert_eq!(rx.try_recv(), Err(TryRecvError::Closed));
}

#[test]
fn test_send_then_poll_recv() {
    let (tx, mut rx) = channel();
    tx.send(1).unwrap();
    let (_counter, waker) = counting_waker();
    match rx.poll_recv(&waker) {
        RecvPoll::Value(v) => assert_eq!(v, 1),
        _ => panic!("expected the sent value"),
    }
    // polling again after the outcome reports closed
    assert!(matches!(rx.poll_recv(&waker), RecvPoll::Closed));
}

#[test]
fn test_sender_drop_resolves_pending_receive() {
    let (tx, mut rx) = channel::<u32>();
    let (counter, waker) = counting_waker();
    assert!(matches!(rx.poll_recv(&waker), RecvPoll::Pending));
    assert_eq!(counter.0.load(Ordering::SeqCst), 0);
    drop(tx);
    // the drop completed the channel without a value and woke the receiver
    assert_eq!(counter.0.load(Ordering::SeqCst), 1);
    assert!(matches!(rx.poll_recv(&waker), RecvPoll::Closed));
}

#[test]
fn test_close_then_send_returns_value() {
    let (tx, rx) = channel();
    rx.close();
    match tx.send(7) {
        Err(v) => assert_eq!(v, 7),
        Ok(()) => panic!("send on a closed channel must fail"),
    }
}

#[test]
fn test_close_is_idempotent() {
    let (tx, rx) = channel::<u8>();
    rx.close();
    rx.close();
    assert!(rx.is_closed());
    assert!(tx.is_closed());
}

#[test]
fn test_value_sent_before_close_is_still_received() {
    let (tx, mut rx) = channel();
    assert!(tx.send("will receive").is_ok());
    rx.close();
    assert_eq!(rx.try_recv(), Ok("will receive"));
}

#[test]
fn test_try_recv_stages() {
    // before any send: empty
    let (tx, mut rx) = channel();
    assert_eq!(rx.try_recv(), Err(TryRecvError::Empty));
    // after a send: the value
    tx.send(5).unwrap();
    assert_eq!(rx.try_recv(), Ok(5));
    // after the sender drops without sending: closed
    let (tx2, mut rx2) = channel::<u32>();
    drop(tx2);
    assert_eq!(rx2.try_recv(), Err(TryRecvError::Closed));
}

#[test]
fn test_is_closed_tracks_receiver() {
    let (tx, rx) = channel();
    assert!(!tx.is_closed());
    rx.close();
    assert!(tx.is_closed());
    assert!(tx.send("never received").is_err());

    let (tx2, rx2) = channel::<u8>();
    assert!(!tx2.is_closed());
    drop(rx2);
    assert!(tx2.is_closed());
    assert!(tx2.send(9).is_err());
}

#[test]
fn test_poll_closed_wakes_sender() {
    let (mut tx, rx) = channel::<u8>();
    let (counter, waker) = counting_waker();
    assert!(matches!(tx.poll_closed(&waker), ClosedPoll::Pending));
    assert_eq!(counter.0.load(Ordering::SeqCst), 0);
    rx.close();
    assert_eq!(counter.0.load(Ordering::SeqCst), 1);
    assert!(matches!(tx.poll_closed(&waker), ClosedPoll::Ready));
}

#[test]
fn test_repeated_close_wakes_sender_once() {
    let (mut tx, rx) = channel::<u8>();
    let (counter, waker) = counting_waker();
    assert!(matches!(tx.poll_closed(&waker), ClosedPoll::Pending));
    rx.close();
    assert_eq!(counter.0.load(Ordering::SeqCst), 1);
    // a repeated close is a no-op: the sender is not woken again
    rx.close();
    assert_eq!(counter.0.load(Ordering::SeqCst), 1);
    drop(rx);
    assert_eq!(counter.0.load(Ordering::SeqCst), 1);
}

#[test]
fn test_receiver_drop_wakes_sender() {
    let (mut tx, rx) = channel::<u8>();
    let (counter, waker) = counting_waker();
    assert!(matches!(tx.poll_closed(&waker), ClosedPoll::Pending));
    drop(rx);
    assert_eq!(counter.0.load(Ordering::SeqCst), 1);
    assert!(matches!(tx.poll_closed(&waker), ClosedPoll::Ready));
}

#[test]
fn test_send_wakes_pending_receiver() {
    let (tx, mut rx) = channel();
    let (counter, waker) = counting_waker();
    assert!(matches!(rx.poll_recv(&waker), RecvPoll::Pending));
    tx.send(3).unwrap();
    assert_eq!(counter.0.load(Ordering::SeqCst), 1);
    match rx.poll_recv(&waker) {
        RecvPoll::Value(v) => assert_eq!(v, 3),
        _ => panic!("expected the sent value"),
    }
}

#[test]
fn test_error_messages() {
    assert_eq!(RecvError.message(), "channel closed");
    assert_eq!(TryRecvError::Empty.message(), "channel empty");
    assert_eq!(TryRecvError::Closed.message(), "channel closed");
}

#[test]
fn test_state_bits() {
    let mut s = State::new();
    assert_eq!(s.as_usize(), 0);
    assert!(!s.is_complete());
    assert!(!s.is_closed());
    assert!(!s.is_rx_task_set());
    assert!(!s.is_tx_task_set());

    s.set_complete();
    assert!(s.is_complete());
    assert!(!s.is_closed());
    assert_eq!(s.as_usize(), 0b00010);

    s.set_closed();
    assert!(s.is_closed());
    assert!(s.is_complete());
    assert_eq!(s.as_usize(), 0b00110);

    s.set_rx_task();
    assert!(s.is_rx_task_set());
    s.unset_rx_task();
    assert!(!s.is_rx_task_set());
    assert!(s.is_complete() && s.is_closed());

    s.set_tx_task();
    assert!(s.is_tx_task_set());
    s.unset_tx_task();
    assert!(!s.is_tx_task_set());
}
