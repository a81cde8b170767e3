//! Single-threaded asynchronous communication primitives: a block-pooled
//! FIFO queue and a one-shot value-transfer channel.

pub mod mpsc;
pub mod oneshot;
