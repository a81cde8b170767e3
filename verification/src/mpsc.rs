//! Multi-producer, single-consumer storage primitives.

pub mod block;
