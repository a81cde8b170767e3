//! Tests for the block-pooled FIFO queue.

use std::rc::Rc;

use local_sync::mpsc::block::{Block, Queue, BLOCK_CAP};

#[test]
fn test_simple_push_pop() {
    let mut queue = Queue::new(Some(12));
    queue.push_unchecked(1);
    queue.push_unchecked(2);
    queue.push_unchecked(3);
    assert_eq!(queue.len(), 3);
    assert_eq!(queue.pop_unchecked(), 1);
    assert_eq!(queue.pop_unchecked(), 2);
    assert_eq!(queue.pop_unchecked(), 3);
    assert_eq!(queue.len(), 0);
}

#[test]
fn test_across_block_push_pop() {
    let mut queue = Queue::new(Some(1024));
    for _ in 0..4 {
        for idx in 0..1024 {
            queue.push_unchecked(idx);
            assert_eq!(queue.len(), idx + 1);
        }
        for idx in 0..1024 {
            assert_eq!(queue.pop_unchecked(), idx);
            assert_eq!(queue.len(), 1023 - idx);
        }
    }
}

#[test]
fn test_fifo_non_multiple_of_block_capacity() {
    // 100 is not a multiple of BLOCK_CAP, so the last block stays partial
    let n: usize = 100;
    assert_ne!(n % BLOCK_CAP, 0);
    assert!(n > BLOCK_CAP);
    let mut queue = Queue::new(None);
    for i in 0..n {
        queue.push_unchecked(i);
        assert_eq!(queue.len(), i + 1);
    }
    for i in 0..n {
        assert_eq!(queue.pop_unchecked(), i);
        assert_eq!(queue.len(), n - 1 - i);
    }
    assert!(queue.is_empty());
}

#[test]
fn test_block_boundary_edges() {
    // exactly one block's worth, then one more to cross the boundary
    let mut queue = Queue::new(None);
    for i in 0..BLOCK_CAP {
        queue.push_unchecked(i);
    }
    assert_eq!(queue.len(), BLOCK_CAP);
    queue.push_unchecked(BLOCK_CAP);
    assert_eq!(queue.len(), BLOCK_CAP + 1);
    for i in 0..=BLOCK_CAP {
        assert_eq!(queue.pop_unchecked(), i);
    }
    assert_eq!(queue.len(), 0);
}

#[test]
fn test_recycling_reuses_blocks() {
    // drain completely, then refill past the original high-water mark:
    // recycling must keep the block count at what the peak required
    let mut queue = Queue::new(None);
    for i in 0..(BLOCK_CAP * 3) {
        queue.push_unchecked(i);
    }
    let blocks_at_peak = queue.num_blocks();
    for _ in 0..(BLOCK_CAP * 3) {
        queue.pop_unchecked();
    }
    assert!(queue.is_empty());
    for i in 0..(BLOCK_CAP * 3) {
        queue.push_unchecked(i);
    }
    assert_eq!(queue.num_blocks(), blocks_at_peak);
    // a steady-state producer/consumer lap allocates nothing either
    while !queue.is_empty() {
        queue.pop_unchecked();
    }
    for lap in 0..(BLOCK_CAP * 4) {
        queue.push_unchecked(lap);
        queue.pop_unchecked();
    }
    assert_eq!(queue.num_blocks(), blocks_at_peak);
}

#[test]
fn test_bounded_queue_scenario() {
    // queue of bound 3: push 1,2,3 (now full), pop 1 (has capacity again),
    // push 4, then pop 2,3,4 in order, length 0 at the end
    let mut queue = Queue::new(Some(3));
    assert!(!queue.is_full());
    queue.push_unchecked(1);
    queue.push_unchecked(2);
    queue.push_unchecked(3);
    assert!(queue.is_full());
    assert_eq!(queue.pop_unchecked(), 1);
    assert!(!queue.is_full());
    queue.push_unchecked(4);
    assert_eq!(queue.pop_unchecked(), 2);
    assert_eq!(queue.pop_unchecked(), 3);
    assert_eq!(queue.pop_unchecked(), 4);
    assert_eq!(queue.len(), 0);
}

#[test]
fn test_is_full_unbounded() {
    let mut queue = Queue::new(None);
    assert!(!queue.is_full());
    for i in 0..10 {
        queue.push_unchecked(i);
        assert!(!queue.is_full());
    }
}

#[test]
fn test_new_queue_is_empty() {
    let queue: Queue<u32> = Queue::new(None);
    assert!(queue.is_empty());
    assert_eq!(queue.len(), 0);
    assert_eq!(queue.num_blocks(), 1);
}

#[test]
fn test_teardown_drops_live_values_once() {
    // teardown with unconsumed values must release every one exactly once:
    // each shared counter goes back to a single owner
    let trackers: Vec<Rc<u32>> = (0..(BLOCK_CAP as u32 * 2)).map(Rc::new).collect();
    let mut queue = Queue::new(None);
    for t in &trackers {
        queue.push_unchecked(Rc::clone(t));
    }
    for t in &trackers {
        assert_eq!(Rc::strong_count(t), 2);
    }
    queue.free_blocks();
    for t in &trackers {
        assert_eq!(Rc::strong_count(t), 1);
    }
}

#[test]
fn test_block_new_is_empty() {
    let block: Block<u8> = Block::new();
    assert!(block.is_empty());
    assert_eq!(block.len(), 0);
}
