//! A growable, block-pooled FIFO queue.
//!
//! Storage is a chain of fixed-capacity blocks with independent read (head)
//! and write (tail) cursors. A block emptied by the consumer is relinked
//! right after the tail instead of being freed, so a steady-state
//! producer/consumer pair allocates nothing once warmed up.
//!
//! Blocks live in an arena (a vector) and link to each other by arena index,
//! so the chain can be relinked without touching the values themselves.

use vstd::prelude::*;

verus! {

/// Number of value slots in one block.
pub const BLOCK_CAP: usize = 32;

/// A fixed-capacity segment of value slots plus a forward link; the unit of
/// allocation and recycling inside a [`Queue`].
pub struct Block<T> {
    /// Arena index of the next block in the chain, if any.
    next: Option<usize>,
    /// Value slots. A slot holds `Some` exactly at the live indices, those
    /// in `[begin, end)`.
    values: Vec<Option<T>>,
    /// Head index: the next slot to read.
    begin: usize,
    /// Tail index: the next slot to write.
    end: usize,
}

impl<T> View for Block<T> {
    type V = Seq<T>;

    /// The live values of the block, oldest first.
    closed spec fn view(&self) -> Seq<T> {
        Seq::new((self.end - self.begin) as nat, |i: int| self.values@[self.begin + i].unwrap())
    }
}

impl<T> Block<T> {
    /// Structural invariant: the slot array has the fixed capacity, the
    /// cursors are ordered, and slot `i` is occupied exactly when `i` lies
    /// in `[begin, end)`.
    pub closed spec fn wf(self) -> bool {
        &&& self.values@.len() == BLOCK_CAP
        &&& self.begin <= self.end
        &&& self.end <= BLOCK_CAP
        &&& forall|i: int|
            0 <= i < BLOCK_CAP ==> ((#[trigger] self.values@[i]) is Some <==> self.begin <= i
                < self.end)
    }

    /// The forward link.
    pub closed spec fn spec_next(self) -> Option<usize> {
        self.next
    }

    /// The read cursor.
    pub closed spec fn spec_begin(self) -> usize {
        self.begin
    }

    /// The write cursor.
    pub closed spec fn spec_end(self) -> usize {
        self.end
    }

    /// A fresh block: cursors at zero, no link, every slot empty.
    pub fn new() -> (b: Block<T>)
        ensures
            b.wf(),
            b@ == Seq::<T>::empty(),
            b.spec_begin() == 0,
            b.spec_end() == 0,
            b.spec_next() is None,
    {
        let mut values: Vec<Option<T>> = Vec::new();
        while values.len() < BLOCK_CAP
            invariant
                values@.len() <= BLOCK_CAP,
                forall|i: int| 0 <= i < values@.len() ==> (#[trigger] values@[i]) is None,
            decreases BLOCK_CAP - values@.len(),
        {
            values.push(None);
        }
        let b = Block { next: None, values, begin: 0, end: 0 };
        proof {
            assert(b@ =~= Seq::<T>::empty());
        }
        b
    }

    /// Number of live values.
    pub fn len(&self) -> (n: usize)
        requires
            self.wf(),
        ensures
            n == self@.len(),
    {
        self.end - self.begin
    }

    /// Whether the block holds no live values.
    pub fn is_empty(&self) -> (r: bool)
        requires
            self.wf(),
        ensures
            r == (self@.len() == 0),
    {
        self.end == self.begin
    }

    /// Read the forward link.
    fn next(&self) -> (r: Option<usize>)
        ensures
            r == self.spec_next(),
    {
        self.next
    }

    /// Clear the link and both cursors. The caller guarantees that no live
    /// values remain; this is the queue's single-owner precondition.
    fn reset(&mut self)
        requires
            old(self).wf(),
            old(self)@.len() == 0,
        ensures
            final(self).wf(),
            final(self)@ == Seq::<T>::empty(),
            final(self).spec_begin() == 0,
            final(self).spec_end() == 0,
            final(self).spec_next() is None,
    {
        self.next = None;
        self.begin = 0;
        self.end = 0;
        proof {
            assert(final(self)@ =~= Seq::<T>::empty());
        }
    }
}

/// The live contents of the chain described by `chain`, read from position
/// `p` through position `upto` (the tail's position), oldest first.
pub closed spec fn chain_live<T>(
    blocks: Seq<Block<T>>,
    chain: Seq<usize>,
    upto: int,
    p: int,
) -> Seq<T>
    decreases upto + 1 - p,
{
    if p < 0 || p > upto {
        Seq::empty()
    } else {
        blocks[chain[p] as int]@ + chain_live(blocks, chain, upto, p + 1)
    }
}

/// Total number of live values in the chain segment from `p` through `upto`.
spec fn seg_len<T>(blocks: Seq<Block<T>>, chain: Seq<usize>, upto: int, p: int) -> int
    decreases upto + 1 - p,
{
    if p < 0 || p > upto {
        0
    } else {
        blocks[chain[p] as int]@.len() + seg_len(blocks, chain, upto, p + 1)
    }
}

/// Two chain readings agree segment by segment, so their contents agree.
proof fn lemma_chain_live_agree<T>(
    blocks1: Seq<Block<T>>,
    chain1: Seq<usize>,
    upto1: int,
    p1: int,
    blocks2: Seq<Block<T>>,
    chain2: Seq<usize>,
    upto2: int,
    p2: int,
)
    requires
        p1 >= 0,
        p2 >= 0,
        upto1 - p1 == upto2 - p2,
        forall|i: int|
            p1 <= i <= upto1 ==> blocks1[(#[trigger] chain1[i]) as int]@ == blocks2[chain2[i - p1
                + p2] as int]@,
    ensures
        chain_live(blocks1, chain1, upto1, p1) == chain_live(blocks2, chain2, upto2, p2),
    decreases upto1 + 1 - p1,
{
    if p1 <= upto1 {
        assert(blocks1[chain1[p1] as int]@ == blocks2[chain2[p2] as int]@);
        lemma_chain_live_agree(blocks1, chain1, upto1, p1 + 1, blocks2, chain2, upto2, p2 + 1);
    }
}

/// Contents length equals the segment length sum.
proof fn lemma_chain_live_len<T>(blocks: Seq<Block<T>>, chain: Seq<usize>, upto: int, p: int)
    ensures
        chain_live(blocks, chain, upto, p).len() == seg_len(blocks, chain, upto, p),
    decreases upto + 1 - p,
{
    if !(p < 0 || p > upto) {
        lemma_chain_live_len(blocks, chain, upto, p + 1);
    }
}

/// Segment length sum over full middle blocks plus the tail block.
proof fn lemma_seg_len_full<T>(
    blocks: Seq<Block<T>>,
    chain: Seq<usize>,
    upto: int,
    p: int,
    tail_end: int,
)
    requires
        1 <= p <= upto,
        forall|i: int|
            0 < i < upto ==> blocks[(#[trigger] chain[i]) as int].begin == 0 && blocks[chain[i] as int].end
                == BLOCK_CAP,
        blocks[chain[upto] as int].begin == 0,
        blocks[chain[upto] as int].end == tail_end,
        0 <= tail_end <= BLOCK_CAP,
    ensures
        seg_len(blocks, chain, upto, p) == (upto - p) * (BLOCK_CAP as int) + tail_end,
    decreases upto - p,
{
    if p == upto {
        assert(seg_len(blocks, chain, upto, p + 1) == 0);
        assert(blocks[chain[p] as int]@.len() == tail_end);
    } else {
        lemma_seg_len_full(blocks, chain, upto, p + 1, tail_end);
        assert(blocks[chain[p] as int]@.len() == BLOCK_CAP);
        assert((upto - p) * (BLOCK_CAP as int) == (BLOCK_CAP as int) + (upto - (p + 1)) * (
        BLOCK_CAP as int)) by (nonlinear_arith);
    }
}

/// Pushing a value onto the last live segment appends it to the contents.
proof fn lemma_chain_live_push_last<T>(
    blocks1: Seq<Block<T>>,
    blocks2: Seq<Block<T>>,
    chain: Seq<usize>,
    upto: int,
    p: int,
    v: T,
)
    requires
        0 <= p <= upto,
        forall|i: int|
            p <= i < upto ==> blocks1[(#[trigger] chain[i]) as int]@ == blocks2[chain[i] as int]@,
        blocks2[chain[upto] as int]@ == blocks1[chain[upto] as int]@.push(v),
    ensures
        chain_live(blocks2, chain, upto, p) == chain_live(blocks1, chain, upto, p).push(v),
    decreases upto - p,
{
    if p == upto {
        assert(chain_live(blocks2, chain, upto, p + 1) =~= Seq::<T>::empty());
        assert(chain_live(blocks1, chain, upto, p + 1) =~= Seq::<T>::empty());
        assert(chain_live(blocks2, chain, upto, p) =~= chain_live(blocks1, chain, upto, p).push(
        v));
    } else {
        lemma_chain_live_push_last(blocks1, blocks2, chain, upto, p + 1, v);
        assert(blocks1[chain[p] as int]@ == blocks2[chain[p] as int]@);
        assert(chain_live(blocks2, chain, upto, p) == blocks2[chain[p] as int]@ + chain_live(
        blocks2, chain, upto, p + 1));
        assert(chain_live(blocks1, chain, upto, p) == blocks1[chain[p] as int]@ + chain_live(
        blocks1, chain, upto, p + 1));
        assert(chain_live(blocks2, chain, upto, p) =~= chain_live(blocks1, chain, upto, p).push(
        v));
    }
}

/// Extending the live range by one empty segment keeps the contents.
proof fn lemma_chain_live_extend_empty<T>(
    blocks: Seq<Block<T>>,
    chain: Seq<usize>,
    upto: int,
    p: int,
)
    requires
        0 <= p,
        1 <= upto,
        blocks[chain[upto] as int]@ == Seq::<T>::empty(),
    ensures
        chain_live(blocks, chain, upto, p) == chain_live(blocks, chain, upto - 1, p),
    decreases upto + 1 - p,
{
    if p <= upto - 1 {
        lemma_chain_live_extend_empty(blocks, chain, upto, p + 1);
    } else if p == upto {
        assert(chain_live(blocks, chain, upto, p + 1) =~= Seq::<T>::empty());
        assert(chain_live(blocks, chain, upto - 1, p) =~= Seq::<T>::empty());
        assert(chain_live(blocks, chain, upto, p) =~= Seq::<T>::empty());
    }
}

/// A growable FIFO queue of blocks: values are written at the tail block,
/// read at the head block, and emptied blocks are recycled behind the tail.
pub struct Queue<T> {
    /// The arena owning every block this queue has allocated.
    blocks: Vec<Block<T>>,
    /// Arena index of the block read from.
    head: usize,
    /// Arena index of the block written to; it always has room for at least
    /// one more value.
    tail: usize,
    /// Total number of live values across all blocks.
    len: usize,
    /// Capacity; 0 means unbounded.
    cap: usize,
    /// Teardown guard, cleared by `free_blocks`.
    alive: bool,
    /// The chain order: arena indices as reached by following the links
    /// from `head`.
    chain: Ghost<Seq<usize>>,
    /// The position of `tail` within the chain; live values sit at
    /// positions `0..=tail_pos`, recycled spare blocks after.
    tail_pos: Ghost<int>,
    /// High-water mark: the largest number of values ever live at once.
    high_water: Ghost<nat>,
}

impl<T> View for Queue<T> {
    type V = Seq<T>;

    /// The live values of the queue, oldest first.
    closed spec fn view(&self) -> Seq<T> {
        chain_live(self.blocks@, self.chain@, self.tail_pos@, 0)
    }
}

impl<T> Queue<T> {
    /// The configured capacity; 0 means unbounded.
    pub closed spec fn spec_cap(self) -> usize {
        self.cap
    }

    /// Whether the queue has not been torn down.
    pub closed spec fn is_alive(self) -> bool {
        self.alive
    }

    /// How many blocks the queue has allocated in total.
    pub closed spec fn spec_num_blocks(self) -> int {
        self.blocks@.len() as int
    }

    /// The largest number of values that were ever live at once.
    pub closed spec fn spec_high_water(self) -> nat {
        self.high_water@
    }

    /// Whether a bounded queue is at capacity; always false when unbounded.
    pub open spec fn spec_is_full(self) -> bool {
        self.spec_cap() != 0 && self@.len() >= self.spec_cap()
    }

    /// Well-formedness after teardown: everything is gone.
    closed spec fn wf_freed(self) -> bool {
        &&& self.blocks@.len() == 0
        &&& self.chain@.len() == 0
        &&& self.tail_pos@ == -1
        &&& self.len == 0
    }

    /// Well-formedness of a live queue: the chain is a permutation of the
    /// arena, links are consistent, cursors have the right shape at every
    /// position, and the bookkeeping fields match the contents.
    closed spec fn wf_alive(self) -> bool {
        let n = self.blocks@.len() as int;
        let c = self.chain@;
        let t = self.tail_pos@;
        &&& c.len() == n
        &&& 1 <= n
        &&& 0 <= t < n
        &&& (forall|i: int| #![trigger c[i]] 0 <= i < n ==> c[i] < n)
        &&& (forall|i: int, j: int| #![trigger c[i], c[j]] 0 <= i < j < n ==> c[i] != c[j])
        &&& c[0] == self.head
        &&& c[t] == self.tail
        &&& (forall|i: int| #![trigger c[i]]
            0 <= i < n - 1 ==> self.blocks@[c[i] as int].next == Some(c[i + 1]))
        &&& self.blocks@[c[n - 1] as int].next is None
        &&& (forall|i: int| 0 <= i < n ==> (#[trigger] self.blocks@[i]).wf())
        &&& (forall|p: int| #![trigger c[p]]
            0 < p < t ==> self.blocks@[c[p] as int].begin == 0 && self.blocks@[c[p] as int].end
                == BLOCK_CAP)
        &&& (t > 0 ==> self.blocks@[c[0] as int].end == BLOCK_CAP && self.blocks@[c[0] as int].begin
            < BLOCK_CAP)
        &&& self.blocks@[self.tail as int].end < BLOCK_CAP
        &&& (t > 0 ==> self.blocks@[self.tail as int].begin == 0)
        &&& (forall|p: int| #![trigger c[p]]
            t < p < n ==> self.blocks@[c[p] as int].begin == 0 && self.blocks@[c[p] as int].end
                == 0)
        &&& self.len == self@.len()
        &&& (self.cap != 0 ==> self.len <= self.cap)
        &&& (n <= 1 || (n - 2) * (BLOCK_CAP as int) < self.high_water@)
        &&& self.len <= self.high_water@
    }

    /// Structural invariant of the queue.
    pub closed spec fn wf(self) -> bool {
        if self.alive {
            self.wf_alive()
        } else {
            self.wf_freed()
        }
    }

    /// A fresh queue with one allocated block. `cap` bounds the number of
    /// live values; `None` (stored as 0) means unbounded.
    pub fn new(cap: Option<usize>) -> (q: Queue<T>)
        ensures
            q.wf(),
            q.is_alive(),
            q@ == Seq::<T>::empty(),
            q.spec_cap() == (match cap {
                Some(c) => c,
                None => 0,
            }),
            q.spec_num_blocks() == 1,
            q.spec_high_water() == 0,
    {
        let mut blocks: Vec<Block<T>> = Vec::new();
        blocks.push(Block::new());
        let bound = match cap {
            Some(c) => c,
            None => 0,
        };
        let ghost ch: Seq<usize> = seq![0usize];
        let q = Queue {
            blocks,
            head: 0,
            tail: 0,
            len: 0,
            cap: bound,
            alive: true,
            chain: Ghost(ch),
            tail_pos: Ghost(0int),
            high_water: Ghost(0nat),
        };
        proof {
            assert(chain_live(q.blocks@, q.chain@, 0int, 1int) =~= Seq::<T>::empty());
            assert(q@ =~= Seq::<T>::empty());
        }
        q
    }

    /// Number of live values.
    pub fn len(&self) -> (n: usize)
        requires
            self.wf(),
        ensures
            n == self@.len(),
    {
        self.len
    }

    /// Whether the queue holds no values.
    pub fn is_empty(&self) -> (r: bool)
        requires
            self.wf(),
        ensures
            r == (self@.len() == 0),
    {
        self.len == 0
    }

    /// Whether a bounded queue is at capacity. Always false for an
    /// unbounded queue; a full queue must not be pushed into.
    pub fn is_full(&self) -> (r: bool)
        requires
            self.wf(),
        ensures
            r == self.spec_is_full(),
    {
        self.cap != 0 && self.len >= self.cap
    }

    /// How many blocks the queue has allocated in total; recycling keeps
    /// this bounded by the high-water mark of live values.
    pub fn num_blocks(&self) -> (n: usize)
        requires
            self.wf(),
        ensures
            n == self.spec_num_blocks(),
    {
        self.blocks.len()
    }

    /// Push a value into the tail block and advance the write cursor; when
    /// the tail block fills up, move the tail to the next linked (recycled)
    /// block, or allocate a fresh one if none is linked.
    ///
    /// The caller must check `is_full` first: pushing into a full bounded
    /// queue is a contract violation, excluded here by precondition.
    pub fn push_unchecked(&mut self, value: T)
        requires
            old(self).wf(),
            old(self).is_alive(),
            !old(self).spec_is_full(),
            old(self)@.len() < usize::MAX,
        ensures
            final(self).wf(),
            final(self).is_alive(),
            final(self)@ == old(self)@.push(value),
            final(self).spec_cap() == old(self).spec_cap(),
            final(self).spec_num_blocks() == old(self).spec_num_blocks() || final(self).spec_num_blocks() == old(self).spec_num_blocks() + 1,
            final(self).spec_high_water() >= final(self)@.len(),
            final(self).spec_high_water() >= old(self).spec_high_water(),
    {
        let ghost q0 = *self;
        let ghost c = q0.chain@;
        let ghost t = q0.tail_pos@;
        let ghost n = q0.blocks@.len() as int;
        let tail_idx = self.tail;
        proof {
            assert(c[t] == q0.tail);
            assert(c[t] < n);
            assert(q0.blocks@[tail_idx as int].wf());
            assert(q0.blocks@[tail_idx as int].end < BLOCK_CAP);
        }
        // write the value into the tail slot and advance the write cursor
        let blk = &mut self.blocks[tail_idx];
        let e = blk.end;
        blk.values[e] = Some(value);
        blk.end = e + 1;
        let became_full = e + 1 == BLOCK_CAP;
        self.len = self.len + 1;
        self.high_water = Ghost(
            if (self.len as nat) > q0.high_water@ {
                self.len as nat
            } else {
                q0.high_water@
            },
        );
        proof {
            let b0 = q0.blocks@[tail_idx as int];
            let b1 = self.blocks@[tail_idx as int];
            assert(b1@ =~= b0@.push(value));
            assert forall|i: int| 0 <= i < t implies q0.blocks@[(#[trigger] c[i]) as int]@
                == self.blocks@[c[i] as int]@ by {
                assert(c[i] != c[t]);
            }
            lemma_chain_live_push_last(q0.blocks@, self.blocks@, c, t, 0, value);
            assert(self@ == q0@.push(value));
        }
        if became_full {
            let link = self.blocks[tail_idx].next();
            match link {
                Some(nxt) => {
                    proof {
                        // a linked successor means the tail is not the last
                        // chain entry, and the successor is the next entry
                        assert(t < n - 1) by {
                            if t == n - 1 {
                                assert(q0.blocks@[c[n - 1] as int].next is None);
                            }
                        }
                        assert(self.blocks@[c[t] as int].next == Some(c[t + 1]));
                        assert(c[t + 1] < n);
                    }
                    self.tail = nxt;
                    self.tail_pos = Ghost(t + 1);
                    proof {
                        assert(self.blocks@[c[t + 1] as int]@ =~= Seq::<T>::empty());
                        lemma_chain_live_extend_empty(self.blocks@, c, t + 1, 0);
                        assert(self@ == q0@.push(value));
                        assert(self.wf_alive());
                    }
                }
                None => {
                    proof {
                        // no successor: the tail is the last chain entry
                        assert(t == n - 1) by {
                            if t < n - 1 {
                                assert(q0.blocks@[c[t] as int].next == Some(c[t + 1]));
                            }
                        }
                    }
                    let ghost mid = *self;
                    let new_idx = self.blocks.len();
                    self.blocks.push(Block::new());
                    let tb = &mut self.blocks[tail_idx];
                    tb.next = Some(new_idx);
                    self.tail = new_idx;
                    self.chain = Ghost(c.push(new_idx));
                    self.tail_pos = Ghost(t + 1);
                    proof {
                        let c2 = self.chain@;
                        // the old segments are untouched, the new one is empty
                        assert forall|i: int| 0 <= i <= t implies self.blocks@[(#[trigger] c2[i]) as int]@
                            == mid.blocks@[c[i] as int]@ by {
                            assert(c2[i] == c[i]);
                            assert(c[i] < n);
                        }
                        lemma_chain_live_agree(
                            self.blocks@,
                            c2,
                            t,
                            0,
                            mid.blocks@,
                            c,
                            t,
                            0,
                        );
                        assert(self.blocks@[c2[t + 1] as int]@ =~= Seq::<T>::empty());
                        lemma_chain_live_extend_empty(self.blocks@, c2, t + 1, 0);
                        assert(self@ == q0@.push(value));
                        // allocation was forced: the whole chain was full up
                        // to the last slot, so the new occupancy tops
                        // (n - 1) * BLOCK_CAP and justifies the block bound
                        lemma_chain_live_len(q0.blocks@, c, t, 0);
                        if t > 0 {
                            assert forall|i: int| 0 < i < t implies q0.blocks@[(
                            #[trigger] c[i]) as int].begin == 0 && q0.blocks@[c[i] as int].end
                                == BLOCK_CAP by {}
                            lemma_seg_len_full(q0.blocks@, c, t, 1, b_end(q0, c, t));
                            assert(q0@.len() >= (n - 1) * (BLOCK_CAP as int));
                        }
                        assert(self.wf_alive());
                    }
                }
            }
        } else {
            proof {
                assert(self.wf_alive());
            }
        }
    }

    /// Pop the oldest value from the head block and advance the read
    /// cursor. When the head block becomes fully consumed, the head moves
    /// to its successor and the drained block is recycled: relinked right
    /// after the tail, cursors cleared, as the tail's standing reserve of
    /// free capacity.
    ///
    /// The caller must check `is_empty` first: popping from an empty queue
    /// is a contract violation, excluded here by precondition.
    pub fn pop_unchecked(&mut self) -> (value: T)
        requires
            old(self).wf(),
            old(self).is_alive(),
            old(self)@.len() > 0,
        ensures
            final(self).wf(),
            final(self).is_alive(),
            value == old(self)@[0],
            final(self)@ == old(self)@.drop_first(),
            final(self).spec_cap() == old(self).spec_cap(),
            final(self).spec_num_blocks() == old(self).spec_num_blocks(),
            final(self).spec_high_water() == old(self).spec_high_water(),
    {
        let ghost q0 = *self;
        let ghost c = q0.chain@;
        let ghost t = q0.tail_pos@;
        let ghost n = q0.blocks@.len() as int;
        let ghost rest = chain_live(q0.blocks@, c, t, 1);
        let head_idx = self.head;
        proof {
            assert(c[0] == q0.head);
            assert(c[0] < n);
            assert(q0.blocks@[head_idx as int].wf());
            // the head block is never empty while the queue holds values
            if t == 0 {
                assert(rest =~= Seq::<T>::empty());
            } else {
                assert(q0.blocks@[head_idx as int].end == BLOCK_CAP);
                assert(q0.blocks@[head_idx as int].begin < BLOCK_CAP);
            }
            assert(q0@ == q0.blocks@[head_idx as int]@ + rest);
            assert(q0.blocks@[head_idx as int]@.len() > 0);
        }
        // read the oldest value and advance the read cursor
        let blk = &mut self.blocks[head_idx];
        let b = blk.begin;
        let slot = &mut blk.values[b];
        let value_opt = slot.take();
        let value = value_opt.unwrap();
        blk.begin = b + 1;
        let drained = b + 1 == BLOCK_CAP;
        self.len = self.len - 1;
        proof {
            let b0 = q0.blocks@[head_idx as int];
            let b1 = self.blocks@[head_idx as int];
            assert(b1@ =~= b0@.drop_first());
            assert(value == b0@[0]);
            assert(value == q0@[0]);
        }
        if drained {
            proof {
                // the drained head reached full capacity, so it cannot be
                // the tail block, whose write cursor never reaches the end
                assert(q0.blocks@[head_idx as int].end == BLOCK_CAP);
                assert(t > 0) by {
                    if t == 0 {
                        assert(c[0] == c[t]);
                    }
                }
                assert(q0.blocks@[c[0] as int].next == Some(c[1]));
                assert(c[1] < n);
                assert(c[t] == q0.tail);
                assert(c[t] < n);
                assert(c[t] != c[0]);
            }
            let next_idx = match self.blocks[head_idx].next() {
                Some(i) => i,
                None => vstd::pervasive::unreached(),
            };
            self.head = next_idx;
            // recycle the drained block: relink it right after the tail
            let tail_idx = self.tail;
            let free_link = self.blocks[tail_idx].next();
            let hb = &mut self.blocks[head_idx];
            proof {
                assert(hb.wf());
                assert(hb@.len() == 0);
            }
            hb.reset();
            hb.next = free_link;
            let tb = &mut self.blocks[tail_idx];
            tb.next = Some(head_idx);
            self.chain = Ghost(c.subrange(1, t + 1).push(head_idx) + c.subrange(t + 1, n));
            self.tail_pos = Ghost(t - 1);
            proof {
                let c2 = self.chain@;
                let bl2 = self.blocks@;
                // how the new chain maps onto the old one
                assert(c2.len() == n);
                assert forall|i: int| 0 <= i < t implies #[trigger] c2[i] == c[i + 1] by {}
                assert(c2[t] == head_idx);
                assert forall|i: int| t < i < n implies #[trigger] c2[i] == c[i] by {}
                // the blocks of the live segments are untouched
                assert forall|i: int| 0 <= i <= t - 1 implies bl2[(#[trigger] c2[i]) as int]@
                    == q0.blocks@[c[i + 1] as int]@ by {
                    assert(c[i + 1] != c[0]);
                    if i + 1 < t {
                        assert(c[i + 1] != c[t]);
                        assert(bl2[c[i + 1] as int] == q0.blocks@[c[i + 1] as int]);
                    } else {
                        // the tail block only changed its link
                        assert(bl2[c[t] as int].values == q0.blocks@[c[t] as int].values);
                        assert(bl2[c[t] as int]@ =~= q0.blocks@[c[t] as int]@);
                    }
                }
                lemma_chain_live_agree(bl2, c2, t - 1, 0, q0.blocks@, c, t, 1);
                // the drained head held exactly one value, so the rest of
                // the chain is exactly the old contents minus the first
                assert(q0.blocks@[head_idx as int]@.len() == 1);
                assert(self@ =~= q0@.drop_first());
                // well-formedness of the relinked chain
                assert forall|i: int| 0 <= i < n implies (#[trigger] bl2[i]).wf() by {
                    if i != head_idx as int && i != q0.tail as int {
                        assert(bl2[i] == q0.blocks@[i]);
                    } else if i == q0.tail as int {
                        assert(bl2[i].values == q0.blocks@[i].values);
                    }
                }
                assert forall|i: int, j: int| #![trigger c2[i], c2[j]] 0 <= i < j < n implies c2[i]
                    != c2[j] by {
                    assert(forall|x: int, y: int| #![trigger c[x], c[y]]
                        0 <= x < y < n ==> c[x] != c[y]);
                    if i < t && j < t {
                        assert(c[i + 1] != c[j + 1]);
                    } else if i < t && j == t {
                        assert(c[0] != c[i + 1]);
                    } else if i < t && j > t {
                        assert(c[i + 1] != c[j]);
                    } else if i == t && j > t {
                        assert(c[0] != c[j]);
                    } else {
                        assert(c[i] != c[j]);
                    }
                }
                assert forall|i: int| #![trigger c2[i]] 0 <= i < n - 1 implies bl2[c2[i] as int].next
                    == Some(c2[i + 1]) by {
                    if i < t - 1 {
                        assert(c[i + 1] != c[0] && c[i + 1] != c[t]);
                        assert(bl2[c2[i] as int] == q0.blocks@[c[i + 1] as int]);
                        assert(q0.blocks@[c[i + 1] as int].next == Some(c[i + 2]));
                    } else if i == t - 1 {
                        assert(c2[i] == c[t]);
                        assert(bl2[c[t] as int].next == Some(head_idx));
                    } else if i == t {
                        assert(c2[i] == head_idx);
                        if t < n - 1 {
                            assert(q0.blocks@[c[t] as int].next == Some(c[t + 1]));
                            assert(bl2[head_idx as int].next == Some(c[t + 1]));
                        }
                    } else {
                        assert(c2[i] == c[i]);
                        assert(c[i] != c[0] && c[i] != c[t]);
                        assert(q0.blocks@[c[i] as int].next == Some(c[i + 1]));
                    }
                }
                // the last chain entry has no successor
                assert(bl2[c2[n - 1] as int].next is None) by {
                    if t == n - 1 {
                        assert(c2[n - 1] == head_idx);
                        assert(q0.blocks@[c[t] as int].next is None);
                    } else {
                        assert(c2[n - 1] == c[n - 1]);
                        assert(c[n - 1] != c[0] && c[n - 1] != c[t]);
                    }
                }
                assert(self.wf_alive());
            }
        } else {
            proof {
                assert forall|i: int| 1 <= i <= t implies q0.blocks@[(#[trigger] c[i]) as int]@
                    == self.blocks@[c[i] as int]@ by {
                    assert(c[i] != c[0]);
                }
                lemma_chain_live_agree(q0.blocks@, c, t, 1, self.blocks@, c, t, 1);
                assert(self@ =~= q0@.drop_first());
                assert(self.wf_alive());
            }
        }
        value
    }

    /// Tear the queue down. Every block, and every value still live in it,
    /// is dropped exactly once when the arena is dropped here. The `alive`
    /// guard makes a second teardown of the same queue a contract
    /// violation, so it can never happen in verified code.
    pub fn free_blocks(&mut self)
        requires
            old(self).wf(),
            old(self).is_alive(),
        ensures
            final(self).wf(),
            !final(self).is_alive(),
            final(self)@ == Seq::<T>::empty(),
    {
        self.blocks = Vec::new();
        self.head = 0;
        self.tail = 0;
        self.len = 0;
        self.alive = false;
        let ghost empty_chain: Seq<usize> = Seq::empty();
        self.chain = Ghost(empty_chain);
        self.tail_pos = Ghost(-1int);
        proof {
            assert(self@ =~= Seq::<T>::empty());
        }
    }
}

/// The write cursor of the block at chain position `t`.
spec fn b_end<T>(q: Queue<T>, c: Seq<usize>, t: int) -> int {
    q.blocks@[c[t] as int].end as int
}

/// The contents of a queue after pushing every element of `vals`, in order,
/// onto a queue holding `s`.
pub open spec fn pushed<T>(s: Seq<T>, vals: Seq<T>) -> Seq<T>
    decreases vals.len(),
{
    if vals.len() == 0 {
        s
    } else {
        pushed(s.push(vals[0]), vals.drop_first())
    }
}

/// Pushing values one by one appends them in order.
pub proof fn lemma_pushed_all<T>(s: Seq<T>, vals: Seq<T>)
    ensures
        pushed(s, vals) == s + vals,
    decreases vals.len(),
{
    if vals.len() == 0 {
        assert(s + vals =~= s);
    } else {
        lemma_pushed_all(s.push(vals[0]), vals.drop_first());
        assert(s.push(vals[0]) + vals.drop_first() =~= s + vals);
    }
}

/// Law: the queue is FIFO and its length tracks the running count. Pushing
/// the values `vals` onto an empty queue leaves exactly `vals` as contents
/// (`push_unchecked` appends one value to the contents), and the `j`-th
/// subsequent pop returns `vals[j]` and leaves `vals.skip(j + 1)`
/// (`pop_unchecked` returns the first element and drops it), with the
/// length equal to the number of values not yet popped at every step.
pub proof fn lemma_fifo_round_trip<T>(vals: Seq<T>)
    ensures
        pushed(Seq::<T>::empty(), vals) == vals,
        forall|j: int| 0 <= j < vals.len() ==> (#[trigger] vals.skip(j)).first() == vals[j],
        forall|j: int|
            0 <= j < vals.len() ==> (#[trigger] vals.skip(j)).drop_first() == vals.skip(j + 1),
        forall|j: int| 0 <= j <= vals.len() ==> (#[trigger] vals.skip(j)).len() == vals.len() - j,
{
    lemma_pushed_all(Seq::empty(), vals);
    assert(Seq::<T>::empty() + vals =~= vals);
    assert forall|j: int| 0 <= j < vals.len() implies (#[trigger] vals.skip(j)).drop_first()
        == vals.skip(j + 1) by {
        assert(vals.skip(j).drop_first() =~= vals.skip(j + 1));
    }
}

/// Law: recycling bounds allocation by peak occupancy. A live queue never
/// holds more than one block beyond what its high-water mark of
/// simultaneously live values required.
pub proof fn lemma_recycling_bound<T>(q: &Queue<T>)
    requires
        q.wf(),
        q.is_alive(),
    ensures
        q.spec_num_blocks() <= 1 || (q.spec_num_blocks() - 2) * (BLOCK_CAP as int)
            < q.spec_high_water(),
{
}

} // verus!
