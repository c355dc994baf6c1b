//! Workloads that walk a large in-memory buffer of cache-line-sized blocks.
use vstd::prelude::*;
use crate::barrier::black_box;
use vstd::arithmetic::div_mod::lemma_fundamental_div_mod;

verus! {

/// A cache line's worth of data.
pub type Block = [u64; 8];

/// Bytes in one `Block`.
pub const BLOCK_BYTES: usize = 64;

/// Blocks in 1 GB.
pub const BLOCKS_PER_GB: usize = 15_625_000;

/// A block holding `k` in each of its words.
pub open spec fn numbered_block(k: int) -> Block {
    let x = k as u64;
    [x, x, x, x, x, x, x, x]
}

/// The numbers `0..n`, in order.
pub open spec fn identity_order(n: nat) -> Seq<usize> {
    Seq::new(n, |k: int| k as usize)
}

/// Relies on rand's `SliceRandom::shuffle` with `thread_rng()`: the
/// elements are put in a random order, none added or lost.
#[verifier::external_body]
fn shuffle<T>(v: &mut Vec<T>)
    ensures
        final(v)@.len() == old(v)@.len(),
        final(v)@.to_multiset() == old(v)@.to_multiset(),
{
    rand::seq::SliceRandom::shuffle(v.as_mut_slice(), &mut rand::thread_rng())
}

/// The state of a sequential walk: the buffer and the next position.
pub struct SequentialState {
    pub i: usize,
    pub vec: Vec<Block>,
}

/// The state of a random walk: the buffer, the order in which its blocks
/// are visited, and the next position in that order.
pub struct MemoryReadTest {
    pub vec: Vec<Block>,
    pub order: Vec<usize>,
    pub i: usize,
}

/// `elements` blocks, each `[1, 2, .., 8]`.
fn filled(elements: usize) -> (v: Vec<Block>)
    ensures
        v@.len() == elements,
        forall|k: int| 0 <= k < elements ==> #[trigger] v@[k] == [1u64, 2, 3, 4, 5, 6, 7, 8],
{
    let mut v: Vec<Block> = Vec::new();
    let mut k: usize = 0;
    while k < elements
        invariant
            k <= elements,
            v@.len() == k,
            forall|j: int| 0 <= j < k ==> #[trigger] v@[j] == [1u64, 2, 3, 4, 5, 6, 7, 8],
        decreases elements - k,
    {
        v.push([1u64, 2, 3, 4, 5, 6, 7, 8]);
        k = k + 1;
    }
    v
}

impl SequentialState {
    /// A walk over `elements` blocks of `[1, 2, .., 8]`, from the start.
    pub fn new(elements: usize) -> (s: SequentialState)
        ensures
            s.i == 0,
            s.vec@.len() == elements,
            forall|k: int| 0 <= k < elements ==> #[trigger] s.vec@[k] == [1u64, 2, 3, 4, 5, 6, 7, 8],
    {
        SequentialState { i: 0, vec: filled(elements) }
    }

    /// A walk over `elements` blocks where block `k` holds `k` eight times,
    /// from the start.
    pub fn numbered(elements: usize) -> (s: SequentialState)
        ensures
            s.i == 0,
            s.vec@.len() == elements,
            forall|k: int| 0 <= k < elements ==> #[trigger] s.vec@[k] == numbered_block(k),
    {
        let mut vec: Vec<Block> = Vec::new();
        let mut k: usize = 0;
        while k < elements
            invariant
                k <= elements,
                vec@.len() == k,
                forall|j: int| 0 <= j < k ==> #[trigger] vec@[j] == numbered_block(j),
            decreases elements - k,
        {
            let x = k as u64;
            vec.push([x, x, x, x, x, x, x, x]);
            k = k + 1;
        }
        SequentialState { i: 0, vec }
    }

    /// Overwrites the block at the current position and moves on; `false`
    /// once the last block has been written, or when there was none left.
    pub fn write_next(&mut self) -> (more: bool)
        requires
            old(self).i < usize::MAX,
        ensures
            final(self).i == old(self).i + 1,
            final(self).vec@.len() == old(self).vec@.len(),
            old(self).i < old(self).vec@.len() ==> final(self).vec@ == old(self).vec@.update(
                old(self).i as int,
                [8u64, 7, 110694, 5, 4, 3, 2, 1],
            ),
            old(self).i >= old(self).vec@.len() ==> final(self).vec == old(self).vec,
            more == (old(self).i < old(self).vec@.len() && final(self).i != final(self).vec@.len()),
    {
        let i = self.i;
        self.i = i + 1;
        if i >= self.vec.len() {
            return false;
        }
        self.vec.set(i, [8u64, 7, 110694, 5, 4, 3, 2, 1]);
        black_box(self.vec[i]);
        self.i != self.vec.len()
    }

    /// Reads the block at the current position and moves on; `false` once
    /// the last block has been read, or when there was none left.
    pub fn read_next(&mut self) -> (more: bool)
        requires
            old(self).i < usize::MAX,
        ensures
            final(self).vec == old(self).vec,
            final(self).i == old(self).i + 1,
            more == (old(self).i < old(self).vec@.len() && final(self).i != final(self).vec@.len()),
    {
        let i = self.i;
        self.i = i + 1;
        if i >= self.vec.len() {
            return false;
        }
        black_box(self.vec[i]);
        self.i != self.vec.len()
    }
}

impl MemoryReadTest {
    /// `elements` blocks of `[1, 2, .., 8]`, visited in a random order that
    /// holds each position exactly once, from the start of that order.
    pub fn new(elements: usize) -> (t: MemoryReadTest)
        ensures
            t.i == 0,
            t.vec@.len() == elements,
            forall|k: int| 0 <= k < elements ==> #[trigger] t.vec@[k] == [1u64, 2, 3, 4, 5, 6, 7, 8],
            t.order@.len() == elements,
            forall|k: int| 0 <= k < elements ==> #[trigger] t.order@[k] < elements,
            t.order@.to_multiset() == identity_order(elements as nat).to_multiset(),
    {
        let vec = filled(elements);
        let mut order: Vec<usize> = Vec::new();
        let mut k: usize = 0;
        while k < elements
            invariant
                k <= elements,
                order@ == identity_order(k as nat),
            decreases elements - k,
        {
            order.push(k);
            k = k + 1;
            assert(order@ =~= identity_order(k as nat));
        }
        shuffle(&mut order);
        proof {
            lemma_permutation_in_range(order@, elements as nat);
        }
        MemoryReadTest { vec, order, i: 0 }
    }

    /// Overwrites the block that the order names next and moves on;
    /// `false` once the last block has been written, or when the order
    /// names no block.
    pub fn write_next(&mut self) -> (more: bool)
        requires
            old(self).i < usize::MAX,
        ensures
            final(self).order == old(self).order,
            final(self).i == old(self).i + 1,
            final(self).vec@.len() == old(self).vec@.len(),
            in_range(*old(self)) ==> final(self).vec@ == old(self).vec@.update(
                old(self).order@[old(self).i as int] as int,
                [8u64, 7, 6, 5, 4, 3, 2, 1],
            ),
            !in_range(*old(self)) ==> final(self).vec == old(self).vec,
            more == (in_range(*old(self)) && final(self).i != final(self).vec@.len()),
    {
        let i = self.i;
        self.i = i + 1;
        if i >= self.order.len() || self.order[i] >= self.vec.len() {
            return false;
        }
        let at = self.order[i];
        self.vec.set(at, [8u64, 7, 6, 5, 4, 3, 2, 1]);
        black_box(self.vec[at]);
        self.i != self.vec.len()
    }
}

/// The order names a block at the current position.
pub open spec fn in_range(t: MemoryReadTest) -> bool {
    t.i < t.order@.len() && t.order@[t.i as int] < t.vec@.len()
}

/// A rearrangement of `0..n` has `n` elements, each below `n`.
pub proof fn lemma_permutation_in_range(order: Seq<usize>, n: nat)
    requires
        order.to_multiset() == identity_order(n).to_multiset(),
    ensures
        order.len() == n,
        forall|k: int| 0 <= k < n ==> #[trigger] order[k] < n,
{
    broadcast use vstd::seq_lib::group_to_multiset_ensures;

    let ids = identity_order(n);
    assert(ids.len() == n);
    assert(order.len() == order.to_multiset().len());
    assert(ids.len() == ids.to_multiset().len());
    assert forall|k: int| 0 <= k < n implies #[trigger] order[k] < n by {
        assert(order[k] == order[k]);
        assert(order.contains(order[k]));
        assert(order.to_multiset().count(order[k]) > 0);
        assert(ids.contains(order[k]));
        let j = choose|j: int| 0 <= j < ids.len() && ids[j] == order[k];
        assert(ids[j] == j as usize);
    }
}

/// Builds the random-read walk over 1 GB of blocks.
pub fn memory_read_random_setup() -> (t: MemoryReadTest)
    ensures
        t.i == 0,
        t.vec@.len() == BLOCKS_PER_GB,
        forall|k: int| 0 <= k < BLOCKS_PER_GB ==> #[trigger] t.vec@[k] == [1u64, 2, 3, 4, 5, 6, 7, 8],
        t.order@.len() == BLOCKS_PER_GB,
        forall|k: int| 0 <= k < BLOCKS_PER_GB ==> #[trigger] t.order@[k] < BLOCKS_PER_GB,
        t.order@.to_multiset() == identity_order(BLOCKS_PER_GB as nat).to_multiset(),
{
    MemoryReadTest::new(BLOCKS_PER_GB)
}

/// Reads the block that the order names next and moves on; `false` once
/// the last block has been read, or when the order names no block.
pub fn memory_read_random_iteration(test: &mut MemoryReadTest) -> (more: bool)
    requires
        old(test).i < usize::MAX,
    ensures
        final(test).vec == old(test).vec,
        final(test).order == old(test).order,
        final(test).i == old(test).i + 1,
        more == (in_range(*old(test)) && final(test).i != final(test).vec@.len()),
{
    let i = test.i;
    test.i = i + 1;
    if i >= test.order.len() || test.order[i] >= test.vec.len() {
        return false;
    }
    black_box(test.vec[test.order[i]]);
    test.i != test.vec.len()
}

/// One byte into each whole page of a `len`-byte file with pages of `page`
/// bytes, in file order.
pub open spec fn page_offsets(len: nat, page: nat) -> Seq<u64> {
    Seq::new(len / page, |k: int| (k * page + 1) as u64)
}

/// The offsets of `page_offsets(len, page)` in a random order, so that a
/// walk through them reads each page once.
pub fn shuffled_pages(len: usize, page: usize) -> (v: Vec<u64>)
    requires
        page > 0,
    ensures
        v@.len() == len / page,
        v@.to_multiset() == page_offsets(len as nat, page as nat).to_multiset(),
{
    let count = len / page;
    let ghost all = page_offsets(len as nat, page as nat);
    proof {
        lemma_fundamental_div_mod(len as int, page as int);
    }
    let mut v: Vec<u64> = Vec::new();
    let mut k: usize = 0;
    while k < count
        invariant
            k <= count,
            count == len / page,
            page > 0,
            len == page * count + len % page,
            len % page >= 0,
            all == page_offsets(len as nat, page as nat),
            v@ == all.take(k as int),
        decreases count - k,
    {
        assert(k * page + page <= len) by (nonlinear_arith)
            requires
                k + 1 <= count,
                len == page * count + len % page,
                len % page >= 0,
                page > 0,
        ;
        let offset = k * page + 1;
        v.push(offset as u64);
        k = k + 1;
        assert(v@ =~= all.take(k as int));
    }
    assert(all.take(count as int) =~= all);
    shuffle(&mut v);
    proof {
        broadcast use vstd::seq_lib::group_to_multiset_ensures;
    }
    v
}

} // verus!
