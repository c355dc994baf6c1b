//! The bookkeeping of the file-reading workloads, whose reads themselves
//! are done by the caller.
use vstd::prelude::*;

verus! {

/// The offset to read at position `i` of a page walk, and whether a read
/// will follow it; `None` once the walk is over.
pub fn page_at(pages: &Vec<u64>, i: usize) -> (r: Option<(u64, bool)>)
    ensures
        i < pages@.len() ==> r == Some((pages@[i as int], i + 1 != pages@.len())),
        i >= pages@.len() ==> r is None,
{
    if i < pages.len() {
        Some((pages[i], i + 1 != pages.len()))
    } else {
        None
    }
}

/// One round of reads of `size` bytes each, at most `reads` of them, through
/// a region of `full` bytes of which `remaining` are left to read from
/// `offset` on.
pub struct RingRound {
    /// The offsets to read at, in order.
    pub offsets: Vec<u64>,
    /// Where the next round starts.
    pub offset: usize,
    /// How many bytes the next round has left to read.
    pub remaining: usize,
}

/// The number of reads in a round.
pub open spec fn round_reads(remaining: nat, size: nat, reads: nat) -> nat {
    if remaining / size < reads {
        remaining / size
    } else {
        reads
    }
}

/// Plans one round of reads: consecutive offsets from `offset`, as many as
/// `reads` or as fit in `remaining`; when the region is used up, the next
/// round starts over at offset 0 with `full` bytes left.
pub fn ring_round(offset: usize, remaining: usize, full: usize, size: usize, reads: usize) -> (r: RingRound)
    requires
        size > 0,
        offset + remaining <= usize::MAX,
    ensures
        r.offsets@.len() == round_reads(remaining as nat, size as nat, reads as nat),
        forall|k: int| 0 <= k < r.offsets@.len() ==> #[trigger] r.offsets@[k] == offset + k * size,
        ({
            let done = round_reads(remaining as nat, size as nat, reads as nat) * size;
            if remaining - done < size {
                r.offset == 0 && r.remaining == full
            } else {
                r.offset == offset + done && r.remaining == remaining - done
            }
        }),
{
    let mut offsets: Vec<u64> = Vec::new();
    let mut at = offset;
    let mut left = remaining;
    let mut k: usize = 0;
    let ghost count = round_reads(remaining as nat, size as nat, reads as nat);
    proof {
        vstd::arithmetic::div_mod::lemma_fundamental_div_mod(remaining as int, size as int);
    }
    while k < reads && left >= size
        invariant
            size > 0,
            k <= reads,
            k <= count,
            count == round_reads(remaining as nat, size as nat, reads as nat),
            remaining == size * (remaining / size) + remaining % size,
            remaining % size < size,
            at == offset + k * size,
            left == remaining - k * size,
            offset + remaining <= usize::MAX,
            offsets@.len() == k,
            forall|j: int| 0 <= j < k ==> #[trigger] offsets@[j] == offset + j * size,
        decreases reads - k,
    {
        assert(k < remaining / size) by (nonlinear_arith)
            requires
                left >= size,
                left == remaining - k * size,
                remaining == size * (remaining / size) + remaining % size,
                remaining % size < size,
                size > 0,
        ;
        offsets.push(at as u64);
        at = at + size;
        left = left - size;
        k = k + 1;
        assert(at == offset + k * size) by (nonlinear_arith)
            requires
                at == offset + (k - 1) * size + size,
        ;
        assert(left == remaining - k * size) by (nonlinear_arith)
            requires
                left == remaining - (k - 1) * size - size,
        ;
    }
    assert(k == count) by (nonlinear_arith)
        requires
            k <= count,
            count == (if remaining / size < reads { (remaining / size) as int } else { reads as int }),
            !(k < reads && left >= size),
            left == remaining - k * size,
            remaining == size * (remaining / size) + remaining % size,
            remaining % size < size,
            size > 0,
    ;
    if left < size {
        RingRound { offsets, offset: 0, remaining: full }
    } else {
        RingRound { offsets, offset: at, remaining: left }
    }
}

} // verus!
