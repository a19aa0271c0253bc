//! Chunk descriptors: how a byte range is cut into pieces of at most
//! `chunk_size` bytes.

use vstd::prelude::*;

verus! {

/// A contiguous byte sub-range `[start, end)` of an object, the unit of
/// parallel transfer. `index` is its position among the chunks of one transfer.
#[derive(Clone, Copy, Debug, PartialEq, Eq, Structural)]
pub struct Chunk {
    pub index: u64,
    pub start: u64,
    pub end: u64,
}

/// Number of chunks needed for `total` bytes: `ceil(total / chunk_size)`.
pub open spec fn chunk_count(total: nat, chunk_size: nat) -> nat {
    ((total + chunk_size - 1) / (chunk_size as int)) as nat
}

/// First byte of chunk `i`, relative to the start of the transfer.
pub open spec fn chunk_lo(i: nat, chunk_size: nat) -> nat {
    i * chunk_size
}

/// One past the last byte of chunk `i`, relative to the start of the transfer.
pub open spec fn chunk_hi(i: nat, total: nat, chunk_size: nat) -> nat {
    if (i + 1) * chunk_size <= total {
        (i + 1) * chunk_size
    } else {
        total
    }
}

/// `c` is chunk number `i` of the `total` bytes that begin at offset `base`.
pub open spec fn is_chunk(c: Chunk, base: nat, total: nat, chunk_size: nat, i: nat) -> bool {
    &&& c.index == i
    &&& c.start == base + chunk_lo(i, chunk_size)
    &&& c.end == base + chunk_hi(i, total, chunk_size)
}

/// `chunk_count` is the number `n` with `(n - 1) * chunk_size < total <= n * chunk_size`.
pub proof fn lemma_chunk_count_bounds(total: nat, chunk_size: nat)
    requires
        chunk_size > 0,
    ensures
        chunk_count(total, chunk_size) * chunk_size >= total,
        total > 0 ==> (chunk_count(total, chunk_size) - 1) * chunk_size < total,
        total == 0 <==> chunk_count(total, chunk_size) == 0,
        chunk_count(total, chunk_size) <= total,
        chunk_count(total, chunk_size) == total / chunk_size + (if total % chunk_size == 0 {
            0nat
        } else {
            1nat
        }),
{
    let n = (total + chunk_size - 1) / (chunk_size as int);
    let q = total as int / chunk_size as int;
    let r = total as int % chunk_size as int;
    assert(n * chunk_size >= total && (total > 0 ==> (n - 1) * chunk_size < total) && (total == 0
        <==> n == 0) && 0 <= n <= total && n == q + (if r == 0 {
        0int
    } else {
        1int
    })) by (nonlinear_arith)
        requires
            chunk_size > 0,
            n == (total + chunk_size - 1) / (chunk_size as int),
            q == total as int / chunk_size as int,
            r == total as int % chunk_size as int,
    ;
}

/// Number of chunks that a transfer of `total_size` bytes is cut into.
pub fn num_chunks(total_size: u64, chunk_size: u64) -> (n: u64)
    requires
        chunk_size > 0,
    ensures
        n == chunk_count(total_size as nat, chunk_size as nat),
{
    proof {
        lemma_chunk_count_bounds(total_size as nat, chunk_size as nat);
    }
    let q: u64 = total_size / chunk_size;
    if total_size % chunk_size == 0 {
        q
    } else {
        q + 1
    }
}

/// The chunks of `total` bytes tile `[0, total)`: they are non-empty, none is
/// longer than `chunk_size`, each begins where the one before it ends, the
/// first begins at 0 and the last ends at `total`.
pub proof fn lemma_chunks_tile(total: nat, chunk_size: nat)
    requires
        chunk_size > 0,
    ensures
        forall|i: nat|
            i < chunk_count(total, chunk_size) ==> chunk_lo(i, chunk_size) < #[trigger] chunk_hi(
                i,
                total,
                chunk_size,
            ) <= total,
        forall|i: nat|
            i < chunk_count(total, chunk_size) ==> #[trigger] chunk_hi(i, total, chunk_size)
                - chunk_lo(i, chunk_size) <= chunk_size,
        forall|i: nat|
            i + 1 < chunk_count(total, chunk_size) ==> #[trigger] chunk_hi(i, total, chunk_size)
                == chunk_lo(i + 1, chunk_size),
        chunk_lo(0, chunk_size) == 0,
        chunk_count(total, chunk_size) > 0 ==> chunk_hi(
            (chunk_count(total, chunk_size) - 1) as nat,
            total,
            chunk_size,
        ) == total,
{
    let n = chunk_count(total, chunk_size);
    lemma_chunk_count_bounds(total, chunk_size);
    assert forall|i: nat| i < n implies chunk_lo(i, chunk_size) < #[trigger] chunk_hi(
        i,
        total,
        chunk_size,
    ) <= total && chunk_hi(i, total, chunk_size) - chunk_lo(i, chunk_size) <= chunk_size && (i + 1
        < n ==> chunk_hi(i, total, chunk_size) == chunk_lo(i + 1, chunk_size)) by {
        lemma_chunk_in_range(total, chunk_size, i);
    }
    if n > 0 {
        lemma_chunk_in_range(total, chunk_size, (n - 1) as nat);
    }
}

/// Facts about one chunk `i` below the chunk count.
pub proof fn lemma_chunk_in_range(total: nat, chunk_size: nat, i: nat)
    requires
        chunk_size > 0,
        i < chunk_count(total, chunk_size),
    ensures
        chunk_lo(i, chunk_size) < chunk_hi(i, total, chunk_size) <= total,
        chunk_hi(i, total, chunk_size) - chunk_lo(i, chunk_size) <= chunk_size,
        i + 1 < chunk_count(total, chunk_size) ==> chunk_hi(i, total, chunk_size) == chunk_lo(
            i + 1,
            chunk_size,
        ),
        i + 1 == chunk_count(total, chunk_size) ==> chunk_hi(i, total, chunk_size) == total,
{
    let n = chunk_count(total, chunk_size);
    lemma_chunk_count_bounds(total, chunk_size);
    assert(i * chunk_size < total && (i + 1) * chunk_size == i * chunk_size + chunk_size && (i + 1
        < n ==> (i + 1) * chunk_size < total) && (i + 1 == n ==> (i + 1) * chunk_size >= total))
        by (nonlinear_arith)
        requires
            chunk_size > 0,
            i < n,
            n * chunk_size >= total,
            (n - 1) * chunk_size < total,
    ;
}

/// Every byte offset below `total` lies in exactly one chunk, the one numbered
/// `offset / chunk_size`: the chunks leave no gap and do not overlap.
pub proof fn lemma_chunks_partition(total: nat, chunk_size: nat, offset: nat)
    requires
        chunk_size > 0,
        offset < total,
    ensures
        offset / chunk_size < chunk_count(total, chunk_size),
        forall|i: nat|
            i < chunk_count(total, chunk_size) ==> ((chunk_lo(i, chunk_size) <= offset
                < #[trigger] chunk_hi(i, total, chunk_size)) <==> i == offset / chunk_size),
{
    let n = chunk_count(total, chunk_size);
    let k = offset / chunk_size;
    lemma_chunk_count_bounds(total, chunk_size);
    assert(k * chunk_size <= offset < (k + 1) * chunk_size && k < n) by (nonlinear_arith)
        requires
            chunk_size > 0,
            offset < total,
            k == offset / chunk_size,
            n * chunk_size >= total,
    ;
    assert forall|i: nat| i < n implies ((chunk_lo(i, chunk_size) <= offset < #[trigger] chunk_hi(
        i,
        total,
        chunk_size,
    )) <==> i == k) by {
        assert((i < k ==> (i + 1) * chunk_size <= k * chunk_size) && (i > k ==> i * chunk_size >= (k
            + 1) * chunk_size)) by (nonlinear_arith)
            requires
                chunk_size > 0,
        ;
    }
}

/// Two different chunks of one transfer share no byte.
pub proof fn lemma_chunks_disjoint(total: nat, chunk_size: nat, i: nat, j: nat)
    requires
        chunk_size > 0,
        i < j,
    ensures
        chunk_hi(i, total, chunk_size) <= chunk_lo(j, chunk_size),
{
    assert((i + 1) * chunk_size <= j * chunk_size) by (nonlinear_arith)
        requires
            i < j,
            chunk_size > 0,
    ;
}

/// The chunks of the `total` bytes that begin at offset `base` tile
/// `[base, base + total)`: every offset of the range lies in exactly one
/// chunk, each chunk holds between 1 and `chunk_size` bytes, and the chunks
/// follow one another without a gap.
pub proof fn lemma_range_chunks_partition(base: nat, total: nat, chunk_size: nat, offset: nat)
    requires
        chunk_size > 0,
        base <= offset < base + total,
    ensures
        forall|i: nat|
            i < chunk_count(total, chunk_size) ==> ((base + chunk_lo(i, chunk_size) <= offset < base
                + #[trigger] chunk_hi(i, total, chunk_size)) <==> i == (offset - base) / (
            chunk_size as int)),
        ((offset - base) / (chunk_size as int)) < chunk_count(total, chunk_size),
        forall|i: nat|
            i < chunk_count(total, chunk_size) ==> 1 <= #[trigger] chunk_hi(i, total, chunk_size)
                - chunk_lo(i, chunk_size) <= chunk_size,
        chunk_count(total, chunk_size) > 0,
        base + chunk_lo(0, chunk_size) == base,
        base + chunk_hi((chunk_count(total, chunk_size) - 1) as nat, total, chunk_size) == base
            + total,
{
    lemma_chunks_partition(total, chunk_size, (offset - base) as nat);
    lemma_chunks_tile(total, chunk_size);
    lemma_chunk_count_bounds(total, chunk_size);
}

/// Chunk number `index` of the `total_size` bytes that begin at offset `base`.
pub fn chunk_at(base: u64, total_size: u64, chunk_size: u64, index: u64) -> (c: Chunk)
    requires
        chunk_size > 0,
        base + total_size <= u64::MAX,
        index < chunk_count(total_size as nat, chunk_size as nat),
    ensures
        is_chunk(c, base as nat, total_size as nat, chunk_size as nat, index as nat),
{
    proof {
        lemma_chunk_in_range(total_size as nat, chunk_size as nat, index as nat);
        assert((index + 1) * chunk_size == index * chunk_size + chunk_size) by (nonlinear_arith);
    }
    let lo: u64 = index * chunk_size;
    let remaining: u64 = total_size - lo;
    let len: u64 = if remaining < chunk_size {
        remaining
    } else {
        chunk_size
    };
    Chunk { index, start: base + lo, end: base + lo + len }
}

/// All chunks of the `total_size` bytes that begin at offset `base`, in index
/// order.
pub fn plan_chunks(base: u64, total_size: u64, chunk_size: u64) -> (chunks: Vec<Chunk>)
    requires
        chunk_size > 0,
        base + total_size <= u64::MAX,
        chunk_count(total_size as nat, chunk_size as nat) <= usize::MAX,
    ensures
        chunks@.len() == chunk_count(total_size as nat, chunk_size as nat),
        forall|i: int|
            0 <= i < chunks@.len() ==> is_chunk(
                #[trigger] chunks@[i],
                base as nat,
                total_size as nat,
                chunk_size as nat,
                i as nat,
            ),
{
    let n: u64 = num_chunks(total_size, chunk_size);
    let mut chunks: Vec<Chunk> = Vec::new();
    let mut i: u64 = 0;
    while i < n
        invariant
            chunk_size > 0,
            base + total_size <= u64::MAX,
            n == chunk_count(total_size as nat, chunk_size as nat),
            n <= usize::MAX,
            i <= n,
            chunks@.len() == i,
            forall|k: int|
                0 <= k < chunks@.len() ==> is_chunk(
                    #[trigger] chunks@[k],
                    base as nat,
                    total_size as nat,
                    chunk_size as nat,
                    k as nat,
                ),
        decreases n - i,
    {
        let c = chunk_at(base, total_size, chunk_size, i);
        chunks.push(c);
        i = i + 1;
    }
    chunks
}

} // verus!
