//! Putting a download together when its chunks arrive in any order: each
//! chunk is written at the offset that its index gives, so no arrival has to
//! wait for another.

use crate::chunk::{
    chunk_count, chunk_hi, chunk_lo, lemma_chunk_in_range, lemma_chunks_partition,
};
use crate::error::StorageError;
use crate::transfer::piece;
use vstd::prelude::*;

verus! {

/// One message of a fetch task to the writer: a chunk's index and bytes, or
/// the reason why the fetch failed.
pub type Arrival = Result<(u64, Vec<u8>), StorageError>;

/// The image after `data` is written at `offset`. A write that ends past the
/// image's end extends it, and what lies between the old end and the write is
/// zero; a write of nothing changes nothing.
pub open spec fn written(image: Seq<u8>, offset: int, data: Seq<u8>) -> Seq<u8> {
    if data.len() == 0 {
        image
    } else {
        Seq::new(
            if offset + data.len() > image.len() {
                (offset + data.len()) as nat
            } else {
                image.len()
            },
            |p: int|
                if offset <= p < offset + data.len() {
                    data[p - offset]
                } else if p < image.len() {
                    image[p]
                } else {
                    0u8
                },
        )
    }
}

/// The image after the chunks of `arrivals` are written in their order of
/// arrival, each at `index * chunk_size`.
pub open spec fn replayed(image: Seq<u8>, arrivals: Seq<(u64, Seq<u8>)>, chunk_size: nat) -> Seq<u8>
    decreases arrivals.len(),
{
    if arrivals.len() == 0 {
        image
    } else {
        written(
            replayed(image, arrivals.drop_last(), chunk_size),
            arrivals.last().0 * chunk_size,
            arrivals.last().1,
        )
    }
}

/// Every arrival is a chunk of `source`: its index is below the chunk count
/// and its bytes are those that the chunk covers.
pub open spec fn arrivals_are_chunks_of(
    arrivals: Seq<(u64, Seq<u8>)>,
    source: Seq<u8>,
    chunk_size: nat,
) -> bool {
    forall|k: int|
        0 <= k < arrivals.len() ==> (#[trigger] arrivals[k]).0 < chunk_count(
            source.len(),
            chunk_size,
        ) && arrivals[k].1 == piece(source, chunk_size, arrivals[k].0 as nat)
}

/// Chunk `i` is among the arrivals.
pub open spec fn has_arrived(arrivals: Seq<(u64, Seq<u8>)>, i: nat) -> bool {
    exists|k: int| 0 <= k < arrivals.len() && (#[trigger] arrivals[k]).0 == i
}

/// While chunks of `source` arrive, the image keeps its length, a byte of a
/// chunk that has arrived is the source's, and every other byte is what the
/// image held before.
proof fn lemma_replay_bytes(
    image: Seq<u8>,
    source: Seq<u8>,
    arrivals: Seq<(u64, Seq<u8>)>,
    chunk_size: nat,
)
    requires
        chunk_size > 0,
        image.len() == source.len(),
        arrivals_are_chunks_of(arrivals, source, chunk_size),
    ensures
        replayed(image, arrivals, chunk_size).len() == source.len(),
        forall|p: int|
            0 <= p < source.len() ==> #[trigger] replayed(image, arrivals, chunk_size)[p] == (
            if has_arrived(arrivals, (p / chunk_size as int) as nat) {
                source[p]
            } else {
                image[p]
            }),
    decreases arrivals.len(),
{
    if arrivals.len() > 0 {
        let earlier = arrivals.drop_last();
        let last = arrivals.last();
        let before = replayed(image, earlier, chunk_size);
        let after = replayed(image, arrivals, chunk_size);
        assert(arrivals_are_chunks_of(earlier, source, chunk_size)) by {
            assert forall|k: int| 0 <= k < earlier.len() implies (#[trigger] earlier[k]).0
                < chunk_count(source.len(), chunk_size) && earlier[k].1 == piece(
                source,
                chunk_size,
                earlier[k].0 as nat,
            ) by {
                assert(earlier[k] == arrivals[k]);
            }
        }
        lemma_replay_bytes(image, source, earlier, chunk_size);
        let i = last.0 as nat;
        assert(last == arrivals[arrivals.len() - 1]);
        lemma_chunk_in_range(source.len(), chunk_size, i);
        let lo = chunk_lo(i, chunk_size) as int;
        let hi = chunk_hi(i, source.len(), chunk_size) as int;
        assert(last.1.len() == hi - lo);
        assert(after.len() == source.len());
        assert forall|p: int| 0 <= p < source.len() implies #[trigger] after[p] == (if has_arrived(
            arrivals,
            (p / chunk_size as int) as nat,
        ) {
            source[p]
        } else {
            image[p]
        }) by {
            let c = (p / chunk_size as int) as nat;
            lemma_chunks_partition(source.len(), chunk_size, p as nat);
            assert(chunk_hi(i, source.len(), chunk_size) == hi);
            if lo <= p < hi {
                assert(c == i);
                assert(has_arrived(arrivals, c));
                assert(after[p] == last.1[p - lo]);
            } else {
                assert(c != i);
                assert(after[p] == before[p]);
                if has_arrived(earlier, c) {
                    let k = choose|k: int| 0 <= k < earlier.len() && (#[trigger] earlier[k]).0 == c;
                    assert(arrivals[k] == earlier[k]);
                    assert(has_arrived(arrivals, c));
                } else {
                    if has_arrived(arrivals, c) {
                        let k = choose|k: int|
                            0 <= k < arrivals.len() && (#[trigger] arrivals[k]).0 == c;
                        assert(k < earlier.len());
                        assert(earlier[k] == arrivals[k]);
                        assert(false);
                    }
                }
            }
        }
    }
}

/// Once every chunk of `source` has arrived, the image is `source`, whatever
/// the order of arrival, however often a chunk came, and whatever the image
/// held at first.
pub proof fn lemma_reassembly_any_order(
    image: Seq<u8>,
    source: Seq<u8>,
    arrivals: Seq<(u64, Seq<u8>)>,
    chunk_size: nat,
)
    requires
        chunk_size > 0,
        image.len() == source.len(),
        arrivals_are_chunks_of(arrivals, source, chunk_size),
        forall|i: nat| i < chunk_count(source.len(), chunk_size) ==> has_arrived(arrivals, i),
    ensures
        replayed(image, arrivals, chunk_size) == source,
{
    lemma_replay_bytes(image, source, arrivals, chunk_size);
    let result = replayed(image, arrivals, chunk_size);
    assert forall|p: int| 0 <= p < source.len() implies result[p] == source[p] by {
        lemma_chunks_partition(source.len(), chunk_size, p as nat);
    }
    assert(result =~= source);
}

/// Two runs that receive the chunks of `source` in different orders end with
/// the same image.
pub proof fn lemma_arrival_order_is_irrelevant(
    image: Seq<u8>,
    source: Seq<u8>,
    first_run: Seq<(u64, Seq<u8>)>,
    second_run: Seq<(u64, Seq<u8>)>,
    chunk_size: nat,
)
    requires
        chunk_size > 0,
        image.len() == source.len(),
        arrivals_are_chunks_of(first_run, source, chunk_size),
        arrivals_are_chunks_of(second_run, source, chunk_size),
        forall|i: nat| i < chunk_count(source.len(), chunk_size) ==> has_arrived(first_run, i),
        forall|i: nat| i < chunk_count(source.len(), chunk_size) ==> has_arrived(second_run, i),
    ensures
        replayed(image, first_run, chunk_size) == replayed(image, second_run, chunk_size),
{
    lemma_reassembly_any_order(image, source, first_run, chunk_size);
    lemma_reassembly_any_order(image, source, second_run, chunk_size);
}

/// The file offset at which the chunk with this index is written, where it
/// can be represented.
pub fn write_offset(chunk_index: u64, chunk_size: u64) -> (offset: Option<u64>)
    ensures
        chunk_index * chunk_size <= u64::MAX ==> offset == Some((chunk_index * chunk_size) as u64),
        chunk_index * chunk_size > u64::MAX ==> offset is None,
{
    chunk_index.checked_mul(chunk_size)
}

/// Writes `data` into the in-memory image at `offset`, as a file would take
/// the write.
pub fn write_at(image: &mut Vec<u8>, offset: usize, data: &Vec<u8>)
    requires
        offset + data@.len() <= usize::MAX,
    ensures
        final(image)@ == written(old(image)@, offset as int, data@),
{
    let n: usize = data.len();
    if n == 0 {
        return ;
    }
    let end: usize = offset + n;
    while image.len() < end
        invariant
            old(image)@.len() <= image@.len(),
            image@.len() <= end || image@.len() == old(image)@.len(),
            forall|p: int| 0 <= p < old(image)@.len() ==> image@[p] == old(image)@[p],
            forall|p: int| old(image)@.len() <= p < image@.len() ==> image@[p] == 0u8,
        decreases end - image@.len(),
    {
        image.push(0u8);
    }
    let mut j: usize = 0;
    while j < n
        invariant
            n == data@.len(),
            end == offset + n,
            j <= n,
            image@.len() == written(old(image)@, offset as int, data@).len(),
            forall|p: int|
                0 <= p < image@.len() && !(offset <= p < offset + j) ==> image@[p] == (if p < old(
                    image,
                )@.len() {
                    old(image)@[p]
                } else {
                    0u8
                }),
            forall|p: int| offset <= p < offset + j ==> image@[p] == data@[p - offset],
        decreases n - j,
    {
        image.set(offset + j, data[j]);
        j = j + 1;
    }
    proof {
        assert(image@ =~= written(old(image)@, offset as int, data@));
    }
}

/// What the arrivals carry, as the contracts see it; a failure stands as an
/// empty chunk.
pub open spec fn chunks_of(arrivals: Seq<Arrival>) -> Seq<(u64, Seq<u8>)> {
    arrivals.map_values(
        |a: Arrival|
            match a {
                Ok(c) => (c.0, c.1@),
                Err(_) => (0u64, Seq::<u8>::empty()),
            },
    )
}

/// The writer's loop on an in-memory image: takes the arrivals in their
/// order, writes each chunk at the offset that its index gives, and stops at
/// the first failure, which it hands back.
pub fn replay(image: &mut Vec<u8>, chunk_size: u64, arrivals: Vec<Arrival>) -> (outcome: Result<
    (),
    StorageError,
>)
    requires
        forall|k: int|
            0 <= k < arrivals@.len() ==> ((#[trigger] arrivals@[k]) matches Ok(c) ==> c.0
                * chunk_size + c.1@.len() <= usize::MAX),
    ensures
        match outcome {
            Ok(_) => {
                &&& forall|k: int| 0 <= k < arrivals@.len() ==> (#[trigger] arrivals@[k]) is Ok
                &&& final(image)@ == replayed(
                    old(image)@,
                    chunks_of(arrivals@),
                    chunk_size as nat,
                )
            },
            Err(e) => exists|stop: int|
                {
                    &&& 0 <= stop < arrivals@.len()
                    &&& #[trigger] arrivals@[stop] == Err::<(u64, Vec<u8>), StorageError>(e)
                    &&& forall|k: int| 0 <= k < stop ==> (#[trigger] arrivals@[k]) is Ok
                    &&& final(image)@ == replayed(
                        old(image)@,
                        chunks_of(arrivals@.take(stop)),
                        chunk_size as nat,
                    )
                },
        },
{
    let ghost src = arrivals@;
    for arrival in it: arrivals.into_iter()
        invariant
            it.seq() == src,
            forall|k: int|
                0 <= k < src.len() ==> ((#[trigger] src[k]) matches Ok(c) ==> c.0 * chunk_size
                    + c.1@.len() <= usize::MAX),
            forall|k: int| 0 <= k < it.index() ==> (#[trigger] src[k]) is Ok,
            image@ == replayed(
                old(image)@,
                chunks_of(src.take(it.index() as int)),
                chunk_size as nat,
            ),
    {
        let ghost i = it.index() as int;
        proof {
            assert(src[i] == arrival);
        }
        match arrival {
            Ok((index, data)) => {
                proof {
                    assert(index * chunk_size + data@.len() <= usize::MAX);
                    assert(index * chunk_size >= 0) by (nonlinear_arith)
                        requires
                            index >= 0,
                            chunk_size >= 0,
                    ;
                }
                let offset: usize = (index * chunk_size) as usize;
                write_at(image, offset, &data);
                proof {
                    let seen = chunks_of(src.take(i + 1));
                    assert(seen.drop_last() =~= chunks_of(src.take(i)));
                    assert(seen.last() == (index, data@));
                }
            },
            Err(e) => {
                return Err(e);
            },
        }
    }
    proof {
        assert(src.take(src.len() as int) == src);
    }
    Ok(())
}

} // verus!
