//! Chunked upload and download: which byte ranges to move, and how the pieces
//! of a download are put together again.

use crate::chunk::{
    chunk_count, chunk_hi, chunk_lo, is_chunk, lemma_chunk_count_bounds, lemma_chunk_in_range,
    plan_chunks, Chunk,
};
use vstd::prelude::*;

verus! {

/// A run of `len` bytes that begins at offset `start`.
#[derive(Clone, Copy, Debug, PartialEq, Eq, Structural)]
pub struct Span {
    pub start: u64,
    pub len: u64,
}

/// What a caller asked to read.
#[derive(Clone, Copy, Debug, PartialEq, Eq, Structural)]
pub enum SpanRequest {
    /// The bytes of this span; the object's size need not be known.
    Range(Span),
    /// The whole object; its size has to be probed first.
    Whole,
    /// A range whose last byte lies before its first, or whose end cannot be
    /// represented.
    Invalid,
}

/// The request that the optional bounds `first` and `last` stand for. Both
/// bounds are byte offsets and both are part of the range. A range is read only
/// where both are given.
pub open spec fn span_request(first: Option<u64>, last: Option<u64>) -> SpanRequest {
    if first is Some && last is Some {
        if first->0 <= last->0 < u64::MAX {
            SpanRequest::Range(
                Span { start: first->0, len: (last->0 - first->0 + 1) as u64 },
            )
        } else {
            SpanRequest::Invalid
        }
    } else {
        SpanRequest::Whole
    }
}

/// Turns the optional inclusive bounds of a read into a span.
pub fn requested_span(first: Option<u64>, last: Option<u64>) -> (request: SpanRequest)
    ensures
        request == span_request(first, last),
{
    match (first, last) {
        (Some(a), Some(b)) => {
            if a <= b && b < u64::MAX {
                SpanRequest::Range(Span { start: a, len: b - a + 1 })
            } else {
                SpanRequest::Invalid
            }
        },
        _ => SpanRequest::Whole,
    }
}

/// The span of a whole object of `size` bytes.
pub fn whole_object(size: u64) -> (span: Span)
    ensures
        span == (Span { start: 0, len: size }),
{
    Span { start: 0, len: size }
}

/// How a span is fetched into memory.
#[derive(Debug)]
pub enum DownloadPlan {
    /// The span holds no byte: nothing is read and the result is empty.
    Empty,
    /// One read of the whole span.
    Single(Chunk),
    /// One read per chunk, gathered in index order.
    Chunked(Vec<Chunk>),
}

/// How a buffer is uploaded.
#[derive(Debug)]
pub enum UploadPlan {
    /// One plain put of the whole buffer.
    SinglePut,
    /// A multipart upload that is fed these parts in index order.
    Multipart(Vec<Chunk>),
}

/// The chunks are those of `total` bytes from offset `base`, in index order.
pub open spec fn are_chunks_of(chunks: Seq<Chunk>, base: nat, total: nat, chunk_size: nat) -> bool {
    &&& chunks.len() == chunk_count(total, chunk_size)
    &&& forall|i: int|
        0 <= i < chunks.len() ==> is_chunk(#[trigger] chunks[i], base, total, chunk_size, i as nat)
}

/// Plans the download of `span` into memory: nothing is read for an empty
/// span, a span of at most one chunk is read at once, a longer one chunk by
/// chunk. The chunk size may be 0 only where the span is empty.
pub fn plan_download(span: Span, chunk_size: u64) -> (plan: DownloadPlan)
    requires
        span.len <= chunk_size || chunk_size > 0,
        span.start + span.len <= u64::MAX,
        span.len > chunk_size ==> chunk_count(span.len as nat, chunk_size as nat) <= usize::MAX,
    ensures
        span.len == 0 ==> plan == DownloadPlan::Empty,
        0 < span.len <= chunk_size ==> plan == DownloadPlan::Single(
            Chunk { index: 0, start: span.start, end: (span.start + span.len) as u64 },
        ),
        span.len > chunk_size ==> (plan matches DownloadPlan::Chunked(chunks) && are_chunks_of(
            chunks@,
            span.start as nat,
            span.len as nat,
            chunk_size as nat,
        )),
{
    if span.len == 0 {
        DownloadPlan::Empty
    } else if span.len <= chunk_size {
        DownloadPlan::Single(Chunk { index: 0, start: span.start, end: span.start + span.len })
    } else {
        DownloadPlan::Chunked(plan_chunks(span.start, span.len, chunk_size))
    }
}

/// Plans the download of an object of `total_size` bytes into a file: always
/// chunk by chunk, so an empty object has no chunk at all.
pub fn plan_file_download(total_size: u64, chunk_size: u64) -> (chunks: Vec<Chunk>)
    requires
        chunk_size > 0,
        chunk_count(total_size as nat, chunk_size as nat) <= usize::MAX,
    ensures
        are_chunks_of(chunks@, 0, total_size as nat, chunk_size as nat),
{
    plan_chunks(0, total_size, chunk_size)
}

/// Plans the upload of a buffer of `len` bytes: a buffer of at most one chunk
/// goes up in one put, a longer one as a multipart upload. The chunk size may
/// be 0 only where the buffer is empty.
pub fn plan_upload(len: u64, chunk_size: u64) -> (plan: UploadPlan)
    requires
        len <= chunk_size || chunk_size > 0,
        len > chunk_size ==> chunk_count(len as nat, chunk_size as nat) <= usize::MAX,
    ensures
        len <= chunk_size ==> plan == UploadPlan::SinglePut,
        len > chunk_size ==> (plan matches UploadPlan::Multipart(parts) && are_chunks_of(
            parts@,
            0,
            len as nat,
            chunk_size as nat,
        )),
{
    if len <= chunk_size {
        UploadPlan::SinglePut
    } else {
        UploadPlan::Multipart(plan_chunks(0, len, chunk_size))
    }
}

/// The bytes of `data` that chunk `i` covers.
pub open spec fn piece(data: Seq<u8>, chunk_size: nat, i: nat) -> Seq<u8> {
    data.subrange(chunk_lo(i, chunk_size) as int, chunk_hi(i, data.len(), chunk_size) as int)
}

/// `data`, cut into its chunks, in index order.
pub open spec fn pieces(data: Seq<u8>, chunk_size: nat) -> Seq<Seq<u8>> {
    Seq::new(chunk_count(data.len(), chunk_size), |i: int| piece(data, chunk_size, i as nat))
}

/// The views of a list of byte buffers.
pub open spec fn segment_views(segments: Seq<Vec<u8>>) -> Seq<Seq<u8>> {
    segments.map_values(|v: Vec<u8>| v@)
}

/// The first `k` pieces of `data`, put end to end, are the bytes of `data`
/// below the start of piece `k`.
proof fn lemma_pieces_prefix(data: Seq<u8>, chunk_size: nat, k: nat)
    requires
        chunk_size > 0,
        k <= chunk_count(data.len(), chunk_size),
    ensures
        k < chunk_count(data.len(), chunk_size) ==> pieces(data, chunk_size).take(
            k as int,
        ).flatten() == data.take(chunk_lo(k, chunk_size) as int),
        k == chunk_count(data.len(), chunk_size) ==> pieces(data, chunk_size).take(
            k as int,
        ).flatten() == data,
    decreases k,
{
    let all = pieces(data, chunk_size);
    let n = chunk_count(data.len(), chunk_size);
    lemma_chunk_count_bounds(data.len(), chunk_size);
    if k == 0 {
        assert(all.take(0) =~= Seq::<Seq<u8>>::empty());
        assert(all.take(0).flatten() =~= Seq::<u8>::empty());
        assert(data.take(0) =~= Seq::<u8>::empty());
        if n == 0 {
            assert(data =~= Seq::<u8>::empty());
        }
    } else {
        let j = (k - 1) as nat;
        lemma_pieces_prefix(data, chunk_size, j);
        lemma_chunk_in_range(data.len(), chunk_size, j);
        assert(all.take(k as int) =~= all.take(j as int).push(all[j as int]));
        all.take(j as int).lemma_flatten_push(all[j as int]);
        let lo = chunk_lo(j, chunk_size) as int;
        let hi = chunk_hi(j, data.len(), chunk_size) as int;
        assert(all[j as int] == data.subrange(lo, hi));
        assert(data.take(lo) + data.subrange(lo, hi) =~= data.take(hi));
        if k == n {
            assert(data.take(hi) =~= data);
        }
    }
}

/// Cutting `data` into chunks and putting the chunks end to end, in index
/// order, gives `data` back, whatever the chunk size.
pub proof fn lemma_pieces_concatenate(data: Seq<u8>, chunk_size: nat)
    requires
        chunk_size > 0,
    ensures
        pieces(data, chunk_size).flatten() == data,
{
    let all = pieces(data, chunk_size);
    lemma_pieces_prefix(data, chunk_size, chunk_count(data.len(), chunk_size));
    assert(all.take(all.len() as int) =~= all);
}

/// A buffer that is uploaded in parts of one chunk size and then downloaded
/// in chunks of another comes back unchanged: the parts, put end to end, are
/// the stored object, and the object's chunks, put end to end, are the
/// download.
pub proof fn lemma_upload_download_roundtrip(data: Seq<u8>, upload_chunk: nat, download_chunk: nat)
    requires
        upload_chunk > 0,
        download_chunk > 0,
    ensures
        pieces(pieces(data, upload_chunk).flatten(), download_chunk).flatten() == data,
{
    lemma_pieces_concatenate(data, upload_chunk);
    lemma_pieces_concatenate(data, download_chunk);
}

/// Copies out the bytes of `data` that lie in `[start, end)`.
pub fn extract(data: &Vec<u8>, start: usize, end: usize) -> (part: Vec<u8>)
    requires
        start <= end <= data@.len(),
    ensures
        part@ == data@.subrange(start as int, end as int),
{
    let mut part: Vec<u8> = Vec::new();
    let mut i: usize = start;
    while i < end
        invariant
            start <= i <= end <= data@.len(),
            part@ == data@.subrange(start as int, i as int),
        decreases end - i,
    {
        part.push(data[i]);
        proof {
            assert(data@.subrange(start as int, i + 1) =~= data@.subrange(
                start as int,
                i as int,
            ).push(data@[i as int]));
        }
        i = i + 1;
    }
    part
}

/// Cuts a buffer into its chunks of `chunk_size` bytes, in index order.
pub fn split(data: &Vec<u8>, chunk_size: usize) -> (parts: Vec<Vec<u8>>)
    requires
        chunk_size > 0,
    ensures
        segment_views(parts@) == pieces(data@, chunk_size as nat),
{
    let total: usize = data.len();
    let mut parts: Vec<Vec<u8>> = Vec::new();
    let mut offset: usize = 0;
    proof {
        lemma_chunk_count_bounds(total as nat, chunk_size as nat);
        assert(chunk_lo(0, chunk_size as nat) == 0);
    }
    while offset < total
        invariant
            chunk_size > 0,
            total == data@.len(),
            offset <= total,
            offset < total ==> parts@.len() < chunk_count(total as nat, chunk_size as nat)
                && offset == chunk_lo(parts@.len(), chunk_size as nat),
            offset == total ==> parts@.len() == chunk_count(total as nat, chunk_size as nat),
            forall|i: int|
                0 <= i < parts@.len() ==> (#[trigger] parts@[i])@ == piece(
                    data@,
                    chunk_size as nat,
                    i as nat,
                ),
        decreases total - offset,
    {
        proof {
            lemma_chunk_in_range(total as nat, chunk_size as nat, parts@.len());
        }
        let end: usize = if total - offset < chunk_size {
            total
        } else {
            offset + chunk_size
        };
        let ghost k = parts@.len();
        proof {
            assert((k + 1) * chunk_size == k * chunk_size + chunk_size) by (nonlinear_arith);
            assert(end == chunk_hi(k, total as nat, chunk_size as nat));
            if k + 1 < chunk_count(total as nat, chunk_size as nat) {
                lemma_chunk_in_range(total as nat, chunk_size as nat, k + 1);
            }
        }
        let part = extract(data, offset, end);
        parts.push(part);
        offset = end;
    }
    proof {
        assert(segment_views(parts@) =~= pieces(data@, chunk_size as nat));
    }
    parts
}

/// Puts the segments of a download end to end, in index order.
pub fn assemble(segments: &Vec<Vec<u8>>) -> (data: Vec<u8>)
    ensures
        data@ == segment_views(segments@).flatten(),
{
    let mut data: Vec<u8> = Vec::new();
    let n: usize = segments.len();
    let mut i: usize = 0;
    proof {
        assert(segment_views(segments@).take(0) =~= Seq::<Seq<u8>>::empty());
    }
    while i < n
        invariant
            n == segments@.len(),
            i <= n,
            data@ == segment_views(segments@).take(i as int).flatten(),
        decreases n - i,
    {
        let segment = &segments[i];
        let len: usize = segment.len();
        let ghost done = data@;
        let mut j: usize = 0;
        while j < len
            invariant
                len == segment@.len(),
                j <= len,
                data@ == done + segment@.take(j as int),
            decreases len - j,
        {
            data.push(segment[j]);
            proof {
                assert(segment@.take(j + 1) =~= segment@.take(j as int).push(segment@[j as int]));
            }
            j = j + 1;
        }
        proof {
            let views = segment_views(segments@);
            assert(segment@.take(len as int) =~= segment@);
            assert(views.take(i + 1) =~= views.take(i as int).push(segment@));
            views.take(i as int).lemma_flatten_push(segment@);
        }
        i = i + 1;
    }
    proof {
        assert(segment_views(segments@).take(n as int) =~= segment_views(segments@));
    }
    data
}

} // verus!
