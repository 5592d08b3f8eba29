//! The chunked transfer engine's model: planning a transfer, partitioning it
//! into byte ranges, deciding what a resumed run may skip, merging the pieces,
//! and checking integrity of the result.
//!
//! The shell around the library performs the network and file traffic; every
//! decision about ranges, resumption and completion is made here.

use vstd::prelude::*;

use crate::error::TronCtlError;

verus! {

/// Files above this size are fetched in parallel chunks when the server
/// honours range requests.
pub const LARGE_FILE_THRESHOLD: u64 = 10 * 1024 * 1024;

/// How a transfer will be executed.
#[derive(Debug, Clone, Copy, PartialEq, Eq, Structural)]
pub enum DownloadMode {
    SingleStream,
    Chunked,
}

/// The lifecycle of one chunk.
#[derive(Debug, Clone, Copy, PartialEq, Eq, Structural)]
pub enum ChunkStatus {
    Pending,
    Downloading,
    Completed,
}

/// One planned byte range `[start, end]` of the remote resource.
#[derive(Debug, Clone, Copy)]
pub struct ChunkProgress {
    pub index: usize,
    pub start: u64,
    pub end: u64,
    pub downloaded: u64,
    pub status: ChunkStatus,
}

/// The persisted transfer state: the plan plus each chunk's status.
#[derive(Debug, Clone)]
pub struct DownloadProgress {
    pub url: String,
    pub total_size: u64,
    pub chunk_size: u64,
    pub chunks: Vec<ChunkProgress>,
}

/// How many bytes chunk `c` is responsible for.
pub open spec fn spec_chunk_span(c: ChunkProgress) -> int {
    c.end - c.start + 1
}

/// Chunk `i` of `n` in a plan with the given chunk size: it starts right after
/// its predecessor and the last one absorbs the remainder.
pub open spec fn spec_wf_chunk(c: ChunkProgress, i: int, n: int, chunk_size: int, total: int) -> bool {
    &&& c.index == i
    &&& c.start == i * chunk_size
    &&& c.end == (if i == n - 1 {
        total - 1
    } else {
        i * chunk_size + chunk_size - 1
    })
    &&& c.start <= c.end
}

/// A plan whose chunks tile `[0, total_size)` contiguously in index order.
pub open spec fn spec_wf_progress(p: DownloadProgress) -> bool {
    &&& 0 < p.total_size
    &&& 1 <= p.chunks.len()
    &&& 1 <= p.chunk_size
    &&& forall|i: int|
        0 <= i < p.chunks.len() ==> spec_wf_chunk(
            #[trigger] p.chunks@[i],
            i,
            p.chunks.len() as int,
            p.chunk_size as int,
            p.total_size as int,
        )
}

/// Pick the transfer strategy from the probe's answer: parallel chunks only
/// for a large file on a server that honours ranges.
pub fn plan_download_mode(total_size: u64, supports_range: bool) -> (m: DownloadMode)
    ensures
        m == DownloadMode::Chunked <==> (supports_range && total_size > LARGE_FILE_THRESHOLD),
{
    if supports_range && total_size > LARGE_FILE_THRESHOLD {
        DownloadMode::Chunked
    } else {
        DownloadMode::SingleStream
    }
}

/// The freshly planned chunk `i` of `n`, still pending.
pub open spec fn spec_fresh_chunk(i: int, n: int, chunk_size: int, total: int) -> ChunkProgress {
    ChunkProgress {
        index: i as usize,
        start: (i * chunk_size) as u64,
        end: (if i == n - 1 {
            total - 1
        } else {
            i * chunk_size + chunk_size - 1
        }) as u64,
        downloaded: 0,
        status: ChunkStatus::Pending,
    }
}

/// The freshly planned partition of `total` bytes into `n` chunks.
pub open spec fn spec_fresh_chunks(n: int, chunk_size: int, total: int) -> Seq<ChunkProgress> {
    Seq::new(n as nat, |i: int| spec_fresh_chunk(i, n, chunk_size, total))
}

/// `n * (total / n) <= total` for positive `n`.
proof fn lemma_div_mul_le(total: int, n: int)
    requires
        0 < n,
        0 <= total,
    ensures
        n * (total / n) <= total,
        total / n >= 0,
{
    vstd::arithmetic::div_mod::lemma_fundamental_div_mod(total, n);
    vstd::arithmetic::div_mod::lemma_mod_bound(total, n);
    vstd::arithmetic::div_mod::lemma_div_pos_is_pos(total, n);
}

/// Partition `total_size` bytes into `num_threads` contiguous pending chunks,
/// each of `chunk_size` bytes with the last absorbing the remainder.
pub fn create_initial_progress(url: &str, total_size: u64, num_threads: usize, chunk_size: u64) -> (r:
    DownloadProgress)
    requires
        1 <= num_threads,
        num_threads as u64 <= total_size,
        chunk_size == total_size as int / num_threads as int,
    ensures
        r.url@ == url@,
        r.total_size == total_size,
        r.chunk_size == chunk_size,
        r.chunks@ == spec_fresh_chunks(num_threads as int, chunk_size as int, total_size as int),
        spec_wf_progress(r),
        spec_all_pending(r.chunks@),
{
    let ghost n = num_threads as int;
    let ghost ck = chunk_size as int;
    let ghost total = total_size as int;
    proof {
        lemma_div_mul_le(total, n);
        // chunk_size >= 1 because total_size >= num_threads
        vstd::arithmetic::div_mod::lemma_div_is_ordered(n, total, n);
        vstd::arithmetic::div_mod::lemma_div_by_self(n);
    }
    let mut chunks: Vec<ChunkProgress> = Vec::new();
    let mut i: usize = 0;
    while i < num_threads
        invariant
            0 <= i <= num_threads,
            1 <= num_threads,
            num_threads as u64 <= total_size,
            ck == total / n,
            n == num_threads as int,
            ck == chunk_size as int,
            total == total_size as int,
            1 <= ck,
            n * ck <= total,
            chunks@ == Seq::new(i as nat, |j: int| spec_fresh_chunk(j, n, ck, total)),
        decreases num_threads - i,
    {
        proof {
            vstd::arithmetic::mul::lemma_mul_inequality(i as int + 1, n, ck);
            vstd::arithmetic::mul::lemma_mul_is_distributive_add_other_way(ck, i as int, 1);
            vstd::arithmetic::mul::lemma_mul_nonnegative(i as int, ck);
        }
        let start: u64 = (i as u64) * chunk_size;
        let end: u64 = if i == num_threads - 1 {
            total_size - 1
        } else {
            start + chunk_size - 1
        };
        let c = ChunkProgress { index: i, start, end, downloaded: 0, status: ChunkStatus::Pending };
        proof {
            assert(spec_wf_chunk(c, i as int, n, ck, total));
            assert(chunks@.push(c) =~= Seq::new((i + 1) as nat, |j: int| spec_fresh_chunk(j, n, ck, total)));
        }
        chunks.push(c);
        i = i + 1;
    }
    let r = DownloadProgress {
        url: url.to_owned(),
        total_size,
        chunk_size,
        chunks,
    };
    proof {
        assert forall|j: int| 0 <= j < n implies spec_wf_chunk(
            #[trigger] r.chunks@[j],
            j,
            n,
            ck,
            total,
        ) by {
            vstd::arithmetic::mul::lemma_mul_inequality(j + 1, n, ck);
            vstd::arithmetic::mul::lemma_mul_is_distributive_add_other_way(ck, j, 1);
            vstd::arithmetic::mul::lemma_mul_nonnegative(j, ck);
        }
        assert(spec_wf_progress(r));
    }
    r
}

/// Decide executably whether a record is a well-formed plan.
pub fn is_wf_progress(p: &DownloadProgress) -> (b: bool)
    ensures
        b == spec_wf_progress(*p),
{
    if p.total_size == 0 || p.chunks.len() == 0 || p.chunk_size == 0 {
        return false;
    }
    let n = p.chunks.len();
    let mut i: usize = 0;
    while i < n
        invariant
            0 <= i <= n,
            n == p.chunks.len(),
            0 < p.total_size,
            1 <= p.chunk_size,
            forall|j: int|
                0 <= j < i ==> spec_wf_chunk(
                    #[trigger] p.chunks@[j],
                    j,
                    n as int,
                    p.chunk_size as int,
                    p.total_size as int,
                ),
        decreases n - i,
    {
        let c = &p.chunks[i];
        proof {
            vstd::arithmetic::mul::lemma_mul_upper_bound(
                i as int,
                0xFFFF_FFFF_FFFF_FFFF,
                p.chunk_size as int,
                0xFFFF_FFFF_FFFF_FFFF,
            );
        }
        let start_wide: u128 = (i as u128) * (p.chunk_size as u128);
        let end_wide: u128 = if i == n - 1 {
            (p.total_size - 1) as u128
        } else {
            start_wide + (p.chunk_size as u128) - 1
        };
        if !(c.index == i && (c.start as u128) == start_wide && (c.end as u128) == end_wide
            && c.start <= c.end) {
            return false;
        }
        i = i + 1;
    }
    true
}

/// A saved record is honoured only when it is a well-formed plan for exactly
/// the probed resource: same source URL and same total size.
pub open spec fn spec_should_reuse(saved: DownloadProgress, url: Seq<char>, total_size: u64) -> bool {
    &&& saved.url@ == url
    &&& saved.total_size == total_size
    &&& spec_wf_progress(saved)
}

/// The chunk sequence a new run works on: the saved record's own chunks when
/// it may be reused, else a fresh full partition.
pub open spec fn spec_resume_chunks(
    saved: Option<DownloadProgress>,
    url: Seq<char>,
    total_size: u64,
    num_threads: int,
) -> Seq<ChunkProgress> {
    match saved {
        Option::Some(s) => if spec_should_reuse(s, url, total_size) {
            s.chunks@
        } else {
            spec_fresh_chunks(num_threads, total_size as int / num_threads, total_size as int)
        },
        Option::None => spec_fresh_chunks(
            num_threads,
            total_size as int / num_threads,
            total_size as int,
        ),
    }
}

/// Is every chunk still Pending with nothing downloaded — a plan fresh
/// from offset zero?
pub open spec fn spec_all_pending(chunks: Seq<ChunkProgress>) -> bool {
    forall|i: int|
        0 <= i < chunks.len() ==> (#[trigger] chunks[i]).status is Pending && chunks[i].downloaded
            == 0
}

/// Decide executably whether a saved record may be reused against the
/// probed metadata.
pub fn should_reuse(saved: &DownloadProgress, url: &str, total_size: u64) -> (b: bool)
    ensures
        b == spec_should_reuse(*saved, url@, total_size),
{
    let url_string = url.to_owned();
    saved.url.eq(&url_string) && saved.total_size == total_size && is_wf_progress(saved)
}

/// Honour a saved progress record only if it matches the freshly probed
/// metadata; otherwise (or without a record) start a fresh plan from offset
/// zero, discarding the stale record's view of the transfer.
pub fn resume_or_fresh(
    saved: Option<DownloadProgress>,
    url: &str,
    total_size: u64,
    num_threads: usize,
) -> (r: DownloadProgress)
    requires
        1 <= num_threads,
        num_threads as u64 <= total_size,
    ensures
        spec_wf_progress(r),
        r.url@ == url@,
        r.total_size == total_size,
        r.chunks@ == spec_resume_chunks(saved, url@, total_size, num_threads as int),
        match saved {
            Option::Some(s) => spec_should_reuse(s, url@, total_size) ==> r.chunk_size
                == s.chunk_size,
            Option::None => true,
        },
{
    match saved {
        Option::Some(s) => {
            if should_reuse(&s, url, total_size) {
                DownloadProgress { url: url.to_owned(), ..s }
            } else {
                create_initial_progress(url, total_size, num_threads, total_size / (num_threads as u64))
            }
        },
        Option::None => create_initial_progress(
            url,
            total_size,
            num_threads,
            total_size / (num_threads as u64),
        ),
    }
}

/// Where a worker's ranged request for chunk `c` starts and ends, given how
/// many bytes of the chunk already sit on disk: `None` when nothing is left
/// to fetch, else the inclusive range of exactly the missing bytes.
pub open spec fn spec_chunk_request(c: ChunkProgress, on_disk: int) -> Option<(int, int)> {
    if on_disk >= spec_chunk_span(c) {
        Option::None
    } else {
        Option::Some((c.start + on_disk, c.end as int))
    }
}

/// Is the chunk's partial file exactly its planned span, which is the sole
/// condition under which a Completed mark is trusted?
pub fn is_chunk_complete(c: &ChunkProgress, on_disk_len: u64) -> (b: bool)
    requires
        c.start <= c.end,
        c.end < u64::MAX,
    ensures
        b == (on_disk_len == spec_chunk_span(*c)),
{
    on_disk_len == c.end - c.start + 1
}

/// Compute the byte range a worker must still request for chunk `c`, resuming
/// after any bytes its partial file already holds.
pub fn chunk_request_range(c: &ChunkProgress, on_disk_len: u64) -> (r: Option<(u64, u64)>)
    requires
        c.start <= c.end,
        c.end < u64::MAX,
    ensures
        r matches Option::Some(p) ==> spec_chunk_request(*c, on_disk_len as int) == Option::Some(
            (p.0 as int, p.1 as int),
        ),
        r is None <==> spec_chunk_request(*c, on_disk_len as int) is None,
{
    let span = c.end - c.start + 1;
    if on_disk_len >= span {
        Option::None
    } else {
        Option::Some((c.start + on_disk_len, c.end))
    }
}

/// Flip chunk `i`'s status, leaving the plan otherwise untouched.
pub fn set_chunk_status(p: &mut DownloadProgress, i: usize, st: ChunkStatus)
    requires
        i < old(p).chunks.len(),
    ensures
        final(p).url == old(p).url,
        final(p).total_size == old(p).total_size,
        final(p).chunk_size == old(p).chunk_size,
        final(p).chunks@ == old(p).chunks@.update(
            i as int,
            ChunkProgress { status: st, ..old(p).chunks@[i as int] },
        ),
        spec_wf_progress(*old(p)) ==> spec_wf_progress(*final(p)),
{
    let mut c = p.chunks[i];
    c.status = st;
    p.chunks[i] = c;
    proof {
        if spec_wf_progress(*old(p)) {
            assert forall|j: int| 0 <= j < final(p).chunks.len() implies spec_wf_chunk(
                #[trigger] final(p).chunks@[j],
                j,
                final(p).chunks.len() as int,
                final(p).chunk_size as int,
                final(p).total_size as int,
            ) by {
                assert(spec_wf_chunk(
                    old(p).chunks@[j],
                    j,
                    old(p).chunks.len() as int,
                    old(p).chunk_size as int,
                    old(p).total_size as int,
                ));
            }
        }
    }
}

/// The transfer is finished exactly when every chunk is recorded Completed.
pub fn all_chunks_completed(p: &DownloadProgress) -> (b: bool)
    ensures
        b == (forall|i: int| 0 <= i < p.chunks.len() ==> #[trigger] p.chunks@[i].status is Completed),
{
    let n = p.chunks.len();
    let mut i: usize = 0;
    while i < n
        invariant
            0 <= i <= n,
            n == p.chunks.len(),
            forall|j: int| 0 <= j < i ==> #[trigger] p.chunks@[j].status is Completed,
        decreases n - i,
    {
        if !matches!(p.chunks[i].status, ChunkStatus::Completed) {
            return false;
        }
        i = i + 1;
    }
    true
}

/// The concatenation of a sequence of byte buffers, in order.
pub open spec fn spec_concat(bufs: Seq<Seq<u8>>) -> Seq<u8>
    decreases bufs.len(),
{
    if bufs.len() == 0 {
        Seq::empty()
    } else {
        spec_concat(bufs.drop_last()) + bufs.last()
    }
}

/// The summed length of a sequence of byte buffers.
pub open spec fn spec_total_len(bufs: Seq<Seq<u8>>) -> int
    decreases bufs.len(),
{
    if bufs.len() == 0 {
        0
    } else {
        spec_total_len(bufs.drop_last()) + bufs.last().len()
    }
}

/// Concatenation's length is the sum of the buffers' lengths.
pub proof fn lemma_concat_len(bufs: Seq<Seq<u8>>)
    ensures
        spec_concat(bufs).len() == spec_total_len(bufs),
    decreases bufs.len(),
{
    if bufs.len() > 0 {
        lemma_concat_len(bufs.drop_last());
    }
}

/// Merge the chunks' buffers into the destination's contents, strictly in
/// index order.
pub fn merge_chunks(buffers: &Vec<Vec<u8>>) -> (r: Vec<u8>)
    ensures
        r@ == spec_concat(buffers@.map_values(|b: Vec<u8>| b@)),
{
    let ghost all = buffers@.map_values(|b: Vec<u8>| b@);
    let mut r: Vec<u8> = Vec::new();
    let n = buffers.len();
    let mut i: usize = 0;
    proof {
        assert(all.take(0) =~= Seq::<Seq<u8>>::empty());
    }
    while i < n
        invariant
            0 <= i <= n,
            n == buffers.len(),
            all == buffers@.map_values(|b: Vec<u8>| b@),
            r@ == spec_concat(all.take(i as int)),
        decreases n - i,
    {
        r.extend_from_slice(buffers[i].as_slice());
        proof {
            assert(all.take(i + 1).drop_last() =~= all.take(i as int));
            assert(all.take(i + 1).last() == all[i as int]);
        }
        i = i + 1;
    }
    proof {
        assert(all.take(n as int) =~= all);
    }
    r
}

/// The summed spans of the first `k` chunks of a plan.
pub open spec fn spec_spans_sum(chunks: Seq<ChunkProgress>, k: int) -> int
    decreases k,
{
    if k <= 0 {
        0
    } else {
        spec_spans_sum(chunks, k - 1) + spec_chunk_span(chunks[k - 1])
    }
}

/// In a well-formed plan the first `k` chunks together cover `k * chunk_size`
/// bytes, and all of them together cover the whole resource.
pub proof fn lemma_wf_spans_sum(p: DownloadProgress, k: int)
    requires
        spec_wf_progress(p),
        0 <= k <= p.chunks.len(),
    ensures
        spec_spans_sum(p.chunks@, k) == if k < p.chunks.len() {
            k * p.chunk_size
        } else {
            p.total_size as int
        },
    decreases k,
{
    let n = p.chunks.len() as int;
    let ck = p.chunk_size as int;
    if k > 0 {
        lemma_wf_spans_sum(p, k - 1);
        assert(spec_wf_chunk(p.chunks@[k - 1], k - 1, n, ck, p.total_size as int));
        vstd::arithmetic::mul::lemma_mul_is_distributive_sub_other_way(ck, k, 1);
    }
}

/// A fully transferred plan merges to a file of exactly the probed total
/// size: when every chunk's buffer holds exactly its planned span, the
/// concatenation's length is the plan's total size.
pub proof fn lemma_merged_file_size(p: DownloadProgress, bufs: Seq<Seq<u8>>)
    requires
        spec_wf_progress(p),
        bufs.len() == p.chunks.len(),
        forall|i: int| 0 <= i < bufs.len() ==> #[trigger] bufs[i].len() == spec_chunk_span(
            p.chunks@[i],
        ),
    ensures
        spec_concat(bufs).len() == p.total_size,
{
    lemma_concat_len(bufs);
    lemma_total_len_matches_spans(p, bufs, bufs.len() as int);
    assert(bufs.take(bufs.len() as int) =~= bufs);
    lemma_wf_spans_sum(p, p.chunks.len() as int);
}

proof fn lemma_total_len_matches_spans(p: DownloadProgress, bufs: Seq<Seq<u8>>, k: int)
    requires
        bufs.len() == p.chunks.len(),
        0 <= k <= bufs.len(),
        forall|i: int| 0 <= i < bufs.len() ==> #[trigger] bufs[i].len() == spec_chunk_span(
            p.chunks@[i],
        ),
    ensures
        spec_total_len(bufs.take(k)) == spec_spans_sum(p.chunks@, k),
    decreases k,
{
    if k > 0 {
        lemma_total_len_matches_spans(p, bufs, k - 1);
        assert(bufs.take(k).drop_last() =~= bufs.take(k - 1));
        assert(bufs.take(k).last() == bufs[k - 1]);
    } else {
        assert(bufs.take(0) =~= Seq::<Seq<u8>>::empty());
    }
}

/// A record matching the probe's URL and size is resumed as saved: no chunk
/// recorded Completed whose partial file holds exactly its span is requested
/// again — the worker's request for it is `None`, so no range covering its
/// bytes is ever issued.
pub proof fn lemma_resume_never_refetches_completed(
    saved: DownloadProgress,
    url: Seq<char>,
    total_size: u64,
    num_threads: int,
    i: int,
    on_disk_len: u64,
)
    requires
        spec_should_reuse(saved, url, total_size),
        0 <= i < saved.chunks.len(),
        saved.chunks@[i].status is Completed,
        on_disk_len == spec_chunk_span(saved.chunks@[i]),
    ensures
        spec_resume_chunks(Some(saved), url, total_size, num_threads) == saved.chunks@,
        spec_chunk_request(
            spec_resume_chunks(Some(saved), url, total_size, num_threads)[i],
            on_disk_len as int,
        ) is None,
{
}

/// A record probed against a different URL or size is discarded: the run
/// works on a fresh plan of pending chunks covering the full resource from
/// offset zero.
pub proof fn lemma_stale_record_discarded(
    saved: DownloadProgress,
    url: Seq<char>,
    total_size: u64,
    num_threads: int,
)
    requires
        saved.url@ != url || saved.total_size != total_size,
        1 <= num_threads,
        num_threads <= total_size,
    ensures
        ({
            let chunks = spec_resume_chunks(Some(saved), url, total_size, num_threads);
            let ck = total_size as int / num_threads;
            &&& chunks == spec_fresh_chunks(num_threads, ck, total_size as int)
            &&& chunks.len() == num_threads
            &&& chunks[0].start == 0
            &&& chunks[num_threads - 1].end == total_size - 1
            &&& forall|i: int| 0 <= i < chunks.len() ==> (#[trigger] chunks[i].status) is Pending
        }),
{
    let ck = total_size as int / num_threads;
    let chunks = spec_resume_chunks(Some(saved), url, total_size, num_threads);
    assert(chunks == spec_fresh_chunks(num_threads, ck, total_size as int));
    assert(chunks[0].start == 0 * ck) by {
        assert(chunks[0] == spec_fresh_chunk(0, num_threads, ck, total_size as int));
    }
    lemma_div_mul_le(total_size as int, num_threads);
    vstd::arithmetic::div_mod::lemma_div_is_ordered(num_threads, total_size as int, num_threads);
    vstd::arithmetic::div_mod::lemma_div_by_self(num_threads);
    vstd::arithmetic::mul::lemma_mul_inequality(num_threads - 1 + 1, num_threads, ck);
    vstd::arithmetic::mul::lemma_mul_nonnegative(num_threads - 1, ck);
    assert(chunks[num_threads - 1] == spec_fresh_chunk(
        num_threads - 1,
        num_threads,
        ck,
        total_size as int,
    ));
}

/// What `md5::compute` returns for the given bytes, rendered as lower-case
/// hex: a function of the data alone.
pub uninterp spec fn md5_hex_of(data: Seq<u8>) -> Seq<char>;

/// Relies on md5::compute: the digest is a pure function of the input bytes,
/// here rendered in lower-case hex as the progress records store it.
#[verifier::external_body]
fn md5_hex(data: &Vec<u8>) -> (r: String)
    ensures
        r@ == md5_hex_of(data@),
{
    format!("{:x}", md5::compute(data.as_slice()))
}

/// Check a merged file against the checksum the caller asked for, if any:
/// succeeds exactly when no checksum was requested or the file's digest
/// matches it; a mismatch reports both digests.
pub fn check_integrity(data: &Vec<u8>, expected_md5: Option<&String>) -> (r: Result<
    (),
    TronCtlError,
>)
    ensures
        r is Ok <==> match expected_md5 {
            Option::Some(expected) => md5_hex_of(data@) == expected@,
            Option::None => true,
        },
        r matches Err(e) ==> (expected_md5 matches Option::Some(expected) && e matches
            TronCtlError::Md5Mismatch { expected: ex, actual: ac } && ex@ == expected@ && ac@
            == md5_hex_of(data@)),
{
    match expected_md5 {
        Option::None => Ok(()),
        Option::Some(expected) => {
            let actual = md5_hex(data);
            if actual.eq(expected) {
                Ok(())
            } else {
                Err(
                    TronCtlError::Md5Mismatch {
                        expected: expected.clone(),
                        actual,
                    },
                )
            }
        },
    }
}

/// Where a single-stream run resumes: from the existing partial file's length
/// when one exists and is strictly shorter than the probed size, else from
/// the beginning.
pub fn single_stream_resume_pos(existing_len: Option<u64>, total_size: u64) -> (r: Option<u64>)
    ensures
        r == (match existing_len {
            Option::Some(l) => if 0 < l < total_size {
                Option::Some(l)
            } else {
                Option::None::<u64>
            },
            Option::None => Option::None::<u64>,
        }),
{
    match existing_len {
        Option::Some(l) => if 0 < l && l < total_size {
            Option::Some(l)
        } else {
            Option::None
        },
        Option::None => Option::None,
    }
}

/// The largest index `i >= from` with `s[i] == b`, or -1 when there is none.
pub open spec fn spec_rlast_from(s: Seq<u8>, b: u8, from: int) -> int
    decreases s.len(),
{
    if s.len() == 0 {
        -1
    } else if s.len() - 1 >= from && s.last() == b {
        s.len() - 1
    } else {
        spec_rlast_from(s.drop_last(), b, from)
    }
}

proof fn lemma_rlast_short(s: Seq<u8>, b: u8, from: int)
    requires
        s.len() <= from,
    ensures
        spec_rlast_from(s, b, from) == -1,
    decreases s.len(),
{
    if s.len() > 0 {
        lemma_rlast_short(s.drop_last(), b, from);
    }
}

/// Find the last occurrence of byte `b` at index `from` or later.
fn rfind_from(v: &Vec<u8>, b: u8, from: usize) -> (r: Option<usize>)
    ensures
        match r {
            Option::Some(i) => spec_rlast_from(v@, b, from as int) == i && i < v@.len(),
            Option::None => spec_rlast_from(v@, b, from as int) == -1,
        },
{
    let mut j: usize = v.len();
    proof {
        assert(v@.take(v@.len() as int) =~= v@);
    }
    while j > 0
        invariant
            0 <= j <= v.len(),
            spec_rlast_from(v@, b, from as int) == spec_rlast_from(v@.take(j as int), b, from as int),
        decreases j,
    {
        if j <= from {
            proof {
                lemma_rlast_short(v@.take(j as int), b, from as int);
            }
            return Option::None;
        }
        j = j - 1;
        proof {
            assert(v@.take(j + 1).drop_last() =~= v@.take(j as int));
        }
        if v[j] == b {
            return Option::Some(j);
        }
    }
    proof {
        assert(v@.take(0) =~= Seq::<u8>::empty());
    }
    Option::None
}

/// The sibling path under which a derived file lives: the destination with
/// its final extension replaced (or an extension appended when it has none,
/// a leading dot naming no extension).
pub open spec fn spec_with_extension(s: Seq<u8>, ext: Seq<u8>) -> Seq<u8> {
    let sl = spec_rlast_from(s, '/' as u8, 0);
    let d = spec_rlast_from(s, '.' as u8, sl + 2);
    if d >= 0 {
        s.take(d + 1) + ext
    } else {
        s + seq!['.' as u8] + ext
    }
}

/// Replace the path's extension with `ext` (or append `.ext`).
pub fn with_extension(path: &Vec<u8>, ext: &Vec<u8>) -> (r: Vec<u8>)
    requires
        path@.len() + 2 <= usize::MAX,
    ensures
        r@ == spec_with_extension(path@, ext@),
{
    let slash = rfind_from(path, '/' as u8, 0);
    let dot_from: usize = match slash {
        Option::Some(i) => i + 2,
        Option::None => 1,
    };
    let dot = rfind_from(path, '.' as u8, dot_from);
    match dot {
        Option::Some(d) => {
            let mut r: Vec<u8> = Vec::new();
            let mut k: usize = 0;
            while k < d + 1
                invariant
                    0 <= k <= d + 1,
                    d < path@.len(),
                    path@.len() + 2 <= usize::MAX,
                    r@ == path@.take(k as int),
                decreases d + 1 - k,
            {
                let byte = path[k];
                r.push(byte);
                proof {
                    assert(path@.take(k + 1) =~= path@.take(k as int).push(path@[k as int]));
                }
                k = k + 1;
            }
            r.extend_from_slice(ext.as_slice());
            r
        },
        Option::None => {
            let mut r = path.clone();
            r.push('.' as u8);
            r.extend_from_slice(ext.as_slice());
            proof {
                assert(r@ =~= path@ + seq!['.' as u8] + ext@);
            }
            r
        },
    }
}

/// The bytes of the progress record's extension.
pub open spec fn spec_progress_ext() -> Seq<u8> {
    seq![
        'p' as u8,
        'r' as u8,
        'o' as u8,
        'g' as u8,
        'r' as u8,
        'e' as u8,
        's' as u8,
        's' as u8,
    ]
}

/// Where the progress record for a destination lives: beside it, with the
/// `progress` extension.
pub fn progress_file_path(dest: &Vec<u8>) -> (r: Vec<u8>)
    requires
        dest@.len() + 2 <= usize::MAX,
    ensures
        r@ == spec_with_extension(dest@, spec_progress_ext()),
{
    let mut ext: Vec<u8> = Vec::new();
    ext.push('p' as u8);
    ext.push('r' as u8);
    ext.push('o' as u8);
    ext.push('g' as u8);
    ext.push('r' as u8);
    ext.push('e' as u8);
    ext.push('s' as u8);
    ext.push('s' as u8);
    proof {
        assert(ext@ =~= spec_progress_ext());
    }
    with_extension(dest, &ext)
}

/// The bytes of chunk `i`'s partial-file extension.
pub open spec fn spec_part_ext(i: int) -> Seq<u8> {
    seq!['p' as u8, 'a' as u8, 'r' as u8, 't' as u8] + crate::strutil::spec_decimal_bytes(i)
}

/// Where chunk `index`'s partial file lives: beside the destination, with an
/// index-specific extension.
pub fn chunk_file_path(dest: &Vec<u8>, index: usize) -> (r: Vec<u8>)
    requires
        dest@.len() + 2 <= usize::MAX,
    ensures
        r@ == spec_with_extension(dest@, spec_part_ext(index as int)),
{
    let mut ext: Vec<u8> = Vec::new();
    ext.push('p' as u8);
    ext.push('a' as u8);
    ext.push('r' as u8);
    ext.push('t' as u8);
    let mut digits = crate::strutil::u64_to_dec_bytes(index as u64);
    ext.append(&mut digits);
    proof {
        assert(ext@ =~= spec_part_ext(index as int));
    }
    with_extension(dest, &ext)
}

/// Did the probe's status code report success?
pub fn http_success(status: u16) -> (b: bool)
    ensures
        b == (200 <= status < 300),
{
    200 <= status && status < 300
}

/// Is a transfer response acceptable: plain success, or partial content for a
/// ranged request?
pub fn http_transfer_status_ok(status: u16) -> (b: bool)
    ensures
        b == (200 <= status < 300 || status == 206),
{
    (200 <= status && status < 300) || status == 206
}

/// Does a probe's `accept-ranges` header advertise byte ranges?
pub fn accept_ranges_is_bytes(header: Option<&String>) -> (b: bool)
    ensures
        b == match header {
            Option::Some(v) => v@ == "bytes"@,
            Option::None => false,
        },
{
    match header {
        Option::Some(v) => {
            let bytes_word = String::from_str("bytes");
            v.eq(&bytes_word)
        },
        Option::None => false,
    }
}

/// Judge a metadata probe: a failed status or a missing length is a fatal
/// DownloadFailed (never a silent fallback), otherwise the advertised size
/// and the chosen transfer mode come back.
pub fn probe_outcome(status: u16, content_length: Option<u64>, range_supported: bool) -> (r: Result<
    (u64, DownloadMode),
    TronCtlError,
>)
    ensures
        r is Ok <==> (200 <= status < 300 && content_length is Some),
        r matches Ok(p) ==> content_length == Option::Some(p.0) && (p.1 == DownloadMode::Chunked
            <==> (range_supported && p.0 > LARGE_FILE_THRESHOLD)),
        r matches Err(e) ==> e is DownloadFailed,
{
    if !http_success(status) {
        let mut msg = String::from_str("HEAD 请求失败，状态码: ");
        msg.append(crate::strutil::u64_to_string(status as u64).as_str());
        return Err(TronCtlError::DownloadFailed(msg));
    }
    match content_length {
        Option::None => Err(
            TronCtlError::DownloadFailed(String::from_str("无法获取文件大小")),
        ),
        Option::Some(size) => Ok((size, plan_download_mode(size, range_supported))),
    }
}

/// A well-formed plan's chunks tile the resource contiguously and without
/// overlap: the first chunk begins at byte zero, each next chunk begins
/// right after its predecessor ends, and the last chunk ends at the final
/// byte.
pub proof fn lemma_plan_tiles_resource(p: DownloadProgress, i: int)
    requires
        spec_wf_progress(p),
        0 <= i < p.chunks.len() - 1,
    ensures
        p.chunks@[0].start == 0,
        p.chunks@[i + 1].start == p.chunks@[i].end + 1,
        p.chunks@[p.chunks.len() - 1].end == p.total_size - 1,
{
    let n = p.chunks.len() as int;
    let ck = p.chunk_size as int;
    assert(spec_wf_chunk(p.chunks@[0], 0, n, ck, p.total_size as int));
    assert(spec_wf_chunk(p.chunks@[i], i, n, ck, p.total_size as int));
    assert(spec_wf_chunk(p.chunks@[i + 1], i + 1, n, ck, p.total_size as int));
    assert(spec_wf_chunk(p.chunks@[n - 1], n - 1, n, ck, p.total_size as int));
    vstd::arithmetic::mul::lemma_mul_is_distributive_add_other_way(ck, i, 1);
    vstd::arithmetic::mul::lemma_mul_basics(ck);
}

/// The bytes the first `k` chunks' Completed marks account for.
pub open spec fn spec_completed_bytes(chunks: Seq<ChunkProgress>, k: int) -> int
    decreases k,
{
    if k <= 0 {
        0
    } else {
        spec_completed_bytes(chunks, k - 1) + if chunks[k - 1].status is Completed {
            spec_chunk_span(chunks[k - 1])
        } else {
            0
        }
    }
}

proof fn lemma_completed_le_spans(chunks: Seq<ChunkProgress>, k: int)
    requires
        0 <= k <= chunks.len(),
        forall|i: int| 0 <= i < chunks.len() ==> spec_chunk_span(#[trigger] chunks[i]) >= 0,
    ensures
        spec_completed_bytes(chunks, k) <= spec_spans_sum(chunks, k),
        spec_completed_bytes(chunks, k) >= 0,
    decreases k,
{
    if k > 0 {
        lemma_completed_le_spans(chunks, k - 1);
    }
}

/// How many bytes the record already accounts for as Completed: never more
/// than the whole resource.
pub fn completed_bytes(p: &DownloadProgress) -> (r: u64)
    requires
        spec_wf_progress(*p),
    ensures
        r == spec_completed_bytes(p.chunks@, p.chunks@.len() as int),
        r <= p.total_size,
{
    let n = p.chunks.len();
    let ghost chunks = p.chunks@;
    proof {
        assert forall|i: int| 0 <= i < chunks.len() implies spec_chunk_span(
            #[trigger] chunks[i],
        ) >= 0 by {
            assert(spec_wf_chunk(
                chunks[i],
                i,
                chunks.len() as int,
                p.chunk_size as int,
                p.total_size as int,
            ));
        }
    }
    let mut acc: u64 = 0;
    let mut i: usize = 0;
    while i < n
        invariant
            0 <= i <= n,
            n == p.chunks@.len(),
            chunks == p.chunks@,
            spec_wf_progress(*p),
            forall|j: int| 0 <= j < chunks.len() ==> spec_chunk_span(#[trigger] chunks[j]) >= 0,
            acc == spec_completed_bytes(chunks, i as int),
            acc <= p.total_size,
        decreases n - i,
    {
        proof {
            lemma_completed_le_spans(chunks, i + 1);
            lemma_wf_spans_sum(*p, i + 1);
            if i + 1 < n {
                vstd::arithmetic::mul::lemma_mul_inequality(
                    i + 1,
                    n as int - 1,
                    p.chunk_size as int,
                );
                assert(spec_wf_chunk(
                    chunks[n - 1],
                    n as int - 1,
                    n as int,
                    p.chunk_size as int,
                    p.total_size as int,
                ));
                vstd::arithmetic::mul::lemma_mul_nonnegative(n as int - 1, p.chunk_size as int);
            }
        }
        let c = &p.chunks[i];
        if matches!(c.status, ChunkStatus::Completed) {
            acc = acc + (c.end - c.start + 1);
        }
        i = i + 1;
    }
    acc
}

/// Relies on num_cpus::get: the number of available processing units,
/// documented to be at least 1.
#[verifier::external_body]
fn available_workers() -> (r: usize)
    ensures
        r >= 1,
{
    num_cpus::get()
}

/// Plan a fresh chunked transfer: one chunk per available processing unit
/// (never more chunks than bytes), tiling the whole resource.
pub fn plan_for_resource(url: &str, total_size: u64) -> (r: DownloadProgress)
    requires
        total_size > 0,
    ensures
        spec_wf_progress(r),
        r.url@ == url@,
        r.total_size == total_size,
        spec_all_pending(r.chunks@),
{
    let workers = available_workers();
    let workers = if (workers as u64) <= total_size {
        workers
    } else {
        // total_size < a small machine count always fits usize
        total_size as usize
    };
    create_initial_progress(url, total_size, workers, total_size / (workers as u64))
}

/// Honour a saved record against the probed metadata, or plan afresh with
/// one chunk per available processing unit.
pub fn resume_or_plan(saved: Option<DownloadProgress>, url: &str, total_size: u64) -> (r:
    DownloadProgress)
    requires
        total_size > 0,
    ensures
        spec_wf_progress(r),
        r.url@ == url@,
        r.total_size == total_size,
        match saved {
            Option::Some(s) => if spec_should_reuse(s, url@, total_size) {
                r.chunks@ == s.chunks@ && r.chunk_size == s.chunk_size
            } else {
                spec_all_pending(r.chunks@)
            },
            Option::None => spec_all_pending(r.chunks@),
        },
{
    match saved {
        Option::Some(s) => {
            if should_reuse(&s, url, total_size) {
                DownloadProgress { url: url.to_owned(), ..s }
            } else {
                plan_for_resource(url, total_size)
            }
        },
        Option::None => plan_for_resource(url, total_size),
    }
}

/// The URL a released node archive is fetched from, for a given release
/// tag.
pub fn release_download_url(version: &str) -> (r: String)
    ensures
        r@ == "https://github.com/"@ + crate::constants::GITHUB_REPO@ + "/releases/download/"@
            + version@ + "/FullNode.jar"@,
{
    let mut s = String::from_str("https://github.com/");
    s.append(crate::constants::GITHUB_REPO);
    s.append("/releases/download/");
    s.append(version);
    s.append("/FullNode.jar");
    s
}

} // verus!
