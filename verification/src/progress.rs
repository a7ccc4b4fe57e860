//! Per-download progress accounting.
//!
//! A download carries a running byte count and the content length announced
//! by the server, if any. Progress is reported in hundredths of a percent
//! (`10000` means 100%), so that the arithmetic stays exact; the process
//! boundary may render it as a float. When the server did not announce a
//! content length, every progress report is the placeholder value `0`.

use vstd::prelude::*;

verus! {

/// Progress value meaning 100%, in hundredths of a percent.
pub const PROGRESS_COMPLETE: u64 = 10000;

/// Ephemeral state of one in-flight download.
#[derive(Clone, Copy)]
pub struct DownloadState {
    /// Cumulative bytes written so far.
    pub bytes_downloaded: u64,
    /// Content length announced by the server; `None` when omitted.
    pub total_bytes: Option<u64>,
}

/// Fractional progress after `downloaded` bytes of `total`, in hundredths of
/// a percent, clamped to `[0, 10000]`. Placeholder `0` when the total is
/// unknown or zero.
pub open spec fn spec_progress(downloaded: int, total: Option<u64>) -> int {
    match total {
        Some(t) => if t == 0 {
            0
        } else if downloaded >= t {
            PROGRESS_COMPLETE as int
        } else {
            (downloaded * PROGRESS_COMPLETE) / (t as int)
        },
        None => 0,
    }
}

/// Progress is always within `[0, 10000]` for a non-negative byte count.
pub proof fn lemma_progress_bounded(downloaded: int, total: Option<u64>)
    requires
        downloaded >= 0,
    ensures
        0 <= spec_progress(downloaded, total) <= PROGRESS_COMPLETE,
{
    match total {
        Some(t) => {
            if t > 0 && downloaded < t {
                assert(0 <= (downloaded * PROGRESS_COMPLETE) / (t as int) < PROGRESS_COMPLETE)
                    by (nonlinear_arith)
                    requires
                        0 <= downloaded < t,
                ;
            }
        },
        None => {},
    }
}

/// Once the byte count reaches a known, positive total, progress is exactly
/// 100%.
pub proof fn lemma_progress_complete(downloaded: int, t: u64)
    requires
        t > 0,
        downloaded >= t,
    ensures
        spec_progress(downloaded, Some(t)) == PROGRESS_COMPLETE,
{
}

/// With an unknown content length, progress is the placeholder `0` no matter
/// how many bytes were transferred.
pub proof fn lemma_progress_placeholder(downloaded: int)
    ensures
        spec_progress(downloaded, None) == 0,
{
}

impl DownloadState {
    /// A fresh download that has written nothing yet.
    pub fn new(total_bytes: Option<u64>) -> (s: Self)
        ensures
            s.bytes_downloaded == 0,
            s.total_bytes == total_bytes,
    {
        DownloadState { bytes_downloaded: 0, total_bytes }
    }

    /// The progress value to report for the current state.
    pub fn progress(&self) -> (p: u64)
        ensures
            p == spec_progress(self.bytes_downloaded as int, self.total_bytes),
    {
        match self.total_bytes {
            None => 0,
            Some(t) => {
                if t == 0 {
                    0
                } else if self.bytes_downloaded >= t {
                    PROGRESS_COMPLETE
                } else {
                    let d = self.bytes_downloaded;
                    proof {
                        assert((d as int * PROGRESS_COMPLETE) / (t as int)
                            < PROGRESS_COMPLETE as int) by (nonlinear_arith)
                            requires
                                0 <= d < t,
                        ;
                    }
                    ((d as u128 * PROGRESS_COMPLETE as u128) / (t as u128)) as u64
                }
            },
        }
    }

    /// Account for one chunk of `len` bytes appended to the destination file
    /// and return the progress value to report for it.
    pub fn record_chunk(&mut self, len: u64) -> (p: u64)
        requires
            old(self).bytes_downloaded + len <= u64::MAX,
        ensures
            final(self).bytes_downloaded == old(self).bytes_downloaded + len,
            final(self).total_bytes == old(self).total_bytes,
            p == spec_progress(final(self).bytes_downloaded as int, final(self).total_bytes),
    {
        self.bytes_downloaded = self.bytes_downloaded + len;
        self.progress()
    }
}

/// The sum of a sequence of chunk lengths.
pub open spec fn sum_of(chunks: Seq<u64>) -> int
    decreases chunks.len(),
{
    if chunks.len() == 0 {
        0
    } else {
        sum_of(chunks.drop_last()) + chunks.last()
    }
}

/// Chunk sums are non-negative.
pub proof fn lemma_sum_nonneg(chunks: Seq<u64>)
    ensures
        sum_of(chunks) >= 0,
    decreases chunks.len(),
{
    if chunks.len() > 0 {
        lemma_sum_nonneg(chunks.drop_last());
    }
}

/// The progress values emitted over a download: one per chunk, each computed
/// from the bytes accumulated so far.
pub open spec fn progress_events(chunks: Seq<u64>, total: Option<u64>) -> Seq<int> {
    Seq::new(chunks.len(), |i: int| spec_progress(sum_of(chunks.take(i + 1)), total))
}

/// No emitted progress value is negative or exceeds 100%.
pub proof fn lemma_progress_events_bounded(chunks: Seq<u64>, total: Option<u64>)
    ensures
        forall|i: int|
            0 <= i < progress_events(chunks, total).len() ==> 0 <= #[trigger] progress_events(
                chunks,
                total,
            )[i] <= PROGRESS_COMPLETE,
{
    assert forall|i: int| 0 <= i < progress_events(chunks, total).len() implies 0
        <= #[trigger] progress_events(chunks, total)[i] <= PROGRESS_COMPLETE by {
        lemma_sum_nonneg(chunks.take(i + 1));
        lemma_progress_bounded(sum_of(chunks.take(i + 1)), total);
    }
}

/// For a download with known content length `t` whose chunks sum to `t`, the
/// final emitted progress value is exactly 100%.
pub proof fn lemma_final_progress_complete(chunks: Seq<u64>, t: u64)
    requires
        t > 0,
        chunks.len() > 0,
        sum_of(chunks) == t,
    ensures
        progress_events(chunks, Some(t)).last() == PROGRESS_COMPLETE,
{
    assert(chunks.take(chunks.len() as int) =~= chunks);
    lemma_progress_complete(sum_of(chunks), t);
}

/// For a download with unknown content length, every emitted progress value
/// is the placeholder `0`, regardless of bytes transferred.
pub proof fn lemma_progress_events_placeholder(chunks: Seq<u64>)
    ensures
        forall|i: int|
            0 <= i < progress_events(chunks, None).len() ==> #[trigger] progress_events(
                chunks,
                None,
            )[i] == 0,
{
}

} // verus!
