//! The upload pipeline's decision core: which chunk to upload next,
//! when to retry with what delay, and when to give up.
//!
//! The driver is a state machine over the session: the caller performs
//! one chunk attempt per step (opening a fresh byte-range reader every
//! time) and reports the outcome; the driver advances, schedules a
//! retry, or aborts.  Chunks are processed strictly in index order, one
//! at a time.

use vstd::prelude::*;
use vstd::arithmetic::power2::pow2;
use vstd::bits::lemma_u64_shl_is_mul;
use crate::chunk::{ChunkInfo, spec_chunk_offset, spec_chunk_size_of};
use crate::errors::UploadError;
use crate::progress::{ChunkProgressInfo, ProgressUpdate};
use crate::session::{UploadSession, pending_indices, spec_loaded_sum};

verus! {

/// Retry policy for chunk uploads.
pub struct UploaderConfig {
    /// Attempts beyond the first allowed per chunk
    pub max_retries: u32,
    /// Base backoff delay in milliseconds
    pub retry_base_delay_ms: u64,
    /// Upper bound on the backoff delay in milliseconds
    pub retry_max_delay_ms: u64,
}

/// The delay before retry attempt `attempt`: the base delay doubled per
/// attempt — the exponent capped so the factor stays bounded — and
/// clipped to the configured maximum.
pub open spec fn spec_retry_delay(cfg: UploaderConfig, attempt: int) -> int {
    let e: int = if attempt > 10 { 10 } else { attempt };
    let raw = cfg.retry_base_delay_ms * pow2(e as nat);
    if raw > cfg.retry_max_delay_ms { cfg.retry_max_delay_ms as int } else { raw as int }
}

impl UploaderConfig {
    pub fn new(max_retries: u32, retry_base_delay_ms: u64, retry_max_delay_ms: u64)
        -> (r: Self)
        ensures
            r.max_retries == max_retries,
            r.retry_base_delay_ms == retry_base_delay_ms,
            r.retry_max_delay_ms == retry_max_delay_ms,
    {
        UploaderConfig { max_retries, retry_base_delay_ms, retry_max_delay_ms }
    }

    /// Exponential backoff delay for a retry attempt, capped at the
    /// configured maximum.
    pub fn calculate_retry_delay(&self, attempt: u32) -> (r: u64)
        ensures
            r == spec_retry_delay(*self, attempt as int),
    {
        let e: u32 = if attempt > 10 { 10 } else { attempt };
        proof {
            vstd::arithmetic::power2::lemma2_to64();
        }
        let factor: u64 = 1u64 << (e as u64);
        proof {
            lemma_u64_shl_is_mul(1u64, e as u64);
        }
        if self.retry_base_delay_ms > self.retry_max_delay_ms / factor {
            proof {
                let b = self.retry_base_delay_ms as int;
                let c = self.retry_max_delay_ms as int;
                let f = factor as int;
                vstd::arithmetic::div_mod::lemma_fundamental_div_mod(c, f);
                vstd::arithmetic::div_mod::lemma_mod_bound(c, f);
                assert(b * f > c) by (nonlinear_arith)
                    requires b > c / f, f > 0, c >= 0, c == f * (c / f) + c % f, 0 <= c % f < f,
                ;
            }
            self.retry_max_delay_ms
        } else {
            proof {
                let b = self.retry_base_delay_ms as int;
                let c = self.retry_max_delay_ms as int;
                let f = factor as int;
                vstd::arithmetic::div_mod::lemma_fundamental_div_mod(c, f);
                vstd::arithmetic::div_mod::lemma_mod_bound(c, f);
                assert(b * f <= c) by (nonlinear_arith)
                    requires b <= c / f, f > 0, c == f * (c / f) + c % f, 0 <= c % f < f,
                ;
            }
            self.retry_base_delay_ms * factor
        }
    }
}

/// What the caller should do next.
pub enum DriverAction {
    /// Attempt this chunk, after waiting the given delay (zero on a
    /// first attempt)
    Upload { chunk: ChunkInfo, delay_ms: u64 },
    /// Every pending chunk is done: finalize the session with the
    /// provider
    Finalize,
}

/// How one reported outcome changed the driver.
pub enum StepResult {
    /// The chunk is recorded complete; persist the progress list, then
    /// report progress and move on
    Advanced,
    /// The attempt failed but will be retried
    WillRetry,
    /// The upload is over with a terminal error
    Aborted { error: UploadError },
}

/// The progress report the pipeline emits after persisting a chunk:
/// the totals, the chunk the pipeline stands at, and one entry per
/// planned chunk mirroring the session's progress list.
pub fn report_progress(session: &UploadSession, current_chunk: Option<usize>)
    -> (r: ProgressUpdate)
    requires
        session.wf(),
    ensures
        r.total_size == session.file_size,
        r.total_chunks == session.chunk_progress@.len(),
        r.current_chunk == current_chunk,
        spec_loaded_sum(session.chunk_progress@) <= u64::MAX
            ==> r.uploaded == spec_loaded_sum(session.chunk_progress@),
        r.chunk_progress matches Some(infos) && infos@.len() == session.chunk_progress@.len()
            && forall|i: int| 0 <= i < infos@.len()
                ==> (#[trigger] infos@[i]).index == session.chunk_progress@[i].index
                    && infos@[i].loaded == session.chunk_progress@[i].loaded
                    && infos@[i].complete == session.chunk_progress@[i].spec_complete()
                    && infos@[i].size == spec_chunk_size_of(
                        session.file_size, session.chunk_size, i),
{
    let n = session.num_chunks();
    let mut infos: Vec<ChunkProgressInfo> = Vec::new();
    let mut i: usize = 0;
    while i < n
        invariant
            session.wf(),
            n == session.chunk_progress@.len(),
            i <= n,
            infos@.len() == i,
            forall|j: int| 0 <= j < i
                ==> (#[trigger] infos@[j]).index == session.chunk_progress@[j].index
                    && infos@[j].loaded == session.chunk_progress@[j].loaded
                    && infos@[j].complete == session.chunk_progress@[j].spec_complete()
                    && infos@[j].size == spec_chunk_size_of(
                        session.file_size, session.chunk_size, j),
        decreases n - i,
    {
        let entry = &session.chunk_progress[i];
        let size = session.chunk_size_for(i);
        infos.push(ChunkProgressInfo {
            index: entry.index,
            size,
            loaded: entry.loaded,
            complete: entry.is_complete(),
        });
        i = i + 1;
    }
    let uploaded = session.total_uploaded();
    ProgressUpdate::new(session.file_size, uploaded, current_chunk, n)
        .with_chunk_progress(infos)
}

/// Resumability: a driver started over a session whose chunks below `k`
/// are complete and whose chunks from `k` on are not will attempt
/// exactly the chunks `k`, `k+1`, …, in that order, and none below `k`.
pub proof fn lemma_driver_resumes(driver: UploadDriver, k: int)
    requires
        driver.spec_pending() == pending_indices(driver.session.chunk_progress@),
        driver.session.chunk_progress@.len() <= usize::MAX,
        0 <= k <= driver.session.chunk_progress@.len(),
        forall|i: int| 0 <= i < k
            ==> (#[trigger] driver.session.chunk_progress@[i]).spec_complete(),
        forall|i: int| k <= i < driver.session.chunk_progress@.len()
            ==> !(#[trigger] driver.session.chunk_progress@[i]).spec_complete(),
    ensures
        driver.spec_pending().len() == driver.session.chunk_progress@.len() - k,
        forall|j: int| 0 <= j < driver.spec_pending().len()
            ==> #[trigger] driver.spec_pending()[j] == k + j,
{
    crate::session::lemma_resume_pending(driver.session.chunk_progress@, k);
}

/// Drives one session's pending chunks in order with per-chunk retry.
pub struct UploadDriver {
    /// The session being driven; progress is recorded here
    pub session: UploadSession,
    /// Retry policy
    pub config: UploaderConfig,
    /// Chunk indices still to process, in increasing order
    pub pending: Vec<usize>,
    /// Position of the current chunk in the pending list
    pub pos: usize,
    /// Failed attempts recorded for the current chunk
    pub attempt: u32,
}

impl UploadDriver {
    /// The pending chunk indices the driver was built with.
    pub closed spec fn spec_pending(&self) -> Seq<usize> {
        self.pending@
    }

    /// How far into the pending list the driver has advanced.
    pub closed spec fn spec_pos(&self) -> int {
        self.pos as int
    }

    /// Failed attempts recorded for the current chunk.
    pub closed spec fn spec_attempt(&self) -> int {
        self.attempt as int
    }

    pub open spec fn wf(&self) -> bool {
        &&& self.session.wf()
        &&& self.spec_pos() <= self.spec_pending().len()
        &&& forall|i: int| 0 <= i < self.spec_pending().len()
            ==> (#[trigger] self.spec_pending()[i])
                < self.session.chunk_progress@.len()
    }

    /// Whether a chunk attempt is currently owed.
    pub open spec fn spec_in_progress(&self) -> bool {
        self.spec_pos() < self.spec_pending().len()
    }

    /// The chunk index the driver is currently on.
    pub open spec fn spec_current(&self) -> int {
        self.spec_pending()[self.spec_pos()] as int
    }

    /// Start a driver over everything still pending in the session.
    /// Chunks already recorded complete are not processed again.
    pub fn new(session: UploadSession, config: UploaderConfig) -> (r: Self)
        requires
            session.wf(),
        ensures
            r.wf(),
            r.session == session,
            r.config == config,
            r.spec_pending() == pending_indices(session.chunk_progress@),
            r.spec_pos() == 0,
            r.spec_attempt() == 0,
    {
        let n = session.chunk_progress.len();
        proof {
            assert(session.chunk_progress@.len() == n);
            crate::session::lemma_pending_indices(session.chunk_progress@);
        }
        let pending = session.pending_chunks();
        UploadDriver { session, config, pending, pos: 0, attempt: 0 }
    }

    /// What to do now: upload the current chunk — after a backoff delay
    /// when it has already failed — or finalize when nothing is pending.
    pub fn next_action(&self) -> (r: DriverAction)
        requires
            self.wf(),
        ensures
            self.spec_in_progress() ==> (r matches DriverAction::Upload { chunk, delay_ms }
                && chunk.index == self.spec_current()
                && chunk.offset == spec_chunk_offset(self.session.chunk_size, self.spec_current())
                && chunk.size == spec_chunk_size_of(
                    self.session.file_size, self.session.chunk_size, self.spec_current())
                && delay_ms == if self.spec_attempt() == 0 { 0int } else {
                    spec_retry_delay(self.config, self.spec_attempt())
                }),
            !self.spec_in_progress() ==> r is Finalize,
    {
        if self.pos < self.pending.len() {
            let index = self.pending[self.pos];
            let chunk = self.session.chunk_info(index);
            let delay_ms: u64 = if self.attempt == 0 {
                0
            } else {
                self.config.calculate_retry_delay(self.attempt)
            };
            DriverAction::Upload { chunk, delay_ms }
        } else {
            DriverAction::Finalize
        }
    }

    /// Record the outcome of one chunk attempt.
    ///
    /// A success — or the range-addressed provider's "fragment already
    /// received" signal — completes the chunk and moves to the next one.
    /// A retryable error is absorbed until the retry budget is spent,
    /// then reported as the terminal error.  Cancellation and every
    /// other error abort at once.
    pub fn on_outcome(&mut self, outcome: Result<Option<String>, UploadError>)
        -> (r: StepResult)
        requires
            old(self).wf(),
            old(self).spec_in_progress(),
        ensures
            final(self).wf(),
            final(self).spec_pending() == old(self).spec_pending(),
            final(self).config == old(self).config,
            match outcome {
                Ok(etag) => {
                    &&& r is Advanced
                    &&& final(self).spec_pos() == old(self).spec_pos() + 1
                    &&& final(self).spec_attempt() == 0
                    &&& final(self).session.chunk_progress@
                        == old(self).session.chunk_progress@.update(
                            old(self).spec_current(),
                            crate::chunk::ChunkProgress {
                                index: old(self).spec_current() as usize,
                                loaded: spec_chunk_size_of(
                                    old(self).session.file_size,
                                    old(self).session.chunk_size,
                                    old(self).spec_current()) as u64,
                                etag: etag,
                            },
                        )
                },
                Err(e) => {
                    if e is OneDriveChunkOverlap {
                        // Recoverable: the chunk is already on the server.
                        &&& r is Advanced
                        &&& final(self).spec_pos() == old(self).spec_pos() + 1
                        &&& final(self).spec_attempt() == 0
                        &&& final(self).session.chunk_progress@
                            == old(self).session.chunk_progress@.update(
                                old(self).spec_current(),
                                crate::chunk::ChunkProgress {
                                    index: old(self).spec_current() as usize,
                                    loaded: spec_chunk_size_of(
                                        old(self).session.file_size,
                                        old(self).session.chunk_size,
                                        old(self).spec_current()) as u64,
                                    etag: Option::None,
                                },
                            )
                    } else if e is Cancelled {
                        &&& r matches StepResult::Aborted { error } && error is Cancelled
                        &&& final(self).session == old(self).session
                        &&& final(self).spec_pos() == old(self).spec_pos()
                    } else if (e is HttpError || e is ChunkUploadFailed || e is ProviderError)
                        && old(self).spec_attempt() < old(self).config.max_retries {
                        &&& r is WillRetry
                        &&& final(self).session == old(self).session
                        &&& final(self).spec_pos() == old(self).spec_pos()
                        &&& final(self).spec_attempt() == old(self).spec_attempt() + 1
                    } else {
                        &&& r matches StepResult::Aborted { error } && error == e
                        &&& final(self).session == old(self).session
                        &&& final(self).spec_pos() == old(self).spec_pos()
                    }
                },
            },
    {
        let ghost progress0 = self.session.chunk_progress@;
        let plen = self.pending.len();
        assert(self.pos < plen);
        match outcome {
            Ok(etag) => {
                let index = self.pending[self.pos];
                self.session.complete_chunk(index, etag);
                self.pos = self.pos + 1;
                self.attempt = 0;
                StepResult::Advanced
            },
            Err(e) => {
                match e {
                    UploadError::OneDriveChunkOverlap(_) => {
                        let index = self.pending[self.pos];
                        self.session.complete_chunk(index, None);
                        self.pos = self.pos + 1;
                        self.attempt = 0;
                        StepResult::Advanced
                    },
                    UploadError::Cancelled => {
                        StepResult::Aborted { error: UploadError::Cancelled }
                    },
                    _ => {
                        if e.is_retryable() && self.attempt < self.config.max_retries {
                            self.attempt = self.attempt + 1;
                            StepResult::WillRetry
                        } else {
                            StepResult::Aborted { error: e }
                        }
                    },
                }
            },
        }
    }
}

} // verus!
