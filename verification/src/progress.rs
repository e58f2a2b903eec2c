//! Progress reporting for uploads.

use vstd::prelude::*;

verus! {

/// Per-chunk progress information handed to progress sinks.
pub struct ChunkProgressInfo {
    /// Chunk index
    pub index: usize,
    /// Chunk size
    pub size: u64,
    /// Bytes uploaded for this chunk
    pub loaded: u64,
    /// Whether this chunk is complete
    pub complete: bool,
}

/// One progress update: sizes and chunk counters; fractions are left to
/// the presentation layer.
pub struct ProgressUpdate {
    /// Total file size
    pub total_size: u64,
    /// Total bytes uploaded
    pub uploaded: u64,
    /// Current chunk index being uploaded
    pub current_chunk: Option<usize>,
    /// Total number of chunks
    pub total_chunks: usize,
    /// Per-chunk progress, when requested
    pub chunk_progress: Option<Vec<ChunkProgressInfo>>,
}

impl ProgressUpdate {
    /// Create a new progress update.
    pub fn new(
        total_size: u64,
        uploaded: u64,
        current_chunk: Option<usize>,
        total_chunks: usize,
    ) -> (r: Self)
        ensures
            r.total_size == total_size,
            r.uploaded == uploaded,
            r.current_chunk == current_chunk,
            r.total_chunks == total_chunks,
            r.chunk_progress is None,
    {
        ProgressUpdate { total_size, uploaded, current_chunk, total_chunks, chunk_progress: None }
    }

    /// Add per-chunk progress information.
    pub fn with_chunk_progress(self, chunks: Vec<ChunkProgressInfo>) -> (r: Self)
        ensures
            r.total_size == self.total_size,
            r.uploaded == self.uploaded,
            r.current_chunk == self.current_chunk,
            r.total_chunks == self.total_chunks,
            r.chunk_progress == Some(chunks),
    {
        ProgressUpdate { chunk_progress: Some(chunks), ..self }
    }
}

/// A sink for progress updates, implemented by the library's callers.
pub trait ProgressCallback {
    /// Called when upload progress changes.
    fn on_progress(&self, update: ProgressUpdate);
}

/// A progress sink that discards every update.
pub struct NoOpProgress;

impl ProgressCallback for NoOpProgress {
    fn on_progress(&self, _update: ProgressUpdate) {
    }
}

/// Wraps a closure as a progress sink; callers outside the library give
/// it its `ProgressCallback` behaviour.
pub struct FnProgress<F>(pub F);

} // verus!
