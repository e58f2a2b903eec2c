//! Chunk planning: a file is divided into fixed-size byte ranges, the
//! last possibly short, and per-chunk progress is tracked for resume.

use vstd::prelude::*;
use vstd::arithmetic::div_mod::{lemma_fundamental_div_mod, lemma_mod_bound};
use vstd::arithmetic::mul::lemma_mul_inequality;

verus! {

/// Per-chunk progress tracking.
pub struct ChunkProgress {
    /// Chunk index
    pub index: usize,
    /// Bytes uploaded for this chunk
    pub loaded: u64,
    /// Content identifier returned by the storage provider, where the
    /// protocol hands one out
    pub etag: Option<String>,
}

impl ChunkProgress {
    /// A chunk counts as complete once bytes have been recorded for it.
    pub open spec fn spec_complete(&self) -> bool {
        self.loaded > 0
    }

    /// Create a new, untouched progress entry.
    pub fn new(index: usize) -> (r: Self)
        ensures
            r.index == index,
            r.loaded == 0,
            r.etag is None,
            !r.spec_complete(),
    {
        ChunkProgress { index, loaded: 0, etag: None }
    }

    /// Check whether this chunk's upload is complete.
    pub fn is_complete(&self) -> (r: bool)
        ensures
            r == self.spec_complete(),
    {
        self.loaded > 0
    }
}

/// Metadata about a single chunk (without the data).
pub struct ChunkInfo {
    /// Chunk index
    pub index: usize,
    /// Expected chunk size
    pub size: u64,
    /// Byte offset in the file
    pub offset: u64,
}

impl ChunkInfo {
    /// Create new chunk info.
    pub fn new(index: usize, offset: u64, size: u64) -> (r: Self)
        ensures
            r.index == index,
            r.offset == offset,
            r.size == size,
    {
        ChunkInfo { index, offset, size }
    }
}

/// How many chunks a file of `file_size` bytes has when divided into
/// `chunk_size`-byte pieces: the rounded-up quotient, and one chunk for
/// an empty file.
pub open spec fn spec_num_chunks(file_size: u64, chunk_size: u64) -> int
    recommends
        chunk_size > 0,
{
    if file_size == 0 {
        1
    } else if file_size as int % chunk_size as int == 0 {
        file_size as int / chunk_size as int
    } else {
        file_size as int / chunk_size as int + 1
    }
}

/// Byte offset where chunk `i` starts.
pub open spec fn spec_chunk_offset(chunk_size: u64, i: int) -> int {
    i * chunk_size
}

/// Size of chunk `i`: the fixed chunk size, or what remains of the file
/// for the last chunk.
pub open spec fn spec_chunk_size_of(file_size: u64, chunk_size: u64, i: int) -> int {
    if file_size - spec_chunk_offset(chunk_size, i) < chunk_size {
        file_size - spec_chunk_offset(chunk_size, i)
    } else {
        chunk_size as int
    }
}

/// Chunks lie inside the file: every chunk of the plan starts at or
/// before the end of the file, ends within it, and all but the last are
/// full; consecutive chunks are adjacent, so the plan partitions the
/// file's bytes.
pub proof fn lemma_chunk_plan(file_size: u64, chunk_size: u64, i: int)
    requires
        chunk_size > 0,
        0 <= i < spec_num_chunks(file_size, chunk_size),
    ensures
        0 <= spec_chunk_offset(chunk_size, i) <= file_size,
        0 <= spec_chunk_size_of(file_size, chunk_size, i) <= chunk_size,
        spec_chunk_offset(chunk_size, i) + spec_chunk_size_of(file_size, chunk_size, i)
            == if i == spec_num_chunks(file_size, chunk_size) - 1 {
                file_size as int
            } else {
                spec_chunk_offset(chunk_size, i + 1)
            },
        file_size > 0 ==> spec_chunk_offset(chunk_size, i) < file_size,
{
    let fs = file_size as int;
    let cs = chunk_size as int;
    let n = spec_num_chunks(file_size, chunk_size);
    if fs == 0 {
        assert(i == 0);
    } else {
        lemma_fundamental_div_mod(fs, cs);
        lemma_mod_bound(fs, cs);
        // (n - 1) * cs < fs <= n * cs
        assert((n - 1) * cs < fs) by (nonlinear_arith)
            requires
                cs > 0,
                fs > 0,
                fs == cs * (fs / cs) + fs % cs,
                0 <= fs % cs < cs,
                n == if fs % cs == 0 { fs / cs } else { fs / cs + 1 },
        ;
        assert(fs <= n * cs) by (nonlinear_arith)
            requires
                cs > 0,
                fs > 0,
                fs == cs * (fs / cs) + fs % cs,
                0 <= fs % cs < cs,
                n == if fs % cs == 0 { fs / cs } else { fs / cs + 1 },
        ;
        assert(i * cs <= (n - 1) * cs) by {
            lemma_mul_inequality(i, n - 1, cs);
        }
        assert(0 <= i * cs) by (nonlinear_arith)
            requires 0 <= i, cs > 0,
        ;
        assert((i + 1) * cs == i * cs + cs) by (nonlinear_arith);
        if i < n - 1 {
            assert((i + 1) * cs <= (n - 1) * cs) by {
                lemma_mul_inequality(i + 1, n - 1, cs);
            }
        }
    }
}

} // verus!
