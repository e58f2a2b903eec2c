//! Upload session state: one per in-flight file upload, persisted after
//! every chunk so an interrupted upload can resume where it stopped.

use vstd::prelude::*;
use crate::chunk::{
    ChunkProgress, ChunkInfo, spec_num_chunks, spec_chunk_offset, spec_chunk_size_of,
    lemma_chunk_plan,
};
use crate::encrypt::EncryptMetadata;

verus! {

/// The storage backend wire protocols: a closed set, dispatched by tag.
#[derive(Clone, Copy, PartialEq, Eq, Structural, Debug)]
pub enum PolicyType {
    /// Direct upload through the origin server
    Local,
    /// Relay upload to a slave node
    Remote,
    /// Range-addressed ranged PUT
    OneDrive,
    /// Part-addressed upload with per-part identifiers
    Qiniu,
    /// Single-shot multipart form upload
    Upyun,
}

/// The indices of the chunks not yet complete, in increasing order.
pub open spec fn pending_indices(s: Seq<ChunkProgress>) -> Seq<usize>
    decreases s.len(),
{
    if s.len() == 0 {
        Seq::empty()
    } else if s.last().spec_complete() {
        pending_indices(s.drop_last())
    } else {
        pending_indices(s.drop_last()).push((s.len() - 1) as usize)
    }
}

/// Every pending index points at an incomplete chunk, in strictly
/// increasing order, and every incomplete chunk is listed.
pub proof fn lemma_pending_indices(s: Seq<ChunkProgress>)
    requires
        s.len() <= usize::MAX,
    ensures
        forall|a: int, b: int| 0 <= a < b < pending_indices(s).len()
            ==> pending_indices(s)[a] < pending_indices(s)[b],
        forall|a: int| 0 <= a < pending_indices(s).len()
            ==> pending_indices(s)[a] < s.len()
                && !s[pending_indices(s)[a] as int].spec_complete(),
        forall|i: int| 0 <= i < s.len() && !s[i].spec_complete()
            ==> pending_indices(s).contains(i as usize),
    decreases s.len(),
{
    if s.len() > 0 {
        let d = s.drop_last();
        lemma_pending_indices(d);
        let p = pending_indices(d);
        let q = pending_indices(s);
        assert(forall|i: int| 0 <= i < d.len() ==> s[i] == d[i]);
        if !s.last().spec_complete() {
            assert(q == p.push((s.len() - 1) as usize));
            assert forall|a: int| 0 <= a < q.len()
                implies q[a] < s.len() && !s[q[a] as int].spec_complete() by {
                if a < p.len() {
                    assert(p[a] < d.len() && !d[p[a] as int].spec_complete());
                } else {
                    assert(q[a] == (s.len() - 1) as usize);
                }
            }
            assert forall|a: int, b: int| 0 <= a < b < q.len() implies q[a] < q[b] by {
                if b < p.len() {
                } else {
                    assert(q[b] == (s.len() - 1) as usize);
                    assert(q[a] < d.len());
                }
            }
            assert forall|i: int| 0 <= i < s.len() && !s[i].spec_complete()
                implies q.contains(i as usize) by {
                if i < d.len() {
                    assert(p.contains(i as usize));
                    let j = choose|j: int| 0 <= j < p.len() && p[j] == i as usize;
                    assert(q[j] == i as usize);
                } else {
                    assert(q.last() == i as usize);
                }
            }
        } else {
            assert(q == p);
            assert forall|a: int| 0 <= a < q.len()
                implies q[a] < s.len() && !s[q[a] as int].spec_complete() by {
                assert(p[a] < d.len() && !d[p[a] as int].spec_complete());
            }
            assert forall|i: int| 0 <= i < s.len() && !s[i].spec_complete()
                implies q.contains(i as usize) by {
                assert(i < d.len());
                assert(p.contains(i as usize));
            }
        }
    }
}

/// Resumability: when the chunks below `k` are complete and the rest are
/// not, exactly the chunks from `k` on are pending, in index order.
pub proof fn lemma_resume_pending(s: Seq<ChunkProgress>, k: int)
    requires
        s.len() <= usize::MAX,
        0 <= k <= s.len(),
        forall|i: int| 0 <= i < k ==> s[i].spec_complete(),
        forall|i: int| k <= i < s.len() ==> !s[i].spec_complete(),
    ensures
        pending_indices(s) == Seq::new((s.len() - k) as nat, |j: int| (k + j) as usize),
    decreases s.len(),
{
    let expect = Seq::new((s.len() - k) as nat, |j: int| (k + j) as usize);
    if s.len() == 0 {
        assert(pending_indices(s) =~= expect);
    } else {
        let d = s.drop_last();
        if k == s.len() {
            lemma_resume_pending(d, d.len() as int);
            assert(pending_indices(s) =~= expect);
        } else {
            lemma_resume_pending(d, k);
            assert(!s.last().spec_complete());
            assert(pending_indices(s) =~= expect);
        }
    }
}

/// One in-flight file upload: identity, layout, provider parameters,
/// per-chunk progress and timestamps.
pub struct UploadSession {
    /// Session id under which progress is persisted
    pub id: String,
    /// The durable task this upload belongs to
    pub task_id: String,
    /// The drive whose tree the file lives in
    pub drive_id: String,
    /// Local path of the file being uploaded
    pub local_path: String,
    /// Remote URI the file is uploaded to
    pub remote_uri: String,
    /// Total file size in bytes
    pub file_size: u64,
    /// Fixed chunk size the provider asked for
    pub chunk_size: u64,
    /// Which wire protocol the upload uses
    pub policy_type: PolicyType,
    /// Provider upload endpoint, where the protocol has one
    pub upload_url: Option<String>,
    /// Provider upload policy token, where the protocol has one
    pub upload_policy: Option<String>,
    /// Provider credential string
    pub credential: String,
    /// Provider-side session identifier
    pub session_id: String,
    /// Secret for the completion callback to the origin server
    pub callback_secret: String,
    /// MIME type to report at finalize time, if known
    pub mime_type: Option<String>,
    /// One progress entry per planned chunk
    pub chunk_progress: Vec<ChunkProgress>,
    /// Encryption parameters, where the upload is encrypted
    pub encrypt_metadata: Option<EncryptMetadata>,
    /// When the provider session expires (seconds since the epoch)
    pub expires_at: i64,
    /// When the session was created
    pub created_at: i64,
    /// When progress was last persisted
    pub updated_at: i64,
}

impl UploadSession {
    /// Well-formedness: a positive chunk size and one progress entry per
    /// planned chunk, each carrying its own index.
    pub open spec fn wf(&self) -> bool {
        &&& self.chunk_size > 0
        &&& self.chunk_progress@.len() == spec_num_chunks(self.file_size, self.chunk_size)
        &&& forall|i: int| 0 <= i < self.chunk_progress@.len()
            ==> (#[trigger] self.chunk_progress@[i]).index == i
    }

    /// Number of planned chunks.
    pub fn num_chunks(&self) -> (r: usize)
        requires
            self.wf(),
        ensures
            r == spec_num_chunks(self.file_size, self.chunk_size),
    {
        self.chunk_progress.len()
    }

    /// Byte offset where chunk `index` starts.
    pub fn chunk_offset(&self, index: usize) -> (r: u64)
        requires
            self.wf(),
            index < spec_num_chunks(self.file_size, self.chunk_size),
        ensures
            r == spec_chunk_offset(self.chunk_size, index as int),
            r <= self.file_size,
    {
        proof {
            lemma_chunk_plan(self.file_size, self.chunk_size, index as int);
        }
        index as u64 * self.chunk_size
    }

    /// Size of chunk `index`: fixed, except that the last chunk is
    /// whatever remains of the file.
    pub fn chunk_size_for(&self, index: usize) -> (r: u64)
        requires
            self.wf(),
            index < spec_num_chunks(self.file_size, self.chunk_size),
        ensures
            r == spec_chunk_size_of(self.file_size, self.chunk_size, index as int),
    {
        proof {
            lemma_chunk_plan(self.file_size, self.chunk_size, index as int);
        }
        let offset = self.chunk_offset(index);
        let remaining = self.file_size - offset;
        if remaining < self.chunk_size {
            remaining
        } else {
            self.chunk_size
        }
    }

    /// The byte range `[start, end)` of chunk `index`.
    pub fn chunk_range(&self, index: usize) -> (r: (u64, u64))
        requires
            self.wf(),
            index < spec_num_chunks(self.file_size, self.chunk_size),
        ensures
            r.0 == spec_chunk_offset(self.chunk_size, index as int),
            r.1 == spec_chunk_offset(self.chunk_size, index as int)
                + spec_chunk_size_of(self.file_size, self.chunk_size, index as int),
    {
        proof {
            lemma_chunk_plan(self.file_size, self.chunk_size, index as int);
        }
        let offset = self.chunk_offset(index);
        let size = self.chunk_size_for(index);
        (offset, offset + size)
    }

    /// Full description of chunk `index`.
    pub fn chunk_info(&self, index: usize) -> (r: ChunkInfo)
        requires
            self.wf(),
            index < spec_num_chunks(self.file_size, self.chunk_size),
        ensures
            r.index == index,
            r.offset == spec_chunk_offset(self.chunk_size, index as int),
            r.size == spec_chunk_size_of(self.file_size, self.chunk_size, index as int),
    {
        let offset = self.chunk_offset(index);
        let size = self.chunk_size_for(index);
        ChunkInfo::new(index, offset, size)
    }

    /// The indices of the chunks still to upload, in increasing order.
    pub fn pending_chunks(&self) -> (r: Vec<usize>)
        requires
            self.wf(),
        ensures
            r@ == pending_indices(self.chunk_progress@),
    {
        let mut r: Vec<usize> = Vec::new();
        let mut i: usize = 0;
        while i < self.chunk_progress.len()
            invariant
                i <= self.chunk_progress@.len(),
                r@ == pending_indices(self.chunk_progress@.take(i as int)),
            decreases self.chunk_progress@.len() - i,
        {
            let ghost pre = self.chunk_progress@.take(i as int);
            if !self.chunk_progress[i].is_complete() {
                r.push(i);
            }
            proof {
                let cur = self.chunk_progress@.take(i + 1);
                assert(cur.drop_last() =~= pre);
                assert(cur.last() == self.chunk_progress@[i as int]);
            }
            i = i + 1;
        }
        proof {
            assert(self.chunk_progress@.take(self.chunk_progress@.len() as int)
                =~= self.chunk_progress@);
        }
        r
    }

    /// Record a finished chunk: its progress entry shows the full chunk
    /// size as uploaded and keeps the provider's content identifier.
    /// Progress entries are monotonic: no other entry changes.
    pub fn complete_chunk(&mut self, index: usize, etag: Option<String>)
        requires
            old(self).wf(),
            index < spec_num_chunks(old(self).file_size, old(self).chunk_size),
        ensures
            final(self).wf(),
            final(self).chunk_progress@ == old(self).chunk_progress@.update(
                index as int,
                ChunkProgress {
                    index: index,
                    loaded: spec_chunk_size_of(
                        old(self).file_size, old(self).chunk_size, index as int) as u64,
                    etag: etag,
                },
            ),
            spec_chunk_size_of(old(self).file_size, old(self).chunk_size, index as int) > 0
                ==> final(self).chunk_progress@[index as int].spec_complete(),
            forall|i: int| 0 <= i < old(self).chunk_progress@.len() && i != index
                ==> final(self).chunk_progress@[i] == old(self).chunk_progress@[i],
            final(self).file_size == old(self).file_size,
            final(self).chunk_size == old(self).chunk_size,
    {
        proof {
            lemma_chunk_plan(self.file_size, self.chunk_size, index as int);
        }
        let loaded = self.chunk_size_for(index);
        let entry = ChunkProgress { index, loaded, etag };
        self.chunk_progress.set(index, entry);
    }

    /// Total bytes recorded as uploaded, saturating at the integer limit.
    pub fn total_uploaded(&self) -> (r: u64)
        ensures
            spec_loaded_sum(self.chunk_progress@) <= u64::MAX
                ==> r == spec_loaded_sum(self.chunk_progress@),
    {
        let mut total: u64 = 0;
        let mut i: usize = 0;
        while i < self.chunk_progress.len()
            invariant
                i <= self.chunk_progress@.len(),
                spec_loaded_sum(self.chunk_progress@.take(i as int)) <= u64::MAX
                    ==> total == spec_loaded_sum(self.chunk_progress@.take(i as int)),
                total <= spec_loaded_sum(self.chunk_progress@.take(i as int)),
            decreases self.chunk_progress@.len() - i,
        {
            let ghost pre = self.chunk_progress@.take(i as int);
            proof {
                let cur = self.chunk_progress@.take(i + 1);
                assert(cur.drop_last() =~= pre);
                assert(cur.last() == self.chunk_progress@[i as int]);
                lemma_loaded_sum_nonneg(pre);
            }
            let loaded = self.chunk_progress[i].loaded;
            if total > u64::MAX - loaded {
                total = u64::MAX;
            } else {
                total = total + loaded;
            }
            i = i + 1;
        }
        proof {
            assert(self.chunk_progress@.take(self.chunk_progress@.len() as int)
                =~= self.chunk_progress@);
        }
        total
    }
}

/// Sum of the bytes recorded per chunk.
pub open spec fn spec_loaded_sum(s: Seq<ChunkProgress>) -> int
    decreases s.len(),
{
    if s.len() == 0 {
        0
    } else {
        spec_loaded_sum(s.drop_last()) + s.last().loaded
    }
}

proof fn lemma_loaded_sum_nonneg(s: Seq<ChunkProgress>)
    ensures
        spec_loaded_sum(s) >= 0,
    decreases s.len(),
{
    if s.len() > 0 {
        lemma_loaded_sum_nonneg(s.drop_last());
    }
}

/// Build a fresh session: every chunk pending, timestamps as given.
pub fn new_session(
    id: String,
    task_id: String,
    drive_id: String,
    local_path: String,
    remote_uri: String,
    file_size: u64,
    chunk_size: u64,
    policy_type: PolicyType,
    credential: String,
    session_id: String,
    now: i64,
    expires_at: i64,
) -> (r: UploadSession)
    requires
        chunk_size > 0,
        spec_num_chunks(file_size, chunk_size) <= usize::MAX,
    ensures
        r.wf(),
        r.id == id,
        r.task_id == task_id,
        r.drive_id == drive_id,
        r.local_path == local_path,
        r.remote_uri == remote_uri,
        r.file_size == file_size,
        r.chunk_size == chunk_size,
        r.policy_type == policy_type,
        r.credential == credential,
        r.session_id == session_id,
        r.created_at == now,
        r.updated_at == now,
        r.expires_at == expires_at,
        forall|i: int| 0 <= i < r.chunk_progress@.len()
            ==> !(#[trigger] r.chunk_progress@[i]).spec_complete(),
        r.encrypt_metadata is None,
        r.upload_url is None,
        r.upload_policy is None,
{
    proof {
        assert(file_size as int / chunk_size as int <= file_size as int) by (nonlinear_arith)
            requires chunk_size as int >= 1, file_size as int >= 0,
        ;
    }
    let n64: u64 = if file_size == 0 {
        1
    } else if file_size % chunk_size == 0 {
        file_size / chunk_size
    } else {
        file_size / chunk_size + 1
    };
    assert(n64 == spec_num_chunks(file_size, chunk_size));
    let n: usize = n64 as usize;
    let mut progress: Vec<ChunkProgress> = Vec::new();
    let mut i: usize = 0;
    while i < n
        invariant
            i <= n,
            progress@.len() == i,
            forall|j: int| 0 <= j < i ==> (#[trigger] progress@[j]).index == j
                && !progress@[j].spec_complete(),
        decreases n - i,
    {
        progress.push(ChunkProgress::new(i));
        i = i + 1;
    }
    UploadSession {
        id,
        task_id,
        drive_id,
        local_path,
        remote_uri,
        file_size,
        chunk_size,
        policy_type,
        upload_url: None,
        upload_policy: None,
        credential,
        session_id,
        callback_secret: String::new(),
        mime_type: None,
        chunk_progress: progress,
        encrypt_metadata: None,
        expires_at,
        created_at: now,
        updated_at: now,
    }
}

} // verus!
