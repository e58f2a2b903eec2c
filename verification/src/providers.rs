//! Provider adapters' decision logic: one uniform "upload one chunk /
//! finalize" contract over heterogeneous wire protocols.
//!
//! The HTTP transfers themselves happen outside; everything a protocol
//! decides — preconditions, routing, request numbers, response
//! classification — is computed and checked here over plain values.

use vstd::prelude::*;
use crate::chunk::{ChunkInfo, ChunkProgress};
use crate::errors::{UploadError, UploadResult};
use crate::session::UploadSession;

verus! {

/// The explicit byte range of a ranged PUT: `start-end/total`.
pub struct ByteRange {
    pub start: u64,
    pub end: u64,
    pub total: u64,
}

/// The range header numbers for one chunk of a range-addressed upload.
pub fn onedrive_content_range(chunk: &ChunkInfo, file_size: u64) -> (r: ByteRange)
    requires
        chunk.size >= 1,
        chunk.offset + chunk.size <= file_size,
    ensures
        r.start == chunk.offset,
        r.end == chunk.offset + chunk.size - 1,
        r.total == file_size,
        r.start <= r.end < r.total,
{
    ByteRange {
        start: chunk.offset,
        end: chunk.offset + chunk.size - 1,
        total: file_size,
    }
}

/// Range-addressed uploads reject empty files outright and need an
/// upload endpoint.  Both failures are configuration errors: terminal,
/// never retried.
pub fn onedrive_precheck(session: &UploadSession) -> (r: UploadResult<()>)
    ensures
        r is Ok <==> (session.file_size > 0 && session.upload_url is Some),
        session.file_size == 0 ==> (r matches Err(e) && e is OneDriveEmptyFile),
        session.file_size > 0 && session.upload_url is None
            ==> (r matches Err(e) && e is ConfigurationError),
{
    if session.file_size == 0 {
        return Err(UploadError::OneDriveEmptyFile);
    }
    match &session.upload_url {
        Some(_) => Ok(()),
        None => Err(UploadError::ConfigurationError("no upload url".to_owned())),
    }
}

/// Parsed fields of a range-addressed provider's error body.
pub struct OneDriveErrorInfo {
    /// Top-level error code
    pub code: String,
    /// Human-readable message
    pub message: String,
    /// Inner error code, where the body carried one
    pub inner_code: Option<String>,
}

/// Whether an inner error code is the "fragment already received"
/// signal.
pub fn is_fragment_overlap_code(code: &String) -> (r: bool)
    ensures
        r == (code@ == "fragmentOverlap"@),
{
    let expected: String = "fragmentOverlap".to_owned();
    code.eq(&expected)
}

/// Classify a range-addressed chunk response.  Success and "accepted,
/// more chunks expected" both succeed with no content identifier.  The
/// "fragment already received" inner error is surfaced distinctly so
/// the pipeline can treat the chunk as complete; everything else is a
/// chunk failure carrying the provider's message, or the raw body when
/// no error could be parsed.
pub fn onedrive_classify_response(
    chunk_index: usize,
    status: u16,
    error: Option<OneDriveErrorInfo>,
    raw_body: String,
) -> (r: UploadResult<Option<String>>)
    ensures
        (200 <= status < 300 || status == 202) ==> (r matches Ok(x) && x is None),
        !(200 <= status < 300 || status == 202) ==> (r matches Err(e) && match error {
            Option::Some(info) => {
                if info.inner_code matches Some(c) && c@ == "fragmentOverlap"@ {
                    e matches UploadError::OneDriveChunkOverlap(m) && m == info.message
                } else {
                    e matches UploadError::ChunkUploadFailed { chunk_index: ci, message }
                        && ci == chunk_index && message == info.message
                }
            },
            Option::None => e matches UploadError::ChunkUploadFailed {
                chunk_index: ci, message }
                && ci == chunk_index && message == raw_body,
        }),
{
    if (200 <= status && status < 300) || status == 202 {
        return Ok(None);
    }
    match error {
        Some(info) => {
            let overlap = match &info.inner_code {
                Some(c) => is_fragment_overlap_code(c),
                None => false,
            };
            if overlap {
                Err(UploadError::OneDriveChunkOverlap(info.message))
            } else {
                Err(UploadError::chunk_failed(chunk_index, info.message))
            }
        },
        None => Err(UploadError::chunk_failed(chunk_index, raw_body)),
    }
}

/// Part numbers of a part-addressed upload are one-based.
pub fn qiniu_part_number(index: usize) -> (r: usize)
    requires
        index < usize::MAX,
    ensures
        r == index + 1,
{
    index + 1
}

/// The ordered (identifier, part-number) list a part-addressed finalize
/// posts: every chunk that returned an identifier, by part number.
pub open spec fn spec_parts(s: Seq<ChunkProgress>) -> Seq<(String, usize)>
    decreases s.len(),
{
    if s.len() == 0 {
        Seq::empty()
    } else {
        spec_parts(s.drop_last()) + match s.last().etag {
            Option::Some(e) => seq![(e, (s.last().index + 1) as usize)],
            Option::None => Seq::empty(),
        }
    }
}

/// Collect the finalize part list from the session's progress entries.
pub fn qiniu_parts_for_completion(session: &UploadSession) -> (r: Vec<(String, usize)>)
    requires
        session.wf(),
    ensures
        r@ == spec_parts(session.chunk_progress@),
{
    let mut r: Vec<(String, usize)> = Vec::new();
    let mut i: usize = 0;
    let n = session.chunk_progress.len();
    while i < n
        invariant
            n == session.chunk_progress@.len(),
            i <= n,
            session.wf(),
            r@ == spec_parts(session.chunk_progress@.take(i as int)),
        decreases n - i,
    {
        let ghost pre = session.chunk_progress@.take(i as int);
        let entry = &session.chunk_progress[i];
        match &entry.etag {
            Some(e) => {
                proof {
                    assert(session.chunk_progress@[i as int].index == i);
                }
                r.push((e.clone(), entry.index + 1));
            },
            None => {},
        }
        proof {
            let cur = session.chunk_progress@.take(i + 1);
            assert(cur.drop_last() =~= pre);
            assert(cur.last() == session.chunk_progress@[i as int]);
            match session.chunk_progress@[i as int].etag {
                Option::Some(_) => {
                    assert(r@ =~= spec_parts(cur));
                },
                Option::None => {
                    assert(r@ =~= spec_parts(cur));
                },
            }
        }
        i = i + 1;
    }
    proof {
        assert(session.chunk_progress@.take(n as int) =~= session.chunk_progress@);
    }
    r
}

/// Classify a part-addressed chunk response.  A successful exchange
/// must hand back the per-part content identifier, to be supplied at
/// finalize time; failures carry the provider's parsed message, or the
/// raw body when none could be parsed.  All of these are chunk-level
/// protocol errors, absorbed by the retry loop.
pub fn qiniu_classify_response(
    chunk_index: usize,
    status: u16,
    etag: Option<String>,
    error: Option<String>,
    raw_body: String,
) -> (r: UploadResult<Option<String>>)
    ensures
        (200 <= status < 300) ==> match etag {
            Option::Some(e) => r matches Ok(x) && x == Some(e),
            Option::None => (r matches Err(e)
                && e matches UploadError::ChunkUploadFailed { chunk_index: ci, message }
                && ci == chunk_index && message == raw_body),
        },
        !(200 <= status < 300) ==> (r matches Err(e)
            && e matches UploadError::ChunkUploadFailed { chunk_index: ci, message }
            && ci == chunk_index
            && message == match error {
                Option::Some(m) => m,
                Option::None => raw_body,
            }),
{
    if 200 <= status && status < 300 {
        match etag {
            Some(e) => Ok(Some(e)),
            None => Err(UploadError::chunk_failed(chunk_index, raw_body)),
        }
    } else {
        match error {
            Some(m) => Err(UploadError::chunk_failed(chunk_index, m)),
            None => Err(UploadError::chunk_failed(chunk_index, raw_body)),
        }
    }
}

/// Classify a part-addressed finalize response: any failure ends the
/// upload as a completion failure, carrying the provider's message or
/// the raw body.
pub fn qiniu_classify_completion(
    status: u16,
    error: Option<String>,
    raw_body: String,
) -> (r: UploadResult<()>)
    ensures
        r is Ok <==> 200 <= status < 300,
        !(200 <= status < 300) ==> (r matches Err(e)
            && e matches UploadError::CompletionFailed(m)
            && m == match error {
                Option::Some(pm) => pm,
                Option::None => raw_body,
            }),
{
    if 200 <= status && status < 300 {
        Ok(())
    } else {
        match error {
            Some(m) => Err(UploadError::CompletionFailed(m)),
            None => Err(UploadError::CompletionFailed(raw_body)),
        }
    }
}

/// Classify a single-shot form upload response.  The protocol returns
/// no content identifier; a parsed error body keeps the provider's own
/// code and message, an unparsable one is a chunk failure with the raw
/// body.
pub fn upyun_classify_response(
    chunk_index: usize,
    status: u16,
    error: Option<(i32, String)>,
    raw_body: String,
) -> (r: UploadResult<Option<String>>)
    ensures
        (200 <= status < 300) ==> (r matches Ok(x) && x is None),
        !(200 <= status < 300) ==> (r matches Err(e) && match error {
            Option::Some((code, msg)) => e matches UploadError::UpyunError {
                code: c, message }
                && c == code && message == msg,
            Option::None => e matches UploadError::ChunkUploadFailed {
                chunk_index: ci, message }
                && ci == chunk_index && message == raw_body,
        }),
{
    if 200 <= status && status < 300 {
        Ok(None)
    } else {
        match error {
            Some((code, message)) => Err(UploadError::UpyunError { code, message }),
            None => Err(UploadError::chunk_failed(chunk_index, raw_body)),
        }
    }
}

/// The single-shot form provider takes exactly one chunk, and needs an
/// endpoint and a policy token.  A wrong chunk index, like a missing
/// URL or policy, is a configuration error: terminal, never retried.
pub fn upyun_precheck(chunk: &ChunkInfo, session: &UploadSession) -> (r: UploadResult<()>)
    ensures
        r is Ok <==> (chunk.index == 0
            && session.upload_url is Some && session.upload_policy is Some),
        chunk.index != 0 ==> (r matches Err(e)
            && e matches UploadError::ConfigurationError(m)
            && m@ == "only single-chunk uploads are supported"@),
        r matches Err(e) ==> e is ConfigurationError,
{
    if chunk.index != 0 {
        return Err(UploadError::ConfigurationError(
            "only single-chunk uploads are supported".to_owned(),
        ));
    }
    if session.upload_url.is_none() {
        return Err(UploadError::ConfigurationError("no upload url".to_owned()));
    }
    if session.upload_policy.is_none() {
        return Err(UploadError::ConfigurationError("no upload policy".to_owned()));
    }
    Ok(())
}

/// Classify the relay's JSON envelope: a non-zero status code in the
/// body is a provider error even when the HTTP exchange succeeded.
pub fn relay_classify_envelope(code: i32, msg: String) -> (r: UploadResult<()>)
    ensures
        r is Ok <==> code == 0,
        code != 0 ==> (r matches Err(e)
            && e matches UploadError::ProviderError { message, .. }
            && message == msg),
{
    if code == 0 {
        Ok(())
    } else {
        Err(UploadError::provider_error("relay".to_owned(), msg))
    }
}

/// Where a direct-policy chunk goes.
pub enum LocalRoute {
    /// Through the origin server's own upload primitive
    Origin,
    /// To an external relay endpoint by authenticated POST
    Relay,
}

/// A session whose upload target is a non-empty URL that is not a local
/// service path goes through the relay; everything else goes through
/// the origin server.
pub fn local_upload_route(session: &UploadSession) -> (r: LocalRoute)
    ensures
        (r is Relay) == match session.upload_url {
            Option::Some(u) => u@.len() > 0 && u@[0] != '/',
            Option::None => false,
        },
{
    match &session.upload_url {
        Some(u) => {
            let n = u.as_str().unicode_len();
            if n > 0 && u.as_str().get_char(0) != '/' {
                LocalRoute::Relay
            } else {
                LocalRoute::Origin
            }
        },
        None => LocalRoute::Origin,
    }
}

} // verus!
