use cloudreve_sync::chunk::ChunkInfo;
use cloudreve_sync::errors::UploadError;
use cloudreve_sync::providers::{
    local_upload_route, onedrive_classify_response, onedrive_content_range, onedrive_precheck,
    qiniu_classify_completion, qiniu_classify_response, qiniu_part_number,
    qiniu_parts_for_completion, relay_classify_envelope, upyun_classify_response,
    upyun_precheck, LocalRoute, OneDriveErrorInfo,
};
use cloudreve_sync::session::{new_session, PolicyType, UploadSession};

fn session(policy: PolicyType, file_size: u64) -> UploadSession {
    new_session(
        String::from("sess"),
        String::from("task"),
        String::from("drive"),
        String::from("C:/data/f.bin"),
        String::from("cloudreve://my/f.bin"),
        file_size,
        8,
        policy,
        String::from("cred"),
        String::from("psid"),
        0,
        0,
    )
}

#[test]
fn test_onedrive_rejects_empty_files() {
    let s = session(PolicyType::OneDrive, 0);
    match onedrive_precheck(&s) {
        Err(UploadError::OneDriveEmptyFile) => {}
        _ => panic!("an empty file must be rejected outright"),
    }
    let mut nonempty = session(PolicyType::OneDrive, 10);
    match onedrive_precheck(&nonempty) {
        Err(UploadError::ConfigurationError(_)) => {}
        _ => panic!("a missing upload endpoint is a terminal configuration error"),
    }
    nonempty.upload_url = Some(String::from("https://upload.example/u"));
    assert!(onedrive_precheck(&nonempty).is_ok());
}

#[test]
fn test_onedrive_content_range() {
    let range = onedrive_content_range(&ChunkInfo::new(1, 8, 5), 13);
    assert_eq!((range.start, range.end, range.total), (8, 12, 13));
}

#[test]
fn test_onedrive_response_classification() {
    // Success and "accepted, more chunks expected" both succeed.
    assert!(onedrive_classify_response(0, 201, None, String::new()).unwrap().is_none());
    assert!(onedrive_classify_response(0, 202, None, String::new()).unwrap().is_none());
    // The fragment-overlap inner error is surfaced distinctly.
    let overlap = OneDriveErrorInfo {
        code: String::from("invalidRequest"),
        message: String::from("fragment already received"),
        inner_code: Some(String::from("fragmentOverlap")),
    };
    match onedrive_classify_response(2, 416, Some(overlap), String::new()) {
        Err(UploadError::OneDriveChunkOverlap(m)) => {
            assert_eq!(m, "fragment already received");
        }
        _ => panic!("expected the overlap signal"),
    }
    // Other provider errors become chunk failures.
    let other = OneDriveErrorInfo {
        code: String::from("invalidRange"),
        message: String::from("bad range"),
        inner_code: None,
    };
    match onedrive_classify_response(2, 400, Some(other), String::new()) {
        Err(UploadError::ChunkUploadFailed { chunk_index, message }) => {
            assert_eq!(chunk_index, 2);
            assert_eq!(message, "bad range");
        }
        _ => panic!("expected a chunk failure"),
    }
    // An unparsable body is carried as-is.
    match onedrive_classify_response(1, 500, None, String::from("<html>oops</html>")) {
        Err(UploadError::ChunkUploadFailed { chunk_index, message }) => {
            assert_eq!(chunk_index, 1);
            assert_eq!(message, "<html>oops</html>");
        }
        _ => panic!("expected a chunk failure"),
    }
}

#[test]
fn test_qiniu_part_numbers_are_one_based() {
    assert_eq!(qiniu_part_number(0), 1);
    assert_eq!(qiniu_part_number(6), 7);
}

#[test]
fn test_qiniu_parts_ordered_by_part_number() {
    let mut s = session(PolicyType::Qiniu, 20);
    assert_eq!(s.num_chunks(), 3);
    s.complete_chunk(0, Some(String::from("etag-a")));
    s.complete_chunk(2, Some(String::from("etag-c")));
    s.complete_chunk(1, None);
    let parts = qiniu_parts_for_completion(&s);
    assert_eq!(
        parts,
        vec![(String::from("etag-a"), 1), (String::from("etag-c"), 3)],
    );
}

#[test]
fn test_upyun_single_chunk_only() {
    let mut s = session(PolicyType::Upyun, 4);
    s.upload_url = Some(String::from("https://v0.api.upyun.example/bucket"));
    s.upload_policy = Some(String::from("policy-token"));
    match upyun_precheck(&ChunkInfo::new(1, 8, 4), &s) {
        Err(UploadError::ConfigurationError(m)) => {
            assert_eq!(m, "only single-chunk uploads are supported");
        }
        _ => panic!("a nonzero chunk index is a terminal configuration error"),
    }
    // A configuration error is never retried.
    assert!(!upyun_precheck(&ChunkInfo::new(1, 8, 4), &s).unwrap_err().is_retryable());
    assert!(upyun_precheck(&ChunkInfo::new(0, 0, 4), &s).is_ok());
    s.upload_policy = None;
    assert!(upyun_precheck(&ChunkInfo::new(0, 0, 4), &s).is_err());
}

#[test]
fn test_local_routing() {
    let mut s = session(PolicyType::Local, 4);
    assert!(matches!(local_upload_route(&s), LocalRoute::Origin));
    s.upload_url = Some(String::new());
    assert!(matches!(local_upload_route(&s), LocalRoute::Origin));
    s.upload_url = Some(String::from("/api/v4/slave/upload"));
    assert!(matches!(local_upload_route(&s), LocalRoute::Origin));
    s.upload_url = Some(String::from("https://slave.example/upload"));
    assert!(matches!(local_upload_route(&s), LocalRoute::Relay));
}

#[test]
fn test_relay_envelope_classification() {
    assert!(relay_classify_envelope(0, String::new()).is_ok());
    match relay_classify_envelope(40001, String::from("quota exceeded")) {
        Err(UploadError::ProviderError { message, .. }) => {
            assert_eq!(message, "quota exceeded");
        }
        _ => panic!("a non-zero envelope code is a provider error"),
    }
}

#[test]
fn test_qiniu_response_classification() {
    match qiniu_classify_response(0, 200, Some(String::from("etag-x")), None, String::new()) {
        Ok(Some(e)) => assert_eq!(e, "etag-x"),
        _ => panic!("a successful part upload hands back its identifier"),
    }
    // A success without an identifier cannot be finalized later.
    match qiniu_classify_response(0, 200, None, None, String::from("not json")) {
        Err(UploadError::ChunkUploadFailed { chunk_index, message }) => {
            assert_eq!(chunk_index, 0);
            assert_eq!(message, "not json");
        }
        _ => panic!("expected a chunk failure"),
    }
    match qiniu_classify_response(3, 400, None, Some(String::from("bad token")), String::new()) {
        Err(UploadError::ChunkUploadFailed { chunk_index, message }) => {
            assert_eq!(chunk_index, 3);
            assert_eq!(message, "bad token");
        }
        _ => panic!("expected a chunk failure"),
    }
    assert!(qiniu_classify_completion(200, None, String::new()).is_ok());
    match qiniu_classify_completion(500, None, String::from("<oops>")) {
        Err(UploadError::CompletionFailed(m)) => assert_eq!(m, "<oops>"),
        _ => panic!("expected a completion failure"),
    }
}

#[test]
fn test_upyun_response_classification() {
    assert!(upyun_classify_response(0, 200, None, String::new()).unwrap().is_none());
    match upyun_classify_response(0, 401, Some((40100005, String::from("bad signature"))), String::new()) {
        Err(UploadError::UpyunError { code, message }) => {
            assert_eq!(code, 40100005);
            assert_eq!(message, "bad signature");
        }
        _ => panic!("expected the provider's own error"),
    }
    match upyun_classify_response(2, 503, None, String::from("busy")) {
        Err(UploadError::ChunkUploadFailed { chunk_index, message }) => {
            assert_eq!(chunk_index, 2);
            assert_eq!(message, "busy");
        }
        _ => panic!("expected a chunk failure"),
    }
}
