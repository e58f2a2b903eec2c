use cloudreve_sync::chunk::{ChunkInfo, ChunkProgress};
use cloudreve_sync::errors::UploadError;
use cloudreve_sync::session::{new_session, PolicyType, UploadSession};
use cloudreve_sync::uploader::{
    report_progress, DriverAction, StepResult, UploadDriver, UploaderConfig,
};

fn session_with(file_size: u64, chunk_size: u64) -> UploadSession {
    new_session(
        String::from("sess-1"),
        String::from("task-1"),
        String::from("drive-1"),
        String::from("C:/data/file.bin"),
        String::from("cloudreve://my/file.bin"),
        file_size,
        chunk_size,
        PolicyType::Local,
        String::from("credential"),
        String::from("provider-session"),
        1000,
        2000,
    )
}

fn test_config() -> UploaderConfig {
    UploaderConfig::new(3, 500, 30_000)
}

#[test]
fn test_chunk_progress_lifecycle() {
    let p = ChunkProgress::new(4);
    assert_eq!(p.index, 4);
    assert_eq!(p.loaded, 0);
    assert!(p.etag.is_none());
    assert!(!p.is_complete());
    let info = ChunkInfo::new(2, 512, 256);
    assert_eq!((info.index, info.offset, info.size), (2, 512, 256));
}

#[test]
fn test_chunk_planning() {
    let s = session_with(10, 4);
    assert_eq!(s.num_chunks(), 3);
    assert_eq!(s.chunk_range(0), (0, 4));
    assert_eq!(s.chunk_range(1), (4, 8));
    assert_eq!(s.chunk_range(2), (8, 10));
    assert_eq!(s.chunk_size_for(2), 2);

    let exact = session_with(8, 4);
    assert_eq!(exact.num_chunks(), 2);
    assert_eq!(exact.chunk_range(1), (4, 8));

    let empty = session_with(0, 4);
    assert_eq!(empty.num_chunks(), 1);
    assert_eq!(empty.chunk_size_for(0), 0);
}

#[test]
fn test_resume_processes_only_remaining_chunks() {
    let mut s = session_with(50, 10);
    assert_eq!(s.num_chunks(), 5);
    s.complete_chunk(0, None);
    s.complete_chunk(1, Some(String::from("etag-1")));
    assert_eq!(s.pending_chunks(), vec![2, 3, 4]);
    assert_eq!(s.total_uploaded(), 20);

    let driver = UploadDriver::new(s, test_config());
    match driver.next_action() {
        DriverAction::Upload { chunk, delay_ms } => {
            assert_eq!(chunk.index, 2);
            assert_eq!(chunk.offset, 20);
            assert_eq!(chunk.size, 10);
            assert_eq!(delay_ms, 0);
        }
        DriverAction::Finalize => panic!("expected an upload action"),
    }
}

#[test]
fn test_retry_delay_formula() {
    let config = test_config();
    assert_eq!(config.calculate_retry_delay(0), 500);
    assert_eq!(config.calculate_retry_delay(1), 1000);
    assert_eq!(config.calculate_retry_delay(2), 2000);
    assert_eq!(config.calculate_retry_delay(6), 30_000);
    assert_eq!(config.calculate_retry_delay(40), 30_000);
}

#[test]
fn test_three_chunk_upload_with_transient_failures() {
    // Chunk 1 fails twice with a transport error, then succeeds: two
    // retry delays for chunk 1, none for chunks 0 and 2, and all three
    // chunks complete in order at the end.
    let s = session_with(30, 10);
    let mut driver = UploadDriver::new(s, test_config());
    let mut delays: Vec<(usize, u64)> = Vec::new();
    let mut script: Vec<Result<Option<String>, UploadError>> = vec![
        Ok(Some(String::from("e0"))),
        Err(UploadError::HttpError(String::from("reset"))),
        Err(UploadError::HttpError(String::from("timeout"))),
        Ok(Some(String::from("e1"))),
        Ok(Some(String::from("e2"))),
    ];
    script.reverse();
    loop {
        match driver.next_action() {
            DriverAction::Upload { chunk, delay_ms } => {
                delays.push((chunk.index, delay_ms));
                match driver.on_outcome(script.pop().unwrap()) {
                    StepResult::Advanced | StepResult::WillRetry => {}
                    StepResult::Aborted { .. } => panic!("unexpected abort"),
                }
            }
            DriverAction::Finalize => break,
        }
    }
    assert_eq!(
        delays,
        vec![(0, 0), (1, 0), (1, 1000), (1, 2000), (2, 0)],
    );
    let progress = &driver.session.chunk_progress;
    assert!(progress.iter().all(|c| c.is_complete()));
    assert_eq!(progress[0].etag.as_deref(), Some("e0"));
    assert_eq!(progress[1].etag.as_deref(), Some("e1"));
    assert_eq!(progress[2].etag.as_deref(), Some("e2"));
}

#[test]
fn test_fragment_overlap_marks_chunk_complete() {
    // The range-addressed provider's "fragment already received" signal
    // completes the chunk without another attempt and is not a failure.
    let s = session_with(30, 10);
    let mut driver = UploadDriver::new(s, test_config());
    assert!(matches!(
        driver.on_outcome(Ok(Some(String::from("e0")))),
        StepResult::Advanced
    ));
    assert!(matches!(
        driver.on_outcome(Ok(Some(String::from("e1")))),
        StepResult::Advanced
    ));
    let overlap = UploadError::OneDriveChunkOverlap(String::from("already received"));
    assert!(matches!(driver.on_outcome(Err(overlap)), StepResult::Advanced));
    assert!(matches!(driver.next_action(), DriverAction::Finalize));
    assert!(driver.session.chunk_progress[2].is_complete());
    assert!(driver.session.chunk_progress[2].etag.is_none());
}

#[test]
fn test_cancellation_aborts_immediately() {
    let s = session_with(30, 10);
    let mut driver = UploadDriver::new(s, test_config());
    match driver.on_outcome(Err(UploadError::Cancelled)) {
        StepResult::Aborted { error } => assert!(error.is_cancelled()),
        _ => panic!("expected an abort"),
    }
    assert!(!driver.session.chunk_progress[0].is_complete());
}

#[test]
fn test_retry_exhaustion_reports_last_error() {
    let s = session_with(30, 10);
    let mut driver = UploadDriver::new(s, UploaderConfig::new(2, 100, 1000));
    assert!(matches!(
        driver.on_outcome(Err(UploadError::HttpError(String::from("one")))),
        StepResult::WillRetry
    ));
    assert!(matches!(
        driver.on_outcome(Err(UploadError::HttpError(String::from("two")))),
        StepResult::WillRetry
    ));
    match driver.on_outcome(Err(UploadError::HttpError(String::from("three")))) {
        StepResult::Aborted { error } => match error {
            UploadError::HttpError(m) => assert_eq!(m, "three"),
            _ => panic!("expected the transport error"),
        },
        _ => panic!("expected an abort after the budget is spent"),
    }
}

#[test]
fn test_terminal_error_not_retried() {
    let s = session_with(30, 10);
    let mut driver = UploadDriver::new(s, test_config());
    let terminal = UploadError::UpyunError { code: 403, message: String::from("denied") };
    assert!(matches!(
        driver.on_outcome(Err(terminal)),
        StepResult::Aborted { .. }
    ));
    let misconfigured = UploadError::ConfigurationError(String::from("no upload url"));
    assert!(matches!(
        driver.on_outcome(Err(misconfigured)),
        StepResult::Aborted { .. }
    ));
}

#[test]
fn test_progress_report_mirrors_session() {
    let mut s = session_with(25, 10);
    s.complete_chunk(0, None);
    let update = report_progress(&s, Some(1));
    assert_eq!(update.total_size, 25);
    assert_eq!(update.uploaded, 10);
    assert_eq!(update.current_chunk, Some(1));
    assert_eq!(update.total_chunks, 3);
    let infos = update.chunk_progress.expect("per-chunk detail");
    assert_eq!(infos.len(), 3);
    assert!(infos[0].complete);
    assert!(!infos[1].complete);
    assert_eq!(infos[2].size, 5);
    assert_eq!(infos[0].loaded, 10);
}
