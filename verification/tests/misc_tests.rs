use cloudreve_sync::api::{ApiResponse, AppError};
use cloudreve_sync::approot::AppRoot;
use cloudreve_sync::boolset::Boolset;
use cloudreve_sync::commands::{apply_credential_refresh, Credentials, Token};
use cloudreve_sync::errors::UploadError;
use cloudreve_sync::listener::{
    on_listen_outcome, on_stream_signal, BackoffState, ListenOutcome, ListenerAction,
    ListenerState, StreamSignal,
};
use cloudreve_sync::logging::LogConfig;
use cloudreve_sync::progress::ProgressUpdate;
use cloudreve_sync::remote::{
    is_symbolic_link, match_remote_entries, RemoteEntry, RemoteEntryType,
};
use cloudreve_sync::status::{
    derive_sync_status, has_active_duplicate, SyncStatus, TaskRecord, TaskStatus, TaskType,
};

#[test]
fn test_default_log_config() {
    let config = LogConfig::default();
    assert_eq!(config.file_prefix, "cloudreve-sync");
    assert_eq!(config.max_files, 5);
    assert!(config.log_to_file);
    assert_eq!(config.log_level, "info");
}

#[test]
fn test_boolset_set_and_enabled() {
    let mut set = Boolset::new();
    assert!(!set.enabled(0));
    assert!(!set.enabled(100));
    set.set(3, true);
    set.set(17, true);
    assert!(set.enabled(3));
    assert!(set.enabled(17));
    assert!(!set.enabled(4));
    assert_eq!(set.as_bytes().len(), 3);
    set.set(3, false);
    assert!(!set.enabled(3));
    assert!(set.enabled(17));
}

#[test]
fn test_boolset_sets_many() {
    let mut set = Boolset::new();
    set.sets(&vec![(0, true), (9, true), (0, false), (2, true)]);
    assert!(!set.enabled(0));
    assert!(set.enabled(2));
    assert!(set.enabled(9));
}

#[test]
fn test_boolset_and_or() {
    let a = Boolset::from_raw(vec![0b1010, 0b0001]);
    let b = Boolset::from_raw(vec![0b0110]);
    let and = a.and(&b);
    let or = a.or(&b);
    assert_eq!(and.as_bytes(), &[0b0010, 0b0000]);
    assert_eq!(or.as_bytes(), &[0b1110, 0b0001]);
    assert!(or.enabled(8));
    assert!(!and.enabled(8));
}

#[test]
fn test_boolset_base64_round_trip() {
    let original = Boolset::from_raw(vec![0xDE, 0xAD, 0xBE, 0xEF]);
    let encoded = original.to_base64();
    assert_eq!(encoded, "3q2+7w==");
    let decoded = Boolset::from_base64(&encoded).unwrap();
    assert_eq!(decoded.as_bytes(), original.as_bytes());
    assert!(Boolset::from_base64("!!!").is_none());
    let fallback = Boolset::from_data(Some("!!!"), None);
    assert!(fallback.as_bytes().is_empty());
    let raw = Boolset::from_data(None, Some(vec![1, 2]));
    assert_eq!(raw.as_bytes(), &[1, 2]);
}

#[test]
fn test_error_classification() {
    assert!(UploadError::HttpError(String::from("x")).is_retryable());
    assert!(UploadError::chunk_failed(1, String::from("x")).is_retryable());
    assert!(UploadError::provider_error(String::from("p"), String::from("m")).is_retryable());
    assert!(!UploadError::Cancelled.is_retryable());
    assert!(!UploadError::ConfigurationError(String::from("x")).is_retryable());
    assert!(!UploadError::SessionExpired.is_retryable());
    assert!(!UploadError::OneDriveEmptyFile.is_retryable());
    assert!(!UploadError::OneDriveChunkOverlap(String::from("x")).is_retryable());
    assert!(UploadError::Cancelled.is_cancelled());
    assert!(!UploadError::SessionExpired.is_cancelled());
    match UploadError::s3_error(String::from("c"), String::from("m")) {
        UploadError::S3Error { code, message } => {
            assert_eq!(code, "c");
            assert_eq!(message, "m");
        }
        _ => panic!("wrong variant"),
    }
    match UploadError::upyun_error(42, String::from("m")) {
        UploadError::UpyunError { code, message } => {
            assert_eq!(code, 42);
            assert_eq!(message, "m");
        }
        _ => panic!("wrong variant"),
    }
}

#[test]
fn test_backoff_schedule() {
    // Delays double from one second up to the cap, and the budget runs
    // out after exactly five failures.
    let mut backoff = BackoffState::new();
    let mut seen: Vec<u64> = Vec::new();
    while let Some(delay) = backoff.next_delay() {
        seen.push(delay);
    }
    assert_eq!(seen, vec![1, 2, 4, 8, 16]);
    assert!(backoff.next_delay().is_none());
    backoff.reset();
    assert_eq!(backoff.next_delay(), Some(1));
}

#[test]
fn test_listener_backoff_policy() {
    let mut state = ListenerState { push_subscribed: true };
    let mut backoff = BackoffState::new();
    // A stream end and a transport error both count toward the backoff,
    // and both mark the push subscription inactive.
    for (step, expected) in [1u64, 2, 4, 8, 16].iter().enumerate() {
        let outcome = if step % 2 == 0 {
            ListenOutcome::TransportError
        } else {
            ListenOutcome::StreamEnded
        };
        state.push_subscribed = true;
        match on_listen_outcome(&mut state, &mut backoff, outcome) {
            ListenerAction::RetryAfter { delay_secs } => assert_eq!(delay_secs, *expected),
            _ => panic!("expected a retry"),
        }
        assert!(!state.push_subscribed);
    }
    // The sixth consecutive failure, and only it, takes the
    // long-cooldown path.
    match on_listen_outcome(&mut state, &mut backoff, ListenOutcome::StreamEnded) {
        ListenerAction::FullResyncAndCooldown { grace_secs, cooldown_secs } => {
            assert_eq!(grace_secs, 10);
            assert_eq!(cooldown_secs, 3600);
        }
        _ => panic!("expected the long-cooldown path"),
    }
    // The cooldown path reset the backoff.
    match on_listen_outcome(&mut state, &mut backoff, ListenOutcome::TransportError) {
        ListenerAction::RetryAfter { delay_secs } => assert_eq!(delay_secs, 1),
        _ => panic!("expected a retry"),
    }
    // Only the server's own reconnect request resets the backoff and
    // resubscribes at once; it too leaves the push state inactive.
    state.push_subscribed = true;
    assert!(matches!(
        on_listen_outcome(&mut state, &mut backoff, ListenOutcome::ReconnectRequired),
        ListenerAction::Resubscribe
    ));
    assert!(!state.push_subscribed);
    match on_listen_outcome(&mut state, &mut backoff, ListenOutcome::StreamEnded) {
        ListenerAction::RetryAfter { delay_secs } => assert_eq!(delay_secs, 1),
        _ => panic!("expected a retry"),
    }
}

#[test]
fn test_stream_signals() {
    let mut state = ListenerState { push_subscribed: false };
    let mut backoff = BackoffState::new();
    // Two failures leave the backoff mid-schedule.
    backoff.next_delay();
    backoff.next_delay();
    assert!(!on_stream_signal(&mut state, &mut backoff, StreamSignal::KeepAlive));
    assert!(!state.push_subscribed);
    assert_eq!(backoff.retry_count, 2);
    // A resumed subscription is a successful reconnect: active, reset.
    assert!(!on_stream_signal(&mut state, &mut backoff, StreamSignal::Resumed));
    assert!(state.push_subscribed);
    assert_eq!(backoff.retry_count, 0);
    assert!(!on_stream_signal(&mut state, &mut backoff, StreamSignal::ReconnectRequired));
    assert!(!state.push_subscribed);
    // Only a fresh subscription owes a full resync.
    backoff.next_delay();
    assert!(on_stream_signal(&mut state, &mut backoff, StreamSignal::Subscribed));
    assert!(state.push_subscribed);
    assert_eq!(backoff.retry_count, 0);
    assert!(!on_stream_signal(&mut state, &mut backoff, StreamSignal::Batch));
}

#[test]
fn test_api_response_and_errors() {
    let ok: ApiResponse<u32> = ApiResponse::success(7);
    assert!(ok.success);
    assert_eq!(ok.data, Some(7));
    assert!(ok.error.is_none());
    let err: ApiResponse<u32> = ApiResponse::error(String::from("boom"));
    assert!(!err.success);
    assert!(err.data.is_none());
    assert_eq!(err.error.as_deref(), Some("boom"));

    assert_eq!(AppError::NotFound(String::from("x")).status_code(), 404);
    assert_eq!(AppError::BadRequest(String::from("x")).status_code(), 400);
    assert_eq!(AppError::Internal(String::from("x")).status_code(), 500);
    assert_eq!(
        AppError::Internal(String::from("secret")).response_message(),
        "Internal server error"
    );
    assert_eq!(AppError::NotFound(String::from("gone")).response_message(), "gone");
}

#[test]
fn test_progress_update() {
    let update = ProgressUpdate::new(100, 40, Some(2), 5);
    assert_eq!(update.total_size, 100);
    assert_eq!(update.uploaded, 40);
    assert_eq!(update.current_chunk, Some(2));
    assert_eq!(update.total_chunks, 5);
    assert!(update.chunk_progress.is_none());
    let with = update.with_chunk_progress(Vec::new());
    assert!(with.chunk_progress.is_some());
}

#[test]
fn test_credential_refresh() {
    let mut creds = Credentials {
        access_token: None,
        refresh_token: String::from("old-refresh"),
        refresh_expires: String::from("then"),
        access_expires: None,
    };
    apply_credential_refresh(
        &mut creds,
        Token {
            access_token: String::from("SECRET-REDACTED"),
            refresh_token: String::from("new-refresh"),
            access_expires: String::from("soon"),
            refresh_expires: String::from("later"),
        },
    );
    assert_eq!(creds.access_token.as_deref(), Some("SECRET-REDACTED"));
    assert_eq!(creds.refresh_token, "new-refresh");
    assert_eq!(creds.refresh_expires, "later");
    assert_eq!(creds.access_expires.as_deref(), Some("soon"));
}

fn task(id: &str, status: TaskStatus) -> TaskRecord {
    TaskRecord {
        id: id.to_string(),
        drive_id: String::from("d1"),
        task_type: TaskType::Upload,
        local_path: String::from("C:/f.txt"),
        status,
        bytes_done: 0,
        bytes_total: 10,
        priority: 0,
        custom_state: String::new(),
        error: None,
        created_at: 0,
        updated_at: 0,
    }
}

#[test]
fn test_active_task_duplicate_check() {
    let tasks = vec![task("t1", TaskStatus::Completed), task("t2", TaskStatus::Running)];
    assert!(has_active_duplicate(
        &tasks,
        &String::from("d1"),
        TaskType::Upload,
        &String::from("C:/f.txt"),
    ));
    assert!(!has_active_duplicate(
        &tasks,
        &String::from("d1"),
        TaskType::Sync,
        &String::from("C:/f.txt"),
    ));
    assert!(!has_active_duplicate(
        &tasks,
        &String::from("d2"),
        TaskType::Upload,
        &String::from("C:/f.txt"),
    ));
    let settled = vec![task("t1", TaskStatus::Failed), task("t2", TaskStatus::Cancelled)];
    assert!(!has_active_duplicate(
        &settled,
        &String::from("d1"),
        TaskType::Upload,
        &String::from("C:/f.txt"),
    ));
}

#[test]
fn test_derive_sync_status() {
    assert_eq!(derive_sync_status(false, false, 3), SyncStatus::Paused);
    assert_eq!(derive_sync_status(true, true, 0), SyncStatus::Error);
    assert_eq!(derive_sync_status(true, false, 2), SyncStatus::Syncing);
    assert_eq!(derive_sync_status(true, false, 0), SyncStatus::InSync);
}

#[test]
fn test_app_root_image_path() {
    let root = AppRoot::new(String::from("C:\\Apps\\Sync"));
    assert_eq!(root.image_path(), "C:\\Apps\\Sync\\Images");
}

#[test]
fn test_is_symbolic_link() {
    let mut entry = RemoteEntry {
        id: String::from("f1"),
        path: String::from("cloudreve://my/link"),
        name: String::from("link"),
        entry_type: RemoteEntryType::File,
        size: 0,
        created_at: 0,
        updated_at: 0,
        primary_entity: None,
        permission: None,
        shared: true,
        metadata: vec![(String::from("sys:upload_session"), String::from("x"))],
    };
    assert!(!is_symbolic_link(&entry));
    entry.metadata.push((String::from("sys:shared_redirect"), String::from("target")));
    assert!(is_symbolic_link(&entry));
}

#[test]
fn test_match_remote_entries() {
    let entry = |path: &str| RemoteEntry {
        id: String::from("id"),
        path: path.to_string(),
        name: String::from("n"),
        entry_type: RemoteEntryType::File,
        size: 1,
        created_at: 0,
        updated_at: 0,
        primary_entity: None,
        permission: None,
        shared: false,
        metadata: Vec::new(),
    };
    let files = vec![entry("cloudreve://my/a"), entry("cloudreve://my/b")];
    let targets = vec![
        String::from("cloudreve://my/b"),
        String::from("cloudreve://my/missing"),
        String::from("cloudreve://my/a"),
    ];
    let matched = match_remote_entries(&files, &targets);
    assert_eq!(matched, vec![Some(1), None, Some(0)]);
}
