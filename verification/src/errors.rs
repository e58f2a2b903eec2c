//! Error taxonomy for the upload pipeline.
//!
//! Transport and provider-protocol failures are retryable; configuration
//! mistakes, cancellation, session expiry and exhausted retries are
//! terminal.

use vstd::prelude::*;

verus! {

/// Upload error taxonomy.  Retryable variants are absorbed by the retry
/// loop; the rest abort the upload.
#[derive(Debug, Clone)]
pub enum UploadError {
    /// Upload was cancelled
    Cancelled,
    /// Failed to create upload session
    SessionCreationFailed(String),
    /// Failed to delete upload session
    SessionDeletionFailed(String),
    /// Upload session expired
    SessionExpired,
    /// Failed to read local file
    FileReadError(String),
    /// Chunk upload failed
    ChunkUploadFailed { chunk_index: usize, message: String },
    /// Failed to complete multipart upload
    CompletionFailed(String),
    /// HTTP request failed
    HttpError(String),
    /// Database error
    DatabaseError(String),
    /// Encryption error
    EncryptionError(String),
    /// Invalid policy type
    InvalidPolicyType(String),
    /// A misconfigured request that no retry can mend: wrong chunk
    /// index for a single-shot provider, missing upload URL or policy
    ConfigurationError(String),
    /// Storage provider error (with provider-specific details)
    ProviderError { provider: String, message: String },
    /// Maximum retries exceeded
    MaxRetriesExceeded { chunk_index: usize, max_retries: u32 },
    /// Range-addressed provider rejects empty files
    OneDriveEmptyFile,
    /// Range-addressed provider reported an already-received fragment
    OneDriveChunkOverlap(String),
    /// S3-like error response
    S3Error { code: String, message: String },
    /// Qiniu error response
    QiniuError(String),
    /// Upyun error response
    UpyunError { code: i32, message: String },
    /// Callback to the origin server failed
    CallbackFailed(String),
    /// Other errors
    Other(String),
}

pub type UploadResult<T> = Result<T, UploadError>;

impl UploadError {
    /// Whether the retry loop may try the failed chunk again.
    pub fn is_retryable(&self) -> (r: bool)
        ensures
            r == (self is HttpError || self is ChunkUploadFailed || self is ProviderError),
    {
        match self {
            UploadError::HttpError(_) => true,
            UploadError::ChunkUploadFailed { .. } => true,
            UploadError::ProviderError { .. } => true,
            _ => false,
        }
    }

    /// Whether this error is due to cancellation.
    pub fn is_cancelled(&self) -> (r: bool)
        ensures
            r == (self is Cancelled),
    {
        match self {
            UploadError::Cancelled => true,
            _ => false,
        }
    }

    /// Build a chunk upload error.
    pub fn chunk_failed(chunk_index: usize, message: String) -> (r: Self)
        ensures
            r == (UploadError::ChunkUploadFailed { chunk_index, message }),
    {
        UploadError::ChunkUploadFailed { chunk_index, message }
    }

    /// Build a provider error.
    pub fn provider_error(provider: String, message: String) -> (r: Self)
        ensures
            r == (UploadError::ProviderError { provider, message }),
    {
        UploadError::ProviderError { provider, message }
    }

    /// Build an S3-like error.
    pub fn s3_error(code: String, message: String) -> (r: Self)
        ensures
            r == (UploadError::S3Error { code, message }),
    {
        UploadError::S3Error { code, message }
    }

    /// Build an Upyun error.
    pub fn upyun_error(code: i32, message: String) -> (r: Self)
        ensures
            r == (UploadError::UpyunError { code, message }),
    {
        UploadError::UpyunError { code, message }
    }
}

} // verus!
