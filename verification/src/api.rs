//! The status API's response envelope and error mapping.  Serving the
//! responses over HTTP happens outside; the envelope contents and the
//! status-code mapping are decided here.

use vstd::prelude::*;

verus! {

/// Standard API response envelope.
pub struct ApiResponse<T> {
    pub success: bool,
    pub data: Option<T>,
    pub error: Option<String>,
}

impl<T> ApiResponse<T> {
    /// A successful response carrying data.
    pub fn success(data: T) -> (r: Self)
        ensures
            r.success == true,
            r.data == Some(data),
            r.error is None,
    {
        ApiResponse { success: true, data: Some(data), error: None }
    }

    /// A failed response carrying an error message.
    pub fn error(error: String) -> (r: Self)
        ensures
            r.success == false,
            r.data is None,
            r.error == Some(error),
    {
        ApiResponse { success: false, data: None, error: Some(error) }
    }
}

/// Errors an API handler can answer with.
#[derive(Debug)]
pub enum AppError {
    /// The addressed resource does not exist
    NotFound(String),
    /// The request was malformed
    BadRequest(String),
    /// An internal failure, by its message
    Internal(String),
}

impl AppError {
    /// The HTTP status code each error maps to.
    pub fn status_code(&self) -> (r: u16)
        ensures
            self is NotFound ==> r == 404,
            self is BadRequest ==> r == 400,
            self is Internal ==> r == 500,
    {
        match self {
            AppError::NotFound(_) => 404,
            AppError::BadRequest(_) => 400,
            AppError::Internal(_) => 500,
        }
    }

    /// The message a response body carries: the error's own message,
    /// except that internal failures are not echoed to clients.
    pub fn response_message(&self) -> (r: String)
        ensures
            self matches AppError::NotFound(m) ==> r == m,
            self matches AppError::BadRequest(m) ==> r == m,
            self is Internal ==> r@ == "Internal server error"@,
    {
        match self {
            AppError::NotFound(m) => m.clone(),
            AppError::BadRequest(m) => m.clone(),
            AppError::Internal(_) => "Internal server error".to_owned(),
        }
    }
}

} // verus!
