//! Request and response shapes of the HTTP API, and the service error.
use vstd::prelude::*;

use crate::text::to_string;

verus! {

/// The envelope of every JSON answer: a code, a message and maybe data.
pub struct ApiResponse<T> {
    pub code: i32,
    pub message: String,
    pub data: Option<T>,
}

impl<T> ApiResponse<T> {
    /// Code 200, message `success`, with data.
    pub fn success(data: T) -> (r: Self)
        ensures
            r.code == 200,
            r.message@ == "success"@,
            r.data == Some(data),
    {
        ApiResponse { code: 200, message: to_string("success"), data: Some(data) }
    }

    /// Code 200 with a message and no data.
    pub fn success_message(message: &str) -> (r: Self)
        ensures
            r.code == 200,
            r.message@ == message@,
            r.data is None,
    {
        ApiResponse { code: 200, message: to_string(message), data: None }
    }

    /// An error code with a message and no data.
    pub fn error(code: i32, message: &str) -> (r: Self)
        ensures
            r.code == code,
            r.message@ == message@,
            r.data is None,
    {
        ApiResponse { code, message: to_string(message), data: None }
    }
}

pub struct HealthResponse {
    pub status: &'static str,
}

pub struct ReadinessResponse {
    pub status: &'static str,
}

pub struct ApiErrorResponse {
    pub code: i32,
    pub message: String,
    pub request_id: Option<String>,
}

/// A chat question as clients send it.
pub struct ChatRequest {
    pub id: Option<String>,
    pub question: Option<String>,
}

/// A request to clear a session's history.
pub struct ClearRequest {
    pub id: Option<String>,
}

/// A request to analyse an alert.
pub struct AiOpsRequest {
    pub alert_context: Option<String>,
    pub alert_id: Option<String>,
}

impl Default for AiOpsRequest {
    fn default() -> (r: Self)
        ensures
            r.alert_context is None,
            r.alert_id is None,
    {
        AiOpsRequest { alert_context: None, alert_id: None }
    }
}

/// The answer to a chat question, or why there is none.
pub struct ChatResponse {
    pub success: bool,
    pub answer: Option<String>,
    pub error_message: Option<String>,
}

impl ChatResponse {
    pub fn success(answer: &str) -> (r: Self)
        ensures
            r.success,
            r.answer is Some && r.answer->0@ == answer@,
            r.error_message is None,
    {
        ChatResponse { success: true, answer: Some(to_string(answer)), error_message: None }
    }

    pub fn error(message: &str) -> (r: Self)
        ensures
            !r.success,
            r.answer is None,
            r.error_message is Some && r.error_message->0@ == message@,
    {
        ChatResponse { success: false, answer: None, error_message: Some(to_string(message)) }
    }
}

/// One event of a chat stream: a piece of content, an error, or the end.
pub struct SseMessage {
    pub message_type: &'static str,
    pub data: Option<String>,
}

impl SseMessage {
    pub fn content(data: &str) -> (r: Self)
        ensures
            r.message_type@ == "content"@,
            r.data is Some && r.data->0@ == data@,
    {
        SseMessage { message_type: "content", data: Some(to_string(data)) }
    }

    pub fn error(message: &str) -> (r: Self)
        ensures
            r.message_type@ == "error"@,
            r.data is Some && r.data->0@ == message@,
    {
        SseMessage { message_type: "error", data: Some(to_string(message)) }
    }

    pub fn done() -> (r: Self)
        ensures
            r.message_type@ == "done"@,
            r.data is None,
    {
        SseMessage { message_type: "done", data: None }
    }
}

/// A failed request: the caller's fault or the service's.
#[derive(Debug)]
pub enum AppError {
    BadRequest(String),
    Internal(String),
}

impl AppError {
    pub fn bad_request(message: &str) -> (r: Self)
        ensures
            r matches AppError::BadRequest(m) && m@ == message@,
    {
        AppError::BadRequest(to_string(message))
    }

    pub fn internal(message: &str) -> (r: Self)
        ensures
            r matches AppError::Internal(m) && m@ == message@,
    {
        AppError::Internal(to_string(message))
    }

    /// The message the error carries.
    pub fn message(&self) -> (r: &str)
        ensures
            match self {
                AppError::BadRequest(m) => r@ == m@,
                AppError::Internal(m) => r@ == m@,
            },
    {
        match self {
            AppError::BadRequest(m) => m.as_str(),
            AppError::Internal(m) => m.as_str(),
        }
    }

    /// The HTTP status and the code of the error body: 400 for the caller's
    /// fault, 500 for the service's.
    pub fn status_code(&self) -> (r: u16)
        ensures
            r == match self {
                AppError::BadRequest(_) => 400u16,
                AppError::Internal(_) => 500u16,
            },
    {
        match self {
            AppError::BadRequest(_) => 400,
            AppError::Internal(_) => 500,
        }
    }

    /// The body sent for the error.
    pub fn to_error_response(&self) -> (r: ApiErrorResponse)
        ensures
            r.code == match self {
                AppError::BadRequest(_) => 400i32,
                AppError::Internal(_) => 500i32,
            },
            r.message@ == match self {
                AppError::BadRequest(m) => m@,
                AppError::Internal(m) => m@,
            },
            r.request_id is None,
    {
        ApiErrorResponse {
            code: self.status_code() as i32,
            message: to_string(self.message()),
            request_id: None,
        }
    }
}

} // verus!
