use vstd::prelude::*;
use vstd::string::*;

verus! {

/// The failures that the service reports to its clients.
#[derive(Debug, Clone, PartialEq, Eq)]
pub enum ApiError {
    InvalidIdentifier,
    QuestionNotFound,
    AnswerNotFound,
    BadQueryParameter,
    InvalidCredentials,
    /// A cross-origin request that the policy forbids, with the policy's message.
    CorsRejected(String),
    RouteNotFound,
}

/// A status code with the message sent back to the client.
#[derive(Debug, Clone)]
pub struct ErrorReply {
    pub status: u16,
    pub message: String,
}

/// The status code of the reply for a failure; `None` stands for a failure
/// that the service does not recognise.
pub open spec fn reply_status(e: Option<ApiError>) -> u16 {
    match e {
        Some(ApiError::InvalidIdentifier) => 422,
        Some(ApiError::QuestionNotFound) => 404,
        Some(ApiError::AnswerNotFound) => 404,
        Some(ApiError::BadQueryParameter) => 422,
        Some(ApiError::InvalidCredentials) => 401,
        Some(ApiError::CorsRejected(_)) => 403,
        Some(ApiError::RouteNotFound) => 404,
        None => 404,
    }
}

/// The message of the reply for a failure.
pub open spec fn reply_message(e: Option<ApiError>) -> Seq<char> {
    match e {
        Some(ApiError::InvalidIdentifier) => "no valid id"@,
        Some(ApiError::QuestionNotFound) => "Question not found"@,
        Some(ApiError::AnswerNotFound) => "Answer not found"@,
        Some(ApiError::BadQueryParameter) => "bad query parameter"@,
        Some(ApiError::InvalidCredentials) => "invalid credentials"@,
        Some(ApiError::CorsRejected(m)) => m@,
        Some(ApiError::RouteNotFound) => "route not found"@,
        None => "route not found"@,
    }
}

/// Turns a failure into the reply sent to the client. Anything that is not
/// one of the service's own failures becomes a generic "not found".
pub fn return_error(found: &Option<ApiError>) -> (r: ErrorReply)
    ensures
        r.status == reply_status(*found),
        r.message@ == reply_message(*found),
{
    match found {
        Some(ApiError::InvalidIdentifier) => ErrorReply {
            status: 422,
            message: String::from_str("no valid id"),
        },
        Some(ApiError::QuestionNotFound) => ErrorReply {
            status: 404,
            message: String::from_str("Question not found"),
        },
        Some(ApiError::AnswerNotFound) => ErrorReply {
            status: 404,
            message: String::from_str("Answer not found"),
        },
        Some(ApiError::BadQueryParameter) => ErrorReply {
            status: 422,
            message: String::from_str("bad query parameter"),
        },
        Some(ApiError::InvalidCredentials) => ErrorReply {
            status: 401,
            message: String::from_str("invalid credentials"),
        },
        Some(ApiError::CorsRejected(m)) => ErrorReply { status: 403, message: m.clone() },
        Some(ApiError::RouteNotFound) => ErrorReply {
            status: 404,
            message: String::from_str("route not found"),
        },
        None => ErrorReply { status: 404, message: String::from_str("route not found") },
    }
}

} // verus!
