//! What a request is answered when it fails.

use vstd::prelude::*;

verus! {

/// The kind of a failure.
#[derive(Clone, Copy, Debug, PartialEq, Eq, Structural)]
pub enum ErrorCode {
    BadRequest,
    Forbidden,
    Internal,
    InvalidDisplayName,
    DisplayNameTaken,
    InvalidChallenge,
    InviteNotFound,
    InviteInvalid,
    InviteExhausted,
    InviteExpired,
    InviteMaxUsesInvalid,
    InviteExpiryInvalid,
    InvalidPostBody,
    PostNotFound,
    NotPostAuthor,
    PostRetracted,
    PostAlreadyRetracted,
}

/// A failure: its kind and, where its kind does not say enough, a message.
#[derive(Clone, Copy, Debug)]
pub struct AppError {
    pub code: ErrorCode,
    pub message: Option<&'static str>,
}

/// What a failure holds.
pub struct Failure {
    pub code: ErrorCode,
    pub message: Option<Seq<char>>,
}

/// A failure of a kind, without a message.
pub open spec fn failure(code: ErrorCode) -> Failure {
    Failure { code, message: None }
}

/// A failure of a kind, with a message.
pub open spec fn told(code: ErrorCode, message: Seq<char>) -> Failure {
    Failure { code, message: Some(message) }
}

impl AppError {
    /// The failure.
    pub open spec fn view(&self) -> Failure {
        Failure {
            code: self.code,
            message: match self.message {
                Some(m) => Some(m@),
                None => None,
            },
        }
    }

    /// A failure of a kind, without a message.
    pub fn code(code: ErrorCode) -> (error: AppError)
        ensures
            error@ == failure(code),
    {
        AppError { code, message: None }
    }

    /// A failure of a kind, with a message.
    pub fn with_message(code: ErrorCode, message: &'static str) -> (error: AppError)
        ensures
            error@ == told(code, message@),
    {
        AppError { code, message: Some(message) }
    }
}

} // verus!
