//! Requests and replies of the user and batch endpoints.

use vstd::prelude::*;

verus! {

pub struct CreateUserReq {
    pub name: String,
    pub password: String,
}

/// The reply to a registration.
#[derive(Clone, Copy, Debug, PartialEq, Eq, Structural)]
pub enum CreateUserResp {
    Success,
    UnavailableUsername,
    InvalidUsername,
    InvalidPassword,
    UnexpectedError,
}

pub struct CreateSessionReq {
    pub name: String,
    pub password: String,
}

/// The reply to a login.
#[derive(Clone, Copy, Debug, PartialEq, Eq, Structural)]
pub enum CreateSessionResp {
    Success,
    InvalidCredentials,
    UnexpectedError,
}

/// The reply to a request to end all of a user's sessions.
#[derive(Clone, Copy, Debug, PartialEq, Eq, Structural)]
pub enum DeleteSessionResp {
    Success,
    InvalidCredentials,
    UnexpectedError,
}

pub struct CreateBatchReq {
    pub urls: Vec<url::Url>,
}

/// The reply to a batch request; a batch is named by its UUID as a number.
#[derive(Clone, Copy, Debug, PartialEq, Eq, Structural)]
pub enum CreateBatchResp {
    Success { batch_uuid: u128 },
    InvalidCredentials,
    NoUrls,
    UnexpectedError,
}

} // verus!
