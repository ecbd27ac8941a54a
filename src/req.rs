//! Request bodies of the web endpoints.

use vstd::prelude::*;

verus! {

pub struct CreateUserReq {
    pub name: String,
    pub password: String,
}

pub struct CreateCaptureReq {
    pub url: url::Url,
}

pub struct MonitorCaptureReq {
    pub uuid: String,
}

} // verus!
