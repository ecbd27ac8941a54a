//! Reply bodies of the web endpoints.

use vstd::prelude::*;

use crate::batch::JobProgress;

verus! {

/// The reply to a registration.
#[derive(Clone, Copy, Debug, PartialEq, Eq, Structural)]
pub enum CreateUserResp {
    Success,
    UnavailableUsername,
    InvalidUsername,
    InvalidPassword,
    UnexpectedError,
}

pub struct CreateCaptureResp {
    pub uuid: String,
}

/// The reply to a progress query.
#[derive(Clone, Copy, Debug, PartialEq, Eq, Structural)]
pub enum MonitorCaptureResp {
    NoSuchCapture,
    Capturing { progress: JobProgress },
}

/// The reply for the progress `status` of a batch, `None` when there is no
/// such batch.
pub fn monitor_response(status: Option<JobProgress>) -> (r: MonitorCaptureResp)
    ensures
        r == (match status {
            Some(progress) => MonitorCaptureResp::Capturing { progress },
            None => MonitorCaptureResp::NoSuchCapture,
        }),
{
    match status {
        Some(progress) => MonitorCaptureResp::Capturing { progress },
        None => MonitorCaptureResp::NoSuchCapture,
    }
}

} // verus!
