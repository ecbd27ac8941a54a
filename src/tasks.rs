//! The decisions of a worker's consume loop, one received event at a time.

use vstd::prelude::*;

verus! {

/// What one receive on a worker's channel gave.
#[derive(Clone, Copy, Debug, PartialEq, Eq, Structural)]
pub enum ReceiveEvent {
    /// A capture target arrived.
    Received,
    /// Every sender is gone and the channel is empty.
    Closed,
    /// The receive failed for a passing reason.
    TransientError,
}

/// What the loop does next.
#[derive(Clone, Copy, Debug, PartialEq, Eq, Structural)]
pub enum LoopAction {
    /// Perform the capture of the target that arrived, then receive again.
    Capture,
    /// Note the failure and receive again.
    Retry,
    /// Leave the loop.
    Stop,
}

/// The loop's next step after `event`: a closed channel ends it, and nothing
/// else does.
pub fn worker_step(event: ReceiveEvent) -> (r: LoopAction)
    ensures
        r == LoopAction::Stop <==> event == ReceiveEvent::Closed,
        r == LoopAction::Capture <==> event == ReceiveEvent::Received,
{
    match event {
        ReceiveEvent::Received => LoopAction::Capture,
        ReceiveEvent::Closed => LoopAction::Stop,
        ReceiveEvent::TransientError => LoopAction::Retry,
    }
}

} // verus!
