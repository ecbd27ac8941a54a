//! The capture coordinator: dispatches one URL to a worker and tracks the
//! capture's status.

use std::collections::HashMap;
use vstd::prelude::*;

use crate::bindings::new_uuid;
use crate::config::WorkerSpec;
use crate::worker::{DispatchError, SelectionPolicy, WorkerSelector};

verus! {

broadcast use vstd::std_specs::hash::group_hash_axioms;

/// Where a capture stands.
#[derive(Clone, Copy, Debug, PartialEq, Eq, Structural)]
pub enum CaptureState {
    Pending,
    Complete,
    Failed,
}

/// What a worker reports of a capture.
#[derive(Clone, Copy, Debug, PartialEq, Eq, Structural)]
pub enum Outcome {
    Success,
    Failure,
}

/// The state that a pending capture moves to on `outcome`.
pub open spec fn resolved_state(outcome: Outcome) -> CaptureState {
    match outcome {
        Outcome::Success => CaptureState::Complete,
        Outcome::Failure => CaptureState::Failed,
    }
}

/// The record of one capture.
#[derive(Clone, Copy, Debug, PartialEq, Eq, Structural)]
pub struct CaptureStatus {
    /// The index of the worker it was sent to.
    pub worker: usize,
    /// The user that asked for it.
    pub owner: i32,
    /// The batch it belongs to, if any.
    pub source_batch: Option<u128>,
    pub state: CaptureState,
}

/// The records after a report of `outcome` for capture `id`: a pending
/// capture resolves, anything else stays as it is.
pub open spec fn after_report(m: Map<u128, CaptureStatus>, id: u128, outcome: Outcome) -> Map<
    u128,
    CaptureStatus,
> {
    if m.contains_key(id) && m[id].state == CaptureState::Pending {
        m.insert(id, CaptureStatus { state: resolved_state(outcome), ..m[id] })
    } else {
        m
    }
}

/// A report, once landed, is final: a second report on the same capture,
/// with the same outcome or another, changes nothing.
pub proof fn lemma_report_idempotent(
    m: Map<u128, CaptureStatus>,
    id: u128,
    first: Outcome,
    second: Outcome,
)
    ensures
        after_report(after_report(m, id, first), id, second) == after_report(m, id, first),
        m.contains_key(id) ==> after_report(m, id, first)[id].state == (if m[id].state
            == CaptureState::Pending {
            resolved_state(first)
        } else {
            m[id].state
        }),
{
}

/// `next` is `prev` after capture `id` of `target` was sent to one worker and
/// recorded there as pending: `id` was fresh, the chosen worker's log grew by
/// `target` and no other log changed.
pub open spec fn dispatched_one(
    prev: &CaptureManager,
    next: &CaptureManager,
    id: u128,
    target: url::Url,
    owner: i32,
    batch: Option<u128>,
) -> bool {
    let w = next@[id].worker;
    &&& !prev@.contains_key(id)
    &&& next@ == prev@.insert(
        id,
        (CaptureStatus { worker: w, owner, source_batch: batch, state: CaptureState::Pending }),
    )
    &&& w < prev.worker_count()
    &&& prev.selector().policy_of() == SelectionPolicy::First ==> w == 0
    &&& next.logs() == prev.logs().update(w as int, prev.logs()[w as int].push(target))
}

/// Dispatches captures to workers and keeps the record of each capture.
pub struct CaptureManager {
    map: HashMap<u128, CaptureStatus>,
    worker_selector: WorkerSelector,
}

impl View for CaptureManager {
    type V = Map<u128, CaptureStatus>;

    closed spec fn view(&self) -> Map<u128, CaptureStatus> {
        self.map@
    }
}

impl CaptureManager {
    pub closed spec fn selector(&self) -> WorkerSelector {
        self.worker_selector
    }

    /// The targets each worker's channel accepted, in worker order.
    pub open spec fn logs(&self) -> Seq<Seq<url::Url>> {
        self.selector().logs()
    }

    /// The number of workers.
    pub open spec fn worker_count(&self) -> nat {
        self.selector().worker_count()
    }

    /// Whether `next` has the same workers, channels and policy as `self`.
    pub open spec fn same_workers(&self, next: &CaptureManager) -> bool {
        &&& next.selector().senders() == self.selector().senders()
        &&& next.selector().policy_of() == self.selector().policy_of()
    }

    /// A coordinator with no captures, over the workers of `selector`.
    pub fn new(selector: WorkerSelector) -> (r: Self)
        ensures
            r@ == Map::<u128, CaptureStatus>::empty(),
            r.selector() == selector,
    {
        CaptureManager { map: HashMap::new(), worker_selector: selector }
    }

    /// A coordinator with no captures, over the workers of `pairs`, that
    /// picks the least loaded.
    pub fn from_pairs(pairs: Vec<(WorkerSpec, async_channel::Sender<url::Url>)>) -> (r: Self)
        ensures
            r@ == Map::<u128, CaptureStatus>::empty(),
            r.selector().senders() == pairs@.map_values(
                |p: (WorkerSpec, async_channel::Sender<url::Url>)| p.1,
            ),
            r.logs() == Seq::new(pairs@.len(), |i: int| Seq::<url::Url>::empty()),
            r.selector().policy_of() == SelectionPolicy::LeastLoaded,
    {
        Self::new(WorkerSelector::from_pairs(pairs))
    }

    /// Records a capture with identity `id`, sent to `worker`, as pending.
    pub fn record_dispatch(&mut self, id: u128, worker: usize, owner: i32, batch: Option<u128>)
        ensures
            final(self)@ == old(self)@.insert(
                id,
                CaptureStatus { worker, owner, source_batch: batch, state: CaptureState::Pending },
            ),
            final(self).selector() == old(self).selector(),
    {
        self.map.insert(
            id,
            CaptureStatus { worker, owner, source_batch: batch, state: CaptureState::Pending },
        );
    }

    /// Dispatches `target` as a capture with identity `id`: fails with
    /// `NoWorkers` when there is no worker and with `DuplicateId` when `id` is
    /// taken; otherwise offers `target` to the worker that the selector picks,
    /// and records the capture as pending there if its channel accepts it, or
    /// fails with `WorkerClosed` if it refuses.
    pub fn dispatch_as(
        &mut self,
        id: u128,
        target: url::Url,
        owner: i32,
        batch: Option<u128>,
    ) -> (r: Result<u128, DispatchError>)
        ensures
            old(self).same_workers(final(self)),
            old(self).worker_count() == 0 ==> r == Err::<u128, DispatchError>(
                DispatchError::NoWorkers,
            ),
            old(self).worker_count() > 0 && old(self)@.contains_key(id) ==> r == Err::<
                u128,
                DispatchError,
            >(DispatchError::DuplicateId),
            old(self).worker_count() > 0 && !old(self)@.contains_key(id) ==> (r == Ok::<
                u128,
                DispatchError,
            >(id) || r == Err::<u128, DispatchError>(DispatchError::WorkerClosed)),
            r is Err ==> final(self)@ == old(self)@ && final(self).logs() == old(self).logs(),
            r matches Ok(j) ==> j == id && dispatched_one(old(self), final(self), id, target, owner, batch),
    {
        let w = match self.worker_selector.select_worker() {
            Ok(w) => w,
            Err(e) => {
                return Err(e);
            },
        };
        if self.map.contains_key(&id) {
            return Err(DispatchError::DuplicateId);
        }
        let ghost t = target;
        if !self.worker_selector.initiate_on(w, target) {
            return Err(DispatchError::WorkerClosed);
        }
        self.record_dispatch(id, w, owner, batch);
        assert(self.logs() == old(self).logs().update(w as int, old(self).logs()[w as int].push(t)));
        Ok(id)
    }

    /// Sends `target` to the worker that the selector picks under a freshly
    /// drawn identity, as `dispatch_as` does, and returns the identity.
    pub fn process_capture(&mut self, target: url::Url, owner: i32, batch: Option<u128>) -> (r: Result<
        u128,
        DispatchError,
    >)
        ensures
            old(self).same_workers(final(self)),
            r == Err::<u128, DispatchError>(DispatchError::NoWorkers) <==> old(self).worker_count()
                == 0,
            r is Err ==> final(self)@ == old(self)@ && final(self).logs() == old(self).logs(),
            r matches Ok(id) ==> dispatched_one(old(self), final(self), id, target, owner, batch),
    {
        let id = new_uuid();
        self.dispatch_as(id, target, owner, batch)
    }

    /// Applies a worker's report on capture `id`. Returns whether the capture
    /// was pending and so changed; a late or repeated report is ignored.
    pub fn report_result(&mut self, id: u128, outcome: Outcome) -> (r: bool)
        ensures
            final(self)@ == after_report(old(self)@, id, outcome),
            final(self).selector() == old(self).selector(),
            r == (old(self)@.contains_key(id) && old(self)@[id].state == CaptureState::Pending),
    {
        match self.map.get(&id) {
            Some(status) => {
                let status = *status;
                match status.state {
                    CaptureState::Pending => {
                        let state = match outcome {
                            Outcome::Success => CaptureState::Complete,
                            Outcome::Failure => CaptureState::Failed,
                        };
                        self.map.insert(id, CaptureStatus { state, ..status });
                        true
                    },
                    _ => false,
                }
            },
            None => false,
        }
    }

    /// The record of capture `id`, if there is one.
    pub fn get_record(&self, id: u128) -> (r: Option<CaptureStatus>)
        ensures
            r == (if self@.contains_key(id) {
                Some(self@[id])
            } else {
                None
            }),
    {
        match self.map.get(&id) {
            Some(s) => Some(*s),
            None => None,
        }
    }

    /// The state of capture `id`, or `None` when there is no such capture.
    pub fn get_status(&self, id: u128) -> (r: Option<CaptureState>)
        ensures
            r == (if self@.contains_key(id) {
                Some(self@[id].state)
            } else {
                None
            }),
    {
        match self.get_record(id) {
            Some(s) => Some(s.state),
            None => None,
        }
    }

    /// The workers that captures are sent to.
    pub fn workers(&self) -> (r: &WorkerSelector)
        ensures
            *r == self.selector(),
    {
        &self.worker_selector
    }
}

} // verus!
