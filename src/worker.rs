//! The worker registry and the selector that picks a worker for each capture.

use vstd::prelude::*;

use crate::config::WorkerSpec;

verus! {

/// Why a capture could not be dispatched.
#[derive(Clone, Copy, Debug, PartialEq, Eq, Structural)]
pub enum DispatchError {
    /// No worker is configured.
    NoWorkers,
    /// The chosen worker's channel is closed.
    WorkerClosed,
    /// A freshly drawn identity is already in use.
    DuplicateId,
}

/// How the selector picks a worker.
#[derive(Clone, Copy, Debug, PartialEq, Eq, Structural)]
pub enum SelectionPolicy {
    /// The worker with the shortest backlog, the first such on a tie.
    LeastLoaded,
    /// Always the first worker: a fixed baseline that ignores load.
    First,
}

/// Whether `i` is the first index of a least element of `backlogs`.
pub open spec fn is_least_loaded(backlogs: Seq<usize>, i: int) -> bool {
    &&& 0 <= i < backlogs.len()
    &&& forall|j: int| 0 <= j < backlogs.len() ==> backlogs[i] <= backlogs[j]
    &&& forall|j: int| 0 <= j < i ==> backlogs[j] > backlogs[i]
}

/// The index of the first least backlog, or `None` when there is none.
pub fn least_loaded(backlogs: &Vec<usize>) -> (r: Option<usize>)
    ensures
        r is None <==> backlogs@.len() == 0,
        r matches Some(i) ==> is_least_loaded(backlogs@, i as int),
{
    if backlogs.len() == 0 {
        return None;
    }
    let mut best: usize = 0;
    let mut i: usize = 1;
    while i < backlogs.len()
        invariant
            1 <= i <= backlogs@.len(),
            is_least_loaded(backlogs@.subrange(0, i as int), best as int),
        decreases backlogs.len() - i,
    {
        if backlogs[i] < backlogs[best] {
            best = i;
        }
        i += 1;
    }
    assert(backlogs@.subrange(0, i as int) =~= backlogs@);
    Some(best)
}

/// A capture worker, reached through the sending side of its channel. The
/// worker keeps, as ghost state, the log of every target its channel accepted.
pub struct Worker {
    sender: async_channel::Sender<url::Url>,
    sent: Ghost<Seq<url::Url>>,
}

impl Worker {
    /// The channel this worker sends on.
    pub closed spec fn sender_of(&self) -> async_channel::Sender<url::Url> {
        self.sender
    }

    /// Every target this worker's channel accepted, oldest first.
    pub closed spec fn sent_log(&self) -> Seq<url::Url> {
        self.sent@
    }

    /// A worker sending on the channel of `pair`, with nothing sent yet.
    pub fn from_pair(pair: (WorkerSpec, async_channel::Sender<url::Url>)) -> (r: Self)
        ensures
            r.sender_of() == pair.1,
            r.sent_log() == Seq::<url::Url>::empty(),
    {
        let (_spec, sender) = pair;
        Worker { sender, sent: Ghost(Seq::empty()) }
    }

    /// The number of captures queued for this worker right now; receivers
    /// drain the channel concurrently, so the value is a snapshot.
    pub fn backlog(&self) -> (r: usize) {
        self.sender.len()
    }

    /// Queues `target` for this worker without waiting. Returns whether the
    /// channel accepted it; an unbounded channel refuses only once closed.
    pub fn initiate(&mut self, target: url::Url) -> (r: bool)
        ensures
            final(self).sender_of() == old(self).sender_of(),
            r ==> final(self).sent_log() == old(self).sent_log().push(target),
            !r ==> final(self).sent_log() == old(self).sent_log(),
    {
        let ghost t = target;
        let accepted = self.sender.try_send(target).is_ok();
        if accepted {
            self.sent = Ghost(self.sent@.push(t));
        }
        accepted
    }
}

/// The fixed set of workers and the policy that picks among them.
pub struct WorkerSelector {
    workers: Vec<Worker>,
    policy: SelectionPolicy,
}

impl WorkerSelector {
    /// The channel of each worker, in worker order.
    pub closed spec fn senders(&self) -> Seq<async_channel::Sender<url::Url>> {
        self.workers@.map_values(|w: Worker| w.sender_of())
    }

    /// The log of accepted targets of each worker, in worker order.
    pub closed spec fn logs(&self) -> Seq<Seq<url::Url>> {
        self.workers@.map_values(|w: Worker| w.sent_log())
    }

    /// The number of workers.
    pub open spec fn worker_count(&self) -> nat {
        self.senders().len()
    }

    /// The policy in force.
    pub closed spec fn policy_of(&self) -> SelectionPolicy {
        self.policy
    }

    /// There is one log per worker.
    pub proof fn lemma_logs_len(&self)
        ensures
            self.logs().len() == self.worker_count(),
    {
    }

    /// A selector over the workers of `pairs`, in order, under `policy`.
    pub fn with_policy(
        pairs: Vec<(WorkerSpec, async_channel::Sender<url::Url>)>,
        policy: SelectionPolicy,
    ) -> (r: Self)
        ensures
            r.senders() == pairs@.map_values(
                |p: (WorkerSpec, async_channel::Sender<url::Url>)| p.1,
            ),
            r.logs() == Seq::new(pairs@.len(), |i: int| Seq::<url::Url>::empty()),
            r.policy_of() == policy,
    {
        let mut workers: Vec<Worker> = Vec::new();
        let mut rest = pairs;
        while rest.len() > 0
            invariant
                workers@.len() + rest@.len() == pairs@.len(),
                rest@ == pairs@.skip(workers@.len() as int),
                forall|i: int|
                    0 <= i < workers@.len() ==> (#[trigger] workers@[i]).sender_of() == pairs@[i].1
                        && workers@[i].sent_log() == Seq::<url::Url>::empty(),
            decreases rest.len(),
        {
            let ghost k = workers@.len();
            let pair = rest.remove(0);
            assert(pair == pairs@[k as int]);
            workers.push(Worker::from_pair(pair));
            assert(rest@ =~= pairs@.skip(workers@.len() as int));
        }
        let r = WorkerSelector { workers, policy };
        assert(r.senders() =~= pairs@.map_values(
            |p: (WorkerSpec, async_channel::Sender<url::Url>)| p.1,
        ));
        assert(r.logs() =~= Seq::new(pairs@.len(), |i: int| Seq::<url::Url>::empty()));
        r
    }

    /// A selector over the workers of `pairs`, in order, that picks the
    /// least loaded.
    pub fn from_pairs(pairs: Vec<(WorkerSpec, async_channel::Sender<url::Url>)>) -> (r: Self)
        ensures
            r.senders() == pairs@.map_values(
                |p: (WorkerSpec, async_channel::Sender<url::Url>)| p.1,
            ),
            r.logs() == Seq::new(pairs@.len(), |i: int| Seq::<url::Url>::empty()),
            r.policy_of() == SelectionPolicy::LeastLoaded,
    {
        Self::with_policy(pairs, SelectionPolicy::LeastLoaded)
    }

    pub fn len(&self) -> (r: usize)
        ensures
            r == self.worker_count(),
    {
        self.workers.len()
    }

    /// Worker `i`.
    pub fn worker(&self, i: usize) -> (r: &Worker)
        requires
            i < self.worker_count(),
        ensures
            r.sender_of() == self.senders()[i as int],
            r.sent_log() == self.logs()[i as int],
    {
        &self.workers[i]
    }

    /// Offers `target` to worker `i`; returns whether its channel accepted
    /// it. Only that worker's log can change.
    pub fn initiate_on(&mut self, i: usize, target: url::Url) -> (r: bool)
        requires
            i < old(self).worker_count(),
        ensures
            final(self).senders() == old(self).senders(),
            final(self).policy_of() == old(self).policy_of(),
            r ==> final(self).logs() == old(self).logs().update(
                i as int,
                old(self).logs()[i as int].push(target),
            ),
            !r ==> final(self).logs() == old(self).logs(),
    {
        let mut w = self.workers.remove(i);
        let r = w.initiate(target);
        self.workers.insert(i, w);
        assert(self.senders() =~= old(self).senders());
        if r {
            assert(self.logs() =~= old(self).logs().update(
                i as int,
                old(self).logs()[i as int].push(target),
            ));
        } else {
            assert(self.logs() =~= old(self).logs());
        }
        r
    }

    /// A snapshot of every worker's backlog, in worker order.
    pub fn backlogs(&self) -> (r: Vec<usize>)
        ensures
            r@.len() == self.worker_count(),
    {
        let mut r: Vec<usize> = Vec::new();
        let mut i: usize = 0;
        while i < self.workers.len()
            invariant
                i <= self.workers@.len(),
                r@.len() == i,
            decreases self.workers.len() - i,
        {
            r.push(self.workers[i].backlog());
            i += 1;
        }
        r
    }

    /// The worker with the least backlog in one snapshot of all backlogs,
    /// the first such on a tie, returned with that snapshot.
    pub fn least_busy_with_snapshot(&self) -> (r: Result<(usize, Vec<usize>), DispatchError>)
        ensures
            r is Err <==> self.worker_count() == 0,
            r matches Err(e) ==> e == DispatchError::NoWorkers,
            r matches Ok((i, s)) ==> s@.len() == self.worker_count() && is_least_loaded(
                s@,
                i as int,
            ),
    {
        let snapshot = self.backlogs();
        match least_loaded(&snapshot) {
            Some(i) => Ok((i, snapshot)),
            None => Err(DispatchError::NoWorkers),
        }
    }

    /// The worker with the least backlog in one snapshot of all backlogs,
    /// the first such on a tie. Backlogs change concurrently, so of the
    /// index itself only its range is known here.
    pub fn least_busy(&self) -> (r: Result<usize, DispatchError>)
        ensures
            r is Err <==> self.worker_count() == 0,
            r matches Err(e) ==> e == DispatchError::NoWorkers,
            r matches Ok(i) ==> i < self.worker_count(),
    {
        match self.least_busy_with_snapshot() {
            Ok((i, _)) => Ok(i),
            Err(e) => Err(e),
        }
    }

    /// The worker for the next capture, under the selector's policy.
    pub fn select_worker(&self) -> (r: Result<usize, DispatchError>)
        ensures
            r is Err <==> self.worker_count() == 0,
            r matches Err(e) ==> e == DispatchError::NoWorkers,
            r matches Ok(i) ==> i < self.worker_count(),
            r matches Ok(i) ==> self.policy_of() == SelectionPolicy::First ==> i == 0,
    {
        match self.policy {
            SelectionPolicy::LeastLoaded => self.least_busy(),
            SelectionPolicy::First => {
                if self.workers.len() == 0 {
                    Err(DispatchError::NoWorkers)
                } else {
                    Ok(0)
                }
            },
        }
    }
}

} // verus!
