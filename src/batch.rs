//! The batch coordinator: dispatches a set of URLs as one batch and tracks
//! how many of its captures have resolved.

use std::collections::HashMap;
use vstd::prelude::*;

use crate::bindings::new_uuid;
use crate::capture::{
    after_report, dispatched_one, CaptureManager, CaptureState, CaptureStatus, Outcome,
    lemma_report_idempotent,
};
use crate::worker::DispatchError;

verus! {

broadcast use vstd::std_specs::hash::group_hash_axioms;

/// A batch as a value: every capture of it in dispatch order, those that
/// completed and those that failed, each in order of resolution, and its owner.
pub ghost struct BatchView {
    pub all: Seq<u128>,
    pub complete: Seq<u128>,
    pub failed: Seq<u128>,
    pub owner: i32,
}

/// A batch is consistent when each resolved capture is one of its own and
/// resolved once: in `complete` or in `failed`, never twice.
pub open spec fn batch_wf(b: BatchView) -> bool {
    &&& (b.complete + b.failed).no_duplicates()
    &&& forall|k: int| 0 <= k < b.complete.len() ==> b.all.contains(#[trigger] b.complete[k])
    &&& forall|k: int| 0 <= k < b.failed.len() ==> b.all.contains(#[trigger] b.failed[k])
}

/// Counts of a batch's captures.
#[derive(Clone, Copy, Debug, PartialEq, Eq, Structural)]
pub struct JobProgress {
    pub total: usize,
    pub complete_count: usize,
    pub failed_count: usize,
    pub pending_count: usize,
}

/// The counts of a consistent batch; a capture is pending until resolved.
pub open spec fn progress_of(b: BatchView) -> JobProgress {
    JobProgress {
        total: b.all.len() as usize,
        complete_count: b.complete.len() as usize,
        failed_count: b.failed.len() as usize,
        pending_count: (b.all.len() - b.complete.len() - b.failed.len()) as usize,
    }
}

/// The batch after capture `id` resolved with `outcome`, where it is one of
/// the batch's captures and not resolved yet.
pub open spec fn batch_after(b: BatchView, id: u128, outcome: Outcome) -> BatchView {
    if b.all.contains(id) && !b.complete.contains(id) && !b.failed.contains(id) {
        match outcome {
            Outcome::Success => BatchView { complete: b.complete.push(id), ..b },
            Outcome::Failure => BatchView { failed: b.failed.push(id), ..b },
        }
    } else {
        b
    }
}

/// A consistent batch resolves no more captures than it has.
pub proof fn lemma_resolved_within_total(b: BatchView)
    requires
        batch_wf(b),
    ensures
        b.complete.len() + b.failed.len() <= b.all.len(),
{
    let r = b.complete + b.failed;
    r.unique_seq_to_set();
    b.all.lemma_cardinality_of_set();
    assert forall|x: u128| r.to_set().contains(x) implies b.all.to_set().contains(x) by {
        let k = choose|k: int| 0 <= k < r.len() && r[k] == x;
        if k < b.complete.len() {
            assert(b.complete[k] == x);
        } else {
            assert(b.failed[k - b.complete.len()] == x);
        }
    }
    vstd::set_lib::lemma_len_subset(r.to_set(), b.all.to_set());
}

/// At every observation the counts of a consistent batch add up: complete,
/// failed and pending together make the total.
pub proof fn lemma_progress_adds_up(b: BatchView)
    requires
        batch_wf(b),
        b.all.len() <= usize::MAX,
    ensures
        progress_of(b).complete_count + progress_of(b).failed_count + progress_of(b).pending_count
            == progress_of(b).total,
        progress_of(b).total == b.all.len(),
{
    lemma_resolved_within_total(b);
}

/// Resolving a capture keeps a batch consistent, and leaves its captures
/// and owner as they were.
pub proof fn lemma_batch_after_wf(b: BatchView, id: u128, outcome: Outcome)
    requires
        batch_wf(b),
    ensures
        batch_wf(batch_after(b, id, outcome)),
        batch_after(b, id, outcome).all == b.all,
        batch_after(b, id, outcome).owner == b.owner,
{
    let n = batch_after(b, id, outcome);
    if n != b {
        assert forall|i: int, j: int|
            0 <= i < j < (n.complete + n.failed).len() implies (n.complete + n.failed)[i] != (
        n.complete + n.failed)[j] by {
            let r = b.complete + b.failed;
            let s = n.complete + n.failed;
            match outcome {
                Outcome::Success => {
                    if j == b.complete.len() {
                        if i < b.complete.len() {
                            assert(s[i] == b.complete[i]);
                        }
                    } else if i == b.complete.len() {
                        assert(s[j] == b.failed[j - b.complete.len() - 1]);
                    } else {
                        let i2 = if i < b.complete.len() { i } else { i - 1 };
                        let j2 = if j < b.complete.len() { j } else { j - 1 };
                        assert(s[i] == r[i2]);
                        assert(s[j] == r[j2]);
                    }
                },
                Outcome::Failure => {
                    if j == r.len() {
                        if i < b.complete.len() {
                            assert(s[i] == b.complete[i]);
                        } else {
                            assert(s[i] == b.failed[i - b.complete.len()]);
                        }
                    } else {
                        assert(s[i] == r[i]);
                        assert(s[j] == r[j]);
                    }
                },
            }
        }
    }
}

/// One batch: its captures, which of them resolved and how, and its owner.
pub struct BatchStatus {
    captures_all: Vec<u128>,
    captures_complete: Vec<u128>,
    captures_failed: Vec<u128>,
    owner: i32,
}

impl View for BatchStatus {
    type V = BatchView;

    closed spec fn view(&self) -> BatchView {
        BatchView {
            all: self.captures_all@,
            complete: self.captures_complete@,
            failed: self.captures_failed@,
            owner: self.owner,
        }
    }
}

/// Whether `v` holds `x`.
fn holds(v: &Vec<u128>, x: u128) -> (r: bool)
    ensures
        r == v@.contains(x),
{
    let mut i: usize = 0;
    while i < v.len()
        invariant
            i <= v@.len(),
            forall|k: int| 0 <= k < i ==> v@[k] != x,
        decreases v.len() - i,
    {
        if v[i] == x {
            assert(v@[i as int] == x);
            return true;
        }
        i += 1;
    }
    false
}

impl BatchStatus {
    /// A batch of the captures `vec`, none resolved yet.
    pub fn from_vec(vec: Vec<u128>, owner: i32) -> (r: Self)
        ensures
            r@ == (BatchView { all: vec@, complete: Seq::empty(), failed: Seq::empty(), owner }),
            batch_wf(r@),
    {
        let r = BatchStatus {
            captures_all: vec,
            captures_complete: Vec::new(),
            captures_failed: Vec::new(),
            owner,
        };
        assert(r@.complete + r@.failed =~= Seq::<u128>::empty());
        r
    }

    /// Records that capture `id` resolved with `outcome`, where it belongs to
    /// this batch and has not resolved yet. Returns whether it was recorded.
    pub fn resolve(&mut self, id: u128, outcome: Outcome) -> (r: bool)
        requires
            batch_wf(old(self)@),
        ensures
            final(self)@ == batch_after(old(self)@, id, outcome),
            batch_wf(final(self)@),
            r == (final(self)@ != old(self)@),
    {
        proof {
            lemma_batch_after_wf(self@, id, outcome);
        }
        if holds(&self.captures_all, id) && !holds(&self.captures_complete, id) && !holds(
            &self.captures_failed,
            id,
        ) {
            match outcome {
                Outcome::Success => self.captures_complete.push(id),
                Outcome::Failure => self.captures_failed.push(id),
            }
            assert(self@.complete.len() + self@.failed.len() != old(self)@.complete.len()
                + old(self)@.failed.len());
            true
        } else {
            false
        }
    }

    /// The counts of this batch.
    pub fn progress(&self) -> (r: JobProgress)
        requires
            batch_wf(self@),
        ensures
            r == progress_of(self@),
    {
        proof {
            lemma_resolved_within_total(self@);
        }
        let total = self.captures_all.len();
        let complete_count = self.captures_complete.len();
        let failed_count = self.captures_failed.len();
        JobProgress {
            total,
            complete_count,
            failed_count,
            pending_count: total - complete_count - failed_count,
        }
    }

    /// Whether every capture of this batch has resolved.
    pub fn is_resolved(&self) -> (r: bool)
        requires
            batch_wf(self@),
        ensures
            r == (self@.complete.len() + self@.failed.len() == self@.all.len()),
    {
        proof {
            lemma_resolved_within_total(self@);
        }
        self.captures_complete.len() == self.captures_all.len() - self.captures_failed.len()
    }

    /// The captures of this batch, in dispatch order.
    pub fn captures(&self) -> (r: Vec<u128>)
        ensures
            r@ == self@.all,
    {
        self.captures_all.clone()
    }

    pub fn owner(&self) -> (r: i32)
        ensures
            r == self@.owner,
    {
        self.owner
    }
}

} // verus!

verus! {

/// The batches after a report of `outcome` for capture `id`, given the
/// capture records `c` before it: where the report resolves a pending capture
/// of a stored batch, that batch records it; otherwise nothing changes.
pub open spec fn batches_after_report(
    b: Map<u128, BatchView>,
    c: Map<u128, CaptureStatus>,
    id: u128,
    outcome: Outcome,
) -> Map<u128, BatchView> {
    if c.contains_key(id) && c[id].state == CaptureState::Pending && c[id].source_batch is Some
        && b.contains_key(c[id].source_batch->Some_0) {
        let k = c[id].source_batch->Some_0;
        b.insert(k, batch_after(b[k], id, outcome))
    } else {
        b
    }
}

/// Batches and capture records agree: every batch is consistent, lists each
/// capture once, and each of its captures is recorded as belonging to it.
pub open spec fn manager_wf(b: Map<u128, BatchView>, c: Map<u128, CaptureStatus>) -> bool {
    forall|k: u128|
        #[trigger] b.contains_key(k) ==> {
            &&& batch_wf(b[k])
            &&& b[k].all.no_duplicates()
            &&& forall|i: int|
                0 <= i < b[k].all.len() ==> c.contains_key(#[trigger] b[k].all[i]) && c[b[k].all[i]].source_batch
                    == Some(k)
        }
}

/// No capture belongs to two batches.
pub proof fn lemma_capture_in_one_batch(
    b: Map<u128, BatchView>,
    c: Map<u128, CaptureStatus>,
    b1: u128,
    b2: u128,
    id: u128,
)
    requires
        manager_wf(b, c),
        b.contains_key(b1),
        b.contains_key(b2),
        b[b1].all.contains(id),
        b[b2].all.contains(id),
    ensures
        b1 == b2,
{
    let i = choose|i: int| 0 <= i < b[b1].all.len() && b[b1].all[i] == id;
    let j = choose|j: int| 0 <= j < b[b2].all.len() && b[b2].all[j] == id;
    assert(c[b[b1].all[i]].source_batch == Some(b1));
    assert(c[b[b2].all[j]].source_batch == Some(b2));
}

/// The worker logs `logs` after each `(worker, target)` of `sends`, in
/// order, was appended to that worker's log.
pub open spec fn after_sends(logs: Seq<Seq<url::Url>>, sends: Seq<(int, url::Url)>) -> Seq<
    Seq<url::Url>,
>
    decreases sends.len(),
{
    if sends.len() == 0 {
        logs
    } else {
        let prev = after_sends(logs, sends.drop_last());
        let w = sends.last().0;
        prev.update(w, prev[w].push(sends.last().1))
    }
}

/// Whether `sends` sends the first targets of `urls`, in order, each to one
/// of `n` workers.
pub open spec fn sends_prefix(sends: Seq<(int, url::Url)>, urls: Seq<url::Url>, n: nat) -> bool {
    &&& sends.len() <= urls.len()
    &&& forall|i: int|
        0 <= i < sends.len() ==> (#[trigger] sends[i]).1 == urls[i] && 0 <= sends[i].0 < n
}

/// Dispatches batches of URLs through the capture coordinator and keeps the
/// progress of each batch.
pub struct BatchManager {
    map: HashMap<u128, BatchStatus>,
    capture_manager: CaptureManager,
}

impl BatchManager {
    /// The stored batches.
    pub closed spec fn batches(&self) -> Map<u128, BatchView> {
        self.map@.map_values(|s: BatchStatus| s@)
    }

    /// The capture coordinator that batches dispatch through.
    pub closed spec fn coordinator(&self) -> CaptureManager {
        self.capture_manager
    }

    pub open spec fn wf(&self) -> bool {
        manager_wf(self.batches(), self.coordinator()@)
    }

    /// A coordinator with no batches, dispatching through `capture_manager`.
    pub fn new(capture_manager: CaptureManager) -> (r: Self)
        ensures
            r.batches() == Map::<u128, BatchView>::empty(),
            r.coordinator() == capture_manager,
            r.wf(),
    {
        let r = BatchManager { map: HashMap::new(), capture_manager };
        assert(r.batches() =~= Map::<u128, BatchView>::empty());
        r
    }

    /// Dispatches each of `urls`, in order, as a capture of a new batch owned
    /// by `owner`, and stores the batch with none of its captures resolved.
    /// The batch is abandoned at the first URL that cannot be dispatched: the
    /// error is returned and no batch is stored, while the captures already
    /// sent stay recorded.
    pub fn process_batch(&mut self, urls: Vec<url::Url>, owner: i32) -> (r: Result<
        u128,
        DispatchError,
    >)
        requires
            old(self).wf(),
        ensures
            final(self).wf(),
            old(self).coordinator().same_workers(&final(self).coordinator()),
            old(self).coordinator().worker_count() == 0 && urls@.len() > 0 ==> r is Err,
            r == Err::<u128, DispatchError>(DispatchError::NoWorkers) ==> old(
                self,
            ).coordinator().worker_count() == 0,
            r is Err ==> final(self).batches() == old(self).batches(),
            r is Err ==> exists|sends: Seq<(int, url::Url)>|
                sends_prefix(sends, urls@, old(self).coordinator().worker_count()) && final(self).coordinator().logs()
                    == after_sends(
                    old(self).coordinator().logs(),
                    sends,
                ),
            r matches Ok(id) ==> {
                let v = final(self).batches()[id];
                let c = final(self).coordinator();
                &&& !old(self).batches().contains_key(id)
                &&& final(self).batches() == old(self).batches().insert(id, v)
                &&& v.all.len() == urls@.len()
                &&& v.complete.len() == 0
                &&& v.failed.len() == 0
                &&& v.owner == owner
                &&& forall|i: int|
                    0 <= i < v.all.len() ==> (#[trigger] c@[v.all[i]]).state
                        == CaptureState::Pending && c@[v.all[i]].owner == owner
                        && c@[v.all[i]].worker < c.worker_count()
                &&& c.logs() == after_sends(
                    old(self).coordinator().logs(),
                    Seq::new(urls@.len(), |i: int| (c@[v.all[i]].worker as int, urls@[i])),
                )
            },
    {
        let batch_id = new_uuid();
        if self.map.contains_key(&batch_id) {
            assert(sends_prefix(Seq::empty(), urls@, old(self).coordinator().worker_count())
                && self.coordinator().logs() == after_sends(
                old(self).coordinator().logs(),
                Seq::empty(),
            ));
            return Err(DispatchError::DuplicateId);
        }
        let ghost old_captures = self.capture_manager@;
        let ghost old_logs = self.capture_manager.logs();
        let ghost n = self.capture_manager.worker_count();
        let ghost mut sends: Seq<(int, url::Url)> = Seq::empty();
        let mut captures_all: Vec<u128> = Vec::new();
        let mut rest = urls;
        while rest.len() > 0
            invariant
                self.map@ == old(self).map@,
                old(self).capture_manager.same_workers(&self.capture_manager),
                n == self.capture_manager.worker_count(),
                n == old(self).capture_manager.worker_count(),
                old_logs == old(self).capture_manager.logs(),
                !self.map@.contains_key(batch_id),
                captures_all@.len() + rest@.len() == urls@.len(),
                rest@ == urls@.skip(captures_all@.len() as int),
                n == 0 ==> captures_all@.len() == 0,
                forall|k: u128|
                    old_captures.contains_key(k) ==> #[trigger] self.capture_manager@.contains_key(
                        k,
                    ) && self.capture_manager@[k] == old_captures[k],
                captures_all@.no_duplicates(),
                forall|i: int|
                    0 <= i < captures_all@.len() ==> {
                        &&& self.capture_manager@.contains_key(#[trigger] captures_all@[i])
                        &&& self.capture_manager@[captures_all@[i]].source_batch == Some(batch_id)
                        &&& self.capture_manager@[captures_all@[i]].state == CaptureState::Pending
                        &&& self.capture_manager@[captures_all@[i]].owner == owner
                        &&& self.capture_manager@[captures_all@[i]].worker < n
                    },
                sends.len() == captures_all@.len(),
                forall|i: int|
                    0 <= i < sends.len() ==> #[trigger] sends[i] == (
                    self.capture_manager@[captures_all@[i]].worker as int,
                    urls@[i],
                ),
                sends_prefix(sends, urls@, n),
                self.capture_manager.logs() == after_sends(old_logs, sends),
                manager_wf(self.batches(), old_captures),
            decreases rest.len(),
        {
            let ghost k = captures_all@.len();
            let ghost cm0 = self.capture_manager;
            let target = rest.remove(0);
            assert(target == urls@[k as int]);
            match self.capture_manager.process_capture(target, owner, Some(batch_id)) {
                Ok(id) => {
                    let ghost before = captures_all@;
                    let ghost w = self.capture_manager@[id].worker as int;
                    assert(dispatched_one(&cm0, &self.capture_manager, id, target, owner, Some(batch_id)));
                    captures_all.push(id);
                    proof {
                        let s0 = sends;
                        sends = sends.push((w, target));
                        assert(sends.drop_last() =~= s0);
                        assert forall|i: int| 0 <= i < sends.len() implies #[trigger] sends[i] == (
                            self.capture_manager@[captures_all@[i]].worker as int,
                            urls@[i],
                        ) by {
                            if i < s0.len() {
                                assert(cm0@.contains_key(before[i]));
                                assert(before[i] != id);
                            }
                        }
                    }
                    assert(rest@ =~= urls@.skip(captures_all@.len() as int));
                    assert forall|i: int, j: int|
                        0 <= i < j < captures_all@.len() implies captures_all@[i]
                        != captures_all@[j] by {
                        if j == before.len() {
                            assert(cm0@.contains_key(before[i]));
                        } else {
                            assert(before[i] != before[j]);
                        }
                    }
                    assert forall|i: int| 0 <= i < captures_all@.len() implies {
                        &&& self.capture_manager@.contains_key(#[trigger] captures_all@[i])
                        &&& self.capture_manager@[captures_all@[i]].source_batch == Some(batch_id)
                        &&& self.capture_manager@[captures_all@[i]].state == CaptureState::Pending
                        &&& self.capture_manager@[captures_all@[i]].owner == owner
                        &&& self.capture_manager@[captures_all@[i]].worker < n
                    } by {
                        if i < before.len() {
                            assert(cm0@.contains_key(before[i]));
                            assert(before[i] != id);
                        }
                    }
                },
                Err(e) => {
                    proof {
                        self.lemma_wf_kept(old_captures);
                        assert(sends_prefix(sends, urls@, old(self).coordinator().worker_count())
                            && self.coordinator().logs() == after_sends(
                            old(self).coordinator().logs(),
                            sends,
                        ));
                    }
                    return Err(e);
                },
            }
        }
        proof {
            self.lemma_wf_kept(old_captures);
        }
        let ghost all = captures_all@;
        let status = BatchStatus::from_vec(captures_all, owner);
        self.map.insert(batch_id, status);
        assert(self.batches() =~= old(self).batches().insert(batch_id, status@));
        assert(sends =~= Seq::new(
            urls@.len(),
            |i: int| (self.capture_manager@[all[i]].worker as int, urls@[i]),
        ));
        Ok(batch_id)
    }

    /// The batches stay consistent while capture records are only added.
    proof fn lemma_wf_kept(&self, earlier: Map<u128, CaptureStatus>)
        requires
            manager_wf(self.batches(), earlier),
            forall|k: u128|
                earlier.contains_key(k) ==> #[trigger] self.capture_manager@.contains_key(k)
                    && self.capture_manager@[k] == earlier[k],
        ensures
            self.wf(),
    {
        assert forall|k: u128| #[trigger] self.batches().contains_key(k) implies {
            &&& batch_wf(self.batches()[k])
            &&& self.batches()[k].all.no_duplicates()
            &&& forall|i: int|
                0 <= i < self.batches()[k].all.len() ==> self.coordinator()@.contains_key(
                    #[trigger] self.batches()[k].all[i],
                ) && self.coordinator()@[self.batches()[k].all[i]].source_batch == Some(k)
        } by {
            assert forall|i: int| 0 <= i < self.batches()[k].all.len() implies self.coordinator()@.contains_key(
                #[trigger] self.batches()[k].all[i],
            ) && self.coordinator()@[self.batches()[k].all[i]].source_batch == Some(k) by {
                assert(earlier.contains_key(self.batches()[k].all[i]));
            }
        }
    }

    /// Applies a worker's report on capture `id`: the capture resolves if it
    /// was pending, and then so does its place in the batch it belongs to.
    /// Returns whether the capture was pending.
    pub fn on_capture_resolved(&mut self, id: u128, outcome: Outcome) -> (r: bool)
        requires
            old(self).wf(),
        ensures
            final(self).wf(),
            final(self).coordinator()@ == after_report(old(self).coordinator()@, id, outcome),
            final(self).coordinator().selector() == old(self).coordinator().selector(),
            final(self).batches() == batches_after_report(
                old(self).batches(),
                old(self).coordinator()@,
                id,
                outcome,
            ),
            r == (old(self).coordinator()@.contains_key(id) && old(self).coordinator()@[id].state
                == CaptureState::Pending),
    {
        let ghost c0 = self.capture_manager@;
        let moved = self.capture_manager.report_result(id, outcome);
        proof {
            lemma_report_idempotent(c0, id, outcome, outcome);
            assert forall|k: u128| c0.contains_key(k) implies #[trigger] self.capture_manager@.contains_key(k)
                && self.capture_manager@[k].source_batch == c0[k].source_batch by {}
        }
        if moved {
            match self.capture_manager.get_record(id) {
                Some(rec) => match rec.source_batch {
                    Some(b) => match self.map.remove(&b) {
                        Some(status) => {
                            let mut status = status;
                            proof {
                                assert(old(self).batches().contains_key(b));
                                assert(old(self).batches()[b] == status@);
                                lemma_batch_after_wf(status@, id, outcome);
                            }
                            status.resolve(id, outcome);
                            self.map.insert(b, status);
                            assert(self.batches() =~= batches_after_report(
                                old(self).batches(),
                                c0,
                                id,
                                outcome,
                            ));
                        },
                        None => {
                            assert(self.map@ =~= old(self).map@);
                        },
                    },
                    None => {},
                },
                None => {},
            }
        }
        proof {
            self.lemma_wf_after_report(old(self).batches(), c0);
        }
        moved
    }

    /// The batches stay consistent across a report, which keeps every
    /// capture record and its batch.
    proof fn lemma_wf_after_report(&self, b0: Map<u128, BatchView>, c0: Map<u128, CaptureStatus>)
        requires
            manager_wf(b0, c0),
            forall|k: u128|
                c0.contains_key(k) ==> #[trigger] self.capture_manager@.contains_key(k)
                    && self.capture_manager@[k].source_batch == c0[k].source_batch,
            forall|k: u128|
                #[trigger] self.batches().contains_key(k) ==> b0.contains_key(k) && (self.batches()[k]
                    == b0[k] || self.batches()[k].all == b0[k].all && batch_wf(self.batches()[k])),
        ensures
            self.wf(),
    {
        assert forall|k: u128| #[trigger] self.batches().contains_key(k) implies {
            &&& batch_wf(self.batches()[k])
            &&& self.batches()[k].all.no_duplicates()
            &&& forall|i: int|
                0 <= i < self.batches()[k].all.len() ==> self.coordinator()@.contains_key(
                    #[trigger] self.batches()[k].all[i],
                ) && self.coordinator()@[self.batches()[k].all[i]].source_batch == Some(k)
        } by {
            assert forall|i: int| 0 <= i < self.batches()[k].all.len() implies self.coordinator()@.contains_key(
                #[trigger] self.batches()[k].all[i],
            ) && self.coordinator()@[self.batches()[k].all[i]].source_batch == Some(k) by {
                assert(b0[k].all[i] == self.batches()[k].all[i]);
                assert(c0.contains_key(b0[k].all[i]));
            }
        }
    }

    /// The counts of batch `id`, or `None` when there is no such batch.
    pub fn get_status(&self, id: u128) -> (r: Option<JobProgress>)
        requires
            self.wf(),
        ensures
            r == (if self.batches().contains_key(id) {
                Some(progress_of(self.batches()[id]))
            } else {
                None
            }),
    {
        match self.map.get(&id) {
            Some(status) => {
                assert(self.batches().contains_key(id));
                Some(status.progress())
            },
            None => None,
        }
    }

    /// The captures of batch `id`, in dispatch order, or `None` when there is
    /// no such batch.
    pub fn batch_captures(&self, id: u128) -> (r: Option<Vec<u128>>)
        ensures
            r is Some == self.batches().contains_key(id),
            r matches Some(v) ==> v@ == self.batches()[id].all,
    {
        match self.map.get(&id) {
            Some(status) => Some(status.captures()),
            None => None,
        }
    }

    /// The state of capture `id`, or `None` when there is no such capture.
    pub fn get_capture_status(&self, id: u128) -> (r: Option<CaptureState>)
        ensures
            r == (if self.coordinator()@.contains_key(id) {
                Some(self.coordinator()@[id].state)
            } else {
                None
            }),
    {
        self.capture_manager.get_status(id)
    }

    /// The capture coordinator that batches dispatch through.
    pub fn captures(&self) -> (r: &CaptureManager)
        ensures
            *r == self.coordinator(),
    {
        &self.capture_manager
    }
}

} // verus!
