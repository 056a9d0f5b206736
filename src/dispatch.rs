//! The work queue that upload workers drain, and the per-job states that the
//! progress reporter and the run report read.
//!
//! Workers share one queue behind a lock. Each takes the next pending job,
//! performs it outside the lock, and records whether it succeeded. A job
//! leaves the queue once and never comes back.
use vstd::prelude::*;

use std::collections::VecDeque;

use crate::reconcile::{Action, PlanEntry, ReconciliationPlan};

verus! {

/// Where a job stands.
#[derive(Clone, Copy, Debug, PartialEq, Eq, Structural)]
pub enum JobStatus {
    Pending,
    InFlight,
    Succeeded,
    Failed,
}

/// A plan entry on its way to a worker; `id` is its position in the plan.
#[derive(Debug, PartialEq, Eq)]
pub struct Job {
    pub id: usize,
    pub entry: PlanEntry,
}

/// Jobs still to hand out, and the state of every job of the run.
pub struct WorkQueue {
    pending: VecDeque<Job>,
    status: Vec<JobStatus>,
    creates: Vec<bool>,
    plan: Ghost<Seq<PlanEntry>>,
}

/// A run as the queue sees it: the plan, how many jobs were handed out (in
/// plan order), and each job's state.
pub struct QueueView {
    pub plan: Seq<PlanEntry>,
    pub taken: nat,
    pub status: Seq<JobStatus>,
}

/// A job has reached its end.
pub open spec fn is_settled(s: JobStatus) -> bool {
    s == JobStatus::Succeeded || s == JobStatus::Failed
}

/// The state of a fresh run over `plan`.
pub open spec fn fresh_queue(plan: Seq<PlanEntry>) -> QueueView {
    QueueView { plan, taken: 0, status: Seq::new(plan.len(), |i: int| JobStatus::Pending) }
}

/// The state after the next job is handed out; unchanged once all are out.
pub open spec fn after_take(v: QueueView) -> QueueView {
    if v.taken < v.plan.len() {
        QueueView {
            plan: v.plan,
            taken: v.taken + 1,
            status: v.status.update(v.taken as int, JobStatus::InFlight),
        }
    } else {
        v
    }
}

/// The state after job `id` ends.
pub open spec fn after_record(v: QueueView, id: nat, succeeded: bool) -> QueueView {
    QueueView {
        plan: v.plan,
        taken: v.taken,
        status: v.status.update(
            id as int,
            if succeeded {
                JobStatus::Succeeded
            } else {
                JobStatus::Failed
            },
        ),
    }
}

/// How many of the first `n` jobs satisfy `f`.
pub open spec fn count_jobs(v: QueueView, n: nat, f: spec_fn(PlanEntry, JobStatus) -> bool) -> nat
    decreases n,
{
    if n == 0 {
        0
    } else {
        count_jobs(v, (n - 1) as nat, f) + if f(v.plan[n - 1], v.status[n - 1]) {
            1nat
        } else {
            0nat
        }
    }
}

pub open spec fn created_ok(e: PlanEntry, s: JobStatus) -> bool {
    e.action is Create && s == JobStatus::Succeeded
}

pub open spec fn updated_ok(e: PlanEntry, s: JobStatus) -> bool {
    e.action is Update && s == JobStatus::Succeeded
}

pub open spec fn ended_failed(e: PlanEntry, s: JobStatus) -> bool {
    s == JobStatus::Failed
}

/// What a run did: chapters created, chapters updated, jobs failed.
#[derive(Debug, PartialEq, Eq)]
pub struct RunReport {
    pub created: usize,
    pub updated: usize,
    pub failed: usize,
}

/// How far the queue has drained: `done` of `total` jobs handed out.
#[derive(Debug, PartialEq, Eq)]
pub struct Progress {
    pub done: usize,
    pub total: usize,
}

impl View for WorkQueue {
    type V = QueueView;

    closed spec fn view(&self) -> QueueView {
        QueueView {
            plan: self.plan@,
            taken: (self.plan@.len() - self.pending@.len()) as nat,
            status: self.status@,
        }
    }
}

impl WorkQueue {
    /// The queue keeps its jobs in plan order behind the ones handed out.
    pub closed spec fn wf(&self) -> bool {
        let n = self.plan@.len();
        let taken = n - self.pending@.len();
        &&& self.pending@.len() <= n
        &&& self.status@.len() == n
        &&& self.creates@.len() == n
        &&& forall|k: int|
            0 <= k < self.pending@.len() ==> (#[trigger] self.pending@[k]).id == taken + k
                && self.pending@[k].entry == self.plan@[taken + k]
        &&& forall|i: int|
            0 <= i < n ==> ((#[trigger] self.status@[i] == JobStatus::Pending) <==> i >= taken)
        &&& forall|i: int| 0 <= i < n ==> (#[trigger] self.creates@[i] <==> self.plan@[i].action is Create)
    }

    /// Seeds the queue with every entry of the plan, in order.
    pub fn new(plan: ReconciliationPlan) -> (r: Self)
        ensures
            r.wf(),
            r@ == fresh_queue(plan.entries@),
    {
        let ghost entries = plan.entries@;
        let mut pending: VecDeque<Job> = VecDeque::new();
        let mut status: Vec<JobStatus> = Vec::new();
        let mut creates: Vec<bool> = Vec::new();
        let mut id: usize = 0;
        let total = plan.entries.len();
        for entry in it: plan.entries.into_iter()
            invariant
                it.seq() == entries,
                entries.len() == total,
                id == it.index(),
                pending@.len() == id,
                status@.len() == id,
                creates@.len() == id,
                forall|k: int|
                    0 <= k < id ==> (#[trigger] pending@[k]).id == k && pending@[k].entry
                        == entries[k],
                forall|k: int| 0 <= k < id ==> #[trigger] status@[k] == JobStatus::Pending,
                forall|k: int| 0 <= k < id ==> (#[trigger] creates@[k] <==> entries[k].action is Create),
        {
            let is_create = match entry.action {
                Action::Create => true,
                Action::Update { .. } => false,
            };
            creates.push(is_create);
            status.push(JobStatus::Pending);
            pending.push_back(Job { id, entry });
            id = id + 1;
        }
        let r = WorkQueue { pending, status, creates, plan: Ghost(entries) };
        assert(r@.status =~= fresh_queue(entries).status);
        r
    }

    /// How many jobs the run holds.
    pub fn total(&self) -> (r: usize)
        requires
            self.wf(),
        ensures
            r == self@.plan.len(),
    {
        self.status.len()
    }

    /// How many jobs are still waiting for a worker.
    pub fn remaining(&self) -> (r: usize)
        requires
            self.wf(),
        ensures
            r == self@.plan.len() - self@.taken,
    {
        self.pending.len()
    }

    /// Hands out the next pending job, or `None` once the queue is empty.
    pub fn take_next(&mut self) -> (r: Option<Job>)
        requires
            old(self).wf(),
        ensures
            final(self).wf(),
            final(self)@ == after_take(old(self)@),
            match r {
                Some(job) => {
                    &&& old(self)@.taken < old(self)@.plan.len()
                    &&& job.id == old(self)@.taken
                    &&& job.entry == old(self)@.plan[job.id as int]
                },
                None => old(self)@.taken == old(self)@.plan.len(),
            },
    {
        let r = self.pending.pop_front();
        match r {
            Some(job) => {
                let id = job.id;
                self.status.set(id, JobStatus::InFlight);
                proof {
                    assert(self@.status =~= after_take(old(self)@).status);
                }
                Some(job)
            },
            None => None,
        }
    }

    /// The state of job `id`.
    pub fn status_of(&self, id: usize) -> (r: JobStatus)
        requires
            self.wf(),
            id < self@.plan.len(),
        ensures
            r == self@.status[id as int],
    {
        self.status[id]
    }

    /// Records how job `id`, handed out earlier, ended.
    pub fn record(&mut self, id: usize, succeeded: bool)
        requires
            old(self).wf(),
            id < old(self)@.plan.len(),
            old(self)@.status[id as int] == JobStatus::InFlight,
        ensures
            final(self).wf(),
            final(self)@ == after_record(old(self)@, id as nat, succeeded),
    {
        let s = if succeeded {
            JobStatus::Succeeded
        } else {
            JobStatus::Failed
        };
        self.status.set(id, s);
    }

    /// How far the queue has drained.
    pub fn progress(&self) -> (r: Progress)
        requires
            self.wf(),
        ensures
            r.done == self@.taken,
            r.total == self@.plan.len(),
    {
        let total = self.status.len();
        Progress { done: total - self.pending.len(), total }
    }

    /// Every job has ended, well or badly.
    pub fn all_settled(&self) -> (r: bool)
        requires
            self.wf(),
        ensures
            r <==> forall|i: int| 0 <= i < self@.plan.len() ==> is_settled(#[trigger] self@.status[i]),
    {
        let mut i: usize = 0;
        while i < self.status.len()
            invariant
                self.wf(),
                i <= self.status@.len(),
                forall|k: int| 0 <= k < i ==> is_settled(#[trigger] self.status@[k]),
            decreases self.status@.len() - i,
        {
            let s = self.status[i];
            if s != JobStatus::Succeeded && s != JobStatus::Failed {
                assert(!is_settled(self@.status[i as int]));
                return false;
            }
            i = i + 1;
        }
        true
    }

    /// Counts the chapters created, the chapters updated and the jobs failed.
    pub fn report(&self) -> (r: RunReport)
        requires
            self.wf(),
        ensures
            r.created == count_jobs(self@, self@.plan.len(), |e, s| created_ok(e, s)),
            r.updated == count_jobs(self@, self@.plan.len(), |e, s| updated_ok(e, s)),
            r.failed == count_jobs(self@, self@.plan.len(), |e, s| ended_failed(e, s)),
    {
        let ghost v = self@;
        let mut created: usize = 0;
        let mut updated: usize = 0;
        let mut failed: usize = 0;
        let mut i: usize = 0;
        while i < self.status.len()
            invariant
                self.wf(),
                v == self@,
                i <= self.status@.len(),
                created == count_jobs(v, i as nat, |e, s| created_ok(e, s)),
                updated == count_jobs(v, i as nat, |e, s| updated_ok(e, s)),
                failed == count_jobs(v, i as nat, |e, s| ended_failed(e, s)),
                created <= i && updated <= i && failed <= i,
            decreases self.status@.len() - i,
        {
            let s = self.status[i];
            let c = self.creates[i];
            if s == JobStatus::Succeeded {
                if c {
                    created = created + 1;
                } else {
                    updated = updated + 1;
                }
            } else if s == JobStatus::Failed {
                failed = failed + 1;
            }
            i = i + 1;
        }
        RunReport { created, updated, failed }
    }
}

/// Drains the queue with one worker: take the next job, record
/// `outcomes[id]` for it, and go on until no job is left.
pub open spec fn run_serially(v: QueueView, outcomes: Seq<bool>) -> QueueView
    decreases v.plan.len() - v.taken,
{
    if v.taken >= v.plan.len() {
        v
    } else {
        run_serially(after_record(after_take(v), v.taken, outcomes[v.taken as int]), outcomes)
    }
}

/// The state a job ends in when its outcome is `succeeded`.
pub open spec fn outcome_status(succeeded: bool) -> JobStatus {
    if succeeded {
        JobStatus::Succeeded
    } else {
        JobStatus::Failed
    }
}

proof fn lemma_run_serially(v: QueueView, outcomes: Seq<bool>)
    requires
        outcomes.len() == v.plan.len(),
        v.taken <= v.plan.len(),
        v.status.len() == v.plan.len(),
        forall|i: int| 0 <= i < v.taken ==> #[trigger] v.status[i] == outcome_status(outcomes[i]),
    ensures
        run_serially(v, outcomes).taken == v.plan.len(),
        run_serially(v, outcomes).plan == v.plan,
        run_serially(v, outcomes).status.len() == v.plan.len(),
        forall|i: int|
            0 <= i < v.plan.len() ==> #[trigger] run_serially(v, outcomes).status[i]
                == outcome_status(outcomes[i]),
    decreases v.plan.len() - v.taken,
{
    if v.taken < v.plan.len() {
        let w = after_record(after_take(v), v.taken, outcomes[v.taken as int]);
        assert forall|i: int| 0 <= i < w.taken implies #[trigger] w.status[i] == outcome_status(
            outcomes[i],
        ) by {
            if i < v.taken {
                assert(w.status[i] == v.status[i]);
            }
        }
        lemma_run_serially(w, outcomes);
    }
}

/// A failed job does not hold up the others: when job `k` fails, draining
/// the queue still hands out every job, each other job ends in the state its
/// own outcome gives, job `k` ends failed, and the queue then stays empty.
pub proof fn lemma_failure_is_isolated(plan: Seq<PlanEntry>, outcomes: Seq<bool>, k: int)
    requires
        outcomes.len() == plan.len(),
        0 <= k < plan.len(),
        !outcomes[k],
    ensures
        ({
            let end = run_serially(fresh_queue(plan), outcomes);
            &&& end.taken == plan.len()
            &&& after_take(end) == end
            &&& end.status[k] == JobStatus::Failed
            &&& forall|i: int|
                0 <= i < plan.len() && i != k ==> is_settled(#[trigger] end.status[i])
                    && end.status[i] == outcome_status(outcomes[i])
        }),
{
    lemma_run_serially(fresh_queue(plan), outcomes);
}

/// Recording how one job ended changes that job's state only: the queue and
/// every other job's state stay as they were.
pub proof fn lemma_record_touches_one_job(v: QueueView, id: nat, succeeded: bool)
    requires
        id < v.status.len(),
    ensures
        after_record(v, id, succeeded).taken == v.taken,
        after_record(v, id, succeeded).status.len() == v.status.len(),
        after_record(v, id, succeeded).status[id as int] == outcome_status(succeeded),
        forall|i: int|
            0 <= i < v.status.len() && i != id ==> #[trigger] after_record(v, id, succeeded).status[i]
                == v.status[i],
{
}

/// One step of some worker on the shared queue.
pub enum QueueStep {
    Take,
    Record { id: nat, succeeded: bool },
}

/// Applies one step: a take hands out the next job (its id comes back), a
/// record of a job in flight ends it; any other step changes nothing.
pub open spec fn apply_step(v: QueueView, step: QueueStep) -> (QueueView, Option<nat>) {
    match step {
        QueueStep::Take => if v.taken < v.plan.len() {
            (after_take(v), Some(v.taken))
        } else {
            (v, None)
        },
        QueueStep::Record { id, succeeded } => if id < v.status.len() && v.status[id as int]
            == JobStatus::InFlight {
            (after_record(v, id, succeeded), None)
        } else {
            (v, None)
        },
    }
}

/// Runs workers' steps in the order the lock admits them; gives the final
/// state and the ids handed out, in order.
pub open spec fn run_steps(v: QueueView, steps: Seq<QueueStep>) -> (QueueView, Seq<nat>)
    decreases steps.len(),
{
    if steps.len() == 0 {
        (v, Seq::empty())
    } else {
        let (w, out) = apply_step(v, steps[0]);
        let (end, ids) = run_steps(w, steps.drop_first());
        (
            end,
            match out {
                Some(id) => seq![id] + ids,
                None => ids,
            },
        )
    }
}

proof fn lemma_run_steps(v: QueueView, steps: Seq<QueueStep>)
    requires
        v.taken <= v.plan.len(),
        v.status.len() == v.plan.len(),
    ensures
        ({
            let (end, ids) = run_steps(v, steps);
            &&& v.taken <= end.taken <= v.plan.len()
            &&& end.plan == v.plan
            &&& end.status.len() == v.plan.len()
            &&& ids == Seq::new((end.taken - v.taken) as nat, |i: int| (v.taken + i) as nat)
        }),
    decreases steps.len(),
{
    if steps.len() > 0 {
        let (w, out) = apply_step(v, steps[0]);
        lemma_run_steps(w, steps.drop_first());
        let (end, ids) = run_steps(w, steps.drop_first());
        if out is Some {
            assert(run_steps(v, steps).1 =~= Seq::new(
                (end.taken - v.taken) as nat,
                |i: int| (v.taken + i) as nat,
            ));
        }
    } else {
        assert(run_steps(v, steps).1 =~= Seq::new(0, |i: int| (v.taken + i) as nat));
    }
}

/// No chapter is uploaded twice in a run: however the workers' takes and
/// records interleave, the jobs handed out are the plan's first jobs, each
/// once, in plan order.
pub proof fn lemma_each_job_handed_out_once(plan: Seq<PlanEntry>, steps: Seq<QueueStep>)
    ensures
        ({
            let (end, ids) = run_steps(fresh_queue(plan), steps);
            &&& ids.len() == end.taken <= plan.len()
            &&& forall|i: int| 0 <= i < ids.len() ==> #[trigger] ids[i] == i
            &&& forall|a: int, b: int| 0 <= a < b < ids.len() ==> ids[a] != ids[b]
        }),
{
    lemma_run_steps(fresh_queue(plan), steps);
}

/// How many workers a run starts: the configured count, but no more than
/// there are jobs, and none when there is nothing to do.
pub fn worker_count(configured: usize, jobs: usize) -> (r: usize)
    ensures
        r == if configured < jobs {
            configured
        } else {
            jobs
        },
{
    if configured < jobs {
        configured
    } else {
        jobs
    }
}

impl Progress {
    /// The share of jobs handed out, in whole percent; an empty run is done.
    pub fn percent(&self) -> (r: usize)
        requires
            self.done <= self.total,
        ensures
            self.total == 0 ==> r == 100,
            self.total > 0 ==> r as int == (self.done as int * 100) / (self.total as int),
    {
        if self.total == 0 {
            100
        } else {
            let p = (self.done as u128) * 100 / (self.total as u128);
            assert(p <= 100) by (nonlinear_arith)
                requires
                    p as int == (self.done as int * 100) / (self.total as int),
                    self.done <= self.total,
                    self.total > 0,
            ;
            p as usize
        }
    }

    /// Every job has been handed out.
    pub fn is_complete(&self) -> (r: bool)
        ensures
            r == (self.done == self.total),
    {
        self.done == self.total
    }
}

} // verus!
