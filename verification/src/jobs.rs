//! Jobs: named, one-shot units of deferred work, the verified FIFO queue
//! that holds them, and the shared handle through which systems submit them
//! and the worker pool claims them.
//!
//! The queue itself is plain verified data guarded by a reader-writer lock;
//! which worker claims which job is decided by whoever wins the lock, exactly
//! as the work-distribution design asks. A job claimed while
//! `clear_pending_jobs` runs counts as claimed, not cleared: the drain is a
//! best-effort race, and only jobs still pending at the moment the lock is
//! held are discarded.

use std::sync::Arc;
use vstd::prelude::*;
use vstd::rwlock::RwLock;
use vstd::rwlock::RwLockPredicate;

verus! {

/// The deferred work a job carries, consumed exactly once.
///
/// Relies on std's `Box` to hold the host-supplied closure behind a trait
/// object: `new` stores it and `execute` calls it exactly once. Nothing is
/// promised of the closure's effects; the queue's contracts speak only of
/// job names.
#[verifier::external_body]
pub struct JobTask {
    task: Box<dyn FnOnce() + Send + Sync>,
}

impl JobTask {
    /// Boxes the closure. Relies on `Box::new`.
    #[verifier::external_body]
    pub fn new<F: FnOnce() + Send + Sync + 'static>(task: F) -> JobTask {
        JobTask { task: Box::new(task) }
    }

    /// Calls the closure, consuming the task. Relies on std's call of a
    /// boxed `FnOnce`.
    #[verifier::external_body]
    pub fn execute(self) {
        (self.task)()
    }
}

/// A named, one-shot unit of deferred work.
pub struct Job {
    name: String,
    task: JobTask,
}

impl Job {
    /// The job's name, for diagnostics; jobs carry no priority and no
    /// ordering information.
    pub closed spec fn name_spec(&self) -> Seq<char> {
        self.name@
    }

    /// Wraps `func` as a job named `name`.
    pub fn new<F: FnOnce() + Send + Sync + 'static>(name: &str, func: F) -> (job: Job)
        ensures
            job.name_spec() == name@,
    {
        Job { name: name.to_owned(), task: JobTask::new(func) }
    }

    /// The job's name.
    pub fn get_name(&self) -> (name: &str)
        ensures
            name@ == self.name_spec(),
    {
        self.name.as_str()
    }

    /// Runs the deferred work, consuming the job.
    pub fn execute(self) {
        self.task.execute()
    }
}

/// A first-in-first-out queue of pending jobs. Its model is the sequence of
/// pending job names, oldest first.
pub struct JobQueue {
    jobs: Vec<Job>,
}

impl JobQueue {
    /// The names of the pending jobs, oldest first.
    pub closed spec fn pending(&self) -> Seq<Seq<char>> {
        self.jobs@.map_values(|j: Job| j.name_spec())
    }

    /// An empty queue.
    pub fn new() -> (queue: JobQueue)
        ensures
            queue.pending() == Seq::<Seq<char>>::empty(),
    {
        let queue = JobQueue { jobs: Vec::new() };
        proof {
            assert(queue.pending() =~= Seq::<Seq<char>>::empty());
        }
        queue
    }

    /// How many jobs are pending.
    pub fn pending_count(&self) -> (n: usize)
        ensures
            n == self.pending().len(),
    {
        self.jobs.len()
    }

    /// Enqueues a job at the back.
    pub fn push_job(&mut self, job: Job)
        ensures
            final(self).pending() == old(self).pending().push(job.name_spec()),
    {
        self.jobs.push(job);
        proof {
            assert(self.pending() =~= old(self).pending().push(
                self.jobs@[self.jobs@.len() - 1].name_spec(),
            ));
        }
    }

    /// Claims the oldest pending job, if any: `Some` exactly when a job is
    /// pending, and then the front one, which leaves the queue.
    pub fn take_next(&mut self) -> (job: Option<Job>)
        ensures
            match job {
                Some(j) => {
                    &&& old(self).pending().len() > 0
                    &&& j.name_spec() == old(self).pending()[0]
                    &&& final(self).pending() == old(self).pending().drop_first()
                },
                None => {
                    &&& old(self).pending().len() == 0
                    &&& *final(self) == *old(self)
                },
            },
    {
        if self.jobs.len() == 0 {
            None
        } else {
            proof {
                assert(self.pending()[0] == self.jobs@[0].name_spec());
            }
            let job = self.jobs.remove(0);
            proof {
                assert(self.pending() =~= old(self).pending().drop_first());
            }
            Some(job)
        }
    }

    /// Discards every pending job: afterwards nothing enqueued so far is
    /// claimable, and only jobs enqueued later will be.
    pub fn clear(&mut self)
        ensures
            final(self).pending() == Seq::<Seq<char>>::empty(),
    {
        self.jobs = Vec::new();
        proof {
            assert(self.pending() =~= Seq::<Seq<char>>::empty());
        }
    }
}

/// Law: a drain discards exactly what was pending. If a queue is cleared and
/// the names `later` are then enqueued, exactly `later` is pending: no job
/// from before the clear remains claimable, and every job enqueued after it
/// still is. (Jobs a worker claimed before the clear are its own; the drain
/// only touches what is still pending under the lock.)
pub proof fn lemma_clear_discards_pending(
    cleared: Seq<Seq<char>>,
    later: Seq<Seq<char>>,
    result: Seq<Seq<char>>,
)
    requires
        cleared == Seq::<Seq<char>>::empty(),
        result == cleared + later,
    ensures
        result == later,
        forall|k: int| 0 <= k < result.len() ==> #[trigger] result[k] == later[k],
{
    assert(result =~= later);
}

/// The lock predicate of the shared queue: any queue value may be stored.
pub struct QueuePred;

impl RwLockPredicate<JobQueue> for QueuePred {
    open spec fn inv(self, v: JobQueue) -> bool {
        true
    }
}

/// A cloneable handle to one job queue shared by every producer and every
/// worker, guarded by a reader-writer lock.
#[derive(Clone)]
pub struct SharedJobQueue {
    queue: Arc<RwLock<JobQueue, QueuePred>>,
}

impl SharedJobQueue {
    /// A fresh, empty shared queue.
    pub fn new() -> (shared: SharedJobQueue) {
        let lock = RwLock::new(JobQueue::new(), Ghost(QueuePred));
        SharedJobQueue { queue: Arc::new(lock) }
    }

    /// Enqueues a job at the back of the shared queue.
    pub fn push(&self, job: Job) {
        let (mut queue, handle) = self.queue.acquire_write();
        queue.push_job(job);
        handle.release_write(queue);
    }

    /// Claims the oldest pending job, if any; whichever caller wins the lock
    /// first claims the next job.
    pub fn claim(&self) -> Option<Job> {
        let (mut queue, handle) = self.queue.acquire_write();
        let job = queue.take_next();
        handle.release_write(queue);
        job
    }

    /// Discards every job still pending at the moment the lock is held.
    pub fn clear(&self) {
        let (mut queue, handle) = self.queue.acquire_write();
        queue.clear();
        handle.release_write(queue);
    }

    /// How many jobs were pending at the moment the lock was held.
    pub fn pending_count(&self) -> usize {
        let handle = self.queue.acquire_read();
        let n = handle.borrow().pending_count();
        handle.release_read();
        n
    }
}

/// The job submission front end: systems hand it named closures, the worker
/// pool drains them. One instance per application, cloned freely; every
/// clone speaks to the same queue.
#[derive(Clone)]
pub struct JobHandler {
    queue: SharedJobQueue,
}

impl JobHandler {
    /// A handler over a fresh, empty queue.
    pub fn new() -> (handler: JobHandler) {
        JobHandler { queue: SharedJobQueue::new() }
    }

    /// Enqueues `func` as a job named `name`; fire and forget, no handle
    /// comes back. See [`JobQueue::push_job`] for the queue's own contract.
    pub fn add_job<F: FnOnce() + Send + Sync + 'static>(&self, name: &str, func: F) {
        self.queue.push(Job::new(name, func));
    }

    /// Discards every job not yet claimed by a worker; jobs already claimed
    /// are unaffected. Used when the application toggles back to enabled, so
    /// stale work queued while rendering was suspended is not executed. See
    /// [`JobQueue::clear`] for the queue's own contract.
    pub fn clear_pending_jobs(&self) {
        self.queue.clear();
    }

    /// How many jobs were pending when the queue was inspected.
    pub fn pending_jobs_count(&self) -> usize {
        self.queue.pending_count()
    }

    /// The shared queue itself, for the worker pool.
    pub fn shared_queue(&self) -> SharedJobQueue {
        self.queue.clone()
    }
}

} // verus!
