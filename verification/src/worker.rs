//! Workers: named members of the pool that drains the shared job queue, each
//! optionally hosting a private phase chain of its own, off the main frame
//! tick.
//!
//! The worker is split in two. The [`Worker`] itself is the owning side: it
//! is bound at most once to a name, hands out phase operations on its
//! private chain, and carries the started flag and the stop signal. The
//! [`WorkerRunner`] is the driving side: a cloneable handle the host moves
//! onto an OS thread of its own, whose loop calls [`WorkerRunner::run_step`]
//! until it reports the worker should stop. The step logic — claim one job,
//! run the private chain once — is verified here; only the thread that loops
//! over it belongs to the host.

use std::sync::Arc;
use vstd::prelude::*;
use vstd::rwlock::RwLock;
use vstd::rwlock::RwLockPredicate;

use crate::jobs::SharedJobQueue;
use crate::phase::Phase;
use crate::scheduler::CoreError;
use crate::scheduler::Scheduler;
use crate::system::System;
use crate::system::SystemId;

verus! {

/// Lock predicate of a worker's private scheduler: whatever else happens,
/// the stored chain keeps its names unique.
pub struct SchedulerPred<S> {
    marker: core::marker::PhantomData<S>,
}

impl<S: System> RwLockPredicate<Scheduler<S>> for SchedulerPred<S> {
    open spec fn inv(self, v: Scheduler<S>) -> bool {
        v.wf()
    }
}

/// Lock predicate of the stop signal: any value.
pub struct FlagPred;

impl RwLockPredicate<bool> for FlagPred {
    open spec fn inv(self, v: bool) -> bool {
        true
    }
}

/// A cloneable boolean signal shared between the owning side and the
/// driving side of a worker.
#[derive(Clone)]
pub struct SharedFlag {
    flag: Arc<RwLock<bool, FlagPred>>,
}

impl SharedFlag {
    /// A fresh signal holding `value`.
    pub fn new(value: bool) -> (shared: SharedFlag) {
        SharedFlag { flag: Arc::new(RwLock::new(value, Ghost(FlagPred))) }
    }

    /// Overwrites the signal.
    pub fn set(&self, value: bool) {
        let (_, handle) = self.flag.acquire_write();
        handle.release_write(value);
    }

    /// The signal's value at the moment the lock was held.
    pub fn get(&self) -> bool {
        let handle = self.flag.acquire_read();
        let value = *handle.borrow();
        handle.release_read();
        value
    }
}

/// The driving side of a worker: the host loops over `run_step` on a thread
/// of its own until the step reports the worker should stop.
#[derive(Clone)]
pub struct WorkerRunner<S: System> {
    scheduler: Arc<RwLock<Scheduler<S>, SchedulerPred<S>>>,
    queue: SharedJobQueue,
    stop: SharedFlag,
}

impl<S: System> WorkerRunner<S> {
    /// One step of the worker loop: unless the stop signal is set, run the
    /// private phase chain once, then claim and execute at most one job from
    /// the shared queue. Returns whether the loop should go on: it ends when
    /// the stop signal is observed or a system of the private chain asked to
    /// stop. What the chain and the queue guarantee per step is stated on
    /// [`Scheduler::run_once`] and [`crate::jobs::JobQueue::take_next`]; past
    /// this shared handle only the lock predicate — names stay unique — is
    /// visible.
    pub fn run_step(&self) -> (go_on: bool) {
        if self.stop.get() {
            return false;
        }
        let (mut scheduler, handle) = self.scheduler.acquire_write();
        let can_continue = scheduler.run_once(true);
        handle.release_write(scheduler);
        if let Some(job) = self.queue.claim() {
            job.execute();
        }
        can_continue
    }
}

/// A named worker, bound at most once to its name, owning a private phase
/// chain that runs off the main frame tick.
pub struct Worker<S: System> {
    name: String,
    started: bool,
    scheduler: Arc<RwLock<Scheduler<S>, SchedulerPred<S>>>,
    queue: Option<SharedJobQueue>,
    stop: SharedFlag,
}

impl<S: System> Worker<S> {
    /// A started worker always has the shared queue it was bound to.
    #[verifier::type_invariant]
    spec fn wf_worker(&self) -> bool {
        self.started ==> self.queue is Some
    }

    /// The name the worker was started under; empty before the first start.
    pub closed spec fn name_spec(&self) -> Seq<char> {
        self.name@
    }

    /// Whether the worker is started.
    pub closed spec fn started_spec(&self) -> bool {
        self.started
    }

    /// A stopped, unnamed worker with an empty private chain.
    pub fn new() -> (worker: Worker<S>)
        ensures
            !worker.started_spec(),
            worker.name_spec() == Seq::<char>::empty(),
    {
        let scheduler: Scheduler<S> = Scheduler::new();
        Worker {
            name: String::new(),
            started: false,
            scheduler: Arc::new(RwLock::new(scheduler, Ghost(SchedulerPred { marker: core::marker::PhantomData }))),
            queue: None,
            stop: SharedFlag::new(false),
        }
    }

    /// Whether the worker carries the given name.
    pub fn has_name(&self, name: &str) -> (found: bool)
        ensures
            found == (self.name_spec() == name@),
    {
        let other = name.to_owned();
        self.name == other
    }

    /// Whether the worker is started.
    pub fn is_started(&self) -> (started: bool)
        ensures
            started == self.started_spec(),
    {
        self.started
    }

    /// Binds the worker to `name` and to the shared job queue and marks it
    /// started, clearing the stop signal. Starting an already-started worker
    /// is a no-op, and a stopped worker restarted here keeps the private
    /// phase chain it already held. The host then moves [`Worker::runner`]
    /// onto a thread of its own.
    pub fn start(&mut self, name: &str, queue: SharedJobQueue)
        ensures
            old(self).started_spec() ==> *final(self) == *old(self),
            !old(self).started_spec() ==> {
                &&& final(self).started_spec()
                &&& final(self).name_spec() == name@
            },
    {
        if self.started {
            return;
        }
        self.name = name.to_owned();
        self.queue = Some(queue);
        self.stop.set(false);
        self.started = true;
    }

    /// Raises the stop signal and marks the worker stopped; the host joins
    /// the driving thread, which exits at its next step. Stopping a
    /// never-started worker is a no-op.
    pub fn stop(&mut self)
        ensures
            !final(self).started_spec(),
            !old(self).started_spec() ==> *final(self) == *old(self),
            final(self).name_spec() == old(self).name_spec(),
    {
        if !self.started {
            return;
        }
        self.stop.set(true);
        self.started = false;
    }

    /// The driving side of this worker, for the host's thread; `Some`
    /// exactly when the worker is started.
    pub fn runner(&self) -> (runner: Option<WorkerRunner<S>>)
        ensures
            runner is Some <==> self.started_spec(),
    {
        proof {
            use_type_invariant(self);
        }
        if !self.started {
            return None;
        }
        match &self.queue {
            Some(queue) => Some(
                WorkerRunner {
                    scheduler: self.scheduler.clone(),
                    queue: queue.clone(),
                    stop: self.stop.clone(),
                },
            ),
            None => None,
        }
    }

    /// Creates `phase` on the worker's private chain, unless the chain
    /// already holds a phase of that name; reports whether it was created.
    /// The chain itself obeys [`Scheduler::create_phase`].
    pub fn create_phase(&self, phase: Phase<S>) -> (created: bool) {
        let (mut scheduler, handle) = self.scheduler.acquire_write();
        let created = if scheduler.has_phase(phase.get_name()) {
            false
        } else {
            scheduler.create_phase(phase);
            true
        };
        handle.release_write(scheduler);
        created
    }

    /// Destroys the phase named `phase_name` on the worker's private chain,
    /// returning the identities of its systems, each of which observed one
    /// `uninit`, in insertion order; `PhaseNotFound` if the chain holds no
    /// such phase. The chain itself obeys [`Scheduler::destroy_phase`].
    pub fn destroy_phase(&self, phase_name: &str) -> (result: Result<Vec<SystemId>, CoreError>) {
        let (mut scheduler, handle) = self.scheduler.acquire_write();
        let result = scheduler.destroy_phase(phase_name);
        handle.release_write(scheduler);
        result
    }

    /// Whether the worker's private chain holds a phase named `phase_name`.
    pub fn has_phase(&self, phase_name: &str) -> (found: bool) {
        let handle = self.scheduler.acquire_read();
        let found = handle.borrow().has_phase(phase_name);
        handle.release_read();
        found
    }
}

} // verus!
