//! Job queue behavior: submission order, the pending-job drain, and the
//! worker pool emptying the shared queue.

use std::sync::Arc;
use std::sync::atomic::AtomicUsize;
use std::sync::atomic::Ordering;

use nrg_core::Job;
use nrg_core::JobHandler;
use nrg_core::System;
use nrg_core::SystemId;
use nrg_core::Worker;

/// A do-nothing system so the worker types can be instantiated.
struct IdleSystem {
    id: SystemId,
}

impl System for IdleSystem {
    fn id(&self) -> SystemId {
        self.id
    }

    fn should_run_when_not_focused(&self) -> bool {
        true
    }

    fn init(&mut self) {}

    fn run(&mut self) -> bool {
        true
    }

    fn uninit(&mut self) {}
}

#[test]
fn jobs_execute_in_submission_order() {
    let handler = JobHandler::new();
    let log = Arc::new(std::sync::Mutex::new(Vec::new()));
    for k in 0..5u32 {
        let log = log.clone();
        handler.add_job("ordered", move || {
            log.lock().unwrap().push(k);
        });
    }
    assert_eq!(handler.pending_jobs_count(), 5);
    let queue = handler.shared_queue();
    while let Some(job) = queue.claim() {
        job.execute();
    }
    assert_eq!(*log.lock().unwrap(), vec![0, 1, 2, 3, 4]);
    assert_eq!(handler.pending_jobs_count(), 0);
}

#[test]
fn job_keeps_its_name() {
    let job = Job::new("stitch", || {});
    assert_eq!(job.get_name(), "stitch");
    job.execute();
}

#[test]
fn clear_discards_pending_but_not_later_jobs() {
    let handler = JobHandler::new();
    let before = Arc::new(AtomicUsize::new(0));
    let after = Arc::new(AtomicUsize::new(0));

    for _ in 0..3 {
        let before = before.clone();
        handler.add_job("stale", move || {
            before.fetch_add(1, Ordering::SeqCst);
        });
    }
    handler.clear_pending_jobs();
    for _ in 0..2 {
        let after = after.clone();
        handler.add_job("fresh", move || {
            after.fetch_add(1, Ordering::SeqCst);
        });
    }

    let queue = handler.shared_queue();
    while let Some(job) = queue.claim() {
        job.execute();
    }

    // nothing enqueued before the clear ran; everything after it did
    assert_eq!(before.load(Ordering::SeqCst), 0);
    assert_eq!(after.load(Ordering::SeqCst), 2);
}

fn drain_with_workers(worker_count: usize) {
    let handler = JobHandler::new();
    let counter = Arc::new(AtomicUsize::new(0));
    for _ in 0..100 {
        let counter = counter.clone();
        handler.add_job("increment", move || {
            counter.fetch_add(1, Ordering::SeqCst);
        });
    }

    let mut workers: Vec<Worker<IdleSystem>> = Vec::new();
    for k in 0..worker_count {
        let mut worker = Worker::new();
        worker.start(&format!("drain{}", k), handler.shared_queue());
        workers.push(worker);
    }
    let runners: Vec<_> = workers
        .iter()
        .map(|w| w.runner().expect("worker started"))
        .collect();

    // each runner is stepped in turn, as its host thread would step it,
    // until the pool has drained the queue
    let mut next = 0;
    while counter.load(Ordering::SeqCst) < 100 {
        assert!(runners[next % runners.len()].run_step());
        next += 1;
    }

    for worker in workers.iter_mut() {
        worker.stop();
    }
    for runner in runners.iter() {
        // a stopped worker's next step reports that its loop should end
        assert!(!runner.run_step());
    }

    assert_eq!(counter.load(Ordering::SeqCst), 100);
    assert_eq!(handler.pending_jobs_count(), 0);
}

#[test]
fn hundred_jobs_counted_with_one_worker() {
    drain_with_workers(1);
}

#[test]
fn hundred_jobs_counted_with_four_workers() {
    drain_with_workers(4);
}

#[test]
fn hundred_jobs_counted_with_sixteen_workers() {
    drain_with_workers(16);
}
