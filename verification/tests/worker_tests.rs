//! Worker lifecycle: idempotent start and stop, and the private phase chain
//! a worker hosts off the main tick.

use std::sync::Arc;
use std::sync::atomic::AtomicUsize;
use std::sync::atomic::Ordering;

use nrg_core::App;
use nrg_core::JobHandler;
use nrg_core::Phase;
use nrg_core::System;
use nrg_core::SystemId;
use nrg_core::Worker;

struct TickCounter {
    id: SystemId,
    ticks: Arc<AtomicUsize>,
}

impl System for TickCounter {
    fn id(&self) -> SystemId {
        self.id
    }

    fn should_run_when_not_focused(&self) -> bool {
        true
    }

    fn init(&mut self) {}

    fn run(&mut self) -> bool {
        self.ticks.fetch_add(1, Ordering::SeqCst);
        true
    }

    fn uninit(&mut self) {}
}

#[test]
fn starting_a_started_worker_is_a_noop() {
    let handler = JobHandler::new();
    let mut worker: Worker<TickCounter> = Worker::new();
    assert!(!worker.is_started());
    worker.start("background", handler.shared_queue());
    assert!(worker.is_started());
    assert!(worker.has_name("background"));
    // same name again: nothing changes
    worker.start("background", handler.shared_queue());
    assert!(worker.is_started());
    assert!(worker.has_name("background"));
    // even another name is ignored while started
    worker.start("other", handler.shared_queue());
    assert!(worker.has_name("background"));
}

#[test]
fn stopping_a_never_started_worker_is_a_noop() {
    let mut worker: Worker<TickCounter> = Worker::new();
    assert!(!worker.is_started());
    worker.stop();
    assert!(!worker.is_started());
    assert!(worker.runner().is_none());
}

#[test]
fn worker_phase_chain_runs_off_the_main_tick() {
    let handler = JobHandler::new();
    let mut worker: Worker<TickCounter> = Worker::new();
    worker.start("background", handler.shared_queue());

    let ticks = Arc::new(AtomicUsize::new(0));
    let mut phase = Phase::new("watch");
    phase.add_system(TickCounter { id: SystemId(1), ticks: ticks.clone() });
    assert!(worker.create_phase(phase));
    // a second phase of the same name is refused
    assert!(!worker.create_phase(Phase::new("watch")));
    assert!(worker.has_phase("watch"));

    let runner = worker.runner().expect("worker started");
    assert!(runner.run_step());
    assert!(runner.run_step());
    assert_eq!(ticks.load(Ordering::SeqCst), 2);

    let ids = worker.destroy_phase("watch").expect("phase exists");
    assert_eq!(ids, vec![SystemId(1)]);
    assert!(!worker.has_phase("watch"));
    assert!(worker.destroy_phase("watch").is_err());
}

#[test]
fn disable_stops_pool_and_enable_restarts_it() {
    let mut app: App<TickCounter> = App::new();
    assert!(app.is_worker_started("Worker1"));
    assert!(app.is_worker_started("Worker5"));

    app.set_enabled(false);
    assert!(!app.is_enabled());
    assert!(!app.is_worker_started("Worker1"));
    assert!(!app.is_worker_started("Worker5"));

    app.set_enabled(true);
    assert!(app.is_enabled());
    assert!(app.is_worker_started("Worker1"));
    assert!(app.is_worker_started("Worker5"));
}

#[test]
fn worker_phase_via_app() {
    let mut app: App<TickCounter> = App::new();
    let ticks = Arc::new(AtomicUsize::new(0));
    let mut phase = Phase::new("stream");
    phase.add_system(TickCounter { id: SystemId(9), ticks: ticks.clone() });
    assert!(app.create_phase_on_worker(phase, "loader"));
    assert!(app.is_worker_started("loader"));

    let runner = app.worker_runner("loader").expect("worker started");
    assert!(runner.run_step());
    assert_eq!(ticks.load(Ordering::SeqCst), 1);

    let ids = app
        .destroy_phase_on_worker("stream", "loader")
        .expect("phase exists");
    assert_eq!(ids, vec![SystemId(9)]);
    // its uninit went into the journal
    let events = app.events();
    assert_eq!(events.len(), 1);
    assert_eq!(events[0], nrg_core::TeardownEvent::SystemUninited(SystemId(9)));
}
