//! Scheduler behavior: phase ordering, tick execution order, focus
//! filtering, the stop signal, and the fallible lookups.

use std::sync::Arc;
use std::sync::atomic::AtomicUsize;
use std::sync::atomic::Ordering;

use nrg_core::App;
use nrg_core::CoreError;
use nrg_core::Phase;
use nrg_core::Scheduler;
use nrg_core::System;
use nrg_core::SystemId;

/// A test system that counts its lifecycle calls into shared counters.
struct CountingSystem {
    id: SystemId,
    focus: bool,
    keep_running: bool,
    inits: Arc<AtomicUsize>,
    runs: Arc<AtomicUsize>,
    uninits: Arc<AtomicUsize>,
}

struct Counters {
    inits: Arc<AtomicUsize>,
    runs: Arc<AtomicUsize>,
    uninits: Arc<AtomicUsize>,
}

fn counting_system(id: u64, focus: bool, keep_running: bool) -> (CountingSystem, Counters) {
    let inits = Arc::new(AtomicUsize::new(0));
    let runs = Arc::new(AtomicUsize::new(0));
    let uninits = Arc::new(AtomicUsize::new(0));
    let system = CountingSystem {
        id: SystemId(id),
        focus,
        keep_running,
        inits: inits.clone(),
        runs: runs.clone(),
        uninits: uninits.clone(),
    };
    (system, Counters { inits, runs, uninits })
}

impl System for CountingSystem {
    fn id(&self) -> SystemId {
        self.id
    }

    fn should_run_when_not_focused(&self) -> bool {
        self.focus
    }

    fn init(&mut self) {
        self.inits.fetch_add(1, Ordering::SeqCst);
    }

    fn run(&mut self) -> bool {
        self.runs.fetch_add(1, Ordering::SeqCst);
        self.keep_running
    }

    fn uninit(&mut self) {
        self.uninits.fetch_add(1, Ordering::SeqCst);
    }
}

#[test]
fn phase_chain_order_append_and_before() {
    let mut scheduler: Scheduler<CountingSystem> = Scheduler::new();
    scheduler.create_phase(Phase::new("render"));
    scheduler.create_phase(Phase::new("update"));
    assert!(scheduler
        .create_phase_before(Phase::new("input"), "render")
        .is_ok());
    // input spliced immediately before its anchor, the rest in order
    assert_eq!(scheduler.phases_count(), 3);
    assert!(scheduler.find_phase("input") == Some(0));
    assert!(scheduler.find_phase("render") == Some(1));
    assert!(scheduler.find_phase("update") == Some(2));
}

#[test]
fn phase_chain_order_after_destroy() {
    let mut scheduler: Scheduler<CountingSystem> = Scheduler::new();
    scheduler.create_phase(Phase::new("a"));
    scheduler.create_phase(Phase::new("b"));
    scheduler.create_phase(Phase::new("c"));
    assert!(scheduler.destroy_phase("b").is_ok());
    assert!(scheduler.find_phase("a") == Some(0));
    assert!(scheduler.find_phase("c") == Some(1));
    assert!(!scheduler.has_phase("b"));
}

#[test]
fn create_phase_before_unknown_anchor_fails() {
    let mut scheduler: Scheduler<CountingSystem> = Scheduler::new();
    scheduler.create_phase(Phase::new("a"));
    let result = scheduler.create_phase_before(Phase::new("b"), "missing");
    assert_eq!(result, Err(CoreError::PhaseNotFound));
    assert_eq!(scheduler.phases_count(), 1);
}

#[test]
fn destroy_phase_unknown_name_fails() {
    let mut scheduler: Scheduler<CountingSystem> = Scheduler::new();
    assert_eq!(scheduler.destroy_phase("missing"), Err(CoreError::PhaseNotFound));
}

#[test]
fn get_phase_reports_not_found() {
    let mut scheduler: Scheduler<CountingSystem> = Scheduler::new();
    scheduler.create_phase(Phase::new("a"));
    assert!(scheduler.get_phase("a").is_ok());
    assert!(scheduler.get_phase("zzz").is_err());
    assert!(scheduler.get_phase_mut("zzz").is_err());
}

#[test]
fn stop_signal_cuts_tick_short() {
    // Phases "A" then "B" before "A": chain order is ["B", "A"]. S1 in "B"
    // keeps running, S2 in "A" asks to stop: the tick reports it cannot
    // continue, and each ran exactly once.
    let mut app: App<CountingSystem> = App::new();
    app.create_phase(Phase::new("A"));
    assert!(app.create_phase_before(Phase::new("B"), "A").is_ok());
    let (s1, c1) = counting_system(1, true, true);
    let (s2, c2) = counting_system(2, true, false);
    assert!(app.add_system_to_phase("B", s1).is_ok());
    assert!(app.add_system_to_phase("A", s2).is_ok());

    let can_continue = app.run_once();

    assert!(!can_continue);
    assert_eq!(c1.runs.load(Ordering::SeqCst), 1);
    assert_eq!(c2.runs.load(Ordering::SeqCst), 1);

    let trace = app.last_tick();
    assert_eq!(trace.len(), 2);
    assert_eq!(trace[0].id, SystemId(1));
    assert!(trace[0].continued);
    assert_eq!(trace[0].phase_index, 0);
    assert_eq!(trace[1].id, SystemId(2));
    assert!(!trace[1].continued);
    assert_eq!(trace[1].phase_index, 1);
}

#[test]
fn stop_skips_every_later_system() {
    let mut app: App<CountingSystem> = App::new();
    app.create_phase(Phase::new("first"));
    app.create_phase(Phase::new("second"));
    let (stopper, c_stop) = counting_system(1, true, false);
    let (never, c_never) = counting_system(2, true, true);
    assert!(app.add_system_to_phase("first", stopper).is_ok());
    assert!(app.add_system_to_phase("second", never).is_ok());

    assert!(!app.run_once());
    assert_eq!(c_stop.runs.load(Ordering::SeqCst), 1);
    assert_eq!(c_never.runs.load(Ordering::SeqCst), 0);
}

#[test]
fn systems_run_in_insertion_order() {
    let mut app: App<CountingSystem> = App::new();
    app.create_phase(Phase::new("tick"));
    for id in 0..4u64 {
        let (s, _) = counting_system(id, true, true);
        assert!(app.add_system_to_phase("tick", s).is_ok());
    }
    assert!(app.run_once());
    let trace = app.last_tick();
    assert_eq!(trace.len(), 4);
    for (k, record) in trace.iter().enumerate() {
        assert_eq!(record.id, SystemId(k as u64));
        assert_eq!(record.system_index, k);
        assert!(record.continued);
    }
}

#[test]
fn unfocused_systems_skipped_while_disabled() {
    let mut app: App<CountingSystem> = App::new();
    app.create_phase(Phase::new("tick"));
    let (background, c_background) = counting_system(1, true, true);
    let (foreground, c_foreground) = counting_system(2, false, true);
    assert!(app.add_system_to_phase("tick", background).is_ok());
    assert!(app.add_system_to_phase("tick", foreground).is_ok());

    app.set_enabled(false);
    assert!(app.run_once());
    assert!(app.run_once());
    // the focus-free system ran every tick; the other never
    assert_eq!(c_background.runs.load(Ordering::SeqCst), 2);
    assert_eq!(c_foreground.runs.load(Ordering::SeqCst), 0);

    app.set_enabled(true);
    assert!(app.run_once());
    assert_eq!(c_background.runs.load(Ordering::SeqCst), 3);
    assert_eq!(c_foreground.runs.load(Ordering::SeqCst), 1);
}

#[test]
fn init_runs_once_before_first_run() {
    let mut app: App<CountingSystem> = App::new();
    app.create_phase(Phase::new("tick"));
    let (s, c) = counting_system(1, true, true);
    assert!(app.add_system_to_phase("tick", s).is_ok());
    assert_eq!(c.inits.load(Ordering::SeqCst), 0);
    assert!(app.run_once());
    assert!(app.run_once());
    assert_eq!(c.inits.load(Ordering::SeqCst), 1);
    assert_eq!(c.runs.load(Ordering::SeqCst), 2);
}

#[test]
fn destroy_phase_uninits_in_insertion_order() {
    let mut app: App<CountingSystem> = App::new();
    app.create_phase(Phase::new("tick"));
    let (s1, c1) = counting_system(10, true, true);
    let (s2, c2) = counting_system(20, true, true);
    assert!(app.add_system_to_phase("tick", s1).is_ok());
    assert!(app.add_system_to_phase("tick", s2).is_ok());

    let ids = app.destroy_phase("tick").expect("phase exists");
    assert_eq!(ids, vec![SystemId(10), SystemId(20)]);
    assert_eq!(c1.uninits.load(Ordering::SeqCst), 1);
    assert_eq!(c2.uninits.load(Ordering::SeqCst), 1);
    assert!(!app.has_phase("tick"));
    // the journal recorded both, in insertion order
    assert_eq!(
        app.events().as_slice(),
        &[
            nrg_core::TeardownEvent::SystemUninited(SystemId(10)),
            nrg_core::TeardownEvent::SystemUninited(SystemId(20)),
        ]
    );
}

#[test]
fn remove_system_uninits_and_keeps_others() {
    let mut phase: Phase<CountingSystem> = Phase::new("p");
    let (s1, c1) = counting_system(1, true, true);
    let (s2, c2) = counting_system(2, true, true);
    phase.add_system(s1);
    phase.add_system(s2);
    assert_eq!(phase.systems_count(), 2);
    assert!(phase.remove_system(&SystemId(1)));
    assert_eq!(c1.uninits.load(Ordering::SeqCst), 1);
    assert_eq!(c2.uninits.load(Ordering::SeqCst), 0);
    assert_eq!(phase.systems_count(), 1);
    assert!(!phase.remove_system(&SystemId(1)));
}

#[test]
fn phase_mut_access_via_app() {
    let mut app: App<CountingSystem> = App::new();
    app.create_phase(Phase::new("tick"));
    let (s1, c1) = counting_system(1, true, true);
    let (s2, _c2) = counting_system(2, true, true);
    assert!(app.add_system_to_phase("tick", s1).is_ok());
    assert!(app.add_system_to_phase("tick", s2).is_ok());
    {
        let phase = app.get_phase_mut("tick").expect("phase exists");
        assert_eq!(phase.systems_count(), 2);
        assert!(phase.remove_system(&SystemId(1)));
    }
    assert_eq!(c1.uninits.load(Ordering::SeqCst), 1);
    assert!(app.run_once());
    let trace = app.last_tick();
    assert_eq!(trace.len(), 1);
    assert_eq!(trace[0].id, SystemId(2));
    assert!(app.get_phase_mut("gone").is_err());
}
