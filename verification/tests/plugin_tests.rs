//! Plugin lifecycle: registration, hot-reload detection, and the two-phase
//! teardown whose journal shows every `uninit` before the library release.

use std::sync::Arc;
use std::sync::atomic::AtomicUsize;
use std::sync::atomic::Ordering;

use nrg_core::App;
use nrg_core::Library;
use nrg_core::Phase;
use nrg_core::PluginData;
use nrg_core::PluginManager;
use nrg_core::System;
use nrg_core::SystemId;
use nrg_core::TeardownEvent;
use nrg_core::plugin::FileSnapshot;
use nrg_core::plugin::PluginPhase;

struct PluginSystem {
    id: SystemId,
    uninits: Arc<AtomicUsize>,
}

impl System for PluginSystem {
    fn id(&self) -> SystemId {
        self.id
    }

    fn should_run_when_not_focused(&self) -> bool {
        true
    }

    fn init(&mut self) {}

    fn run(&mut self) -> bool {
        true
    }

    fn uninit(&mut self) {
        self.uninits.fetch_add(1, Ordering::SeqCst);
    }
}

fn plugin_data(path: &str, library_id: u64, phases: Vec<PluginPhase>) -> PluginData {
    PluginData {
        original_path: path.to_owned(),
        library: Library::new(library_id),
        phases,
        file_size: 1000,
        file_timestamp: 77,
    }
}

#[test]
fn remove_plugin_uninits_system_and_drops_phase() {
    // A plugin registered one phase with one system; after remove_plugin the
    // system observed uninit and the phase is no longer reachable by name.
    let mut app: App<PluginSystem> = App::new();
    let uninits = Arc::new(AtomicUsize::new(0));
    let mut phase = Phase::new("plugin_phase");
    phase.add_system(PluginSystem { id: SystemId(11), uninits: uninits.clone() });
    app.create_phase(phase);

    let data = plugin_data(
        "plugins/sample.module",
        42,
        vec![PluginPhase { name: "plugin_phase".to_owned(), worker: None }],
    );
    let id = app.add_plugin(data);

    app.remove_plugin(&id);

    assert_eq!(uninits.load(Ordering::SeqCst), 1);
    assert!(!app.has_phase("plugin_phase"));
}

#[test]
fn teardown_journal_orders_uninits_before_library_close() {
    let mut app: App<PluginSystem> = App::new();
    let uninits = Arc::new(AtomicUsize::new(0));
    let mut phase = Phase::new("owned");
    phase.add_system(PluginSystem { id: SystemId(1), uninits: uninits.clone() });
    phase.add_system(PluginSystem { id: SystemId(2), uninits: uninits.clone() });
    app.create_phase(phase);

    let data = plugin_data(
        "plugins/owned.module",
        7,
        vec![PluginPhase { name: "owned".to_owned(), worker: None }],
    );
    let id = app.add_plugin(data);
    app.remove_plugin(&id);

    let events = app.events();
    assert_eq!(
        events.as_slice(),
        &[
            TeardownEvent::SystemUninited(SystemId(1)),
            TeardownEvent::SystemUninited(SystemId(2)),
            TeardownEvent::LibraryClosed(7),
        ]
    );
}

#[test]
fn removing_unknown_plugin_changes_nothing() {
    let mut app: App<PluginSystem> = App::new();
    app.remove_plugin(&nrg_core::PluginId(99));
    assert!(app.events().is_empty());
}

#[test]
fn update_reports_changed_backing_files() {
    let mut manager = PluginManager::new();
    let id_a = manager.add_plugin(plugin_data("a.module", 1, Vec::new()));
    let id_b = manager.add_plugin(plugin_data("b.module", 2, Vec::new()));
    assert_ne!(id_a, id_b);

    // a.module unchanged; b.module has a newer stamp
    let observed = vec![
        FileSnapshot { path: "a.module".to_owned(), size: 1000, timestamp: 77 },
        FileSnapshot { path: "b.module".to_owned(), size: 1000, timestamp: 78 },
    ];
    assert_eq!(manager.update(&observed), vec![id_b]);

    // a size change counts too; order of the report is load order
    let observed = vec![
        FileSnapshot { path: "a.module".to_owned(), size: 999, timestamp: 77 },
        FileSnapshot { path: "b.module".to_owned(), size: 1000, timestamp: 78 },
    ];
    assert_eq!(manager.update(&observed), vec![id_a, id_b]);

    // an unobserved file is treated as unchanged
    assert_eq!(manager.update(&Vec::new()), Vec::<nrg_core::PluginId>::new());
}

#[test]
fn manager_remove_returns_record_once() {
    let mut manager = PluginManager::new();
    let id = manager.add_plugin(plugin_data("solo.module", 5, Vec::new()));
    assert_eq!(manager.plugins_count(), 1);
    let data = manager.remove_plugin(&id).expect("plugin stored");
    assert_eq!(data.original_path, "solo.module");
    assert!(manager.remove_plugin(&id).is_none());
    assert_eq!(manager.plugins_count(), 0);
}

#[test]
fn release_lists_every_plugin_in_load_order() {
    let mut manager = PluginManager::new();
    let id_a = manager.add_plugin(plugin_data("a.module", 1, Vec::new()));
    let id_b = manager.add_plugin(plugin_data("b.module", 2, Vec::new()));
    assert_eq!(manager.release(), vec![id_a, id_b]);
}

#[test]
fn shutdown_releases_everything() {
    let mut app: App<PluginSystem> = App::new();
    let uninits = Arc::new(AtomicUsize::new(0));
    let mut phase = Phase::new("main_work");
    phase.add_system(PluginSystem { id: SystemId(3), uninits: uninits.clone() });
    app.create_phase(phase);
    let id = app.add_plugin(plugin_data("p.module", 9, Vec::new()));
    let _ = id;

    app.shutdown();

    assert_eq!(uninits.load(Ordering::SeqCst), 1);
    assert!(!app.has_phase("main_work"));
    assert!(!app.is_worker_started("Worker1"));
    // the journal ends with the library release
    let events = app.events();
    assert_eq!(events.last(), Some(&TeardownEvent::LibraryClosed(9)));
}
