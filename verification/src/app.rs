//! The composition root: one scheduler, the worker pool, the job handler and
//! the plugin registry, advanced one frame at a time.
//!
//! The application also keeps the teardown journal: every `uninit` a system
//! observes through it and every library token it surrenders is appended, in
//! order, so the two-phase plugin protocol — deregister everything first,
//! unload after — is not a convention but a recorded, provable ordering.

use vstd::prelude::*;

use crate::jobs::JobHandler;
use crate::phase::Phase;
use crate::phase::RunRecord;
use crate::phase::SystemRecord;
use crate::plugin::FileSnapshot;
use crate::plugin::PluginData;
use crate::plugin::PluginEntry;
use crate::plugin::PluginId;
use crate::plugin::PluginManager;
use crate::scheduler::CoreError;
use crate::scheduler::Scheduler;
use crate::scheduler::tick_post;
use crate::system::System;
use crate::system::SystemId;
use crate::worker::Worker;
use crate::worker::WorkerRunner;

verus! {

/// One entry of the teardown journal.
#[derive(Debug, Clone, Copy, PartialEq, Eq, Structural)]
pub enum TeardownEvent {
    /// A system observed `uninit`.
    SystemUninited(SystemId),
    /// A library token was surrendered; the host may now unload the module.
    LibraryClosed(u64),
}

/// Spec-level record of one worker: its name and whether it is started.
pub ghost struct WorkerRecord {
    /// The name the worker was started under.
    pub name: Seq<char>,
    /// Whether the worker is started.
    pub started: bool,
}

/// The number of workers the application starts out of the box.
pub const POOL_WORKERS: usize = 5;

/// Whether the pool holds a started worker of the given name.
pub open spec fn worker_started(view: Seq<WorkerRecord>, name: Seq<char>) -> bool {
    exists|j: int| 0 <= j < view.len() && (#[trigger] view[j]).name == name && view[j].started
}

/// The journal entries destroying a whole chain appends: phase by phase, in
/// chain order, one `uninit` record per system, in insertion order.
pub open spec fn chain_uninit_events(views: Seq<Seq<SystemRecord>>) -> Seq<TeardownEvent>
    decreases views.len(),
{
    if views.len() == 0 {
        Seq::<TeardownEvent>::empty()
    } else {
        views[0].map_values(|r: SystemRecord| TeardownEvent::SystemUninited(r.id))
            + chain_uninit_events(views.skip(1))
    }
}

/// The journal suffix tearing the given plugins down appends: for each
/// plugin in order, some `uninit` records and then — after all of them — the
/// surrender of that plugin's library token, and nothing else.
pub open spec fn removals_journal(plugins: Seq<PluginEntry>, events: Seq<TeardownEvent>) -> bool
    decreases plugins.len(),
{
    if plugins.len() == 0 {
        events.len() == 0
    } else {
        exists|m: int|
            0 <= m < events.len() && {
                &&& forall|k: int| 0 <= k < m ==> (#[trigger] events[k]) is SystemUninited
                &&& events[m] == TeardownEvent::LibraryClosed(plugins[0].data.library.id_spec())
                &&& removals_journal(plugins.skip(1), events.skip(m + 1))
            }
    }
}

// Destroying one more chain slot appends exactly that slot's uninit records.
proof fn lemma_chain_events_snoc(views: Seq<Seq<SystemRecord>>, slot: Seq<SystemRecord>)
    ensures
        chain_uninit_events(views.push(slot)) == chain_uninit_events(views) + slot.map_values(
            |r: SystemRecord| TeardownEvent::SystemUninited(r.id),
        ),
    decreases views.len(),
{
    let mapped = slot.map_values(|r: SystemRecord| TeardownEvent::SystemUninited(r.id));
    if views.len() == 0 {
        assert(views.push(slot)[0] == slot);
        assert(views.push(slot).skip(1) =~= Seq::<Seq<SystemRecord>>::empty());
        assert(chain_uninit_events(Seq::<Seq<SystemRecord>>::empty())
            == Seq::<TeardownEvent>::empty());
        assert(chain_uninit_events(views.push(slot)) =~= mapped);
        assert(chain_uninit_events(views) + mapped =~= mapped);
    } else {
        assert(views.push(slot)[0] == views[0]);
        assert(views.push(slot).skip(1) =~= views.skip(1).push(slot));
        lemma_chain_events_snoc(views.skip(1), slot);
        assert(chain_uninit_events(views.push(slot)) =~= chain_uninit_events(views) + mapped);
    }
}

// Tearing one more plugin down appends one more uninits-then-close block.
proof fn lemma_removals_journal_snoc(
    plugins: Seq<PluginEntry>,
    events: Seq<TeardownEvent>,
    entry: PluginEntry,
    seg: Seq<TeardownEvent>,
)
    requires
        removals_journal(plugins, events),
        seg.len() >= 1,
        forall|k: int| 0 <= k < seg.len() - 1 ==> (#[trigger] seg[k]) is SystemUninited,
        seg.last() == TeardownEvent::LibraryClosed(entry.data.library.id_spec()),
    ensures
        removals_journal(plugins.push(entry), events + seg),
    decreases plugins.len(),
{
    let whole = events + seg;
    if plugins.len() == 0 {
        assert(whole =~= seg);
        let m = seg.len() - 1;
        assert(whole[m] == seg.last());
        assert(plugins.push(entry)[0] == entry);
        assert(plugins.push(entry).skip(1) =~= Seq::<PluginEntry>::empty());
        assert(whole.skip(m + 1) =~= Seq::<TeardownEvent>::empty());
        assert(removals_journal(
            Seq::<PluginEntry>::empty(),
            Seq::<TeardownEvent>::empty(),
        ));
        assert(removals_journal(plugins.push(entry).skip(1), whole.skip(m + 1)));
    } else {
        let m = choose|m: int|
            0 <= m < events.len() && {
                &&& forall|k: int| 0 <= k < m ==> (#[trigger] events[k]) is SystemUninited
                &&& events[m] == TeardownEvent::LibraryClosed(plugins[0].data.library.id_spec())
                &&& removals_journal(plugins.skip(1), events.skip(m + 1))
            };
        assert(whole.skip(m + 1) =~= events.skip(m + 1) + seg);
        assert(plugins.skip(1).push(entry) =~= plugins.push(entry).skip(1));
        lemma_removals_journal_snoc(plugins.skip(1), events.skip(m + 1), entry, seg);
        assert(plugins.push(entry)[0] == plugins[0]);
        assert forall|k: int| 0 <= k < m implies (#[trigger] whole[k]) is SystemUninited by {
            assert(whole[k] == events[k]);
        }
        assert(whole[m] == events[m]);
        assert(0 <= m < whole.len());
    }
}

// An event found past position `b` is also found past any earlier cut `a`.
proof fn lemma_contains_in_longer_skip(events: Seq<TeardownEvent>, a: int, b: int, e: TeardownEvent)
    requires
        0 <= a <= b <= events.len(),
        events.skip(b).contains(e),
    ensures
        events.skip(a).contains(e),
{
    let p = choose|p: int| 0 <= p < events.skip(b).len() && #[trigger] events.skip(b)[p] == e;
    assert(events.skip(b)[p] == events[b + p]);
    assert(events.skip(a)[b - a + p] == events[b + p]);
}

// Appending to the journal loses no event already found past a cut.
proof fn lemma_skip_contains_preserved(
    pre: Seq<TeardownEvent>,
    post: Seq<TeardownEvent>,
    a: int,
    e: TeardownEvent,
)
    requires
        0 <= a <= pre.len(),
        post.len() >= pre.len(),
        forall|k: int| 0 <= k < pre.len() ==> #[trigger] post[k] == pre[k],
        pre.skip(a).contains(e),
    ensures
        post.skip(a).contains(e),
{
    let p = choose|p: int| 0 <= p < pre.skip(a).len() && #[trigger] pre.skip(a)[p] == e;
    assert(pre.skip(a)[p] == pre[a + p]);
    assert(post.skip(a)[p] == post[a + p]);
}

// A started worker stays started under any pool change that keeps names and
// never stops a started worker.
proof fn lemma_worker_started_carry(pre: Seq<WorkerRecord>, post: Seq<WorkerRecord>, name: Seq<char>)
    requires
        worker_started(pre, name),
        post.len() >= pre.len(),
        forall|j: int|
            0 <= j < pre.len() ==> (#[trigger] post[j]).name == pre[j].name && (pre[j].started
                ==> post[j].started),
    ensures
        worker_started(post, name),
{
    let j = choose|j: int|
        0 <= j < pre.len() && (#[trigger] pre[j]).name == name && pre[j].started;
    assert(post[j].name == name && post[j].started);
}

/// The composition root: owns the scheduler, the worker pool, the job
/// handler, the plugin registry and the teardown journal.
pub struct App<S: System> {
    is_enabled: bool,
    scheduler: Scheduler<S>,
    plugin_manager: PluginManager,
    workers: Vec<Worker<S>>,
    job_handler: JobHandler,
    events: Vec<TeardownEvent>,
}

impl<S: System> App<S> {
    /// Whether the application is enabled (focused and rendering).
    pub closed spec fn enabled_spec(&self) -> bool {
        self.is_enabled
    }

    /// The main chain's phase names, in order.
    pub closed spec fn phase_names(&self) -> Seq<Seq<char>> {
        self.scheduler.names()
    }

    /// The main chain's per-phase system records, in order.
    pub closed spec fn phases_view(&self) -> Seq<Seq<SystemRecord>> {
        self.scheduler.phases_view()
    }

    /// The trace of the most recent frame tick.
    pub closed spec fn last_tick_spec(&self) -> Seq<RunRecord> {
        self.scheduler.last_tick_spec()
    }

    /// The loaded plugins, in load order.
    pub closed spec fn plugins(&self) -> Seq<PluginEntry> {
        self.plugin_manager.plugins()
    }

    /// The teardown journal, oldest first.
    pub closed spec fn events_spec(&self) -> Seq<TeardownEvent> {
        self.events@
    }

    /// The worker pool's records, in creation order.
    pub closed spec fn workers_view(&self) -> Seq<WorkerRecord> {
        self.workers@.map_values(
            |w: Worker<S>| WorkerRecord { name: w.name_spec(), started: w.started_spec() },
        )
    }

    /// Well-formed: the main chain's names are unique, and the plugin
    /// registry's identities grow with load order and stay below the next
    /// one to be assigned, so they never repeat.
    pub open spec fn wf(&self) -> bool {
        &&& crate::scheduler::names_unique(self.phase_names())
        &&& crate::plugin::plugin_ids_wf(self.plugins(), self.next_plugin_id())
    }

    /// Everything but the worker pool is as it was.
    pub open spec fn only_workers_changed(pre: &App<S>, post: &App<S>) -> bool {
        &&& post.enabled_spec() == pre.enabled_spec()
        &&& post.phase_names() == pre.phase_names()
        &&& post.phases_view() == pre.phases_view()
        &&& post.last_tick_spec() == pre.last_tick_spec()
        &&& post.plugins() == pre.plugins()
        &&& post.next_plugin_id() == pre.next_plugin_id()
        &&& post.events_spec() == pre.events_spec()
        &&& (pre.wf() ==> post.wf())
    }

    /// A fresh application: enabled, no phases, no plugins, an empty journal,
    /// and [`POOL_WORKERS`] started workers sharing the job queue.
    pub fn new() -> (app: App<S>)
        ensures
            app.wf(),
            app.enabled_spec(),
            app.phase_names() == Seq::<Seq<char>>::empty(),
            app.phases_view() == Seq::<Seq<SystemRecord>>::empty(),
            app.plugins() == Seq::<PluginEntry>::empty(),
            app.events_spec() == Seq::<TeardownEvent>::empty(),
            app.next_plugin_id() == 0,
            forall|j: int|
                0 <= j < app.workers_view().len() ==> (#[trigger] app.workers_view()[j]).started,
            app.workers_view().len() == POOL_WORKERS,
            worker_started(app.workers_view(), "Worker1"@),
            worker_started(app.workers_view(), "Worker2"@),
            worker_started(app.workers_view(), "Worker3"@),
            worker_started(app.workers_view(), "Worker4"@),
            worker_started(app.workers_view(), "Worker5"@),
    {
        let mut app = App {
            is_enabled: true,
            scheduler: Scheduler::new(),
            plugin_manager: PluginManager::new(),
            workers: Vec::new(),
            job_handler: JobHandler::new(),
            events: Vec::new(),
        };
        proof {
            assert(app.workers_view() =~= Seq::<WorkerRecord>::empty());
        }
        app.setup_worker_threads();
        app
    }

    /// Whether the application is enabled.
    pub fn is_enabled(&self) -> (enabled: bool)
        ensures
            enabled == self.enabled_spec(),
    {
        self.is_enabled
    }

    /// A clone of the job submission front end, for systems and the host.
    pub fn get_job_handler(&self) -> JobHandler {
        self.job_handler.clone()
    }

    /// The index of the worker named `name`, if any.
    fn worker_index(&self, name: &str) -> (found: Option<usize>)
        ensures
            match found {
                Some(i) => {
                    &&& i < self.workers_view().len()
                    &&& self.workers_view()[i as int].name == name@
                    &&& forall|l: int|
                        0 <= l < i ==> (#[trigger] self.workers_view()[l]).name != name@
                },
                None => forall|j: int|
                    0 <= j < self.workers_view().len() ==> (#[trigger] self.workers_view()[j]).name
                        != name@,
            },
    {
        let mut i: usize = 0;
        while i < self.workers.len()
            invariant
                i <= self.workers.len(),
                forall|j: int|
                    0 <= j < i ==> (#[trigger] self.workers_view()[j]).name != name@,
            decreases self.workers.len() - i,
        {
            proof {
                assert(self.workers_view()[i as int].name == self.workers@[i as int].name_spec());
            }
            if self.workers[i].has_name(name) {
                return Some(i);
            }
            i += 1;
        }
        None
    }

    /// Binds a worker to `name` if none carries it yet, and starts it;
    /// starting a worker that is already started is a no-op. Every worker
    /// shares the application's job queue.
    pub fn add_worker(&mut self, name: &str)
        ensures
            Self::only_workers_changed(old(self), final(self)),
            final(self).workers_view().len() >= old(self).workers_view().len(),
            worker_started(final(self).workers_view(), name@),
            forall|j: int|
                0 <= j < old(self).workers_view().len() ==> (#[trigger] final(self).workers_view()[j]).name == old(self).workers_view()[j].name && (old(self).workers_view()[j].started ==> final(self).workers_view()[j].started),
            (forall|j: int|
                0 <= j < old(self).workers_view().len() ==> (#[trigger] old(self).workers_view()[j]).name != name@) ==> final(self).workers_view() == old(self).workers_view().push(WorkerRecord { name: name@, started: true }),
            (exists|j: int|
                0 <= j < old(self).workers_view().len() && (#[trigger] old(self).workers_view()[j]).name == name@) ==> exists|i: int|
                {
                    &&& 0 <= i < old(self).workers_view().len()
                    &&& old(self).workers_view()[i].name == name@
                    &&& forall|l: int| 0 <= l < i ==> old(self).workers_view()[l].name != name@
                    &&& final(self).workers_view() == old(self).workers_view().update(
                        i,
                        WorkerRecord { name: name@, started: true },
                    )
                    &&& (old(self).workers_view()[i].started ==> final(self).workers_view()
                        == old(self).workers_view())
                },
    {
        let found = self.worker_index(name);
        match found {
            Some(i) => {
                let queue = self.job_handler.shared_queue();
                let ghost workers_before = self.workers@;
                let ghost view_before = self.workers_view();
                let worker = &mut self.workers[i];
                worker.start(name, queue);
                proof {
                    assert(self.workers@ =~= workers_before.update(
                        i as int,
                        self.workers@[i as int],
                    ));
                    assert forall|j: int|
                        0 <= j < self.workers_view().len() implies (
                    #[trigger] self.workers_view()[j]).name == view_before[j].name && (
                    view_before[j].started ==> self.workers_view()[j].started) && (j != i
                        ==> self.workers_view()[j] == view_before[j]) by {
                        assert(self.workers_view()[j] == WorkerRecord {
                            name: self.workers@[j].name_spec(),
                            started: self.workers@[j].started_spec(),
                        });
                        assert(view_before[j] == WorkerRecord {
                            name: workers_before[j].name_spec(),
                            started: workers_before[j].started_spec(),
                        });
                        if j != i {
                            assert(self.workers@[j] == workers_before[j]);
                        }
                    }
                    assert((#[trigger] self.workers_view()[i as int]).name == name@
                        && self.workers_view()[i as int].started);
                    assert(self.workers_view() =~= view_before.update(
                        i as int,
                        WorkerRecord { name: name@, started: true },
                    ));
                    if view_before[i as int].started {
                        assert(view_before[i as int] == (WorkerRecord {
                            name: name@,
                            started: true,
                        }));
                        assert(self.workers_view() =~= view_before);
                    }
                }
            },
            None => {
                let queue = self.job_handler.shared_queue();
                let mut worker: Worker<S> = Worker::new();
                worker.start(name, queue);
                let ghost view_before = self.workers_view();
                self.workers.push(worker);
                proof {
                    assert(self.workers_view() =~= view_before.push(
                        WorkerRecord { name: name@, started: true },
                    ));
                    assert((#[trigger] self.workers_view()[self.workers_view().len() - 1]).name
                        == name@ && self.workers_view()[self.workers_view().len() - 1].started);
                    if exists|j: int|
                        0 <= j < view_before.len() && (#[trigger] view_before[j]).name == name@ {
                        let j = choose|j: int|
                            0 <= j < view_before.len() && (#[trigger] view_before[j]).name
                                == name@;
                        assert(view_before[j].name != name@);
                    }
                }
            },
        }
    }

    /// Whether the worker named `name` exists and is started.
    pub fn is_worker_started(&self, name: &str) -> (started: bool)
        ensures
            started == worker_started(self.workers_view(), name@),
    {
        let mut i: usize = 0;
        while i < self.workers.len()
            invariant
                i <= self.workers.len(),
                forall|j: int|
                    0 <= j < i ==> !((#[trigger] self.workers_view()[j]).name == name@
                        && self.workers_view()[j].started),
            decreases self.workers.len() - i,
        {
            proof {
                assert(self.workers_view()[i as int] == WorkerRecord {
                    name: self.workers@[i as int].name_spec(),
                    started: self.workers@[i as int].started_spec(),
                });
            }
            if self.workers[i].has_name(name) && self.workers[i].is_started() {
                proof {
                    assert((#[trigger] self.workers_view()[i as int]).name == name@
                        && self.workers_view()[i as int].started);
                }
                return true;
            }
            i += 1;
        }
        false
    }

    /// The driving side of the worker named `name`, for the host's thread;
    /// `Some` exactly when a worker of that name exists and is started.
    pub fn worker_runner(&self, name: &str) -> (runner: Option<WorkerRunner<S>>)
        ensures
            runner is Some <==> worker_started(self.workers_view(), name@),
    {
        let mut i: usize = 0;
        while i < self.workers.len()
            invariant
                i <= self.workers.len(),
                forall|j: int|
                    0 <= j < i ==> !((#[trigger] self.workers_view()[j]).name == name@
                        && self.workers_view()[j].started),
            decreases self.workers.len() - i,
        {
            proof {
                assert(self.workers_view()[i as int] == WorkerRecord {
                    name: self.workers@[i as int].name_spec(),
                    started: self.workers@[i as int].started_spec(),
                });
            }
            if self.workers[i].has_name(name) && self.workers[i].is_started() {
                let runner = self.workers[i].runner();
                proof {
                    assert((#[trigger] self.workers_view()[i as int]).name == name@
                        && self.workers_view()[i as int].started);
                }
                return runner;
            }
            i += 1;
        }
        None
    }

    /// Stops every worker: each raises its stop signal, and the host joins
    /// the driving threads. Names and order are kept.
    pub fn stop_worker_threads(&mut self)
        ensures
            Self::only_workers_changed(old(self), final(self)),
            final(self).workers_view().len() == old(self).workers_view().len(),
            forall|j: int|
                0 <= j < final(self).workers_view().len() ==> (#[trigger] final(self).workers_view()[j]).name == old(self).workers_view()[j].name && !final(self).workers_view()[j].started,
    {
        let mut i: usize = 0;
        while i < self.workers.len()
            invariant
                i <= self.workers.len(),
                self.is_enabled == old(self).is_enabled,
                self.scheduler == old(self).scheduler,
                self.plugin_manager == old(self).plugin_manager,
                self.events == old(self).events,
                self.job_handler == old(self).job_handler,
                self.workers@.len() == old(self).workers@.len(),
                forall|j: int|
                    0 <= j < self.workers_view().len() ==> (#[trigger] self.workers_view()[j]).name
                        == old(self).workers_view()[j].name,
                forall|j: int|
                    0 <= j < i ==> !(#[trigger] self.workers_view()[j]).started,
            decreases self.workers.len() - i,
        {
            let ghost workers_before = self.workers@;
            let ghost view_before = self.workers_view();
            let worker = &mut self.workers[i];
            worker.stop();
            proof {
                assert(self.workers@ =~= workers_before.update(i as int, self.workers@[i as int]));
                assert forall|j: int|
                    0 <= j < self.workers_view().len() implies (
                #[trigger] self.workers_view()[j]).name == old(self).workers_view()[j].name by {
                    assert(self.workers_view()[j] == WorkerRecord {
                        name: self.workers@[j].name_spec(),
                        started: self.workers@[j].started_spec(),
                    });
                    assert(view_before[j] == WorkerRecord {
                        name: workers_before[j].name_spec(),
                        started: workers_before[j].started_spec(),
                    });
                }
                assert(!(#[trigger] self.workers_view()[i as int]).started);
                assert forall|j: int|
                    0 <= j < i + 1 implies !(#[trigger] self.workers_view()[j]).started by {
                    if j < i {
                        assert(view_before[j] == WorkerRecord {
                            name: workers_before[j].name_spec(),
                            started: workers_before[j].started_spec(),
                        });
                        assert(self.workers_view()[j] == view_before[j]);
                    }
                }
            }
            i += 1;
        }
    }

    /// Starts the standard pool: the five workers every application begins
    /// with, bound to the shared job queue. A worker that is already started
    /// stays as it is.
    pub fn setup_worker_threads(&mut self)
        ensures
            Self::only_workers_changed(old(self), final(self)),
            final(self).workers_view().len() >= old(self).workers_view().len(),
            forall|j: int|
                0 <= j < old(self).workers_view().len() ==> (#[trigger] final(self).workers_view()[j]).name == old(self).workers_view()[j].name && (old(self).workers_view()[j].started ==> final(self).workers_view()[j].started),
            (old(self).workers_view() == Seq::<WorkerRecord>::empty()) ==> (final(self).workers_view().len() == POOL_WORKERS && forall|j: int|
                0 <= j < final(self).workers_view().len() ==> (#[trigger] final(self).workers_view()[j]).started),
            worker_started(final(self).workers_view(), "Worker1"@),
            worker_started(final(self).workers_view(), "Worker2"@),
            worker_started(final(self).workers_view(), "Worker3"@),
            worker_started(final(self).workers_view(), "Worker4"@),
            worker_started(final(self).workers_view(), "Worker5"@),
    {
        proof {
            reveal_strlit("Worker1");
            reveal_strlit("Worker2");
            reveal_strlit("Worker3");
            reveal_strlit("Worker4");
            reveal_strlit("Worker5");
            assert(("Worker1"@)[6] == '1');
            assert(("Worker2"@)[6] == '2');
            assert(("Worker3"@)[6] == '3');
            assert(("Worker4"@)[6] == '4');
            assert(("Worker5"@)[6] == '5');
            assert("Worker1"@ != "Worker2"@);
            assert("Worker1"@ != "Worker3"@);
            assert("Worker1"@ != "Worker4"@);
            assert("Worker1"@ != "Worker5"@);
            assert("Worker2"@ != "Worker3"@);
            assert("Worker2"@ != "Worker4"@);
            assert("Worker2"@ != "Worker5"@);
            assert("Worker3"@ != "Worker4"@);
            assert("Worker3"@ != "Worker5"@);
            assert("Worker4"@ != "Worker5"@);
        }
        self.add_worker("Worker1");
        let ghost v1 = self.workers_view();
        self.add_worker("Worker2");
        let ghost v2 = self.workers_view();
        proof {
            lemma_worker_started_carry(v1, v2, "Worker1"@);
        }
        self.add_worker("Worker3");
        let ghost v3 = self.workers_view();
        proof {
            lemma_worker_started_carry(v2, v3, "Worker1"@);
            lemma_worker_started_carry(v2, v3, "Worker2"@);
        }
        self.add_worker("Worker4");
        let ghost v4 = self.workers_view();
        proof {
            lemma_worker_started_carry(v3, v4, "Worker1"@);
            lemma_worker_started_carry(v3, v4, "Worker2"@);
            lemma_worker_started_carry(v3, v4, "Worker3"@);
        }
        self.add_worker("Worker5");
        proof {
            lemma_worker_started_carry(v4, self.workers_view(), "Worker1"@);
            lemma_worker_started_carry(v4, self.workers_view(), "Worker2"@);
            lemma_worker_started_carry(v4, self.workers_view(), "Worker3"@);
            lemma_worker_started_carry(v4, self.workers_view(), "Worker4"@);
        }
    }

    /// Reconciles the enabled state, as when the window is shown or hidden:
    /// on disable the worker pool is stopped; on enable the stale jobs queued
    /// while disabled are discarded and the standard pool is restarted. A
    /// restarted worker keeps the private phase chain it held when it was
    /// stopped; the host only has to move a fresh [`Worker::runner`] onto a
    /// thread again.
    pub fn set_enabled(&mut self, enabled: bool)
        ensures
            old(self).wf() ==> final(self).wf(),
            final(self).enabled_spec() == enabled,
            final(self).phase_names() == old(self).phase_names(),
            final(self).phases_view() == old(self).phases_view(),
            final(self).last_tick_spec() == old(self).last_tick_spec(),
            final(self).plugins() == old(self).plugins(),
            final(self).next_plugin_id() == old(self).next_plugin_id(),
            final(self).events_spec() == old(self).events_spec(),
            old(self).enabled_spec() == enabled ==> final(self).workers_view() == old(self).workers_view(),
            old(self).enabled_spec() && !enabled ==> {
                &&& final(self).workers_view().len() == old(self).workers_view().len()
                &&& forall|j: int|
                    0 <= j < final(self).workers_view().len() ==> !(#[trigger] final(self).workers_view()[j]).started
            },
            !old(self).enabled_spec() && enabled ==> forall|j: int|
                0 <= j < old(self).workers_view().len() ==> ((#[trigger] old(self).workers_view()[j]).started ==> final(self).workers_view()[j].started),
            !old(self).enabled_spec() && enabled ==> {
                &&& worker_started(final(self).workers_view(), "Worker1"@)
                &&& worker_started(final(self).workers_view(), "Worker2"@)
                &&& worker_started(final(self).workers_view(), "Worker3"@)
                &&& worker_started(final(self).workers_view(), "Worker4"@)
                &&& worker_started(final(self).workers_view(), "Worker5"@)
            },
    {
        if self.is_enabled && !enabled {
            self.stop_worker_threads();
        } else if !self.is_enabled && enabled {
            self.job_handler.clear_pending_jobs();
            self.setup_worker_threads();
        }
        self.is_enabled = enabled;
    }

    /// Advances one frame: the main chain runs one tick under the current
    /// enabled state, exactly as [`Scheduler::run_once`] pins it down, and
    /// the result says whether any system asked the application to stop.
    /// Plugin hot-reload polling is the host's step, through
    /// [`App::plugins_to_reload`], once per frame while disabled.
    pub fn run_once(&mut self) -> (can_continue: bool)
        requires
            old(self).wf(),
        ensures
            final(self).wf(),
            final(self).enabled_spec() == old(self).enabled_spec(),
            final(self).phase_names() == old(self).phase_names(),
            final(self).plugins() == old(self).plugins(),
            final(self).next_plugin_id() == old(self).next_plugin_id(),
            final(self).events_spec() == old(self).events_spec(),
            final(self).workers_view() == old(self).workers_view(),
            tick_post(
                old(self).phases_view(),
                final(self).phases_view(),
                old(self).enabled_spec(),
                final(self).last_tick_spec(),
                can_continue,
            ),
    {
        self.scheduler.run_once(self.is_enabled)
    }

    /// The recorded trace of the most recent frame tick, in execution order.
    pub fn last_tick(&self) -> (trace: &Vec<RunRecord>)
        ensures
            trace@ == self.last_tick_spec(),
    {
        self.scheduler.last_tick()
    }

    /// The teardown journal, oldest first.
    pub fn events(&self) -> (events: &Vec<TeardownEvent>)
        ensures
            events@ == self.events_spec(),
    {
        &self.events
    }

    /// Whether a phase named `name` stands in the main chain.
    pub fn has_phase(&self, name: &str) -> (found: bool)
        ensures
            found == self.phase_names().contains(name@),
    {
        self.scheduler.has_phase(name)
    }

    /// Appends `phase` to the main chain; see [`Scheduler::create_phase`].
    pub fn create_phase(&mut self, phase: Phase<S>)
        requires
            old(self).wf(),
            !old(self).phase_names().contains(phase.name_spec()),
        ensures
            final(self).wf(),
            final(self).phase_names() == old(self).phase_names().push(phase.name_spec()),
            final(self).phases_view() == old(self).phases_view().push(phase.systems_spec()),
            final(self).enabled_spec() == old(self).enabled_spec(),
            final(self).last_tick_spec() == old(self).last_tick_spec(),
            final(self).plugins() == old(self).plugins(),
            final(self).next_plugin_id() == old(self).next_plugin_id(),
            final(self).events_spec() == old(self).events_spec(),
            final(self).workers_view() == old(self).workers_view(),
    {
        self.scheduler.create_phase(phase);
    }

    /// Splices `phase` immediately before the phase named
    /// `previous_phase_name`; see [`Scheduler::create_phase_before`].
    pub fn create_phase_before(&mut self, phase: Phase<S>, previous_phase_name: &str) -> (result:
        Result<(), CoreError>)
        requires
            old(self).wf(),
            !old(self).phase_names().contains(phase.name_spec()),
        ensures
            final(self).wf(),
            result is Ok <==> old(self).phase_names().contains(previous_phase_name@),
            result is Ok ==> exists|i: int|
                {
                    &&& 0 <= i < old(self).phase_names().len()
                    &&& old(self).phase_names()[i] == previous_phase_name@
                    &&& forall|j: int|
                        0 <= j < i ==> old(self).phase_names()[j] != previous_phase_name@
                    &&& final(self).phase_names() == old(self).phase_names().insert(
                        i,
                        phase.name_spec(),
                    )
                    &&& final(self).phases_view() == old(self).phases_view().insert(
                        i,
                        phase.systems_spec(),
                    )
                },
            result is Err ==> final(self).phase_names() == old(self).phase_names() && final(self).phases_view() == old(self).phases_view(),
            final(self).enabled_spec() == old(self).enabled_spec(),
            final(self).last_tick_spec() == old(self).last_tick_spec(),
            final(self).plugins() == old(self).plugins(),
            final(self).next_plugin_id() == old(self).next_plugin_id(),
            final(self).events_spec() == old(self).events_spec(),
            final(self).workers_view() == old(self).workers_view(),
    {
        self.scheduler.create_phase_before(phase, previous_phase_name)
    }

    /// Destroys the phase named `phase_name` in the main chain: each of its
    /// systems observes one `uninit`, in insertion order, and the journal
    /// records them in that order; see [`Scheduler::destroy_phase`].
    pub fn destroy_phase(&mut self, phase_name: &str) -> (result: Result<Vec<SystemId>, CoreError>)
        requires
            old(self).wf(),
        ensures
            final(self).wf(),
            result is Ok <==> old(self).phase_names().contains(phase_name@),
            result matches Ok(ids) ==> exists|i: int|
                {
                    &&& 0 <= i < old(self).phase_names().len()
                    &&& old(self).phase_names()[i] == phase_name@
                    &&& final(self).phase_names() == old(self).phase_names().remove(i)
                    &&& final(self).phases_view() == old(self).phases_view().remove(i)
                    &&& ids@.len() == old(self).phases_view()[i].len()
                    &&& forall|k: int|
                        0 <= k < ids@.len() ==> ids@[k] == old(self).phases_view()[i][k].id
                },
            result matches Ok(ids) ==> final(self).events_spec() == old(self).events_spec()
                + ids@.map_values(|id: SystemId| TeardownEvent::SystemUninited(id)),
            result matches Ok(ids) ==> !final(self).phase_names().contains(phase_name@),
            result is Err ==> *final(self) == *old(self),
            final(self).enabled_spec() == old(self).enabled_spec(),
            final(self).last_tick_spec() == old(self).last_tick_spec(),
            final(self).plugins() == old(self).plugins(),
            final(self).next_plugin_id() == old(self).next_plugin_id(),
            final(self).workers_view() == old(self).workers_view(),
    {
        let result = self.scheduler.destroy_phase(phase_name);
        match result {
            Ok(ids) => {
                proof {
                    let i = choose|i: int|
                        {
                            &&& 0 <= i < old(self).phase_names().len()
                            &&& old(self).phase_names()[i] == phase_name@
                            &&& self.phase_names() == old(self).phase_names().remove(i)
                        };
                    crate::scheduler::lemma_remove_unique_absent(
                        old(self).phase_names(),
                        self.phase_names(),
                        i,
                        phase_name@,
                    );
                }
                self.log_uninits(&ids);
                Ok(ids)
            },
            Err(e) => Err(e),
        }
    }

    /// A shared view of the phase named `phase_name` in the main chain; see
    /// [`Scheduler::get_phase`].
    pub fn get_phase(&self, phase_name: &str) -> (result: Result<&Phase<S>, CoreError>)
        ensures
            result is Ok <==> self.phase_names().contains(phase_name@),
            result matches Ok(phase) ==> exists|i: int|
                {
                    &&& 0 <= i < self.phase_names().len()
                    &&& self.phase_names()[i] == phase_name@
                    &&& phase.name_spec() == phase_name@
                    &&& phase.systems_spec() == self.phases_view()[i]
                },
    {
        let result = self.scheduler.get_phase(phase_name);
        proof {
            if result is Ok {
                let i = choose|i: int|
                    {
                        &&& 0 <= i < self.scheduler.names().len()
                        &&& self.scheduler.names()[i] == phase_name@
                    };
                assert(0 <= i < self.phase_names().len() && self.phase_names()[i] == phase_name@);
            }
        }
        result
    }

    /// An exclusive view of the main-chain phase named `phase_name`, for
    /// adding or removing systems; fails with `PhaseNotFound` if no phase
    /// carries that name. Phase names are fixed at construction, so the
    /// chain's names — and well-formedness — survive whatever the caller
    /// does through the reference; see [`crate::scheduler::phase_mut_post`].
    pub fn get_phase_mut(&mut self, phase_name: &str) -> (result: Result<&mut Phase<S>, CoreError>)
        requires
            old(self).wf(),
        ensures
            result is Ok <==> old(self).phase_names().contains(phase_name@),
            result matches Ok(phase) ==> crate::scheduler::phase_mut_post(
                old(self).phase_names(),
                old(self).phases_view(),
                final(self).phase_names(),
                final(self).phases_view(),
                phase_name@,
                *phase,
                *final(phase),
            ),
            result is Err ==> *final(self) == *old(self),
            final(self).enabled_spec() == old(self).enabled_spec(),
            final(self).last_tick_spec() == old(self).last_tick_spec(),
            final(self).plugins() == old(self).plugins(),
            final(self).next_plugin_id() == old(self).next_plugin_id(),
            final(self).events_spec() == old(self).events_spec(),
            final(self).workers_view() == old(self).workers_view(),
    {
        self.scheduler.get_phase_mut(phase_name)
    }

    /// Registers one more system into the main-chain phase named
    /// `phase_name`: the phase records the identity and focus capability the
    /// system declares now, and `init` has not run yet.
    pub fn add_system_to_phase(&mut self, phase_name: &str, system: S) -> (result: Result<
        (),
        CoreError,
    >)
        requires
            old(self).wf(),
        ensures
            final(self).wf(),
            result is Ok <==> old(self).phase_names().contains(phase_name@),
            final(self).phase_names() == old(self).phase_names(),
            result matches Ok(_) ==> exists|i: int|
                {
                    &&& 0 <= i < old(self).phase_names().len()
                    &&& old(self).phase_names()[i] == phase_name@
                    &&& final(self).phases_view().len() == old(self).phases_view().len()
                    &&& final(self).phases_view()[i].len() == old(self).phases_view()[i].len() + 1
                    &&& final(self).phases_view()[i] == old(self).phases_view()[i].push(
                        final(self).phases_view()[i].last(),
                    )
                    &&& !final(self).phases_view()[i].last().initialized
                    &&& forall|j: int|
                        0 <= j < old(self).phases_view().len() && j != i ==> #[trigger] final(self).phases_view()[j] == old(self).phases_view()[j]
                },
            result is Err ==> *final(self) == *old(self),
            final(self).enabled_spec() == old(self).enabled_spec(),
            final(self).last_tick_spec() == old(self).last_tick_spec(),
            final(self).plugins() == old(self).plugins(),
            final(self).next_plugin_id() == old(self).next_plugin_id(),
            final(self).events_spec() == old(self).events_spec(),
            final(self).workers_view() == old(self).workers_view(),
    {
        let result = self.scheduler.add_system(phase_name, system);
        proof {
            if result is Ok {
                let i = choose|i: int|
                    {
                        &&& 0 <= i < old(self).scheduler.names().len()
                        &&& old(self).scheduler.names()[i] == phase_name@
                        &&& self.scheduler.phases_view().len() == old(self).scheduler.phases_view().len()
                        &&& self.scheduler.phases_view()[i].len() == old(self).scheduler.phases_view()[i].len() + 1
                        &&& self.scheduler.phases_view()[i] == old(self).scheduler.phases_view()[i].push(self.scheduler.phases_view()[i].last())
                        &&& !self.scheduler.phases_view()[i].last().initialized
                        &&& forall|j: int|
                            0 <= j < old(self).scheduler.phases_view().len() && j != i
                                ==> #[trigger] self.scheduler.phases_view()[j] == old(self).scheduler.phases_view()[j]
                    };
                assert(0 <= i < old(self).phase_names().len() && old(self).phase_names()[i]
                    == phase_name@ && self.phases_view()[i] == old(self).phases_view()[i].push(
                    self.phases_view()[i].last(),
                ));
            }
        }
        result
    }

    /// Creates `phase` on the private chain of the worker named `name`,
    /// binding and starting that worker first if need be; reports whether
    /// the phase was created (it is not when the worker's chain already
    /// holds one of that name). The chain itself obeys
    /// [`Scheduler::create_phase`].
    pub fn create_phase_on_worker(&mut self, phase: Phase<S>, name: &str) -> (created: bool)
        ensures
            Self::only_workers_changed(old(self), final(self)),
            worker_started(final(self).workers_view(), name@),
    {
        self.add_worker(name);
        let found = self.worker_index(name);
        match found {
            Some(i) => self.workers[i].create_phase(phase),
            None => {
                proof {
                    let j = choose|j: int|
                        0 <= j < self.workers_view().len()
                            && (#[trigger] self.workers_view()[j]).name == name@
                            && self.workers_view()[j].started;
                    assert(self.workers_view()[j].name != name@);
                }
                false
            },
        }
    }

    /// Destroys the phase named `phase_name` on the private chain of the
    /// worker named `name`: each of its systems observes one `uninit`, the
    /// journal records them in order, and their identities are returned;
    /// `PhaseNotFound` if no such worker or no such phase exists.
    pub fn destroy_phase_on_worker(&mut self, phase_name: &str, name: &str) -> (result: Result<
        Vec<SystemId>,
        CoreError,
    >)
        ensures
            old(self).wf() ==> final(self).wf(),
            final(self).enabled_spec() == old(self).enabled_spec(),
            final(self).phase_names() == old(self).phase_names(),
            final(self).phases_view() == old(self).phases_view(),
            final(self).last_tick_spec() == old(self).last_tick_spec(),
            final(self).plugins() == old(self).plugins(),
            final(self).next_plugin_id() == old(self).next_plugin_id(),
            final(self).workers_view() == old(self).workers_view(),
            result matches Ok(ids) ==> final(self).events_spec() == old(self).events_spec()
                + ids@.map_values(|id: SystemId| TeardownEvent::SystemUninited(id)),
            result is Err ==> final(self).events_spec() == old(self).events_spec(),
            (forall|j: int|
                0 <= j < old(self).workers_view().len() ==> (#[trigger] old(self).workers_view()[j]).name != name@) ==> result is Err,
            result is Ok ==> exists|j: int|
                0 <= j < old(self).workers_view().len() && (#[trigger] old(self).workers_view()[j]).name == name@,
    {
        let found = self.worker_index(name);
        match found {
            Some(i) => {
                let result = self.workers[i].destroy_phase(phase_name);
                match result {
                    Ok(ids) => {
                        self.log_uninits(&ids);
                        Ok(ids)
                    },
                    Err(e) => Err(e),
                }
            },
            None => Err(CoreError::PhaseNotFound),
        }
    }

    /// The next identity the plugin registry will assign.
    pub closed spec fn next_plugin_id(&self) -> u64 {
        self.plugin_manager.next_id_spec()
    }

    /// The next identity the plugin registry will assign; lets the host see
    /// that registrations remain available.
    pub fn peek_next_plugin_id(&self) -> (next: u64)
        ensures
            next == self.next_plugin_id(),
    {
        self.plugin_manager.peek_next_id()
    }

    /// Records a loaded plugin — library token, path, file state and
    /// registered phases — under a fresh identity and returns it. The host
    /// performs the actual load and the registration calls before this.
    pub fn add_plugin(&mut self, data: PluginData) -> (id: PluginId)
        requires
            old(self).wf(),
            old(self).next_plugin_id() < u64::MAX,
        ensures
            final(self).wf(),
            id.0 == old(self).next_plugin_id(),
            final(self).next_plugin_id() == old(self).next_plugin_id() + 1,
            forall|i: int|
                0 <= i < old(self).plugins().len() ==> (#[trigger] old(self).plugins()[i]).id
                    != id,
            final(self).plugins().len() == old(self).plugins().len() + 1,
            final(self).plugins().last().id == id,
            final(self).plugins().last().data == data,
            forall|i: int|
                0 <= i < old(self).plugins().len() ==> #[trigger] final(self).plugins()[i] == old(self).plugins()[i],
            final(self).enabled_spec() == old(self).enabled_spec(),
            final(self).phase_names() == old(self).phase_names(),
            final(self).phases_view() == old(self).phases_view(),
            final(self).last_tick_spec() == old(self).last_tick_spec(),
            final(self).events_spec() == old(self).events_spec(),
            final(self).workers_view() == old(self).workers_view(),
    {
        self.plugin_manager.add_plugin(data)
    }

    /// The identities of the plugins whose backing file, per `observed`,
    /// changed since load: exactly those, in load order. The host polls this
    /// once per frame while the application is disabled, reads the files
    /// itself, and reloads each returned plugin by removing it and loading
    /// its original path again.
    pub fn plugins_to_reload(&self, observed: &Vec<FileSnapshot>) -> (changed: Vec<PluginId>)
        ensures
            changed@ == self.plugins().filter(
                |e: PluginEntry| crate::plugin::backing_file_changed(e.data, observed@),
            ).map_values(|e: PluginEntry| e.id),
    {
        self.plugin_manager.update(observed)
    }

    /// Tears one plugin's record down, two-phase: first every phase the
    /// plugin registered is destroyed — each of its systems observes
    /// `uninit`, recorded in the journal — and only then is the library
    /// token surrendered and journalled, so the host may unload the module.
    pub fn clear_plugin_data(&mut self, data: PluginData)
        requires
            old(self).wf(),
        ensures
            final(self).wf(),
            final(self).enabled_spec() == old(self).enabled_spec(),
            final(self).last_tick_spec() == old(self).last_tick_spec(),
            final(self).plugins() == old(self).plugins(),
            final(self).next_plugin_id() == old(self).next_plugin_id(),
            final(self).workers_view() == old(self).workers_view(),
            final(self).events_spec().len() > old(self).events_spec().len(),
            final(self).events_spec().take(old(self).events_spec().len() as int) == old(self).events_spec(),
            final(self).events_spec().last() == TeardownEvent::LibraryClosed(
                data.library.id_spec(),
            ),
            forall|k: int|
                old(self).events_spec().len() <= k < final(self).events_spec().len() - 1 ==> (
                #[trigger] final(self).events_spec()[k]) is SystemUninited,
            forall|j: int|
                0 <= j < data.phases@.len() && (#[trigger] data.phases@[j]).worker is None
                    ==> !final(self).phase_names().contains(data.phases@[j].name@),
            forall|n: Seq<char>|
                #[trigger] final(self).phase_names().contains(n) ==> old(self).phase_names().contains(n),
            // the uninit of every system of every main-chain phase the plugin
            // registered is journalled, by identity, before the close
            forall|j: int, i2: int, k2: int|
                0 <= j < data.phases@.len() && (#[trigger] data.phases@[j]).worker is None && 0
                    <= i2 < old(self).phase_names().len() && old(self).phase_names()[i2]
                    == data.phases@[j].name@ && 0 <= k2 < old(self).phases_view()[i2].len()
                    ==> final(self).events_spec().skip(old(self).events_spec().len() as int).contains(
                    TeardownEvent::SystemUninited(
                        (#[trigger] old(self).phases_view()[i2][k2]).id,
                    ),
                ),
    {
        let ghost base = self.events@;
        let mut i: usize = 0;
        proof {
            assert forall|i2: int, k2: int|
                0 <= i2 < old(self).phase_names().len() && 0 <= k2 < old(
                self).phases_view()[i2].len() implies {
                ||| exists|i1: int|
                    {
                        &&& 0 <= i1 < self.phase_names().len()
                        &&& (#[trigger] self.phase_names()[i1]) == old(self).phase_names()[i2]
                        &&& self.phases_view()[i1] == old(self).phases_view()[i2]
                    }
                ||| self.events@.skip(base.len() as int).contains(
                    TeardownEvent::SystemUninited(
                        (#[trigger] old(self).phases_view()[i2][k2]).id,
                    ),
                )
            } by {
                assert(0 <= i2 < self.phase_names().len() && self.phase_names()[i2] == old(
                    self,
                ).phase_names()[i2] && self.phases_view()[i2] == old(self).phases_view()[i2]);
            }
        }
        while i < data.phases.len()
            invariant
                base == old(self).events@,
                i <= data.phases@.len(),
                self.wf(),
                self.is_enabled == old(self).is_enabled,
                self.plugin_manager.plugins() == old(self).plugin_manager.plugins(),
                self.plugin_manager.next_id_spec() == old(self).plugin_manager.next_id_spec(),
                self.workers_view() == old(self).workers_view(),
                self.scheduler.last_tick_spec() == old(self).scheduler.last_tick_spec(),
                self.events@.len() >= base.len(),
                self.events@.take(base.len() as int) == base,
                forall|k: int|
                    base.len() <= k < self.events@.len() ==> (
                    #[trigger] self.events@[k]) is SystemUninited,
                forall|j: int|
                    0 <= j < i && (#[trigger] data.phases@[j]).worker is None
                        ==> !self.phase_names().contains(data.phases@[j].name@),
                forall|n: Seq<char>|
                    #[trigger] self.phase_names().contains(n) ==> old(self).phase_names().contains(n),
                // every system slot of the original chain is either still in
                // place, name and contents, or its uninit is journalled
                forall|i2: int, k2: int|
                    0 <= i2 < old(self).phase_names().len() && 0 <= k2 < old(
                    self).phases_view()[i2].len() ==> {
                        ||| exists|i1: int|
                            {
                                &&& 0 <= i1 < self.phase_names().len()
                                &&& (#[trigger] self.phase_names()[i1]) == old(
                                    self,
                                ).phase_names()[i2]
                                &&& self.phases_view()[i1] == old(self).phases_view()[i2]
                            }
                        ||| self.events@.skip(base.len() as int).contains(
                            TeardownEvent::SystemUninited(
                                (#[trigger] old(self).phases_view()[i2][k2]).id,
                            ),
                        )
                    },
            decreases data.phases@.len() - i,
        {
            let ghost sched_before = self.scheduler;
            let ghost names_before = self.phase_names();
            let ghost views_before = self.phases_view();
            let ghost ev_before = self.events@;
            let is_main = self.destroy_plugin_phase(&data.phases[i]);
            proof {
                assert forall|k: int|
                    0 <= k < ev_before.len() implies #[trigger] self.events@[k]
                    == ev_before[k] by {
                    assert(self.events@[k] == self.events@.take(ev_before.len() as int)[k]);
                }
                assert(self.events@.take(base.len() as int) =~= base);
                if is_main {
                    assert forall|j: int|
                        0 <= j < i + 1 && (#[trigger] data.phases@[j]).worker is None implies !self.phase_names().contains(
                        data.phases@[j].name@,
                    ) by {
                        if j < i && self.phase_names().contains(data.phases@[j].name@) {
                            assert(names_before.contains(data.phases@[j].name@));
                        }
                    }
                }
                let destroyed = is_main && names_before.contains(data.phases@[i as int].name@);
                let d: int = if destroyed {
                    choose|d: int|
                        {
                            &&& 0 <= d < names_before.len()
                            &&& (#[trigger] names_before[d]) == data.phases@[i as int].name@
                            &&& self.phase_names() == names_before.remove(d)
                            &&& self.phases_view() == views_before.remove(d)
                            &&& forall|k: int|
                                0 <= k < views_before[d].len() ==> self.events_spec().skip(
                                    ev_before.len() as int,
                                ).contains(
                                    TeardownEvent::SystemUninited(
                                        (#[trigger] views_before[d][k]).id,
                                    ),
                                )
                        }
                } else {
                    0
                };
                if destroyed {
                    sched_before.lemma_chains_in_step();
                    assert(views_before.len() == names_before.len());
                    names_before.remove_ensures(d);
                    views_before.remove_ensures(d);
                }
                assert forall|i2: int, k2: int|
                    0 <= i2 < old(self).phase_names().len() && 0 <= k2 < old(
                    self).phases_view()[i2].len() implies {
                    ||| exists|i1: int|
                        {
                            &&& 0 <= i1 < self.phase_names().len()
                            &&& (#[trigger] self.phase_names()[i1]) == old(
                                self,
                            ).phase_names()[i2]
                            &&& self.phases_view()[i1] == old(self).phases_view()[i2]
                        }
                    ||| self.events@.skip(base.len() as int).contains(
                        TeardownEvent::SystemUninited(
                            (#[trigger] old(self).phases_view()[i2][k2]).id,
                        ),
                    )
                } by {
                    let n2 = old(self).phase_names()[i2];
                    let v2 = old(self).phases_view()[i2];
                    let held = TeardownEvent::SystemUninited(old(self).phases_view()[i2][k2].id);
                    if exists|i1: int|
                        {
                            &&& 0 <= i1 < names_before.len()
                            &&& (#[trigger] names_before[i1]) == n2
                            &&& views_before[i1] == v2
                        } {
                        let w = choose|i1: int|
                            {
                                &&& 0 <= i1 < names_before.len()
                                &&& (#[trigger] names_before[i1]) == n2
                                &&& views_before[i1] == v2
                            };
                        if destroyed {
                            if w == d {
                                assert(views_before[d] == v2);
                                assert(self.events_spec().skip(ev_before.len() as int).contains(
                                    TeardownEvent::SystemUninited(
                                        (views_before[d][k2]).id,
                                    ),
                                ));
                                lemma_contains_in_longer_skip(
                                    self.events@,
                                    base.len() as int,
                                    ev_before.len() as int,
                                    held,
                                );
                            } else {
                                let w1: int = if w < d {
                                    w
                                } else {
                                    w - 1
                                };
                                assert(self.phase_names()[w1] == names_before[w]);
                                assert(self.phases_view()[w1] == views_before[w]);
                            }
                        } else {
                            assert(self.phase_names() == names_before);
                            assert(self.phases_view() == views_before);
                            assert(self.phase_names()[w] == n2 && self.phases_view()[w] == v2);
                        }
                    } else {
                        assert(ev_before.skip(base.len() as int).contains(held));
                        lemma_skip_contains_preserved(
                            ev_before,
                            self.events@,
                            base.len() as int,
                            held,
                        );
                    }
                }
            }
            i += 1;
        }
        let ghost names_after = self.phase_names();
        let ghost ev_after = self.events@;
        let PluginData { library, phases, .. } = data;
        let id = library.id();
        self.events.push(TeardownEvent::LibraryClosed(id));
        library.close();
        proof {
            assert(self.events@.take(base.len() as int) =~= base);
            assert(self.events@.last() == TeardownEvent::LibraryClosed(id));
            assert(self.phase_names() == names_after);
            assert forall|n: Seq<char>|
                #[trigger] self.phase_names().contains(n) implies old(
            self).phase_names().contains(n) by {
                assert(names_after.contains(n));
            }
            assert forall|j: int, i2: int, k2: int|
                0 <= j < phases@.len() && (#[trigger] phases@[j]).worker is None && 0 <= i2 < old(
                self).phase_names().len() && old(self).phase_names()[i2] == phases@[j].name@ && 0
                    <= k2 < old(self).phases_view()[i2].len() implies self.events@.skip(
                base.len() as int,
            ).contains(
                TeardownEvent::SystemUninited(
                    (#[trigger] old(self).phases_view()[i2][k2]).id,
                ),
            ) by {
                let held = TeardownEvent::SystemUninited(old(self).phases_view()[i2][k2].id);
                assert(!names_after.contains(old(self).phase_names()[i2]));
                if exists|i1: int|
                    {
                        &&& 0 <= i1 < names_after.len()
                        &&& (#[trigger] names_after[i1]) == old(self).phase_names()[i2]
                        &&& self.phases_view()[i1] == old(self).phases_view()[i2]
                    } {
                    let w = choose|i1: int|
                        {
                            &&& 0 <= i1 < names_after.len()
                            &&& (#[trigger] names_after[i1]) == old(self).phase_names()[i2]
                            &&& self.phases_view()[i1] == old(self).phases_view()[i2]
                        };
                    assert(names_after.contains(old(self).phase_names()[i2]));
                }
                assert(ev_after.skip(base.len() as int).contains(held));
                lemma_skip_contains_preserved(ev_after, self.events@, base.len() as int, held);
            }
        }
    }

    /// Destroys one phase a plugin registered, wherever it lives, recording
    /// the `uninit` of each of its systems; a phase already gone is skipped.
    /// Reports whether the phase lived on the main chain.
    fn destroy_plugin_phase(&mut self, plugin_phase: &crate::plugin::PluginPhase) -> (is_main:
        bool)
        requires
            old(self).wf(),
        ensures
            final(self).wf(),
            is_main == (plugin_phase.worker is None),
            final(self).enabled_spec() == old(self).enabled_spec(),
            final(self).plugins() == old(self).plugins(),
            final(self).next_plugin_id() == old(self).next_plugin_id(),
            final(self).workers_view() == old(self).workers_view(),
            final(self).last_tick_spec() == old(self).last_tick_spec(),
            final(self).events_spec().len() >= old(self).events_spec().len(),
            final(self).events_spec().take(old(self).events_spec().len() as int) == old(self).events_spec(),
            forall|k: int|
                old(self).events_spec().len() <= k < final(self).events_spec().len() ==> (
                #[trigger] final(self).events_spec()[k]) is SystemUninited,
            is_main ==> !final(self).phase_names().contains(plugin_phase.name@),
            forall|n: Seq<char>|
                #[trigger] final(self).phase_names().contains(n) ==> old(self).phase_names().contains(n),
            // a main-chain destroy removes exactly the named slot and
            // journals the uninit of each of its systems, by identity
            (is_main && old(self).phase_names().contains(plugin_phase.name@)) ==> exists|d: int|
                {
                    &&& 0 <= d < old(self).phase_names().len()
                    &&& (#[trigger] old(self).phase_names()[d]) == plugin_phase.name@
                    &&& final(self).phase_names() == old(self).phase_names().remove(d)
                    &&& final(self).phases_view() == old(self).phases_view().remove(d)
                    &&& forall|k: int|
                        0 <= k < old(self).phases_view()[d].len() ==> final(self).events_spec().skip(old(self).events_spec().len() as int).contains(
                            TeardownEvent::SystemUninited(
                                (#[trigger] old(self).phases_view()[d][k]).id,
                            ),
                        )
                },
            // otherwise the chain is untouched
            (is_main && !old(self).phase_names().contains(plugin_phase.name@)) ==> final(self).phase_names() == old(self).phase_names() && final(self).phases_view() == old(self).phases_view(),
            !is_main ==> final(self).phase_names() == old(self).phase_names() && final(self).phases_view() == old(self).phases_view(),
    {
        match &plugin_phase.worker {
            None => {
                let result = self.destroy_phase(plugin_phase.name.as_str());
                proof {
                    match result {
                        Ok(ids) => {
                            let i = choose|i: int|
                                {
                                    &&& 0 <= i < old(self).phase_names().len()
                                    &&& (#[trigger] old(self).phase_names()[i])
                                        == plugin_phase.name@
                                    &&& self.phase_names() == old(self).phase_names().remove(i)
                                    &&& self.phases_view() == old(self).phases_view().remove(i)
                                    &&& ids@.len() == old(self).phases_view()[i].len()
                                    &&& forall|k: int|
                                        0 <= k < ids@.len() ==> ids@[k] == old(self).phases_view()[i][k].id
                                };
                            assert forall|n: Seq<char>|
                                #[trigger] self.phase_names().contains(n) implies old(self).phase_names().contains(n) by {
                                let k = choose|k: int|
                                    0 <= k < self.phase_names().len()
                                        && #[trigger] self.phase_names()[k] == n;
                                let k0: int = if k < i {
                                    k
                                } else {
                                    k + 1
                                };
                                assert(old(self).phase_names()[k0] == n);
                            }
                            assert forall|k: int|
                                old(self).events_spec().len() <= k < self.events_spec().len() implies (
                            #[trigger] self.events_spec()[k]) is SystemUninited by {
                                let ghost seg = ids@.map_values(
                                    |id: SystemId| TeardownEvent::SystemUninited(id),
                                );
                                assert(self.events_spec()[k] == seg[k - old(self).events_spec().len()]);
                            }
                            assert(self.events_spec().take(old(self).events_spec().len() as int)
                                =~= old(self).events_spec());
                            assert forall|k: int|
                                0 <= k < old(self).phases_view()[i].len() implies self.events_spec().skip(
                                old(self).events_spec().len() as int,
                            ).contains(
                                TeardownEvent::SystemUninited(
                                    (#[trigger] old(self).phases_view()[i][k]).id,
                                ),
                            ) by {
                                let seg = self.events_spec().skip(
                                    old(self).events_spec().len() as int,
                                );
                                assert(ids@[k] == old(self).phases_view()[i][k].id);
                                assert(seg[k] == self.events_spec()[old(self).events_spec().len() + k]);
                                assert(seg[k] == TeardownEvent::SystemUninited(ids@[k]));
                            }
                        },
                        Err(_) => {
                            assert(!old(self).phase_names().contains(plugin_phase.name@));
                        },
                    }
                }
                return true;
            },
            Some(worker_name) => {
                let result = self.destroy_phase_on_worker(
                    plugin_phase.name.as_str(),
                    worker_name.as_str(),
                );
                proof {
                    match result {
                        Ok(ids) => {
                            assert forall|k: int|
                                old(self).events_spec().len() <= k < self.events_spec().len() implies (
                            #[trigger] self.events_spec()[k]) is SystemUninited by {
                                let ghost seg = ids@.map_values(
                                    |id: SystemId| TeardownEvent::SystemUninited(id),
                                );
                                assert(self.events_spec()[k] == seg[k - old(self).events_spec().len()]);
                            }
                            assert(self.events_spec().take(old(self).events_spec().len() as int)
                                =~= old(self).events_spec());
                        },
                        Err(_) => {
                        },
                    }
                }
                return false;
            },
        }
    }

    /// Removes the plugin stored under `plugin_id`, if any, and tears its
    /// record down: every phase it registered is destroyed — each system
    /// observing `uninit`, journalled in order — and only then is its
    /// library token surrendered, journalled last, so the host may unload
    /// the module. An unknown identity changes nothing.
    pub fn remove_plugin(&mut self, plugin_id: &PluginId)
        requires
            old(self).wf(),
        ensures
            final(self).wf(),
            final(self).enabled_spec() == old(self).enabled_spec(),
            final(self).last_tick_spec() == old(self).last_tick_spec(),
            final(self).workers_view() == old(self).workers_view(),
            final(self).next_plugin_id() == old(self).next_plugin_id(),
            (exists|i: int|
                0 <= i < old(self).plugins().len() && (#[trigger] old(self).plugins()[i]).id
                    == *plugin_id) ==> exists|i: int|
                {
                    &&& 0 <= i < old(self).plugins().len()
                    &&& (#[trigger] old(self).plugins()[i]).id == *plugin_id
                    &&& final(self).plugins() == old(self).plugins().remove(i)
                    &&& forall|j: int|
                        0 <= j < final(self).plugins().len() ==> (#[trigger] final(self).plugins()[j]).id != *plugin_id
                    &&& final(self).events_spec().len() > old(self).events_spec().len()
                    &&& final(self).events_spec().take(old(self).events_spec().len() as int)
                        == old(self).events_spec()
                    &&& final(self).events_spec().last() == TeardownEvent::LibraryClosed(
                        old(self).plugins()[i].data.library.id_spec(),
                    )
                    &&& forall|k: int|
                        old(self).events_spec().len() <= k < final(self).events_spec().len() - 1
                            ==> (#[trigger] final(self).events_spec()[k]) is SystemUninited
                    &&& forall|j: int|
                        0 <= j < old(self).plugins()[i].data.phases@.len() && (#[trigger] old(self).plugins()[i].data.phases@[j]).worker is None ==> !final(self).phase_names().contains(old(self).plugins()[i].data.phases@[j].name@)
                    &&& forall|j: int, i2: int, k2: int|
                        0 <= j < old(self).plugins()[i].data.phases@.len() && (#[trigger] old(self).plugins()[i].data.phases@[j]).worker is None && 0 <= i2 < old(self).phase_names().len() && old(self).phase_names()[i2] == old(self).plugins()[i].data.phases@[j].name@ && 0 <= k2 < old(self).phases_view()[i2].len()
                            ==> final(self).events_spec().skip(old(self).events_spec().len() as int).contains(
                            TeardownEvent::SystemUninited(
                                (#[trigger] old(self).phases_view()[i2][k2]).id,
                            ),
                        )
                },
            !(exists|i: int|
                0 <= i < old(self).plugins().len() && (#[trigger] old(self).plugins()[i]).id
                    == *plugin_id) ==> *final(self) == *old(self),
            forall|n: Seq<char>|
                #[trigger] final(self).phase_names().contains(n) ==> old(self).phase_names().contains(n),
    {
        let removed = self.plugin_manager.remove_plugin(plugin_id);
        match removed {
            Some(data) => {
                let ghost i = choose|i: int|
                    {
                        &&& 0 <= i < old(self).plugin_manager.plugins().len()
                        &&& (#[trigger] old(self).plugin_manager.plugins()[i]).id == *plugin_id
                        &&& data == old(self).plugin_manager.plugins()[i].data
                        &&& self.plugin_manager.plugins() == old(self).plugin_manager.plugins().remove(i)
                    };
                proof {
                    assert(0 <= i < old(self).plugins().len() && (#[trigger] old(self).plugins()[i]).id == *plugin_id);
                }
                let ghost names_mid = self.phase_names();
                let ghost views_mid = self.phases_view();
                let ghost ev_mid = self.events@;
                self.clear_plugin_data(data);
                proof {
                    assert((#[trigger] old(self).plugins()[i]).id == *plugin_id && final(self).plugins() == old(self).plugins().remove(i));
                    assert(names_mid == old(self).phase_names());
                    assert(views_mid == old(self).phases_view());
                    assert(ev_mid == old(self).events_spec());
                    assert forall|j: int, i2: int, k2: int|
                        0 <= j < old(self).plugins()[i].data.phases@.len() && (#[trigger] old(self).plugins()[i].data.phases@[j]).worker is None && 0 <= i2 < old(self).phase_names().len() && old(self).phase_names()[i2] == old(self).plugins()[i].data.phases@[j].name@ && 0 <= k2 < old(self).phases_view()[i2].len()
                            implies self.events_spec().skip(old(self).events_spec().len() as int).contains(
                            TeardownEvent::SystemUninited(
                                (#[trigger] old(self).phases_view()[i2][k2]).id,
                            ),
                        ) by {
                        assert(data.phases@[j] == old(self).plugins()[i].data.phases@[j]);
                        assert(views_mid[i2][k2] == old(self).phases_view()[i2][k2]);
                        assert(self.events_spec().skip(ev_mid.len() as int).contains(
                            TeardownEvent::SystemUninited((views_mid[i2][k2]).id),
                        ));
                    }
                }
            },
            None => {},
        }
    }

    /// Shuts the application down: stops every worker, destroys every phase
    /// of the main chain — each system observing one `uninit`, journalled in
    /// chain order — and then tears down every plugin, surrendering each
    /// library token only after its deregistration.
    pub fn shutdown(&mut self)
        requires
            old(self).wf(),
        ensures
            final(self).wf(),
            final(self).phase_names() == Seq::<Seq<char>>::empty(),
            final(self).plugins() == Seq::<PluginEntry>::empty(),
            final(self).workers_view().len() == old(self).workers_view().len(),
            final(self).next_plugin_id() == old(self).next_plugin_id(),
            forall|j: int|
                0 <= j < final(self).workers_view().len() ==> !(#[trigger] final(self).workers_view()[j]).started,
            final(self).events_spec().len() >= old(self).events_spec().len()
                + chain_uninit_events(old(self).phases_view()).len(),
            final(self).events_spec().take(old(self).events_spec().len() as int) == old(self).events_spec(),
            final(self).events_spec().subrange(
                old(self).events_spec().len() as int,
                old(self).events_spec().len() + chain_uninit_events(old(self).phases_view()).len() as int,
            ) == chain_uninit_events(old(self).phases_view()),
            removals_journal(
                old(self).plugins(),
                final(self).events_spec().skip(
                    old(self).events_spec().len() + chain_uninit_events(
                        old(self).phases_view(),
                    ).len() as int,
                ),
            ),
    {
        let ghost pre_views = old(self).phases_view();
        self.stop_worker_threads();
        let ids = self.scheduler.uninit();
        let mut q: usize = 0;
        proof {
            assert(pre_views.take(0) =~= Seq::<Seq<SystemRecord>>::empty());
            assert(self.events@ =~= old(self).events@ + chain_uninit_events(pre_views.take(0)));
        }
        while q < ids.len()
            invariant
                pre_views == old(self).phases_view(),
                self.wf(),
                self.scheduler.names() == Seq::<Seq<char>>::empty(),
                self.plugin_manager.plugins() == old(self).plugin_manager.plugins(),
                self.plugin_manager.next_id_spec() == old(self).plugin_manager.next_id_spec(),
                self.plugin_manager.wf(),
                self.workers_view().len() == old(self).workers_view().len(),
                forall|j: int|
                    0 <= j < self.workers_view().len() ==> !(#[trigger] self.workers_view()[j]).started,
                q <= ids@.len(),
                ids@.len() == pre_views.len(),
                forall|j: int|
                    0 <= j < pre_views.len() ==> {
                        &&& (#[trigger] ids@[j])@.len() == pre_views[j].len()
                        &&& forall|k: int|
                            0 <= k < ids@[j]@.len() ==> ids@[j]@[k] == pre_views[j][k].id
                    },
                self.events@ == old(self).events@ + chain_uninit_events(pre_views.take(q as int)),
            decreases ids@.len() - q,
        {
            let ghost ev_before = self.events@;
            self.log_uninits(&ids[q]);
            proof {
                assert(ids@[q as int]@.map_values(|id: SystemId| TeardownEvent::SystemUninited(id))
                    =~= pre_views[q as int].map_values(
                    |r: SystemRecord| TeardownEvent::SystemUninited(r.id),
                ));
                assert(pre_views.take(q as int + 1) =~= pre_views.take(q as int).push(
                    pre_views[q as int],
                ));
                lemma_chain_events_snoc(pre_views.take(q as int), pre_views[q as int]);
                assert(self.events@ =~= old(self).events@ + chain_uninit_events(
                    pre_views.take(q as int + 1),
                ));
            }
            q += 1;
        }
        proof {
            assert(pre_views.take(pre_views.len() as int) =~= pre_views);
        }
        let ghost mid = self.events@;
        let plugin_ids = self.plugin_manager.release();
        let ghost remaining = self.plugin_manager.plugins();
        let mut k: usize = 0;
        proof {
            assert(self.plugin_manager.plugins() =~= remaining.skip(0));
            assert(remaining.take(0) =~= Seq::<PluginEntry>::empty());
            assert(self.events@.skip(mid.len() as int) =~= Seq::<TeardownEvent>::empty());
            assert(removals_journal(remaining.take(0), self.events@.skip(mid.len() as int)));
        }
        while k < plugin_ids.len()
            invariant
                self.wf(),
                mid == old(self).events@ + chain_uninit_events(old(self).phases_view()),
                remaining == old(self).plugin_manager.plugins(),
                plugin_ids@.len() == remaining.len(),
                forall|j: int| 0 <= j < remaining.len() ==> plugin_ids@[j] == remaining[j].id,
                forall|a: int, b: int|
                    0 <= a < b < remaining.len() ==> (#[trigger] remaining[a]).id.0 < (
                    #[trigger] remaining[b]).id.0,
                k <= remaining.len(),
                self.plugin_manager.plugins() == remaining.skip(k as int),
                self.plugin_manager.next_id_spec() == old(self).plugin_manager.next_id_spec(),
                self.phase_names().len() == 0,
                self.workers_view().len() == old(self).workers_view().len(),
                forall|j: int|
                    0 <= j < self.workers_view().len() ==> !(#[trigger] self.workers_view()[j]).started,
                self.events@.len() >= mid.len(),
                self.events@.take(mid.len() as int) == mid,
                removals_journal(remaining.take(k as int), self.events@.skip(mid.len() as int)),
            decreases plugin_ids@.len() - k,
        {
            let id = plugin_ids[k];
            let ghost names_pre = self.phase_names();
            let ghost plugins_pre = self.plugins();
            let ghost ev_before = self.events@;
            proof {
                assert(plugins_pre[0] == remaining.skip(k as int)[0]);
                assert(remaining.skip(k as int)[0] == remaining[k as int]);
                assert(plugins_pre[0].id == id);
                assert(exists|i: int|
                    0 <= i < plugins_pre.len() && (#[trigger] plugins_pre[i]).id == id);
            }
            self.remove_plugin(&id);
            proof {
                let i = choose|i: int|
                    {
                        &&& 0 <= i < plugins_pre.len()
                        &&& (#[trigger] plugins_pre[i]).id == id
                        &&& self.plugins() == plugins_pre.remove(i)
                        &&& self.events_spec().len() > ev_before.len()
                        &&& self.events_spec().take(ev_before.len() as int) == ev_before
                        &&& self.events_spec().last() == TeardownEvent::LibraryClosed(
                            plugins_pre[i].data.library.id_spec(),
                        )
                        &&& forall|k2: int|
                            ev_before.len() <= k2 < self.events_spec().len() - 1 ==> (
                            #[trigger] self.events_spec()[k2]) is SystemUninited
                    };
                assert(i == 0) by {
                    if i > 0 {
                        assert(plugins_pre[i] == remaining.skip(k as int)[i]);
                        assert(remaining.skip(k as int)[i] == remaining[k as int + i]);
                        assert(remaining[k as int].id.0 < remaining[k as int + i].id.0);
                    }
                }
                assert(self.plugin_manager.plugins() =~= remaining.skip(k as int + 1));
                assert(self.phase_names().len() == 0) by {
                    if self.phase_names().len() > 0 {
                        assert(self.phase_names().contains(self.phase_names()[0]));
                        assert(names_pre.contains(self.phase_names()[0]));
                    }
                }
                assert forall|k2: int|
                    0 <= k2 < ev_before.len() implies #[trigger] self.events@[k2]
                    == ev_before[k2] by {
                    assert(self.events@[k2] == self.events@.take(ev_before.len() as int)[k2]);
                }
                assert(self.events@.take(mid.len() as int) =~= mid);
                let seg = self.events@.skip(ev_before.len() as int);
                assert(seg.len() >= 1);
                assert forall|k2: int|
                    0 <= k2 < seg.len() - 1 implies (#[trigger] seg[k2]) is SystemUninited by {
                    assert(seg[k2] == self.events@[ev_before.len() + k2]);
                }
                assert(seg.last() == self.events@.last());
                assert(seg.last() == TeardownEvent::LibraryClosed(
                    remaining[k as int].data.library.id_spec(),
                ));
                assert(self.events@.skip(mid.len() as int) =~= ev_before.skip(mid.len() as int)
                    + seg);
                lemma_removals_journal_snoc(
                    remaining.take(k as int),
                    ev_before.skip(mid.len() as int),
                    remaining[k as int],
                    seg,
                );
                assert(remaining.take(k as int + 1) =~= remaining.take(k as int).push(
                    remaining[k as int],
                ));
            }
            k += 1;
        }
        proof {
            assert(self.plugin_manager.plugins() =~= Seq::<PluginEntry>::empty());
            assert(self.phase_names() =~= Seq::<Seq<char>>::empty());
            assert(remaining.take(remaining.len() as int) =~= remaining);
            assert(self.events@.take(old(self).events@.len() as int) =~= old(self).events@);
            let chain = chain_uninit_events(old(self).phases_view());
            let a = old(self).events@.len() as int;
            assert(self.events@.take(mid.len() as int) == mid);
            assert(mid.skip(a) =~= chain);
            assert forall|t: int|
                0 <= t < chain.len() implies #[trigger] self.events@.subrange(
                a,
                a + chain.len() as int,
            )[t] == chain[t] by {
                assert(self.events@.subrange(a, a + chain.len() as int)[t] == self.events@[a + t]);
                assert(self.events@[a + t] == self.events@.take(mid.len() as int)[a + t]);
                assert(mid[a + t] == mid.skip(a)[t]);
            }
            assert(self.events@.subrange(a, a + chain.len() as int) =~= chain);
            assert(self.events@.subrange(
                old(self).events@.len() as int,
                old(self).events@.len() + chain_uninit_events(old(self).phases_view()).len() as int,
            ) == self.events@.subrange(a, a + chain.len() as int));
        }
    }

    /// Law: in every teardown the journal records, each `uninit` the
    /// plugin's systems observed stands strictly before the surrender of the
    /// plugin's library token. `pre` and `post` are the journal before and
    /// after one removal, in the shape [`App::clear_plugin_data`] ensures.
    pub proof fn lemma_uninit_before_unload(
        pre: Seq<TeardownEvent>,
        post: Seq<TeardownEvent>,
        lib: u64,
    )
        requires
            post.len() > pre.len(),
            post.take(pre.len() as int) == pre,
            post.last() == TeardownEvent::LibraryClosed(lib),
            forall|k: int|
                pre.len() <= k < post.len() - 1 ==> (#[trigger] post[k]) is SystemUninited,
        ensures
            forall|k: int|
                pre.len() <= k < post.len() && (#[trigger] post[k]) is SystemUninited ==> k
                    < post.len() - 1,
    {
        assert(post.last() == post[post.len() - 1]);
    }

    /// Records `uninit` observations in the journal, in order.
    fn log_uninits(&mut self, ids: &Vec<SystemId>)
        ensures
            final(self).events_spec() == old(self).events_spec() + ids@.map_values(
                |id: SystemId| TeardownEvent::SystemUninited(id),
            ),
            final(self).enabled_spec() == old(self).enabled_spec(),
            final(self).phase_names() == old(self).phase_names(),
            final(self).phases_view() == old(self).phases_view(),
            final(self).last_tick_spec() == old(self).last_tick_spec(),
            final(self).plugins() == old(self).plugins(),
            final(self).next_plugin_id() == old(self).next_plugin_id(),
            final(self).workers_view() == old(self).workers_view(),
            old(self).wf() ==> final(self).wf(),
    {
        let ghost target = old(self).events@ + ids@.map_values(
            |id: SystemId| TeardownEvent::SystemUninited(id),
        );
        let mut k: usize = 0;
        while k < ids.len()
            invariant
                target == old(self).events@ + ids@.map_values(
                    |id: SystemId| TeardownEvent::SystemUninited(id),
                ),
                k <= ids@.len(),
                self.is_enabled == old(self).is_enabled,
                self.scheduler == old(self).scheduler,
                self.plugin_manager == old(self).plugin_manager,
                self.workers == old(self).workers,
                self.job_handler == old(self).job_handler,
                self.events@ == target.take(old(self).events@.len() + k),
            decreases ids@.len() - k,
        {
            proof {
                assert(target[old(self).events@.len() + k] == TeardownEvent::SystemUninited(
                    ids@[k as int],
                ));
            }
            self.events.push(TeardownEvent::SystemUninited(ids[k]));
            proof {
                assert(self.events@ =~= target.take(old(self).events@.len() + k + 1));
            }
            k += 1;
        }
        proof {
            assert(self.events@ =~= target);
        }
    }
}

} // verus!
