//! A `Phase`: a named, ordered collection of systems executed together.
//!
//! Insertion order is execution order. The phase records, for every system it
//! owns, the identity and the focus capability the system declared when it was
//! added, and whether `init` has already run; the scheduler drives the
//! per-tick execution through [`Phase::run_systems`].

use vstd::prelude::*;

use crate::system::System;
use crate::system::SystemId;

verus! {

/// Spec-level record of one registered system: what the phase knows about it.
pub ghost struct SystemRecord {
    /// Identity the system declared when it was added.
    pub id: SystemId,
    /// Focus capability the system declared when it was added.
    pub run_when_not_focused: bool,
    /// Whether `init` has run already.
    pub initialized: bool,
}

/// Whether a system takes part in a tick under the given focus state.
pub open spec fn eligible(rec: SystemRecord, is_enabled: bool) -> bool {
    is_enabled || rec.run_when_not_focused
}

/// One `run` call of one system, as recorded in the tick trace.
#[derive(Debug, Clone, Copy, PartialEq, Eq, Structural)]
pub struct RunRecord {
    /// Index of the owning phase in the chain at the start of the tick.
    pub phase_index: usize,
    /// Index of the system within its phase.
    pub system_index: usize,
    /// Identity of the system that ran.
    pub id: SystemId,
    /// What the system's `run` returned: `false` asks the application to stop.
    pub continued: bool,
}

struct SystemEntry<S> {
    id: SystemId,
    run_when_not_focused: bool,
    initialized: bool,
    system: S,
}

impl<S> SystemEntry<S> {
    spec fn record(&self) -> SystemRecord {
        SystemRecord {
            id: self.id,
            run_when_not_focused: self.run_when_not_focused,
            initialized: self.initialized,
        }
    }
}

/// Whether `appended` records a run of the system at index `s`.
pub open spec fn appended_has(appended: Seq<RunRecord>, s: int) -> bool {
    exists|k: int| 0 <= k < appended.len() && (#[trigger] appended[k]).system_index == s
}

/// What one phase's share of a tick guarantees, relating the records before
/// (`pre`) and after (`post`) to the slice of the tick trace the phase
/// appended. The run results themselves are the systems' own business; the
/// predicate pins everything else: who ran, in what order, and how the
/// lifecycle flags moved.
pub open spec fn phase_run_post(
    pre: Seq<SystemRecord>,
    post: Seq<SystemRecord>,
    is_enabled: bool,
    phase_index: usize,
    appended: Seq<RunRecord>,
    stopped: bool,
) -> bool {
    &&& post.len() == pre.len()
    // identity and capability never change; `init` has run exactly for the
    // systems that were already initialized or ran this tick
    &&& forall|s: int|
        0 <= s < pre.len() ==> {
            &&& (#[trigger] post[s]).id == pre[s].id
            &&& post[s].run_when_not_focused == pre[s].run_when_not_focused
            &&& post[s].initialized == (pre[s].initialized || appended_has(appended, s))
        }
    // every recorded run is of an eligible system of this phase, under the
    // identity the phase recorded for it
    &&& forall|k: int|
        0 <= k < appended.len() ==> {
            &&& (#[trigger] appended[k]).phase_index == phase_index
            &&& appended[k].system_index < pre.len()
            &&& eligible(pre[appended[k].system_index as int], is_enabled)
            &&& appended[k].id == pre[appended[k].system_index as int].id
        }
    // strict insertion order: no reordering, no repeats
    &&& forall|k1: int, k2: int|
        0 <= k1 < k2 < appended.len() ==> (#[trigger] appended[k1]).system_index < (
        #[trigger] appended[k2]).system_index
    // no eligible system that stands before a recorded one is skipped
    &&& forall|k: int, s: int|
        0 <= k < appended.len() && 0 <= s < (#[trigger] appended[k]).system_index && eligible(
            #[trigger] pre[s],
            is_enabled,
        ) ==> appended_has(appended, s)
    // a system returning `false` ends the tick at once
    &&& forall|k: int|
        0 <= k < appended.len() && !(#[trigger] appended[k]).continued ==> k == appended.len() - 1
    &&& stopped == (appended.len() > 0 && !appended.last().continued)
    // unless a system stopped the tick, every eligible system ran
    &&& !stopped ==> forall|s: int|
        0 <= s < pre.len() && eligible(#[trigger] pre[s], is_enabled) ==> appended_has(appended, s)
}

// What holds midway through one phase's tick, after the systems before index
// `s` have been considered: `cur` are the records as they stand, `app` the
// trace slice appended so far (all of it continuing).
spec fn run_loop_inv(
    pre: Seq<SystemRecord>,
    cur: Seq<SystemRecord>,
    app: Seq<RunRecord>,
    is_enabled: bool,
    phase_index: usize,
    s: int,
) -> bool {
    &&& cur.len() == pre.len()
    &&& 0 <= s <= pre.len()
    &&& forall|j: int| s <= j < pre.len() ==> #[trigger] cur[j] == pre[j]
    &&& forall|j: int|
        0 <= j < s ==> {
            &&& (#[trigger] cur[j]).id == pre[j].id
            &&& cur[j].run_when_not_focused == pre[j].run_when_not_focused
            &&& cur[j].initialized == (pre[j].initialized || appended_has(app, j))
        }
    &&& forall|k: int|
        0 <= k < app.len() ==> {
            &&& (#[trigger] app[k]).phase_index == phase_index
            &&& app[k].system_index < s
            &&& eligible(pre[app[k].system_index as int], is_enabled)
            &&& app[k].id == pre[app[k].system_index as int].id
            &&& app[k].continued
        }
    &&& forall|k1: int, k2: int|
        0 <= k1 < k2 < app.len() ==> (#[trigger] app[k1]).system_index < (
        #[trigger] app[k2]).system_index
    &&& forall|j: int|
        0 <= j < s && eligible(#[trigger] pre[j], is_enabled) ==> appended_has(app, j)
}

// One eligible system at index `s` ran and was recorded: the invariant either
// moves past `s` (the system continued) or the whole phase postcondition
// holds with `stopped` (it did not).
proof fn lemma_run_step(
    pre: Seq<SystemRecord>,
    mid: Seq<SystemRecord>,
    post: Seq<SystemRecord>,
    app_old: Seq<RunRecord>,
    app: Seq<RunRecord>,
    is_enabled: bool,
    phase_index: usize,
    s: usize,
    continued: bool,
)
    requires
        run_loop_inv(pre, mid, app_old, is_enabled, phase_index, s as int),
        (s as int) < pre.len(),
        eligible(pre[s as int], is_enabled),
        post == mid.update(
            s as int,
            SystemRecord {
                id: pre[s as int].id,
                run_when_not_focused: pre[s as int].run_when_not_focused,
                initialized: true,
            },
        ),
        app == app_old.push(
            RunRecord { phase_index, system_index: s, id: pre[s as int].id, continued },
        ),
    ensures
        continued ==> run_loop_inv(pre, post, app, is_enabled, phase_index, s + 1),
        !continued ==> phase_run_post(pre, post, is_enabled, phase_index, app, true),
{
    assert forall|j: int| 0 <= j < pre.len() implies appended_has(app, j) == (appended_has(
        app_old,
        j,
    ) || j == s as int) by {
        if appended_has(app_old, j) {
            let k = choose|k: int|
                0 <= k < app_old.len() && (#[trigger] app_old[k]).system_index == j;
            assert(app[k].system_index == j);
        }
        if j == s as int {
            assert(app[app.len() - 1].system_index == j);
        }
        if appended_has(app, j) && !appended_has(app_old, j) {
            let k = choose|k: int| 0 <= k < app.len() && (#[trigger] app[k]).system_index == j;
            if k < app.len() - 1 {
                assert(app_old[k].system_index == j);
            }
        }
    }
    assert forall|j: int|
        0 <= j < s + 1 && eligible(#[trigger] pre[j], is_enabled) implies appended_has(
        app,
        j,
    ) by {}
    if !continued {
        assert(app.last() == app[app.len() - 1]);
        assert forall|j: int| 0 <= j < pre.len() implies {
            &&& (#[trigger] post[j]).id == pre[j].id
            &&& post[j].run_when_not_focused == pre[j].run_when_not_focused
            &&& post[j].initialized == (pre[j].initialized || appended_has(app, j))
        } by {
            if j > s as int {
                assert(!appended_has(app_old, j));
            }
        }
        assert forall|k: int, j: int|
            0 <= k < app.len() && 0 <= j < (#[trigger] app[k]).system_index && eligible(
                #[trigger] pre[j],
                is_enabled,
            ) implies appended_has(app, j) by {}
    }
}

// The loop ran past every system: the phase postcondition holds without a
// stop.
proof fn lemma_run_finish(
    pre: Seq<SystemRecord>,
    cur: Seq<SystemRecord>,
    app: Seq<RunRecord>,
    is_enabled: bool,
    phase_index: usize,
)
    requires
        run_loop_inv(pre, cur, app, is_enabled, phase_index, pre.len() as int),
    ensures
        phase_run_post(pre, cur, is_enabled, phase_index, app, false),
{
    if app.len() > 0 {
        assert(app.last() == app[app.len() - 1]);
    }
    assert forall|k: int, j: int|
        0 <= k < app.len() && 0 <= j < (#[trigger] app[k]).system_index && eligible(
            #[trigger] pre[j],
            is_enabled,
        ) implies appended_has(app, j) by {}
}

/// A named, ordered group of systems executed together each tick.
pub struct Phase<S> {
    name: String,
    systems: Vec<SystemEntry<S>>,
}

impl<S: System> Phase<S> {
    /// The phase's name, as a sequence of characters.
    pub closed spec fn name_spec(&self) -> Seq<char> {
        self.name@
    }

    /// What the phase knows of its systems, in insertion order.
    pub closed spec fn systems_spec(&self) -> Seq<SystemRecord> {
        self.systems@.map_values(|e: SystemEntry<S>| e.record())
    }

    /// Creates an empty phase under the given name.
    pub fn new(name: &str) -> (phase: Phase<S>)
        ensures
            phase.name_spec() == name@,
            phase.systems_spec() == Seq::<SystemRecord>::empty(),
    {
        let phase = Phase { name: name.to_owned(), systems: Vec::new() };
        proof {
            assert(phase.systems_spec() =~= Seq::<SystemRecord>::empty());
        }
        phase
    }

    /// The phase's name.
    pub fn get_name(&self) -> (name: &str)
        ensures
            name@ == self.name_spec(),
    {
        self.name.as_str()
    }

    /// Whether the phase carries the given name.
    pub fn has_name(&self, name: &str) -> (found: bool)
        ensures
            found == (self.name_spec() == name@),
    {
        let other = name.to_owned();
        self.name == other
    }

    /// Uninitializes every system, in insertion order, and drops them all,
    /// returning their identities in that order. Each system observes
    /// exactly one `uninit`, whether or not `init` ever ran.
    pub fn uninit_systems(&mut self) -> (ids: Vec<SystemId>)
        ensures
            final(self).name_spec() == old(self).name_spec(),
            final(self).systems_spec() == Seq::<SystemRecord>::empty(),
            ids@.len() == old(self).systems_spec().len(),
            forall|k: int|
                0 <= k < ids@.len() ==> ids@[k] == old(self).systems_spec()[k].id,
    {
        let ghost pre = self.systems_spec();
        let mut ids: Vec<SystemId> = Vec::new();
        let mut k: usize = 0;
        while k < self.systems.len()
            invariant
                pre == old(self).systems_spec(),
                k <= self.systems.len(),
                self.name_spec() == old(self).name_spec(),
                self.systems_spec() == pre,
                ids@.len() == k,
                forall|j: int| 0 <= j < k ==> ids@[j] == pre[j].id,
            decreases self.systems.len() - k,
        {
            proof {
                assert(self.systems_spec()[k as int] == pre[k as int]);
                assert(self.systems@[k as int].record() == pre[k as int]);
            }
            let ghost before_borrow = self.systems@;
            let entry = &mut self.systems[k];
            entry.system.uninit();
            let id = entry.id;
            proof {
                assert(self.systems@ =~= before_borrow.update(k as int, self.systems@[k as int]));
                assert(self.systems_spec() =~= pre);
            }
            ids.push(id);
            k += 1;
        }
        self.systems = Vec::new();
        proof {
            assert(self.systems_spec() =~= Seq::<SystemRecord>::empty());
        }
        ids
    }

    /// How many systems the phase holds.
    pub fn systems_count(&self) -> (n: usize)
        ensures
            n == self.systems_spec().len(),
    {
        self.systems.len()
    }

    /// Appends a system. The phase records the identity and the focus
    /// capability the system declares at this moment; `init` has not run yet.
    pub fn add_system(&mut self, system: S)
        ensures
            final(self).name_spec() == old(self).name_spec(),
            final(self).systems_spec().len() == old(self).systems_spec().len() + 1,
            final(self).systems_spec() == old(self).systems_spec().push(
                final(self).systems_spec().last(),
            ),
            !final(self).systems_spec().last().initialized,
    {
        let id = system.id();
        let run_when_not_focused = system.should_run_when_not_focused();
        let entry = SystemEntry { id, run_when_not_focused, initialized: false, system };
        self.systems.push(entry);
        proof {
            assert(self.systems_spec() =~= old(self).systems_spec().push(
                self.systems_spec().last(),
            ));
        }
    }

    /// Runs one tick's worth of this phase: every eligible system, in
    /// insertion order, `init` first where it has not run yet, stopping at
    /// once if a system's `run` returns `false`. Each run is appended to
    /// `trace` under the given `phase_index`.
    pub fn run_systems(&mut self, is_enabled: bool, phase_index: usize, trace: &mut Vec<
        RunRecord,
    >) -> (stopped: bool)
        ensures
            final(self).name_spec() == old(self).name_spec(),
            final(trace)@.len() >= old(trace)@.len(),
            final(trace)@.take(old(trace)@.len() as int) == old(trace)@,
            phase_run_post(
                old(self).systems_spec(),
                final(self).systems_spec(),
                is_enabled,
                phase_index,
                final(trace)@.skip(old(trace)@.len() as int),
                stopped,
            ),
    {
        let ghost pre = self.systems_spec();
        let ghost base = trace@;
        let mut s: usize = 0;
        while s < self.systems.len()
            invariant
                pre == old(self).systems_spec(),
                base == old(trace)@,
                s <= self.systems.len(),
                self.systems@.len() == pre.len(),
                self.name_spec() == old(self).name_spec(),
                trace@.len() >= base.len(),
                trace@.take(base.len() as int) == base,
                run_loop_inv(
                    pre,
                    self.systems_spec(),
                    trace@.skip(base.len() as int),
                    is_enabled,
                    phase_index,
                    s as int,
                ),
            decreases self.systems.len() - s,
        {
            proof {
                assert(self.systems_spec()[s as int] == pre[s as int]);
                assert(self.systems@[s as int].record() == pre[s as int]);
            }
            let run_when_not_focused = self.systems[s].run_when_not_focused;
            if is_enabled || run_when_not_focused {
                let ghost mid = self.systems_spec();
                let ghost before_borrow = self.systems@;
                let entry = &mut self.systems[s];
                if !entry.initialized {
                    entry.system.init();
                    entry.initialized = true;
                }
                let id = entry.id;
                let continued = entry.system.run();
                proof {
                    assert(self.systems@ =~= before_borrow.update(
                        s as int,
                        self.systems@[s as int],
                    ));
                    assert(self.systems_spec() =~= mid.update(
                        s as int,
                        SystemRecord {
                            id: pre[s as int].id,
                            run_when_not_focused: pre[s as int].run_when_not_focused,
                            initialized: true,
                        },
                    ));
                }
                let ghost app_old = trace@.skip(base.len() as int);
                trace.push(RunRecord { phase_index, system_index: s, id, continued });
                proof {
                    assert(trace@.take(base.len() as int) =~= base);
                    assert(trace@.skip(base.len() as int) =~= app_old.push(
                        RunRecord { phase_index, system_index: s, id: pre[s as int].id, continued },
                    ));
                    lemma_run_step(
                        pre,
                        mid,
                        self.systems_spec(),
                        app_old,
                        trace@.skip(base.len() as int),
                        is_enabled,
                        phase_index,
                        s,
                        continued,
                    );
                }
                if !continued {
                    return true;
                }
            }
            s += 1;
        }
        proof {
            lemma_run_finish(
                pre,
                self.systems_spec(),
                trace@.skip(base.len() as int),
                is_enabled,
                phase_index,
            );
        }
        false
    }

    /// Removes the first system registered under `id`, calling its `uninit`
    /// first, and reports whether one was found.
    pub fn remove_system(&mut self, id: &SystemId) -> (removed: bool)
        ensures
            final(self).name_spec() == old(self).name_spec(),
            removed == (exists|k: int|
                0 <= k < old(self).systems_spec().len() && old(self).systems_spec()[k].id == *id),
            removed ==> exists|k: int|
                {
                    &&& 0 <= k < old(self).systems_spec().len()
                    &&& old(self).systems_spec()[k].id == *id
                    &&& forall|j: int| 0 <= j < k ==> old(self).systems_spec()[j].id != *id
                    &&& final(self).systems_spec() == old(self).systems_spec().remove(k)
                },
            !removed ==> final(self).systems_spec() == old(self).systems_spec(),
    {
        let mut k: usize = 0;
        while k < self.systems.len()
            invariant
                k <= self.systems.len(),
                *self == *old(self),
                forall|j: int| 0 <= j < k ==> old(self).systems_spec()[j].id != *id,
            decreases self.systems.len() - k,
        {
            proof {
                assert(self.systems_spec()[k as int] == self.systems@[k as int].record());
            }
            if self.systems[k].id == *id {
                let mut entry = self.systems.remove(k);
                entry.system.uninit();
                proof {
                    assert(self.systems_spec() =~= old(self).systems_spec().remove(k as int));
                }
                return true;
            }
            k += 1;
        }
        false
    }
}

} // verus!
