//! The scheduler: an ordered chain of phases driven once per frame tick.
//!
//! Phase names are unique within one scheduler; every lookup by name is
//! fallible and reports [`CoreError::PhaseNotFound`] instead of panicking.
//! `run_once` executes each phase's systems in chain order and records the
//! tick in a trace whose exact shape is pinned by [`tick_post`].

use vstd::prelude::*;

use crate::phase::Phase;
use crate::phase::RunRecord;
use crate::phase::SystemRecord;
use crate::phase::eligible;
use crate::phase::appended_has;
use crate::phase::phase_run_post;
use crate::system::System;
use crate::system::SystemId;

verus! {

/// A recoverable failure of the scheduling core.
#[derive(Debug, Clone, Copy, PartialEq, Eq, Structural)]
pub enum CoreError {
    /// A phase lookup by name found no phase under that name.
    PhaseNotFound,
}

/// Whether the names are pairwise distinct.
pub open spec fn names_unique(names: Seq<Seq<char>>) -> bool {
    forall|i: int, j: int|
        0 <= i < j < names.len() ==> #[trigger] names[i] != #[trigger] names[j]
}

/// Removing the unique phase of a given name leaves no phase of that name.
pub proof fn lemma_remove_unique_absent(
    pre: Seq<Seq<char>>,
    post: Seq<Seq<char>>,
    i: int,
    name: Seq<char>,
)
    requires
        names_unique(pre),
        0 <= i < pre.len(),
        pre[i] == name,
        post == pre.remove(i),
    ensures
        !post.contains(name),
{
    if post.contains(name) {
        let k = choose|k: int| 0 <= k < post.len() && #[trigger] post[k] == name;
        let k0: int = if k < i {
            k
        } else {
            k + 1
        };
        assert(pre[k0] == name);
        assert(pre[i] == pre[k0] && i != k0);
    }
}

/// What an exclusive phase lookup guarantees: some index `i` carries the
/// requested name; the returned phase starts as that slot's phase; and the
/// final chain differs from the old one only at `i`, where it follows
/// whatever the caller left in the returned phase. Phase names are fixed at
/// construction, so the names — and with them well-formedness — survive.
pub open spec fn phase_mut_post<S: System>(
    pre_names: Seq<Seq<char>>,
    pre_views: Seq<Seq<SystemRecord>>,
    post_names: Seq<Seq<char>>,
    post_views: Seq<Seq<SystemRecord>>,
    name: Seq<char>,
    phase_pre: Phase<S>,
    phase_post: Phase<S>,
) -> bool {
    exists|i: int|
        {
            &&& 0 <= i < pre_names.len()
            &&& pre_names[i] == name
            &&& phase_pre.name_spec() == name
            &&& phase_pre.systems_spec() == pre_views[i]
            &&& post_names.len() == pre_names.len()
            &&& post_views.len() == pre_views.len()
            &&& post_names[i] == phase_post.name_spec()
            &&& post_views[i] == phase_post.systems_spec()
            &&& forall|j: int|
                0 <= j < pre_names.len() && j != i ==> #[trigger] post_names[j] == pre_names[j]
                    && post_views[j] == pre_views[j]
        }
}

/// Whether `trace` records a run of system `s` of phase `p`.
pub open spec fn trace_has(trace: Seq<RunRecord>, p: int, s: int) -> bool {
    exists|k: int|
        0 <= k < trace.len() && (#[trigger] trace[k]).phase_index == p
            && trace[k].system_index == s
}

/// Chain order: `a` was recorded for an earlier slot than `b`.
pub open spec fn pos_before(a: RunRecord, b: RunRecord) -> bool {
    ||| a.phase_index < b.phase_index
    ||| (a.phase_index == b.phase_index && a.system_index < b.system_index)
}

/// What one whole tick guarantees: `pre` and `post` are the per-phase system
/// records before and after, `trace` is the recorded tick. Everything but the
/// systems' own run results is pinned: eligible systems run in strict chain
/// order, a `false` stops the tick at once, and `init` flags move exactly for
/// the systems that ran.
pub open spec fn tick_post(
    pre: Seq<Seq<SystemRecord>>,
    post: Seq<Seq<SystemRecord>>,
    is_enabled: bool,
    trace: Seq<RunRecord>,
    can_continue: bool,
) -> bool {
    &&& post.len() == pre.len()
    &&& forall|p: int| 0 <= p < pre.len() ==> (#[trigger] post[p]).len() == pre[p].len()
    // identity and capability survive the tick; `init` has run exactly for
    // the systems that were already initialized or ran
    &&& forall|p: int, s: int|
        0 <= p < pre.len() && 0 <= s < pre[p].len() ==> {
            &&& (#[trigger] post[p][s]).id == pre[p][s].id
            &&& post[p][s].run_when_not_focused == pre[p][s].run_when_not_focused
            &&& post[p][s].initialized == (pre[p][s].initialized || trace_has(trace, p, s))
        }
    // every recorded run is of an eligible system, under its recorded id
    &&& forall|k: int|
        0 <= k < trace.len() ==> {
            &&& (#[trigger] trace[k]).phase_index < pre.len()
            &&& trace[k].system_index < pre[trace[k].phase_index as int].len()
            &&& eligible(
                pre[trace[k].phase_index as int][trace[k].system_index as int],
                is_enabled,
            )
            &&& trace[k].id == pre[trace[k].phase_index as int][trace[k].system_index as int].id
        }
    // strict chain order: no reordering, no repeats
    &&& forall|k1: int, k2: int|
        0 <= k1 < k2 < trace.len() ==> pos_before(#[trigger] trace[k1], #[trigger] trace[k2])
    // no eligible system that stands before a recorded one is skipped
    &&& forall|k: int, p: int, s: int|
        0 <= k < trace.len() && 0 <= p < pre.len() && 0 <= s < pre[p].len() && eligible(
            #[trigger] pre[p][s],
            is_enabled,
        ) && (p < (#[trigger] trace[k]).phase_index || (p == trace[k].phase_index && s
            < trace[k].system_index)) ==> trace_has(trace, p, s)
    // a system returning `false` ends the tick at once, for every later
    // system of every later phase
    &&& forall|k: int|
        0 <= k < trace.len() && !(#[trigger] trace[k]).continued ==> k == trace.len() - 1
    &&& can_continue == (forall|k: int| 0 <= k < trace.len() ==> (#[trigger] trace[k]).continued)
    // unless a system stopped the tick, every eligible system ran
    &&& can_continue ==> forall|p: int, s: int|
        0 <= p < pre.len() && 0 <= s < pre[p].len() && eligible(#[trigger] pre[p][s], is_enabled)
            ==> trace_has(trace, p, s)
}

/// Law: after a phase is spliced in before an anchor (the shape
/// `create_phase_before` ensures, with `i` the anchor's index), the new
/// phase stands immediately before the anchor and every other phase keeps
/// its relative order. Together with the exact append and removal contracts
/// of `create_phase` and `destroy_phase`, the chain order after any sequence
/// of such calls is the one each insertion implies relative to its anchor.
pub proof fn lemma_create_phase_before_order(
    pre: Seq<Seq<char>>,
    post: Seq<Seq<char>>,
    i: int,
    name: Seq<char>,
)
    requires
        0 <= i < pre.len(),
        post == pre.insert(i, name),
    ensures
        post.len() == pre.len() + 1,
        post[i] == name,
        post[i + 1] == pre[i],
        forall|j: int| 0 <= j < i ==> #[trigger] post[j] == pre[j],
        forall|j: int| i <= j < pre.len() ==> #[trigger] post[j + 1] == pre[j],
{
}

/// Law: after a phase is destroyed (the shape `destroy_phase` ensures, with
/// `i` the destroyed phase's index), every other phase keeps its relative
/// order: the ones before `i` keep their slots, the ones after move up one.
pub proof fn lemma_destroy_phase_order(
    pre: Seq<Seq<char>>,
    post: Seq<Seq<char>>,
    i: int,
)
    requires
        0 <= i < pre.len(),
        post == pre.remove(i),
    ensures
        post.len() == pre.len() - 1,
        forall|j: int| 0 <= j < i ==> #[trigger] post[j] == pre[j],
        forall|j: int| i <= j < pre.len() - 1 ==> #[trigger] post[j] == pre[j + 1],
{
    pre.remove_ensures(i);
}

/// Law: a system returning `false` prevents every later system, in the same
/// or any later phase, from running that tick, and makes the tick report
/// that the application cannot continue. Slot `(p, s)` is any slot after the
/// failing record `trace[k]`.
pub proof fn lemma_stop_halts_tick(
    pre: Seq<Seq<SystemRecord>>,
    post: Seq<Seq<SystemRecord>>,
    is_enabled: bool,
    trace: Seq<RunRecord>,
    can_continue: bool,
    k: int,
    p: int,
    s: int,
)
    requires
        tick_post(pre, post, is_enabled, trace, can_continue),
        0 <= k < trace.len(),
        !trace[k].continued,
        0 <= p < pre.len(),
        0 <= s < pre[p].len(),
        trace[k].phase_index < p || (trace[k].phase_index == p && trace[k].system_index < s),
    ensures
        !trace_has(trace, p, s),
        !can_continue,
{
    assert(k == trace.len() - 1);
    if trace_has(trace, p, s) {
        let k2 = choose|k2: int|
            0 <= k2 < trace.len() && (#[trigger] trace[k2]).phase_index == p
                && trace[k2].system_index == s;
        if k2 < k {
            assert(pos_before(trace[k2], trace[k]));
        }
    }
    assert(!trace[k].continued);
}

/// Law: while the application is not enabled, a system that declared
/// `should_run_when_not_focused == false` is never invoked.
pub proof fn lemma_not_focused_skipped(
    pre: Seq<Seq<SystemRecord>>,
    post: Seq<Seq<SystemRecord>>,
    trace: Seq<RunRecord>,
    can_continue: bool,
    p: int,
    s: int,
)
    requires
        tick_post(pre, post, false, trace, can_continue),
        0 <= p < pre.len(),
        0 <= s < pre[p].len(),
        !pre[p][s].run_when_not_focused,
    ensures
        !trace_has(trace, p, s),
{
    if trace_has(trace, p, s) {
        let k = choose|k: int|
            0 <= k < trace.len() && (#[trigger] trace[k]).phase_index == p
                && trace[k].system_index == s;
        assert(eligible(pre[p][s], false));
    }
}

/// Law: a system that declared `should_run_when_not_focused == true` is
/// invoked every tick that no system cut short, whether or not the
/// application is enabled.
pub proof fn lemma_focus_free_runs(
    pre: Seq<Seq<SystemRecord>>,
    post: Seq<Seq<SystemRecord>>,
    is_enabled: bool,
    trace: Seq<RunRecord>,
    p: int,
    s: int,
)
    requires
        tick_post(pre, post, is_enabled, trace, true),
        0 <= p < pre.len(),
        0 <= s < pre[p].len(),
        pre[p][s].run_when_not_focused,
    ensures
        trace_has(trace, p, s),
{
    assert(eligible(pre[p][s], is_enabled));
}

// What holds midway through a tick, after the phases before index `p` have
// run: `cur` are the per-phase records as they stand, `trace` the tick trace
// so far, `can_continue` whether no system has asked to stop yet.
spec fn tick_loop_inv(
    pre: Seq<Seq<SystemRecord>>,
    cur: Seq<Seq<SystemRecord>>,
    is_enabled: bool,
    trace: Seq<RunRecord>,
    p: int,
    can_continue: bool,
) -> bool {
    &&& cur.len() == pre.len()
    &&& 0 <= p <= pre.len()
    &&& forall|q: int| p <= q < pre.len() ==> #[trigger] cur[q] == pre[q]
    &&& forall|q: int| 0 <= q < p ==> (#[trigger] cur[q]).len() == pre[q].len()
    &&& forall|q: int, s: int|
        0 <= q < p && 0 <= s < pre[q].len() ==> {
            &&& (#[trigger] cur[q][s]).id == pre[q][s].id
            &&& cur[q][s].run_when_not_focused == pre[q][s].run_when_not_focused
            &&& cur[q][s].initialized == (pre[q][s].initialized || trace_has(trace, q, s))
        }
    &&& forall|k: int|
        0 <= k < trace.len() ==> {
            &&& (#[trigger] trace[k]).phase_index < p
            &&& trace[k].system_index < pre[trace[k].phase_index as int].len()
            &&& eligible(
                pre[trace[k].phase_index as int][trace[k].system_index as int],
                is_enabled,
            )
            &&& trace[k].id == pre[trace[k].phase_index as int][trace[k].system_index as int].id
        }
    &&& forall|k1: int, k2: int|
        0 <= k1 < k2 < trace.len() ==> pos_before(#[trigger] trace[k1], #[trigger] trace[k2])
    &&& forall|k: int, q: int, s: int|
        0 <= k < trace.len() && 0 <= q < pre.len() && 0 <= s < pre[q].len() && eligible(
            #[trigger] pre[q][s],
            is_enabled,
        ) && (q < (#[trigger] trace[k]).phase_index || (q == trace[k].phase_index && s
            < trace[k].system_index)) ==> trace_has(trace, q, s)
    &&& forall|k: int|
        0 <= k < trace.len() && !(#[trigger] trace[k]).continued ==> k == trace.len() - 1
    &&& can_continue == (forall|k: int| 0 <= k < trace.len() ==> (#[trigger] trace[k]).continued)
    &&& can_continue ==> forall|q: int, s: int|
        0 <= q < p && 0 <= s < pre[q].len() && eligible(#[trigger] pre[q][s], is_enabled)
            ==> trace_has(trace, q, s)
}

// Running phase `p` appended `seg` to the trace: the midway state moves past
// `p`, continuing only if the phase did not stop.
proof fn lemma_tick_step(
    pre: Seq<Seq<SystemRecord>>,
    mid: Seq<Seq<SystemRecord>>,
    post: Seq<Seq<SystemRecord>>,
    tr_old: Seq<RunRecord>,
    tr_new: Seq<RunRecord>,
    seg: Seq<RunRecord>,
    is_enabled: bool,
    p: usize,
    stopped: bool,
)
    requires
        tick_loop_inv(pre, mid, is_enabled, tr_old, p as int, true),
        (p as int) < pre.len(),
        phase_run_post(pre[p as int], post[p as int], is_enabled, p, seg, stopped),
        post == mid.update(p as int, post[p as int]),
        tr_new == tr_old + seg,
    ensures
        tick_loop_inv(pre, post, is_enabled, tr_new, p as int + 1, !stopped),
{
    assert(tr_old =~= tr_new.take(tr_old.len() as int));
    assert(seg =~= tr_new.skip(tr_old.len() as int));
    assert forall|q: int, s: int| 0 <= q < pre.len() implies #[trigger] trace_has(tr_new, q, s)
        == (trace_has(tr_old, q, s) || (q == p as int && appended_has(seg, s))) by {
        if trace_has(tr_new, q, s) {
            let k = choose|k: int|
                0 <= k < tr_new.len() && (#[trigger] tr_new[k]).phase_index == q
                    && tr_new[k].system_index == s;
            if k < tr_old.len() {
                assert(tr_old[k] == tr_new[k]);
                assert(trace_has(tr_old, q, s));
            } else {
                assert(seg[k - tr_old.len()] == tr_new[k]);
                assert(q == p as int);
                assert(appended_has(seg, s));
            }
        }
        if trace_has(tr_old, q, s) {
            let k = choose|k: int|
                0 <= k < tr_old.len() && (#[trigger] tr_old[k]).phase_index == q
                    && tr_old[k].system_index == s;
            assert(tr_new[k] == tr_old[k]);
            assert(trace_has(tr_new, q, s));
        }
        if q == p as int && appended_has(seg, s) {
            let k = choose|k: int|
                0 <= k < seg.len() && (#[trigger] seg[k]).system_index == s;
            assert(tr_new[tr_old.len() + k] == seg[k]);
            assert(trace_has(tr_new, q, s));
        }
    }
    assert forall|k1: int, k2: int| 0 <= k1 < k2 < tr_new.len() implies pos_before(
        #[trigger] tr_new[k1],
        #[trigger] tr_new[k2],
    ) by {
        if k1 >= tr_old.len() {
            assert(tr_new[k1] == seg[k1 - tr_old.len()]);
            assert(tr_new[k2] == seg[k2 - tr_old.len()]);
        } else if k2 >= tr_old.len() {
            assert(tr_new[k1] == tr_old[k1]);
            assert(tr_new[k2] == seg[k2 - tr_old.len()]);
            assert(tr_old[k1].phase_index < p as int);
            assert(seg[k2 - tr_old.len()].phase_index == p as int);
        } else {
            assert(tr_new[k1] == tr_old[k1]);
            assert(tr_new[k2] == tr_old[k2]);
        }
    }
    assert forall|k: int| 0 <= k < tr_new.len() && !(#[trigger] tr_new[k]).continued implies k
        == tr_new.len() - 1 by {
        if k < tr_old.len() {
            assert(tr_new[k] == tr_old[k]);
        } else {
            assert(tr_new[k] == seg[k - tr_old.len()]);
            assert(k - tr_old.len() == seg.len() - 1);
        }
    }
    assert((!stopped) == (forall|k: int|
        0 <= k < tr_new.len() ==> (#[trigger] tr_new[k]).continued)) by {
        if stopped {
            assert(!seg.last().continued);
            assert(tr_new[tr_new.len() - 1] == seg[seg.len() - 1]);
            assert(!tr_new[tr_new.len() - 1].continued);
        } else {
            assert forall|k: int| 0 <= k < tr_new.len() implies (
            #[trigger] tr_new[k]).continued by {
                if k < tr_old.len() {
                    assert(tr_new[k] == tr_old[k]);
                } else {
                    assert(tr_new[k] == seg[k - tr_old.len()]);
                    if !seg[k - tr_old.len()].continued {
                        assert(k - tr_old.len() == seg.len() - 1);
                        assert(seg.last() == seg[seg.len() - 1]);
                    }
                }
            }
        }
    }
    assert forall|k: int, q: int, s: int|
        0 <= k < tr_new.len() && 0 <= q < pre.len() && 0 <= s < pre[q].len() && eligible(
            #[trigger] pre[q][s],
            is_enabled,
        ) && (q < (#[trigger] tr_new[k]).phase_index || (q == tr_new[k].phase_index && s
            < tr_new[k].system_index)) implies trace_has(tr_new, q, s) by {
        if k < tr_old.len() {
            assert(tr_new[k] == tr_old[k]);
        } else {
            assert(tr_new[k] == seg[k - tr_old.len()]);
            assert(tr_new[k].phase_index == p as int);
            if q < p as int {
                assert(trace_has(tr_old, q, s));
            } else {
                assert(q == p as int && s < tr_new[k].system_index);
                assert(appended_has(seg, s));
            }
        }
    }
}

// The loop is done, either past the last phase or stopped by a system: the
// whole-tick contract holds.
proof fn lemma_tick_finish(
    pre: Seq<Seq<SystemRecord>>,
    cur: Seq<Seq<SystemRecord>>,
    is_enabled: bool,
    trace: Seq<RunRecord>,
    p: int,
    can_continue: bool,
)
    requires
        tick_loop_inv(pre, cur, is_enabled, trace, p, can_continue),
        can_continue ==> p == pre.len(),
    ensures
        tick_post(pre, cur, is_enabled, trace, can_continue),
{
    assert forall|q: int, s: int| 0 <= q < pre.len() && 0 <= s < pre[q].len() implies {
        &&& (#[trigger] cur[q][s]).id == pre[q][s].id
        &&& cur[q][s].run_when_not_focused == pre[q][s].run_when_not_focused
        &&& cur[q][s].initialized == (pre[q][s].initialized || trace_has(trace, q, s))
    } by {
        if q >= p {
            assert(cur[q] == pre[q]);
            if trace_has(trace, q, s) {
                let k = choose|k: int|
                    0 <= k < trace.len() && (#[trigger] trace[k]).phase_index == q
                        && trace[k].system_index == s;
                assert(trace[k].phase_index < p);
            }
        }
    }
    assert forall|q: int| 0 <= q < pre.len() implies (#[trigger] cur[q]).len() == pre[q].len() by {
        if q >= p {
            assert(cur[q] == pre[q]);
        }
    }
}

/// Owns the ordered phase chain and drives it once per tick.
pub struct Scheduler<S> {
    phases: Vec<Phase<S>>,
    last_tick: Vec<RunRecord>,
}

impl<S: System> Scheduler<S> {
    /// The phase names, in chain order.
    pub closed spec fn names(&self) -> Seq<Seq<char>> {
        self.phases@.map_values(|p: Phase<S>| p.name_spec())
    }

    /// The per-phase system records, in chain order.
    pub closed spec fn phases_view(&self) -> Seq<Seq<SystemRecord>> {
        self.phases@.map_values(|p: Phase<S>| p.systems_spec())
    }

    /// The trace of the most recent `run_once`.
    pub closed spec fn last_tick_spec(&self) -> Seq<RunRecord> {
        self.last_tick@
    }

    /// Well-formed: phase names are unique within this scheduler.
    pub open spec fn wf(&self) -> bool {
        names_unique(self.names())
    }

    /// The name chain and the record chain always run in step.
    pub proof fn lemma_chains_in_step(&self)
        ensures
            self.names().len() == self.phases_view().len(),
    {
    }

    /// An empty scheduler.
    pub fn new() -> (scheduler: Scheduler<S>)
        ensures
            scheduler.names() == Seq::<Seq<char>>::empty(),
            scheduler.phases_view() == Seq::<Seq<SystemRecord>>::empty(),
            scheduler.last_tick_spec() == Seq::<RunRecord>::empty(),
            scheduler.wf(),
    {
        let scheduler = Scheduler { phases: Vec::new(), last_tick: Vec::new() };
        proof {
            assert(scheduler.names() =~= Seq::<Seq<char>>::empty());
            assert(scheduler.phases_view() =~= Seq::<Seq<SystemRecord>>::empty());
        }
        scheduler
    }

    /// How many phases the chain holds.
    pub fn phases_count(&self) -> (n: usize)
        ensures
            n == self.names().len(),
    {
        self.phases.len()
    }

    /// The chain index of the phase named `name`, if any: `Some` exactly when
    /// a phase carries that name, and then the first such index.
    pub fn find_phase(&self, name: &str) -> (found: Option<usize>)
        ensures
            match found {
                Some(i) => {
                    &&& i < self.names().len()
                    &&& self.names()[i as int] == name@
                    &&& forall|j: int| 0 <= j < i ==> self.names()[j] != name@
                },
                None => forall|j: int| 0 <= j < self.names().len() ==> self.names()[j] != name@,
            },
    {
        let mut i: usize = 0;
        while i < self.phases.len()
            invariant
                i <= self.phases.len(),
                forall|j: int| 0 <= j < i ==> self.names()[j] != name@,
            decreases self.phases.len() - i,
        {
            proof {
                assert(self.names()[i as int] == self.phases@[i as int].name_spec());
            }
            if self.phases[i].has_name(name) {
                return Some(i);
            }
            i += 1;
        }
        None
    }

    /// Whether a phase named `name` stands in the chain.
    pub fn has_phase(&self, name: &str) -> (found: bool)
        ensures
            found == self.names().contains(name@),
    {
        let found = self.find_phase(name);
        proof {
            if self.names().contains(name@) {
                let j = choose|j: int|
                    0 <= j < self.names().len() && #[trigger] self.names()[j] == name@;
                assert(found is Some) by {
                    if found is None {
                        assert(self.names()[j] != name@);
                    }
                }
            }
            if found is Some {
                assert(self.names()[found.unwrap() as int] == name@);
            }
        }
        found.is_some()
    }

    /// Appends `phase` to the end of the chain.
    ///
    /// The caller keeps names unique: the phase's name must be fresh.
    pub fn create_phase(&mut self, phase: Phase<S>)
        requires
            old(self).wf(),
            !old(self).names().contains(phase.name_spec()),
        ensures
            final(self).names() == old(self).names().push(phase.name_spec()),
            final(self).phases_view() == old(self).phases_view().push(phase.systems_spec()),
            final(self).last_tick_spec() == old(self).last_tick_spec(),
            final(self).wf(),
    {
        let ghost name = phase.name_spec();
        self.phases.push(phase);
        proof {
            assert(self.names() =~= old(self).names().push(name));
            assert(self.phases_view() =~= old(self).phases_view().push(
                self.phases@[self.phases@.len() - 1].systems_spec(),
            ));
            assert forall|i: int, j: int|
                0 <= i < j < self.names().len() implies #[trigger] self.names()[i]
                != #[trigger] self.names()[j] by {
                if j < self.names().len() - 1 {
                } else {
                    assert(old(self).names()[i] != name) by {
                        if old(self).names()[i] == name {
                            assert(old(self).names().contains(name));
                        }
                    }
                }
            }
        }
    }

    /// Splices `phase` immediately before the phase named
    /// `previous_phase_name`, keeping the relative order of all other phases;
    /// fails with `PhaseNotFound` and changes nothing if no phase carries
    /// that name.
    ///
    /// The caller keeps names unique: the phase's name must be fresh.
    pub fn create_phase_before(&mut self, phase: Phase<S>, previous_phase_name: &str) -> (result:
        Result<(), CoreError>)
        requires
            old(self).wf(),
            !old(self).names().contains(phase.name_spec()),
        ensures
            result is Ok <==> old(self).names().contains(previous_phase_name@),
            result is Ok ==> exists|i: int|
                {
                    &&& 0 <= i < old(self).names().len()
                    &&& old(self).names()[i] == previous_phase_name@
                    &&& forall|j: int| 0 <= j < i ==> old(self).names()[j] != previous_phase_name@
                    &&& final(self).names() == old(self).names().insert(i, phase.name_spec())
                    &&& final(self).phases_view() == old(self).phases_view().insert(
                        i,
                        phase.systems_spec(),
                    )
                },
            result is Err ==> *final(self) == *old(self),
            final(self).last_tick_spec() == old(self).last_tick_spec(),
            final(self).wf(),
    {
        let found = self.find_phase(previous_phase_name);
        match found {
            Some(i) => {
                let ghost name = phase.name_spec();
                self.phases.insert(i, phase);
                proof {
                    assert(old(self).names().contains(previous_phase_name@)) by {
                        assert(old(self).names()[i as int] == previous_phase_name@);
                    }
                    assert(self.names() =~= old(self).names().insert(i as int, name));
                    assert(self.phases_view() =~= old(self).phases_view().insert(
                        i as int,
                        self.phases@[i as int].systems_spec(),
                    )) by {
                        assert(self.phases@ == old(self).phases@.insert(
                            i as int,
                            self.phases@[i as int],
                        ));
                    }
                    assert forall|a: int, b: int|
                        0 <= a < b < self.names().len() implies #[trigger] self.names()[a]
                        != #[trigger] self.names()[b] by {
                        let names = old(self).names();
                        let pick = |x: int| if x < i { names[x] } else if x == i { name } else { names[x - 1] };
                        assert(self.names()[a] == pick(a));
                        assert(self.names()[b] == pick(b));
                        if a != i && b != i {
                            let a0: int = if a < i { a } else { a - 1 };
                            let b0: int = if b < i { b } else { b - 1 };
                            assert(names[a0] != names[b0]);
                        } else {
                            assert(!names.contains(name));
                            if a == i {
                                assert(names[b - 1] != name) by {
                                    if names[b - 1] == name {
                                        assert(names.contains(name));
                                    }
                                }
                            } else {
                                assert(names[a] != name) by {
                                    if names[a] == name {
                                        assert(names.contains(name));
                                    }
                                }
                            }
                        }
                    }
                }
                Ok(())
            },
            None => {
                proof {
                    if old(self).names().contains(previous_phase_name@) {
                        let j = choose|j: int|
                            0 <= j < old(self).names().len() && #[trigger] old(self).names()[j]
                                == previous_phase_name@;
                        assert(old(self).names()[j] != previous_phase_name@);
                    }
                }
                Err(CoreError::PhaseNotFound)
            },
        }
    }

    /// Destroys the phase named `phase_name`: its systems each observe one
    /// `uninit`, in insertion order, and their identities are returned in
    /// that order; the rest of the chain keeps its relative order. Fails with
    /// `PhaseNotFound` and changes nothing if no phase carries that name.
    pub fn destroy_phase(&mut self, phase_name: &str) -> (result: Result<Vec<SystemId>, CoreError>)
        requires
            old(self).wf(),
        ensures
            result is Ok <==> old(self).names().contains(phase_name@),
            result matches Ok(ids) ==> exists|i: int|
                {
                    &&& 0 <= i < old(self).names().len()
                    &&& old(self).names()[i] == phase_name@
                    &&& final(self).names() == old(self).names().remove(i)
                    &&& final(self).phases_view() == old(self).phases_view().remove(i)
                    &&& ids@.len() == old(self).phases_view()[i].len()
                    &&& forall|k: int|
                        0 <= k < ids@.len() ==> ids@[k] == old(self).phases_view()[i][k].id
                },
            result is Err ==> *final(self) == *old(self),
            final(self).last_tick_spec() == old(self).last_tick_spec(),
            final(self).wf(),
    {
        let found = self.find_phase(phase_name);
        match found {
            Some(i) => {
                proof {
                    assert(old(self).names()[i as int] == phase_name@);
                    assert(old(self).names().contains(phase_name@));
                    assert(old(self).phases_view()[i as int] == old(self).phases@[i as int].systems_spec());
                }
                let mut phase = self.phases.remove(i);
                let ids = phase.uninit_systems();
                proof {
                    assert(self.names() =~= old(self).names().remove(i as int));
                    assert(self.phases_view() =~= old(self).phases_view().remove(i as int));
                    assert forall|a: int, b: int|
                        0 <= a < b < self.names().len() implies #[trigger] self.names()[a]
                        != #[trigger] self.names()[b] by {
                        let names = old(self).names();
                        let a0: int = if a < i { a } else { a + 1 };
                        let b0: int = if b < i { b } else { b + 1 };
                        assert(self.names()[a] == names[a0]);
                        assert(self.names()[b] == names[b0]);
                    }
                }
                Ok(ids)
            },
            None => {
                proof {
                    if old(self).names().contains(phase_name@) {
                        let j = choose|j: int|
                            0 <= j < old(self).names().len() && #[trigger] old(self).names()[j]
                                == phase_name@;
                        assert(old(self).names()[j] != phase_name@);
                    }
                }
                Err(CoreError::PhaseNotFound)
            },
        }
    }

    /// An exclusive view of the phase named `phase_name`, for adding or
    /// removing systems; fails with `PhaseNotFound` if no phase carries that
    /// name. Phase names are fixed at construction, so whatever the caller
    /// does through the reference, the chain's names — and so its
    /// well-formedness — survive.
    pub fn get_phase_mut(&mut self, phase_name: &str) -> (result: Result<&mut Phase<S>, CoreError>)
        requires
            old(self).wf(),
        ensures
            result is Ok <==> old(self).names().contains(phase_name@),
            result matches Ok(phase) ==> phase_mut_post(
                old(self).names(),
                old(self).phases_view(),
                final(self).names(),
                final(self).phases_view(),
                phase_name@,
                *phase,
                *final(phase),
            ),
            result is Err ==> *final(self) == *old(self),
            final(self).last_tick_spec() == old(self).last_tick_spec(),
    {
        let found = self.find_phase(phase_name);
        match found {
            Some(i) => {
                proof {
                    assert(self.names()[i as int] == phase_name@);
                    assert(self.names().contains(phase_name@));
                    assert(self.phases_view()[i as int] == self.phases@[i as int].systems_spec());
                }
                Ok(&mut self.phases[i])
            },
            None => {
                proof {
                    if old(self).names().contains(phase_name@) {
                        let j = choose|j: int|
                            0 <= j < old(self).names().len() && #[trigger] old(self).names()[j]
                                == phase_name@;
                        assert(old(self).names()[j] != phase_name@);
                    }
                }
                Err(CoreError::PhaseNotFound)
            },
        }
    }

    /// Registers one more system into the phase named `phase_name`: the
    /// phase records the identity and focus capability the system declares
    /// now, and `init` has not run yet. Fails with `PhaseNotFound` and
    /// changes nothing if no phase carries that name.
    pub fn add_system(&mut self, phase_name: &str, system: S) -> (result: Result<(), CoreError>)
        requires
            old(self).wf(),
        ensures
            final(self).wf(),
            final(self).names() == old(self).names(),
            final(self).last_tick_spec() == old(self).last_tick_spec(),
            result is Ok <==> old(self).names().contains(phase_name@),
            result matches Ok(_) ==> exists|i: int|
                {
                    &&& 0 <= i < old(self).names().len()
                    &&& old(self).names()[i] == phase_name@
                    &&& final(self).phases_view().len() == old(self).phases_view().len()
                    &&& final(self).phases_view()[i].len() == old(self).phases_view()[i].len() + 1
                    &&& final(self).phases_view()[i] == old(self).phases_view()[i].push(
                        final(self).phases_view()[i].last(),
                    )
                    &&& !final(self).phases_view()[i].last().initialized
                    &&& forall|j: int|
                        0 <= j < old(self).phases_view().len() && j != i ==> #[trigger] final(self).phases_view()[j] == old(self).phases_view()[j]
                },
            result is Err ==> *final(self) == *old(self),
    {
        let found = self.find_phase(phase_name);
        match found {
            Some(i) => {
                proof {
                    assert(self.names()[i as int] == phase_name@);
                    assert(self.names().contains(phase_name@));
                    assert(self.phases_view()[i as int] == self.phases@[i as int].systems_spec());
                    assert(self.names()[i as int] == self.phases@[i as int].name_spec());
                }
                let ghost names_before = self.names();
                let ghost views_before = self.phases_view();
                let ghost phases_before = self.phases@;
                let phase = &mut self.phases[i];
                phase.add_system(system);
                proof {
                    assert(self.phases@ =~= phases_before.update(i as int, self.phases@[i as int]));
                    assert(self.names() =~= names_before);
                    assert(self.phases_view() =~= views_before.update(
                        i as int,
                        self.phases@[i as int].systems_spec(),
                    ));
                }
                Ok(())
            },
            None => {
                proof {
                    if old(self).names().contains(phase_name@) {
                        let j = choose|j: int|
                            0 <= j < old(self).names().len() && #[trigger] old(self).names()[j]
                                == phase_name@;
                        assert(old(self).names()[j] != phase_name@);
                    }
                }
                Err(CoreError::PhaseNotFound)
            },
        }
    }

    /// Runs one tick: each phase in chain order, each system in insertion
    /// order, skipping systems that declared `should_run_when_not_focused ==
    /// false` while `is_enabled` is false, and stopping the whole tick as
    /// soon as a system's `run` returns `false`. The tick is recorded in the
    /// trace available through [`Scheduler::last_tick`], and the result says
    /// whether the application may continue.
    pub fn run_once(&mut self, is_enabled: bool) -> (can_continue: bool)
        ensures
            final(self).names() == old(self).names(),
            tick_post(
                old(self).phases_view(),
                final(self).phases_view(),
                is_enabled,
                final(self).last_tick_spec(),
                can_continue,
            ),
    {
        let ghost pre = self.phases_view();
        let mut trace: Vec<RunRecord> = Vec::new();
        let mut can_continue = true;
        let mut p: usize = 0;
        while p < self.phases.len() && can_continue
            invariant
                pre == old(self).phases_view(),
                self.names() == old(self).names(),
                self.phases@.len() == pre.len(),
                p <= pre.len(),
                tick_loop_inv(pre, self.phases_view(), is_enabled, trace@, p as int, can_continue),
            decreases self.phases.len() - p,
        {
            proof {
                assert(self.phases_view()[p as int] == self.phases@[p as int].systems_spec());
                assert(self.names()[p as int] == self.phases@[p as int].name_spec());
            }
            let ghost mid = self.phases_view();
            let ghost names_before = self.names();
            let ghost tr_old = trace@;
            let ghost phases_before = self.phases@;
            let ph = &mut self.phases[p];
            let stopped = ph.run_systems(is_enabled, p, &mut trace);
            proof {
                assert(self.phases@ =~= phases_before.update(p as int, self.phases@[p as int]));
                assert(self.phases_view() =~= mid.update(
                    p as int,
                    self.phases@[p as int].systems_spec(),
                ));
                assert(self.names() =~= names_before);
                assert(trace@.take(tr_old.len() as int) == tr_old);
                assert(trace@ =~= tr_old + trace@.skip(tr_old.len() as int));
                lemma_tick_step(
                    pre,
                    mid,
                    self.phases_view(),
                    tr_old,
                    trace@,
                    trace@.skip(tr_old.len() as int),
                    is_enabled,
                    p,
                    stopped,
                );
            }
            if stopped {
                can_continue = false;
            }
            p += 1;
        }
        proof {
            lemma_tick_finish(pre, self.phases_view(), is_enabled, trace@, p as int, can_continue);
        }
        self.last_tick = trace;
        can_continue
    }

    /// The recorded trace of the most recent tick, in execution order.
    pub fn last_tick(&self) -> (trace: &Vec<RunRecord>)
        ensures
            trace@ == self.last_tick_spec(),
    {
        &self.last_tick
    }

    /// Destroys every phase, in chain order: each system observes one
    /// `uninit`, and the identities are returned phase by phase, in order.
    pub fn uninit(&mut self) -> (ids: Vec<Vec<SystemId>>)
        ensures
            final(self).names() == Seq::<Seq<char>>::empty(),
            final(self).phases_view() == Seq::<Seq<SystemRecord>>::empty(),
            final(self).wf(),
            ids@.len() == old(self).phases_view().len(),
            forall|q: int|
                0 <= q < ids@.len() ==> {
                    &&& (#[trigger] ids@[q])@.len() == old(self).phases_view()[q].len()
                    &&& forall|k: int|
                        0 <= k < ids@[q]@.len() ==> ids@[q]@[k] == old(self).phases_view()[q][k].id
                },
    {
        let ghost pre = self.phases_view();
        let mut ids: Vec<Vec<SystemId>> = Vec::new();
        let mut q: usize = 0;
        while q < self.phases.len()
            invariant
                pre == old(self).phases_view(),
                self.phases@.len() == pre.len(),
                q <= pre.len(),
                forall|j: int|
                    q <= j < pre.len() ==> #[trigger] self.phases_view()[j] == pre[j],
                ids@.len() == q,
                forall|j: int|
                    0 <= j < q ==> {
                        &&& (#[trigger] ids@[j])@.len() == pre[j].len()
                        &&& forall|k: int|
                            0 <= k < ids@[j]@.len() ==> ids@[j]@[k] == pre[j][k].id
                    },
            decreases self.phases.len() - q,
        {
            proof {
                assert(self.phases_view()[q as int] == self.phases@[q as int].systems_spec());
            }
            let ghost mid = self.phases_view();
            let ghost phases_before = self.phases@;
            let ph = &mut self.phases[q];
            let phase_ids = ph.uninit_systems();
            proof {
                assert(self.phases@ =~= phases_before.update(q as int, self.phases@[q as int]));
                assert(self.phases_view() =~= mid.update(
                    q as int,
                    self.phases@[q as int].systems_spec(),
                ));
            }
            ids.push(phase_ids);
            q += 1;
        }
        self.phases = Vec::new();
        proof {
            assert(self.names() =~= Seq::<Seq<char>>::empty());
            assert(self.phases_view() =~= Seq::<Seq<SystemRecord>>::empty());
        }
        ids
    }

    /// A shared view of the phase named `phase_name`; fails with
    /// `PhaseNotFound` if no phase carries that name.
    pub fn get_phase(&self, phase_name: &str) -> (result: Result<&Phase<S>, CoreError>)
        ensures
            result is Ok <==> self.names().contains(phase_name@),
            result matches Ok(phase) ==> exists|i: int|
                {
                    &&& 0 <= i < self.names().len()
                    &&& self.names()[i] == phase_name@
                    &&& phase.name_spec() == phase_name@
                    &&& phase.systems_spec() == self.phases_view()[i]
                },
    {
        let found = self.find_phase(phase_name);
        match found {
            Some(i) => {
                proof {
                    assert(self.names()[i as int] == phase_name@);
                    assert(self.names().contains(phase_name@));
                    assert(self.phases_view()[i as int] == self.phases@[i as int].systems_spec());
                }
                Ok(&self.phases[i])
            },
            None => {
                proof {
                    if self.names().contains(phase_name@) {
                        let j = choose|j: int|
                            0 <= j < self.names().len() && #[trigger] self.names()[j]
                                == phase_name@;
                        assert(self.names()[j] != phase_name@);
                    }
                }
                Err(CoreError::PhaseNotFound)
            },
        }
    }
}

} // verus!
