//! The `System` contract: a unit of per-tick logic with an identity and an
//! `init` / `run` / `uninit` lifecycle, and the generator that hands out the
//! identities.

use vstd::prelude::*;

verus! {

/// Opaque 64-bit identifier of a [`System`].
///
/// Used only for equality and lookup, never for ordering. Fresh identifiers
/// come from a [`SystemIdGenerator`], whose counter makes every draw
/// distinct from every earlier one.
#[derive(Debug, Clone, Copy, PartialEq, Eq, Hash, Structural)]
pub struct SystemId(pub u64);

/// Hands out fresh system identifiers: a monotonically increasing counter,
/// so identifiers drawn from one generator never repeat, however quickly
/// they are drawn.
pub struct SystemIdGenerator {
    next: u64,
}

impl SystemIdGenerator {
    /// The value the next draw will return.
    pub closed spec fn next_spec(&self) -> u64 {
        self.next
    }

    /// A fresh generator, counting from zero.
    pub fn new() -> (generator: SystemIdGenerator)
        ensures
            generator.next_spec() == 0,
    {
        SystemIdGenerator { next: 0 }
    }

    /// The value the next draw will return; lets a caller see that draws
    /// remain available.
    pub fn peek_next(&self) -> (next: u64)
        ensures
            next == self.next_spec(),
    {
        self.next
    }

    /// Draws a fresh identifier: the counter's value, which then advances,
    /// so the draw differs from every earlier and every later one.
    pub fn next_id(&mut self) -> (id: SystemId)
        requires
            old(self).next_spec() < u64::MAX,
        ensures
            id.0 == old(self).next_spec(),
            final(self).next_spec() == old(self).next_spec() + 1,
    {
        let id = SystemId(self.next);
        self.next = self.next + 1;
        id
    }
}

/// Law: identifiers drawn from one generator never repeat. A draw returns
/// the counter and leaves it strictly larger (`first.0 < first_next`), and
/// the counter only grows, so any later draw (`first_next <= second.0`)
/// returns a different identifier.
pub proof fn lemma_generated_ids_distinct(first: SystemId, first_next: u64, second: SystemId)
    requires
        first.0 < first_next,
        first_next <= second.0,
    ensures
        first != second,
{
}

/// A unit of work driven once per tick by the scheduler.
///
/// `init` is called once before the first `run`; `run` executes one unit of
/// logic and returns `false` to ask the whole application to stop; `uninit`
/// releases resources and is called exactly once, when the owning phase is
/// destroyed, even if `init` never ran.
///
/// Implementations are supplied by the host; the scheduler promises nothing
/// about what their methods compute, only when they are invoked.
pub trait System: Send + Sync {
    /// The identity under which the system was registered.
    fn id(&self) -> SystemId;

    /// Whether the system still wants to run while the application is not
    /// focused. The scheduler records this capability when the system is
    /// added to a phase.
    fn should_run_when_not_focused(&self) -> bool;

    /// One-time setup, run before the first `run`.
    fn init(&mut self);

    /// One unit of logic; `false` requests that the application stop.
    fn run(&mut self) -> bool;

    /// One-time teardown, run when the owning phase is destroyed.
    fn uninit(&mut self);
}

} // verus!
