//! Runtime-health state shared by the CLI host and the desktop host.

use vstd::prelude::*;
use crate::text::owned;

verus! {

/// Overall runtime health.
#[derive(Debug, Clone, Copy, PartialEq, Eq)]
pub enum RuntimeHealthState {
    Healthy,
    Degraded,
    Fatal,
}

/// One report of the runtime health.
#[derive(Debug, Clone, PartialEq, Eq)]
pub struct RuntimeHealthSnapshot {
    pub state: RuntimeHealthState,
    pub component: String,
    pub message: String,
    pub occurrence_count: u64,
    pub generation: u64,
}

impl RuntimeHealthSnapshot {
    /// A duplicate of this snapshot, equal to it.
    pub fn duplicate(&self) -> (r: RuntimeHealthSnapshot)
        ensures
            r == *self,
    {
        RuntimeHealthSnapshot {
            state: self.state,
            component: self.component.clone(),
            message: self.message.clone(),
            occurrence_count: self.occurrence_count,
            generation: self.generation,
        }
    }
}

impl Default for RuntimeHealthSnapshot {
    fn default() -> (r: Self)
        ensures
            r.state == RuntimeHealthState::Healthy,
            r.component@ == "runtime"@,
            r.message@ == "Localref runtime is healthy"@,
            r.occurrence_count == 0,
            r.generation == 0,
    {
        RuntimeHealthSnapshot {
            state: RuntimeHealthState::Healthy,
            component: owned("runtime"),
            message: owned("Localref runtime is healthy"),
            occurrence_count: 0,
            generation: 0,
        }
    }
}

/// The snapshot after one health report: a report never downgrades a fatal
/// state; otherwise it replaces state, component, message and count, and
/// the generation counts the accepted reports (saturating).
pub open spec fn reported(
    h: RuntimeHealthSnapshot,
    state: RuntimeHealthState,
    component: Seq<char>,
    message: Seq<char>,
    occurrence_count: u64,
    after: RuntimeHealthSnapshot,
) -> bool {
    if h.state == RuntimeHealthState::Fatal && state != RuntimeHealthState::Fatal {
        after == h
    } else {
        &&& after.state == state
        &&& after.component@ == component
        &&& after.message@ == message
        &&& after.occurrence_count == occurrence_count
        &&& after.generation == (if h.generation == u64::MAX {
            u64::MAX
        } else {
            (h.generation + 1) as u64
        })
    }
}

/// Tracker of the latest runtime-health report.
#[derive(Debug, Clone)]
pub struct RuntimeHealthTracker {
    inner: RuntimeHealthSnapshot,
}

impl Default for RuntimeHealthTracker {
    fn default() -> (r: Self)
        ensures
            r@.state == RuntimeHealthState::Healthy,
            r@.component@ == "runtime"@,
            r@.message@ == "Localref runtime is healthy"@,
            r@.occurrence_count == 0,
            r@.generation == 0,
    {
        RuntimeHealthTracker { inner: RuntimeHealthSnapshot::default() }
    }
}

impl View for RuntimeHealthTracker {
    type V = RuntimeHealthSnapshot;

    open spec fn view(&self) -> RuntimeHealthSnapshot {
        self.spec_inner()
    }
}

impl RuntimeHealthTracker {
    /// The current snapshot.
    pub closed spec fn spec_inner(&self) -> RuntimeHealthSnapshot {
        self.inner
    }

    /// Return the current health snapshot.
    pub fn snapshot(&self) -> (r: RuntimeHealthSnapshot)
        ensures
            r == self@,
    {
        self.inner.duplicate()
    }

    /// Report a degraded component.
    pub fn degraded(&mut self, component: &str, message: &str, occurrence_count: u64)
        ensures
            reported(
                old(self)@,
                RuntimeHealthState::Degraded,
                component@,
                message@,
                occurrence_count,
                final(self)@,
            ),
    {
        self.update(RuntimeHealthState::Degraded, component, message, occurrence_count);
    }

    /// Report a fatal component failure.
    pub fn fatal(&mut self, component: &str, message: &str, occurrence_count: u64)
        ensures
            reported(
                old(self)@,
                RuntimeHealthState::Fatal,
                component@,
                message@,
                occurrence_count,
                final(self)@,
            ),
    {
        self.update(RuntimeHealthState::Fatal, component, message, occurrence_count);
    }

    /// Record one health report (see [`reported`]).
    pub fn update(
        &mut self,
        state: RuntimeHealthState,
        component: &str,
        message: &str,
        occurrence_count: u64,
    )
        ensures
            reported(old(self)@, state, component@, message@, occurrence_count, final(self)@),
    {
        let fatal_now = match self.inner.state {
            RuntimeHealthState::Fatal => true,
            _ => false,
        };
        let incoming_fatal = match state {
            RuntimeHealthState::Fatal => true,
            _ => false,
        };
        if fatal_now && !incoming_fatal {
            return;
        }
        self.inner.state = state;
        self.inner.component = owned(component);
        self.inner.message = owned(message);
        self.inner.occurrence_count = occurrence_count;
        self.inner.generation = self.inner.generation.saturating_add(1);
    }
}

/// A fatal state is sticky: once fatal, non-fatal reports change nothing,
/// so the state stays fatal.
pub proof fn law_fatal_is_sticky(
    h: RuntimeHealthSnapshot,
    state: RuntimeHealthState,
    component: Seq<char>,
    message: Seq<char>,
    occurrence_count: u64,
    after: RuntimeHealthSnapshot,
)
    requires
        h.state == RuntimeHealthState::Fatal,
        reported(h, state, component, message, occurrence_count, after),
    ensures
        after.state == RuntimeHealthState::Fatal,
        state != RuntimeHealthState::Fatal ==> after == h,
{
}

} // verus!
