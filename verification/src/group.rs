//! The group handle and the suspended operations built on the shared state:
//! the task wrapper's bookkeeping record, the quiescence wait, the shutdown
//! operation, and the per-task shutdown signal.
//!
//! Each suspended operation is modelled by its decision function: the
//! embedding runtime calls it from its own poll with the current resumption
//! handle, performs the wake-ups handed back, and suspends or completes as
//! the returned readiness says.

use vstd::prelude::*;

use crate::Model;
use crate::State;

verus! {

/// The bookkeeping record of one tracked task. The group handle counts the
/// task as live when it creates the record; the record's one `complete`
/// call takes the count back down. The embedding runtime must call
/// `complete` on every exit path of the task it wraps — whether the
/// computation ran to its end or was abandoned while suspended — and the
/// record's own flag makes a second call impossible.
pub struct Task {
    live: bool,
}

impl View for Task {
    type V = bool;

    closed spec fn view(&self) -> bool {
        self.live
    }
}

/// The group handle: creates tracked tasks and exposes the quiescence wait
/// and the shutdown operation over the shared state it owns.
pub struct TaskGroup<W> {
    state: State<W>,
}

impl<W> View for TaskGroup<W> {
    type V = Model<W>;

    closed spec fn view(&self) -> Model<W> {
        self.state@
    }
}

/// Where a shutdown signal stands in its life: just constructed; linked
/// into the registration list at a slot; resolved once and for all; or
/// detached because its owner was destroyed before resolution.
#[derive(Clone, Copy)]
pub enum SignalPhase {
    Fresh,
    Registered { slot: usize },
    Resolved,
    Detached,
}

/// A one-shot signal handed to a shutdown-aware task: it resolves when the
/// group shuts down, and never before.
pub struct ShutdownSignal {
    phase: SignalPhase,
}

impl View for ShutdownSignal {
    type V = SignalPhase;

    closed spec fn view(&self) -> SignalPhase {
        self.phase
    }
}

/// The suspended shutdown operation: its first poll performs the flag
/// transition and the broadcast, and every poll waits on quiescence.
pub struct Shutdown {
    fired: bool,
}

impl View for Shutdown {
    type V = bool;

    closed spec fn view(&self) -> bool {
        self.fired
    }
}

impl<W> TaskGroup<W> {
    /// A group over a fresh shared state.
    pub fn new() -> (g: TaskGroup<W>)
        ensures
            g@ == Model::<W>::init(),
    {
        TaskGroup { state: State::new() }
    }

    /// A group over the given shared state.
    pub fn with_state(state: State<W>) -> (g: TaskGroup<W>)
        ensures
            g@ == state@,
    {
        TaskGroup { state }
    }

    /// The current live-task count.
    pub fn live_count(&self) -> (n: usize)
        ensures
            n == self@.running,
    {
        self.state.live_count()
    }

    /// Whether the shutdown flag has been set.
    pub fn is_shutdown(&self) -> (r: bool)
        ensures
            r == self@.down,
    {
        self.state.is_shutdown()
    }

    /// Creates one tracked task: counts it as live and returns the record
    /// whose `complete` call will count it back down. The computation
    /// itself stays with the embedding runtime; it is never run here.
    pub fn create(&mut self) -> (t: Task)
        requires
            old(self)@.running < usize::MAX,
        ensures
            final(self)@ == old(self)@.incremented(),
            t@ == true,
    {
        self.state.incr();
        Task { live: true }
    }

    /// Creates one shutdown-aware tracked task: as `create`, and hands back
    /// the fresh signal the task's computation races against its own work.
    pub fn create_with_shutdown(&mut self) -> (r: (Task, ShutdownSignal))
        requires
            old(self)@.running < usize::MAX,
        ensures
            final(self)@ == old(self)@.incremented(),
            r.0@ == true,
            r.1@ is Fresh,
    {
        self.state.incr();
        (Task { live: true }, ShutdownSignal { phase: SignalPhase::Fresh })
    }

    /// One poll of the quiescence wait: registers `w` as the waiter — the
    /// last registrant wins — and reports whether the live count is zero,
    /// in that order, so that a count change between the two steps always
    /// meets either the registered handle or this re-check.
    pub fn poll_quiescence(&mut self, w: W) -> (ready: bool)
        ensures
            final(self)@ == old(self)@.with_quiescence_waiter(w),
            ready == (old(self)@.running == 0),
    {
        self.state.register_quiescence_waiter(w);
        self.state.live_count() == 0
    }

    /// Begins the shutdown operation; its polls do the work.
    pub fn shutdown(&self) -> (s: Shutdown)
        ensures
            s@ == false,
    {
        Shutdown { fired: false }
    }
}

impl Task {
    /// Whether the task's one decrement is still owed.
    pub fn is_live(&self) -> (r: bool)
        ensures
            r == self@,
    {
        self.live
    }

    /// Takes the live count down for the task, which no later call can
    /// repeat. The embedding runtime calls this on every exit path,
    /// whether the computation finished or was dropped while suspended.
    /// Returns the quiescence handle the caller must invoke, exactly when
    /// the live count thereby reaches zero.
    pub fn complete<W>(&mut self, group: &mut TaskGroup<W>) -> (wake: Option<W>)
        requires
            old(self)@,
            old(group)@.running > 0,
        ensures
            final(self)@ == false,
            final(group)@ == old(group)@.decremented(),
            wake == old(group)@.completion_wake(),
    {
        self.live = false;
        let (_reached_zero, wake) = group.state.decr();
        wake
    }
}

impl ShutdownSignal {
    /// The signal's current phase.
    pub fn phase(&self) -> (p: SignalPhase)
        ensures
            p == self@,
    {
        self.phase
    }

    /// One poll of the signal. A resolved signal stays resolved. A fresh
    /// signal first tests the shutdown flag: if it is already set, the
    /// signal resolves at once without ever registering; otherwise it links
    /// a node holding `w` into the registration list and re-tests the flag
    /// before suspending — a transition between the first test and the
    /// registration must be met by this re-test, never by assuming the node
    /// made the broadcast. A registered signal resolves once the flag is
    /// set, unlinking its node if the broadcast has not already taken it,
    /// and otherwise refreshes its node's handle and stays suspended.
    pub fn poll<W>(&mut self, group: &mut TaskGroup<W>, w: W) -> (ready: bool)
        requires
            !(old(self)@ is Detached),
        ensures
            old(self)@ is Resolved ==> ready && final(self)@ is Resolved && final(group)@
                == old(group)@,
            (old(self)@ is Fresh && old(group)@.down) ==> ready && final(self)@ is Resolved
                && final(group)@ == old(group)@,
            (old(self)@ is Fresh && !old(group)@.down) ==> !ready && (final(self)@ matches
            SignalPhase::Registered { slot } && {
                &&& slot as int <= old(group)@.waiters.len()
                &&& final(group)@.waiters.len() == (if (slot as int) < old(group)@.waiters.len() {
                    old(group)@.waiters.len()
                } else {
                    old(group)@.waiters.len() + 1
                })
                &&& final(group)@.waiters[slot as int] == Some(Some(w))
                &&& forall|j: int|
                    0 <= j < old(group)@.waiters.len() && j != slot as int ==> final(group)@.waiters[j]
                        == old(group)@.waiters[j]
                &&& final(group)@.running == old(group)@.running
                &&& final(group)@.quiescence == old(group)@.quiescence
                &&& final(group)@.down == old(group)@.down
            }),
            old(self)@ matches SignalPhase::Registered { slot } ==> {
                &&& old(group)@.down ==> ready && final(self)@ is Resolved && final(group)@
                    == (if (slot as int) < old(group)@.waiters.len() {
                    Model { waiters: old(group)@.waiters.update(slot as int, None), ..old(group)@ }
                } else {
                    old(group)@
                })
                &&& !old(group)@.down ==> !ready && final(self)@ == old(self)@ && final(group)@
                    == (if (slot as int) < old(group)@.waiters.len() && old(group)@.waiters[slot as int] is Some {
                    Model {
                        waiters: old(group)@.waiters.update(slot as int, Some(Some(w))),
                        ..old(group)@
                    }
                } else {
                    old(group)@
                })
            },
    {
        match self.phase {
            SignalPhase::Resolved => true,
            // Excluded by the precondition: an owner that detached its
            // signal no longer polls it.
            SignalPhase::Detached => false,
            SignalPhase::Fresh => {
                if group.state.is_shutdown() {
                    self.phase = SignalPhase::Resolved;
                    true
                } else {
                    let slot = group.state.register_shutdown_waiter(Some(w));
                    if group.state.is_shutdown() {
                        // The flag went up between the first test and the
                        // registration: resolve through the re-test, since
                        // the broadcast may already have passed the node by.
                        group.state.remove_shutdown_waiter(slot);
                        self.phase = SignalPhase::Resolved;
                        true
                    } else {
                        self.phase = SignalPhase::Registered { slot };
                        false
                    }
                }
            },
            SignalPhase::Registered { slot } => {
                if group.state.is_shutdown() {
                    group.state.remove_shutdown_waiter(slot);
                    self.phase = SignalPhase::Resolved;
                    true
                } else {
                    group.state.update_shutdown_waiter(slot, Some(w));
                    false
                }
            },
        }
    }

    /// The owner is destroying the signal before it resolved: unlink its
    /// node, if it has one, so that no later broadcast finds a trace of it.
    /// Safe whatever the phase; a resolved signal needs and gets no change.
    pub fn abandon<W>(&mut self, group: &mut TaskGroup<W>)
        ensures
            old(self)@ is Resolved ==> final(self)@ is Resolved && final(group)@ == old(group)@,
            !(old(self)@ is Resolved) ==> final(self)@ is Detached,
            (old(self)@ is Fresh || old(self)@ is Detached) ==> final(group)@ == old(group)@,
            old(self)@ matches SignalPhase::Registered { slot } ==> final(group)@ == (if (
            slot as int) < old(group)@.waiters.len() {
                Model { waiters: old(group)@.waiters.update(slot as int, None), ..old(group)@ }
            } else {
                old(group)@
            }),
    {
        match self.phase {
            SignalPhase::Registered { slot } => {
                group.state.remove_shutdown_waiter(slot);
                self.phase = SignalPhase::Detached;
            },
            SignalPhase::Fresh => {
                self.phase = SignalPhase::Detached;
            },
            SignalPhase::Detached => {},
            SignalPhase::Resolved => {},
        }
    }
}

impl Shutdown {
    /// One poll of the shutdown operation. The first poll sets the flag
    /// and, if that call performed the transition, drains the registration
    /// list: the returned handles are the broadcast, and the caller must
    /// invoke every one of them. Every poll then waits on quiescence with
    /// `w`, so the operation completes only once no tracked task is live.
    pub fn poll<W>(&mut self, group: &mut TaskGroup<W>, w: W) -> (r: (Vec<W>, bool))
        ensures
            final(self)@ == true,
            r.1 == (old(group)@.running == 0),
            old(self)@ == false ==> final(group)@ == old(group)@.shutdown_begun()
                .with_quiescence_waiter(w),
            old(self)@ == false ==> r.0@ == old(group)@.shutdown_notices(),
            old(self)@ == true ==> final(group)@ == old(group)@.with_quiescence_waiter(w),
            old(self)@ == true ==> r.0@ == Seq::<W>::empty(),
    {
        let wakes: Vec<W> = if !self.fired {
            self.fired = true;
            let first = group.state.set_shutdown();
            if first {
                group.state.drain_shutdown_waiters()
            } else {
                Vec::new()
            }
        } else {
            Vec::new()
        };
        let ready = group.poll_quiescence(w);
        (wakes, ready)
    }
}

} // verus!
