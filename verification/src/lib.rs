//! Coordination core for a dynamic group of externally scheduled tasks.
//!
//! The shared state tracks a live-task count, a single overwritable
//! quiescence waiter slot, a registration list of shutdown waiters, and a
//! one-way shutdown flag. The group handle built on top answers two
//! questions: "have all tracked tasks finished?" and "tell every
//! shutdown-aware task to stop, then wait until all tasks have finished".
//!
//! The state is generic over the resumption-handle type `W`: the embedding
//! runtime instantiates it with its own waker type, drives the transition
//! functions from its suspension points, and performs the wake-ups that
//! they hand back. Nothing here schedules or resumes a task itself.

use vstd::prelude::*;

pub mod laws;
pub mod list;

mod group;

pub use group::Shutdown;
pub use group::ShutdownSignal;
pub use group::SignalPhase;
pub use group::Task;
pub use group::TaskGroup;

use crate::list::occupied;
use crate::list::List;

verus! {

/// The mathematical model of one group's shared coordination state.
pub struct Model<W> {
    /// Number of live tasks: created and not yet terminated.
    pub running: nat,
    /// The single overwritable quiescence waiter slot; last registrant wins.
    pub quiescence: Option<W>,
    /// The registration list: each position is a slot of the arena; `None`
    /// is a vacant slot, `Some(node)` a linked node whose content is the
    /// node's optional resumption handle.
    pub waiters: Seq<Option<Option<W>>>,
    /// The one-way shutdown flag: transitions false to true exactly once.
    pub down: bool,
}

impl<W> Model<W> {
    /// A group with no tasks, no waiters, and shutdown not signaled.
    pub open spec fn init() -> Model<W> {
        Model { running: 0, quiescence: None, waiters: Seq::empty(), down: false }
    }

    /// One more task is live.
    pub open spec fn incremented(self) -> Model<W> {
        Model { running: self.running + 1, ..self }
    }

    /// One task has terminated: the count drops by one, and if it thereby
    /// reaches zero the quiescence slot is taken.
    pub open spec fn decremented(self) -> Model<W>
        recommends
            self.running > 0,
    {
        if self.running == 1 {
            Model { running: 0, quiescence: None, ..self }
        } else {
            Model { running: (self.running - 1) as nat, ..self }
        }
    }

    /// The handle a terminating task must invoke: the registered quiescence
    /// waiter, exactly when this termination brings the count to zero.
    pub open spec fn completion_wake(self) -> Option<W>
        recommends
            self.running > 0,
    {
        if self.running == 1 {
            self.quiescence
        } else {
            None
        }
    }

    /// The quiescence slot holds `w`; any earlier registrant is forgotten.
    pub open spec fn with_quiescence_waiter(self, w: W) -> Model<W> {
        Model { quiescence: Some(w), ..self }
    }

    /// The shutdown flag is set.
    pub open spec fn signaled(self) -> Model<W> {
        Model { down: true, ..self }
    }

    /// The registration list is empty.
    pub open spec fn drained(self) -> Model<W> {
        Model { waiters: Seq::empty(), ..self }
    }

    /// The handles of all linked nodes that hold one, in slot order: what a
    /// drain of the registration list must invoke.
    pub open spec fn pending_notices(self) -> Seq<W> {
        occupied(occupied(self.waiters))
    }

    /// The state after `shutdown` performs its flag transition: the first
    /// caller sets the flag and drains the list; a later caller changes
    /// nothing.
    pub open spec fn shutdown_begun(self) -> Model<W> {
        if self.down {
            self
        } else {
            self.signaled().drained()
        }
    }

    /// The handles `shutdown` must invoke at its flag transition: every
    /// pending notice if this caller performs the transition, none
    /// otherwise.
    pub open spec fn shutdown_notices(self) -> Seq<W> {
        if self.down {
            Seq::empty()
        } else {
            self.pending_notices()
        }
    }
}

/// Shared coordination state for one group of tasks.
pub struct State<W> {
    running_tasks: usize,
    done_waker: Option<W>,
    shutdown_wakers: List<Option<W>>,
    shutdown_signaled: bool,
}

impl<W> View for State<W> {
    type V = Model<W>;

    closed spec fn view(&self) -> Model<W> {
        Model {
            running: self.running_tasks as nat,
            quiescence: self.done_waker,
            waiters: self.shutdown_wakers@,
            down: self.shutdown_signaled,
        }
    }
}

impl<W> State<W> {
    /// A fresh group state: no tasks, no waiters, shutdown not signaled.
    pub fn new() -> (s: State<W>)
        ensures
            s@ == Model::<W>::init(),
    {
        State {
            running_tasks: 0,
            done_waker: None,
            shutdown_wakers: List::new(),
            shutdown_signaled: false,
        }
    }

    /// The current live-task count.
    pub fn live_count(&self) -> (n: usize)
        ensures
            n == self@.running,
    {
        self.running_tasks
    }

    /// Records one more live task.
    pub fn incr(&mut self)
        requires
            old(self)@.running < usize::MAX,
        ensures
            final(self)@ == old(self)@.incremented(),
    {
        self.running_tasks = self.running_tasks + 1;
    }

    /// Records one task's termination. Returns whether the count thereby
    /// reached zero, and the quiescence handle to invoke if it did: taking
    /// the handle out of the slot makes the wake-up happen exactly once.
    pub fn decr(&mut self) -> (r: (bool, Option<W>))
        requires
            old(self)@.running > 0,
        ensures
            final(self)@ == old(self)@.decremented(),
            r.0 == (old(self)@.running == 1),
            r.1 == old(self)@.completion_wake(),
    {
        self.running_tasks = self.running_tasks - 1;
        if self.running_tasks == 0 {
            (true, self.done_waker.take())
        } else {
            (false, None)
        }
    }

    /// Registers `w` as the quiescence waiter; the last caller wins.
    pub fn register_quiescence_waiter(&mut self, w: W)
        ensures
            final(self)@ == old(self)@.with_quiescence_waiter(w),
    {
        self.done_waker = Some(w);
    }

    /// Sets the shutdown flag; returns whether this call performed the
    /// transition. The flag never resets.
    pub fn set_shutdown(&mut self) -> (first: bool)
        ensures
            final(self)@ == old(self)@.signaled(),
            first == !old(self)@.down,
    {
        let first = !self.shutdown_signaled;
        self.shutdown_signaled = true;
        first
    }

    /// Whether the shutdown flag has been set.
    pub fn is_shutdown(&self) -> (r: bool)
        ensures
            r == self@.down,
    {
        self.shutdown_signaled
    }

    /// Links a shutdown-waiter node into the registration list and returns
    /// the slot index that now addresses it.
    pub fn register_shutdown_waiter(&mut self, node: Option<W>) -> (i: usize)
        ensures
            i as int <= old(self)@.waiters.len(),
            final(self)@.waiters.len() == (if (i as int) < old(self)@.waiters.len() {
                old(self)@.waiters.len()
            } else {
                old(self)@.waiters.len() + 1
            }),
            (i as int) < old(self)@.waiters.len() ==> old(self)@.waiters[i as int] is None,
            final(self)@.waiters[i as int] == Some(node),
            forall|j: int|
                0 <= j < old(self)@.waiters.len() && j != i as int ==> final(self)@.waiters[j]
                    == old(self)@.waiters[j],
            final(self)@.running == old(self)@.running,
            final(self)@.quiescence == old(self)@.quiescence,
            final(self)@.down == old(self)@.down,
    {
        self.shutdown_wakers.register(node)
    }

    /// Replaces the content of the linked node in slot `i`; a vacant or
    /// out-of-range slot is left as it is.
    pub fn update_shutdown_waiter(&mut self, i: usize, node: Option<W>)
        ensures
            ((i as int) < old(self)@.waiters.len() && old(self)@.waiters[i as int] is Some)
                ==> final(self)@.waiters == old(self)@.waiters.update(i as int, Some(node)),
            !((i as int) < old(self)@.waiters.len() && old(self)@.waiters[i as int] is Some)
                ==> final(self)@.waiters == old(self)@.waiters,
            final(self)@.running == old(self)@.running,
            final(self)@.quiescence == old(self)@.quiescence,
            final(self)@.down == old(self)@.down,
    {
        self.shutdown_wakers.relink(i, node)
    }

    /// Unlinks the node in slot `i` if one is still linked there; safe to
    /// call on an already-unlinked or drained slot.
    pub fn remove_shutdown_waiter(&mut self, i: usize)
        ensures
            (i as int) < old(self)@.waiters.len() ==> final(self)@.waiters
                == old(self)@.waiters.update(i as int, None),
            (i as int) >= old(self)@.waiters.len() ==> final(self)@.waiters
                == old(self)@.waiters,
            final(self)@.running == old(self)@.running,
            final(self)@.quiescence == old(self)@.quiescence,
            final(self)@.down == old(self)@.down,
    {
        self.shutdown_wakers.unlink(i)
    }

    /// Takes ownership of the whole registration list and returns every
    /// handle it held, in slot order; afterward the list is empty. The
    /// caller invokes each returned handle exactly once.
    pub fn drain_shutdown_waiters(&mut self) -> (wakes: Vec<W>)
        ensures
            final(self)@ == old(self)@.drained(),
            wakes@ == old(self)@.pending_notices(),
    {
        let mut nodes = self.shutdown_wakers.drain();
        let ghost nodes0 = nodes@;
        let mut wakes: Vec<W> = Vec::new();
        let n = nodes.len();
        let mut idx: usize = 0;
        while idx < n
            invariant
                idx <= n,
                n == nodes0.len(),
                nodes@.len() == nodes0.len(),
                forall|j: int| idx <= j < nodes0.len() ==> nodes@[j] == nodes0[j],
                wakes@ == occupied(nodes0.take(idx as int)),
            decreases n - idx,
        {
            let node = &mut nodes[idx];
            let taken = node.take();
            proof {
                crate::list::lemma_occupied_take_step(nodes0, idx as int);
            }
            match taken {
                Some(w) => wakes.push(w),
                None => {},
            }
            idx += 1;
        }
        proof {
            assert(nodes0.take(n as int) =~= nodes0);
        }
        wakes
    }
}

} // verus!
