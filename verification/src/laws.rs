//! Group-wide laws: what the operations' contracts add up to across whole
//! histories of creations, completions, registrations and broadcasts.

use vstd::prelude::*;

use crate::list::lemma_occupied_contains;
use crate::list::lemma_occupied_push;
use crate::list::occupied;
use crate::Model;

verus! {

/// One task-lifecycle event: the group created a task, or a tracked task
/// terminated.
pub enum TaskEvent {
    Created,
    Completed,
}

/// The state after one task-lifecycle event. A termination with no live
/// task recorded cannot arise from a correctly constructed group and is
/// read as changing nothing.
pub open spec fn step<W>(m: Model<W>, e: TaskEvent) -> Model<W> {
    match e {
        TaskEvent::Created => m.incremented(),
        TaskEvent::Completed => if m.running > 0 {
            m.decremented()
        } else {
            m
        },
    }
}

/// The quiescence handle one task-lifecycle event makes the runtime
/// invoke, if any.
pub open spec fn step_wake<W>(m: Model<W>, e: TaskEvent) -> Option<W> {
    match e {
        TaskEvent::Created => None,
        TaskEvent::Completed => if m.running > 0 {
            m.completion_wake()
        } else {
            None
        },
    }
}

/// The state after a whole sequence of task-lifecycle events.
pub open spec fn run<W>(m: Model<W>, es: Seq<TaskEvent>) -> Model<W>
    decreases es.len(),
{
    if es.len() == 0 {
        m
    } else {
        run(step(m, es[0]), es.skip(1))
    }
}

/// Every quiescence handle a sequence of task-lifecycle events makes the
/// runtime invoke, in order.
pub open spec fn run_wakes<W>(m: Model<W>, es: Seq<TaskEvent>) -> Seq<W>
    decreases es.len(),
{
    if es.len() == 0 {
        Seq::empty()
    } else {
        let head = match step_wake(m, es[0]) {
            Some(w) => seq![w],
            None => Seq::<W>::empty(),
        };
        head + run_wakes(step(m, es[0]), es.skip(1))
    }
}

/// An element of the right part of a concatenation is an element of the
/// concatenation.
proof fn lemma_contains_append_right<T>(a: Seq<T>, b: Seq<T>, x: T)
    requires
        b.contains(x),
    ensures
        (a + b).contains(x),
{
    let k = choose|k: int| 0 <= k < b.len() && b[k] == x;
    assert((a + b)[a.len() + k] == x);
}

/// The quiescence wait resolves exactly when the live count is zero: one
/// poll reports readiness precisely on a zero count, whatever handle it
/// registers; with no task outstanding it resolves immediately.
pub proof fn quiescence_resolves_iff_idle<W>(m: Model<W>, w: W)
    ensures
        (m.running == 0) == (m.with_quiescence_waiter(w).running == 0),
        m.with_quiescence_waiter(w).quiescence == Some(w),
{
}

/// No missed wake: once a waiter's handle sits in the quiescence slot
/// while tasks are live, any run of creations and completions that brings
/// the live count back to zero invokes that handle — without the waiter
/// registering again. New tasks created meanwhile only postpone the wake;
/// they never lose it.
pub proof fn registered_waiter_is_woken<W>(m: Model<W>, w: W, es: Seq<TaskEvent>)
    requires
        m.quiescence == Some(w),
        m.running > 0,
        run(m, es).running == 0,
    ensures
        run_wakes(m, es).contains(w),
    decreases es.len(),
{
    if es.len() == 0 {
        assert(false);
    } else {
        let m1 = step(m, es[0]);
        let tail = run_wakes(m1, es.skip(1));
        match es[0] {
            TaskEvent::Created => {
                registered_waiter_is_woken(m1, w, es.skip(1));
                lemma_contains_append_right(Seq::<W>::empty(), tail, w);
            },
            TaskEvent::Completed => {
                if m.running == 1 {
                    assert(run_wakes(m, es)[0] == w);
                } else {
                    registered_waiter_is_woken(m1, w, es.skip(1));
                    lemma_contains_append_right(Seq::<W>::empty(), tail, w);
                }
            },
        }
    }
}

/// The number of creation events in a history.
pub open spec fn creations(es: Seq<TaskEvent>) -> nat
    decreases es.len(),
{
    if es.len() == 0 {
        0
    } else {
        (if es[0] is Created {
            1nat
        } else {
            0nat
        }) + creations(es.skip(1))
    }
}

/// The number of completion events in a history.
pub open spec fn completions(es: Seq<TaskEvent>) -> nat
    decreases es.len(),
{
    if es.len() == 0 {
        0
    } else {
        (if es[0] is Completed {
            1nat
        } else {
            0nat
        }) + completions(es.skip(1))
    }
}

/// A history is well formed for a starting state when no prefix completes
/// more tasks than were live or created by then — which the task records
/// enforce, each performing its one decrement at most once.
pub open spec fn well_formed<W>(m: Model<W>, es: Seq<TaskEvent>) -> bool {
    forall|k: int|
        0 <= k <= es.len() ==> m.running + creations(#[trigger] es.take(k)) >= completions(
            es.take(k),
        )
}

/// The bookkeeping invariant: across any well-formed history the live
/// count equals the count of task creations minus the count of task
/// terminations — each task decrements exactly once, and the count never
/// goes negative.
pub proof fn count_tracks_history<W>(m: Model<W>, es: Seq<TaskEvent>)
    requires
        well_formed(m, es),
    ensures
        run(m, es).running == m.running + creations(es) - completions(es),
    decreases es.len(),
{
    if es.len() > 0 {
        let e = es[0];
        let m1 = step(m, e);
        let tail = es.skip(1);
        let head_c: nat = if e is Created {
            1
        } else {
            0
        };
        let head_d: nat = if e is Completed {
            1
        } else {
            0
        };
        assert forall|k: int| 0 <= k <= tail.len() implies #[trigger] creations(es.take(k + 1))
            == head_c + creations(tail.take(k)) && completions(es.take(k + 1)) == head_d
            + completions(tail.take(k)) by {
            assert(es.take(k + 1)[0] == e);
            assert(es.take(k + 1).skip(1) =~= tail.take(k));
        }
        assert(m.running + creations(es.take(1)) >= completions(es.take(1)));
        if e is Completed {
            assert(m.running >= 1);
        }
        assert forall|k: int| 0 <= k <= tail.len() implies m1.running + creations(
            #[trigger] tail.take(k),
        ) >= completions(tail.take(k)) by {
            assert(m.running + creations(es.take(k + 1)) >= completions(es.take(k + 1)));
        }
        count_tracks_history(m1, tail);
        assert(creations(es) == head_c + creations(tail));
        assert(completions(es) == head_d + completions(tail));
    }
}

/// The shutdown flag is one-way: no task-lifecycle event resets it.
pub proof fn flag_survives_tasks<W>(m: Model<W>, es: Seq<TaskEvent>)
    ensures
        run(m, es).down == m.down,
    decreases es.len(),
{
    if es.len() > 0 {
        flag_survives_tasks(step(m, es[0]), es.skip(1));
    }
}

/// No signal is missed by the broadcast: every node linked with a handle
/// at the moment of the flag transition is among the handles the broadcast
/// invokes. A signal arriving after that moment is answered by the
/// flag-already-set fast path of its own poll instead.
pub proof fn broadcast_notifies_registered<W>(m: Model<W>, i: int)
    requires
        !m.down,
        0 <= i < m.waiters.len(),
        m.waiters[i] matches Some(node) && node is Some,
    ensures
        m.shutdown_notices().contains(m.waiters[i]->Some_0->Some_0),
{
    broadcast_inner_contains(m.waiters, i);
}

/// The shutdown operation terminates no task: neither the flag transition
/// nor the broadcast changes the live count, so shutdown completes only
/// once every tracked task has terminated of its own accord — exactly when
/// its quiescence wait sees a zero count.
pub proof fn shutdown_never_terminates_tasks<W>(m: Model<W>, w: W)
    ensures
        m.shutdown_begun().running == m.running,
        m.shutdown_begun().with_quiescence_waiter(w).running == m.running,
        (m.shutdown_begun().running == 0) == (m.running == 0),
{
}

/// Vacating one slot of the registration list removes exactly that node's
/// handle from the pending notices, counted with multiplicity.
proof fn lemma_notices_vacate<W>(s: Seq<Option<Option<W>>>, i: int)
    requires
        0 <= i < s.len(),
        s[i] matches Some(node) && node is Some,
    ensures
        occupied(occupied(s.update(i, None))).to_multiset() == occupied(
            occupied(s),
        ).to_multiset().remove(s[i]->Some_0->Some_0),
    decreases s.len(),
{
    broadcast use vstd::seq_lib::group_to_multiset_ensures;

    let h = s[i]->Some_0->Some_0;
    let dl = s.drop_last();
    if i == s.len() - 1 {
        assert(s.update(i, None).drop_last() =~= dl);
        assert(occupied(s.update(i, None)) == occupied(dl));
        assert(s =~= dl.push(s[i]));
        lemma_occupied_push(dl, s[i]);
        lemma_occupied_push(occupied(dl), Some(h));
        assert(occupied(occupied(s)) == occupied(occupied(dl)).push(h));
        assert(occupied(occupied(dl)).push(h).to_multiset() =~= occupied(
            occupied(dl),
        ).to_multiset().insert(h));
        assert(occupied(occupied(dl)).to_multiset().insert(h).remove(h) =~= occupied(
            occupied(dl),
        ).to_multiset());
    } else {
        lemma_notices_vacate(dl, i);
        assert(dl[i] == s[i]);
        let u = s.update(i, None);
        assert(u.drop_last() =~= dl.update(i, None));
        assert(u.last() == s.last());
        assert(u =~= dl.update(i, None).push(s.last()));
        assert(s =~= dl.push(s.last()));
        lemma_occupied_push(dl.update(i, None), s.last());
        lemma_occupied_push(dl, s.last());
        match s.last() {
            Some(last_node) => {
                lemma_occupied_push(occupied(dl.update(i, None)), last_node);
                lemma_occupied_push(occupied(dl), last_node);
                match last_node {
                    Some(lw) => {
                        assert(occupied(occupied(u)) == occupied(occupied(dl.update(i, None))).push(
                            lw,
                        ));
                        assert(occupied(occupied(s)) == occupied(occupied(dl)).push(lw));
                        assert(occupied(occupied(dl.update(i, None))).push(lw).to_multiset()
                            =~= occupied(occupied(dl.update(i, None))).to_multiset().insert(lw));
                        assert(occupied(occupied(dl)).push(lw).to_multiset() =~= occupied(
                            occupied(dl),
                        ).to_multiset().insert(lw));
                        assert(occupied(occupied(dl)).to_multiset().count(h) > 0) by {
                            broadcast_inner_contains(dl, i);
                        }
                        assert(occupied(occupied(dl)).to_multiset().insert(lw).remove(h)
                            =~= occupied(occupied(dl)).to_multiset().remove(h).insert(lw));
                    },
                    None => {
                        assert(occupied(occupied(u)) == occupied(occupied(dl.update(i, None))));
                        assert(occupied(occupied(s)) == occupied(occupied(dl)));
                    },
                }
            },
            None => {
                assert(occupied(occupied(u)) == occupied(occupied(dl.update(i, None))));
                assert(occupied(occupied(s)) == occupied(occupied(dl)));
            },
        }
    }
}

/// A linked handle appears among the handles of the nested occupied
/// contents.
proof fn broadcast_inner_contains<W>(s: Seq<Option<Option<W>>>, i: int)
    requires
        0 <= i < s.len(),
        s[i] matches Some(node) && node is Some,
    ensures
        occupied(occupied(s)).contains(s[i]->Some_0->Some_0),
{
    let inner = occupied(s);
    lemma_occupied_contains(s, i);
    let node = s[i]->Some_0;
    let k = choose|k: int| 0 <= k < inner.len() && inner[k] == node;
    lemma_occupied_contains(inner, k);
}

/// A signal destroyed before resolution and before any shutdown leaves no
/// trace: once its node is vacated, a later broadcast invokes exactly the
/// handles it would have invoked apart from that one — that node's handle
/// exactly once less, counted with multiplicity, and every other linked
/// handle still invoked.
pub proof fn abandoned_signal_leaves_no_trace<W>(m: Model<W>, i: int)
    requires
        !m.down,
        0 <= i < m.waiters.len(),
        m.waiters[i] matches Some(node) && node is Some,
    ensures
        ({
            let detached = Model { waiters: m.waiters.update(i, None), ..m };
            &&& detached.shutdown_notices().to_multiset() == m.shutdown_notices().to_multiset()
                .remove(m.waiters[i]->Some_0->Some_0)
            &&& forall|j: int|
                0 <= j < m.waiters.len() && j != i && (#[trigger] m.waiters[j] matches Some(node2)
                    && node2 is Some) ==> detached.shutdown_notices().contains(
                    m.waiters[j]->Some_0->Some_0,
                )
        }),
{
    let detached = Model { waiters: m.waiters.update(i, None), ..m };
    lemma_notices_vacate(m.waiters, i);
    assert forall|j: int|
        0 <= j < m.waiters.len() && j != i && (#[trigger] m.waiters[j] matches Some(node2)
            && node2 is Some) implies detached.shutdown_notices().contains(
        m.waiters[j]->Some_0->Some_0,
    ) by {
        assert(detached.waiters[j] == m.waiters[j]);
        broadcast_notifies_registered(detached, j);
    }
}

} // verus!
