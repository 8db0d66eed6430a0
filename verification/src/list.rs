//! The registration list: an arena of slots holding pending waiter nodes.
//!
//! Each linked node lives in a numbered slot; a node is addressed by the
//! index returned at registration, so registering, unlinking and draining
//! are all constant-time apart from the drain's single sweep. A vacant
//! slot is remembered on a free list and reused by a later registration.

use vstd::prelude::*;

verus! {

/// The handles of the linked slots of `s`, in slot order.
pub open spec fn occupied<T>(s: Seq<Option<T>>) -> Seq<T>
    decreases s.len(),
{
    if s.len() == 0 {
        Seq::empty()
    } else {
        match s.last() {
            Some(t) => occupied(s.drop_last()).push(t),
            None => occupied(s.drop_last()),
        }
    }
}

/// Appending one slot appends its content, if any, to the occupied
/// contents.
pub proof fn lemma_occupied_push<T>(s: Seq<Option<T>>, x: Option<T>)
    ensures
        occupied(s.push(x)) == (match x {
            Some(t) => occupied(s).push(t),
            None => occupied(s),
        }),
{
    assert(s.push(x).drop_last() =~= s);
    assert(s.push(x).last() == x);
}

/// A linked slot's content appears among the occupied contents.
pub proof fn lemma_occupied_contains<T>(s: Seq<Option<T>>, i: int)
    requires
        0 <= i < s.len(),
        s[i] is Some,
    ensures
        occupied(s).contains(s[i]->Some_0),
    decreases s.len(),
{
    if i == s.len() - 1 {
        assert(s.last() == s[i]);
        assert(occupied(s)[occupied(s).len() - 1] == s[i]->Some_0);
    } else {
        lemma_occupied_contains(s.drop_last(), i);
        assert(s.drop_last()[i] == s[i]);
        let t = s[i]->Some_0;
        let k = choose|k: int|
            0 <= k < occupied(s.drop_last()).len() && occupied(s.drop_last())[k] == t;
        assert(occupied(s)[k] == t);
    }
}

/// An arena of waiter nodes: `None` slots are vacant, `Some` slots hold a
/// linked node. The view is the slot sequence itself.
pub struct List<T> {
    slots: Vec<Option<T>>,
    vacant: Vec<usize>,
}

impl<T> View for List<T> {
    type V = Seq<Option<T>>;

    closed spec fn view(&self) -> Seq<Option<T>> {
        self.slots@
    }
}

impl<T> List<T> {
    /// An empty list.
    pub fn new() -> (l: List<T>)
        ensures
            l@ == Seq::<Option<T>>::empty(),
    {
        List { slots: Vec::new(), vacant: Vec::new() }
    }

    /// The number of slots, vacant ones included.
    pub fn slot_count(&self) -> (n: usize)
        ensures
            n == self@.len(),
    {
        self.slots.len()
    }

    /// Links `node` into a vacant slot, or a fresh one if none is vacant,
    /// and returns the slot's index; every other slot is untouched.
    pub fn register(&mut self, node: T) -> (i: usize)
        ensures
            i as int <= old(self)@.len(),
            final(self)@.len() == (if (i as int) < old(self)@.len() {
                old(self)@.len()
            } else {
                old(self)@.len() + 1
            }),
            (i as int) < old(self)@.len() ==> old(self)@[i as int] is None,
            final(self)@[i as int] == Some(node),
            forall|j: int|
                0 <= j < old(self)@.len() && j != i as int ==> final(self)@[j] == old(self)@[j],
    {
        let reuse = match self.vacant.pop() {
            Some(i) => {
                if i < self.slots.len() && self.slots[i].is_none() {
                    Some(i)
                } else {
                    None
                }
            },
            None => None,
        };
        match reuse {
            Some(i) => {
                let slot = &mut self.slots[i];
                *slot = Some(node);
                i
            },
            None => {
                let i = self.slots.len();
                self.slots.push(Some(node));
                i
            },
        }
    }

    /// Replaces the content of the linked node in slot `i`; a vacant or
    /// out-of-range slot is left as it is.
    pub fn relink(&mut self, i: usize, node: T)
        ensures
            ((i as int) < old(self)@.len() && old(self)@[i as int] is Some) ==> final(self)@
                == old(self)@.update(i as int, Some(node)),
            !((i as int) < old(self)@.len() && old(self)@[i as int] is Some) ==> final(self)@
                == old(self)@,
    {
        if i < self.slots.len() {
            let linked = self.slots[i].is_some();
            if linked {
                let slot = &mut self.slots[i];
                *slot = Some(node);
            }
        }
    }

    /// Unlinks the node in slot `i` if one is linked there; a vacant or
    /// out-of-range slot is left as it is.
    pub fn unlink(&mut self, i: usize)
        ensures
            (i as int) < old(self)@.len() ==> final(self)@ == old(self)@.update(i as int, None),
            (i as int) >= old(self)@.len() ==> final(self)@ == old(self)@,
    {
        if i < self.slots.len() {
            let linked = self.slots[i].is_some();
            if linked {
                let slot = &mut self.slots[i];
                *slot = None;
                self.vacant.push(i);
            } else {
                proof {
                    assert(self@ =~= old(self)@.update(i as int, None));
                }
            }
        }
    }

    /// Takes every linked node out, in slot order, leaving the list empty.
    pub fn drain(&mut self) -> (nodes: Vec<T>)
        ensures
            final(self)@ == Seq::<Option<T>>::empty(),
            nodes@ == occupied(old(self)@),
    {
        let ghost s0 = self.slots@;
        let mut nodes: Vec<T> = Vec::new();
        let n = self.slots.len();
        let mut idx: usize = 0;
        while idx < n
            invariant
                idx <= n,
                n == s0.len(),
                self.slots@.len() == s0.len(),
                forall|j: int| idx <= j < s0.len() ==> self.slots@[j] == s0[j],
                nodes@ == occupied(s0.take(idx as int)),
            decreases n - idx,
        {
            let slot = &mut self.slots[idx];
            let taken = slot.take();
            proof {
                lemma_occupied_take_step(s0, idx as int);
            }
            match taken {
                Some(t) => nodes.push(t),
                None => {},
            }
            idx += 1;
        }
        self.slots = Vec::new();
        self.vacant = Vec::new();
        proof {
            assert(s0.take(n as int) =~= s0);
        }
        nodes
    }
}

/// Extending a scanned prefix by one slot extends its occupied contents by
/// that slot's content, if any.
pub proof fn lemma_occupied_take_step<T>(s: Seq<Option<T>>, i: int)
    requires
        0 <= i < s.len(),
    ensures
        occupied(s.take(i + 1)) == (match s[i] {
            Some(t) => occupied(s.take(i)).push(t),
            None => occupied(s.take(i)),
        }),
{
    assert(s.take(i + 1).drop_last() =~= s.take(i));
    assert(s.take(i + 1).last() == s[i]);
}

} // verus!
