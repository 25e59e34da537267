//! Serial response queue: an ordered holding area for outbound write
//! operations that must complete one at a time, in submission order.
//!
//! The queue itself knows nothing of polling; it guarantees the structure
//! that makes first-in-first-out resolution order inevitable. The driver
//! that owns the queue takes the head with `pop_front`, drives it, and,
//! if it is not yet finished, puts it back with `push_front` — nothing
//! behind the head is ever touched, so no later operation can overtake an
//! earlier one.

use std::collections::VecDeque;
use vstd::prelude::*;

verus! {

/// A first-in-first-out queue of not-yet-finished outbound operations.
pub struct ResponseQueue<T> {
    pending: VecDeque<T>,
}

impl<T> View for ResponseQueue<T> {
    type V = Seq<T>;

    closed spec fn view(&self) -> Seq<T> {
        self.pending@
    }
}

impl<T> ResponseQueue<T> {
    /// An empty queue.
    pub fn new() -> (q: ResponseQueue<T>)
        ensures
            q@ == Seq::<T>::empty(),
    {
        ResponseQueue { pending: VecDeque::new() }
    }

    /// Append an operation to the tail; pure bookkeeping, nothing is driven.
    pub fn push(&mut self, operation: T)
        ensures
            final(self)@ == old(self)@.push(operation),
    {
        self.pending.push_back(operation);
    }

    /// Remove and return the oldest outstanding operation, the only one the
    /// driver may poll. Returns `None` on an empty queue. A successful
    /// return is exactly one [`resolve_step`] of the contents.
    pub fn pop_front(&mut self) -> (head: Option<T>)
        ensures
            match head {
                Some(operation) => {
                    &&& old(self)@.len() > 0
                    &&& operation == old(self)@[0]
                    &&& final(self)@ == old(self)@.drop_first()
                },
                None => {
                    &&& old(self)@.len() == 0
                    &&& final(self)@ == old(self)@
                },
            },
    {
        self.pending.pop_front()
    }

    /// Put a still-pending head back in front; everything queued behind it
    /// keeps its place.
    pub fn push_front(&mut self, operation: T)
        ensures
            final(self)@ == seq![operation] + old(self)@,
    {
        self.pending.push_front(operation);
        proof {
            assert(final(self)@ =~= seq![operation] + old(self)@);
        }
    }

    /// How many operations are outstanding.
    pub fn len(&self) -> (n: usize)
        ensures
            n == self@.len(),
    {
        self.pending.len()
    }

    /// Whether nothing is outstanding. An empty queue never resolves on its
    /// own; the driver must race it against other event sources.
    pub fn is_empty(&self) -> (empty: bool)
        ensures
            empty == (self@.len() == 0),
    {
        self.pending.len() == 0
    }
}

impl<T> Default for ResponseQueue<T> {
    fn default() -> (q: ResponseQueue<T>)
        ensures
            q@ == Seq::<T>::empty(),
    {
        ResponseQueue::new()
    }
}

/// One successful resolution: exactly what `pop_front` does when an
/// operation is outstanding — the oldest operation resolves, the rest move
/// up one place, nothing else changes.
pub open spec fn resolve_step<T>(pre: Seq<T>, post: Seq<T>, resolved: T) -> bool {
    pre.len() > 0 && resolved == pre[0] && post == pre.drop_first()
}

/// First-in-first-out law: from any queue contents, follow any chain of
/// resolutions; the resolved values are exactly the oldest queued
/// operations, in queue order, one per step, and what is still queued is
/// exactly the rest. Since `push` appends, queue order is submission
/// order: writes pushed without awaiting between the pushes resolve in
/// push order.
pub proof fn lemma_fifo<T>(states: Seq<Seq<T>>, resolved: Seq<T>)
    requires
        states.len() == resolved.len() + 1,
        forall|i: int|
            0 <= i < resolved.len() ==> resolve_step(states[i], states[i + 1], #[trigger] resolved[i]),
    ensures
        states[0].len() == states.last().len() + resolved.len(),
        resolved == states[0].take(resolved.len() as int),
        states.last() == states[0].skip(resolved.len() as int),
    decreases resolved.len(),
{
    let n = resolved.len() as int;
    if n == 0 {
        assert(resolved =~= states[0].take(0));
        assert(states[0].skip(0) =~= states[0]);
    } else {
        let rest_states = states.drop_first();
        let rest_resolved = resolved.drop_first();
        assert(resolve_step(states[0], states[1], resolved[0]));
        assert forall|i: int| 0 <= i < rest_resolved.len() implies resolve_step(
            rest_states[i],
            rest_states[i + 1],
            #[trigger] rest_resolved[i],
        ) by {
            assert(resolve_step(states[i + 1], states[i + 2], resolved[i + 1]));
        }
        lemma_fifo(rest_states, rest_resolved);
        assert(rest_states[0] == states[1]);
        assert(states[1] == states[0].drop_first());
        assert(states[0].len() == states.last().len() + n);
        assert forall|j: int| 0 <= j < n implies resolved[j] == states[0][j] by {
            if j > 0 {
                assert(rest_resolved[j - 1] == resolved[j]);
                assert(rest_resolved[j - 1] == rest_states[0].take(n - 1)[j - 1]);
                assert(rest_states[0].take(n - 1)[j - 1] == rest_states[0][j - 1]);
                assert(states[0].drop_first()[j - 1] == states[0][j]);
            }
        }
        assert(resolved =~= states[0].take(n));
        assert(states.last() == rest_states.last());
        assert(states[0].drop_first().skip(n - 1) =~= states[0].skip(n));
    }
}

} // verus!
