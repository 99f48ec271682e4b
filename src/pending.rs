//! The pending-requests table: one reply slot per outstanding call, keyed by
//! the call's correlation id. A reply, an error reply or the call's timeout
//! takes the slot; whichever comes first is the only one that finds it.

use crate::table::IdTable;
use vstd::prelude::*;

verus! {

/// Reply slots of outstanding calls, by correlation id.
pub struct PendingRequests<T> {
    slots: IdTable<T>,
}

impl<T> View for PendingRequests<T> {
    type V = Map<u128, T>;

    closed spec fn view(&self) -> Map<u128, T> {
        self.slots@
    }
}

impl<T> PendingRequests<T> {
    pub closed spec fn wf(&self) -> bool {
        self.slots.wf()
    }

    /// An empty table.
    pub fn new() -> (r: Self)
        ensures
            r.wf(),
            r@ == Map::<u128, T>::empty(),
    {
        PendingRequests { slots: IdTable::new() }
    }

    /// Parks the reply slot of the call `id`.
    pub fn park(&mut self, id: u128, slot: T)
        requires
            old(self).wf(),
        ensures
            final(self).wf(),
            final(self)@ == old(self)@.insert(id, slot),
    {
        self.slots.insert(id, slot);
    }

    /// Takes the slot of the call that a reply or error reply correlates to.
    /// A reply for an unknown or settled call finds nothing.
    pub fn complete(&mut self, correlation_id: u128) -> (r: Option<T>)
        requires
            old(self).wf(),
        ensures
            final(self).wf(),
            final(self)@ == old(self)@.remove(correlation_id),
            r.is_some() == old(self)@.contains_key(correlation_id),
            r matches Some(s) ==> s == old(self)@[correlation_id],
    {
        self.slots.remove(correlation_id)
    }

    /// Takes the slot of a call whose time ran out, so that a late reply is
    /// dropped.
    pub fn expire(&mut self, id: u128) -> (r: Option<T>)
        requires
            old(self).wf(),
        ensures
            final(self).wf(),
            final(self)@ == old(self)@.remove(id),
            r.is_some() == old(self)@.contains_key(id),
            r matches Some(s) ==> s == old(self)@[id],
    {
        self.slots.remove(id)
    }

    /// Whether the call `id` is still waiting.
    pub fn is_pending(&self, id: u128) -> (r: bool)
        requires
            self.wf(),
        ensures
            r == self@.contains_key(id),
    {
        self.slots.contains_key(id)
    }

    /// The number of outstanding calls.
    pub fn len(&self) -> (r: usize)
        requires
            self.wf(),
        ensures
            r == self@.len(),
    {
        self.slots.len()
    }
}

/// A call settles once: after a reply, an error reply or a timeout has taken
/// its slot, every later outcome for the same correlation id finds nothing,
/// and the slots of other calls are untouched.
pub proof fn lemma_settles_once<T>(m: Map<u128, T>, id: u128, other: u128)
    requires
        m.contains_key(id),
        other != id,
    ensures
        !m.remove(id).contains_key(id),
        m.remove(id).remove(id) == m.remove(id),
        m.remove(id).contains_key(other) == m.contains_key(other),
{
    assert(m.remove(id).remove(id) =~= m.remove(id));
}

} // verus!
