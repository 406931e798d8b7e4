//! The patch notifier's hand-off discipline, modelled single-threadedly.
//!
//! The delivery mechanism may push "a patch was applied" any number of times
//! within one tick window; the tick loop drains once per tick and publishes at
//! most one patched event. The capacity-1 slot below is the model of that
//! discipline: a push into an occupied slot is a no-op, and one drain empties
//! the slot and yields at most one event.

use vstd::prelude::*;
use crate::HotPatched;

verus! {

/// A capacity-1 notification slot: either a patched notification is pending
/// or it is not. The cross-thread realization lives in the channel module;
/// this model is what the per-tick reasoning is done over.
pub struct Mailbox {
    pending: bool,
}

/// The slot's state after `deliveries` notifications are pushed in a row:
/// each push occupies the slot, and a push into an occupied slot is a no-op,
/// so one push or many leave the slot occupied alike.
pub open spec fn pending_after_pushes(pending: bool, deliveries: nat) -> bool {
    if deliveries == 0 {
        pending
    } else {
        true
    }
}

/// How many patched events one tick's drain publishes from a slot.
pub open spec fn published_on_drain(pending: bool) -> nat {
    if pending {
        1
    } else {
        0
    }
}

impl Mailbox {
    /// Whether a notification is pending.
    pub closed spec fn is_pending(self) -> bool {
        self.pending
    }

    /// An empty slot: nothing pending.
    pub fn new() -> (m: Mailbox)
        ensures
            !m.is_pending(),
    {
        Mailbox { pending: false }
    }

    /// Push one notification: a no-op if one is already pending, since at
    /// most one patched signal is needed per tick however many patches
    /// arrived. Returns whether the push was accepted.
    pub fn offer(&mut self) -> (accepted: bool)
        ensures
            accepted == !old(self).is_pending(),
            final(self).is_pending() == pending_after_pushes(old(self).is_pending(), 1),
    {
        let accepted = !self.pending;
        self.pending = true;
        accepted
    }

    /// Drain the slot, once per tick: yields the pending patched event if
    /// there is one, and leaves the slot empty either way.
    pub fn drain(&mut self) -> (ev: Option<HotPatched>)
        ensures
            ev == if old(self).is_pending() {
                Some(HotPatched)
            } else {
                None::<HotPatched>
            },
            !final(self).is_pending(),
    {
        let had = self.pending;
        self.pending = false;
        if had {
            Some(HotPatched)
        } else {
            None
        }
    }
}

/// At most one patched event per tick: however many notifications (at least
/// one) are delivered within a single tick window, the drain at the end of
/// that window publishes exactly one patched event, from any starting state.
pub proof fn lemma_at_most_one_per_tick(pending: bool, deliveries: nat)
    requires
        deliveries >= 1,
    ensures
        published_on_drain(pending_after_pushes(pending, deliveries)) == 1,
{
}

} // verus!
