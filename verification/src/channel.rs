//! The cross-thread hand-off: a bounded, capacity-1 channel between the
//! external patch-delivery callback (which may run on any thread) and the
//! single-threaded tick loop.
//!
//! The channel itself comes from an outside crate and is shared between
//! threads, so nothing precise can be promised about any single call: another
//! thread may race it. The verified per-tick logic therefore takes the drained
//! value as an argument (see the tick module); these wrappers only carry the
//! notification across the thread boundary. The single-threaded semantics of
//! the capacity-1 hand-off is modelled and proved in the notifier module.

use vstd::prelude::*;
use crate::HotPatched;

verus! {

/// Declares crossbeam_channel::Sender, the sending half of a channel, as an
/// opaque type carried through the library.
#[verifier::external_type_specification]
#[verifier::external_body]
#[verifier::reject_recursive_types(T)]
pub struct ExSender<T>(crossbeam_channel::Sender<T>);

/// Declares crossbeam_channel::Receiver, the receiving half of a channel, as
/// an opaque type carried through the library.
#[verifier::external_type_specification]
#[verifier::external_body]
#[verifier::reject_recursive_types(T)]
pub struct ExReceiver<T>(crossbeam_channel::Receiver<T>);

/// The delivery-side half of the hand-off. Owned by the external patch
/// callback, on whatever thread the delivery mechanism uses.
pub struct PatchSender {
    inner: crossbeam_channel::Sender<HotPatched>,
}

/// The tick-side half of the hand-off. Drained once per tick, never blocking.
pub struct PatchReceiver {
    inner: crossbeam_channel::Receiver<HotPatched>,
}

/// What one push attempt came to.
#[derive(Clone, Copy, Debug, PartialEq, Eq, Structural)]
pub enum NotifyOutcome {
    /// The notification was handed over.
    Delivered,
    /// A notification is already pending; the push was a no-op, which is
    /// fine: at most one patched signal is needed per tick.
    AlreadyPending,
    /// The tick side has gone away.
    Closed,
}

/// Relies on crossbeam_channel::bounded: a channel holding at most `cap`
/// messages, here one, so at most one notification is ever pending.
#[verifier::external_body]
pub fn patch_channel() -> (halves: (PatchSender, PatchReceiver)) {
    let (s, r) = crossbeam_channel::bounded::<HotPatched>(1);
    (PatchSender { inner: s }, PatchReceiver { inner: r })
}

impl PatchSender {
    /// Relies on crossbeam_channel::Sender::try_send: delivers the message
    /// unless the channel is full or disconnected, and never blocks. Called
    /// from the external patch callback after the jump table has been applied.
    /// Another thread may drain concurrently, so nothing is promised of the
    /// channel's state.
    #[verifier::external_body]
    pub fn notify(&self) -> (outcome: NotifyOutcome) {
        match self.inner.try_send(HotPatched) {
            Ok(()) => NotifyOutcome::Delivered,
            Err(crossbeam_channel::TrySendError::Full(_)) => NotifyOutcome::AlreadyPending,
            Err(crossbeam_channel::TrySendError::Disconnected(_)) => NotifyOutcome::Closed,
        }
    }
}

impl PatchReceiver {
    /// Relies on crossbeam_channel::Receiver::try_recv: returns a pending
    /// message if one is present, and never blocks. Another thread may push
    /// concurrently, so nothing is promised of the channel's state; the
    /// verified tick step takes the returned value as its input.
    #[verifier::external_body]
    pub fn try_take(&self) -> (ev: Option<HotPatched>) {
        match self.inner.try_recv() {
            Ok(ev) => Some(ev),
            Err(crossbeam_channel::TryRecvError::Empty) => None,
            Err(crossbeam_channel::TryRecvError::Disconnected) => None,
        }
    }
}

} // verus!
