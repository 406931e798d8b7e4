use hotpatch_core::channel::{patch_channel, NotifyOutcome};
use hotpatch_core::notifier::Mailbox;

#[test]
fn at_most_one_event_per_tick() {
    let mut m = Mailbox::new();
    // three notifications land within one tick window
    m.offer();
    m.offer();
    m.offer();
    // the tick's drain publishes exactly one event
    assert!(m.drain().is_some());
    assert!(m.drain().is_none());
}

#[test]
fn offer_reports_whether_it_was_accepted() {
    let mut m = Mailbox::new();
    assert!(m.offer());
    assert!(!m.offer());
    let _ = m.drain();
    assert!(m.offer());
}

#[test]
fn quiet_tick_publishes_nothing() {
    let mut m = Mailbox::new();
    assert!(m.drain().is_none());
}

#[test]
fn channel_hands_one_notification_over() {
    let (tx, rx) = patch_channel();
    assert!(rx.try_take().is_none());
    assert_eq!(tx.notify(), NotifyOutcome::Delivered);
    // capacity is one: a second push while one is pending is a no-op
    assert_eq!(tx.notify(), NotifyOutcome::AlreadyPending);
    assert!(rx.try_take().is_some());
    assert!(rx.try_take().is_none());
}

#[test]
fn channel_reports_closed_receiver() {
    let (tx, rx) = patch_channel();
    drop(rx);
    assert_eq!(tx.notify(), NotifyOutcome::Closed);
}
