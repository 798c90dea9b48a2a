//! The typing tracker's window and sweep.
use weecord::typing::{TypingEntry, TypingTracker};

fn entry(channel: u64, user: u64, time: u64) -> TypingEntry {
    TypingEntry {
        channel_id: channel,
        guild_id: None,
        user,
        user_name: "someone".to_string(),
        time,
    }
}

#[test]
fn entry_expires_after_the_window() {
    // Inserted at t=0 with the ten-second window: present at t=9.9s,
    // absent after a sweep at t=10.1s.
    let mut tracker = TypingTracker::new();
    tracker.add(entry(1, 2, 0));
    let changed_early = tracker.sweep(9900);
    assert!(!changed_early);
    assert_eq!(tracker.entries().len(), 1);
    let changed_late = tracker.sweep(10100);
    assert!(changed_late);
    assert_eq!(tracker.entries().len(), 0);
}

#[test]
fn refresh_replaces_the_earlier_entry() {
    let mut tracker = TypingTracker::new();
    tracker.add(entry(1, 2, 0));
    tracker.add(entry(1, 2, 5000));
    assert_eq!(tracker.entries().len(), 1);
    assert_eq!(tracker.entries()[0].time, 5000);
    // The refresh moved the expiry: still present after the first window.
    let changed = tracker.sweep(10100);
    assert!(!changed);
    assert_eq!(tracker.entries().len(), 1);
}

#[test]
fn sweep_is_idempotent() {
    let mut tracker = TypingTracker::new();
    tracker.add(entry(1, 2, 0));
    tracker.add(entry(1, 3, 20000));
    assert!(tracker.sweep(25000));
    let again = tracker.sweep(25000);
    assert!(!again);
    assert_eq!(tracker.entries().len(), 1);
    assert_eq!(tracker.entries()[0].user, 3);
}

#[test]
fn distinct_users_tracked_separately() {
    let mut tracker = TypingTracker::new();
    tracker.add(entry(1, 2, 0));
    tracker.add(entry(1, 3, 0));
    tracker.add(entry(2, 2, 0));
    assert_eq!(tracker.entries().len(), 3);
}
