//! The per-sandbox session cap.

use cube_terminal::sessions::TerminalSessionTracker;

#[test]
fn slots_are_granted_up_to_the_cap() {
    let mut tracker = TerminalSessionTracker::new();
    let first = tracker.acquire("a", 2).expect("first slot");
    let second = tracker.acquire("a", 2).expect("second slot");
    assert!(tracker.acquire("a", 2).is_none());
    assert_eq!(tracker.live_sessions("a"), 2);
    tracker.release(first);
    assert_eq!(tracker.live_sessions("a"), 1);
    let third = tracker.acquire("a", 2).expect("freed slot");
    tracker.release(second);
    tracker.release(third);
    assert_eq!(tracker.live_sessions("a"), 0);
}

#[test]
fn sandboxes_are_counted_apart() {
    let mut tracker = TerminalSessionTracker::new();
    let a = tracker.acquire("a", 1).expect("slot of a");
    let b = tracker.acquire("b", 1).expect("slot of b");
    assert!(tracker.acquire("a", 1).is_none());
    tracker.release(a);
    assert_eq!((tracker.live_sessions("a"), tracker.live_sessions("b")), (0, 1));
    tracker.release(b);
}

#[test]
fn default_tracker_has_no_sessions() {
    let mut tracker = TerminalSessionTracker::default();
    assert_eq!(tracker.live_sessions("a"), 0);
    assert!(tracker.acquire("a", 1).is_some());
}

#[test]
fn cap_of_zero_grants_nothing() {
    let mut tracker = TerminalSessionTracker::new();
    assert!(tracker.acquire("a", 0).is_none());
    assert_eq!(tracker.live_sessions("a"), 0);
}

#[test]
fn giving_back_undoes_taking() {
    let mut tracker = TerminalSessionTracker::new();
    let kept = tracker.acquire("a", 8).expect("a slot");
    for _ in 0..20 {
        let slot = tracker.acquire("a", 8).expect("another slot");
        tracker.release(slot);
        assert_eq!(tracker.live_sessions("a"), 1);
    }
    tracker.release(kept);
}
