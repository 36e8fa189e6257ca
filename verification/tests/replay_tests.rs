use pp2p_core::{clear_last_error, set_last_error, with_error_capture, CoreError, ReplayWindow};

#[test]
fn replay_window_detects_duplicates() {
    let mut rw = ReplayWindow::new(2);
    assert!(!rw.seen_before("peer", "a"));
    assert!(rw.seen_before("peer", "a"));
    assert!(!rw.seen_before("peer", "b"));
    assert!(!rw.seen_before("peer", "c"));
    // "a" should have been evicted once max_seen exceeded.
    assert!(!rw.seen_before("peer", "a"));
}

#[test]
fn replay_windows_are_per_peer() {
    let mut rw = ReplayWindow::new(1);
    assert!(!rw.seen_before("alice", "n"));
    assert!(!rw.seen_before("bob", "n"));
    assert!(rw.seen_before("alice", "n"));
    assert!(rw.seen_before("bob", "n"));
    assert!(!rw.seen_before("bob", "m"));
    assert!(rw.seen_before("alice", "n"));
    assert!(!rw.seen_before("bob", "n"));
}

#[test]
fn replay_window_of_zero_reports_nothing() {
    let mut rw = ReplayWindow::new(0);
    assert!(!rw.seen_before("peer", "a"));
    assert!(!rw.seen_before("peer", "a"));
}

#[test]
fn replay_window_forgets_oldest_first() {
    let mut rw = ReplayWindow::new(3);
    for n in ["a", "b", "c"] {
        assert!(!rw.seen_before("p", n));
    }
    // A repeat does not refresh or move anything.
    assert!(rw.seen_before("p", "a"));
    assert!(!rw.seen_before("p", "d"));
    assert!(rw.seen_before("p", "b"));
    assert!(rw.seen_before("p", "c"));
    assert!(rw.seen_before("p", "d"));
    assert!(!rw.seen_before("p", "a"));
}

#[test]
fn last_error_slot() {
    let mut slot: Option<String> = None;
    set_last_error(&mut slot, "boom".to_string());
    assert_eq!(slot.as_deref(), Some("boom"));
    clear_last_error(&mut slot);
    assert_eq!(slot, None);

    let got = with_error_capture(&mut slot, || Ok::<u32, CoreError>(7));
    assert_eq!(got, Some(7));
    assert_eq!(slot, None);

    let got = with_error_capture(&mut slot, || Err::<u32, CoreError>(CoreError::TimestampSkewExceeded));
    assert_eq!(got, None);
    assert_eq!(slot.as_deref(), Some("timestamp outside allowed skew window"));

    let got = with_error_capture(&mut slot, || Ok::<&str, CoreError>("fine"));
    assert_eq!(got, Some("fine"));
    assert_eq!(slot, None);
}

#[test]
fn other_peers_neither_count_nor_evict() {
    let mut rw = ReplayWindow::new(1);
    assert!(!rw.seen_before("p", "a"));
    assert!(!rw.seen_before("q", "a"));
    assert!(!rw.seen_before("q", "b"));
    assert!(rw.seen_before("p", "a"));
}

#[test]
fn cloned_window_remembers_the_same() {
    let mut rw = ReplayWindow::new(2);
    assert!(!rw.seen_before("p", "a"));
    assert!(!rw.seen_before("p", "b"));
    let mut copy = rw.clone();
    assert!(!rw.seen_before("p", "c"));
    assert!(copy.seen_before("p", "a"));
    assert!(!rw.seen_before("p", "a"));
}

#[test]
fn nonce_reported_until_max_seen_later_ones() {
    let mut rw = ReplayWindow::new(3);
    assert!(!rw.seen_before("p", "x"));
    for n in ["1", "2"] {
        assert!(!rw.seen_before("p", n));
        assert!(rw.seen_before("p", "x"));
    }
    assert!(!rw.seen_before("p", "3"));
    assert!(!rw.seen_before("p", "x"));
}
