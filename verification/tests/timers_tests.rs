use yewchat::timers::{TimerManager, TYPING_TIMEOUT};

#[test]
fn armed_timer_is_due_only_after_the_quiet_period() {
    let mut t = TimerManager::new();
    t.arm("alice", 100);
    assert!(!t.expires_by("alice", 100 + TYPING_TIMEOUT - 1));
    assert!(t.expires_by("alice", 100 + TYPING_TIMEOUT));
    assert!(!t.expires_by("bob", u64::MAX), "no timer was armed for bob");
}

#[test]
fn rearming_supersedes_the_old_deadline() {
    let mut t = TimerManager::new();
    t.arm("alice", 0);
    t.arm("alice", 2000);
    assert_eq!(t.entries.len(), 1, "at most one live timer per user");
    assert!(!t.expires_by("alice", 4999), "the first deadline is gone");
    assert!(t.expires_by("alice", 5000));
}

#[test]
fn cancel_is_idempotent() {
    let mut t = TimerManager::new();
    t.arm("alice", 0);
    t.cancel("alice");
    assert!(!t.expires_by("alice", u64::MAX));
    t.cancel("alice");
    t.cancel("never-armed");
    assert_eq!(t.entries.len(), 0);
}

#[test]
fn retain_keeps_only_roster_timers() {
    let mut t = TimerManager::new();
    t.arm("alice", 0);
    t.arm("bob", 10);
    t.retain(&vec!["bob".to_string(), "carol".to_string()]);
    assert!(!t.expires_by("alice", u64::MAX));
    assert!(t.expires_by("bob", 10 + TYPING_TIMEOUT), "the kept deadline is unchanged");
}

#[test]
fn remove_expired_drops_only_due_timers() {
    let mut t = TimerManager::new();
    t.arm("alice", 0);
    t.arm("bob", 1000);
    t.remove_expired(TYPING_TIMEOUT);
    assert!(!t.expires_by("alice", u64::MAX), "the due timer is gone for good");
    assert!(t.expires_by("bob", 1000 + TYPING_TIMEOUT));
}
