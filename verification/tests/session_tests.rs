use yewchat::codec::WireEnvelope;
use yewchat::session::{derive_avatar, Effect, SessionState};

fn users_event(names: &[&str]) -> WireEnvelope {
    WireEnvelope::Users(names.iter().map(|n| n.to_string()).collect())
}

#[test]
fn avatar_url_is_seeded_identicon() {
    assert_eq!(
        derive_avatar("bob"),
        "https://api.dicebear.com/7.x/identicon/svg?seed=bob&backgroundType=gradientLinear&backgroundColor=b6e3f4,c0aede,d1d4f9"
    );
}

#[test]
fn users_snapshot_builds_fresh_profiles() {
    let mut s = SessionState::new();
    let effects = s.apply(&users_event(&["alice", "bob"]), 0);
    assert_eq!(s.users.len(), 2);
    assert_eq!(s.users[0].name, "alice");
    assert_eq!(s.users[1].name, "bob");
    assert!(!s.users[0].is_typing);
    assert_eq!(s.users[0].last_seen, None);
    assert_eq!(s.users[0].avatar, derive_avatar("alice"));
    assert_eq!(effects.len(), 1);
    match &effects[0] {
        Effect::RetainRoster(names) => assert_eq!(names, &vec!["alice", "bob"]),
        _ => panic!("expected a roster retention request"),
    }
}

#[test]
fn typing_event_marks_known_user_and_requests_timer() {
    let mut s = SessionState::new();
    s.apply(&users_event(&["alice", "bob"]), 0);
    let effects = s.apply(&WireEnvelope::Typing("bob".to_string()), 0);
    assert!(s.users[1].is_typing);
    assert!(!s.users[0].is_typing);
    assert_eq!(effects.len(), 1);
    match &effects[0] {
        Effect::ArmTyping(name) => assert_eq!(name, "bob"),
        _ => panic!("expected a timer request"),
    }
}

#[test]
fn typing_event_for_unknown_user_is_noop() {
    let mut s = SessionState::new();
    s.apply(&users_event(&["alice"]), 0);
    let effects = s.apply(&WireEnvelope::Typing("ghost".to_string()), 0);
    assert_eq!(effects.len(), 0);
    assert_eq!(s.users.len(), 1);
    assert!(!s.users[0].is_typing);
}

#[test]
fn inbound_register_is_noop() {
    let mut s = SessionState::new();
    s.apply(&users_event(&["alice"]), 0);
    let effects = s.apply(&WireEnvelope::Register(Some("mallory".to_string())), 7);
    assert_eq!(effects.len(), 0);
    assert_eq!(s.users.len(), 1);
    assert_eq!(s.messages.len(), 0);
}

#[test]
fn build_send_message_emits_frame_and_clears_typing() {
    let mut s = SessionState::new();
    s.input_changed("hello");
    assert!(s.local_typing);
    let frame = s.build_send_message("hello");
    assert_eq!(
        frame.as_deref(),
        Some("{\"messageType\":\"message\",\"dataArray\":null,\"data\":\"hello\"}")
    );
    assert!(!s.local_typing);
}

#[test]
fn build_send_message_rejects_blank_body() {
    let mut s = SessionState::new();
    s.input_changed("   ");
    assert!(s.local_typing);
    assert_eq!(s.build_send_message("   "), None);
    assert_eq!(s.build_send_message(""), None);
    assert!(s.local_typing, "a rejected submit must not clear the flag");
}

#[test]
fn display_profile_prefers_roster_entry() {
    let mut s = SessionState::new();
    s.apply(&users_event(&["alice"]), 0);
    s.apply(&WireEnvelope::Typing("alice".to_string()), 0);
    let p = s.display_profile("alice");
    assert_eq!(p.name, "alice");
    assert!(p.is_typing, "the roster entry, not a fresh one, must come back");
}

#[test]
fn display_profile_synthesizes_transient_for_unknown_sender() {
    let mut s = SessionState::new();
    s.apply(&users_event(&["alice"]), 0);
    let p = s.display_profile("carol");
    assert_eq!(p.name, "carol");
    assert_eq!(p.avatar, derive_avatar("carol"));
    assert!(!p.is_typing);
    assert_eq!(s.users.len(), 1, "the transient profile is not stored");
}
