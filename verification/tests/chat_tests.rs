use yewchat::chat::{login_enabled, Chat, Msg};
use yewchat::codec::DecodeError;

fn users_frame(names: &[&str]) -> String {
    let list = names
        .iter()
        .map(|n| serde_json::to_string(n).unwrap())
        .collect::<Vec<_>>()
        .join(",");
    format!("{{\"messageType\":\"users\",\"dataArray\":[{}],\"data\":null}}", list)
}

fn typing_frame(name: &str) -> String {
    format!(
        "{{\"messageType\":\"typing\",\"dataArray\":null,\"data\":{}}}",
        serde_json::to_string(name).unwrap()
    )
}

fn message_frame(from: &str, body: &str) -> String {
    let inner = format!(
        "{{\"from\":{},\"message\":{}}}",
        serde_json::to_string(from).unwrap(),
        serde_json::to_string(body).unwrap()
    );
    format!(
        "{{\"messageType\":\"message\",\"dataArray\":null,\"data\":{}}}",
        serde_json::to_string(&inner).unwrap()
    )
}

fn roster_names(c: &Chat) -> Vec<String> {
    c.state.users.iter().map(|u| u.name.clone()).collect()
}

#[test]
fn register_frame_carries_username() {
    let c = Chat::new("me".to_string());
    assert_eq!(
        c.register_frame(),
        "{\"messageType\":\"register\",\"dataArray\":null,\"data\":\"me\"}"
    );
}

#[test]
fn users_snapshot_applied_twice_is_unchanged() {
    let mut c = Chat::new("me".to_string());
    c.update(Msg::HandleMsg(users_frame(&["alice", "bob"])), 0);
    let once = roster_names(&c);
    c.update(Msg::HandleMsg(users_frame(&["alice", "bob"])), 10);
    assert_eq!(roster_names(&c), once);
    assert_eq!(once, vec!["alice", "bob"]);
    assert_eq!(c.state.messages.len(), 0);
}

#[test]
fn snapshot_replacement_drops_the_departed_and_their_timer() {
    let mut c = Chat::new("me".to_string());
    c.update(Msg::HandleMsg(users_frame(&["A", "B"])), 0);
    c.update(Msg::HandleMsg(typing_frame("A")), 0);
    assert!(c.state.users[0].is_typing);
    c.update(Msg::HandleMsg(users_frame(&["B", "C"])), 100);
    assert_eq!(roster_names(&c), vec!["B", "C"]);
    assert!(!c.state.users[0].is_typing, "the snapshot resets the typing flag");
    let cleared = c.tick(1_000_000);
    assert_eq!(cleared.len(), 0, "no leaked timer may fire for a departed user");
}

#[test]
fn typing_debounce_keeps_indicator_until_quiet_period_ends() {
    let mut c = Chat::new("me".to_string());
    c.update(Msg::HandleMsg(users_frame(&["A"])), 0);
    c.update(Msg::HandleMsg(typing_frame("A")), 0);
    c.update(Msg::HandleMsg(typing_frame("A")), 1000);
    c.update(Msg::HandleMsg(typing_frame("A")), 2000);
    assert_eq!(c.tick(2999).len(), 0);
    assert!(c.state.users[0].is_typing);
    assert_eq!(c.tick(4999).len(), 0, "the re-arm supersedes the older deadlines");
    assert!(c.state.users[0].is_typing);
    let cleared = c.tick(5000);
    assert_eq!(cleared, vec!["A"]);
    assert!(!c.state.users[0].is_typing);
    assert_eq!(c.tick(5001).len(), 0, "exactly one flip is observed");
    assert_eq!(c.tick(10000).len(), 0);
}

#[test]
fn malformed_frames_leave_state_unchanged() {
    let mut c = Chat::new("me".to_string());
    c.update(Msg::HandleMsg(users_frame(&["alice"])), 0);
    let out = c.update(Msg::HandleMsg("not a json frame".to_string()), 1);
    assert_eq!(out.error, Some(DecodeError::MalformedEnvelope));
    assert!(!out.rerender);
    let out = c.update(Msg::HandleMsg("{\"messageType\":\"bogus\"}".to_string()), 2);
    assert_eq!(out.error, Some(DecodeError::MalformedEnvelope));
    assert_eq!(roster_names(&c), vec!["alice"]);
    assert_eq!(c.state.messages.len(), 0);
    let out = c.update(Msg::HandleMsg(users_frame(&["alice", "bob"])), 3);
    assert_eq!(out.error, None, "the session keeps processing after bad frames");
    assert_eq!(c.state.users.len(), 2);
}

#[test]
fn messages_append_in_arrival_order() {
    let mut c = Chat::new("me".to_string());
    c.update(Msg::HandleMsg(users_frame(&["alice", "bob"])), 0);
    c.update(Msg::HandleMsg(message_frame("alice", "hi")), 1);
    c.update(Msg::HandleMsg(message_frame("bob", "yo")), 2);
    assert_eq!(c.state.messages.len(), 2);
    assert_eq!(c.state.messages[0].from, "alice");
    assert_eq!(c.state.messages[0].message, "hi");
    assert_eq!(c.state.messages[1].from, "bob");
    assert_eq!(c.state.messages[1].message, "yo");
    assert_eq!(c.state.messages[0].received_at, 1);
    assert_eq!(c.state.messages[1].received_at, 2);
}

#[test]
fn end_to_end_scenario() {
    let mut c = Chat::new("me".to_string());
    c.update(Msg::HandleMsg(users_frame(&["alice", "bob"])), 0);
    assert_eq!(c.state.users.len(), 2);
    let out = c.update(Msg::HandleMsg(typing_frame("alice")), 0);
    assert!(out.rerender);
    assert!(c.state.users[0].is_typing);
    let cleared = c.tick(3000);
    assert_eq!(cleared, vec!["alice"]);
    assert!(!c.state.users[0].is_typing);
}

#[test]
fn unknown_sender_message_is_kept_but_not_added_to_roster() {
    let mut c = Chat::new("me".to_string());
    c.update(Msg::HandleMsg(users_frame(&["alice"])), 0);
    c.update(Msg::HandleMsg(message_frame("carol", "hey")), 5);
    assert_eq!(c.state.messages.len(), 1);
    assert_eq!(c.state.messages[0].from, "carol");
    assert_eq!(c.state.users.len(), 1, "carol is not added to the roster");
}

#[test]
fn submit_message_through_update() {
    let mut c = Chat::new("me".to_string());
    c.update(Msg::SetTyping(true), 0);
    assert!(c.state.local_typing);
    let out = c.update(Msg::SubmitMessage("hello".to_string()), 0);
    assert_eq!(
        out.send.as_deref(),
        Some("{\"messageType\":\"message\",\"dataArray\":null,\"data\":\"hello\"}")
    );
    assert!(!c.state.local_typing);
    let out = c.update(Msg::SubmitMessage("  \t ".to_string()), 0);
    assert_eq!(out.send, None);
}

#[test]
fn inbound_register_does_not_rerender() {
    let mut c = Chat::new("me".to_string());
    let out = c.update(
        Msg::HandleMsg("{\"messageType\":\"register\",\"dataArray\":null,\"data\":\"x\"}".to_string()),
        0,
    );
    assert_eq!(out.error, None);
    assert!(!out.rerender);
    assert_eq!(c.state.users.len(), 0);
}

#[test]
fn typing_for_unknown_user_does_not_rerender() {
    let mut c = Chat::new("me".to_string());
    c.update(Msg::HandleMsg(users_frame(&["alice"])), 0);
    let out = c.update(Msg::HandleMsg(typing_frame("ghost")), 0);
    assert_eq!(out.error, None);
    assert!(!out.rerender);
}

#[test]
fn login_requires_a_name() {
    assert!(!login_enabled(""));
    assert!(login_enabled("a"));
    assert!(login_enabled("alice"));
}
