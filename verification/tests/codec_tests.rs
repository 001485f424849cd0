use yewchat::codec::{decode, encode_register, encode_send_message, DecodeError, WireEnvelope};

#[test]
fn register_frame_text() {
    assert_eq!(
        encode_register("bob"),
        "{\"messageType\":\"register\",\"dataArray\":null,\"data\":\"bob\"}"
    );
}

#[test]
fn send_message_frame_text() {
    assert_eq!(
        encode_send_message("hi there"),
        "{\"messageType\":\"message\",\"dataArray\":null,\"data\":\"hi there\"}"
    );
}

#[test]
fn send_message_escapes_quotes() {
    assert_eq!(
        encode_send_message("say \"hi\""),
        "{\"messageType\":\"message\",\"dataArray\":null,\"data\":\"say \\\"hi\\\"\"}"
    );
}

#[test]
fn decode_users_frame() {
    let env = decode("{\"messageType\":\"users\",\"dataArray\":[\"alice\",\"bob\"],\"data\":null}")
        .unwrap();
    match env {
        WireEnvelope::Users(names) => assert_eq!(names, vec!["alice", "bob"]),
        _ => panic!("expected a users event"),
    }
}

#[test]
fn decode_users_without_array_is_empty_roster() {
    let env = decode("{\"messageType\":\"users\"}").unwrap();
    match env {
        WireEnvelope::Users(names) => assert_eq!(names.len(), 0),
        _ => panic!("expected a users event"),
    }
}

#[test]
fn decode_users_with_non_string_entry_is_malformed_payload() {
    let r = decode("{\"messageType\":\"users\",\"dataArray\":[\"alice\",7],\"data\":null}");
    assert_eq!(r.unwrap_err(), DecodeError::MalformedPayload);
}

#[test]
fn decode_message_two_layers() {
    let inner = "{\"from\":\"alice\",\"message\":\"hi\",\"timestamp\":5}";
    let frame = format!(
        "{{\"messageType\":\"message\",\"dataArray\":null,\"data\":{}}}",
        serde_json::to_string(inner).unwrap()
    );
    let env = decode(&frame).unwrap();
    match env {
        WireEnvelope::Message(m) => {
            assert_eq!(m.from, "alice");
            assert_eq!(m.message, "hi");
            assert_eq!(m.timestamp, Some(5));
        }
        _ => panic!("expected a message event"),
    }
}

#[test]
fn decode_message_without_timestamp() {
    let inner = "{\"from\":\"bob\",\"message\":\"yo\"}";
    let frame = format!(
        "{{\"messageType\":\"message\",\"dataArray\":null,\"data\":{}}}",
        serde_json::to_string(inner).unwrap()
    );
    match decode(&frame).unwrap() {
        WireEnvelope::Message(m) => {
            assert_eq!(m.from, "bob");
            assert_eq!(m.timestamp, None);
        }
        _ => panic!("expected a message event"),
    }
}

#[test]
fn decode_message_with_undecodable_inner_record() {
    let frame = "{\"messageType\":\"message\",\"dataArray\":null,\"data\":\"not json\"}";
    assert_eq!(decode(frame).unwrap_err(), DecodeError::MalformedPayload);
}

#[test]
fn decode_message_without_data_is_malformed_payload() {
    let frame = "{\"messageType\":\"message\",\"dataArray\":null,\"data\":null}";
    assert_eq!(decode(frame).unwrap_err(), DecodeError::MalformedPayload);
}

#[test]
fn decode_typing_frame() {
    let env = decode("{\"messageType\":\"typing\",\"dataArray\":null,\"data\":\"alice\"}").unwrap();
    match env {
        WireEnvelope::Typing(name) => assert_eq!(name, "alice"),
        _ => panic!("expected a typing event"),
    }
}

#[test]
fn decode_typing_without_data_is_malformed_payload() {
    let frame = "{\"messageType\":\"typing\",\"dataArray\":null,\"data\":null}";
    assert_eq!(decode(frame).unwrap_err(), DecodeError::MalformedPayload);
}

#[test]
fn decode_register_frame_inbound() {
    let env = decode("{\"messageType\":\"register\",\"dataArray\":null,\"data\":\"carol\"}")
        .unwrap();
    match env {
        WireEnvelope::Register(name) => assert_eq!(name.as_deref(), Some("carol")),
        _ => panic!("expected a register event"),
    }
}

#[test]
fn decode_rejects_non_json() {
    assert_eq!(decode("not json at all").unwrap_err(), DecodeError::MalformedEnvelope);
}

#[test]
fn decode_rejects_unknown_tag() {
    assert_eq!(
        decode("{\"messageType\":\"bogus\"}").unwrap_err(),
        DecodeError::MalformedEnvelope
    );
}

#[test]
fn decode_rejects_missing_tag() {
    assert_eq!(decode("{\"data\":\"x\"}").unwrap_err(), DecodeError::MalformedEnvelope);
}

#[test]
fn decode_round_trips_own_register_frame() {
    let frame = encode_register("dana");
    match decode(&frame).unwrap() {
        WireEnvelope::Register(name) => assert_eq!(name.as_deref(), Some("dana")),
        _ => panic!("expected a register event"),
    }
}
