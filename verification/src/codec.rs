//! Wire codec: the JSON envelope `{ messageType, dataArray, data }` and the
//! inner `{ from, message, timestamp }` record carried by `message` frames.

use vstd::prelude::*;
use vstd::string::StringExecFns;

verus! {

/// The four tags a wire envelope may carry in its `messageType` field.
#[derive(Clone, Copy, PartialEq, Eq, Structural, Debug)]
pub enum MsgTypes {
    Users,
    Register,
    Message,
    Typing,
}

/// The lowercase tag name of each message type, as written on the wire.
pub open spec fn tag_of(t: MsgTypes) -> Seq<char> {
    match t {
        MsgTypes::Users => "users"@,
        MsgTypes::Register => "register"@,
        MsgTypes::Message => "message"@,
        MsgTypes::Typing => "typing"@,
    }
}

impl MsgTypes {
    /// The tag written in the `messageType` field.
    pub fn tag(&self) -> (r: &'static str)
        ensures
            r@ == tag_of(*self),
    {
        match self {
            MsgTypes::Users => "users",
            MsgTypes::Register => "register",
            MsgTypes::Message => "message",
            MsgTypes::Typing => "typing",
        }
    }
}

/// A decoded inner payload of a `message` frame.
#[derive(Debug)]
pub struct MessageBody {
    pub from: String,
    pub message: String,
    pub timestamp: Option<i64>,
}

/// Mathematical model of a [`MessageBody`].
pub ghost struct SpecMessageBody {
    pub from: Seq<char>,
    pub message: Seq<char>,
    pub timestamp: Option<int>,
}

pub open spec fn body_view(m: MessageBody) -> SpecMessageBody {
    SpecMessageBody {
        from: m.from@,
        message: m.message@,
        timestamp: match m.timestamp {
            Some(t) => Some(t as int),
            None => None,
        },
    }
}

/// The `dataArray` field of an envelope: absent (or JSON `null`), present but
/// not an array of strings, or an array of strings.
pub enum ArrayField {
    Absent,
    Invalid,
    Strings(Vec<String>),
}

/// Mathematical model of an [`ArrayField`].
pub ghost enum SpecArrayField {
    Absent,
    Invalid,
    Strings(Seq<Seq<char>>),
}

pub open spec fn strs_view(v: Seq<String>) -> Seq<Seq<char>> {
    v.map_values(|s: String| s@)
}

/// Whether the name list contains this name.
pub open spec fn names_has(names: Seq<Seq<char>>, name: Seq<char>) -> bool {
    exists|i: int| 0 <= i < names.len() && #[trigger] names[i] == name
}

pub open spec fn opt_str_view(o: Option<String>) -> Option<Seq<char>> {
    match o {
        Some(s) => Some(s@),
        None => None,
    }
}

pub open spec fn array_field_view(a: ArrayField) -> SpecArrayField {
    match a {
        ArrayField::Absent => SpecArrayField::Absent,
        ArrayField::Invalid => SpecArrayField::Invalid,
        ArrayField::Strings(v) => SpecArrayField::Strings(strs_view(v@)),
    }
}

/// The two string fields of one parsed JSON envelope, before dispatch on
/// the tag. A field that is missing, JSON `null`, or not a string is `None`.
pub struct RawEnvelope {
    pub message_type: Option<String>,
    pub data: Option<String>,
}

/// Mathematical model of one parsed envelope.
pub ghost struct SpecEnvelope {
    pub message_type: Option<Seq<char>>,
    pub data: Option<Seq<char>>,
    pub data_array: SpecArrayField,
}

/// What parsing an envelope text yields: a function of the characters alone.
/// `None` stands for text that is not a JSON document.
pub uninterp spec fn envelope_of(s: Seq<char>) -> Option<SpecEnvelope>;

/// What parsing an inner `message` payload yields: a function of the
/// characters alone. `None` stands for text that is not a JSON object with
/// string fields `from` and `message`.
pub uninterp spec fn message_body_of(s: Seq<char>) -> Option<SpecMessageBody>;

/// The JSON string literal (quotes and escapes included) that encodes the
/// given characters: a function of the characters alone.
pub uninterp spec fn json_quoted_of(s: Seq<char>) -> Seq<char>;

/// Relies on `serde_json::from_str::<Value>` and on `Value::get` and
/// `Value::as_str`: the `messageType` and `data` fields extracted from the
/// text depend on the characters alone. `None` comes back only for text that
/// is not a JSON document.
#[verifier::external_body]
fn parse_envelope(text: &str) -> (r: Option<RawEnvelope>)
    ensures
        match r {
            None => envelope_of(text@) is None,
            Some(raw) => envelope_of(text@) matches Some(e) && e.message_type == opt_str_view(
                raw.message_type,
            ) && e.data == opt_str_view(raw.data),
        },
{
    let v: serde_json::Value = match serde_json::from_str(text) {
        Ok(v) => v,
        Err(_) => return None,
    };
    let message_type = v.get("messageType").and_then(|f| f.as_str()).map(|s| s.to_string());
    let data = v.get("data").and_then(|f| f.as_str()).map(|s| s.to_string());
    Some(RawEnvelope { message_type, data })
}

/// Relies on `serde_json::from_str::<Value>` and on `Value::get`,
/// `Value::is_null`, `Value::as_array` and `Value::as_str`: the `dataArray`
/// field extracted from the text depends on the characters alone. A missing
/// field and JSON `null` count as absent, as the wire writes `null` for an
/// unused field; anything else that is not an array of strings is invalid.
#[verifier::external_body]
fn parse_envelope_array(text: &str) -> (r: Option<ArrayField>)
    ensures
        match r {
            None => envelope_of(text@) is None,
            Some(a) => envelope_of(text@) matches Some(e) && e.data_array == array_field_view(a),
        },
{
    let v: serde_json::Value = match serde_json::from_str(text) {
        Ok(v) => v,
        Err(_) => return None,
    };
    let strings = |a: &Vec<serde_json::Value>| {
        a.iter().map(|x| x.as_str().map(|s| s.to_string())).collect::<Option<Vec<String>>>()
    };
    match v.get("dataArray") {
        None => Some(ArrayField::Absent),
        Some(f) if f.is_null() => Some(ArrayField::Absent),
        Some(f) => match f.as_array().map(strings) {
            Some(Some(items)) => Some(ArrayField::Strings(items)),
            _ => Some(ArrayField::Invalid),
        },
    }
}

/// Relies on `serde_json::from_str::<Value>` and on `Value::get`, `Value::as_str`
/// and `Value::as_i64`: the record extracted from the text depends on the
/// characters alone. Missing or non-string `from` or `message` rejects the
/// record; a missing or non-integer `timestamp` is `None`.
#[verifier::external_body]
fn parse_message_body(text: &str) -> (r: Option<MessageBody>)
    ensures
        match r {
            None => message_body_of(text@) is None,
            Some(m) => message_body_of(text@) == Some(body_view(m)),
        },
{
    let v: serde_json::Value = match serde_json::from_str(text) {
        Ok(v) => v,
        Err(_) => return None,
    };
    let from = match v.get("from").and_then(|f| f.as_str()) {
        Some(s) => s.to_string(),
        None => return None,
    };
    let message = match v.get("message").and_then(|f| f.as_str()) {
        Some(s) => s.to_string(),
        None => return None,
    };
    let timestamp = v.get("timestamp").and_then(|f| f.as_i64());
    Some(MessageBody { from, message, timestamp })
}

/// Relies on `serde_json::to_string` on a string slice: the quoted, escaped
/// JSON string depends on the characters alone. Serializing a string slice
/// never fails.
#[verifier::external_body]
fn json_quote(s: &str) -> (r: String)
    ensures
        r@ == json_quoted_of(s@),
{
    serde_json::to_string(s).unwrap_or_default()
}

/// Why an inbound frame was rejected.
#[derive(Clone, Copy, PartialEq, Eq, Structural, Debug)]
pub enum DecodeError {
    /// The text is not a JSON document, or its `messageType` is missing,
    /// not a string, or not one of the four known tags.
    MalformedEnvelope,
    /// The tag is known but the payload does not have the shape the tag
    /// declares.
    MalformedPayload,
}

/// A decoded inbound event, dispatch already done on the tag.
#[derive(Debug)]
pub enum WireEnvelope {
    /// Full replacement roster, in wire order.
    Users(Vec<String>),
    /// Client-originated registration; carries the username if any.
    Register(Option<String>),
    /// A chat message with its decoded inner record.
    Message(MessageBody),
    /// The name of a user who is typing.
    Typing(String),
}

/// Mathematical model of a [`WireEnvelope`].
pub ghost enum SpecWire {
    Users(Seq<Seq<char>>),
    Register(Option<Seq<char>>),
    Message(SpecMessageBody),
    Typing(Seq<char>),
}

pub open spec fn wire_view(w: WireEnvelope) -> SpecWire {
    match w {
        WireEnvelope::Users(v) => SpecWire::Users(strs_view(v@)),
        WireEnvelope::Register(o) => SpecWire::Register(opt_str_view(o)),
        WireEnvelope::Message(m) => SpecWire::Message(body_view(m)),
        WireEnvelope::Typing(s) => SpecWire::Typing(s@),
    }
}

/// Dispatch on the parsed fields of one envelope: which event it is, or why
/// it is rejected. A `users` frame with no `dataArray` means an empty roster.
pub open spec fn spec_dispatch(e: SpecEnvelope) -> Result<SpecWire, DecodeError> {
    match e.message_type {
        None => Err(DecodeError::MalformedEnvelope),
        Some(t) => if t == tag_of(MsgTypes::Users) {
            match e.data_array {
                SpecArrayField::Absent => Ok(SpecWire::Users(Seq::empty())),
                SpecArrayField::Invalid => Err(DecodeError::MalformedPayload),
                SpecArrayField::Strings(names) => Ok(SpecWire::Users(names)),
            }
        } else if t == tag_of(MsgTypes::Register) {
            Ok(SpecWire::Register(e.data))
        } else if t == tag_of(MsgTypes::Message) {
            match e.data {
                None => Err(DecodeError::MalformedPayload),
                Some(d) => match message_body_of(d) {
                    None => Err(DecodeError::MalformedPayload),
                    Some(m) => Ok(SpecWire::Message(m)),
                },
            }
        } else if t == tag_of(MsgTypes::Typing) {
            match e.data {
                None => Err(DecodeError::MalformedPayload),
                Some(d) => Ok(SpecWire::Typing(d)),
            }
        } else {
            Err(DecodeError::MalformedEnvelope)
        },
    }
}

/// What decoding a frame text yields.
pub open spec fn spec_decode(s: Seq<char>) -> Result<SpecWire, DecodeError> {
    match envelope_of(s) {
        None => Err(DecodeError::MalformedEnvelope),
        Some(e) => spec_dispatch(e),
    }
}

pub open spec fn decode_result_view(r: Result<WireEnvelope, DecodeError>) -> Result<
    SpecWire,
    DecodeError,
> {
    match r {
        Ok(w) => Ok(wire_view(w)),
        Err(e) => Err(e),
    }
}

pub(crate) fn str_eq(a: &str, b: &str) -> (r: bool)
    ensures
        r == (a@ == b@),
{
    let x = a.to_owned();
    let y = b.to_owned();
    x == y
}

/// Decode one inbound frame: parse the JSON envelope, dispatch on its tag and
/// check the payload shape the tag declares. Never panics; a frame that does
/// not decode comes back as the error that says why.
pub fn decode(text: &str) -> (r: Result<WireEnvelope, DecodeError>)
    ensures
        decode_result_view(r) == spec_decode(text@),
{
    let raw = match parse_envelope(text) {
        None => {
            return Err(DecodeError::MalformedEnvelope);
        },
        Some(raw) => raw,
    };
    let RawEnvelope { message_type, data } = raw;
    let mt = match message_type {
        None => {
            return Err(DecodeError::MalformedEnvelope);
        },
        Some(mt) => mt,
    };
    if str_eq(mt.as_str(), MsgTypes::Users.tag()) {
        match parse_envelope_array(text) {
            None => Err(DecodeError::MalformedEnvelope),
            Some(ArrayField::Absent) => {
                proof {
                    assert(strs_view(Seq::<String>::empty()) =~= Seq::<Seq<char>>::empty());
                }
                Ok(WireEnvelope::Users(Vec::new()))
            },
            Some(ArrayField::Invalid) => Err(DecodeError::MalformedPayload),
            Some(ArrayField::Strings(names)) => Ok(WireEnvelope::Users(names)),
        }
    } else if str_eq(mt.as_str(), MsgTypes::Register.tag()) {
        Ok(WireEnvelope::Register(data))
    } else if str_eq(mt.as_str(), MsgTypes::Message.tag()) {
        match data {
            None => Err(DecodeError::MalformedPayload),
            Some(d) => match parse_message_body(d.as_str()) {
                None => Err(DecodeError::MalformedPayload),
                Some(m) => Ok(WireEnvelope::Message(m)),
            },
        }
    } else if str_eq(mt.as_str(), MsgTypes::Typing.tag()) {
        match data {
            None => Err(DecodeError::MalformedPayload),
            Some(d) => Ok(WireEnvelope::Typing(d)),
        }
    } else {
        Err(DecodeError::MalformedEnvelope)
    }
}

/// The text of an outbound envelope: the fixed field order the wire uses,
/// with the tag spelled out and the payload as a quoted JSON string.
pub open spec fn envelope_text_of(tag: Seq<char>, data: Seq<char>) -> Seq<char> {
    "{\"messageType\":\""@ + tag + "\",\"dataArray\":null,\"data\":"@ + json_quoted_of(data)
        + "}"@
}

/// Serialize one outbound envelope carrying a single string payload.
pub fn encode_envelope(tag: MsgTypes, data: &str) -> (r: String)
    ensures
        r@ == envelope_text_of(tag_of(tag), data@),
{
    let mut s: String = "{\"messageType\":\"".to_owned();
    s.append(tag.tag());
    s.append("\",\"dataArray\":null,\"data\":");
    let q = json_quote(data);
    s.append(q.as_str());
    s.append("}");
    s
}

/// Build the `register` frame sent once at connect time, carrying the
/// username.
pub fn encode_register(username: &str) -> (r: String)
    ensures
        r@ == envelope_text_of(tag_of(MsgTypes::Register), username@),
{
    encode_envelope(MsgTypes::Register, username)
}

/// Build a `message` frame carrying the outbound body. The sender is not
/// stamped here: the wire's `data` is the body alone, and the server fills in
/// who it came from.
pub fn encode_send_message(body: &str) -> (r: String)
    ensures
        r@ == envelope_text_of(tag_of(MsgTypes::Message), body@),
{
    encode_envelope(MsgTypes::Message, body)
}

} // verus!
