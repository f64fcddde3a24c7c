//! Inbound payload validation and the outbound line formats.
//!
//! An inbound frame is a JSON object with the three string fields
//! `content`, `from` and `time`; anything else is malformed. Outbound
//! broadcast lines are raw strings: `"{name} joined."`, `"{name}: {text}"`
//! and `"{name} left."`; a malformed inbound frame is answered with
//! `"Wrong format data."`.

use vstd::prelude::*;
use vstd::string::StringExecFns;

verus! {

/// One validated inbound chat payload: `content`, the sender's display
/// name `from`, and the client-supplied `time` stamp.
pub struct ChatMessage {
    pub content: String,
    pub from: String,
    pub time: String,
}

/// What a text parses to when read as a JSON object with the string
/// fields `content`, `from` and `time`, in that order — or nothing, when
/// the text is not valid JSON or any of the three fields is missing or
/// not a string. The result depends on the text alone; it is given by
/// serde_json's grammar and not restated here.
pub uninterp spec fn json_message_of(s: Seq<char>) -> Option<(Seq<char>, Seq<char>, Seq<char>)>;

/// Relies on serde_json: `serde_json::from_str` parses the text into a
/// `serde_json::Value` exactly when the text is valid JSON, and the
/// `Value` string-key index plus `Value::as_str` yield the field exactly
/// when it is present with a string value. Together they accept exactly
/// the payloads `json_message_of` speaks of.
#[verifier::external_body]
pub(crate) fn parse_message(s: &str) -> (r: Option<ChatMessage>)
    ensures
        r is Some <==> json_message_of(s@) is Some,
        r matches Some(m) ==> json_message_of(s@) == Some((m.content@, m.from@, m.time@)),
{
    let v: serde_json::Value = match serde_json::from_str(s) {
        Ok(v) => v,
        Err(_) => return None,
    };
    match (v["content"].as_str(), v["from"].as_str(), v["time"].as_str()) {
        (Some(content), Some(from), Some(time)) => Some(ChatMessage {
            content: content.to_owned(),
            from: from.to_owned(),
            time: time.to_owned(),
        }),
        _ => None,
    }
}

/// The broadcast line announcing that `name` has joined.
pub open spec fn joined_notice_spec(name: Seq<char>) -> Seq<char> {
    name + " joined."@
}

/// The broadcast line relaying `text` from the named sender.
pub open spec fn chat_line_spec(name: Seq<char>, text: Seq<char>) -> Seq<char> {
    name + ": "@ + text
}

/// The broadcast line announcing that `name` has left.
pub open spec fn left_notice_spec(name: Seq<char>) -> Seq<char> {
    name + " left."@
}

/// The reply sent for a malformed inbound payload.
pub open spec fn wrong_format_reply_spec() -> Seq<char> {
    "Wrong format data."@
}

pub fn joined_notice(name: &str) -> (r: String)
    ensures
        r@ == joined_notice_spec(name@),
{
    let mut r = name.to_owned();
    r.append(" joined.");
    r
}

pub fn chat_line(name: &str, text: &str) -> (r: String)
    ensures
        r@ == chat_line_spec(name@, text@),
{
    let mut r = name.to_owned();
    r.append(": ");
    r.append(text);
    r
}

pub fn left_notice(name: &str) -> (r: String)
    ensures
        r@ == left_notice_spec(name@),
{
    let mut r = name.to_owned();
    r.append(" left.");
    r
}

pub fn wrong_format_reply() -> (r: String)
    ensures
        r@ == wrong_format_reply_spec(),
{
    let r = "Wrong format data.".to_owned();
    r
}

} // verus!
