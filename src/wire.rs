use vstd::prelude::*;
use serde_json::Value;

use crate::registry::id_view;

verus! {

#[verifier::external_type_specification]
#[verifier::external_body]
pub struct ExValue(serde_json::Value);

/// The lowercase hexadecimal digit for `n` (below 16).
pub open spec fn hex_digit(n: u32) -> char {
    seq!['0', '1', '2', '3', '4', '5', '6', '7', '8', '9', 'a', 'b', 'c', 'd', 'e', 'f'][n as int]
}

/// How one character is written inside a JSON string: `"` and `\` and the
/// control characters below U+0020 are escaped (the short forms where JSON
/// has them, else `\u00XX`); every other character stands as it is.
pub open spec fn escaped_char(c: char) -> Seq<char> {
    let n = c as u32;
    if c == '"' {
        seq!['\\', '"']
    } else if c == '\\' {
        seq!['\\', '\\']
    } else if n == 0x08 {
        seq!['\\', 'b']
    } else if n == 0x09 {
        seq!['\\', 't']
    } else if n == 0x0A {
        seq!['\\', 'n']
    } else if n == 0x0C {
        seq!['\\', 'f']
    } else if n == 0x0D {
        seq!['\\', 'r']
    } else if n < 0x20 {
        seq!['\\', 'u', '0', '0', hex_digit(n / 16), hex_digit(n % 16)]
    } else {
        seq![c]
    }
}

/// The characters of `s`, each written as `escaped_char` says.
pub open spec fn escaped(s: Seq<char>) -> Seq<char>
    decreases s.len(),
{
    if s.len() == 0 {
        Seq::empty()
    } else {
        escaped(s.drop_last()) + escaped_char(s.last())
    }
}

/// The JSON string literal that serde_json writes for `s`: the escaped
/// characters between double quotes.
pub open spec fn json_string_literal(s: Seq<char>) -> Seq<char> {
    seq!['"'] + escaped(s) + seq!['"']
}

/// Whether serde_json accepts `s` as the text of one JSON value.
pub uninterp spec fn is_json_text(s: Seq<char>) -> bool;

/// Relies on serde_json::to_string on a `str`: the literal between double
/// quotes, escaped by serde_json's table of escapes (ser.rs, `ESCAPE` and
/// `write_char_escape`). Writing a `str` into a `String` cannot fail.
#[verifier::external_body]
fn quote(s: &str) -> (r: String)
    ensures
        r@ == json_string_literal(s@),
{
    match serde_json::to_string(s) {
        Ok(t) => t,
        Err(_) => String::new(),
    }
}

/// Relies on serde_json's `Display` for `Value`: the compact JSON text.
#[verifier::external_body]
pub(crate) fn value_text(v: &Value) -> (r: String) {
    v.to_string()
}

/// The member named `key` of the JSON value that serde_json reads from `s`,
/// when that member is a string.
pub uninterp spec fn json_member_string(s: Seq<char>, key: Seq<char>) -> Option<Seq<char>>;

/// The correlation identifier that an inbound frame carries: its
/// `requestId` member, when that member is a string.
pub open spec fn frame_request_id(text: Seq<char>) -> Option<Seq<char>> {
    json_member_string(text, "requestId"@)
}

/// Relies on serde_json::from_str::<Value>, then `Value::get` and
/// `Value::as_str` on the member named `key`: whether the text is accepted,
/// and which string that member holds, are matters of the text and the key
/// alone.
#[verifier::external_body]
pub(crate) fn parse_inbound(text: &str, key: &str) -> (r: Option<(Value, Option<String>)>)
    ensures
        r.is_some() == is_json_text(text@),
        r matches Some((_, id)) ==> id_view(id) == json_member_string(text@, key@),
{
    match serde_json::from_str::<Value>(text) {
        Ok(v) => {
            let id = v.get(key).and_then(|f| f.as_str()).map(|s| s.to_string());
            Some((v, id))
        },
        Err(_) => None,
    }
}

/// Relies on serde_json's `Value::get`: the member named `key` of an object.
#[verifier::external_body]
pub(crate) fn member<'a>(v: &'a Value, key: &str) -> (r: Option<&'a Value>) {
    v.get(key)
}

/// Relies on serde_json's `Value::as_str`: the text of a string value.
#[verifier::external_body]
pub(crate) fn as_text(v: &Value) -> (r: Option<String>) {
    v.as_str().map(|s| s.to_string())
}

/// Relies on uuid's `Uuid::new_v4` and its `Display`: a random identifier
/// written in hyphenated form, which is 36 characters long.
#[verifier::external_body]
pub(crate) fn fresh_request_id() -> (r: String)
    ensures
        r@.len() == 36,
{
    uuid::Uuid::new_v4().to_string()
}

/// The text of an outbound request whose members are already written out:
/// an object with its members in the order serde_json gives them.
pub open spec fn envelope_text(
    type_lit: Seq<char>,
    id_lit: Seq<char>,
    payload_text: Seq<char>,
) -> Seq<char> {
    "{\"payload\":"@ + payload_text + ",\"requestId\":"@ + id_lit + ",\"type\":"@ + type_lit
        + "}"@
}

/// The outbound frame `{"type": msg_type, "requestId": request_id, "payload": ...}`,
/// given the payload's JSON text.
pub fn request_frame(msg_type: &str, request_id: &str, payload_text: &str) -> (r: String)
    ensures
        r@ == envelope_text(
            json_string_literal(msg_type@),
            json_string_literal(request_id@),
            payload_text@,
        ),
{
    let type_lit = quote(msg_type);
    let id_lit = quote(request_id);
    let mut out = String::from_str("{\"payload\":");
    out.append(payload_text);
    out.append(",\"requestId\":");
    out.append(id_lit.as_str());
    out.append(",\"type\":");
    out.append(type_lit.as_str());
    out.append("}");
    out
}

/// The greeting sent once to each newly accepted peer.
pub open spec fn greeting_text() -> Seq<char> {
    "{\"message\":\"MCP Server Connected!\",\"type\":\"hello\"}"@
}

/// The greeting frame; it carries no request identifier.
pub fn greeting_frame() -> (r: String)
    ensures
        r@ == greeting_text(),
{
    String::from_str("{\"message\":\"MCP Server Connected!\",\"type\":\"hello\"}")
}

/// The correlation identifier of an inbound frame: the `requestId` member of
/// its JSON value, when that member is a string; none for text that is not
/// JSON.
pub fn inbound_request_id(text: &str) -> (r: Option<String>)
    ensures
        is_json_text(text@) ==> id_view(r) == frame_request_id(text@),
        !is_json_text(text@) ==> r is None,
{
    match parse_inbound(text, "requestId") {
        Some((_, id)) => id,
        None => None,
    }
}

} // verus!
