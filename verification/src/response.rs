//! The shape of the service's replies: what a handler answers with when a
//! request went well, and what every stage answers with when it did not.

use vstd::prelude::*;

verus! {

/// Status code of a reply that went well.
pub const OK: u16 = 200;

/// Status code of a reply to a request without valid credentials.
pub const UNAUTHORIZED: u16 = 401;

/// Status code of a reply to a client that sent too many requests.
pub const TOO_MANY_REQUESTS: u16 = 429;

/// Status code of a reply after a fault of the service itself.
pub const INTERNAL_SERVER_ERROR: u16 = 500;

/// The body of every error reply. Callers tell rejections apart by the status
/// code and the message only.
#[derive(Clone, Debug)]
pub struct PublicErrorResponse {
    pub status: String,
    pub message: String,
    pub timestamp: String,
}

/// `serde_json::Value`: a JSON value, carried through as it is.
#[verifier::external_type_specification]
#[verifier::external_body]
pub struct ExJsonValue(serde_json::Value);

/// The compact JSON text of a value, as `serde_json::to_string` writes it.
pub uninterp spec fn json_text(value: serde_json::Value) -> Seq<char>;

/// The body of every reply that went well.
pub struct PublicSuccessResponse {
    pub status: String,
    pub data: serde_json::Value,
    pub timestamp: String,
}

/// A reply that went well: the status code to answer with, and the body.
pub struct SuccessReply {
    pub status_code: u16,
    pub body: PublicSuccessResponse,
}

/// An error reply: the status code to answer with, and the body.
#[derive(Clone, Debug)]
pub struct ErrorReply {
    pub status_code: u16,
    pub body: PublicErrorResponse,
}

/// Whether `reply` carries the code and the message given, under the status
/// text that all error replies share. The time stamp is left open.
pub open spec fn is_error_reply(reply: ErrorReply, status_code: u16, message: Seq<char>) -> bool {
    &&& reply.status_code == status_code
    &&& reply.body.status@ == "Error"@
    &&& reply.body.message@ == message
}

/// `chrono::Utc::now()` written by `to_rfc3339_opts(SecondsFormat::Secs,
/// true)`: the time of the call as the system clock gives it, in UTC, to the
/// second. Nothing is claimed of the text, which depends on the clock. chrono
/// panics where the clock stands before 1970.
#[verifier::external_body]
fn utc_timestamp() -> (stamp: String) {
    chrono::Utc::now().to_rfc3339_opts(chrono::SecondsFormat::Secs, true)
}

/// `serde_json::Value::Object` over `serde_json::Map::new()`: the JSON object
/// without members, whose text is `{}`.
#[verifier::external_body]
fn empty_object() -> (value: serde_json::Value)
    ensures
        json_text(value) == "{}"@,
{
    serde_json::Value::Object(serde_json::Map::new())
}

/// The reply that carries `data` under the given time stamp.
pub fn success_at(data: serde_json::Value, timestamp: String) -> (reply: SuccessReply)
    ensures
        reply.status_code == OK,
        reply.body.status@ == "Success"@,
        reply.body.data == data,
        reply.body.timestamp == timestamp,
{
    SuccessReply {
        status_code: OK,
        body: PublicSuccessResponse { status: "Success".to_owned(), data, timestamp },
    }
}

/// The reply that carries `data`, or the empty object where there is none,
/// stamped with the time of the call.
pub fn success(data: Option<serde_json::Value>) -> (reply: SuccessReply)
    ensures
        reply.status_code == OK,
        reply.body.status@ == "Success"@,
        match data {
            Some(value) => reply.body.data == value,
            None => json_text(reply.body.data) == "{}"@,
        },
{
    let payload = match data {
        Some(value) => value,
        None => empty_object(),
    };
    success_at(payload, utc_timestamp())
}

/// The error reply with the given code, message and time stamp.
pub fn error_at(status_code: u16, message: &str, timestamp: String) -> (reply: ErrorReply)
    ensures
        is_error_reply(reply, status_code, message@),
        reply.body.timestamp == timestamp,
{
    ErrorReply {
        status_code,
        body: PublicErrorResponse {
            status: "Error".to_owned(),
            message: message.to_owned(),
            timestamp,
        },
    }
}

/// The error reply with the given code and message, stamped with the time of
/// the call.
pub fn error(status_code: u16, message: &str) -> (reply: ErrorReply)
    ensures
        is_error_reply(reply, status_code, message@),
{
    error_at(status_code, message, utc_timestamp())
}

} // verus!
