//! What goes back to the front end once a reply has come in, or has failed
//! to come.

use crate::json::{json_object_of, json_parse, json_text, json_to_string, object_of, parse_json};
use crate::status::{
    status_as_u16, status_display, status_is_client_error, status_is_server_error, status_number,
    status_to_string,
};
use crate::text::{decimal_string, decimal_text};
use reqwest::StatusCode;
use serde_json::Value;
use vstd::prelude::*;
use vstd::string::*;

verus! {

/// A reply that was read to its end: the status and the body's text.
#[derive(Debug, PartialEq, Eq)]
pub struct Reply {
    pub status: StatusCode,
    pub text: String,
}

/// One text occurs in another, as a run of neighbouring characters.
pub open spec fn occurs_in(part: Seq<char>, whole: Seq<char>) -> bool {
    exists|at: int|
        0 <= at && at + part.len() <= whole.len() && #[trigger] whole.subrange(
            at,
            at + part.len(),
        ) == part
}

/// The text of a failure: what failed, in brackets, and what the reply held.
pub open spec fn failure_text(what: Seq<char>, held: Seq<char>) -> Seq<char> {
    "Request failed ("@ + what + "): "@ + held
}

/// The document of a reply's body: the one that the body holds where it is
/// JSON, else an object that holds the body's text under `raw`.
pub open spec fn reply_document(body: Seq<char>) -> Value {
    match json_parse(body) {
        Some(doc) => doc,
        None => json_object_of("raw"@, body),
    }
}

/// The failure of a call that was answered with the given status and
/// document: it names the status by its number and holds the document's text.
pub open spec fn call_failure(code: u16, doc: Value) -> Seq<char> {
    failure_text(decimal_text(code as nat), json_text(doc))
}

/// The failure of a chat call that was answered with the given status and
/// body: it names the status as the status writes itself, and holds the body
/// as it came.
pub open spec fn chat_failure(code: u16, body: Seq<char>) -> Seq<char> {
    failure_text(status_display(code), body)
}

/// Writes the text of a failure.
pub fn failure_message(what: &str, held: &str) -> (r: String)
    ensures
        r@ == failure_text(what@, held@),
{
    let mut out = String::from_str("Request failed (");
    out.append(what);
    out.append("): ");
    out.append(held);
    out
}

/// Reads the document of a reply's body.
pub fn read_document(body: String) -> (r: Value)
    ensures
        r == reply_document(body@),
{
    match parse_json(body.as_str()) {
        Ok(doc) => doc,
        Err(_) => object_of("raw", body),
    }
}

/// Decides a call by the status number and the document that came back: the
/// document itself below 400, a failure from 400 on.
pub fn judge_call(code: u16, doc: Value) -> (r: Result<Value, String>)
    ensures
        match r {
            Ok(v) => code < 400 && v == doc,
            Err(e) => code >= 400 && e@ == call_failure(code, doc),
        },
{
    if code >= 400 {
        let number = decimal_string(code);
        let held = json_to_string(&doc);
        Err(failure_message(number.as_str(), held.as_str()))
    } else {
        Ok(doc)
    }
}

/// What a call gives back. A reply that did not come gives the transport's
/// message unchanged. One that came gives its document where the status is
/// below 400, and `call_failure` from 400 on.
pub fn call_api_response(reply: Result<Reply, String>) -> (r: Result<Value, String>)
    ensures
        match reply {
            Err(message) => r matches Err(e) && e@ == message@,
            Ok(got) => match r {
                Ok(v) => status_number(got.status) < 400 && v == reply_document(got.text@),
                Err(e) => status_number(got.status) >= 400 && e@ == call_failure(
                    status_number(got.status),
                    reply_document(got.text@),
                ),
            },
        },
{
    match reply {
        Err(message) => Err(message),
        Ok(got) => {
            let code = status_as_u16(&got.status);
            let doc = read_document(got.text);
            judge_call(code, doc)
        },
    }
}

/// Decides a chat call by whether the status is an error, given the text
/// that the status writes for itself: the body as it came where it is none, a
/// failure where it is one.
pub fn judge_chat(is_error: bool, status_line: &str, body: String) -> (r: Result<String, String>)
    ensures
        match r {
            Ok(t) => !is_error && t@ == body@,
            Err(e) => is_error && e@ == failure_text(status_line@, body@),
        },
{
    if is_error {
        Err(failure_message(status_line, body.as_str()))
    } else {
        Ok(body)
    }
}

/// What a chat call gives back. A reply that did not come gives the
/// transport's message unchanged. One that came gives its body, unread, where
/// the status is neither a client error nor a server error, and
/// `chat_failure` where it is one.
pub fn chat_api_response(reply: Result<Reply, String>) -> (r: Result<String, String>)
    ensures
        match reply {
            Err(message) => r matches Err(e) && e@ == message@,
            Ok(got) => match r {
                Ok(t) => !(400 <= status_number(got.status) < 600) && t@ == got.text@,
                Err(e) => 400 <= status_number(got.status) < 600 && e@ == chat_failure(
                    status_number(got.status),
                    got.text@,
                ),
            },
        },
{
    match reply {
        Err(message) => Err(message),
        Ok(got) => {
            let is_error = status_is_client_error(&got.status) || status_is_server_error(
                &got.status,
            );
            let line = status_to_string(&got.status);
            judge_chat(is_error, line.as_str(), got.text)
        },
    }
}

/// A failure's text holds both what failed and what the reply held.
pub proof fn lemma_failure_text_holds_both(what: Seq<char>, held: Seq<char>)
    ensures
        occurs_in(what, failure_text(what, held)),
        occurs_in(held, failure_text(what, held)),
{
    let whole = failure_text(what, held);
    let a = "Request failed ("@.len() as int;
    let b = a + what.len() + "): "@.len();
    assert(whole.subrange(a, a + what.len()) =~= what);
    assert(whole.subrange(b, b + held.len()) =~= held);
}

/// The failure of a call holds the status number and the document's text.
pub proof fn lemma_call_failure_holds(code: u16, doc: Value)
    ensures
        occurs_in(decimal_text(code as nat), call_failure(code, doc)),
        occurs_in(json_text(doc), call_failure(code, doc)),
{
    lemma_failure_text_holds_both(decimal_text(code as nat), json_text(doc));
}

/// The failure of a chat call holds the status number and the body as it
/// came.
pub proof fn lemma_chat_failure_holds(code: u16, body: Seq<char>)
    ensures
        occurs_in(decimal_text(code as nat), chat_failure(code, body)),
        occurs_in(body, chat_failure(code, body)),
{
    lemma_failure_text_holds_both(status_display(code), body);
    let whole = chat_failure(code, body);
    let number = decimal_text(code as nat);
    let a = "Request failed ("@.len() as int;
    assert(whole.subrange(a, a + number.len()) =~= number);
}

} // verus!
