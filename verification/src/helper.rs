//! The callback bridge: the sole channel by which native results reach the
//! page.
//!
//! A result is wrapped in the response envelope, serialized, and framed as a
//! JavaScript statement that invokes a named callback in the page's global
//! scope — defensively, because the page may have reloaded while an
//! asynchronous task was still in flight.

use vstd::prelude::*;

use crate::codec::{quoted, write_qstr};
use crate::VeloxError;

verus! {

/// Response data to be sent back to the front-end.
///
/// A successful response carries the already-serialized JSON text of its
/// payload; an error response carries the error's message.
#[derive(Debug, Clone, PartialEq, Eq)]
pub enum Response {
    /// Successful response with the payload's JSON text.
    Success(String),
    /// Error response with details about the error.
    Error(String),
}

/// The response envelope on the wire: `{"result": ...}` or `{"error": ...}`.
pub open spec fn response_text(r: Response) -> Seq<char> {
    match r {
        Response::Success(data) => "{\"result\":"@ + data@ + "}"@,
        Response::Error(msg) => "{\"error\":"@ + quoted(msg@) + "}"@,
    }
}

/// The defensive JavaScript statement that hands `arg` to the global
/// callback `name`, or logs a warning when the page no longer holds it.
pub open spec fn callback_text(name: Seq<char>, arg: Seq<char>) -> Seq<char> {
    "if (window[\""@ + name + "\"]) { window[\""@ + name + "\"]("@ + arg
        + ") } else { console.warn(\"[Velox] Couldn't find callback id: "@ + name + "\") }"@
}

impl Response {
    /// Converts a response to its envelope JSON text.
    pub fn to_json(&self) -> (r: String)
        ensures
            r@ == response_text(*self),
    {
        convert_to_json(self)
    }

    /// Wraps an error message in an error envelope.
    pub fn from_error(err: &str) -> (r: String)
        ensures
            r@ == "{\"error\":"@ + quoted(err@) + "}"@,
    {
        let mut out = String::new();
        out.append("{\"error\":");
        write_qstr(&mut out, err);
        out.append("}");
        assert(out@ =~= "{\"error\":"@ + quoted(err@) + "}"@);
        out
    }
}

/// Serializes a string value as JSON, for use as a success payload.
pub fn json_string(s: &str) -> (r: String)
    ensures
        r@ == quoted(s@),
{
    let mut out = String::new();
    write_qstr(&mut out, s);
    out
}

/// Converts a response to its envelope JSON text.
pub fn convert_to_json(res: &Response) -> (r: String)
    ensures
        r@ == response_text(*res),
{
    let mut out = String::new();
    match res {
        Response::Success(data) => {
            out.append("{\"result\":");
            out.append(data.as_str());
            out.append("}");
        },
        Response::Error(msg) => {
            out.append("{\"error\":");
            write_qstr(&mut out, msg.as_str());
            out.append("}");
        },
    }
    assert(out@ =~= response_text(*res));
    out
}

/// Formats a callback invocation as a JavaScript statement.
pub fn format_callback(function_name: &str, arg: &str) -> (r: String)
    ensures
        r@ == callback_text(function_name@, arg@),
{
    let mut out = String::new();
    out.append("if (window[\"");
    out.append(function_name);
    out.append("\"]) { window[\"");
    out.append(function_name);
    out.append("\"](");
    out.append(arg);
    out.append(") } else { console.warn(\"[Velox] Couldn't find callback id: ");
    out.append(function_name);
    out.append("\") }");
    assert(out@ =~= callback_text(function_name@, arg@));
    out
}

/// Wraps a response in its envelope and formats the callback invocation.
pub fn format_callback_result(result: &Response, callback: &str) -> (r: String)
    ensures
        r@ == callback_text(callback@, response_text(*result)),
{
    let arg = convert_to_json(result);
    format_callback(callback, arg.as_str())
}

/// Chooses the callback for a finished task and formats its delivery.
///
/// A successful outcome flows to the success callback with a result
/// envelope; a failed one flows to the error callback with an error
/// envelope.  This is the one formatting path every result takes.
pub fn execute_cmd(
    outcome: &Result<String, VeloxError>,
    success_callback: &str,
    error_callback: &str,
) -> (r: String)
    ensures
        outcome matches Ok(val) ==> r@ == callback_text(
            success_callback@,
            "{\"result\":"@ + val@ + "}"@,
        ),
        outcome matches Err(e) ==> r@ == callback_text(
            error_callback@,
            "{\"error\":"@ + quoted(e.detail_text()) + "}"@,
        ),
{
    match outcome {
        Ok(val) => {
            let resp = Response::Success(val.clone());
            format_callback_result(&resp, success_callback)
        },
        Err(e) => {
            let resp = Response::Error(e.message().clone());
            format_callback_result(&resp, error_callback)
        },
    }
}

} // verus!
