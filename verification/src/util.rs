//! Descriptions of the responses that a handler sends: which status line,
//! which headers in which order, and which body. Writing a description to a
//! connection is left to the caller.

use vstd::prelude::*;
use vstd::slice::slice_to_vec;
use vstd::utf8::encode_utf8;
use vstd::string::StringSliceAdditionalSpecFns;
use crate::status::{code_lookup, reason_phrase};

verus! {

/// One header line of a response.
#[derive(Clone, Debug)]
pub struct Header {
    /// The header's name.
    pub name: String,
    /// The header's value, as raw bytes.
    pub value: Vec<u8>,
}

impl View for Header {
    type V = (Seq<char>, Seq<u8>);

    open spec fn view(&self) -> (Seq<char>, Seq<u8>) {
        (self.name@, self.value@)
    }
}

/// A whole response, ready to be written: the status line first, then the
/// headers in order, then a length header for `body`, then `body` itself.
#[derive(Clone, Debug)]
pub struct Response {
    /// The status code.
    pub code: u16,
    /// The reason phrase that follows the code.
    pub reason: String,
    /// The headers, besides the one for the body's length.
    pub headers: Vec<Header>,
    /// The body.
    pub body: Vec<u8>,
}

/// What a [`Response`] holds, as plain values.
pub struct ResponseView {
    pub code: u16,
    pub reason: Seq<char>,
    pub headers: Seq<(Seq<char>, Seq<u8>)>,
    pub body: Seq<u8>,
}

impl View for Response {
    type V = ResponseView;

    open spec fn view(&self) -> ResponseView {
        ResponseView {
            code: self.code,
            reason: self.reason@,
            headers: self.headers@.map_values(|h: Header| h@),
            body: self.body@,
        }
    }
}

/// Why no response could be described.
#[derive(Clone, Copy, Debug, PartialEq, Eq, Structural)]
pub enum ResponseError {
    /// The status code is none of the standard ones.
    CodeNotFound,
}

impl ResponseError {
    /// A short description of the failure.
    pub fn message(&self) -> (text: &'static str)
        ensures
            text@ == "Code not found!"@,
    {
        "Code not found!"
    }
}

/// The `Location` header that points to `location`.
pub open spec fn location_header(location: Seq<u8>) -> (Seq<char>, Seq<u8>) {
    ("Location"@, location)
}

/// The `Content-Type` header of plain text.
pub open spec fn plain_text_header() -> (Seq<char>, Seq<u8>) {
    ("Content-Type"@, encode_utf8("text/plain; charset=utf-8"@))
}

/// The `Content-Type` header of a download.
pub open spec fn octet_stream_header() -> (Seq<char>, Seq<u8>) {
    ("Content-Type"@, encode_utf8("application/octet-stream; charset=utf-8"@))
}

/// Puts a response together from its parts.
fn respond(code: u16, reason: &str, headers: Vec<Header>, data: &[u8]) -> (response: Response)
    ensures
        response@ == (ResponseView {
            code,
            reason: reason@,
            headers: headers@.map_values(|h: Header| h@),
            body: data@,
        }),
{
    Response { code, reason: reason.to_owned(), headers, body: slice_to_vec(data) }
}

/// A list of one header, with the given name and value.
fn one_header(name: &str, value: &[u8]) -> (headers: Vec<Header>)
    ensures
        headers@.map_values(|h: Header| h@) == seq![(name@, value@)],
{
    let mut headers: Vec<Header> = Vec::new();
    headers.push(Header { name: name.to_owned(), value: slice_to_vec(value) });
    assert(headers@.map_values(|h: Header| h@) =~= seq![(name@, value@)]);
    headers
}

/// No header at all.
fn no_header() -> (headers: Vec<Header>)
    ensures
        headers@.map_values(|h: Header| h@) == Seq::<(Seq<char>, Seq<u8>)>::empty(),
{
    let headers: Vec<Header> = Vec::new();
    assert(headers@.map_values(|h: Header| h@) =~= Seq::<(Seq<char>, Seq<u8>)>::empty());
    headers
}

/// A redirect to `location` with the standard status `code`. `data` is the
/// body, which tells the user what happened. A code that is not standard is
/// refused.
pub fn redirect(data: &[u8], location: &[u8], code: u16) -> (result: Result<
    Response,
    ResponseError,
>)
    ensures
        match result {
            Ok(response) => reason_phrase(code) matches Some(reason) && response@ == (
            ResponseView {
                code,
                reason,
                headers: seq![location_header(location@)],
                body: data@,
            }),
            Err(e) => reason_phrase(code).is_none() && e == ResponseError::CodeNotFound,
        },
{
    match code_lookup(code) {
        Some(message) => Ok(redirect_with_message(data, location, code, message)),
        None => Err(ResponseError::CodeNotFound),
    }
}

/// An error page with the standard status `code`, such as 404. `data` is the
/// body, which tells the user what happened. A code that is not standard is
/// refused.
pub fn error(data: &[u8], code: u16) -> (result: Result<Response, ResponseError>)
    ensures
        match result {
            Ok(response) => reason_phrase(code) matches Some(reason) && response@ == (
            ResponseView { code, reason, headers: Seq::empty(), body: data@ }),
            Err(e) => reason_phrase(code).is_none() && e == ResponseError::CodeNotFound,
        },
{
    match code_lookup(code) {
        Some(message) => Ok(respond(code, message, no_header(), data)),
        None => Err(ResponseError::CodeNotFound),
    }
}

/// A redirect to `location` with any status `code` and the reason phrase
/// `message`: for codes that are not standard.
pub fn redirect_with_message(data: &[u8], location: &[u8], code: u16, message: &str) -> (response:
    Response)
    ensures
        response@ == (ResponseView {
            code,
            reason: message@,
            headers: seq![location_header(location@)],
            body: data@,
        }),
{
    respond(code, message, one_header("Location", location), data)
}

/// `data` with status 200 and no header of its own.
pub fn send_string(data: &[u8]) -> (response: Response)
    ensures
        response@ == (ResponseView {
            code: 200,
            reason: "OK"@,
            headers: Seq::empty(),
            body: data@,
        }),
{
    respond(200, "OK", no_header(), data)
}

/// `data` with status 200, marked as plain text.
pub fn send_string_raw(data: &[u8]) -> (response: Response)
    ensures
        response@ == (ResponseView {
            code: 200,
            reason: "OK"@,
            headers: seq![plain_text_header()],
            body: data@,
        }),
{
    respond(200, "OK", one_header("Content-Type", "text/plain; charset=utf-8".as_bytes()), data)
}

/// The contents of a file with status 200 and no header of its own.
pub fn send_file(contents: &[u8]) -> (response: Response)
    ensures
        response@ == (ResponseView {
            code: 200,
            reason: "OK"@,
            headers: Seq::empty(),
            body: contents@,
        }),
{
    send_string(contents)
}

/// The contents of a file with status 200, to be shown as plain text.
pub fn send_file_text(contents: &[u8]) -> (response: Response)
    ensures
        response@ == (ResponseView {
            code: 200,
            reason: "OK"@,
            headers: seq![plain_text_header()],
            body: contents@,
        }),
{
    send_string_raw(contents)
}

/// The contents of a file with status 200, to be offered as a download.
pub fn send_file_raw(contents: &[u8]) -> (response: Response)
    ensures
        response@ == (ResponseView {
            code: 200,
            reason: "OK"@,
            headers: seq![octet_stream_header()],
            body: contents@,
        }),
{
    respond(
        200,
        "OK",
        one_header("Content-Type", "application/octet-stream; charset=utf-8".as_bytes()),
        contents,
    )
}

} // verus!
