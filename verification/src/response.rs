//! Routing a parsed request and rendering the response bytes.
//!
//! The wire format is fixed: a status line `HTTP/1.1 <code> <text>`, then —
//! only when a body is carried — a `Content-Type` header and a
//! `Content-Length` header equal to the body's byte length, then a blank line
//! and the body verbatim.  The root response carries a non-standard trailing
//! space after `OK`, kept deliberately for wire compatibility.

use vstd::prelude::*;
use vstd::utf8::valid_utf8;

use crate::encoding::check_utf8;
use crate::request::{parse_ok, parse_request, spec_path, spec_user_agent, RequestData};
use crate::text::{copy_range, decimal_digits, push_all, push_decimal, starts_with};

verus! {

/// Bytes of `"HTTP/1.1 "`.
pub open spec fn status_line_prefix() -> Seq<u8> {
    seq![72u8, 84, 84, 80, 47, 49, 46, 49, 32]
}

/// Bytes of `"\r\nContent-Type: "`.
pub open spec fn content_type_header() -> Seq<u8> {
    seq![13u8, 10, 67, 111, 110, 116, 101, 110, 116, 45, 84, 121, 112, 101, 58, 32]
}

/// Bytes of `"\r\nContent-Length: "`.
pub open spec fn content_length_header() -> Seq<u8> {
    seq![13u8, 10, 67, 111, 110, 116, 101, 110, 116, 45, 76, 101, 110, 103, 116, 104, 58, 32]
}

/// Bytes of `"\r\n\r\n"`: the end of the headers.
pub open spec fn blank_line() -> Seq<u8> {
    seq![13u8, 10, 13, 10]
}

/// Bytes of `"OK"`.
pub open spec fn ok_text() -> Seq<u8> {
    seq![79u8, 75]
}

/// Bytes of `"text/plain"`.
pub open spec fn text_plain() -> Seq<u8> {
    seq![116u8, 101, 120, 116, 47, 112, 108, 97, 105, 110]
}

/// Bytes of `"/"`: the root path.
pub open spec fn root_path() -> Seq<u8> {
    seq![47u8]
}

/// Bytes of `"/echo"`.
pub open spec fn echo_prefix() -> Seq<u8> {
    seq![47u8, 101, 99, 104, 111]
}

/// Bytes of `"/user-agent"`.
pub open spec fn user_agent_prefix() -> Seq<u8> {
    seq![47u8, 117, 115, 101, 114, 45, 97, 103, 101, 110, 116]
}

/// Bytes of `"HTTP/1.1 200 OK \r\n\r\n"`, the trailing space included.
pub open spec fn root_response() -> Seq<u8> {
    seq![72u8, 84, 84, 80, 47, 49, 46, 49, 32, 50, 48, 48, 32, 79, 75, 32, 13, 10, 13, 10]
}

/// Bytes of `"HTTP/1.1 404 Not Found\r\n\r\n"`.
pub open spec fn not_found_response() -> Seq<u8> {
    seq![72u8, 84, 84, 80, 47, 49, 46, 49, 32, 52, 48, 52, 32, 78, 111, 116, 32, 70, 111, 117,
        110, 100, 13, 10, 13, 10]
}

/// Bytes of `"HTTP/1.1 400 Bad Request\r\n\r\n"`.
pub open spec fn bad_request_response() -> Seq<u8> {
    seq![72u8, 84, 84, 80, 47, 49, 46, 49, 32, 52, 48, 48, 32, 66, 97, 100, 32, 82, 101, 113,
        117, 101, 115, 116, 13, 10, 13, 10]
}

/// The full response carrying `body`: status line, `Content-Type`, a
/// `Content-Length` equal to the body's byte length, a blank line, and the
/// body verbatim.
pub open spec fn format_spec(code: nat, message: Seq<u8>, content_type: Seq<u8>, body: Seq<u8>)
    -> Seq<u8> {
    status_line_prefix() + decimal_digits(code) + seq![32u8] + message + content_type_header()
        + content_type + content_length_header() + decimal_digits(body.len()) + blank_line()
        + body
}

/// The response the router selects for a request with this `path` and
/// `user_agent`, in fixed precedence order: the root path, then the echo
/// prefix (the body is everything after it), then the user-agent prefix (the
/// body is the user agent), then not-found.
pub open spec fn route_response(path: Seq<u8>, user_agent: Seq<u8>) -> Seq<u8> {
    if path == root_path() {
        root_response()
    } else if echo_prefix().is_prefix_of(path) {
        format_spec(200, ok_text(), text_plain(), path.skip(echo_prefix().len() as int))
    } else if user_agent_prefix().is_prefix_of(path) {
        format_spec(200, ok_text(), text_plain(), user_agent)
    } else {
        not_found_response()
    }
}

/// Exec value of [`root_response`].
pub fn root_response_vec() -> (v: Vec<u8>)
    ensures
        v@ == root_response(),
{
    let v: Vec<u8> = vec![72u8, 84, 84, 80, 47, 49, 46, 49, 32, 50, 48, 48, 32, 79, 75, 32, 13,
        10, 13, 10];
    assert(v@ =~= root_response());
    v
}

/// Exec value of [`not_found_response`].
pub fn not_found_response_vec() -> (v: Vec<u8>)
    ensures
        v@ == not_found_response(),
{
    let v: Vec<u8> = vec![72u8, 84, 84, 80, 47, 49, 46, 49, 32, 52, 48, 52, 32, 78, 111, 116, 32,
        70, 111, 117, 110, 100, 13, 10, 13, 10];
    assert(v@ =~= not_found_response());
    v
}

/// Exec value of [`bad_request_response`].
pub fn bad_request_response_vec() -> (v: Vec<u8>)
    ensures
        v@ == bad_request_response(),
{
    let v: Vec<u8> = vec![72u8, 84, 84, 80, 47, 49, 46, 49, 32, 52, 48, 48, 32, 66, 97, 100, 32,
        82, 101, 113, 117, 101, 115, 116, 13, 10, 13, 10];
    assert(v@ =~= bad_request_response());
    v
}

/// Renders a response with a body: `HTTP/1.1 <code> <message>`, the two
/// content headers, a blank line, and the body, per [`format_spec`].
pub fn format_response(status_code: u16, status_message: &[u8], content_type: &[u8], body: &[u8])
    -> (r: Vec<u8>)
    ensures
        r@ == format_spec(status_code as nat, status_message@, content_type@, body@),
{
    let mut out: Vec<u8> = Vec::new();
    let prefix: Vec<u8> = vec![72u8, 84, 84, 80, 47, 49, 46, 49, 32];
    assert(prefix@ =~= status_line_prefix());
    push_all(&mut out, prefix.as_slice());
    push_decimal(&mut out, status_code as u64);
    out.push(32u8);
    push_all(&mut out, status_message);
    let ct_header: Vec<u8> = vec![13u8, 10, 67, 111, 110, 116, 101, 110, 116, 45, 84, 121, 112,
        101, 58, 32];
    assert(ct_header@ =~= content_type_header());
    push_all(&mut out, ct_header.as_slice());
    push_all(&mut out, content_type);
    let cl_header: Vec<u8> = vec![13u8, 10, 67, 111, 110, 116, 101, 110, 116, 45, 76, 101, 110,
        103, 116, 104, 58, 32];
    assert(cl_header@ =~= content_length_header());
    push_all(&mut out, cl_header.as_slice());
    push_decimal(&mut out, body.len() as u64);
    let blank: Vec<u8> = vec![13u8, 10, 13, 10];
    assert(blank@ =~= blank_line());
    push_all(&mut out, blank.as_slice());
    push_all(&mut out, body);
    assert(out@ =~= format_spec(status_code as nat, status_message@, content_type@, body@));
    out
}

/// Selects and renders the response for a parsed request, per
/// [`route_response`] applied to its path and user agent.
pub fn generate_response(request: RequestData) -> (r: Vec<u8>)
    ensures
        r@ == route_response(request.path@, request.user_agent@),
{
    if request.path.len() == 1 && request.path[0] == 47u8 {
        assert(request.path@ =~= root_path());
        root_response_vec()
    } else {
        assert(request.path@ != root_path()) by {
            if request.path@ == root_path() {
                assert(request.path@.len() == 1 && request.path@[0] == 47u8);
            }
        }
        let echo: Vec<u8> = vec![47u8, 101, 99, 104, 111];
        assert(echo@ =~= echo_prefix());
        let ua: Vec<u8> = vec![47u8, 117, 115, 101, 114, 45, 97, 103, 101, 110, 116];
        assert(ua@ =~= user_agent_prefix());
        let ok: Vec<u8> = vec![79u8, 75];
        assert(ok@ =~= ok_text());
        let plain: Vec<u8> = vec![116u8, 101, 120, 116, 47, 112, 108, 97, 105, 110];
        assert(plain@ =~= text_plain());
        if starts_with(request.path.as_slice(), echo.as_slice()) {
            let body = copy_range(request.path.as_slice(), 5, request.path.len());
            assert(body@ =~= request.path@.skip(echo_prefix().len() as int));
            format_response(200, ok.as_slice(), plain.as_slice(), body.as_slice())
        } else if starts_with(request.path.as_slice(), ua.as_slice()) {
            format_response(200, ok.as_slice(), plain.as_slice(), request.user_agent.as_slice())
        } else {
            not_found_response_vec()
        }
    }
}

/// The response owed for a raw request buffer: the routed response when the
/// buffer is valid UTF-8 text that parses, and the bad-request response
/// otherwise.
pub open spec fn response_for(input: Seq<u8>) -> Seq<u8> {
    if valid_utf8(input) && parse_ok(input) {
        route_response(spec_path(input), spec_user_agent(input))
    } else {
        bad_request_response()
    }
}

/// Handles one request buffer: checks that it is text, parses it, routes it,
/// and renders the exact response bytes, per [`response_for`].
pub fn handle_request(input: &[u8]) -> (r: Vec<u8>)
    ensures
        r@ == response_for(input@),
{
    if !check_utf8(input) {
        return bad_request_response_vec();
    }
    match parse_request(input) {
        Some(data) => generate_response(data),
        None => bad_request_response_vec(),
    }
}

} // verus!
