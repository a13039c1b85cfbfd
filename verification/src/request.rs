//! Extracting the request line and the `Host` and `User-Agent` headers from
//! the text of a request.
//!
//! Parsing succeeds exactly when the text has at least three lines, the first
//! line has at least three white-space separated tokens, and the second and
//! third lines each carry a colon-space separated value.  The second line is
//! expected to be the `Host` header and the third the `User-Agent` header;
//! any other header order fails deliberately, in keeping with the narrow
//! wire format this server accepts.

use vstd::prelude::*;

use crate::split::{has_sep, lines, sep_value, split_lines, split_tokens, tokens, views};
use crate::split::separator_value;

verus! {

/// A parsed request: the three request-line tokens and the values of the
/// `Host` and `User-Agent` lines.
pub struct RequestData {
    /// First token of the request line.
    pub method: Vec<u8>,
    /// Second token of the request line, used verbatim for routing.
    pub path: Vec<u8>,
    /// Third token of the request line.
    pub http_version: Vec<u8>,
    /// Value of the second line's colon-space separated pair.
    pub host: Vec<u8>,
    /// Value of the third line's colon-space separated pair.
    pub user_agent: Vec<u8>,
}

/// Whether the request text parses: at least three lines, at least three
/// tokens on the first, and a colon-space value on the second and third.
pub open spec fn parse_ok(s: Seq<u8>) -> bool {
    &&& lines(s).len() >= 3
    &&& tokens(lines(s)[0]).len() >= 3
    &&& has_sep(lines(s)[1])
    &&& has_sep(lines(s)[2])
}

/// The method a successful parse extracts.
pub open spec fn spec_method(s: Seq<u8>) -> Seq<u8> {
    tokens(lines(s)[0])[0]
}

/// The path a successful parse extracts.
pub open spec fn spec_path(s: Seq<u8>) -> Seq<u8> {
    tokens(lines(s)[0])[1]
}

/// The HTTP version a successful parse extracts.
pub open spec fn spec_version(s: Seq<u8>) -> Seq<u8> {
    tokens(lines(s)[0])[2]
}

/// The host a successful parse extracts.
pub open spec fn spec_host(s: Seq<u8>) -> Seq<u8> {
    sep_value(lines(s)[1])
}

/// The user agent a successful parse extracts.
pub open spec fn spec_user_agent(s: Seq<u8>) -> Seq<u8> {
    sep_value(lines(s)[2])
}

/// Whether `d` holds exactly the fields a successful parse of `s` extracts.
pub open spec fn is_parse_of(d: RequestData, s: Seq<u8>) -> bool {
    &&& d.method@ == spec_method(s)
    &&& d.path@ == spec_path(s)
    &&& d.http_version@ == spec_version(s)
    &&& d.host@ == spec_host(s)
    &&& d.user_agent@ == spec_user_agent(s)
}

/// Parses the request text.  Returns the extracted fields exactly when
/// [`parse_ok`] holds of the input, and `None` otherwise.
pub fn parse_request(request: &[u8]) -> (r: Option<RequestData>)
    ensures
        match r {
            Some(d) => parse_ok(request@) && is_parse_of(d, request@),
            None => !parse_ok(request@),
        },
{
    let line_vec = split_lines(request);
    assert(views(line_vec@).len() == line_vec@.len());
    if line_vec.len() < 3 {
        return None;
    }
    assert(lines(request@)[0] == line_vec@[0]@);
    assert(lines(request@)[1] == line_vec@[1]@);
    assert(lines(request@)[2] == line_vec@[2]@);
    let mut toks = split_tokens(line_vec[0].as_slice());
    assert(views(toks@).len() == toks@.len());
    if toks.len() < 3 {
        return None;
    }
    let ghost orig_toks = toks@;
    let host = match separator_value(line_vec[1].as_slice()) {
        Some(h) => h,
        None => {
            return None;
        },
    };
    let user_agent = match separator_value(line_vec[2].as_slice()) {
        Some(v) => v,
        None => {
            return None;
        },
    };
    let http_version = toks.remove(2);
    let path = toks.remove(1);
    let method = toks.remove(0);
    assert(method@ == views(orig_toks)[0]);
    assert(path@ == views(orig_toks)[1]);
    assert(http_version@ == views(orig_toks)[2]);
    Some(RequestData { method, path, http_version, host, user_agent })
}

} // verus!
