//! Laws of the router and of the request pipeline, each proved once and for
//! all inputs.

use vstd::prelude::*;
use vstd::utf8::valid_utf8;

use crate::request::{
    parse_ok, spec_host, spec_method, spec_path, spec_user_agent, spec_version,
};
use crate::response::{
    bad_request_response, echo_prefix, format_spec, not_found_response, ok_text, response_for,
    root_path, root_response, route_response, text_plain, user_agent_prefix,
};
use crate::split::{
    chomp_cr, find_sep, has_sep, is_ascii_whitespace, lines, lines_from, sep_value, tokens,
    tokens_from, whitespace_len,
};

verus! {

/// A byte below 128 that is not ASCII white space: no white-space character,
/// one byte wide or more, can start at such a byte.
pub open spec fn is_plain_byte(b: u8) -> bool {
    b < 0x80 && !is_ascii_whitespace(b)
}

/// A sequence of bytes below 128 is valid UTF-8.
proof fn lemma_ascii_valid_utf8(s: Seq<u8>)
    requires
        forall|j: int| 0 <= j < s.len() ==> s[j] < 0x80,
    ensures
        valid_utf8(s),
{
    assert(s.subrange(0, 0) =~= Seq::<u8>::empty());
    assert(vstd::utf8::partial_valid_utf8(s, 0));
    vstd::utf8::partial_valid_utf8_extend_ascii_block(s, 0, s.len() as int);
    assert(s.subrange(0, s.len() as int) =~= s);
}

/// A run of bytes at which no white-space character starts, with nothing
/// after it, ends the token in progress.
proof fn lemma_tokens_no_ws(s: Seq<u8>, i: int, cur: Seq<u8>)
    requires
        0 <= i <= s.len(),
        forall|j: int| i <= j < s.len() ==> whitespace_len(s, j) == 0,
    ensures
        tokens_from(s, i, cur) == (if cur.len() + s.len() - i == 0 {
            Seq::<Seq<u8>>::empty()
        } else {
            seq![cur + s.skip(i)]
        }),
    decreases s.len() - i,
{
    if i == s.len() {
        if cur.len() != 0 {
            assert(cur + s.skip(i) =~= cur);
        }
    } else {
        lemma_tokens_no_ws(s, i + 1, cur + seq![s[i]]);
        assert((cur + seq![s[i]]) + s.skip(i + 1) =~= cur + s.skip(i));
        assert((cur + seq![s[i]]).len() + s.len() - (i + 1) == cur.len() + s.len() - i);
    }
}

/// Up to the next white-space character, the bytes read so far and the bytes
/// before it make one token, and reading goes on after that character.
proof fn lemma_tokens_to_ws(s: Seq<u8>, i: int, cur: Seq<u8>, p: int)
    requires
        0 <= i <= p < s.len(),
        whitespace_len(s, p) != 0,
        forall|j: int| i <= j < p ==> whitespace_len(s, j) == 0,
    ensures
        tokens_from(s, i, cur) == (if cur.len() + p - i == 0 {
            tokens_from(s, p + whitespace_len(s, p), Seq::empty())
        } else {
            seq![cur + s.subrange(i, p)] + tokens_from(s, p + whitespace_len(s, p), Seq::empty())
        }),
    decreases p - i,
{
    if i == p {
        if cur.len() != 0 {
            assert(cur + s.subrange(i, p) =~= cur);
        }
    } else {
        lemma_tokens_to_ws(s, i + 1, cur + seq![s[i]], p);
        assert((cur + seq![s[i]]) + s.subrange(i + 1, p) =~= cur + s.subrange(i, p));
        assert((cur + seq![s[i]]).len() + p - (i + 1) == cur.len() + p - i);
    }
}

/// A request line of three non-empty tokens of plain bytes, single spaces
/// between them, splits into exactly those tokens.
proof fn lemma_request_line_tokens(m: Seq<u8>, p: Seq<u8>, v: Seq<u8>)
    requires
        m.len() > 0,
        p.len() > 0,
        v.len() > 0,
        forall|j: int| 0 <= j < m.len() ==> is_plain_byte(m[j]),
        forall|j: int| 0 <= j < p.len() ==> is_plain_byte(p[j]),
        forall|j: int| 0 <= j < v.len() ==> is_plain_byte(v[j]),
    ensures
        tokens(m + seq![32u8] + p + seq![32u8] + v) == seq![m, p, v],
{
    let l = m + seq![32u8] + p + seq![32u8] + v;
    let q0 = m.len() as int;
    let q1 = m.len() as int + 1 + p.len() as int;
    assert(l.len() == m.len() + p.len() + v.len() + 2);
    assert(l[q0] == 32);
    assert(l[q1] == 32);
    assert(whitespace_len(l, q0) == 1);
    assert(whitespace_len(l, q1) == 1);
    assert forall|j: int| 0 <= j < q0 implies whitespace_len(l, j) == 0 by {
        assert(l[j] == m[j]);
    }
    assert forall|j: int| q0 + 1 <= j < q1 implies whitespace_len(l, j) == 0 by {
        assert(l[j] == p[j - q0 - 1]);
    }
    assert forall|j: int| q1 + 1 <= j < l.len() implies whitespace_len(l, j) == 0 by {
        assert(l[j] == v[j - q1 - 1]);
    }
    lemma_tokens_to_ws(l, 0, Seq::empty(), q0);
    assert(Seq::<u8>::empty() + l.subrange(0, q0) =~= m);
    lemma_tokens_to_ws(l, q0 + 1, Seq::empty(), q1);
    assert(Seq::<u8>::empty() + l.subrange(q0 + 1, q1) =~= p);
    lemma_tokens_no_ws(l, q1 + 1, Seq::empty());
    assert(Seq::<u8>::empty() + l.skip(q1 + 1) =~= v);
    assert(tokens(l) =~= seq![m, p, v]);
}

/// The first colon-space pair at or after `i` stands at `p` when none stands
/// before it.
proof fn lemma_find_sep_here(s: Seq<u8>, i: int, p: int)
    requires
        0 <= i <= p,
        p + 2 <= s.len(),
        s[p] == 58,
        s[p + 1] == 32,
        forall|j: int| i <= j < p ==> !(#[trigger] s[j] == 58 && s[j + 1] == 32),
    ensures
        find_sep(s, i) == p,
    decreases p - i,
{
    if i < p {
        lemma_find_sep_here(s, i + 1, p);
    }
}

/// Without a colon-space pair at or after `i`, the search reports the end.
proof fn lemma_find_sep_none(s: Seq<u8>, i: int)
    requires
        0 <= i,
        forall|j: int| i <= j && j + 2 <= s.len() ==> !(#[trigger] s[j] == 58 && s[j + 1] == 32),
    ensures
        find_sep(s, i) == s.len(),
    decreases s.len() - i,
{
    if i + 2 <= s.len() {
        lemma_find_sep_none(s, i + 1);
    }
}

/// A header line assembled from a colon-free label carries a value, whatever
/// the value holds.
proof fn lemma_header_line_has_sep(label: Seq<u8>, val: Seq<u8>)
    requires
        forall|j: int| 0 <= j < label.len() ==> label[j] != 58,
    ensures
        has_sep(label + seq![58u8, 32] + val),
{
    let l = label + seq![58u8, 32] + val;
    let p = label.len() as int;
    assert(l.len() == label.len() + val.len() + 2);
    assert(l[p] == 58 && l[p + 1] == 32);
    assert forall|j: int| 0 <= j < p implies !(#[trigger] l[j] == 58 && l[j + 1] == 32) by {
        assert(l[j] == label[j]);
    }
    lemma_find_sep_here(l, 0, p);
}

/// A header line assembled from a colon-free label and a value without a
/// colon-space pair carries exactly that value.
proof fn lemma_header_line_value(label: Seq<u8>, val: Seq<u8>)
    requires
        forall|j: int| 0 <= j < label.len() ==> label[j] != 58,
        forall|j: int| 0 <= j && j + 1 < val.len() ==> !(#[trigger] val[j] == 58 && val[j + 1] == 32),
    ensures
        has_sep(label + seq![58u8, 32] + val),
        sep_value(label + seq![58u8, 32] + val) == val,
{
    let l = label + seq![58u8, 32] + val;
    let p = label.len() as int;
    assert(l.len() == label.len() + val.len() + 2);
    assert(l[p] == 58 && l[p + 1] == 32);
    assert forall|j: int| 0 <= j < p implies !(#[trigger] l[j] == 58 && l[j + 1] == 32) by {
        assert(l[j] == label[j]);
    }
    lemma_find_sep_here(l, 0, p);
    assert forall|j: int| p + 2 <= j && j + 2 <= l.len() implies !(#[trigger] l[j] == 58 && l[j
        + 1] == 32) by {
        assert(l[j] == val[j - p - 2]);
        assert(l[j + 1] == val[j - p - 1]);
    }
    lemma_find_sep_none(l, p + 2);
    assert(l.subrange(p + 2, l.len() as int) =~= val);
}

/// A run of bytes without a line feed ends the line in progress: it is
/// emitted with the run appended, and nothing follows it.
proof fn lemma_lines_from_no_newline(s: Seq<u8>, i: int, cur: Seq<u8>)
    requires
        0 <= i <= s.len(),
        forall|j: int| i <= j < s.len() ==> s[j] != 10,
    ensures
        lines_from(s, i, cur) == (if cur.len() + s.len() - i == 0 {
            Seq::<Seq<u8>>::empty()
        } else {
            seq![cur + s.skip(i)]
        }),
    decreases s.len() - i,
{
    if i == s.len() {
        if cur.len() != 0 {
            assert(cur + s.skip(i) =~= cur);
        }
    } else {
        lemma_lines_from_no_newline(s, i + 1, cur + seq![s[i]]);
        assert((cur + seq![s[i]]) + s.skip(i + 1) =~= cur + s.skip(i));
        assert((cur + seq![s[i]]).len() + s.len() - (i + 1) == cur.len() + s.len() - i);
    }
}

/// Up to the next line feed, the bytes read so far and the bytes before that
/// line feed make one emitted line, and reading goes on after it.
proof fn lemma_lines_from_to_newline(s: Seq<u8>, i: int, cur: Seq<u8>, p: int)
    requires
        0 <= i <= p < s.len(),
        s[p] == 10,
        forall|j: int| i <= j < p ==> s[j] != 10,
    ensures
        lines_from(s, i, cur) == seq![chomp_cr(cur + s.subrange(i, p))] + lines_from(
            s,
            p + 1,
            Seq::empty(),
        ),
    decreases p - i,
{
    if i == p {
        assert(cur + s.subrange(i, p) =~= cur);
    } else {
        lemma_lines_from_to_newline(s, i + 1, cur + seq![s[i]], p);
        assert((cur + seq![s[i]]) + s.subrange(i + 1, p) =~= cur + s.subrange(i, p));
    }
}

/// A request text assembled from three well-formed lines always parses, to
/// exactly the fields of those lines: the first line's first three tokens
/// and the colon-space values of the other two.  Well-formed means the lines
/// carry no line feed, the first has at least three tokens, the other two a
/// colon-space pair, and the last is not empty.
pub proof fn lemma_three_lines_parse(l0: Seq<u8>, l1: Seq<u8>, l2: Seq<u8>)
    requires
        forall|j: int| 0 <= j < l0.len() ==> l0[j] != 10,
        forall|j: int| 0 <= j < l1.len() ==> l1[j] != 10,
        forall|j: int| 0 <= j < l2.len() ==> l2[j] != 10,
        tokens(l0).len() >= 3,
        has_sep(l1),
        has_sep(l2),
        l2.len() > 0,
    ensures
        ({
            let input = l0 + seq![13u8, 10] + l1 + seq![13u8, 10] + l2;
            &&& lines(input) == seq![l0, l1, l2]
            &&& parse_ok(input)
            &&& spec_method(input) == tokens(l0)[0]
            &&& spec_path(input) == tokens(l0)[1]
            &&& spec_version(input) == tokens(l0)[2]
            &&& spec_host(input) == sep_value(l1)
            &&& spec_user_agent(input) == sep_value(l2)
        }),
{
    let input = l0 + seq![13u8, 10] + l1 + seq![13u8, 10] + l2;
    let p0 = l0.len() as int + 1;
    let p1 = l0.len() as int + l1.len() as int + 3;
    assert(input.len() == l0.len() + l1.len() + l2.len() + 4);
    assert(input[p0] == 10);
    assert(input[p1] == 10);
    assert forall|j: int| 0 <= j < p0 implies input[j] != 10 by {
        if j < l0.len() {
            assert(input[j] == l0[j]);
        } else {
            assert(input[j] == 13);
        }
    }
    assert forall|j: int| p0 + 1 <= j < p1 implies input[j] != 10 by {
        if j < p0 + 1 + l1.len() {
            assert(input[j] == l1[j - p0 - 1]);
        } else {
            assert(input[j] == 13);
        }
    }
    assert forall|j: int| p1 + 1 <= j < input.len() implies input[j] != 10 by {
        assert(input[j] == l2[j - p1 - 1]);
    }
    lemma_lines_from_to_newline(input, 0, Seq::empty(), p0);
    assert(Seq::<u8>::empty() + input.subrange(0, p0) =~= l0 + seq![13u8]);
    assert(chomp_cr(l0 + seq![13u8]) =~= l0);
    lemma_lines_from_to_newline(input, p0 + 1, Seq::empty(), p1);
    assert(Seq::<u8>::empty() + input.subrange(p0 + 1, p1) =~= l1 + seq![13u8]);
    assert(chomp_cr(l1 + seq![13u8]) =~= l1);
    lemma_lines_from_no_newline(input, p1 + 1, Seq::empty());
    assert(Seq::<u8>::empty() + input.skip(p1 + 1) =~= l2);
    assert(lines(input) =~= seq![l0, l1, l2]);
}

/// Routing precedence: the root path always yields the root response,
/// whatever the user agent carried by the request.
pub proof fn lemma_root_precedence(path: Seq<u8>, user_agent: Seq<u8>)
    requires
        path == root_path(),
    ensures
        route_response(path, user_agent) == root_response(),
{
}

/// Echo passthrough: for any suffix `s`, a path of `/echo/` followed by `s`
/// yields the body-carrying response whose body is `/` followed by `s` — and
/// so, by [`format_spec`], a `Content-Length` equal to that body's length.
pub proof fn lemma_echo_round_trip(s: Seq<u8>, user_agent: Seq<u8>)
    ensures
        route_response(echo_prefix() + seq![47u8] + s, user_agent) == format_spec(
            200,
            ok_text(),
            text_plain(),
            seq![47u8] + s,
        ),
{
    let path = echo_prefix() + seq![47u8] + s;
    assert(path.len() == 6 + s.len());
    assert(path != root_path());
    assert(echo_prefix().is_prefix_of(path)) by {
        assert(path.subrange(0, 5) =~= echo_prefix());
    }
    assert(path.skip(echo_prefix().len() as int) =~= seq![47u8] + s);
}

/// User-Agent passthrough: a path starting with `/user-agent` yields the
/// body-carrying response whose body is byte-for-byte the user agent captured
/// from the request, empty or not.
pub proof fn lemma_user_agent_passthrough(path: Seq<u8>, user_agent: Seq<u8>)
    requires
        user_agent_prefix().is_prefix_of(path),
    ensures
        route_response(path, user_agent) == format_spec(
            200,
            ok_text(),
            text_plain(),
            user_agent,
        ),
{
    assert(path.subrange(0, 11)[1] == path[1]);
    assert(path[1] == 117u8);
    assert(path != root_path());
    assert(!echo_prefix().is_prefix_of(path)) by {
        if echo_prefix().is_prefix_of(path) {
            assert(path.subrange(0, 5)[1] == path[1]);
            assert(path[1] == 101u8);
        }
    }
}

/// Any path other than the root and outside both routed prefixes yields
/// exactly the not-found response.
pub proof fn lemma_not_found(path: Seq<u8>, user_agent: Seq<u8>)
    requires
        path != root_path(),
        !echo_prefix().is_prefix_of(path),
        !user_agent_prefix().is_prefix_of(path),
    ensures
        route_response(path, user_agent) == not_found_response(),
{
}

/// A buffer that is not valid text, or whose text does not parse, is owed
/// exactly the bad-request response.
pub proof fn lemma_bad_request(input: Seq<u8>)
    requires
        !valid_utf8(input) || !parse_ok(input),
    ensures
        response_for(input) == bad_request_response(),
{
}

/// A buffer of valid text that parses is owed the routed response — parsing
/// never fails on it, so no bad-request response is possible.
pub proof fn lemma_well_formed_is_routed(input: Seq<u8>)
    requires
        valid_utf8(input),
        parse_ok(input),
    ensures
        response_for(input) == route_response(spec_path(input), spec_user_agent(input)),
{
}

/// Bytes of `"GET"`.
pub open spec fn get_token() -> Seq<u8> {
    seq![71u8, 69, 84]
}

/// Bytes of `"HTTP/1.1"`.
pub open spec fn version_token() -> Seq<u8> {
    seq![72u8, 84, 84, 80, 47, 49, 46, 49]
}

/// Bytes of `"Host"`.
pub open spec fn host_label() -> Seq<u8> {
    seq![72u8, 111, 115, 116]
}

/// Bytes of `"User-Agent"`.
pub open spec fn user_agent_label() -> Seq<u8> {
    seq![85u8, 115, 101, 114, 45, 65, 103, 101, 110, 116]
}

/// The full request text of a `GET` of `path` under HTTP/1.1, with `Host`
/// and `User-Agent` header lines carrying the given values.
pub open spec fn assembled_request(path: Seq<u8>, host: Seq<u8>, ua: Seq<u8>) -> Seq<u8> {
    let line0 = get_token() + seq![32u8] + path + seq![32u8] + version_token();
    let line1 = host_label() + seq![58u8, 32] + host;
    let line2 = user_agent_label() + seq![58u8, 32] + ua;
    line0 + seq![13u8, 10] + line1 + seq![13u8, 10] + line2
}

/// An assembled request of a path of plain bytes parses, and is owed the
/// response its path routes to, with the `User-Agent` value as the user
/// agent — the wire-level composition of the parser and router laws.
pub proof fn lemma_assembled_request_routed(path: Seq<u8>, host: Seq<u8>, ua: Seq<u8>)
    requires
        path.len() > 0,
        forall|j: int| 0 <= j < path.len() ==> is_plain_byte(#[trigger] path[j]),
        forall|j: int| 0 <= j < host.len() ==> #[trigger] host[j] < 0x80 && host[j] != 10,
        forall|j: int| 0 <= j < ua.len() ==> #[trigger] ua[j] < 0x80 && ua[j] != 10,
        forall|j: int| 0 <= j && j + 1 < ua.len() ==> !(#[trigger] ua[j] == 58 && ua[j + 1] == 32),
    ensures
        response_for(assembled_request(path, host, ua)) == route_response(path, ua),
{
    let line0 = get_token() + seq![32u8] + path + seq![32u8] + version_token();
    let line1 = host_label() + seq![58u8, 32] + host;
    let line2 = user_agent_label() + seq![58u8, 32] + ua;
    let input = assembled_request(path, host, ua);

    assert forall|j: int| 0 <= j < get_token().len() implies is_plain_byte(
        #[trigger] get_token()[j],
    ) by {
        assert(get_token()[0] == 71 && get_token()[1] == 69 && get_token()[2] == 84);
    }
    assert forall|j: int| 0 <= j < version_token().len() implies is_plain_byte(
        #[trigger] version_token()[j],
    ) by {
        assert(version_token()[0] == 72 && version_token()[1] == 84 && version_token()[2] == 84
            && version_token()[3] == 80 && version_token()[4] == 47 && version_token()[5] == 49
            && version_token()[6] == 46 && version_token()[7] == 49);
    }
    lemma_request_line_tokens(get_token(), path, version_token());

    assert forall|j: int| 0 <= j < host_label().len() implies #[trigger] host_label()[j]
        != 58 by {
        assert(host_label()[0] == 72 && host_label()[1] == 111 && host_label()[2] == 115
            && host_label()[3] == 116);
    }
    lemma_header_line_has_sep(host_label(), host);
    assert forall|j: int| 0 <= j < user_agent_label().len() implies #[trigger] user_agent_label()[
        j
    ] != 58 by {
        assert(user_agent_label()[0] == 85 && user_agent_label()[1] == 115
            && user_agent_label()[2] == 101 && user_agent_label()[3] == 114
            && user_agent_label()[4] == 45 && user_agent_label()[5] == 65
            && user_agent_label()[6] == 103 && user_agent_label()[7] == 101
            && user_agent_label()[8] == 110 && user_agent_label()[9] == 116);
    }
    lemma_header_line_value(user_agent_label(), ua);

    assert forall|j: int| 0 <= j < line0.len() implies #[trigger] line0[j] != 10 && line0[j]
        < 0x80 by {
        let m = get_token().len() as int;
        let q = m + 1 + path.len() as int;
        if j < m {
            assert(line0[j] == get_token()[j]);
            assert(is_plain_byte(get_token()[j]));
        } else if j == m || j == q {
            assert(line0[j] == 32);
        } else if j < q {
            assert(line0[j] == path[j - m - 1]);
            assert(is_plain_byte(path[j - m - 1]));
        } else {
            assert(line0[j] == version_token()[j - q - 1]);
            assert(is_plain_byte(version_token()[j - q - 1]));
        }
    }
    assert forall|j: int| 0 <= j < line1.len() implies #[trigger] line1[j] != 10 && line1[j]
        < 0x80 by {
        let m = host_label().len() as int;
        if j < m {
            assert(line1[j] == host_label()[j]);
            assert(host_label()[0] == 72 && host_label()[1] == 111 && host_label()[2] == 115
                && host_label()[3] == 116);
        } else if j == m {
            assert(line1[j] == 58);
        } else if j == m + 1 {
            assert(line1[j] == 32);
        } else {
            assert(line1[j] == host[j - m - 2]);
        }
    }
    assert forall|j: int| 0 <= j < line2.len() implies #[trigger] line2[j] != 10 && line2[j]
        < 0x80 by {
        let m = user_agent_label().len() as int;
        if j < m {
            assert(line2[j] == user_agent_label()[j]);
            assert(user_agent_label()[0] == 85 && user_agent_label()[1] == 115
                && user_agent_label()[2] == 101 && user_agent_label()[3] == 114
                && user_agent_label()[4] == 45 && user_agent_label()[5] == 65
                && user_agent_label()[6] == 103 && user_agent_label()[7] == 101
                && user_agent_label()[8] == 110 && user_agent_label()[9] == 116);
        } else if j == m {
            assert(line2[j] == 58);
        } else if j == m + 1 {
            assert(line2[j] == 32);
        } else {
            assert(line2[j] == ua[j - m - 2]);
        }
    }
    lemma_three_lines_parse(line0, line1, line2);

    assert forall|j: int| 0 <= j < input.len() implies #[trigger] input[j] < 0x80 by {
        let a = line0.len() as int;
        let b = a + 2 + line1.len() as int;
        if j < a {
            assert(input[j] == line0[j]);
        } else if j < a + 2 {
            assert(input[j] == 13 || input[j] == 10);
        } else if j < b {
            assert(input[j] == line1[j - a - 2]);
        } else if j < b + 2 {
            assert(input[j] == 13 || input[j] == 10);
        } else {
            assert(input[j] == line2[j - b - 2]);
        }
    }
    lemma_ascii_valid_utf8(input);

    assert(spec_path(input) == path);
    assert(spec_user_agent(input) == ua);
}

/// Echo, on the wire: a `GET` of `/echo/` followed by any plain bytes is
/// answered with exactly the body-carrying response whose body is `/` and
/// those bytes, whatever the header values.
pub proof fn lemma_echo_request(s: Seq<u8>, host: Seq<u8>, ua: Seq<u8>)
    requires
        forall|j: int| 0 <= j < s.len() ==> is_plain_byte(#[trigger] s[j]),
        forall|j: int| 0 <= j < host.len() ==> #[trigger] host[j] < 0x80 && host[j] != 10,
        forall|j: int| 0 <= j < ua.len() ==> #[trigger] ua[j] < 0x80 && ua[j] != 10,
        forall|j: int| 0 <= j && j + 1 < ua.len() ==> !(#[trigger] ua[j] == 58 && ua[j + 1] == 32),
    ensures
        response_for(assembled_request(echo_prefix() + seq![47u8] + s, host, ua)) == format_spec(
            200,
            ok_text(),
            text_plain(),
            seq![47u8] + s,
        ),
{
    let path = echo_prefix() + seq![47u8] + s;
    assert forall|j: int| 0 <= j < path.len() implies is_plain_byte(#[trigger] path[j]) by {
        if j < 5 {
            assert(path[0] == 47 && path[1] == 101 && path[2] == 99 && path[3] == 104 && path[4]
                == 111);
        } else if j == 5 {
            assert(path[j] == 47);
        } else {
            assert(path[j] == s[j - 6]);
        }
    }
    lemma_assembled_request_routed(path, host, ua);
    lemma_echo_round_trip(s, ua);
}

/// User-Agent passthrough, on the wire: a `GET` of `/user-agent` is answered
/// with exactly the body-carrying response whose body is the `User-Agent`
/// value of the request, byte for byte, empty or not.
pub proof fn lemma_user_agent_request(host: Seq<u8>, ua: Seq<u8>)
    requires
        forall|j: int| 0 <= j < host.len() ==> #[trigger] host[j] < 0x80 && host[j] != 10,
        forall|j: int| 0 <= j < ua.len() ==> #[trigger] ua[j] < 0x80 && ua[j] != 10,
        forall|j: int| 0 <= j && j + 1 < ua.len() ==> !(#[trigger] ua[j] == 58 && ua[j + 1] == 32),
    ensures
        response_for(assembled_request(user_agent_prefix(), host, ua)) == format_spec(
            200,
            ok_text(),
            text_plain(),
            ua,
        ),
{
    let path = user_agent_prefix();
    assert forall|j: int| 0 <= j < path.len() implies is_plain_byte(#[trigger] path[j]) by {
        assert(path[0] == 47 && path[1] == 117 && path[2] == 115 && path[3] == 101 && path[4]
            == 114 && path[5] == 45 && path[6] == 97 && path[7] == 103 && path[8] == 101 && path[9]
            == 110 && path[10] == 116);
    }
    lemma_assembled_request_routed(path, host, ua);
    assert(user_agent_prefix().is_prefix_of(path)) by {
        assert(path.subrange(0, 11) =~= user_agent_prefix());
    }
    lemma_user_agent_passthrough(path, ua);
}

} // verus!
