//! A reader for whole files of requests.
//!
//! Beside the narrow per-connection parser, the library can read a text
//! holding any number of requests, each a block of lines separated from the
//! next by one or more blank lines.  A block is a request line — method, URL
//! and version, white-space separated, the method one of the four known
//! tokens — followed by header lines of the form `key: value`; the first
//! line without a colon-space pair starts the body, which runs to the end of
//! the block with the block's line breaks restored as line feeds.

use vstd::prelude::*;

use crate::split::{find_sep, has_sep, lines, split_lines, split_tokens, tokens, views};
use crate::split::find_separator;
use crate::text::{bytes_eq, copy_range, push_all, push_decimal};

verus! {

/// A request method.
#[derive(Debug, Clone, Copy, PartialEq, Eq, Structural)]
pub enum HttpMethod {
    /// The `GET` token.
    Get,
    /// The `POST` token.
    Post,
    /// The `PUT` token.
    Put,
    /// The `DELETE` token.
    Delete,
}

/// One request of a file: the request line, its headers in file order, and
/// its body.
#[derive(Debug, Clone)]
pub struct HttpRequest {
    /// The request method.
    pub method: HttpMethod,
    /// The second request-line token, kept verbatim.
    pub url: Vec<u8>,
    /// The third request-line token, kept verbatim.
    pub version: Vec<u8>,
    /// The header pairs, in the order the file gives them.
    pub headers: Vec<(Vec<u8>, Vec<u8>)>,
    /// The body bytes.
    pub body: Vec<u8>,
}

/// A file of requests.
#[derive(Debug)]
pub struct HttpFile {
    /// The requests, in file order.
    pub requests: Vec<HttpRequest>,
}

/// Why a file failed to read.
#[derive(Debug, Clone, Copy, PartialEq, Eq, Structural)]
pub enum ParseError {
    /// A block's first line has fewer than three tokens.
    RequestLine,
    /// A block's method token is not one of the four known tokens.
    Method,
}

/// The wire token of each method.
pub open spec fn method_token(m: HttpMethod) -> Seq<u8> {
    match m {
        HttpMethod::Get => seq![71u8, 69, 84],
        HttpMethod::Post => seq![80u8, 79, 83, 84],
        HttpMethod::Put => seq![80u8, 85, 84],
        HttpMethod::Delete => seq![68u8, 69, 76, 69, 84, 69],
    }
}

/// The method a token names, if any.
pub open spec fn method_of(tok: Seq<u8>) -> Option<HttpMethod> {
    if tok == method_token(HttpMethod::Get) {
        Some(HttpMethod::Get)
    } else if tok == method_token(HttpMethod::Post) {
        Some(HttpMethod::Post)
    } else if tok == method_token(HttpMethod::Put) {
        Some(HttpMethod::Put)
    } else if tok == method_token(HttpMethod::Delete) {
        Some(HttpMethod::Delete)
    } else {
        None
    }
}

/// The blocks of non-blank lines in `ls` from position `i` on, blank lines
/// separating blocks; `cur` is the block in progress.
pub open spec fn blocks_from(ls: Seq<Seq<u8>>, i: int, cur: Seq<Seq<u8>>) -> Seq<Seq<Seq<u8>>>
    decreases ls.len() - i,
{
    if i < 0 || i >= ls.len() {
        if cur.len() == 0 {
            Seq::empty()
        } else {
            seq![cur]
        }
    } else if ls[i].len() == 0 {
        let rest = blocks_from(ls, i + 1, Seq::empty());
        if cur.len() == 0 {
            rest
        } else {
            seq![cur] + rest
        }
    } else {
        blocks_from(ls, i + 1, cur + seq![ls[i]])
    }
}

/// The blocks of non-blank lines in `ls`, each non-empty.
pub open spec fn blocks(ls: Seq<Seq<u8>>) -> Seq<Seq<Seq<u8>>> {
    blocks_from(ls, 0, Seq::empty())
}

/// First position at or after `j` of a block line without a colon-space
/// pair, or the block's length: where the header section ends.
pub open spec fn header_end(b: Seq<Seq<u8>>, j: int) -> int
    decreases b.len() - j,
{
    if j < 0 || j >= b.len() {
        b.len() as int
    } else if !has_sep(b[j]) {
        j
    } else {
        header_end(b, j + 1)
    }
}

/// The key and value of a header line: the bytes before its first
/// colon-space pair, and everything after that pair.
pub open spec fn header_pair(l: Seq<u8>) -> (Seq<u8>, Seq<u8>)
    recommends
        has_sep(l),
{
    (l.subrange(0, find_sep(l, 0)), l.subrange(find_sep(l, 0) + 2, l.len() as int))
}

/// The header pairs of a block: one per line of the header section.
pub open spec fn block_headers(b: Seq<Seq<u8>>) -> Seq<(Seq<u8>, Seq<u8>)> {
    Seq::new((header_end(b, 1) - 1) as nat, |k: int| header_pair(b[k + 1]))
}

/// The lines `ls[from..to]` joined with a line feed between each two.
pub open spec fn join_lines(ls: Seq<Seq<u8>>, from: int, to: int) -> Seq<u8>
    decreases to - from,
{
    if to <= from || from < 0 {
        Seq::empty()
    } else if to == from + 1 {
        ls[from]
    } else {
        join_lines(ls, from, to - 1) + seq![10u8] + ls[to - 1]
    }
}

/// The body of a block: its lines after the header section, joined with line
/// feeds.
pub open spec fn block_body(b: Seq<Seq<u8>>) -> Seq<u8> {
    join_lines(b, header_end(b, 1), b.len() as int)
}

/// Whether a block reads as a request: at least three request-line tokens,
/// the first a known method token.
pub open spec fn block_ok(b: Seq<Seq<u8>>) -> bool {
    &&& b.len() > 0
    &&& tokens(b[0]).len() >= 3
    &&& method_of(tokens(b[0])[0]) is Some
}

/// The error a failing block reports.
pub open spec fn block_err(b: Seq<Seq<u8>>) -> ParseError {
    if tokens(b[0]).len() < 3 {
        ParseError::RequestLine
    } else {
        ParseError::Method
    }
}

/// The first failing block at or after `k`, or the number of blocks.
pub open spec fn first_bad(bs: Seq<Seq<Seq<u8>>>, k: int) -> int
    decreases bs.len() - k,
{
    if k < 0 || k >= bs.len() {
        bs.len() as int
    } else if !block_ok(bs[k]) {
        k
    } else {
        first_bad(bs, k + 1)
    }
}

/// The views of a sequence of header pairs.
pub open spec fn pair_views(hs: Seq<(Vec<u8>, Vec<u8>)>) -> Seq<(Seq<u8>, Seq<u8>)> {
    hs.map_values(|p: (Vec<u8>, Vec<u8>)| (p.0@, p.1@))
}

/// The views of a vector-held block.
pub open spec fn block_views(v: Seq<Vec<Vec<u8>>>) -> Seq<Seq<Seq<u8>>> {
    v.map_values(|b: Vec<Vec<u8>>| views(b@))
}

/// Whether `r` holds exactly what block `b` reads as.
pub open spec fn is_request_of(r: HttpRequest, b: Seq<Seq<u8>>) -> bool {
    &&& Some(r.method) == method_of(tokens(b[0])[0])
    &&& r.url@ == tokens(b[0])[1]
    &&& r.version@ == tokens(b[0])[2]
    &&& pair_views(r.headers@) == block_headers(b)
    &&& r.body@ == block_body(b)
}

/// The text of one header pair: `key: value`.
pub open spec fn pair_text(p: (Seq<u8>, Seq<u8>)) -> Seq<u8> {
    p.0 + seq![58u8, 32] + p.1
}

/// The first `to` header pairs as text, a comma and a space between each two.
pub open spec fn headers_text(hs: Seq<(Seq<u8>, Seq<u8>)>, to: int) -> Seq<u8>
    decreases to,
{
    if to <= 0 {
        Seq::empty()
    } else if to == 1 {
        pair_text(hs[0])
    } else {
        headers_text(hs, to - 1) + seq![44u8, 32] + pair_text(hs[to - 1])
    }
}

/// The one-line text of a request: `method url version`, then — only
/// when there are headers — the header pairs between square brackets.
pub open spec fn request_text(r: HttpRequest) -> Seq<u8> {
    let head = method_token(r.method) + seq![32u8] + r.url@ + seq![32u8] + r.version@;
    if r.headers@.len() == 0 {
        head
    } else {
        head + seq![32u8, 91] + headers_text(pair_views(r.headers@), r.headers@.len() as int)
            + seq![93u8]
    }
}

/// The text of the first `to` requests of a file: each request's text on its
/// own line under a `#<index>` line.
pub open spec fn file_text(rs: Seq<HttpRequest>, to: int) -> Seq<u8>
    decreases to,
{
    if to <= 0 {
        Seq::empty()
    } else {
        file_text(rs, to - 1) + seq![35u8] + crate::text::decimal_digits((to - 1) as nat)
            + seq![10u8] + request_text(rs[to - 1]) + seq![10u8]
    }
}

/// Bytes of `"No requests found"` and a line break: the text of an empty
/// file.
pub open spec fn no_requests_text() -> Seq<u8> {
    seq![78u8, 111, 32, 114, 101, 113, 117, 101, 115, 116, 115, 32, 102, 111, 117, 110, 100, 10]
}

/// The wire token of a method, mirroring [`method_token`].
fn method_token_vec(m: HttpMethod) -> (v: Vec<u8>)
    ensures
        v@ == method_token(m),
{
    match m {
        HttpMethod::Get => {
            let v: Vec<u8> = vec![71u8, 69, 84];
            assert(v@ =~= method_token(HttpMethod::Get));
            v
        },
        HttpMethod::Post => {
            let v: Vec<u8> = vec![80u8, 79, 83, 84];
            assert(v@ =~= method_token(HttpMethod::Post));
            v
        },
        HttpMethod::Put => {
            let v: Vec<u8> = vec![80u8, 85, 84];
            assert(v@ =~= method_token(HttpMethod::Put));
            v
        },
        HttpMethod::Delete => {
            let v: Vec<u8> = vec![68u8, 69, 76, 69, 84, 69];
            assert(v@ =~= method_token(HttpMethod::Delete));
            v
        },
    }
}

impl HttpRequest {
    /// Renders this request as one line of text, per [`request_text`].
    pub fn to_text(&self) -> (t: Vec<u8>)
        ensures
            t@ == request_text(*self),
    {
        let ghost hv = pair_views(self.headers@);
        let mut out = method_token_vec(self.method);
        out.push(32u8);
        push_all(&mut out, self.url.as_slice());
        out.push(32u8);
        push_all(&mut out, self.version.as_slice());
        let ghost head = out@;
        assert(head =~= method_token(self.method) + seq![32u8] + self.url@ + seq![32u8]
            + self.version@);
        if self.headers.len() == 0 {
            return out;
        }
        out.push(32u8);
        out.push(91u8);
        let ghost pre = out@;
        assert(pre =~= head + seq![32u8, 91]);
        let mut k: usize = 0;
        while k < self.headers.len()
            invariant
                k <= self.headers@.len(),
                hv == pair_views(self.headers@),
                pre == head + seq![32u8, 91],
                out@ == pre + headers_text(hv, k as int),
            decreases self.headers@.len() - k,
        {
            if k > 0 {
                out.push(44u8);
                out.push(32u8);
            }
            assert(hv[k as int] == (self.headers@[k as int].0@, self.headers@[k as int].1@));
            push_all(&mut out, self.headers[k].0.as_slice());
            out.push(58u8);
            out.push(32u8);
            push_all(&mut out, self.headers[k].1.as_slice());
            k = k + 1;
            assert(out@ =~= pre + headers_text(hv, k as int));
        }
        assert(hv.len() == self.headers@.len());
        out.push(93u8);
        assert(out@ =~= request_text(*self));
        out
    }

    /// Appends already split header pairs to this request's headers, leaving
    /// every other field as it was.
    pub fn parse_headers(&mut self, pairs: Vec<(Vec<u8>, Vec<u8>)>)
        ensures
            final(self).method == old(self).method,
            final(self).url == old(self).url,
            final(self).version == old(self).version,
            final(self).body == old(self).body,
            final(self).headers@ == old(self).headers@ + pairs@,
    {
        let mut rest = pairs;
        self.headers.append(&mut rest);
    }
}

impl HttpFile {
    /// Renders the file as text: a note that it is empty, or every request's
    /// text under its index, per [`file_text`].
    pub fn to_text(&self) -> (t: Vec<u8>)
        ensures
            self.requests@.len() == 0 ==> t@ == no_requests_text(),
            self.requests@.len() > 0 ==> t@ == file_text(
                self.requests@,
                self.requests@.len() as int,
            ),
    {
        if self.requests.len() == 0 {
            let v: Vec<u8> = vec![78u8, 111, 32, 114, 101, 113, 117, 101, 115, 116, 115, 32, 102,
                111, 117, 110, 100, 10];
            assert(v@ =~= no_requests_text());
            return v;
        }
        let mut out: Vec<u8> = Vec::new();
        let mut i: usize = 0;
        while i < self.requests.len()
            invariant
                i <= self.requests@.len(),
                out@ == file_text(self.requests@, i as int),
            decreases self.requests@.len() - i,
        {
            out.push(35u8);
            push_decimal(&mut out, i as u64);
            out.push(10u8);
            let line = self.requests[i].to_text();
            push_all(&mut out, line.as_slice());
            out.push(10u8);
            i = i + 1;
            assert(out@ =~= file_text(self.requests@, i as int));
        }
        out
    }
}

impl Default for HttpRequest {
    /// An empty request: a `GET` of nothing, no headers, no body.
    fn default() -> (r: Self)
        ensures
            r.method == HttpMethod::Get,
            r.url@ == Seq::<u8>::empty(),
            r.version@ == Seq::<u8>::empty(),
            r.headers@ == Seq::<(Vec<u8>, Vec<u8>)>::empty(),
            r.body@ == Seq::<u8>::empty(),
    {
        HttpRequest {
            method: HttpMethod::Get,
            url: Vec::new(),
            version: Vec::new(),
            headers: Vec::new(),
            body: Vec::new(),
        }
    }
}

/// The method a token names, mirroring [`method_of`].
fn parse_method(tok: &[u8]) -> (r: Option<HttpMethod>)
    ensures
        r == method_of(tok@),
{
    let get: Vec<u8> = vec![71u8, 69, 84];
    assert(get@ =~= method_token(HttpMethod::Get));
    if bytes_eq(tok, get.as_slice()) {
        return Some(HttpMethod::Get);
    }
    let post: Vec<u8> = vec![80u8, 79, 83, 84];
    assert(post@ =~= method_token(HttpMethod::Post));
    if bytes_eq(tok, post.as_slice()) {
        return Some(HttpMethod::Post);
    }
    let put: Vec<u8> = vec![80u8, 85, 84];
    assert(put@ =~= method_token(HttpMethod::Put));
    if bytes_eq(tok, put.as_slice()) {
        return Some(HttpMethod::Put);
    }
    let delete: Vec<u8> = vec![68u8, 69, 76, 69, 84, 69];
    assert(delete@ =~= method_token(HttpMethod::Delete));
    if bytes_eq(tok, delete.as_slice()) {
        return Some(HttpMethod::Delete);
    }
    None
}

/// Every line of the header section has a colon-space pair, and the section
/// ends within the block.
proof fn header_end_props(b: Seq<Seq<u8>>, j: int)
    requires
        0 <= j <= b.len(),
    ensures
        j <= header_end(b, j) <= b.len(),
        forall|k: int| j <= k < header_end(b, j) ==> has_sep(b[k]),
        header_end(b, j) < b.len() ==> !has_sep(b[header_end(b, j)]),
    decreases b.len() - j,
{
    if j < b.len() && has_sep(b[j]) {
        header_end_props(b, j + 1);
    }
}

/// Where the header section of `b` ends, mirroring [`header_end`] from 1.
fn find_header_end(b: &Vec<Vec<u8>>) -> (he: usize)
    requires
        b@.len() > 0,
    ensures
        1 <= he <= b@.len(),
        he == header_end(views(b@), 1),
{
    let ghost bv = views(b@);
    let mut j: usize = 1;
    while j < b.len()
        invariant
            1 <= j <= b@.len(),
            bv == views(b@),
            header_end(bv, 1) == header_end(bv, j as int),
        decreases b@.len() - j,
    {
        let line = &b[j];
        assert(bv[j as int] == line@);
        let p = find_separator(line.as_slice(), 0);
        if line.len() - p < 2 {
            assert(!has_sep(bv[j as int]));
            proof {
                header_end_props(bv, 1);
            }
            return j;
        }
        assert(has_sep(bv[j as int]));
        j = j + 1;
    }
    proof {
        header_end_props(bv, 1);
    }
    j
}

/// Reads one block as a request, exactly when [`block_ok`] holds of it;
/// otherwise reports which of the block's faults came first.
fn parse_block(b: &Vec<Vec<u8>>) -> (r: Result<HttpRequest, ParseError>)
    requires
        b@.len() > 0,
    ensures
        match r {
            Ok(req) => block_ok(views(b@)) && is_request_of(req, views(b@)),
            Err(e) => !block_ok(views(b@)) && e == block_err(views(b@)),
        },
{
    let ghost bv = views(b@);
    assert(bv[0] == b@[0]@);
    let mut toks = split_tokens(b[0].as_slice());
    assert(views(toks@).len() == toks@.len());
    if toks.len() < 3 {
        return Err(ParseError::RequestLine);
    }
    let ghost orig_toks = toks@;
    let method = match parse_method(toks[0].as_slice()) {
        Some(m) => m,
        None => {
            return Err(ParseError::Method);
        },
    };
    let version = toks.remove(2);
    let url = toks.remove(1);
    assert(url@ == views(orig_toks)[1]);
    assert(version@ == views(orig_toks)[2]);

    let he = find_header_end(b);
    proof {
        header_end_props(bv, 1);
    }
    let mut pairs: Vec<(Vec<u8>, Vec<u8>)> = Vec::new();
    let mut j: usize = 1;
    while j < he
        invariant
            1 <= j <= he <= b@.len(),
            bv == views(b@),
            he == header_end(bv, 1),
            forall|k: int| 1 <= k < header_end(bv, 1) ==> has_sep(bv[k]),
            pair_views(pairs@) == Seq::new((j - 1) as nat, |k: int| header_pair(bv[k + 1])),
        decreases he - j,
    {
        let line = &b[j];
        assert(bv[j as int] == line@);
        assert(has_sep(bv[j as int]));
        assert(has_sep(line@));
        let end = line.len();
        let p = find_separator(line.as_slice(), 0);
        assert(p + 2 <= line@.len());
        let key = copy_range(line.as_slice(), 0, p);
        let value = copy_range(line.as_slice(), p + 2, end);
        assert((key@, value@) == header_pair(line@));
        let ghost old_pairs = pairs@;
        assert(pair_views(old_pairs).len() == old_pairs.len());
        assert(old_pairs.len() == j - 1);
        pairs.push((key, value));
        assert forall|k: int| 0 <= k < pairs@.len() implies pair_views(pairs@)[k] == header_pair(
            bv[k + 1],
        ) by {
            assert(pair_views(pairs@)[k] == (pairs@[k].0@, pairs@[k].1@));
            if k < old_pairs.len() {
                assert(pairs@[k] == old_pairs[k]);
                assert(pair_views(old_pairs)[k] == (old_pairs[k].0@, old_pairs[k].1@));
                assert(pair_views(old_pairs)[k] == Seq::new(
                    (j - 1) as nat,
                    |m: int| header_pair(bv[m + 1]),
                )[k]);
            } else {
                assert(pairs@[k] == (key, value));
                assert(bv[k + 1] == line@);
            }
        }
        j = j + 1;
        assert(pair_views(pairs@) =~= Seq::new((j - 1) as nat, |k: int| header_pair(bv[k + 1])));
    }
    assert(pair_views(pairs@) =~= block_headers(bv));

    let mut body: Vec<u8> = Vec::new();
    let mut j2: usize = he;
    while j2 < b.len()
        invariant
            he <= j2 <= b@.len(),
            he == header_end(bv, 1),
            bv == views(b@),
            body@ == join_lines(bv, he as int, j2 as int),
        decreases b@.len() - j2,
    {
        if j2 > he {
            body.push(10u8);
        }
        let line = &b[j2];
        assert(bv[j2 as int] == line@);
        push_all(&mut body, line.as_slice());
        j2 = j2 + 1;
        assert(body@ =~= join_lines(bv, he as int, j2 as int));
    }
    assert(body@ == block_body(bv));

    let mut req = HttpRequest { method, url, version, headers: Vec::new(), body };
    req.parse_headers(pairs);
    assert(pair_views(req.headers@) =~= pair_views(pairs@));
    Ok(req)
}

/// The first failing block is at or after `k` when every block before `k`
/// is sound.
proof fn first_bad_past(bs: Seq<Seq<Seq<u8>>>, j: int, k: int)
    requires
        0 <= j <= k <= bs.len(),
        forall|m: int| j <= m < k ==> block_ok(bs[m]),
    ensures
        first_bad(bs, j) == first_bad(bs, k),
    decreases k - j,
{
    if j < k {
        first_bad_past(bs, j + 1, k);
    }
}

/// Reads a file of requests.  Succeeds with one request per block exactly
/// when every block is sound, per [`block_ok`]; otherwise reports the first
/// failing block's fault.
pub fn parse(input: &[u8]) -> (r: Result<HttpFile, ParseError>)
    ensures
        ({
            let bs = blocks(lines(input@));
            match r {
                Ok(f) => {
                    &&& first_bad(bs, 0) == bs.len()
                    &&& f.requests@.len() == bs.len()
                    &&& forall|k: int|
                        0 <= k < bs.len() ==> block_ok(bs[k]) && is_request_of(
                            #[trigger] f.requests@[k],
                            bs[k],
                        )
                },
                Err(e) => {
                    let k = first_bad(bs, 0);
                    &&& k < bs.len()
                    &&& !block_ok(bs[k])
                    &&& e == block_err(bs[k])
                },
            }
        }),
{
    let ghost all = lines(input@);
    let line_vec = split_lines(input);
    let mut rest = line_vec;
    let mut bs: Vec<Vec<Vec<u8>>> = Vec::new();
    let mut cur: Vec<Vec<u8>> = Vec::new();
    assert(views(rest@) =~= all.skip(0));
    while rest.len() > 0
        invariant
            rest@.len() <= all.len(),
            views(rest@) == all.skip(all.len() - rest@.len()),
            blocks(all) == block_views(bs@) + blocks_from(
                all,
                all.len() - rest@.len(),
                views(cur@),
            ),
            forall|k: int| 0 <= k < bs@.len() ==> #[trigger] block_views(bs@)[k].len() > 0,
        decreases rest@.len(),
    {
        let ghost i = all.len() - rest@.len();
        let ghost old_rest = rest@;
        assert(all[i as int] == views(rest@)[0]);
        let l = rest.remove(0);
        assert(l@ == all[i as int]);
        assert forall|m: int| 0 <= m < rest@.len() implies views(rest@)[m] == all[i + 1 + m] by {
            assert(rest@[m] == old_rest[m + 1]);
            assert(views(old_rest)[m + 1] == old_rest[m + 1]@);
            assert(all.skip(i as int)[m + 1] == all[i + 1 + m]);
        }
        assert(views(rest@) =~= all.skip(i as int + 1));
        if l.len() == 0 {
            if cur.len() != 0 {
                let ghost prev = bs@;
                bs.push(cur);
                assert(block_views(bs@) =~= block_views(prev).push(views(bs@[bs@.len() - 1]@)));
                cur = Vec::new();
            }
            assert(views(cur@) =~= Seq::<Seq<u8>>::empty());
        } else {
            let ghost prev_cur = cur@;
            cur.push(l);
            assert(views(cur@) =~= views(prev_cur) + seq![all[i as int]]);
        }
        assert(blocks(all) =~= block_views(bs@) + blocks_from(
            all,
            all.len() - rest@.len(),
            views(cur@),
        ));
    }
    if cur.len() != 0 {
        let ghost prev = bs@;
        bs.push(cur);
        assert(block_views(bs@) =~= block_views(prev).push(views(bs@[bs@.len() - 1]@)));
    }
    assert(block_views(bs@) =~= blocks(all));
    let ghost bsv = blocks(all);

    let mut requests: Vec<HttpRequest> = Vec::new();
    let mut k: usize = 0;
    while k < bs.len()
        invariant
            k <= bs@.len(),
            block_views(bs@) == bsv,
            all == lines(input@),
            bsv == blocks(all),
            forall|m: int| 0 <= m < bs@.len() ==> #[trigger] block_views(bs@)[m].len() > 0,
            requests@.len() == k,
            forall|m: int| 0 <= m < k ==> block_ok(#[trigger] bsv[m]),
            forall|m: int| 0 <= m < k ==> is_request_of(#[trigger] requests@[m], bsv[m]),
        decreases bs@.len() - k,
    {
        assert(bsv.len() == bs@.len());
        assert(bsv[k as int] == views(bs@[k as int]@));
        match parse_block(&bs[k]) {
            Ok(req) => {
                requests.push(req);
            },
            Err(e) => {
                proof {
                    first_bad_past(bsv, 0, k as int);
                    assert(!block_ok(bsv[k as int]));
                    assert(first_bad(bsv, k as int) == k as int);
                    assert(first_bad(bsv, 0) == k as int);
                }
                return Err(e);
            },
        }
        k = k + 1;
    }
    proof {
        first_bad_past(bsv, 0, bsv.len() as int);
    }
    Ok(HttpFile { requests })
}

} // verus!
