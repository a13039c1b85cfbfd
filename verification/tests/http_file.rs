use minihttp::encoding::check_utf8;
use minihttp::httpfile::{parse, HttpMethod, HttpRequest, ParseError};
use minihttp::split::split_lines;

#[test]
fn utf8_accepts_ascii_and_multibyte() {
    assert!(check_utf8(b"plain ascii"));
    assert!(check_utf8("caf\u{e9} \u{4e16}\u{754c} \u{1f600}".as_bytes()));
    assert!(check_utf8(b""));
    assert!(check_utf8(b"\xf4\x8f\xbf\xbf"));
}

#[test]
fn utf8_rejects_malformed_sequences() {
    assert!(!check_utf8(b"\xff"));
    assert!(!check_utf8(b"\xc3"));
    assert!(!check_utf8(b"\xc0\x80"));
    assert!(!check_utf8(b"\xed\xa0\x80"));
    assert!(!check_utf8(b"\xf4\x90\x80\x80"));
    assert!(!check_utf8(b"ab\x80cd"));
}

#[test]
fn lines_split_on_line_feed_and_strip_paired_carriage_return() {
    let ls = split_lines(b"a\r\nb\nc\r");
    assert_eq!(ls, vec![b"a".to_vec(), b"b".to_vec(), b"c\r".to_vec()]);
    assert_eq!(split_lines(b""), Vec::<Vec<u8>>::new());
    assert_eq!(split_lines(b"\n"), vec![b"".to_vec()]);
}

#[test]
fn parse_reads_one_request_with_headers_and_body() {
    let text = b"GET /a HTTP/1.1\nHost: x\nUser-Agent: c\npayload\nmore";
    let f = parse(text).unwrap();
    assert_eq!(f.requests.len(), 1);
    let r = &f.requests[0];
    assert_eq!(r.method, HttpMethod::Get);
    assert_eq!(r.url, b"/a".to_vec());
    assert_eq!(r.version, b"HTTP/1.1".to_vec());
    assert_eq!(
        r.headers,
        vec![
            (b"Host".to_vec(), b"x".to_vec()),
            (b"User-Agent".to_vec(), b"c".to_vec()),
        ]
    );
    assert_eq!(r.body, b"payload\nmore".to_vec());
}

#[test]
fn parse_reads_blank_line_separated_requests() {
    let text = b"GET / HTTP/1.1\n\nPOST /b HTTP/2\nContent-Type: t\n\n\nDELETE /c V3";
    let f = parse(text).unwrap();
    assert_eq!(f.requests.len(), 3);
    assert_eq!(f.requests[0].method, HttpMethod::Get);
    assert_eq!(f.requests[1].method, HttpMethod::Post);
    assert_eq!(f.requests[1].headers, vec![(b"Content-Type".to_vec(), b"t".to_vec())]);
    assert_eq!(f.requests[2].method, HttpMethod::Delete);
    assert_eq!(f.requests[2].url, b"/c".to_vec());
}

#[test]
fn parse_knows_all_four_methods() {
    let text = b"GET / V\n\nPOST / V\n\nPUT / V\n\nDELETE / V";
    let f = parse(text).unwrap();
    let methods: Vec<HttpMethod> = f.requests.iter().map(|r| r.method).collect();
    assert_eq!(
        methods,
        vec![HttpMethod::Get, HttpMethod::Post, HttpMethod::Put, HttpMethod::Delete]
    );
}

#[test]
fn parse_of_empty_input_holds_no_requests() {
    let f = parse(b"").unwrap();
    assert_eq!(f.requests.len(), 0);
}

#[test]
fn parse_rejects_short_request_line() {
    assert!(matches!(parse(b"GET /"), Err(ParseError::RequestLine)));
}

#[test]
fn parse_rejects_unknown_method() {
    assert!(matches!(parse(b"PATCH /x HTTP/1.1"), Err(ParseError::Method)));
}

#[test]
fn parse_reports_first_failing_block() {
    let text = b"GET / HTTP/1.1\n\nonly-two tokens\n\nPATCH / V";
    assert!(matches!(parse(text), Err(ParseError::RequestLine)));
}

#[test]
fn parse_headers_appends_pairs_in_order() {
    let mut r = HttpRequest::default();
    r.parse_headers(vec![(b"k1".to_vec(), b"v1".to_vec())]);
    r.parse_headers(vec![(b"k2".to_vec(), b"v2".to_vec())]);
    assert_eq!(
        r.headers,
        vec![
            (b"k1".to_vec(), b"v1".to_vec()),
            (b"k2".to_vec(), b"v2".to_vec()),
        ]
    );
    assert_eq!(r.method, HttpMethod::Get);
}

#[test]
fn request_text_lists_headers_in_brackets() {
    let f = parse(b"GET /a HTTP/1.1\nHost: x\nUser-Agent: c").unwrap();
    let t = f.requests[0].to_text();
    assert_eq!(t, b"GET /a HTTP/1.1 [Host: x, User-Agent: c]".to_vec());
}

#[test]
fn request_text_without_headers_is_the_request_line() {
    let f = parse(b"PUT /p V9").unwrap();
    assert_eq!(f.requests[0].to_text(), b"PUT /p V9".to_vec());
}

#[test]
fn file_text_numbers_each_request() {
    let f = parse(b"GET / HTTP/1.1\n\nPOST /b HTTP/2\nHost: h").unwrap();
    assert_eq!(
        f.to_text(),
        b"#0\nGET / HTTP/1.1\n#1\nPOST /b HTTP/2 [Host: h]\n".to_vec()
    );
}

#[test]
fn empty_file_text_says_so() {
    let f = parse(b"").unwrap();
    assert_eq!(f.to_text(), b"No requests found\n".to_vec());
}

#[test]
fn default_request_is_an_empty_get() {
    let r = HttpRequest::default();
    assert_eq!(r.method, HttpMethod::Get);
    assert!(r.url.is_empty());
    assert!(r.version.is_empty());
    assert!(r.headers.is_empty());
    assert!(r.body.is_empty());
}
