use minihttp::request::parse_request;
use minihttp::response::{format_response, generate_response, handle_request};

fn req(lines: &[&str]) -> Vec<u8> {
    lines.join("\r\n").into_bytes()
}

#[test]
fn root_path_yields_root_response() {
    let input = req(&["GET / HTTP/1.1", "Host: x", "User-Agent: y"]);
    let out = handle_request(&input);
    assert_eq!(out, b"HTTP/1.1 200 OK \r\n\r\n".to_vec());
}

#[test]
fn echo_yields_suffix_body() {
    let input = req(&["GET /echo/abc HTTP/1.1", "Host: x", "User-Agent: y"]);
    let out = handle_request(&input);
    assert_eq!(
        out,
        b"HTTP/1.1 200 OK\r\nContent-Type: text/plain\r\nContent-Length: 4\r\n\r\n/abc".to_vec()
    );
}

#[test]
fn user_agent_yields_captured_value() {
    let input = req(&["GET /user-agent HTTP/1.1", "Host: x", "User-Agent: curl/7.1"]);
    let out = handle_request(&input);
    assert_eq!(
        out,
        b"HTTP/1.1 200 OK\r\nContent-Type: text/plain\r\nContent-Length: 8\r\n\r\ncurl/7.1"
            .to_vec()
    );
}

#[test]
fn unknown_path_yields_not_found() {
    let input = req(&["GET /nope HTTP/1.1", "Host: x", "User-Agent: y"]);
    let out = handle_request(&input);
    assert_eq!(out, b"HTTP/1.1 404 Not Found\r\n\r\n".to_vec());
}

#[test]
fn two_lines_yield_bad_request() {
    let input = req(&["GET / HTTP/1.1", "Host: x"]);
    let out = handle_request(&input);
    assert_eq!(out, b"HTTP/1.1 400 Bad Request\r\n\r\n".to_vec());
}

#[test]
fn short_request_line_yields_bad_request() {
    let input = req(&["GET /", "Host: x", "User-Agent: y"]);
    let out = handle_request(&input);
    assert_eq!(out, b"HTTP/1.1 400 Bad Request\r\n\r\n".to_vec());
}

#[test]
fn missing_header_separator_yields_bad_request() {
    let input = req(&["GET / HTTP/1.1", "Host:x", "User-Agent: y"]);
    let out = handle_request(&input);
    assert_eq!(out, b"HTTP/1.1 400 Bad Request\r\n\r\n".to_vec());
}

#[test]
fn invalid_utf8_yields_bad_request() {
    let mut input = req(&["GET / HTTP/1.1", "Host: x", "User-Agent: y"]);
    input.push(0xff);
    let out = handle_request(&input);
    assert_eq!(out, b"HTTP/1.1 400 Bad Request\r\n\r\n".to_vec());
}

#[test]
fn zero_padded_buffer_still_parses() {
    let mut buffer = vec![0u8; 1024];
    let head = req(&["GET /echo/hi HTTP/1.1", "Host: x", "User-Agent: y", "", ""]);
    buffer[..head.len()].copy_from_slice(&head);
    let out = handle_request(&buffer);
    assert_eq!(
        out,
        b"HTTP/1.1 200 OK\r\nContent-Type: text/plain\r\nContent-Length: 3\r\n\r\n/hi".to_vec()
    );
}

#[test]
fn empty_user_agent_value_passes_through() {
    let input = req(&["GET /user-agent HTTP/1.1", "Host: x", "User-Agent: "]);
    let out = handle_request(&input);
    assert_eq!(
        out,
        b"HTTP/1.1 200 OK\r\nContent-Type: text/plain\r\nContent-Length: 0\r\n\r\n".to_vec()
    );
}

#[test]
fn bare_echo_prefix_yields_empty_body() {
    let input = req(&["GET /echo HTTP/1.1", "Host: x", "User-Agent: y"]);
    let out = handle_request(&input);
    assert_eq!(
        out,
        b"HTTP/1.1 200 OK\r\nContent-Type: text/plain\r\nContent-Length: 0\r\n\r\n".to_vec()
    );
}

#[test]
fn echo_prefix_match_needs_no_slash() {
    let input = req(&["GET /echoes HTTP/1.1", "Host: x", "User-Agent: y"]);
    let out = handle_request(&input);
    assert_eq!(
        out,
        b"HTTP/1.1 200 OK\r\nContent-Type: text/plain\r\nContent-Length: 2\r\n\r\nes".to_vec()
    );
}

#[test]
fn extra_lines_beyond_the_third_are_ignored() {
    let input = req(&["GET / HTTP/1.1", "Host: x", "User-Agent: y", "Accept: z", "", ""]);
    let out = handle_request(&input);
    assert_eq!(out, b"HTTP/1.1 200 OK \r\n\r\n".to_vec());
}

#[test]
fn parse_request_extracts_five_fields() {
    let input = req(&["GET /a?q=1 HTTP/1.1", "Host: example.com", "User-Agent: curl/8.0"]);
    let d = parse_request(&input).unwrap();
    assert_eq!(d.method, b"GET".to_vec());
    assert_eq!(d.path, b"/a?q=1".to_vec());
    assert_eq!(d.http_version, b"HTTP/1.1".to_vec());
    assert_eq!(d.host, b"example.com".to_vec());
    assert_eq!(d.user_agent, b"curl/8.0".to_vec());
}

#[test]
fn header_value_stops_at_second_separator() {
    let input = req(&["GET / HTTP/1.1", "Host: a: b", "User-Agent: y"]);
    let d = parse_request(&input).unwrap();
    assert_eq!(d.host, b"a".to_vec());
}

#[test]
fn non_ascii_whitespace_separates_tokens() {
    let mut input = "GET\u{00a0}/ HTTP/1.1".as_bytes().to_vec();
    input.extend_from_slice(b"\r\nHost: x\r\nUser-Agent: y");
    let out = handle_request(&input);
    assert_eq!(out, b"HTTP/1.1 200 OK \r\n\r\n".to_vec());
}

#[test]
fn format_response_renders_exact_bytes() {
    let out = format_response(201, b"Created", b"text/html", b"hi");
    assert_eq!(
        out,
        b"HTTP/1.1 201 Created\r\nContent-Type: text/html\r\nContent-Length: 2\r\n\r\nhi".to_vec()
    );
}

#[test]
fn generate_response_routes_root_before_prefixes() {
    let d = parse_request(&req(&["GET / HTTP/1.1", "Host: x", "User-Agent: y"])).unwrap();
    assert_eq!(generate_response(d), b"HTTP/1.1 200 OK \r\n\r\n".to_vec());
}

#[test]
fn lone_carriage_return_stays_in_line() {
    let input = b"GET / HTTP/1.1\rHost: x\r\nUser-Agent: y".to_vec();
    let out = handle_request(&input);
    assert_eq!(out, b"HTTP/1.1 400 Bad Request\r\n\r\n".to_vec());
}
