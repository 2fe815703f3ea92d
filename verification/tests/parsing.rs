//! Tests for the request parser and the header-block utilities.

use rustywebserver::headers::{parse_header_line, parse_headers};
use rustywebserver::request::{extract_query_string, parse_request};

#[test]
fn parse_full_request() {
    let raw = b"GET /index.html?a=1&b=2 HTTP/1.1\r\nHost: localhost\r\nAccept: */*\r\n\r\nBODY";
    let req = parse_request(raw);
    assert_eq!(req.method, b"GET".to_vec());
    assert_eq!(req.path, b"/index.html".to_vec());
    assert_eq!(req.query, Some(b"a=1&b=2".to_vec()));
    assert_eq!(req.headers.len(), 2);
    assert_eq!(req.headers[0].0, b"Host".to_vec());
    assert_eq!(req.headers[0].1, b"localhost".to_vec());
    assert_eq!(req.headers[1].0, b"Accept".to_vec());
    assert_eq!(req.headers[1].1, b"*/*".to_vec());
    assert_eq!(req.body, b"BODY".to_vec());
}

#[test]
fn parse_request_without_query() {
    let raw = b"POST /scripts/run.sh HTTP/1.1\r\n\r\ndata=1";
    let req = parse_request(raw);
    assert_eq!(req.method, b"POST".to_vec());
    assert_eq!(req.path, b"/scripts/run.sh".to_vec());
    assert_eq!(req.query, None);
    assert_eq!(req.headers.len(), 0);
    assert_eq!(req.body, b"data=1".to_vec());
}

#[test]
fn parse_empty_request() {
    let req = parse_request(b"");
    assert_eq!(req.method, b"".to_vec());
    assert_eq!(req.path, b"".to_vec());
    assert_eq!(req.query, None);
    assert_eq!(req.headers.len(), 0);
    assert_eq!(req.body, b"".to_vec());
}

#[test]
fn parse_request_line_with_one_token() {
    // Fewer than two whitespace-separated tokens: the path comes out empty.
    let req = parse_request(b"GET\r\n\r\n");
    assert_eq!(req.method, b"GET".to_vec());
    assert_eq!(req.path, b"".to_vec());
    assert_eq!(req.query, None);
}

#[test]
fn parse_request_body_is_raw_bytes() {
    // The body keeps its bytes exactly, line endings included.
    let raw = b"POST /x HTTP/1.1\r\n\r\nline1\r\nline2\n";
    let req = parse_request(raw);
    assert_eq!(req.body, b"line1\r\nline2\n".to_vec());
}

#[test]
fn parse_request_without_body_separator() {
    // No empty line: everything after the request line is headers, no body.
    let raw = b"GET / HTTP/1.1\r\nHost: a\r\nX: y";
    let req = parse_request(raw);
    assert_eq!(req.headers.len(), 2);
    assert_eq!(req.headers[1].0, b"X".to_vec());
    assert_eq!(req.headers[1].1, b"y".to_vec());
    assert_eq!(req.body, b"".to_vec());
}

#[test]
fn header_line_splits_on_first_colon() {
    let r = parse_header_line(b"Content-Type: text/html; a=b").unwrap();
    assert_eq!(r.0, b"Content-Type".to_vec());
    assert_eq!(r.1, b"text/html; a=b".to_vec());

    let r = parse_header_line(b"  Key  :  value with spaces  ").unwrap();
    assert_eq!(r.0, b"Key".to_vec());
    assert_eq!(r.1, b"value with spaces".to_vec());

    let r = parse_header_line(b"Host:");
    let r = r.unwrap();
    assert_eq!(r.0, b"Host".to_vec());
    assert_eq!(r.1, b"".to_vec());

    assert!(parse_header_line(b"no colon here").is_none());
}

#[test]
fn parse_headers_finds_body_start() {
    let (hs, idx) = parse_headers(b"A: 1\r\nB: 2\r\n\r\nbody line");
    assert_eq!(hs.len(), 2);
    assert_eq!(hs[0].0, b"A".to_vec());
    assert_eq!(hs[0].1, b"1".to_vec());
    assert_eq!(hs[1].0, b"B".to_vec());
    assert_eq!(hs[1].1, b"2".to_vec());
    assert_eq!(idx, 3);
}

#[test]
fn parse_headers_without_blank_line() {
    // No empty line: index 0 says the whole text is the body.
    let (hs, idx) = parse_headers(b"A: 1\r\nB: 2");
    assert_eq!(hs.len(), 2);
    assert_eq!(idx, 0);
}

#[test]
fn parse_headers_skips_lines_without_colon() {
    let (hs, idx) = parse_headers(b"garbage\r\nA: 1\r\n\r\nrest");
    assert_eq!(hs.len(), 1);
    assert_eq!(hs[0].0, b"A".to_vec());
    assert_eq!(idx, 3);
}

#[test]
fn query_string_extraction() {
    let q = extract_query_string(b"GET /p?x=1&y=2 HTTP/1.1\r\n\r\n");
    assert_eq!(q, Some(b"x=1&y=2".to_vec()));

    let q = extract_query_string(b"GET /p HTTP/1.1\r\n\r\n");
    assert_eq!(q, None);

    // A `?` outside the path token is not a query.
    let q = extract_query_string(b"GET /p HTTP/1.1?\r\n\r\n");
    assert_eq!(q, None);
}
