//! Tests for the CGI side: the script environment and the translation of
//! script output into responses.

use rustywebserver::cgi::{cgi_env, script_response};
use rustywebserver::response::StatusCode;

#[test]
fn env_carries_method_path_and_query() {
    let env = cgi_env(b"GET", b"/scripts/echo", Some(b"a=1&b=2"));
    assert_eq!(env.len(), 4);
    assert_eq!(env[0], (b"Query_a".to_vec(), b"1".to_vec()));
    assert_eq!(env[1], (b"Query_b".to_vec(), b"2".to_vec()));
    assert_eq!(env[2], (b"Method".to_vec(), b"GET".to_vec()));
    assert_eq!(env[3], (b"Path".to_vec(), b"/scripts/echo".to_vec()));
}

#[test]
fn env_without_query() {
    let env = cgi_env(b"POST", b"/scripts/run", None);
    assert_eq!(env.len(), 2);
    assert_eq!(env[0], (b"Method".to_vec(), b"POST".to_vec()));
    assert_eq!(env[1], (b"Path".to_vec(), b"/scripts/run".to_vec()));
}

#[test]
fn env_degrades_malformed_pairs_to_empty_values() {
    let env = cgi_env(b"GET", b"/s", Some(b"plain&k=v=w&=x&"));
    // "plain" has no value; "k=v=w" keeps only the part between the first
    // and second `=`; "=x" has an empty key; the trailing "&" adds an
    // empty pair.
    assert_eq!(env[0], (b"Query_plain".to_vec(), b"".to_vec()));
    assert_eq!(env[1], (b"Query_k".to_vec(), b"v".to_vec()));
    assert_eq!(env[2], (b"Query_".to_vec(), b"x".to_vec()));
    assert_eq!(env[3], (b"Query_".to_vec(), b"".to_vec()));
    assert_eq!(env[4], (b"Method".to_vec(), b"GET".to_vec()));
}

#[test]
fn script_output_with_header_block() {
    // A script that announces its own Content-Type.
    let r = script_response(true, b"Content-Type: text/plain\r\n\r\nOK", Vec::new());
    assert_eq!(r.status, StatusCode::Okay);
    assert_eq!(r.content_type, Some(b"text/plain".to_vec()));
    assert_eq!(r.content_length, Some(b"2".to_vec()));
    assert_eq!(r.body, b"OK".to_vec());
}

#[test]
fn script_output_without_header_block() {
    // A script unaware of the header protocol: its whole output is the
    // body, with defaulted headers.
    let r = script_response(true, b"OK", Vec::new());
    assert_eq!(r.status, StatusCode::Okay);
    assert_eq!(r.content_type, Some(b"text/plain".to_vec()));
    assert_eq!(r.content_length, Some(b"2".to_vec()));
    assert_eq!(r.body, b"OK".to_vec());
}

#[test]
fn script_execution_output_served() {
    // A hello script that prints one line.
    let r = script_response(true, b"hi\n", Vec::new());
    assert_eq!(r.status, StatusCode::Okay);
    assert_eq!(r.body, b"hi".to_vec());
    assert_eq!(r.content_type, Some(b"text/plain".to_vec()));
}

#[test]
fn failing_script_returns_500_with_stderr() {
    let r = script_response(false, b"partial out", b"boom".to_vec());
    assert_eq!(r.status, StatusCode::InternalServerError);
    assert_eq!(r.content_type, None);
    assert_eq!(r.content_length, None);
    assert_eq!(r.body, b"boom".to_vec());
}

#[test]
fn script_content_length_header_is_kept_verbatim() {
    let out = b"Content-Length: 99\r\nContent-Type: text/html\r\n\r\nxyz";
    let r = script_response(true, out, Vec::new());
    assert_eq!(r.content_type, Some(b"text/html".to_vec()));
    assert_eq!(r.content_length, Some(b"99".to_vec()));
    assert_eq!(r.body, b"xyz".to_vec());
}

#[test]
fn script_multiline_body_rejoined_with_newlines() {
    let out = b"Content-Type: text/plain\r\n\r\nline1\r\nline2\r\nline3";
    let r = script_response(true, out, Vec::new());
    assert_eq!(r.body, b"line1\nline2\nline3".to_vec());
    assert_eq!(r.content_length, Some(b"17".to_vec()));
}

#[test]
fn script_headers_ignored_without_blank_line() {
    // A header-looking line with no blank line after it is body, and the
    // defaults apply.
    let out = b"Content-Type: text/html";
    let r = script_response(true, out, Vec::new());
    assert_eq!(r.content_type, Some(b"text/plain".to_vec()));
    assert_eq!(r.body, b"Content-Type: text/html".to_vec());
}

#[test]
fn script_empty_output() {
    let r = script_response(true, b"", Vec::new());
    assert_eq!(r.status, StatusCode::Okay);
    assert_eq!(r.body, b"".to_vec());
    assert_eq!(r.content_type, Some(b"text/plain".to_vec()));
    assert_eq!(r.content_length, Some(b"0".to_vec()));
}
