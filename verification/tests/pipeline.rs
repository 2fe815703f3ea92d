//! End-to-end runs of the pure pipeline: raw request bytes through the
//! parser, the router, a response builder, and the serializer — with the
//! filesystem and child process replaced by the plain facts and bytes the
//! surrounding program would supply.

use rustywebserver::cgi::{cgi_env, script_response};
use rustywebserver::request::parse_request;
use rustywebserver::response::{serialize_response, static_response, StatusCode};
use rustywebserver::router::{dispatch, Action};

#[test]
fn get_existing_file_end_to_end() {
    let raw = b"GET /index.html HTTP/1.1\r\nHost: localhost\r\n\r\n";
    let req = parse_request(raw);
    // index.html exists as a regular, non-executable file.
    match dispatch(&req.method, &req.path, false, true) {
        Action::ReadFile { file_path } => {
            assert_eq!(file_path, b"index.html".to_vec());
            let contents = b"<html><body>Hello, world!</body></html>".to_vec();
            let resp = static_response(&file_path, contents.clone());
            let wire = serialize_response(&resp);
            let expected = b"HTTP/1.1 200 OK\r\nContent-Type: text/html; charset=utf-8\r\nContent-Length: 39\r\nConnection: close\r\n\r\n<html><body>Hello, world!</body></html>";
            assert_eq!(wire, expected.to_vec());
        },
        _ => panic!("expected a file read"),
    }
}

#[test]
fn get_missing_file_end_to_end() {
    let raw = b"GET /nonexistent.html HTTP/1.1\r\n\r\n";
    let req = parse_request(raw);
    match dispatch(&req.method, &req.path, false, false) {
        Action::Respond(resp) => {
            assert_eq!(resp.status, StatusCode::NotFound);
            let wire = serialize_response(&resp);
            assert_eq!(
                wire,
                b"HTTP/1.1 404 Not Found\r\nConnection: close\r\n\r\n<html>404 Not Found</html>"
                    .to_vec()
            );
        },
        _ => panic!("expected an immediate response"),
    }
}

#[test]
fn get_forbidden_file_end_to_end() {
    let raw = b"GET /forbidden.html HTTP/1.1\r\n\r\n";
    let req = parse_request(raw);
    // The file exists; the prefix forbids it anyway.
    match dispatch(&req.method, &req.path, false, true) {
        Action::Respond(resp) => {
            assert_eq!(resp.status, StatusCode::Forbidden);
        },
        _ => panic!("expected an immediate response"),
    }
}

#[test]
fn script_invocation_end_to_end() {
    let raw = b"GET /scripts/test_script.sh?name=world HTTP/1.1\r\n\r\n";
    let req = parse_request(raw);
    match dispatch(&req.method, &req.path, true, true) {
        Action::RunScript { script_path } => {
            assert_eq!(script_path, b"scripts/test_script.sh".to_vec());
            let env = cgi_env(&req.method, &req.path, req.query.as_deref());
            assert_eq!(env[0], (b"Query_name".to_vec(), b"world".to_vec()));
            assert_eq!(env[1], (b"Method".to_vec(), b"GET".to_vec()));
            assert_eq!(env[2], (b"Path".to_vec(), b"/scripts/test_script.sh".to_vec()));
            // The script prints one line and exits 0.
            let resp = script_response(true, b"Script executed\n", Vec::new());
            assert_eq!(resp.status, StatusCode::Okay);
            assert_eq!(resp.body, b"Script executed".to_vec());
        },
        _ => panic!("expected a script run"),
    }
}

#[test]
fn post_body_reaches_the_script() {
    let raw = b"POST /scripts/sum.sh HTTP/1.1\r\nContent-Length: 14\r\n\r\nThis is a test";
    let req = parse_request(raw);
    assert_eq!(req.method, b"POST".to_vec());
    assert_eq!(req.body, b"This is a test".to_vec());
    match dispatch(&req.method, &req.path, true, true) {
        Action::RunScript { script_path } => {
            assert_eq!(script_path, b"scripts/sum.sh".to_vec());
        },
        _ => panic!("expected a script run"),
    }
}
