//! Tests for the MIME table, static responses and the serializer.

use rustywebserver::mime::determine_content_type;
use rustywebserver::response::{
    error_response, serialize_response, static_response, StatusCode,
};

#[test]
fn mime_table_values() {
    assert_eq!(determine_content_type(b"a.txt"), b"text/plain; charset=utf-8");
    assert_eq!(determine_content_type(b"dir/a.html"), b"text/html; charset=utf-8");
    assert_eq!(determine_content_type(b"a.css"), b"text/css; charset=utf-8");
    assert_eq!(determine_content_type(b"a.js"), b"text/javascript; charset=utf-8");
    assert_eq!(determine_content_type(b"a.jpg"), b"image/jpeg");
    assert_eq!(determine_content_type(b"a.jpeg"), b"image/jpeg");
    assert_eq!(determine_content_type(b"a.png"), b"image/png");
    assert_eq!(determine_content_type(b"a.zip"), b"application/zip");
    assert_eq!(determine_content_type(b"a.unknown"), b"application/octet-stream");
    assert_eq!(determine_content_type(b"noext"), b"application/octet-stream");
}

#[test]
fn mime_edge_cases() {
    // A leading dot is a hidden file, not an extension.
    assert_eq!(determine_content_type(b".bashrc"), b"application/octet-stream");
    // Only the final path component counts.
    assert_eq!(determine_content_type(b"dir.zip/file"), b"application/octet-stream");
    assert_eq!(determine_content_type(b"a.tar.zip"), b"application/zip");
    // A trailing dot gives an empty extension, which is unknown.
    assert_eq!(determine_content_type(b"file."), b"application/octet-stream");
}

#[test]
fn mime_is_deterministic() {
    // The same extension always yields the same Content-Type, whatever the
    // rest of the path looks like.
    let paths: [&[u8]; 3] = [b"a.html", b"some/deep/dir/b.html", b"/c.html"];
    let expected = determine_content_type(b"x.html");
    for p in paths {
        assert_eq!(determine_content_type(p), expected);
    }
}

#[test]
fn static_response_is_verbatim() {
    let contents = b"<html><body>Hi</body></html>".to_vec();
    let r = static_response(b"index.html", contents.clone());
    assert_eq!(r.status, StatusCode::Okay);
    assert_eq!(r.content_type, Some(b"text/html; charset=utf-8".to_vec()));
    assert_eq!(r.content_length, Some(b"28".to_vec()));
    assert_eq!(r.body, contents);
}

#[test]
fn serialized_static_response() {
    let contents = b"<html><body>Hi</body></html>".to_vec();
    let r = static_response(b"index.html", contents);
    let wire = serialize_response(&r);
    let expected = b"HTTP/1.1 200 OK\r\nContent-Type: text/html; charset=utf-8\r\nContent-Length: 28\r\nConnection: close\r\n\r\n<html><body>Hi</body></html>";
    assert_eq!(wire, expected.to_vec());
}

#[test]
fn serialized_error_response() {
    let r = error_response(StatusCode::NotFound);
    let wire = serialize_response(&r);
    let expected = b"HTTP/1.1 404 Not Found\r\nConnection: close\r\n\r\n<html>404 Not Found</html>";
    assert_eq!(wire, expected.to_vec());

    let r = error_response(StatusCode::MethodNotAllowed);
    let wire = serialize_response(&r);
    let expected =
        b"HTTP/1.1 405 Method Not Allowed\r\nConnection: close\r\n\r\n<html>405 Method Not Allowed</html>";
    assert_eq!(wire, expected.to_vec());

    let r = error_response(StatusCode::Forbidden);
    let wire = serialize_response(&r);
    let expected = b"HTTP/1.1 403 Forbidden\r\nConnection: close\r\n\r\n<html>403 Forbidden</html>";
    assert_eq!(wire, expected.to_vec());

    let r = error_response(StatusCode::InternalServerError);
    let wire = serialize_response(&r);
    let expected = b"HTTP/1.1 500 Internal Server Error\r\nConnection: close\r\n\r\n<html>500 Internal Server Error</html>";
    assert_eq!(wire, expected.to_vec());
}

#[test]
fn content_length_counts_bytes_exactly() {
    let r = static_response(b"f.bin", vec![0u8; 1024]);
    assert_eq!(r.content_length, Some(b"1024".to_vec()));
    let r = static_response(b"f.bin", Vec::new());
    assert_eq!(r.content_length, Some(b"0".to_vec()));
}
