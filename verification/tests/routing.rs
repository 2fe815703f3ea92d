//! Tests for the router: forbidden paths, method filtering, scripts,
//! static files, and the immediate error responses of `dispatch`.

use rustywebserver::response::StatusCode;
use rustywebserver::router::{
    dispatch, relative_path, resolved_under_root, route_request, Action, Route,
};

fn expect_status(a: Action, code: StatusCode, body: &[u8]) {
    match a {
        Action::Respond(resp) => {
            assert_eq!(resp.status, code);
            assert_eq!(resp.content_type, None);
            assert_eq!(resp.content_length, None);
            assert_eq!(resp.body, body.to_vec());
        },
        _ => panic!("expected an immediate response"),
    }
}

#[test]
fn forbidden_prefix_wins_over_everything() {
    // Whatever the method and whatever the filesystem says, these are 403.
    for &(script_ok, file_ok) in &[(false, false), (false, true), (true, false), (true, true)] {
        for method in [&b"GET"[..], b"POST", b"PUT", b"DELETE", b""] {
            let a = dispatch(method, b"/forbidden.html", script_ok, file_ok);
            expect_status(a, StatusCode::Forbidden, b"<html>403 Forbidden</html>");
            let a = dispatch(method, b"/../etc/passwd", script_ok, file_ok);
            expect_status(a, StatusCode::Forbidden, b"<html>403 Forbidden</html>");
        }
    }
}

#[test]
fn forbidden_file_still_403_when_it_exists() {
    // The file exists and is readable; the path prefix alone forbids it.
    let a = dispatch(b"GET", b"/forbidden.html", false, true);
    expect_status(a, StatusCode::Forbidden, b"<html>403 Forbidden</html>");
}

#[test]
fn other_methods_are_405() {
    for method in [&b"PUT"[..], b"DELETE", b"HEAD", b"OPTIONS", b"get", b""] {
        let a = dispatch(method, b"/index.html", false, true);
        expect_status(a, StatusCode::MethodNotAllowed, b"<html>405 Method Not Allowed</html>");
    }
}

#[test]
fn missing_file_is_404() {
    let a = dispatch(b"GET", b"/missing.txt", false, false);
    expect_status(a, StatusCode::NotFound, b"<html>404 Not Found</html>");
    let a = dispatch(b"POST", b"/missing.txt", false, false);
    expect_status(a, StatusCode::NotFound, b"<html>404 Not Found</html>");
}

#[test]
fn missing_script_is_404() {
    let a = dispatch(b"GET", b"/scripts/none.sh", false, false);
    expect_status(a, StatusCode::NotFound, b"<html>404 Not Found</html>");
}

#[test]
fn existing_file_is_read() {
    match dispatch(b"GET", b"/index.html", false, true) {
        Action::ReadFile { file_path } => assert_eq!(file_path, b"index.html".to_vec()),
        _ => panic!("expected a file read"),
    }
}

#[test]
fn existing_script_is_run() {
    match dispatch(b"GET", b"/scripts/hello.sh", true, false) {
        Action::RunScript { script_path } => {
            assert_eq!(script_path, b"scripts/hello.sh".to_vec())
        },
        _ => panic!("expected a script run"),
    }
    match dispatch(b"POST", b"/scripts/hello.sh", true, true) {
        Action::RunScript { script_path } => {
            assert_eq!(script_path, b"scripts/hello.sh".to_vec())
        },
        _ => panic!("expected a script run"),
    }
}

#[test]
fn route_request_matches_dispatch() {
    assert!(matches!(route_request(b"GET", b"/forbidden", true, true), Route::Forbidden));
    assert!(matches!(route_request(b"PUT", b"/x", true, true), Route::MethodNotAllowed));
    assert!(matches!(route_request(b"GET", b"/scripts/a", false, true), Route::NotFound));
    assert!(matches!(route_request(b"GET", b"/a", false, false), Route::NotFound));
    match route_request(b"GET", b"/a.txt", false, true) {
        Route::StaticFile { file_path } => assert_eq!(file_path, b"a.txt".to_vec()),
        _ => panic!("expected a static file route"),
    }
}

#[test]
fn containment_of_resolved_paths() {
    assert!(resolved_under_root(b"/srv/www", b"/srv/www"));
    assert!(resolved_under_root(b"/srv/www", b"/srv/www/index.html"));
    assert!(resolved_under_root(b"/srv/www", b"/srv/www/scripts/a.sh"));
    assert!(!resolved_under_root(b"/srv/www", b"/srv/wwwother"));
    assert!(!resolved_under_root(b"/srv/www", b"/etc/passwd"));
    assert!(!resolved_under_root(b"/srv/www", b"/srv"));
    // A root that already ends in a slash.
    assert!(resolved_under_root(b"/", b"/srv"));
    assert!(resolved_under_root(b"/", b"/"));
}

#[test]
fn relative_path_strips_one_slash() {
    assert_eq!(relative_path(b"/index.html"), b"index.html".to_vec());
    assert_eq!(relative_path(b"index.html"), b"index.html".to_vec());
    assert_eq!(relative_path(b""), b"".to_vec());
    assert_eq!(relative_path(b"//x"), b"/x".to_vec());
}
