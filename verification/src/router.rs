//! Routing: classifying a request into forbidden, script invocation,
//! static file, not found, or method not allowed — before any I/O happens.
//!
//! The router itself is pure. The two filesystem facts it needs — whether
//! the resolved path is a regular executable file under `scripts/`, and
//! whether it is a regular file at all — are passed in as booleans by the
//! caller, which probes the disk.

use vstd::prelude::*;
use vstd::string::StringSliceAdditionalSpecFns;

use crate::response::{
    error_response, spec_error_response, HttpResponse, SpecResponse, StatusCode,
};
use crate::text::{starts_with, starts_with_bytes};

verus! {

broadcast use crate::text::lemma_bytes_deep_view;

/// How a request is to be handled, decided from method, path, and the
/// filesystem facts alone.
pub enum Route {
    /// The raw path starts with `/..` or `/forbidden`.
    Forbidden,
    /// The path lies under `/scripts/` and names an executable regular
    /// file: run it. The field is the path relative to the root directory.
    ScriptInvocation { script_path: Vec<u8> },
    /// The path names an existing regular file: serve it. The field is the
    /// path relative to the root directory.
    StaticFile { file_path: Vec<u8> },
    /// Nothing exists to serve.
    NotFound,
    /// The method is neither GET nor POST.
    MethodNotAllowed,
}

/// The mathematical image of a `Route`.
pub enum SpecRoute {
    Forbidden,
    ScriptInvocation { script_path: Seq<u8> },
    StaticFile { file_path: Seq<u8> },
    NotFound,
    MethodNotAllowed,
}

impl View for Route {
    type V = SpecRoute;

    open spec fn view(&self) -> SpecRoute {
        match self {
            Route::Forbidden => SpecRoute::Forbidden,
            Route::ScriptInvocation { script_path } => SpecRoute::ScriptInvocation {
                script_path: script_path@,
            },
            Route::StaticFile { file_path } => SpecRoute::StaticFile { file_path: file_path@ },
            Route::NotFound => SpecRoute::NotFound,
            Route::MethodNotAllowed => SpecRoute::MethodNotAllowed,
        }
    }
}

/// A path the server refuses outright: one that begins with `/..` or
/// `/forbidden`, checked on the raw path before any filesystem access.
pub open spec fn is_forbidden_path(p: Seq<u8>) -> bool {
    starts_with(p, "/..".spec_bytes()) || starts_with(p, "/forbidden".spec_bytes())
}

/// The methods the server accepts at all.
pub open spec fn is_allowed_method(m: Seq<u8>) -> bool {
    m == "GET".spec_bytes() || m == "POST".spec_bytes()
}

/// A path under the scripts directory.
pub open spec fn is_script_path(p: Seq<u8>) -> bool {
    starts_with(p, "/scripts/".spec_bytes())
}

/// The requested path relative to the root directory: the raw path with
/// one leading `/` removed.
pub open spec fn spec_relative_path(p: Seq<u8>) -> Seq<u8> {
    if p.len() > 0 && p[0] == 47 {  // '/'
        p.drop_first()
    } else {
        p
    }
}

/// The routing rule. `script_ok` must say whether the relative path names
/// a regular, executable file under the root; `file_ok` whether it names a
/// regular file at all. Forbidden paths are rejected before anything else,
/// then disallowed methods, then scripts, then static files.
pub open spec fn spec_route(method: Seq<u8>, path: Seq<u8>, script_ok: bool, file_ok: bool) -> SpecRoute {
    if is_forbidden_path(path) {
        SpecRoute::Forbidden
    } else if !is_allowed_method(method) {
        SpecRoute::MethodNotAllowed
    } else if is_script_path(path) {
        if script_ok {
            SpecRoute::ScriptInvocation { script_path: spec_relative_path(path) }
        } else {
            SpecRoute::NotFound
        }
    } else if file_ok {
        SpecRoute::StaticFile { file_path: spec_relative_path(path) }
    } else {
        SpecRoute::NotFound
    }
}

/// The requested path relative to the root directory.
pub fn relative_path(p: &[u8]) -> (r: Vec<u8>)
    ensures
        r@ == spec_relative_path(p@),
{
    if p.len() > 0 && p[0] == 47 {
        crate::text::subvec(p, 1, p.len())
    } else {
        crate::text::subvec(p, 0, p.len())
    }
}

/// Classifies a request. `script_ok` must hold exactly when the relative
/// path names a regular, executable file under the root; `file_ok` exactly
/// when it names a regular file. Neither is consulted for forbidden paths
/// or disallowed methods.
pub fn route_request(method: &[u8], path: &[u8], script_ok: bool, file_ok: bool) -> (r: Route)
    ensures
        r@ == spec_route(method@, path@, script_ok, file_ok),
{
    if starts_with_bytes(path, "/..".as_bytes()) || starts_with_bytes(
        path,
        "/forbidden".as_bytes(),
    ) {
        Route::Forbidden
    } else if !(crate::text::bytes_eq(method, "GET".as_bytes()) || crate::text::bytes_eq(
        method,
        "POST".as_bytes(),
    )) {
        Route::MethodNotAllowed
    } else if starts_with_bytes(path, "/scripts/".as_bytes()) {
        if script_ok {
            Route::ScriptInvocation { script_path: relative_path(path) }
        } else {
            Route::NotFound
        }
    } else if file_ok {
        Route::StaticFile { file_path: relative_path(path) }
    } else {
        Route::NotFound
    }
}

/// Containment of a canonicalized path under a canonicalized root: the
/// resolved path is the root itself, or extends it past a `/`. The prefix
/// rule on the raw path catches only literal `/..` openings; the caller
/// resolves the joined path on disk and holds the result against this
/// before serving anything.
pub open spec fn spec_under_root(root: Seq<u8>, resolved: Seq<u8>) -> bool {
    resolved == root || ({
        let prefix = if root.len() > 0 && root[root.len() - 1] == 47 {  // '/'
            root
        } else {
            root + seq![47u8]
        };
        starts_with(resolved, prefix)
    })
}

/// True exactly when the canonicalized `resolved` path lies under the
/// canonicalized `root`: it equals the root, or continues it past a path
/// separator. Both arguments must already be canonical (no `.` or `..`
/// segments); resolving them is the caller's task.
pub fn resolved_under_root(root: &[u8], resolved: &[u8]) -> (r: bool)
    ensures
        r == spec_under_root(root@, resolved@),
{
    if crate::text::bytes_eq(resolved, root) {
        return true;
    }
    if root.len() > 0 && root[root.len() - 1] == 47 {
        starts_with_bytes(resolved, root)
    } else {
        let mut prefix = vstd::slice::slice_to_vec(root);
        prefix.push(47);
        assert(prefix@ =~= root@ + seq![47u8]);
        starts_with_bytes(resolved, prefix.as_slice())
    }
}

/// What the connection handler must do next: answer at once, read a file
/// and answer with its contents, or run a script and answer from its
/// output.
pub enum Action {
    /// Write this response; no further work.
    Respond(HttpResponse),
    /// Read the file at this root-relative path; serve its bytes, or
    /// answer 500 if the read fails after the existence check.
    ReadFile { file_path: Vec<u8> },
    /// Run the script at this root-relative path and translate its output.
    RunScript { script_path: Vec<u8> },
}

/// The mathematical image of an `Action`.
pub enum SpecAction {
    Respond(SpecResponse),
    ReadFile { file_path: Seq<u8> },
    RunScript { script_path: Seq<u8> },
}

impl View for Action {
    type V = SpecAction;

    open spec fn view(&self) -> SpecAction {
        match self {
            Action::Respond(resp) => SpecAction::Respond(resp@),
            Action::ReadFile { file_path } => SpecAction::ReadFile { file_path: file_path@ },
            Action::RunScript { script_path } => SpecAction::RunScript {
                script_path: script_path@,
            },
        }
    }
}

/// The action for each route: errors are answered at once with the fixed
/// body for their status; scripts and files hand back the relative path to
/// act on.
pub open spec fn spec_dispatch(method: Seq<u8>, path: Seq<u8>, script_ok: bool, file_ok: bool) -> SpecAction {
    match spec_route(method, path, script_ok, file_ok) {
        SpecRoute::Forbidden => SpecAction::Respond(spec_error_response(StatusCode::Forbidden)),
        SpecRoute::MethodNotAllowed => SpecAction::Respond(
            spec_error_response(StatusCode::MethodNotAllowed),
        ),
        SpecRoute::NotFound => SpecAction::Respond(spec_error_response(StatusCode::NotFound)),
        SpecRoute::ScriptInvocation { script_path } => SpecAction::RunScript { script_path },
        SpecRoute::StaticFile { file_path } => SpecAction::ReadFile { file_path },
    }
}

/// Routes the request and turns the route into the next action: a 403,
/// 404 or 405 response with its fixed body, or the file or script to act
/// on. The booleans are as for `route_request`.
pub fn dispatch(method: &[u8], path: &[u8], script_ok: bool, file_ok: bool) -> (r: Action)
    ensures
        r@ == spec_dispatch(method@, path@, script_ok, file_ok),
{
    match route_request(method, path, script_ok, file_ok) {
        Route::Forbidden => Action::Respond(error_response(StatusCode::Forbidden)),
        Route::MethodNotAllowed => Action::Respond(error_response(StatusCode::MethodNotAllowed)),
        Route::NotFound => Action::Respond(error_response(StatusCode::NotFound)),
        Route::ScriptInvocation { script_path } => Action::RunScript { script_path },
        Route::StaticFile { file_path } => Action::ReadFile { file_path },
    }
}

/// A request whose path begins with `/..` or `/forbidden` is answered 403
/// with the fixed forbidden body, whatever the method and whatever the
/// filesystem holds.
pub proof fn lemma_forbidden_always_403(
    method: Seq<u8>,
    path: Seq<u8>,
    script_ok: bool,
    file_ok: bool,
)
    requires
        is_forbidden_path(path),
    ensures
        spec_dispatch(method, path, script_ok, file_ok) == SpecAction::Respond(
            spec_error_response(StatusCode::Forbidden),
        ),
        status_of_dispatch(method, path, script_ok, file_ok) == Some(StatusCode::Forbidden),
{
}

/// A request with a method other than GET or POST is answered 405 with the
/// fixed body, whatever the path — except a forbidden path, which is
/// answered 403 first.
pub proof fn lemma_other_method_always_405(
    method: Seq<u8>,
    path: Seq<u8>,
    script_ok: bool,
    file_ok: bool,
)
    requires
        !is_allowed_method(method),
        !is_forbidden_path(path),
    ensures
        spec_dispatch(method, path, script_ok, file_ok) == SpecAction::Respond(
            spec_error_response(StatusCode::MethodNotAllowed),
        ),
        status_of_dispatch(method, path, script_ok, file_ok) == Some(
            StatusCode::MethodNotAllowed,
        ),
{
}

/// A GET for a path where nothing exists — no regular file, no script — is
/// answered 404 with the fixed not-found body, unless the path is
/// forbidden.
pub proof fn lemma_missing_file_404(path: Seq<u8>)
    requires
        !is_forbidden_path(path),
    ensures
        spec_dispatch("GET".spec_bytes(), path, false, false) == SpecAction::Respond(
            spec_error_response(StatusCode::NotFound),
        ),
        status_of_dispatch("GET".spec_bytes(), path, false, false) == Some(StatusCode::NotFound),
{
}

/// The status a dispatch settles immediately, before any I/O: `None` for
/// the file and script routes, whose status still depends on the disk or
/// the child process.
pub open spec fn status_of_dispatch(
    method: Seq<u8>,
    path: Seq<u8>,
    script_ok: bool,
    file_ok: bool,
) -> Option<StatusCode> {
    match spec_dispatch(method, path, script_ok, file_ok) {
        SpecAction::Respond(resp) => Some(resp.status),
        SpecAction::ReadFile { .. } => None,
        SpecAction::RunScript { .. } => None,
    }
}

/// A GET for an existing regular file outside `/scripts/` on an allowed
/// path is served statically: the dispatch reads that very file, and the
/// response built from whatever bytes the read yields is a 200 whose
/// Content-Length is their exact count and whose body is those bytes
/// unchanged.
pub proof fn lemma_existing_file_served_verbatim(
    path: Seq<u8>,
    script_ok: bool,
    contents: Seq<u8>,
)
    requires
        !is_forbidden_path(path),
        !is_script_path(path),
    ensures
        spec_dispatch("GET".spec_bytes(), path, script_ok, true) == (SpecAction::ReadFile {
            file_path: spec_relative_path(path),
        }),
        crate::response::spec_static_response(path, contents).status == StatusCode::Okay,
        crate::response::spec_static_response(path, contents).content_length == Some(
            crate::text::dec_digits(contents.len()),
        ),
        crate::response::spec_static_response(path, contents).body == contents,
{
    assert(is_allowed_method("GET".spec_bytes()));
}

} // verus!
