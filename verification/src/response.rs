//! HTTP responses: status codes, the response record, the fixed error
//! bodies, the static-file response, and serialization onto the wire.
//!
//! Every response carries `Connection: close`; the server answers one
//! request per connection.

use vstd::prelude::*;
use vstd::string::StringSliceAdditionalSpecFns;

use crate::mime::{determine_content_type, spec_content_type};
use crate::text::{dec_digits, dec_of_usize};

verus! {

broadcast use crate::text::lemma_bytes_deep_view;

/// The status codes this server emits.
#[derive(Clone, Copy, PartialEq, Eq, Structural, Debug)]
pub enum StatusCode {
    Okay,
    Forbidden,
    NotFound,
    MethodNotAllowed,
    InternalServerError,
}

/// The numeric value of a status code.
pub open spec fn status_number(s: StatusCode) -> int {
    match s {
        StatusCode::Okay => 200,
        StatusCode::Forbidden => 403,
        StatusCode::NotFound => 404,
        StatusCode::MethodNotAllowed => 405,
        StatusCode::InternalServerError => 500,
    }
}

/// The reason phrase of a status code.
pub open spec fn spec_reason(s: StatusCode) -> Seq<u8> {
    match s {
        StatusCode::Okay => "OK".spec_bytes(),
        StatusCode::Forbidden => "Forbidden".spec_bytes(),
        StatusCode::NotFound => "Not Found".spec_bytes(),
        StatusCode::MethodNotAllowed => "Method Not Allowed".spec_bytes(),
        StatusCode::InternalServerError => "Internal Server Error".spec_bytes(),
    }
}

/// The fixed HTML snippet sent as the body of a plain status response.
pub open spec fn spec_status_body(s: StatusCode) -> Seq<u8> {
    match s {
        StatusCode::Okay => "<html>200 OK</html>".spec_bytes(),
        StatusCode::Forbidden => "<html>403 Forbidden</html>".spec_bytes(),
        StatusCode::NotFound => "<html>404 Not Found</html>".spec_bytes(),
        StatusCode::MethodNotAllowed => "<html>405 Method Not Allowed</html>".spec_bytes(),
        StatusCode::InternalServerError => "<html>500 Internal Server Error</html>".spec_bytes(),
    }
}

/// A response about to be written: status, the two optional entity headers,
/// and the body. `Connection: close` is implied.
pub struct HttpResponse {
    pub status: StatusCode,
    pub content_type: Option<Vec<u8>>,
    pub content_length: Option<Vec<u8>>,
    pub body: Vec<u8>,
}

/// The mathematical image of an `HttpResponse`.
pub struct SpecResponse {
    pub status: StatusCode,
    pub content_type: Option<Seq<u8>>,
    pub content_length: Option<Seq<u8>>,
    pub body: Seq<u8>,
}

impl View for HttpResponse {
    type V = SpecResponse;

    open spec fn view(&self) -> SpecResponse {
        SpecResponse {
            status: self.status,
            content_type: self.content_type.deep_view(),
            content_length: self.content_length.deep_view(),
            body: self.body@,
        }
    }
}

/// The error (and bare status) response: the fixed HTML body for the code,
/// with no entity headers.
pub open spec fn spec_error_response(s: StatusCode) -> SpecResponse {
    SpecResponse {
        status: s,
        content_type: None,
        content_length: None,
        body: spec_status_body(s),
    }
}

/// The response for an existing static file: 200, the MIME type of the
/// path's extension, the exact byte length, and the file bytes unchanged.
pub open spec fn spec_static_response(path: Seq<u8>, contents: Seq<u8>) -> SpecResponse {
    SpecResponse {
        status: StatusCode::Okay,
        content_type: Some(spec_content_type(path)),
        content_length: Some(dec_digits(contents.len())),
        body: contents,
    }
}

/// The serialized status line: `HTTP/1.1 <code> <reason>\r\n`.
pub open spec fn spec_status_line(s: StatusCode) -> Seq<u8> {
    "HTTP/1.1 ".spec_bytes() + dec_digits(status_number(s) as nat) + " ".spec_bytes()
        + spec_reason(s) + "\r\n".spec_bytes()
}

/// The serialized headers, in fixed order: Content-Type and Content-Length
/// when present, then `Connection: close` and the empty line.
pub open spec fn spec_header_block(r: SpecResponse) -> Seq<u8> {
    (match r.content_type {
        Some(v) => "Content-Type: ".spec_bytes() + v + "\r\n".spec_bytes(),
        None => Seq::<u8>::empty(),
    }) + (match r.content_length {
        Some(v) => "Content-Length: ".spec_bytes() + v + "\r\n".spec_bytes(),
        None => Seq::<u8>::empty(),
    }) + "Connection: close\r\n\r\n".spec_bytes()
}

/// The full wire form: status line, headers, empty line, body bytes
/// unchanged.
pub open spec fn spec_serialize(r: SpecResponse) -> Seq<u8> {
    spec_status_line(r.status) + spec_header_block(r) + r.body
}

/// Serialization never touches the body: the wire form ends with the body
/// bytes exactly as the response holds them.
pub proof fn lemma_serialized_body_verbatim(r: SpecResponse)
    ensures
        spec_serialize(r).len() == spec_status_line(r.status).len() + spec_header_block(r).len()
            + r.body.len(),
        spec_serialize(r).subrange(
            spec_serialize(r).len() - r.body.len(),
            spec_serialize(r).len() as int,
        ) == r.body,
{
    assert(spec_serialize(r).subrange(
        spec_serialize(r).len() - r.body.len(),
        spec_serialize(r).len() as int,
    ) =~= r.body);
}

/// The numeric value of a status code.
pub fn status_code(s: StatusCode) -> (r: u16)
    ensures
        r as int == status_number(s),
{
    match s {
        StatusCode::Okay => 200,
        StatusCode::Forbidden => 403,
        StatusCode::NotFound => 404,
        StatusCode::MethodNotAllowed => 405,
        StatusCode::InternalServerError => 500,
    }
}

/// The reason phrase of a status code.
pub fn reason_phrase(s: StatusCode) -> (r: &'static [u8])
    ensures
        r@ == spec_reason(s),
{
    match s {
        StatusCode::Okay => "OK".as_bytes(),
        StatusCode::Forbidden => "Forbidden".as_bytes(),
        StatusCode::NotFound => "Not Found".as_bytes(),
        StatusCode::MethodNotAllowed => "Method Not Allowed".as_bytes(),
        StatusCode::InternalServerError => "Internal Server Error".as_bytes(),
    }
}

/// A response carrying only the fixed HTML body for its status code.
pub fn error_response(s: StatusCode) -> (r: HttpResponse)
    ensures
        r@ == spec_error_response(s),
{
    let body_lit: &[u8] = match s {
        StatusCode::Okay => "<html>200 OK</html>".as_bytes(),
        StatusCode::Forbidden => "<html>403 Forbidden</html>".as_bytes(),
        StatusCode::NotFound => "<html>404 Not Found</html>".as_bytes(),
        StatusCode::MethodNotAllowed => "<html>405 Method Not Allowed</html>".as_bytes(),
        StatusCode::InternalServerError => "<html>500 Internal Server Error</html>".as_bytes(),
    };
    HttpResponse {
        status: s,
        content_type: None,
        content_length: None,
        body: vstd::slice::slice_to_vec(body_lit),
    }
}

/// The 200 response for a static file: MIME type from the path's extension,
/// Content-Length the exact byte count, body the bytes verbatim.
pub fn static_response(path: &[u8], contents: Vec<u8>) -> (r: HttpResponse)
    ensures
        r@ == spec_static_response(path@, contents@),
{
    let ct = determine_content_type(path);
    let cl = dec_of_usize(contents.len());
    HttpResponse {
        status: StatusCode::Okay,
        content_type: Some(vstd::slice::slice_to_vec(ct)),
        content_length: Some(cl),
        body: contents,
    }
}

/// Serializes a response onto the wire: status line, headers in fixed
/// order, `Connection: close`, an empty line, then the body bytes.
pub fn serialize_response(r: &HttpResponse) -> (out: Vec<u8>)
    ensures
        out@ == spec_serialize(r@),
{
    let mut out: Vec<u8> = Vec::new();
    out.extend_from_slice("HTTP/1.1 ".as_bytes());
    let code = status_code(r.status);
    let digits = dec_of_usize(code as usize);
    out.extend_from_slice(digits.as_slice());
    out.extend_from_slice(" ".as_bytes());
    out.extend_from_slice(reason_phrase(r.status));
    out.extend_from_slice("\r\n".as_bytes());
    assert(out@ == spec_status_line(r.status));
    match &r.content_type {
        Some(v) => {
            out.extend_from_slice("Content-Type: ".as_bytes());
            out.extend_from_slice(v.as_slice());
            out.extend_from_slice("\r\n".as_bytes());
        },
        None => {},
    }
    match &r.content_length {
        Some(v) => {
            out.extend_from_slice("Content-Length: ".as_bytes());
            out.extend_from_slice(v.as_slice());
            out.extend_from_slice("\r\n".as_bytes());
        },
        None => {},
    }
    out.extend_from_slice("Connection: close\r\n\r\n".as_bytes());
    assert(out@ == spec_status_line(r.status) + spec_header_block(r@));
    out.extend_from_slice(r.body.as_slice());
    assert(out@ == spec_serialize(r@));
    out
}

} // verus!
