//! The fixed extension-to-MIME table used for static file responses.

use vstd::prelude::*;
use vstd::string::StringSliceAdditionalSpecFns;

use crate::text::{lemma_rfind_byte, rfind_byte, rfind_byte_in};

verus! {

/// The final component of a slash-separated path: everything after the last
/// `/`, or the whole path when it has none.
pub open spec fn spec_file_name(path: Seq<u8>) -> Seq<u8> {
    let i = rfind_byte(path, 47);
    path.subrange(i + 1, path.len() as int)
}

/// The extension of the file name: the bytes after its last `.`, provided
/// that `.` is not its first byte. A name without a `.`, or with only a
/// leading one, has no extension.
pub open spec fn spec_extension(path: Seq<u8>) -> Option<Seq<u8>> {
    let name = spec_file_name(path);
    let j = rfind_byte(name, 46);
    if j > 0 {
        Some(name.subrange(j + 1, name.len() as int))
    } else {
        None
    }
}

/// The MIME type of a known extension; `application/octet-stream` for the
/// rest.
pub open spec fn spec_mime_of(e: Seq<u8>) -> Seq<u8> {
    if e == "txt".spec_bytes() {
        "text/plain; charset=utf-8".spec_bytes()
    } else if e == "html".spec_bytes() {
        "text/html; charset=utf-8".spec_bytes()
    } else if e == "css".spec_bytes() {
        "text/css; charset=utf-8".spec_bytes()
    } else if e == "js".spec_bytes() {
        "text/javascript; charset=utf-8".spec_bytes()
    } else if e == "jpg".spec_bytes() {
        "image/jpeg".spec_bytes()
    } else if e == "jpeg".spec_bytes() {
        "image/jpeg".spec_bytes()
    } else if e == "png".spec_bytes() {
        "image/png".spec_bytes()
    } else if e == "zip".spec_bytes() {
        "application/zip".spec_bytes()
    } else {
        "application/octet-stream".spec_bytes()
    }
}

/// The Content-Type served for a path: the MIME type of its extension, or
/// `application/octet-stream` when it has none.
pub open spec fn spec_content_type(path: Seq<u8>) -> Seq<u8> {
    match spec_extension(path) {
        Some(e) => spec_mime_of(e),
        None => "application/octet-stream".spec_bytes(),
    }
}

/// The extension-to-MIME mapping is a pure function of the extension: two
/// paths with the same extension always carry the same Content-Type.
pub proof fn lemma_content_type_deterministic(p1: Seq<u8>, p2: Seq<u8>)
    requires
        spec_extension(p1) == spec_extension(p2),
    ensures
        spec_content_type(p1) == spec_content_type(p2),
{
}

/// The MIME type for the file at `path`, derived from its extension by the
/// fixed table.
pub fn determine_content_type(path: &[u8]) -> (r: &'static [u8])
    ensures
        r@ == spec_content_type(path@),
{
    proof {
        lemma_rfind_byte(path@, 47);
    }
    let n = path.len();
    let name_start: usize = match rfind_byte_in(path, 47) {
        Some(i) => i + 1,
        None => 0,
    };
    let name = vstd::slice::slice_subrange(path, name_start, n);
    assert(name@ == spec_file_name(path@));
    proof {
        lemma_rfind_byte(name@, 46);
    }
    let ext: Option<&[u8]> = match rfind_byte_in(name, 46) {
        Some(j) => {
            if j > 0 {
                Some(vstd::slice::slice_subrange(name, j + 1, name.len()))
            } else {
                None
            }
        },
        None => None,
    };
    match ext {
        Some(e) => {
            assert(spec_extension(path@) == Some(e@));
            if crate::text::bytes_eq(e, "txt".as_bytes()) {
                "text/plain; charset=utf-8".as_bytes()
            } else if crate::text::bytes_eq(e, "html".as_bytes()) {
                "text/html; charset=utf-8".as_bytes()
            } else if crate::text::bytes_eq(e, "css".as_bytes()) {
                "text/css; charset=utf-8".as_bytes()
            } else if crate::text::bytes_eq(e, "js".as_bytes()) {
                "text/javascript; charset=utf-8".as_bytes()
            } else if crate::text::bytes_eq(e, "jpg".as_bytes()) {
                "image/jpeg".as_bytes()
            } else if crate::text::bytes_eq(e, "jpeg".as_bytes()) {
                "image/jpeg".as_bytes()
            } else if crate::text::bytes_eq(e, "png".as_bytes()) {
                "image/png".as_bytes()
            } else if crate::text::bytes_eq(e, "zip".as_bytes()) {
                "application/zip".as_bytes()
            } else {
                "application/octet-stream".as_bytes()
            }
        },
        None => {
            assert(spec_extension(path@) is None);
            "application/octet-stream".as_bytes()
        },
    }
}

} // verus!
