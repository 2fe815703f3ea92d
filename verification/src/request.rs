//! Parsing a raw HTTP request into method, path, query, headers and body.
//!
//! The first line splits on whitespace into the method, the path-with-query
//! token and an ignored version token; a `?` in the path token separates the
//! query. The lines up to the first empty line are header pairs, and the raw
//! bytes after the first empty line are the body. Malformed input never
//! fails: missing tokens come out empty and the router treats them as
//! not found.

use vstd::prelude::*;

use crate::headers::{headers_of_lines, parse_header_line, strip_cr_vec};
use crate::text::{
    find_byte, find_byte_in, find_non_ws_from, find_non_ws_in, find_ws_from, find_ws_in,
    lemma_find_byte_from, lemma_find_non_ws_from, lemma_find_ws_from, spec_lines, strip_cr, subvec,
};

verus! {

broadcast use crate::text::lemma_bytes_deep_view;

/// A parsed request: what the wire bytes say, with no judgement yet on
/// whether the path can be served.
pub struct ParsedRequest {
    pub method: Vec<u8>,
    pub path: Vec<u8>,
    pub query: Option<Vec<u8>>,
    pub headers: Vec<(Vec<u8>, Vec<u8>)>,
    pub body: Vec<u8>,
}

/// The mathematical image of a `ParsedRequest`.
pub struct SpecRequest {
    pub method: Seq<u8>,
    pub path: Seq<u8>,
    pub query: Option<Seq<u8>>,
    pub headers: Seq<(Seq<u8>, Seq<u8>)>,
    pub body: Seq<u8>,
}

impl View for ParsedRequest {
    type V = SpecRequest;

    open spec fn view(&self) -> SpecRequest {
        SpecRequest {
            method: self.method@,
            path: self.path@,
            query: self.query.deep_view(),
            headers: self.headers.deep_view(),
            body: self.body@,
        }
    }
}

/// The first line of the text; empty when the text has none.
pub open spec fn spec_request_line(s: Seq<u8>) -> Seq<u8> {
    let ls = spec_lines(s);
    if ls.len() == 0 {
        seq![]
    } else {
        ls[0]
    }
}

/// The first whitespace-separated token of the request line: the method.
pub open spec fn spec_method(s: Seq<u8>) -> Seq<u8> {
    let l = spec_request_line(s);
    let a = find_non_ws_from(l, 0);
    let b = find_ws_from(l, a);
    l.subrange(a, b)
}

/// The second whitespace-separated token of the request line: the path
/// together with any query.
pub open spec fn spec_raw_path(s: Seq<u8>) -> Seq<u8> {
    let l = spec_request_line(s);
    let b1 = find_ws_from(l, find_non_ws_from(l, 0));
    let a2 = find_non_ws_from(l, b1);
    let b2 = find_ws_from(l, a2);
    l.subrange(a2, b2)
}

/// The path: the raw path token up to its first `?`.
pub open spec fn spec_path(s: Seq<u8>) -> Seq<u8> {
    let rp = spec_raw_path(s);
    let q = find_byte(rp, 63);
    if 0 <= q < rp.len() {
        rp.subrange(0, q)
    } else {
        rp
    }
}

/// The query: everything after the first `?` of the raw path token, absent
/// when the token has no `?`.
pub open spec fn spec_query(s: Seq<u8>) -> Option<Seq<u8>> {
    let rp = spec_raw_path(s);
    let q = find_byte(rp, 63);
    if 0 <= q < rp.len() {
        Some(rp.subrange(q + 1, rp.len() as int))
    } else {
        None
    }
}

/// The bytes after the first line; all of `s` stays behind when it has no
/// newline.
pub open spec fn spec_rest(s: Seq<u8>) -> Seq<u8> {
    let i = find_byte(s, 10);
    if 0 <= i < s.len() {
        s.subrange(i + 1, s.len() as int)
    } else {
        seq![]
    }
}

/// The lines of `s` up to the first empty line: the header candidates.
pub open spec fn spec_header_lines(s: Seq<u8>) -> Seq<Seq<u8>>
    decreases s.len(),
{
    if s.len() == 0 {
        seq![]
    } else {
        let i = find_byte(s, 10);
        if 0 <= i < s.len() {
            let line = strip_cr(s.subrange(0, i));
            if line.len() == 0 {
                seq![]
            } else {
                seq![line] + spec_header_lines(s.subrange(i + 1, s.len() as int))
            }
        } else {
            let line = strip_cr(s);
            if line.len() == 0 {
                seq![]
            } else {
                seq![line]
            }
        }
    }
}

/// The raw bytes after the first empty line of `s`; empty when `s` has no
/// empty line.
pub open spec fn spec_body_after(s: Seq<u8>) -> Seq<u8>
    decreases s.len(),
{
    if s.len() == 0 {
        seq![]
    } else {
        let i = find_byte(s, 10);
        if 0 <= i < s.len() {
            let line = strip_cr(s.subrange(0, i));
            if line.len() == 0 {
                s.subrange(i + 1, s.len() as int)
            } else {
                spec_body_after(s.subrange(i + 1, s.len() as int))
            }
        } else {
            seq![]
        }
    }
}

/// What `parse_request` computes from the raw request bytes.
pub open spec fn spec_parse_request(s: Seq<u8>) -> SpecRequest {
    SpecRequest {
        method: spec_method(s),
        path: spec_path(s),
        query: spec_query(s),
        headers: headers_of_lines(spec_header_lines(spec_rest(s))),
        body: spec_body_after(spec_rest(s)),
    }
}

/// Splits the bytes after the request line into header pairs and body: the
/// lines before the first empty line become `key: value` pairs, and the raw
/// bytes after it are the body.
fn split_header_block(s: &[u8]) -> (r: (Vec<(Vec<u8>, Vec<u8>)>, Vec<u8>))
    ensures
        r.0.deep_view() == headers_of_lines(spec_header_lines(s@)),
        r.1@ == spec_body_after(s@),
    decreases s@.len(),
{
    let n = s.len();
    if n == 0 {
        let hs: Vec<(Vec<u8>, Vec<u8>)> = Vec::new();
        assert(hs.deep_view() =~= headers_of_lines(spec_header_lines(s@)));
        return (hs, Vec::new());
    }
    proof {
        lemma_find_byte_from(s@, 0, 10);
    }
    let i = find_byte_in(s, 0, 10);
    if i < n {
        let ghost rest_s = s@.subrange(i as int + 1, s@.len() as int);
        let line = strip_cr_vec(subvec(s, 0, i));
        if line.len() == 0 {
            let hs: Vec<(Vec<u8>, Vec<u8>)> = Vec::new();
            assert(hs.deep_view() =~= headers_of_lines(spec_header_lines(s@)));
            let body = subvec(s, i + 1, n);
            (hs, body)
        } else {
            let rest = vstd::slice::slice_subrange(s, i + 1, n);
            let (mut hs, body) = split_header_block(rest);
            proof {
                assert(spec_header_lines(s@) == seq![line@] + spec_header_lines(rest_s));
                assert((seq![line@] + spec_header_lines(rest_s))[0] == line@);
                assert((seq![line@] + spec_header_lines(rest_s)).drop_first() =~= spec_header_lines(
                    rest_s,
                ));
            }
            let ghost old_hs_view = hs.deep_view();
            match parse_header_line(line.as_slice()) {
                Some(kv) => {
                    let ghost kvv = (kv.0@, kv.1@);
                    proof {
                        assert(crate::headers::spec_parse_header_line(line@) == Some(kvv));
                    }
                    hs.insert(0, kv);
                    proof {
                        assert(hs.deep_view() =~= seq![kvv] + old_hs_view);
                        assert(hs.deep_view() =~= headers_of_lines(spec_header_lines(s@)));
                    }
                },
                None => {
                    proof {
                        assert(hs.deep_view() =~= headers_of_lines(spec_header_lines(s@)));
                    }
                },
            }
            (hs, body)
        }
    } else {
        // No newline: a single line and no body.
        let line = strip_cr_vec(subvec(s, 0, n));
        proof {
            assert(s@.subrange(0, s@.len() as int) =~= s@);
        }
        if line.len() == 0 {
            let hs: Vec<(Vec<u8>, Vec<u8>)> = Vec::new();
            assert(hs.deep_view() =~= headers_of_lines(spec_header_lines(s@)));
            (hs, Vec::new())
        } else {
            let mut hs: Vec<(Vec<u8>, Vec<u8>)> = Vec::new();
            proof {
                assert(spec_header_lines(s@) == seq![line@]);
                assert(seq![line@].drop_first() =~= Seq::<Seq<u8>>::empty());
            }
            match parse_header_line(line.as_slice()) {
                Some(kv) => {
                    let ghost kvv = (kv.0@, kv.1@);
                    proof {
                        assert(crate::headers::spec_parse_header_line(line@) == Some(kvv));
                    }
                    hs.push(kv);
                    proof {
                        let ghost ls = spec_header_lines(s@);
                        assert(ls[0] == line@);
                        assert(headers_of_lines(ls) == seq![kvv] + headers_of_lines(
                            ls.drop_first(),
                        ));
                        assert(headers_of_lines(Seq::<Seq<u8>>::empty()) == Seq::<
                            (Seq<u8>, Seq<u8>),
                        >::empty());
                        assert(headers_of_lines(ls) =~= seq![kvv]);
                        assert(hs.deep_view() =~= seq![kvv]);
                    }
                },
                None => {
                    proof {
                        let ghost ls = spec_header_lines(s@);
                        assert(crate::headers::spec_parse_header_line(line@) is None);
                        assert(ls[0] == line@);
                        assert(headers_of_lines(ls) == headers_of_lines(ls.drop_first()));
                        assert(headers_of_lines(Seq::<Seq<u8>>::empty()) == Seq::<
                            (Seq<u8>, Seq<u8>),
                        >::empty());
                        assert(hs.deep_view() =~= Seq::<(Seq<u8>, Seq<u8>)>::empty());
                    }
                },
            }
            (hs, Vec::new())
        }
    }
}

/// Parses raw request bytes into method, path, query, headers and body.
/// Malformed input yields empty fields rather than an error.
pub fn parse_request(input: &[u8]) -> (r: ParsedRequest)
    ensures
        r@ == spec_parse_request(input@),
{
    let n = input.len();
    proof {
        lemma_find_byte_from(input@, 0, 10);
    }
    let nl = find_byte_in(input, 0, 10);
    let (line0_end, rest_start) = if nl < n {
        (nl, nl + 1)
    } else {
        (n, n)
    };
    let line0 = strip_cr_vec(subvec(input, 0, line0_end));
    proof {
        if n > 0 {
            if (nl as int) < n {
                assert(spec_lines(input@)[0] == strip_cr(input@.subrange(0, nl as int)));
            } else {
                assert(input@.subrange(0, n as int) =~= input@);
                assert(spec_lines(input@) =~= seq![strip_cr(input@)]);
            }
        }
        assert(line0@ == spec_request_line(input@));
        lemma_find_non_ws_from(line0@, 0);
    }
    let a1 = find_non_ws_in(line0.as_slice(), 0);
    proof {
        lemma_find_ws_from(line0@, a1 as int);
    }
    let b1 = find_ws_in(line0.as_slice(), a1);
    proof {
        lemma_find_non_ws_from(line0@, b1 as int);
    }
    let a2 = find_non_ws_in(line0.as_slice(), b1);
    proof {
        lemma_find_ws_from(line0@, a2 as int);
    }
    let b2 = find_ws_in(line0.as_slice(), a2);
    let method = subvec(line0.as_slice(), a1, b1);
    let raw_path = subvec(line0.as_slice(), a2, b2);
    proof {
        assert(method@ == spec_method(input@));
        assert(raw_path@ == spec_raw_path(input@));
        lemma_find_byte_from(raw_path@, 0, 63);
    }
    let q = find_byte_in(raw_path.as_slice(), 0, 63);
    let (path, query) = if q < raw_path.len() {
        let p = subvec(raw_path.as_slice(), 0, q);
        let qv = subvec(raw_path.as_slice(), q + 1, raw_path.len());
        (p, Some(qv))
    } else {
        (raw_path, None)
    };
    let rest = vstd::slice::slice_subrange(input, rest_start, n);
    proof {
        if (nl as int) < n {
            assert(rest@ == spec_rest(input@));
        } else {
            assert(rest@ =~= spec_rest(input@));
        }
    }
    let (headers, body) = split_header_block(rest);
    ParsedRequest { method, path, query, headers, body }
}

/// The query string of a raw request: everything after the first `?` of the
/// request line's path token, absent when that token has no `?`.
pub fn extract_query_string(request: &[u8]) -> (r: Option<Vec<u8>>)
    ensures
        r.deep_view() == spec_query(request@),
{
    let req = parse_request(request);
    req.query
}

} // verus!
