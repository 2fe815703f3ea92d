//! CGI-style script support: the environment handed to a script, and the
//! translation of its captured output into an HTTP response.
//!
//! A script receives `Method`, `Path`, and one `Query_<key>` variable per
//! `&`-separated query parameter; a POST body goes to its standard input.
//! Its standard output is read as an optional header block followed by a
//! body, with `Content-Type` and `Content-Length` synthesized when absent;
//! output without any header block is taken whole as the body.

use vstd::prelude::*;
use vstd::string::StringSliceAdditionalSpecFns;

use crate::headers::{
    first_empty_line, lemma_first_empty_line, lookup_header, parse_headers, spec_lookup,
    spec_parse_headers, strip_cr_vec,
};
use crate::response::{HttpResponse, SpecResponse, StatusCode};
use crate::text::{
    dec_digits, dec_of_usize, find_byte, find_byte_from, find_byte_in, join_lines,
    lemma_find_byte_from, spec_lines, strip_cr, subvec,
};

verus! {

broadcast use crate::text::lemma_bytes_deep_view;

/// One `key=value` query parameter: the key is everything before the first
/// `=`, the value everything between the first and second `=`; a parameter
/// without `=` has an empty value.
pub open spec fn spec_query_pair(part: Seq<u8>) -> (Seq<u8>, Seq<u8>) {
    let i = find_byte(part, 61);  // '='
    if 0 <= i < part.len() {
        let j = find_byte_from(part, i + 1, 61);
        (part.subrange(0, i), part.subrange(i + 1, j))
    } else {
        (part, Seq::<u8>::empty())
    }
}

/// The `&`-separated parameters of a query string, in order.
pub open spec fn spec_query_pairs(q: Seq<u8>) -> Seq<(Seq<u8>, Seq<u8>)>
    decreases q.len(),
{
    let i = find_byte(q, 38);  // '&'
    if 0 <= i < q.len() {
        seq![spec_query_pair(q.subrange(0, i))] + spec_query_pairs(
            q.subrange(i + 1, q.len() as int),
        )
    } else {
        seq![spec_query_pair(q)]
    }
}

/// The environment a script receives: a `Query_<key>` variable for each
/// query parameter, then `Method` and `Path`.
pub open spec fn spec_env_pairs(
    method: Seq<u8>,
    path: Seq<u8>,
    query: Option<Seq<u8>>,
) -> Seq<(Seq<u8>, Seq<u8>)> {
    (match query {
        Some(q) => spec_query_pairs(q).map_values(
            |kv: (Seq<u8>, Seq<u8>)| ("Query_".spec_bytes() + kv.0, kv.1),
        ),
        None => Seq::<(Seq<u8>, Seq<u8>)>::empty(),
    }) + seq![("Method".spec_bytes(), method), ("Path".spec_bytes(), path)]
}

/// Whether the script output has a header block: a first empty line for
/// the body to start after.
pub open spec fn spec_has_header_block(out: Seq<u8>) -> bool {
    first_empty_line(spec_lines(out)) < spec_lines(out).len()
}

/// The body a script's output yields: the lines after the first empty
/// line, rejoined with `\n` — or every line so rejoined when the output
/// has no header block.
pub open spec fn spec_cgi_body(out: Seq<u8>) -> Seq<u8> {
    let ls = spec_lines(out);
    let k = first_empty_line(ls);
    if k < ls.len() {
        join_lines(ls.subrange(k + 1, ls.len() as int))
    } else {
        join_lines(ls)
    }
}

/// The Content-Type of a script response: the script's own header when the
/// output has a header block naming one, else `text/plain`.
pub open spec fn spec_cgi_content_type(out: Seq<u8>) -> Seq<u8> {
    if spec_has_header_block(out) {
        match spec_lookup(spec_parse_headers(out).0, "Content-Type".spec_bytes()) {
            Some(v) => v,
            None => "text/plain".spec_bytes(),
        }
    } else {
        "text/plain".spec_bytes()
    }
}

/// The Content-Length of a script response: the script's own header value
/// verbatim when present, else the decimal byte count of the body.
pub open spec fn spec_cgi_content_length(out: Seq<u8>) -> Seq<u8> {
    if spec_has_header_block(out) {
        match spec_lookup(spec_parse_headers(out).0, "Content-Length".spec_bytes()) {
            Some(v) => v,
            None => dec_digits(spec_cgi_body(out).len()),
        }
    } else {
        dec_digits(spec_cgi_body(out).len())
    }
}

/// The response for a finished script: on success, a 200 from its output
/// with headers synthesized as needed; on a non-zero exit, a 500 whose
/// body is the captured standard error.
pub open spec fn spec_script_response(
    success: bool,
    stdout: Seq<u8>,
    stderr: Seq<u8>,
) -> SpecResponse {
    if success {
        SpecResponse {
            status: StatusCode::Okay,
            content_type: Some(spec_cgi_content_type(stdout)),
            content_length: Some(spec_cgi_content_length(stdout)),
            body: spec_cgi_body(stdout),
        }
    } else {
        SpecResponse {
            status: StatusCode::InternalServerError,
            content_type: None,
            content_length: None,
            body: stderr,
        }
    }
}

/// The leniency rule for scripts unaware of the header protocol: when a
/// successful script's output has no header block at all, its entire
/// output (lines rejoined with `\n`) becomes the body, the Content-Type
/// defaults to `text/plain`, and the Content-Length to the body's byte
/// count.
pub proof fn lemma_headerless_output_is_body(out: Seq<u8>, stderr: Seq<u8>)
    requires
        !spec_has_header_block(out),
    ensures
        spec_script_response(true, out, stderr).body == join_lines(spec_lines(out)),
        spec_script_response(true, out, stderr).content_type == Some("text/plain".spec_bytes()),
        spec_script_response(true, out, stderr).content_length == Some(
            dec_digits(join_lines(spec_lines(out)).len()),
        ),
{
}

/// A script that exits with failure is answered 500, and the captured
/// standard error is the body, whatever the script wrote to standard
/// output.
pub proof fn lemma_failed_script_is_500(stdout: Seq<u8>, stderr: Seq<u8>)
    ensures
        spec_script_response(false, stdout, stderr).status == StatusCode::InternalServerError,
        spec_script_response(false, stdout, stderr).body == stderr,
{
}

/// One query parameter, split on its first `=`.
fn query_pair(part: &[u8]) -> (r: (Vec<u8>, Vec<u8>))
    ensures
        (r.0@, r.1@) == spec_query_pair(part@),
{
    proof {
        lemma_find_byte_from(part@, 0, 61);
    }
    let i = find_byte_in(part, 0, 61);
    if i < part.len() {
        proof {
            lemma_find_byte_from(part@, i as int + 1, 61);
        }
        let j = find_byte_in(part, i + 1, 61);
        (subvec(part, 0, i), subvec(part, i + 1, j))
    } else {
        let whole = subvec(part, 0, part.len());
        assert(whole@ =~= part@);
        (whole, Vec::new())
    }
}

/// The `&`-separated parameters of a query string, in order.
fn query_pairs(q: &[u8]) -> (r: Vec<(Vec<u8>, Vec<u8>)>)
    ensures
        r.deep_view() == spec_query_pairs(q@),
    decreases q@.len(),
{
    proof {
        lemma_find_byte_from(q@, 0, 38);
    }
    let i = find_byte_in(q, 0, 38);
    if i < q.len() {
        let first = query_pair(vstd::slice::slice_subrange(q, 0, i));
        let ghost firstv = (first.0@, first.1@);
        let rest = vstd::slice::slice_subrange(q, i + 1, q.len());
        let mut rv = query_pairs(rest);
        let ghost old_rv = rv.deep_view();
        rv.insert(0, first);
        proof {
            assert(rv.deep_view() =~= seq![firstv] + old_rv);
            assert(rv.deep_view() =~= spec_query_pairs(q@));
        }
        rv
    } else {
        let p = query_pair(q);
        let ghost pv = (p.0@, p.1@);
        let mut rv: Vec<(Vec<u8>, Vec<u8>)> = Vec::new();
        rv.push(p);
        proof {
            assert(rv.deep_view() =~= seq![pv]);
            assert(rv.deep_view() =~= spec_query_pairs(q@));
        }
        rv
    }
}

/// Appends the `Method` and `Path` variables to an environment list.
fn push_env(out: &mut Vec<(Vec<u8>, Vec<u8>)>, method: &[u8], path: &[u8])
    ensures
        final(out).deep_view() == old(out).deep_view() + seq![
            ("Method".spec_bytes(), method@),
            ("Path".spec_bytes(), path@),
        ],
{
    let ghost base = out.deep_view();
    let ghost base_raw = out@;
    let mname = vstd::slice::slice_to_vec("Method".as_bytes());
    let mval = vstd::slice::slice_to_vec(method);
    out.push((mname, mval));
    let pname = vstd::slice::slice_to_vec("Path".as_bytes());
    let pval = vstd::slice::slice_to_vec(path);
    out.push((pname, pval));
    proof {
        assert forall|j: int| 0 <= j < base.len() implies #[trigger] out.deep_view()[j] == base[j] by {
            assert(out@[j] == base_raw[j]);
        }
        assert(out.deep_view()[base.len() as int] == ("Method".spec_bytes(), method@));
        assert(out.deep_view()[base.len() as int + 1] == ("Path".spec_bytes(), path@));
        assert(out.deep_view() =~= base + seq![
            ("Method".spec_bytes(), method@),
            ("Path".spec_bytes(), path@),
        ]);
    }
}

/// The environment for a script invocation: `Query_<key>` variables for
/// the query parameters, then `Method` and `Path`.
pub fn cgi_env(method: &[u8], path: &[u8], query: Option<&[u8]>) -> (r: Vec<(Vec<u8>, Vec<u8>)>)
    ensures
        r.deep_view() == spec_env_pairs(
            method@,
            path@,
            match query {
                Some(q) => Some(q@),
                None => None,
            },
        ),
{
    let mut out: Vec<(Vec<u8>, Vec<u8>)> = Vec::new();
    let ghost qview: Option<Seq<u8>> = (match query {
        Some(q) => Some(q@),
        None => None,
    });
    match query {
        Some(q) => {
            let qps = query_pairs(q);
            let ghost sqps = spec_query_pairs(q@);
            let mut i: usize = 0;
            while i < qps.len()
                invariant
                    i <= qps@.len(),
                    qps.deep_view() == sqps,
                    sqps.len() == qps@.len(),
                    out@.len() == i,
                    forall|j: int|
                        0 <= j < i ==> #[trigger] out.deep_view()[j] == (
                            "Query_".spec_bytes() + sqps[j].0,
                            sqps[j].1,
                        ),
                decreases qps@.len() - i,
            {
                let mut name = vstd::slice::slice_to_vec("Query_".as_bytes());
                name.extend_from_slice(qps[i].0.as_slice());
                let value = vstd::slice::slice_to_vec(qps[i].1.as_slice());
                let ghost namev = name@;
                let ghost valuev = value@;
                proof {
                    assert(qps.deep_view()[i as int] == (qps@[i as int].0@, qps@[i as int].1@));
                    assert(namev == "Query_".spec_bytes() + sqps[i as int].0);
                    assert(valuev == sqps[i as int].1);
                }
                let ghost prev = out.deep_view();
                let ghost prev_raw = out@;
                out.push((name, value));
                proof {
                    assert forall|j: int| 0 <= j <= i implies #[trigger] out.deep_view()[j] == (
                        "Query_".spec_bytes() + sqps[j].0,
                        sqps[j].1,
                    ) by {
                        if j < i {
                            assert(out@[j] == prev_raw[j]);
                            assert(out.deep_view()[j] == prev[j]);
                        } else {
                            assert(out.deep_view()[j] == (namev, valuev));
                        }
                    }
                }
                i = i + 1;
            }
            push_env(&mut out, method, path);
            proof {
                assert(out.deep_view() =~= spec_env_pairs(method@, path@, qview));
            }
        },
        None => {
            push_env(&mut out, method, path);
            proof {
                assert(out.deep_view() =~= spec_env_pairs(method@, path@, qview));
            }
        },
    }
    out
}

/// Whether a script's output has a header block: some line before the end
/// is empty.
pub fn has_header_block(out: &[u8]) -> (r: bool)
    ensures
        r == spec_has_header_block(out@),
    decreases out@.len(),
{
    let n = out.len();
    if n == 0 {
        assert(spec_lines(out@) =~= Seq::<Seq<u8>>::empty());
        return false;
    }
    proof {
        lemma_find_byte_from(out@, 0, 10);
    }
    let i = find_byte_in(out, 0, 10);
    if i < n {
        let line = strip_cr_vec(subvec(out, 0, i));
        let ghost rest_s = out@.subrange(i as int + 1, out@.len() as int);
        proof {
            assert(spec_lines(out@) == seq![line@] + spec_lines(rest_s));
            assert(spec_lines(out@)[0] == line@);
            assert(spec_lines(out@).drop_first() =~= spec_lines(rest_s));
        }
        if line.len() == 0 {
            assert(first_empty_line(spec_lines(out@)) == 0);
            true
        } else {
            let rest = vstd::slice::slice_subrange(out, i + 1, n);
            let r = has_header_block(rest);
            proof {
                assert(first_empty_line(spec_lines(out@)) == 1 + first_empty_line(
                    spec_lines(rest_s),
                ));
                lemma_first_empty_line(spec_lines(rest_s));
            }
            r
        }
    } else {
        let line = strip_cr_vec(subvec(out, 0, n));
        proof {
            assert(out@.subrange(0, out@.len() as int) =~= out@);
            assert(spec_lines(out@) =~= seq![strip_cr(out@)]);
            assert(spec_lines(out@)[0] == line@);
            assert(spec_lines(out@).drop_first() =~= Seq::<Seq<u8>>::empty());
        }
        if line.len() == 0 {
            assert(first_empty_line(spec_lines(out@)) == 0);
            true
        } else {
            proof {
                assert(first_empty_line(spec_lines(out@).drop_first()) == 0);
                assert(first_empty_line(spec_lines(out@)) == 1);
            }
            false
        }
    }
}

/// Every line of `out`, rejoined with a single `\n`.
fn join_all_lines(out: &[u8]) -> (r: Vec<u8>)
    ensures
        r@ == join_lines(spec_lines(out@)),
    decreases out@.len(),
{
    let n = out.len();
    if n == 0 {
        assert(spec_lines(out@) =~= Seq::<Seq<u8>>::empty());
        return Vec::new();
    }
    proof {
        lemma_find_byte_from(out@, 0, 10);
    }
    let i = find_byte_in(out, 0, 10);
    if i < n {
        let mut line = strip_cr_vec(subvec(out, 0, i));
        let ghost rest_s = out@.subrange(i as int + 1, out@.len() as int);
        let rest = vstd::slice::slice_subrange(out, i + 1, n);
        proof {
            assert(spec_lines(out@) == seq![line@] + spec_lines(rest_s));
        }
        if rest.len() == 0 {
            proof {
                assert(spec_lines(rest_s) =~= Seq::<Seq<u8>>::empty());
                assert(spec_lines(out@) =~= seq![line@]);
            }
            line
        } else {
            let mut rj = join_all_lines(rest);
            proof {
                assert(spec_lines(rest_s).len() >= 1);
                assert(spec_lines(out@).subrange(1, spec_lines(out@).len() as int)
                    =~= spec_lines(rest_s));
            }
            line.push(10);
            line.append(&mut rj);
            proof {
                assert(line@ =~= join_lines(spec_lines(out@)));
            }
            line
        }
    } else {
        let line = strip_cr_vec(subvec(out, 0, n));
        proof {
            assert(out@.subrange(0, out@.len() as int) =~= out@);
            assert(spec_lines(out@) =~= seq![strip_cr(out@)]);
        }
        line
    }
}

/// The body of a successful script response: the lines after the first
/// empty line rejoined with `\n`, or the whole output so rejoined when no
/// line is empty.
pub fn cgi_body(out: &[u8]) -> (r: Vec<u8>)
    ensures
        r@ == spec_cgi_body(out@),
    decreases out@.len(),
{
    let n = out.len();
    if n == 0 {
        assert(spec_lines(out@) =~= Seq::<Seq<u8>>::empty());
        return Vec::new();
    }
    proof {
        lemma_find_byte_from(out@, 0, 10);
    }
    let i = find_byte_in(out, 0, 10);
    if i < n {
        let line = strip_cr_vec(subvec(out, 0, i));
        let ghost ls = spec_lines(out@);
        let ghost rest_s = out@.subrange(i as int + 1, out@.len() as int);
        let rest = vstd::slice::slice_subrange(out, i + 1, n);
        proof {
            assert(ls == seq![line@] + spec_lines(rest_s));
            assert(ls[0] == line@);
            assert(ls.drop_first() =~= spec_lines(rest_s));
            lemma_first_empty_line(spec_lines(rest_s));
        }
        if line.len() == 0 {
            proof {
                assert(first_empty_line(ls) == 0);
                assert(ls.subrange(1, ls.len() as int) =~= spec_lines(rest_s));
            }
            join_all_lines(rest)
        } else {
            let ghost k_rest = first_empty_line(spec_lines(rest_s));
            proof {
                assert(first_empty_line(ls) == 1 + k_rest);
            }
            if has_header_block(rest) {
                let r = cgi_body(rest);
                proof {
                    assert(ls.subrange(1 + k_rest + 1, ls.len() as int) =~= spec_lines(
                        rest_s,
                    ).subrange(k_rest + 1, spec_lines(rest_s).len() as int));
                }
                r
            } else {
                let mut line = line;
                proof {
                    assert(k_rest == spec_lines(rest_s).len());
                    assert(first_empty_line(ls) == ls.len());
                }
                if rest.len() == 0 {
                    proof {
                        assert(spec_lines(rest_s) =~= Seq::<Seq<u8>>::empty());
                        assert(ls =~= seq![line@]);
                    }
                    line
                } else {
                    let mut rj = join_all_lines(rest);
                    proof {
                        assert(spec_lines(rest_s).len() >= 1);
                        assert(ls.subrange(1, ls.len() as int) =~= spec_lines(rest_s));
                    }
                    line.push(10);
                    line.append(&mut rj);
                    proof {
                        assert(line@ =~= spec_cgi_body(out@));
                    }
                    line
                }
            }
        }
    } else {
        let line = strip_cr_vec(subvec(out, 0, n));
        proof {
            assert(out@.subrange(0, out@.len() as int) =~= out@);
            assert(spec_lines(out@) =~= seq![strip_cr(out@)]);
            assert(spec_lines(out@)[0] == line@);
            assert(spec_lines(out@).drop_first() =~= Seq::<Seq<u8>>::empty());
        }
        if line.len() == 0 {
            proof {
                assert(first_empty_line(spec_lines(out@)) == 0);
                assert(spec_lines(out@).subrange(1, 1) =~= Seq::<Seq<u8>>::empty());
            }
            line
        } else {
            proof {
                assert(first_empty_line(spec_lines(out@).drop_first()) == 0);
                assert(first_empty_line(spec_lines(out@)) == 1);
            }
            line
        }
    }
}

/// The response for a finished script. On success the output's header
/// block, if any, supplies Content-Type and Content-Length, with
/// `text/plain` and the body's byte count as defaults; output without a
/// header block becomes the body whole. A non-zero exit yields a 500
/// whose body is the captured standard error.
pub fn script_response(success: bool, stdout: &[u8], stderr: Vec<u8>) -> (r: HttpResponse)
    ensures
        r@ == spec_script_response(success, stdout@, stderr@),
{
    if !success {
        return HttpResponse {
            status: StatusCode::InternalServerError,
            content_type: None,
            content_length: None,
            body: stderr,
        };
    }
    let body = cgi_body(stdout);
    let hb = has_header_block(stdout);
    let (hs, _body_start) = parse_headers(stdout);
    let ct: Vec<u8> = if hb {
        match lookup_header(&hs, "Content-Type".as_bytes()) {
            Some(v) => vstd::slice::slice_to_vec(v.as_slice()),
            None => vstd::slice::slice_to_vec("text/plain".as_bytes()),
        }
    } else {
        vstd::slice::slice_to_vec("text/plain".as_bytes())
    };
    let cl: Vec<u8> = if hb {
        match lookup_header(&hs, "Content-Length".as_bytes()) {
            Some(v) => vstd::slice::slice_to_vec(v.as_slice()),
            None => dec_of_usize(body.len()),
        }
    } else {
        dec_of_usize(body.len())
    };
    HttpResponse {
        status: StatusCode::Okay,
        content_type: Some(ct),
        content_length: Some(cl),
        body,
    }
}

} // verus!
