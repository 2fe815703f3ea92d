//! Header blocks: `key: value` lines terminated by the first empty line.
//!
//! The same rule serves both raw HTTP requests and the structured output of
//! a CGI-style script: split each line on the first `:`, trim both sides,
//! and ignore lines without a `:`.

use vstd::prelude::*;

use crate::text::{
    find_byte, find_byte_in, lemma_find_byte_from, spec_lines, spec_trim, strip_cr, subvec, trim,
};

verus! {

broadcast use crate::text::lemma_bytes_deep_view;

/// The `key: value` pair of a single header line: split on the first `:`,
/// both sides trimmed; `None` for a line without a `:`.
pub open spec fn spec_parse_header_line(line: Seq<u8>) -> Option<(Seq<u8>, Seq<u8>)> {
    let i = find_byte(line, 58);
    if 0 <= i < line.len() {
        Some((spec_trim(line.subrange(0, i)), spec_trim(line.subrange(i + 1, line.len() as int))))
    } else {
        None
    }
}

/// The header pairs of the given lines, in order, skipping lines without
/// a `:`.
pub open spec fn headers_of_lines(ls: Seq<Seq<u8>>) -> Seq<(Seq<u8>, Seq<u8>)>
    decreases ls.len(),
{
    if ls.len() == 0 {
        seq![]
    } else {
        match spec_parse_header_line(ls[0]) {
            Some(kv) => seq![kv] + headers_of_lines(ls.drop_first()),
            None => headers_of_lines(ls.drop_first()),
        }
    }
}

/// Index of the first empty line, or `ls.len()` when there is none.
pub open spec fn first_empty_line(ls: Seq<Seq<u8>>) -> int
    decreases ls.len(),
{
    if ls.len() == 0 {
        0
    } else if ls[0].len() == 0 {
        0
    } else {
        1 + first_empty_line(ls.drop_first())
    }
}

/// `first_empty_line` stays within bounds.
pub proof fn lemma_first_empty_line(ls: Seq<Seq<u8>>)
    ensures
        0 <= first_empty_line(ls) <= ls.len(),
        first_empty_line(ls) < ls.len() ==> ls[first_empty_line(ls)].len() == 0,
    decreases ls.len(),
{
    if ls.len() > 0 && ls[0].len() != 0 {
        lemma_first_empty_line(ls.drop_first());
    }
}

/// What `parse_headers` computes from a whole text: the header pairs of the
/// lines before the first empty line, and the index of the line on which the
/// body starts — `0` when the text has no empty line, in which case every
/// line was read as a header candidate.
pub open spec fn spec_parse_headers(s: Seq<u8>) -> (Seq<(Seq<u8>, Seq<u8>)>, int) {
    let ls = spec_lines(s);
    let k = first_empty_line(ls);
    if k < ls.len() {
        (headers_of_lines(ls.subrange(0, k)), k + 1)
    } else {
        (headers_of_lines(ls), 0)
    }
}

/// The value of the first header whose key equals `key` exactly.
pub open spec fn spec_lookup(hs: Seq<(Seq<u8>, Seq<u8>)>, key: Seq<u8>) -> Option<Seq<u8>>
    decreases hs.len(),
{
    if hs.len() == 0 {
        None
    } else if hs[0].0 == key {
        Some(hs[0].1)
    } else {
        spec_lookup(hs.drop_first(), key)
    }
}

/// Splits one header line on its first `:` into a trimmed key and value;
/// a line without a `:` yields nothing.
pub fn parse_header_line(line: &[u8]) -> (r: Option<(Vec<u8>, Vec<u8>)>)
    ensures
        r.deep_view() == spec_parse_header_line(line@),
{
    proof {
        lemma_find_byte_from(line@, 0, 58);
    }
    let i = find_byte_in(line, 0, 58);
    if i < line.len() {
        let key = trim(vstd::slice::slice_subrange(line, 0, i));
        let value = trim(vstd::slice::slice_subrange(line, i + 1, line.len()));
        Some((key, value))
    } else {
        None
    }
}

/// Scans a text line by line: lines before the first empty line become
/// header pairs, and the returned index is the line on which the body
/// starts. A text without an empty line yields index `0`: the caller then
/// treats the whole text as the body.
pub fn parse_headers(output: &[u8]) -> (r: (Vec<(Vec<u8>, Vec<u8>)>, usize))
    ensures
        r.0.deep_view() == spec_parse_headers(output@).0,
        r.1 as int == spec_parse_headers(output@).1,
    decreases output@.len(),
{
    if output.len() == 0 {
        let hs: Vec<(Vec<u8>, Vec<u8>)> = Vec::new();
        assert(hs.deep_view() =~= spec_parse_headers(output@).0);
        return (hs, 0);
    }
    proof {
        lemma_find_byte_from(output@, 0, 10);
    }
    let i = find_byte_in(output, 0, 10);
    if i < output.len() {
        let ghost ls = spec_lines(output@);
        let ghost rest_s = output@.subrange(i as int + 1, output@.len() as int);
        let line = strip_cr_vec(subvec(output, 0, i));
        proof {
            assert(ls =~= seq![strip_cr(output@.subrange(0, i as int))] + spec_lines(rest_s));
            assert(ls.drop_first() =~= spec_lines(rest_s));
        }
        if line.len() == 0 {
            let hs: Vec<(Vec<u8>, Vec<u8>)> = Vec::new();
            proof {
                assert(first_empty_line(ls) == 0);
                assert(ls.subrange(0, 0) =~= Seq::<Seq<u8>>::empty());
                assert(hs.deep_view() =~= spec_parse_headers(output@).0);
            }
            return (hs, 1);
        }
        let rest = vstd::slice::slice_subrange(output, i + 1, output.len());
        let (mut hs, rest_idx) = parse_headers(rest);
        proof {
            lemma_first_empty_line(spec_lines(rest_s));
            crate::text::lemma_spec_lines_len(rest_s);
            assert(first_empty_line(ls) == 1 + first_empty_line(spec_lines(rest_s)));
        }
        let ghost k_rest = first_empty_line(spec_lines(rest_s));
        let ghost k = first_empty_line(ls);
        proof {
            if k < ls.len() {
                assert(ls.subrange(0, k).drop_first() =~= spec_lines(rest_s).subrange(0, k_rest));
                assert(ls.subrange(0, k)[0] == line@);
            } else {
                assert(ls.drop_first() =~= spec_lines(rest_s));
            }
        }
        proof {
            assert(ls[0] == line@);
        }
        let ghost old_hs_view = hs.deep_view();
        match parse_header_line(line.as_slice()) {
            Some(kv) => {
                let ghost kvv = (kv.0@, kv.1@);
                proof {
                    assert(spec_parse_header_line(line@) == Some(kvv));
                }
                hs.insert(0, kv);
                proof {
                    assert(hs.deep_view() =~= seq![kvv] + old_hs_view);
                    assert(hs.deep_view() =~= spec_parse_headers(output@).0);
                }
            },
            None => {
                proof {
                    assert(hs.deep_view() =~= spec_parse_headers(output@).0);
                }
            },
        }
        let idx = if rest_idx == 0 { 0 } else { rest_idx + 1 };
        (hs, idx)
    } else {
        // No newline at all: the whole text is a single line.
        let line = strip_cr_vec(subvec(output, 0, output.len()));
        proof {
            assert(output@.subrange(0, output@.len() as int) =~= output@);
            assert(spec_lines(output@) =~= seq![strip_cr(output@)]);
        }
        if line.len() == 0 {
            let hs: Vec<(Vec<u8>, Vec<u8>)> = Vec::new();
            proof {
                let ghost ls = spec_lines(output@);
                assert(first_empty_line(ls) == 0);
                assert(ls.subrange(0, 0) =~= Seq::<Seq<u8>>::empty());
                assert(hs.deep_view() =~= spec_parse_headers(output@).0);
            }
            (hs, 1)
        } else {
            let mut hs: Vec<(Vec<u8>, Vec<u8>)> = Vec::new();
            let ghost ls = spec_lines(output@);
            proof {
                assert(ls[0] == line@);
                assert(ls.drop_first() =~= Seq::<Seq<u8>>::empty());
                assert(first_empty_line(ls) == 1 + first_empty_line(ls.drop_first()));
                assert(first_empty_line(ls) == ls.len());
                assert(spec_parse_headers(output@).0 == headers_of_lines(ls));
            }
            match parse_header_line(line.as_slice()) {
                Some(kv) => {
                    let ghost kvv = (kv.0@, kv.1@);
                    proof {
                        assert(spec_parse_header_line(line@) == Some(kvv));
                        assert(spec_parse_header_line(ls[0]) == Some(kvv));
                        assert(ls.len() == 1);
                        assert(headers_of_lines(ls) == seq![kvv] + headers_of_lines(
                            ls.drop_first(),
                        ));
                        assert(headers_of_lines(Seq::<Seq<u8>>::empty())
                            == Seq::<(Seq<u8>, Seq<u8>)>::empty());
                        assert(headers_of_lines(ls) =~= seq![kvv]);
                    }
                    hs.push(kv);
                    proof {
                        assert(hs.deep_view() =~= seq![kvv]);
                    }
                },
                None => {
                    proof {
                        assert(spec_parse_header_line(ls[0]) is None);
                        assert(headers_of_lines(ls) == headers_of_lines(ls.drop_first()));
                        assert(headers_of_lines(Seq::<Seq<u8>>::empty())
                            == Seq::<(Seq<u8>, Seq<u8>)>::empty());
                        assert(hs.deep_view() =~= Seq::<(Seq<u8>, Seq<u8>)>::empty());
                    }
                },
            }
            (hs, 0)
        }
    }
}

/// The value of the first header in `hs` whose key is exactly `key`.
pub fn lookup_header<'a>(hs: &'a Vec<(Vec<u8>, Vec<u8>)>, key: &[u8]) -> (r: Option<&'a Vec<u8>>)
    ensures
        ({
            match r {
                Some(v) => spec_lookup(hs.deep_view(), key@) == Some(v@),
                None => spec_lookup(hs.deep_view(), key@) is None,
            }
        }),
{
    let ghost shs = hs.deep_view();
    proof {
        assert(shs.subrange(0, shs.len() as int) =~= shs);
    }
    let mut i: usize = 0;
    while i < hs.len()
        invariant
            i <= hs@.len(),
            shs == hs.deep_view(),
            shs.len() == hs@.len(),
            forall|j: int| 0 <= j < hs@.len() ==> #[trigger] shs[j] == (hs@[j].0@, hs@[j].1@),
            forall|j: int| 0 <= j < i ==> #[trigger] shs[j].0 != key@,
            spec_lookup(shs, key@) == spec_lookup(shs.subrange(i as int, shs.len() as int), key@),
        decreases hs@.len() - i,
    {
        if crate::text::bytes_eq(hs[i].0.as_slice(), key) {
            proof {
                let tail = shs.subrange(i as int, shs.len() as int);
                assert(tail[0] == shs[i as int]);
                assert(spec_lookup(tail, key@) == Some(shs[i as int].1));
            }
            return Some(&hs[i].1);
        }
        proof {
            let tail = shs.subrange(i as int, shs.len() as int);
            assert(tail[0] == shs[i as int]);
            assert(tail.drop_first() =~= shs.subrange(i as int + 1, shs.len() as int));
        }
        i = i + 1;
    }
    proof {
        assert(shs.subrange(i as int, shs.len() as int) =~= Seq::<(Seq<u8>, Seq<u8>)>::empty());
    }
    None
}

/// A copy of `line` with a single trailing carriage return removed.
pub fn strip_cr_vec(line: Vec<u8>) -> (r: Vec<u8>)
    ensures
        r@ == strip_cr(line@),
{
    let mut line = line;
    if line.len() > 0 {
        if *line.last().unwrap() == 13 {
            line.pop();
        }
    }
    line
}

} // verus!
