//! Byte-level scanning primitives shared by the request parser, the router,
//! the MIME table and the CGI output translator.
//!
//! Everything here works on `&[u8]` with specifications over `Seq<u8>`.

use vstd::prelude::*;

verus! {

/// Whitespace as the tokenizer understands it: space, tab, and the ASCII
/// control characters `\n`, `\x0b`, `\x0c`, `\r`.
pub open spec fn is_ws(b: u8) -> bool {
    b == 32 || b == 9 || b == 10 || b == 11 || b == 12 || b == 13
}

/// Index of the first occurrence of `b` in `s` at or after `from`;
/// `s.len()` if there is none.
pub open spec fn find_byte_from(s: Seq<u8>, from: int, b: u8) -> int
    decreases s.len() - from
        when 0 <= from <= s.len()
{
    if from >= s.len() {
        s.len() as int
    } else if s[from] == b {
        from
    } else {
        find_byte_from(s, from + 1, b)
    }
}

/// Index of the first occurrence of `b` in `s`; `s.len()` if there is none.
pub open spec fn find_byte(s: Seq<u8>, b: u8) -> int {
    find_byte_from(s, 0, b)
}

/// What `find_byte_from` returns: the least index of `b` at or after `from`,
/// or `s.len()` when `b` does not occur there.
pub proof fn lemma_find_byte_from(s: Seq<u8>, from: int, b: u8)
    requires
        0 <= from <= s.len(),
    ensures
        ({
            let r = find_byte_from(s, from, b);
            &&& from <= r <= s.len()
            &&& forall|j: int| from <= j < r ==> s[j] != b
            &&& r < s.len() ==> s[r] == b
        }),
    decreases s.len() - from,
{
    if from < s.len() && s[from] != b {
        lemma_find_byte_from(s, from + 1, b);
    }
}

/// Index of the first whitespace byte of `s` at or after `from`;
/// `s.len()` if there is none.
pub open spec fn find_ws_from(s: Seq<u8>, from: int) -> int
    decreases s.len() - from
        when 0 <= from <= s.len()
{
    if from >= s.len() {
        s.len() as int
    } else if is_ws(s[from]) {
        from
    } else {
        find_ws_from(s, from + 1)
    }
}

/// What `find_ws_from` returns.
pub proof fn lemma_find_ws_from(s: Seq<u8>, from: int)
    requires
        0 <= from <= s.len(),
    ensures
        ({
            let r = find_ws_from(s, from);
            &&& from <= r <= s.len()
            &&& forall|j: int| from <= j < r ==> !is_ws(s[j])
            &&& r < s.len() ==> is_ws(s[r])
        }),
    decreases s.len() - from,
{
    if from < s.len() && !is_ws(s[from]) {
        lemma_find_ws_from(s, from + 1);
    }
}

/// Index of the first non-whitespace byte of `s` at or after `from`;
/// `s.len()` if there is none.
pub open spec fn find_non_ws_from(s: Seq<u8>, from: int) -> int
    decreases s.len() - from
        when 0 <= from <= s.len()
{
    if from >= s.len() {
        s.len() as int
    } else if !is_ws(s[from]) {
        from
    } else {
        find_non_ws_from(s, from + 1)
    }
}

/// What `find_non_ws_from` returns.
pub proof fn lemma_find_non_ws_from(s: Seq<u8>, from: int)
    requires
        0 <= from <= s.len(),
    ensures
        ({
            let r = find_non_ws_from(s, from);
            &&& from <= r <= s.len()
            &&& forall|j: int| from <= j < r ==> is_ws(s[j])
            &&& r < s.len() ==> !is_ws(s[r])
        }),
    decreases s.len() - from,
{
    if from < s.len() && is_ws(s[from]) {
        lemma_find_non_ws_from(s, from + 1);
    }
}

/// Index of the last occurrence of `b` in `s`; `-1` if there is none.
pub open spec fn rfind_byte(s: Seq<u8>, b: u8) -> int
    decreases s.len(),
{
    if s.len() == 0 {
        -1
    } else if s[s.len() - 1] == b {
        s.len() - 1
    } else {
        rfind_byte(s.drop_last(), b)
    }
}

/// What `rfind_byte` returns: the greatest index of `b`, or `-1`.
pub proof fn lemma_rfind_byte(s: Seq<u8>, b: u8)
    ensures
        ({
            let r = rfind_byte(s, b);
            &&& -1 <= r < s.len()
            &&& r >= 0 ==> s[r] == b
            &&& forall|j: int| r < j < s.len() ==> s[j] != b
        }),
    decreases s.len(),
{
    if s.len() > 0 && s[s.len() - 1] != b {
        lemma_rfind_byte(s.drop_last(), b);
        assert(forall|j: int| 0 <= j < s.len() - 1 ==> s.drop_last()[j] == s[j]);
    }
}

/// Index of the last non-whitespace byte of `s`; `-1` if all of `s` is
/// whitespace.
pub open spec fn rfind_non_ws(s: Seq<u8>) -> int
    decreases s.len(),
{
    if s.len() == 0 {
        -1
    } else if !is_ws(s[s.len() - 1]) {
        s.len() - 1
    } else {
        rfind_non_ws(s.drop_last())
    }
}

/// What `rfind_non_ws` returns.
pub proof fn lemma_rfind_non_ws(s: Seq<u8>)
    ensures
        ({
            let r = rfind_non_ws(s);
            &&& -1 <= r < s.len()
            &&& r >= 0 ==> !is_ws(s[r])
            &&& forall|j: int| r < j < s.len() ==> is_ws(s[j])
        }),
    decreases s.len(),
{
    if s.len() > 0 && is_ws(s[s.len() - 1]) {
        lemma_rfind_non_ws(s.drop_last());
        assert(forall|j: int| 0 <= j < s.len() - 1 ==> s.drop_last()[j] == s[j]);
    }
}

/// The deep view of a byte vector is its ordinary view.
pub broadcast proof fn lemma_bytes_deep_view(v: Vec<u8>)
    ensures
        #[trigger] v.deep_view() == v@,
{
    assert(v.deep_view() =~= v@);
}

/// True when `s` begins with the byte sequence `pre`.
pub open spec fn starts_with(s: Seq<u8>, pre: Seq<u8>) -> bool {
    pre.len() <= s.len() && s.subrange(0, pre.len() as int) == pre
}

/// `s` with a single trailing carriage return removed, as `str::lines` does
/// to each line.
pub open spec fn strip_cr(s: Seq<u8>) -> Seq<u8> {
    if s.len() > 0 && s[s.len() - 1] == 13 {
        s.drop_last()
    } else {
        s
    }
}

/// The lines of `s`, split on `\n` with one trailing `\r` stripped from each
/// line and no empty line for a trailing `\n`, exactly as `str::lines`.
pub open spec fn spec_lines(s: Seq<u8>) -> Seq<Seq<u8>>
    decreases s.len(),
{
    if s.len() == 0 {
        seq![]
    } else {
        let i = find_byte(s, 10);
        if 0 <= i < s.len() {
            seq![strip_cr(s.subrange(0, i))] + spec_lines(s.subrange(i + 1, s.len() as int))
        } else {
            seq![strip_cr(s)]
        }
    }
}

/// A text has no more lines than bytes.
pub proof fn lemma_spec_lines_len(s: Seq<u8>)
    ensures
        spec_lines(s).len() <= s.len(),
    decreases s.len(),
{
    if s.len() > 0 {
        let i = find_byte(s, 10);
        lemma_find_byte_from(s, 0, 10);
        if 0 <= i < s.len() {
            lemma_spec_lines_len(s.subrange(i + 1, s.len() as int));
        }
    }
}

/// The given lines joined back together with a single `\n` between them.
pub open spec fn join_lines(ls: Seq<Seq<u8>>) -> Seq<u8>
    decreases ls.len(),
{
    if ls.len() == 0 {
        seq![]
    } else if ls.len() == 1 {
        ls[0]
    } else {
        ls[0] + seq![10u8] + join_lines(ls.subrange(1, ls.len() as int))
    }
}

/// `s` with leading and trailing whitespace removed.
pub open spec fn spec_trim(s: Seq<u8>) -> Seq<u8> {
    let a = find_non_ws_from(s, 0);
    let b = rfind_non_ws(s);
    if a <= b {
        s.subrange(a, b + 1)
    } else {
        seq![]
    }
}

/// The decimal digits of `n`, most significant first.
pub open spec fn dec_digits(n: nat) -> Seq<u8>
    decreases n,
{
    if n < 10 {
        seq![(48 + n) as u8]
    } else {
        dec_digits(n / 10) + seq![(48 + n % 10) as u8]
    }
}

/// First occurrence of `b` in `s` at or after `from`, as an index;
/// `s.len()` if absent.
#[verifier::loop_isolation(false)]
pub fn find_byte_in(s: &[u8], from: usize, b: u8) -> (r: usize)
    requires
        from <= s@.len(),
    ensures
        r == find_byte_from(s@, from as int, b),
{
    proof {
        lemma_find_byte_from(s@, from as int, b);
    }
    let mut i: usize = from;
    while i < s.len()
        invariant
            from <= i <= s@.len(),
            forall|j: int| from <= j < i ==> s@[j] != b,
        decreases s@.len() - i,
    {
        if s[i] == b {
            return i;
        }
        i = i + 1;
    }
    i
}

/// First whitespace byte of `s` at or after `from`; `s.len()` if absent.
#[verifier::loop_isolation(false)]
pub fn find_ws_in(s: &[u8], from: usize) -> (r: usize)
    requires
        from <= s@.len(),
    ensures
        r == find_ws_from(s@, from as int),
{
    proof {
        lemma_find_ws_from(s@, from as int);
    }
    let mut i: usize = from;
    while i < s.len()
        invariant
            from <= i <= s@.len(),
            forall|j: int| from <= j < i ==> !is_ws(s@[j]),
        decreases s@.len() - i,
    {
        let c = s[i];
        if c == 32 || c == 9 || c == 10 || c == 11 || c == 12 || c == 13 {
            return i;
        }
        i = i + 1;
    }
    i
}

/// First non-whitespace byte of `s` at or after `from`; `s.len()` if absent.
#[verifier::loop_isolation(false)]
pub fn find_non_ws_in(s: &[u8], from: usize) -> (r: usize)
    requires
        from <= s@.len(),
    ensures
        r == find_non_ws_from(s@, from as int),
{
    proof {
        lemma_find_non_ws_from(s@, from as int);
    }
    let mut i: usize = from;
    while i < s.len()
        invariant
            from <= i <= s@.len(),
            forall|j: int| from <= j < i ==> is_ws(s@[j]),
        decreases s@.len() - i,
    {
        let c = s[i];
        if !(c == 32 || c == 9 || c == 10 || c == 11 || c == 12 || c == 13) {
            return i;
        }
        i = i + 1;
    }
    i
}

/// Last occurrence of `b` in `s` as `Some(index)`; `None` if absent.
#[verifier::loop_isolation(false)]
pub fn rfind_byte_in(s: &[u8], b: u8) -> (r: Option<usize>)
    ensures
        rfind_byte(s@, b) >= 0 ==> r == Some(rfind_byte(s@, b) as usize),
        rfind_byte(s@, b) < 0 ==> r is None,
{
    proof {
        lemma_rfind_byte(s@, b);
    }
    let mut i: usize = s.len();
    while i > 0
        invariant
            i <= s@.len(),
            forall|j: int| i <= j < s@.len() ==> s@[j] != b,
        decreases i,
    {
        i = i - 1;
        if s[i] == b {
            return Some(i);
        }
    }
    None
}

/// True exactly when the two byte slices hold the same bytes.
#[verifier::loop_isolation(false)]
pub fn bytes_eq(a: &[u8], b: &[u8]) -> (r: bool)
    ensures
        r == (a@ == b@),
{
    if a.len() != b.len() {
        assert(a@ != b@);
        return false;
    }
    let mut i: usize = 0;
    while i < a.len()
        invariant
            i <= a@.len(),
            a@.len() == b@.len(),
            forall|j: int| 0 <= j < i ==> a@[j] == b@[j],
        decreases a@.len() - i,
    {
        if a[i] != b[i] {
            return false;
        }
        i = i + 1;
    }
    proof {
        assert(a@ =~= b@);
    }
    true
}

/// True exactly when `s` begins with `pre`.
pub fn starts_with_bytes(s: &[u8], pre: &[u8]) -> (r: bool)
    ensures
        r == starts_with(s@, pre@),
{
    if pre.len() > s.len() {
        return false;
    }
    let head = vstd::slice::slice_subrange(s, 0, pre.len());
    bytes_eq(head, pre)
}

/// The bytes of `s` between `i` and `j`, as a fresh vector.
pub fn subvec(s: &[u8], i: usize, j: usize) -> (r: Vec<u8>)
    requires
        i <= j <= s@.len(),
    ensures
        r@ == s@.subrange(i as int, j as int),
{
    let part = vstd::slice::slice_subrange(s, i, j);
    vstd::slice::slice_to_vec(part)
}

/// `s` with leading and trailing whitespace removed, as a fresh vector.
#[verifier::loop_isolation(false)]
pub fn trim(s: &[u8]) -> (r: Vec<u8>)
    ensures
        r@ == spec_trim(s@),
{
    proof {
        lemma_find_non_ws_from(s@, 0);
        lemma_rfind_non_ws(s@);
    }
    let a = find_non_ws_in(s, 0);
    let mut j: usize = s.len();
    let ghost b = rfind_non_ws(s@);
    while j > 0
        invariant
            j <= s@.len(),
            forall|k: int| j <= k < s@.len() ==> is_ws(s@[k]),
        decreases j,
    {
        let c = s[j - 1];
        if !(c == 32 || c == 9 || c == 10 || c == 11 || c == 12 || c == 13) {
            assert(j - 1 == b);
            assert(a <= b ==> spec_trim(s@) == s@.subrange(a as int, b + 1));
            if a < j {
                return subvec(s, a, j);
            } else {
                assert(a > b);
                return Vec::new();
            }
        }
        j = j - 1;
    }
    assert(b == -1);
    assert(a as int == s@.len());
    Vec::new()
}

/// The decimal digits of `n`, most significant first.
pub fn dec_of_usize(n: usize) -> (r: Vec<u8>)
    ensures
        r@ == dec_digits(n as nat),
    decreases n,
{
    if n < 10 {
        let mut r: Vec<u8> = Vec::new();
        r.push(48 + n as u8);
        assert(r@ =~= dec_digits(n as nat));
        r
    } else {
        let mut r = dec_of_usize(n / 10);
        r.push(48 + (n % 10) as u8);
        assert(r@ =~= dec_digits(n as nat));
        r
    }
}

} // verus!
