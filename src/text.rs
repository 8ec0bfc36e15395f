//! Character-level scanning primitives shared by the decoder, the attachment
//! scanner and the extractors.
use vstd::prelude::*;

verus! {

broadcast use vstd::string::group_string_axioms;

/// Whether `p` occurs in `t` starting at index `i`.
pub open spec fn matches_at(t: Seq<char>, p: Seq<char>, i: int) -> bool {
    0 <= i && i + p.len() <= t.len() && t.subrange(i, i + p.len()) == p
}

/// The first index at or after `from` where `p` occurs in `t`.
pub open spec fn find_from(t: Seq<char>, p: Seq<char>, from: int) -> Option<int>
    decreases t.len() - from,
{
    if from < 0 || from + p.len() > t.len() {
        None
    } else if matches_at(t, p, from) {
        Some(from)
    } else if from >= t.len() {
        None
    } else {
        find_from(t, p, from + 1)
    }
}

/// `find_from` described by its properties: the first occurrence, or none at all.
pub proof fn lemma_find_from(t: Seq<char>, p: Seq<char>, from: int)
    requires
        0 <= from,
    ensures
        match find_from(t, p, from) {
            Some(q) => from <= q && matches_at(t, p, q) && forall|j: int|
                from <= j < q ==> !matches_at(t, p, j),
            None => forall|j: int| from <= j ==> !matches_at(t, p, j),
        },
    decreases t.len() - from,
{
    if from + p.len() > t.len() {
    } else if matches_at(t, p, from) {
    } else {
        assert(p.len() > 0) by {
            if p.len() == 0 {
                assert(t.subrange(from, from) =~= p);
            }
        }
        lemma_find_from(t, p, from + 1);
    }
}

/// Index of `p` in `t` at or after `from`, if any.
pub fn find(t: &Vec<char>, p: &Vec<char>, from: usize) -> (r: Option<usize>)
    ensures
        match r {
            Some(q) => find_from(t@, p@, from as int) == Some(q as int),
            None => find_from(t@, p@, from as int) is None,
        },
{
    let n = t.len();
    let m = p.len();
    if from > n || m > n - from {
        return None;
    }
    let mut i: usize = from;
    while i <= n - m
        invariant
            from <= i,
            m == p@.len(),
            n == t@.len(),
            m <= n,
            find_from(t@, p@, i as int) == find_from(t@, p@, from as int),
        decreases n - m + 1 - i,
    {
        if matches_here(t, p, i) {
            return Some(i);
        }
        if i == n - m {
            assert(find_from(t@, p@, i + 1) is None);
            return None;
        }
        i = i + 1;
    }
    None
}

/// Whether `p` occurs in `t` at index `i`.
pub fn matches_here(t: &Vec<char>, p: &Vec<char>, i: usize) -> (r: bool)
    ensures
        r == matches_at(t@, p@, i as int),
{
    let n = t.len();
    let m = p.len();
    if i > n || m > n - i {
        return false;
    }
    let mut k: usize = 0;
    while k < m
        invariant
            k <= m,
            m == p@.len(),
            n == t@.len(),
            i + m <= n,
            forall|j: int| 0 <= j < k ==> t@[i + j] == p@[j],
        decreases m - k,
    {
        if t[i + k] != p[k] {
            assert(t@.subrange(i as int, i + m)[k as int] != p@[k as int]);
            return false;
        }
        k = k + 1;
    }
    assert(t@.subrange(i as int, i + m) =~= p@);
    true
}

/// The first index at or after `from` (and before `end`) whose character
/// satisfies `f`, or `end` when there is none.
pub open spec fn first_where(t: Seq<char>, f: spec_fn(char) -> bool, from: int, end: int) -> int
    decreases end - from,
{
    if from >= end {
        end
    } else if f(t[from]) {
        from
    } else {
        first_where(t, f, from + 1, end)
    }
}

/// A character that ends a header parameter value: carriage return, line feed
/// or semicolon.
pub open spec fn is_value_end(c: char) -> bool {
    c == '\r' || c == '\n' || c == ';'
}

/// Index of the first character at or after `from` that ends a header value,
/// or the length of `t`.
pub fn find_value_end(t: &Vec<char>, from: usize) -> (r: usize)
    requires
        from <= t@.len(),
    ensures
        from <= r <= t@.len(),
        r as int == first_where(t@, |c: char| is_value_end(c), from as int, t@.len() as int),
{
    let n = t.len();
    let mut i: usize = from;
    while i < n
        invariant
            from <= i <= n,
            n == t@.len(),
            first_where(t@, |c: char| is_value_end(c), i as int, n as int) == first_where(
                t@,
                |c: char| is_value_end(c),
                from as int,
                n as int,
            ),
        decreases n - i,
    {
        let c = t[i];
        if c == '\r' || c == '\n' || c == ';' {
            return i;
        }
        i = i + 1;
    }
    n
}

/// Unicode `White_Space`, the class that `str::trim` and `char::is_whitespace` use.
pub open spec fn is_white_space(c: char) -> bool {
    ('\t' <= c && c <= '\r') || c == ' ' || c == '\u{85}' || c == '\u{a0}' || c == '\u{1680}'
        || ('\u{2000}' <= c && c <= '\u{200a}') || c == '\u{2028}' || c == '\u{2029}' || c
        == '\u{202f}' || c == '\u{205f}' || c == '\u{3000}'
}

pub fn white_space(c: char) -> (r: bool)
    ensures
        r == is_white_space(c),
{
    ('\t' <= c && c <= '\r') || c == ' ' || c == '\u{85}' || c == '\u{a0}' || c == '\u{1680}'
        || ('\u{2000}' <= c && c <= '\u{200a}') || c == '\u{2028}' || c == '\u{2029}' || c
        == '\u{202f}' || c == '\u{205f}' || c == '\u{3000}'
}

/// `s` without the leading and trailing characters that satisfy `f`.
pub open spec fn trim_by(s: Seq<char>, f: spec_fn(char) -> bool) -> Seq<char> {
    trim_end_by(trim_start_by(s, f), f)
}

pub open spec fn trim_start_by(s: Seq<char>, f: spec_fn(char) -> bool) -> Seq<char>
    decreases s.len(),
{
    if s.len() > 0 && f(s[0]) {
        trim_start_by(s.drop_first(), f)
    } else {
        s
    }
}

pub open spec fn trim_end_by(s: Seq<char>, f: spec_fn(char) -> bool) -> Seq<char>
    decreases s.len(),
{
    if s.len() > 0 && f(s.last()) {
        trim_end_by(s.drop_last(), f)
    } else {
        s
    }
}

/// `s` without surrounding white space, as `str::trim` gives it.
pub open spec fn trim_ws(s: Seq<char>) -> Seq<char> {
    trim_by(s, |c: char| is_white_space(c))
}

/// `s` without surrounding double quotes, as `str::trim_matches('"')` gives it.
pub open spec fn trim_quotes(s: Seq<char>) -> Seq<char> {
    trim_by(s, |c: char| c == '"')
}

/// The characters that `trim_bounds` removes: double quotes, or white space.
pub open spec fn trim_class(quotes: bool) -> spec_fn(char) -> bool {
    if quotes {
        |c: char| c == '"'
    } else {
        |c: char| is_white_space(c)
    }
}

fn in_trim_class(c: char, quotes: bool) -> (r: bool)
    ensures
        r == (trim_class(quotes))(c),
{
    if quotes {
        c == '"'
    } else {
        white_space(c)
    }
}

/// The bounds `(a, b)` of `trim_ws(t[lo..hi])` or, when `quotes`, of
/// `trim_quotes(t[lo..hi])`, as indices into `t`.
pub fn trim_bounds(t: &Vec<char>, lo: usize, hi: usize, quotes: bool) -> (r: (usize, usize))
    requires
        lo <= hi <= t@.len(),
    ensures
        lo <= r.0 <= r.1 <= hi,
        t@.subrange(r.0 as int, r.1 as int) == trim_by(
            t@.subrange(lo as int, hi as int),
            trim_class(quotes),
        ),
        quotes ==> t@.subrange(r.0 as int, r.1 as int) == trim_quotes(
            t@.subrange(lo as int, hi as int),
        ),
        !quotes ==> t@.subrange(r.0 as int, r.1 as int) == trim_ws(
            t@.subrange(lo as int, hi as int),
        ),
{
    let ghost f = trim_class(quotes);
    let ghost s = t@.subrange(lo as int, hi as int);
    assert(s =~= t@.subrange(lo as int, hi as int));
    let mut a: usize = lo;
    while a < hi && in_trim_class(t[a], quotes)
        invariant
            lo <= a <= hi <= t@.len(),
            trim_start_by(t@.subrange(a as int, hi as int), f) == trim_start_by(s, f),
            f == trim_class(quotes),
        decreases hi - a,
    {
        assert(t@.subrange(a as int, hi as int)[0] == t@[a as int]);
        assert(t@.subrange(a as int, hi as int).drop_first() =~= t@.subrange(a + 1, hi as int));
        a = a + 1;
    }
    assert(trim_start_by(s, f) == t@.subrange(a as int, hi as int));
    let mut b: usize = hi;
    while b > a && in_trim_class(t[b - 1], quotes)
        invariant
            lo <= a <= b <= hi <= t@.len(),
            trim_end_by(t@.subrange(a as int, b as int), f) == trim_end_by(
                t@.subrange(a as int, hi as int),
                f,
            ),
            f == trim_class(quotes),
        decreases b - a,
    {
        assert(t@.subrange(a as int, b as int).last() == t@[b - 1]);
        assert(t@.subrange(a as int, b as int).drop_last() =~= t@.subrange(a as int, b - 1));
        b = b - 1;
    }
    assert(trim_end_by(t@.subrange(a as int, b as int), f) == t@.subrange(a as int, b as int));
    (a, b)
}

/// Number of characters of `s` that satisfy `f`.
pub open spec fn count_where(s: Seq<char>, f: spec_fn(char) -> bool) -> nat
    decreases s.len(),
{
    if s.len() == 0 {
        0
    } else {
        count_where(s.drop_last(), f) + if f(s.last()) {
            1nat
        } else {
            0nat
        }
    }
}

/// Whether `c` is `e`, or the upper-case ASCII letter of the lower-case ASCII letter `e`.
pub open spec fn ascii_ci_eq(c: char, e: char) -> bool {
    c == e || ('A' <= c && c <= 'Z' && c as u32 + 32 == e as u32)
}

/// Whether `s`, lower-cased, ends with the lower-case ASCII suffix `ext`.
pub open spec fn ends_with_ci(s: Seq<char>, ext: Seq<char>) -> bool {
    ext.len() <= s.len() && forall|i: int|
        0 <= i < ext.len() ==> ascii_ci_eq(#[trigger] s[s.len() - ext.len() + i], ext[i])
}

pub fn ends_with_ignore_case(s: &Vec<char>, ext: &Vec<char>) -> (r: bool)
    ensures
        r == ends_with_ci(s@, ext@),
{
    let n = s.len();
    let m = ext.len();
    if m > n {
        return false;
    }
    let mut i: usize = 0;
    while i < m
        invariant
            i <= m <= n,
            n == s@.len(),
            m == ext@.len(),
            forall|j: int| 0 <= j < i ==> ascii_ci_eq(#[trigger] s@[n - m + j], ext@[j]),
        decreases m - i,
    {
        let c = s[n - m + i];
        let e = ext[i];
        let same = c == e || ('A' <= c && c <= 'Z' && (c as u32) + 32 == e as u32);
        if !same {
            assert(!ascii_ci_eq(s@[n - m + i], ext@[i as int]));
            return false;
        }
        i = i + 1;
    }
    true
}

/// The characters of a string slice, in order.
pub fn chars_of(s: &str) -> (r: Vec<char>)
    ensures
        r@ == s@,
{
    let mut r: Vec<char> = Vec::new();
    for c in it: s.chars()
        invariant
            r@ == it.seq().take(it.index() as int),
    {
        r.push(c);
    }
    r
}

/// Relies on `String::from_iter`: the string holds the given characters in order.
#[verifier::external_body]
pub(crate) fn string_from(v: &Vec<char>) -> (r: String)
    ensures
        r@ == v@,
{
    v.iter().collect()
}

/// The UTF-8 encoding of `v`.
pub fn utf8_bytes(v: &Vec<char>) -> (r: Vec<u8>)
    ensures
        r@ == vstd::utf8::encode_utf8(v@),
{
    let s = string_from(v);
    let b = s.as_str().as_bytes();
    vstd::slice::slice_to_vec(b)
}

} // verus!

verus! {

/// A copy of `t[lo..hi]`.
pub fn copy_range(t: &Vec<char>, lo: usize, hi: usize) -> (r: Vec<char>)
    requires
        lo <= hi <= t@.len(),
    ensures
        r@ == t@.subrange(lo as int, hi as int),
{
    let mut r: Vec<char> = Vec::new();
    let mut i: usize = lo;
    while i < hi
        invariant
            lo <= i <= hi <= t@.len(),
            r@ == t@.subrange(lo as int, i as int),
        decreases hi - i,
    {
        r.push(t[i]);
        assert(t@.subrange(lo as int, i + 1) =~= t@.subrange(lo as int, i as int).push(t@[i as int]));
        i = i + 1;
    }
    r
}

/// The characters of `s` that satisfy `f`, in order.
pub open spec fn keep_where(s: Seq<char>, f: spec_fn(char) -> bool) -> Seq<char>
    decreases s.len(),
{
    if s.len() == 0 {
        s
    } else if f(s.last()) {
        keep_where(s.drop_last(), f).push(s.last())
    } else {
        keep_where(s.drop_last(), f)
    }
}

} // verus!

verus! {

/// `s` with each non-overlapping occurrence of `p`, from the left, replaced
/// by `rep`, as `str::replace` gives it.
pub open spec fn replace_seq(s: Seq<char>, p: Seq<char>, rep: Seq<char>) -> Seq<char>
    decreases s.len(),
{
    if s.len() == 0 {
        s
    } else if p.len() > 0 && p.len() <= s.len() && s.subrange(0, p.len() as int) == p {
        rep + replace_seq(s.subrange(p.len() as int, s.len() as int), p, rep)
    } else {
        seq![s[0]] + replace_seq(s.drop_first(), p, rep)
    }
}

/// `s` with each occurrence of the non-empty `p` replaced by `rep`.
pub fn replace_chars(s: &Vec<char>, p: &Vec<char>, rep: &Vec<char>) -> (r: Vec<char>)
    ensures
        r@ == replace_seq(s@, p@, rep@),
{
    let n = s.len();
    let mut out: Vec<char> = Vec::new();
    let mut i: usize = 0;
    assert(s@.subrange(0, n as int) =~= s@);
    assert(out@ + replace_seq(s@, p@, rep@) =~= replace_seq(s@, p@, rep@));
    while i < n
        invariant
            i <= n == s@.len(),
            out@ + replace_seq(s@.subrange(i as int, n as int), p@, rep@) == replace_seq(
                s@,
                p@,
                rep@,
            ),
        decreases n - i,
    {
        let ghost rest = s@.subrange(i as int, n as int);
        let ghost before = out@;
        if p.len() > 0 && matches_here(s, p, i) {
            assert(rest.subrange(0, p@.len() as int) =~= s@.subrange(i as int, i + p@.len()));
            assert(rest.subrange(p@.len() as int, rest.len() as int) =~= s@.subrange(
                i + p@.len(),
                n as int,
            ));
            let mut k: usize = 0;
            while k < rep.len()
                invariant
                    k <= rep@.len(),
                    out@ == before + rep@.subrange(0, k as int),
                decreases rep@.len() - k,
            {
                out.push(rep[k]);
                assert(rep@.subrange(0, k + 1) =~= rep@.subrange(0, k as int).push(rep@[k as int]));
                k = k + 1;
            }
            assert(rep@.subrange(0, rep@.len() as int) =~= rep@);
            assert(out@ + replace_seq(s@.subrange(i + p@.len(), n as int), p@, rep@) =~= before + (
            rep@ + replace_seq(s@.subrange(i + p@.len(), n as int), p@, rep@)));
            i = i + p.len();
        } else {
            proof {
                if p@.len() > 0 && p@.len() <= rest.len() {
                    assert(rest.subrange(0, p@.len() as int) =~= s@.subrange(
                        i as int,
                        i + p@.len(),
                    ));
                }
            }
            assert(rest[0] == s@[i as int]);
            assert(rest.drop_first() =~= s@.subrange(i + 1, n as int));
            out.push(s[i]);
            assert(out@ + replace_seq(s@.subrange(i + 1, n as int), p@, rep@) =~= before + (seq![
                s@[i as int],
            ] + replace_seq(s@.subrange(i + 1, n as int), p@, rep@)));
            i = i + 1;
        }
    }
    assert(s@.subrange(n as int, n as int) =~= Seq::<char>::empty());
    assert(out@ + Seq::<char>::empty() =~= out@);
    out
}

} // verus!

verus! {

/// The lines of `s` from index `i` on, split at line feeds, a line feed and
/// a carriage return before it ending a line, as `str::lines` gives them.
pub open spec fn lines_from(s: Seq<char>, i: int) -> Seq<Seq<char>>
    decreases s.len() - i,
{
    if i < 0 || i >= s.len() {
        Seq::empty()
    } else {
        let e = first_where(s, |c: char| c == '\n', i, s.len() as int);
        if e < i {
            Seq::empty()
        } else if e >= s.len() {
            seq![s.subrange(i, e)]
        } else {
            seq![strip_cr(s.subrange(i, e))] + lines_from(s, e + 1)
        }
    }
}

pub open spec fn strip_cr(l: Seq<char>) -> Seq<char> {
    if l.len() > 0 && l.last() == '\r' {
        l.drop_last()
    } else {
        l
    }
}

/// The lines of `s`, each without a trailing carriage return.
pub fn lines_of(s: &Vec<char>) -> (r: Vec<Vec<char>>)
    ensures
        r@.map_values(|l: Vec<char>| l@) == lines_from(s@, 0),
{
    let mut r: Vec<Vec<char>> = Vec::new();
    let mut i: usize = 0;
    let n = s.len();
    while i < n
        invariant
            i <= n == s@.len(),
            r@.map_values(|l: Vec<char>| l@) + lines_from(s@, i as int) == lines_from(s@, 0),
        decreases n - i,
    {
        let mut e: usize = i;
        while e < n && s[e] != '\n'
            invariant
                i <= e <= n == s@.len(),
                first_where(s@, |c: char| c == '\n', e as int, n as int) == first_where(
                    s@,
                    |c: char| c == '\n',
                    i as int,
                    n as int,
                ),
            decreases n - e,
        {
            e = e + 1;
        }
        let end = if e < n && e > i && s[e - 1] == '\r' {
            e - 1
        } else {
            e
        };
        let line = crate::text::copy_range(s, i, end);
        proof {
            let l = s@.subrange(i as int, e as int);
            if e < n && e > i && s@[e - 1] == '\r' {
                assert(l.last() == '\r');
                assert(l.drop_last() =~= line@);
            } else {
                assert(l =~= line@);
            }
        }
        let ghost before = r@.map_values(|l: Vec<char>| l@);
        r.push(line);
        assert(r@.map_values(|l: Vec<char>| l@) =~= before.push(line@));
        proof {
            if e < n {
                assert(before + lines_from(s@, i as int) =~= r@.map_values(|l: Vec<char>| l@)
                    + lines_from(s@, e + 1));
            } else {
                assert(before + lines_from(s@, i as int) =~= r@.map_values(|l: Vec<char>| l@)
                    + lines_from(s@, n as int));
            }
        }
        if e == n {
            i = n;
        } else {
            i = e + 1;
        }
    }
    assert(r@.map_values(|l: Vec<char>| l@) + Seq::<Seq<char>>::empty() =~= r@.map_values(
        |l: Vec<char>| l@,
    ));
    r
}

} // verus!
