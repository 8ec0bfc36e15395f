//! Classifies an attachment's content block and decodes it: base64,
//! quoted-printable, or the text as it stands.
use vstd::prelude::*;
use vstd::utf8::encode_utf8;
use crate::text::{
    copy_range, count_where, keep_where, trim_bounds, trim_start_by, trim_ws, utf8_bytes,
    white_space,
    is_white_space,
};

verus! {

/// Above this many characters other than white space a block may be base64.
pub const MIN_BASE64_LEN: usize = 10;

/// More `=` characters than this mark a block as quoted-printable.
pub const MIN_QP_EQUALS: usize = 2;

/// What standard base64 (with padding) decodes `b` to, or `None` where it
/// rejects `b`.
pub uninterp spec fn base64_standard(b: Seq<u8>) -> Option<Seq<u8>>;

/// Relies on `base64::engine::general_purpose::STANDARD.decode`: decoding with
/// the standard alphabet and padding, as a function of the input alone.
#[verifier::external_body]
fn base64_decode(b: &Vec<u8>) -> (r: Option<Vec<u8>>)
    ensures
        match r {
            Some(d) => base64_standard(b@) == Some(d@),
            None => base64_standard(b@) is None,
        },
{
    base64::Engine::decode(&base64::engine::general_purpose::STANDARD, b).ok()
}

pub open spec fn is_ascii_alnum(c: char) -> bool {
    ('0' <= c && c <= '9') || ('a' <= c && c <= 'z') || ('A' <= c && c <= 'Z')
}

/// A base64 digit: an ASCII letter or digit, `+` or `/`.
pub open spec fn is_base64_digit(c: char) -> bool {
    is_ascii_alnum(c) || c == '+' || c == '/'
}

/// A character of the base64 alphabet, padding included.
pub open spec fn is_base64_char(c: char) -> bool {
    is_base64_digit(c) || c == '='
}

/// The base64 heuristic: more than `MIN_BASE64_LEN` characters other than
/// white space, all of them from the base64 alphabet, and more than four
/// fifths of them base64 digits.
pub open spec fn looks_like_base64(s: Seq<char>) -> bool {
    let clean = count_where(s, |c: char| !is_white_space(c));
    let digits = count_where(s, |c: char| is_base64_digit(c));
    &&& clean > MIN_BASE64_LEN
    &&& 5 * digits > 4 * clean
    &&& forall|i: int| 0 <= i < s.len() && !is_white_space(#[trigger] s[i]) ==> is_base64_char(s[i])
}

/// The number of `=` characters in `s`.
pub open spec fn equals_count(s: Seq<char>) -> nat {
    count_where(s, |c: char| c == '=')
}

/// The quoted-printable heuristic: more than `MIN_QP_EQUALS` `=` characters.
pub open spec fn looks_like_quoted_printable(s: Seq<char>) -> bool {
    equals_count(s) > MIN_QP_EQUALS
}

/// `s` without its white space.
pub open spec fn strip_white_space(s: Seq<char>) -> Seq<char> {
    keep_where(s, |c: char| !is_white_space(c))
}

/// The value of a hexadecimal digit of either case.
pub open spec fn hex_value(c: char) -> Option<int> {
    if '0' <= c && c <= '9' {
        Some(c as int - '0' as int)
    } else if 'a' <= c && c <= 'f' {
        Some(c as int - 'a' as int + 10)
    } else if 'A' <= c && c <= 'F' {
        Some(c as int - 'A' as int + 10)
    } else {
        None
    }
}

/// The low eight bits of a character's code point.
pub open spec fn low_byte(c: char) -> u8 {
    (c as u32 % 256) as u8
}

/// Quoted-printable decoding of `s`, appended to `acc`: `=XX` with two hex
/// digits gives that byte; `=` and two other characters are kept as three
/// bytes; a `=` with fewer than two characters after it ends the text as a
/// lone `=`; carriage returns are dropped; a line feed is dropped while
/// nothing has been written; any other character gives its low byte.
pub open spec fn qp_decode_onto(s: Seq<char>, acc: Seq<u8>) -> Seq<u8>
    decreases s.len(),
{
    if s.len() == 0 {
        acc
    } else if s[0] == '=' {
        if s.len() >= 3 {
            let rest = s.subrange(3, s.len() as int);
            match (hex_value(s[1]), hex_value(s[2])) {
                (Some(h), Some(l)) => qp_decode_onto(rest, acc.push((h * 16 + l) as u8)),
                _ => qp_decode_onto(rest, acc + seq![61u8, low_byte(s[1]), low_byte(s[2])]),
            }
        } else {
            acc.push(61u8)
        }
    } else if s[0] == '\r' {
        qp_decode_onto(s.drop_first(), acc)
    } else if s[0] == '\n' && acc.len() == 0 {
        qp_decode_onto(s.drop_first(), acc)
    } else {
        qp_decode_onto(s.drop_first(), acc.push(low_byte(s[0])))
    }
}

pub open spec fn qp_decode(s: Seq<char>) -> Seq<u8> {
    qp_decode_onto(s, Seq::empty())
}

/// What a content block decodes to: the block is trimmed of white space, then
/// read as base64 if it looks like base64 and decodes (with all white space
/// removed, else as it stands), as quoted-printable if it has enough
/// `=` characters, and otherwise taken as its UTF-8 bytes.
pub open spec fn decoded_content(block: Seq<char>) -> Seq<u8> {
    let s = trim_ws(block);
    if looks_like_base64(s) {
        match base64_standard(encode_utf8(strip_white_space(s))) {
            Some(d) => d,
            None => match base64_standard(encode_utf8(s)) {
                Some(d) => d,
                None => encode_utf8(s),
            },
        }
    } else if looks_like_quoted_printable(s) {
        qp_decode(s)
    } else {
        encode_utf8(s)
    }
}

fn hex_digit(c: char) -> (r: Option<u32>)
    ensures
        match r {
            Some(v) => hex_value(c) == Some(v as int),
            None => hex_value(c) is None,
        },
{
    if '0' <= c && c <= '9' {
        Some(c as u32 - '0' as u32)
    } else if 'a' <= c && c <= 'f' {
        Some(c as u32 - 'a' as u32 + 10)
    } else if 'A' <= c && c <= 'F' {
        Some(c as u32 - 'A' as u32 + 10)
    } else {
        None
    }
}

fn low_byte_of(c: char) -> (r: u8)
    ensures
        r == low_byte(c),
{
    (c as u32 % 256) as u8
}

/// Whether `t[lo..hi]` passes the base64 heuristic.
pub fn is_base64_content(t: &Vec<char>, lo: usize, hi: usize) -> (r: bool)
    requires
        lo <= hi <= t@.len(),
    ensures
        r == looks_like_base64(t@.subrange(lo as int, hi as int)),
{
    let ghost s = t@.subrange(lo as int, hi as int);
    let ghost fc = |c: char| !is_white_space(c);
    let ghost fd = |c: char| is_base64_digit(c);
    let mut clean: usize = 0;
    let mut digits: usize = 0;
    let mut valid = true;
    let mut i: usize = lo;
    while i < hi
        invariant
            lo <= i <= hi <= t@.len(),
            s == t@.subrange(lo as int, hi as int),
            fc == (|c: char| !is_white_space(c)),
            fd == (|c: char| is_base64_digit(c)),
            clean == count_where(s.take(i - lo), fc),
            digits == count_where(s.take(i - lo), fd),
            clean <= i - lo,
            digits <= i - lo,
            valid == forall|j: int|
                0 <= j < i - lo && !is_white_space(#[trigger] s[j]) ==> is_base64_char(s[j]),
        decreases hi - i,
    {
        let c = t[i];
        assert(s.take(i - lo + 1).drop_last() =~= s.take(i - lo));
        assert(s.take(i - lo + 1).last() == c);
        let ws = white_space(c);
        let digit = ('0' <= c && c <= '9') || ('a' <= c && c <= 'z') || ('A' <= c && c <= 'Z')
            || c == '+' || c == '/';
        if !ws {
            clean = clean + 1;
            if !digit && c != '=' {
                valid = false;
            }
        }
        if digit {
            digits = digits + 1;
        }
        i = i + 1;
    }
    assert(s.take(hi - lo) =~= s);
    valid && clean > MIN_BASE64_LEN && digits as u128 * 5 > clean as u128 * 4
}

/// Whether `t[lo..hi]` holds more than `MIN_QP_EQUALS` `=` characters.
pub fn is_quoted_printable_content(t: &Vec<char>, lo: usize, hi: usize) -> (r: bool)
    requires
        lo <= hi <= t@.len(),
    ensures
        r == looks_like_quoted_printable(t@.subrange(lo as int, hi as int)),
{
    let ghost s = t@.subrange(lo as int, hi as int);
    let mut n: usize = 0;
    let mut i: usize = lo;
    while i < hi
        invariant
            lo <= i <= hi <= t@.len(),
            s == t@.subrange(lo as int, hi as int),
            n == count_where(s.take(i - lo), |c: char| c == '='),
            n <= i - lo,
        decreases hi - i,
    {
        assert(s.take(i - lo + 1).drop_last() =~= s.take(i - lo));
        assert(s.take(i - lo + 1).last() == t@[i as int]);
        if t[i] == '=' {
            n = n + 1;
        }
        i = i + 1;
    }
    assert(s.take(hi - lo) =~= s);
    n > MIN_QP_EQUALS
}

/// `t[lo..hi]` without carriage returns, line feeds and spaces.
fn strip_white_space_of(t: &Vec<char>, lo: usize, hi: usize) -> (r: Vec<char>)
    requires
        lo <= hi <= t@.len(),
    ensures
        r@ == strip_white_space(t@.subrange(lo as int, hi as int)),
{
    let ghost s = t@.subrange(lo as int, hi as int);
    let mut r: Vec<char> = Vec::new();
    let mut i: usize = lo;
    while i < hi
        invariant
            lo <= i <= hi <= t@.len(),
            s == t@.subrange(lo as int, hi as int),
            r@ == strip_white_space(s.take(i - lo)),
        decreases hi - i,
    {
        assert(s.take(i - lo + 1).drop_last() =~= s.take(i - lo));
        assert(s.take(i - lo + 1).last() == t@[i as int]);
        let c = t[i];
        if !white_space(c) {
            r.push(c);
        }
        i = i + 1;
    }
    assert(s.take(hi - lo) =~= s);
    r
}

/// Quoted-printable decoding of `t[lo..hi]`.
pub fn decode_quoted_printable(t: &Vec<char>, lo: usize, hi: usize) -> (r: Vec<u8>)
    requires
        lo <= hi <= t@.len(),
    ensures
        r@ == qp_decode(t@.subrange(lo as int, hi as int)),
{
    let mut r: Vec<u8> = Vec::new();
    let mut i: usize = lo;
    while i < hi
        invariant
            lo <= i <= hi <= t@.len(),
            qp_decode_onto(t@.subrange(i as int, hi as int), r@) == qp_decode(
                t@.subrange(lo as int, hi as int),
            ),
        decreases hi - i,
    {
        let ghost s = t@.subrange(i as int, hi as int);
        let c = t[i];
        assert(s[0] == c);
        if c == '=' {
            if hi - i >= 3 {
                let h1 = t[i + 1];
                let h2 = t[i + 2];
                assert(s[1] == h1 && s[2] == h2);
                assert(s.subrange(3, s.len() as int) =~= t@.subrange(i + 3, hi as int));
                match (hex_digit(h1), hex_digit(h2)) {
                    (Some(d1), Some(d2)) => {
                        r.push((d1 * 16 + d2) as u8);
                    },
                    _ => {
                        let ghost before = r@;
                        r.push(61u8);
                        r.push(low_byte_of(h1));
                        r.push(low_byte_of(h2));
                        assert(r@ =~= before + seq![61u8, low_byte(h1), low_byte(h2)]);
                    },
                }
                i = i + 3;
            } else {
                r.push(61u8);
                return r;
            }
        } else {
            assert(s.drop_first() =~= t@.subrange(i + 1, hi as int));
            if c == '\r' {
            } else if c == '\n' && r.len() == 0 {
            } else {
                r.push(low_byte_of(c));
            }
            i = i + 1;
        }
    }
    r
}

/// Decodes the content block `t[lo..hi]` of an attachment.
pub fn decode_attachment_content(t: &Vec<char>, lo: usize, hi: usize) -> (r: Vec<u8>)
    requires
        lo <= hi <= t@.len(),
    ensures
        r@ == decoded_content(t@.subrange(lo as int, hi as int)),
{
    let (a, b) = trim_bounds(t, lo, hi, false);
    let ghost s = t@.subrange(a as int, b as int);
    if is_base64_content(t, a, b) {
        let stripped = strip_white_space_of(t, a, b);
        let bytes = utf8_bytes(&stripped);
        match base64_decode(&bytes) {
            Some(d) => {
                return d;
            },
            None => {},
        }
        let block = copy_range(t, a, b);
        let raw = utf8_bytes(&block);
        match base64_decode(&raw) {
            Some(d) => d,
            None => raw,
        }
    } else if is_quoted_printable_content(t, a, b) {
        decode_quoted_printable(t, a, b)
    } else {
        let block = copy_range(t, a, b);
        utf8_bytes(&block)
    }
}

} // verus!

verus! {

/// The upper-case hexadecimal digit of `v`, for `v` in `0..16`.
pub open spec fn hex_char(v: int) -> char {
    seq!['0', '1', '2', '3', '4', '5', '6', '7', '8', '9', 'A', 'B', 'C', 'D', 'E', 'F'][v]
}

/// Quoted-printable encoding of one byte: printable ASCII other than `=` as
/// itself, anything else as `=` and two upper-case hex digits.
pub open spec fn qp_encode_byte(b: u8) -> Seq<char> {
    if 33 <= b <= 126 && b != 61 {
        seq![b as char]
    } else {
        seq!['=', hex_char(b as int / 16), hex_char(b as int % 16)]
    }
}

/// Quoted-printable encoding of a byte sequence.
pub open spec fn qp_encode(b: Seq<u8>) -> Seq<char>
    decreases b.len(),
{
    if b.len() == 0 {
        Seq::empty()
    } else {
        qp_encode_byte(b[0]) + qp_encode(b.drop_first())
    }
}

proof fn lemma_qp_decode_onto_encode(b: Seq<u8>, acc: Seq<u8>)
    ensures
        qp_decode_onto(qp_encode(b), acc) == acc + b,
    decreases b.len(),
{
    if b.len() == 0 {
        assert(acc + b =~= acc);
    } else {
        let x = b[0];
        let e = qp_encode(b.drop_first());
        let s = qp_encode(b);
        lemma_qp_decode_onto_encode(b.drop_first(), acc.push(x));
        assert(acc.push(x) + b.drop_first() =~= acc + b);
        if 33 <= x <= 126 && x != 61 {
            assert(s[0] == x as char);
            assert(s.drop_first() =~= e);
            assert(low_byte(x as char) == x);
        } else {
            let h = x as int / 16;
            let l = x as int % 16;
            assert(s[0] == '=' && s[1] == hex_char(h) && s[2] == hex_char(l));
            assert(s.subrange(3, s.len() as int) =~= e);
            assert(hex_value(hex_char(h)) == Some(h));
            assert(hex_value(hex_char(l)) == Some(l));
            assert((h * 16 + l) as u8 == x);
        }
    }
}

/// Quoted-printable decoding undoes quoted-printable encoding: for every byte
/// sequence `b`, decoding the encoding of `b` gives `b` back.
pub proof fn lemma_qp_round_trip(b: Seq<u8>)
    ensures
        qp_decode(qp_encode(b)) == b,
{
    lemma_qp_decode_onto_encode(b, Seq::empty());
    assert(Seq::<u8>::empty() + b =~= b);
}

proof fn lemma_qp_encode_no_white_space(b: Seq<u8>)
    ensures
        forall|i: int| 0 <= i < qp_encode(b).len() ==> !is_white_space(#[trigger] qp_encode(b)[i]),
    decreases b.len(),
{
    if b.len() > 0 {
        lemma_qp_encode_no_white_space(b.drop_first());
        let e = qp_encode_byte(b[0]);
        let r = qp_encode(b.drop_first());
        assert forall|i: int| 0 <= i < qp_encode(b).len() implies !is_white_space(
            #[trigger] qp_encode(b)[i],
        ) by {
            if i < e.len() {
                assert(qp_encode(b)[i] == e[i]);
            } else {
                assert(qp_encode(b)[i] == r[i - e.len()]);
            }
        }
    }
}

proof fn lemma_trim_ws_noop(s: Seq<char>)
    requires
        forall|i: int| 0 <= i < s.len() ==> !is_white_space(#[trigger] s[i]),
    ensures
        trim_ws(s) == s,
{
    let f = |c: char| is_white_space(c);
    if s.len() > 0 {
        assert(!f(s[0]));
        assert(trim_start_by(s, f) == s);
        assert(!f(s.last()));
    }
}

/// The content decoder returns what was quoted-printable encoded: where the
/// encoded block has more than `MIN_QP_EQUALS` escapes and does not pass for
/// base64, decoding it gives the bytes back.
pub proof fn lemma_decode_qp_round_trip(b: Seq<u8>)
    requires
        looks_like_quoted_printable(qp_encode(b)),
        !looks_like_base64(qp_encode(b)),
    ensures
        decoded_content(qp_encode(b)) == b,
{
    lemma_qp_encode_no_white_space(b);
    lemma_trim_ws_noop(qp_encode(b));
    lemma_qp_round_trip(b);
}

/// A block that passes for base64 and decodes, once all white space is
/// removed, decodes to what standard base64 gives for it.
pub proof fn lemma_base64_block(block: Seq<char>, d: Seq<u8>)
    requires
        looks_like_base64(trim_ws(block)),
        base64_standard(encode_utf8(strip_white_space(trim_ws(block)))) == Some(d),
    ensures
        decoded_content(block) == d,
{
}

} // verus!
