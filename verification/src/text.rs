//! UTF-8 facts and byte-range slicing of string slices.
use vstd::prelude::*;
use vstd::utf8::*;
use vstd::string::*;

verus! {

broadcast use {encode_utf8_valid_utf8, encode_utf8_decode_utf8};

/// The bytes of the UTF-8 encoding of a character sequence.
pub open spec fn utf8(s: Seq<char>) -> Seq<u8> {
    encode_utf8(s)
}

/// The characters that the bytes `b[from..to]` encode.
pub open spec fn chars_in(b: Seq<u8>, from: int, to: int) -> Seq<char> {
    decode_utf8(b.subrange(from, to))
}

/// `i` is a position at which a `&str` with bytes `b` may be split.
pub open spec fn cut_ok(b: Seq<u8>, i: int) -> bool {
    0 <= i <= b.len() && is_char_boundary(b, i)
}

/// A position holding an ASCII byte starts a character.
pub proof fn lemma_cut_at_ascii(b: Seq<u8>, k: int)
    requires
        valid_utf8(b),
        0 <= k < b.len(),
        b[k] < 0x80,
    ensures
        cut_ok(b, k),
{
    is_char_boundary_iff_not_is_continuation_byte(b, k);
}

/// The end of a valid sequence is a character boundary.
pub proof fn lemma_cut_at_end(b: Seq<u8>)
    requires
        valid_utf8(b),
    ensures
        cut_ok(b, b.len() as int),
        cut_ok(b, 0),
{
    is_char_boundary_start_end_of_seq(b);
}

/// The position right after an ASCII byte starts a character (or is the end).
pub proof fn lemma_cut_after_ascii(b: Seq<u8>, k: int)
    requires
        valid_utf8(b),
        0 < k <= b.len(),
        b[k - 1] < 0x80,
    ensures
        cut_ok(b, k),
    decreases b.len(),
{
    if k == b.len() {
        is_char_boundary_start_end_of_seq(b);
    } else {
        let l = length_of_first_scalar(b);
        assert(valid_first_scalar(b));
        if k - 1 < l {
            // Inside the first scalar only its leading byte can be ASCII.
            if k - 1 >= 1 {
                assert(is_continuation_byte(b[k - 1]));
            }
            assert(k == 1);
            assert(is_leading_byte_width_1(b[0]));
            assert(l == 1);
            let rest = pop_first_scalar(b);
            is_char_boundary_start_end_of_seq(rest);
            assert(is_char_boundary(b, k) == is_char_boundary(rest, k - l));
        } else {
            let rest = pop_first_scalar(b);
            assert(rest.len() == b.len() - l);
            assert(rest[k - l - 1] == b[k - 1]);
            lemma_cut_after_ascii(rest, k - l);
            assert(is_char_boundary(b, k) == is_char_boundary(rest, k - l));
        }
    }
}

/// A boundary of the whole is a boundary of a suffix that starts at a boundary.
pub proof fn lemma_cut_in_suffix(b: Seq<u8>, from: int, to: int)
    requires
        valid_utf8(b),
        cut_ok(b, from),
        cut_ok(b, to),
        from <= to,
    ensures
        valid_utf8(b.subrange(from, b.len() as int)),
        cut_ok(b.subrange(from, b.len() as int), to - from),
{
    valid_utf8_split(b, from);
    let t = b.subrange(from, b.len() as int);
    if to == b.len() {
        is_char_boundary_start_end_of_seq(t);
    } else {
        is_char_boundary_iff_not_is_continuation_byte(b, to);
        is_char_boundary_iff_not_is_continuation_byte(t, to - from);
    }
}

/// `s[from..to]`, for byte offsets that fall on character boundaries.
pub fn str_slice(s: &str, from: usize, to: usize) -> (r: &str)
    requires
        from <= to,
        cut_ok(s.spec_bytes(), from as int),
        cut_ok(s.spec_bytes(), to as int),
    ensures
        r.spec_bytes() == s.spec_bytes().subrange(from as int, to as int),
        r@ == chars_in(s.spec_bytes(), from as int, to as int),
{
    let ghost b = s.spec_bytes();
    proof {
        lemma_cut_in_suffix(b, from as int, to as int);
    }
    let (_, tail) = s.split_at(from);
    assert(tail.spec_bytes() =~= b.subrange(from as int, b.len() as int));
    let (mid, _) = tail.split_at(to - from);
    assert(mid.spec_bytes() =~= b.subrange(from as int, to as int));
    proof {
        encode_utf8_decode_utf8(mid@);
    }
    mid
}

/// The bytes between two boundaries are valid UTF-8, and every boundary of
/// the whole that lies between them is a boundary of the piece.
pub proof fn lemma_cut_in_sub(b: Seq<u8>, a: int, c: int, d: int)
    requires
        valid_utf8(b),
        cut_ok(b, a),
        cut_ok(b, c),
        cut_ok(b, d),
        a <= c <= d,
    ensures
        valid_utf8(b.subrange(a, d)),
        cut_ok(b.subrange(a, d), c - a),
{
    lemma_cut_in_suffix(b, a, d);
    lemma_cut_in_suffix(b, a, c);
    let t = b.subrange(a, b.len() as int);
    valid_utf8_split(t, d - a);
    let u = t.subrange(0, d - a);
    assert(u =~= b.subrange(a, d));
    if c - a < u.len() {
        is_char_boundary_iff_not_is_continuation_byte(t, c - a);
        is_char_boundary_iff_not_is_continuation_byte(u, c - a);
    } else {
        is_char_boundary_start_end_of_seq(u);
    }
}

/// Decoding adjacent pieces and joining them decodes the joined piece.
pub proof fn lemma_chars_concat(b: Seq<u8>, a: int, c: int, d: int)
    requires
        valid_utf8(b),
        cut_ok(b, a),
        cut_ok(b, c),
        cut_ok(b, d),
        a <= c <= d,
    ensures
        chars_in(b, a, c) + chars_in(b, c, d) == chars_in(b, a, d),
{
    lemma_cut_in_sub(b, a, c, d);
    let u = b.subrange(a, d);
    decode_utf8_split(u, c - a);
    assert(u.subrange(0, c - a) =~= b.subrange(a, c));
    assert(u.subrange(c - a, u.len() as int) =~= b.subrange(c, d));
}

/// The whole byte string decodes to the characters it encodes.
pub proof fn lemma_chars_whole(s: Seq<char>)
    ensures
        chars_in(utf8(s), 0, utf8(s).len() as int) == s,
        valid_utf8(utf8(s)),
        cut_ok(utf8(s), 0),
        cut_ok(utf8(s), utf8(s).len() as int),
{
    assert(utf8(s).subrange(0, utf8(s).len() as int) =~= utf8(s));
    is_char_boundary_start_end_of_seq(utf8(s));
}

/// A text is empty exactly when its encoding is.
pub proof fn lemma_utf8_empty(s: Seq<char>)
    ensures
        utf8(s).len() == 0 <==> s.len() == 0,
{
    encode_utf8_decode_utf8(s);
    if utf8(s).len() == 0 {
        assert(utf8(s) =~= Seq::<u8>::empty());
    }
}

/// Character-wise equality of two string slices.
pub fn str_eq(x: &str, y: &str) -> (r: bool)
    ensures
        r == (x@ == y@),
{
    let xb = x.as_bytes();
    let yb = y.as_bytes();
    proof {
        encode_utf8_decode_utf8(x@);
        encode_utf8_decode_utf8(y@);
    }
    if xb.len() != yb.len() {
        return false;
    }
    let mut i: usize = 0;
    while i < xb.len()
        invariant
            xb@ == x.spec_bytes(),
            yb@ == y.spec_bytes(),
            xb.len() == yb.len(),
            i <= xb.len(),
            forall|k: int| 0 <= k < i ==> xb@[k] == yb@[k],
        decreases xb.len() - i,
    {
        if xb[i] != yb[i] {
            return false;
        }
        i = i + 1;
    }
    assert(xb@ =~= yb@);
    true
}

/// Whitespace in the sense of Unicode's `White_Space` property.
pub open spec fn is_white_space(c: char) -> bool {
    ||| ('\u{9}' <= c <= '\u{d}')
    ||| c == ' ' || c == '\u{85}' || c == '\u{a0}' || c == '\u{1680}'
    ||| ('\u{2000}' <= c <= '\u{200a}')
    ||| c == '\u{2028}' || c == '\u{2029}' || c == '\u{202f}' || c == '\u{205f}' || c == '\u{3000}'
}

/// Number of whitespace characters at the start of `s`.
pub open spec fn leading_ws(s: Seq<char>) -> int
    decreases s.len(),
{
    if s.len() > 0 && is_white_space(s[0]) {
        1 + leading_ws(s.drop_first())
    } else {
        0
    }
}

/// Length of `s` without its trailing whitespace.
pub open spec fn trimmed_end(s: Seq<char>) -> int
    decreases s.len(),
{
    if s.len() > 0 && is_white_space(s.last()) {
        trimmed_end(s.drop_last())
    } else {
        s.len() as int
    }
}

/// `s` without leading and trailing whitespace.
pub open spec fn trim_spec(s: Seq<char>) -> Seq<char> {
    let t = s.subrange(0, trimmed_end(s));
    t.subrange(leading_ws(t), t.len() as int)
}

/// `s` without trailing whitespace.
pub open spec fn trim_end_spec(s: Seq<char>) -> Seq<char> {
    s.subrange(0, trimmed_end(s))
}

/// `str::trim`: documented to remove leading and trailing whitespace, where
/// whitespace is Unicode's `White_Space` property.
#[verifier::external_body]
pub(crate) fn trim(s: &str) -> (r: &str)
    ensures
        r@ == trim_spec(s@),
{
    s.trim()
}

/// `str::trim_end`: documented to remove trailing whitespace, where
/// whitespace is Unicode's `White_Space` property.
#[verifier::external_body]
pub(crate) fn trim_end(s: &str) -> (r: &str)
    ensures
        r@ == trim_end_spec(s@),
{
    s.trim_end()
}

} // verus!
