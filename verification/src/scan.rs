//! Byte-level scanning of Clojure source: whitespace, delimiters, balanced
//! forms, `defn` headers and argument vectors.  Strings (with `\` escapes) and
//! `;` line comments are skipped so that brackets inside them do not count.
use vstd::prelude::*;

verus! {

pub const SPACE: u8 = 0x20;
pub const TAB: u8 = 0x09;
pub const NEWLINE: u8 = 0x0a;
pub const RETURN: u8 = 0x0d;
pub const COMMA: u8 = 0x2c;
pub const OPEN_PAREN: u8 = 0x28;
pub const CLOSE_PAREN: u8 = 0x29;
pub const OPEN_BRACKET: u8 = 0x5b;
pub const CLOSE_BRACKET: u8 = 0x5d;
pub const OPEN_BRACE: u8 = 0x7b;
pub const CLOSE_BRACE: u8 = 0x7d;
pub const SEMICOLON: u8 = 0x3b;
pub const DOUBLE_QUOTE: u8 = 0x22;
pub const BACKSLASH: u8 = 0x5c;

/// Whitespace in Clojure source (commas count as whitespace).
pub open spec fn is_ws_byte(c: u8) -> bool {
    c == SPACE || c == TAB || c == NEWLINE || c == RETURN || c == COMMA
}

/// Bytes that end a symbol.
pub open spec fn is_delim_byte(c: u8) -> bool {
    is_ws_byte(c) || c == OPEN_PAREN || c == CLOSE_PAREN || c == OPEN_BRACKET
        || c == CLOSE_BRACKET || c == OPEN_BRACE || c == CLOSE_BRACE || c == SEMICOLON
        || c == DOUBLE_QUOTE
}

pub open spec fn is_open_byte(c: u8) -> bool {
    c == OPEN_PAREN || c == OPEN_BRACKET || c == OPEN_BRACE
}

pub open spec fn is_close_byte(c: u8) -> bool {
    c == CLOSE_PAREN || c == CLOSE_BRACKET || c == CLOSE_BRACE
}

/// Position `pos` is past the end or holds a delimiter.
pub open spec fn spec_is_delim(b: Seq<u8>, pos: int) -> bool {
    pos >= b.len() || is_delim_byte(b[pos])
}

/// First position at or after `i` that is not whitespace.
pub open spec fn spec_skip_ws(b: Seq<u8>, i: int) -> int
    decreases b.len() - i,
{
    if 0 <= i < b.len() && is_ws_byte(b[i]) {
        spec_skip_ws(b, i + 1)
    } else {
        i
    }
}

/// First position at or after `i` that holds a newline, or the end.
pub open spec fn line_end(b: Seq<u8>, i: int) -> int
    decreases b.len() - i,
{
    if 0 <= i < b.len() && b[i] != NEWLINE {
        line_end(b, i + 1)
    } else {
        i
    }
}

/// `pat` occurs in `b` at `pos`.
pub open spec fn starts_with_at(b: Seq<u8>, pos: int, pat: Seq<u8>) -> bool {
    0 <= pos && pos + pat.len() <= b.len() && b.subrange(pos, pos + pat.len()) == pat
}

/// The bytes of `defn`.
pub open spec fn defn_bytes() -> Seq<u8> {
    seq![0x64u8, 0x65u8, 0x66u8, 0x6eu8]
}

/// The bytes of `defn-`.
pub open spec fn defn_private_bytes() -> Seq<u8> {
    seq![0x64u8, 0x65u8, 0x66u8, 0x6eu8, 0x2du8]
}

/// Length of a `defn` / `defn-` keyword standing at `pos`, or 0.
pub open spec fn spec_keyword_len(b: Seq<u8>, pos: int) -> int {
    if starts_with_at(b, pos, defn_private_bytes()) && spec_is_delim(b, pos + 5) {
        5
    } else if starts_with_at(b, pos, defn_bytes()) && spec_is_delim(b, pos + 4) {
        4
    } else {
        0
    }
}

pub proof fn lemma_skip_ws_bounds(b: Seq<u8>, i: int)
    ensures
        spec_skip_ws(b, i) >= i,
        0 <= i <= b.len() ==> spec_skip_ws(b, i) <= b.len(),
        spec_skip_ws(b, i) > i ==> 0 <= i < b.len(),
        0 <= i ==> (spec_skip_ws(b, i) < b.len() ==> !is_ws_byte(b[spec_skip_ws(b, i)])),
        forall|k: int| i <= k < spec_skip_ws(b, i) ==> is_ws_byte(#[trigger] b[k]),
    decreases b.len() - i,
{
    if 0 <= i < b.len() && is_ws_byte(b[i]) {
        lemma_skip_ws_bounds(b, i + 1);
    }
}

pub proof fn lemma_line_end_bounds(b: Seq<u8>, i: int)
    ensures
        line_end(b, i) >= i,
        0 <= i <= b.len() ==> line_end(b, i) <= b.len(),
        0 <= i < b.len() && b[i] != NEWLINE ==> line_end(b, i) > i,
        0 <= i ==> (line_end(b, i) < b.len() ==> b[line_end(b, i)] == NEWLINE),
    decreases b.len() - i,
{
    if 0 <= i < b.len() && b[i] != NEWLINE {
        lemma_line_end_bounds(b, i + 1);
    }
}

/// The position just after the form that opens at `i`, given the bracket
/// depth and whether the scan is inside a string literal.
pub open spec fn form_end_from(b: Seq<u8>, i: int, depth: int, in_str: bool) -> Option<int>
    decreases b.len() + 2 - i,
{
    if i < 0 || i >= b.len() {
        None
    } else if in_str {
        if b[i] == BACKSLASH {
            form_end_from(b, i + 2, depth, true)
        } else if b[i] == DOUBLE_QUOTE {
            form_end_from(b, i + 1, depth, false)
        } else {
            form_end_from(b, i + 1, depth, true)
        }
    } else if b[i] == SEMICOLON {
        proof {
            lemma_line_end_bounds(b, i);
        }
        form_end_from(b, line_end(b, i) + 1, depth, false)
    } else if b[i] == DOUBLE_QUOTE {
        form_end_from(b, i + 1, depth, true)
    } else if is_open_byte(b[i]) {
        form_end_from(b, i + 1, depth + 1, false)
    } else if is_close_byte(b[i]) {
        if depth - 1 == 0 {
            Some(i + 1)
        } else {
            form_end_from(b, i + 1, depth - 1, false)
        }
    } else {
        form_end_from(b, i + 1, depth, false)
    }
}

/// The end of the balanced form that starts at `start`.
pub open spec fn spec_form_end(b: Seq<u8>, start: int) -> Option<int> {
    form_end_from(b, start, 0, false)
}

/// The span of the first `(defn name ...)` / `(defn- name ...)` at or after
/// `i` that is outside strings and comments and whose form is balanced.
pub open spec fn defn_span_from(b: Seq<u8>, name: Seq<u8>, i: int, in_str: bool) -> Option<(int, int)>
    decreases b.len() + 2 - i,
{
    if i < 0 || i >= b.len() {
        None
    } else if in_str {
        if b[i] == BACKSLASH {
            defn_span_from(b, name, i + 2, true)
        } else if b[i] == DOUBLE_QUOTE {
            defn_span_from(b, name, i + 1, false)
        } else {
            defn_span_from(b, name, i + 1, true)
        }
    } else if b[i] == DOUBLE_QUOTE {
        defn_span_from(b, name, i + 1, true)
    } else if b[i] == SEMICOLON {
        proof {
            lemma_line_end_bounds(b, i);
        }
        defn_span_from(b, name, line_end(b, i), false)
    } else if b[i] == OPEN_PAREN && defn_header_at(b, name, i) && spec_form_end(b, i) is Some {
        Some((i, spec_form_end(b, i)->0))
    } else {
        defn_span_from(b, name, i + 1, false)
    }
}

/// Where the name of a `defn` opening at `i` starts.
pub open spec fn defn_name_pos(b: Seq<u8>, i: int) -> int {
    let j = spec_skip_ws(b, i + 1);
    spec_skip_ws(b, j + spec_keyword_len(b, j))
}

/// At `i` stands `(defn name` (or `defn-`), the name followed by a delimiter.
pub open spec fn defn_header_at(b: Seq<u8>, name: Seq<u8>, i: int) -> bool {
    let j = spec_skip_ws(b, i + 1);
    let k = defn_name_pos(b, i);
    &&& spec_keyword_len(b, j) > 0
    &&& starts_with_at(b, k, name)
    &&& spec_is_delim(b, k + name.len())
}

/// The span of the `defn` named `name` in `b`.
pub open spec fn spec_find_defn_span(b: Seq<u8>, name: Seq<u8>) -> Option<(int, int)> {
    defn_span_from(b, name, 0, false)
}

/// The argument vector of a form: the first `[` at depth 1 (outside strings
/// and comments) and the end of its balanced form; none when the form closes
/// first.
pub open spec fn args_vec_from(b: Seq<u8>, i: int, depth: int, in_str: bool) -> Option<(int, int)>
    decreases b.len() + 2 - i,
{
    if i < 0 || i >= b.len() {
        None
    } else if in_str {
        if b[i] == BACKSLASH {
            args_vec_from(b, i + 2, depth, true)
        } else if b[i] == DOUBLE_QUOTE {
            args_vec_from(b, i + 1, depth, false)
        } else {
            args_vec_from(b, i + 1, depth, true)
        }
    } else if b[i] == SEMICOLON {
        proof {
            lemma_line_end_bounds(b, i);
        }
        args_vec_from(b, line_end(b, i) + 1, depth, false)
    } else if b[i] == DOUBLE_QUOTE {
        args_vec_from(b, i + 1, depth, true)
    } else if b[i] == OPEN_PAREN || b[i] == OPEN_BRACE {
        args_vec_from(b, i + 1, depth + 1, false)
    } else if b[i] == OPEN_BRACKET && depth == 1 {
        match spec_form_end(b, i) {
            Some(end) => Some((i, end)),
            None => None,
        }
    } else if b[i] == OPEN_BRACKET {
        args_vec_from(b, i + 1, depth + 1, false)
    } else if is_close_byte(b[i]) {
        if depth - 1 == 0 {
            None
        } else {
            args_vec_from(b, i + 1, depth - 1, false)
        }
    } else {
        args_vec_from(b, i + 1, depth, false)
    }
}

/// The argument vector of the `defn` that opens at `defn_start`.
pub open spec fn spec_find_args_vec(b: Seq<u8>, defn_start: int) -> Option<(int, int)> {
    args_vec_from(b, defn_start + 1, 1, false)
}


/// A form that ends, ends after it starts, inside the bytes, just past a
/// closing bracket.
pub proof fn lemma_form_end_pos(b: Seq<u8>, i: int, depth: int, in_str: bool)
    requires
        form_end_from(b, i, depth, in_str) is Some,
    ensures
        i < form_end_from(b, i, depth, in_str)->0 <= b.len(),
        is_close_byte(b[form_end_from(b, i, depth, in_str)->0 - 1]),
    decreases b.len() + 2 - i,
{
    if i < 0 || i >= b.len() {
    } else if in_str {
        if b[i] == BACKSLASH {
            lemma_form_end_pos(b, i + 2, depth, true);
        } else if b[i] == DOUBLE_QUOTE {
            lemma_form_end_pos(b, i + 1, depth, false);
        } else {
            lemma_form_end_pos(b, i + 1, depth, true);
        }
    } else if b[i] == SEMICOLON {
        lemma_line_end_bounds(b, i);
        lemma_form_end_pos(b, line_end(b, i) + 1, depth, false);
    } else if b[i] == DOUBLE_QUOTE {
        lemma_form_end_pos(b, i + 1, depth, true);
    } else if is_open_byte(b[i]) {
        lemma_form_end_pos(b, i + 1, depth + 1, false);
    } else if is_close_byte(b[i]) {
        if depth - 1 != 0 {
            lemma_form_end_pos(b, i + 1, depth - 1, false);
        }
    } else {
        lemma_form_end_pos(b, i + 1, depth, false);
    }
}

/// Scanning one level deeper ends strictly later.
pub proof fn lemma_form_end_deeper(b: Seq<u8>, i: int, depth: int, in_str: bool)
    requires
        depth >= 1,
        form_end_from(b, i, depth, in_str) is Some,
        form_end_from(b, i, depth + 1, in_str) is Some,
    ensures
        form_end_from(b, i, depth, in_str)->0 < form_end_from(b, i, depth + 1, in_str)->0,
    decreases b.len() + 2 - i,
{
    if i < 0 || i >= b.len() {
    } else if in_str {
        if b[i] == BACKSLASH {
            lemma_form_end_deeper(b, i + 2, depth, true);
        } else if b[i] == DOUBLE_QUOTE {
            lemma_form_end_deeper(b, i + 1, depth, false);
        } else {
            lemma_form_end_deeper(b, i + 1, depth, true);
        }
    } else if b[i] == SEMICOLON {
        lemma_line_end_bounds(b, i);
        lemma_form_end_deeper(b, line_end(b, i) + 1, depth, false);
    } else if b[i] == DOUBLE_QUOTE {
        lemma_form_end_deeper(b, i + 1, depth, true);
    } else if is_open_byte(b[i]) {
        lemma_form_end_deeper(b, i + 1, depth + 1, false);
    } else if is_close_byte(b[i]) {
        if depth == 1 {
            lemma_form_end_pos(b, i + 1, depth, false);
        } else {
            lemma_form_end_deeper(b, i + 1, depth - 1, false);
        }
    } else {
        lemma_form_end_deeper(b, i + 1, depth, false);
    }
}

/// The argument vector found inside a form closes before the form does.
pub proof fn lemma_args_inside(b: Seq<u8>, i: int, depth: int, in_str: bool)
    requires
        depth >= 1,
        args_vec_from(b, i, depth, in_str) is Some,
        form_end_from(b, i, depth, in_str) is Some,
    ensures
        ({
            let (a, e) = args_vec_from(b, i, depth, in_str)->0;
            e < form_end_from(b, i, depth, in_str)->0
        }),
    decreases b.len() + 2 - i,
{
    if i < 0 || i >= b.len() {
    } else if in_str {
        if b[i] == BACKSLASH {
            lemma_args_inside(b, i + 2, depth, true);
        } else if b[i] == DOUBLE_QUOTE {
            lemma_args_inside(b, i + 1, depth, false);
        } else {
            lemma_args_inside(b, i + 1, depth, true);
        }
    } else if b[i] == SEMICOLON {
        lemma_line_end_bounds(b, i);
        lemma_args_inside(b, line_end(b, i) + 1, depth, false);
    } else if b[i] == DOUBLE_QUOTE {
        lemma_args_inside(b, i + 1, depth, true);
    } else if b[i] == OPEN_PAREN || b[i] == OPEN_BRACE {
        lemma_args_inside(b, i + 1, depth + 1, false);
    } else if b[i] == OPEN_BRACKET && depth == 1 {
        assert(spec_form_end(b, i) == form_end_from(b, i + 1, 1, false));
        assert(form_end_from(b, i, 1, false) == form_end_from(b, i + 1, 2, false));
        lemma_form_end_deeper(b, i + 1, 1, false);
    } else if b[i] == OPEN_BRACKET {
        lemma_args_inside(b, i + 1, depth + 1, false);
    } else if is_close_byte(b[i]) {
        lemma_args_inside(b, i + 1, depth - 1, false);
    } else {
        lemma_args_inside(b, i + 1, depth, false);
    }
}

/// What the argument-vector scan returns: an opening bracket after `i` and
/// the end of its form.
pub proof fn lemma_args_vec_props(b: Seq<u8>, i: int, depth: int, in_str: bool)
    requires
        args_vec_from(b, i, depth, in_str) is Some,
    ensures
        ({
            let (a, e) = args_vec_from(b, i, depth, in_str)->0;
            &&& i <= a < b.len()
            &&& b[a] == OPEN_BRACKET
            &&& spec_form_end(b, a) == Some(e)
        }),
    decreases b.len() + 2 - i,
{
    if i < 0 || i >= b.len() {
    } else if in_str {
        if b[i] == BACKSLASH {
            lemma_args_vec_props(b, i + 2, depth, true);
        } else if b[i] == DOUBLE_QUOTE {
            lemma_args_vec_props(b, i + 1, depth, false);
        } else {
            lemma_args_vec_props(b, i + 1, depth, true);
        }
    } else if b[i] == SEMICOLON {
        lemma_line_end_bounds(b, i);
        lemma_args_vec_props(b, line_end(b, i) + 1, depth, false);
    } else if b[i] == DOUBLE_QUOTE {
        lemma_args_vec_props(b, i + 1, depth, true);
    } else if b[i] == OPEN_PAREN || b[i] == OPEN_BRACE {
        lemma_args_vec_props(b, i + 1, depth + 1, false);
    } else if b[i] == OPEN_BRACKET && depth == 1 {
    } else if b[i] == OPEN_BRACKET {
        lemma_args_vec_props(b, i + 1, depth + 1, false);
    } else if is_close_byte(b[i]) {
        lemma_args_vec_props(b, i + 1, depth - 1, false);
    } else {
        lemma_args_vec_props(b, i + 1, depth, false);
    }
}

/// What the `defn` scan returns: an opening parenthesis with a `defn`
/// header for `name`, and the end of its form.
pub proof fn lemma_defn_span_props(b: Seq<u8>, name: Seq<u8>, i: int, in_str: bool)
    requires
        defn_span_from(b, name, i, in_str) is Some,
    ensures
        ({
            let (s, e) = defn_span_from(b, name, i, in_str)->0;
            &&& i <= s < b.len()
            &&& b[s] == OPEN_PAREN
            &&& defn_header_at(b, name, s)
            &&& spec_form_end(b, s) == Some(e)
        }),
    decreases b.len() + 2 - i,
{
    if i < 0 || i >= b.len() {
    } else if in_str {
        if b[i] == BACKSLASH {
            lemma_defn_span_props(b, name, i + 2, true);
        } else if b[i] == DOUBLE_QUOTE {
            lemma_defn_span_props(b, name, i + 1, false);
        } else {
            lemma_defn_span_props(b, name, i + 1, true);
        }
    } else if b[i] == DOUBLE_QUOTE {
        lemma_defn_span_props(b, name, i + 1, true);
    } else if b[i] == SEMICOLON {
        lemma_line_end_bounds(b, i);
        lemma_defn_span_props(b, name, line_end(b, i), false);
    } else if b[i] == OPEN_PAREN && defn_header_at(b, name, i) && spec_form_end(b, i) is Some {
    } else {
        lemma_defn_span_props(b, name, i + 1, false);
    }
}

pub open spec fn opt_pos(o: Option<usize>) -> Option<int> {
    match o {
        Some(v) => Some(v as int),
        None => None,
    }
}

pub open spec fn opt_span(o: Option<(usize, usize)>) -> Option<(int, int)> {
    match o {
        Some(v) => Some((v.0 as int, v.1 as int)),
        None => None,
    }
}

pub fn is_ws(c: u8) -> (r: bool)
    ensures
        r == is_ws_byte(c),
{
    c == SPACE || c == TAB || c == NEWLINE || c == RETURN || c == COMMA
}

/// Skip whitespace starting at `i`.
pub fn skip_ws(src: &[u8], start: usize) -> (r: usize)
    ensures
        r == spec_skip_ws(src@, start as int),
{
    let mut i = start;
    while i < src.len() && is_ws(src[i])
        invariant
            spec_skip_ws(src@, i as int) == spec_skip_ws(src@, start as int),
        decreases src.len() - i,
    {
        i = i + 1;
    }
    i
}


/// A position past the end, or one holding a delimiter.
pub fn is_delim(src: &[u8], pos: usize) -> (r: bool)
    ensures
        r == spec_is_delim(src@, pos as int),
{
    if pos >= src.len() {
        true
    } else {
        let c = src[pos];
        is_ws(c) || c == OPEN_PAREN || c == CLOSE_PAREN || c == OPEN_BRACKET || c == CLOSE_BRACKET
            || c == OPEN_BRACE || c == CLOSE_BRACE || c == SEMICOLON || c == DOUBLE_QUOTE
    }
}

/// `pat` occurs in `src` at `pos`.
pub fn bytes_at(src: &[u8], pos: usize, pat: &[u8]) -> (r: bool)
    ensures
        r == starts_with_at(src@, pos as int, pat@),
{
    if pat.len() > src.len() || pos > src.len() - pat.len() {
        return false;
    }
    let mut k: usize = 0;
    while k < pat.len()
        invariant
            pos + pat.len() <= src.len(),
            k <= pat.len(),
            forall|m: int| 0 <= m < k ==> src@[pos + m] == pat@[m],
        decreases pat.len() - k,
    {
        assert(pos + k < src@.len());
        if src[pos + k] != pat[k] {
            assert(src@.subrange(pos as int, pos + pat@.len())[k as int] != pat@[k as int]);
            return false;
        }
        k = k + 1;
    }
    assert(src@.subrange(pos as int, pos + pat@.len()) =~= pat@);
    true
}

/// Length of a `defn` / `defn-` keyword at `pos` (0 when there is none).
pub fn keyword_len(src: &[u8], pos: usize) -> (r: usize)
    requires
        pos <= src@.len(),
    ensures
        r as int == spec_keyword_len(src@, pos as int),
{
    let len = src.len();
    let defn = len - pos >= 4 && src[pos] == 0x64u8 && src[pos + 1] == 0x65u8
        && src[pos + 2] == 0x66u8 && src[pos + 3] == 0x6eu8;
    proof {
        if defn {
            assert(src@.subrange(pos as int, pos + 4) =~= defn_bytes());
        } else if len - pos >= 4 {
            assert(src@.subrange(pos as int, pos + 4)[0] == src@[pos as int]);
            assert(src@.subrange(pos as int, pos + 4)[1] == src@[pos + 1]);
            assert(src@.subrange(pos as int, pos + 4)[2] == src@[pos + 2]);
            assert(src@.subrange(pos as int, pos + 4)[3] == src@[pos + 3]);
            assert(!starts_with_at(src@, pos as int, defn_bytes()));
            if len - pos >= 5 {
                assert(src@.subrange(pos as int, pos + 5)[0] == src@[pos as int]);
                assert(src@.subrange(pos as int, pos + 5)[1] == src@[pos + 1]);
                assert(src@.subrange(pos as int, pos + 5)[2] == src@[pos + 2]);
                assert(src@.subrange(pos as int, pos + 5)[3] == src@[pos + 3]);
                assert(!starts_with_at(src@, pos as int, defn_private_bytes()));
            }
        }
    }
    if defn && len - pos >= 5 && src[pos + 4] == 0x2du8 && is_delim(src, pos + 5) {
        assert(src@.subrange(pos as int, pos + 5) =~= defn_private_bytes());
        5
    } else if defn && is_delim(src, pos + 4) {
        proof {
            if starts_with_at(src@, pos as int, defn_private_bytes()) {
                assert(src@.subrange(pos as int, pos + 5)[4] == src@[pos + 4]);
                assert(!spec_is_delim(src@, pos + 5) || src@[pos + 4] != 0x2du8);
            }
        }
        4
    } else {
        proof {
            if starts_with_at(src@, pos as int, defn_private_bytes()) {
                assert(src@.subrange(pos as int, pos + 5)[4] == src@[pos + 4]);
                assert(src@.subrange(pos as int, pos + 5)[0] == src@[pos as int]);
                assert(src@.subrange(pos as int, pos + 5)[1] == src@[pos + 1]);
                assert(src@.subrange(pos as int, pos + 5)[2] == src@[pos + 2]);
                assert(src@.subrange(pos as int, pos + 5)[3] == src@[pos + 3]);
            }
        }
        0
    }
}

/// The position of the newline that ends the line containing `start`, or the end.
pub fn to_line_end(src: &[u8], start: usize) -> (r: usize)
    ensures
        r == line_end(src@, start as int),
{
    let mut i = start;
    while i < src.len() && src[i] != NEWLINE
        invariant
            line_end(src@, i as int) == line_end(src@, start as int),
        decreases src.len() - i,
    {
        i = i + 1;
    }
    i
}

/// The end of the balanced form that starts at `start`.
pub fn form_end(src: &[u8], start: usize) -> (r: Option<usize>)
    ensures
        opt_pos(r) == spec_form_end(src@, start as int),
{
    let len = src.len();
    let mut opens: usize = 0;
    let mut closes: usize = 0;
    let mut in_str = false;
    let mut i = start;
    while i < len
        invariant
            len == src@.len(),
            start <= i,
            opens <= i - start,
            closes <= i - start,
            form_end_from(src@, i as int, opens - closes, in_str) == spec_form_end(src@, start as int),
        decreases len - i,
    {
        let c = src[i];
        let ghost i0 = i as int;
        let ghost d0 = opens - closes;
        let ghost s0 = in_str;
        assert(form_end_from(src@, len as int, d0, s0) is None);
        assert(form_end_from(src@, len + 1, d0, s0) is None);
        if in_str {
            if c == BACKSLASH {
                if len - i >= 2 {
                    i = i + 2;
                } else {
                    i = len;
                }
            } else if c == DOUBLE_QUOTE {
                in_str = false;
                i = i + 1;
            } else {
                i = i + 1;
            }
        } else if c == SEMICOLON {
            let j = to_line_end(src, i);
            proof {
                lemma_line_end_bounds(src@, i as int);
            }
            if j < len {
                i = j + 1;
            } else {
                i = len;
            }
        } else if c == DOUBLE_QUOTE {
            in_str = true;
            i = i + 1;
        } else if c == OPEN_PAREN || c == OPEN_BRACKET || c == OPEN_BRACE {
            opens = opens + 1;
            i = i + 1;
        } else if c == CLOSE_PAREN || c == CLOSE_BRACKET || c == CLOSE_BRACE {
            closes = closes + 1;
            if opens == closes {
                assert(form_end_from(src@, i0, d0, s0) == Some(i0 + 1));
                return Some(i + 1);
            }
            i = i + 1;
        } else {
            i = i + 1;
        }
        assert(form_end_from(src@, i0, d0, s0) == form_end_from(src@, i as int, opens - closes, in_str));
    }
    None
}

/// The span of the `(defn name ...)` form in `src`, skipping strings and comments.
pub fn find_defn_span(src: &[u8], name: &[u8]) -> (r: Option<(usize, usize)>)
    ensures
        opt_span(r) == spec_find_defn_span(src@, name@),
{
    let len = src.len();
    let mut i: usize = 0;
    let mut in_str = false;
    while i < len
        invariant
            len == src@.len(),
            defn_span_from(src@, name@, i as int, in_str) == spec_find_defn_span(src@, name@),
        decreases len - i,
    {
        let c = src[i];
        let ghost i0 = i as int;
        let ghost s0 = in_str;
        assert(defn_span_from(src@, name@, len as int, s0) is None);
        if in_str {
            if c == BACKSLASH {
                if len - i >= 2 {
                    i = i + 2;
                } else {
                    i = len;
                    assert(defn_span_from(src@, name@, i0 + 2, true) is None);
                }
            } else if c == DOUBLE_QUOTE {
                in_str = false;
                i = i + 1;
            } else {
                i = i + 1;
            }
        } else if c == DOUBLE_QUOTE {
            in_str = true;
            i = i + 1;
        } else if c == SEMICOLON {
            proof {
                lemma_line_end_bounds(src@, i as int);
            }
            i = to_line_end(src, i);
        } else {
            if c == OPEN_PAREN {
                let j = skip_ws(src, i + 1);
                proof {
                    lemma_skip_ws_bounds(src@, i + 1);
                }
                let kw = keyword_len(src, j);
                if kw > 0 {
                    let k = skip_ws(src, j + kw);
                    proof {
                        lemma_skip_ws_bounds(src@, j + kw);
                    }
                    if bytes_at(src, k, name) && is_delim(src, k + name.len()) {
                        assert(defn_header_at(src@, name@, i0));
                        match form_end(src, i) {
                            Some(end) => {
                                return Some((i, end));
                            },
                            None => {},
                        }
                    }
                }
            }
            i = i + 1;
        }
        assert(defn_span_from(src@, name@, i0, s0) == defn_span_from(src@, name@, i as int, in_str));
    }
    None
}

/// The argument vector of the form that opens at `defn_start`.
pub fn find_args_vec(src: &[u8], defn_start: usize) -> (r: Option<(usize, usize)>)
    ensures
        opt_span(r) == spec_find_args_vec(src@, defn_start as int),
{
    let len = src.len();
    if defn_start >= len {
        return None;
    }
    let mut opens: usize = 0;
    let mut closes: usize = 0;
    let mut in_str = false;
    let mut i = defn_start + 1;
    while i < len
        invariant
            len == src@.len(),
            defn_start < i,
            opens <= i - defn_start,
            closes <= i - defn_start,
            args_vec_from(src@, i as int, 1 + opens - closes, in_str) == spec_find_args_vec(
                src@,
                defn_start as int,
            ),
        decreases len - i,
    {
        let c = src[i];
        let ghost i0 = i as int;
        let ghost d0 = 1 + opens - closes;
        let ghost s0 = in_str;
        assert(args_vec_from(src@, len as int, d0, s0) is None);
        assert(args_vec_from(src@, len + 1, d0, s0) is None);
        if in_str {
            if c == BACKSLASH {
                if len - i >= 2 {
                    i = i + 2;
                } else {
                    i = len;
                }
            } else if c == DOUBLE_QUOTE {
                in_str = false;
                i = i + 1;
            } else {
                i = i + 1;
            }
        } else if c == SEMICOLON {
            let j = to_line_end(src, i);
            proof {
                lemma_line_end_bounds(src@, i as int);
            }
            if j < len {
                i = j + 1;
            } else {
                i = len;
            }
        } else if c == DOUBLE_QUOTE {
            in_str = true;
            i = i + 1;
        } else if c == OPEN_PAREN || c == OPEN_BRACE {
            opens = opens + 1;
            i = i + 1;
        } else if c == OPEN_BRACKET && opens == closes {
            match form_end(src, i) {
                Some(end) => {
                    return Some((i, end));
                },
                None => {
                    return None;
                },
            }
        } else if c == OPEN_BRACKET {
            opens = opens + 1;
            i = i + 1;
        } else if c == CLOSE_PAREN || c == CLOSE_BRACKET || c == CLOSE_BRACE {
            closes = closes + 1;
            if closes == opens + 1 {
                return None;
            }
            i = i + 1;
        } else {
            i = i + 1;
        }
        assert(args_vec_from(src@, i0, d0, s0) == args_vec_from(src@, i as int, 1 + opens - closes, in_str));
    }
    None
}

} // verus!
