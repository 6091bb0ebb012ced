//! The trusted surface of cljrs-reader: its form type and small accessors
//! that tell its variants apart.
use vstd::prelude::*;
use vstd::string::*;
use cljrs_reader::FormKind as ReaderKind;
use cljrs_reader::Form as ReaderForm;

verus! {

#[verifier::external_type_specification]
#[verifier::external_body]
pub struct ExReaderForm(ReaderForm);

/// The collections that cljrs-reader reads, by their reader variant.
pub enum ItemsKind {
    List,
    Vector,
    MapLiteral,
    SetLiteral,
    AnonFn,
    ReaderCond,
}

/// The leaf forms that the tree tells apart, by their reader variant.
pub enum AtomKind {
    Symbol,
    Keyword,
    AutoKeyword,
    Str,
    Bool,
    Nil,
    Other,
}

/// What cljrs-reader makes of `source`: `None` when the whole text reads as
/// forms, otherwise the message of the error it reports.
pub uninterp spec fn reader_error(source: Seq<char>) -> Option<Seq<char>>;

/// The forms cljrs-reader reads from `source`, when it reads it.
pub uninterp spec fn reader_forms(source: Seq<char>) -> Seq<ReaderForm>;

/// The byte span (`start`, `end`) that cljrs-reader records for a form.
pub uninterp spec fn rspan(f: ReaderForm) -> (usize, usize);

/// The collection kind and items of a reader form, when it is a collection.
pub uninterp spec fn ritems(f: ReaderForm) -> Option<(ItemsKind, Seq<ReaderForm>)>;

/// The inner form of a reader macro that wraps one form.
pub uninterp spec fn rwrapped(f: ReaderForm) -> Option<ReaderForm>;

/// The metadata and annotated form of `^meta form`.
pub uninterp spec fn rmeta(f: ReaderForm) -> Option<(ReaderForm, ReaderForm)>;

/// The leaf variant of a reader form.
pub uninterp spec fn ratom(f: ReaderForm) -> AtomKind;

/// An ASCII letter, digit or `-`.
pub open spec fn is_ascii_word_byte(c: u8) -> bool {
    (0x30 <= c <= 0x39) || (0x41 <= c <= 0x5a) || (0x61 <= c <= 0x7a) || c == 0x2d
}

/// The bytes `b` hold a backslash and `u` followed, within the next four
/// characters and after only ASCII letters, digits and `-`, by a non-ASCII
/// character.  cljrs-reader's character-literal lexer slices the run after
/// such a `\u` at byte 5, which can fall inside that character; on these
/// bytes it may panic (it cannot when the backslash sits in a string or
/// comment, or when the character is not alphanumeric, which this does not
/// tell apart).
pub open spec fn wide_u_literal(b: Seq<u8>) -> bool {
    exists|i: int, k: int| #[trigger] wide_u_at(b, i, k)
}

/// The backslash at `i` starts such a literal, with the non-ASCII character
/// `k` bytes on.
pub open spec fn wide_u_at(b: Seq<u8>, i: int, k: int) -> bool {
    &&& 0 <= i && i + k < b.len() && 2 <= k <= 5
    &&& b[i] == 0x5c && b[i + 1] == 0x75 && b[i + k] >= 0x80
    &&& forall|j: int| 2 <= j < k ==> is_ascii_word_byte(#[trigger] b[i + j])
}

/// `cljrs_reader::Parser::parse_all` on `source`, kept from the bytes on
/// which its lexer may panic.  The contract names the
/// outcome: success exactly when `reader_error` is `None`, and on failure the
/// error's display text, and on success the forms read.
#[verifier::external_body]
pub(crate) fn read_forms(source: &str) -> (r: Result<Vec<ReaderForm>, String>)
    requires
        !wide_u_literal(source.spec_bytes()),
    ensures
        match r {
            Ok(forms) => reader_error(source@) is None && forms@ == reader_forms(source@),
            Err(m) => reader_error(source@) == Some(m@),
        },
{
    let mut parser = cljrs_reader::Parser::new(source.to_owned(), "<editor>".to_owned());
    match parser.parse_all() {
        Ok(forms) => Ok(forms),
        Err(e) => Err(e.to_string()),
    }
}

/// The byte span (`span.start`, `span.end`) of a reader form; the conversion
/// checks its values.
#[verifier::external_body]
pub(crate) fn reader_span(f: &ReaderForm) -> (r: (usize, usize))
    ensures
        r == rspan(*f),
{
    (f.span.start, f.span.end)
}

/// The items of a reader collection (`List`, `Vector`, `Map`, `Set`,
/// `AnonFn`, the clauses of `ReaderCond`), or `None` for other variants.
#[verifier::external_body]
pub(crate) fn reader_items(f: &ReaderForm) -> (r: Option<(ItemsKind, &[ReaderForm])>)
    ensures
        match r {
            Some((k, items)) => ritems(*f) == Some((k, items@)),
            None => ritems(*f) is None,
        },
{
    match &f.kind {
        ReaderKind::List(cs) => Some((ItemsKind::List, cs.as_slice())),
        ReaderKind::Vector(cs) => Some((ItemsKind::Vector, cs.as_slice())),
        ReaderKind::Map(cs) => Some((ItemsKind::MapLiteral, cs.as_slice())),
        ReaderKind::Set(cs) => Some((ItemsKind::SetLiteral, cs.as_slice())),
        ReaderKind::AnonFn(cs) => Some((ItemsKind::AnonFn, cs.as_slice())),
        ReaderKind::ReaderCond { clauses, .. } => Some((ItemsKind::ReaderCond, clauses.as_slice())),
        _ => None,
    }
}

/// The inner form of a reader macro that wraps one form (quote, syntax-quote,
/// unquote, unquote-splicing, deref, var, tagged literal), or `None`.
#[verifier::external_body]
pub(crate) fn reader_wrapped(f: &ReaderForm) -> (r: Option<&ReaderForm>)
    ensures
        match r {
            Some(inner) => rwrapped(*f) == Some(*inner),
            None => rwrapped(*f) is None,
        },
{
    match &f.kind {
        ReaderKind::Quote(inner) => Some(&**inner),
        ReaderKind::SyntaxQuote(inner) => Some(&**inner),
        ReaderKind::Unquote(inner) => Some(&**inner),
        ReaderKind::UnquoteSplice(inner) => Some(&**inner),
        ReaderKind::Deref(inner) => Some(&**inner),
        ReaderKind::Var(inner) => Some(&**inner),
        ReaderKind::TaggedLiteral(_, inner) => Some(&**inner),
        _ => None,
    }
}

/// The metadata form and the annotated form of `^meta form`, or `None`.
#[verifier::external_body]
pub(crate) fn reader_meta(f: &ReaderForm) -> (r: Option<(&ReaderForm, &ReaderForm)>)
    ensures
        match r {
            Some((m, a)) => rmeta(*f) == Some((*m, *a)),
            None => rmeta(*f) is None,
        },
{
    match &f.kind {
        ReaderKind::Meta(meta, annotated) => Some((&**meta, &**annotated)),
        _ => None,
    }
}

/// Which leaf variant a reader form is (`Other` for numbers, characters,
/// regexes and the rest).
#[verifier::external_body]
pub(crate) fn reader_atom(f: &ReaderForm) -> (r: AtomKind)
    ensures
        r == ratom(*f),
{
    match &f.kind {
        ReaderKind::Symbol(_) => AtomKind::Symbol,
        ReaderKind::Keyword(_) => AtomKind::Keyword,
        ReaderKind::AutoKeyword(_) => AtomKind::AutoKeyword,
        ReaderKind::Str(_) => AtomKind::Str,
        ReaderKind::Bool(_) => AtomKind::Bool,
        ReaderKind::Nil => AtomKind::Nil,
        _ => AtomKind::Other,
    }
}

} // verus!
