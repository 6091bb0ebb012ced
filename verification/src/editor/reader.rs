//! Building the syntax tree from what cljrs-reader reads.  The reader's forms
//! are opaque here: a few small trusted accessors expose their spans and
//! shapes, and a verified conversion checks every span it is given against the
//! source before it builds a node from it.
use vstd::prelude::*;
use vstd::string::*;
use crate::text::{str_slice, cut_ok};
use crate::editor::ast::{
    Form, FormKind, Span, ClojureAst, form_wf, ast_wf, children_nested, closed_after_children,
    span_in, forms_ordered,
};
use crate::editor::error::{EditorError, ErrorView};
use cljrs_reader::Form as ReaderForm;
use crate::editor::zipper::{FormView, form_view, forms_view, lemma_children_view};
use crate::text::{chars_in, utf8};
use vstd::utf8::is_char_boundary;
use crate::editor::reader_api::{
    reader_forms, rspan, ritems, rwrapped, rmeta, ratom,
    ItemsKind, AtomKind, reader_error, read_forms, wide_u_literal, wide_u_at, is_ascii_word_byte, reader_span, reader_items, reader_wrapped, reader_meta,
    reader_atom,
};

verus! {

broadcast use vstd::std_specs::vec::group_vec_axioms;

/// The kind a collection becomes in the tree.
pub open spec fn items_form_kind(k: ItemsKind) -> FormKind {
    match k {
        ItemsKind::List => FormKind::List,
        ItemsKind::Vector => FormKind::Vector,
        ItemsKind::MapLiteral => FormKind::MapLiteral,
        ItemsKind::SetLiteral => FormKind::SetLiteral,
        ItemsKind::AnonFn => FormKind::List,
        ItemsKind::ReaderCond => FormKind::List,
    }
}

/// The kind a leaf becomes in the tree.
pub open spec fn atom_form_kind(k: AtomKind) -> FormKind {
    match k {
        AtomKind::Symbol => FormKind::Symbol,
        AtomKind::Keyword => FormKind::Keyword,
        AtomKind::AutoKeyword => FormKind::Keyword,
        AtomKind::Str => FormKind::String,
        AtomKind::Bool => FormKind::Bool,
        AtomKind::Nil => FormKind::Nil,
        AtomKind::Other => FormKind::Number,
    }
}

fn items_kind_to_form_kind(k: ItemsKind) -> (r: FormKind)
    ensures
        r == items_form_kind(k),
{
    match k {
        ItemsKind::List => FormKind::List,
        ItemsKind::Vector => FormKind::Vector,
        ItemsKind::MapLiteral => FormKind::MapLiteral,
        ItemsKind::SetLiteral => FormKind::SetLiteral,
        ItemsKind::AnonFn => FormKind::List,
        ItemsKind::ReaderCond => FormKind::List,
    }
}

fn atom_kind_to_form_kind(k: AtomKind) -> (r: FormKind)
    ensures
        r == atom_form_kind(k),
{
    match k {
        AtomKind::Symbol => FormKind::Symbol,
        AtomKind::Keyword => FormKind::Keyword,
        AtomKind::AutoKeyword => FormKind::Keyword,
        AtomKind::Str => FormKind::String,
        AtomKind::Bool => FormKind::Bool,
        AtomKind::Nil => FormKind::Nil,
        AtomKind::Other => FormKind::Number,
    }
}

/// The node that the reader form `f` becomes over the source bytes `b`,
/// when its span is at most `limit` bytes: `None` when a span falls outside
/// the source, off a character boundary, or out of its parent (or, for a
/// collection, does not leave room for its closing delimiter), or when the
/// children overlap.  The node's text is the source its span covers.
pub open spec fn conv(f: ReaderForm, b: Seq<u8>, limit: int) -> Option<FormView>
    decreases limit, 0int, 0int,
{
    let start = rspan(f).0 as int;
    let end = rspan(f).1 as int;
    if !(start <= end && end <= b.len() && end - start <= limit) {
        None
    } else if !(is_char_boundary(b, start) && is_char_boundary(b, end)) {
        None
    } else {
        let span = Span { start: start as usize, end: end as usize };
        let text = chars_in(b, start, end);
        match ritems(f) {
            Some((k, items)) => if end == start || !is_char_boundary(b, end - 1) {
                None
            } else {
                match conv_items(items, b, start, end, end - start - 1, items.len() as int) {
                    Some((cs, _)) => Some(FormView { kind: items_form_kind(k), span, text, children: cs }),
                    None => None,
                }
            },
            None => match rwrapped(f) {
                Some(inner) => if end == start {
                    None
                } else {
                    match conv(inner, b, end - start - 1) {
                        Some(c) => if c.span.start < start || c.span.end > end {
                            None
                        } else {
                            Some(FormView { kind: FormKind::List, span, text, children: seq![c] })
                        },
                        None => None,
                    }
                },
                None => match rmeta(f) {
                    Some((m, a)) => if end == start {
                        None
                    } else {
                        match conv(m, b, end - start - 1) {
                            Some(mv) => match conv(a, b, end - start - 1) {
                                Some(av) => if mv.span.start < start || mv.span.end > av.span.start
                                    || av.span.end > end {
                                    None
                                } else {
                                    Some(
                                        FormView {
                                            kind: FormKind::Metadata,
                                            span,
                                            text,
                                            children: seq![mv, av],
                                        },
                                    )
                                },
                                None => None,
                            },
                            None => None,
                        }
                    },
                    None => Some(
                        FormView { kind: atom_form_kind(ratom(f)), span, text, children: Seq::empty() },
                    ),
                },
            },
        }
    }
}

/// The first `n` items of a collection spanning `start..end`, converted in
/// order: each inside the collection before its last byte and after the one
/// before; with where the last one ends.
pub open spec fn conv_items(
    items: Seq<ReaderForm>,
    b: Seq<u8>,
    start: int,
    end: int,
    limit: int,
    n: int,
) -> Option<(Seq<FormView>, int)>
    decreases limit, 1int, n,
{
    if n <= 0 || n > items.len() {
        if n == 0 {
            Some((Seq::empty(), start))
        } else {
            None
        }
    } else {
        match conv_items(items, b, start, end, limit, n - 1) {
            Some((cs, cursor)) => match conv(items[n - 1], b, limit) {
                Some(c) => if c.span.start < cursor || c.span.end > end - 1 {
                    None
                } else {
                    Some((cs.push(c), c.span.end as int))
                },
                None => None,
            },
            None => None,
        }
    }
}

proof fn lemma_items_none(
    items: Seq<ReaderForm>,
    b: Seq<u8>,
    start: int,
    end: int,
    limit: int,
    n: int,
    m: int,
)
    requires
        0 <= n <= m <= items.len(),
        conv_items(items, b, start, end, limit, n) is None,
    ensures
        conv_items(items, b, start, end, limit, m) is None,
    decreases m - n,
{
    if n < m {
        lemma_items_none(items, b, start, end, limit, n, m - 1);
    }
}

/// Convert a reader form whose span is at most `limit` bytes long into a
/// tree node, checking each span against `source`; `None` when a span falls
/// outside the source, off a character boundary or out of its parent.
fn convert_form(f: &ReaderForm, source: &str, limit: usize) -> (r: Option<Form>)
    ensures
        r matches Some(form) ==> form_wf(form, source.spec_bytes()) && form.span.end - form.span.start
            <= limit,
        match r {
            Some(form) => conv(*f, source.spec_bytes(), limit as int) == Some(form_view(form)),
            None => conv(*f, source.spec_bytes(), limit as int) is None,
        },
    decreases limit,
{
    let ghost b = source.spec_bytes();
    let (start, end) = reader_span(f);
    let blen = source.as_bytes().len();
    if !(start <= end && end <= blen && end - start <= limit) {
        return None;
    }
    if !(source.is_char_boundary(start) && source.is_char_boundary(end)) {
        return None;
    }
    let text = str_slice(source, start, end).to_owned();
    let span = Span { start, end };
    assert(span_in(b, span));
    match reader_items(f) {
        Some((items_kind, items)) => {
            if end == start || !source.is_char_boundary(end - 1) {
                return None;
            }
            let kind = items_kind_to_form_kind(items_kind);
            let inner_limit = end - start - 1;
            let mut children: Vec<Form> = Vec::new();
            let mut cursor = start;
            let mut i: usize = 0;
            while i < items.len()
                invariant
                    b == source.spec_bytes(),
                    start < end <= b.len(),
                    inner_limit == end - start - 1,
                    inner_limit < limit,
                    start <= cursor <= end - 1,
                    i <= items.len(),
                    children.len() == i,
                    forall|k: int| 0 <= k < i ==> form_wf(#[trigger] children@[k], b),
                    forall|k: int|
                        0 <= k < i ==> start <= (#[trigger] children@[k]).span.start
                            && children@[k].span.end <= cursor,
                    forall|k: int, j: int|
                        #![trigger children@[k], children@[j]]
                        0 <= k < j < i ==> children@[k].span.end <= children@[j].span.start,
                    ritems(*f) == Some((items_kind, items@)),
                    rspan(*f).0 == start && rspan(*f).1 == end,
                    is_char_boundary(b, start as int) && is_char_boundary(b, end as int),
                    is_char_boundary(b, end - 1),
                    end - start <= limit,
                    conv_items(items@, b, start as int, end as int, inner_limit as int, i as int)
                        == Some((forms_view(children@), cursor as int)),
                decreases items.len() - i,
            {
                let ghost pre = forms_view(children@);
                let c = match convert_form(&items[i], source, inner_limit) {
                    Some(c) => c,
                    None => {
                        proof {
                            lemma_items_none(items@, b, start as int, end as int, inner_limit as int, i + 1, items@.len() as int);
                        }
                        return None;
                    },
                };
                if c.span.start < cursor || c.span.end > end - 1 {
                    proof {
                        lemma_items_none(items@, b, start as int, end as int, inner_limit as int, i + 1, items@.len() as int);
                    }
                    return None;
                }
                cursor = c.span.end;
                children.push(c);
                assert(forms_view(children@) =~= pre.push(form_view(c)));
                i = i + 1;
            }
            let form = Form { kind, span, text, children };
            proof {
                lemma_children_view(form);
            }
            assert(children_nested(form));
            assert(closed_after_children(form, b));
            assert(form_wf(form, b));
            Some(form)
        },
        None => {
            match reader_wrapped(f) {
                Some(inner) => {
                    if end == start {
                        return None;
                    }
                    let c = match convert_form(inner, source, end - start - 1) {
                        Some(c) => c,
                        None => {
                            return None;
                        },
                    };
                    if c.span.start < start || c.span.end > end {
                        return None;
                    }
                    let form = Form { kind: FormKind::List, span, text, children: vec![c] };
                    proof {
                        lemma_children_view(form);
                        assert(forms_view(form.children@) =~= seq![form_view(c)]);
                    }
                    assert(form.children@[0] == c);
                    assert(children_nested(form));
                    assert(form_wf(form, b));
                    Some(form)
                },
                None => {
                    match reader_meta(f) {
                        Some((meta, annotated)) => {
                            if end == start {
                                return None;
                            }
                            let m = match convert_form(meta, source, end - start - 1) {
                                Some(m) => m,
                                None => {
                                    return None;
                                },
                            };
                            let a = match convert_form(annotated, source, end - start - 1) {
                                Some(a) => a,
                                None => {
                                    return None;
                                },
                            };
                            if m.span.start < start || m.span.end > a.span.start || a.span.end > end {
                                return None;
                            }
                            let form = Form {
                                kind: FormKind::Metadata,
                                span,
                                text,
                                children: vec![m, a],
                            };
                            proof {
                                lemma_children_view(form);
                                assert(forms_view(form.children@) =~= seq![form_view(m), form_view(a)]);
                            }
                            assert(form.children@[0] == m);
                            assert(form.children@[1] == a);
                            assert(children_nested(form));
                            assert(form_wf(form, b));
                            Some(form)
                        },
                        None => {
                            let kind = atom_kind_to_form_kind(reader_atom(f));
                            let form = Form { kind, span, text, children: Vec::new() };
                            proof {
                                lemma_children_view(form);
                                assert(forms_view(form.children@) =~= Seq::<FormView>::empty());
                            }
                            assert(form_wf(form, b));
                            Some(form)
                        },
                    }
                },
            }
        },
    }
}

/// The parse error for a source whose `\u` literal the reader cannot take.
pub const WIDE_U_LITERAL: &'static str =
    "unsupported character literal: \\u followed by a non-ASCII character";

fn is_word_byte(c: u8) -> (r: bool)
    ensures
        r == is_ascii_word_byte(c),
{
    (0x30 <= c && c <= 0x39) || (0x41 <= c && c <= 0x5a) || (0x61 <= c && c <= 0x7a) || c == 0x2d
}

/// Whether `source` holds a backslash and `u` followed, within the next four
/// characters and after only ASCII letters, digits and `-`, by a non-ASCII
/// character (see [`wide_u_literal`]).
pub fn has_wide_u_literal(source: &str) -> (r: bool)
    ensures
        r == wide_u_literal(source.spec_bytes()),
{
    let b = source.as_bytes();
    let ghost bs = b@;
    let mut i: usize = 0;
    while i < b.len()
        invariant
            i <= b@.len(),
            bs == b@,
            bs == source.spec_bytes(),
            forall|i2: int, k: int| 0 <= i2 < i ==> !#[trigger] wide_u_at(bs, i2, k),
        decreases b.len() - i,
    {
        if i + 1 < b.len() && b[i] == 0x5c && b[i + 1] == 0x75 {
            let mut k: usize = 2;
            let mut go = true;
            while go && k <= 5 && k < b.len() - i
                invariant
                    2 <= k <= 6,
                    i + 1 < b@.len(),
                    bs == b@,
                    bs == source.spec_bytes(),
                    bs[i as int] == 0x5c && bs[i + 1] == 0x75,
                    forall|j: int| 2 <= j < k ==> is_ascii_word_byte(#[trigger] bs[i + j]),
                    !go ==> (i + k < bs.len() && bs[i + k] < 0x80 && !is_ascii_word_byte(bs[i + k])),
                decreases 6 - k + (if go { 1int } else { 0int }),
            {
                if b[i + k] >= 0x80 {
                    assert(wide_u_at(bs, i as int, k as int));
                    assert(wide_u_literal(bs));
                    return true;
                }
                if !is_word_byte(b[i + k]) {
                    go = false;
                } else {
                    k = k + 1;
                }
            }
            assert forall|k2: int| !#[trigger] wide_u_at(bs, i as int, k2) by {
                if wide_u_at(bs, i as int, k2) {
                    if k2 < k {
                        assert(is_ascii_word_byte(bs[i + k2]));
                    } else if k2 > k && !go {
                        assert(is_ascii_word_byte(bs[i + k]));
                    }
                }
            }
        }
        i = i + 1;
    }
    false
}

/// The parse error when the reader gives a span outside the source.
pub const SPAN_OUTSIDE: &'static str = "cljrs-reader gave a span outside the source";

/// The parse error when the reader gives overlapping top-level forms.
pub const OVERLAPPING_FORMS: &'static str = "cljrs-reader gave overlapping forms";

/// The first `n` top-level forms the reader gave, converted in order, each
/// after the one before; with where the last one ends.  An error names the
/// first form that cannot be converted or that overlaps the one before.
pub open spec fn top_outcome(fs: Seq<ReaderForm>, b: Seq<u8>, n: int) -> Result<(Seq<FormView>, int), Seq<char>>
    decreases n,
{
    if n <= 0 || n > fs.len() {
        Ok((Seq::empty(), 0))
    } else {
        match top_outcome(fs, b, n - 1) {
            Err(m) => Err(m),
            Ok((ts, cursor)) => match conv(fs[n - 1], b, b.len() as int) {
                None => Err(SPAN_OUTSIDE@),
                Some(c) => if (c.span.start as int) < cursor {
                    Err(OVERLAPPING_FORMS@)
                } else {
                    Ok((ts.push(c), c.span.end as int))
                },
            },
        }
    }
}

/// What parsing `source` gives: the trees of its top-level forms, or the
/// parse error's message.  A `\u` literal the reader cannot take, then the
/// reader's own error, then a span the reader gives that does not fit.
pub open spec fn parsed(source: Seq<char>) -> Result<Seq<FormView>, Seq<char>> {
    if wide_u_literal(utf8(source)) {
        Err(WIDE_U_LITERAL@)
    } else {
        match reader_error(source) {
            Some(m) => Err(m),
            None => match top_outcome(reader_forms(source), utf8(source), reader_forms(source).len() as int) {
                Ok((ts, _)) => Ok(ts),
                Err(m) => Err(m),
            },
        }
    }
}

proof fn lemma_top_err(fs: Seq<ReaderForm>, b: Seq<u8>, n: int, m: int)
    requires
        0 <= n <= m <= fs.len(),
        top_outcome(fs, b, n) is Err,
    ensures
        top_outcome(fs, b, m) == top_outcome(fs, b, n),
    decreases m - n,
{
    if n < m {
        lemma_top_err(fs, b, n, m - 1);
    }
}

impl ClojureAst {
    /// Parse Clojure source into an AST using cljrs-reader: the top-level
    /// forms the reader reads, each converted to a tree (see [`parsed`]).
    pub fn parse(source: &str) -> (r: Result<ClojureAst, EditorError>)
        ensures
            match r {
                Ok(ast) => ast.source@ == source@ && ast_wf(ast) && parsed(source@) == Ok::<
                    Seq<FormView>,
                    Seq<char>,
                >(forms_view(ast.top_level@)),
                Err(e) => parsed(source@) matches Err(m) && e@ == ErrorView::Parse(m),
            },
            r matches Ok(ast) ==> reader_error(source@) is None && !wide_u_literal(source.spec_bytes()),
    {
        let ghost b = source.spec_bytes();
        if has_wide_u_literal(source) {
            return Err(EditorError::Parse(WIDE_U_LITERAL.to_owned()));
        }
        let forms = match read_forms(source) {
            Ok(forms) => forms,
            Err(m) => {
                return Err(EditorError::Parse(m));
            },
        };
        let ghost fs = forms@;
        let blen = source.as_bytes().len();
        let mut top: Vec<Form> = Vec::new();
        let mut cursor: usize = 0;
        let mut i: usize = 0;
        assert(forms_view(top@) =~= Seq::<FormView>::empty());
        while i < forms.len()
            invariant
                b == source.spec_bytes(),
                blen == b.len(),
                fs == forms@,
                fs == reader_forms(source@),
                reader_error(source@) is None,
                !wide_u_literal(b),
                i <= forms.len(),
                top.len() == i,
                cursor <= b.len(),
                forall|k: int| 0 <= k < i ==> form_wf(#[trigger] top@[k], b),
                forall|k: int| 0 <= k < i ==> (#[trigger] top@[k]).span.end <= cursor,
                forms_ordered(top@),
                top_outcome(fs, b, i as int) == Ok::<(Seq<FormView>, int), Seq<char>>(
                    (forms_view(top@), cursor as int),
                ),
            decreases forms.len() - i,
        {
            let ghost pre = forms_view(top@);
            let c = match convert_form(&forms[i], source, blen) {
                Some(c) => c,
                None => {
                    proof {
                        lemma_top_err(fs, b, i + 1, fs.len() as int);
                    }
                    return Err(EditorError::Parse(SPAN_OUTSIDE.to_owned()));
                },
            };
            if c.span.start < cursor {
                proof {
                    lemma_top_err(fs, b, i + 1, fs.len() as int);
                }
                return Err(EditorError::Parse(OVERLAPPING_FORMS.to_owned()));
            }
            cursor = c.span.end;
            top.push(c);
            assert(forms_view(top@) =~= pre.push(form_view(c)));
            i = i + 1;
        }
        let ast = ClojureAst { source: source.to_owned(), top_level: top };
        assert(ast_wf(ast));
        Ok(ast)
    }
}

} // verus!
