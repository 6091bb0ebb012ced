//! Structural edits of `defn` forms in Clojure source, applied through the
//! syntax tree when the source reads, and by scanning its bytes otherwise.
use vstd::prelude::*;
use vstd::string::*;
use vstd::utf8::valid_utf8;
use crate::text::{
    utf8, chars_in, cut_ok, str_slice, lemma_chars_whole, lemma_cut_at_ascii, lemma_cut_after_ascii,
    lemma_cut_at_end, trim, trim_end, trim_spec, trim_end_spec,
};
use crate::scan::{
    spec_find_defn_span, spec_find_args_vec, spec_form_end, form_end_from, defn_header_at,
    defn_name_pos, spec_skip_ws, spec_keyword_len, starts_with_at, spec_is_delim, defn_bytes,
    defn_private_bytes, is_ws_byte, is_delim_byte, is_close_byte, find_defn_span, find_args_vec,
    skip_ws, keyword_len, lemma_defn_span_props, lemma_form_end_pos, lemma_args_vec_props,
    lemma_args_inside, lemma_skip_ws_bounds, opt_span, OPEN_PAREN,
};
use crate::editor::error::{EditorError, ErrorView};
use crate::editor::reader::parsed;
use crate::editor::zipper::{
    FormView, form_view, forms_view, lemma_children_view, lemma_child_views, lemma_view_defn_name,
};
use crate::editor::ast::{
    Form, FormKind, ClojureAst, form_wf, ast_wf, span_in, closed_after_children, spec_defn_name,
    first_named, spec_find_defn, deref_opt,
};

verus! {

/// A single structural change to apply to source text.
#[derive(Debug, Clone)]
pub enum Edit {
    /// Replace the span of a named `defn` body entirely.
    ReplaceBody { fn_name: String, new_body: String },
    /// Insert a form at the start of a named `defn`'s body.
    PrependToBody { fn_name: String, form: String },
    /// Wrap the body of a `defn` with an outer form.
    /// The body is placed between `wrapper_prefix` and `wrapper_suffix`.
    WrapBody { fn_name: String, wrapper_prefix: String, wrapper_suffix: String },
    /// Rename a `defn` declaration (call sites are not updated).
    Rename { old_name: String, new_name: String },
    /// Insert a new top-level form after the named `defn`, or at end of file
    /// when `anchor` is `None`.
    InsertAfter { anchor: Option<String>, form: String },
}

/// An `Edit` with its strings as characters.
pub enum EditView {
    ReplaceBody { fn_name: Seq<char>, new_body: Seq<char> },
    PrependToBody { fn_name: Seq<char>, form: Seq<char> },
    WrapBody { fn_name: Seq<char>, wrapper_prefix: Seq<char>, wrapper_suffix: Seq<char> },
    Rename { old_name: Seq<char>, new_name: Seq<char> },
    InsertAfter { anchor: Option<Seq<char>>, form: Seq<char> },
}

impl View for Edit {
    type V = EditView;

    open spec fn view(&self) -> EditView {
        match self {
            Edit::ReplaceBody { fn_name, new_body } => EditView::ReplaceBody {
                fn_name: fn_name@,
                new_body: new_body@,
            },
            Edit::PrependToBody { fn_name, form } => EditView::PrependToBody {
                fn_name: fn_name@,
                form: form@,
            },
            Edit::WrapBody { fn_name, wrapper_prefix, wrapper_suffix } => EditView::WrapBody {
                fn_name: fn_name@,
                wrapper_prefix: wrapper_prefix@,
                wrapper_suffix: wrapper_suffix@,
            },
            Edit::Rename { old_name, new_name } => EditView::Rename {
                old_name: old_name@,
                new_name: new_name@,
            },
            Edit::InsertAfter { anchor, form } => EditView::InsertAfter {
                anchor: match anchor {
                    Some(a) => Some(a@),
                    None => None,
                },
                form: form@,
            },
        }
    }
}

/// The outcome of applying one or more edits.
#[derive(Debug, Clone)]
pub struct EditResult {
    pub source: String,
    pub edits_applied: usize,
}

/// Applies structural edits to Clojure source.
pub struct Editor {
    source: String,
}

/// A result with its text as characters.
pub open spec fn result_view(r: Result<String, EditorError>) -> Result<Seq<char>, ErrorView> {
    match r {
        Ok(s) => Ok(s@),
        Err(e) => Err(e@),
    }
}

// ── Summary of an edit ──────────────────────────────────────────────────────

/// A one-line summary of an edit, as used in commit messages.
pub open spec fn description_spec(e: EditView) -> Seq<char> {
    match e {
        EditView::ReplaceBody { fn_name, .. } => "replace body of "@ + fn_name,
        EditView::PrependToBody { fn_name, .. } => "prepend form to "@ + fn_name,
        EditView::WrapBody { fn_name, .. } => "wrap body of "@ + fn_name,
        EditView::Rename { old_name, new_name } => "rename "@ + old_name + " -> "@ + new_name,
        EditView::InsertAfter { anchor: None, .. } => "insert form at end"@,
        EditView::InsertAfter { anchor: Some(name), .. } => "insert after "@ + name,
    }
}

pub fn edit_description(edit: &Edit) -> (r: String)
    ensures
        r@ == description_spec(edit@),
{
    let mut out = String::new();
    match edit {
        Edit::ReplaceBody { fn_name, .. } => {
            out.append("replace body of ");
            out.append(fn_name.as_str());
        },
        Edit::PrependToBody { fn_name, .. } => {
            out.append("prepend form to ");
            out.append(fn_name.as_str());
        },
        Edit::WrapBody { fn_name, .. } => {
            out.append("wrap body of ");
            out.append(fn_name.as_str());
        },
        Edit::Rename { old_name, new_name } => {
            out.append("rename ");
            out.append(old_name.as_str());
            out.append(" -> ");
            out.append(new_name.as_str());
        },
        Edit::InsertAfter { anchor: None, .. } => {
            out.append("insert form at end");
        },
        Edit::InsertAfter { anchor: Some(name), .. } => {
            out.append("insert after ");
            out.append(name.as_str());
        },
    }
    assert(out@ =~= description_spec(edit@));
    out
}

// ── Edits by scanning bytes ────────────────────────────────────────────────

pub open spec fn no_args_found(fn_name: Seq<char>) -> ErrorView {
    ErrorView::InvalidEdit("no argument vector found in "@ + fn_name)
}

/// What editing `s` by scanning its bytes gives.
pub open spec fn scan_edit(s: Seq<char>, e: EditView) -> Result<Seq<char>, ErrorView> {
    let b = utf8(s);
    let n = b.len() as int;
    match e {
        EditView::ReplaceBody { fn_name, new_body } => match spec_find_defn_span(b, utf8(fn_name)) {
            None => Err(ErrorView::NotFound(fn_name)),
            Some((ds, de)) => match spec_find_args_vec(b, ds) {
                None => Err(no_args_found(fn_name)),
                Some((_, ae)) => Ok(
                    chars_in(b, 0, ae) + "\n  "@ + new_body + "\n"@ + chars_in(b, de - 1, n),
                ),
            },
        },
        EditView::PrependToBody { fn_name, form } => match spec_find_defn_span(b, utf8(fn_name)) {
            None => Err(ErrorView::NotFound(fn_name)),
            Some((ds, _)) => match spec_find_args_vec(b, ds) {
                None => Err(no_args_found(fn_name)),
                Some((_, ae)) => Ok(chars_in(b, 0, ae) + "\n  "@ + form + chars_in(b, ae, n)),
            },
        },
        EditView::WrapBody { fn_name, wrapper_prefix, wrapper_suffix } => match spec_find_defn_span(
            b,
            utf8(fn_name),
        ) {
            None => Err(ErrorView::NotFound(fn_name)),
            Some((ds, de)) => match spec_find_args_vec(b, ds) {
                None => Err(no_args_found(fn_name)),
                Some((_, ae)) => Ok(
                    chars_in(b, 0, ae) + "\n  "@ + wrapper_prefix + trim_spec(
                        chars_in(b, ae, de - 1),
                    ) + wrapper_suffix + "\n"@ + chars_in(b, de - 1, n),
                ),
            },
        },
        EditView::Rename { old_name, new_name } => match spec_find_defn_span(b, utf8(old_name)) {
            None => Err(ErrorView::NotFound(old_name)),
            Some((ds, _)) => {
                let ns = defn_name_pos(b, ds);
                Ok(chars_in(b, 0, ns) + new_name + chars_in(b, ns + utf8(old_name).len(), n))
            },
        },
        EditView::InsertAfter { anchor: None, form } => Ok(trim_end_spec(s) + "\n\n"@ + form),
        EditView::InsertAfter { anchor: Some(name), form } => match spec_find_defn_span(
            b,
            utf8(name),
        ) {
            None => Err(ErrorView::NotFound(name)),
            Some((_, de)) => Ok(chars_in(b, 0, de) + "\n\n"@ + form + chars_in(b, de, n)),
        },
    }
}

/// Where a `defn` found by scanning sits, and that its end and closing
/// parenthesis fall on character boundaries.
proof fn lemma_scan_defn_cuts(b: Seq<u8>, name: Seq<u8>)
    requires
        valid_utf8(b),
        spec_find_defn_span(b, name) is Some,
    ensures
        ({
            let (ds, de) = spec_find_defn_span(b, name)->0;
            &&& 0 <= ds < de <= b.len()
            &&& b[ds] == OPEN_PAREN
            &&& defn_header_at(b, name, ds)
            &&& spec_form_end(b, ds) == Some(de)
            &&& cut_ok(b, de)
            &&& cut_ok(b, de - 1)
        }),
{
    lemma_defn_span_props(b, name, 0, false);
    let (ds, de) = spec_find_defn_span(b, name)->0;
    lemma_form_end_pos(b, ds, 0, false);
    lemma_cut_after_ascii(b, de);
    lemma_cut_at_ascii(b, de - 1);
}

/// The argument vector found by scanning ends inside the `defn`, on a
/// character boundary.
proof fn lemma_scan_args_cuts(b: Seq<u8>, name: Seq<u8>)
    requires
        valid_utf8(b),
        spec_find_defn_span(b, name) is Some,
        ({
            let (ds, de) = spec_find_defn_span(b, name)->0;
            spec_find_args_vec(b, ds) is Some
        }),
    ensures
        ({
            let (ds, de) = spec_find_defn_span(b, name)->0;
            let (a, ae) = spec_find_args_vec(b, ds)->0;
            &&& ae < de
            &&& 0 < ae <= b.len()
            &&& cut_ok(b, ae)
        }),
{
    lemma_scan_defn_cuts(b, name);
    let (ds, de) = spec_find_defn_span(b, name)->0;
    lemma_args_vec_props(b, ds + 1, 1, false);
    let (a, ae) = spec_find_args_vec(b, ds)->0;
    lemma_form_end_pos(b, a, 0, false);
    lemma_cut_after_ascii(b, ae);
    assert(form_end_from(b, ds + 1, 1, false) == spec_form_end(b, ds));
    lemma_args_inside(b, ds + 1, 1, false);
}

/// The name of a `defn` found by scanning starts and ends on character
/// boundaries.
proof fn lemma_scan_name_cuts(b: Seq<u8>, name: Seq<u8>)
    requires
        valid_utf8(b),
        spec_find_defn_span(b, name) is Some,
    ensures
        ({
            let (ds, de) = spec_find_defn_span(b, name)->0;
            let ns = defn_name_pos(b, ds);
            &&& 0 < ns
            &&& ns + name.len() <= b.len()
            &&& cut_ok(b, ns)
            &&& cut_ok(b, ns + name.len())
        }),
{
    lemma_scan_defn_cuts(b, name);
    let (ds, de) = spec_find_defn_span(b, name)->0;
    let j = spec_skip_ws(b, ds + 1);
    lemma_skip_ws_bounds(b, ds + 1);
    let kw = spec_keyword_len(b, j);
    let ns = defn_name_pos(b, ds);
    lemma_skip_ws_bounds(b, j + kw);
    if kw == 5 {
        assert(b.subrange(j, j + 5)[4] == b[j + 4]);
        assert(b[j + 4] == 0x2du8);
    } else {
        assert(kw == 4);
        assert(b.subrange(j, j + 4)[3] == b[j + 3]);
        assert(b[j + 3] == 0x6eu8);
    }
    if ns > j + kw {
        assert(is_ws_byte(b[ns - 1]));
    }
    assert(b[ns - 1] < 0x80);
    lemma_cut_after_ascii(b, ns);
    let ne = ns + name.len();
    if ne < b.len() {
        assert(is_delim_byte(b[ne]));
        lemma_cut_at_ascii(b, ne);
    } else {
        lemma_cut_at_end(b);
    }
}

fn require_defn(src: &[u8], fn_name: &str) -> (r: Result<(usize, usize), EditorError>)
    ensures
        spec_find_defn_span(src@, utf8(fn_name@)) is None <==> r is Err,
        r matches Err(e) ==> e@ == ErrorView::NotFound(fn_name@),
        r matches Ok(p) ==> spec_find_defn_span(src@, utf8(fn_name@)) == Some((p.0 as int, p.1 as int)),
{
    match find_defn_span(src, fn_name.as_bytes()) {
        Some(span) => Ok(span),
        None => Err(EditorError::NotFound(fn_name.to_owned())),
    }
}

fn require_args_vec(src: &[u8], defn_start: usize, fn_name: &str) -> (r: Result<
    (usize, usize),
    EditorError,
>)
    requires
        defn_start < src@.len(),
    ensures
        spec_find_args_vec(src@, defn_start as int) is None <==> r is Err,
        r matches Err(e) ==> e@ == no_args_found(fn_name@),
        r matches Ok(p) ==> spec_find_args_vec(src@, defn_start as int) == Some((p.0 as int, p.1 as int)),
{
    match find_args_vec(src, defn_start) {
        Some(span) => Ok(span),
        None => {
            let mut m = String::new();
            m.append("no argument vector found in ");
            m.append(fn_name);
            Err(EditorError::InvalidEdit(m))
        },
    }
}

fn apply_via_scan(source: &str, edit: &Edit) -> (r: Result<String, EditorError>)
    ensures
        result_view(r) == scan_edit(source@, edit@),
{
    let src = source.as_bytes();
    let ghost b = src@;
    proof {
        lemma_chars_whole(source@);
    }
    assert(b == utf8(source@));
    let len = src.len();
    match edit {
        Edit::ReplaceBody { fn_name, new_body } => {
            let (defn_start, defn_end) = match require_defn(src, fn_name.as_str()) {
                Ok(p) => p,
                Err(e) => {
                    return Err(e);
                },
            };
            proof {
                lemma_scan_defn_cuts(b, utf8(fn_name@));
            }
            let (_, args_end) = match require_args_vec(src, defn_start, fn_name.as_str()) {
                Ok(p) => p,
                Err(e) => {
                    return Err(e);
                },
            };
            proof {
                lemma_scan_args_cuts(b, utf8(fn_name@));
            }
            let mut out = String::new();
            out.append(str_slice(source, 0, args_end));
            out.append("\n  ");
            out.append(new_body.as_str());
            out.append("\n");
            out.append(str_slice(source, defn_end - 1, len));
            Ok(out)
        },
        Edit::PrependToBody { fn_name, form } => {
            let (defn_start, _) = match require_defn(src, fn_name.as_str()) {
                Ok(p) => p,
                Err(e) => {
                    return Err(e);
                },
            };
            proof {
                lemma_scan_defn_cuts(b, utf8(fn_name@));
            }
            let (_, args_end) = match require_args_vec(src, defn_start, fn_name.as_str()) {
                Ok(p) => p,
                Err(e) => {
                    return Err(e);
                },
            };
            proof {
                lemma_scan_args_cuts(b, utf8(fn_name@));
            }
            let mut out = String::new();
            out.append(str_slice(source, 0, args_end));
            out.append("\n  ");
            out.append(form.as_str());
            out.append(str_slice(source, args_end, len));
            Ok(out)
        },
        Edit::WrapBody { fn_name, wrapper_prefix, wrapper_suffix } => {
            let (defn_start, defn_end) = match require_defn(src, fn_name.as_str()) {
                Ok(p) => p,
                Err(e) => {
                    return Err(e);
                },
            };
            proof {
                lemma_scan_defn_cuts(b, utf8(fn_name@));
            }
            let (_, args_end) = match require_args_vec(src, defn_start, fn_name.as_str()) {
                Ok(p) => p,
                Err(e) => {
                    return Err(e);
                },
            };
            proof {
                lemma_scan_args_cuts(b, utf8(fn_name@));
            }
            let body = trim(str_slice(source, args_end, defn_end - 1));
            let mut out = String::new();
            out.append(str_slice(source, 0, args_end));
            out.append("\n  ");
            out.append(wrapper_prefix.as_str());
            out.append(body);
            out.append(wrapper_suffix.as_str());
            out.append("\n");
            out.append(str_slice(source, defn_end - 1, len));
            Ok(out)
        },
        Edit::Rename { old_name, new_name } => {
            let (defn_start, _) = match require_defn(src, old_name.as_str()) {
                Ok(p) => p,
                Err(e) => {
                    return Err(e);
                },
            };
            proof {
                lemma_scan_defn_cuts(b, utf8(old_name@));
                lemma_scan_name_cuts(b, utf8(old_name@));
                lemma_skip_ws_bounds(b, defn_start + 1);
            }
            let j = skip_ws(src, defn_start + 1);
            let kw_len = keyword_len(src, j);
            proof {
                lemma_skip_ws_bounds(b, j + kw_len);
            }
            let name_start = skip_ws(src, j + kw_len);
            let name_end = name_start + old_name.as_str().len();
            let mut out = String::new();
            out.append(str_slice(source, 0, name_start));
            out.append(new_name.as_str());
            out.append(str_slice(source, name_end, len));
            Ok(out)
        },
        Edit::InsertAfter { anchor: None, form } => {
            let mut out = String::new();
            out.append(trim_end(source));
            out.append("\n\n");
            out.append(form.as_str());
            Ok(out)
        },
        Edit::InsertAfter { anchor: Some(name), form } => {
            let (_, defn_end) = match require_defn(src, name.as_str()) {
                Ok(p) => p,
                Err(e) => {
                    return Err(e);
                },
            };
            proof {
                lemma_scan_defn_cuts(b, utf8(name@));
            }
            let mut out = String::new();
            out.append(str_slice(source, 0, defn_end));
            out.append("\n\n");
            out.append(form.as_str());
            out.append(str_slice(source, defn_end, len));
            Ok(out)
        },
    }
}

// ── Edits through the syntax tree ──────────────────────────────────────────

/// The first `Vector` among the children of `c` from the `k`-th on.
pub open spec fn first_vector(c: Form, k: int) -> Option<Form>
    decreases c.children.len() - k,
{
    if k < 0 || k >= c.children.len() {
        None
    } else if c.children[k].kind == FormKind::Vector {
        Some(c.children[k])
    } else {
        first_vector(c, k + 1)
    }
}

/// The argument vector of a `defn`, looking at its children from the `k`-th
/// on: a `Vector` child, or the first `Vector` of a `List` child (the first
/// arity of a multi-arity `defn`).
pub open spec fn args_vec_from_child(d: Form, k: int) -> Option<Form>
    decreases d.children.len() - k,
{
    if k < 0 || k >= d.children.len() {
        None
    } else if d.children[k].kind == FormKind::Vector {
        Some(d.children[k])
    } else if d.children[k].kind == FormKind::List && first_vector(d.children[k], 0) is Some {
        first_vector(d.children[k], 0)
    } else {
        args_vec_from_child(d, k + 1)
    }
}

pub open spec fn spec_args_vec_form(d: Form) -> Option<Form> {
    args_vec_from_child(d, 0)
}

/// The name form of a `defn`: its second child, or the annotated form when
/// that child is `^meta name`.
pub open spec fn spec_name_child(d: Form) -> Option<Form> {
    if d.children.len() < 2 {
        None
    } else if d.children[1].kind == FormKind::Metadata {
        if d.children[1].children.len() >= 2 {
            Some(d.children[1].children[1])
        } else {
            None
        }
    } else {
        Some(d.children[1])
    }
}

/// `v` is a vector among the children of `d`, or among the children of one
/// of `d`'s list children.
pub open spec fn vector_at_arity_level(d: Form, v: Form) -> bool {
    &&& v.kind == FormKind::Vector
    &&& exists|k: int|
        0 <= k < d.children.len() && (d.children[k] == v || (d.children[k].kind == FormKind::List
            && exists|m: int| 0 <= m < d.children[k].children.len() && #[trigger] d.children[k].children[m] == v))
}

/// `v` starts no later than any vector among the children of `d` from the
/// `k`-th on, or among the children of those of them that are lists.
pub open spec fn starts_before_vectors_from(d: Form, v: Form, k: int) -> bool {
    &&& forall|j: int|
        k <= j < d.children.len() && (#[trigger] d.children[j]).kind == FormKind::Vector ==> v.span.start
            <= d.children[j].span.start
    &&& forall|j: int, m: int|
        #![trigger d.children[j].children[m]]
        k <= j < d.children.len() && d.children[j].kind == FormKind::List && 0 <= m
            < d.children[j].children.len() && d.children[j].children[m].kind == FormKind::Vector
            ==> v.span.start <= d.children[j].children[m].span.start
}

proof fn lemma_first_vector_first(c: Form, b: Seq<u8>, m0: int)
    requires
        form_wf(c, b),
        0 <= m0,
    ensures
        first_vector(c, m0) matches Some(v) ==> (v.kind == FormKind::Vector && exists|m: int|
            m0 <= m < c.children.len() && #[trigger] c.children[m] == v) && forall|m: int|
            m0 <= m < c.children.len() && (#[trigger] c.children[m]).kind == FormKind::Vector
                ==> v.span.start <= c.children[m].span.start && v.span.end <= c.span.end,
        first_vector(c, m0) is None ==> forall|m: int|
            m0 <= m < c.children.len() ==> (#[trigger] c.children[m]).kind != FormKind::Vector,
    decreases c.children.len() - m0,
{
    if m0 < c.children.len() {
        lemma_first_vector_first(c, b, m0 + 1);
        let v0 = c.children[m0];
        assert(form_wf(v0, b));
        if v0.kind == FormKind::Vector {
            assert forall|m: int|
                m0 <= m < c.children.len() && (#[trigger] c.children[m]).kind == FormKind::Vector
                    implies v0.span.start <= c.children[m].span.start && v0.span.end <= c.span.end by {
                if m > m0 {
                    assert(c.children[m0].span.end <= c.children[m].span.start);
                }
            }
        }
    }
}

proof fn lemma_args_vec_first(d: Form, b: Seq<u8>, k: int)
    requires
        form_wf(d, b),
        0 <= k,
    ensures
        args_vec_from_child(d, k) matches Some(av) ==> vector_at_arity_level(d, av)
            && starts_before_vectors_from(d, av, k),
    decreases d.children.len() - k,
{
    if k < d.children.len() {
        lemma_args_vec_first(d, b, k + 1);
        let c = d.children[k];
        assert(form_wf(c, b));
        lemma_first_vector_first(c, b, 0);
        match args_vec_from_child(d, k) {
            Some(av) => {
                if c.kind == FormKind::Vector {
                    assert(av == c);
                    assert(d.children[k] == av);
                } else if c.kind == FormKind::List && first_vector(c, 0) is Some {
                    let m = choose|m: int| 0 <= m < c.children.len() && #[trigger] c.children[m] == av;
                    assert(d.children[k].children[m] == av);
                    assert(form_wf(av, b));
                } else {
                    assert(args_vec_from_child(d, k) == args_vec_from_child(d, k + 1));
                    assert forall|j: int, m: int|
                        #![trigger d.children[j].children[m]]
                        k <= j < d.children.len() && d.children[j].kind == FormKind::List && 0 <= m
                            < d.children[j].children.len() && d.children[j].children[m].kind
                            == FormKind::Vector implies av.span.start
                            <= d.children[j].children[m].span.start by {
                        if j == k {
                            assert(c.children[m].kind != FormKind::Vector);
                        }
                    }
                }
                if c.kind == FormKind::Vector || (c.kind == FormKind::List && first_vector(c, 0) is Some) {
                    assert(av.span.start <= av.span.end) by {
                        assert(form_wf(av, b));
                    }
                    assert(av.span.end <= c.span.end);
                    assert forall|j: int|
                        k <= j < d.children.len() && (#[trigger] d.children[j]).kind
                            == FormKind::Vector implies av.span.start <= d.children[j].span.start by {
                        if j > k {
                            assert(d.children[k].span.end <= d.children[j].span.start);
                        }
                    }
                    assert forall|j: int, m: int|
                        #![trigger d.children[j].children[m]]
                        k <= j < d.children.len() && d.children[j].kind == FormKind::List && 0 <= m
                            < d.children[j].children.len() && d.children[j].children[m].kind
                            == FormKind::Vector implies av.span.start
                            <= d.children[j].children[m].span.start by {
                        if j > k {
                            assert(d.children[k].span.end <= d.children[j].span.start);
                            assert(form_wf(d.children[j], b));
                            assert(d.children[j].span.start <= d.children[j].children[m].span.start);
                        }
                    }
                }
            },
            None => {},
        }
    }
}

/// The argument vector that an edit of a `defn` works from is its first
/// vector: a vector child of the `defn` or of one of its list children (the
/// arities of a multi-arity `defn`), and none of those vectors starts before
/// it, so a vector inside the body is never taken for it.
pub proof fn law_args_vector_comes_first(d: Form, b: Seq<u8>)
    requires
        form_wf(d, b),
    ensures
        spec_args_vec_form(d) matches Some(av) ==> vector_at_arity_level(d, av)
            && starts_before_vectors_from(d, av, 0),
{
    lemma_args_vec_first(d, b, 0);
}

pub open spec fn no_args_in(fn_name: Seq<char>) -> ErrorView {
    ErrorView::InvalidEdit("no argument vector in "@ + fn_name)
}

pub open spec fn no_name_in(fn_name: Seq<char>) -> ErrorView {
    ErrorView::InvalidEdit("no name in defn "@ + fn_name)
}

/// What editing through the syntax tree `a` gives.
pub open spec fn ast_edit(a: ClojureAst, e: EditView) -> Result<Seq<char>, ErrorView> {
    let b = utf8(a.source@);
    let n = b.len() as int;
    match e {
        EditView::ReplaceBody { fn_name, new_body } => match spec_find_defn(a, fn_name) {
            None => Err(ErrorView::NotFound(fn_name)),
            Some(d) => match spec_args_vec_form(d) {
                None => Err(no_args_in(fn_name)),
                Some(av) => Ok(
                    chars_in(b, 0, av.span.end as int) + "\n  "@ + new_body + "\n"@ + chars_in(
                        b,
                        d.span.end - 1,
                        n,
                    ),
                ),
            },
        },
        EditView::PrependToBody { fn_name, form } => match spec_find_defn(a, fn_name) {
            None => Err(ErrorView::NotFound(fn_name)),
            Some(d) => match spec_args_vec_form(d) {
                None => Err(no_args_in(fn_name)),
                Some(av) => Ok(
                    chars_in(b, 0, av.span.end as int) + "\n  "@ + form + chars_in(
                        b,
                        av.span.end as int,
                        n,
                    ),
                ),
            },
        },
        EditView::WrapBody { fn_name, wrapper_prefix, wrapper_suffix } => match spec_find_defn(
            a,
            fn_name,
        ) {
            None => Err(ErrorView::NotFound(fn_name)),
            Some(d) => match spec_args_vec_form(d) {
                None => Err(no_args_in(fn_name)),
                Some(av) => Ok(
                    chars_in(b, 0, av.span.end as int) + "\n  "@ + wrapper_prefix + trim_spec(
                        chars_in(b, av.span.end as int, d.span.end - 1),
                    ) + wrapper_suffix + "\n"@ + chars_in(b, d.span.end - 1, n),
                ),
            },
        },
        EditView::Rename { old_name, new_name } => match spec_find_defn(a, old_name) {
            None => Err(ErrorView::NotFound(old_name)),
            Some(d) => match spec_name_child(d) {
                None => Err(no_name_in(old_name)),
                Some(nc) => Ok(
                    chars_in(b, 0, nc.span.start as int) + new_name + chars_in(
                        b,
                        nc.span.end as int,
                        n,
                    ),
                ),
            },
        },
        EditView::InsertAfter { anchor: None, form } => Ok(trim_end_spec(a.source@) + "\n\n"@ + form),
        EditView::InsertAfter { anchor: Some(name), form } => match spec_find_defn(a, name) {
            None => Err(ErrorView::NotFound(name)),
            Some(d) => Ok(
                chars_in(b, 0, d.span.end as int) + "\n\n"@ + form + chars_in(b, d.span.end as int, n),
            ),
        },
    }
}

proof fn lemma_first_named_wf(s: Seq<Form>, b: Seq<u8>, name: Seq<char>)
    requires
        forall|k: int| 0 <= k < s.len() ==> form_wf(#[trigger] s[k], b),
        first_named(s, name) is Some,
    ensures
        form_wf(first_named(s, name)->0, b),
        spec_defn_name(first_named(s, name)->0) == Some(name),
    decreases s.len(),
{
    if spec_defn_name(s[0]) != Some(name) {
        assert forall|k: int| 0 <= k < s.drop_first().len() implies form_wf(
            #[trigger] s.drop_first()[k],
            b,
        ) by {
            assert(s.drop_first()[k] == s[k + 1]);
        }
        lemma_first_named_wf(s.drop_first(), b, name);
    }
}

/// The `defn` that the tree search finds in a well-formed tree carries the
/// requested name, and is a well-formed list that closes after its children.
pub proof fn law_found_defn_is_named(a: ClojureAst, name: Seq<char>)
    requires
        ast_wf(a),
        spec_find_defn(a, name) is Some,
    ensures
        ({
            let d = spec_find_defn(a, name)->0;
            &&& form_wf(d, utf8(a.source@))
            &&& spec_defn_name(d) == Some(name)
            &&& d.kind == FormKind::List
            &&& d.children.len() >= 2
            &&& closed_after_children(d, utf8(a.source@))
            &&& d.span.end >= 1
            &&& cut_ok(utf8(a.source@), d.span.end - 1)
        }),
{
    let b = utf8(a.source@);
    lemma_first_named_wf(a.top_level@, b, name);
}

/// An edit of a `defn`'s body leaves the source up to the end of the
/// `defn`'s argument vector as it was: that vector is the first vector of
/// the `defn` (as `law_args_vector_comes_first` says), and the edited text
/// begins with everything up to its end.  It ends with the source from the
/// `defn`'s closing delimiter on (for a replaced or wrapped body), or from
/// the end of that vector on (for a prepended form).
pub proof fn law_body_edits_keep_the_head(a: ClojureAst, e: EditView)
    requires
        ast_wf(a),
    ensures
        ({
            let b = utf8(a.source@);
            let n = b.len() as int;
            match e {
                EditView::ReplaceBody { fn_name, .. } | EditView::PrependToBody { fn_name, .. }
                | EditView::WrapBody { fn_name, .. } => ast_edit(a, e) matches Ok(t) ==> {
                    let d = spec_find_defn(a, fn_name)->0;
                    let av = spec_args_vec_form(d)->0;
                    let head = chars_in(b, 0, av.span.end as int);
                    let tail = if e is PrependToBody {
                        chars_in(b, av.span.end as int, n)
                    } else {
                        chars_in(b, d.span.end - 1, n)
                    };
                    &&& spec_find_defn(a, fn_name) is Some
                    &&& spec_args_vec_form(d) is Some
                    &&& vector_at_arity_level(d, av)
                    &&& starts_before_vectors_from(d, av, 0)
                    &&& head.len() + tail.len() <= t.len()
                    &&& t.subrange(0, head.len() as int) == head
                    &&& t.subrange(t.len() - tail.len(), t.len() as int) == tail
                },
                _ => true,
            }
        }),
{
    match e {
        EditView::ReplaceBody { fn_name, .. } | EditView::PrependToBody { fn_name, .. }
        | EditView::WrapBody { fn_name, .. } => {
            if let Some(d) = spec_find_defn(a, fn_name) {
                law_found_defn_is_named(a, fn_name);
                law_args_vector_comes_first(d, utf8(a.source@));
                if let Ok(t) = ast_edit(a, e) {
                    let b = utf8(a.source@);
                    let n = b.len() as int;
                    let av = spec_args_vec_form(d)->0;
                    let head = chars_in(b, 0, av.span.end as int);
                    let tail = if e is PrependToBody {
                        chars_in(b, av.span.end as int, n)
                    } else {
                        chars_in(b, d.span.end - 1, n)
                    };
                    assert(t.subrange(0, head.len() as int) =~= head);
                    assert(t.subrange(t.len() - tail.len(), t.len() as int) =~= tail);
                }
            }
        },
        _ => {},
    }
}

proof fn lemma_first_vector_props(c: Form, b: Seq<u8>, k: int)
    requires
        form_wf(c, b),
        first_vector(c, k) is Some,
    ensures
        span_in(b, (first_vector(c, k)->0).span),
        (first_vector(c, k)->0).span.end <= c.span.end,
    decreases c.children.len() - k,
{
    if c.children[k].kind != FormKind::Vector {
        lemma_first_vector_props(c, b, k + 1);
    } else {
        assert(form_wf(c.children[k], b));
    }
}

proof fn lemma_args_vec_inside(d: Form, b: Seq<u8>, k: int)
    requires
        form_wf(d, b),
        d.kind == FormKind::List,
        d.children.len() >= 2,
        args_vec_from_child(d, k) is Some,
    ensures
        span_in(b, (args_vec_from_child(d, k)->0).span),
        (args_vec_from_child(d, k)->0).span.end < d.span.end,
    decreases d.children.len() - k,
{
    let c = d.children[k];
    assert(form_wf(c, b));
    assert(closed_after_children(d, b));
    assert(c.span.end < d.span.end);
    if c.kind == FormKind::Vector {
    } else if c.kind == FormKind::List && first_vector(c, 0) is Some {
        lemma_first_vector_props(c, b, 0);
    } else {
        lemma_args_vec_inside(d, b, k + 1);
    }
}

proof fn lemma_name_child_in(d: Form, b: Seq<u8>)
    requires
        form_wf(d, b),
        spec_name_child(d) is Some,
    ensures
        span_in(b, (spec_name_child(d)->0).span),
{
    assert(form_wf(d.children[1], b));
    if d.children[1].kind == FormKind::Metadata {
        assert(form_wf(d.children[1].children[1], b));
    }
}

/// Return the argument vector of a `defn`.
fn args_vec_form(defn: &Form) -> (r: Option<&Form>)
    ensures
        deref_opt(r) == spec_args_vec_form(*defn),
{
    let mut k: usize = 0;
    while k < defn.children.len()
        invariant
            k <= defn.children.len(),
            spec_args_vec_form(*defn) == args_vec_from_child(*defn, k as int),
        decreases defn.children.len() - k,
    {
        let child = &defn.children[k];
        if child.kind == FormKind::Vector {
            return Some(child);
        }
        if child.kind == FormKind::List {
            let mut m: usize = 0;
            while m < child.children.len()
                invariant
                    k < defn.children.len(),
                    *child == defn.children[k as int],
                    child.kind == FormKind::List,
                    spec_args_vec_form(*defn) == args_vec_from_child(*defn, k as int),
                    m <= child.children.len(),
                    first_vector(*child, 0) == first_vector(*child, m as int),
                decreases child.children.len() - m,
            {
                let inner = &child.children[m];
                if inner.kind == FormKind::Vector {
                    return Some(inner);
                }
                m = m + 1;
            }
            assert(first_vector(*child, m as int) is None);
        }
        k = k + 1;
    }
    None
}

/// Return the name form of a `defn` (the identifier, not the `defn` keyword).
fn name_child(defn: &Form) -> (r: Option<&Form>)
    ensures
        deref_opt(r) == spec_name_child(*defn),
{
    if defn.children.len() < 2 {
        return None;
    }
    let raw = &defn.children[1];
    if raw.kind == FormKind::Metadata {
        if raw.children.len() >= 2 {
            Some(&raw.children[1])
        } else {
            None
        }
    } else {
        Some(raw)
    }
}

/// Return `(args_vec_end, defn_end)` for a `defn` form.  For a multi-arity
/// `defn` this is the end of the first arity's argument vector and the end of
/// the whole `defn`.
fn body_bounds(defn: &Form, fn_name: &str) -> (r: Result<(usize, usize), EditorError>)
    ensures
        spec_args_vec_form(*defn) is None <==> r is Err,
        r matches Err(e) ==> e@ == no_args_in(fn_name@),
        r matches Ok(p) ==> p.0 == (spec_args_vec_form(*defn)->0).span.end && p.1 == defn.span.end,
{
    match args_vec_form(defn) {
        Some(args_vec) => Ok((args_vec.span.end, defn.span.end)),
        None => {
            let mut m = String::new();
            m.append("no argument vector in ");
            m.append(fn_name);
            Err(EditorError::InvalidEdit(m))
        },
    }
}

fn find_required<'a>(ast: &'a ClojureAst, name: &str) -> (r: Result<&'a Form, EditorError>)
    requires
        ast_wf(*ast),
    ensures
        spec_find_defn(*ast, name@) is None <==> r is Err,
        r matches Err(e) ==> e@ == ErrorView::NotFound(name@),
        r matches Ok(d) ==> spec_find_defn(*ast, name@) == Some(*d),
{
    match ast.find_defn(name) {
        Some(d) => Ok(d),
        None => Err(EditorError::NotFound(name.to_owned())),
    }
}

/// Apply an edit through the syntax tree of the source it was read from.
pub fn apply_ast_edit(ast: &ClojureAst, edit: &Edit) -> (r: Result<String, EditorError>)
    requires
        ast_wf(*ast),
    ensures
        result_view(r) == ast_edit(*ast, edit@),
{
    let source = ast.source.as_str();
    let ghost b = utf8(ast.source@);
    proof {
        lemma_chars_whole(ast.source@);
    }
    let len = source.as_bytes().len();
    assert(len == b.len());
    match edit {
        Edit::ReplaceBody { fn_name, new_body } => {
            let defn = match find_required(ast, fn_name.as_str()) {
                Ok(d) => d,
                Err(e) => {
                    return Err(e);
                },
            };
            proof {
                law_found_defn_is_named(*ast, fn_name@);
            }
            let (args_end, defn_end) = match body_bounds(defn, fn_name.as_str()) {
                Ok(p) => p,
                Err(e) => {
                    return Err(e);
                },
            };
            proof {
                lemma_args_vec_inside(*defn, b, 0);
            }
            let mut out = String::new();
            out.append(str_slice(source, 0, args_end));
            out.append("\n  ");
            out.append(new_body.as_str());
            out.append("\n");
            out.append(str_slice(source, defn_end - 1, len));
            Ok(out)
        },
        Edit::PrependToBody { fn_name, form } => {
            let defn = match find_required(ast, fn_name.as_str()) {
                Ok(d) => d,
                Err(e) => {
                    return Err(e);
                },
            };
            proof {
                law_found_defn_is_named(*ast, fn_name@);
            }
            let (args_end, _) = match body_bounds(defn, fn_name.as_str()) {
                Ok(p) => p,
                Err(e) => {
                    return Err(e);
                },
            };
            proof {
                lemma_args_vec_inside(*defn, b, 0);
            }
            let mut out = String::new();
            out.append(str_slice(source, 0, args_end));
            out.append("\n  ");
            out.append(form.as_str());
            out.append(str_slice(source, args_end, len));
            Ok(out)
        },
        Edit::WrapBody { fn_name, wrapper_prefix, wrapper_suffix } => {
            let defn = match find_required(ast, fn_name.as_str()) {
                Ok(d) => d,
                Err(e) => {
                    return Err(e);
                },
            };
            proof {
                law_found_defn_is_named(*ast, fn_name@);
            }
            let (args_end, defn_end) = match body_bounds(defn, fn_name.as_str()) {
                Ok(p) => p,
                Err(e) => {
                    return Err(e);
                },
            };
            proof {
                lemma_args_vec_inside(*defn, b, 0);
            }
            let body = trim(str_slice(source, args_end, defn_end - 1));
            let mut out = String::new();
            out.append(str_slice(source, 0, args_end));
            out.append("\n  ");
            out.append(wrapper_prefix.as_str());
            out.append(body);
            out.append(wrapper_suffix.as_str());
            out.append("\n");
            out.append(str_slice(source, defn_end - 1, len));
            Ok(out)
        },
        Edit::Rename { old_name, new_name } => {
            let defn = match find_required(ast, old_name.as_str()) {
                Ok(d) => d,
                Err(e) => {
                    return Err(e);
                },
            };
            proof {
                law_found_defn_is_named(*ast, old_name@);
            }
            let name_form = match name_child(defn) {
                Some(n) => n,
                None => {
                    let mut m = String::new();
                    m.append("no name in defn ");
                    m.append(old_name.as_str());
                    return Err(EditorError::InvalidEdit(m));
                },
            };
            proof {
                lemma_name_child_in(*defn, b);
            }
            let mut out = String::new();
            out.append(str_slice(source, 0, name_form.span.start));
            out.append(new_name.as_str());
            out.append(str_slice(source, name_form.span.end, len));
            Ok(out)
        },
        Edit::InsertAfter { anchor: None, form } => {
            let mut out = String::new();
            out.append(trim_end(source));
            out.append("\n\n");
            out.append(form.as_str());
            Ok(out)
        },
        Edit::InsertAfter { anchor: Some(name), form } => {
            let defn = match find_required(ast, name.as_str()) {
                Ok(d) => d,
                Err(e) => {
                    return Err(e);
                },
            };
            proof {
                law_found_defn_is_named(*ast, name@);
            }
            let defn_end = defn.span.end;
            let mut out = String::new();
            out.append(str_slice(source, 0, defn_end));
            out.append("\n\n");
            out.append(form.as_str());
            out.append(str_slice(source, defn_end, len));
            Ok(out)
        },
    }
}

// ── Edits depend on the tree's value only ──────────────────────────────────

pub open spec fn opt_form_view(o: Option<Form>) -> Option<FormView> {
    match o {
        Some(f) => Some(form_view(f)),
        None => None,
    }
}

proof fn lemma_first_named_views(s1: Seq<Form>, s2: Seq<Form>, name: Seq<char>)
    requires
        forms_view(s1) == forms_view(s2),
    ensures
        opt_form_view(first_named(s1, name)) == opt_form_view(first_named(s2, name)),
    decreases s1.len(),
{
    assert(forms_view(s1).len() == s1.len());
    assert(forms_view(s2).len() == s2.len());
    if s1.len() > 0 {
        assert(forms_view(s1)[0] == form_view(s1[0]));
        assert(forms_view(s2)[0] == form_view(s2[0]));
        lemma_view_defn_name(s1[0]);
        lemma_view_defn_name(s2[0]);
        if spec_defn_name(s1[0]) != Some(name) {
            assert(forms_view(s1.drop_first()) =~= forms_view(s1).drop_first());
            assert(forms_view(s2.drop_first()) =~= forms_view(s2).drop_first());
            lemma_first_named_views(s1.drop_first(), s2.drop_first(), name);
        }
    }
}

proof fn lemma_first_vector_views(c1: Form, c2: Form, k: int)
    requires
        form_view(c1) == form_view(c2),
    ensures
        opt_form_view(first_vector(c1, k)) == opt_form_view(first_vector(c2, k)),
    decreases c1.children.len() - k,
{
    lemma_children_view(c1);
    lemma_children_view(c2);
    assert(forms_view(c1.children@).len() == c1.children.len());
    assert(forms_view(c2.children@).len() == c2.children.len());
    if 0 <= k < c1.children.len() {
        lemma_child_views(c1, c2, k);
        lemma_first_vector_views(c1, c2, k + 1);
    }
}

proof fn lemma_args_vec_views(d1: Form, d2: Form, k: int)
    requires
        form_view(d1) == form_view(d2),
    ensures
        opt_form_view(args_vec_from_child(d1, k)) == opt_form_view(args_vec_from_child(d2, k)),
    decreases d1.children.len() - k,
{
    lemma_children_view(d1);
    lemma_children_view(d2);
    assert(forms_view(d1.children@).len() == d1.children.len());
    assert(forms_view(d2.children@).len() == d2.children.len());
    if 0 <= k < d1.children.len() {
        lemma_child_views(d1, d2, k);
        lemma_first_vector_views(d1.children[k], d2.children[k], 0);
        lemma_args_vec_views(d1, d2, k + 1);
    }
}

proof fn lemma_name_child_views(d1: Form, d2: Form)
    requires
        form_view(d1) == form_view(d2),
    ensures
        opt_form_view(spec_name_child(d1)) == opt_form_view(spec_name_child(d2)),
{
    lemma_children_view(d1);
    lemma_children_view(d2);
    assert(forms_view(d1.children@).len() == d1.children.len());
    assert(forms_view(d2.children@).len() == d2.children.len());
    if d1.children.len() >= 2 {
        lemma_child_views(d1, d2, 1);
        let n1 = d1.children[1];
        let n2 = d2.children[1];
        lemma_children_view(n1);
        lemma_children_view(n2);
        assert(forms_view(n1.children@).len() == n1.children.len());
        assert(forms_view(n2.children@).len() == n2.children.len());
        if n1.children.len() >= 2 {
            lemma_child_views(n1, n2, 1);
        }
    }
}

/// What an edit through the syntax tree gives depends only on the source
/// and on the value of the tree's top-level forms: two trees of one source
/// with equal form values give the same result for every edit.
pub proof fn law_tree_edit_by_views(a1: ClojureAst, a2: ClojureAst, e: EditView)
    requires
        a1.source@ == a2.source@,
        forms_view(a1.top_level@) == forms_view(a2.top_level@),
    ensures
        ast_edit(a1, e) == ast_edit(a2, e),
{
    let name = match e {
        EditView::ReplaceBody { fn_name, .. } => fn_name,
        EditView::PrependToBody { fn_name, .. } => fn_name,
        EditView::WrapBody { fn_name, .. } => fn_name,
        EditView::Rename { old_name, .. } => old_name,
        EditView::InsertAfter { anchor: Some(n), .. } => n,
        EditView::InsertAfter { anchor: None, .. } => Seq::empty(),
    };
    lemma_first_named_views(a1.top_level@, a2.top_level@, name);
    match (spec_find_defn(a1, name), spec_find_defn(a2, name)) {
        (Some(d1), Some(d2)) => {
            lemma_args_vec_views(d1, d2, 0);
            lemma_name_child_views(d1, d2);
        },
        _ => {},
    }
}

/// Editing is deterministic: one source and one edit allow one outcome.
pub proof fn law_edit_step_unique(
    s: Seq<char>,
    e: EditView,
    o1: Result<Seq<char>, ErrorView>,
    o2: Result<Seq<char>, ErrorView>,
)
    requires
        edit_step(s, e, o1),
        edit_step(s, e, o2),
    ensures
        o1 == o2,
{
    if parsed(s) is Ok {
        let ts = parsed(s)->Ok_0;
        let a1 = choose|a: ClojureAst|
            a.source@ == s && ast_wf(a) && forms_view(a.top_level@) == ts && o1 == #[trigger] ast_edit(a, e);
        let a2 = choose|a: ClojureAst|
            a.source@ == s && ast_wf(a) && forms_view(a.top_level@) == ts && o2 == #[trigger] ast_edit(a, e);
        law_tree_edit_by_views(a1, a2, e);
    }
}

// ── Dispatch ────────────────────────────────────────────────────────────────

/// One step of editing: through the syntax tree of the source when it
/// parses (the tree whose forms are the ones cljrs-reader reads, converted
/// as [`parsed`] says), by scanning bytes only when it does not.
pub open spec fn edit_step(s: Seq<char>, e: EditView, out: Result<Seq<char>, ErrorView>) -> bool {
    match parsed(s) {
        Err(_) => out == scan_edit(s, e),
        Ok(ts) => exists|a: ClojureAst|
            a.source@ == s && ast_wf(a) && forms_view(a.top_level@) == ts && out == #[trigger] ast_edit(
                a,
                e,
            ),
    }
}

/// `ms` are the sources that the edits `es` step through, from `ms[0]`: each
/// edit takes one source to the next.
pub open spec fn steps_through(ms: Seq<Seq<char>>, es: Seq<EditView>) -> bool {
    &&& ms.len() == es.len() + 1
    &&& forall|i: int| 0 <= i < es.len() ==> edit_step(ms[i], #[trigger] es[i], Ok(ms[i + 1]))
}

/// The edits `es`, applied in order to `s`, give `t`.
pub open spec fn edits_chain(s: Seq<char>, es: Seq<EditView>, t: Seq<char>) -> bool {
    exists|ms: Seq<Seq<char>>| #[trigger] steps_through(ms, es) && ms[0] == s && ms.last() == t
}

/// Applying the edits `es` in order to `s` stops at edit `k` with `err`.
pub open spec fn edits_fail(s: Seq<char>, es: Seq<EditView>, err: ErrorView) -> bool {
    exists|k: int, ms: Seq<Seq<char>>|
        0 <= k < es.len() && #[trigger] steps_through(ms, es.subrange(0, k)) && ms[0] == s
            && edit_step(ms.last(), es[k], Err(err))
}

proof fn lemma_chain_extend(s: Seq<char>, es: Seq<EditView>, m: Seq<char>, t: Seq<char>)
    requires
        es.len() > 0,
        edits_chain(s, es.drop_last(), m),
        edit_step(m, es.last(), Ok(t)),
    ensures
        edits_chain(s, es, t),
{
    let ms = choose|ms: Seq<Seq<char>>| #[trigger] steps_through(ms, es.drop_last()) && ms[0] == s && ms.last() == m;
    let ms2 = ms.push(t);
    assert forall|i: int| 0 <= i < es.len() implies edit_step(ms2[i], #[trigger] es[i], Ok(ms2[i + 1])) by {
        if i < es.len() - 1 {
            assert(es.drop_last()[i] == es[i]);
        }
    }
    assert(steps_through(ms2, es));
}

pub open spec fn edits_view(es: Seq<Edit>) -> Seq<EditView> {
    es.map_values(|e: Edit| e@)
}

fn apply_via_ast(source: &str, edit: &Edit) -> (r: Result<String, EditorError>)
    ensures
        match parsed(source@) {
            Err(m) => r matches Err(e) && e@ == ErrorView::Parse(m),
            Ok(ts) => exists|a: ClojureAst|
                a.source@ == source@ && ast_wf(a) && forms_view(a.top_level@) == ts && result_view(r)
                    == #[trigger] ast_edit(a, edit@),
        },
{
    let ast = match ClojureAst::parse(source) {
        Ok(ast) => ast,
        Err(e) => {
            return Err(e);
        },
    };
    let r = apply_ast_edit(&ast, edit);
    proof {
        lemma_ast_edit_not_parse(ast, edit@);
    }
    r
}

/// Editing through a syntax tree never reports a parse error.
proof fn lemma_ast_edit_not_parse(a: ClojureAst, e: EditView)
    ensures
        !(ast_edit(a, e) matches Err(err) && err is Parse),
{
}

fn apply_single(source: &str, edit: &Edit) -> (r: Result<String, EditorError>)
    ensures
        edit_step(source@, edit@, result_view(r)),
{
    // Try the tree first; fall back to scanning bytes if the source does not read.
    match apply_via_ast(source, edit) {
        Ok(result) => {
            return Ok(result);
        },
        Err(EditorError::Parse(_)) => {},
        Err(e) => {
            return Err(e);
        },
    }
    apply_via_scan(source, edit)
}

impl Editor {
    pub fn new(source: &str) -> (r: Self)
        ensures
            r.source_view() == source@,
    {
        Self { source: source.to_owned() }
    }

    /// The source this editor starts from.
    pub closed spec fn source_view(&self) -> Seq<char> {
        self.source@
    }

    /// Apply a sequence of edits in order, re-parsing between each.
    pub fn apply(&self, edits: &[Edit]) -> (r: Result<EditResult, EditorError>)
        ensures
            r matches Ok(res) ==> res.edits_applied == edits.len() && edits_chain(
                self.source_view(),
                edits_view(edits@),
                res.source@,
            ),
            r matches Err(e) ==> edits_fail(self.source_view(), edits_view(edits@), e@),
            apply_gives(self.source_view(), edits_view(edits@), applied_view(r)),
    {
        let ghost es = edits_view(edits@);
        let mut source = self.source.clone();
        let mut applied: usize = 0;
        proof {
            let ms0 = seq![self.source@];
            assert(steps_through(ms0, es.subrange(0, 0)));
        }
        while applied < edits.len()
            invariant
                applied <= edits.len(),
                es == edits_view(edits@),
                edits_chain(self.source@, es.subrange(0, applied as int), source@),
            decreases edits.len() - applied,
        {
            let ghost before = source@;
            let step = apply_single(source.as_str(), &edits[applied]);
            assert(es[applied as int] == edits[applied as int]@);
            match step {
                Ok(next) => {
                    let ghost nv = next@;
                    proof {
                        let pre = es.subrange(0, applied as int);
                        let post = es.subrange(0, applied + 1);
                        assert(post.drop_last() =~= pre);
                        assert(post.last() == es[applied as int]);
                        assert(edit_step(before, post.last(), Ok(nv)));
                        lemma_chain_extend(self.source@, post, before, nv);
                    }
                    source = next;
                    applied = applied + 1;
                },
                Err(e) => {
                    proof {
                        let ms = choose|ms: Seq<Seq<char>>|
                            #[trigger] steps_through(ms, es.subrange(0, applied as int)) && ms[0]
                                == self.source@ && ms.last() == before;
                        assert(edit_step(ms.last(), es[applied as int], Err(e@)));
                    }
                    return Err(e);
                },
            }
        }
        assert(es.subrange(0, applied as int) =~= es);
        Ok(EditResult { source, edits_applied: applied })
    }
}

// ── Laws of applying edits in order ────────────────────────────────────────

/// Applying no edits leaves the source as it is.
pub proof fn law_no_edits(s: Seq<char>, t: Seq<char>)
    ensures
        edits_chain(s, Seq::empty(), t) <==> t == s,
{
    if t == s {
        let ms = seq![s];
        assert(steps_through(ms, Seq::<EditView>::empty()));
    }
}

/// Applying one edit is one edit step.
pub proof fn law_one_edit(s: Seq<char>, e: EditView, t: Seq<char>)
    ensures
        edits_chain(s, seq![e], t) <==> edit_step(s, e, Ok(t)),
{
    if edit_step(s, e, Ok(t)) {
        let ms = seq![s, t];
        assert(steps_through(ms, seq![e]));
    }
    if edits_chain(s, seq![e], t) {
        let ms = choose|ms: Seq<Seq<char>>| #[trigger] steps_through(ms, seq![e]) && ms[0] == s && ms.last() == t;
        assert(seq![e][0] == e);
    }
}

/// Applying a batch of edits is applying its first part and then, to the
/// result, its second part.
pub proof fn law_edits_compose(s: Seq<char>, es1: Seq<EditView>, es2: Seq<EditView>, t: Seq<char>)
    ensures
        edits_chain(s, es1 + es2, t) <==> exists|m: Seq<char>|
            edits_chain(s, es1, m) && edits_chain(m, es2, t),
{
    let es = es1 + es2;
    let n1 = es1.len() as int;
    if edits_chain(s, es, t) {
        let ms = choose|ms: Seq<Seq<char>>| #[trigger] steps_through(ms, es) && ms[0] == s && ms.last() == t;
        let ms1 = ms.subrange(0, n1 + 1);
        let ms2 = ms.subrange(n1, ms.len() as int);
        assert forall|i: int| 0 <= i < es1.len() implies edit_step(ms1[i], #[trigger] es1[i], Ok(ms1[i + 1])) by {
            assert(es[i] == es1[i]);
        }
        assert(steps_through(ms1, es1));
        assert forall|i: int| 0 <= i < es2.len() implies edit_step(ms2[i], #[trigger] es2[i], Ok(ms2[i + 1])) by {
            assert(es[n1 + i] == es2[i]);
        }
        assert(steps_through(ms2, es2));
        assert(edits_chain(s, es1, ms[n1]));
        assert(edits_chain(ms[n1], es2, t));
    }
    if exists|m: Seq<char>| edits_chain(s, es1, m) && edits_chain(m, es2, t) {
        let m = choose|m: Seq<char>| edits_chain(s, es1, m) && edits_chain(m, es2, t);
        let ms1 = choose|ms: Seq<Seq<char>>| #[trigger] steps_through(ms, es1) && ms[0] == s && ms.last() == m;
        let ms2 = choose|ms: Seq<Seq<char>>| #[trigger] steps_through(ms, es2) && ms[0] == m && ms.last() == t;
        let ms = ms1 + ms2.drop_first();
        assert forall|i: int| 0 <= i < es.len() implies edit_step(ms[i], #[trigger] es[i], Ok(ms[i + 1])) by {
            if i < n1 {
                assert(es[i] == es1[i]);
            } else {
                assert(es[i] == es2[i - n1]);
                if i == n1 {
                    assert(ms[i] == ms1.last());
                }
            }
        }
        assert(steps_through(ms, es));
        assert(edits_chain(s, es, t));
    }
}

/// The outcome of `Editor::apply` as values: the final source, or the error.
pub open spec fn applied_view(r: Result<EditResult, EditorError>) -> Result<Seq<char>, ErrorView> {
    match r {
        Ok(res) => Ok(res.source@),
        Err(e) => Err(e@),
    }
}

/// What applying the edits `es` in order to `s` comes to: the final source,
/// or the error of the first edit that fails.
pub open spec fn apply_gives(s: Seq<char>, es: Seq<EditView>, o: Result<Seq<char>, ErrorView>) -> bool {
    match o {
        Ok(t) => edits_chain(s, es, t),
        Err(e) => edits_fail(s, es, e),
    }
}

/// Two runs from one source through prefixes of the same edits pass through
/// the same sources.
proof fn lemma_steps_agree(
    ms1: Seq<Seq<char>>,
    ms2: Seq<Seq<char>>,
    es: Seq<EditView>,
    a: int,
    b: int,
    i: int,
)
    requires
        0 <= a <= es.len(),
        0 <= b <= es.len(),
        steps_through(ms1, es.subrange(0, a)),
        steps_through(ms2, es.subrange(0, b)),
        ms1[0] == ms2[0],
        0 <= i <= a,
        i <= b,
    ensures
        ms1[i] == ms2[i],
    decreases i,
{
    if i > 0 {
        lemma_steps_agree(ms1, ms2, es, a, b, i - 1);
        let e1 = es.subrange(0, a);
        let e2 = es.subrange(0, b);
        assert(edit_step(ms1[i - 1], e1[i - 1], Ok(ms1[i])));
        assert(edit_step(ms2[i - 1], e2[i - 1], Ok(ms2[i])));
        assert(e1[i - 1] == e2[i - 1]);
        law_edit_step_unique(ms1[i - 1], e1[i - 1], Ok(ms1[i]), Ok(ms2[i]));
    }
}

/// Applying edits has one outcome: one source and one list of edits give
/// one final source, or one error, never both.
pub proof fn law_apply_unique(
    s: Seq<char>,
    es: Seq<EditView>,
    o1: Result<Seq<char>, ErrorView>,
    o2: Result<Seq<char>, ErrorView>,
)
    requires
        apply_gives(s, es, o1),
        apply_gives(s, es, o2),
    ensures
        o1 == o2,
{
    let n = es.len() as int;
    assert(es.subrange(0, n) =~= es);
    match (o1, o2) {
        (Ok(t1), Ok(t2)) => {
            let ms1 = choose|ms: Seq<Seq<char>>| #[trigger] steps_through(ms, es) && ms[0] == s && ms.last() == t1;
            let ms2 = choose|ms: Seq<Seq<char>>| #[trigger] steps_through(ms, es) && ms[0] == s && ms.last() == t2;
            lemma_steps_agree(ms1, ms2, es, n, n, n);
        },
        (Ok(t), Err(e)) => {
            lemma_chain_not_fail(s, es, t, e);
        },
        (Err(e), Ok(t)) => {
            lemma_chain_not_fail(s, es, t, e);
        },
        (Err(e1), Err(e2)) => {
            let (k1, ms1) = choose|k: int, ms: Seq<Seq<char>>|
                0 <= k < es.len() && #[trigger] steps_through(ms, es.subrange(0, k)) && ms[0] == s
                    && edit_step(ms.last(), es[k], Err(e1));
            let (k2, ms2) = choose|k: int, ms: Seq<Seq<char>>|
                0 <= k < es.len() && #[trigger] steps_through(ms, es.subrange(0, k)) && ms[0] == s
                    && edit_step(ms.last(), es[k], Err(e2));
            if k1 < k2 {
                lemma_steps_agree(ms1, ms2, es, k1, k2, k1);
                assert(edit_step(ms2[k1], es.subrange(0, k2)[k1], Ok(ms2[k1 + 1])));
                law_edit_step_unique(ms1.last(), es[k1], Err(e1), Ok(ms2[k1 + 1]));
            } else if k2 < k1 {
                lemma_steps_agree(ms1, ms2, es, k1, k2, k2);
                assert(edit_step(ms1[k2], es.subrange(0, k1)[k2], Ok(ms1[k2 + 1])));
                law_edit_step_unique(ms2.last(), es[k2], Err(e2), Ok(ms1[k2 + 1]));
            } else {
                lemma_steps_agree(ms1, ms2, es, k1, k2, k1);
                law_edit_step_unique(ms1.last(), es[k1], Err(e1), Err(e2));
            }
        },
    }
}

proof fn lemma_chain_not_fail(s: Seq<char>, es: Seq<EditView>, t: Seq<char>, e: ErrorView)
    requires
        edits_chain(s, es, t),
    ensures
        !edits_fail(s, es, e),
{
    if edits_fail(s, es, e) {
        let n = es.len() as int;
        assert(es.subrange(0, n) =~= es);
        let ms1 = choose|ms: Seq<Seq<char>>| #[trigger] steps_through(ms, es) && ms[0] == s && ms.last() == t;
        let (k, ms2) = choose|k: int, ms: Seq<Seq<char>>|
            0 <= k < es.len() && #[trigger] steps_through(ms, es.subrange(0, k)) && ms[0] == s
                && edit_step(ms.last(), es[k], Err(e));
        lemma_steps_agree(ms1, ms2, es, n, k, k);
        assert(edit_step(ms1[k], es[k], Ok(ms1[k + 1])));
        law_edit_step_unique(ms2.last(), es[k], Err(e), Ok(ms1[k + 1]));
    }
}

/// Applying `es1` followed by `es2` to `s` gives what applying `es1` gives
/// when that fails, and otherwise what applying `es2` to its result gives.
pub proof fn law_apply_composes(
    s: Seq<char>,
    es1: Seq<EditView>,
    es2: Seq<EditView>,
    o1: Result<Seq<char>, ErrorView>,
    o2: Result<Seq<char>, ErrorView>,
    o: Result<Seq<char>, ErrorView>,
)
    requires
        apply_gives(s, es1 + es2, o),
        apply_gives(s, es1, o1),
        o1 matches Ok(m) ==> apply_gives(m, es2, o2),
    ensures
        o == match o1 {
            Ok(_) => o2,
            Err(e) => Err(e),
        },
{
    let es = es1 + es2;
    let n1 = es1.len() as int;
    match o1 {
        Err(e) => {
            let (k, ms) = choose|k: int, ms: Seq<Seq<char>>|
                0 <= k < es1.len() && #[trigger] steps_through(ms, es1.subrange(0, k)) && ms[0] == s
                    && edit_step(ms.last(), es1[k], Err(e));
            assert(es.subrange(0, k) =~= es1.subrange(0, k));
            assert(es[k] == es1[k]);
            assert(steps_through(ms, es.subrange(0, k)));
            assert(edits_fail(s, es, e));
            law_apply_unique(s, es, o, Err(e));
        },
        Ok(m) => match o2 {
            Ok(t) => {
                law_edits_compose(s, es1, es2, t);
                law_apply_unique(s, es, o, Ok(t));
            },
            Err(e) => {
                let (k, ms2) = choose|k: int, ms: Seq<Seq<char>>|
                    0 <= k < es2.len() && #[trigger] steps_through(ms, es2.subrange(0, k)) && ms[0]
                        == m && edit_step(ms.last(), es2[k], Err(e));
                let pre = es2.subrange(0, k);
                assert(edits_chain(m, pre, ms2.last()));
                law_edits_compose(s, es1, pre, ms2.last());
                let ms = choose|ms: Seq<Seq<char>>|
                    #[trigger] steps_through(ms, es1 + pre) && ms[0] == s && ms.last() == ms2.last();
                assert(es.subrange(0, n1 + k) =~= es1 + pre);
                assert(es[n1 + k] == es2[k]);
                assert(steps_through(ms, es.subrange(0, n1 + k)));
                assert(edits_fail(s, es, e));
                law_apply_unique(s, es, o, Err(e));
            },
        },
    }
}

} // verus!
