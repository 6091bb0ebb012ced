//! Turning a (possibly edited) syntax tree back into source text.
use vstd::prelude::*;
use vstd::string::*;
use vstd::utf8::valid_utf8;
use crate::text::{chars_in, cut_ok, str_slice, lemma_chars_concat, utf8, lemma_chars_whole};
use crate::editor::ast::{Form, ClojureAst, tree_ok, span_in, ast_wf, form_wf, children_nested, lemma_wf_tree_ok};
use crate::editor::zipper::{
    FormView, ZipperView, form_view, lemma_children_view, lemma_child_views, spec_root, focus_path,
    view_node_at, view_replaced_at, law_replace_changes_only_focus,
};

verus! {

broadcast use vstd::std_specs::vec::group_vec_axioms;

/// Where the text of `f` continues after its first `k` children.
pub open spec fn cursor_after(f: Form, k: int) -> int {
    if k <= 0 {
        f.span.start as int
    } else {
        f.children[k - 1].span.end as int
    }
}

/// The source between `from` and `to`, when `to` lies after `from`.
pub open spec fn gap(b: Seq<u8>, from: int, to: int) -> Seq<char> {
    if to > from {
        chars_in(b, from, to)
    } else {
        Seq::empty()
    }
}

/// A gap can be cut out of the source.
pub open spec fn gap_ok(b: Seq<u8>, from: int, to: int) -> bool {
    to > from ==> cut_ok(b, from) && cut_ok(b, to)
}

/// The text that unparsing `f` over the source bytes `b` gives: a node
/// without children gives its text (for a node read from the source that is
/// its source; for a replaced node, the replacement), and a composite gives
/// its children with the source between and around them.
pub open spec fn emit(f: Form, b: Seq<u8>) -> Seq<char>
    decreases f, 1int, 0int,
{
    if f.children.len() == 0 {
        f.text@
    } else {
        emit_children(f, b, f.children.len() as int) + gap(
            b,
            cursor_after(f, f.children.len() as int),
            f.span.end as int,
        )
    }
}

/// The text of the first `k` children of `f`, each preceded by its gap.
pub open spec fn emit_children(f: Form, b: Seq<u8>, k: int) -> Seq<char>
    decreases f, 0int, k,
{
    if k <= 0 || k > f.children.len() {
        Seq::empty()
    } else {
        emit_children(f, b, k - 1) + gap(b, cursor_after(f, k - 1), f.children[k - 1].span.start as int)
            + emit(f.children[k - 1], b)
    }
}

/// Every piece of source that unparsing `f` cuts out lies on character
/// boundaries inside `b`.
pub open spec fn emit_ok(f: Form, b: Seq<u8>) -> bool
    decreases f, 1int, 0int,
{
    if f.children.len() == 0 {
        true
    } else {
        emit_children_ok(f, b, f.children.len() as int) && gap_ok(
            b,
            cursor_after(f, f.children.len() as int),
            f.span.end as int,
        )
    }
}

pub open spec fn emit_children_ok(f: Form, b: Seq<u8>, k: int) -> bool
    decreases f, 0int, k,
{
    if k <= 0 || k > f.children.len() {
        true
    } else {
        emit_children_ok(f, b, k - 1) && gap_ok(
            b,
            cursor_after(f, k - 1),
            f.children[k - 1].span.start as int,
        ) && emit_ok(f.children[k - 1], b)
    }
}

/// Reconstruct edited source by walking `root` and substituting replaced nodes.
///
/// The source between and around children is copied verbatim from
/// `original_source` using their byte spans; a node without children (a leaf
/// read from the source, whose text is the source under its span, or a node
/// whose text was replaced and which kept the span of the node it replaced)
/// emits its `text` in place of its span.
pub fn unparse(root: &Form, original_source: &str) -> (r: String)
    requires
        emit_ok(*root, original_source.spec_bytes()),
    ensures
        r@ == emit(*root, original_source.spec_bytes()),
{
    let mut out = String::new();
    emit_form(root, original_source, &mut out);
    assert(out@ =~= emit(*root, original_source.spec_bytes()));
    out
}

fn emit_form(form: &Form, src: &str, out: &mut String)
    requires
        emit_ok(*form, src.spec_bytes()),
    ensures
        final(out)@ == old(out)@ + emit(*form, src.spec_bytes()),
    decreases *form, 1int,
{
    // A leaf or a replaced node: its text stands in its place.
    if form.children.len() == 0 {
        out.append(form.text.as_str());
        return;
    }
    emit_composite(form, src, out);
}

fn emit_composite(form: &Form, src: &str, out: &mut String)
    requires
        form.children.len() > 0,
        emit_ok(*form, src.spec_bytes()),
    ensures
        final(out)@ == old(out)@ + emit(*form, src.spec_bytes()),
    decreases *form, 0int,
{
    let ghost b = src.spec_bytes();
    let ghost start = old(out)@;
    // Walk children in span order; gaps between children reproduce the
    // original whitespace and comments exactly.
    let mut cursor = form.span.start;
    let mut i: usize = 0;
    assert(out@ =~= start + emit_children(*form, b, 0));
    while i < form.children.len()
        invariant
            b == src.spec_bytes(),
            form.children.len() > 0,
            emit_ok(*form, b),
            i <= form.children.len(),
            cursor as int == cursor_after(*form, i as int),
            out@ == start + emit_children(*form, b, i as int),
            emit_children_ok(*form, b, form.children.len() as int),
        decreases form.children.len() - i,
    {
        let child = &form.children[i];
        proof {
            lemma_children_ok_prefix(*form, b, i + 1, form.children.len() as int);
        }
        if child.span.start > cursor {
            out.append(str_slice(src, cursor, child.span.start));
        }
        emit_form(child, src, out);
        cursor = child.span.end;
        proof {
            assert(emit_children(*form, b, i + 1) == emit_children(*form, b, i as int) + gap(
                b,
                cursor_after(*form, i as int),
                form.children[i as int].span.start as int,
            ) + emit(form.children[i as int], b));
        }
        assert(out@ =~= start + emit_children(*form, b, i + 1));
        i = i + 1;
    }
    // The trailing gap up to the closing delimiter.
    if cursor < form.span.end {
        out.append(str_slice(src, cursor, form.span.end));
    }
    assert(out@ =~= start + emit(*form, b));
}

proof fn lemma_children_ok_prefix(f: Form, b: Seq<u8>, k: int, n: int)
    requires
        0 <= k <= n <= f.children.len(),
        emit_children_ok(f, b, n),
    ensures
        emit_children_ok(f, b, k),
    decreases n - k,
{
    if k < n {
        lemma_children_ok_prefix(f, b, k, n - 1);
    }
}

/// Unparsing a tree that agrees with its source gives back exactly the
/// source text that the tree spans.
pub proof fn law_unparse_identity(f: Form, b: Seq<u8>)
    requires
        valid_utf8(b),
        tree_ok(f, b),
    ensures
        emit_ok(f, b),
        emit(f, b) == chars_in(b, f.span.start as int, f.span.end as int),
    decreases f, 1int, 0int,
{
    if f.children.len() > 0 {
        let n = f.children.len() as int;
        lemma_emit_children_identity(f, b, n);
        let c = cursor_after(f, n);
        assert(tree_ok(f.children[n - 1], b));
        if c < f.span.end {
            lemma_chars_concat(b, f.span.start as int, c, f.span.end as int);
        } else {
            assert(c == f.span.end);
            assert(gap(b, c, f.span.end as int) =~= Seq::<char>::empty());
        }
    }
}

/// Unparsing a root whose children are the top-level forms of a parsed file,
/// spanning the whole file, gives back the file's source unchanged.
pub proof fn law_unparse_parsed_source(a: ClojureAst, root: Form)
    requires
        ast_wf(a),
        root.span.start == 0,
        root.span.end == utf8(a.source@).len(),
        root.text@ == a.source@,
        root.children@ == a.top_level@,
    ensures
        emit_ok(root, utf8(a.source@)),
        emit(root, utf8(a.source@)) == a.source@,
{
    let b = utf8(a.source@);
    lemma_chars_whole(a.source@);
    assert forall|i: int| 0 <= i < root.children.len() implies tree_ok(#[trigger] root.children[i], b) by {
        assert(form_wf(a.top_level@[i], b));
        lemma_wf_tree_ok(a.top_level@[i], b);
    }
    assert forall|i: int| 0 <= i < root.children.len() implies root.span.start <= (
    #[trigger] root.children[i]).span.start && root.children[i].span.end <= root.span.end by {
        assert(form_wf(a.top_level@[i], b));
    }
    assert forall|i: int, j: int|
        #![trigger root.children[i], root.children[j]]
        0 <= i < j < root.children.len() implies root.children[i].span.end
        <= root.children[j].span.start by {
        assert(a.top_level@[i] == root.children[i]);
        assert(a.top_level@[j] == root.children[j]);
    }
    assert(children_nested(root));
    assert(tree_ok(root, b));
    law_unparse_identity(root, b);
}

proof fn lemma_emit_children_identity(f: Form, b: Seq<u8>, k: int)
    requires
        valid_utf8(b),
        tree_ok(f, b),
        0 <= k <= f.children.len(),
    ensures
        emit_children_ok(f, b, k),
        emit_children(f, b, k) == chars_in(b, f.span.start as int, cursor_after(f, k)),
        f.span.start <= cursor_after(f, k) <= f.span.end,
        cut_ok(b, cursor_after(f, k)),
    decreases f, 0int, k,
{
    if k == 0 {
        assert(b.subrange(f.span.start as int, f.span.start as int) =~= Seq::<u8>::empty());
        assert(chars_in(b, f.span.start as int, f.span.start as int) =~= Seq::<char>::empty());
        assert(emit_children(f, b, 0) =~= Seq::<char>::empty());
    } else {
        lemma_emit_children_identity(f, b, k - 1);
        let c = f.children[k - 1];
        assert(tree_ok(c, b));
        law_unparse_identity(c, b);
        let cur = cursor_after(f, k - 1);
        if k >= 2 {
            assert(f.children[k - 2].span.end <= f.children[k - 1].span.start);
        }
        assert(cur <= c.span.start);
        if cur < c.span.start {
            lemma_chars_concat(b, f.span.start as int, cur, c.span.start as int);
        } else {
            assert(gap(b, cur, c.span.start as int) =~= Seq::<char>::empty());
        }
        lemma_chars_concat(b, f.span.start as int, c.span.start as int, c.span.end as int);
    }
}

// ── Substitution ───────────────────────────────────────────────────────────

/// `g` is `f` with the node reached by the child positions `p` replaced by a
/// node without children whose text is `t`; every other node keeps its value,
/// and every node on the way keeps its span.
pub open spec fn replaced_at(f: Form, g: Form, p: Seq<int>, t: Seq<char>) -> bool
    decreases p.len(),
{
    &&& g.span == f.span
    &&& if p.len() == 0 {
        g.children.len() == 0 && g.text@ == t
    } else {
        &&& 0 <= p[0] < f.children.len()
        &&& g.children.len() == f.children.len()
        &&& forall|j: int|
            0 <= j < f.children.len() && j != p[0] ==> form_view(#[trigger] g.children[j])
                == form_view(f.children[j])
        &&& replaced_at(f.children[p[0]], g.children[p[0]], p.drop_first(), t)
    }
}

/// The node of `f` that the child positions `p` lead to.
pub open spec fn node_at(f: Form, p: Seq<int>) -> Form
    decreases p.len(),
{
    if p.len() == 0 {
        f
    } else {
        node_at(f.children[p[0]], p.drop_first())
    }
}

proof fn lemma_node_inside(f: Form, g: Form, p: Seq<int>, t: Seq<char>, b: Seq<u8>)
    requires
        tree_ok(f, b),
        replaced_at(f, g, p, t),
    ensures
        tree_ok(node_at(f, p), b),
        f.span.start <= node_at(f, p).span.start,
        node_at(f, p).span.end <= f.span.end,
    decreases p.len(),
{
    if p.len() > 0 {
        let c = f.children[p[0]];
        assert(tree_ok(c, b));
        lemma_node_inside(c, g.children[p[0]], p.drop_first(), t, b);
    }
}

proof fn lemma_same_cursors(f: Form, g: Form, p: Seq<int>, t: Seq<char>, j: int)
    requires
        p.len() > 0,
        replaced_at(f, g, p, t),
        0 <= j <= f.children.len(),
    ensures
        cursor_after(g, j) == cursor_after(f, j),
{
    if j > 0 && j - 1 != p[0] {
        assert(form_view(g.children[j - 1]) == form_view(f.children[j - 1]));
    }
    lemma_replaced_keeps_span(f.children[p[0]], g.children[p[0]], p.drop_first(), t);
}

proof fn lemma_replaced_keeps_span(f: Form, g: Form, p: Seq<int>, t: Seq<char>)
    requires
        replaced_at(f, g, p, t),
    ensures
        g.span == f.span,
{
}

proof fn lemma_substituted_children(
    f: Form,
    g: Form,
    p: Seq<int>,
    t: Seq<char>,
    b: Seq<u8>,
    j: int,
)
    requires
        valid_utf8(b),
        tree_ok(f, b),
        p.len() > 0,
        replaced_at(f, g, p, t),
        0 <= j <= f.children.len(),
    ensures
        emit_children_ok(g, b, j),
        j <= p[0] ==> emit_children(g, b, j) == chars_in(b, f.span.start as int, cursor_after(f, j)),
        j > p[0] ==> node_at(f, p).span.end <= cursor_after(f, j) && emit_children(g, b, j)
            == chars_in(b, f.span.start as int, node_at(f, p).span.start as int) + t + chars_in(
            b,
            node_at(f, p).span.end as int,
            cursor_after(f, j),
        ),
    decreases p.len(), 0int, j,
{
    let k = p[0];
    let n = node_at(f, p);
    lemma_node_inside(f, g, p, t, b);
    lemma_emit_children_identity(f, b, j);
    if j > 0 {
        lemma_substituted_children(f, g, p, t, b, j - 1);
        lemma_emit_children_identity(f, b, j - 1);
        lemma_same_cursors(f, g, p, t, j - 1);
        let c = f.children[j - 1];
        let cur = cursor_after(f, j - 1);
        assert(tree_ok(c, b));
        if j >= 2 {
            assert(f.children[j - 2].span.end <= f.children[j - 1].span.start);
        }
        assert(cur <= c.span.start);
        lemma_replaced_keeps_span(f.children[k], g.children[k], p.drop_first(), t);
        assert(g.children[j - 1].span == c.span);
        if cur < c.span.start {
            lemma_chars_concat(b, f.span.start as int, cur, c.span.start as int);
        } else {
            assert(gap(b, cur, c.span.start as int) =~= Seq::<char>::empty());
        }
        if j - 1 != k {
            assert(form_view(g.children[j - 1]) == form_view(c));
            law_unparse_identity(c, b);
            lemma_emit_views(c, g.children[j - 1], b);
            if j - 1 < k {
                lemma_chars_concat(b, f.span.start as int, c.span.start as int, c.span.end as int);
            } else {
                assert(f.children[k].span.end <= f.children[j - 1].span.start);
                assert(n.span.end <= cur);
                if cur < c.span.start {
                    lemma_chars_concat(b, n.span.end as int, cur, c.span.start as int);
                }
                lemma_chars_concat(b, n.span.end as int, c.span.start as int, c.span.end as int);
            }
        } else {
            let gc = g.children[k];
            assert(p.drop_first().len() < p.len());
            law_unparse_substitutes(c, gc, p.drop_first(), t, b);
            assert(node_at(c, p.drop_first()) == n);
            lemma_node_inside(c, gc, p.drop_first(), t, b);
            lemma_chars_concat(b, f.span.start as int, c.span.start as int, n.span.start as int);
        }
    }
}

/// Unparsing substitutes a replaced node: in a tree that agrees with the
/// source, replacing one node by a node of text `t` and unparsing gives the
/// source the tree spans with that node's span replaced by `t`, everything
/// else copied verbatim.
pub proof fn law_unparse_substitutes(f: Form, g: Form, p: Seq<int>, t: Seq<char>, b: Seq<u8>)
    requires
        valid_utf8(b),
        tree_ok(f, b),
        replaced_at(f, g, p, t),
    ensures
        emit_ok(g, b),
        emit(g, b) == chars_in(b, f.span.start as int, node_at(f, p).span.start as int) + t
            + chars_in(b, node_at(f, p).span.end as int, f.span.end as int),
    decreases p.len(), 1int, 0int,
{
    let s = f.span.start as int;
    let e = f.span.end as int;
    if p.len() == 0 {
        assert(b.subrange(s, s) =~= Seq::<u8>::empty());
        assert(chars_in(b, s, s) =~= Seq::<char>::empty());
        assert(b.subrange(e, e) =~= Seq::<u8>::empty());
        assert(chars_in(b, e, e) =~= Seq::<char>::empty());
        assert(emit(g, b) =~= chars_in(b, s, s) + t + chars_in(b, e, e));
    } else {
        let len = f.children.len() as int;
        let n = node_at(f, p);
        lemma_node_inside(f, g, p, t, b);
        lemma_substituted_children(f, g, p, t, b, len);
        lemma_emit_children_identity(f, b, len);
        lemma_same_cursors(f, g, p, t, len);
        let cur = cursor_after(f, len);
        assert(cur <= e);
        if cur < e {
            lemma_chars_concat(b, n.span.end as int, cur, e);
        } else {
            assert(gap(b, cur, e) =~= Seq::<char>::empty());
        }
    }
}

/// Unparsing depends on a tree's value only.
proof fn lemma_emit_views(f1: Form, f2: Form, b: Seq<u8>)
    requires
        form_view(f1) == form_view(f2),
    ensures
        emit(f1, b) == emit(f2, b),
        emit_ok(f1, b) == emit_ok(f2, b),
    decreases f1, 1int, 0int,
{
    lemma_children_view(f1);
    lemma_children_view(f2);
    assert(f1.children.len() == form_view(f1).children.len());
    assert(f2.children.len() == form_view(f2).children.len());
    assert(f1.text@ == form_view(f1).text);
    let n = f1.children.len() as int;
    lemma_emit_children_views(f1, f2, b, n);
    lemma_cursor_views(f1, f2, n);
}

proof fn lemma_cursor_views(f1: Form, f2: Form, k: int)
    requires
        form_view(f1) == form_view(f2),
        0 <= k <= f1.children.len(),
    ensures
        cursor_after(f1, k) == cursor_after(f2, k),
{
    if k > 0 {
        lemma_child_views(f1, f2, k - 1);
    }
}

proof fn lemma_emit_children_views(f1: Form, f2: Form, b: Seq<u8>, k: int)
    requires
        form_view(f1) == form_view(f2),
        0 <= k <= f1.children.len(),
    ensures
        emit_children(f1, b, k) == emit_children(f2, b, k),
        emit_children_ok(f1, b, k) == emit_children_ok(f2, b, k),
    decreases f1, 0int, k,
{
    if k > 0 {
        lemma_child_views(f1, f2, k - 1);
        lemma_emit_children_views(f1, f2, b, k - 1);
        lemma_cursor_views(f1, f2, k - 1);
        lemma_emit_views(f1.children[k - 1], f2.children[k - 1], b);
    }
}

/// A tree whose value is `v` with one node replaced by a leaf of text `t`
/// (and that node's span) is the tree `f` replaced there by `t`.
proof fn lemma_replaced_from_views(f: Form, g: Form, p: Seq<int>, t: Seq<char>, x: FormView)
    requires
        view_replaced_at(form_view(f), form_view(g), p, x),
        x.children.len() == 0,
        x.text == t,
        x.span == view_node_at(form_view(f), p).span,
    ensures
        replaced_at(f, g, p, t),
        node_at(f, p).span == x.span,
    decreases p.len(),
{
    lemma_children_view(f);
    lemma_children_view(g);
    assert(f.children.len() == form_view(f).children.len());
    assert(g.children.len() == form_view(g).children.len());
    if p.len() > 0 {
        let k = p[0];
        assert(form_view(f).children[k] == form_view(f.children[k]));
        assert(form_view(g).children[k] == form_view(g.children[k]));
        assert forall|j: int| 0 <= j < f.children.len() && j != k implies form_view(
            #[trigger] g.children[j],
        ) == form_view(f.children[j]) by {
            assert(form_view(f).children[j] == form_view(f.children[j]));
            assert(form_view(g).children[j] == form_view(g.children[j]));
        }
        lemma_replaced_from_views(f.children[k], g.children[k], p.drop_first(), t, x);
    } else {
        assert(g.text@ == form_view(g).text);
    }
}

/// Replacing the focus of a zipper over a tree that agrees with the source,
/// zipping up and unparsing gives the source with the focus's span replaced
/// by the new text: `f` is the tree the zipper was opened on (navigation
/// keeps it as the root), `r` the tree `root` gives after `replace_focus`.
pub proof fn law_replace_then_unparse(f: Form, z: ZipperView, t: Seq<char>, b: Seq<u8>, r: Form)
    requires
        valid_utf8(b),
        tree_ok(f, b),
        spec_root(z) == form_view(f),
        form_view(r) == spec_root(
            ZipperView {
                focus: FormView {
                    kind: z.focus.kind,
                    span: z.focus.span,
                    text: t,
                    children: Seq::empty(),
                },
                ..z
            },
        ),
    ensures
        emit_ok(r, b),
        emit(r, b) == chars_in(b, f.span.start as int, z.focus.span.start as int) + t + chars_in(
            b,
            z.focus.span.end as int,
            f.span.end as int,
        ),
{
    let x = FormView { kind: z.focus.kind, span: z.focus.span, text: t, children: Seq::empty() };
    law_replace_changes_only_focus(z, x);
    lemma_replaced_from_views(f, r, focus_path(z), t, x);
    law_unparse_substitutes(f, r, focus_path(z), t, b);
}

} // verus!
