//! An owned zipper over a syntax tree, for moving around it and replacing
//! the text of one node.
use vstd::prelude::*;
use vstd::string::*;
use crate::text::str_eq;
use crate::editor::ast::{Form, FormKind, Span, spec_defn_name, opt_str};

verus! {

broadcast use vstd::std_specs::vec::group_vec_axioms;

/// A tree as a mathematical value: kind, span, text and children.
pub struct FormView {
    pub kind: FormKind,
    pub span: Span,
    pub text: Seq<char>,
    pub children: Seq<FormView>,
}

/// The value of a tree.
pub open spec fn form_view(f: Form) -> FormView
    decreases f,
{
    FormView {
        kind: f.kind,
        span: f.span,
        text: f.text@,
        children: Seq::new(
            f.children.len() as nat,
            |i: int|
                if 0 <= i < f.children.len() {
                    form_view(f.children[i])
                } else {
                    FormView { kind: f.kind, span: f.span, text: f.text@, children: Seq::empty() }
                },
        ),
    }
}

/// The values of a sequence of trees.
pub open spec fn forms_view(s: Seq<Form>) -> Seq<FormView> {
    s.map_values(|f: Form| form_view(f))
}

pub proof fn lemma_children_view(f: Form)
    ensures
        form_view(f).children == forms_view(f.children@),
{
    assert(form_view(f).children =~= forms_view(f.children@));
}

/// Trees with equal values have children with equal values.
pub proof fn lemma_child_views(c1: Form, c2: Form, k: int)
    requires
        form_view(c1) == form_view(c2),
        0 <= k < c1.children.len(),
    ensures
        c1.children.len() == c2.children.len(),
        form_view(c1.children[k]) == form_view(c2.children[k]),
{
    lemma_children_view(c1);
    lemma_children_view(c2);
    assert(forms_view(c1.children@).len() == c1.children.len());
    assert(forms_view(c2.children@).len() == c2.children.len());
    assert(forms_view(c1.children@)[k] == form_view(c1.children[k]));
    assert(forms_view(c2.children@)[k] == form_view(c2.children[k]));
}

pub open spec fn defn_chars_v() -> Seq<char> {
    seq!['d', 'e', 'f', 'n']
}

pub open spec fn defn_private_chars_v() -> Seq<char> {
    seq!['d', 'e', 'f', 'n', '-']
}

/// The `defn` name of a tree value, as `spec_defn_name` gives it for trees.
pub open spec fn view_defn_name(v: FormView) -> Option<Seq<char>> {
    if v.kind == FormKind::List && v.children.len() >= 2 && (v.children[0].text == defn_chars_v()
        || v.children[0].text == defn_private_chars_v()) {
        let nc = v.children[1];
        if nc.kind == FormKind::Metadata {
            if nc.children.len() >= 2 {
                Some(nc.children[1].text)
            } else {
                None
            }
        } else {
            Some(nc.text)
        }
    } else {
        None
    }
}

pub proof fn lemma_view_defn_name(f: Form)
    ensures
        view_defn_name(form_view(f)) == spec_defn_name(f),
{
    if f.children.len() >= 2 {
        assert(form_view(f).children[0] == form_view(f.children[0]));
        assert(form_view(f).children[1] == form_view(f.children[1]));
        let nc = f.children[1];
        if nc.children.len() >= 2 {
            assert(form_view(nc).children[1] == form_view(nc.children[1]));
        }
    }
}

/// A breadcrumb recording what was above the zipper's focus.
struct Crumb {
    /// Siblings to the left of focus (in original order).
    left: Vec<Form>,
    /// Siblings to the right of focus (in original order).
    right: Vec<Form>,
    /// The parent node's kind and span (children are reassembled on `up`).
    parent_kind: FormKind,
    parent_span: Span,
    parent_text: String,
}

/// A breadcrumb as a mathematical value.
pub struct CrumbView {
    pub left: Seq<FormView>,
    pub right: Seq<FormView>,
    pub parent_kind: FormKind,
    pub parent_span: Span,
    pub parent_text: Seq<char>,
}

spec fn crumb_view(c: Crumb) -> CrumbView {
    CrumbView {
        left: forms_view(c.left@),
        right: forms_view(c.right@),
        parent_kind: c.parent_kind,
        parent_span: c.parent_span,
        parent_text: c.parent_text@,
    }
}

/// An owned zipper over a `Form` tree for structural editing.
///
/// Navigation consumes and rebuilds nodes so that `replace_focus` can swap in
/// new text without borrowing conflicts. Call `root()` to zip back up and then
/// `unparse` to produce the edited source string.
pub struct Zipper {
    pub focus: Form,
    crumbs: Vec<Crumb>,
    source: String,
}

/// A zipper as a mathematical value: the focused tree, the breadcrumbs from
/// the root down, and the source text.
pub struct ZipperView {
    pub focus: FormView,
    pub crumbs: Seq<CrumbView>,
    pub source: Seq<char>,
}

impl View for Zipper {
    type V = ZipperView;

    closed spec fn view(&self) -> ZipperView {
        ZipperView {
            focus: form_view(self.focus),
            crumbs: self.crumbs@.map_values(|c: Crumb| crumb_view(c)),
            source: self.source@,
        }
    }
}

/// Kinds whose children a zipper can descend into.
pub open spec fn navigable(k: FormKind) -> bool {
    k == FormKind::List || k == FormKind::Vector || k == FormKind::MapLiteral || k
        == FormKind::SetLiteral || k == FormKind::Metadata
}

/// The zipper after descending to the first child, if there is one.
pub open spec fn spec_down(z: ZipperView) -> Option<ZipperView> {
    if navigable(z.focus.kind) && z.focus.children.len() > 0 {
        Some(
            ZipperView {
                focus: z.focus.children[0],
                crumbs: z.crumbs.push(
                    CrumbView {
                        left: Seq::empty(),
                        right: z.focus.children.drop_first(),
                        parent_kind: z.focus.kind,
                        parent_span: z.focus.span,
                        parent_text: z.focus.text,
                    },
                ),
                source: z.source,
            },
        )
    } else {
        None
    }
}

/// The zipper after moving to the next sibling, if there is one.
pub open spec fn spec_right(z: ZipperView) -> Option<ZipperView> {
    if z.crumbs.len() > 0 && z.crumbs.last().right.len() > 0 {
        let c = z.crumbs.last();
        Some(
            ZipperView {
                focus: c.right[0],
                crumbs: z.crumbs.drop_last().push(
                    CrumbView { left: c.left.push(z.focus), right: c.right.drop_first(), ..c },
                ),
                source: z.source,
            },
        )
    } else {
        None
    }
}

/// The zipper after moving to the previous sibling, if there is one.
pub open spec fn spec_left(z: ZipperView) -> Option<ZipperView> {
    if z.crumbs.len() > 0 && z.crumbs.last().left.len() > 0 {
        let c = z.crumbs.last();
        Some(
            ZipperView {
                focus: c.left.last(),
                crumbs: z.crumbs.drop_last().push(
                    CrumbView { left: c.left.drop_last(), right: seq![z.focus] + c.right, ..c },
                ),
                source: z.source,
            },
        )
    } else {
        None
    }
}

/// The zipper after moving to the parent, if there is one: the parent is
/// rebuilt from the breadcrumb with the focus between its siblings.
pub open spec fn spec_up(z: ZipperView) -> Option<ZipperView> {
    if z.crumbs.len() > 0 {
        let c = z.crumbs.last();
        Some(
            ZipperView {
                focus: FormView {
                    kind: c.parent_kind,
                    span: c.parent_span,
                    text: c.parent_text,
                    children: c.left.push(z.focus) + c.right,
                },
                crumbs: z.crumbs.drop_last(),
                source: z.source,
            },
        )
    } else {
        None
    }
}

/// The tree that zipping all the way up gives.
pub open spec fn spec_root(z: ZipperView) -> FormView
    decreases z.crumbs.len(),
{
    if z.crumbs.len() == 0 {
        z.focus
    } else {
        spec_root(spec_up(z)->0)
    }
}

/// The zipper at child `k` of the focus.
pub open spec fn child_at(z: ZipperView, k: int) -> ZipperView {
    ZipperView {
        focus: z.focus.children[k],
        crumbs: z.crumbs.push(
            CrumbView {
                left: z.focus.children.subrange(0, k),
                right: z.focus.children.subrange(k + 1, z.focus.children.len() as int),
                parent_kind: z.focus.kind,
                parent_span: z.focus.span,
                parent_text: z.focus.text,
            },
        ),
        source: z.source,
    }
}

/// The child positions that lead, depth-first and in order, from `v` to the
/// first form whose `defn` name is `name`: `v` itself first, then the
/// subtrees of its children one after the other (only forms a zipper can
/// descend into are searched below).
pub open spec fn dfs_path(v: FormView, name: Seq<char>) -> Option<Seq<int>>
    decreases v, 1int, 0int,
{
    if view_defn_name(v) == Some(name) {
        Some(Seq::empty())
    } else if navigable(v.kind) {
        dfs_children(v, name, 0)
    } else {
        None
    }
}

/// The path to the first such form under the children of `v` from the
/// `k`-th on.
pub open spec fn dfs_children(v: FormView, name: Seq<char>, k: int) -> Option<Seq<int>>
    decreases v, 0int, v.children.len() - k,
{
    if k < 0 || k >= v.children.len() {
        None
    } else {
        match dfs_path(v.children[k], name) {
            Some(p) => Some(seq![k] + p),
            None => dfs_children(v, name, k + 1),
        }
    }
}

/// The zipper after following a path of child positions down from `z`.
pub open spec fn follow(z: ZipperView, p: Seq<int>) -> ZipperView
    decreases p.len(),
{
    if p.len() == 0 {
        z
    } else {
        follow(child_at(z, p[0]), p.drop_first())
    }
}

/// Each step of `p` goes down into a child that exists.
pub open spec fn path_ok(v: FormView, p: Seq<int>) -> bool
    decreases p.len(),
{
    p.len() == 0 || (navigable(v.kind) && 0 <= p[0] < v.children.len() && path_ok(
        v.children[p[0]],
        p.drop_first(),
    ))
}

/// Where `find_defn` goes: depth-first to the first form named `name`.
pub open spec fn spec_find_defn_z(z: ZipperView, name: Seq<char>) -> Option<ZipperView> {
    match dfs_path(z.focus, name) {
        Some(p) => Some(follow(z, p)),
        None => None,
    }
}

pub open spec fn opt_view(o: Option<Zipper>) -> Option<ZipperView> {
    match o {
        Some(z) => Some(z@),
        None => None,
    }
}

impl Zipper {
    pub fn new(root: Form, source: String) -> (r: Self)
        ensures
            r@ == (ZipperView { focus: form_view(root), crumbs: Seq::empty(), source: source@ }),
    {
        let r = Self { focus: root, crumbs: Vec::new(), source };
        assert(r@.crumbs =~= Seq::<CrumbView>::empty());
        r
    }

    // ── Navigation ────────────────────────────────────────────────────────

    /// Descend into the first child of the current focus, if any.
    pub fn down(self) -> (r: Option<Self>)
        ensures
            opt_view(r) == spec_down(self@),
    {
        let Zipper { focus, mut crumbs, source } = self;
        let Form { kind, span, text, mut children } = focus;
        let ghost old_children = children@;
        proof {
            lemma_children_view(focus);
        }
        match kind {
            FormKind::List | FormKind::Vector | FormKind::MapLiteral | FormKind::SetLiteral
            | FormKind::Metadata => {
                if children.len() == 0 {
                    return None;
                }
            },
            _ => {
                return None;
            },
        }
        let first = children.remove(0);
        let ghost old_crumbs = crumbs@;
        crumbs.push(Crumb { left: Vec::new(), right: children, parent_kind: kind, parent_span: span, parent_text: text });
        let r = Self { focus: first, crumbs, source };
        proof {
            assert(forms_view(children@) =~= forms_view(old_children).drop_first());
            assert(forms_view(Seq::<Form>::empty()) =~= Seq::<FormView>::empty());
            assert(r@.crumbs =~= self@.crumbs.push(crumb_view(crumbs@.last())));
        }
        Some(r)
    }

    /// Move to the next sibling (right).
    pub fn right(self) -> (r: Option<Self>)
        ensures
            opt_view(r) == spec_right(self@),
    {
        let Zipper { focus, mut crumbs, source } = self;
        let ghost old_crumbs = crumbs@;
        let mut crumb = match crumbs.pop() {
            Some(c) => c,
            None => {
                return None;
            },
        };
        if crumb.right.len() == 0 {
            return None;
        }
        let ghost old_crumb = crumb;
        let next = crumb.right.remove(0);
        crumb.left.push(focus);
        crumbs.push(crumb);
        let r = Self { focus: next, crumbs, source };
        proof {
            assert(forms_view(crumb.left@) =~= forms_view(old_crumb.left@).push(form_view(focus)));
            assert(forms_view(crumb.right@) =~= forms_view(old_crumb.right@).drop_first());
            assert(r@.crumbs =~= self@.crumbs.drop_last().push(crumb_view(crumb)));
        }
        Some(r)
    }

    /// Move to the previous sibling (left).
    pub fn left(self) -> (r: Option<Self>)
        ensures
            opt_view(r) == spec_left(self@),
    {
        let Zipper { focus, mut crumbs, source } = self;
        let ghost old_crumbs = crumbs@;
        let mut crumb = match crumbs.pop() {
            Some(c) => c,
            None => {
                return None;
            },
        };
        let ghost old_crumb = crumb;
        let prev = match crumb.left.pop() {
            Some(p) => p,
            None => {
                return None;
            },
        };
        crumb.right.insert(0, focus);
        crumbs.push(crumb);
        let r = Self { focus: prev, crumbs, source };
        proof {
            assert(forms_view(crumb.left@) =~= forms_view(old_crumb.left@).drop_last());
            assert(forms_view(crumb.right@) =~= seq![form_view(focus)] + forms_view(old_crumb.right@));
            assert(r@.crumbs =~= self@.crumbs.drop_last().push(crumb_view(crumb)));
        }
        Some(r)
    }

    /// Move up to the parent.
    pub fn up(self) -> (r: Option<Self>)
        ensures
            opt_view(r) == spec_up(self@),
    {
        let Zipper { focus, mut crumbs, source } = self;
        let ghost old_crumbs = crumbs@;
        let crumb = match crumbs.pop() {
            Some(c) => c,
            None => {
                return None;
            },
        };
        let Crumb { left, mut right, parent_kind, parent_span, parent_text } = crumb;
        let mut children = left;
        let ghost fv = form_view(focus);
        children.push(focus);
        children.append(&mut right);
        let parent = Form { kind: parent_kind, span: parent_span, text: parent_text, children };
        let r = Self { focus: parent, crumbs, source };
        proof {
            lemma_children_view(parent);
            assert(forms_view(parent.children@) =~= forms_view(crumb.left@).push(fv) + forms_view(
                crumb.right@,
            ));
            assert(r@.crumbs =~= self@.crumbs.drop_last());
        }
        Some(r)
    }

    // ── Search ────────────────────────────────────────────────────────────

    /// Navigate depth-first to the first `(defn name ...)` form with the
    /// given name. Returns `None` if no such form exists.
    pub fn find_defn(self, name: &str) -> (r: Option<Self>)
        ensures
            opt_view(r) == spec_find_defn_z(self@, name@),
    {
        find_defn_dfs(self, name)
    }

    /// Descend to child `k` of the focus.
    fn descend_to(self, k: usize) -> (r: Self)
        requires
            navigable(self@.focus.kind),
            k < self@.focus.children.len(),
        ensures
            r@ == child_at(self@, k as int),
    {
        let ghost zv = self@;
        let mut z = self.down().unwrap();
        proof {
            assert(z@.crumbs.last().left =~= zv.focus.children.subrange(0, 0));
            assert(z@.crumbs.last().right =~= zv.focus.children.subrange(1, zv.focus.children.len() as int));
            assert(z@ == child_at(zv, 0));
        }
        let mut j: usize = 0;
        while j < k
            invariant
                j <= k,
                k < zv.focus.children.len(),
                z@ == child_at(zv, j as int),
            decreases k - j,
        {
            let ghost before = z@;
            z = z.right().unwrap();
            proof {
                assert(z@.crumbs.last().left =~= zv.focus.children.subrange(0, j + 1));
                assert(z@.crumbs.last().right =~= zv.focus.children.subrange(
                    j + 2,
                    zv.focus.children.len() as int,
                ));
                assert(z@.crumbs =~= child_at(zv, j + 1).crumbs);
            }
            j = j + 1;
        }
        z
    }

    // ── Mutation ──────────────────────────────────────────────────────────

    /// Replace the text of the focused node. Clears children; the replacement
    /// is treated as an opaque pre-formatted string during unparse.
    ///
    /// The replaced node keeps the kind and the span of the node it replaces
    /// (it is not marked with a zero-length span): the span tells `unparse`
    /// which source the new text stands in for, so that the text after the
    /// node resumes where the old node ended.  A childless node is what
    /// `unparse` substitutes.
    pub fn replace_focus(self, new_text: String) -> (r: Self)
        ensures
            r@ == (ZipperView {
                focus: FormView {
                    kind: self@.focus.kind,
                    span: self@.focus.span,
                    text: new_text@,
                    children: Seq::empty(),
                },
                ..self@
            }),
    {
        let Zipper { focus, crumbs, source } = self;
        let span = focus.span;
        let replaced = Form {
            kind: focus.kind,
            span,
            text: new_text,
            children: Vec::new(),
        };
        let r = Self { focus: replaced, crumbs, source };
        assert(form_view(replaced).children =~= Seq::<FormView>::empty());
        r
    }

    // ── Reassembly ────────────────────────────────────────────────────────

    /// Zip all the way back to the root and return it.
    pub fn root(self) -> (r: Form)
        ensures
            form_view(r) == spec_root(self@),
    {
        let mut z = self;
        while z.crumbs.len() > 0
            invariant
                spec_root(z@) == spec_root(self@),
            decreases z.crumbs.len(),
        {
            let ghost before = z@;
            assert(z@.crumbs.len() == z.crumbs.len());
            z = z.up().unwrap();
            assert(z@.crumbs.len() == z.crumbs.len());
        }
        assert(z@.crumbs.len() == 0);
        z.focus
    }

    /// The original source string this zipper was built from.
    pub fn source(&self) -> (r: &str)
        ensures
            r@ == self@.source,
    {
        self.source.as_str()
    }
}

/// Whether a form's `defn` name is `name`.
fn has_defn_name(f: &Form, name: &str) -> (r: bool)
    ensures
        r == (spec_defn_name(*f) == Some(name@)),
{
    match f.defn_name() {
        Some(n) => str_eq(n, name),
        None => false,
    }
}

fn is_navigable(k: FormKind) -> (r: bool)
    ensures
        r == navigable(k),
{
    match k {
        FormKind::List | FormKind::Vector | FormKind::MapLiteral | FormKind::SetLiteral
        | FormKind::Metadata => true,
        _ => false,
    }
}

pub open spec fn path_view(p: Seq<usize>) -> Seq<int> {
    p.map_values(|x: usize| x as int)
}

pub open spec fn opt_path(o: Option<Vec<usize>>) -> Option<Seq<int>> {
    match o {
        Some(p) => Some(path_view(p@)),
        None => None,
    }
}

/// The path, depth-first, to the first `defn` named `name` in `f`.
fn defn_path(f: &Form, name: &str) -> (r: Option<Vec<usize>>)
    ensures
        opt_path(r) == dfs_path(form_view(*f), name@),
    decreases *f, 1int, 0int,
{
    proof {
        lemma_view_defn_name(*f);
        lemma_children_view(*f);
    }
    let ghost fv = form_view(*f);
    if has_defn_name(f, name) {
        let r: Vec<usize> = Vec::new();
        assert(path_view(r@) =~= Seq::<int>::empty());
        return Some(r);
    }
    if !is_navigable(f.kind) {
        return None;
    }
    find_defn_dfs_sibling(f, name, 0)
}

/// The path, depth-first, to the first `defn` named `name` under the
/// children of `f` from the `k`-th on.
fn find_defn_dfs_sibling(f: &Form, name: &str, k: usize) -> (r: Option<Vec<usize>>)
    ensures
        opt_path(r) == dfs_children(form_view(*f), name@, k as int),
    decreases *f, 0int, f.children.len() - k,
{
    proof {
        lemma_children_view(*f);
    }
    let ghost fv = form_view(*f);
    if k >= f.children.len() {
        return None;
    }
    assert(fv.children[k as int] == form_view(f.children[k as int]));
    match defn_path(&f.children[k], name) {
        Some(mut p) => {
            let ghost pv = path_view(p@);
            let mut r: Vec<usize> = Vec::new();
            r.push(k);
            r.append(&mut p);
            assert(path_view(r@) =~= seq![k as int] + pv);
            Some(r)
        },
        None => find_defn_dfs_sibling(f, name, k + 1),
    }
}

/// Following an existing path keeps the root.
proof fn lemma_follow_keeps_root(z: ZipperView, p: Seq<int>)
    requires
        path_ok(z.focus, p),
    ensures
        spec_root(follow(z, p)) == spec_root(z),
        follow(z, p).source == z.source,
    decreases p.len(),
{
    if p.len() > 0 {
        let k = p[0];
        let w = child_at(z, k);
        let u = spec_up(w)->0;
        let cs = z.focus.children;
        assert(cs.subrange(0, k).push(cs[k]) + cs.subrange(k + 1, cs.len() as int) =~= cs);
        assert(u.focus.children =~= z.focus.children);
        assert(u.crumbs =~= z.crumbs);
        assert(u == z);
        lemma_follow_keeps_root(w, p.drop_first());
    }
}

/// The path that the search finds exists, and ends at a form of that name.
proof fn lemma_dfs_path_ok(v: FormView, name: Seq<char>)
    ensures
        dfs_path(v, name) matches Some(p) ==> path_ok(v, p) && view_defn_name(
            follow(ZipperView { focus: v, crumbs: Seq::empty(), source: Seq::empty() }, p).focus,
        ) == Some(name),
    decreases v, 1int, 0int,
{
    if view_defn_name(v) != Some(name) && navigable(v.kind) {
        lemma_dfs_children_ok(v, name, 0);
    }
}

proof fn lemma_dfs_children_ok(v: FormView, name: Seq<char>, k: int)
    requires
        navigable(v.kind),
    ensures
        dfs_children(v, name, k) matches Some(p) ==> path_ok(v, p) && view_defn_name(
            follow(ZipperView { focus: v, crumbs: Seq::empty(), source: Seq::empty() }, p).focus,
        ) == Some(name),
    decreases v, 0int, v.children.len() - k,
{
    if 0 <= k < v.children.len() {
        lemma_dfs_path_ok(v.children[k], name);
        match dfs_path(v.children[k], name) {
            Some(q) => {
                let p = seq![k] + q;
                assert(p.drop_first() =~= q);
                let z0 = ZipperView { focus: v, crumbs: Seq::empty(), source: Seq::<char>::empty() };
                lemma_follow_focus(child_at(z0, k), ZipperView {
                    focus: v.children[k],
                    crumbs: Seq::empty(),
                    source: Seq::empty(),
                }, q);
            },
            None => {
                lemma_dfs_children_ok(v, name, k + 1);
            },
        }
    }
}

/// Where a path leads depends on the focus alone.
proof fn lemma_follow_focus(z: ZipperView, w: ZipperView, p: Seq<int>)
    requires
        z.focus == w.focus,
    ensures
        follow(z, p).focus == follow(w, p).focus,
    decreases p.len(),
{
    if p.len() > 0 {
        lemma_follow_focus(child_at(z, p[0]), child_at(w, p[0]), p.drop_first());
    }
}

/// Go depth-first to the first `defn` named `name` under the focus.
fn find_defn_dfs(z: Zipper, name: &str) -> (r: Option<Zipper>)
    ensures
        opt_view(r) == spec_find_defn_z(z@, name@),
{
    let path = match defn_path(&z.focus, name) {
        Some(p) => p,
        None => {
            return None;
        },
    };
    let ghost zv = z@;
    let ghost pv = path_view(path@);
    proof {
        lemma_dfs_path_ok(zv.focus, name@);
        assert(pv.subrange(0, pv.len() as int) =~= pv);
    }
    let mut z = z;
    let mut i: usize = 0;
    while i < path.len()
        invariant
            i <= path.len(),
            pv == path_view(path@),
            pv.len() == path.len(),
            follow(zv, pv) == follow(z@, pv.subrange(i as int, pv.len() as int)),
            path_ok(z@.focus, pv.subrange(i as int, pv.len() as int)),
        decreases path.len() - i,
    {
        let ghost q = pv.subrange(i as int, pv.len() as int);
        assert(q[0] == path[i as int] as int);
        assert(q.drop_first() =~= pv.subrange(i + 1, pv.len() as int));
        z = z.descend_to(path[i]);
        i = i + 1;
    }
    proof {
        assert(pv.subrange(i as int, pv.len() as int) =~= Seq::<int>::empty());
    }
    Some(z)
}

// ── Laws of navigation ─────────────────────────────────────────────────────

/// Going down and then up gives back the zipper one started from.
pub proof fn law_down_up(z: ZipperView)
    requires
        spec_down(z) is Some,
    ensures
        spec_up(spec_down(z)->0) == Some(z),
{
    let d = spec_down(z)->0;
    let u = spec_up(d)->0;
    assert(u.focus.children =~= z.focus.children);
    assert(u.crumbs =~= z.crumbs);
}

/// Moving right and then left gives back the zipper one started from.
pub proof fn law_right_left(z: ZipperView)
    requires
        spec_right(z) is Some,
    ensures
        spec_left(spec_right(z)->0) == Some(z),
{
    let r = spec_right(z)->0;
    let l = spec_left(r)->0;
    let c = z.crumbs.last();
    assert(l.crumbs.last().left =~= c.left);
    assert(l.crumbs.last().right =~= c.right);
    assert(l.crumbs =~= z.crumbs);
}

/// Moving left and then right gives back the zipper one started from.
pub proof fn law_left_right(z: ZipperView)
    requires
        spec_left(z) is Some,
    ensures
        spec_right(spec_left(z)->0) == Some(z),
{
    let l = spec_left(z)->0;
    let r = spec_right(l)->0;
    let c = z.crumbs.last();
    assert(r.crumbs.last().left =~= c.left);
    assert(r.crumbs.last().right =~= c.right);
    assert(r.crumbs =~= z.crumbs);
}

/// Moving sideways does not change the parent that `up` rebuilds.
proof fn lemma_sideways_same_parent(z: ZipperView, w: ZipperView)
    requires
        spec_right(z) == Some(w) || spec_left(z) == Some(w),
    ensures
        spec_up(w) == spec_up(z),
{
    let c = z.crumbs.last();
    let uw = spec_up(w)->0;
    let uz = spec_up(z)->0;
    if spec_right(z) == Some(w) {
        assert(uw.focus.children =~= uz.focus.children);
    } else {
        assert(c.left =~= c.left.drop_last().push(c.left.last()));
        assert(uw.focus.children =~= uz.focus.children);
    }
    assert(uw.crumbs =~= uz.crumbs);
}

/// Navigation never changes the tree that zipping back up gives: moving
/// down, right, left or up and then calling `root` gives the same root.
pub proof fn law_navigation_keeps_root(z: ZipperView)
    ensures
        spec_down(z) matches Some(w) ==> spec_root(w) == spec_root(z),
        spec_right(z) matches Some(w) ==> spec_root(w) == spec_root(z),
        spec_left(z) matches Some(w) ==> spec_root(w) == spec_root(z),
        spec_up(z) matches Some(w) ==> spec_root(w) == spec_root(z),
{
    if spec_down(z) is Some {
        law_down_up(z);
    }
    if let Some(w) = spec_right(z) {
        lemma_sideways_same_parent(z, w);
    }
    if let Some(w) = spec_left(z) {
        lemma_sideways_same_parent(z, w);
    }
}

/// `find_defn` lands on a form with the requested name, and zipping back up
/// from there gives the same root as from where the search started.
pub proof fn law_find_defn_lands_on_name(z: ZipperView, name: Seq<char>)
    ensures
        spec_find_defn_z(z, name) matches Some(w) ==> view_defn_name(w.focus) == Some(name)
            && spec_root(w) == spec_root(z),
{
    if let Some(p) = dfs_path(z.focus, name) {
        lemma_dfs_path_ok(z.focus, name);
        lemma_follow_keeps_root(z, p);
        lemma_follow_focus(
            z,
            ZipperView { focus: z.focus, crumbs: Seq::empty(), source: Seq::empty() },
            p,
        );
    }
}

// ── Replacing the focus ────────────────────────────────────────────────────

/// The child positions that lead from the root down to the focus.
pub open spec fn focus_path(z: ZipperView) -> Seq<int> {
    Seq::new(z.crumbs.len(), |i: int| z.crumbs[i].left.len() as int)
}

/// The node of `v` that the child positions `p` lead to.
pub open spec fn view_node_at(v: FormView, p: Seq<int>) -> FormView
    decreases p.len(),
{
    if p.len() == 0 {
        v
    } else {
        view_node_at(v.children[p[0]], p.drop_first())
    }
}

/// `w` is `v` with the node at the child positions `p` replaced by `x`: the
/// nodes on the way keep their kind, span and text, and every other node
/// stays as it was.
pub open spec fn view_replaced_at(v: FormView, w: FormView, p: Seq<int>, x: FormView) -> bool
    decreases p.len(),
{
    if p.len() == 0 {
        w == x
    } else {
        &&& 0 <= p[0] < v.children.len()
        &&& w.kind == v.kind && w.span == v.span && w.text == v.text
        &&& w.children.len() == v.children.len()
        &&& forall|j: int|
            0 <= j < v.children.len() && j != p[0] ==> #[trigger] w.children[j] == v.children[j]
        &&& view_replaced_at(v.children[p[0]], w.children[p[0]], p.drop_first(), x)
    }
}

proof fn lemma_node_push(v: FormView, q: Seq<int>, k: int)
    ensures
        view_node_at(v, q.push(k)) == view_node_at(v, q).children[k],
    decreases q.len(),
{
    assert(q.push(k).len() > 0);
    if q.len() == 0 {
        assert(q.push(k)[0] == k);
        assert(q.push(k).drop_first() =~= Seq::<int>::empty());
        assert(view_node_at(v.children[k], Seq::<int>::empty()) == v.children[k]);
    } else {
        assert(q.push(k)[0] == q[0]);
        assert(q.push(k).drop_first() =~= q.drop_first().push(k));
        lemma_node_push(v.children[q[0]], q.drop_first(), k);
    }
}

proof fn lemma_replaced_push(v: FormView, w: FormView, q: Seq<int>, y: FormView, k: int, x: FormView)
    requires
        view_replaced_at(v, w, q, y),
        0 <= k < view_node_at(v, q).children.len(),
        y.kind == view_node_at(v, q).kind,
        y.span == view_node_at(v, q).span,
        y.text == view_node_at(v, q).text,
        y.children.len() == view_node_at(v, q).children.len(),
        forall|j: int|
            0 <= j < y.children.len() && j != k ==> #[trigger] y.children[j] == view_node_at(
                v,
                q,
            ).children[j],
        y.children[k] == x,
    ensures
        view_replaced_at(v, w, q.push(k), x),
    decreases q.len(),
{
    assert(q.push(k).len() > 0);
    if q.len() == 0 {
        assert(q.push(k)[0] == k);
        assert(q.push(k).drop_first() =~= Seq::<int>::empty());
        assert(w == y);
        assert(view_replaced_at(v.children[k], w.children[k], Seq::<int>::empty(), x));
    } else {
        assert(q.push(k)[0] == q[0]);
        assert(q.push(k).drop_first() =~= q.drop_first().push(k));
        lemma_replaced_push(v.children[q[0]], w.children[q[0]], q.drop_first(), y, k, x);
    }
}

/// Putting `x` at the focus and zipping up changes the root only at the
/// focus's position: every other node, and the kind, span and text of every
/// node above the focus, stay as they were; and the root's node at that
/// position is the focus.  With `x` the node that `replace_focus` makes,
/// this is what `root` gives after a replacement.
pub proof fn law_replace_changes_only_focus(z: ZipperView, x: FormView)
    ensures
        view_node_at(spec_root(z), focus_path(z)) == z.focus,
        view_replaced_at(spec_root(z), spec_root(ZipperView { focus: x, ..z }), focus_path(z), x),
    decreases z.crumbs.len(),
{
    let zx = ZipperView { focus: x, ..z };
    if z.crumbs.len() == 0 {
        assert(focus_path(z) =~= Seq::<int>::empty());
    } else {
        let c = z.crumbs.last();
        let k = c.left.len() as int;
        let u = spec_up(z)->0;
        let ux = spec_up(zx)->0;
        law_replace_changes_only_focus(u, ux.focus);
        assert(ZipperView { focus: ux.focus, ..u } == ux);
        assert(focus_path(z) =~= focus_path(u).push(k));
        lemma_node_push(spec_root(u), focus_path(u), k);
        assert(u.focus.children[k] == z.focus);
        assert(ux.focus.children[k] == x);
        assert forall|j: int| 0 <= j < ux.focus.children.len() && j != k implies #[trigger] ux.focus.children[j]
            == u.focus.children[j] by {
            if j < k {
                assert(ux.focus.children[j] == c.left[j]);
            } else {
                assert(ux.focus.children[j] == c.right[j - k - 1]);
            }
        }
        lemma_replaced_push(spec_root(u), spec_root(ux), focus_path(u), ux.focus, k, x);
    }
}

} // verus!
