//! The concrete syntax tree of a Clojure source file: forms with their byte
//! spans and source text, built from what cljrs-reader reads.
use vstd::prelude::*;
use vstd::string::*;
use crate::text::{chars_in, cut_ok, str_eq, utf8};
use crate::editor::error::EditorError;
use cljrs_reader::FormKind as ReaderKind;

verus! {

broadcast use vstd::std_specs::vec::group_vec_axioms;

/// Position in source text (half-open byte range).
#[derive(Debug, Clone, Copy, PartialEq, Eq, Structural)]
pub struct Span {
    pub start: usize,
    pub end: usize,
}

/// Discriminant for a Clojure syntactic form.
#[derive(Debug, Clone, Copy, PartialEq, Eq, Structural)]
pub enum FormKind {
    List,
    Vector,
    /// A `{...}` map literal.
    MapLiteral,
    /// A `#{...}` set literal.
    SetLiteral,
    Symbol,
    Keyword,
    String,
    Number,
    Bool,
    Nil,
    Comment,
    Metadata,
}

/// A node in the Clojure concrete syntax tree.
#[derive(Debug)]
pub struct Form {
    pub kind: FormKind,
    pub span: Span,
    /// The original source text for this form (preserves whitespace / comments).
    pub text: String,
    pub children: Vec<Form>,
}

/// Top-level parse result for a single Clojure source file.
pub struct ClojureAst {
    pub source: String,
    pub top_level: Vec<Form>,
}

// ── Shape of a tree over its source ─────────────────────────────────────────

/// The span lies inside the source and starts and ends on character boundaries.
pub open spec fn span_in(b: Seq<u8>, s: Span) -> bool {
    &&& s.start <= s.end <= b.len()
    &&& cut_ok(b, s.start as int)
    &&& cut_ok(b, s.end as int)
}

/// Children lie inside their parent's span, in order and without overlap.
pub open spec fn children_nested(f: Form) -> bool {
    &&& forall|i: int|
        0 <= i < f.children.len() ==> f.span.start <= (#[trigger] f.children[i]).span.start
            && f.children[i].span.end <= f.span.end
    &&& forall|i: int, j: int|
        #![trigger f.children[i], f.children[j]]
        0 <= i < j < f.children.len() ==> f.children[i].span.end <= f.children[j].span.start
}

/// A form with several children (other than `^meta form`) ends with a closing
/// delimiter that follows all of them.
pub open spec fn closed_after_children(f: Form, b: Seq<u8>) -> bool {
    f.kind != FormKind::Metadata && f.children.len() >= 2 ==> {
        &&& f.span.end >= 1
        &&& cut_ok(b, f.span.end - 1)
        &&& forall|i: int| 0 <= i < f.children.len() ==> (#[trigger] f.children[i]).span.end < f.span.end
    }
}

/// A tree whose spans and texts agree with the source bytes `b`.
pub open spec fn tree_ok(f: Form, b: Seq<u8>) -> bool
    decreases f,
{
    &&& span_in(b, f.span)
    &&& f.text@ == chars_in(b, f.span.start as int, f.span.end as int)
    &&& children_nested(f)
    &&& forall|i: int| 0 <= i < f.children.len() ==> tree_ok(#[trigger] f.children[i], b)
}

/// A tree as the reader produces it: `tree_ok`, and every node with several
/// children other than `^meta form` closes after them.
pub open spec fn form_wf(f: Form, b: Seq<u8>) -> bool
    decreases f,
{
    &&& span_in(b, f.span)
    &&& f.text@ == chars_in(b, f.span.start as int, f.span.end as int)
    &&& children_nested(f)
    &&& closed_after_children(f, b)
    &&& forall|i: int| 0 <= i < f.children.len() ==> form_wf(#[trigger] f.children[i], b)
}

/// Top-level forms in order and without overlap.
pub open spec fn forms_ordered(top: Seq<Form>) -> bool {
    forall|i: int, j: int|
        #![trigger top[i], top[j]]
        0 <= i < j < top.len() ==> top[i].span.end <= top[j].span.start
}

/// The AST agrees with its source.
pub open spec fn ast_wf(a: ClojureAst) -> bool {
    &&& forall|i: int| 0 <= i < a.top_level.len() ==> form_wf(#[trigger] a.top_level[i], utf8(a.source@))
    &&& forms_ordered(a.top_level@)
}

pub proof fn lemma_wf_tree_ok(f: Form, b: Seq<u8>)
    requires
        form_wf(f, b),
    ensures
        tree_ok(f, b),
    decreases f,
{
    assert forall|i: int| 0 <= i < f.children.len() implies tree_ok(#[trigger] f.children[i], b) by {
        lemma_wf_tree_ok(f.children[i], b);
    }
}

// ── defn lookup ─────────────────────────────────────────────────────────────

pub open spec fn defn_chars() -> Seq<char> {
    seq!['d', 'e', 'f', 'n']
}

pub open spec fn defn_private_chars() -> Seq<char> {
    seq!['d', 'e', 'f', 'n', '-']
}

/// The name of `(defn name ...)` / `(defn- name ...)`, looking through a
/// `^meta` wrapper on the name.
pub open spec fn spec_defn_name(f: Form) -> Option<Seq<char>> {
    if f.kind == FormKind::List && f.children.len() >= 2 && (f.children[0].text@ == defn_chars()
        || f.children[0].text@ == defn_private_chars()) {
        let nc = f.children[1];
        if nc.kind == FormKind::Metadata {
            if nc.children.len() >= 2 {
                Some(nc.children[1].text@)
            } else {
                None
            }
        } else {
            Some(nc.text@)
        }
    } else {
        None
    }
}

/// The `defn` forms of a tree in depth-first pre-order.
pub open spec fn defns_of(f: Form) -> Seq<Form>
    decreases f, 1int, 0int,
{
    (if spec_defn_name(f) is Some {
        seq![f]
    } else {
        Seq::empty()
    }) + defns_of_children(f, f.children.len() as int)
}

/// The `defn` forms under the first `n` children of `f`.
pub open spec fn defns_of_children(f: Form, n: int) -> Seq<Form>
    decreases f, 0int, n,
{
    if n <= 0 || n > f.children.len() {
        Seq::empty()
    } else {
        defns_of_children(f, n - 1) + defns_of(f.children[n - 1])
    }
}

/// The first form of `s` whose `defn` name is `name`.
pub open spec fn first_named(s: Seq<Form>, name: Seq<char>) -> Option<Form>
    decreases s.len(),
{
    if s.len() == 0 {
        None
    } else if spec_defn_name(s[0]) == Some(name) {
        Some(s[0])
    } else {
        first_named(s.drop_first(), name)
    }
}

/// The `defn` named `name` in an AST: the first top-level form, in order,
/// that is a `defn` of that name (forms nested inside others are not
/// searched).
pub open spec fn spec_find_defn(a: ClojureAst, name: Seq<char>) -> Option<Form> {
    first_named(a.top_level@, name)
}

pub open spec fn deref_opt(o: Option<&Form>) -> Option<Form> {
    match o {
        Some(f) => Some(*f),
        None => None,
    }
}

pub open spec fn deref_seq(s: Seq<&Form>) -> Seq<Form> {
    s.map_values(|f: &Form| *f)
}

pub open spec fn opt_str(o: Option<&str>) -> Option<Seq<char>> {
    match o {
        Some(s) => Some(s@),
        None => None,
    }
}

impl Form {
    /// Return the function name if this form is a `(defn name ...)`.
    pub fn defn_name(&self) -> (r: Option<&str>)
        ensures
            opt_str(r) == spec_defn_name(*self),
    {
        if self.kind != FormKind::List {
            return None;
        }
        if self.children.len() < 2 {
            return None;
        }
        let head = self.children[0].text.as_str();
        let defn = "defn";
        let defn_private = "defn-";
        proof {
            reveal_strlit("defn");
            reveal_strlit("defn-");
            assert(defn@ =~= defn_chars());
            assert(defn_private@ =~= defn_private_chars());
        }
        if !str_eq(head, defn) && !str_eq(head, defn_private) {
            return None;
        }
        let name_child = &self.children[1];
        if name_child.kind == FormKind::Metadata {
            if name_child.children.len() >= 2 {
                Some(name_child.children[1].text.as_str())
            } else {
                None
            }
        } else {
            Some(name_child.text.as_str())
        }
    }

    /// Recursively find all `defn` forms.
    pub fn find_defns(&self) -> (r: Vec<&Form>)
        ensures
            deref_seq(r@) == defns_of(*self),
        decreases self,
    {
        let mut out: Vec<&Form> = Vec::new();
        if self.defn_name().is_some() {
            out.push(self);
        }
        let ghost head = deref_seq(out@);
        assert(head == (if spec_defn_name(*self) is Some {
            seq![*self]
        } else {
            Seq::<Form>::empty()
        }));
        let mut i: usize = 0;
        while i < self.children.len()
            invariant
                i <= self.children.len(),
                head == (if spec_defn_name(*self) is Some {
                    seq![*self]
                } else {
                    Seq::<Form>::empty()
                }),
                deref_seq(out@) == head + defns_of_children(*self, i as int),
            decreases self.children.len() - i,
        {
            let mut sub = self.children[i].find_defns();
            let ghost before = out@;
            let ghost sub_view = sub@;
            out.append(&mut sub);
            assert(deref_seq(out@) =~= deref_seq(before) + deref_seq(sub_view));
            assert(defns_of_children(*self, i + 1) == defns_of_children(*self, i as int) + defns_of(
                self.children[i as int],
            ));
            assert(deref_seq(out@) =~= head + defns_of_children(*self, i + 1));
            i = i + 1;
        }
        assert(deref_seq(out@) =~= defns_of(*self));
        out
    }
}

impl ClojureAst {
    /// Find a top-level `defn` by name: the first top-level form that is a
    /// `defn` with that name.
    pub fn find_defn(&self, name: &str) -> (r: Option<&Form>)
        ensures
            deref_opt(r) == spec_find_defn(*self, name@),
    {
        let ghost top = self.top_level@;
        let mut t: usize = 0;
        assert(top.subrange(0, top.len() as int) =~= top);
        while t < self.top_level.len()
            invariant
                t <= self.top_level.len(),
                top == self.top_level@,
                first_named(top, name@) == first_named(top.subrange(t as int, top.len() as int), name@),
            decreases self.top_level.len() - t,
        {
            let f = &self.top_level[t];
            let ghost rest = top.subrange(t as int, top.len() as int);
            assert(rest[0] == *f);
            assert(rest.drop_first() =~= top.subrange(t + 1, top.len() as int));
            match f.defn_name() {
                Some(n) => {
                    if str_eq(n, name) {
                        return Some(f);
                    }
                },
                None => {},
            }
            t = t + 1;
        }
        None
    }
}


} // verus!
