//! An in-process registry of known Clojure functions and templates, keyed by
//! their qualified name `ns/name`.
use vstd::prelude::*;
use vstd::string::*;
use crate::text::str_eq;

verus! {

/// Metadata about a registered Clojure function.
#[derive(Debug, Clone)]
pub struct FunctionTemplate {
    pub ns: String,
    pub name: String,
    pub docstring: Option<String>,
    /// Named slots that the structural editor should substitute when specialising this template.
    pub slots: Vec<String>,
    pub source: String,
}

/// The qualified name `ns/name` under which a template is registered.
pub open spec fn qualified_key(f: FunctionTemplate) -> Seq<char> {
    f.ns@ + "/"@ + f.name@
}

/// A template with slots to fill.
pub open spec fn has_slots(f: FunctionTemplate) -> bool {
    f.slots.len() > 0
}

/// Registry entries: each keyed by its template's qualified name, no key
/// twice.
pub open spec fn entries_wf(es: Seq<(String, FunctionTemplate)>) -> bool {
    &&& forall|i: int| 0 <= i < es.len() ==> (#[trigger] es[i]).0@ == qualified_key(es[i].1)
    &&& forall|i: int, j: int| #![trigger es[i], es[j]] 0 <= i < j < es.len() ==> es[i].0@ != es[j].0@
}

/// The templates of registry entries by key.
pub open spec fn map_of(es: Seq<(String, FunctionTemplate)>) -> Map<Seq<char>, FunctionTemplate> {
    Map::new(
        |k: Seq<char>| exists|i: int| 0 <= i < es.len() && #[trigger] es[i].0@ == k,
        |k: Seq<char>| es[choose|i: int| 0 <= i < es.len() && #[trigger] es[i].0@ == k].1,
    )
}

proof fn lemma_map_at(es: Seq<(String, FunctionTemplate)>, i: int)
    requires
        entries_wf(es),
        0 <= i < es.len(),
    ensures
        map_of(es).contains_key(es[i].0@),
        map_of(es)[es[i].0@] == es[i].1,
{
    let k = es[i].0@;
    assert(map_of(es).dom().contains(k));
    let j = choose|j: int| 0 <= j < es.len() && #[trigger] es[j].0@ == k;
    if j != i {
        if j < i {
            assert(es[j].0@ != es[i].0@);
        } else {
            assert(es[i].0@ != es[j].0@);
        }
    }
}

/// Entries that agree key by key, with the same templates except at `key`,
/// which maps to `f`, have the old map with `key` set to `f`.
proof fn lemma_map_update(
    before: Seq<(String, FunctionTemplate)>,
    after: Seq<(String, FunctionTemplate)>,
    key: Seq<char>,
    f: FunctionTemplate,
)
    requires
        entries_wf(before),
        entries_wf(after),
        exists|i: int| 0 <= i < after.len() && #[trigger] after[i].0@ == key,
        forall|i: int| 0 <= i < after.len() && after[i].0@ == key ==> #[trigger] after[i].1 == f,
        forall|i: int|
            0 <= i < after.len() && (#[trigger] after[i]).0@ != key ==> exists|j: int|
                0 <= j < before.len() && before[j] == after[i],
        forall|j: int|
            0 <= j < before.len() && (#[trigger] before[j]).0@ != key ==> exists|i: int|
                0 <= i < after.len() && after[i] == before[j],
    ensures
        map_of(after) == map_of(before).insert(key, f),
{
    let m = map_of(before).insert(key, f);
    assert forall|q: Seq<char>| #[trigger] map_of(after).dom().contains(q) <==> m.dom().contains(q) by {
        if map_of(after).dom().contains(q) && q != key {
            let i = choose|i: int| 0 <= i < after.len() && #[trigger] after[i].0@ == q;
            let j = choose|j: int| 0 <= j < before.len() && before[j] == after[i];
            assert(before[j].0@ == q);
        }
        if m.dom().contains(q) && q != key {
            let j = choose|j: int| 0 <= j < before.len() && #[trigger] before[j].0@ == q;
            let i = choose|i: int| 0 <= i < after.len() && after[i] == before[j];
            assert(after[i].0@ == q);
        }
    }
    assert forall|q: Seq<char>| #[trigger] map_of(after).dom().contains(q) implies map_of(after)[q]
        == m[q] by {
        let i = choose|i: int| 0 <= i < after.len() && #[trigger] after[i].0@ == q;
        lemma_map_at(after, i);
        if q != key {
            let j = choose|j: int| 0 <= j < before.len() && before[j] == after[i];
            lemma_map_at(before, j);
        }
    }
    assert(map_of(after) =~= m);
}


proof fn lemma_replace_entry(
    before: Seq<(String, FunctionTemplate)>,
    after: Seq<(String, FunctionTemplate)>,
    i: int,
    key: Seq<char>,
    f: FunctionTemplate,
)
    requires
        entries_wf(before),
        0 <= i < before.len(),
        before[i].0@ == key,
        key == qualified_key(f),
        after.len() == before.len(),
        after[i].0@ == key,
        after[i].1 == f,
        forall|m: int| 0 <= m < before.len() && m != i ==> after[m] == before[m],
    ensures
        entries_wf(after),
        map_of(after) == map_of(before).insert(key, f),
{
    assert forall|m: int| 0 <= m < after.len() implies (#[trigger] after[m]).0@ == before[m].0@ by {
    }
    assert(entries_wf(after));
    assert forall|m: int| 0 <= m < after.len() && after[m].0@ == key implies #[trigger] after[m].1 == f by {
        if m != i {
            if m < i {
                assert(before[m].0@ != before[i].0@);
            } else {
                assert(before[i].0@ != before[m].0@);
            }
        }
    }
    assert forall|m: int|
        0 <= m < after.len() && (#[trigger] after[m]).0@ != key implies exists|j: int|
        0 <= j < before.len() && before[j] == after[m] by {
        assert(before[m] == after[m]);
    }
    assert forall|j: int|
        0 <= j < before.len() && (#[trigger] before[j]).0@ != key implies exists|m: int|
        0 <= m < after.len() && after[m] == before[j] by {
        assert(after[j] == before[j]);
    }
    lemma_map_update(before, after, key, f);
}

proof fn lemma_push_entry(
    before: Seq<(String, FunctionTemplate)>,
    after: Seq<(String, FunctionTemplate)>,
    e: (String, FunctionTemplate),
    key: Seq<char>,
    f: FunctionTemplate,
)
    requires
        entries_wf(before),
        forall|m: int| 0 <= m < before.len() ==> (#[trigger] before[m]).0@ != key,
        e.0@ == key,
        e.1 == f,
        key == qualified_key(f),
        after == before.push(e),
    ensures
        entries_wf(after),
        map_of(after) == map_of(before).insert(key, f),
{
    let n = before.len() as int;
    assert(entries_wf(after));
    assert(after[n].0@ == key);
    assert forall|m: int| 0 <= m < after.len() && after[m].0@ == key implies #[trigger] after[m].1 == f by {
    }
    assert forall|m: int|
        0 <= m < after.len() && (#[trigger] after[m]).0@ != key implies exists|j: int|
        0 <= j < before.len() && before[j] == after[m] by {
        assert(before[m] == after[m]);
    }
    assert forall|j: int|
        0 <= j < before.len() && (#[trigger] before[j]).0@ != key implies exists|m: int|
        0 <= m < after.len() && after[m] == before[j] by {
        assert(after[j] == before[j]);
    }
    lemma_map_update(before, after, key, f);
}

/// In-process registry of known functions and templates.
pub struct FunctionRegistry {
    /// Entries in the order their keys were first registered.
    entries: Vec<(String, FunctionTemplate)>,
}

impl FunctionRegistry {
    #[verifier::type_invariant]
    closed spec fn wf(&self) -> bool {
        entries_wf(self.entries@)
    }

    /// The registered templates in the order their names were first registered.
    pub closed spec fn templates(&self) -> Seq<FunctionTemplate> {
        self.entries@.map_values(|e: (String, FunctionTemplate)| e.1)
    }
}

impl View for FunctionRegistry {
    type V = Map<Seq<char>, FunctionTemplate>;

    /// The templates by qualified name.
    closed spec fn view(&self) -> Map<Seq<char>, FunctionTemplate> {
        map_of(self.entries@)
    }
}

impl FunctionRegistry {
    pub fn new() -> (r: Self)
        ensures
            r@ == Map::<Seq<char>, FunctionTemplate>::empty(),
            r.templates() == Seq::<FunctionTemplate>::empty(),
    {
        let r = FunctionRegistry { entries: Vec::new() };
        assert(r@ =~= Map::<Seq<char>, FunctionTemplate>::empty());
        assert(r.templates() =~= Seq::<FunctionTemplate>::empty());
        r
    }

    /// Register `f` under `ns/name`, replacing what was registered there.  A
    /// new name joins the end of the templates; a name already registered
    /// keeps its place, now holding `f`.
    pub fn register(&mut self, f: FunctionTemplate)
        ensures
            final(self)@ == old(self)@.insert(qualified_key(f), f),
            !old(self)@.contains_key(qualified_key(f)) ==> final(self).templates() == old(
                self,
            ).templates().push(f),
            old(self)@.contains_key(qualified_key(f)) ==> exists|i: int|
                0 <= i < old(self).templates().len() && qualified_key(
                    #[trigger] old(self).templates()[i],
                ) == qualified_key(f) && final(self).templates() == old(self).templates().update(
                    i,
                    f,
                ),
    {
        proof {
            use_type_invariant(&*self);
        }
        let ghost key = qualified_key(f);
        let mut k = String::new();
        k.append(f.ns.as_str());
        k.append("/");
        k.append(f.name.as_str());
        assert(k@ =~= key);
        let mut es: Vec<(String, FunctionTemplate)> = Vec::new();
        std::mem::swap(&mut es, &mut self.entries);
        let ghost before = es@;
        assert(before == old(self).entries@);
        let mut i: usize = 0;
        while i < es.len()
            invariant
                i <= es.len(),
                k@ == key,
                key == qualified_key(f),
                es@ == before,
                before == old(self).entries@,
                entries_wf(before),
                forall|m: int| 0 <= m < i ==> (#[trigger] es@[m]).0@ != key,
            decreases es.len() - i,
        {
            if str_eq(es[i].0.as_str(), k.as_str()) {
                let old_key = es[i].0.clone();
                let ghost ti = i as int;
                es.set(i, (old_key, f));
                proof {
                    lemma_replace_entry(before, es@, i as int, key, f);
                    lemma_map_at(before, ti);
                    let ot = before.map_values(|e: (String, FunctionTemplate)| e.1);
                    assert(ot[ti] == before[ti].1);
                    assert(es@.map_values(|e: (String, FunctionTemplate)| e.1) =~= ot.update(ti, f));
                    assert(before[ti].0@ == qualified_key(before[ti].1));
                }
                self.entries = es;
                proof {
                    assert(old(self).templates()[ti] == before[ti].1);
                    assert(self.templates() == old(self).templates().update(ti, f));
                }
                return;
            }
            i = i + 1;
        }
        let ghost pushed = (k, f);
        es.push((k, f));
        proof {
            lemma_push_entry(before, es@, pushed, key, f);
            assert(es@.map_values(|e: (String, FunctionTemplate)| e.1) =~= before.map_values(
                |e: (String, FunctionTemplate)| e.1,
            ).push(f));
            if map_of(before).contains_key(key) {
                let j = choose|j: int| 0 <= j < before.len() && #[trigger] before[j].0@ == key;
                assert(before[j].0@ != key);
            }
        }
        self.entries = es;
    }

    /// The template registered under `qualified_name`, if any.
    pub fn get(&self, qualified_name: &str) -> (r: Option<&FunctionTemplate>)
        ensures
            r is Some <==> self@.contains_key(qualified_name@),
            r matches Some(t) ==> *t == self@[qualified_name@],
    {
        proof {
            use_type_invariant(self);
        }
        let mut i: usize = 0;
        while i < self.entries.len()
            invariant
                i <= self.entries.len(),
                entries_wf(self.entries@),
                forall|m: int| 0 <= m < i ==> (#[trigger] self.entries@[m]).0@ != qualified_name@,
            decreases self.entries.len() - i,
        {
            if str_eq(self.entries[i].0.as_str(), qualified_name) {
                proof {
                    lemma_map_at(self.entries@, i as int);
                }
                return Some(&self.entries[i].1);
            }
            i = i + 1;
        }
        proof {
            if self@.contains_key(qualified_name@) {
                let j = choose|j: int|
                    0 <= j < self.entries@.len() && #[trigger] self.entries@[j].0@ == qualified_name@;
                assert(self.entries@[j].0@ != qualified_name@);
            }
        }
        None
    }

    /// The registered templates that have slots to fill, in the order their
    /// names were first registered; each is the one registered under its name.
    pub fn all_templates(&self) -> (r: Vec<&FunctionTemplate>)
        ensures
            r@.map_values(|t: &FunctionTemplate| *t) == self.templates().filter(|t: FunctionTemplate| has_slots(t)),
            forall|i: int|
                0 <= i < r.len() ==> self@.contains_key(qualified_key(*r@[i])) && self@[qualified_key(
                    *#[trigger] r@[i],
                )] == *r@[i],
            forall|k: Seq<char>|
                #![trigger self@[k]]
                self@.contains_key(k) && has_slots(self@[k]) ==> exists|i: int|
                    0 <= i < r.len() && *#[trigger] r@[i] == self@[k],
            forall|a: int, b: int|
                #![trigger r@[a], r@[b]]
                0 <= a < b < r.len() ==> qualified_key(*r@[a]) != qualified_key(*r@[b]),
    {
        proof {
            use_type_invariant(self);
        }
        let mut out: Vec<&FunctionTemplate> = Vec::new();
        let mut i: usize = 0;
        let ghost mut idx: Seq<int> = Seq::empty();
        proof {
            reveal(Seq::filter);
            assert(self.templates().subrange(0, 0).filter(|t: FunctionTemplate| has_slots(t)) =~= Seq::<FunctionTemplate>::empty());
            assert(out@.map_values(|t: &FunctionTemplate| *t) =~= Seq::<FunctionTemplate>::empty());
        }
        while i < self.entries.len()
            invariant
                i <= self.entries.len(),
                entries_wf(self.entries@),
                out@.map_values(|t: &FunctionTemplate| *t) == self.templates().subrange(0, i as int).filter(
                    |t: FunctionTemplate| has_slots(t),
                ),
                forall|k: int|
                    0 <= k < out.len() ==> self@.contains_key(qualified_key(*out@[k])) && self@[qualified_key(
                        *#[trigger] out@[k],
                    )] == *out@[k],
                idx.len() == out.len(),
                forall|k: int|
                    0 <= k < out.len() ==> 0 <= #[trigger] idx[k] < i && *out@[k]
                        == self.entries@[idx[k]].1,
                forall|a: int, b: int|
                    #![trigger idx[a], idx[b]]
                    0 <= a < b < out.len() ==> idx[a] < idx[b],
                forall|j: int|
                    0 <= j < i && has_slots(#[trigger] self.entries@[j].1) ==> exists|k: int|
                        0 <= k < out.len() && idx[k] == j,
            decreases self.entries.len() - i,
        {
            let t = &self.entries[i].1;
            let ghost pre = self.templates().subrange(0, i as int);
            let ghost post = self.templates().subrange(0, i + 1);
            assert(post.drop_last() =~= pre);
            assert(post.last() == *t);
            proof {
                reveal(Seq::filter);
                assert(post.filter(|t: FunctionTemplate| has_slots(t)) == (if has_slots(*t) {
                    pre.filter(|t: FunctionTemplate| has_slots(t)).push(*t)
                } else {
                    pre.filter(|t: FunctionTemplate| has_slots(t))
                }));
                lemma_map_at(self.entries@, i as int);
            }
            let ghost idx0 = idx;
            let ghost n0 = out.len() as int;
            if t.slots.len() > 0 {
                out.push(t);
                proof {
                    idx = idx.push(i as int);
                }
            }
            proof {
                assert forall|j: int|
                    0 <= j < i + 1 && has_slots(#[trigger] self.entries@[j].1) implies exists|k: int|
                    0 <= k < out.len() && idx[k] == j by {
                    if j == i {
                        assert(idx[n0] == j);
                    } else {
                        let k = choose|k: int| 0 <= k < n0 && idx0[k] == j;
                        assert(idx[k] == idx0[k]);
                    }
                }
                assert forall|k: int| 0 <= k < out.len() implies 0 <= #[trigger] idx[k] < i + 1
                    && *out@[k] == self.entries@[idx[k]].1 by {
                    if k < n0 {
                        assert(idx[k] == idx0[k]);
                    }
                }
                assert forall|a: int, b: int|
                    #![trigger idx[a], idx[b]]
                    0 <= a < b < out.len() implies idx[a] < idx[b] by {
                    if b < n0 {
                        assert(idx[a] == idx0[a] && idx[b] == idx0[b]);
                    } else {
                        assert(idx[a] == idx0[a]);
                    }
                }
            }
            assert(out@.map_values(|t: &FunctionTemplate| *t) =~= post.filter(|t: FunctionTemplate| has_slots(t)));
            i = i + 1;
        }
        assert(self.templates().subrange(0, i as int) =~= self.templates());
        proof {
            assert forall|k: Seq<char>|
                #![trigger self@[k]]
                self@.contains_key(k) && has_slots(self@[k]) implies exists|m: int|
                0 <= m < out.len() && *#[trigger] out@[m] == self@[k] by {
                let j = choose|j: int| 0 <= j < self.entries@.len() && #[trigger] self.entries@[j].0@ == k;
                lemma_map_at(self.entries@, j);
                assert(has_slots(self.entries@[j].1));
                let m = choose|m: int| 0 <= m < out.len() && idx[m] == j;
                assert(*out@[m] == self@[k]);
            }
            assert forall|a: int, b: int|
                #![trigger out@[a], out@[b]]
                0 <= a < b < out.len() implies qualified_key(*out@[a]) != qualified_key(*out@[b]) by {
                assert(idx[a] < idx[b]);
                let ea = self.entries@[idx[a]];
                let eb = self.entries@[idx[b]];
                assert(ea.0@ != eb.0@);
            }
        }
        out
    }
}

impl Default for FunctionRegistry {
    fn default() -> (r: Self)
        ensures
            r@ == Map::<Seq<char>, FunctionTemplate>::empty(),
    {
        Self::new()
    }
}

/// Registering a template and then looking up its qualified name gives that
/// template; every other name keeps what it had.
pub proof fn law_register_then_get(
    before: Map<Seq<char>, FunctionTemplate>,
    f: FunctionTemplate,
    q: Seq<char>,
)
    ensures
        before.insert(qualified_key(f), f).contains_key(qualified_key(f)),
        before.insert(qualified_key(f), f)[qualified_key(f)] == f,
        q != qualified_key(f) ==> (before.insert(qualified_key(f), f).contains_key(q)
            == before.contains_key(q)),
        q != qualified_key(f) && before.contains_key(q) ==> before.insert(qualified_key(f), f)[q]
            == before[q],
{
}

} // verus!
