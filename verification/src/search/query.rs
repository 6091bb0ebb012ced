//! Search requests over indexed functions.
use vstd::prelude::*;
use vstd::string::*;
use crate::text::str_eq;

verus! {

/// A parsed function extracted from source code.
#[derive(Debug, Clone)]
pub struct IndexedFunction {
    pub repo: String,
    pub file_path: String,
    pub name: String,
    pub docstring: Option<String>,
    pub body: String,
}

/// A search request.
#[derive(Debug, Clone)]
pub struct SearchQuery {
    /// Natural-language or keyword description of the desired functionality.
    pub text: String,
    pub limit: usize,
}

impl SearchQuery {
    /// A query for `text` with the default limit of 10 results.
    pub fn new(text: &str) -> (r: Self)
        ensures
            r.text@ == text@,
            r.limit == 10,
    {
        Self { text: text.to_owned(), limit: 10 }
    }

    /// The same query with at most `n` results.
    pub fn with_limit(self, n: usize) -> (r: Self)
        ensures
            r.text == self.text,
            r.limit == n,
    {
        let mut q = self;
        q.limit = n;
        q
    }
}

/// The key under which search hits of the same function are merged:
/// `repo:name`.
pub open spec fn result_key_spec(f: IndexedFunction) -> Seq<char> {
    f.repo@ + ":"@ + f.name@
}

pub fn result_key(f: &IndexedFunction) -> (r: String)
    ensures
        r@ == result_key_spec(*f),
{
    let mut k = String::new();
    k.append(f.repo.as_str());
    k.append(":");
    k.append(f.name.as_str());
    assert(k@ =~= result_key_spec(*f));
    k
}

/// The file extensions of Clojure source.
pub open spec fn is_clojure_extension(e: Seq<char>) -> bool {
    e == "clj"@ || e == "cljc"@ || e == "cljs"@
}

pub open spec fn opt_text(o: Option<&str>) -> Option<Seq<char>> {
    match o {
        Some(s) => Some(s@),
        None => None,
    }
}

/// Whether a file of the repository is indexed, and as what: a Clojure
/// source (by extension) whose content is text and whose path has a stem
/// becomes a function named after the stem, with the whole content as body.
/// The extension and stem are what the platform reads from the path.
pub fn indexed_function(
    repo_name: &str,
    file_path: &str,
    extension: Option<&str>,
    stem: Option<&str>,
    content: Option<&str>,
) -> (r: Option<IndexedFunction>)
    ensures
        r is Some <==> (opt_text(extension) matches Some(e) && is_clojure_extension(e))
            && content is Some && stem is Some,
        r matches Some(f) ==> {
            &&& f.repo@ == repo_name@
            &&& f.file_path@ == file_path@
            &&& Some(f.name@) == opt_text(stem)
            &&& f.docstring is None
            &&& Some(f.body@) == opt_text(content)
        },
{
    let clojure = match extension {
        Some(e) => str_eq(e, "clj") || str_eq(e, "cljc") || str_eq(e, "cljs"),
        None => false,
    };
    if !clojure {
        return None;
    }
    match (content, stem) {
        (Some(body), Some(name)) => Some(
            IndexedFunction {
                repo: repo_name.to_owned(),
                file_path: file_path.to_owned(),
                name: name.to_owned(),
                docstring: None,
                body: body.to_owned(),
            },
        ),
        _ => None,
    }
}

/// The text of a stored field: empty when the document has none.
pub open spec fn or_empty(o: Option<Seq<char>>) -> Seq<char> {
    match o {
        Some(t) => t,
        None => Seq::empty(),
    }
}

/// A stored docstring: none when it is empty or missing.
pub open spec fn stored_docstring(o: Option<Seq<char>>) -> Option<Seq<char>> {
    if or_empty(o).len() == 0 {
        None
    } else {
        Some(or_empty(o))
    }
}

pub open spec fn opt_string(o: Option<String>) -> Option<Seq<char>> {
    match o {
        Some(s) => Some(s@),
        None => None,
    }
}

fn field_text(v: Option<&str>) -> (r: String)
    ensures
        r@ == or_empty(opt_text(v)),
{
    match v {
        Some(t) => t.to_owned(),
        None => String::new(),
    }
}

/// The function a search hit stands for, from the first value of each stored
/// field of its document (`None` where the field has no text value): a
/// missing field reads as empty text, and an empty docstring as none.
pub fn stored_function(
    repo: Option<&str>,
    file_path: Option<&str>,
    name: Option<&str>,
    docstring: Option<&str>,
    body: Option<&str>,
) -> (f: IndexedFunction)
    ensures
        f.repo@ == or_empty(opt_text(repo)),
        f.file_path@ == or_empty(opt_text(file_path)),
        f.name@ == or_empty(opt_text(name)),
        opt_string(f.docstring) == stored_docstring(opt_text(docstring)),
        f.body@ == or_empty(opt_text(body)),
{
    let d = field_text(docstring);
    IndexedFunction {
        repo: field_text(repo),
        file_path: field_text(file_path),
        name: field_text(name),
        docstring: if d.as_str().is_empty() {
            None
        } else {
            Some(d)
        },
        body: field_text(body),
    }
}

/// A function comes back from the index as it went in: its fields are
/// stored as text and the docstring only when there is one, so reading the
/// stored fields gives the same function, unless its docstring was empty
/// text, which reads back as none.
pub proof fn law_stored_function_reads_back(f: IndexedFunction)
    ensures
        or_empty(Some(f.repo@)) == f.repo@,
        or_empty(Some(f.file_path@)) == f.file_path@,
        or_empty(Some(f.name@)) == f.name@,
        or_empty(Some(f.body@)) == f.body@,
        !(f.docstring matches Some(d) && d@.len() == 0) ==> stored_docstring(opt_string(f.docstring))
            == opt_string(f.docstring),
        (f.docstring matches Some(d) && d@.len() == 0) ==> stored_docstring(opt_string(f.docstring))
            is None,
{
}

} // verus!
