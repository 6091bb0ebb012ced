//! The decisions of the inference engine: how a conversation with the model
//! proceeds turn by turn, and which harness tool a tool call names.  Running
//! the model and the tools is the caller's part.
use vstd::prelude::*;
use vstd::string::*;
use crate::text::str_eq;
use crate::inference::json::{
    json_as_str, json_as_u64, json_get, json_member_or_null, json_member, json_u64, json_index,
    member_str, json_str,
};
use serde_json::Value;
use crate::editor::edit::{Edit, edit_description, description_spec};
use crate::editor::ast::{ClojureAst, Form, spec_defn_name, opt_str};
use crate::search::query::IndexedFunction;
use crate::inference::tool::{builtin_tools, offered_tools};
use crate::inference::llm::{
    LlmRequest, copy_message, Message, ToolCall, ToolResult, LlmResponse, Role, BlockView, blocks_view, assistant_turn_blocks,
    answers,
};

verus! {

/// The harness tools that the engine offers the model.
#[derive(Debug, Clone, Copy, PartialEq, Eq, Structural)]
pub enum ToolKind {
    SearchCode,
    EvalClojure,
    EditFunction,
    RecallMemory,
    LoadVersionedSymbol,
    DefineFunction,
}

pub open spec fn tool_kind_spec(name: Seq<char>) -> Option<ToolKind> {
    if name == "search_code"@ {
        Some(ToolKind::SearchCode)
    } else if name == "eval_clojure"@ {
        Some(ToolKind::EvalClojure)
    } else if name == "edit_function"@ {
        Some(ToolKind::EditFunction)
    } else if name == "recall_memory"@ {
        Some(ToolKind::RecallMemory)
    } else if name == "load_versioned_symbol"@ {
        Some(ToolKind::LoadVersionedSymbol)
    } else if name == "define_function"@ {
        Some(ToolKind::DefineFunction)
    } else {
        None
    }
}

/// The harness tool that a tool call names, if it names one.
pub fn tool_kind(name: &str) -> (r: Option<ToolKind>)
    ensures
        r == tool_kind_spec(name@),
{
    if str_eq(name, "search_code") {
        Some(ToolKind::SearchCode)
    } else if str_eq(name, "eval_clojure") {
        Some(ToolKind::EvalClojure)
    } else if str_eq(name, "edit_function") {
        Some(ToolKind::EditFunction)
    } else if str_eq(name, "recall_memory") {
        Some(ToolKind::RecallMemory)
    } else if str_eq(name, "load_versioned_symbol") {
        Some(ToolKind::LoadVersionedSymbol)
    } else if str_eq(name, "define_function") {
        Some(ToolKind::DefineFunction)
    } else {
        None
    }
}

/// The error text for a call of a tool the engine does not have.
pub fn unknown_tool_message(name: &str) -> (r: String)
    ensures
        r@ == "unknown tool: "@ + name@,
{
    let mut m = String::new();
    m.append("unknown tool: ");
    m.append(name);
    m
}

/// The error text for an edit in a repository that was not registered.
pub fn unknown_repo_message(repo: &str) -> (r: String)
    ensures
        r@ == "unknown repo '"@ + repo@ + "'; register it with with_repo()"@,
{
    let mut m = String::new();
    m.append("unknown repo '");
    m.append(repo);
    m.append("'; register it with with_repo()");
    m
}

/// The commit message for an edit of `file_path`: the edit's summary, a
/// colon, and the file.
pub fn edit_commit_message(edit: &Edit, file_path: &str) -> (r: String)
    ensures
        r@ == description_spec(edit@) + ": "@ + file_path@,
{
    let mut m = edit_description(edit);
    m.append(": ");
    m.append(file_path);
    m
}

/// The error of `recall_memory` when no memory store is attached.
pub const MEMORY_NOT_CONFIGURED: &'static str = "memory not configured";

/// The error of `load_versioned_symbol` when no symbol registry is attached.
pub const NO_SYMBOL_REGISTRY: &'static str =
    "no symbol registry configured; call with_registry() on InferenceEngine";

/// What running a tool call takes, as read from its input.
#[derive(Debug)]
pub enum ToolPlan {
    /// Search for `query`; each index is asked for `fetch` hits, which are
    /// merged down to `limit`.
    SearchCode { query: String, limit: usize, fetch: usize },
    /// Evaluate `source`.
    EvalClojure { source: String },
    /// Apply `edit` (the input's `edit` member, null when it has none) to
    /// `file` in the repository registered as `repo`, and commit.
    EditFunction { repo: String, file: String, edit: Value },
    /// Return the `limit` most recent episodes.
    RecallMemory { limit: usize },
    /// Resolve and load the versioned reference `vref`.
    LoadVersionedSymbol { vref: String },
    /// Append `source` to `file` in the repository registered as `repo`,
    /// commit, and index the functions it defines.
    DefineFunction { repo: String, file: String, source: String },
    /// Answer with this error: the engine has no such tool.
    Unknown { message: String },
}

/// The members of a tool call's input that the tools read: each as text, or
/// for `limit` as an unsigned integer, when it is one; `edit` as it is.
#[derive(Debug)]
pub struct ToolInput {
    pub query: Option<String>,
    pub limit: Option<u64>,
    pub source: Option<String>,
    pub repo: Option<String>,
    pub file: Option<String>,
    pub edit: Value,
    pub vref: Option<String>,
}

/// A text member: empty when the input has none.
pub open spec fn text_or_empty(o: Option<String>) -> Seq<char> {
    match o {
        Some(s) => s@,
        None => Seq::empty(),
    }
}

/// A count member, with its default.
pub open spec fn count_or(o: Option<u64>, default: u64) -> usize {
    match o {
        Some(n) => n as usize,
        None => default as usize,
    }
}

/// The plan for a call of the tool named `name` with these readings of its
/// input.
pub open spec fn planned(name: Seq<char>, input: ToolInput, p: ToolPlan) -> bool {
    match tool_kind_spec(name) {
        None => p matches ToolPlan::Unknown { message } && message@ == "unknown tool: "@ + name,
        Some(ToolKind::SearchCode) => p matches ToolPlan::SearchCode { query, limit, fetch }
            && query@ == text_or_empty(input.query) && limit == count_or(input.limit, 5) && fetch
            == vstd::wrapping::usize_specs::wrapping_mul(limit, 2) && (limit * 2 <= usize::MAX
            ==> fetch == limit * 2),
        Some(ToolKind::EvalClojure) => p matches ToolPlan::EvalClojure { source } && source@
            == text_or_empty(input.source),
        Some(ToolKind::EditFunction) => p matches ToolPlan::EditFunction { repo, file, edit }
            && repo@ == text_or_empty(input.repo) && file@ == text_or_empty(input.file) && edit
            == input.edit,
        Some(ToolKind::RecallMemory) => p matches ToolPlan::RecallMemory { limit } && limit
            == count_or(input.limit, 10),
        Some(ToolKind::LoadVersionedSymbol) => p matches ToolPlan::LoadVersionedSymbol { vref }
            && vref@ == text_or_empty(input.vref),
        Some(ToolKind::DefineFunction) => p matches ToolPlan::DefineFunction { repo, file, source }
            && repo@ == text_or_empty(input.repo) && file@ == text_or_empty(input.file) && source@
            == text_or_empty(input.source),
    }
}

fn text_member(t: Option<String>) -> (r: String)
    ensures
        r@ == text_or_empty(t),
{
    match t {
        Some(s) => s,
        None => String::new(),
    }
}

fn count_member(n: Option<u64>, default: u64) -> (r: usize)
    ensures
        r == count_or(n, default),
{
    match n {
        Some(v) => v as usize,
        None => default as usize,
    }
}

/// The plan for a call of the tool named `name`, given the readings of its
/// input.  The search asks each index for twice the limit, wrapping as
/// unsigned arithmetic does.
pub fn plan_from(name: &str, input: ToolInput) -> (p: ToolPlan)
    ensures
        planned(name@, input, p),
{
    match tool_kind(name) {
        None => ToolPlan::Unknown { message: unknown_tool_message(name) },
        Some(ToolKind::SearchCode) => {
            let limit = count_member(input.limit, 5);
            let fetch = limit.wrapping_mul(2);
            proof {
                if limit * 2 <= usize::MAX {
                    vstd::arithmetic::div_mod::lemma_small_mod(
                        (limit * 2) as nat,
                        (usize::MAX - usize::MIN + 1) as nat,
                    );
                }
            }
            ToolPlan::SearchCode { query: text_member(input.query), limit, fetch }
        },
        Some(ToolKind::EvalClojure) => ToolPlan::EvalClojure { source: text_member(input.source) },
        Some(ToolKind::EditFunction) => ToolPlan::EditFunction {
            repo: text_member(input.repo),
            file: text_member(input.file),
            edit: input.edit,
        },
        Some(ToolKind::RecallMemory) => ToolPlan::RecallMemory { limit: count_member(input.limit, 10) },
        Some(ToolKind::LoadVersionedSymbol) => ToolPlan::LoadVersionedSymbol {
            vref: text_member(input.vref),
        },
        Some(ToolKind::DefineFunction) => ToolPlan::DefineFunction {
            repo: text_member(input.repo),
            file: text_member(input.file),
            source: text_member(input.source),
        },
    }
}

pub open spec fn opt_string_chars(o: Option<String>) -> Option<Seq<char>> {
    match o {
        Some(s) => Some(s@),
        None => None,
    }
}

/// The member `key` of `v`, when it is an unsigned integer.
pub open spec fn member_u64(v: Value, key: Seq<char>) -> Option<u64> {
    match json_member(v, key) {
        Some(m) => json_u64(m),
        None => None,
    }
}

/// `i` holds the readings of the tool-call input `v`: its string members
/// `query`, `source`, `repo`, `file` and `vref`, its unsigned `limit`, and
/// `v["edit"]` (null when missing).
pub open spec fn reads_input(v: Value, i: ToolInput) -> bool {
    &&& opt_string_chars(i.query) == member_str(v, "query"@)
    &&& i.limit == member_u64(v, "limit"@)
    &&& opt_string_chars(i.source) == member_str(v, "source"@)
    &&& opt_string_chars(i.repo) == member_str(v, "repo"@)
    &&& opt_string_chars(i.file) == member_str(v, "file"@)
    &&& i.edit == json_index(v, "edit"@)
    &&& opt_string_chars(i.vref) == member_str(v, "vref"@)
}

fn str_member(input: &Value, key: &str) -> (r: Option<String>)
    ensures
        opt_string_chars(r) == member_str(*input, key@),
{
    match json_get(input, key) {
        Some(v) => match json_as_str(v) {
            Some(s) => Some(s.to_owned()),
            None => None,
        },
        None => None,
    }
}

/// Read the members of a tool call's input that the tools use.
pub fn read_tool_input(input: &Value) -> (r: ToolInput)
    ensures
        reads_input(*input, r),
{
    let limit = match json_get(input, "limit") {
        Some(v) => json_as_u64(v),
        None => None,
    };
    ToolInput {
        query: str_member(input, "query"),
        limit,
        source: str_member(input, "source"),
        repo: str_member(input, "repo"),
        file: str_member(input, "file"),
        edit: json_member_or_null(input, "edit"),
        vref: str_member(input, "vref"),
    }
}

/// The plan for a tool call: the tool it names, and what that tool reads of
/// the call's input (see [`planned`]); a call of a tool the engine does not
/// have gets the `unknown tool` error.
pub fn plan_tool(call: &ToolCall) -> (p: ToolPlan)
    ensures
        exists|input: ToolInput| reads_input(call.input, input) && planned(call.name@, input, p),
{
    let input = read_tool_input(&call.input);
    let ghost i = input;
    let p = plan_from(call.name.as_str(), input);
    assert(reads_input(call.input, i) && planned(call.name@, i, p));
    p
}

/// What a tool's work ended with, as values: the output, or the error text.
pub open spec fn outcome_view(o: Result<Value, String>) -> Result<Value, Seq<char>> {
    match o {
        Ok(v) => Ok(v),
        Err(m) => Err(m@),
    }
}

/// `r` answers `call` with `outcome`: by the call's id, with the output on
/// success, and on failure flagged as an error with the text as a JSON string.
pub open spec fn result_of(call: ToolCall, outcome: Result<Value, Seq<char>>, r: ToolResult) -> bool {
    &&& r.call_id@ == call.id@
    &&& match outcome {
        Ok(v) => !r.is_error && r.output == v,
        Err(m) => r.is_error && json_str(r.output) == Some(m),
    }
}

/// The result that answers `call` once its tool's work ended with `outcome`.
pub fn tool_result(call: &ToolCall, outcome: Result<Value, String>) -> (r: ToolResult)
    ensures
        result_of(*call, outcome_view(outcome), r),
{
    match outcome {
        Ok(v) => ToolResult::ok(call.id.as_str(), v),
        Err(m) => ToolResult::err(call.id.as_str(), m),
    }
}

/// The first step of running a tool call: its plan, or, for a call of a tool
/// the engine does not have, the result that answers it with the
/// `unknown tool` error, before anything runs.
pub fn start_tool(call: &ToolCall) -> (r: Result<ToolPlan, ToolResult>)
    ensures
        tool_kind_spec(call.name@) is None ==> (r matches Err(t) && result_of(
            *call,
            Err("unknown tool: "@ + call.name@),
            t,
        )),
        tool_kind_spec(call.name@) is Some ==> (r matches Ok(p) && exists|input: ToolInput|
            reads_input(call.input, input) && planned(call.name@, input, p)),
{
    let p = plan_tool(call);
    match p {
        ToolPlan::Unknown { message } => Err(ToolResult::err(call.id.as_str(), message)),
        _ => Ok(p),
    }
}

// ── Defining a function ──────────────────────────────────────────────────

/// What goes between a file's text and a form appended to it: nothing for
/// an empty file, a blank line otherwise.
pub open spec fn separator(existing: Seq<char>) -> Seq<char> {
    if existing.len() == 0 {
        Seq::empty()
    } else if existing.last() == '\n' {
        "\n"@
    } else {
        "\n\n"@
    }
}

/// A file's text with `source` appended as a form of its own, ending the
/// file with a newline.
pub fn appended_source(existing: &str, source: &str) -> (r: String)
    ensures
        r@ == existing@ + separator(existing@) + source@ + "\n"@,
{
    let mut out = existing.to_owned();
    let n = existing.unicode_len();
    if n > 0 {
        if existing.get_char(n - 1) == '\n' {
            out.append("\n");
        } else {
            out.append("\n\n");
        }
    }
    out.append(source);
    out.append("\n");
    proof {
        reveal_strlit("\n");
        reveal_strlit("\n\n");
    }
    out
}

/// The top-level forms of `top` that are `defn`s, in order.
pub open spec fn defn_forms(top: Seq<Form>) -> Seq<Form>
    decreases top.len(),
{
    if top.len() == 0 {
        Seq::empty()
    } else {
        defn_forms(top.drop_last()) + if spec_defn_name(top.last()) is Some {
            seq![top.last()]
        } else {
            Seq::empty()
        }
    }
}

/// `f` is the index entry of the `defn` form `d` of `file` in `repo`: named
/// by the defn, without a docstring, with the form's text as body.
pub open spec fn indexes(f: IndexedFunction, d: Form, repo: Seq<char>, file: Seq<char>) -> bool {
    &&& f.repo@ == repo
    &&& f.file_path@ == file
    &&& Some(f.name@) == spec_defn_name(d)
    &&& f.docstring is None
    &&& f.body@ == d.text@
}

/// The index entries of the functions that a defined source holds: one for
/// each top-level `defn`, in order (an `(ns ...)` form and other forms are
/// skipped), named by its short name.
pub fn defined_functions(ast: &ClojureAst, repo: &str, file: &str) -> (r: Vec<IndexedFunction>)
    ensures
        r.len() == defn_forms(ast.top_level@).len(),
        forall|i: int|
            0 <= i < r.len() ==> indexes(#[trigger] r@[i], defn_forms(ast.top_level@)[i], repo@, file@),
{
    let ghost top = ast.top_level@;
    let mut out: Vec<IndexedFunction> = Vec::new();
    let mut t: usize = 0;
    while t < ast.top_level.len()
        invariant
            t <= ast.top_level.len(),
            top == ast.top_level@,
            out.len() == defn_forms(top.subrange(0, t as int)).len(),
            forall|i: int|
                0 <= i < out.len() ==> indexes(
                    #[trigger] out@[i],
                    defn_forms(top.subrange(0, t as int))[i],
                    repo@,
                    file@,
                ),
        decreases ast.top_level.len() - t,
    {
        let f = &ast.top_level[t];
        let ghost pre = top.subrange(0, t as int);
        assert(top.subrange(0, t + 1).drop_last() =~= pre);
        assert(top.subrange(0, t + 1).last() == *f);
        match f.defn_name() {
            Some(name) => {
                out.push(
                    IndexedFunction {
                        repo: repo.to_owned(),
                        file_path: file.to_owned(),
                        name: name.to_owned(),
                        docstring: None,
                        body: f.text.clone(),
                    },
                );
                assert(defn_forms(top.subrange(0, t + 1)) == defn_forms(pre) + seq![*f]);
            },
            None => {
                assert(defn_forms(top.subrange(0, t + 1)) =~= defn_forms(pre));
            },
        }
        t = t + 1;
    }
    assert(top.subrange(0, top.len() as int) =~= top);
    out
}

/// The commit message for a defined function: `define: ` and the file.
pub fn define_commit_message(file: &str) -> (r: String)
    ensures
        r@ == "define: "@ + file@,
{
    let mut m = String::new();
    m.append("define: ");
    m.append(file);
    m
}

// ── The engine's settings ─────────────────────────────────────────────────

/// The workdir registered last under `name` among `repos`, if any.
pub open spec fn repo_lookup(repos: Seq<(String, String)>, name: Seq<char>) -> Option<Seq<char>>
    decreases repos.len(),
{
    if repos.len() == 0 {
        None
    } else if repos.last().0@ == name {
        Some(repos.last().1@)
    } else {
        repo_lookup(repos.drop_last(), name)
    }
}

/// The settings of an inference engine that its decisions read: the model
/// it asks, its system prompt, and the named repositories that
/// `edit_function` may change.  The model, the runtime, the index and the
/// stores it talks to are the caller's.  Its view maps each repository name
/// to the working directory registered last under it.
pub struct InferenceEngine {
    /// Repository names and working directories, in registration order.
    pub repos: Vec<(String, String)>,
    pub default_model: String,
    pub system_prompt: String,
}

impl View for InferenceEngine {
    type V = Map<Seq<char>, Seq<char>>;

    open spec fn view(&self) -> Map<Seq<char>, Seq<char>> {
        Map::new(
            |k: Seq<char>| repo_lookup(self.repos@, k) is Some,
            |k: Seq<char>| repo_lookup(self.repos@, k)->0,
        )
    }
}

/// The system prompt an engine starts every run with unless told otherwise.
pub const DEFAULT_SYSTEM_PROMPT: &'static str = "\
You are Mnemosyne, an agent that accomplishes high-level tasks in the user's \
computer environment by looking up or writing Clojure functions and running \
them in a live Clojurust runtime. Clojure is how you get things done; your job \
is to turn an intent into the right Clojure expression — reusing what already \
exists wherever you can.

## Tools vs. Clojure — keep them separate

There are exactly two kinds of action, and they are NOT the same thing:

- HARNESS TOOLS are the named tools provided to you through the tool interface \
  (search_code, eval_clojure, edit_function, recall_memory, \
  load_versioned_symbol). You invoke them as tool calls. They are NOT Clojure \
  functions: never write `(eval_clojure ...)` or `(search_code ...)` in \
  Clojure source, and never expect a tool name to resolve as a symbol.
- CLOJURE FUNCTIONS are the code you read, write, compose, and run. They live \
  in the runtime and the code store. You run them by passing Clojure source to \
  the `eval_clojure` tool — e.g. tool `eval_clojure` with source `(map inc \
  [1 2 3])`. Clojure's own built-ins (map, reduce, filter, …) are Clojure, not \
  tools.

In short: tools are the controls of this harness; Clojure is the material you \
work with through them.

## How to work a task

1. UNDERSTAND the intent and what a successful result looks like in the user's \
   environment.
2. SEARCH first with `search_code` — there is almost always existing code to \
   build on. Read what you find before writing anything.
3. REUSE, in this order of preference:
   a. Call an existing function as-is via `eval_clojure`.
   b. COMPOSE existing functions into a larger one (thread them, map/reduce \
      over them, wrap them) rather than reimplementing their logic.
   c. MUTATE an existing function into a new version with `edit_function` \
      (ReplaceBody, WrapBody, Rename, …). The returned commit hash is the new \
      version; the old one still exists. Specialise the template functions in \
      mnemosyne.templates (transform-coll, reduce-to-map, retry, pipeline) and \
      the helpers in mnemosyne.core when they fit.
   d. Only write a brand-new function when nothing above fits.
4. RUN it with `eval_clojure`, inspect the result, and iterate.
5. ANSWER the user once the task is actually done.

## Capturing facts

Express everything you learn in the same form as everything else — as code or \
data, never as prose buried in a reply:

- a zero-arg function that returns the fact, e.g. \
  `(defn fact:home-dir [] \"/home/user\")`, or
- a raw EDN structure, e.g. `{:os :linux :cores 8}`.

Persistence is tiered. Scratch work — exploratory defs and intermediate \
values — lives in the live runtime via `eval_clojure`. Once a fact or function \
is validated and worth keeping, PROMOTE it into the committed code store with \
`edit_function` so later sessions can `search_code` and reuse it.

## Acting on the environment

You reach the user's computer through Clojure functions backed by the async \
IO and networking substrate (clojure.core.async channels over cljrs-io / \
cljrs-net), always within the configured guardrails. Prefer the smallest \
capability that does the job, and expect IO/network calls to be asynchronous. \
You may NOT shell out or exec arbitrary programs — that path is disabled.

## Versioned symbols and trust

When you reference code by version, pin it to a commit with the versioned-ref \
syntax — `namespace/symbol@<commit>`, `namespace@<commit>`, or \
`https://host/u/r::ns/sym@<commit>` for an external repo — and load it with \
`load_versioned_symbol`. Pinning makes runs reproducible, and multiple \
versions of a function can coexist as distinct immutable values. External code \
(including code from other agents) runs only after its signature is verified \
and the trust policy is satisfied; `load_versioned_symbol` reports the \
fingerprint and trust level, so check them when the source is external.

Prefer precise, minimal edits over large rewrites.";

impl InferenceEngine {
    /// An engine asking `default_model`, with the default system prompt and
    /// no repositories.
    pub fn new(default_model: &str) -> (e: InferenceEngine)
        ensures
            e@ == Map::<Seq<char>, Seq<char>>::empty(),
            e.default_model@ == default_model@,
            e.system_prompt@ == DEFAULT_SYSTEM_PROMPT@,
    {
        let e = InferenceEngine {
            repos: Vec::new(),
            default_model: default_model.to_owned(),
            system_prompt: DEFAULT_SYSTEM_PROMPT.to_owned(),
        };
        assert(e@ =~= Map::<Seq<char>, Seq<char>>::empty());
        e
    }

    /// Register the repository `name` (the name the model passes in the
    /// `repo` field) with working directory `workdir`; a later registration
    /// of the same name replaces an earlier one.
    pub fn with_repo(self, name: &str, workdir: &str) -> (e: InferenceEngine)
        ensures
            e@ == self@.insert(name@, workdir@),
            e.default_model == self.default_model,
            e.system_prompt == self.system_prompt,
    {
        let mut e = self;
        let ghost before = e.repos@;
        e.repos.push((name.to_owned(), workdir.to_owned()));
        proof {
            assert(e.repos@.drop_last() =~= before);
            assert forall|k: Seq<char>| k != name@ implies repo_lookup(e.repos@, k) == repo_lookup(
                before,
                k,
            ) by {}
        }
        assert(e@ =~= self@.insert(name@, workdir@));
        e
    }

    /// The working directory of the repository registered as `name`.
    pub fn repo_workdir(&self, name: &str) -> (r: Option<&str>)
        ensures
            r is Some <==> self@.contains_key(name@),
            r matches Some(w) ==> w@ == self@[name@],
    {
        let mut k: usize = self.repos.len();
        assert(self.repos@.subrange(0, k as int) =~= self.repos@);
        while k > 0
            invariant
                k <= self.repos@.len(),
                repo_lookup(self.repos@, name@) == repo_lookup(
                    self.repos@.subrange(0, k as int),
                    name@,
                ),
            decreases k,
        {
            let ghost prefix = self.repos@.subrange(0, k as int);
            assert(prefix.drop_last() =~= self.repos@.subrange(0, k - 1));
            if str_eq(self.repos[k - 1].0.as_str(), name) {
                return Some(self.repos[k - 1].1.as_str());
            }
            k = k - 1;
        }
        assert(self.repos@.subrange(0, 0) =~= Seq::<(String, String)>::empty());
        None
    }
}

/// A repository registered with `with_repo` is the one `repo_workdir` finds
/// under its name, and registering it leaves every other name as it was.
pub proof fn law_registered_repo_is_found(
    repos: Map<Seq<char>, Seq<char>>,
    name: Seq<char>,
    workdir: Seq<char>,
    other: Seq<char>,
)
    requires
        other != name,
    ensures
        repos.insert(name, workdir).contains_key(name),
        repos.insert(name, workdir)[name] == workdir,
        repos.insert(name, workdir).contains_key(other) == repos.contains_key(other),
        repos.contains_key(other) ==> repos.insert(name, workdir)[other] == repos[other],
{
}

// ── The conversation loop ──────────────────────────────────────────────────

/// What to do after the model's turn.
pub enum Step {
    /// The model is done: this is its answer.
    Finished(String),
    /// Run these tool calls and report their results.
    RunTools(Vec<ToolCall>),
}

/// The transcript of one run: the system prompt, the user's message, and the
/// turns since.
pub struct Conversation {
    messages: Vec<Message>,
}

/// A message as a role and blocks.
pub open spec fn message_blocks(m: Message) -> (Role, Seq<BlockView>) {
    (m.role, blocks_view(m.content@))
}

impl Conversation {
    /// The transcript so far, as roles and blocks.
    pub closed spec fn transcript(&self) -> Seq<(Role, Seq<BlockView>)> {
        self.messages@.map_values(|m: Message| message_blocks(m))
    }

    /// Start a run: the system prompt, then the user's message.
    pub fn start(system_prompt: &str, user_message: &str) -> (r: Self)
        ensures
            r.transcript() == seq![
                (Role::System, seq![BlockView::Text { text: system_prompt@ }]),
                (Role::User, seq![BlockView::Text { text: user_message@ }]),
            ],
    {
        let r = Self { messages: vec![Message::system(system_prompt), Message::user(user_message)] };
        assert(r.transcript() =~= seq![
            (Role::System, seq![BlockView::Text { text: system_prompt@ }]),
            (Role::User, seq![BlockView::Text { text: user_message@ }]),
        ]);
        r
    }

    /// The request for the next turn of `engine`: the transcript so far,
    /// the tools on offer, the engine's model, and at most 4096 tokens of
    /// answer.
    pub fn request(&self, engine: &InferenceEngine) -> (r: LlmRequest)
        ensures
            r.messages@.map_values(|m: Message| message_blocks(m)) == self.transcript(),
            offered_tools(r.tools@),
            r.model@ == engine.default_model@,
            r.max_tokens == 4096,
    {
        let mut messages: Vec<Message> = Vec::new();
        let mut i: usize = 0;
        while i < self.messages.len()
            invariant
                i <= self.messages.len(),
                messages@.map_values(|m: Message| message_blocks(m)) == self.messages@.subrange(
                    0,
                    i as int,
                ).map_values(|m: Message| message_blocks(m)),
            decreases self.messages.len() - i,
        {
            let ghost pre = messages@;
            let c = copy_message(&self.messages[i]);
            messages.push(c);
            assert(messages@.map_values(|m: Message| message_blocks(m)) =~= pre.map_values(
                |m: Message| message_blocks(m),
            ).push(message_blocks(c)));
            assert(self.messages@.subrange(0, i + 1).map_values(|m: Message| message_blocks(m))
                =~= self.messages@.subrange(0, i as int).map_values(|m: Message| message_blocks(m)).push(
                message_blocks(self.messages@[i as int]),
            ));
            i = i + 1;
        }
        assert(self.messages@.subrange(0, i as int) =~= self.messages@);
        LlmRequest {
            messages,
            tools: builtin_tools(),
            model: engine.default_model.clone(),
            max_tokens: 4096,
        }
    }

    /// The messages to send with the next request.
    pub fn messages(&self) -> (r: &Vec<Message>)
        ensures
            r@.map_values(|m: Message| message_blocks(m)) == self.transcript(),
    {
        &self.messages
    }

    /// Record the model's turn: its text and tool calls join the transcript
    /// as one assistant message.  Without tool calls the run is finished and
    /// the text is the answer; otherwise the calls are to be run.
    pub fn on_reply(&mut self, response: &LlmResponse) -> (r: Step)
        ensures
            final(self).transcript() == old(self).transcript().push(
                (Role::Assistant, assistant_turn_blocks(response.text@, response.tool_calls@)),
            ),
            response.tool_calls.len() == 0 ==> (r matches Step::Finished(t) && t@ == response.text@),
            response.tool_calls.len() > 0 ==> (r matches Step::RunTools(calls) && same_calls(
                calls@,
                response.tool_calls@,
            )),
    {
        let turn = Message::assistant_turn(response.text.as_str(), response.tool_calls.as_slice());
        let ghost before = self.transcript();
        self.messages.push(turn);
        assert(self.transcript() =~= before.push(message_blocks(turn)));
        if response.tool_calls.len() == 0 {
            Step::Finished(response.text.clone())
        } else {
            Step::RunTools(clone_calls(&response.tool_calls))
        }
    }

    /// Record the results of the tool calls just run, as one user message.
    pub fn on_tool_results(&mut self, results: &[ToolResult])
        ensures
            final(self).transcript().len() == old(self).transcript().len() + 1,
            final(self).transcript().subrange(0, old(self).transcript().len() as int)
                == old(self).transcript(),
            final(self).transcript().last().0 == Role::User,
            final(self).transcript().last().1.len() == results.len(),
            forall|i: int|
                0 <= i < results.len() ==> answers(
                    #[trigger] final(self).transcript().last().1[i],
                    results@[i],
                ),
    {
        let msg = Message::tool_results(results);
        let ghost before = self.transcript();
        self.messages.push(msg);
        assert(self.transcript() =~= before.push(message_blocks(msg)));
        assert(self.transcript().subrange(0, before.len() as int) =~= before);
        assert forall|i: int| 0 <= i < results.len() implies answers(
            #[trigger] self.transcript().last().1[i],
            results@[i],
        ) by {
            assert(self.transcript().last().1[i] == msg.content@[i]@);
        }
    }
}

/// The same tool calls: ids, names and inputs agree one by one.
pub open spec fn same_calls(a: Seq<ToolCall>, b: Seq<ToolCall>) -> bool {
    &&& a.len() == b.len()
    &&& forall|i: int|
        0 <= i < a.len() ==> (#[trigger] a[i]).id@ == b[i].id@ && a[i].name@ == b[i].name@ && a[i].input
            == b[i].input
}

fn clone_calls(calls: &Vec<ToolCall>) -> (r: Vec<ToolCall>)
    ensures
        same_calls(r@, calls@),
{
    let mut out: Vec<ToolCall> = Vec::new();
    let mut i: usize = 0;
    while i < calls.len()
        invariant
            i <= calls.len(),
            out.len() == i,
            forall|k: int|
                0 <= k < i ==> (#[trigger] out@[k]).id@ == calls@[k].id@ && out@[k].name@
                    == calls@[k].name@ && out@[k].input == calls@[k].input,
        decreases calls.len() - i,
    {
        let c = &calls[i];
        out.push(ToolCall { id: c.id.clone(), name: c.name.clone(), input: c.input.clone() });
        i = i + 1;
    }
    out
}

} // verus!
