//! The tools the inference engine advertises to the model.
use vstd::prelude::*;
use vstd::string::*;
use crate::inference::json::{json_parse_or_null, json_value_or_null};
use crate::inference::llm::Tool;
use crate::inference::engine::{ToolKind, tool_kind_spec};

verus! {

pub const SEARCH_CODE_DESCRIPTION: &'static str = "Search indexed repositories for functions matching a query. \
    Combines full-text (keyword) and semantic (intent-based) search when \
    the semantic index is loaded; falls back to full-text only otherwise. \
    Results include a source field: \"fulltext\", \"semantic\", or \"both\".";

pub const SEARCH_CODE_SCHEMA: &'static str = r#"{"type": "object", "properties": {"query": {"type": "string", "description": "Functionality description"}, "limit": {"type": "integer", "default": 5}}, "required": ["query"]}"#;

pub const EVAL_CLOJURE_DESCRIPTION: &'static str = "Evaluate a Clojure expression and return its printed result.";

pub const EVAL_CLOJURE_SCHEMA: &'static str = r#"{"type": "object", "properties": {"source": {"type": "string", "description": "Clojure source to evaluate"}}, "required": ["source"]}"#;

pub const EDIT_FUNCTION_DESCRIPTION: &'static str = "Apply a structural edit to an existing Clojure function in a \
    repository file and commit it. Use this to evolve a function into a new \
    version — the returned commit hash is the new pin. Variants: ReplaceBody, \
    PrependToBody, WrapBody, Rename, InsertAfter.";

pub const EDIT_FUNCTION_SCHEMA: &'static str = r#"{"type": "object", "properties": {"repo": {"type": "string"}, "file": {"type": "string"}, "edit": {"type": "object", "description": "Serialised Edit variant"}}, "required": ["repo", "file", "edit"]}"#;

pub const RECALL_MEMORY_DESCRIPTION: &'static str = "Recall recent episodes (user messages, tool calls, tool results, \
    assistant replies) from the episodic memory log to recover context from \
    earlier in the session.";

pub const RECALL_MEMORY_SCHEMA: &'static str = r#"{"type": "object", "properties": {"limit": {"type": "integer", "default": 10}}}"#;

pub const LOAD_VERSIONED_SYMBOL_DESCRIPTION: &'static str = "Load a git-pinned Clojure symbol or namespace into the live \
    runtime so it can be called. The registry resolves the versioned ref, \
    verifies the commit signature, and applies the trust policy. Ref syntax: \
    `namespace/symbol@<commit>`, `namespace@<commit>`, or \
    `https://host/u/r::ns/sym@<commit>` for external repositories.";

pub const LOAD_VERSIONED_SYMBOL_SCHEMA: &'static str = r#"{"type": "object", "properties": {"vref": {"type": "string", "description": "Versioned ref, e.g. mnemosyne.core/deep-merge@a1b2c3d4"}}, "required": ["vref"]}"#;

/// The tool named `name`, described by `description`, whose input schema is
/// the JSON document `schema`.
pub open spec fn describes(t: Tool, name: Seq<char>, description: Seq<char>, schema: Seq<char>) -> bool {
    &&& t.name@ == name
    &&& t.description@ == description
    &&& t.input_schema == json_value_or_null(schema)
}

fn tool(name: &str, description: &str, schema: &str) -> (r: Tool)
    ensures
        describes(r, name@, description@, schema@),
{
    Tool {
        name: name.to_owned(),
        description: description.to_owned(),
        input_schema: json_parse_or_null(schema),
    }
}

/// The tools the engine offers, in order: search, evaluation, editing,
/// memory and versioned symbols.
pub open spec fn offered_tools(r: Seq<Tool>) -> bool {
    &&& r.len() == 5
    &&& describes(r[0], "search_code"@, SEARCH_CODE_DESCRIPTION@, SEARCH_CODE_SCHEMA@)
    &&& describes(r[1], "eval_clojure"@, EVAL_CLOJURE_DESCRIPTION@, EVAL_CLOJURE_SCHEMA@)
    &&& describes(r[2], "edit_function"@, EDIT_FUNCTION_DESCRIPTION@, EDIT_FUNCTION_SCHEMA@)
    &&& describes(r[3], "recall_memory"@, RECALL_MEMORY_DESCRIPTION@, RECALL_MEMORY_SCHEMA@)
    &&& describes(
        r[4],
        "load_versioned_symbol"@,
        LOAD_VERSIONED_SYMBOL_DESCRIPTION@,
        LOAD_VERSIONED_SYMBOL_SCHEMA@,
    )
}

/// Tool definitions that the inference engine exposes to the LLM, in the
/// order they are offered; each is a tool the engine can carry out.
pub fn builtin_tools() -> (r: Vec<Tool>)
    ensures
        offered_tools(r@),
        r@.len() == 5,
        describes(r@[0], "search_code"@, SEARCH_CODE_DESCRIPTION@, SEARCH_CODE_SCHEMA@),
        describes(r@[1], "eval_clojure"@, EVAL_CLOJURE_DESCRIPTION@, EVAL_CLOJURE_SCHEMA@),
        describes(r@[2], "edit_function"@, EDIT_FUNCTION_DESCRIPTION@, EDIT_FUNCTION_SCHEMA@),
        describes(r@[3], "recall_memory"@, RECALL_MEMORY_DESCRIPTION@, RECALL_MEMORY_SCHEMA@),
        describes(
            r@[4],
            "load_versioned_symbol"@,
            LOAD_VERSIONED_SYMBOL_DESCRIPTION@,
            LOAD_VERSIONED_SYMBOL_SCHEMA@,
        ),
        forall|i: int| 0 <= i < r@.len() ==> (#[trigger] tool_kind_spec(r@[i].name@)) is Some,
{
    let mut r: Vec<Tool> = Vec::new();
    r.push(tool("search_code", SEARCH_CODE_DESCRIPTION, SEARCH_CODE_SCHEMA));
    r.push(tool("eval_clojure", EVAL_CLOJURE_DESCRIPTION, EVAL_CLOJURE_SCHEMA));
    r.push(tool("edit_function", EDIT_FUNCTION_DESCRIPTION, EDIT_FUNCTION_SCHEMA));
    r.push(tool("recall_memory", RECALL_MEMORY_DESCRIPTION, RECALL_MEMORY_SCHEMA));
    r.push(tool("load_versioned_symbol", LOAD_VERSIONED_SYMBOL_DESCRIPTION, LOAD_VERSIONED_SYMBOL_SCHEMA));
    proof {
        reveal_strlit("search_code");
        reveal_strlit("eval_clojure");
        reveal_strlit("edit_function");
        reveal_strlit("recall_memory");
        reveal_strlit("load_versioned_symbol");
        assert("search_code"@[0] == 's');
        assert("eval_clojure"@[0] == 'e' && "eval_clojure"@[1] == 'v');
        assert("edit_function"@[0] == 'e' && "edit_function"@[1] == 'd');
        assert("recall_memory"@[0] == 'r');
        assert("load_versioned_symbol"@[0] == 'l');
        assert(tool_kind_spec(r@[0].name@) == Some(ToolKind::SearchCode));
        assert(tool_kind_spec(r@[1].name@) == Some(ToolKind::EvalClojure));
        assert(tool_kind_spec(r@[2].name@) == Some(ToolKind::EditFunction));
        assert(tool_kind_spec(r@[3].name@) == Some(ToolKind::RecallMemory));
        assert(tool_kind_spec(r@[4].name@) == Some(ToolKind::LoadVersionedSymbol));
    }
    r
}

} // verus!
