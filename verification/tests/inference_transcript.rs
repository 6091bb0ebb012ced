use mnemosyne::inference::engine::{
    appended_source, define_commit_message, defined_functions, edit_commit_message, plan_tool, tool_kind, unknown_repo_message, unknown_tool_message,
    Conversation, InferenceEngine, Step, ToolKind, ToolPlan,
};
use mnemosyne::editor::{ClojureAst, Edit};
use mnemosyne::inference::llm::{ContentBlock, LlmResponse, Message, Role, ToolCall, ToolResult};
use mnemosyne::interface::anthropic::{
    concat_text, reply_parts as anthropic_reply, request_parts, AnthropicBackend, RespBlock,
    ANTHROPIC_VERSION, MESSAGES_URL,
};
use mnemosyne::interface::openai_compat::{
    build_messages, reply_parts as openai_reply, trim_trailing_slashes, ChoiceMessage,
    OpenAiCompatBackend, RespToolCall,
};
use serde_json::Value;

fn j(text: &str) -> Value {
    serde_json::from_str(text).unwrap()
}

fn call(id: &str, name: &str) -> ToolCall {
    ToolCall { id: id.into(), name: name.into(), input: j(r#"{"source": "(+ 1 2)"}"#) }
}

#[test]
fn assistant_turn_text_then_calls() {
    let m = Message::assistant_turn("thinking", &[call("c1", "eval_clojure")]);
    assert_eq!(m.role, Role::Assistant);
    assert_eq!(m.content.len(), 2);
    assert!(matches!(&m.content[0], ContentBlock::Text { text } if text == "thinking"));
    assert!(matches!(&m.content[1], ContentBlock::ToolUse { id, name, .. } if id == "c1" && name == "eval_clojure"));
    let m = Message::assistant_turn("", &[call("c1", "eval_clojure")]);
    assert_eq!(m.content.len(), 1);
}

#[test]
fn tool_results_keep_ids_and_text() {
    let results = vec![
        ToolResult { call_id: "c1".into(), output: j(r#""3""#), is_error: false },
        ToolResult { call_id: "c2".into(), output: j(r#"{"n": 1}"#), is_error: true },
    ];
    let m = Message::tool_results(&results);
    assert_eq!(m.role, Role::User);
    match (&m.content[0], &m.content[1]) {
        (
            ContentBlock::ToolResult { tool_use_id: a, content: ca, is_error: ea },
            ContentBlock::ToolResult { tool_use_id: b, content: cb, is_error: eb },
        ) => {
            assert_eq!((a.as_str(), ca.as_str(), *ea), ("c1", "3", false));
            assert_eq!((b.as_str(), cb.as_str(), *eb), ("c2", "{\"n\":1}", true));
        }
        _ => panic!("expected tool results"),
    }
}

#[test]
fn openai_messages_split_tool_results() {
    let transcript = vec![
        Message::system("sys"),
        Message::user("hi"),
        Message::assistant_turn("", &[call("c1", "eval_clojure")]),
        Message::tool_results(&[ToolResult { call_id: "c1".into(), output: j(r#""3""#), is_error: false }]),
    ];
    let out = build_messages(&transcript);
    assert_eq!(out.len(), 4);
    assert_eq!(out[0].role, "system");
    assert_eq!(out[0].content.as_deref(), Some("sys"));
    assert_eq!(out[2].role, "assistant");
    assert!(out[2].content.is_none());
    let calls = out[2].tool_calls.as_ref().unwrap();
    assert_eq!(calls[0].id, "c1");
    assert_eq!(calls[0].kind, "function");
    assert_eq!(calls[0].function.arguments, "{\"source\":\"(+ 1 2)\"}");
    assert_eq!(out[3].role, "tool");
    assert_eq!(out[3].tool_call_id.as_deref(), Some("c1"));
    assert_eq!(out[3].content.as_deref(), Some("3"));
}

#[test]
fn openai_reply_reads_first_choice() {
    let (text, calls) = openai_reply(Some(ChoiceMessage {
        content: None,
        tool_calls: vec![RespToolCall { id: "x".into(), name: "search_code".into(), arguments: "{\"query\":\"q\"}".into() }],
    }));
    assert_eq!(text, "");
    assert_eq!(calls[0].input, j(r#"{"query": "q"}"#));
    let (_, calls) = openai_reply(Some(ChoiceMessage {
        content: Some("ok".into()),
        tool_calls: vec![RespToolCall { id: "x".into(), name: "n".into(), arguments: "not json".into() }],
    }));
    assert_eq!(calls[0].input, serde_json::Value::Null);
    assert_eq!(openai_reply(None).0, "");
}

#[test]
fn anthropic_request_lifts_system_prompt() {
    let transcript = vec![Message::system("a"), Message::user("hi"), Message::assistant("yo")];
    let (system, msgs) = request_parts(&transcript);
    assert_eq!(system.as_deref(), Some("a"));
    assert_eq!(msgs.len(), 2);
    assert_eq!(msgs[0].role, "user");
    assert_eq!(msgs[1].role, "assistant");
    let blocks = vec![
        ContentBlock::Text { text: "x".into() },
        ContentBlock::ToolResult { tool_use_id: "i".into(), content: "c".into(), is_error: false },
        ContentBlock::Text { text: "y".into() },
    ];
    assert_eq!(concat_text(&blocks), "xy");
}

#[test]
fn anthropic_reply_collects_text_and_calls() {
    let (text, calls) = anthropic_reply(vec![
        RespBlock::Text { text: "a".into() },
        RespBlock::Other,
        RespBlock::ToolUse { id: "t".into(), name: "eval_clojure".into(), input: j("{}") },
        RespBlock::Text { text: "b".into() },
    ]);
    assert_eq!(text, "ab");
    assert_eq!(calls.len(), 1);
    assert_eq!(calls[0].id, "t");
}

#[test]
fn runs_tool_then_returns_final_text() {
    let mut conv = Conversation::start("sys", "add one and two");
    assert_eq!(conv.messages().len(), 2);
    let step = conv.on_reply(&LlmResponse {
        text: String::new(),
        tool_calls: vec![ToolCall {
            id: "call_1".into(),
            name: "eval_clojure".into(),
            input: j(r#"{ "source": "(+ 1 2)" }"#),
        }],
        model: "scripted".into(),
        input_tokens: 0,
        output_tokens: 0,
    });
    let calls = match step {
        Step::RunTools(calls) => calls,
        Step::Finished(_) => panic!("expected tool calls"),
    };
    assert_eq!(calls.len(), 1);
    assert!(matches!(plan_tool(&calls[0]), ToolPlan::EvalClojure { source } if source == "(+ 1 2)"));
    conv.on_tool_results(&[ToolResult { call_id: "call_1".into(), output: j("\"3\""), is_error: false }]);
    let saw_tool_result = conv
        .messages()
        .iter()
        .any(|m| m.content.iter().any(|b| matches!(b, ContentBlock::ToolResult { .. })));
    assert!(saw_tool_result, "the second turn must see the tool_result in the transcript");
    let step = conv.on_reply(&LlmResponse {
        text: "the sum is 3".into(),
        tool_calls: vec![],
        model: "scripted".into(),
        input_tokens: 0,
        output_tokens: 0,
    });
    assert!(matches!(step, Step::Finished(t) if t == "the sum is 3"));
    assert_eq!(conv.messages().len(), 5);
}

#[test]
fn tool_names_and_messages() {
    assert_eq!(tool_kind("search_code"), Some(ToolKind::SearchCode));
    assert_eq!(tool_kind("load_versioned_symbol"), Some(ToolKind::LoadVersionedSymbol));
    assert_eq!(tool_kind("rm_rf"), None);
    assert_eq!(unknown_tool_message("rm_rf"), "unknown tool: rm_rf");
    assert_eq!(
        unknown_repo_message("core"),
        "unknown repo 'core'; register it with with_repo()"
    );
    let edit = Edit::Rename { old_name: "a".into(), new_name: "b".into() };
    assert_eq!(edit_commit_message(&edit, "src/a.clj"), "rename a -> b: src/a.clj");
}

fn planned_call(name: &str, input: &str) -> ToolCall {
    ToolCall { id: "c1".into(), name: name.into(), input: serde_json::from_str(input).unwrap() }
}

#[test]
fn tool_calls_are_planned_from_their_input() {
    match plan_tool(&planned_call("search_code", r#"{"query":"retry with backoff","limit":3}"#)) {
        ToolPlan::SearchCode { query, limit, fetch } => {
            assert_eq!(query, "retry with backoff");
            assert_eq!(limit, 3);
            assert_eq!(fetch, 6);
        }
        other => panic!("unexpected {other:?}"),
    }
    match plan_tool(&planned_call("search_code", r#"{"limit":"many"}"#)) {
        ToolPlan::SearchCode { query, limit, fetch } => {
            assert_eq!(query, "");
            assert_eq!(limit, 5);
            assert_eq!(fetch, 10);
        }
        other => panic!("unexpected {other:?}"),
    }
    assert!(matches!(
        plan_tool(&planned_call("recall_memory", "{}")),
        ToolPlan::RecallMemory { limit: 10 }
    ));
    assert!(matches!(
        plan_tool(&planned_call("eval_clojure", r#"{"source":"(+ 1 2)"}"#)),
        ToolPlan::EvalClojure { source } if source == "(+ 1 2)"
    ));
    match plan_tool(&planned_call("edit_function", r#"{"repo":"r","file":"src/a.clj"}"#)) {
        ToolPlan::EditFunction { repo, file, edit } => {
            assert_eq!(repo, "r");
            assert_eq!(file, "src/a.clj");
            assert!(edit.is_null());
        }
        other => panic!("unexpected {other:?}"),
    }
    assert!(matches!(
        plan_tool(&planned_call("load_versioned_symbol", r#"{"vref":"a/b@1"}"#)),
        ToolPlan::LoadVersionedSymbol { vref } if vref == "a/b@1"
    ));
    assert!(matches!(
        plan_tool(&planned_call("rm_rf", "{}")),
        ToolPlan::Unknown { message } if message == "unknown tool: rm_rf"
    ));
}

#[test]
fn engine_repositories() {
    let engine = InferenceEngine::new("some-model")
        .with_repo("core", "/srv/core")
        .with_repo("web", "/srv/web")
        .with_repo("core", "/srv/core-2");
    assert_eq!(engine.default_model, "some-model");
    assert!(engine.system_prompt.starts_with("You are Mnemosyne"));
    assert_eq!(engine.repo_workdir("core"), Some("/srv/core-2"));
    assert_eq!(engine.repo_workdir("web"), Some("/srv/web"));
    assert_eq!(engine.repo_workdir("nope"), None);
    assert_eq!(InferenceEngine::new("m").repo_workdir("core"), None);
}

#[test]
fn backends_keep_their_endpoints() {
    let b = OpenAiCompatBackend::new("http://localhost:11434/v1//", "local");
    assert_eq!(b.base_url, "http://localhost:11434/v1");
    assert_eq!(b.completions_url(), "http://localhost:11434/v1/chat/completions");
    assert_eq!(b.authorization(), "Bearer local");
    assert_eq!(trim_trailing_slashes("///"), "");
    assert_eq!(trim_trailing_slashes("a/b"), "a/b");
    assert_eq!(trim_trailing_slashes("é/"), "é");
    assert_eq!(AnthropicBackend::new("sk").api_key, "sk");
    assert_eq!(MESSAGES_URL, "https://api.anthropic.com/v1/messages");
    assert_eq!(ANTHROPIC_VERSION, "2023-06-01");
}

#[test]
fn define_function_is_planned_and_indexed_by_short_name() {
    match plan_tool(&planned_call(
        "define_function",
        r#"{"repo":"facts","file":"facts.clj","source":"(defn fact-answer [] 42)"}"#,
    )) {
        ToolPlan::DefineFunction { repo, file, source } => {
            assert_eq!(repo, "facts");
            assert_eq!(file, "facts.clj");
            assert_eq!(source, "(defn fact-answer [] 42)");
        }
        other => panic!("unexpected {other:?}"),
    }
    assert_eq!(tool_kind("define_function"), Some(ToolKind::DefineFunction));
    let src = "(ns facts.system-info)\n\n(defn home-dir [] \"/home/user\")";
    let ast = ClojureAst::parse(src).unwrap();
    let fns = defined_functions(&ast, "facts", "facts/system_info.clj");
    assert_eq!(fns.len(), 1);
    assert_eq!(fns[0].name, "home-dir");
    assert_eq!(fns[0].repo, "facts");
    assert_eq!(fns[0].file_path, "facts/system_info.clj");
    assert_eq!(fns[0].body, "(defn home-dir [] \"/home/user\")");
    assert_eq!(fns[0].docstring, None);
    assert_eq!(appended_source("", "(defn a [] 1)"), "(defn a [] 1)\n");
    assert_eq!(appended_source("(defn a [] 1)\n", "(defn b [] 2)"), "(defn a [] 1)\n\n(defn b [] 2)\n");
    assert_eq!(appended_source("(defn a [] 1)", "(defn b [] 2)"), "(defn a [] 1)\n\n(defn b [] 2)\n");
    assert_eq!(define_commit_message("facts.clj"), "define: facts.clj");
}

#[test]
fn builtin_tools_are_offered_in_order_with_their_schemas() {
    let tools = mnemosyne::inference::tool::builtin_tools();
    let names: Vec<&str> = tools.iter().map(|t| t.name.as_str()).collect();
    assert_eq!(
        names,
        vec![
            "search_code",
            "eval_clojure",
            "edit_function",
            "recall_memory",
            "load_versioned_symbol"
        ]
    );
    for t in &tools {
        assert!(mnemosyne::inference::engine::tool_kind(&t.name).is_some());
        assert_eq!(t.input_schema["type"], "object");
        assert!(!t.description.is_empty());
    }
    assert_eq!(tools[0].input_schema["required"][0], "query");
    assert_eq!(tools[0].input_schema["properties"]["limit"]["default"], 5);
    assert_eq!(tools[3].input_schema["properties"]["limit"]["default"], 10);
    assert_eq!(tools[4].input_schema["required"][0], "vref");
    assert!(tools[3].input_schema.get("required").is_none());
    assert_eq!(
        tools[1].description,
        "Evaluate a Clojure expression and return its printed result."
    );
}
