use mnemosyne::core_functions::error::CoreError;
use mnemosyne::editor::{Edit, Editor};
use mnemosyne::execution::error::ExecutionError;
use mnemosyne::inference::engine::{start_tool, tool_result, Conversation, InferenceEngine, ToolPlan};
use mnemosyne::inference::error::InferenceError;
use mnemosyne::inference::llm::{ContentBlock, Role, Tool, ToolCall, ToolResult};
use mnemosyne::interface::anthropic::{
    api_tools, reply_outcome as anthropic_outcome, ApiReply, RespBlock,
};
use mnemosyne::interface::openai_compat::{
    chat_tools, reply_outcome as openai_outcome, ChatReply, ChoiceMessage, RespToolCall,
};
use mnemosyne::scan::find_args_vec;
use serde_json::Value;

fn call(id: &str, name: &str, input: &str) -> ToolCall {
    ToolCall {
        id: id.to_owned(),
        name: name.to_owned(),
        input: serde_json::from_str(input).unwrap(),
    }
}

#[test]
fn unknown_tool_is_answered_before_anything_runs() {
    let c = call("c9", "frobnicate", "{}");
    match start_tool(&c) {
        Err(r) => {
            assert_eq!(r.call_id, "c9");
            assert!(r.is_error);
            assert_eq!(r.output, Value::String("unknown tool: frobnicate".to_owned()));
        }
        Ok(_) => panic!("an unknown tool has no plan"),
    }
    let c = call("c1", "eval_clojure", r#"{"source": "(+ 1 2)"}"#);
    assert!(matches!(start_tool(&c), Ok(ToolPlan::EvalClojure { source }) if source == "(+ 1 2)"));
}

#[test]
fn tool_results_answer_their_call() {
    let c = call("c2", "eval_clojure", "{}");
    let ok = tool_result(&c, Ok(Value::from(3)));
    assert_eq!(ok.call_id, "c2");
    assert!(!ok.is_error);
    assert_eq!(ok.output, Value::from(3));
    let err = tool_result(&c, Err("eval error: boom".to_owned()));
    assert_eq!(err.call_id, "c2");
    assert!(err.is_error);
    assert_eq!(err.output, Value::String("eval error: boom".to_owned()));
    let direct = ToolResult::err("c3", "nope".to_owned());
    assert_eq!(direct.output, Value::String("nope".to_owned()));
    assert!(!ToolResult::ok("c3", Value::Null).is_error);
}

fn tools() -> Vec<Tool> {
    vec![Tool {
        name: "echo".to_owned(),
        description: "says it back".to_owned(),
        input_schema: serde_json::from_str(r#"{"type": "object"}"#).unwrap(),
    }]
}

#[test]
fn providers_list_the_tools_on_offer() {
    let t = tools();
    let a = api_tools(&t);
    assert_eq!(a.len(), 1);
    assert_eq!(a[0].name, "echo");
    assert_eq!(a[0].description, "says it back");
    assert_eq!(a[0].input_schema["type"], "object");
    let c = chat_tools(&t);
    assert_eq!(c.len(), 1);
    assert_eq!(c[0].kind, "function");
    assert_eq!(c[0].name, "echo");
    assert_eq!(c[0].parameters, t[0].input_schema);
}

#[test]
fn anthropic_status_and_reply_decide_the_outcome() {
    match anthropic_outcome(529, "overloaded".to_owned(), Err(String::new())) {
        Err(e @ InferenceError::Llm { .. }) => {
            assert_eq!(e.message(), "llm error: 529 — overloaded");
        }
        other => panic!("unexpected: {other:?}"),
    }
    match anthropic_outcome(200, "garbage".to_owned(), Err("expected value".to_owned())) {
        Err(InferenceError::Http(m)) => assert_eq!(m, "expected value"),
        other => panic!("unexpected: {other:?}"),
    }
    let reply = ApiReply {
        content: vec![
            RespBlock::Text { text: "Hello".to_owned() },
            RespBlock::Other,
            RespBlock::ToolUse {
                id: "t1".to_owned(),
                name: "echo".to_owned(),
                input: Value::Null,
            },
            RespBlock::Text { text: " there".to_owned() },
        ],
        model: "model-x".to_owned(),
        input_tokens: 12,
        output_tokens: 7,
    };
    let r = anthropic_outcome(200, String::new(), Ok(reply)).unwrap();
    assert_eq!(r.text, "Hello there");
    assert_eq!(r.tool_calls.len(), 1);
    assert_eq!(r.tool_calls[0].id, "t1");
    assert_eq!(r.model, "model-x");
    assert_eq!((r.input_tokens, r.output_tokens), (12, 7));
}

#[test]
fn openai_reply_falls_back_to_the_requested_model_and_zero_usage() {
    match openai_outcome(401, "bad key".to_owned(), "gpt", Err(String::new())) {
        Err(InferenceError::Llm { status, message }) => {
            assert_eq!(status, 401);
            assert_eq!(message, "bad key");
        }
        other => panic!("unexpected: {other:?}"),
    }
    let reply = ChatReply {
        message: Some(ChoiceMessage {
            content: None,
            tool_calls: vec![RespToolCall {
                id: "x".to_owned(),
                name: "echo".to_owned(),
                arguments: "not json".to_owned(),
            }],
        }),
        model: None,
        usage: None,
    };
    let r = openai_outcome(200, String::new(), "local-model", Ok(reply)).unwrap();
    assert_eq!(r.text, "");
    assert_eq!(r.model, "local-model");
    assert_eq!((r.input_tokens, r.output_tokens), (0, 0));
    assert_eq!(r.tool_calls[0].input, Value::Null);
    let reply = ChatReply { message: None, model: Some("m2".to_owned()), usage: Some((5, 6)) };
    let r = openai_outcome(200, String::new(), "local-model", Ok(reply)).unwrap();
    assert_eq!(r.model, "m2");
    assert_eq!((r.input_tokens, r.output_tokens), (5, 6));
    assert!(r.tool_calls.is_empty());
}

#[test]
fn inference_errors_read_as_the_original_words() {
    assert_eq!(InferenceError::Http("timed out".into()).message(), "http error: timed out");
    assert_eq!(InferenceError::Serde("eof".into()).message(), "serialization error: eof");
    assert_eq!(InferenceError::UnknownTool("zap".into()).message(), "unknown tool: zap");
    assert_eq!(
        InferenceError::Execution(ExecutionError::Timeout).message(),
        "execution error: timeout"
    );
    assert_eq!(
        InferenceError::Llm { status: 0, message: String::new() }.message(),
        "llm error: 0 — "
    );
    assert_eq!(
        CoreError::Execution(ExecutionError::Eval("x".into())).message(),
        "execution error: eval error: x"
    );
}

#[test]
fn each_turn_requests_the_transcript_tools_and_model() {
    let engine = InferenceEngine::new("some-model");
    let conv = Conversation::start("be brief", "hi");
    let req = conv.request(&engine);
    assert_eq!(req.model, "some-model");
    assert_eq!(req.max_tokens, 4096);
    assert_eq!(req.tools.len(), 5);
    assert_eq!(req.messages.len(), 2);
    assert_eq!(req.messages[0].role, Role::System);
    assert!(matches!(&req.messages[1].content[0], ContentBlock::Text { text } if text == "hi"));
}

#[test]
fn applying_edits_in_two_batches_is_applying_them_together() {
    let src = "(defn a [x] x)\n\n(defn b [y] y)";
    let e1 = Edit::Rename { old_name: "a".into(), new_name: "aa".into() };
    let e2 = Edit::ReplaceBody { fn_name: "b".into(), new_body: "(inc y)".into() };
    let together = Editor::new(src).apply(&[e1.clone(), e2.clone()]).unwrap();
    let first = Editor::new(src).apply(&[e1]).unwrap();
    let second = Editor::new(&first.source).apply(&[e2]).unwrap();
    assert_eq!(together.source, second.source);
    assert_eq!(together.edits_applied, first.edits_applied + second.edits_applied);
    let missing = Edit::Rename { old_name: "zz".into(), new_name: "q".into() };
    let e3 = Edit::Rename { old_name: "b".into(), new_name: "bb".into() };
    let failed = Editor::new(src).apply(&[missing.clone(), e3]);
    let alone = Editor::new(src).apply(&[missing]);
    assert_eq!(failed.unwrap_err().message(), alone.unwrap_err().message());
}

#[test]
fn argument_vector_search_past_the_end_finds_nothing() {
    assert_eq!(find_args_vec(b"(defn f [x] x)", 14), None);
    assert_eq!(find_args_vec(b"(defn f [x] x)", 100), None);
    assert_eq!(find_args_vec(b"(defn f [x] x)", 0), Some((8, 11)));
}
