use mnemosyne::mcp_core::server::{
    classify_line, is_supported_version, malformed_request, negotiate_version, param_fields, read_line,
    serialization_failed, Inbound, McpServer, ParamFields, Reply, Request, INTERNAL_ERROR,
    INVALID_PARAMS, LATEST_PROTOCOL_VERSION, METHOD_NOT_FOUND, PARSE_ERROR,
};
use serde_json::Value;

fn server() -> McpServer {
    McpServer::new("test-server", "0.0.1").instructions("test instructions").tool("echo")
}

fn request(line: &str) -> Request {
    let v: Value = serde_json::from_str(line).unwrap();
    Request {
        id: v.get("id").cloned(),
        method: v["method"].as_str().unwrap().to_owned(),
        params: v.get("params").cloned(),
    }
}

fn roundtrip(line: &str) -> Reply {
    server().handle_request(request(line)).expect("expected a reply")
}

fn error_of(reply: Reply) -> (Option<Value>, i64, String) {
    match reply {
        Reply::Error { id, code, message } => (id, code, message),
        other => panic!("expected an error, got {other:?}"),
    }
}

#[test]
fn initialize_negotiates_known_version() {
    let reply = roundtrip(
        r#"{"jsonrpc":"2.0","id":1,"method":"initialize","params":{"protocolVersion":"2024-11-05","capabilities":{},"clientInfo":{"name":"c","version":"1"}}}"#,
    );
    match reply {
        Reply::Initialize { id, protocol_version, server_name, server_version, instructions } => {
            assert_eq!(id, 1);
            assert_eq!(protocol_version, "2024-11-05");
            assert_eq!(server_name, "test-server");
            assert_eq!(server_version, "0.0.1");
            assert_eq!(instructions.as_deref(), Some("test instructions"));
        }
        other => panic!("unexpected {other:?}"),
    }
}

#[test]
fn initialize_falls_back_to_latest_version() {
    let reply = roundtrip(
        r#"{"jsonrpc":"2.0","id":1,"method":"initialize","params":{"protocolVersion":"1999-01-01"}}"#,
    );
    match reply {
        Reply::Initialize { protocol_version, .. } => {
            assert_eq!(protocol_version, LATEST_PROTOCOL_VERSION)
        }
        other => panic!("unexpected {other:?}"),
    }
    let bare = roundtrip(r#"{"jsonrpc":"2.0","id":1,"method":"initialize"}"#);
    assert!(matches!(bare, Reply::Initialize { protocol_version, .. } if protocol_version == LATEST_PROTOCOL_VERSION));
}

#[test]
fn protocol_versions() {
    assert!(is_supported_version("2025-06-18"));
    assert!(is_supported_version("2025-03-26"));
    assert!(is_supported_version("2024-11-05"));
    assert!(!is_supported_version("1999-01-01"));
    assert_eq!(negotiate_version(Some("2025-03-26")), "2025-03-26");
    assert_eq!(negotiate_version(Some("nope")), LATEST_PROTOCOL_VERSION);
    assert_eq!(negotiate_version(None), "2025-06-18");
}

#[test]
fn ping_is_answered() {
    let reply = roundtrip(r#"{"jsonrpc":"2.0","id":"p","method":"ping"}"#);
    assert!(matches!(reply, Reply::Pong { id } if id == "p"));
}

#[test]
fn tools_list_returns_descriptor() {
    let reply = roundtrip(r#"{"jsonrpc":"2.0","id":2,"method":"tools/list"}"#);
    assert!(matches!(reply, Reply::ToolList { id } if id == 2));
}

#[test]
fn tools_call_dispatches() {
    let reply = roundtrip(
        r#"{"jsonrpc":"2.0","id":3,"method":"tools/call","params":{"name":"echo","arguments":{"text":"hi"}}}"#,
    );
    match reply {
        Reply::CallTool { id, tool, arguments } => {
            assert_eq!(id, 3);
            assert_eq!(tool, 0);
            assert_eq!(arguments["text"], "hi");
        }
        other => panic!("unexpected {other:?}"),
    }
}

#[test]
fn tool_execution_error_is_result_not_protocol_error() {
    let reply = roundtrip(
        r#"{"jsonrpc":"2.0","id":4,"method":"tools/call","params":{"name":"echo","arguments":{}}}"#,
    );
    assert!(matches!(reply, Reply::CallTool { tool: 0, .. }));
}

#[test]
fn missing_arguments_are_an_empty_object() {
    let reply = roundtrip(r#"{"jsonrpc":"2.0","id":4,"method":"tools/call","params":{"name":"echo"}}"#);
    match reply {
        Reply::CallTool { arguments, .. } => assert_eq!(arguments, serde_json::from_str::<Value>("{}").unwrap()),
        other => panic!("unexpected {other:?}"),
    }
}

#[test]
fn calls_reach_the_first_tool_of_that_name() {
    let s = McpServer::new("s", "1").tool("a").tool("b").tool("b");
    let reply = s
        .handle_request(request(r#"{"jsonrpc":"2.0","id":7,"method":"tools/call","params":{"name":"b"}}"#))
        .unwrap();
    assert!(matches!(reply, Reply::CallTool { tool: 1, .. }));
}

#[test]
fn unknown_tool_is_invalid_params() {
    let reply = roundtrip(r#"{"jsonrpc":"2.0","id":5,"method":"tools/call","params":{"name":"nope"}}"#);
    let (id, code, message) = error_of(reply);
    assert_eq!(id, Some(Value::from(5)));
    assert_eq!(code, INVALID_PARAMS);
    assert_eq!(message, "unknown tool: nope");
}

#[test]
fn call_without_params_or_name() {
    let (_, code, message) = error_of(roundtrip(r#"{"jsonrpc":"2.0","id":5,"method":"tools/call"}"#));
    assert_eq!(code, INVALID_PARAMS);
    assert_eq!(message, "missing params");
    let (_, code, message) =
        error_of(roundtrip(r#"{"jsonrpc":"2.0","id":5,"method":"tools/call","params":{"name":3}}"#));
    assert_eq!(code, INVALID_PARAMS);
    assert_eq!(message, "missing tool name");
}

#[test]
fn unknown_method_is_method_not_found() {
    let (id, code, message) = error_of(roundtrip(r#"{"jsonrpc":"2.0","id":6,"method":"resources/list"}"#));
    assert_eq!(id, Some(Value::from(6)));
    assert_eq!(code, METHOD_NOT_FOUND);
    assert_eq!(message, "method not found: resources/list");
}

#[test]
fn notifications_get_no_reply() {
    let out = server().handle_request(request(r#"{"jsonrpc":"2.0","method":"notifications/initialized"}"#));
    assert!(out.is_none());
}

#[test]
fn client_responses_are_ignored() {
    assert!(matches!(read_line(r#"{"jsonrpc":"2.0","id":9,"result":{}}"#), Inbound::Ignore));
    assert!(matches!(read_line(r#"{"jsonrpc":"2.0","id":9,"method":"ping"}"#), Inbound::Message(_)));
}

#[test]
fn garbage_is_parse_error() {
    match read_line("{not json") {
        Inbound::Garbage(reply) => {
            let (id, code, message) = error_of(reply);
            assert_eq!(id, None);
            assert_eq!(code, PARSE_ERROR);
            assert!(message.starts_with("parse error: "));
        }
        other => panic!("unexpected {other:?}"),
    }
}

#[test]
fn error_replies() {
    let (id, code, message) = error_of(malformed_request("missing field `method`"));
    assert_eq!(id, None);
    assert_eq!(code, PARSE_ERROR);
    assert_eq!(message, "malformed request: missing field `method`");
    let (id, code, message) = error_of(serialization_failed(Some(Value::from(1)), "boom"));
    assert_eq!(id, Some(Value::from(1)));
    assert_eq!(code, INTERNAL_ERROR);
    assert_eq!(message, "serialization error: boom");
}

#[test]
fn params_are_read_for_routing() {
    let params: Option<Value> =
        Some(serde_json::from_str(r#"{"protocolVersion":"2024-11-05","name":"echo","arguments":[1]}"#).unwrap());
    let ParamFields { protocol_version, name, arguments } = param_fields(&params);
    assert_eq!(protocol_version.as_deref(), Some("2024-11-05"));
    assert_eq!(name.as_deref(), Some("echo"));
    assert_eq!(arguments, Some(serde_json::from_str::<Value>("[1]").unwrap()));
    let none = param_fields(&None);
    assert!(none.protocol_version.is_none() && none.name.is_none() && none.arguments.is_none());
}

#[test]
fn lines_are_classified_by_what_serde_json_read() {
    let (id, code, message) = match classify_line(Err("EOF while parsing".into()), false) {
        Inbound::Garbage(reply) => error_of(reply),
        other => panic!("unexpected {other:?}"),
    };
    assert_eq!(id, None);
    assert_eq!(code, PARSE_ERROR);
    assert_eq!(message, "parse error: EOF while parsing");
    let v: Value = serde_json::from_str(r#"{"id":1}"#).unwrap();
    assert!(matches!(classify_line(Ok(v.clone()), false), Inbound::Ignore));
    assert!(matches!(classify_line(Ok(v.clone()), true), Inbound::Message(m) if m == v));
}

fn via_line(line: &str) -> Option<Reply> {
    match read_line(line) {
        Inbound::Garbage(reply) => Some(reply),
        Inbound::Ignore => None,
        Inbound::Message(v) => server().handle_request(Request {
            id: v.get("id").cloned(),
            method: v["method"].as_str().unwrap().to_owned(),
            params: v.get("params").cloned(),
        }),
    }
}

#[test]
fn lines_go_through_read_line() {
    let init = via_line(
        r#"{"jsonrpc":"2.0","id":1,"method":"initialize","params":{"protocolVersion":"2024-11-05"}}"#,
    );
    assert!(matches!(init, Some(Reply::Initialize { protocol_version, .. }) if protocol_version == "2024-11-05"));
    assert!(matches!(via_line(r#"{"jsonrpc":"2.0","id":2,"method":"tools/list"}"#), Some(Reply::ToolList { .. })));
    assert!(matches!(
        via_line(r#"{"jsonrpc":"2.0","id":3,"method":"tools/call","params":{"name":"echo","arguments":{"text":"hi"}}}"#),
        Some(Reply::CallTool { tool: 0, .. })
    ));
    let (_, code, _) = error_of(via_line(r#"{"jsonrpc":"2.0","id":5,"method":"tools/call","params":{"name":"nope"}}"#).unwrap());
    assert_eq!(code, INVALID_PARAMS);
    assert!(via_line(r#"{"jsonrpc":"2.0","method":"notifications/initialized"}"#).is_none());
    assert!(via_line(r#"{"jsonrpc":"2.0","id":9,"result":{}}"#).is_none());
    let (_, code, _) = error_of(via_line("{not json").unwrap());
    assert_eq!(code, PARSE_ERROR);
}

#[test]
fn blank_lines_get_no_reply() {
    assert!(matches!(read_line(""), Inbound::Ignore));
    assert!(matches!(read_line("   \t "), Inbound::Ignore));
}
