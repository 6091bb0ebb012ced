use mnemosyne::execution::value::ClojureValue as V;
use mnemosyne::core_functions::error::CoreError;
use mnemosyne::core_functions::registry::{FunctionRegistry, FunctionTemplate};
use mnemosyne::execution::error::ExecutionError;
use mnemosyne::interface::backend::{choose_backend, BackendChoice, NO_BACKEND};
use mnemosyne::execution::shell_native::{entry_name, entry_name_from};
use mnemosyne::mcp_server::args::{parse_args, ArgsOutcome, USAGE};
use mnemosyne::search::query::{result_key, stored_function, IndexedFunction, SearchQuery};
use mnemosyne::storage::repo::{signature_status, CommitAuthor, FileEntry};
use std::path::PathBuf;

fn template(ns: &str, name: &str, slots: &[&str]) -> FunctionTemplate {
    FunctionTemplate {
        ns: ns.to_owned(),
        name: name.to_owned(),
        docstring: None,
        slots: slots.iter().map(|s| s.to_string()).collect(),
        source: format!("(defn {name} [])"),
    }
}

#[test]
fn registry_get_after_register() {
    let mut reg = FunctionRegistry::new();
    assert!(reg.get("t/retry").is_none());
    reg.register(template("t", "retry", &["f"]));
    assert_eq!(reg.get("t/retry").unwrap().name, "retry");
    assert!(reg.get("t/other").is_none());
}

#[test]
fn registry_register_replaces_same_name() {
    let mut reg = FunctionRegistry::default();
    reg.register(template("t", "retry", &[]));
    let mut newer = template("t", "retry", &["f"]);
    newer.source = "(defn retry [f])".to_owned();
    reg.register(newer);
    assert_eq!(reg.get("t/retry").unwrap().source, "(defn retry [f])");
    assert_eq!(reg.all_templates().len(), 1);
}

#[test]
fn registry_templates_are_those_with_slots() {
    let mut reg = FunctionRegistry::new();
    reg.register(template("core", "inc2", &[]));
    reg.register(template("t", "pipeline", &["steps"]));
    reg.register(template("t", "retry", &["f", "n"]));
    let names: Vec<&str> = reg.all_templates().iter().map(|t| t.name.as_str()).collect();
    assert_eq!(names, vec!["pipeline", "retry"]);
}

#[test]
fn search_query_defaults_and_limit() {
    let q = SearchQuery::new("merge maps");
    assert_eq!(q.text, "merge maps");
    assert_eq!(q.limit, 10);
    let q = q.with_limit(3);
    assert_eq!(q.limit, 3);
    assert_eq!(q.text, "merge maps");
}

#[test]
fn result_key_joins_repo_and_name() {
    let f = IndexedFunction {
        repo: "core".into(),
        file_path: "src/core.clj".into(),
        name: "deep-merge".into(),
        docstring: None,
        body: String::new(),
    };
    assert_eq!(result_key(&f), "core:deep-merge");
}

#[test]
fn content_str_reads_utf8_only() {
    let ok = FileEntry { path: PathBuf::from("a.clj"), content: "(ns a) ; é".as_bytes().to_vec() };
    assert_eq!(ok.content_str(), Some("(ns a) ; é"));
    let bad = FileEntry { path: PathBuf::from("b.bin"), content: vec![0x66, 0xff, 0x00] };
    assert_eq!(bad.content_str(), None);
}

#[test]
fn commit_author_default() {
    let a = CommitAuthor::default();
    assert_eq!(a.name, "Mnemosyne");
    assert_eq!(a.email, "mnemosyne@local");
}

#[test]
fn signature_status_reads_gnupg_lines() {
    let text = "gpg: Signature made today\r\n\
                [GNUPG:] NEWSIG\n\
                [GNUPG:] GOODSIG ABCDEF Some One <one@example.org>\n\
                [GNUPG:] VALIDSIG FP1234 2024-01-01 1700000000\n\
                not a status line VALIDSIG X Y\n";
    assert_eq!(signature_status(text), (Some("FP1234".to_owned()), true));
}

#[test]
fn signature_status_last_verdict_wins() {
    let text = "[GNUPG:] GOODSIG A B\n[GNUPG:] BADSIG A B\n";
    assert_eq!(signature_status(text), (None, false));
    assert_eq!(signature_status(""), (None, false));
    assert_eq!(signature_status("[GNUPG:]   GOODSIG\tA   B"), (None, true));
}

#[test]
fn entry_names() {
    assert_eq!(entry_name("/tmp/dir/file.txt"), "file.txt");
    assert_eq!(entry_name("/"), "/");
    assert_eq!(entry_name_from("/x/..", None), "/x/..");
    assert_eq!(entry_name_from("/x/y", Some("y".to_owned())), "y");
}

#[test]
fn error_texts() {
    assert_eq!(ExecutionError::Eval("boom".into()).message(), "eval error: boom");
    assert_eq!(
        ExecutionError::Parse { location: "<repl>".into(), message: "eof".into() }.message(),
        "parse error at <repl>: eof"
    );
    assert_eq!(ExecutionError::Timeout.message(), "timeout");
    assert_eq!(CoreError::NotFound("f".into()).message(), "function not found: f");
    assert_eq!(
        CoreError::Execution(ExecutionError::Uninitialized).message(),
        "execution error: runtime not initialized"
    );
    let serde_err = serde_json::from_str::<serde_json::Value>("{").unwrap_err();
    assert!(ExecutionError::Serde(serde_err).message().starts_with("serialization error: "));
}

fn strings(args: &[&str]) -> Vec<String> {
    args.iter().map(|a| a.to_string()).collect()
}

#[test]
fn server_args() {
    match parse_args(&strings(&[]), "./.mnemosyne").unwrap() {
        ArgsOutcome::Run(a) => {
            assert_eq!(a.data_dir, "./.mnemosyne");
            assert!(!a.file_io && !a.network && !a.async_enabled && !a.allow_all);
        }
        other => panic!("unexpected {other:?}"),
    }
    match parse_args(&strings(&["--data-dir", "/d", "--allow-file-io", "--minimal-runtime"]), "x")
        .unwrap()
    {
        ArgsOutcome::Run(a) => {
            assert_eq!(a.data_dir, "/d");
            assert!(a.file_io && a.async_enabled && !a.network && a.minimal_runtime);
        }
        other => panic!("unexpected {other:?}"),
    }
    match parse_args(&strings(&["--allow-network", "--allow-all"]), "x").unwrap() {
        ArgsOutcome::Run(a) => assert!(a.allow_all && !a.network),
        other => panic!("unexpected {other:?}"),
    }
    assert!(matches!(parse_args(&strings(&["-h"]), "x").unwrap(), ArgsOutcome::Help));
    assert!(matches!(parse_args(&strings(&["--version"]), "x").unwrap(), ArgsOutcome::Version));
    assert_eq!(
        parse_args(&strings(&["--data-dir"]), "x").unwrap_err(),
        "--data-dir requires a path"
    );
    assert_eq!(
        parse_args(&strings(&["--bogus"]), "x").unwrap_err(),
        format!("unknown argument: --bogus\n\n{USAGE}")
    );
}

#[test]
fn stored_documents_read_back_as_functions() {
    let f = stored_function(Some("r"), Some("src/a.clj"), Some("a"), Some("Adds."), Some("(defn a [])"));
    assert_eq!(f.repo, "r");
    assert_eq!(f.file_path, "src/a.clj");
    assert_eq!(f.name, "a");
    assert_eq!(f.docstring.as_deref(), Some("Adds."));
    assert_eq!(f.body, "(defn a [])");
    let bare = stored_function(None, None, Some("b"), Some(""), None);
    assert_eq!(bare.repo, "");
    assert_eq!(bare.docstring, None);
    assert_eq!(bare.body, "");
    assert_eq!(stored_function(None, None, None, None, None).docstring, None);
}

#[test]
fn backend_choice() {
    match choose_backend(Some("http://localhost:11434/v1".into()), None).unwrap() {
        BackendChoice::OpenAiCompat { base_url, api_key } => {
            assert_eq!(base_url, "http://localhost:11434/v1");
            assert_eq!(api_key, "local");
        }
        other => panic!("unexpected {other:?}"),
    }
    match choose_backend(Some("http://h/v1".into()), Some("k".into())).unwrap() {
        BackendChoice::OpenAiCompat { api_key, .. } => assert_eq!(api_key, "k"),
        other => panic!("unexpected {other:?}"),
    }
    match choose_backend(None, Some("sk".into())).unwrap() {
        BackendChoice::Anthropic { api_key } => assert_eq!(api_key, "sk"),
        other => panic!("unexpected {other:?}"),
    }
    let err = choose_backend(None, None).unwrap_err();
    assert_eq!(err, NO_BACKEND);
    assert!(err.starts_with("no LLM backend configured"));
}

#[test]
fn clojure_values_print_as_clojure_shows_them() {
    assert_eq!(V::Nil.to_text(), "nil");
    assert_eq!(V::Bool(true).to_text(), "true");
    assert_eq!(V::Bool(false).to_text(), "false");
    assert_eq!(V::Int(0).to_text(), "0");
    assert_eq!(V::Int(-42).to_text(), "-42");
    assert_eq!(V::Int(1234567890).to_text(), "1234567890");
    assert_eq!(V::Int(i64::MIN).to_text(), "-9223372036854775808");
    assert_eq!(V::Int(i64::MAX).to_text(), "9223372036854775807");
    assert_eq!(V::Float("1.5".to_owned()).to_text(), "1.5");
    assert_eq!(V::String("a\"b\n".to_owned()).to_text(), "\"a\\\"b\\n\"");
    assert_eq!(V::Keyword("k".to_owned()).to_text(), ":k");
    assert_eq!(V::Symbol("inc".to_owned()).to_text(), "inc");
    assert_eq!(
        V::List(vec![V::Int(1), V::Symbol("x".to_owned())]).to_text(),
        "(1 x)"
    );
    assert_eq!(V::Vector(vec![]).to_text(), "[]");
    assert_eq!(
        V::HashMap(vec![
            (V::Keyword("a".to_owned()), V::Int(1)),
            (V::Keyword("b".to_owned()), V::Vector(vec![V::Nil, V::Bool(true)])),
        ])
        .to_text(),
        "{:a 1, :b [nil true]}"
    );
    assert_eq!(V::HashSet(vec![V::Int(1), V::Int(2)]).to_text(), "#{1 2}");
    assert_eq!(V::Opaque { tag: "fn".to_owned() }.to_text(), "#<fn>");
}

#[test]
fn only_nil_and_false_are_falsey() {
    assert!(!V::Nil.is_truthy());
    assert!(!V::Bool(false).is_truthy());
    assert!(V::Bool(true).is_truthy());
    assert!(V::Int(0).is_truthy());
    assert!(V::Vector(vec![]).is_truthy());
}
