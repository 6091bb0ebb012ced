use mnemosyne::editor::{edit_description, ClojureAst, Edit, Editor, EditorError, FormKind};
use mnemosyne::editor::reader::{has_wide_u_literal, WIDE_U_LITERAL};

const GREET: &str = "(defn greet [name]\n  (str \"Hello, \" name \"!\"))";

fn apply_one(src: &str, edit: Edit) -> Result<String, EditorError> {
    Editor::new(src).apply(&[edit]).map(|r| r.source)
}

#[test]
fn replace_body_exact_text() {
    let out = apply_one(
        GREET,
        Edit::ReplaceBody { fn_name: "greet".into(), new_body: "(str \"Hi, \" name)".into() },
    )
    .unwrap();
    assert_eq!(out, "(defn greet [name]\n  (str \"Hi, \" name)\n)");
}

#[test]
fn prepend_to_body_exact_text() {
    let out = apply_one(
        GREET,
        Edit::PrependToBody { fn_name: "greet".into(), form: "(log)".into() },
    )
    .unwrap();
    assert_eq!(out, "(defn greet [name]\n  (log)\n  (str \"Hello, \" name \"!\"))");
}

#[test]
fn wrap_body_trims_the_body() {
    let out = apply_one(
        GREET,
        Edit::WrapBody {
            fn_name: "greet".into(),
            wrapper_prefix: "(do ".into(),
            wrapper_suffix: ")".into(),
        },
    )
    .unwrap();
    assert_eq!(out, "(defn greet [name]\n  (do (str \"Hello, \" name \"!\"))\n)");
}

#[test]
fn rename_exact_text() {
    let out = apply_one(
        GREET,
        Edit::Rename { old_name: "greet".into(), new_name: "welcome".into() },
    )
    .unwrap();
    assert_eq!(out, "(defn welcome [name]\n  (str \"Hello, \" name \"!\"))");
}

#[test]
fn insert_at_end_trims_trailing_whitespace() {
    let out = apply_one(
        "(defn a [] 1)\n\n  \n",
        Edit::InsertAfter { anchor: None, form: "(defn b [] 2)".into() },
    )
    .unwrap();
    assert_eq!(out, "(defn a [] 1)\n\n(defn b [] 2)");
}

#[test]
fn insert_after_anchor_exact_text() {
    let out = apply_one(
        "(defn a [] 1)\n(defn b [] 2)",
        Edit::InsertAfter { anchor: Some("a".into()), form: "(defn c [] 3)".into() },
    )
    .unwrap();
    assert_eq!(out, "(defn a [] 1)\n\n(defn c [] 3)\n(defn b [] 2)");
}

#[test]
fn rename_of_private_defn_with_metadata() {
    let out = apply_one(
        "(defn- ^:private helper [x] x)",
        Edit::Rename { old_name: "helper".into(), new_name: "aid".into() },
    )
    .unwrap();
    assert_eq!(out, "(defn- ^:private aid [x] x)");
}

#[test]
fn missing_argument_vector_is_invalid_edit() {
    let err = apply_one(
        "(defn f x)",
        Edit::ReplaceBody { fn_name: "f".into(), new_body: "1".into() },
    )
    .unwrap_err();
    match err {
        EditorError::InvalidEdit(m) => assert_eq!(m, "no argument vector in f"),
        other => panic!("unexpected {other:?}"),
    }
}

#[test]
fn unreadable_source_falls_back_to_scanning() {
    // The stray closing parenthesis makes the reader fail; the byte scan still
    // finds the balanced defn.
    let out = apply_one(
        "(defn f [x] x) )",
        Edit::ReplaceBody { fn_name: "f".into(), new_body: "y".into() },
    )
    .unwrap();
    assert_eq!(out, "(defn f [x]\n  y\n) )");
}

#[test]
fn scanning_reports_missing_argument_vector() {
    let err = apply_one(
        "(defn f x) )",
        Edit::PrependToBody { fn_name: "f".into(), form: "1".into() },
    )
    .unwrap_err();
    match err {
        EditorError::InvalidEdit(m) => assert_eq!(m, "no argument vector found in f"),
        other => panic!("unexpected {other:?}"),
    }
}

#[test]
fn scanning_skips_comments_and_strings() {
    let src = "; (defn f [a] a)\n\"(defn f [b] b)\" (defn f [c] c) )";
    let out = apply_one(src, Edit::Rename { old_name: "f".into(), new_name: "g".into() }).unwrap();
    assert_eq!(out, "; (defn f [a] a)\n\"(defn f [b] b)\" (defn g [c] c) )");
}

#[test]
fn scanning_not_found() {
    let err = apply_one("(defn f [x] x) )", Edit::Rename { old_name: "h".into(), new_name: "g".into() })
        .unwrap_err();
    assert!(matches!(err, EditorError::NotFound(n) if n == "h"));
}

#[test]
fn no_edits_leave_source_unchanged() {
    let r = Editor::new(GREET).apply(&[]).unwrap();
    assert_eq!(r.source, GREET);
    assert_eq!(r.edits_applied, 0);
}

#[test]
fn edits_apply_in_order() {
    let r = Editor::new(GREET)
        .apply(&[
            Edit::Rename { old_name: "greet".into(), new_name: "hello".into() },
            Edit::ReplaceBody { fn_name: "hello".into(), new_body: "name".into() },
        ])
        .unwrap();
    assert_eq!(r.edits_applied, 2);
    assert_eq!(r.source, "(defn hello [name]\n  name\n)");
}

#[test]
fn later_edit_failure_stops_the_batch() {
    let err = Editor::new(GREET)
        .apply(&[
            Edit::Rename { old_name: "greet".into(), new_name: "hello".into() },
            Edit::ReplaceBody { fn_name: "greet".into(), new_body: "name".into() },
        ])
        .unwrap_err();
    assert!(matches!(err, EditorError::NotFound(n) if n == "greet"));
}

#[test]
fn descriptions() {
    assert_eq!(
        edit_description(&Edit::ReplaceBody { fn_name: "f".into(), new_body: "x".into() }),
        "replace body of f"
    );
    assert_eq!(
        edit_description(&Edit::PrependToBody { fn_name: "f".into(), form: "x".into() }),
        "prepend form to f"
    );
    assert_eq!(
        edit_description(&Edit::WrapBody {
            fn_name: "f".into(),
            wrapper_prefix: "(".into(),
            wrapper_suffix: ")".into()
        }),
        "wrap body of f"
    );
    assert_eq!(
        edit_description(&Edit::Rename { old_name: "f".into(), new_name: "g".into() }),
        "rename f -> g"
    );
    assert_eq!(
        edit_description(&Edit::InsertAfter { anchor: None, form: "x".into() }),
        "insert form at end"
    );
    assert_eq!(
        edit_description(&Edit::InsertAfter { anchor: Some("f".into()), form: "x".into() }),
        "insert after f"
    );
}

#[test]
fn error_messages() {
    assert_eq!(EditorError::Parse("x".into()).message(), "parse error: x");
    assert_eq!(EditorError::NotFound("f".into()).message(), "form not found: f");
    assert_eq!(EditorError::InvalidEdit("y".into()).message(), "invalid edit: y");
}

#[test]
fn parse_reports_reader_errors() {
    let err = ClojureAst::parse("(defn f [x]").err().unwrap();
    assert!(matches!(err, EditorError::Parse(_)));
}

#[test]
fn parse_keeps_spans_and_text() {
    let src = "(ns a)\n(defn f [x] {:k x})";
    let ast = ClojureAst::parse(src).unwrap();
    assert_eq!(ast.top_level.len(), 2);
    let f = &ast.top_level[1];
    assert_eq!(f.kind, FormKind::List);
    assert_eq!(&src[f.span.start..f.span.end], f.text);
    assert_eq!(f.text, "(defn f [x] {:k x})");
    assert_eq!(f.children.len(), 4);
    assert_eq!(f.children[2].kind, FormKind::Vector);
    assert_eq!(f.children[3].kind, FormKind::MapLiteral);
    assert_eq!(f.defn_name(), Some("f"));
}

#[test]
fn find_defn_searches_top_level_forms_only() {
    let src = "(comment (defn inner [] 1))\n(defn outer [] 2)";
    let ast = ClojureAst::parse(src).unwrap();
    assert!(ast.find_defn("inner").is_none());
    assert_eq!(ast.find_defn("outer").unwrap().text, "(defn outer [] 2)");
    assert!(ast.find_defn("missing").is_none());
    assert_eq!(ast.top_level[0].find_defns().len(), 1);
}

#[test]
fn first_top_level_defn_wins() {
    let ast = ClojureAst::parse("(comment (defn f [x] x))\n(defn g [y] y)\n(defn g [z] z)").unwrap();
    assert!(ast.find_defn("f").is_none());
    assert_eq!(ast.find_defn("g").unwrap().text, "(defn g [y] y)");
}

#[test]
fn wide_unicode_char_literal_is_a_parse_error() {
    let err = ClojureAst::parse("(def c \\uabc\u{e9})").err().unwrap();
    assert_eq!(err.message(), format!("parse error: {}", WIDE_U_LITERAL));
    assert!(has_wide_u_literal("\\uabc\u{e9}"));
    assert!(!has_wide_u_literal("\\u00e9 \\newline"));
    assert!(ClojureAst::parse("(def c \\u00e9)").is_ok());
}

#[test]
fn one_source_and_one_edit_give_one_outcome() {
    let src = "(defn a [x] (inc x))\n\n(defn b [y] y)";
    let edit = Edit::Rename { old_name: "b".into(), new_name: "c".into() };
    let first = apply_one(src, edit.clone()).unwrap();
    let second = apply_one(src, edit).unwrap();
    assert_eq!(first, second);
    assert_eq!(first, "(defn a [x] (inc x))\n\n(defn c [y] y)");
}
