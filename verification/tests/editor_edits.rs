use mnemosyne::editor::{Edit, Editor, EditorError};

fn apply(src: &str, edit: Edit) -> String {
    Editor::new(src).apply(&[edit]).unwrap().source
}

const GREET: &str = "(defn greet [name]\n  (str \"Hello, \" name \"!\"))";

#[test]
fn replace_body() {
    let result = apply(
        GREET,
        Edit::ReplaceBody {
            fn_name: "greet".into(),
            new_body: "(str \"Hi, \" name)".into(),
        },
    );
    assert!(result.contains("(str \"Hi, \" name)"), "{result}");
    assert!(result.contains("[name]"), "{result}");
}

#[test]
fn prepend_to_body() {
    let result = apply(
        GREET,
        Edit::PrependToBody {
            fn_name: "greet".into(),
            form: "(println \"calling greet\")".into(),
        },
    );
    assert!(result.contains("(println \"calling greet\")"), "{result}");
    assert!(result.contains("(str \"Hello, \" name"), "{result}");
}

#[test]
fn wrap_body() {
    let result = apply(
        GREET,
        Edit::WrapBody {
            fn_name: "greet".into(),
            wrapper_prefix: "(do ".into(),
            wrapper_suffix: ")".into(),
        },
    );
    assert!(result.contains("(do "), "{result}");
    assert!(result.contains("(str \"Hello, \" name"), "{result}");
}

#[test]
fn rename() {
    let result = apply(
        GREET,
        Edit::Rename {
            old_name: "greet".into(),
            new_name: "welcome".into(),
        },
    );
    assert!(result.contains("defn welcome"), "{result}");
    assert!(!result.contains("defn greet"), "{result}");
}

#[test]
fn insert_after_anchor_none() {
    let result = apply(
        GREET,
        Edit::InsertAfter {
            anchor: None,
            form: "(defn bye [name] \"Bye!\")".into(),
        },
    );
    assert!(result.contains("defn greet"), "{result}");
    assert!(result.contains("defn bye"), "{result}");
    assert!(result.rfind("defn bye").unwrap() > result.rfind("defn greet").unwrap());
}

#[test]
fn insert_after_anchor_some() {
    let src = "(defn a [] 1)\n\n(defn b [] 2)";
    let result = apply(
        src,
        Edit::InsertAfter {
            anchor: Some("a".into()),
            form: "(defn c [] 3)".into(),
        },
    );
    let pos_a = result.find("defn a").unwrap();
    let pos_c = result.find("defn c").unwrap();
    let pos_b = result.find("defn b").unwrap();
    assert!(pos_a < pos_c && pos_c < pos_b, "{result}");
}

#[test]
fn not_found_returns_error() {
    let err = Editor::new(GREET)
        .apply(&[Edit::ReplaceBody {
            fn_name: "nope".into(),
            new_body: "x".into(),
        }])
        .unwrap_err();
    assert!(matches!(err, EditorError::NotFound(_)));
}

#[test]
fn defn_inside_string_not_matched() {
    let src = "(def docs \"(defn fake [x] x)\")\n(defn real [x] x)";
    let result = apply(
        src,
        Edit::Rename {
            old_name: "real".into(),
            new_name: "actual".into(),
        },
    );
    assert!(result.contains("defn actual"), "{result}");
    assert!(result.contains("(defn fake [x] x)"), "{result}");
}

#[test]
fn multiarity_replace_body() {
    let src = "(defn add\n  ([x] x)\n  ([x y] (+ x y)))";
    let result = apply(
        src,
        Edit::ReplaceBody {
            fn_name: "add".into(),
            new_body: "nil".into(),
        },
    );
    // The new body replaces everything between the first args vec and defn end.
    assert!(result.contains("nil"), "{result}");
    assert!(result.contains("defn add"), "{result}");
}
