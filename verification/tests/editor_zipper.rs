use mnemosyne::editor::{unparse, ClojureAst, Form, FormKind, Span, Zipper};

fn parse_zip(src: &str) -> Zipper {
    let ast = ClojureAst::parse(src).unwrap();
    // Wrap top-level forms in a synthetic root so navigation works.
    let root = Form {
        kind: FormKind::List,
        span: Span {
            start: 0,
            end: src.len(),
        },
        text: src.to_owned(),
        children: ast.top_level,
    };
    Zipper::new(root, src.to_owned())
}

#[test]
fn find_defn_navigates_correctly() {
    let src = "(defn a [] 1)\n\n(defn b [] 2)\n\n(defn c [] 3)";
    let z = parse_zip(src);
    let found = z.find_defn("b").expect("should find b");
    assert_eq!(found.focus.defn_name(), Some("b"));
}

#[test]
fn find_defn_returns_none_for_missing() {
    let src = "(defn a [] 1)";
    let z = parse_zip(src);
    assert!(z.find_defn("z").is_none());
}

#[test]
fn unparse_identity() {
    let src = "(defn greet [name]\n  (str \"Hello, \" name \"!\"))";
    let ast = ClojureAst::parse(src).unwrap();
    let root = Form {
        kind: FormKind::List,
        span: Span {
            start: 0,
            end: src.len(),
        },
        text: src.to_owned(),
        children: ast.top_level,
    };
    let result = unparse(&root, src);
    assert_eq!(result, src);
}

#[test]
fn navigate_up_down_round_trips() {
    let src = "(defn add [a b] (+ a b))";
    let z = parse_zip(src);
    let down = z.down().expect("should have children");
    let back_up = down.up().expect("should go back up");
    assert_eq!(back_up.focus.kind, FormKind::List);
}

#[test]
fn sideways_moves_undo_each_other() {
    let src = "(defn a [] 1)\n(defn b [] 2)";
    let z = parse_zip(src).down().expect("first child");
    assert_eq!(z.focus.defn_name(), Some("a"));
    let z = z.right().expect("second child");
    assert_eq!(z.focus.defn_name(), Some("b"));
    assert!(z.right().is_none());
    let z = parse_zip(src).down().unwrap().right().unwrap().left().expect("back left");
    assert_eq!(z.focus.defn_name(), Some("a"));
    assert!(z.left().is_none());
}

#[test]
fn replace_then_unparse_emits_new_text_in_place() {
    let src = "(defn f [x] (inc x))";
    let z = parse_zip(src);
    let z = z.down().unwrap().down().unwrap().right().unwrap().right().unwrap().right().unwrap();
    assert_eq!(z.focus.text, "(inc x)");
    let source = z.source().to_owned();
    let root = z.replace_focus("(dec x)".to_owned()).root();
    // The replaced node's text stands in place of its span.
    assert_eq!(unparse(&root, &source), "(defn f [x] (dec x))");
}

#[test]
fn leaves_cannot_be_entered() {
    let src = "(defn f [] 1)";
    let z = parse_zip(src).down().unwrap().down().unwrap();
    assert_eq!(z.focus.text, "defn");
    assert!(z.down().is_none());
}

#[test]
fn replaced_leaf_is_substituted() {
    let src = "(f x)";
    let z = parse_zip(src).down().unwrap().down().unwrap().right().unwrap();
    assert_eq!(z.focus.text, "x");
    let source = z.source().to_owned();
    let root = z.replace_focus("y".to_owned()).root();
    assert_eq!(unparse(&root, &source), "(f y)");
}

#[test]
fn find_defn_searches_depth_first_below_the_root() {
    let z = parse_zip("(do (defn b [] 2))\n(defn c [] 3)");
    let found = z.find_defn("b").expect("nested defn is found");
    assert_eq!(found.focus.defn_name(), Some("b"));
    let z = parse_zip("(do (defn b [] 2))\n(defn b [] 3)");
    assert_eq!(z.find_defn("b").unwrap().focus.text, "(defn b [] 2)");
}

#[test]
fn replaced_subtree_is_substituted_and_the_rest_copied() {
    let src = "(a  (b c) ;; keep\n d)";
    let z = parse_zip(src).down().unwrap().down().unwrap().right().unwrap();
    assert_eq!(z.focus.text, "(b c)");
    let source = z.source().to_owned();
    let root = z.replace_focus("z".to_owned()).root();
    assert_eq!(unparse(&root, &source), "(a  z ;; keep\n d)");
}
