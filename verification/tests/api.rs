//! Tests of the remaining public surface: getters, the consumer traits,
//! event walks, and binding-name extraction.

use polyglot_ast::building::PolyglotDef;
use polyglot_ast::building::PolyglotDefOrUse;
use polyglot_ast::building::PolyglotKind;
use polyglot_ast::building::PolyglotUse;
use polyglot_ast::building::Aux;
use polyglot_ast::builder::build_from_source;
use polyglot_ast::context::Handle;
use polyglot_ast::context::SrcOrPath;
use polyglot_ast::parse;
use polyglot_ast::polyglot_tree::polyglot_zipper::Direction;
use polyglot_ast::polyglot_tree::polyglot_zipper::PolyglotZipper;
use polyglot_ast::polyglot_tree::polyglot_zipper::PreOrder2;
use polyglot_ast::Language;
use polyglot_ast::PolyStuff;
use polyglot_ast::PolyBuilder;
use polyglot_ast::PolyglotTree;
use polyglot_ast::TreePrinter;

#[test]
fn polyglot_use_accessors() {
    let u = PolyglotUse {
        aux: Aux::EvalSource {
            code: "print(1)".to_string(),
        },
        language: Language::Python,
        position: 7,
    };
    assert_eq!(u.get_kind(), PolyglotKind::Eval);
    assert_eq!(u.lang(), Language::Python);
    assert_eq!(u.source(), Some(&"print(1)".to_string()));
    assert_eq!(u.path(), None);
    assert_eq!(u.position().0, 7);

    let p = PolyglotUse {
        aux: Aux::EvalPath {
            path: "a.py".to_string(),
        },
        language: Language::Python,
        position: 9,
    };
    assert_eq!(p.get_kind(), PolyglotKind::Eval);
    assert_eq!(p.path(), Some(&"a.py".to_string()));
    assert_eq!(p.source(), None);

    let d = PolyglotDef::ExportValue {
        name: "x".to_string(),
        value: "1".to_string(),
    };
    assert_eq!(d.get_kind(), PolyglotKind::Export);
    let wrapped = PolyglotDefOrUse::from(u);
    assert_eq!(wrapped.get_kind(), PolyglotKind::Eval);
    assert_eq!(PolyglotDefOrUse::Def(d).get_kind(), PolyglotKind::Export);
}

#[test]
fn direction_is_down() {
    assert!(Direction::Down.is_down());
    assert!(!Direction::Up.is_down());
}

#[test]
fn preorder2_yields_down_and_up_events() {
    let raw = parse("print(1)".to_string(), Language::Python);
    let cst = raw.cst.as_ref().unwrap();
    let mut walker = PreOrder2::new(cst);
    let first = walker.next().unwrap();
    assert_eq!(first.0, Direction::Down);
    assert_eq!(first.1, 0);
    let mut downs = 0;
    let mut ups = 0;
    while let Some((dir, _)) = walker.next() {
        match dir {
            Direction::Down => downs += 1,
            Direction::Up => ups += 1,
        }
    }
    // every node is entered once and left once
    assert_eq!(downs + 1, ups);
    assert_eq!(ups, cst.len());
}

#[test]
fn preorder2_skip_subtree_drops_children() {
    let raw = parse("print(1)".to_string(), Language::Python);
    let cst = raw.cst.as_ref().unwrap();
    let mut walker = PreOrder2::new(cst);
    let (dir, n) = walker.next().unwrap();
    assert!(dir.is_down());
    walker.skip_subtree();
    // the next event leaves the entered node: its subtree was skipped
    assert_eq!(walker.next(), Some((Direction::Up, n)));
    assert_eq!(walker.next(), None);
}

#[test]
fn poly_builder_returns_ordered_uses() {
    let code = r#"
public class Main {
    public static void main(String[] args) {
        cx.eval("python", "print(1)");
        cx.eval("js", "console.log(2)");
    }
}
"#;
    let raw = parse(code.to_string(), Language::Java);
    let cst = raw.cst.as_ref().unwrap();
    let builder = polyglot_ast::building::java::JavaBuilder::init(cst);
    let uses = builder.polyglot_stuff();
    assert_eq!(uses.len(), 2);
    assert!(uses[0].position < uses[1].position);
    assert_eq!(uses[0].language, Language::Python);
    assert_eq!(uses[1].language, Language::JavaScript);
}

#[test]
fn tree_printer_through_apply() {
    let result = PolyglotTree::parse("print(1)".to_string(), Language::Python);
    let tree = result.tree().as_ref().expect("python parses");
    let mut tp = TreePrinter::new();
    tree.apply(&mut tp);
    assert!(tp.get_result().contains("call"));
    assert_eq!(tree.node_to_code(tree.root_node()), "print(1)");
}

#[test]
fn zipper_reports_import_and_export_calls() {
    let code = "x = polyglot.import_value(\"shared\")\npolyglot.export_value(\"mine\", x)\n";
    let ctx = build_from_source(
        "im.py".to_string(),
        code.to_string(),
        Language::Python,
        &Vec::new(),
    );
    let cst = ctx.sources[0].1.cst.as_ref().unwrap();
    let mut import_node = None;
    let mut export_node = None;
    for i in 0..cst.len() {
        let z = PolyglotZipper {
            ctx: &ctx,
            handle: 0,
            node: i,
            stack: Vec::new(),
        };
        if z.is_polyglot_import_call() {
            import_node = Some(i);
        }
        if z.is_polyglot_export_call() {
            export_node = Some(i);
        }
    }
    let zi = PolyglotZipper {
        ctx: &ctx,
        handle: 0,
        node: import_node.expect("import found"),
        stack: Vec::new(),
    };
    assert_eq!(zi.get_binding_name(), Ok("shared".to_string()));
    assert_eq!(zi.kind(), "polyglot_import_call".to_string());
    let ze = PolyglotZipper {
        ctx: &ctx,
        handle: 0,
        node: export_node.expect("export found"),
        stack: Vec::new(),
    };
    assert_eq!(ze.get_binding_name(), Ok("mine".to_string()));
    assert_eq!(ze.kind(), "polyglot_export_call".to_string());
    // a node that is neither import nor export has no binding name
    let zr = PolyglotZipper {
        ctx: &ctx,
        handle: 0,
        node: 0,
        stack: Vec::new(),
    };
    assert!(zr.get_binding_name().is_err());
}

#[test]
fn context_get_by_key() {
    let code = r#"
public class Main {
    public static void main(String[] args) {
        cx.eval("python", "print(1)");
    }
}
"#;
    let ctx = build_from_source(
        "Main.java".to_string(),
        code.to_string(),
        Language::Java,
        &Vec::new(),
    );
    let key = Handle {
        path: SrcOrPath::Source("print(1)".to_string()),
        lang: Language::Python,
    };
    let tree = ctx.get(&key).expect("registered target");
    assert_eq!(tree.language, Language::Python);
    assert_eq!(tree.code, "print(1)".to_string());
    let missing = Handle {
        path: SrcOrPath::Source("print(2)".to_string()),
        lang: Language::Python,
    };
    assert!(ctx.get(&missing).is_none());
}

#[test]
fn zipper_positions_and_code() {
    let raw_code = "print(1)".to_string();
    let ctx = build_from_source("p.py".to_string(), raw_code, Language::Python, &Vec::new());
    let z = PolyglotZipper::new(&ctx).expect("root parses");
    assert_eq!(z.code(), "print(1)".to_string());
    assert_eq!(z.start_position(), 0);
    assert_eq!(z.end_position(), 8);
    assert_eq!(z.get_lang(), Language::Python);
    let child = z.child(0).expect("root has a child");
    assert!(child.node > 0);
}
