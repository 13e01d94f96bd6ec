//! Tests of the driving fixpoint, the recorded use edges, and the
//! unified tree view that crosses from call sites into target sources.

use polyglot_ast::builder::build_from_source;
use polyglot_ast::builder::PolyglotAstBuilder;
use polyglot_ast::polyglot_tree::polyglot_processor::DUBuilder;
use polyglot_ast::polyglot_tree::polyglot_processor::PolyglotTreeSerializer;
use polyglot_ast::polyglot_tree::polyglot_processor::TreePrinter;
use polyglot_ast::polyglot_tree::polyglot_processor::TreePrinterGlobal;
use polyglot_ast::polyglot_tree::polyglot_zipper::Direction;
use polyglot_ast::polyglot_tree::polyglot_zipper::PolyglotZipper;
use polyglot_ast::Language;
use polyglot_ast::PolyglotTree;
use polyglot_ast::PolygotProcessor;

const TWO_EVALS: &str = r#"
public class Main {
    public static void main(String[] args) {
        cx.eval("python", "print(1)");
        cx.eval("js", "console.log(2)");
    }
}
"#;

#[test]
fn topological_ordering_of_edges() {
    // Two sequential eval calls in one source produce edges with
    // strictly increasing positions, matching source order.
    let ctx = build_from_source(
        "Main.java".to_string(),
        TWO_EVALS.to_string(),
        Language::Java,
        &Vec::new(),
    );
    assert_eq!(ctx.queue.len(), 0);
    assert_eq!(ctx.sources.len(), 3);
    let edges = &ctx.sources[0].2;
    assert_eq!(edges.len(), 2);
    assert!(edges[0].0 .0 < edges[1].0 .0);
    // the two targets carry the two target languages
    let first_target = (edges[0].1).0;
    let second_target = (edges[1].1).0;
    assert_eq!(ctx.sources[first_target].1.language, Language::Python);
    assert_eq!(ctx.sources[second_target].1.language, Language::JavaScript);
}

#[test]
fn builder_drives_to_fixpoint() {
    let b = PolyglotAstBuilder::set_entry_point("Main.java".to_string())
        .set_entry_lang(Language::Java);
    let ctx = b
        .build_with_source(TWO_EVALS.to_string(), &Vec::new())
        .expect("builds");
    assert_eq!(ctx.queue.len(), 0);
    assert_eq!(ctx.sources.len(), 3);
}

#[test]
fn path_uses_load_preloaded_files() {
    // A js source evals a Python file; the file's content is preloaded,
    // so the target registers as a parsed source under the path key.
    let code = r#"Polyglot.evalFile("python", "pyprint.py");"#;
    let files = vec![("pyprint.py".to_string(), "print('hi')".to_string())];
    let ctx = build_from_source(
        "test.js".to_string(),
        code.to_string(),
        Language::JavaScript,
        &files,
    );
    assert_eq!(ctx.sources.len(), 2);
    assert_eq!(ctx.sources[1].1.language, Language::Python);
    assert_eq!(ctx.sources[1].1.source, "print('hi')".to_string());
    assert!(ctx.sources[1].1.cst.is_some());
}

#[test]
fn missing_file_registers_as_absent_tree() {
    let code = r#"Polyglot.evalFile("python", "nowhere.py");"#;
    let ctx = build_from_source(
        "test.js".to_string(),
        code.to_string(),
        Language::JavaScript,
        &Vec::new(),
    );
    assert_eq!(ctx.sources.len(), 2);
    assert!(ctx.sources[1].1.cst.is_none());
    assert_eq!(ctx.queue.len(), 0);
}

#[test]
fn zipper_crossing_restores_position() {
    // Descending from a resolved call site yields the target's root
    // kind; ascending back restores the original handle and leaves
    // sibling navigation intact.
    let ctx = build_from_source(
        "Main.java".to_string(),
        TWO_EVALS.to_string(),
        Language::Java,
        &Vec::new(),
    );
    let call_node = (ctx.sources[0].2)[0].0 .0;
    let mut z = PolyglotZipper {
        ctx: &ctx,
        handle: 0,
        node: call_node,
        stack: Vec::new(),
    };
    assert!(z.is_polyglot_eval_call());
    assert_eq!(z.kind(), "polyglot_eval_call".to_string());
    assert!(z.goto_first_child());
    assert_eq!(z.handle, 1);
    assert_eq!(z.node, 0);
    assert_eq!(z.kind(), "module".to_string());
    assert_eq!(z.get_lang(), Language::Python);
    // ascend back across the boundary
    assert!(z.goto_parent());
    assert_eq!(z.handle, 0);
    assert_eq!(z.node, call_node);
    assert!(z.stack.is_empty());
    // subsequent sibling navigation happens in the original tree
    let sib = z.next_sibling();
    assert!(sib.is_some());
    assert_eq!(sib.unwrap().handle, 0);
}

#[test]
fn zipper_deep_crossing() {
    // The inner python source evals a js source in turn; two descents
    // and two ascents restore the root position exactly.
    let code = r#"
public class Main {
    public static void main(String[] args) {
        cx.eval("python", "polyglot.eval(language='js', string='1')");
    }
}
"#;
    let ctx = build_from_source(
        "Main.java".to_string(),
        code.to_string(),
        Language::Java,
        &Vec::new(),
    );
    assert_eq!(ctx.sources.len(), 3);
    let call_node = (ctx.sources[0].2)[0].0 .0;
    let mut z = PolyglotZipper {
        ctx: &ctx,
        handle: 0,
        node: call_node,
        stack: Vec::new(),
    };
    assert!(z.goto_first_child());
    assert_eq!(z.handle, 1);
    let inner_call = (ctx.sources[1].2)[0].0 .0;
    z.node = inner_call;
    assert!(z.goto_first_child());
    assert_eq!(z.handle, 2);
    assert_eq!(z.stack.len(), 2);
    assert!(z.goto_parent());
    assert_eq!(z.handle, 1);
    assert_eq!(z.node, inner_call);
    // walk up to the inner root, then cross back to the outer source
    while ctx.sources[1].1.cst.as_ref().unwrap().parent(z.node).is_some() {
        assert!(z.goto_parent());
    }
    assert!(z.goto_parent());
    assert_eq!(z.handle, 0);
    assert_eq!(z.node, call_node);
    assert!(z.stack.is_empty());
}

#[test]
fn tree_printer_renders_kinds_and_leaves() {
    let result = PolyglotTree::parse("print(1)".to_string(), Language::Python);
    let tree = result.tree.expect("python parses");
    let mut tp = TreePrinter::new();
    tp.process(&tree);
    let out = tp.get_result();
    assert!(out.contains("module\n"));
    assert!(out.contains("identifier : print"));
    assert!(out.contains("integer : 1"));
}

#[test]
fn serializer_marks_crossings() {
    let ctx = build_from_source(
        "Main.java".to_string(),
        TWO_EVALS.to_string(),
        Language::Java,
        &Vec::new(),
    );
    let ser = PolyglotTreeSerializer::from(&ctx);
    let out = ser.to_text();
    assert!(out.contains("==== start of inline print(1) ===="));
    assert!(out.contains("==== end of"));
    assert!(out.contains("program"));

    let mut global_printer = TreePrinterGlobal::new(&ctx);
    assert_eq!(global_printer.get_result(), "");
    let _ = global_printer.process_impl();
    assert!(global_printer.get_result().contains("==== start of"));
}

#[test]
fn tree_printer_resets_between_runs() {
    // the rendering depends only on the processed tree, not on printer
    // history: processing twice equals processing once
    let first = PolyglotTree::parse("print(1)".to_string(), Language::Python)
        .tree
        .expect("python parses");
    let second = PolyglotTree::parse("console.log(2);".to_string(), Language::JavaScript)
        .tree
        .expect("js parses");
    let mut twice = TreePrinter::new();
    twice.process(&first);
    twice.process(&second);
    let mut once = TreePrinter::new();
    once.process(&second);
    assert_eq!(twice.get_result(), once.get_result());
}

#[test]
fn du_builder_reports_unmatched_imports() {
    let mut du = DUBuilder::new();
    du.imports.push(("x".to_string(), vec![(0, 1)]));
    du.imports.push(("y".to_string(), vec![(2, 3)]));
    du.exports.push(("y".to_string(), (4, 5)));
    let warnings = du.inconsistencies();
    assert_eq!(warnings.len(), 1);
    assert_eq!(warnings[0], "Imported but not exported: x".to_string());

    let mut merged = DUBuilder::new();
    merged.update_maps(&du);
    assert_eq!(merged.get_imports().len(), 2);
    assert_eq!(merged.get_exports().len(), 1);
}

#[test]
fn root_tree_returns_the_root_source() {
    let ctx = build_from_source(
        "Main.java".to_string(),
        TWO_EVALS.to_string(),
        Language::Java,
        &Vec::new(),
    );
    let tree = ctx.root_tree().expect("root parses");
    assert_eq!(tree.language, Language::Java);
    assert_eq!(tree.code, TWO_EVALS.to_string());
    assert_eq!(tree.tree.kind(tree.root_node()).as_str(), "program");
}
