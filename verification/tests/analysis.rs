//! Tests of classification and resolution over real parses: the shapes
//! of polyglot call sites, local alias resolution, the builder pattern,
//! and cycle detection.

use polyglot_ast::building::java::JavaBuilder;
use polyglot_ast::building::java::DefaultRefAna;
use polyglot_ast::building::java::SolvingError;
use polyglot_ast::building::Aux;
use polyglot_ast::building::LangArg;
use polyglot_ast::building::PolyglotKind;
use polyglot_ast::building::UnSolvedPolyglotUse;
use polyglot_ast::cst::Cst;
use polyglot_ast::parse;
use polyglot_ast::polyglot_tree::polyglot_zipper::PreOrder;
use polyglot_ast::Language;

fn main_wrap(main_content: &str) -> String {
    format!(
        "{}{}{}",
        r#"import java.io.File;

        import javax.naming.Context;
        import javax.xml.transform.Source;

        import org.graalvm.polyglot.Context;
        import org.graalvm.polyglot.Value;

        public class JavaTest2 {
            public static void main(String[] args) {"#,
        main_content,
        r#"}}"#
    )
}

fn parse_java(content: &str) -> Cst {
    parse(content.to_string(), Language::Java)
        .cst
        .expect("java parses")
}

/// Finds the first node that classification accepts, with its use.
fn first_use(cst: &Cst) -> (usize, UnSolvedPolyglotUse) {
    let builder = JavaBuilder::init(cst);
    let mut i = 0;
    while i < cst.len() {
        if let Some(Ok(u)) = builder.try_compute_polyglot_use(i) {
            return (i, u);
        }
        i += 1;
    }
    panic!("no polyglot use found");
}

#[test]
fn test_preorder_implem() {
    let main_content = r#"
        Context cx = Context.create();
        cx.eval("python", "print('hello')");
        "#;
    let file_content = main_wrap(main_content);
    let cst = parse_java(&file_content);
    let mut pre_order = PreOrder::new(&cst);
    assert_eq!(cst.kind(pre_order.node()), "program");
    assert_eq!(
        pre_order.next().map(|n| cst.kind(n).as_str()),
        Some("import_declaration")
    );
}

#[test]
fn test_polyglot_use() {
    let main_content = r#"
        Context cx = Context.create();

        Builder builder = Source.newBuilder("python", new File("TestSamples/pyprint.py"));
        cx.eval(builder.build());
        "#;
    let file_content = main_wrap(main_content);
    let cst = parse_java(&file_content);
    let (poly_eval, found) = first_use(&cst);
    // the receiver of the build() call: eval's argument list, first
    // argument, its object child
    let args = cst.child(poly_eval, 3).unwrap();
    let build_call = cst.child(args, 1).unwrap();
    let expected_ref_node = cst.child(build_call, 0).unwrap();
    assert_eq!(
        found,
        UnSolvedPolyglotUse::EvalBuilder {
            call: poly_eval,
            name: expected_ref_node
        }
    );
    assert_eq!(found.get_kind(), PolyglotKind::Eval);
}

#[test]
fn direct() {
    let main_content = r#"
        Context cx = Context.create();
        cx.eval("python", "print('hello')");
        "#;
    let file_content = main_wrap(main_content);
    let cst = parse_java(&file_content);
    let (poly_eval, found) = first_use(&cst);
    let args = cst.child(poly_eval, 3).unwrap();
    let inline = cst.child(args, 3).unwrap();
    assert_eq!(
        found,
        UnSolvedPolyglotUse::EvalInline {
            call: poly_eval,
            inline,
            lang: LangArg::Value(Language::Python),
        }
    );
}

#[test]
fn direct2() {
    let main_content = r#"
        Context cx = Context.create();
        context.eval(Source.newBuilder("python", new File("TestSamples/pyprint.py")).build());
        "#;
    let file_content = main_wrap(main_content);
    let cst = parse_java(&file_content);
    let (poly_eval, found) = first_use(&cst);
    let args = cst.child(poly_eval, 3).unwrap();
    let build_call = cst.child(args, 1).unwrap();
    let expected_ref_node = cst.child(build_call, 0).unwrap();
    assert_eq!(
        found,
        UnSolvedPolyglotUse::EvalBuilder {
            call: poly_eval,
            name: expected_ref_node
        }
    );
}

#[test]
fn indirect() {
    let main_content = r#"
        Context cx = Context.create();

        Builder builder = Source.newBuilder("python", new File("TestSamples/pyprint.py"));
        context.eval(builder.build());
        "#;
    let file_content = main_wrap(main_content);
    let cst = parse_java(&file_content);
    let (poly_eval, found) = first_use(&cst);
    let args = cst.child(poly_eval, 3).unwrap();
    let build_call = cst.child(args, 1).unwrap();
    let expected_ref_node = cst.child(build_call, 0).unwrap();
    assert_eq!(
        found,
        UnSolvedPolyglotUse::EvalBuilder {
            call: poly_eval,
            name: expected_ref_node
        }
    );
    // the builder variable resolves through its declaration to the
    // newBuilder construction, which names a file
    let builder = JavaBuilder::init(&cst);
    let solved = found.solve(&builder, &DefaultRefAna).expect("resolves");
    assert_eq!(solved.language, Language::Python);
    assert_eq!(
        solved.aux,
        Aux::EvalPath {
            path: "TestSamples/pyprint.py".to_string()
        }
    );
}

#[test]
fn alias_resolution() {
    // x aliases the language tag, y aliases the code; eval(x, y)
    // resolves to inline Python code.
    let main_content = r#"
        String x = "python";
        String y = "print(1)";
        cx.eval(x, y);
        "#;
    let file_content = main_wrap(main_content);
    let cst = parse_java(&file_content);
    let (_, found) = first_use(&cst);
    let builder = JavaBuilder::init(&cst);
    let solved = found.solve(&builder, &DefaultRefAna).expect("resolves");
    assert_eq!(solved.language, Language::Python);
    assert_eq!(
        solved.aux,
        Aux::EvalSource {
            code: "print(1)".to_string()
        }
    );
}

#[test]
fn cycle_detection() {
    // a and b alias each other; resolution fails with Cyclic instead of
    // looping.
    let main_content = r#"
        String a = b;
        String b = a;
        cx.eval(a, "print(1)");
        "#;
    let file_content = main_wrap(main_content);
    let cst = parse_java(&file_content);
    let (_, found) = first_use(&cst);
    let builder = JavaBuilder::init(&cst);
    let err = found.solve(&builder, &DefaultRefAna).unwrap_err();
    assert_eq!(err, SolvingError::Cyclic);
}

#[test]
fn builder_pattern() {
    // Builder b = Source.newBuilder("js", "console.log(1)");
    // ctx.eval(b.build()) resolves to inline JavaScript code.
    let main_content = r#"
        Builder b = Source.newBuilder("js", "console.log(1)");
        ctx.eval(b.build());
        "#;
    let file_content = main_wrap(main_content);
    let cst = parse_java(&file_content);
    let (_, found) = first_use(&cst);
    let builder = JavaBuilder::init(&cst);
    let solved = found.solve(&builder, &DefaultRefAna).expect("resolves");
    assert_eq!(solved.language, Language::JavaScript);
    assert_eq!(
        solved.aux,
        Aux::EvalSource {
            code: "console.log(1)".to_string()
        }
    );
}

#[test]
fn classifier_zero_argument_eval_is_a_miss() {
    // eval() with no arguments matches no shape: classification yields
    // nothing, never panics, and the scan continues to later nodes.
    let main_content = r#"
        cx.eval();
        cx.eval("python", "print(1)");
        "#;
    let file_content = main_wrap(main_content);
    let cst = parse_java(&file_content);
    let builder = JavaBuilder::init(&cst);
    let uses = builder.find_polyglot_uses();
    assert_eq!(uses.len(), 1);
    match uses[0] {
        UnSolvedPolyglotUse::EvalInline { lang, .. } => {
            assert_eq!(lang, LangArg::Value(Language::Python));
        }
        _ => panic!("expected the two-argument eval to classify"),
    }
}

#[test]
fn invalid_language_tag_is_reported() {
    let main_content = r#"
        String t = "go";
        cx.eval(t, "print(1)");
        "#;
    let file_content = main_wrap(main_content);
    let cst = parse_java(&file_content);
    let (_, found) = first_use(&cst);
    let builder = JavaBuilder::init(&cst);
    let err = found.solve(&builder, &DefaultRefAna).unwrap_err();
    assert_eq!(err, SolvingError::LanguageTagInvalid);
}

#[test]
fn unresolvable_reference_is_reported() {
    let main_content = r#"
        cx.eval(missing, "print(1)");
        "#;
    let file_content = main_wrap(main_content);
    let cst = parse_java(&file_content);
    let (_, found) = first_use(&cst);
    let builder = JavaBuilder::init(&cst);
    let err = found.solve(&builder, &DefaultRefAna).unwrap_err();
    assert_eq!(err, SolvingError::Unresolvable);
}

#[test]
fn java_exports_are_found() {
    let main_content = r#"
        bindings.putMember("answer", fortyTwo);
        "#;
    let file_content = main_wrap(main_content);
    let cst = parse_java(&file_content);
    let builder = JavaBuilder::init(&cst);
    let defs = builder.find_polyglot_exports();
    assert_eq!(defs.len(), 1);
    let polyglot_ast::building::PolyglotDef::ExportValue { name, value } = &defs[0];
    assert_eq!(name.as_str(), "answer");
    assert_eq!(value.as_str(), "fortyTwo");
}

#[test]
fn javascript_eval_classifies() {
    let code = r#"Polyglot.eval("python", "print(42)");"#;
    let raw = parse(code.to_string(), Language::JavaScript);
    let uses = raw.compute_polyglot_stuff().expect("js parses");
    assert_eq!(uses.len(), 1);
    assert_eq!(uses[0].language, Language::Python);
    assert_eq!(
        uses[0].aux,
        Aux::EvalSource {
            code: "print(42)".to_string()
        }
    );
}

#[test]
fn javascript_eval_file_classifies() {
    let code = r#"Polyglot.evalFile("python", "pyprint.py");"#;
    let raw = parse(code.to_string(), Language::JavaScript);
    let uses = raw.compute_polyglot_stuff().expect("js parses");
    assert_eq!(uses.len(), 1);
    assert_eq!(uses[0].language, Language::Python);
    assert_eq!(
        uses[0].aux,
        Aux::EvalPath {
            path: "pyprint.py".to_string()
        }
    );
}

#[test]
fn python_eval_keywords_in_either_order() {
    let code = "polyglot.eval(language=\"js\", string=\"console.log(1)\")\n";
    let raw = parse(code.to_string(), Language::Python);
    let uses = raw.compute_polyglot_stuff().expect("python parses");
    assert_eq!(uses.len(), 1);
    assert_eq!(uses[0].language, Language::JavaScript);

    let flipped = "polyglot.eval(string=\"console.log(1)\", language=\"js\")\n";
    let raw2 = parse(flipped.to_string(), Language::Python);
    let uses2 = raw2.compute_polyglot_stuff().expect("python parses");
    assert_eq!(uses2.len(), 1);
    assert_eq!(
        uses2[0].aux,
        Aux::EvalSource {
            code: "console.log(1)".to_string()
        }
    );
}

#[test]
fn python_path_eval_classifies() {
    let code = "polyglot.eval(language=\"js\", path=\"lib.js\")\n";
    let raw = parse(code.to_string(), Language::Python);
    let uses = raw.compute_polyglot_stuff().expect("python parses");
    assert_eq!(uses.len(), 1);
    assert_eq!(
        uses[0].aux,
        Aux::EvalPath {
            path: "lib.js".to_string()
        }
    );
}

#[test]
fn visit_yields_every_node_once() {
    // The pre-order walk is complete: starting at the root it yields
    // exactly as many nodes as the tree holds.
    let main_content = r#"
        Context cx = Context.create();
        cx.eval("python", "print('hello')");
        "#;
    let file_content = main_wrap(main_content);
    let cst = parse_java(&file_content);
    let mut pre_order = PreOrder::new(&cst);
    let nodes = pre_order.visit();
    assert_eq!(nodes.len(), cst.len());
    assert_eq!(nodes[0], 0);
}
