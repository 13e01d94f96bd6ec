//! Tests of the source registry: dedup, the worklist, edge recording,
//! and the driving fixpoint.

use polyglot_ast::builder::build_from_source;
use polyglot_ast::context::GlobalContext;
use polyglot_ast::context::Handle;
use polyglot_ast::context::InternalHandle;
use polyglot_ast::context::SrcOrPath;
use polyglot_ast::context::TopoOrder;
use polyglot_ast::parse;
use polyglot_ast::util;
use polyglot_ast::Language;

fn fresh_ctx() -> GlobalContext {
    let root = parse("print(1)".to_string(), Language::Python);
    GlobalContext::new("samples/main.py".to_string(), root)
}

fn inline_key(lang: Language, code: &str) -> Handle {
    Handle {
        path: SrcOrPath::Source(code.to_string()),
        lang,
    }
}

fn path_key(lang: Language, path: &str) -> Handle {
    Handle {
        path: SrcOrPath::Path(path.to_string()),
        lang,
    }
}

#[test]
fn dedup_by_content() {
    // Registering the identical (language, inline-text) key twice returns
    // the same handle and grows neither the table nor the worklist.
    let mut ctx = fresh_ctx();
    let key1 = inline_key(Language::Python, "print(1)");
    let key2 = inline_key(Language::Python, "print(1)");
    let h1 = ctx.register_source(key1, parse("print(1)".to_string(), Language::Python));
    let sources_after_first = ctx.sources.len();
    let queue_after_first = ctx.queue.len();
    let h2 = ctx.register_source(key2, parse("print(1)".to_string(), Language::Python));
    assert_eq!(h1, h2);
    assert_eq!(ctx.sources.len(), sources_after_first);
    assert_eq!(ctx.queue.len(), queue_after_first);
}

#[test]
fn dedup_by_path() {
    // Two path-based registrations of the same (language, path) resolve
    // to one handle even if the call syntax that produced them differed.
    let mut ctx = fresh_ctx();
    let h1 = ctx.register_source(
        path_key(Language::JavaScript, "lib/util.js"),
        parse("console.log(1)".to_string(), Language::JavaScript),
    );
    let h2 = ctx.register_source(
        path_key(Language::JavaScript, "lib/util.js"),
        parse("console.log(1)".to_string(), Language::JavaScript),
    );
    assert_eq!(h1, h2);
    let different = ctx.register_source(
        path_key(Language::JavaScript, "lib/other.js"),
        parse("console.log(2)".to_string(), Language::JavaScript),
    );
    assert_ne!(h1, different);
}

#[test]
fn self_referential_source_terminates() {
    // A source whose eval target text equals its own source terminates:
    // the second occurrence is deduped and never re-enqueued, so the
    // fixpoint loop ends with an empty worklist.
    let inner = "print(1)";
    let ctx = build_from_source(
        "samples/self.py".to_string(),
        format!("polyglot.eval(language=\"python\", string=\"{}\")", inner),
        Language::Python,
        &Vec::new(),
    );
    assert_eq!(ctx.queue.len(), 0);
    // root plus one registered target
    assert_eq!(ctx.sources.len(), 2);
}

#[test]
fn resolve_internal_finds_registered_keys() {
    let mut ctx = fresh_ctx();
    let h = ctx.register_source(
        inline_key(Language::Java, "class A {}"),
        parse("class A {}".to_string(), Language::Java),
    );
    assert_eq!(
        ctx.resolve_internal(&inline_key(Language::Java, "class A {}")),
        Some(h)
    );
    assert_eq!(
        ctx.resolve_internal(&inline_key(Language::Python, "class A {}")),
        None
    );
}

#[test]
fn root_is_handle_zero_and_enqueued() {
    let ctx = fresh_ctx();
    assert_eq!(ctx.root, InternalHandle(0));
    assert_eq!(ctx.sources.len(), 1);
    assert_eq!(ctx.queue.len(), 1);
    assert_eq!(ctx.queue[0], InternalHandle(0));
    assert_eq!(ctx.pwd, "samples".to_string());
}

#[test]
fn set_solved_removes_only_the_given_handle() {
    let mut ctx = fresh_ctx();
    let h = ctx.register_source(
        inline_key(Language::Python, "print(2)"),
        parse("print(2)".to_string(), Language::Python),
    );
    assert_eq!(ctx.queue.len(), 2);
    ctx.set_solved(InternalHandle(0));
    assert_eq!(ctx.queue.len(), 1);
    assert_eq!(ctx.queue[0], h);
}

#[test]
fn next_partial_pops_in_lifo_order() {
    let mut ctx = fresh_ctx();
    let h = ctx.register_source(
        inline_key(Language::Python, "print(2)"),
        parse("print(2)".to_string(), Language::Python),
    );
    let (popped, raw) = ctx.next_partial_polyglot_tree().unwrap();
    assert_eq!(popped, h);
    assert_eq!(raw.language, Language::Python);
    assert_eq!(raw.source, "print(2)".to_string());
    let (popped2, _) = ctx.next_partial_polyglot_tree().unwrap();
    assert_eq!(popped2, InternalHandle(0));
    assert!(ctx.next_partial_polyglot_tree().is_none());
}

#[test]
fn add_use_keeps_edges_in_document_order() {
    let mut ctx = fresh_ctx();
    let h = ctx.register_source(
        inline_key(Language::Python, "print(2)"),
        parse("print(2)".to_string(), Language::Python),
    );
    ctx.add_use(InternalHandle(0), TopoOrder(3), h);
    ctx.add_use(InternalHandle(0), TopoOrder(7), h);
    let edges = &ctx.sources[0].2;
    assert_eq!(edges.len(), 2);
    assert!(edges[0].0 .0 < edges[1].0 .0);
}

#[test]
fn strip_quotes_removes_first_and_last_character() {
    let s = "'Hello!'";
    let stripped = util::strip_quotes(s);
    assert_eq!(stripped, String::from("Hello!"));
    let stripped_again = util::strip_quotes(stripped.as_str());
    assert_eq!(stripped_again, String::from("ello"));
    assert_eq!(util::strip_quotes(""), String::new());
    assert_eq!(util::strip_quotes("x"), String::new());
}

#[test]
fn language_tags_map_to_languages() {
    assert!(matches!(
        util::language_string_to_enum("python"),
        Ok(Language::Python)
    ));
    assert!(matches!(
        util::language_string_to_enum("js"),
        Ok(Language::JavaScript)
    ));
    assert!(matches!(
        util::language_string_to_enum("javascript"),
        Ok(Language::JavaScript)
    ));
    assert!(matches!(
        util::language_string_to_enum("java"),
        Ok(Language::Java)
    ));
    let invalid = util::language_string_to_enum("go");
    assert!(invalid.is_err());
    assert_eq!(
        invalid.unwrap_err().message(),
        "Invalid argument received".to_string()
    );
}

#[test]
fn parse_records_failure_as_absent_tree() {
    // tree-sitter is error-tolerant, so even odd text yields a tree; the
    // result always carries the language and the source back.
    let r = parse("]]]".to_string(), Language::Java);
    assert_eq!(r.language, Language::Java);
    assert_eq!(r.source, "]]]".to_string());
}

#[test]
fn parse_produces_wellformed_root() {
    let r = parse("print(1)".to_string(), Language::Python);
    let cst = r.cst.as_ref().expect("python parses");
    assert_eq!(cst.kind(0), "module");
    assert!(cst.len() > 1);
}
