//! The directive grammar, collision detection, anchors and emission,
//! exercised on concrete directive lists.

use macro_registry::tokens::Token;
use macro_registry::errors::CompileError;
use macro_registry::reference::{Anchor, DeclMode, resolve_reference};
use macro_registry::directive::MacroKind;
use macro_registry::sequence::compile_directives;
use macro_registry::emit::{emit_bindings, generate, resolved_path};

fn id(s: &str) -> Token {
    Token::Ident(s.to_string())
}

fn lit(s: &str) -> Token {
    Token::LitStr(s.to_string())
}

/// `head... -> ref...` as one token list.
fn directive(head: &[Token], reference: &[Token]) -> Vec<Token> {
    let mut toks: Vec<Token> = Vec::new();
    for t in head {
        toks.push(clone_tok(t));
    }
    toks.push(Token::Arrow);
    for t in reference {
        toks.push(clone_tok(t));
    }
    toks
}

fn clone_tok(t: &Token) -> Token {
    match t {
        Token::Ident(s) => Token::Ident(s.clone()),
        Token::LitStr(s) => Token::LitStr(s.clone()),
        Token::Arrow => Token::Arrow,
        Token::PathSep => Token::PathSep,
        Token::Comma => Token::Comma,
        Token::OpenParen => Token::OpenParen,
        Token::CloseParen => Token::CloseParen,
        Token::At => Token::At,
    }
}

fn join_lists(lists: &[Vec<Token>]) -> Vec<Token> {
    let mut toks: Vec<Token> = Vec::new();
    for (i, l) in lists.iter().enumerate() {
        if i > 0 {
            toks.push(Token::Comma);
        }
        for t in l {
            toks.push(clone_tok(t));
        }
    }
    toks
}

#[test]
fn resolves_use_path() {
    let toks = vec![id("use"), id("a"), Token::PathSep, id("b"), Token::PathSep, id("f")];
    let r = resolve_reference(&toks).expect("resolves");
    assert_eq!(r.path_segments, vec!["a".to_string(), "b".to_string()]);
    assert_eq!(r.leaf_symbol, "f");
    assert_eq!(r.anchor, Anchor::InScope);
    assert_eq!(r.decl_mode, DeclMode::AlreadyDeclared);
}

#[test]
fn resolves_mod_path() {
    let toks = vec![id("mod"), id("a"), Token::PathSep, id("f")];
    let r = resolve_reference(&toks).expect("resolves");
    assert_eq!(r.path_segments, vec!["a".to_string()]);
    assert_eq!(r.leaf_symbol, "f");
    assert_eq!(r.decl_mode, DeclMode::DeclareHere);
}

#[test]
fn resolves_implicit_path() {
    let toks = vec![id("a"), Token::PathSep, id("f")];
    let r = resolve_reference(&toks).expect("resolves");
    assert_eq!(r.path_segments, vec!["a".to_string()]);
    assert_eq!(r.decl_mode, DeclMode::ImplicitDeclare);
}

#[test]
fn resolves_bare_symbol() {
    let toks = vec![id("f")];
    let r = resolve_reference(&toks).expect("resolves");
    assert!(r.path_segments.is_empty());
    assert_eq!(r.leaf_symbol, "f");
    assert_eq!(r.anchor, Anchor::InScope);
    assert_eq!(r.decl_mode, DeclMode::AlreadyDeclared);
}

#[test]
fn resolves_file_anchors() {
    let current = vec![lit("hello/mod.rs"), Token::PathSep, id("hello")];
    let r = resolve_reference(&current).expect("resolves");
    assert_eq!(r.anchor, Anchor::CurrentFileRelative("hello/mod.rs".to_string()));
    assert_eq!(r.leaf_symbol, "hello");
    assert!(r.path_segments.is_empty());

    let root = vec![Token::At, lit("test/inner.rs"), Token::PathSep, id("handler")];
    let r2 = resolve_reference(&root).expect("resolves");
    assert_eq!(r2.anchor, Anchor::ProjectRootRelative("test/inner.rs".to_string()));
    assert_eq!(r2.leaf_symbol, "handler");
}

#[test]
fn resolution_is_idempotent() {
    // the same reference text twice: structurally equal results, no
    // resolver state leaks between calls
    let toks = vec![id("mod"), id("a"), Token::PathSep, id("f")];
    let r1 = resolve_reference(&toks).expect("resolves");
    let r2 = resolve_reference(&toks).expect("resolves");
    assert_eq!(r1, r2);
}

#[test]
fn rejects_unknown_shape() {
    let toks = vec![id("use"), Token::PathSep, Token::PathSep];
    assert!(matches!(resolve_reference(&toks), Err(CompileError::Grammar { .. })));
}

#[test]
fn default_name_is_leaf_symbol() {
    // `function -> foo::bar` exposes `bar`, not `foo`
    let toks = directive(&[id("function")], &[id("foo"), Token::PathSep, id("bar")]);
    let bs = compile_directives(&toks).expect("compiles");
    assert_eq!(bs.len(), 1);
    assert_eq!(bs[0].exposed_name, "bar");
    assert!(matches!(bs[0].kind, MacroKind::Function));
    assert!(bs[0].module_declaration_needed);
    assert_eq!(bs[0].call_path, vec!["foo".to_string(), "bar".to_string()]);
}

#[test]
fn derive_requires_explicit_name() {
    // a derive head with no name clause cannot compile
    let toks = directive(&[id("derive")], &[id("m"), Token::PathSep, id("func")]);
    assert!(matches!(compile_directives(&toks), Err(CompileError::MissingName { .. })));
}

#[test]
fn derive_uses_explicit_name() {
    let toks = directive(
        &[id("derive"), Token::OpenParen, id("Name"), Token::CloseParen],
        &[id("m"), Token::PathSep, id("func")],
    );
    let bs = compile_directives(&toks).expect("compiles");
    assert_eq!(bs[0].exposed_name, "Name");
    assert!(matches!(bs[0].kind, MacroKind::Derive));
}

#[test]
fn helper_attributes_are_recorded() {
    let head = vec![
        id("derive"),
        Token::OpenParen,
        id("Validate"),
        Token::Comma,
        id("attributes"),
        Token::OpenParen,
        id("required"),
        Token::Comma,
        id("length"),
        Token::Comma,
        id("range"),
        Token::CloseParen,
        Token::CloseParen,
    ];
    let toks = directive(&head, &[id("m"), Token::PathSep, id("gen")]);
    let bs = compile_directives(&toks).expect("compiles");
    assert_eq!(
        bs[0].helper_attributes,
        vec!["required".to_string(), "length".to_string(), "range".to_string()]
    );
    // the emitted entry registers all three and forwards the one payload
    let out = emit_bindings(&bs, &Vec::new()).expect("emits");
    assert!(out.contains("#[proc_macro_derive(Validate, attributes(required, length, range))]"));
    assert!(out.contains("m::gen(input)"));
}

#[test]
fn empty_attributes_clause_is_rejected() {
    let head = vec![
        id("derive"),
        Token::OpenParen,
        id("Validate"),
        Token::Comma,
        id("attributes"),
        Token::OpenParen,
        Token::CloseParen,
        Token::CloseParen,
    ];
    let toks = directive(&head, &[id("m"), Token::PathSep, id("gen")]);
    assert!(matches!(compile_directives(&toks), Err(CompileError::Grammar { .. })));
}

#[test]
fn name_collision_is_detected() {
    // two directives both declaring the exposed name `fizz`
    let a = directive(
        &[id("function"), Token::OpenParen, id("fizz"), Token::CloseParen],
        &[id("a"), Token::PathSep, id("f")],
    );
    let b = directive(
        &[id("function"), Token::OpenParen, id("fizz"), Token::CloseParen],
        &[id("b"), Token::PathSep, id("g")],
    );
    let toks = join_lists(&[a, b]);
    match compile_directives(&toks) {
        Err(CompileError::NameCollision { name }) => assert_eq!(name, "fizz"),
        other => panic!("expected a name collision, got {:?}", other),
    }
}

#[test]
fn module_collision_is_detected() {
    // two directives both declaring the module `shared`
    let a = directive(
        &[id("function"), Token::OpenParen, id("x"), Token::CloseParen],
        &[id("mod"), id("shared"), Token::PathSep, id("f")],
    );
    let b = directive(
        &[id("function"), Token::OpenParen, id("y"), Token::CloseParen],
        &[id("mod"), id("shared"), Token::PathSep, id("g")],
    );
    let toks = join_lists(&[a, b]);
    match compile_directives(&toks) {
        Err(CompileError::ModuleCollision { name }) => assert_eq!(name, "shared"),
        other => panic!("expected a module collision, got {:?}", other),
    }
}

#[test]
fn declared_module_may_be_reused_with_use() {
    // `mod shared::f` then `use shared::g` is valid
    let a = directive(
        &[id("function"), Token::OpenParen, id("x"), Token::CloseParen],
        &[id("mod"), id("shared"), Token::PathSep, id("f")],
    );
    let b = directive(
        &[id("function"), Token::OpenParen, id("y"), Token::CloseParen],
        &[id("use"), id("shared"), Token::PathSep, id("g")],
    );
    let toks = join_lists(&[a, b]);
    let bs = compile_directives(&toks).expect("compiles");
    assert_eq!(bs.len(), 2);
    assert!(bs[0].module_declaration_needed);
    assert!(!bs[1].module_declaration_needed);
}

#[test]
fn trailing_comma_is_ignored() {
    let mut toks = directive(
        &[id("function"), Token::OpenParen, id("x"), Token::CloseParen],
        &[id("a"), Token::PathSep, id("f")],
    );
    toks.push(Token::Comma);
    let bs = compile_directives(&toks).expect("compiles");
    assert_eq!(bs.len(), 1);
}

#[test]
fn empty_list_generates_nothing() {
    let toks: Vec<Token> = Vec::new();
    let out = generate(&toks, &Vec::new()).expect("generates");
    assert_eq!(out, "");
}

#[test]
fn directive_without_arrow_is_rejected() {
    let toks = vec![id("function"), id("x")];
    assert!(matches!(compile_directives(&toks), Err(CompileError::Grammar { .. })));
}

#[test]
fn function_entry_text_is_exact() {
    let toks = directive(
        &[id("function"), Token::OpenParen, id("fizz"), Token::CloseParen],
        &[id("fizzbuzz")],
    );
    let out = generate(&toks, &Vec::new()).expect("generates");
    assert_eq!(
        out,
        "#[proc_macro]\npub fn fizz(input: proc_macro::TokenStream) -> proc_macro::TokenStream {\n    fizzbuzz(input)\n}\n"
    );
}

#[test]
fn module_declaration_precedes_entry() {
    let toks = directive(&[id("function")], &[id("foo"), Token::PathSep, id("bar")]);
    let out = generate(&toks, &Vec::new()).expect("generates");
    assert_eq!(
        out,
        "mod foo;\n#[proc_macro]\npub fn bar(input: proc_macro::TokenStream) -> proc_macro::TokenStream {\n    foo::bar(input)\n}\n"
    );
}

#[test]
fn attribute_entry_forwards_both_payloads() {
    let toks = directive(
        &[id("attribute"), Token::OpenParen, id("gen_doc"), Token::CloseParen],
        &[id("attrs"), Token::PathSep, id("process")],
    );
    let out = generate(&toks, &Vec::new()).expect("generates");
    assert!(out.contains("#[proc_macro_attribute]"));
    assert!(out.contains("attrs::process(attr, item)"));
}

#[test]
fn file_anchor_without_contents_is_unresolved() {
    let toks = directive(
        &[id("function"), Token::OpenParen, id("greet"), Token::CloseParen],
        &[lit("hello/mod.rs"), Token::PathSep, id("hello")],
    );
    match generate(&toks, &vec![None]) {
        Err(CompileError::UnresolvedPath { path, anchor }) => {
            assert_eq!(path, "hello/mod.rs");
            assert_eq!(anchor, Anchor::CurrentFileRelative("hello/mod.rs".to_string()));
        },
        other => panic!("expected an unresolved path, got {:?}", other),
    }
}

#[test]
fn file_anchor_contents_become_a_private_module() {
    let toks = directive(
        &[id("function"), Token::OpenParen, id("greet"), Token::CloseParen],
        &[lit("hello/mod.rs"), Token::PathSep, id("hello")],
    );
    let contents = "pub fn hello() {}".to_string();
    let out = generate(&toks, &vec![Some(contents)]).expect("generates");
    assert_eq!(
        out,
        "mod __impl_greet {\npub fn hello() {}\n}\n#[proc_macro]\npub fn greet(input: proc_macro::TokenStream) -> proc_macro::TokenStream {\n    __impl_greet::hello(input)\n}\n"
    );
}

#[test]
fn generation_is_deterministic() {
    // one fixed directive list, two runs: byte-identical output
    let a = directive(
        &[id("function"), Token::OpenParen, id("x"), Token::CloseParen],
        &[id("a"), Token::PathSep, id("f")],
    );
    let b = directive(
        &[id("attribute"), Token::OpenParen, id("y"), Token::CloseParen],
        &[Token::At, lit("test/inner.rs"), Token::PathSep, id("g")],
    );
    let toks = join_lists(&[a, b]);
    let texts = vec![None, Some("pub fn g() {}".to_string())];
    let out1 = generate(&toks, &texts).expect("generates");
    let out2 = generate(&toks, &texts).expect("generates");
    assert_eq!(out1, out2);
}

#[test]
fn anchors_resolve_against_their_own_base() {
    let current = Anchor::CurrentFileRelative("hello/mod.rs".to_string());
    let dir = "examples/src".to_string();
    let root_a = "project_a".to_string();
    let root_b = "project_b".to_string();
    // the directive's own directory decides; the project root plays no part
    assert_eq!(resolved_path(&current, &dir, &root_a), Some("examples/src/hello/mod.rs".to_string()));
    assert_eq!(resolved_path(&current, &dir, &root_a), resolved_path(&current, &dir, &root_b));

    let rooted = Anchor::ProjectRootRelative("test/inner.rs".to_string());
    let dir_b = "elsewhere".to_string();
    // the project root decides; the directive's own directory plays no part
    assert_eq!(resolved_path(&rooted, &dir, &root_a), Some("project_a/test/inner.rs".to_string()));
    assert_eq!(resolved_path(&rooted, &dir, &root_a), resolved_path(&rooted, &dir_b, &root_a));

    assert_eq!(resolved_path(&Anchor::InScope, &dir, &root_a), None);
}

#[test]
fn full_registration_list_compiles() {
    // a registration list exercising every directive form at once
    let lists = [
        directive(&[id("function")], &[id("foo"), Token::PathSep, id("bar")]),
        directive(
            &[id("attribute"), Token::OpenParen, id("generate_documentation"), Token::CloseParen],
            &[id("attr_impl"), Token::PathSep, id("gen_doc")],
        ),
        directive(
            &[id("derive"), Token::OpenParen, id("DefaultImpl"), Token::CloseParen],
            &[id("derive_impl"), Token::PathSep, id("impl_default")],
        ),
        directive(
            &[
                id("derive"),
                Token::OpenParen,
                id("NodeTypeChecks"),
                Token::Comma,
                id("attributes"),
                Token::OpenParen,
                id("node_category"),
                Token::CloseParen,
                Token::CloseParen,
            ],
            &[id("impl_with_attributes")],
        ),
        directive(
            &[
                id("derive"),
                Token::OpenParen,
                id("Validate"),
                Token::Comma,
                id("attributes"),
                Token::OpenParen,
                id("required"),
                Token::Comma,
                id("length"),
                Token::Comma,
                id("range"),
                Token::CloseParen,
                Token::CloseParen,
            ],
            &[id("derive_multiple_attrs"), Token::PathSep, id("generate_validation")],
        ),
        directive(
            &[id("function"), Token::OpenParen, id("fizz"), Token::CloseParen],
            &[id("fizzbuzz")],
        ),
        directive(
            &[id("function"), Token::OpenParen, id("greet"), Token::CloseParen],
            &[Token::At, lit("hello.rs"), Token::PathSep, id("hello")],
        ),
        directive(
            &[id("attribute"), Token::OpenParen, id("derive_debug"), Token::CloseParen],
            &[Token::At, lit("test/inner.rs"), Token::PathSep, id("attr_derive_debug")],
        ),
        directive(
            &[id("derive"), Token::OpenParen, id("DisplayImpl"), Token::CloseParen],
            &[Token::At, lit("test/subdir/subdir.rs"), Token::PathSep, id("generate_display_impl")],
        ),
    ];
    let mut toks = join_lists(&lists);
    toks.push(Token::Comma);

    let bs = compile_directives(&toks).expect("the whole list compiles");
    let names: Vec<&str> = bs.iter().map(|b| b.exposed_name.as_str()).collect();
    assert_eq!(
        names,
        vec![
            "bar",
            "generate_documentation",
            "DefaultImpl",
            "NodeTypeChecks",
            "Validate",
            "fizz",
            "greet",
            "derive_debug",
            "DisplayImpl",
        ]
    );
    let declared: Vec<&str> = bs
        .iter()
        .filter(|b| b.module_declaration_needed)
        .map(|b| b.call_path[0].as_str())
        .collect();
    assert_eq!(declared, vec!["foo", "attr_impl", "derive_impl", "derive_multiple_attrs"]);

    let mut texts: Vec<Option<String>> = vec![None; 6];
    texts.push(Some("pub fn hello() {}".to_string()));
    texts.push(Some("pub fn attr_derive_debug() {}".to_string()));
    texts.push(Some("pub fn generate_display_impl() {}".to_string()));
    let out = generate(&toks, &texts).expect("the whole list generates");
    assert!(out.contains("mod foo;"));
    assert!(out.contains("foo::bar(input)"));
    assert!(out.contains("#[proc_macro_derive(NodeTypeChecks, attributes(node_category))]"));
    assert!(out.contains("mod __impl_greet {"));
    assert!(out.contains("__impl_derive_debug::attr_derive_debug(attr, item)"));
    assert!(out.contains("pub fn DisplayImpl(input: proc_macro::TokenStream)"));
}

#[test]
fn order_of_bindings_follows_the_list() {
    let a = directive(
        &[id("function"), Token::OpenParen, id("one"), Token::CloseParen],
        &[id("a"), Token::PathSep, id("f")],
    );
    let b = directive(
        &[id("function"), Token::OpenParen, id("two"), Token::CloseParen],
        &[id("b"), Token::PathSep, id("g")],
    );
    let toks = join_lists(&[a, b]);
    let bs = compile_directives(&toks).expect("compiles");
    assert_eq!(bs[0].exposed_name, "one");
    assert_eq!(bs[1].exposed_name, "two");
}
