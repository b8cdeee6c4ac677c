use std::rc::Rc;
use syntax_explorer::app::{App, StartupError};
use syntax_explorer::language::{DetectionError, SourceLanguage};
use syntax_explorer::node_handle::NodeHandle;
use syntax_explorer::parse::{
    grammar, grammar_outcome, import_node, import_tree, parse, tree_outcome, GrammarRefusal,
    ParseError, NEWEST_ABI, OLDEST_ABI,
};
use syntax_explorer::tree::SyntaxNode;

fn kinds(node: &SyntaxNode) -> Vec<&str> {
    node.children.iter().map(|child| child.kind.as_str()).collect()
}

#[test]
fn json_is_parsed_into_a_tree() {
    let code = b"[1, \"a\"]".to_vec();
    let tree = parse(&code, &grammar(SourceLanguage::Json).unwrap()).unwrap();
    let root = tree.root();
    assert_eq!(root.kind, "document");
    assert_eq!(root.span.start_byte, 0);
    assert_eq!(root.span.end_byte, 8);
    assert_eq!((root.span.start_row, root.span.start_column), (0, 0));
    assert_eq!((root.span.end_row, root.span.end_column), (0, 8));
    assert_eq!(kinds(root), vec!["array"]);

    let array = &root.children[0];
    assert_eq!(kinds(array), vec!["[", "number", ",", "string", "]"]);
    let number = &array.children[1];
    assert_eq!((number.span.start_byte, number.span.end_byte), (1, 2));
    assert_eq!(number.child_count(), 0);
    let string = &array.children[3];
    assert_eq!((string.span.start_byte, string.span.end_byte), (4, 7));
    assert_eq!((string.span.start_row, string.span.start_column), (0, 4));
    assert_eq!(kinds(string), vec!["\"", "string_content", "\""]);
}

#[test]
fn rows_of_a_parsed_file() {
    let code = b"{\n  \"k\": true\n}".to_vec();
    let tree = parse(&code, &grammar(SourceLanguage::Json).unwrap()).unwrap();
    let end = tree.root().span;
    assert_eq!((end.end_row, end.end_column), (2, 1));
    assert_eq!(end.end_byte, code.len());
    let app = App::with_tree(code, tree);
    let frame = app.draw(u16::MAX);
    let shown: Vec<&str> = frame.lines.iter().map(|line| line.kind.as_str()).collect();
    assert_eq!(
        shown,
        vec![
            "document",
            "object",
            "{",
            "pair",
            "string",
            "\"",
            "string_content",
            "\"",
            ":",
            "true",
            "}"
        ]
    );
    assert_eq!(frame.lines[6].text, Some(b"\"k\"".to_vec()));
    assert_eq!(frame.lines[6].depth, 4);
}

#[test]
fn identities_of_a_parsed_tree_are_distinct() {
    let code = b"[[1, 2], [3, [4]], {\"a\": [5]}]".to_vec();
    let tree = parse(&code, &grammar(SourceLanguage::Json).unwrap()).unwrap();
    let root = NodeHandle::new(Rc::new(tree));
    let array = root.child(0).unwrap();
    let mut seen = vec![root.id(), array.id()];
    let mut index = 0;
    while let Some(child) = array.child(index) {
        assert!(!seen.contains(&child.id()));
        assert_eq!(child.parent().unwrap().id(), array.id());
        seen.push(child.id());
        index += 1;
    }
    assert_eq!(index, 7);
}

#[test]
fn import_takes_the_tree_of_tree_sitter_as_it_is() {
    let mut parser = tree_sitter::Parser::new();
    parser.set_language(&grammar(SourceLanguage::Json).unwrap()).unwrap();
    let code = "{\"a\": [1, null]}";
    let parsed = parser.parse(code, None).unwrap();
    let root = parsed.root_node();
    let imported = import_node(&root);
    assert_eq!(imported.id, root.id());
    assert_eq!(imported.kind, root.kind());
    assert_eq!(imported.children.len(), root.child_count() as usize);
    let object = root.child(0).unwrap();
    assert_eq!(imported.children[0].id, object.id());
    assert_eq!(imported.children[0].kind, "object");
    let pair = object.child(1).unwrap();
    assert_eq!(imported.children[0].children[1].id, pair.id());
    assert_eq!(imported.children[0].children[1].span.start_byte, pair.start_byte());
    assert_eq!(imported.children[0].children[1].span.end_byte, pair.end_byte());
    assert_eq!(imported.children[0].children[1].children.len(), pair.child_count() as usize);

    let tree = import_tree(&parsed).unwrap();
    assert_eq!(tree.root().id, root.id());
    assert_eq!(tree.root().span.end_byte, code.len());
}

#[test]
fn every_built_in_grammar_parses() {
    let cases = vec![
        (SourceLanguage::Go, "package main\n", "source_file"),
        (SourceLanguage::Java, "class A {}\n", "program"),
        (SourceLanguage::JavaScript, "let a = 1;\n", "program"),
        (SourceLanguage::Json, "{}\n", "document"),
        (SourceLanguage::Rust, "fn main() {}\n", "source_file"),
        (SourceLanguage::Tsx, "const a = <b/>;\n", "program"),
        (SourceLanguage::TypeScript, "let a: number = 1;\n", "program"),
    ];
    for (language, code, root_kind) in cases {
        let grammar = grammar(language).unwrap();
        let tree = parse(&code.as_bytes().to_vec(), &grammar).unwrap();
        assert_eq!(tree.root().kind, root_kind);
        assert!(tree.root().child_count() > 0);
    }
}

#[test]
fn grammars_differ() {
    let code = b"fn main() {}\n".to_vec();
    let rust = parse(&code, &grammar(SourceLanguage::Rust).unwrap()).unwrap();
    let go = parse(&code, &grammar(SourceLanguage::Go).unwrap()).unwrap();
    assert_eq!(rust.root().children[0].kind, "function_item");
    assert_ne!(go.root().children[0].kind, "function_item");
}

#[test]
fn just_has_no_built_in_grammar() {
    assert!(grammar(SourceLanguage::Just).is_none());
}

#[test]
fn session_starts_from_a_file_name_and_its_code() {
    let app = App::new("notes/data.JSON", b"[1]".to_vec(), None).unwrap();
    assert_eq!(app.cursor().node().kind, "document");
    assert_eq!(app.scroll_offset(), 0);
    assert_eq!(app.selected_id(), None);
    assert_eq!(app.draw(u16::MAX).lines.len(), 5);
}

#[test]
fn unknown_extension_fails_startup() {
    let result = App::new("notes.xyz", b"a = 1\n# note".to_vec(), None);
    assert!(matches!(result, Err(StartupError::Language(DetectionError::Undetected))));
}

#[test]
fn startup_without_a_grammar_fails() {
    assert!(matches!(App::new("justfile", b"a := 1\n".to_vec(), None), Err(StartupError::Grammar)));
    assert!(matches!(App::new("x.just", b"a := 1\n".to_vec(), None), Err(StartupError::Grammar)));
}

#[test]
fn refused_grammar_ends_parsing() {
    assert_eq!(grammar_outcome(Ok(())), Ok(()));
    assert_eq!(
        grammar_outcome(Err(tree_sitter::LanguageError::Version(1))),
        Err(ParseError::Grammar(GrammarRefusal::Version(1)))
    );
    assert_eq!(
        grammar_outcome(Err(tree_sitter::LanguageError::Version(99))),
        Err(ParseError::Grammar(GrammarRefusal::Version(99)))
    );
    assert_eq!(
        grammar_outcome(Err(tree_sitter::LanguageError::NotParseable)),
        Err(ParseError::Grammar(GrammarRefusal::NotParseable))
    );
    assert_eq!(
        ParseError::Grammar(GrammarRefusal::NotParseable).message(),
        "Failed to load grammar"
    );
}

#[test]
fn missing_tree_ends_parsing() {
    assert!(matches!(tree_outcome(None), Err(ParseError::NoTree)));
}

#[test]
fn parser_without_a_grammar_gives_no_tree() {
    let mut parser = tree_sitter::Parser::new();
    let parsed = parser.parse("[1]", None);
    assert!(parsed.is_none());
    assert!(matches!(tree_outcome(parsed), Err(ParseError::NoTree)));
}

#[test]
fn tree_of_tree_sitter_is_taken_over() {
    let mut parser = tree_sitter::Parser::new();
    parser.set_language(&grammar(SourceLanguage::Json).unwrap()).unwrap();
    let parsed = parser.parse("[1, 2]", None).unwrap();
    let root_id = parsed.root_node().id();
    let first_id = parsed.root_node().child(0).unwrap().id();
    let tree = tree_outcome(Some(parsed)).unwrap();
    assert_eq!(tree.root().id, root_id);
    assert_eq!(tree.root().kind, "document");
    assert_eq!(tree.root().children[0].id, first_id);
    assert_eq!(tree.root().children[0].children.len(), 5);
}

fn has_kind(node: &SyntaxNode, kind: &str) -> bool {
    node.kind == kind || node.children.iter().any(|child| has_kind(child, kind))
}

fn parses_to(language: SourceLanguage, code: &str, kind: &str) -> bool {
    let tree = parse(&code.as_bytes().to_vec(), &grammar(language).unwrap()).unwrap();
    has_kind(tree.root(), kind)
}

#[test]
fn built_in_grammars_are_named_as_tree_sitter_names_them() {
    let name = |language: SourceLanguage| {
        grammar(language).unwrap().name().map(|name| name.to_string())
    };
    assert_eq!(name(SourceLanguage::Go), Some("go".to_string()));
    assert_eq!(name(SourceLanguage::JavaScript), Some("javascript".to_string()));
    assert_eq!(name(SourceLanguage::Rust), Some("rust".to_string()));
    assert_eq!(name(SourceLanguage::Java), None);
    assert_eq!(name(SourceLanguage::Json), None);
    assert_eq!(name(SourceLanguage::Tsx), None);
    assert_eq!(name(SourceLanguage::TypeScript), None);
}

#[test]
fn built_in_grammars_have_their_numbers_of_node_kinds() {
    let count = |language: SourceLanguage| grammar(language).unwrap().node_kind_count();
    assert_eq!(count(SourceLanguage::Go), 219);
    assert_eq!(count(SourceLanguage::Java), 321);
    assert_eq!(count(SourceLanguage::JavaScript), 265);
    assert_eq!(count(SourceLanguage::Json), 25);
    assert_eq!(count(SourceLanguage::Rust), 355);
    assert_eq!(count(SourceLanguage::Tsx), 400);
    assert_eq!(count(SourceLanguage::TypeScript), 383);
}

#[test]
fn java_is_not_parsed_as_javascript() {
    let code = "class A { int x; }\n";
    assert!(parses_to(SourceLanguage::Java, code, "field_declaration"));
    assert!(!parses_to(SourceLanguage::JavaScript, code, "field_declaration"));
    let code = "let a = 1;\n";
    assert!(parses_to(SourceLanguage::JavaScript, code, "lexical_declaration"));
    assert!(!parses_to(SourceLanguage::Java, code, "lexical_declaration"));
}

#[test]
fn tsx_is_not_parsed_as_typescript() {
    let code = "const a = <b/>;\n";
    assert!(parses_to(SourceLanguage::Tsx, code, "jsx_self_closing_element"));
    assert!(!parses_to(SourceLanguage::TypeScript, code, "jsx_self_closing_element"));
    let code = "const a = <number>b;\n";
    assert!(parses_to(SourceLanguage::TypeScript, code, "type_assertion"));
    assert!(!parses_to(SourceLanguage::Tsx, code, "type_assertion"));
}

#[test]
fn startup_parses_with_the_grammar_of_the_language() {
    let app = App::new("Main.java", b"class A { int x; }\n".to_vec(), None).unwrap();
    let kinds: Vec<String> = app.draw(u16::MAX).lines.iter().map(|l| l.kind.clone()).collect();
    assert!(kinds.iter().any(|kind| kind == "field_declaration"));
    let app = App::new("view.tsx", b"const a = <b/>;\n".to_vec(), None).unwrap();
    let kinds: Vec<String> = app.draw(u16::MAX).lines.iter().map(|l| l.kind.clone()).collect();
    assert!(kinds.iter().any(|kind| kind == "jsx_self_closing_element"));
}

#[test]
fn startup_for_just_uses_the_grammar_that_is_brought() {
    let brought = grammar(SourceLanguage::Json).unwrap();
    let app = App::new("justfile", b"[1]".to_vec(), Some(brought)).unwrap();
    assert_eq!(app.cursor().node().kind, "document");
    assert_eq!(app.draw(u16::MAX).lines.len(), 5);
}

#[test]
fn brought_grammar_is_not_used_for_other_languages() {
    let brought = grammar(SourceLanguage::Json).unwrap();
    let app = App::new("main.rs", b"fn main() {}\n".to_vec(), Some(brought)).unwrap();
    assert_eq!(app.cursor().node().kind, "source_file");
}

#[test]
fn grammar_for_prefers_what_is_built_in() {
    let brought = || grammar(SourceLanguage::Json);
    assert_eq!(App::grammar_for(SourceLanguage::Go, brought()).unwrap().node_kind_count(), 219);
    assert_eq!(App::grammar_for(SourceLanguage::Go, None).unwrap().node_kind_count(), 219);
    assert_eq!(App::grammar_for(SourceLanguage::Just, brought()).unwrap().node_kind_count(), 25);
    assert!(App::grammar_for(SourceLanguage::Just, None).is_none());
}

#[test]
fn parser_errors_become_startup_errors() {
    assert!(matches!(
        App::started(Vec::new(), Err(ParseError::NoTree)),
        Err(StartupError::Parse(ParseError::NoTree))
    ));
    assert!(matches!(
        App::started(Vec::new(), Err(ParseError::Grammar(GrammarRefusal::Version(3)))),
        Err(StartupError::Parse(ParseError::Grammar(GrammarRefusal::Version(3))))
    ));
    let code = b"[1]".to_vec();
    let parsed = parse(&code, &grammar(SourceLanguage::Json).unwrap());
    let app = App::started(code, parsed).unwrap();
    assert_eq!(app.cursor().node().kind, "document");
    assert_eq!(app.scroll_offset(), 0);
}

fn built_in() -> Vec<SourceLanguage> {
    vec![
        SourceLanguage::Go,
        SourceLanguage::Java,
        SourceLanguage::JavaScript,
        SourceLanguage::Json,
        SourceLanguage::Rust,
        SourceLanguage::Tsx,
        SourceLanguage::TypeScript,
    ]
}

#[test]
fn supported_versions_are_those_of_tree_sitter() {
    assert_eq!(OLDEST_ABI, tree_sitter::MIN_COMPATIBLE_LANGUAGE_VERSION);
    assert_eq!(NEWEST_ABI, tree_sitter::LANGUAGE_VERSION);
    assert_eq!((OLDEST_ABI, NEWEST_ABI), (13, 15));
}

#[test]
fn built_in_grammars_have_their_versions() {
    let version = |language: SourceLanguage| grammar(language).unwrap().abi_version();
    assert_eq!(version(SourceLanguage::Go), 15);
    assert_eq!(version(SourceLanguage::Java), 14);
    assert_eq!(version(SourceLanguage::JavaScript), 15);
    assert_eq!(version(SourceLanguage::Json), 14);
    assert_eq!(version(SourceLanguage::Rust), 15);
    assert_eq!(version(SourceLanguage::Tsx), 14);
    assert_eq!(version(SourceLanguage::TypeScript), 14);
}

#[test]
fn built_in_grammars_are_fit_for_parsing() {
    for language in built_in() {
        let grammar = grammar(language).unwrap();
        assert!(grammar.is_parseable());
        let mut parser = tree_sitter::Parser::new();
        assert!(parser.language().is_none());
        assert!(parser.set_language(&grammar).is_ok());
        assert!(parser.language().is_some());
    }
}

#[test]
fn every_code_is_parsed_with_a_built_in_grammar() {
    let codes: Vec<Vec<u8>> = vec![
        Vec::new(),
        b"\n".to_vec(),
        b"}}}} ((( \"".to_vec(),
        vec![0, 255, 254, 128, 10, 0],
        "\u{fffd}\u{1F600} \u{0} é".as_bytes().to_vec(),
        vec![b'('; 5000],
    ];
    for language in built_in() {
        let grammar = grammar(language).unwrap();
        for code in &codes {
            let tree = parse(code, &grammar);
            assert!(tree.is_ok());
            assert!(tree.unwrap().root().span.end_byte <= code.len());
            assert!(App::new(file_of(language), code.clone(), None).is_ok());
        }
    }
}

fn file_of(language: SourceLanguage) -> &'static str {
    match language {
        SourceLanguage::Go => "a.go",
        SourceLanguage::Java => "a.java",
        SourceLanguage::JavaScript => "a.js",
        SourceLanguage::Json => "a.json",
        SourceLanguage::Just => "justfile",
        SourceLanguage::Rust => "a.rs",
        SourceLanguage::Tsx => "a.tsx",
        SourceLanguage::TypeScript => "a.ts",
    }
}
