//! The parsing service: tree-sitter turns source text into a tree, and the tree is taken
//! over, node by node, into a `SyntaxTree`.

use crate::language::SourceLanguage;
use crate::model::{distinct_ids, NodeShape, Span};
use crate::tree::{SyntaxNode, SyntaxTree};
use vstd::prelude::*;

verus! {

/// What a node of tree-sitter holds: its identity, kind and span, and what its children
/// hold, in the order in which tree-sitter iterates over them.
pub uninterp spec fn node_shape(node: tree_sitter::Node) -> NodeShape;

/// What a tree of tree-sitter holds: what its root node holds.
pub uninterp spec fn tree_shape(tree: tree_sitter::Tree) -> NodeShape;

/// What `Language::name` of tree-sitter returns for a grammar.
pub uninterp spec fn grammar_name(grammar: tree_sitter::Language) -> Option<Seq<char>>;

/// What `Language::node_kind_count` of tree-sitter returns for a grammar.
pub uninterp spec fn grammar_kind_count(grammar: tree_sitter::Language) -> usize;

/// What `Language::abi_version` of tree-sitter returns for a grammar.
pub uninterp spec fn grammar_abi(grammar: tree_sitter::Language) -> usize;

/// What `Language::is_parseable` of tree-sitter returns for a grammar.
pub uninterp spec fn grammar_parseable(grammar: tree_sitter::Language) -> bool;

/// Whether a parser of tree-sitter has a grammar to parse with: whether
/// `Parser::language` returns one.
pub uninterp spec fn has_grammar(parser: tree_sitter::Parser) -> bool;

/// What an error of `Parser::set_language` says, as a value of the library.
pub uninterp spec fn refusal(error: tree_sitter::LanguageError) -> GrammarRefusal;

/// Why tree-sitter refused a grammar.
#[derive(Clone, Copy, Debug, PartialEq, Eq, Structural)]
pub enum GrammarRefusal {
    /// The grammar was generated for this version of tree-sitter's interface, which the
    /// library at hand does not support.
    Version(usize),
    /// The grammar cannot be used for parsing.
    NotParseable,
}

/// The oldest version of the interface between grammar and parser that tree-sitter
/// parses with: its `MIN_COMPATIBLE_LANGUAGE_VERSION`.
pub const OLDEST_ABI: usize = 13;

/// The newest version of that interface: tree-sitter's `LANGUAGE_VERSION`.
pub const NEWEST_ABI: usize = 15;

/// tree-sitter parses with `grammar`: the version of its interface is one of those that
/// tree-sitter supports, and it can be used for parsing.
pub open spec fn accepted(grammar: tree_sitter::Language) -> bool {
    OLDEST_ABI <= grammar_abi(grammar) <= NEWEST_ABI && grammar_parseable(grammar)
}

/// Why tree-sitter refuses a grammar that it does not accept: for its version, where
/// that is not supported, else for not being fit for parsing.
pub open spec fn refusal_for(grammar: tree_sitter::Language) -> GrammarRefusal {
    if OLDEST_ABI <= grammar_abi(grammar) <= NEWEST_ABI {
        GrammarRefusal::NotParseable
    } else {
        GrammarRefusal::Version(grammar_abi(grammar))
    }
}

/// `tree_sitter_go::LANGUAGE`, as a grammar. The contract says what tree-sitter reports of this
/// grammar: what `Language::name` gives for it; the number of node kinds that
/// `Language::node_kind_count` gives, which is the number of symbols and aliases of the
/// generated parser; the version that `Language::abi_version` gives, which is the one
/// the parser was generated for; and that `Language::is_parseable` holds, the generated
/// parser having a lexer.
#[verifier::external_body]
fn go_grammar() -> (grammar: tree_sitter::Language)
    ensures
        grammar_name(grammar) == Some("go"@),
        grammar_kind_count(grammar) == 219,
        grammar_abi(grammar) == 15,
        grammar_parseable(grammar),
{
    tree_sitter_go::LANGUAGE.into()
}

/// `tree_sitter_java::LANGUAGE`, as a grammar. The contract says what tree-sitter reports of this
/// grammar: what `Language::name` gives for it; the number of node kinds that
/// `Language::node_kind_count` gives, which is the number of symbols and aliases of the
/// generated parser; the version that `Language::abi_version` gives, which is the one
/// the parser was generated for; and that `Language::is_parseable` holds, the generated
/// parser having a lexer.
#[verifier::external_body]
fn java_grammar() -> (grammar: tree_sitter::Language)
    ensures
        grammar_name(grammar) == None::<Seq<char>>,
        grammar_kind_count(grammar) == 321,
        grammar_abi(grammar) == 14,
        grammar_parseable(grammar),
{
    tree_sitter_java::LANGUAGE.into()
}

/// `tree_sitter_javascript::LANGUAGE`, as a grammar. The contract says what tree-sitter reports of this
/// grammar: what `Language::name` gives for it; the number of node kinds that
/// `Language::node_kind_count` gives, which is the number of symbols and aliases of the
/// generated parser; the version that `Language::abi_version` gives, which is the one
/// the parser was generated for; and that `Language::is_parseable` holds, the generated
/// parser having a lexer.
#[verifier::external_body]
fn javascript_grammar() -> (grammar: tree_sitter::Language)
    ensures
        grammar_name(grammar) == Some("javascript"@),
        grammar_kind_count(grammar) == 265,
        grammar_abi(grammar) == 15,
        grammar_parseable(grammar),
{
    tree_sitter_javascript::LANGUAGE.into()
}

/// `tree_sitter_json::LANGUAGE`, as a grammar. The contract says what tree-sitter reports of this
/// grammar: what `Language::name` gives for it; the number of node kinds that
/// `Language::node_kind_count` gives, which is the number of symbols and aliases of the
/// generated parser; the version that `Language::abi_version` gives, which is the one
/// the parser was generated for; and that `Language::is_parseable` holds, the generated
/// parser having a lexer.
#[verifier::external_body]
fn json_grammar() -> (grammar: tree_sitter::Language)
    ensures
        grammar_name(grammar) == None::<Seq<char>>,
        grammar_kind_count(grammar) == 25,
        grammar_abi(grammar) == 14,
        grammar_parseable(grammar),
{
    tree_sitter_json::LANGUAGE.into()
}

/// `tree_sitter_rust::LANGUAGE`, as a grammar. The contract says what tree-sitter reports of this
/// grammar: what `Language::name` gives for it; the number of node kinds that
/// `Language::node_kind_count` gives, which is the number of symbols and aliases of the
/// generated parser; the version that `Language::abi_version` gives, which is the one
/// the parser was generated for; and that `Language::is_parseable` holds, the generated
/// parser having a lexer.
#[verifier::external_body]
fn rust_grammar() -> (grammar: tree_sitter::Language)
    ensures
        grammar_name(grammar) == Some("rust"@),
        grammar_kind_count(grammar) == 355,
        grammar_abi(grammar) == 15,
        grammar_parseable(grammar),
{
    tree_sitter_rust::LANGUAGE.into()
}

/// `tree_sitter_typescript::LANGUAGE_TSX`, as a grammar. The contract says what tree-sitter reports of this
/// grammar: what `Language::name` gives for it; the number of node kinds that
/// `Language::node_kind_count` gives, which is the number of symbols and aliases of the
/// generated parser; the version that `Language::abi_version` gives, which is the one
/// the parser was generated for; and that `Language::is_parseable` holds, the generated
/// parser having a lexer.
#[verifier::external_body]
fn tsx_grammar() -> (grammar: tree_sitter::Language)
    ensures
        grammar_name(grammar) == None::<Seq<char>>,
        grammar_kind_count(grammar) == 400,
        grammar_abi(grammar) == 14,
        grammar_parseable(grammar),
{
    tree_sitter_typescript::LANGUAGE_TSX.into()
}

/// `tree_sitter_typescript::LANGUAGE_TYPESCRIPT`, as a grammar. The contract says what tree-sitter reports of this
/// grammar: what `Language::name` gives for it; the number of node kinds that
/// `Language::node_kind_count` gives, which is the number of symbols and aliases of the
/// generated parser; the version that `Language::abi_version` gives, which is the one
/// the parser was generated for; and that `Language::is_parseable` holds, the generated
/// parser having a lexer.
#[verifier::external_body]
fn typescript_grammar() -> (grammar: tree_sitter::Language)
    ensures
        grammar_name(grammar) == None::<Seq<char>>,
        grammar_kind_count(grammar) == 383,
        grammar_abi(grammar) == 14,
        grammar_parseable(grammar),
{
    tree_sitter_typescript::LANGUAGE_TYPESCRIPT.into()
}

/// `Parser::new`.
#[verifier::external_body]
fn new_parser() -> tree_sitter::Parser {
    tree_sitter::Parser::new()
}

/// The variant of an error of `Parser::set_language` and the number it carries, as a
/// value of the library. The contract gives the result its name.
#[verifier::external_body]
fn refusal_of(error: &tree_sitter::LanguageError) -> (why: GrammarRefusal)
    ensures
        why == refusal(*error),
{
    match error {
        tree_sitter::LanguageError::Version(version) => GrammarRefusal::Version(*version),
        tree_sitter::LanguageError::NotParseable => GrammarRefusal::NotParseable,
    }
}

/// `Parser::set_language`. The contract says what the source of tree-sitter shows: the
/// grammar is accepted exactly when its version is supported and it is fit for parsing;
/// the parser then has a grammar; and a refusal names the version where that is the
/// reason, else that the grammar is not fit for parsing.
#[verifier::external_body]
fn set_grammar(parser: &mut tree_sitter::Parser, grammar: &tree_sitter::Language) -> (outcome:
    Result<(), tree_sitter::LanguageError>)
    ensures
        outcome is Ok <==> accepted(*grammar),
        outcome is Ok ==> has_grammar(*final(parser)),
        outcome matches Err(error) ==> refusal(error) == refusal_for(*grammar),
{
    parser.set_language(grammar)
}

/// `Parser::parse` of the whole text, with no earlier tree and nothing that could
/// cancel. The contract says what the source of tree-sitter shows, that a tree comes
/// back exactly when the parser has a grammar, and what the documentation of `Node::id`
/// says, that no two nodes of a tree have the same identity.
#[verifier::external_body]
fn run_parser(parser: &mut tree_sitter::Parser, code: &Vec<u8>) -> (parsed: Option<
    tree_sitter::Tree,
>)
    ensures
        parsed is Some <==> has_grammar(*old(parser)),
        parsed matches Some(tree) ==> distinct_ids(tree_shape(tree)),
{
    parser.parse(code, None)
}

/// `Tree::root_node`. The contract says that the tree holds what its root node holds.
#[verifier::external_body]
fn root_of<'tree>(tree: &'tree tree_sitter::Tree) -> (root: tree_sitter::Node<'tree>)
    ensures
        node_shape(root) == tree_shape(*tree),
{
    tree.root_node()
}

/// `Node::id`. The contract gives the result its name.
#[verifier::external_body]
fn id_of(node: &tree_sitter::Node) -> (id: usize)
    ensures
        id == node_shape(*node).id,
{
    node.id()
}

/// `Node::kind`. The contract gives the result its name.
#[verifier::external_body]
fn kind_of(node: &tree_sitter::Node) -> (kind: String)
    ensures
        kind@ == node_shape(*node).kind,
{
    node.kind().to_owned()
}

/// `Node::range`, field by field. The contract gives the result its name.
#[verifier::external_body]
fn span_of(node: &tree_sitter::Node) -> (span: Span)
    ensures
        span == node_shape(*node).span,
{
    let range = node.range();
    Span {
        start_byte: range.start_byte,
        end_byte: range.end_byte,
        start_row: range.start_point.row,
        start_column: range.start_point.column,
        end_row: range.end_point.row,
        end_column: range.end_point.column,
    }
}

/// `Node::children`, collected. The contract says that the children of what the node
/// holds are what these nodes hold, in this order.
#[verifier::external_body]
fn children_of<'tree>(node: &tree_sitter::Node<'tree>) -> (children: Vec<tree_sitter::Node<'tree>>)
    ensures
        children@.len() == node_shape(*node).children.len(),
        forall|i: int|
            0 <= i < children@.len() ==> node_shape(#[trigger] children@[i]) == node_shape(
                *node,
            ).children[i],
{
    node.children(&mut node.walk()).collect()
}

/// Why a text gave no syntax tree.
#[derive(Clone, Copy, Debug, PartialEq, Eq, Structural)]
pub enum ParseError {
    /// tree-sitter refused the grammar.
    Grammar(GrammarRefusal),
    /// tree-sitter returned no tree.
    NoTree,
    /// Two nodes of the tree have the same identity.
    Identities,
}

impl ParseError {
    /// The error in words.
    pub fn message(&self) -> (text: &'static str)
        ensures
            text@ == match *self {
                ParseError::Grammar(_) => "Failed to load grammar"@,
                ParseError::NoTree => "Failed to parse code"@,
                ParseError::Identities => "Failed to tell the nodes of the tree apart"@,
            },
    {
        match self {
            ParseError::Grammar(_) => "Failed to load grammar",
            ParseError::NoTree => "Failed to parse code",
            ParseError::Identities => "Failed to tell the nodes of the tree apart",
        }
    }
}

/// What tree-sitter calls the grammar that is built in for `language`, where it has a
/// name for it.
pub open spec fn built_in_name(language: SourceLanguage) -> Option<Seq<char>> {
    match language {
        SourceLanguage::Go => Some("go"@),
        SourceLanguage::JavaScript => Some("javascript"@),
        SourceLanguage::Rust => Some("rust"@),
        _ => None,
    }
}

/// The number of node kinds of the grammar that is built in for `language`; 0 where
/// none is built in.
pub open spec fn built_in_kind_count(language: SourceLanguage) -> usize {
    match language {
        SourceLanguage::Go => 219,
        SourceLanguage::Java => 321,
        SourceLanguage::JavaScript => 265,
        SourceLanguage::Json => 25,
        SourceLanguage::Just => 0,
        SourceLanguage::Rust => 355,
        SourceLanguage::Tsx => 400,
        SourceLanguage::TypeScript => 383,
    }
}

/// `grammar` is the grammar that is built in for `language`, as far as tree-sitter
/// tells grammars apart: by name and by number of node kinds.
pub open spec fn is_built_in(grammar: tree_sitter::Language, language: SourceLanguage) -> bool {
    &&& language != SourceLanguage::Just
    &&& grammar_name(grammar) == built_in_name(language)
    &&& grammar_kind_count(grammar) == built_in_kind_count(language)
}

/// The grammar of `language`, where one is built in. There is none for `Just`.
pub fn grammar(language: SourceLanguage) -> (grammar: Option<tree_sitter::Language>)
    ensures
        grammar is None <==> language == SourceLanguage::Just,
        grammar matches Some(built_in) ==> is_built_in(built_in, language) && accepted(built_in),
{
    match language {
        SourceLanguage::Go => Some(go_grammar()),
        SourceLanguage::Java => Some(java_grammar()),
        SourceLanguage::JavaScript => Some(javascript_grammar()),
        SourceLanguage::Json => Some(json_grammar()),
        SourceLanguage::Just => None,
        SourceLanguage::Rust => Some(rust_grammar()),
        SourceLanguage::Tsx => Some(tsx_grammar()),
        SourceLanguage::TypeScript => Some(typescript_grammar()),
    }
}

/// A grammar is built in for one language at most.
pub proof fn law_built_in_grammars_differ(
    grammar: tree_sitter::Language,
    one: SourceLanguage,
    other: SourceLanguage,
)
    requires
        is_built_in(grammar, one),
        is_built_in(grammar, other),
    ensures
        one == other,
{
}

/// The subtree of `node`, taken over as it is.
pub fn import_node(node: &tree_sitter::Node) -> (imported: SyntaxNode)
    ensures
        imported@ == node_shape(*node),
    decreases node_shape(*node),
{
    let children = children_of(node);
    let mut imported: Vec<SyntaxNode> = Vec::new();
    let mut i: usize = 0;
    while i < children.len()
        invariant
            i <= children.len(),
            children@.len() == node_shape(*node).children.len(),
            forall|k: int|
                0 <= k < children@.len() ==> node_shape(#[trigger] children@[k]) == node_shape(
                    *node,
                ).children[k],
            imported@.len() == i,
            forall|k: int| 0 <= k < i ==> (#[trigger] imported@[k])@ == node_shape(*node).children[k],
        decreases children.len() - i,
    {
        let child = import_node(&children[i]);
        imported.push(child);
        i = i + 1;
    }
    let result = SyntaxNode {
        id: id_of(node),
        kind: kind_of(node),
        span: span_of(node),
        children: imported,
    };
    proof {
        assert(result@.children =~= node_shape(*node).children);
    }
    result
}

/// The tree that tree-sitter built, taken over as it is. There is none where two of its
/// nodes have the same identity.
pub fn import_tree(tree: &tree_sitter::Tree) -> (imported: Option<SyntaxTree>)
    ensures
        imported is Some <==> distinct_ids(tree_shape(*tree)),
        imported matches Some(t) ==> t@ == tree_shape(*tree),
{
    let root = root_of(tree);
    SyntaxTree::new(import_node(&root))
}

/// What parsing returns for an imported tree: the tree, or the error that there is none.
pub fn parsed_tree(imported: Option<SyntaxTree>) -> (parsed: Result<SyntaxTree, ParseError>)
    ensures
        parsed == match imported {
            Some(tree) => Ok::<SyntaxTree, ParseError>(tree),
            None => Err(ParseError::Identities),
        },
{
    match imported {
        Some(tree) => Ok(tree),
        None => Err(ParseError::Identities),
    }
}

/// What parsing returns once tree-sitter has answered to the grammar: it goes on where
/// the grammar was accepted, and ends with the grammar error, which says why, where it
/// was refused.
pub fn grammar_outcome(accepted: Result<(), tree_sitter::LanguageError>) -> (outcome: Result<
    (),
    ParseError,
>)
    ensures
        outcome == match accepted {
            Ok(_) => Ok::<(), ParseError>(()),
            Err(error) => Err(ParseError::Grammar(refusal(error))),
        },
{
    match accepted {
        Ok(_) => Ok(()),
        Err(error) => Err(ParseError::Grammar(refusal_of(&error))),
    }
}

/// What parsing returns for what tree-sitter made of the code: the tree, taken over as
/// it is; an error where tree-sitter returned none, or where two nodes of its tree have
/// the same identity.
pub fn tree_outcome(parsed: Option<tree_sitter::Tree>) -> (outcome: Result<SyntaxTree, ParseError>)
    ensures
        match parsed {
            Some(tree) => if distinct_ids(tree_shape(tree)) {
                outcome matches Ok(imported) && imported@ == tree_shape(tree)
            } else {
                outcome == Err::<SyntaxTree, ParseError>(ParseError::Identities)
            },
            None => outcome == Err::<SyntaxTree, ParseError>(ParseError::NoTree),
        },
{
    match parsed {
        Some(tree) => parsed_tree(import_tree(&tree)),
        None => Err(ParseError::NoTree),
    }
}

/// Parses `code` with `grammar`. A grammar that tree-sitter accepts gives the tree that
/// tree-sitter builds, taken over as it is; any other grammar gives the grammar error,
/// which says why it was refused.
pub fn parse(code: &Vec<u8>, grammar: &tree_sitter::Language) -> (parsed: Result<
    SyntaxTree,
    ParseError,
>)
    ensures
        accepted(*grammar) ==> parsed is Ok,
        !accepted(*grammar) ==> parsed == Err::<SyntaxTree, ParseError>(
            ParseError::Grammar(refusal_for(*grammar)),
        ),
        parsed matches Ok(tree) ==> distinct_ids(tree@),
{
    let mut parser = new_parser();
    match grammar_outcome(set_grammar(&mut parser, grammar)) {
        Ok(_) => tree_outcome(run_parser(&mut parser, code)),
        Err(error) => Err(error),
    }
}

} // verus!
