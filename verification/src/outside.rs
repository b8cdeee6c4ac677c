//! The types of tree-sitter that the library carries through.

use vstd::prelude::*;

verus! {

/// A grammar of tree-sitter.
#[verifier::external_type_specification]
#[verifier::external_body]
pub struct ExGrammar(tree_sitter::Language);

/// A parser of tree-sitter.
#[verifier::external_type_specification]
#[verifier::external_body]
pub struct ExParser(tree_sitter::Parser);

/// A tree of tree-sitter.
#[verifier::external_type_specification]
#[verifier::external_body]
pub struct ExTree(tree_sitter::Tree);

/// A node of a tree of tree-sitter.
#[verifier::external_type_specification]
#[verifier::external_body]
pub struct ExNode<'tree>(tree_sitter::Node<'tree>);

/// Why tree-sitter refused a grammar.
#[verifier::external_type_specification]
#[verifier::external_body]
pub struct ExGrammarError(tree_sitter::LanguageError);

} // verus!
