//! The parser and its syntax trees, as the detection engine sees them.
//!
//! Parsing and structural queries are the work of the `tree-sitter` crate and
//! of four grammar crates.  Nothing here is proved of them: each function
//! below makes one call, or the few calls that belong together, and states,
//! in a few words that Verus believes, what the crate's documentation says of
//! it.  Trees and nodes stay opaque; what the engine reads of a node has a
//! name of its own.

use vstd::prelude::*;
use tree_sitter::Language as Grammar;
use tree_sitter::StreamingIterator;

verus! {

/// `tree_sitter::Language`, the grammar of one language.
#[verifier::external_type_specification]
#[verifier::external_body]
pub struct ExGrammar(Grammar);

/// `tree_sitter::Tree`, the syntax tree of a text.
#[verifier::external_type_specification]
#[verifier::external_body]
pub struct ExTree(tree_sitter::Tree);

/// `tree_sitter::Node`, one node of a syntax tree.
#[verifier::external_type_specification]
#[verifier::external_body]
pub struct ExNode<'tree>(tree_sitter::Node<'tree>);

/// `tree_sitter::Query`, a compiled structural query.
#[verifier::external_type_specification]
#[verifier::external_body]
pub struct ExQuery(tree_sitter::Query);

/// What `tree_sitter::Parser::parse` returns for a text, on a fresh parser
/// that was given this grammar.
pub uninterp spec fn parse_tree(grammar: Grammar, source: Seq<char>) -> Option<
    tree_sitter::Tree,
>;

/// What `tree_sitter::Tree::root_node` returns.
pub uninterp spec fn tree_root(tree: tree_sitter::Tree) -> tree_sitter::Node<'static>;

/// What `tree_sitter::Node::kind` returns.
pub uninterp spec fn node_kind(node: tree_sitter::Node<'static>) -> Seq<char>;

/// What `tree_sitter::Node::start_position` returns: row, then column, both
/// counted from zero.
pub uninterp spec fn node_start(node: tree_sitter::Node<'static>) -> (nat, nat);

/// What `tree_sitter::Node::byte_range` returns: first byte, then the byte
/// behind the last.
pub uninterp spec fn node_bytes(node: tree_sitter::Node<'static>) -> (nat, nat);

/// The children of a node, in order: what `tree_sitter::Node::child` returns
/// for each index below `tree_sitter::Node::child_count`.
pub uninterp spec fn node_children(node: tree_sitter::Node<'static>) -> Seq<
    tree_sitter::Node<'static>,
>;

/// What `tree_sitter::Node::descendant_count` returns: the number of a
/// node's descendants, the node itself counted in.
pub uninterp spec fn node_descendants(node: tree_sitter::Node<'static>) -> nat;

/// What `tree_sitter::Query::new` returns for a grammar and a query text:
/// the compiled query, or what the error prints.
pub uninterp spec fn query_compile(grammar: Grammar, text: Seq<char>) -> Result<
    tree_sitter::Query,
    Seq<char>,
>;

/// The nodes that a query captures in a tree: match after match as
/// `tree_sitter::QueryCursor::matches` yields them, and within a match in the
/// order of its captures.
pub uninterp spec fn query_captures(
    query: tree_sitter::Query,
    tree: tree_sitter::Tree,
    source: Seq<char>,
) -> Seq<tree_sitter::Node<'static>>;

/// Converts `tree_sitter_python::LANGUAGE` into a grammar.  Nothing is
/// stated of the result: whoever asks for a grammar holds on to the one that
/// was handed out.
#[verifier::external_body]
pub(crate) fn python_grammar() -> (g: Grammar)
{
    tree_sitter_python::LANGUAGE.into()
}

/// Converts `tree_sitter_javascript::LANGUAGE` into a grammar.  Nothing is
/// stated of the result: whoever asks for a grammar holds on to the one that
/// was handed out.
#[verifier::external_body]
pub(crate) fn javascript_grammar() -> (g: Grammar)
{
    tree_sitter_javascript::LANGUAGE.into()
}

/// Converts `tree_sitter_typescript::LANGUAGE_TYPESCRIPT` into a grammar.
/// Nothing is stated of the result: whoever asks for a grammar holds on to
/// the one that was handed out.
#[verifier::external_body]
pub(crate) fn typescript_grammar() -> (g: Grammar)
{
    tree_sitter_typescript::LANGUAGE_TYPESCRIPT.into()
}

/// Converts `tree_sitter_rust::LANGUAGE` into a grammar.  Nothing is
/// stated of the result: whoever asks for a grammar holds on to the one that
/// was handed out.
#[verifier::external_body]
pub(crate) fn rust_grammar() -> (g: Grammar)
{
    tree_sitter_rust::LANGUAGE.into()
}

/// Makes a parser with `tree_sitter::Parser::new`, gives it the grammar with
/// `set_language`, and parses the text with `parse`, without an earlier tree.
/// `None` where the grammar is refused or parsing fails.  With a fresh parser
/// the result depends on the grammar and the text alone, and is named
/// [`parse_tree`].
#[verifier::external_body]
pub(crate) fn parse(grammar: &Grammar, source: &str) -> (tree: Option<
    tree_sitter::Tree,
>)
    ensures
        tree == parse_tree(*grammar, source@),
{
    let mut parser = tree_sitter::Parser::new();
    parser.set_language(grammar).ok()?;
    parser.parse(source, None)
}

/// Calls `tree_sitter::Tree::root_node`.
#[verifier::external_body]
pub(crate) fn root<'tree>(tree: &'tree tree_sitter::Tree) -> (node: tree_sitter::Node<'tree>)
    ensures
        node == tree_root(*tree),
{
    tree.root_node()
}

/// Calls `tree_sitter::Node::kind`, and copies the name.
#[verifier::external_body]
pub(crate) fn kind(node: &tree_sitter::Node) -> (name: String)
    ensures
        name@ == node_kind(*node),
{
    node.kind().to_string()
}

/// Calls `tree_sitter::Node::start_position`, and takes the point apart.
#[verifier::external_body]
pub(crate) fn start_point(node: &tree_sitter::Node) -> (at: (usize, usize))
    ensures
        (at.0 as nat, at.1 as nat) == node_start(*node),
{
    let point = node.start_position();
    (point.row, point.column)
}

/// Calls `tree_sitter::Node::byte_range`, and takes the range apart.
#[verifier::external_body]
pub(crate) fn byte_range(node: &tree_sitter::Node) -> (at: (usize, usize))
    ensures
        (at.0 as nat, at.1 as nat) == node_bytes(*node),
{
    let range = node.byte_range();
    (range.start, range.end)
}

/// Calls `tree_sitter::Node::child_count`.
#[verifier::external_body]
pub(crate) fn child_count(node: &tree_sitter::Node) -> (count: u32)
    ensures
        count == node_children(*node).len(),
{
    node.child_count()
}

/// Calls `tree_sitter::Node::child`.  There is a child exactly at the indices
/// below the count.  A node's descendants are its children and theirs, and
/// itself, so a child has fewer of them than its parent.
#[verifier::external_body]
pub(crate) fn child<'tree>(node: &tree_sitter::Node<'tree>, i: u32) -> (c: Option<
    tree_sitter::Node<'tree>,
>)
    ensures
        c is Some <==> i < node_children(*node).len(),
        c matches Some(k) ==> k == node_children(*node)[i as int],
        c matches Some(k) ==> node_descendants(k) < node_descendants(*node),
{
    node.child(i)
}

/// Calls `tree_sitter::Query::new`, and prints the error where there is
/// one.  The result is a function of the grammar and the query text, and is
/// named [`query_compile`].
#[verifier::external_body]
pub(crate) fn query_new(grammar: &Grammar, text: &str) -> (query: Result<
    tree_sitter::Query,
    String,
>)
    ensures
        match query {
            Ok(q) => query_compile(*grammar, text@) == Ok::<tree_sitter::Query, Seq<char>>(q),
            Err(words) => query_compile(*grammar, text@) == Err::<tree_sitter::Query, Seq<char>>(
                words@,
            ),
        },
{
    tree_sitter::Query::new(grammar, text).map_err(|e| e.to_string())
}

/// Runs a query over a whole tree with `tree_sitter::QueryCursor::matches`, on
/// a fresh cursor, and hands out the captured nodes.  The query must have been
/// compiled for the grammar with which the tree was parsed, and `source` must
/// be the text that was parsed: a query reads a node's text there.
#[verifier::external_body]
pub(crate) fn captures<'tree>(
    grammar: &Grammar,
    query: &tree_sitter::Query,
    query_text: &str,
    tree: &'tree tree_sitter::Tree,
    source: &str,
) -> (nodes: Vec<tree_sitter::Node<'tree>>)
    requires
        query_compile(*grammar, query_text@) == Ok::<tree_sitter::Query, Seq<char>>(*query),
        parse_tree(*grammar, source@) == Some(*tree),
    ensures
        nodes@ == query_captures(*query, *tree, source@),
{
    let mut cursor = tree_sitter::QueryCursor::new();
    let mut matches = cursor.matches(query, tree.root_node(), source.as_bytes());
    let mut nodes = Vec::new();
    while let Some(found) = matches.next() {
        for capture in found.captures() {
            nodes.push(capture.node);
        }
    }
    nodes
}

} // verus!
