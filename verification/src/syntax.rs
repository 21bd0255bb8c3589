//! PHP syntax trees: the library's own tree, built from the tree-sitter PHP grammar.
use vstd::prelude::*;

verus! {

/// A node of a concrete syntax tree, with the facts the lowering reads.
#[derive(Debug)]
pub struct SyntaxNode {
    pub kind: String,
    pub named: bool,
    pub error: bool,
    pub missing: bool,
    pub start_row: usize,
    pub start_column: usize,
    pub end_row: usize,
    pub end_column: usize,
    pub text: Option<String>,
    pub children: Vec<SyntaxChild>,
}

/// A child of a syntax node, with the grammar field it fills, if any.
#[derive(Debug)]
pub struct SyntaxChild {
    pub field: Option<String>,
    pub node: SyntaxNode,
}

#[verifier::external_type_specification]
#[verifier::external_body]
pub struct ExParser(tree_sitter::Parser);

#[verifier::external_type_specification]
#[verifier::external_body]
pub struct ExTree(tree_sitter::Tree);

#[verifier::external_type_specification]
#[verifier::external_body]
pub struct ExNode<'tree>(tree_sitter::Node<'tree>);

/// A tree-sitter parser, with whether a language has been assigned to it.
struct PhpParser {
    parser: tree_sitter::Parser,
    has_language: Ghost<bool>,
}

/// The syntax tree that tree-sitter parsed from a text; its view is that text.
struct ParsedTree {
    tree: tree_sitter::Tree,
    text: Ghost<Seq<char>>,
}

impl View for ParsedTree {
    type V = Seq<char>;

    closed spec fn view(&self) -> Seq<char> {
        self.text@
    }
}

/// A node of a parsed tree; its view is the parsed text and the child indices that lead from
/// the root to the node.
struct NodeAt<'tree> {
    node: tree_sitter::Node<'tree>,
    text: Ghost<Seq<char>>,
    path: Ghost<Seq<u32>>,
}

impl<'tree> View for NodeAt<'tree> {
    type V = (Seq<char>, Seq<u32>);

    closed spec fn view(&self) -> (Seq<char>, Seq<u32>) {
        (self.text@, self.path@)
    }
}

/// The grammar symbol of the node at `path` in the PHP tree of `text`.
pub uninterp spec fn ts_node_kind(text: Seq<char>, path: Seq<u32>) -> Seq<char>;

/// Whether the node at `path` in the PHP tree of `text` is a named grammar symbol.
pub uninterp spec fn ts_node_is_named(text: Seq<char>, path: Seq<u32>) -> bool;

/// Whether the node at `path` in the PHP tree of `text` stands for unparsable text.
pub uninterp spec fn ts_node_is_error(text: Seq<char>, path: Seq<u32>) -> bool;

/// Whether the node at `path` in the PHP tree of `text` was inserted by the parser.
pub uninterp spec fn ts_node_is_missing(text: Seq<char>, path: Seq<u32>) -> bool;

/// The zero-based row and column where the node at `path` in the PHP tree of `text` starts.
pub uninterp spec fn ts_node_start(text: Seq<char>, path: Seq<u32>) -> (usize, usize);

/// The zero-based row and column where the node at `path` in the PHP tree of `text` ends.
pub uninterp spec fn ts_node_end(text: Seq<char>, path: Seq<u32>) -> (usize, usize);

/// The number of children of the node at `path` in the PHP tree of `text`.
pub uninterp spec fn ts_child_count(text: Seq<char>, path: Seq<u32>) -> u32;

/// The grammar field of the child at `index` of the node at `path` in the PHP tree of `text`.
pub uninterp spec fn ts_field_name(text: Seq<char>, path: Seq<u32>, index: u32) -> Option<
    Seq<char>,
>;

/// The text that the node at `path` in the PHP tree of `text` spans, if it is valid UTF-8.
pub uninterp spec fn ts_node_text(text: Seq<char>, path: Seq<u32>) -> Option<Seq<char>>;

/// `tree_sitter::Parser::new`: a parser without a language.
#[verifier::external_body]
fn new_parser() -> (r: PhpParser)
    ensures
        !r.has_language@,
{
    PhpParser { parser: tree_sitter::Parser::new(), has_language: Ghost(false) }
}

/// `tree_sitter::Parser::set_language` with the PHP grammar of `tree_sitter_php`: whether the
/// grammar was accepted, which it always is (its ABI version is within the range this
/// tree-sitter reads and it has a lexer); from then on it is the parser's language.
#[verifier::external_body]
fn set_php_language(parser: &mut PhpParser) -> (r: bool)
    ensures
        r,
        final(parser).has_language@,
{
    let accepted = parser.parser.set_language(&tree_sitter_php::LANGUAGE_PHP.into()).is_ok();
    if accepted {
        parser.has_language = Ghost(true);
    }
    accepted
}

/// `tree_sitter::Parser::parse`: the syntax tree of a text, which the parser returns whenever
/// it has a language (no timeout or cancellation is set); the tree's view is the text.
#[verifier::external_body]
fn parse_text(parser: &mut PhpParser, source: &str) -> (r: Option<ParsedTree>)
    ensures
        final(parser).has_language@ == old(parser).has_language@,
        old(parser).has_language@ ==> r is Some,
        r matches Some(t) ==> t@ == source@,
{
    match parser.parser.parse(source, None) {
        Some(tree) => Some(ParsedTree { tree, text: Ghost(source@) }),
        None => None,
    }
}

/// `tree_sitter::Tree::root_node`: the root of a tree, at the empty path.
#[verifier::external_body]
fn root_of<'tree>(tree: &'tree ParsedTree) -> (r: NodeAt<'tree>)
    ensures
        r@ == (tree@, Seq::<u32>::empty()),
{
    NodeAt { node: tree.tree.root_node(), text: Ghost(tree.text@), path: Ghost(Seq::empty()) }
}

/// `tree_sitter::Node::kind`: the grammar symbol of a node, [`ts_node_kind`].
#[verifier::external_body]
fn node_kind(node: &NodeAt<'_>) -> (r: String)
    ensures
        r@ == ts_node_kind(node@.0, node@.1),
{
    node.node.kind().to_string()
}

/// `tree_sitter::Node::is_named`: whether a node is a named grammar symbol.
#[verifier::external_body]
fn node_is_named(node: &NodeAt<'_>) -> (r: bool)
    ensures
        r == ts_node_is_named(node@.0, node@.1),
{
    node.node.is_named()
}

/// `tree_sitter::Node::is_error`: whether a node stands for unparsable text.
#[verifier::external_body]
fn node_is_error(node: &NodeAt<'_>) -> (r: bool)
    ensures
        r == ts_node_is_error(node@.0, node@.1),
{
    node.node.is_error()
}

/// `tree_sitter::Node::is_missing`: whether the parser inserted the node to recover.
#[verifier::external_body]
fn node_is_missing(node: &NodeAt<'_>) -> (r: bool)
    ensures
        r == ts_node_is_missing(node@.0, node@.1),
{
    node.node.is_missing()
}

/// `tree_sitter::Node::start_position`: the zero-based row and column where a node starts.
#[verifier::external_body]
fn node_start(node: &NodeAt<'_>) -> (r: (usize, usize))
    ensures
        r == ts_node_start(node@.0, node@.1),
{
    let p = node.node.start_position();
    (p.row, p.column)
}

/// `tree_sitter::Node::end_position`: the zero-based row and column where a node ends.
#[verifier::external_body]
fn node_end(node: &NodeAt<'_>) -> (r: (usize, usize))
    ensures
        r == ts_node_end(node@.0, node@.1),
{
    let p = node.node.end_position();
    (p.row, p.column)
}

/// `tree_sitter::Node::child_count`: the number of children of a node.
#[verifier::external_body]
fn node_child_count(node: &NodeAt<'_>) -> (r: u32)
    ensures
        r == ts_child_count(node@.0, node@.1),
{
    node.node.child_count()
}

/// `tree_sitter::Node::child`: the child at an index, which exists exactly below the number
/// of children; its path extends the node's by the index.
#[verifier::external_body]
fn node_child<'tree>(node: &NodeAt<'tree>, index: u32) -> (r: Option<NodeAt<'tree>>)
    ensures
        (r is Some) == (index < ts_child_count(node@.0, node@.1)),
        r matches Some(c) ==> c@ == (node@.0, node@.1.push(index)),
{
    match node.node.child(index) {
        Some(c) => Some(NodeAt { node: c, text: Ghost(node.text@), path: Ghost(node.path@.push(index)) }),
        None => None,
    }
}

/// `tree_sitter::Node::field_name_for_child`: the grammar field of the child at an index.
#[verifier::external_body]
fn node_field_name(node: &NodeAt<'_>, index: u32) -> (r: Option<String>)
    ensures
        r.deep_view() == ts_field_name(node@.0, node@.1, index),
{
    node.node.field_name_for_child(index).map(|f| f.to_string())
}

/// `tree_sitter::Node::utf8_text` on the text the node was parsed from, whose byte range
/// holds the node: the text the node spans, if it is valid UTF-8.
#[verifier::external_body]
fn node_source_text(node: &NodeAt<'_>, source: &str) -> (r: Option<String>)
    requires
        source@ == node@.0,
    ensures
        r.deep_view() == ts_node_text(node@.0, node@.1),
{
    node.node.utf8_text(source.as_bytes()).ok().map(|t| t.to_string())
}

/// The deepest nesting of syntax nodes that is copied.
pub const MAX_SYNTAX_DEPTH: usize = 10000;

/// No path from `n` down the tree is longer than `depth` steps.
pub open spec fn depth_within(n: SyntaxNode, depth: nat) -> bool
    decreases n,
{
    if depth == 0 {
        n.children@.len() == 0
    } else {
        forall|i: int|
            0 <= i < n.children@.len() ==> depth_within(
                #[trigger] n.children@[i].node,
                (depth - 1) as nat,
            )
    }
}

/// `n` is the node at `path` in the PHP tree of `text`, with its subtrees copied `depth`
/// levels deep: its kind, flags, positions and text are tree-sitter's, and so are its
/// children with their fields, none below that depth.
pub open spec fn copies(n: SyntaxNode, text: Seq<char>, path: Seq<u32>, depth: nat) -> bool
    decreases n,
{
    &&& n.kind@ == ts_node_kind(text, path)
    &&& n.named == ts_node_is_named(text, path)
    &&& n.error == ts_node_is_error(text, path)
    &&& n.missing == ts_node_is_missing(text, path)
    &&& (n.start_row, n.start_column) == ts_node_start(text, path)
    &&& (n.end_row, n.end_column) == ts_node_end(text, path)
    &&& n.text.deep_view() == ts_node_text(text, path)
    &&& n.children@.len() == (if depth == 0 {
        0
    } else {
        ts_child_count(text, path) as nat
    })
    &&& forall|i: int|
        0 <= i < n.children@.len() ==> (#[trigger] n.children@[i]).field.deep_view()
            == ts_field_name(text, path, i as u32) && copies(
            n.children@[i].node,
            text,
            path.push(i as u32),
            (depth - 1) as nat,
        )
}

/// `root` is the PHP syntax tree of `text` as the tree-sitter PHP grammar parses it, copied
/// [`MAX_SYNTAX_DEPTH`] levels deep.
pub open spec fn php_tree_of(root: SyntaxNode, text: Seq<char>) -> bool {
    copies(root, text, Seq::empty(), MAX_SYNTAX_DEPTH as nat)
}

fn copy_node(node: &NodeAt<'_>, source: &str, depth_left: usize) -> (r: SyntaxNode)
    requires
        source@ == node@.0,
    ensures
        depth_within(r, depth_left as nat),
        copies(r, node@.0, node@.1, depth_left as nat),
    decreases depth_left,
{
    let (start_row, start_column) = node_start(node);
    let (end_row, end_column) = node_end(node);
    let mut children: Vec<SyntaxChild> = Vec::new();
    if depth_left > 0 {
        let count = node_child_count(node);
        let mut i: u32 = 0;
        while i < count
            invariant
                depth_left > 0,
                source@ == node@.0,
                count == ts_child_count(node@.0, node@.1),
                i <= count,
                children@.len() == i,
                forall|k: int|
                    0 <= k < children@.len() ==> depth_within(
                        #[trigger] children@[k].node,
                        (depth_left - 1) as nat,
                    ),
                forall|k: int|
                    0 <= k < children@.len() ==> (#[trigger] children@[k]).field.deep_view()
                        == ts_field_name(node@.0, node@.1, k as u32) && copies(
                        children@[k].node,
                        node@.0,
                        node@.1.push(k as u32),
                        (depth_left - 1) as nat,
                    ),
            decreases count - i,
        {
            match node_child(node, i) {
                Some(child) => {
                    let field = node_field_name(node, i);
                    children.push(SyntaxChild { field, node: copy_node(&child, source, depth_left - 1) });
                },
                None => {},
            }
            i += 1;
        }
    }
    SyntaxNode {
        kind: node_kind(node),
        named: node_is_named(node),
        error: node_is_error(node),
        missing: node_is_missing(node),
        start_row,
        start_column,
        end_row,
        end_column,
        text: node_source_text(node, source),
        children,
    }
}

/// The PHP syntax tree of a source text, as the tree-sitter PHP grammar parses it, with nodes
/// nested deeper than [`MAX_SYNTAX_DEPTH`] left without children; there is always one.
pub fn parse_php(source: &str) -> (r: Option<SyntaxNode>)
    ensures
        r is Some,
        r matches Some(root) ==> php_tree_of(root, source@) && depth_within(
            root,
            MAX_SYNTAX_DEPTH as nat,
        ),
{
    let mut parser = new_parser();
    if !set_php_language(&mut parser) {
        return None;
    }
    match parse_text(&mut parser, source) {
        Some(tree) => {
            let root = root_of(&tree);
            Some(copy_node(&root, source, MAX_SYNTAX_DEPTH))
        },
        None => None,
    }
}

/// The number of nodes of a tree.
pub open spec fn tree_size(n: SyntaxNode) -> nat
    decreases n, 0nat,
{
    1 + forest_size(n.children@)
}

/// The number of nodes of a list of subtrees.
pub open spec fn forest_size(cs: Seq<SyntaxChild>) -> nat
    decreases cs, cs.len(),
{
    if cs.len() == 0 {
        0
    } else {
        forest_size(cs.drop_last()) + tree_size(cs.last().node)
    }
}

/// Some node of the tree is an error node or a node the parser inserted to recover.
pub open spec fn has_syntax_error(n: SyntaxNode) -> bool
    decreases n, 0nat,
{
    n.error || n.missing || forest_has_syntax_error(n.children@)
}

/// Some node of a list of subtrees is an error node or an inserted one.
pub open spec fn forest_has_syntax_error(cs: Seq<SyntaxChild>) -> bool
    decreases cs, cs.len(),
{
    cs.len() > 0 && (forest_has_syntax_error(cs.drop_last()) || has_syntax_error(cs.last().node))
}

} // verus!
