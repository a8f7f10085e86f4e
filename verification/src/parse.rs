//! Parsing a source file with its tree-sitter grammar and handing the tree
//! over as [`SyntaxNode`]s in the tree's pre-order, each with its parent's
//! index.

use vstd::prelude::*;
use crate::code_map::{copy_option, structural, FileSource};
use crate::text::copy_string;
use crate::files::utf8_text;
use crate::inventory::Language;
use crate::syntax::SyntaxNode;
use tree_sitter::{Parser, Tree};

verus! {

/// The tree-sitter grammars the code map parses with.
#[derive(Debug, Clone, Copy, PartialEq, Eq, Structural)]
pub enum Grammar {
    Rust,
    Python,
    JavaScript,
    TypeScript,
    Tsx,
    Java,
    Go,
}

/// The grammar a language is read with, if it is read structurally.
pub open spec fn grammar_of(language: Language) -> Option<Grammar> {
    match language {
        Language::Rust => Some(Grammar::Rust),
        Language::Python => Some(Grammar::Python),
        Language::JavaScript | Language::Jsx => Some(Grammar::JavaScript),
        Language::TypeScript => Some(Grammar::TypeScript),
        Language::Tsx => Some(Grammar::Tsx),
        Language::Java => Some(Grammar::Java),
        Language::Go => Some(Grammar::Go),
        _ => None,
    }
}

/// What a syntax node shows: its kind, the row it starts on (from zero),
/// its depth below the root, the texts of its `name`, `function` and
/// `type` fields, and its own text.
#[derive(Debug)]
pub struct NodeFacts {
    pub kind: String,
    pub row: usize,
    pub depth: usize,
    pub name: Option<String>,
    pub function: Option<String>,
    pub type_text: Option<String>,
    pub text: Option<String>,
}

/// [`NodeFacts`] in specifications.
pub struct NodeFactsView {
    pub kind: Seq<char>,
    pub row: nat,
    pub depth: nat,
    pub name: Option<Seq<char>>,
    pub function: Option<Seq<char>>,
    pub type_text: Option<Seq<char>>,
    pub text: Option<Seq<char>>,
}

/// The view of an optional text.
pub open spec fn opt_text(s: Option<String>) -> Option<Seq<char>> {
    match s {
        Some(t) => Some(t@),
        None => None,
    }
}

impl View for NodeFacts {
    type V = NodeFactsView;

    open spec fn view(&self) -> NodeFactsView {
        NodeFactsView {
            kind: self.kind@,
            row: self.row as nat,
            depth: self.depth as nat,
            name: opt_text(self.name),
            function: opt_text(self.function),
            type_text: opt_text(self.type_text),
            text: opt_text(self.text),
        }
    }
}

/// Where a syntax node stands: its kind, the row it starts on (from zero),
/// its depth below the root, and the byte range of its text.
#[derive(Debug)]
pub struct NodeShape {
    pub kind: String,
    pub row: usize,
    pub depth: usize,
    pub start: usize,
    pub end: usize,
}

/// [`NodeShape`] in specifications.
pub struct NodeShapeView {
    pub kind: Seq<char>,
    pub row: nat,
    pub depth: nat,
    pub start: nat,
    pub end: nat,
}

impl View for NodeShape {
    type V = NodeShapeView;

    open spec fn view(&self) -> NodeShapeView {
        NodeShapeView {
            kind: self.kind@,
            row: self.row as nat,
            depth: self.depth as nat,
            start: self.start as nat,
            end: self.end as nat,
        }
    }
}

/// The view of an optional byte range.
pub open spec fn opt_range(r: Option<(usize, usize)>) -> Option<(nat, nat)> {
    match r {
        Some((a, b)) => Some((a as nat, b as nat)),
        None => None,
    }
}

/// The text of `source` over the byte range `start..end` of its UTF-8
/// encoding, when the range lies within it and holds UTF-8 text.
pub open spec fn text_in(source: Seq<char>, start: nat, end: nat) -> Option<Seq<char>> {
    let bytes = vstd::utf8::encode_utf8(source);
    if start <= end <= bytes.len() && vstd::utf8::valid_utf8(bytes.subrange(start as int, end as int)) {
        Some(vstd::utf8::decode_utf8(bytes.subrange(start as int, end as int)))
    } else {
        None
    }
}

/// The text of the child in grammar field `field` of node `index`.
pub open spec fn field_text(grammar: Grammar, source: Seq<char>, index: nat, field: Seq<char>) -> Option<Seq<char>> {
    match syntax_field_range_of(grammar, source, index, field) {
        Some((a, b)) => text_in(source, a, b),
        None => None,
    }
}

/// What node `index` of the tree parsed from `source` with `grammar` shows:
/// its kind, row and depth, the texts of its `name`, `function` and `type`
/// fields, and its own text.
pub open spec fn syntax_node_facts_of(grammar: Grammar, source: Seq<char>, index: nat) -> NodeFactsView {
    let n = syntax_node_of(grammar, source, index);
    NodeFactsView {
        kind: n.kind,
        row: n.row,
        depth: n.depth,
        name: field_text(grammar, source, index, "name"@),
        function: field_text(grammar, source, index, "function"@),
        type_text: field_text(grammar, source, index, "type"@),
        text: text_in(source, n.start, n.end),
    }
}

fn text_of(tree: &SyntaxTree, start: usize, end: usize) -> (result: Option<String>)
    ensures
        opt_text(result) == text_in(tree.source(), start as nat, end as nat),
{
    let bytes = tree.source.as_str().as_bytes();
    if start <= end && end <= bytes.len() {
        let part = vstd::slice::slice_subrange(bytes, start, end);
        utf8_text(vstd::slice::slice_to_vec(part))
    } else {
        None
    }
}

fn field_text_of(tree: &SyntaxTree, index: usize, field: &str) -> (result: Option<String>)
    requires
        index < syntax_node_count_of(tree.grammar(), tree.source()),
    ensures
        opt_text(result) == field_text(tree.grammar(), tree.source(), index as nat, field@),
{
    match field_range(tree, index, field) {
        Some((a, b)) => text_of(tree, a, b),
        None => None,
    }
}

/// What the tree shows of its node `index` in pre-order: its shape, the
/// texts of its `name`, `function` and `type` fields, and its own text.
fn node_facts(tree: &SyntaxTree, index: usize) -> (facts: NodeFacts)
    requires
        index < syntax_node_count_of(tree.grammar(), tree.source()),
    ensures
        facts@ == syntax_node_facts_of(tree.grammar(), tree.source(), index as nat),
{
    let shape = node_shape(tree, index);
    let name = field_text_of(tree, index, "name");
    let function = field_text_of(tree, index, "function");
    let type_text = field_text_of(tree, index, "type");
    let text = text_of(tree, shape.start, shape.end);
    NodeFacts { kind: shape.kind, row: shape.row, depth: shape.depth, name, function, type_text, text }
}

/// A tree that tree-sitter parsed from `source` with `grammar`; only the
/// parsing functions below make one.
pub struct SyntaxTree {
    tree: Tree,
    grammar: Grammar,
    source: String,
}

impl SyntaxTree {
    /// The grammar the tree was parsed with.
    pub closed spec fn grammar(&self) -> Grammar {
        self.grammar
    }

    /// The text the tree was parsed from.
    pub closed spec fn source(&self) -> Seq<char> {
        self.source@
    }
}

/// Whether every node's parent comes before it.
pub open spec fn parents_first(nodes: Seq<SyntaxNode>) -> bool {
    forall|i: int|
        0 <= i < nodes.len() ==> match #[trigger] nodes[i].parent {
            Some(p) => p < i,
            None => true,
        }
}

/// The line a node starting on `row` starts on, counted from one.
pub open spec fn line_of(row: nat) -> nat {
    if row < usize::MAX {
        row + 1
    } else {
        row
    }
}

/// The last of the first `i` nodes whose depth is `depth`.
pub open spec fn last_at_depth(depths: Seq<nat>, i: nat, depth: nat) -> Option<nat>
    decreases i,
{
    if i == 0 {
        None
    } else if depths[i - 1] == depth {
        Some((i - 1) as nat)
    } else {
        last_at_depth(depths, (i - 1) as nat, depth)
    }
}

/// The parent of node `i` of a pre-order listing with these depths: the
/// last node before it one level nearer the root; the root has none.
pub open spec fn parent_at(depths: Seq<nat>, i: nat) -> Option<nat> {
    if depths[i as int] == 0 {
        None
    } else {
        last_at_depth(depths, i, (depths[i as int] - 1) as nat)
    }
}

/// The depths of a list of depths, as numbers.
pub open spec fn depth_values(depths: Seq<usize>) -> Seq<nat> {
    depths.map_values(|d: usize| d as nat)
}

/// The depths of the nodes of the tree parsed from `source` with
/// `grammar`, in pre-order.
pub open spec fn tree_depths(grammar: Grammar, source: Seq<char>) -> Seq<nat> {
    Seq::new(
        syntax_node_count_of(grammar, source),
        |i: int| syntax_node_facts_of(grammar, source, i as nat).depth,
    )
}

/// The parent of node `i` of the tree parsed from `source` with `grammar`.
pub open spec fn parent_in_tree(grammar: Grammar, source: Seq<char>, i: nat) -> Option<nat> {
    parent_at(tree_depths(grammar, source), i)
}

/// The index of an optional parent.
pub open spec fn opt_index(p: Option<usize>) -> Option<nat> {
    match p {
        Some(i) => Some(i as nat),
        None => None,
    }
}

/// Whether `node` shows what the tree shows of a node, under `parent`.
pub open spec fn shows(node: SyntaxNode, facts: NodeFactsView, parent: Option<nat>) -> bool {
    &&& node.kind@ == facts.kind
    &&& node.line as nat == line_of(facts.row)
    &&& opt_text(node.name) == facts.name
    &&& opt_text(node.function) == facts.function
    &&& opt_text(node.type_text) == facts.type_text
    &&& opt_text(node.text) == facts.text
    &&& opt_index(node.parent) == parent
}

/// Whether `nodes` are the nodes of the tree parsed from `source` with
/// `grammar`, in its pre-order, each under its parent.
pub open spec fn flattened(grammar: Grammar, source: Seq<char>, nodes: Seq<SyntaxNode>) -> bool {
    &&& nodes.len() == syntax_node_count_of(grammar, source)
    &&& forall|i: int|
        0 <= i < nodes.len() ==> shows(
            #[trigger] nodes[i],
            syntax_node_facts_of(grammar, source, i as nat),
            parent_in_tree(grammar, source, i as nat),
        )
}

proof fn lemma_last_at_depth_before(depths: Seq<nat>, i: nat, depth: nat)
    ensures
        last_at_depth(depths, i, depth) matches Some(j) ==> j < i,
    decreases i,
{
    if i > 0 {
        lemma_last_at_depth_before(depths, (i - 1) as nat, depth);
    }
}

/// The parent of each node of a pre-order listing with the depths
/// `depths`: the last earlier node one level nearer the root, if any.
pub fn parents_from_depths(depths: &Vec<usize>) -> (parents: Vec<Option<usize>>)
    ensures
        parents@.len() == depths@.len(),
        forall|i: int|
            0 <= i < depths@.len() ==> opt_index(#[trigger] parents@[i]) == parent_at(
                depth_values(depths@),
                i as nat,
            ),
        forall|i: int|
            0 <= i < depths@.len() ==> (#[trigger] parents@[i] matches Some(p) ==> p < i),
{
    let ghost ds = depth_values(depths@);
    let mut parents: Vec<Option<usize>> = Vec::new();
    // `last[d]` is the last node so far at depth `d`.
    let mut last: Vec<Option<usize>> = Vec::new();
    let mut i: usize = 0;
    while i < depths.len()
        invariant
            ds == depth_values(depths@),
            i <= depths@.len(),
            parents@.len() == i,
            forall|k: int| 0 <= k < i ==> opt_index(#[trigger] parents@[k]) == parent_at(ds, k as nat),
            forall|k: int| 0 <= k < i ==> (#[trigger] parents@[k] matches Some(p) ==> p < k),
            forall|d: int|
                0 <= d < last@.len() ==> opt_index(#[trigger] last@[d]) == last_at_depth(ds, i as nat, d as nat),
            forall|d: nat| d >= last@.len() ==> #[trigger] last_at_depth(ds, i as nat, d) is None,
        decreases depths.len() - i,
    {
        let depth = depths[i];
        assert(ds[i as int] == depth as nat);
        let parent: Option<usize> = if depth == 0 {
            None
        } else if depth - 1 < last.len() {
            last[depth - 1]
        } else {
            None
        };
        proof {
            if depth > 0 {
                lemma_last_at_depth_before(ds, i as nat, (depth - 1) as nat);
            }
        }
        assert(opt_index(parent) == parent_at(ds, i as nat));
        while last.len() <= depth
            invariant
                forall|d: int|
                    0 <= d < last@.len() ==> opt_index(#[trigger] last@[d]) == last_at_depth(ds, i as nat, d as nat),
                forall|d: nat| d >= last@.len() ==> #[trigger] last_at_depth(ds, i as nat, d) is None,
            decreases depth + 1 - last.len(),
        {
            last.push(None);
        }
        let ghost before = last@;
        last.set(depth, Some(i));
        parents.push(parent);
        proof {
            assert forall|d: int| 0 <= d < last@.len() implies opt_index(#[trigger] last@[d]) == last_at_depth(
                ds,
                (i + 1) as nat,
                d as nat,
            ) by {
                if d != depth {
                    assert(last@[d] == before[d]);
                }
            }
            assert forall|d: nat| d >= last@.len() implies #[trigger] last_at_depth(ds, (i + 1) as nat, d) is None by {
                assert(last_at_depth(ds, i as nat, d) is None);
            }
        }
        i = i + 1;
    }
    parents
}

/// A node from what the tree showed of it.
fn syntax_node(facts: &NodeFacts, parent: Option<usize>) -> (node: SyntaxNode)
    ensures
        shows(node, facts@, opt_index(parent)),
        node.parent == parent,
{
    let line = if facts.row < usize::MAX {
        facts.row + 1
    } else {
        facts.row
    };
    SyntaxNode {
        kind: copy_string(&facts.kind),
        parent,
        line,
        name: copy_option(&facts.name),
        function: copy_option(&facts.function),
        type_text: copy_option(&facts.type_text),
        text: copy_option(&facts.text),
    }
}

/// The nodes of `tree` in pre-order, each under the last node before it
/// that lies one level nearer the root (its parent in pre-order).
pub fn flatten_tree(tree: &SyntaxTree) -> (nodes: Vec<SyntaxNode>)
    ensures
        flattened(tree.grammar(), tree.source(), nodes@),
        parents_first(nodes@),
{
    let ghost g = tree.grammar();
    let ghost s = tree.source();
    let total = node_count(tree);
    let mut all: Vec<NodeFacts> = Vec::new();
    let mut depths: Vec<usize> = Vec::new();
    let mut i: usize = 0;
    while i < total
        invariant
            g == tree.grammar(),
            s == tree.source(),
            total == syntax_node_count_of(g, s),
            i <= total,
            all@.len() == i,
            depths@.len() == i,
            forall|k: int| 0 <= k < i ==> (#[trigger] all@[k])@ == syntax_node_facts_of(g, s, k as nat),
            forall|k: int| 0 <= k < i ==> #[trigger] depths@[k] == all@[k].depth,
        decreases total - i,
    {
        let facts = node_facts(tree, i);
        depths.push(facts.depth);
        all.push(facts);
        i = i + 1;
    }
    assert(depth_values(depths@) =~= tree_depths(g, s));
    let parents = parents_from_depths(&depths);
    let mut nodes: Vec<SyntaxNode> = Vec::new();
    let mut k: usize = 0;
    while k < total
        invariant
            g == tree.grammar(),
            s == tree.source(),
            total == syntax_node_count_of(g, s),
            all@.len() == total,
            parents@.len() == total,
            forall|j: int| 0 <= j < total ==> (#[trigger] all@[j])@ == syntax_node_facts_of(g, s, j as nat),
            forall|j: int| 0 <= j < total ==> opt_index(#[trigger] parents@[j]) == parent_in_tree(g, s, j as nat),
            forall|j: int| 0 <= j < total ==> (#[trigger] parents@[j] matches Some(p) ==> p < j),
            k <= total,
            nodes@.len() == k,
            forall|j: int|
                0 <= j < k ==> shows(
                    #[trigger] nodes@[j],
                    syntax_node_facts_of(g, s, j as nat),
                    parent_in_tree(g, s, j as nat),
                ),
            forall|j: int| 0 <= j < k ==> nodes@[j].parent == #[trigger] parents@[j],
        decreases total - k,
    {
        let node = syntax_node(&all[k], parents[k]);
        nodes.push(node);
        k = k + 1;
    }
    assert forall|j: int| 0 <= j < nodes@.len() implies match #[trigger] nodes@[j].parent {
        Some(p) => p < j,
        None => true,
    } by {
        assert(nodes@[j].parent == parents@[j]);
    }
    nodes
}

/// Parses `source` with the grammar of `language`.  Only the languages
/// the code map reads structurally have one; a file whose grammar cannot
/// be loaded or whose tree holds a syntax error is unavailable.  The nodes
/// of a parsed file are those of its tree, in pre-order, each under its
/// parent.
pub fn read_syntax(language: Language, source: &str) -> (result: FileSource)
    ensures
        !structural(language) ==> result is Unavailable,
        match grammar_of(language) {
            None => result is Unavailable,
            Some(g) => {
                &&& (result is Parsed <==> grammar_loads_of(g) && !syntax_error_of(g, source@))
                &&& (result matches FileSource::Parsed(nodes) ==> flattened(g, source@, nodes@)
                    && parents_first(nodes@))
            },
        },
{
    let tree = match language {
        Language::Rust => rust_tree(source),
        Language::Python => python_tree(source),
        Language::JavaScript | Language::Jsx => javascript_tree(source),
        Language::TypeScript => typescript_tree(source),
        Language::Tsx => tsx_tree(source),
        Language::Java => java_tree(source),
        Language::Go => go_tree(source),
        _ => None,
    };
    match tree {
        None => FileSource::Unavailable,
        Some(t) => if tree_has_error(&t) {
            FileSource::Unavailable
        } else {
            FileSource::Parsed(flatten_tree(&t))
        },
    }
}

// ----------------------------------------------------------------------------
// Trusted items: tree-sitter
// ----------------------------------------------------------------------------

/// `tree_sitter::Tree`, carried opaquely.
#[verifier::external_type_specification]
#[verifier::external_body]
pub struct ExSyntaxTree(Tree);

/// Whether `Parser::set_language` accepts the grammar: it depends on the
/// grammar's ABI version alone.
pub uninterp spec fn grammar_loads_of(grammar: Grammar) -> bool;

/// Whether the root of the tree parsed from `source` with `grammar` holds a
/// syntax error (`Node::has_error`).
pub uninterp spec fn syntax_error_of(grammar: Grammar, source: Seq<char>) -> bool;

/// The number of nodes of the tree parsed from `source` with `grammar`,
/// the root included (`Node::descendant_count`).
pub uninterp spec fn syntax_node_count_of(grammar: Grammar, source: Seq<char>) -> nat;

/// What the tree parsed from `source` with `grammar` shows of its node
/// `index` in pre-order (`TreeCursor::goto_descendant`, then the node's
/// kind, start row, depth and byte range).
pub uninterp spec fn syntax_node_of(grammar: Grammar, source: Seq<char>, index: nat) -> NodeShapeView;

/// The byte range of the child in grammar field `field` of node `index` of
/// the tree parsed from `source` with `grammar`, if it has one.
pub uninterp spec fn syntax_field_range_of(grammar: Grammar, source: Seq<char>, index: nat, field: Seq<char>) -> Option<(nat, nat)>;

/// Parses `source` with `tree-sitter-rust` (`Parser::set_language`, then
/// `Parser::parse`, which returns a tree once a language is set).
#[verifier::external_body]
fn rust_tree(source: &str) -> (tree: Option<SyntaxTree>)
    ensures
        tree is Some <==> grammar_loads_of(Grammar::Rust),
        tree matches Some(t) ==> t.grammar() == Grammar::Rust && t.source() == source@,
{
    let mut parser = Parser::new();
    parser.set_language(&tree_sitter_rust::LANGUAGE.into()).ok()?;
    let tree = parser.parse(source, None)?;
    Some(SyntaxTree { tree, grammar: Grammar::Rust, source: source.to_owned() })
}

/// Parses `source` with `tree-sitter-python`, as [`rust_tree`] does.
#[verifier::external_body]
fn python_tree(source: &str) -> (tree: Option<SyntaxTree>)
    ensures
        tree is Some <==> grammar_loads_of(Grammar::Python),
        tree matches Some(t) ==> t.grammar() == Grammar::Python && t.source() == source@,
{
    let mut parser = Parser::new();
    parser.set_language(&tree_sitter_python::LANGUAGE.into()).ok()?;
    let tree = parser.parse(source, None)?;
    Some(SyntaxTree { tree, grammar: Grammar::Python, source: source.to_owned() })
}

/// Parses `source` with `tree-sitter-javascript`, as [`rust_tree`] does.
#[verifier::external_body]
fn javascript_tree(source: &str) -> (tree: Option<SyntaxTree>)
    ensures
        tree is Some <==> grammar_loads_of(Grammar::JavaScript),
        tree matches Some(t) ==> t.grammar() == Grammar::JavaScript && t.source() == source@,
{
    let mut parser = Parser::new();
    parser.set_language(&tree_sitter_javascript::LANGUAGE.into()).ok()?;
    let tree = parser.parse(source, None)?;
    Some(SyntaxTree { tree, grammar: Grammar::JavaScript, source: source.to_owned() })
}

/// Parses `source` with the TypeScript grammar of
/// `tree-sitter-typescript`, as [`rust_tree`] does.
#[verifier::external_body]
fn typescript_tree(source: &str) -> (tree: Option<SyntaxTree>)
    ensures
        tree is Some <==> grammar_loads_of(Grammar::TypeScript),
        tree matches Some(t) ==> t.grammar() == Grammar::TypeScript && t.source() == source@,
{
    let mut parser = Parser::new();
    parser.set_language(&tree_sitter_typescript::LANGUAGE_TYPESCRIPT.into()).ok()?;
    let tree = parser.parse(source, None)?;
    Some(SyntaxTree { tree, grammar: Grammar::TypeScript, source: source.to_owned() })
}

/// Parses `source` with the TSX grammar of `tree-sitter-typescript`, as
/// [`rust_tree`] does.
#[verifier::external_body]
fn tsx_tree(source: &str) -> (tree: Option<SyntaxTree>)
    ensures
        tree is Some <==> grammar_loads_of(Grammar::Tsx),
        tree matches Some(t) ==> t.grammar() == Grammar::Tsx && t.source() == source@,
{
    let mut parser = Parser::new();
    parser.set_language(&tree_sitter_typescript::LANGUAGE_TSX.into()).ok()?;
    let tree = parser.parse(source, None)?;
    Some(SyntaxTree { tree, grammar: Grammar::Tsx, source: source.to_owned() })
}

/// Parses `source` with `tree-sitter-java`, as [`rust_tree`] does.
#[verifier::external_body]
fn java_tree(source: &str) -> (tree: Option<SyntaxTree>)
    ensures
        tree is Some <==> grammar_loads_of(Grammar::Java),
        tree matches Some(t) ==> t.grammar() == Grammar::Java && t.source() == source@,
{
    let mut parser = Parser::new();
    parser.set_language(&tree_sitter_java::LANGUAGE.into()).ok()?;
    let tree = parser.parse(source, None)?;
    Some(SyntaxTree { tree, grammar: Grammar::Java, source: source.to_owned() })
}

/// Parses `source` with `tree-sitter-go`, as [`rust_tree`] does.
#[verifier::external_body]
fn go_tree(source: &str) -> (tree: Option<SyntaxTree>)
    ensures
        tree is Some <==> grammar_loads_of(Grammar::Go),
        tree matches Some(t) ==> t.grammar() == Grammar::Go && t.source() == source@,
{
    let mut parser = Parser::new();
    parser.set_language(&tree_sitter_go::LANGUAGE.into()).ok()?;
    let tree = parser.parse(source, None)?;
    Some(SyntaxTree { tree, grammar: Grammar::Go, source: source.to_owned() })
}

/// Calls `Node::has_error` on the root of the tree: the named answer for
/// the tree's grammar and source.
#[verifier::external_body]
fn tree_has_error(tree: &SyntaxTree) -> (result: bool)
    ensures
        result == syntax_error_of(tree.grammar(), tree.source()),
{
    tree.tree.root_node().has_error()
}

/// Calls `Node::descendant_count` on the root of the tree: the named count
/// for the tree's grammar and source.
#[verifier::external_body]
fn node_count(tree: &SyntaxTree) -> (result: usize)
    ensures
        result == syntax_node_count_of(tree.grammar(), tree.source()),
{
    tree.tree.root_node().descendant_count()
}

/// Moves a cursor on the root to node `index` in pre-order
/// (`TreeCursor::goto_descendant`) and reads `Node::kind`, the row of
/// `Node::start_position`, `TreeCursor::depth` and `Node::byte_range`: the
/// named shape of that node.
#[verifier::external_body]
fn node_shape(tree: &SyntaxTree, index: usize) -> (shape: NodeShape)
    requires
        index < syntax_node_count_of(tree.grammar(), tree.source()),
    ensures
        shape@ == syntax_node_of(tree.grammar(), tree.source(), index as nat),
{
    let mut cursor = tree.tree.walk();
    cursor.goto_descendant(index);
    let node = cursor.node();
    let range = node.byte_range();
    NodeShape {
        kind: node.kind().to_owned(),
        row: node.start_position().row,
        depth: cursor.depth() as usize,
        start: range.start,
        end: range.end,
    }
}

/// Moves a cursor on the root to node `index` in pre-order and reads the
/// `Node::byte_range` of its child in the grammar field `field`
/// (`Node::child_by_field_name`), if it has one: the named range.
#[verifier::external_body]
fn field_range(tree: &SyntaxTree, index: usize, field: &str) -> (range: Option<(usize, usize)>)
    requires
        index < syntax_node_count_of(tree.grammar(), tree.source()),
    ensures
        opt_range(range) == syntax_field_range_of(tree.grammar(), tree.source(), index as nat, field@),
{
    let mut cursor = tree.tree.walk();
    cursor.goto_descendant(index);
    let range = cursor.node().child_by_field_name(field)?.byte_range();
    Some((range.start, range.end))
}

} // verus!
