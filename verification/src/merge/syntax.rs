//! Syntax trees as plain values.
//!
//! A parser hands back a tree of nodes. The merges read of each node its
//! kind, whether it is named, the field under which its parent holds it, its
//! byte range and its children; `SyntaxNode` holds exactly that.

use crate::chars;
use crate::text;
use vstd::prelude::*;
use vstd::slice::slice_subrange;
use vstd::utf8::{decode_utf8, valid_utf8};

verus! {

/// The grammars that a file can be parsed with.
#[derive(Clone, Copy, Debug, PartialEq, Eq, Structural)]
pub enum Grammar {
    Rust,
    Php,
    Python,
    JavaScript,
    TypeScript,
    Tsx,
    Css,
    Markdown,
    Lua,
    Bash,
    Zsh,
    Ruby,
    Html,
}

/// A node of a syntax tree.
#[derive(Debug)]
pub struct SyntaxNode {
    /// The node's type in its grammar.
    pub kind: Vec<char>,
    /// Whether the node stands for a named rule of the grammar.
    pub named: bool,
    /// The field of the parent that holds this node, if any.
    pub field: Option<Vec<char>>,
    pub start_byte: usize,
    pub end_byte: usize,
    /// All children, named or not, in the order of the text.
    pub children: Vec<SyntaxNode>,
}

#[verifier::external_type_specification]
#[verifier::external_body]
pub struct ExLanguage(tree_sitter::Language);

#[verifier::external_type_specification]
#[verifier::external_body]
pub struct ExNode<'tree>(tree_sitter::Node<'tree>);

/// The tree that the grammar's parser builds for a text, if it builds one.
pub uninterp spec fn parsed(grammar: Grammar, text: Seq<char>) -> Option<SyntaxNode>;

/// The `LANGUAGE` constant of the grammar's crate, as a `tree_sitter::Language`.
#[verifier::external_body]
fn language(grammar: Grammar) -> tree_sitter::Language {
    match grammar {
        Grammar::Rust => tree_sitter_rust::LANGUAGE.into(),
        Grammar::Php => tree_sitter_php::LANGUAGE_PHP.into(),
        Grammar::Python => tree_sitter_python::LANGUAGE.into(),
        Grammar::JavaScript => tree_sitter_javascript::LANGUAGE.into(),
        Grammar::TypeScript => tree_sitter_typescript::LANGUAGE_TYPESCRIPT.into(),
        Grammar::Tsx => tree_sitter_typescript::LANGUAGE_TSX.into(),
        Grammar::Css => tree_sitter_css::LANGUAGE.into(),
        Grammar::Markdown => tree_sitter_md::LANGUAGE.into(),
        Grammar::Lua => tree_sitter_lua::LANGUAGE.into(),
        Grammar::Bash => tree_sitter_bash::LANGUAGE.into(),
        Grammar::Zsh => tree_sitter_zsh::LANGUAGE.into(),
        Grammar::Ruby => tree_sitter_ruby::LANGUAGE.into(),
        Grammar::Html => tree_sitter_html::LANGUAGE.into(),
    }
}

/// Copies what `tree_sitter::Node` tells of a node and of its children:
/// `kind`, `is_named`, `start_byte`, `end_byte`, `child_count`, `child` and
/// `field_name_for_child`. The copy is made by recursion, as deep as the
/// tree is.
#[verifier::external_body]
fn node_image(node: tree_sitter::Node<'_>, field: Option<&str>) -> SyntaxNode {
    let mut children = Vec::new();
    for i in 0..node.child_count() {
        if let Some(child) = node.child(i) {
            children.push(node_image(child, node.field_name_for_child(i)));
        }
    }
    SyntaxNode {
        kind: node.kind().chars().collect(),
        named: node.is_named(),
        field: field.map(|f| f.chars().collect()),
        start_byte: node.start_byte(),
        end_byte: node.end_byte(),
        children,
    }
}

/// `tree_sitter::Parser::parse` with the grammar's language set: the tree of
/// the text, copied into a `SyntaxNode`, or nothing where the language is
/// refused or the parser gives no tree. The same grammar and text give the
/// same tree.
#[verifier::external_body]
fn parse_text(grammar: Grammar, text: &str) -> (r: Option<SyntaxNode>)
    ensures
        r == parsed(grammar, text@),
{
    let mut parser = tree_sitter::Parser::new();
    parser.set_language(&language(grammar)).ok()?;
    let tree = parser.parse(text, None)?;
    Some(node_image(tree.root_node(), None))
}

/// Parses a text with a grammar.
pub fn parse(grammar: Grammar, text: &Vec<char>) -> (r: Option<SyntaxNode>)
    ensures
        r == parsed(grammar, text@),
{
    let s = chars::to_string(text);
    parse_text(grammar, s.as_str())
}

/// The text that a node covers: the bytes of its range, where the range lies
/// in the file and holds well-formed UTF-8.
pub open spec fn text_of(node: SyntaxNode, bytes: Seq<u8>) -> Option<Seq<char>> {
    if node.start_byte <= node.end_byte <= bytes.len() && valid_utf8(
        bytes.subrange(node.start_byte as int, node.end_byte as int),
    ) {
        Some(decode_utf8(bytes.subrange(node.start_byte as int, node.end_byte as int)))
    } else {
        None
    }
}

/// The text of a node, or the empty text where it has none.
pub open spec fn text_or_empty(node: SyntaxNode, bytes: Seq<u8>) -> Seq<char> {
    match text_of(node, bytes) {
        Some(t) => t,
        None => Seq::empty(),
    }
}

/// The index of the first child from `from` on that is held under `field`,
/// or the number of children.
pub open spec fn field_index(children: Seq<SyntaxNode>, field: Seq<char>, from: int) -> int
    decreases children.len() - from,
{
    if 0 <= from < children.len() && !(children[from].field matches Some(f) && f@ == field) {
        field_index(children, field, from + 1)
    } else {
        from
    }
}

/// The index of the first named child from `from` on whose kind is `kind`,
/// or the number of children.
pub open spec fn kind_index(children: Seq<SyntaxNode>, kind: Seq<char>, from: int) -> int
    decreases children.len() - from,
{
    if 0 <= from < children.len() && !(children[from].named && children[from].kind@ == kind) {
        kind_index(children, kind, from + 1)
    } else {
        from
    }
}

/// The named children, in their order.
pub open spec fn named_children(children: Seq<SyntaxNode>) -> Seq<SyntaxNode>
    decreases children.len(),
{
    if children.len() == 0 {
        Seq::empty()
    } else if children.last().named {
        named_children(children.drop_last()).push(children.last())
    } else {
        named_children(children.drop_last())
    }
}

/// The text that a node covers.
pub fn node_text(node: &SyntaxNode, bytes: &[u8]) -> (r: Option<Vec<char>>)
    ensures
        match r {
            Some(t) => text_of(*node, bytes@) == Some(t@),
            None => text_of(*node, bytes@) is None,
        },
{
    if node.start_byte <= node.end_byte && node.end_byte <= bytes.len() {
        chars::decode(slice_subrange(bytes, node.start_byte, node.end_byte))
    } else {
        None
    }
}

/// The text that a node covers; the empty text where it covers none.
pub fn node_text_or_empty(node: &SyntaxNode, bytes: &[u8]) -> (r: Vec<char>)
    ensures
        r@ == text_or_empty(*node, bytes@),
{
    match node_text(node, bytes) {
        Some(t) => t,
        None => Vec::new(),
    }
}

/// The first child that the node holds under `field`.
pub fn child_by_field<'a>(node: &'a SyntaxNode, field: &str) -> (r: Option<&'a SyntaxNode>)
    ensures
        match r {
            Some(c) => field_index(node.children@, field@, 0) < node.children@.len() && *c
                == node.children@[field_index(node.children@, field@, 0)],
            None => field_index(node.children@, field@, 0) >= node.children@.len(),
        },
{
    let mut i: usize = 0;
    while i < node.children.len()
        invariant
            i <= node.children.len(),
            field_index(node.children@, field@, 0) == field_index(node.children@, field@, i as int),
        decreases node.children.len() - i,
    {
        let hit = match &node.children[i].field {
            Some(f) => chars::eq_str(f, field),
            None => false,
        };
        if hit {
            return Some(&node.children[i]);
        }
        i += 1;
    }
    None
}

/// The first named child whose kind is `kind`.
pub fn child_of_kind<'a>(node: &'a SyntaxNode, kind: &str) -> (r: Option<&'a SyntaxNode>)
    ensures
        match r {
            Some(c) => kind_index(node.children@, kind@, 0) < node.children@.len() && *c
                == node.children@[kind_index(node.children@, kind@, 0)],
            None => kind_index(node.children@, kind@, 0) >= node.children@.len(),
        },
{
    let mut i: usize = 0;
    while i < node.children.len()
        invariant
            i <= node.children.len(),
            kind_index(node.children@, kind@, 0) == kind_index(node.children@, kind@, i as int),
        decreases node.children.len() - i,
    {
        if node.children[i].named && chars::eq_str(&node.children[i].kind, kind) {
            return Some(&node.children[i]);
        }
        i += 1;
    }
    None
}

/// `field_index` lies between `from` and the number of children.
pub proof fn lemma_field_index_bounds(children: Seq<SyntaxNode>, field: Seq<char>, from: int)
    requires
        0 <= from <= children.len(),
    ensures
        from <= field_index(children, field, from) <= children.len(),
    decreases children.len() - from,
{
    if from < children.len() && !(children[from].field matches Some(f) && f@ == field) {
        lemma_field_index_bounds(children, field, from + 1);
    }
}

/// `kind_index` lies between `from` and the number of children.
pub proof fn lemma_kind_index_bounds(children: Seq<SyntaxNode>, kind: Seq<char>, from: int)
    requires
        0 <= from <= children.len(),
    ensures
        from <= kind_index(children, kind, from) <= children.len(),
    decreases children.len() - from,
{
    if from < children.len() && !(children[from].named && children[from].kind@ == kind) {
        lemma_kind_index_bounds(children, kind, from + 1);
    }
}

/// The named nodes below `node` that hang on its children before index
/// `upto`: the last of these children first, each named child followed by
/// what lies below it.
pub open spec fn walk(node: SyntaxNode, upto: int) -> Seq<SyntaxNode>
    decreases node, upto,
{
    if upto <= 0 || upto > node.children@.len() {
        Seq::empty()
    } else {
        let c = node.children@[upto - 1];
        let below = if c.named {
            seq![c] + walk(c, c.children@.len() as int)
        } else {
            Seq::empty()
        };
        below + walk(node, upto - 1)
    }
}

/// The root and the named nodes below it, in the order in which the merges
/// visit them.
pub open spec fn all_nodes(root: SyntaxNode) -> Seq<SyntaxNode> {
    seq![root] + walk(root, root.children@.len() as int)
}

/// Whether the node's kind, in lower case, holds `word`.
pub open spec fn kind_holds(node: SyntaxNode, word: Seq<char>) -> bool {
    text::contains(text::to_ascii_lowercase(node.kind@), word)
}

/// The nodes whose kind holds `word`, in their order.
pub open spec fn holding(nodes: Seq<SyntaxNode>, word: Seq<char>) -> Seq<SyntaxNode>
    decreases nodes.len(),
{
    if nodes.len() == 0 {
        Seq::empty()
    } else if kind_holds(nodes.last(), word) {
        holding(nodes.drop_last(), word).push(nodes.last())
    } else {
        holding(nodes.drop_last(), word)
    }
}

/// The nodes behind the references.
pub open spec fn derefs(v: Seq<&SyntaxNode>) -> Seq<SyntaxNode> {
    v.map_values(|r: &SyntaxNode| *r)
}

/// The nodes of two sequences that hold a word are those of the first, then
/// those of the second.
pub proof fn lemma_holding_concat(a: Seq<SyntaxNode>, b: Seq<SyntaxNode>, word: Seq<char>)
    ensures
        holding(a + b, word) == holding(a, word) + holding(b, word),
    decreases b.len(),
{
    if b.len() == 0 {
        assert(a + b =~= a);
        assert(holding(a, word) + holding(b, word) =~= holding(a, word));
    } else {
        assert((a + b).drop_last() =~= a + b.drop_last());
        assert((a + b).last() == b.last());
        lemma_holding_concat(a, b.drop_last(), word);
        assert(holding(a + b, word) =~= holding(a, word) + holding(b, word));
    }
}

/// Of a single node, `holding` keeps the node where its kind holds the word.
pub proof fn lemma_holding_one(x: SyntaxNode, word: Seq<char>)
    ensures
        holding(seq![x], word) == if kind_holds(x, word) {
            seq![x]
        } else {
            Seq::<SyntaxNode>::empty()
        },
{
    assert(seq![x].drop_last() =~= Seq::<SyntaxNode>::empty());
    assert(seq![x].last() == x);
    assert(holding(Seq::<SyntaxNode>::empty(), word) =~= Seq::<SyntaxNode>::empty());
    assert(Seq::<SyntaxNode>::empty().push(x) =~= seq![x]);
}

/// Whether the kind of a node holds a word, without regard to case.
pub fn node_kind_holds(node: &SyntaxNode, word: &str) -> (r: bool)
    ensures
        r == kind_holds(*node, word@),
{
    let lower = chars::to_ascii_lowercase(&node.kind);
    let w = chars::from_str(word);
    chars::contains(&lower, &w)
}

/// Adds to `out` the nodes of `walk(node, upto)` whose kind holds `word`.
fn collect_below<'a>(node: &'a SyntaxNode, upto: usize, word: &str, out: &mut Vec<&'a SyntaxNode>)
    requires
        upto <= node.children@.len(),
    ensures
        derefs(final(out)@) == derefs(old(out)@) + holding(walk(*node, upto as int), word@),
    decreases node, upto,
{
    if upto == 0 {
        assert(derefs(out@) + holding(walk(*node, 0), word@) =~= derefs(out@));
        return ;
    }
    let c = &node.children[upto - 1];
    let ghost start = derefs(out@);
    let ghost below = if c.named {
        seq![*c] + walk(*c, c.children@.len() as int)
    } else {
        Seq::<SyntaxNode>::empty()
    };
    if c.named {
        if node_kind_holds(c, word) {
            out.push(c);
            assert(derefs(out@) =~= start.push(*c));
        }
        collect_below(c, c.children.len(), word, out);
        proof {
            lemma_holding_concat(seq![*c], walk(*c, c.children@.len() as int), word@);
            lemma_holding_one(*c, word@);
            assert(derefs(out@) =~= start + holding(below, word@));
        }
    } else {
        assert(start + holding(below, word@) =~= start);
    }
    collect_below(node, upto - 1, word, out);
    proof {
        lemma_holding_concat(below, walk(*node, upto - 1), word@);
        assert(derefs(out@) =~= start + holding(walk(*node, upto as int), word@));
    }
}

/// The root and the named nodes below it whose kind holds `word`.
pub fn nodes_holding<'a>(root: &'a SyntaxNode, word: &str) -> (r: Vec<&'a SyntaxNode>)
    ensures
        derefs(r@) == holding(all_nodes(*root), word@),
{
    let mut out: Vec<&'a SyntaxNode> = Vec::new();
    if node_kind_holds(root, word) {
        out.push(root);
    }
    proof {
        lemma_holding_one(*root, word@);
        assert(derefs(out@) =~= holding(seq![*root], word@));
        lemma_holding_concat(seq![*root], walk(*root, root.children@.len() as int), word@);
    }
    collect_below(root, root.children.len(), word, &mut out);
    out
}

} // verus!
