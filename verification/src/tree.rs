//! The markdown syntax tree that the renderer reads, and its mathematical model.
//!
//! `MdNode` holds, as plain values, what rendering reads of an mdast node; its
//! view `Tree` is the same tree made of sequences, over which every contract of
//! the crate is stated.
use vstd::prelude::*;

verus! {

/// A node of a markdown syntax tree (mdast), with the fields that rendering reads.
#[derive(Debug, PartialEq, Eq)]
pub enum MdNode {
    Root { children: Vec<MdNode> },
    Blockquote { children: Vec<MdNode> },
    FootnoteDefinition { children: Vec<MdNode> },
    MdxJsxFlowElement { children: Vec<MdNode> },
    List { ordered: bool, start: Option<u32>, children: Vec<MdNode> },
    MdxjsEsm { value: String },
    Toml { value: String },
    Yaml { value: String },
    Break,
    InlineCode { value: String },
    InlineMath { value: String },
    Delete { children: Vec<MdNode> },
    Emphasis { children: Vec<MdNode> },
    MdxTextExpression { value: String },
    FootnoteReference { identifier: String },
    Html { value: String },
    Image { alt: String, url: String },
    ImageReference { alt: String, identifier: String },
    MdxJsxTextElement { children: Vec<MdNode> },
    Link { url: String, children: Vec<MdNode> },
    LinkReference { identifier: String, children: Vec<MdNode> },
    Strong { children: Vec<MdNode> },
    Text { value: String },
    Code { lang: Option<String>, value: String },
    Math { value: String },
    MdxFlowExpression { value: String },
    Heading { depth: u8, children: Vec<MdNode> },
    Table { children: Vec<MdNode> },
    ThematicBreak,
    TableRow { children: Vec<MdNode> },
    TableCell { children: Vec<MdNode> },
    ListItem { checked: Option<bool>, spread: bool, children: Vec<MdNode> },
    Definition { identifier: String, url: String },
    Paragraph { children: Vec<MdNode> },
}

/// The mathematical model of an `MdNode`: the same tree, with sequences for
/// vectors and strings.
pub enum Tree {
    Root { children: Seq<Tree> },
    Blockquote { children: Seq<Tree> },
    FootnoteDefinition { children: Seq<Tree> },
    MdxJsxFlowElement { children: Seq<Tree> },
    List { ordered: bool, start: Option<u32>, children: Seq<Tree> },
    MdxjsEsm { value: Seq<char> },
    Toml { value: Seq<char> },
    Yaml { value: Seq<char> },
    Break,
    InlineCode { value: Seq<char> },
    InlineMath { value: Seq<char> },
    Delete { children: Seq<Tree> },
    Emphasis { children: Seq<Tree> },
    MdxTextExpression { value: Seq<char> },
    FootnoteReference { identifier: Seq<char> },
    Html { value: Seq<char> },
    Image { alt: Seq<char>, url: Seq<char> },
    ImageReference { alt: Seq<char>, identifier: Seq<char> },
    MdxJsxTextElement { children: Seq<Tree> },
    Link { url: Seq<char>, children: Seq<Tree> },
    LinkReference { identifier: Seq<char>, children: Seq<Tree> },
    Strong { children: Seq<Tree> },
    Text { value: Seq<char> },
    Code { lang: Option<Seq<char>>, value: Seq<char> },
    Math { value: Seq<char> },
    MdxFlowExpression { value: Seq<char> },
    Heading { depth: u8, children: Seq<Tree> },
    Table { children: Seq<Tree> },
    ThematicBreak,
    TableRow { children: Seq<Tree> },
    TableCell { children: Seq<Tree> },
    ListItem { checked: Option<bool>, spread: bool, children: Seq<Tree> },
    Definition { identifier: Seq<char>, url: Seq<char> },
    Paragraph { children: Seq<Tree> },
}

/// The views of a sequence of nodes, in order.
pub open spec fn view_nodes(nodes: Seq<MdNode>) -> Seq<Tree>
    decreases nodes,
{
    Seq::new(
        nodes.len(),
        |i: int|
            if 0 <= i < nodes.len() {
                view_node(nodes[i])
            } else {
                Tree::Break
            },
    )
}

pub open spec fn view_lang(lang: Option<String>) -> Option<Seq<char>> {
    match lang {
        Some(l) => Some(l@),
        None => None,
    }
}

/// The view of one node.
pub open spec fn view_node(n: MdNode) -> Tree
    decreases n,
{
    match n {
        MdNode::Root { children } => Tree::Root { children: view_nodes(children@) },
        MdNode::Blockquote { children } => Tree::Blockquote { children: view_nodes(children@) },
        MdNode::FootnoteDefinition { children } => Tree::FootnoteDefinition {
            children: view_nodes(children@),
        },
        MdNode::MdxJsxFlowElement { children } => Tree::MdxJsxFlowElement {
            children: view_nodes(children@),
        },
        MdNode::List { ordered, start, children } => Tree::List {
            ordered,
            start,
            children: view_nodes(children@),
        },
        MdNode::MdxjsEsm { value } => Tree::MdxjsEsm { value: value@ },
        MdNode::Toml { value } => Tree::Toml { value: value@ },
        MdNode::Yaml { value } => Tree::Yaml { value: value@ },
        MdNode::Break => Tree::Break,
        MdNode::InlineCode { value } => Tree::InlineCode { value: value@ },
        MdNode::InlineMath { value } => Tree::InlineMath { value: value@ },
        MdNode::Delete { children } => Tree::Delete { children: view_nodes(children@) },
        MdNode::Emphasis { children } => Tree::Emphasis { children: view_nodes(children@) },
        MdNode::MdxTextExpression { value } => Tree::MdxTextExpression { value: value@ },
        MdNode::FootnoteReference { identifier } => Tree::FootnoteReference {
            identifier: identifier@,
        },
        MdNode::Html { value } => Tree::Html { value: value@ },
        MdNode::Image { alt, url } => Tree::Image { alt: alt@, url: url@ },
        MdNode::ImageReference { alt, identifier } => Tree::ImageReference {
            alt: alt@,
            identifier: identifier@,
        },
        MdNode::MdxJsxTextElement { children } => Tree::MdxJsxTextElement {
            children: view_nodes(children@),
        },
        MdNode::Link { url, children } => Tree::Link { url: url@, children: view_nodes(children@) },
        MdNode::LinkReference { identifier, children } => Tree::LinkReference {
            identifier: identifier@,
            children: view_nodes(children@),
        },
        MdNode::Strong { children } => Tree::Strong { children: view_nodes(children@) },
        MdNode::Text { value } => Tree::Text { value: value@ },
        MdNode::Code { lang, value } => Tree::Code { lang: view_lang(lang), value: value@ },
        MdNode::Math { value } => Tree::Math { value: value@ },
        MdNode::MdxFlowExpression { value } => Tree::MdxFlowExpression { value: value@ },
        MdNode::Heading { depth, children } => Tree::Heading {
            depth,
            children: view_nodes(children@),
        },
        MdNode::Table { children } => Tree::Table { children: view_nodes(children@) },
        MdNode::ThematicBreak => Tree::ThematicBreak,
        MdNode::TableRow { children } => Tree::TableRow { children: view_nodes(children@) },
        MdNode::TableCell { children } => Tree::TableCell { children: view_nodes(children@) },
        MdNode::ListItem { checked, spread, children } => Tree::ListItem {
            checked,
            spread,
            children: view_nodes(children@),
        },
        MdNode::Definition { identifier, url } => Tree::Definition {
            identifier: identifier@,
            url: url@,
        },
        MdNode::Paragraph { children } => Tree::Paragraph { children: view_nodes(children@) },
    }
}

impl View for MdNode {
    type V = Tree;

    open spec fn view(&self) -> Tree {
        view_node(*self)
    }
}

/// The children of a node, as mdast's `children()` gives them: the empty
/// sequence for a node that cannot have children.
pub open spec fn children_of(t: Tree) -> Seq<Tree> {
    match t {
        Tree::Root { children } => children,
        Tree::Paragraph { children } => children,
        Tree::Heading { children, .. } => children,
        Tree::Blockquote { children } => children,
        Tree::List { children, .. } => children,
        Tree::ListItem { children, .. } => children,
        Tree::Emphasis { children } => children,
        Tree::Strong { children } => children,
        Tree::Link { children, .. } => children,
        Tree::LinkReference { children, .. } => children,
        Tree::FootnoteDefinition { children } => children,
        Tree::Table { children } => children,
        Tree::TableRow { children } => children,
        Tree::TableCell { children } => children,
        Tree::Delete { children } => children,
        Tree::MdxJsxFlowElement { children } => children,
        Tree::MdxJsxTextElement { children } => children,
        _ => Seq::empty(),
    }
}

/// Whether a node is a parent in mdast's sense (its `children()` is `Some`).
pub open spec fn is_parent(t: Tree) -> bool {
    match t {
        Tree::Root { .. } | Tree::Paragraph { .. } | Tree::Heading { .. } | Tree::Blockquote {
            ..
        } | Tree::List { .. } | Tree::ListItem { .. } | Tree::Emphasis { .. } | Tree::Strong {
            ..
        } | Tree::Link { .. } | Tree::LinkReference { .. } | Tree::FootnoteDefinition { .. }
        | Tree::Table { .. } | Tree::TableRow { .. } | Tree::TableCell { .. } | Tree::Delete {
            ..
        } | Tree::MdxJsxFlowElement { .. } | Tree::MdxJsxTextElement { .. } => true,
        _ => false,
    }
}

/// The same node with its children replaced (a node that is no parent is
/// returned unchanged).
pub open spec fn with_children(t: Tree, c: Seq<Tree>) -> Tree {
    match t {
        Tree::Root { .. } => Tree::Root { children: c },
        Tree::Paragraph { .. } => Tree::Paragraph { children: c },
        Tree::Heading { depth, .. } => Tree::Heading { depth, children: c },
        Tree::Blockquote { .. } => Tree::Blockquote { children: c },
        Tree::List { ordered, start, .. } => Tree::List { ordered, start, children: c },
        Tree::ListItem { checked, spread, .. } => Tree::ListItem { checked, spread, children: c },
        Tree::Emphasis { .. } => Tree::Emphasis { children: c },
        Tree::Strong { .. } => Tree::Strong { children: c },
        Tree::Link { url, .. } => Tree::Link { url, children: c },
        Tree::LinkReference { identifier, .. } => Tree::LinkReference { identifier, children: c },
        Tree::FootnoteDefinition { .. } => Tree::FootnoteDefinition { children: c },
        Tree::Table { .. } => Tree::Table { children: c },
        Tree::TableRow { .. } => Tree::TableRow { children: c },
        Tree::TableCell { .. } => Tree::TableCell { children: c },
        Tree::Delete { .. } => Tree::Delete { children: c },
        Tree::MdxJsxFlowElement { .. } => Tree::MdxJsxFlowElement { children: c },
        Tree::MdxJsxTextElement { .. } => Tree::MdxJsxTextElement { children: c },
        _ => t,
    }
}

} // verus!
