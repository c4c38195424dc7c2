//! Parsing of markdown text, which the `markdown` crate does (GitHub flavour),
//! and the conversion of its syntax tree into an `MdNode` tree.
use vstd::prelude::*;

use markdown::mdast::Node;
use markdown::message::Message;
use markdown::ParseOptions;

use crate::links::lemma_children_decrease;
use crate::tree::{children_of, is_parent, view_lang, view_nodes, MdNode, Tree};

verus! {

#[verifier::external_type_specification]
#[verifier::external_body]
pub struct ExMdastNode(markdown::mdast::Node);

#[verifier::external_type_specification]
#[verifier::external_body]
pub struct ExMessage(markdown::message::Message);

/// What an mdast node holds besides its children: its kind and the fields
/// that rendering reads.
pub enum MdastHead {
    Root,
    Blockquote,
    FootnoteDefinition,
    MdxJsxFlowElement,
    List(bool, Option<u32>),
    MdxjsEsm(String),
    Toml(String),
    Yaml(String),
    Break,
    InlineCode(String),
    InlineMath(String),
    Delete,
    Emphasis,
    MdxTextExpression(String),
    FootnoteReference(String),
    Html(String),
    Image(String, String),
    ImageReference(String, String),
    MdxJsxTextElement,
    Link(String),
    LinkReference(String),
    Strong,
    Text(String),
    Code(Option<String>, String),
    Math(String),
    MdxFlowExpression(String),
    Heading(u8),
    Table,
    ThematicBreak,
    TableRow,
    TableCell,
    ListItem(Option<bool>, bool),
    Definition(String, String),
    Paragraph,
}

/// Whether a head is that of a node with children.
pub open spec fn head_is_parent(h: MdastHead) -> bool {
    match h {
        MdastHead::Root | MdastHead::Blockquote | MdastHead::FootnoteDefinition
        | MdastHead::MdxJsxFlowElement | MdastHead::List(..) | MdastHead::Delete
        | MdastHead::Emphasis | MdastHead::MdxJsxTextElement | MdastHead::Link(..)
        | MdastHead::LinkReference(..) | MdastHead::Strong | MdastHead::Heading(..)
        | MdastHead::Table | MdastHead::TableRow | MdastHead::TableCell | MdastHead::ListItem(..)
        | MdastHead::Paragraph => true,
        _ => false,
    }
}

/// The tree node of a head with the given children (a head without children
/// leaves them out).
pub open spec fn head_tree(h: MdastHead, c: Seq<Tree>) -> Tree {
    match h {
        MdastHead::Root => Tree::Root { children: c },
        MdastHead::Blockquote => Tree::Blockquote { children: c },
        MdastHead::FootnoteDefinition => Tree::FootnoteDefinition { children: c },
        MdastHead::MdxJsxFlowElement => Tree::MdxJsxFlowElement { children: c },
        MdastHead::List(ordered, start) => Tree::List { ordered, start, children: c },
        MdastHead::MdxjsEsm(value) => Tree::MdxjsEsm { value: value@ },
        MdastHead::Toml(value) => Tree::Toml { value: value@ },
        MdastHead::Yaml(value) => Tree::Yaml { value: value@ },
        MdastHead::Break => Tree::Break,
        MdastHead::InlineCode(value) => Tree::InlineCode { value: value@ },
        MdastHead::InlineMath(value) => Tree::InlineMath { value: value@ },
        MdastHead::Delete => Tree::Delete { children: c },
        MdastHead::Emphasis => Tree::Emphasis { children: c },
        MdastHead::MdxTextExpression(value) => Tree::MdxTextExpression { value: value@ },
        MdastHead::FootnoteReference(identifier) => Tree::FootnoteReference {
            identifier: identifier@,
        },
        MdastHead::Html(value) => Tree::Html { value: value@ },
        MdastHead::Image(alt, url) => Tree::Image { alt: alt@, url: url@ },
        MdastHead::ImageReference(alt, identifier) => Tree::ImageReference {
            alt: alt@,
            identifier: identifier@,
        },
        MdastHead::MdxJsxTextElement => Tree::MdxJsxTextElement { children: c },
        MdastHead::Link(url) => Tree::Link { url: url@, children: c },
        MdastHead::LinkReference(identifier) => Tree::LinkReference {
            identifier: identifier@,
            children: c,
        },
        MdastHead::Strong => Tree::Strong { children: c },
        MdastHead::Text(value) => Tree::Text { value: value@ },
        MdastHead::Code(lang, value) => Tree::Code { lang: view_lang(lang), value: value@ },
        MdastHead::Math(value) => Tree::Math { value: value@ },
        MdastHead::MdxFlowExpression(value) => Tree::MdxFlowExpression { value: value@ },
        MdastHead::Heading(depth) => Tree::Heading { depth, children: c },
        MdastHead::Table => Tree::Table { children: c },
        MdastHead::ThematicBreak => Tree::ThematicBreak,
        MdastHead::TableRow => Tree::TableRow { children: c },
        MdastHead::TableCell => Tree::TableCell { children: c },
        MdastHead::ListItem(checked, spread) => Tree::ListItem { checked, spread, children: c },
        MdastHead::Definition(identifier, url) => Tree::Definition {
            identifier: identifier@,
            url: url@,
        },
        MdastHead::Paragraph => Tree::Paragraph { children: c },
    }
}

/// The tree that an mdast node holds: its kind, the fields that rendering
/// reads, and the trees of its children, in order.
pub uninterp spec fn mdast_tree(n: Node) -> Tree;

/// The tree of markdown text, parsed in the GitHub flavour.
pub uninterp spec fn gfm_tree(text: Seq<char>) -> Tree;

/// The trees that a sequence of mdast nodes holds.
pub open spec fn mdast_trees(ns: Seq<Node>) -> Seq<Tree> {
    ns.map_values(|k: Node| mdast_tree(k))
}

/// The kinds that `split_containers` takes apart.
pub open spec fn is_container(t: Tree) -> bool {
    ||| t is Root
    ||| t is Blockquote
    ||| t is FootnoteDefinition
    ||| t is MdxJsxFlowElement
    ||| t is List
    ||| t is Delete
}

/// The kinds that `split_phrasing` takes apart.
pub open spec fn is_phrasing(t: Tree) -> bool {
    ||| t is Emphasis
    ||| t is Strong
    ||| t is Link
    ||| t is LinkReference
    ||| t is MdxJsxTextElement
    ||| t is Paragraph
}

/// The kinds that `split_flow` takes apart.
pub open spec fn is_flow(t: Tree) -> bool {
    ||| t is Heading
    ||| t is Table
    ||| t is TableRow
    ||| t is TableCell
    ||| t is ListItem
    ||| t is Code
}

/// The kinds that `split_literals` takes apart.
pub open spec fn is_literal(t: Tree) -> bool {
    ||| t is Text
    ||| t is InlineCode
    ||| t is InlineMath
    ||| t is Html
    ||| t is Math
    ||| t is Toml
}

/// The kinds that `split_references` takes apart.
pub open spec fn is_reference(t: Tree) -> bool {
    ||| t is Image
    ||| t is ImageReference
    ||| t is FootnoteReference
    ||| t is Definition
    ||| t is Yaml
    ||| t is MdxjsEsm
}

/// The kinds that `split_others` takes apart.
pub open spec fn is_other(t: Tree) -> bool {
    ||| t is MdxTextExpression
    ||| t is MdxFlowExpression
    ||| t is Break
    ||| t is ThematicBreak
}

/// The mdast syntax tree of `text` (`markdown::to_mdast` with
/// `ParseOptions::gfm()`), named by `gfm_tree`.
/// The claim that it is `Ok` rests on the crate's documentation of `to_mdast`:
/// only MDX, which the GitHub flavour leaves off, has syntax errors. Nothing
/// is said of the parser's internal `expect`s and `unwrap`s, which its source
/// does not rule out on every input.
#[verifier::external_body]
fn mdast_of_text(text: &str) -> (r: Result<Node, Message>)
    ensures
        r is Ok,
        r matches Ok(n) ==> mdast_tree(n) == gfm_tree(text@),
{
    markdown::to_mdast(text, &ParseOptions::gfm())
}

/// Each `split_*` below parts an mdast node of one group of kinds into its
/// head and its child nodes, moving fields only, and hands any other node
/// back. Its contract says, over `mdast_tree`, that the node's tree is the
/// head's tree over the children's trees (a head without children comes with
/// none), and that a node handed back is of none of the group's kinds.
#[verifier::external_body]
fn split_containers(n: Node) -> (r: Result<(MdastHead, Vec<Node>), Node>)
    ensures
        r matches Ok((h, kids)) ==> mdast_tree(n) == head_tree(h, mdast_trees(kids@)) && (
        !head_is_parent(h) ==> kids@.len() == 0),
        r matches Err(m) ==> m == n && !is_container(mdast_tree(n)),
{
    match n {
        Node::Root(x) => Ok((MdastHead::Root, x.children)),
        Node::Blockquote(x) => Ok((MdastHead::Blockquote, x.children)),
        Node::FootnoteDefinition(x) => Ok((MdastHead::FootnoteDefinition, x.children)),
        Node::MdxJsxFlowElement(x) => Ok((MdastHead::MdxJsxFlowElement, x.children)),
        Node::List(x) => Ok((MdastHead::List(x.ordered, x.start), x.children)),
        Node::Delete(x) => Ok((MdastHead::Delete, x.children)),
        n => Err(n),
    }
}

/// The second group of kinds (see `split_containers`).
#[verifier::external_body]
fn split_phrasing(n: Node) -> (r: Result<(MdastHead, Vec<Node>), Node>)
    ensures
        r matches Ok((h, kids)) ==> mdast_tree(n) == head_tree(h, mdast_trees(kids@)) && (
        !head_is_parent(h) ==> kids@.len() == 0),
        r matches Err(m) ==> m == n && !is_phrasing(mdast_tree(n)),
{
    match n {
        Node::Emphasis(x) => Ok((MdastHead::Emphasis, x.children)),
        Node::Strong(x) => Ok((MdastHead::Strong, x.children)),
        Node::Link(x) => Ok((MdastHead::Link(x.url), x.children)),
        Node::LinkReference(x) => Ok((MdastHead::LinkReference(x.identifier), x.children)),
        Node::MdxJsxTextElement(x) => Ok((MdastHead::MdxJsxTextElement, x.children)),
        Node::Paragraph(x) => Ok((MdastHead::Paragraph, x.children)),
        n => Err(n),
    }
}

/// The third group of kinds (see `split_containers`).
#[verifier::external_body]
fn split_flow(n: Node) -> (r: Result<(MdastHead, Vec<Node>), Node>)
    ensures
        r matches Ok((h, kids)) ==> mdast_tree(n) == head_tree(h, mdast_trees(kids@)) && (
        !head_is_parent(h) ==> kids@.len() == 0),
        r matches Err(m) ==> m == n && !is_flow(mdast_tree(n)),
{
    match n {
        Node::Heading(x) => Ok((MdastHead::Heading(x.depth), x.children)),
        Node::Table(x) => Ok((MdastHead::Table, x.children)),
        Node::TableRow(x) => Ok((MdastHead::TableRow, x.children)),
        Node::TableCell(x) => Ok((MdastHead::TableCell, x.children)),
        Node::ListItem(x) => Ok((MdastHead::ListItem(x.checked, x.spread), x.children)),
        Node::Code(x) => Ok((MdastHead::Code(x.lang, x.value), Vec::new())),
        n => Err(n),
    }
}

/// The fourth group of kinds, nodes without children (see `split_containers`).
#[verifier::external_body]
fn split_literals(n: Node) -> (r: Result<(MdastHead, Vec<Node>), Node>)
    ensures
        r matches Ok((h, kids)) ==> mdast_tree(n) == head_tree(h, mdast_trees(kids@)) && (
        !head_is_parent(h) ==> kids@.len() == 0),
        r matches Err(m) ==> m == n && !is_literal(mdast_tree(n)),
{
    match n {
        Node::Text(x) => Ok((MdastHead::Text(x.value), Vec::new())),
        Node::InlineCode(x) => Ok((MdastHead::InlineCode(x.value), Vec::new())),
        Node::InlineMath(x) => Ok((MdastHead::InlineMath(x.value), Vec::new())),
        Node::Html(x) => Ok((MdastHead::Html(x.value), Vec::new())),
        Node::Math(x) => Ok((MdastHead::Math(x.value), Vec::new())),
        Node::Toml(x) => Ok((MdastHead::Toml(x.value), Vec::new())),
        n => Err(n),
    }
}

/// The fifth group of kinds, nodes without children (see `split_containers`).
#[verifier::external_body]
fn split_references(n: Node) -> (r: Result<(MdastHead, Vec<Node>), Node>)
    ensures
        r matches Ok((h, kids)) ==> mdast_tree(n) == head_tree(h, mdast_trees(kids@)) && (
        !head_is_parent(h) ==> kids@.len() == 0),
        r matches Err(m) ==> m == n && !is_reference(mdast_tree(n)),
{
    match n {
        Node::Image(x) => Ok((MdastHead::Image(x.alt, x.url), Vec::new())),
        Node::ImageReference(x) => Ok((MdastHead::ImageReference(x.alt, x.identifier), Vec::new())),
        Node::FootnoteReference(x) => Ok((MdastHead::FootnoteReference(x.identifier), Vec::new())),
        Node::Definition(x) => Ok((MdastHead::Definition(x.identifier, x.url), Vec::new())),
        Node::Yaml(x) => Ok((MdastHead::Yaml(x.value), Vec::new())),
        Node::MdxjsEsm(x) => Ok((MdastHead::MdxjsEsm(x.value), Vec::new())),
        n => Err(n),
    }
}

/// The last group of kinds, nodes without children (see `split_containers`).
#[verifier::external_body]
fn split_others(n: Node) -> (r: Result<(MdastHead, Vec<Node>), Node>)
    ensures
        r matches Ok((h, kids)) ==> mdast_tree(n) == head_tree(h, mdast_trees(kids@)) && (
        !head_is_parent(h) ==> kids@.len() == 0),
        r matches Err(m) ==> m == n && !is_other(mdast_tree(n)),
{
    match n {
        Node::MdxTextExpression(x) => Ok((MdastHead::MdxTextExpression(x.value), Vec::new())),
        Node::MdxFlowExpression(x) => Ok((MdastHead::MdxFlowExpression(x.value), Vec::new())),
        Node::Break(_) => Ok((MdastHead::Break, Vec::new())),
        Node::ThematicBreak(_) => Ok((MdastHead::ThematicBreak, Vec::new())),
        n => Err(n),
    }
}

/// The head and the child nodes of an mdast node. Every kind is in one of
/// the groups, so the node is always taken apart.
fn split_node(n: Node) -> (r: (MdastHead, Vec<Node>))
    ensures
        mdast_tree(n) == head_tree(r.0, mdast_trees(r.1@)),
        !head_is_parent(r.0) ==> r.1@.len() == 0,
{
    match split_containers(n) {
        Ok(p) => p,
        Err(n) => match split_phrasing(n) {
            Ok(p) => p,
            Err(n) => match split_flow(n) {
                Ok(p) => p,
                Err(n) => match split_literals(n) {
                    Ok(p) => p,
                    Err(n) => match split_references(n) {
                        Ok(p) => p,
                        Err(n) => match split_others(n) {
                            Ok(p) => p,
                            Err(_) => {
                                proof {
                                    assert(false);
                                }
                                (MdastHead::Break, Vec::new())
                            },
                        },
                    },
                },
            },
        },
    }
}

/// The node of the given head with the given children (a head without
/// children leaves them out).
fn build_node(head: MdastHead, children: Vec<MdNode>) -> (r: MdNode)
    ensures
        r@ == head_tree(head, view_nodes(children@)),
{
    match head {
        MdastHead::Root => MdNode::Root { children },
        MdastHead::Blockquote => MdNode::Blockquote { children },
        MdastHead::FootnoteDefinition => MdNode::FootnoteDefinition { children },
        MdastHead::MdxJsxFlowElement => MdNode::MdxJsxFlowElement { children },
        MdastHead::List(ordered, start) => MdNode::List { ordered, start, children },
        MdastHead::MdxjsEsm(value) => MdNode::MdxjsEsm { value },
        MdastHead::Toml(value) => MdNode::Toml { value },
        MdastHead::Yaml(value) => MdNode::Yaml { value },
        MdastHead::Break => MdNode::Break,
        MdastHead::InlineCode(value) => MdNode::InlineCode { value },
        MdastHead::InlineMath(value) => MdNode::InlineMath { value },
        MdastHead::Delete => MdNode::Delete { children },
        MdastHead::Emphasis => MdNode::Emphasis { children },
        MdastHead::MdxTextExpression(value) => MdNode::MdxTextExpression { value },
        MdastHead::FootnoteReference(identifier) => MdNode::FootnoteReference { identifier },
        MdastHead::Html(value) => MdNode::Html { value },
        MdastHead::Image(alt, url) => MdNode::Image { alt, url },
        MdastHead::ImageReference(alt, identifier) => MdNode::ImageReference { alt, identifier },
        MdastHead::MdxJsxTextElement => MdNode::MdxJsxTextElement { children },
        MdastHead::Link(url) => MdNode::Link { url, children },
        MdastHead::LinkReference(identifier) => MdNode::LinkReference { identifier, children },
        MdastHead::Strong => MdNode::Strong { children },
        MdastHead::Text(value) => MdNode::Text { value },
        MdastHead::Code(lang, value) => MdNode::Code { lang, value },
        MdastHead::Math(value) => MdNode::Math { value },
        MdastHead::MdxFlowExpression(value) => MdNode::MdxFlowExpression { value },
        MdastHead::Heading(depth) => MdNode::Heading { depth, children },
        MdastHead::Table => MdNode::Table { children },
        MdastHead::ThematicBreak => MdNode::ThematicBreak,
        MdastHead::TableRow => MdNode::TableRow { children },
        MdastHead::TableCell => MdNode::TableCell { children },
        MdastHead::ListItem(checked, spread) => MdNode::ListItem { checked, spread, children },
        MdastHead::Definition(identifier, url) => MdNode::Definition { identifier, url },
        MdastHead::Paragraph => MdNode::Paragraph { children },
    }
}

/// The `MdNode` tree of an mdast tree.
#[verifier::loop_isolation(false)]
fn tree_from_mdast(n: Node) -> (r: MdNode)
    ensures
        r@ == mdast_tree(n),
    decreases mdast_tree(n),
{
    let ghost whole = mdast_tree(n);
    let (head, mut kids) = split_node(n);
    let ghost nodes = kids@;
    let ghost ts = mdast_trees(nodes);
    let mut rev: Vec<Node> = Vec::new();
    while kids.len() > 0
        invariant
            kids@ == nodes.subrange(0, kids@.len() as int),
            rev@.len() + kids@.len() == nodes.len(),
            forall|j: int| 0 <= j < rev@.len() ==> #[trigger] rev@[j] == nodes[nodes.len() - 1 - j],
        decreases kids.len(),
    {
        let k = kids.pop().unwrap();
        rev.push(k);
    }
    let mut children: Vec<MdNode> = Vec::new();
    while rev.len() > 0
        invariant
            children@.len() + rev@.len() == nodes.len(),
            forall|j: int| 0 <= j < rev@.len() ==> #[trigger] rev@[j] == nodes[nodes.len() - 1 - j],
            forall|j: int| 0 <= j < children@.len() ==> (#[trigger] children@[j])@ == ts[j],
        decreases rev.len(),
    {
        let ghost i = children@.len() as int;
        assert(rev@[rev@.len() - 1] == nodes[i]);
        let k = rev.pop().unwrap();
        proof {
            assert(head_is_parent(head));
            assert(is_parent(whole) && children_of(whole) == ts);
            lemma_children_decrease(whole);
            assert(decreases_to!(ts => ts[i]));
            assert(mdast_tree(k) == ts[i]);
        }
        let c = tree_from_mdast(k);
        children.push(c);
    }
    assert(view_nodes(children@) =~= ts);
    build_node(head, children)
}

/// The syntax tree of markdown `text` in the GitHub flavour, as the
/// `markdown` crate parses it.
pub fn parse_markdown(text: &str) -> (r: Option<MdNode>)
    ensures
        r is Some,
        r matches Some(t) ==> t@ == gfm_tree(text@),
{
    match mdast_of_text(text) {
        Ok(tree) => Some(tree_from_mdast(tree)),
        Err(_) => None,
    }
}

} // verus!
