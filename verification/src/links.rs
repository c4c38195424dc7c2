//! Resolution of reference links: link and image references whose
//! identifier has a definition become plain links and images to the defined
//! url.
use vstd::prelude::*;

use crate::tree::{children_of, is_parent, view_nodes, with_children, MdNode, Tree};

verus! {

// ---------------------------------------------------------------------------
// Specifications
// ---------------------------------------------------------------------------

/// The sequences one after the other.
pub open spec fn flat<A>(s: Seq<Seq<A>>) -> Seq<A>
    decreases s.len(),
{
    if s.len() == 0 {
        Seq::empty()
    } else {
        flat(s.drop_last()) + s.last()
    }
}

/// The views of a list of definitions (identifier, url).
pub open spec fn pairs_view(v: Seq<(String, String)>) -> Seq<(Seq<char>, Seq<char>)> {
    v.map_values(|p: (String, String)| (p.0@, p.1@))
}

pub proof fn lemma_children_decrease(t: Tree)
    requires
        is_parent(t),
    ensures
        decreases_to!(t => children_of(t)),
{
    match t {
        Tree::Root { children } => {},
        Tree::Paragraph { children } => {},
        Tree::Heading { children, .. } => {},
        Tree::Blockquote { children } => {},
        Tree::List { children, .. } => {},
        Tree::ListItem { children, .. } => {},
        Tree::Emphasis { children } => {},
        Tree::Strong { children } => {},
        Tree::Link { children, .. } => {},
        Tree::LinkReference { children, .. } => {},
        Tree::FootnoteDefinition { children } => {},
        Tree::Table { children } => {},
        Tree::TableRow { children } => {},
        Tree::TableCell { children } => {},
        Tree::Delete { children } => {},
        Tree::MdxJsxFlowElement { children } => {},
        Tree::MdxJsxTextElement { children } => {},
        _ => {},
    }
}

/// The definitions of a node and of its descendants, in document order.
pub open spec fn definitions_of(t: Tree) -> Seq<(Seq<char>, Seq<char>)>
    decreases t,
{
    let own = match t {
        Tree::Definition { identifier, url } => seq![(identifier, url)],
        _ => Seq::empty(),
    };
    if is_parent(t) {
        proof {
            lemma_children_decrease(t);
        }
        own + flat(definitions_each(children_of(t)))
    } else {
        own
    }
}

/// The definitions of each node of a sequence.
pub open spec fn definitions_each(ts: Seq<Tree>) -> Seq<Seq<(Seq<char>, Seq<char>)>>
    decreases ts,
{
    Seq::new(
        ts.len(),
        |i: int|
            if 0 <= i < ts.len() {
                definitions_of(ts[i])
            } else {
                Seq::empty()
            },
    )
}

/// The url that the last definition of `identifier` gives, if any (a later
/// definition takes the place of an earlier one).
pub open spec fn lookup(defs: Seq<(Seq<char>, Seq<char>)>, identifier: Seq<char>) -> Option<
    Seq<char>,
>
    decreases defs.len(),
{
    if defs.len() == 0 {
        None
    } else if defs.last().0 == identifier {
        Some(defs.last().1)
    } else {
        lookup(defs.drop_last(), identifier)
    }
}

/// A node with its references resolved against `defs`: a link or image
/// reference with a definition becomes a link or image to its url, and the
/// children of every node are resolved in turn.
pub open spec fn resolve_node(t: Tree, defs: Seq<(Seq<char>, Seq<char>)>) -> Tree
    decreases t,
{
    match t {
        Tree::LinkReference { identifier, children } => match lookup(defs, identifier) {
            Some(url) => Tree::Link { url, children: resolve_all(children, defs) },
            None => Tree::LinkReference { identifier, children: resolve_all(children, defs) },
        },
        Tree::ImageReference { alt, identifier } => match lookup(defs, identifier) {
            Some(url) => Tree::Image { alt, url },
            None => t,
        },
        _ => if is_parent(t) {
            proof {
                lemma_children_decrease(t);
            }
            with_children(t, resolve_all(children_of(t), defs))
        } else {
            t
        },
    }
}

/// Each node of a sequence with its references resolved.
pub open spec fn resolve_all(ts: Seq<Tree>, defs: Seq<(Seq<char>, Seq<char>)>) -> Seq<Tree>
    decreases ts,
{
    Seq::new(
        ts.len(),
        |i: int|
            if 0 <= i < ts.len() {
                resolve_node(ts[i], defs)
            } else {
                Tree::Break
            },
    )
}

/// The node that `replace_reference_nodes` leaves: its descendants resolved
/// against `defs`, the node itself kept.
pub open spec fn replaced(t: Tree, defs: Seq<(Seq<char>, Seq<char>)>) -> Tree {
    if is_parent(t) {
        with_children(t, resolve_all(children_of(t), defs))
    } else {
        t
    }
}

/// A document with its reference links resolved against its own definitions
/// (the node itself is kept; its descendants are resolved).
pub open spec fn resolved(t: Tree) -> Tree {
    let defs = definitions_of(t);
    if defs.len() == 0 {
        t
    } else {
        with_children(t, resolve_all(children_of(t), defs))
    }
}

// ---------------------------------------------------------------------------
// Executable functions
// ---------------------------------------------------------------------------

/// Appends the definitions of `node` and of its descendants, in document order.
pub fn collect_link_definitions(node: &MdNode, definitions: &mut Vec<(String, String)>)
    ensures
        pairs_view(final(definitions)@) == pairs_view(old(definitions)@) + definitions_of(node@),
    decreases node,
{
    let ghost before = pairs_view(definitions@);
    match node {
        MdNode::Definition { identifier, url } => {
            definitions.push((identifier.clone(), url.clone()));
            assert(pairs_view(definitions@) =~= before + definitions_of(node@));
        },
        MdNode::Root { children }
        | MdNode::Paragraph { children }
        | MdNode::Heading { children, .. }
        | MdNode::Blockquote { children }
        | MdNode::List { children, .. }
        | MdNode::ListItem { children, .. }
        | MdNode::Emphasis { children }
        | MdNode::Strong { children }
        | MdNode::Link { children, .. }
        | MdNode::LinkReference { children, .. }
        | MdNode::FootnoteDefinition { children }
        | MdNode::Table { children }
        | MdNode::TableRow { children }
        | MdNode::TableCell { children }
        | MdNode::Delete { children }
        | MdNode::MdxJsxFlowElement { children }
        | MdNode::MdxJsxTextElement { children } => {
            collect_all(children, definitions);
            assert(children_of(node@) == view_nodes(children@));
            assert(pairs_view(definitions@) =~= before + definitions_of(node@));
        },
        _ => {
            assert(pairs_view(definitions@) =~= before + definitions_of(node@));
        },
    }
}

/// Appends the definitions of each node of `nodes`, in order.
fn collect_all(nodes: &Vec<MdNode>, definitions: &mut Vec<(String, String)>)
    ensures
        pairs_view(final(definitions)@) == pairs_view(old(definitions)@) + flat(
            definitions_each(view_nodes(nodes@)),
        ),
    decreases nodes,
{
    let ghost before = pairs_view(definitions@);
    let ghost each = definitions_each(view_nodes(nodes@));
    let mut i: usize = 0;
    while i < nodes.len()
        invariant
            i <= nodes.len(),
            each == definitions_each(view_nodes(nodes@)),
            each.len() == nodes.len(),
            pairs_view(definitions@) == before + flat(each.take(i as int)),
        decreases nodes.len() - i,
    {
        proof {
            assert(decreases_to!(nodes => nodes@[i as int]));
        }
        collect_link_definitions(&nodes[i], definitions);
        proof {
            assert(each.take(i + 1).drop_last() =~= each.take(i as int));
            assert(each[i as int] == definitions_of(nodes@[i as int]@));
        }
        assert(pairs_view(definitions@) =~= before + flat(each.take(i + 1)));
        i = i + 1;
    }
    assert(each.take(nodes.len() as int) =~= each);
}

/// The url of the last definition of `identifier`, if any.
fn lookup_definition(definitions: &Vec<(String, String)>, identifier: &String) -> (r: Option<
    String,
>)
    ensures
        match r {
            Some(u) => lookup(pairs_view(definitions@), identifier@) == Some(u@),
            None => lookup(pairs_view(definitions@), identifier@) is None,
        },
{
    let ghost pv = pairs_view(definitions@);
    let mut i: usize = definitions.len();
    assert(pv.take(i as int) =~= pv);
    while i > 0
        invariant
            i <= definitions.len(),
            pv == pairs_view(definitions@),
            lookup(pv, identifier@) == lookup(pv.take(i as int), identifier@),
        decreases i,
    {
        let ghost pre = pv.take(i as int);
        assert(pre.drop_last() =~= pv.take(i - 1));
        if definitions[i - 1].0 == *identifier {
            return Some(definitions[i - 1].1.clone());
        }
        i = i - 1;
    }
    assert(pv.take(definitions.len() as int) =~= pv);
    None
}

/// A node, taken by value, with its references resolved.
fn resolve_node_owned(node: MdNode, definitions: &Vec<(String, String)>) -> (r: MdNode)
    ensures
        r@ == resolve_node(node@, pairs_view(definitions@)),
    decreases node, 1int,
{
    let ghost t = node@;
    match node {
        MdNode::LinkReference { identifier, children } => {
            let resolved_children = resolve_each(children, definitions);
            match lookup_definition(definitions, &identifier) {
                Some(url) => MdNode::Link { url, children: resolved_children },
                None => MdNode::LinkReference { identifier, children: resolved_children },
            }
        },
        MdNode::ImageReference { alt, identifier } => match lookup_definition(
            definitions,
            &identifier,
        ) {
            Some(url) => MdNode::Image { alt, url },
            None => MdNode::ImageReference { alt, identifier },
        },
        other => resolve_children_owned(other, definitions),
    }
}

/// A node, taken by value, with the references among its descendants
/// resolved (the node itself is kept).
fn resolve_children_owned(node: MdNode, definitions: &Vec<(String, String)>) -> (r: MdNode)
    ensures
        r@ == (if is_parent(node@) {
            with_children(node@, resolve_all(children_of(node@), pairs_view(definitions@)))
        } else {
            node@
        }),
    decreases node, 0int,
{
    match node {
        MdNode::Root { children } => MdNode::Root { children: resolve_each(children, definitions) },
        MdNode::Paragraph { children } => MdNode::Paragraph {
            children: resolve_each(children, definitions),
        },
        MdNode::Heading { depth, children } => MdNode::Heading {
            depth,
            children: resolve_each(children, definitions),
        },
        MdNode::Blockquote { children } => MdNode::Blockquote {
            children: resolve_each(children, definitions),
        },
        MdNode::List { ordered, start, children } => MdNode::List {
            ordered,
            start,
            children: resolve_each(children, definitions),
        },
        MdNode::ListItem { checked, spread, children } => MdNode::ListItem {
            checked,
            spread,
            children: resolve_each(children, definitions),
        },
        MdNode::Emphasis { children } => MdNode::Emphasis {
            children: resolve_each(children, definitions),
        },
        MdNode::Strong { children } => MdNode::Strong {
            children: resolve_each(children, definitions),
        },
        MdNode::Link { url, children } => MdNode::Link {
            url,
            children: resolve_each(children, definitions),
        },
        MdNode::LinkReference { identifier, children } => MdNode::LinkReference {
            identifier,
            children: resolve_each(children, definitions),
        },
        MdNode::FootnoteDefinition { children } => MdNode::FootnoteDefinition {
            children: resolve_each(children, definitions),
        },
        MdNode::Table { children } => MdNode::Table {
            children: resolve_each(children, definitions),
        },
        MdNode::TableRow { children } => MdNode::TableRow {
            children: resolve_each(children, definitions),
        },
        MdNode::TableCell { children } => MdNode::TableCell {
            children: resolve_each(children, definitions),
        },
        MdNode::Delete { children } => MdNode::Delete {
            children: resolve_each(children, definitions),
        },
        MdNode::MdxJsxFlowElement { children } => MdNode::MdxJsxFlowElement {
            children: resolve_each(children, definitions),
        },
        MdNode::MdxJsxTextElement { children } => MdNode::MdxJsxTextElement {
            children: resolve_each(children, definitions),
        },
        other => other,
    }
}

/// Each node of `nodes` with its references resolved, in order.
#[verifier::loop_isolation(false)]
fn resolve_each(mut nodes: Vec<MdNode>, definitions: &Vec<(String, String)>) -> (r: Vec<MdNode>)
    ensures
        view_nodes(r@) == resolve_all(view_nodes(nodes@), pairs_view(definitions@)),
    decreases nodes, 0int,
{
    let ghost orig = nodes@;
    let ghost whole = nodes;
    let ghost n = nodes.len();
    let ghost target = resolve_all(view_nodes(orig), pairs_view(definitions@));
    let mut rev: Vec<MdNode> = Vec::new();
    while nodes.len() > 0
        invariant
            nodes.len() + rev.len() == n,
            n == orig.len(),
            forall|j: int| 0 <= j < nodes.len() ==> nodes@[j] == orig[j],
            forall|j: int| 0 <= j < rev.len() ==> #[trigger] rev@[j] == orig[n - 1 - j],
        decreases nodes.len(),
    {
        let x = nodes.pop().unwrap();
        rev.push(x);
    }
    let mut out: Vec<MdNode> = Vec::new();
    while rev.len() > 0
        invariant
            rev.len() + out.len() == n,
            n == orig.len(),
            orig == whole@,
            target == resolve_all(view_nodes(orig), pairs_view(definitions@)),
            forall|j: int| 0 <= j < rev.len() ==> #[trigger] rev@[j] == orig[n - 1 - j],
            forall|j: int| 0 <= j < out.len() ==> (#[trigger] out@[j])@ == target[j],
        decreases rev.len(),
    {
        let k = out.len();
        let x = rev.pop().unwrap();
        assert(x == orig[k as int]);
        proof {
            assert(decreases_to!(whole => whole@[k as int]));
            assert(x == whole@[k as int]);
            assert(decreases_to!(whole => x));
        }
        let y = resolve_node_owned(x, definitions);
        out.push(y);
    }
    assert(view_nodes(out@) =~= target);
    out
}

/// Resolves the references among the descendants of `node` against
/// `definitions` (the node itself is kept).
pub fn replace_reference_nodes(node: &mut MdNode, definitions: &Vec<(String, String)>)
    ensures
        final(node)@ == replaced(old(node)@, pairs_view(definitions@)),
{
    let mut taken = MdNode::Break;
    std::mem::swap(node, &mut taken);
    let resolved_node = resolve_children_owned(taken, definitions);
    *node = resolved_node;
}

/// Turns each link or image reference of the document that its definitions
/// define into a link or image to the defined url.
pub fn resolve_reference_links(tree: &mut MdNode)
    ensures
        final(tree)@ == resolved(old(tree)@),
{
    let mut definitions: Vec<(String, String)> = Vec::new();
    collect_link_definitions(tree, &mut definitions);
    assert(pairs_view(definitions@) =~= definitions_of(old(tree)@));
    if definitions.len() > 0 {
        replace_reference_nodes(tree, &definitions);
        proof {
            if !is_parent(old(tree)@) {
                assert(children_of(old(tree)@) =~= Seq::<Tree>::empty());
            }
        }
    }
}

} // verus!
