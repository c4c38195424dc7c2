//! The rendering of a markdown document for the console: parse, resolve the
//! reference links, render.
use vstd::prelude::*;

use crate::links::{resolve_reference_links, resolved};
use crate::mdast::{gfm_tree, parse_markdown};
use crate::render::render_markdown_node;
use crate::spec::{
    all_renderable, all_true, renderable_cells, renderable_items, lemma_all_renderable,
    lemma_list_renderable, lemma_row_renderable, lemma_table_renderable, list_renderable,
    render_tree, renderable, renderable_each, renderable_rows, row_renderable, start_number,
    table_renderable,
};
use crate::tree::{view_nodes, MdNode, Tree};

verus! {

/// The view of an optional node.
pub open spec fn view_parsed(p: Option<MdNode>) -> Option<Tree> {
    match p {
        Some(t) => Some(t@),
        None => None,
    }
}

/// The console text of a document whose parse gave `parsed`: the rendering of
/// the tree with its reference links resolved; the text itself where the
/// parser refused it or no rule renders the tree.
pub open spec fn document_text(text: Seq<char>, parsed: Option<Tree>) -> Seq<char> {
    match parsed {
        Some(t) => if renderable(resolved(t)) {
            render_tree(resolved(t))
        } else {
            text
        },
        None => text,
    }
}

/// Whether every node of `nodes` can be rendered.
fn all_nodes_renderable(nodes: &Vec<MdNode>) -> (b: bool)
    ensures
        b == all_renderable(view_nodes(nodes@)),
    decreases nodes,
{
    let ghost vn = view_nodes(nodes@);
    let mut i: usize = 0;
    while i < nodes.len()
        invariant
            i <= nodes.len(),
            vn == view_nodes(nodes@),
            forall|j: int| 0 <= j < i ==> #[trigger] renderable_each(vn)[j],
        decreases nodes.len() - i,
    {
        proof {
            assert(decreases_to!(nodes => nodes@[i as int]));
        }
        if !is_renderable(&nodes[i]) {
            proof {
                if all_renderable(vn) {
                    lemma_all_renderable(vn, i as int);
                }
            }
            return false;
        }
        assert(renderable_each(vn)[i as int]);
        i = i + 1;
    }
    assert(all_true(renderable_each(vn)));
    true
}

/// Whether the items of a list can be rendered and numbered.
fn list_is_renderable(ordered: bool, start: Option<u32>, children: &Vec<MdNode>) -> (b: bool)
    ensures
        b == list_renderable(ordered, start, view_nodes(children@)),
    decreases children,
{
    let ghost vn = view_nodes(children@);
    let first: u32 = match start {
        Some(s) => s,
        None => 1,
    };
    let mut i: usize = 0;
    while i < children.len()
        invariant
            i <= children.len(),
            vn == view_nodes(children@),
            first as nat == start_number(start),
            forall|j: int| 0 <= j < i ==> #[trigger] renderable_items(ordered, start, vn)[j],
        decreases children.len() - i,
    {
        match &children[i] {
            MdNode::ListItem { children: item_children, .. } => {
                proof {
                    assert(decreases_to!(children => children@[i as int]));
                }
                let ok_items = all_nodes_renderable(item_children);
                let ok_number = !ordered || i <= (u32::MAX - first) as usize;
                if !ok_items || !ok_number {
                    proof {
                        if list_renderable(ordered, start, vn) {
                            lemma_list_renderable(ordered, start, vn, i as int);
                        }
                    }
                    return false;
                }
            },
            _ => {},
        }
        assert(renderable_items(ordered, start, vn)[i as int]);
        i = i + 1;
    }
    assert(all_true(renderable_items(ordered, start, vn)));
    true
}

/// Whether the cells of a table row can be rendered.
fn row_is_renderable(cells: &Vec<MdNode>) -> (b: bool)
    ensures
        b == row_renderable(Tree::TableRow { children: view_nodes(cells@) }),
    decreases cells,
{
    let ghost vn = view_nodes(cells@);
    let mut j: usize = 0;
    while j < cells.len()
        invariant
            j <= cells.len(),
            vn == view_nodes(cells@),
            forall|k: int| 0 <= k < j ==> #[trigger] renderable_cells(vn)[k],
        decreases cells.len() - j,
    {
        match &cells[j] {
            MdNode::TableCell { children } => {
                proof {
                    assert(decreases_to!(cells => cells@[j as int]));
                }
                if !all_nodes_renderable(children) {
                    proof {
                        if row_renderable(Tree::TableRow { children: vn }) {
                            lemma_row_renderable(vn, j as int);
                        }
                    }
                    return false;
                }
            },
            _ => {},
        }
        assert(renderable_cells(vn)[j as int]);
        j = j + 1;
    }
    assert(all_true(renderable_cells(vn)));
    true
}

/// Whether the rows of a table can be rendered.
fn table_is_renderable(rows: &Vec<MdNode>) -> (b: bool)
    ensures
        b == table_renderable(view_nodes(rows@)),
    decreases rows,
{
    let ghost vn = view_nodes(rows@);
    let mut i: usize = 0;
    while i < rows.len()
        invariant
            i <= rows.len(),
            vn == view_nodes(rows@),
            forall|k: int| 0 <= k < i ==> #[trigger] renderable_rows(vn)[k],
        decreases rows.len() - i,
    {
        match &rows[i] {
            MdNode::TableRow { children } => {
                proof {
                    assert(decreases_to!(rows => rows@[i as int]));
                }
                if !row_is_renderable(children) {
                    proof {
                        if table_renderable(vn) {
                            lemma_table_renderable(vn, i as int);
                        }
                    }
                    return false;
                }
            },
            _ => {},
        }
        assert(renderable_rows(vn)[i as int]);
        i = i + 1;
    }
    assert(all_true(renderable_rows(vn)));
    true
}

/// Whether a node can be rendered (see `spec::renderable`).
pub fn is_renderable(node: &MdNode) -> (b: bool)
    ensures
        b == renderable(node@),
    decreases node,
{
    match node {
        MdNode::FootnoteDefinition { .. } | MdNode::MdxJsxFlowElement { .. }
        | MdNode::MdxJsxTextElement { .. } | MdNode::TableRow { .. } | MdNode::TableCell {
            ..
        } => false,
        MdNode::List { ordered, start, children } => list_is_renderable(*ordered, *start, children),
        MdNode::Table { children } => table_is_renderable(children),
        MdNode::Root { children }
        | MdNode::Paragraph { children }
        | MdNode::Heading { children, .. }
        | MdNode::Blockquote { children }
        | MdNode::ListItem { children, .. }
        | MdNode::Strong { children }
        | MdNode::Emphasis { children }
        | MdNode::Delete { children }
        | MdNode::Link { children, .. }
        | MdNode::LinkReference { children, .. } => all_nodes_renderable(children),
        _ => true,
    }
}

/// The console text of a document whose parse gave `parsed` (`None` where
/// the parser refused it).
pub fn render_document(text: &str, parsed: Option<MdNode>) -> (r: String)
    ensures
        r@ == document_text(text@, view_parsed(parsed)),
{
    match parsed {
        Some(mut tree) => {
            resolve_reference_links(&mut tree);
            if is_renderable(&tree) {
                render_markdown_node(&tree)
            } else {
                String::from_str(text)
            }
        },
        None => String::from_str(text),
    }
}

/// Renders markdown text (GitHub flavour) for the console: emphasis, strong
/// and struck text in ANSI styles, headings in bold, block quotes behind a
/// bar, lists with their markers, tables drawn with box characters, code
/// highlighted, links as terminal hyperlinks, and blocks separated by an
/// empty line. The empty text gives the empty text; text whose tree no rule
/// renders is given back unchanged.
pub fn render_markdown_for_console(text: &str) -> (r: String)
    ensures
        text@.len() == 0 ==> r@ == Seq::<char>::empty(),
        text@.len() > 0 ==> r@ == document_text(text@, Some(gfm_tree(text@))),
{
    if text.is_empty() {
        return String::new();
    }
    let parsed = parse_markdown(text);
    render_document(text, parsed)
}

} // verus!
