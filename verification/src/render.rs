//! Rendering of a markdown tree to console text, each function proved to
//! give the text that `spec::render_tree` describes.
use vstd::prelude::*;

use crate::highlight::render_syntax_highlighted_code;
use crate::spec::{
    all_renderable, blocks_text, code_block_text, code_body, code_fence_close, code_opener,
    heading_text, inline_text, is_block_kind, lemma_all_renderable, lemma_list_renderable,
    lemma_row_renderable, lemma_table_renderable, link_text, list_entries, list_item_text,
    list_items, list_renderable, nl, non_blank, plain_code_lines, render_all, render_tree,
    renderable, row_cells, row_entries, row_renderable, somes, start_number, table_entries,
    table_lines, table_renderable, table_rows, table_text, task_marker, ANSI_BOLD_OFF,
    ANSI_BOLD_ON, ANSI_FG_CODE, ANSI_FG_LINK, ANSI_FG_RESET, ANSI_ITALIC_OFF, ANSI_ITALIC_ON,
    ANSI_STRIKETHROUGH_OFF, ANSI_STRIKETHROUGH_ON, QUOTE_PREFIX,
};
use crate::table::{rows_views, table_border, table_column_widths, table_row, widths_view};
use crate::text::{
    concat2, concat3, concat_strings, decimal_string, indent_lines, is_blank, is_blank_str, join,
    join_strings, lines, lines_of, prefix_lines, repeat_str, views, visible_line_width,
};
use crate::tree::{view_lang, view_nodes, MdNode, Tree};

verus! {

/// A newline string.
fn newline() -> (s: &'static str)
    ensures
        s@ == nl(),
{
    proof {
        reveal_strlit("\n");
        assert("\n"@ =~= nl());
    }
    "\n"
}

/// The view of an optional string slice.
pub open spec fn view_opt_str(o: Option<&str>) -> Option<Seq<char>> {
    match o {
        Some(s) => Some(s@),
        None => None,
    }
}

fn lang_str(lang: &Option<String>) -> (r: Option<&str>)
    ensures
        view_opt_str(r) == view_lang(*lang),
{
    match lang {
        Some(l) => Some(l.as_str()),
        None => None,
    }
}

proof fn lemma_somes_step<A>(s: Seq<Option<A>>, i: int)
    requires
        0 <= i < s.len(),
    ensures
        somes(s.take(i + 1)) == (match s[i] {
            Some(a) => somes(s.take(i)).push(a),
            None => somes(s.take(i)),
        }),
{
    assert(s.take(i + 1).drop_last() =~= s.take(i));
}

proof fn lemma_non_blank_step(s: Seq<Seq<char>>, i: int)
    requires
        0 <= i < s.len(),
    ensures
        non_blank(s.take(i + 1)) == (if is_blank(s[i]) {
            non_blank(s.take(i))
        } else {
            non_blank(s.take(i)).push(s[i])
        }),
{
    assert(s.take(i + 1).drop_last() =~= s.take(i));
}

/// The rendered inline content of a sequence of nodes, one after the other.
pub fn render_inline_nodes(nodes: &Vec<MdNode>) -> (r: String)
    requires
        all_renderable(view_nodes(nodes@)),
    ensures
        r@ == inline_text(view_nodes(nodes@)),
    decreases nodes, 0int,
{
    let ghost vn = view_nodes(nodes@);
    let mut parts: Vec<String> = Vec::new();
    let mut i: usize = 0;
    while i < nodes.len()
        invariant
            i <= nodes.len(),
            vn == view_nodes(nodes@),
            all_renderable(vn),
            parts.len() == i,
            forall|j: int| 0 <= j < i ==> (#[trigger] parts@[j])@ == render_tree(vn[j]),
        decreases nodes.len() - i,
    {
        proof {
            assert(decreases_to!(nodes => nodes@[i as int]));
            lemma_all_renderable(vn, i as int);
        }
        parts.push(render_inline_node(&nodes[i]));
        i = i + 1;
    }
    assert(views(parts@) =~= render_all(vn));
    concat_strings(&parts)
}

/// The rendered blocks of a sequence of nodes, the blank ones left out,
/// separated by a newline when `compact` and by an empty line otherwise.
pub fn render_block_nodes(nodes: &Vec<MdNode>, compact: bool) -> (r: String)
    requires
        all_renderable(view_nodes(nodes@)),
    ensures
        r@ == blocks_text(render_all(view_nodes(nodes@)), compact),
    decreases nodes, 0int,
{
    let ghost vn = view_nodes(nodes@);
    let ghost all = render_all(vn);
    let mut kept: Vec<String> = Vec::new();
    let mut i: usize = 0;
    while i < nodes.len()
        invariant
            i <= nodes.len(),
            vn == view_nodes(nodes@),
            all == render_all(vn),
            all_renderable(vn),
            views(kept@) == non_blank(all.take(i as int)),
        decreases nodes.len() - i,
    {
        proof {
            assert(decreases_to!(nodes => nodes@[i as int]));
            lemma_all_renderable(vn, i as int);
            lemma_non_blank_step(all, i as int);
        }
        let rendered = render_markdown_node(&nodes[i]);
        if !is_blank_str(rendered.as_str()) {
            kept.push(rendered);
        }
        assert(views(kept@) =~= non_blank(all.take(i + 1)));
        i = i + 1;
    }
    assert(all.take(nodes.len() as int) =~= all);
    let sep = if compact {
        String::from_str(newline())
    } else {
        concat2(newline(), newline())
    };
    join_strings(&kept, sep.as_str())
}

/// The console text of a node, for the nodes that stand as blocks (the others
/// are handed to `render_inline_node`).
pub fn render_markdown_node(node: &MdNode) -> (r: String)
    requires
        renderable(node@),
    ensures
        r@ == render_tree(node@),
    decreases node, if is_block_kind(node@) {
        0int
    } else {
        1int
    },
{
    match node {
        MdNode::Root { children } => render_block_nodes(children, false),
        MdNode::Paragraph { children } => render_inline_nodes(children),
        MdNode::Heading { depth, children } => render_heading(*depth, children),
        MdNode::Blockquote { children } => {
            let body = render_block_nodes(children, false);
            prefix_lines(body.as_str(), QUOTE_PREFIX)
        },
        MdNode::List { ordered, start, children } => render_list(*ordered, *start, children),
        MdNode::ListItem { checked, spread, children } => render_list_item(
            *checked,
            *spread,
            children,
            "-",
        ),
        MdNode::Code { lang, value } => render_code_block(lang_str(lang), value.as_str()),
        MdNode::ThematicBreak => repeat_str("-", 40),
        MdNode::Table { children } => render_table(children),
        MdNode::Definition { .. } => {
            proof {
                reveal_strlit("");
            }
            String::new()
        },
        MdNode::Break => String::from_str(newline()),
        _ => render_inline_node(node),
    }
}

/// The console text of a node, for the nodes that stand inline (the others
/// are handed to `render_markdown_node`).
pub fn render_inline_node(node: &MdNode) -> (r: String)
    requires
        renderable(node@),
    ensures
        r@ == render_tree(node@),
    decreases node, if is_block_kind(node@) {
        1int
    } else {
        0int
    },
{
    match node {
        MdNode::Text { value } => value.clone(),
        MdNode::Strong { children } => {
            let inner = render_inline_nodes(children);
            concat3(ANSI_BOLD_ON, inner.as_str(), ANSI_BOLD_OFF)
        },
        MdNode::Emphasis { children } => {
            let inner = render_inline_nodes(children);
            concat3(ANSI_ITALIC_ON, inner.as_str(), ANSI_ITALIC_OFF)
        },
        MdNode::Delete { children } => {
            let inner = render_inline_nodes(children);
            concat3(ANSI_STRIKETHROUGH_ON, inner.as_str(), ANSI_STRIKETHROUGH_OFF)
        },
        MdNode::InlineCode { value } => concat3(ANSI_FG_CODE, value.as_str(), ANSI_FG_RESET),
        MdNode::InlineMath { value } => concat3(ANSI_FG_CODE, value.as_str(), ANSI_FG_RESET),
        MdNode::Link { url, children } => {
            let label = render_inline_nodes(children);
            render_link(label.as_str(), url.as_str())
        },
        MdNode::LinkReference { children, .. } => render_inline_nodes(children),
        MdNode::Image { alt, url } => {
            let mut r = concat3("[image: ", alt.as_str(), "] (");
            r.append(url.as_str());
            r.append(")");
            r
        },
        MdNode::ImageReference { alt, .. } => concat3("[image: ", alt.as_str(), "]"),
        MdNode::FootnoteReference { identifier } => concat3("[^", identifier.as_str(), "]"),
        MdNode::Break => String::from_str(newline()),
        MdNode::Html { value } => value.clone(),
        MdNode::Math { value } => value.clone(),
        MdNode::MdxFlowExpression { value } => value.clone(),
        MdNode::MdxTextExpression { value } => value.clone(),
        MdNode::MdxjsEsm { value } => value.clone(),
        MdNode::Toml { value } => value.clone(),
        MdNode::Yaml { value } => value.clone(),
        // `renderable` leaves these out.
        MdNode::FootnoteDefinition { .. } | MdNode::MdxJsxFlowElement { .. }
        | MdNode::MdxJsxTextElement { .. } | MdNode::TableRow { .. } | MdNode::TableCell {
            ..
        } => String::new(),
        _ => render_markdown_node(node),
    }
}

/// A heading over its rendered content.
pub fn render_heading(depth: u8, children: &Vec<MdNode>) -> (r: String)
    requires
        all_renderable(view_nodes(children@)),
    ensures
        r@ == heading_text(depth, inline_text(view_nodes(children@))),
    decreases children, 1int,
{
    let content = render_inline_nodes(children);
    if depth == 1 {
        let w = visible_line_width(content.as_str());
        let n = if w > 12 {
            w
        } else {
            12
        };
        let rule = repeat_str("━", n);
        let mut r = concat3(ANSI_BOLD_ON, content.as_str(), ANSI_BOLD_OFF);
        r.append(newline());
        r.append(rule.as_str());
        r
    } else if depth == 2 {
        let mut r = concat3(ANSI_BOLD_ON, "  ▌ ", content.as_str());
        r.append(ANSI_BOLD_OFF);
        r
    } else if depth == 3 {
        let mut r = concat3(ANSI_BOLD_ON, "  ▪ ", content.as_str());
        r.append(ANSI_BOLD_OFF);
        r
    } else {
        concat3(ANSI_BOLD_ON, content.as_str(), ANSI_BOLD_OFF)
    }
}

/// A terminal hyperlink to `url` that shows `label` (the url where the label
/// is empty).
pub fn render_link(label: &str, url: &str) -> (r: String)
    ensures
        r@ == link_text(label@, url@),
{
    let shown = if label.is_empty() {
        url
    } else {
        label
    };
    let mut r = concat3("\x1b]8;;", url, "\x1b\\");
    r.append(ANSI_FG_LINK);
    r.append(shown);
    r.append(ANSI_FG_RESET);
    r.append("\x1b]8;;\x1b\\");
    r
}

/// A list: each child that is a list item behind its marker, one per line.
pub fn render_list(ordered: bool, start: Option<u32>, children: &Vec<MdNode>) -> (r: String)
    requires
        list_renderable(ordered, start, view_nodes(children@)),
    ensures
        r@ == join(list_items(ordered, start, view_nodes(children@)), nl()),
    decreases children, 0int,
{
    let ghost vn = view_nodes(children@);
    let ghost fs = list_entries(ordered, start, vn);
    let first: u32 = match start {
        Some(s) => s,
        None => 1,
    };
    let mut items: Vec<String> = Vec::new();
    let mut i: usize = 0;
    while i < children.len()
        invariant
            i <= children.len(),
            vn == view_nodes(children@),
            list_renderable(ordered, start, vn),
            first as nat == start_number(start),
            fs == list_entries(ordered, start, vn),
            views(items@) == somes(fs.take(i as int)),
        decreases children.len() - i,
    {
        proof {
            lemma_somes_step(fs, i as int);
            reveal_with_fuel(list_entries, 2);
        }
        proof {
            lemma_list_renderable(ordered, start, vn, i as int);
        }
        match &children[i] {
            MdNode::ListItem { checked, spread, children: item_children } => {
                let marker = if ordered {
                    let n: u32 = first + i as u32;
                    let mut m = decimal_string(n);
                    m.append(".");
                    m
                } else {
                    String::from_str("-")
                };
                proof {
                    assert(decreases_to!(children => children@[i as int]));
                }
                let item = render_list_item(*checked, *spread, item_children, marker.as_str());
                items.push(item);
            },
            _ => {},
        }
        assert(views(items@) =~= somes(fs.take(i + 1)));
        i = i + 1;
    }
    assert(fs.take(children.len() as int) =~= fs);
    join_strings(&items, newline())
}

/// A list item: its blocks behind the marker (and the task box, for a task),
/// further lines indented to line up with the first.
pub fn render_list_item(
    checked: Option<bool>,
    spread: bool,
    children: &Vec<MdNode>,
    marker: &str,
) -> (r: String)
    requires
        all_renderable(view_nodes(children@)),
    ensures
        r@ == list_item_text(marker@, checked, blocks_text(render_all(view_nodes(children@)), !spread)),
    decreases children, 1int,
{
    let body = render_block_nodes(children, !spread);
    let task_marker: &str = match checked {
        Some(true) => "[x] ",
        Some(false) => "[ ] ",
        None => "",
    };
    let first_prefix = concat3(marker, " ", task_marker);
    let continuation = repeat_str(" ", first_prefix.as_str().as_bytes().len());
    indent_lines(body.as_str(), first_prefix.as_str(), continuation.as_str())
}

/// The lines of code in the code colour.
pub fn render_plain_code_lines(value: &str) -> (ls: Vec<String>)
    ensures
        views(ls@) == plain_code_lines(value@),
{
    if value.is_empty() {
        let mut v: Vec<String> = Vec::new();
        v.push(String::new());
        assert(views(v@) =~= plain_code_lines(value@));
        return v;
    }
    let src = lines(value);
    let mut out: Vec<String> = Vec::new();
    let mut i: usize = 0;
    while i < src.len()
        invariant
            i <= src.len(),
            views(src@) == lines_of(value@),
            out.len() == i,
            forall|j: int|
                0 <= j < i ==> (#[trigger] out@[j])@ == ANSI_FG_CODE@ + src@[j]@ + ANSI_FG_RESET@,
        decreases src.len() - i,
    {
        out.push(concat3(ANSI_FG_CODE, src[i].as_str(), ANSI_FG_RESET));
        i = i + 1;
    }
    assert(views(out@) =~= plain_code_lines(value@));
    out
}

/// A fenced code block, highlighted where the language is given and known.
pub fn render_code_block(language: Option<&str>, value: &str) -> (r: String)
    ensures
        r@ == code_block_text(view_opt_str(language), value@),
{
    let opener = match language {
        Some(l) => if !l.is_empty() {
            concat2("```", l)
        } else {
            String::from_str("```")
        },
        None => String::from_str("```"),
    };
    let mut lines_out: Vec<String> = Vec::new();
    lines_out.push(concat3(ANSI_FG_CODE, opener.as_str(), ANSI_FG_RESET));
    let body: Vec<String> = if value.is_empty() {
        let mut v: Vec<String> = Vec::new();
        v.push(String::new());
        v
    } else {
        match language {
            Some(l) => match render_syntax_highlighted_code(l, value) {
                Some(highlighted) => highlighted,
                None => render_plain_code_lines(value),
            },
            None => render_plain_code_lines(value),
        }
    };
    assert(views(body@) =~= code_body(view_opt_str(language), value@));
    let mut i: usize = 0;
    while i < body.len()
        invariant
            i <= body.len(),
            lines_out.len() == i + 1,
            lines_out@[0]@ == ANSI_FG_CODE@ + code_opener(view_opt_str(language)) + ANSI_FG_RESET@,
            forall|j: int| 0 <= j < i ==> (#[trigger] lines_out@[j + 1])@ == body@[j]@,
        decreases body.len() - i,
    {
        lines_out.push(body[i].clone());
        i = i + 1;
    }
    lines_out.push(concat3(ANSI_FG_CODE, "```", ANSI_FG_RESET));
    let ghost target = seq![
        ANSI_FG_CODE@ + code_opener(view_opt_str(language)) + ANSI_FG_RESET@,
    ] + code_body(view_opt_str(language), value@) + seq![code_fence_close()];
    assert forall|k: int| 0 <= k < target.len() implies views(lines_out@)[k] == target[k] by {
        if 1 <= k <= body.len() {
            assert(lines_out@[(k - 1) + 1]@ == body@[k - 1]@);
        }
    }
    assert(views(lines_out@) =~= target);
    join_strings(&lines_out, newline())
}

/// The rendered cells of one table row.
fn render_row_cells(cells: &Vec<MdNode>) -> (r: Vec<String>)
    requires
        row_renderable(Tree::TableRow { children: view_nodes(cells@) }),
    ensures
        Some(views(r@)) == row_cells(Tree::TableRow { children: view_nodes(cells@) }),
    decreases cells, 0int,
{
    let ghost vn = view_nodes(cells@);
    let ghost gs = row_entries(vn);
    let mut out: Vec<String> = Vec::new();
    let mut j: usize = 0;
    while j < cells.len()
        invariant
            j <= cells.len(),
            vn == view_nodes(cells@),
            row_renderable(Tree::TableRow { children: vn }),
            gs == row_entries(vn),
            views(out@) == somes(gs.take(j as int)),
        decreases cells.len() - j,
    {
        proof {
            lemma_somes_step(gs, j as int);
            reveal_with_fuel(row_entries, 2);
        }
        proof {
            lemma_row_renderable(vn, j as int);
        }
        match &cells[j] {
            MdNode::TableCell { children } => {
                proof {
                    assert(decreases_to!(cells => cells@[j as int]));
                }
                out.push(render_inline_nodes(children));
            },
            _ => {},
        }
        assert(views(out@) =~= somes(gs.take(j + 1)));
        j = j + 1;
    }
    assert(gs.take(cells.len() as int) =~= gs);
    proof {
        reveal_with_fuel(row_cells, 2);
    }
    out
}

/// The rendered cells of each row of a table.
fn render_table_rows(rows: &Vec<MdNode>) -> (r: Vec<Vec<String>>)
    requires
        table_renderable(view_nodes(rows@)),
    ensures
        rows_views(r@) == table_rows(view_nodes(rows@)),
    decreases rows, 0int,
{
    let ghost vn = view_nodes(rows@);
    let ghost gs = table_entries(vn);
    let mut out: Vec<Vec<String>> = Vec::new();
    let mut i: usize = 0;
    while i < rows.len()
        invariant
            i <= rows.len(),
            vn == view_nodes(rows@),
            table_renderable(vn),
            gs == table_entries(vn),
            rows_views(out@) == somes(gs.take(i as int)),
        decreases rows.len() - i,
    {
        proof {
            lemma_somes_step(gs, i as int);
            reveal_with_fuel(table_entries, 2);
            reveal_with_fuel(row_cells, 2);
        }
        proof {
            lemma_table_renderable(vn, i as int);
        }
        match &rows[i] {
            MdNode::TableRow { children } => {
                proof {
                    assert(decreases_to!(rows => rows@[i as int]));
                }
                out.push(render_row_cells(children));
            },
            _ => {},
        }
        assert(rows_views(out@) =~= somes(gs.take(i + 1)));
        i = i + 1;
    }
    assert(gs.take(rows.len() as int) =~= gs);
    out
}

/// A table drawn with box characters, its first row as header and its columns
/// as wide as their widest cell (at least 3); nothing for a table without rows.
pub fn render_table(rows: &Vec<MdNode>) -> (r: String)
    requires
        table_renderable(view_nodes(rows@)),
    ensures
        r@ == table_text(table_rows(view_nodes(rows@))),
    decreases rows, 1int,
{
    let rendered_rows = render_table_rows(rows);
    let ghost rv = rows_views(rendered_rows@);
    if rendered_rows.len() == 0 {
        proof {
            reveal_strlit("");
        }
        return String::new();
    }
    let widths = table_column_widths(&rendered_rows);
    let ghost wv = widths_view(widths@);
    let mut output: Vec<String> = Vec::new();
    output.push(table_border(&widths, "┌", "┬", "┐"));
    output.push(table_row(&rendered_rows[0], &widths, true));
    if rendered_rows.len() > 1 {
        output.push(table_border(&widths, "├", "┼", "┤"));
        let mut k: usize = 1;
        while k < rendered_rows.len()
            invariant
                1 <= k <= rendered_rows.len(),
                rv == rows_views(rendered_rows@),
                wv == widths_view(widths@),
                wv == crate::spec::column_widths(rv),
                output.len() == k + 2,
                output@[0]@ == crate::spec::border_text(wv, "┌"@, "┬"@, "┐"@),
                output@[1]@ == crate::spec::row_text(rv[0], wv, true),
                output@[2]@ == crate::spec::border_text(wv, "├"@, "┼"@, "┤"@),
                forall|q: int|
                    1 <= q < k ==> (#[trigger] output@[q + 2])@ == crate::spec::row_text(
                        rv[q],
                        wv,
                        false,
                    ),
            decreases rendered_rows.len() - k,
        {
            output.push(table_row(&rendered_rows[k], &widths, false));
            k = k + 1;
        }
    }
    output.push(table_border(&widths, "└", "┴", "┘"));
    let ghost target = table_lines(rv);
    assert forall|q: int| 0 <= q < target.len() implies views(output@)[q] == target[q] by {
        if rv.len() > 1 && 3 <= q < target.len() - 1 {
            assert(output@[(q - 2) + 2]@ == crate::spec::row_text(rv[q - 2], wv, false));
        }
    }
    assert(views(output@) =~= target);
    join_strings(&output, newline())
}

} // verus!
