//! What the console rendering of a markdown tree is, stated over the `Tree`
//! model.
use vstd::prelude::*;

use crate::highlight::highlighted_code;
use crate::text::{
    concat, decimal, indented_lines, is_blank, join, lines_of, prefixed_lines, repeat, split_on,
    visible_width,
};
use crate::tree::Tree;

verus! {

pub const ANSI_BOLD_ON: &'static str = "\x1b[1m";

pub const ANSI_BOLD_OFF: &'static str = "\x1b[22m";

pub const ANSI_ITALIC_ON: &'static str = "\x1b[3m";

pub const ANSI_ITALIC_OFF: &'static str = "\x1b[23m";

pub const ANSI_STRIKETHROUGH_ON: &'static str = "\x1b[9m";

pub const ANSI_STRIKETHROUGH_OFF: &'static str = "\x1b[29m";

pub const ANSI_FG_CODE: &'static str = "\x1b[38;5;245m";

pub const ANSI_FG_LINK: &'static str = "\x1b[4;34m";

pub const ANSI_FG_RESET: &'static str = "\x1b[39;24m";

/// The syntect theme that code blocks are highlighted with.
pub const HIGHLIGHT_THEME: &'static str = "base16-ocean.dark";

/// The prefix of each line of a block quote.
pub const QUOTE_PREFIX: &'static str = "│ ";

/// A newline.
pub open spec fn nl() -> Seq<char> {
    seq!['\n']
}

/// The values that are present, in order.
pub open spec fn somes<A>(s: Seq<Option<A>>) -> Seq<A>
    decreases s.len(),
{
    if s.len() == 0 {
        Seq::empty()
    } else {
        let rest = somes(s.drop_last());
        match s.last() {
            Some(a) => rest.push(a),
            None => rest,
        }
    }
}

/// The parts that hold something other than whitespace, in order.
pub open spec fn non_blank(parts: Seq<Seq<char>>) -> Seq<Seq<char>>
    decreases parts.len(),
{
    if parts.len() == 0 {
        Seq::empty()
    } else {
        let rest = non_blank(parts.drop_last());
        if is_blank(parts.last()) {
            rest
        } else {
            rest.push(parts.last())
        }
    }
}

/// Whether every entry is true.
pub open spec fn all_true(s: Seq<bool>) -> bool {
    forall|i: int| 0 <= i < s.len() ==> #[trigger] s[i]
}

/// The largest entry (0 for none).
pub open spec fn max_nat(s: Seq<nat>) -> nat
    decreases s.len(),
{
    if s.len() == 0 {
        0
    } else {
        let m = max_nat(s.drop_last());
        if s.last() > m {
            s.last()
        } else {
            m
        }
    }
}

/// Rendered blocks, the blank ones left out, separated by a newline when
/// `compact` and by an empty line otherwise.
pub open spec fn blocks_text(rendered: Seq<Seq<char>>, compact: bool) -> Seq<char> {
    join(
        non_blank(rendered),
        if compact {
            nl()
        } else {
            nl() + nl()
        },
    )
}

/// `s` between the escape codes `on` and `off`.
pub open spec fn styled(on: Seq<char>, s: Seq<char>, off: Seq<char>) -> Seq<char> {
    on + s + off
}

/// A heading of the given depth over its rendered content: the first level
/// underlined with a rule at least 12 wide, the second and third marked.
pub open spec fn heading_text(depth: u8, content: Seq<char>) -> Seq<char> {
    if depth == 1 {
        ANSI_BOLD_ON@ + content + ANSI_BOLD_OFF@ + nl() + repeat(
            "━"@,
            if visible_width(content) > 12 {
                visible_width(content)
            } else {
                12
            },
        )
    } else if depth == 2 {
        ANSI_BOLD_ON@ + "  ▌ "@ + content + ANSI_BOLD_OFF@
    } else if depth == 3 {
        ANSI_BOLD_ON@ + "  ▪ "@ + content + ANSI_BOLD_OFF@
    } else {
        ANSI_BOLD_ON@ + content + ANSI_BOLD_OFF@
    }
}

/// A terminal hyperlink to `url` that shows `label`, or the url where the
/// label is empty.
pub open spec fn link_text(label: Seq<char>, url: Seq<char>) -> Seq<char> {
    let shown = if label.len() == 0 {
        url
    } else {
        label
    };
    "\x1b]8;;"@ + url + "\x1b\\"@ + ANSI_FG_LINK@ + shown + ANSI_FG_RESET@ + "\x1b]8;;\x1b\\"@
}

pub open spec fn image_text(alt: Seq<char>, url: Seq<char>) -> Seq<char> {
    "[image: "@ + alt + "] ("@ + url + ")"@
}

pub open spec fn image_reference_text(alt: Seq<char>) -> Seq<char> {
    "[image: "@ + alt + "]"@
}

pub open spec fn footnote_reference_text(identifier: Seq<char>) -> Seq<char> {
    "[^"@ + identifier + "]"@
}

/// The number a list starts at.
pub open spec fn start_number(start: Option<u32>) -> nat {
    match start {
        Some(s) => s as nat,
        None => 1,
    }
}

/// The marker of the list item at position `index` among the list's children.
pub open spec fn list_marker(ordered: bool, start: Option<u32>, index: int) -> Seq<char> {
    if ordered {
        decimal((start_number(start) + index) as nat) + "."@
    } else {
        "-"@
    }
}

pub open spec fn task_marker(checked: Option<bool>) -> Seq<char> {
    match checked {
        Some(true) => "[x] "@,
        Some(false) => "[ ] "@,
        None => ""@,
    }
}

/// A list item's rendered body behind its marker, the further lines indented
/// by as many spaces as the first line's prefix has bytes.
pub open spec fn list_item_text(marker: Seq<char>, checked: Option<bool>, body: Seq<char>) -> Seq<
    char,
> {
    let first = marker + " "@ + task_marker(checked);
    indented_lines(body, first, repeat(" "@, vstd::utf8::encode_utf8(first).len()))
}

/// The fence line that opens a code block.
pub open spec fn code_opener(lang: Option<Seq<char>>) -> Seq<char> {
    match lang {
        Some(l) => if l.len() > 0 {
            "```"@ + l
        } else {
            "```"@
        },
        None => "```"@,
    }
}

/// Each line of code in the code colour.
pub open spec fn plain_code_lines(value: Seq<char>) -> Seq<Seq<char>> {
    if value.len() == 0 {
        seq![Seq::<char>::empty()]
    } else {
        lines_of(value).map_values(|l: Seq<char>| ANSI_FG_CODE@ + l + ANSI_FG_RESET@)
    }
}

/// The lines between the fences of a code block: highlighted by syntect where
/// the language is given and syntect knows it, else plain.
pub open spec fn code_body(lang: Option<Seq<char>>, value: Seq<char>) -> Seq<Seq<char>> {
    if value.len() == 0 {
        seq![Seq::<char>::empty()]
    } else {
        match lang {
            Some(l) => match highlighted_code(l, HIGHLIGHT_THEME@, value) {
                Some(h) => h,
                None => plain_code_lines(value),
            },
            None => plain_code_lines(value),
        }
    }
}

pub open spec fn code_fence_close() -> Seq<char> {
    ANSI_FG_CODE@ + "```"@ + ANSI_FG_RESET@
}

/// A fenced code block.
pub open spec fn code_block_text(lang: Option<Seq<char>>, value: Seq<char>) -> Seq<char> {
    join(
        seq![ANSI_FG_CODE@ + code_opener(lang) + ANSI_FG_RESET@] + code_body(lang, value) + seq![
            code_fence_close(),
        ],
        nl(),
    )
}

pub open spec fn thematic_break_text() -> Seq<char> {
    repeat("-"@, 40)
}

// --- tables ---------------------------------------------------------------
/// The width of a cell: that of its widest line.
pub open spec fn cell_width(cell: Seq<char>) -> nat {
    max_nat(split_on(cell, '\n').map_values(|l: Seq<char>| visible_width(l)))
}

/// The number of columns: that of the longest row.
pub open spec fn column_count(rows: Seq<Seq<Seq<char>>>) -> nat {
    max_nat(rows.map_values(|r: Seq<Seq<char>>| r.len()))
}

/// The width of a column: that of its widest cell, at least 3.
pub open spec fn column_width(rows: Seq<Seq<Seq<char>>>, c: int) -> nat {
    let m = max_nat(
        Seq::new(
            rows.len(),
            |r: int|
                if c < rows[r].len() {
                    cell_width(rows[r][c])
                } else {
                    0
                },
        ),
    );
    if m > 3 {
        m
    } else {
        3
    }
}

pub open spec fn column_widths(rows: Seq<Seq<Seq<char>>>) -> Seq<nat> {
    Seq::new(column_count(rows), |c: int| column_width(rows, c))
}

/// A horizontal border: a rule two wider than each column, between the
/// given corner and junction pieces.
pub open spec fn border_text(
    widths: Seq<nat>,
    left: Seq<char>,
    junction: Seq<char>,
    right: Seq<char>,
) -> Seq<char> {
    left + join(widths.map_values(|w: nat| repeat("─"@, w + 2)), junction) + right
}

/// The lines of the cell of a row in column `c` (one empty line where the row
/// is shorter).
pub open spec fn cell_lines(row: Seq<Seq<char>>, c: int) -> Seq<Seq<char>> {
    split_on(
        if c < row.len() {
            row[c]
        } else {
            Seq::empty()
        },
        '\n',
    )
}

/// The number of lines a row takes.
pub open spec fn row_height(row: Seq<Seq<char>>, count: nat) -> nat {
    if count == 0 {
        1
    } else {
        max_nat(Seq::new(count, |c: int| cell_lines(row, c).len()))
    }
}

/// One line of one cell, padded to the column's width.
pub open spec fn padded_cell(line: Seq<char>, width: nat, header: bool) -> Seq<char> {
    let pad: nat = if visible_width(line) < width {
        (width - visible_width(line)) as nat
    } else {
        0
    };
    if header {
        ANSI_BOLD_ON@ + " "@ + line + repeat(" "@, pad) + " "@ + ANSI_BOLD_OFF@
    } else {
        " "@ + line + repeat(" "@, pad) + " "@
    }
}

/// The `k`-th line of a row: each cell's `k`-th line, between vertical bars.
pub open spec fn row_line(row: Seq<Seq<char>>, widths: Seq<nat>, k: int, header: bool) -> Seq<
    char,
> {
    "│"@ + join(
        Seq::new(
            widths.len(),
            |c: int|
                {
                    let ls = cell_lines(row, c);
                    padded_cell(
                        if k < ls.len() {
                            ls[k]
                        } else {
                            Seq::empty()
                        },
                        widths[c],
                        header,
                    )
                },
        ),
        "│"@,
    ) + "│"@
}

/// All lines of a row.
pub open spec fn row_text(row: Seq<Seq<char>>, widths: Seq<nat>, header: bool) -> Seq<char> {
    join(
        Seq::new(row_height(row, widths.len()), |k: int| row_line(row, widths, k, header)),
        nl(),
    )
}

/// The lines of a table whose rows hold the given rendered cells: a top
/// border, the first row as header, a separator and the other rows if there
/// are any, and a bottom border.
pub open spec fn table_lines(rows: Seq<Seq<Seq<char>>>) -> Seq<Seq<char>> {
    let w = column_widths(rows);
    let body = if rows.len() > 1 {
        seq![border_text(w, "├"@, "┼"@, "┤"@)] + Seq::new(
            (rows.len() - 1) as nat,
            |k: int| row_text(rows[k + 1], w, false),
        )
    } else {
        Seq::empty()
    };
    seq![border_text(w, "┌"@, "┬"@, "┐"@), row_text(rows[0], w, true)] + body + seq![
        border_text(w, "└"@, "┴"@, "┘"@),
    ]
}

/// A table, or nothing for a table without rows.
pub open spec fn table_text(rows: Seq<Seq<Seq<char>>>) -> Seq<char> {
    if rows.len() == 0 {
        Seq::empty()
    } else {
        join(table_lines(rows), nl())
    }
}

// --- rendering of a tree --------------------------------------------------
/// The rendering of each node of a sequence.
pub open spec fn render_all(ts: Seq<Tree>) -> Seq<Seq<char>>
    decreases ts,
{
    Seq::new(
        ts.len(),
        |i: int|
            if 0 <= i < ts.len() {
                render_tree(ts[i])
            } else {
                Seq::empty()
            },
    )
}

/// The body of a list item: its blocks, compact unless the item is spread.
pub open spec fn item_body(t: Tree) -> Seq<char>
    decreases t,
{
    match t {
        Tree::ListItem { spread, children, .. } => blocks_text(render_all(children), !spread),
        _ => Seq::empty(),
    }
}

/// The text of a table cell.
pub open spec fn cell_text(t: Tree) -> Seq<char>
    decreases t,
{
    match t {
        Tree::TableCell { children } => concat(render_all(children)),
        _ => Seq::empty(),
    }
}

/// For each child of a table row, the text of the cell, if it is a cell.
pub open spec fn row_entries(cells: Seq<Tree>) -> Seq<Option<Seq<char>>>
    decreases cells,
{
    Seq::new(
        cells.len(),
        |j: int|
            if 0 <= j < cells.len() {
                match cells[j] {
                    Tree::TableCell { .. } => Some(cell_text(cells[j])),
                    _ => None,
                }
            } else {
                None
            },
    )
}

/// The texts of the cells of a table row (`None` for a node that is no row).
pub open spec fn row_cells(t: Tree) -> Option<Seq<Seq<char>>>
    decreases t,
{
    match t {
        Tree::TableRow { children } => Some(somes(row_entries(children))),
        _ => None,
    }
}

/// For each child of a table, the cell texts of the row, if it is a row.
pub open spec fn table_entries(ts: Seq<Tree>) -> Seq<Option<Seq<Seq<char>>>>
    decreases ts,
{
    Seq::new(
        ts.len(),
        |i: int|
            if 0 <= i < ts.len() {
                row_cells(ts[i])
            } else {
                None
            },
    )
}

/// The rows of a table: the cell texts of each child that is a row.
pub open spec fn table_rows(ts: Seq<Tree>) -> Seq<Seq<Seq<char>>> {
    somes(table_entries(ts))
}

/// For each child of a list, the rendered item, if it is a list item,
/// numbered by its position among the children.
pub open spec fn list_entries(ordered: bool, start: Option<u32>, ts: Seq<Tree>) -> Seq<
    Option<Seq<char>>,
>
    decreases ts,
{
    Seq::new(
        ts.len(),
        |i: int|
            if 0 <= i < ts.len() {
                match ts[i] {
                    Tree::ListItem { checked, .. } => Some(
                        list_item_text(list_marker(ordered, start, i), checked, item_body(ts[i])),
                    ),
                    _ => None,
                }
            } else {
                None
            },
    )
}

/// The rendered items of a list.
pub open spec fn list_items(ordered: bool, start: Option<u32>, ts: Seq<Tree>) -> Seq<Seq<char>> {
    somes(list_entries(ordered, start, ts))
}

/// The console text of a node.
pub open spec fn render_tree(t: Tree) -> Seq<char>
    decreases t,
{
    match t {
        Tree::Root { children } => blocks_text(render_all(children), false),
        Tree::Paragraph { children } => concat(render_all(children)),
        Tree::Heading { depth, children } => heading_text(depth, concat(render_all(children))),
        Tree::Blockquote { children } => prefixed_lines(
            blocks_text(render_all(children), false),
            QUOTE_PREFIX@,
        ),
        Tree::List { ordered, start, children } => join(
            somes(list_entries(ordered, start, children)),
            nl(),
        ),
        Tree::ListItem { checked, spread, children } => list_item_text(
            "-"@,
            checked,
            blocks_text(render_all(children), !spread),
        ),
        Tree::Code { lang, value } => code_block_text(lang, value),
        Tree::ThematicBreak => thematic_break_text(),
        Tree::Table { children } => table_text(somes(table_entries(children))),
        Tree::Definition { .. } => Seq::empty(),
        Tree::Break => nl(),
        Tree::Text { value } => value,
        Tree::Strong { children } => styled(
            ANSI_BOLD_ON@,
            concat(render_all(children)),
            ANSI_BOLD_OFF@,
        ),
        Tree::Emphasis { children } => styled(
            ANSI_ITALIC_ON@,
            concat(render_all(children)),
            ANSI_ITALIC_OFF@,
        ),
        Tree::Delete { children } => styled(
            ANSI_STRIKETHROUGH_ON@,
            concat(render_all(children)),
            ANSI_STRIKETHROUGH_OFF@,
        ),
        Tree::InlineCode { value } => styled(ANSI_FG_CODE@, value, ANSI_FG_RESET@),
        Tree::InlineMath { value } => styled(ANSI_FG_CODE@, value, ANSI_FG_RESET@),
        Tree::Link { url, children } => link_text(concat(render_all(children)), url),
        Tree::LinkReference { children, .. } => concat(render_all(children)),
        Tree::Image { alt, url } => image_text(alt, url),
        Tree::ImageReference { alt, .. } => image_reference_text(alt),
        Tree::FootnoteReference { identifier } => footnote_reference_text(identifier),
        Tree::Html { value } => value,
        Tree::Math { value } => value,
        Tree::MdxFlowExpression { value } => value,
        Tree::MdxTextExpression { value } => value,
        Tree::MdxjsEsm { value } => value,
        Tree::Toml { value } => value,
        Tree::Yaml { value } => value,
        // No rule renders these.
        Tree::FootnoteDefinition { .. } => Seq::empty(),
        Tree::MdxJsxFlowElement { .. } => Seq::empty(),
        Tree::MdxJsxTextElement { .. } => Seq::empty(),
        Tree::TableRow { .. } => Seq::empty(),
        Tree::TableCell { .. } => Seq::empty(),
    }
}

/// The rendered inline content of a sequence of nodes.
pub open spec fn inline_text(ts: Seq<Tree>) -> Seq<char> {
    concat(render_all(ts))
}

// --- which trees can be rendered -----------------------------------------
/// For each node of a sequence, whether it can be rendered.
pub open spec fn renderable_each(ts: Seq<Tree>) -> Seq<bool>
    decreases ts,
{
    Seq::new(
        ts.len(),
        |i: int|
            if 0 <= i < ts.len() {
                renderable(ts[i])
            } else {
                true
            },
    )
}

/// Whether each node of a sequence can be rendered.
pub open spec fn all_renderable(ts: Seq<Tree>) -> bool {
    all_true(renderable_each(ts))
}

/// Whether the content of a list item can be rendered (true of a node that
/// is no list item, which a list leaves out).
pub open spec fn item_renderable(t: Tree) -> bool
    decreases t,
{
    match t {
        Tree::ListItem { children, .. } => all_true(renderable_each(children)),
        _ => true,
    }
}

/// Whether the content of a table cell can be rendered (true of a node that
/// is no cell, which a row leaves out).
pub open spec fn cell_renderable(t: Tree) -> bool
    decreases t,
{
    match t {
        Tree::TableCell { children } => all_true(renderable_each(children)),
        _ => true,
    }
}

/// For each child of a table row, whether it can be rendered as a cell.
pub open spec fn renderable_cells(cells: Seq<Tree>) -> Seq<bool>
    decreases cells,
{
    Seq::new(
        cells.len(),
        |j: int|
            if 0 <= j < cells.len() {
                cell_renderable(cells[j])
            } else {
                true
            },
    )
}

/// Whether the cells of a table row can be rendered (true of a node that is
/// no row, which a table leaves out).
pub open spec fn row_renderable(t: Tree) -> bool
    decreases t,
{
    match t {
        Tree::TableRow { children } => all_true(renderable_cells(children)),
        _ => true,
    }
}

/// For each child of a table, whether it can be rendered as a row.
pub open spec fn renderable_rows(ts: Seq<Tree>) -> Seq<bool>
    decreases ts,
{
    Seq::new(
        ts.len(),
        |i: int|
            if 0 <= i < ts.len() {
                row_renderable(ts[i])
            } else {
                true
            },
    )
}

/// Whether every row of a table can be rendered.
pub open spec fn table_renderable(ts: Seq<Tree>) -> bool {
    all_true(renderable_rows(ts))
}

/// For each child of a list, whether it can be rendered as an item, with a
/// number that fits in a `u32` where the list is ordered.
pub open spec fn renderable_items(ordered: bool, start: Option<u32>, ts: Seq<Tree>) -> Seq<bool>
    decreases ts,
{
    Seq::new(
        ts.len(),
        |i: int|
            if 0 <= i < ts.len() {
                item_renderable(ts[i]) && ((ordered && ts[i] is ListItem) ==> start_number(start)
                    + i <= u32::MAX)
            } else {
                true
            },
    )
}

/// Whether the list items of a list can be rendered and numbered.
pub open spec fn list_renderable(ordered: bool, start: Option<u32>, ts: Seq<Tree>) -> bool {
    all_true(renderable_items(ordered, start, ts))
}

/// Whether a node can be rendered: footnote definitions, JSX elements, and
/// rows or cells outside a table have no rule that renders them (the
/// renderer would recurse without end on them), and the number of an item of
/// an ordered list must fit in a `u32`.
pub open spec fn renderable(t: Tree) -> bool
    decreases t,
{
    match t {
        Tree::FootnoteDefinition { .. } => false,
        Tree::MdxJsxFlowElement { .. } => false,
        Tree::MdxJsxTextElement { .. } => false,
        Tree::TableRow { .. } => false,
        Tree::TableCell { .. } => false,
        Tree::List { ordered, start, children } => all_true(renderable_items(ordered, start, children)),
        Tree::Table { children } => all_true(renderable_rows(children)),
        Tree::Root { children } => all_true(renderable_each(children)),
        Tree::Paragraph { children } => all_true(renderable_each(children)),
        Tree::Heading { children, .. } => all_true(renderable_each(children)),
        Tree::Blockquote { children } => all_true(renderable_each(children)),
        Tree::ListItem { children, .. } => all_true(renderable_each(children)),
        Tree::Strong { children } => all_true(renderable_each(children)),
        Tree::Emphasis { children } => all_true(renderable_each(children)),
        Tree::Delete { children } => all_true(renderable_each(children)),
        Tree::Link { children, .. } => all_true(renderable_each(children)),
        Tree::LinkReference { children, .. } => all_true(renderable_each(children)),
        _ => true,
    }
}

pub proof fn lemma_all_renderable(ts: Seq<Tree>, i: int)
    requires
        all_renderable(ts),
        0 <= i < ts.len(),
    ensures
        renderable(ts[i]),
{
    assert(renderable_each(ts)[i]);
}

pub proof fn lemma_table_renderable(ts: Seq<Tree>, i: int)
    requires
        table_renderable(ts),
        0 <= i < ts.len(),
    ensures
        row_renderable(ts[i]),
{
    assert(renderable_rows(ts)[i]);
}

pub proof fn lemma_row_renderable(cells: Seq<Tree>, j: int)
    requires
        row_renderable(Tree::TableRow { children: cells }),
        0 <= j < cells.len(),
    ensures
        cell_renderable(cells[j]),
{
    assert(renderable_cells(cells)[j]);
}

pub proof fn lemma_list_renderable(ordered: bool, start: Option<u32>, ts: Seq<Tree>, i: int)
    requires
        list_renderable(ordered, start, ts),
        0 <= i < ts.len(),
    ensures
        item_renderable(ts[i]),
        (ordered && ts[i] is ListItem) ==> start_number(start) + i <= u32::MAX,
{
    assert(renderable_items(ordered, start, ts)[i]);
}

/// The nodes that `render_markdown_node` renders by a rule of its own (the
/// others it hands to `render_inline_node`).
pub open spec fn is_block_kind(t: Tree) -> bool {
    match t {
        Tree::Root { .. } | Tree::Paragraph { .. } | Tree::Heading { .. } | Tree::Blockquote {
            ..
        } | Tree::List { .. } | Tree::ListItem { .. } | Tree::Code { .. } | Tree::ThematicBreak
        | Tree::Table { .. } | Tree::Definition { .. } | Tree::Break => true,
        _ => false,
    }
}

} // verus!
