use console_markdown::console::{is_renderable, render_document};
use console_markdown::highlight::{lines_with_endings_of, render_syntax_highlighted_code};
use console_markdown::links::{collect_link_definitions, replace_reference_nodes, resolve_reference_links};
use console_markdown::mdast::parse_markdown;
use console_markdown::render::{
    render_block_nodes, render_code_block, render_heading, render_inline_node,
    render_inline_nodes, render_link, render_list, render_list_item, render_markdown_node,
    render_plain_code_lines, render_table,
};
use console_markdown::text::{
    decimal_string, indent_lines, is_blank_str, join_strings, lines, prefix_lines, repeat_str,
    split_on_char, visible_line_width,
};
use console_markdown::{render_markdown_for_console, MdNode};

const B: &str = "\x1b[1m";
const B_OFF: &str = "\x1b[22m";
const I: &str = "\x1b[3m";
const I_OFF: &str = "\x1b[23m";
const C: &str = "\x1b[38;5;245m";
const L: &str = "\x1b[4;34m";
const R: &str = "\x1b[39;24m";

fn text(s: &str) -> MdNode {
    MdNode::Text { value: s.to_string() }
}

fn para(children: Vec<MdNode>) -> MdNode {
    MdNode::Paragraph { children }
}

fn item(checked: Option<bool>, spread: bool, children: Vec<MdNode>) -> MdNode {
    MdNode::ListItem { checked, spread, children }
}

fn cell(children: Vec<MdNode>) -> MdNode {
    MdNode::TableCell { children }
}

fn row(cells: Vec<MdNode>) -> MdNode {
    MdNode::TableRow { children: cells }
}

fn strings(v: &[&str]) -> Vec<String> {
    v.iter().map(|s| s.to_string()).collect()
}

// --- headings -------------------------------------------------------------

#[test]
fn first_level_heading_is_underlined_at_least_twelve_wide() {
    let r = render_heading(1, &vec![text("Hi")]);
    assert_eq!(r, format!("{B}Hi{B_OFF}\n{}", "━".repeat(12)));
}

#[test]
fn first_level_heading_rule_follows_a_long_title() {
    let r = render_heading(1, &vec![text("Sixteen chars!!!")]);
    assert_eq!(r, format!("{B}Sixteen chars!!!{B_OFF}\n{}", "━".repeat(16)));
}

#[test]
fn heading_rule_ignores_escape_codes_of_the_title() {
    let r = render_heading(1, &vec![MdNode::Strong { children: vec![text("Thirteen char")] }]);
    assert!(r.ends_with(&format!("\n{}", "━".repeat(13))));
}

#[test]
fn second_third_and_deeper_headings() {
    assert_eq!(render_heading(2, &vec![text("Hi")]), format!("{B}  ▌ Hi{B_OFF}"));
    assert_eq!(render_heading(3, &vec![text("Hi")]), format!("{B}  ▪ Hi{B_OFF}"));
    assert_eq!(render_heading(4, &vec![text("Hi")]), format!("{B}Hi{B_OFF}"));
}

// --- inline nodes ---------------------------------------------------------

#[test]
fn link_shows_label_or_url() {
    assert_eq!(
        render_link("site", "http://x"),
        format!("\x1b]8;;http://x\x1b\\{L}site{R}\x1b]8;;\x1b\\")
    );
    assert_eq!(
        render_link("", "http://x"),
        format!("\x1b]8;;http://x\x1b\\{L}http://x{R}\x1b]8;;\x1b\\")
    );
}

#[test]
fn inline_nodes_render_one_after_the_other() {
    let nodes = vec![
        text("a "),
        MdNode::Emphasis { children: vec![text("b")] },
        MdNode::InlineCode { value: "c".to_string() },
        MdNode::Break,
        MdNode::Image { alt: "pic".to_string(), url: "u".to_string() },
        MdNode::ImageReference { alt: "ref".to_string(), identifier: "r".to_string() },
        MdNode::FootnoteReference { identifier: "1".to_string() },
        MdNode::Html { value: "<br>".to_string() },
    ];
    assert_eq!(
        render_inline_nodes(&nodes),
        format!("a {I}b{I_OFF}{C}c{R}\n[image: pic] (u)[image: ref][^1]<br>")
    );
}

#[test]
fn block_and_inline_entry_points_agree() {
    let nodes = vec![
        MdNode::ThematicBreak,
        text("t"),
        MdNode::Strong { children: vec![text("s")] },
        MdNode::Break,
        MdNode::Definition { identifier: "x".to_string(), url: "u".to_string() },
    ];
    for n in &nodes {
        assert_eq!(render_markdown_node(n), render_inline_node(n));
    }
    assert_eq!(render_markdown_node(&MdNode::ThematicBreak), "-".repeat(40));
}

// --- blocks ---------------------------------------------------------------

#[test]
fn blocks_are_separated_by_an_empty_line_and_blank_ones_left_out() {
    let nodes = vec![
        para(vec![text("a")]),
        MdNode::Definition { identifier: "x".to_string(), url: "u".to_string() },
        para(vec![text("b")]),
    ];
    assert_eq!(render_block_nodes(&nodes, false), "a\n\nb");
    assert_eq!(render_block_nodes(&nodes, true), "a\nb");
    assert_eq!(render_block_nodes(&vec![], false), "");
}

#[test]
fn whitespace_only_blocks_are_left_out() {
    let nodes = vec![para(vec![text("a")]), para(vec![text(" \t")]), para(vec![text("b")])];
    assert_eq!(render_block_nodes(&nodes, false), "a\n\nb");
}

#[test]
fn block_quote_prefixes_every_line() {
    let quote = MdNode::Blockquote {
        children: vec![para(vec![text("a\nb")]), para(vec![text("c")])],
    };
    assert_eq!(render_markdown_node(&quote), "│ a\n│ b\n│ \n│ c");
}

// --- lists ----------------------------------------------------------------

#[test]
fn ordered_list_numbers_items_by_position_among_children() {
    let children = vec![
        item(None, false, vec![para(vec![text("a")])]),
        para(vec![text("not an item")]),
        item(None, false, vec![para(vec![text("b")])]),
    ];
    assert_eq!(render_list(true, Some(5), &children), "5. a\n7. b");
    assert_eq!(render_list(true, None, &children), "1. a\n3. b");
    assert_eq!(render_list(false, Some(5), &children), "- a\n- b");
}

#[test]
fn list_item_continuation_lines_line_up() {
    let children = vec![para(vec![text("a")]), para(vec![text("b")])];
    assert_eq!(render_list_item(Some(true), false, &children, "-"), "- [x] a\n      b");
    assert_eq!(render_list_item(Some(false), false, &children, "-"), "- [ ] a\n      b");
    assert_eq!(render_list_item(None, true, &children, "10."), "10. a\n    \n    b");
}

#[test]
fn list_item_indent_counts_bytes_of_the_prefix() {
    let children = vec![para(vec![text("a\nb")])];
    // "•" takes three bytes, so the prefix "• " takes four
    assert_eq!(render_list_item(None, false, &children, "•"), "• a\n    b");
}

// --- tables ---------------------------------------------------------------

#[test]
fn table_columns_are_as_wide_as_their_widest_cell() {
    let rows = vec![
        row(vec![cell(vec![text("Name")]), cell(vec![text("Value")])]),
        row(vec![cell(vec![text("foo")]), cell(vec![text("bar")])]),
    ];
    let expected = [
        "┌──────┬───────┐".to_string(),
        format!("│{B} Name {B_OFF}│{B} Value {B_OFF}│"),
        "├──────┼───────┤".to_string(),
        "│ foo  │ bar   │".to_string(),
        "└──────┴───────┘".to_string(),
    ]
    .join("\n");
    assert_eq!(render_table(&rows), expected);
}

#[test]
fn table_rows_of_different_lengths_and_narrow_columns() {
    let rows = vec![
        row(vec![cell(vec![text("a")])]),
        row(vec![cell(vec![text("x")]), cell(vec![text("yy")])]),
    ];
    let expected = [
        "┌─────┬─────┐".to_string(),
        format!("│{B} a   {B_OFF}│{B}     {B_OFF}│"),
        "├─────┼─────┤".to_string(),
        "│ x   │ yy  │".to_string(),
        "└─────┴─────┘".to_string(),
    ]
    .join("\n");
    assert_eq!(render_table(&rows), expected);
}

#[test]
fn table_cell_with_a_line_break_takes_two_lines() {
    let rows = vec![
        row(vec![cell(vec![text("h1")]), cell(vec![text("h2")])]),
        row(vec![
            cell(vec![text("a"), MdNode::Break, text("b")]),
            cell(vec![text("c")]),
        ]),
    ];
    let expected = [
        "┌─────┬─────┐".to_string(),
        format!("│{B} h1  {B_OFF}│{B} h2  {B_OFF}│"),
        "├─────┼─────┤".to_string(),
        "│ a   │ c   │".to_string(),
        "│ b   │     │".to_string(),
        "└─────┴─────┘".to_string(),
    ]
    .join("\n");
    assert_eq!(render_table(&rows), expected);
}

#[test]
fn table_cell_width_ignores_escape_codes() {
    let rows = vec![row(vec![cell(vec![MdNode::Strong { children: vec![text("abcd")] }])])];
    let expected = [
        "┌──────┐".to_string(),
        format!("│{B} {B}abcd{B_OFF} {B_OFF}│"),
        "└──────┘".to_string(),
    ]
    .join("\n");
    assert_eq!(render_table(&rows), expected);
}

#[test]
fn table_without_rows_renders_nothing() {
    assert_eq!(render_table(&vec![]), "");
    assert_eq!(render_table(&vec![text("not a row")]), "");
}

// --- code -----------------------------------------------------------------

#[test]
fn code_block_without_language_is_plain() {
    assert_eq!(
        render_code_block(None, "x\ny"),
        format!("{C}```{R}\n{C}x{R}\n{C}y{R}\n{C}```{R}")
    );
}

#[test]
fn empty_code_block_has_one_empty_line() {
    assert_eq!(render_code_block(Some("rust"), ""), format!("{C}```rust{R}\n\n{C}```{R}"));
}

#[test]
fn code_block_in_unknown_language_is_plain() {
    assert_eq!(
        render_code_block(Some("unknownlang"), "hello world\n"),
        format!("{C}```unknownlang{R}\n{C}hello world{R}\n{C}```{R}")
    );
}

#[test]
fn syntect_highlights_known_languages_only() {
    let lines = render_syntax_highlighted_code("rust", "fn main() {}\n").unwrap();
    assert_eq!(lines.len(), 1);
    assert!(lines[0].contains("\x1b[38;2;"));
    assert!(lines[0].contains("main"));
    assert_ne!(lines[0], "fn main() {}\n");
    let two = render_syntax_highlighted_code("rs", "let a = 1;\nlet b = 2;").unwrap();
    assert_eq!(two.len(), 2);
    assert!(render_syntax_highlighted_code("unknownlang", "x").is_none());
}

#[test]
fn highlighted_code_block_keeps_the_fences() {
    let r = render_code_block(Some("rust"), "fn main() {}\n");
    assert!(r.starts_with(&format!("{C}```rust{R}\n")));
    assert!(r.ends_with(&format!("\n{C}```{R}")));
    assert!(r.contains("\x1b[38;2;"));
}

#[test]
fn plain_code_lines_drop_line_endings() {
    assert_eq!(
        render_plain_code_lines("a\r\nb\n"),
        vec![format!("{C}a{R}"), format!("{C}b{R}")]
    );
    assert_eq!(render_plain_code_lines(""), vec![String::new()]);
}

// --- text utilities -------------------------------------------------------

#[test]
fn visible_width_skips_escape_sequences() {
    assert_eq!(visible_line_width("plain"), 5);
    assert_eq!(visible_line_width("\x1b[1mbold\x1b[22m"), 4);
    assert_eq!(visible_line_width(&render_link("label", "http://x")), 5);
    assert_eq!(visible_line_width("\x1b]0;title\x07ok"), 2);
    assert_eq!(visible_line_width("\x1bxy"), 2);
    assert_eq!(visible_line_width("\x1b]a\x1bb\x07c"), 1);
    assert_eq!(visible_line_width("\x1b[12"), 0);
    assert_eq!(visible_line_width("━━"), 2);
    assert_eq!(visible_line_width(""), 0);
}

#[test]
fn lines_follow_str_lines() {
    assert_eq!(lines("a\nb\r\n\nc\r"), strings(&["a", "b", "", "c\r"]));
    assert_eq!(lines(""), Vec::<String>::new());
    assert_eq!(lines("\n"), strings(&[""]));
    let sample = "x\r\ny\n\nz";
    assert_eq!(lines(sample), sample.lines().map(String::from).collect::<Vec<_>>());
}

#[test]
fn split_then_join_gives_the_text_back() {
    assert_eq!(split_on_char("a\n\nb\n", '\n'), strings(&["a", "", "b", ""]));
    assert_eq!(split_on_char("", '\n'), strings(&[""]));
    let s = "one\ntwo\n\nthree";
    assert_eq!(join_strings(&split_on_char(s, '\n'), "\n"), s);
}

#[test]
fn prefix_and_indent_lines() {
    assert_eq!(prefix_lines("a\nb\n", "> "), "> a\n> b");
    assert_eq!(prefix_lines("", "> "), "");
    assert_eq!(indent_lines("a\nb", "1. ", "   "), "1. a\n   b");
}

#[test]
fn small_text_helpers() {
    assert_eq!(decimal_string(0), "0");
    assert_eq!(decimal_string(4294967295), "4294967295");
    assert!(is_blank_str("  \t\n\u{3000}"));
    assert!(is_blank_str(""));
    assert!(!is_blank_str("a "));
    assert_eq!(join_strings(&strings(&["a", "b"]), ", "), "a, b");
    assert_eq!(repeat_str("ab", 3), "ababab");
    assert_eq!(repeat_str("ab", 0), "");
}

// --- reference links ------------------------------------------------------

fn definition(id: &str, url: &str) -> MdNode {
    MdNode::Definition { identifier: id.to_string(), url: url.to_string() }
}

#[test]
fn defined_reference_becomes_a_link() {
    let mut tree = MdNode::Root {
        children: vec![
            para(vec![MdNode::LinkReference {
                identifier: "x".to_string(),
                children: vec![text("a")],
            }]),
            definition("x", "http://u"),
        ],
    };
    resolve_reference_links(&mut tree);
    let expected = MdNode::Root {
        children: vec![
            para(vec![MdNode::Link { url: "http://u".to_string(), children: vec![text("a")] }]),
            definition("x", "http://u"),
        ],
    };
    assert_eq!(tree, expected);
    assert_eq!(
        render_markdown_node(&tree),
        format!("\x1b]8;;http://u\x1b\\{L}a{R}\x1b]8;;\x1b\\")
    );
}

#[test]
fn later_definition_takes_the_place_of_an_earlier_one() {
    let mut tree = MdNode::Root {
        children: vec![
            definition("x", "first"),
            MdNode::Blockquote { children: vec![definition("x", "second")] },
            para(vec![MdNode::ImageReference {
                alt: "pic".to_string(),
                identifier: "x".to_string(),
            }]),
        ],
    };
    let mut defs = Vec::new();
    collect_link_definitions(&tree, &mut defs);
    assert_eq!(
        defs,
        vec![
            ("x".to_string(), "first".to_string()),
            ("x".to_string(), "second".to_string()),
        ]
    );
    replace_reference_nodes(&mut tree, &defs);
    match &tree {
        MdNode::Root { children } => assert_eq!(
            children[2],
            para(vec![MdNode::Image { alt: "pic".to_string(), url: "second".to_string() }])
        ),
        _ => panic!("root expected"),
    }
}

#[test]
fn undefined_reference_renders_its_content() {
    let mut tree = MdNode::Root {
        children: vec![
            para(vec![MdNode::LinkReference {
                identifier: "y".to_string(),
                children: vec![text("a")],
            }]),
            definition("x", "http://u"),
        ],
    };
    resolve_reference_links(&mut tree);
    assert_eq!(render_markdown_node(&tree), "a");
}

// --- whole documents ------------------------------------------------------

#[test]
fn nodes_without_a_rule_are_not_renderable() {
    assert!(!is_renderable(&MdNode::FootnoteDefinition { children: vec![] }));
    assert!(!is_renderable(&row(vec![])));
    assert!(is_renderable(&MdNode::Root { children: vec![para(vec![text("a")])] }));
    let two = vec![item(None, false, vec![]), item(None, false, vec![])];
    assert!(!is_renderable(&MdNode::List { ordered: true, start: Some(u32::MAX), children: two }));
    let one = vec![item(None, false, vec![])];
    assert!(is_renderable(&MdNode::List { ordered: true, start: Some(u32::MAX), children: one }));
}

#[test]
fn document_falls_back_to_its_text() {
    assert_eq!(render_document("some *text*", None), "some *text*");
    let tree = MdNode::Root { children: vec![MdNode::FootnoteDefinition { children: vec![] }] };
    assert_eq!(render_document("x", Some(tree)), "x");
    let plain = MdNode::Root { children: vec![para(vec![text("y")])] };
    assert_eq!(render_document("x", Some(plain)), "y");
}

#[test]
fn footnote_definitions_leave_the_text_unchanged() {
    let doc = "Hi[^1]\n\n[^1]: Note.";
    assert_eq!(render_markdown_for_console(doc), doc);
}

#[test]
fn parser_gives_the_mdast_tree() {
    let tree = parse_markdown("# Hi\n\nA *b*").unwrap();
    let expected = MdNode::Root {
        children: vec![
            MdNode::Heading { depth: 1, children: vec![text("Hi")] },
            para(vec![text("A "), MdNode::Emphasis { children: vec![text("b")] }]),
        ],
    };
    assert_eq!(tree, expected);
}

#[test]
fn renders_a_whole_document_exactly() {
    let r = render_markdown_for_console("# Title\n\nParagraph\n\n- one\n- two");
    assert_eq!(r, format!("{B}Title{B_OFF}\n{}\n\nParagraph\n\n- one\n- two", "━".repeat(12)));
}

#[test]
fn renders_styles_exactly() {
    assert_eq!(
        render_markdown_for_console("**bold** and *italic*"),
        format!("{B}bold{B_OFF} and {I}italic{I_OFF}")
    );
    assert_eq!(render_markdown_for_console("`x`"), format!("{C}x{R}"));
    assert_eq!(
        render_markdown_for_console("![alt](http://i.png)"),
        "[image: alt] (http://i.png)"
    );
    assert_eq!(render_markdown_for_console("a  \nb"), "a\nb");
}

#[test]
fn renders_thematic_breaks_and_quotes() {
    assert_eq!(
        render_markdown_for_console("a\n\n---\n\nb"),
        format!("a\n\n{}\n\nb", "-".repeat(40))
    );
    assert_eq!(render_markdown_for_console("> a\n> b"), "│ a\n│ b");
}

#[test]
fn renders_a_parsed_table_exactly() {
    let r = render_markdown_for_console("| Name | Value |\n| --- | --- |\n| foo | bar |");
    let expected = [
        "┌──────┬───────┐".to_string(),
        format!("│{B} Name {B_OFF}│{B} Value {B_OFF}│"),
        "├──────┼───────┤".to_string(),
        "│ foo  │ bar   │".to_string(),
        "└──────┴───────┘".to_string(),
    ]
    .join("\n");
    assert_eq!(r, expected);
}

#[test]
fn renders_reference_link_with_url() {
    let r = render_markdown_for_console("[pg][p]\n\n[p]: https://pgmoneta.org/");
    assert_eq!(r, format!("\x1b]8;;https://pgmoneta.org/\x1b\\{L}pg{R}\x1b]8;;\x1b\\"));
}

#[test]
fn table_lines_all_have_the_same_visible_width() {
    let rows = vec![
        row(vec![cell(vec![text("head")]), cell(vec![MdNode::Strong { children: vec![text("x")] }])]),
        row(vec![
            cell(vec![text("a"), MdNode::Break, text("longer line")]),
            cell(vec![MdNode::InlineCode { value: "code".to_string() }]),
        ]),
        row(vec![cell(vec![text("only one")])]),
    ];
    let rendered = render_table(&rows);
    let widths: Vec<usize> = rendered.split('\n').map(visible_line_width).collect();
    assert_eq!(widths.len(), 7);
    assert!(widths.iter().all(|w| *w == widths[0]));
    assert_eq!(widths[0], 1 + (11 + 2) + 1 + (4 + 2) + 1);
}

#[test]
fn resolving_twice_changes_nothing() {
    let doc = "[a][x] and [b][y] ![c][x]\n\n> [d][x]\n\n[x]: http://u";
    let mut once = parse_markdown(doc).unwrap();
    resolve_reference_links(&mut once);
    let mut tree = parse_markdown(doc).unwrap();
    resolve_reference_links(&mut tree);
    resolve_reference_links(&mut tree);
    assert_eq!(tree, once);
    let mut defs = Vec::new();
    collect_link_definitions(&tree, &mut defs);
    assert_eq!(defs, vec![("x".to_string(), "http://u".to_string())]);
}

#[test]
fn replacing_twice_changes_nothing() {
    let defs = vec![("x".to_string(), "http://u".to_string())];
    let make = || MdNode::Root {
        children: vec![para(vec![
            MdNode::LinkReference { identifier: "x".to_string(), children: vec![text("a")] },
            MdNode::LinkReference { identifier: "z".to_string(), children: vec![text("b")] },
        ])],
    };
    let mut once = make();
    replace_reference_nodes(&mut once, &defs);
    let mut twice = make();
    replace_reference_nodes(&mut twice, &defs);
    replace_reference_nodes(&mut twice, &defs);
    assert_eq!(once, twice);
    let expected = MdNode::Root {
        children: vec![para(vec![
            MdNode::Link { url: "http://u".to_string(), children: vec![text("a")] },
            MdNode::LinkReference { identifier: "z".to_string(), children: vec![text("b")] },
        ])],
    };
    assert_eq!(once, expected);
}

#[test]
fn inline_content_of_two_runs_is_their_concatenation() {
    let a = || vec![text("x "), MdNode::Strong { children: vec![text("y")] }];
    let b = || vec![MdNode::InlineCode { value: "z".to_string() }, text("!")];
    let mut both = a();
    both.extend(b());
    assert_eq!(
        render_inline_nodes(&both),
        format!("{}{}", render_inline_nodes(&a()), render_inline_nodes(&b()))
    );
    assert_eq!(render_inline_nodes(&both), format!("x {B}y{B_OFF}{C}z{R}!"));
    assert_eq!(render_inline_nodes(&vec![]), "");
}

#[test]
fn parser_keeps_child_order_and_fields() {
    let tree = parse_markdown("1. a\n2. [b](u)\n\n```rs\nfn\n```").unwrap();
    let expected = MdNode::Root {
        children: vec![
            MdNode::List {
                ordered: true,
                start: Some(1),
                children: vec![
                    item(None, false, vec![para(vec![text("a")])]),
                    item(
                        None,
                        false,
                        vec![para(vec![MdNode::Link {
                            url: "u".to_string(),
                            children: vec![text("b")],
                        }])],
                    ),
                ],
            },
            MdNode::Code { lang: Some("rs".to_string()), value: "fn".to_string() },
        ],
    };
    assert_eq!(tree, expected);
}

fn strip_sgr(s: &str) -> String {
    let mut out = String::new();
    let mut in_escape = false;
    for c in s.chars() {
        if in_escape {
            if c.is_ascii_alphabetic() {
                in_escape = false;
            }
        } else if c == '\x1b' {
            in_escape = true;
        } else {
            out.push(c);
        }
    }
    out
}

#[test]
fn lines_keep_their_endings() {
    assert_eq!(lines_with_endings_of("foo\nbar\nbaz"), strings(&["foo\n", "bar\n", "baz"]));
    assert_eq!(lines_with_endings_of("a\n"), strings(&["a\n"]));
    assert_eq!(lines_with_endings_of("\n\n"), strings(&["\n", "\n"]));
    assert!(lines_with_endings_of("").is_empty());
}

#[test]
fn highlighted_lines_keep_their_text_and_endings() {
    let code = "let a = 1;\n\nlet b = \"x\";";
    let lines = render_syntax_highlighted_code("rs", code).unwrap();
    assert_eq!(lines.len(), 3);
    let plain: Vec<String> = lines.iter().map(|l| strip_sgr(l)).collect();
    assert_eq!(plain, strings(&["let a = 1;\n", "\n", "let b = \"x\";"]));
    let by_name = render_syntax_highlighted_code("Rust", "fn f() {}").unwrap();
    assert_eq!(strip_sgr(&by_name[0]), "fn f() {}");
}

#[test]
fn control_sequences_and_commands_take_no_width() {
    assert_eq!(visible_line_width("ab\x1b[2Kcd"), 4);
    assert_eq!(visible_line_width("ab\x1b]8;;http://x\x07cd"), 4);
    assert_eq!(visible_line_width("ab\x1b]8;;http://x\x1b\\cd"), 4);
}
