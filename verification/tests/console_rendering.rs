use console_markdown::render_markdown_for_console;

#[test]
fn renders_markdown_emphasis() {
    let rendered = render_markdown_for_console("**bold** and *italic* and ~~deleted~~");

    assert!(rendered.contains("\x1b[1mbold\x1b[22m"));
    assert!(rendered.contains("\x1b[3mitalic\x1b[23m"));
    assert!(rendered.contains("\x1b[9mdeleted\x1b[29m"));
}

#[test]
fn renders_markdown_blocks_with_spacing() {
    let rendered = render_markdown_for_console("# Title\n\nParagraph\n\n- one\n- two");

    assert!(rendered.contains("Title"));
    assert!(rendered.contains("Paragraph"));
    assert!(rendered.contains("- one\n- two"));
    assert!(rendered.contains("\n\n"));
}

#[test]
fn renders_task_lists() {
    let rendered = render_markdown_for_console("- [x] Done\n- [ ] Pending");

    assert!(rendered.contains("- [x] Done"));
    assert!(rendered.contains("- [ ] Pending"));
}

#[test]
fn renders_code_blocks() {
    let rendered = render_markdown_for_console("```rust\nfn main() {}\n```");

    assert!(rendered.contains("fn"));
    assert!(rendered.contains("main"));
    assert!(rendered.contains("{"));
    assert!(rendered.contains("}"));
    assert!(rendered.contains("\x1b["));
}

#[test]
fn renders_tables() {
    let rendered =
        render_markdown_for_console("| Name | Value |\n| --- | --- |\n| foo | bar |");

    assert!(rendered.contains("Name"));
    assert!(rendered.contains("Value"));
    assert!(rendered.contains("foo"));
    assert!(rendered.contains("bar"));
    assert!(rendered.contains("┌"));
    assert!(rendered.contains("└"));
}

#[test]
fn renders_links() {
    let rendered = render_markdown_for_console("[pgmoneta](https://pgmoneta.github.io/)");

    assert!(rendered.contains("pgmoneta"));
    assert!(rendered.contains("https://pgmoneta.github.io/"));
}

#[test]
fn empty_input_is_unchanged() {
    assert_eq!(render_markdown_for_console(""), "");
}

#[test]
fn removes_markdown_delimiters_from_terminal_output() {
    let rendered =
        render_markdown_for_console("# Title\n\nThis is **bold**, *italic*, and `code`.");

    assert!(rendered.contains("Title"));
    assert!(rendered.contains("bold"));
    assert!(rendered.contains("italic"));
    assert!(rendered.contains("code"));

    assert!(!rendered.contains("**bold**"));
    assert!(!rendered.contains("*italic*"));
    assert!(!rendered.contains("`code`"));
}

#[test]
fn renders_ordered_lists() {
    let rendered = render_markdown_for_console("1. First\n2. Second\n3. Third");

    assert!(rendered.contains("1. First"));
    assert!(rendered.contains("2. Second"));
    assert!(rendered.contains("3. Third"));
}

#[test]
fn renders_blockquotes() {
    let rendered = render_markdown_for_console("> Important information");

    assert!(rendered.contains("│ Important information"));
}

#[test]
fn preserves_visual_spacing_between_blocks() {
    let rendered = render_markdown_for_console(
        "First paragraph.\n\nSecond paragraph.\n\nThird paragraph.",
    );

    assert!(rendered.contains("First paragraph.\n\nSecond paragraph."));
    assert!(rendered.contains("Second paragraph.\n\nThird paragraph."));
}

#[test]
fn resolves_reference_links() {
    let rendered =
        render_markdown_for_console("[pgmoneta][project]\n\n[project]: https://pgmoneta.org/");

    assert!(rendered.contains("pgmoneta"));
    assert!(rendered.contains("https://pgmoneta.org/"));
}

#[test]
fn renders_syntax_highlighted_code_blocks() {
    let rendered =
        render_markdown_for_console("```rust\nfn main() {\n    println!(\"Hello\");\n}\n```");

    assert!(rendered.contains("fn"));
    assert!(rendered.contains("main"));
    assert!(rendered.contains("println!"));
    assert!(rendered.contains("\x1b["));
}

#[test]
fn renders_unknown_language_code_blocks() {
    let rendered = render_markdown_for_console("```unknownlang\nhello world\n```");

    assert!(rendered.contains("hello world"));
    assert!(rendered.contains("```unknownlang"));
}
