use cyber_tui::markdown::{render, render_block_line, MdColors};
use cyber_tui::style::{Color, Line, BOLD, DIM, ITALIC, UNDERLINED};
use cyber_tui::theme::Theme;

fn theme() -> Theme {
    Theme::resolve("cyberpunk")
}

fn has_mods(l: &Line, m: u16) -> bool {
    l.spans.iter().any(|s| s.style.add_modifier & m == m)
}

#[test]
fn empty_text_returns_empty() {
    assert!(render("", &theme()).is_empty());
}

#[test]
fn plain_text_yields_one_line() {
    let lines = render("hello world", &theme());
    assert_eq!(lines.len(), 1);
}

#[test]
fn header_renders_one_line() {
    let lines = render("# Title", &theme());
    assert_eq!(lines.len(), 1, "单行标题应一行");
}

#[test]
fn level_six_header_recognized() {
    let lines = render("###### deep", &theme());
    assert_eq!(lines.len(), 1);
}

#[test]
fn seven_hashes_not_header() {
    let lines = render("####### not header", &theme());
    assert_eq!(lines.len(), 1);
}

#[test]
fn code_block_fenced_renders_content_without_delimiters() {
    let text = "```rust\nlet x = 1;\nlet y = 2;\n```\n";
    let lines = render(text, &theme());
    assert_eq!(lines.len(), 2, "代码块应只含 2 行内容（分隔行已隐藏）");
}

#[test]
fn code_block_tilde_fence_also_works() {
    let text = "~~~\ncode\n~~~\n";
    let lines = render(text, &theme());
    assert_eq!(lines.len(), 1);
}

#[test]
fn unclosed_code_block_flushes_in_streaming() {
    let text = "```python\ndef f():\n    pass\n";
    let lines = render(text, &theme());
    assert_eq!(lines.len(), 2, "未闭合代码块应渲染已累积 2 行");
}

#[test]
fn horizontal_rule_renders() {
    let lines = render("---", &theme());
    assert_eq!(lines.len(), 1);
    let lines2 = render("***", &theme());
    assert_eq!(lines2.len(), 1);
}

#[test]
fn blockquote_renders_with_bar_marker() {
    let lines = render("> quoted text", &theme());
    assert_eq!(lines.len(), 1);
}

#[test]
fn unordered_list_renders_marker() {
    for marker in ["- item", "* item", "+ item"] {
        let lines = render(marker, &theme());
        assert_eq!(lines.len(), 1, "{marker} 应渲染为单行列表项");
    }
}

#[test]
fn ordered_list_renders_marker() {
    let lines = render("1. first", &theme());
    assert_eq!(lines.len(), 1);
    let lines = render("42. answer", &theme());
    assert_eq!(lines.len(), 1);
}

#[test]
fn inline_code_does_not_parse_inner_formatting() {
    let lines = render("`a **b** c`", &theme());
    assert_eq!(lines.len(), 1);
}

#[test]
fn bold_renders_without_panicking() {
    let lines = render("**important**", &theme());
    assert_eq!(lines.len(), 1);
}

#[test]
fn italic_renders_and_does_not_conflict_with_bold() {
    let lines = render("**bold** and *italic*", &theme());
    assert_eq!(lines.len(), 1);
}

#[test]
fn strikethrough_renders() {
    let lines = render("~~deleted~~", &theme());
    assert_eq!(lines.len(), 1);
}

#[test]
fn link_renders_text_with_link_style() {
    let lines = render("[example](https://example.com)", &theme());
    assert_eq!(lines.len(), 1);
}

#[test]
fn unclosed_bold_degrades_to_plain_text() {
    let lines = render("**unfinished bold", &theme());
    assert_eq!(lines.len(), 1, "未闭合粗体应按段落行渲染");
}

#[test]
fn unclosed_inline_code_degrades_to_plain_text() {
    let lines = render("some `unclosed code", &theme());
    assert_eq!(lines.len(), 1);
}

#[test]
fn multiline_markdown_renders_multiple_lines() {
    let text = "# Header\n\ntext\n\n- item";
    let lines = render(text, &theme());
    assert_eq!(lines.len(), 5);
}

#[test]
fn nested_bold_around_code_renders() {
    let lines = render("**`code`**", &theme());
    assert_eq!(lines.len(), 1);
}

#[test]
fn link_without_url_degrades() {
    let lines = render("[text only", &theme());
    assert_eq!(lines.len(), 1);
}

#[test]
fn utf8_content_renders_without_panicking() {
    let lines = render("**加粗** 和 `代码` 与 [链接](https://例.com)", &theme());
    assert_eq!(lines.len(), 1);
}

#[test]
fn bold_italic_renders() {
    let lines = render("***bold italic***", &theme());
    assert_eq!(lines.len(), 1);
    assert!(has_mods(&lines[0], BOLD | ITALIC), "应存在粗斜体 span");
}

#[test]
fn bold_italic_mixed_with_plain() {
    let lines = render("前 ***bi*** 后", &theme());
    assert_eq!(lines.len(), 1);
}

#[test]
fn underline_html_u_renders() {
    let lines = render("<u>underlined</u>", &theme());
    assert_eq!(lines.len(), 1);
    assert!(has_mods(&lines[0], UNDERLINED), "应存在下划线 span");
}

#[test]
fn underline_html_ins_renders() {
    let lines = render("<ins>ins</ins> text", &theme());
    assert_eq!(lines.len(), 1);
}

#[test]
fn unclosed_underline_degrades_to_plain() {
    let lines = render("<u>no close", &theme());
    assert_eq!(lines.len(), 1);
}

#[test]
fn inline_math_renders() {
    let lines = render("公式 $x^2 + y^2$ 如上", &theme());
    assert_eq!(lines.len(), 1);
    assert!(
        lines[0]
            .spans
            .iter()
            .any(|s| s.content == "x^2 + y^2" && s.style.add_modifier & ITALIC == ITALIC),
        "应存在斜体数学 span"
    );
}

#[test]
fn inline_math_does_not_swallow_currency() {
    let lines = render("价格 $5 仅此", &theme());
    assert_eq!(lines.len(), 1);
}

#[test]
fn inline_math_requires_non_space_close() {
    let lines = render("$ x $", &theme());
    assert_eq!(lines.len(), 1);
}

#[test]
fn display_math_single_line_renders() {
    let lines = render("$$x^2 + y^2 = z^2$$", &theme());
    assert_eq!(lines.len(), 1);
}

#[test]
fn block_math_multiline_renders() {
    let text = "$$\nx^2 + y^2\n= z^2\n$$";
    let lines = render(text, &theme());
    assert_eq!(lines.len(), 2);
}

#[test]
fn unclosed_block_math_flushes_in_streaming() {
    let text = "$$\nx^2\n";
    let lines = render(text, &theme());
    assert_eq!(lines.len(), 1, "未闭合块级数学应渲染已累积 1 行");
}

#[test]
fn math_content_not_parsed_as_markdown() {
    let lines = render("$a * b$", &theme());
    assert_eq!(lines.len(), 1);
    assert!(lines[0].spans.iter().any(|s| s.content == "a * b"), "数学内容应原样含 *");
}

// ── exact shapes ────────────────────────────────────────────────────────────

#[test]
fn header_line_keeps_hashes_and_trims_title() {
    let t = theme();
    let lines = render("## Title  ", &t);
    assert_eq!(lines[0].spans.len(), 1);
    assert_eq!(lines[0].spans[0].content, "## Title");
    assert_eq!(lines[0].spans[0].style.fg, Some(t.accent));
    assert_eq!(lines[0].spans[0].style.add_modifier, BOLD);
}

#[test]
fn rule_is_thirty_box_characters() {
    let lines = render("  ___  ", &theme());
    assert_eq!(lines[0].spans.len(), 1);
    assert_eq!(lines[0].spans[0].content, "─".repeat(30));
    let mixed = render("-*-", &theme());
    assert_ne!(mixed[0].spans[0].content, "─".repeat(30));
}

#[test]
fn code_block_lines_carry_bar() {
    let t = theme();
    let lines = render("```\nx\n```", &t);
    assert_eq!(lines[0].spans[0].content, "│ ");
    assert_eq!(lines[0].spans[0].style.add_modifier, DIM);
    assert_eq!(lines[0].spans[1].content, "x");
    assert_eq!(lines[0].spans[1].style.fg, Some(t.title));
}

#[test]
fn list_indent_counts_utf8_bytes_of_leading_space() {
    let md = MdColors::from_theme(&theme());
    let raw: Vec<char> = "\u{3000}- a".chars().collect();
    let l = render_block_line(&raw, md);
    assert_eq!(l.spans[0].content, "   ");
    assert_eq!(l.spans[1].content, "-");
    assert_eq!(l.spans[2].content, " ");
    assert_eq!(l.spans[3].content, "a");
}

#[test]
fn empty_line_has_no_spans() {
    let lines = render("a\n\nb", &theme());
    assert_eq!(lines.len(), 3);
    assert!(lines[1].spans.is_empty());
}

#[test]
fn crlf_lines_are_split_like_str_lines() {
    let lines = render("a\r\nb\r\n", &theme());
    assert_eq!(lines.len(), 2);
    assert_eq!(lines[1].spans[1].content, "b");
}

#[test]
fn resolve_known_themes() {
    assert_eq!(Theme::resolve("tokyo-night").bg, Color::Rgb(26, 27, 38));
    assert_eq!(Theme::resolve("catppuccin").bg, Color::Rgb(30, 30, 46));
    assert_eq!(Theme::resolve("cyberpunk").bg, Color::Rgb(13, 2, 33));
    assert_eq!(Theme::resolve("cyberpunk").accent, Color::Rgb(255, 42, 109));
    assert_eq!(Theme::resolve("dracula").bg, Color::Rgb(40, 42, 54));
    assert_eq!(Theme::resolve("gruvbox").bg, Color::Rgb(40, 40, 40));
    assert_eq!(Theme::resolve("nord").bg, Color::Rgb(46, 52, 64));
}

#[test]
fn resolve_unknown_falls_back_to_default() {
    let cyberpunk = Theme::resolve("cyberpunk");
    let fallback = Theme::resolve("does-not-exist");
    assert_eq!(fallback.bg, cyberpunk.bg);
    assert_eq!(fallback.title, cyberpunk.title);
    assert_ne!(Theme::resolve("tokyo-night").bg, cyberpunk.bg);
}

#[test]
fn unclosed_bold_keeps_every_character() {
    let lines = render("**unfinished bold", &theme());
    assert_eq!(lines.len(), 1);
    let text: String = lines[0].spans.iter().map(|s| s.content.as_str()).collect();
    assert_eq!(text, "**unfinished bold");
    let lines = render("a **b", &theme());
    let text: String = lines[0].spans.iter().map(|s| s.content.as_str()).collect();
    assert_eq!(text, "a **b");
}

#[test]
fn italic_still_closes_after_the_fix() {
    let lines = render("*x* and **y**", &theme());
    let text: String = lines[0].spans.iter().map(|s| s.content.as_str()).collect();
    assert_eq!(text, "x and y");
}
