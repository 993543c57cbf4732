use std::collections::HashSet;
use std::time::{Duration, Instant};

use cyber_tui::chat::{
    build_streaming_tail, render_entries, wrap_lines, wrap_string_to_visual_lines, ChatEntry, ChatState, KeyDisposition,
    PasteDetector, Role, SlashMenuMode,
};
use cyber_tui::event::{KeyCode, KeyEvent, CONTROL, NONE};
use cyber_tui::slash::commands;
use cyber_tui::style::{Color, Line, Span, Style};
use cyber_tui::theme::Theme;

fn key(code: KeyCode) -> KeyEvent {
    KeyEvent::new(code, NONE)
}

fn key_with_mods(code: KeyCode, mods: u8) -> KeyEvent {
    KeyEvent::new(code, mods)
}

fn input_text(s: &ChatState) -> String {
    s.input.lines().join("\n")
}

#[test]
fn paste_detector_first_key_is_process() {
    let mut pd = PasteDetector::new();
    assert_eq!(pd.observe(key(KeyCode::Char('a'))), KeyDisposition::Process);
}

#[test]
fn paste_detector_rapid_keys_are_buffered() {
    let mut pd = PasteDetector::new();
    pd.observe(key(KeyCode::Char('a')));
    assert_eq!(pd.observe(key(KeyCode::Char('b'))), KeyDisposition::Buffer);
    assert_eq!(pd.observe(key(KeyCode::Char('c'))), KeyDisposition::Buffer);
    let flushed = pd.flush().unwrap();
    assert_eq!(flushed, "bc");
}

#[test]
fn paste_detector_enter_becomes_newline_in_buffer() {
    let mut pd = PasteDetector::new();
    pd.observe(key(KeyCode::Char('a')));
    assert_eq!(pd.observe(key(KeyCode::Enter)), KeyDisposition::Buffer);
    assert_eq!(pd.observe(key(KeyCode::Char('b'))), KeyDisposition::Buffer);
    let flushed = pd.flush().unwrap();
    assert_eq!(flushed, "\nb");
}

#[test]
fn paste_detector_ctrl_c_not_buffered() {
    let mut pd = PasteDetector::new();
    pd.observe(key(KeyCode::Char('a')));
    pd.observe(key(KeyCode::Char('b')));
    assert_eq!(
        pd.observe(key_with_mods(KeyCode::Char('c'), CONTROL)),
        KeyDisposition::FlushThenProcess
    );
    let flushed = pd.flush().unwrap();
    assert_eq!(flushed, "b");
}

#[test]
fn paste_detector_esc_flushes_buffer() {
    let mut pd = PasteDetector::new();
    pd.observe(key(KeyCode::Char('a')));
    pd.observe(key(KeyCode::Char('b')));
    assert_eq!(pd.observe(key(KeyCode::Esc)), KeyDisposition::FlushThenProcess);
    let flushed = pd.flush().unwrap();
    assert_eq!(flushed, "b");
}

#[test]
fn paste_detector_flush_if_stale_returns_none_when_empty() {
    let mut pd = PasteDetector::new();
    assert!(pd.flush_if_stale().is_none());
}

#[test]
fn paste_detector_flush_if_stale_after_timeout() {
    let mut pd = PasteDetector::new();
    pd.observe(key(KeyCode::Char('a')));
    pd.observe(key(KeyCode::Char('b')));
    pd.last_key_time = Some(Instant::now() - Duration::from_millis(100));
    let flushed = pd.flush_if_stale();
    assert_eq!(flushed.as_deref(), Some("b"));
    assert!(pd.flush_if_stale().is_none());
}

#[test]
fn paste_detector_flush_if_stale_not_yet() {
    let mut pd = PasteDetector::new();
    pd.observe(key(KeyCode::Char('a')));
    pd.observe(key(KeyCode::Char('b')));
    assert!(pd.flush_if_stale().is_none());
}

#[test]
fn paste_detector_take_if_stale_uses_flush_timeout() {
    let mut pd = PasteDetector::new();
    let now = Instant::now();
    assert_eq!(pd.observe_at(key(KeyCode::Char('x')), now, Some(5)), KeyDisposition::Buffer);
    assert!(pd.take_if_stale(None).is_none());
    assert!(pd.take_if_stale(Some(49)).is_none());
    assert_eq!(pd.take_if_stale(Some(50)).as_deref(), Some("x"));
    assert!(pd.take_if_stale(Some(500)).is_none());
    assert!(pd.flush().is_none());
}

#[test]
fn paste_detector_observe_at_uses_rapid_threshold() {
    let mut pd = PasteDetector::new();
    let now = Instant::now();
    assert_eq!(pd.observe_at(key(KeyCode::Char('a')), now, None), KeyDisposition::Process);
    assert_eq!(pd.observe_at(key(KeyCode::Char('b')), now, Some(29)), KeyDisposition::Buffer);
    assert_eq!(pd.observe_at(key(KeyCode::Enter), now, Some(0)), KeyDisposition::Buffer);
    assert_eq!(
        pd.observe_at(key(KeyCode::Char('c')), now, Some(30)),
        KeyDisposition::FlushThenProcess
    );
    assert_eq!(pd.flush().as_deref(), Some("b\n"));
    assert_eq!(pd.observe_at(key(KeyCode::Char('d')), now, Some(31)), KeyDisposition::Process);
}

#[test]
fn wrap_string_to_visual_lines_basic() {
    assert!(wrap_string_to_visual_lines("", 10).is_empty());
    assert_eq!(wrap_string_to_visual_lines("hello", 10), vec!["hello"]);
    assert_eq!(wrap_string_to_visual_lines("a\nb\nc", 10), vec!["a", "b", "c"]);
    assert_eq!(wrap_string_to_visual_lines("\n", 10), vec![""]);
}

#[test]
fn wrap_string_to_visual_lines_wraps_long_line() {
    let result = wrap_string_to_visual_lines("aaaaaaaaaaaaaaaaaaaa", 5);
    assert_eq!(result.len(), 4);
    assert_eq!(result[0], "aaaaa");
    assert_eq!(result[3], "aaaaa");
    let result0 = wrap_string_to_visual_lines("aaaaaaaaaaaaaaaaaaaa", 0);
    assert_eq!(result0, vec!["aaaaaaaaaaaaaaaaaaaa"]);
}

#[test]
fn wrap_string_to_visual_lines_cjk_width() {
    let result = wrap_string_to_visual_lines("你好世界", 4);
    assert_eq!(result.len(), 2);
    assert_eq!(result[0], "你好");
    assert_eq!(result[1], "世界");
}

#[test]
fn wrap_string_wide_char_in_narrow_row_gets_own_row() {
    // a two-column character does not fit one column: it still takes a row
    assert_eq!(wrap_string_to_visual_lines("你a", 1), vec!["你", "a"]);
    // tab counts one column, control characters none
    assert_eq!(wrap_string_to_visual_lines("a\tb", 2), vec!["a\t", "b"]);
    assert_eq!(wrap_string_to_visual_lines("ab\u{7}c", 2), vec!["ab\u{7}", "c"]);
}

#[test]
fn wrap_lines_splits_rows_and_keeps_style_runs() {
    let red = Style::new().fg(Color::Red);
    let plain = Style::new();
    let l = Line {
        spans: vec![
            Span { content: "ab".to_string(), style: plain },
            Span { content: "cd".to_string(), style: red },
        ],
    };
    let rows = wrap_lines(&[l.clone()], 3);
    assert_eq!(rows.len(), 2);
    assert_eq!(rows[0].spans.len(), 2);
    assert_eq!(rows[0].spans[0].content, "ab");
    assert_eq!(rows[0].spans[1].content, "c");
    assert_eq!(rows[0].spans[1].style, red);
    assert_eq!(rows[1].spans.len(), 1);
    assert_eq!(rows[1].spans[0].content, "d");
    // width 0 leaves lines whole; a line without characters stays one empty row
    assert_eq!(wrap_lines(&[l.clone()], 0)[0], l);
    let empty = wrap_lines(&[Line { spans: vec![] }], 5);
    assert_eq!(empty.len(), 1);
    assert!(empty[0].spans.is_empty());
}

#[test]
fn submit_returns_text_history_and_pushes_user_entry() {
    let mut s = ChatState::new();
    s.input.insert_str("你好");
    let (text, history) = s.submit().expect("非空非流式应返回 Some");
    assert_eq!(text, "你好");
    assert!(history.is_empty(), "首次提交 history 应为空（不含当前输入）");
    assert_eq!(s.entries.len(), 1);
    assert!(matches!(s.entries[0], ChatEntry::User(ref c) if c == "你好"));
    assert!(s.streaming, "submit 后应进入 streaming 态");
    assert!(s.input.lines().iter().all(|l| l.is_empty()), "输入框应清空");
}

#[test]
fn submit_during_streaming_returns_none() {
    let mut s = ChatState::new();
    s.input.insert_str("x");
    s.submit();
    s.input.insert_str("y");
    let second = s.submit();
    assert!(second.is_none(), "流式期 submit 应返回 None");
}

#[test]
fn submit_empty_returns_none() {
    let mut s = ChatState::new();
    assert!(s.submit().is_none());
    assert!(s.entries.is_empty());
    assert!(!s.streaming);
}

#[test]
fn submit_whitespace_only_returns_none() {
    let mut s = ChatState::new();
    s.input.insert_str("   \n  ");
    assert!(s.submit().is_none());
    assert!(s.entries.is_empty());
}

#[test]
fn submit_history_excludes_current_input() {
    let mut s = ChatState::new();
    s.entries.push(ChatEntry::User("q1".into()));
    s.entries.push(ChatEntry::Assistant("a1".into()));
    s.input.insert_str("q2");
    let (text, history) = s.submit().unwrap();
    assert_eq!(text, "q2");
    assert_eq!(history.len(), 2, "history 应含 2 条先前消息，不含当前 q2");
    assert_eq!(history[0].content, "q1");
    assert_eq!(history[1].content, "a1");
    assert_eq!(s.entries.len(), 3, "entries 应含 3 条（含刚 push 的 q2）");
}

#[test]
fn finalize_stream_appends_assistant_and_clears_buffer() {
    let mut s = ChatState::new();
    s.streaming = true;
    s.streaming_buffer.push_str("收到：hi");
    s.finalize_stream();
    assert!(!s.streaming);
    assert_eq!(s.entries.len(), 1);
    assert!(matches!(s.entries[0], ChatEntry::Assistant(ref c) if c == "收到：hi"));
    assert!(s.streaming_buffer.is_empty());
}

#[test]
fn finalize_empty_buffer_no_entry() {
    let mut s = ChatState::new();
    s.streaming = true;
    s.finalize_stream();
    assert!(!s.streaming);
    assert!(s.entries.is_empty(), "空 buffer 不应 push 条目");
}

#[test]
fn finalize_stream_puts_thinking_before_answer() {
    let mut s = ChatState::new();
    s.streaming = true;
    s.thinking_buffer.push_str("想");
    s.streaming_buffer.push_str("答");
    s.streaming_tool_output.push_str("残留");
    s.finalize_stream();
    assert!(matches!(&s.entries[0], ChatEntry::Thinking(c) if c == "想"));
    assert!(matches!(&s.entries[1], ChatEntry::Assistant(c) if c == "答"));
    assert!(s.thinking_buffer.is_empty() && s.streaming_tool_output.is_empty());
}

#[test]
fn cancel_stream_preserves_buffer_as_assistant_entry() {
    let mut s = ChatState::new();
    s.streaming = true;
    s.streaming_buffer.push_str("部分");
    s.cancel_stream();
    assert!(!s.streaming);
    assert_eq!(s.entries.len(), 1);
    assert!(matches!(&s.entries[0], ChatEntry::Assistant(c) if c == "部分"));
    assert!(s.streaming_buffer.is_empty());
}

#[test]
fn history_excludes_streaming_buffer() {
    let mut s = ChatState::new();
    s.input.insert_str("a");
    s.submit();
    s.streaming_buffer.push_str("部分");
    let h = s.history();
    assert_eq!(h.len(), 1);
    assert_eq!(h[0].role, Role::User);
    assert_eq!(h[0].content, "a");
}

#[test]
fn history_preserves_tool_chain() {
    let mut s = ChatState::new();
    s.entries.push(ChatEntry::User("q".into()));
    s.entries.push(ChatEntry::ToolCall {
        id: "1".into(),
        name: "list_dir".into(),
        arguments: "{}".into(),
    });
    s.entries.push(ChatEntry::ToolResult {
        id: "1".into(),
        name: "list_dir".into(),
        output: "a.txt".into(),
        is_error: false,
    });
    s.entries.push(ChatEntry::Assistant("done".into()));
    let h = s.history();
    assert_eq!(h.len(), 4, "history 应保留工具链");
    assert_eq!(h[0].role, Role::User);
    assert_eq!(h[0].content, "q");
    assert_eq!(h[1].role, Role::Assistant);
    assert_eq!(h[1].tool_calls.len(), 1);
    assert_eq!(h[1].tool_calls[0].name, "list_dir");
    assert_eq!(h[2].role, Role::Tool);
    assert_eq!(h[2].tool_call_id.as_deref(), Some("1"));
    assert_eq!(h[2].content, "a.txt");
    assert_eq!(h[3].content, "done");
}

#[test]
fn history_merges_leading_text_with_tool_call() {
    let mut s = ChatState::new();
    s.entries.push(ChatEntry::User("q".into()));
    s.entries.push(ChatEntry::Assistant("让我看看".into()));
    s.entries.push(ChatEntry::ToolCall {
        id: "2".into(),
        name: "shell".into(),
        arguments: "{}".into(),
    });
    s.entries.push(ChatEntry::ToolResult {
        id: "2".into(),
        name: "shell".into(),
        output: "ok".into(),
        is_error: false,
    });
    let h = s.history();
    assert_eq!(h.len(), 3);
    assert_eq!(h[1].role, Role::Assistant);
    assert_eq!(h[1].content, "让我看看");
    assert_eq!(h[1].tool_calls.len(), 1);
    assert_eq!(h[1].tool_calls[0].name, "shell");
    assert_eq!(h[2].role, Role::Tool);
}

#[test]
fn history_skips_orphan_tool_call() {
    let mut s = ChatState::new();
    s.entries.push(ChatEntry::User("q".into()));
    s.entries.push(ChatEntry::Assistant("前导".into()));
    s.entries.push(ChatEntry::ToolCall {
        id: "orphan".into(),
        name: "shell".into(),
        arguments: "{}".into(),
    });
    let h = s.history();
    assert_eq!(h.len(), 2, "孤立 ToolCall 应被跳过");
    assert_eq!(h[0].content, "q");
    assert_eq!(h[1].content, "前导");
    assert!(h[1].tool_calls.is_empty());
}

#[test]
fn history_keeps_complete_tool_chain_among_orphans() {
    let mut s = ChatState::new();
    s.entries.push(ChatEntry::User("q".into()));
    s.entries.push(ChatEntry::ToolCall {
        id: "orphan".into(),
        name: "shell".into(),
        arguments: "{}".into(),
    });
    s.entries.push(ChatEntry::ToolCall {
        id: "ok".into(),
        name: "list_dir".into(),
        arguments: "{}".into(),
    });
    s.entries.push(ChatEntry::ToolResult {
        id: "ok".into(),
        name: "list_dir".into(),
        output: "a.txt".into(),
        is_error: false,
    });
    let h = s.history();
    assert_eq!(h.len(), 3);
    assert_eq!(h[0].content, "q");
    assert_eq!(h[1].role, Role::Assistant);
    assert_eq!(h[1].tool_calls.len(), 1);
    assert_eq!(h[1].tool_calls[0].id, "ok");
    assert_eq!(h[2].role, Role::Tool);
    assert_eq!(h[2].tool_call_id.as_deref(), Some("ok"));
}

#[test]
fn history_drops_thinking_and_system() {
    let mut s = ChatState::new();
    s.entries.push(ChatEntry::System("sys".into()));
    s.entries.push(ChatEntry::Thinking("想".into()));
    s.entries.push(ChatEntry::User("q".into()));
    let h = s.history();
    assert_eq!(h.len(), 1);
    assert_eq!(h[0].content, "q");
}

#[test]
fn multiline_input_joins_with_newline() {
    let mut s = ChatState::new();
    s.input.insert_str("第一行");
    s.input.insert_newline();
    s.input.insert_str("第二行");
    let (text, _) = s.submit().unwrap();
    assert_eq!(text, "第一行\n第二行");
}

#[test]
fn push_tool_call_flushes_buffer_first() {
    let mut s = ChatState::new();
    s.streaming = true;
    s.streaming_buffer.push_str("让我看看");
    s.push_tool_call("c1".into(), "list_dir".into(), "{\"path\":\".\"}".into());
    assert_eq!(s.entries.len(), 2);
    assert!(matches!(s.entries[0], ChatEntry::Assistant(ref c) if c == "让我看看"));
    assert!(matches!(&s.entries[1], ChatEntry::ToolCall { name, .. } if name == "list_dir"));
    assert!(s.streaming_buffer.is_empty());
    assert!(s.streaming, "push_tool_call 不应退出 streaming");
}

#[test]
fn push_tool_result_appends_after_call() {
    let mut s = ChatState::new();
    s.streaming = true;
    s.push_tool_call("c1".into(), "list_dir".into(), "{}".into());
    s.push_tool_result("c1".into(), "list_dir".into(), "a.txt".into(), false);
    assert_eq!(s.entries.len(), 2);
    assert!(matches!(&s.entries[1], ChatEntry::ToolResult { output, is_error, .. } if output == "a.txt" && !is_error));
}

fn tool_lines_to_text(lines: &[Line]) -> String {
    lines
        .iter()
        .flat_map(|l| l.spans.iter())
        .map(|s| s.content.as_str())
        .collect::<Vec<_>>()
        .join("")
}

fn tool_result(id: &str, name: &str, output: &str) -> ChatEntry {
    ChatEntry::ToolResult {
        id: id.into(),
        name: name.into(),
        output: output.into(),
        is_error: false,
    }
}

#[test]
fn tool_result_folded_when_exceeds_threshold() {
    let theme = Theme::resolve("cyberpunk");
    let expanded = HashSet::new();
    let entries = vec![tool_result("c1", "list_dir", "l1\nl2\nl3\nl4\nl5")];
    let lines = render_entries(&entries, &theme, &expanded, 80);
    let text = tool_lines_to_text(&lines);
    assert!(text.contains("Ctrl+O 展开"), "折叠态应含 Ctrl+O 展开提示: {text}");
    assert!(text.contains("+2 行已折叠"), "应显示隐藏行数: {text}");
    assert!(!text.contains("l1"), "折叠态不应含 l1: {text}");
    assert!(!text.contains("l2"), "折叠态不应含 l2: {text}");
    assert!(text.contains("l3") && text.contains("l4") && text.contains("l5"));
}

#[test]
fn tool_result_not_folded_at_or_below_threshold() {
    let theme = Theme::resolve("cyberpunk");
    let expanded = HashSet::new();
    let entries = vec![tool_result("c1", "list_dir", "l1\nl2\nl3")];
    let lines = render_entries(&entries, &theme, &expanded, 80);
    let text = tool_lines_to_text(&lines);
    assert!(!text.contains("Ctrl+O"), "≤阈值不应有折叠提示: {text}");
    assert!(text.contains("l1") && text.contains("l2") && text.contains("l3"));
}

#[test]
fn tool_result_expanded_shows_all_lines_and_collapse_hint() {
    let theme = Theme::resolve("cyberpunk");
    let mut expanded = HashSet::new();
    expanded.insert(0);
    let entries = vec![tool_result("c1", "list_dir", "l1\nl2\nl3\nl4\nl5")];
    let lines = render_entries(&entries, &theme, &expanded, 80);
    let text = tool_lines_to_text(&lines);
    assert!(text.contains("Ctrl+O 折叠"), "展开态应含折叠提示: {text}");
    assert!(text.contains("共 5 行"), "应显示总行数: {text}");
    for l in ["l1", "l2", "l3", "l4", "l5"] {
        assert!(text.contains(l), "展开态应含 {l}: {text}");
    }
}

#[test]
fn tool_result_single_long_line_folded_by_visual_width() {
    let theme = Theme::resolve("cyberpunk");
    let expanded = HashSet::new();
    let long_json =
        "{\"has_response\":true,\"url\":\"http://example.com/view.php\",\"status_code\":200}";
    let entries = vec![tool_result("c1", "mcp_tool", long_json)];
    let lines = render_entries(&entries, &theme, &expanded, 20);
    let text = tool_lines_to_text(&lines);
    assert!(text.contains("Ctrl+O 展开"), "单行长输出应按可视行数折叠: {text}");
    let lines_wide = render_entries(&entries, &theme, &expanded, 200);
    let text_wide = tool_lines_to_text(&lines_wide);
    assert!(!text_wide.contains("Ctrl+O"), "宽终端下单行不超阈值不应折叠: {text_wide}");
}

#[test]
fn tool_result_error_and_empty_output_shapes() {
    let theme = Theme::resolve("cyberpunk");
    let expanded = HashSet::new();
    let entries = vec![
        ChatEntry::ToolResult {
            id: "e".into(),
            name: "t".into(),
            output: "bad\nworse".into(),
            is_error: true,
        },
        tool_result("c", "t", ""),
    ];
    let lines = render_entries(&entries, &theme, &expanded, 80);
    assert_eq!(lines[0].spans[0].content, "    ✗ ");
    assert_eq!(lines[0].spans[1].style.fg, Some(Color::Red));
    assert_eq!(lines[1].spans[0].content, "      ");
    assert_eq!(lines[1].spans[1].content, "worse");
    assert!(lines[2].spans.is_empty());
    assert_eq!(lines[3].spans.len(), 1);
    assert_eq!(lines[3].spans[0].content, "    → ");
    assert_eq!(lines.len(), 5);
}

#[test]
fn role_and_tool_call_lines_exact() {
    let theme = Theme::resolve("cyberpunk");
    let expanded = HashSet::new();
    let entries = vec![
        ChatEntry::User("a\nb".into()),
        ChatEntry::System(String::new()),
        ChatEntry::ToolCall { id: "1".into(), name: "ls".into(), arguments: "{}".into() },
        ChatEntry::ToolCall { id: "2".into(), name: "cat".into(), arguments: "{\"p\":1}".into() },
    ];
    let lines = render_entries(&entries, &theme, &expanded, 80);
    assert_eq!(lines[0].spans[0].content, "[user] ");
    assert_eq!(lines[0].spans[1].content, "a");
    assert_eq!(lines[1].spans[0].content, "         ");
    assert_eq!(lines[1].spans[1].content, "b");
    assert_eq!(lines[3].spans.len(), 1);
    assert_eq!(lines[3].spans[0].content, "[system] ");
    assert_eq!(tool_lines_to_text(&lines[5..6]), "  ▶ [tool] ls()");
    assert_eq!(tool_lines_to_text(&lines[7..8]), "  ▶ [tool] cat({\"p\":1})");
    assert_eq!(lines.len(), 9);
}

#[test]
fn thinking_entry_folds_to_last_three_lines() {
    let theme = Theme::resolve("cyberpunk");
    let entries = vec![ChatEntry::Thinking("t1\nt2\nt3\nt4".into())];
    let folded = render_entries(&entries, &theme, &HashSet::new(), 80);
    let text = tool_lines_to_text(&folded);
    assert!(text.starts_with("💭 思考过程"));
    assert!(!text.contains("t1") && text.contains("t4"));
    assert!(text.contains("+1 行已折叠 · Ctrl+O 展开"));
    let mut ex = HashSet::new();
    ex.insert(0usize);
    let open = tool_lines_to_text(&render_entries(&entries, &theme, &ex, 80));
    assert!(open.contains("t1") && open.contains("共 4 行 · Ctrl+O 折叠"));
}

#[test]
fn toggle_last_tool_result_expansion_flips_state() {
    let theme = Theme::resolve("cyberpunk");
    let mut s = ChatState::new();
    s.entries.push(tool_result("c1", "list_dir", "l1\nl2\nl3\nl4\nl5"));
    s.prepare_render(&theme, 80);
    let folded_text = tool_lines_to_text(s.cached_history());
    assert!(folded_text.contains("Ctrl+O 展开"));
    assert!(!folded_text.contains("l1"));
    s.toggle_last_tool_result_expansion();
    s.prepare_render(&theme, 80);
    let expanded_text = tool_lines_to_text(s.cached_history());
    assert!(expanded_text.contains("Ctrl+O 折叠"));
    assert!(expanded_text.contains("l1"));
    s.toggle_last_tool_result_expansion();
    s.prepare_render(&theme, 80);
    let refolded_text = tool_lines_to_text(s.cached_history());
    assert!(refolded_text.contains("Ctrl+O 展开"));
    assert!(!refolded_text.contains("l1"));
}

#[test]
fn toggle_with_no_tool_result_is_noop() {
    let mut s = ChatState::new();
    s.entries.push(ChatEntry::User("hi".into()));
    s.toggle_last_tool_result_expansion();
    assert!(s.expanded_tool_results.is_empty());
}

#[test]
fn toggle_targets_last_tool_result_among_many() {
    let theme = Theme::resolve("cyberpunk");
    let mut s = ChatState::new();
    s.entries.push(tool_result("c1", "t1", "a1\na2\na3\na4\na5"));
    s.entries.push(ChatEntry::Assistant("中间文本".into()));
    s.entries.push(tool_result("c2", "t2", "b1\nb2\nb3\nb4\nb5"));
    s.toggle_last_tool_result_expansion();
    assert!(s.expanded_tool_results.contains(&2));
    assert!(!s.expanded_tool_results.contains(&0));
    s.prepare_render(&theme, 80);
    let text = tool_lines_to_text(s.cached_history());
    assert!(text.contains("b1"));
    assert!(text.contains("Ctrl+O 折叠"));
    assert!(!text.contains("a1"));
}

#[test]
fn clear_empties_entries() {
    let mut s = ChatState::new();
    s.entries.push(ChatEntry::User("a".into()));
    s.entries.push(ChatEntry::Assistant("b".into()));
    s.clear();
    assert!(s.entries.is_empty());
}

#[test]
fn take_input_returns_text_and_clears() {
    let mut s = ChatState::new();
    s.input.insert_str("hello");
    let text = s.take_input();
    assert_eq!(text, "hello");
    assert!(s.input.lines().join("").is_empty());
    assert!(!s.streaming, "take_input 不应改 streaming");
    assert!(s.entries.is_empty(), "take_input 不 push 条目");
}

#[test]
fn prepare_render_caches_entries_lines() {
    let theme = Theme::resolve("cyberpunk");
    let mut s = ChatState::new();
    s.entries.push(ChatEntry::User("你好".into()));
    s.entries.push(ChatEntry::Assistant("收到".into()));
    s.prepare_render(&theme, 80);
    let cached = s.cached_history();
    assert!(!cached.is_empty(), "有条目则缓存非空");
    assert!(cached.len() >= 4);
}

#[test]
fn prepare_render_rebuilds_only_on_entry_count_change() {
    let theme = Theme::resolve("cyberpunk");
    let mut s = ChatState::new();
    s.entries.push(ChatEntry::User("q".into()));
    s.prepare_render(&theme, 80);
    let len_after_first = s.cached_history().len();
    s.prepare_render(&theme, 80);
    assert_eq!(s.cached_history().len(), len_after_first);
    s.entries.push(ChatEntry::Assistant("a".into()));
    s.prepare_render(&theme, 80);
    assert!(s.cached_history().len() > len_after_first, "条目增加后缓存应重建并增长");
}

#[test]
fn invalidate_cache_forces_rebuild_on_theme_change() {
    let theme_a = Theme::resolve("cyberpunk");
    let theme_b = Theme::resolve("nord");
    let mut s = ChatState::new();
    s.entries.push(ChatEntry::User("hi".into()));
    s.prepare_render(&theme_a, 80);
    s.invalidate_cache();
    s.prepare_render(&theme_b, 80);
    assert!(!s.cached_history().is_empty());
    assert_eq!(s.cached_history()[0].spans[0].style.fg, Some(theme_b.accent));
}

#[test]
fn wrapped_lines_reuses_rows_until_key_changes() {
    let theme = Theme::resolve("cyberpunk");
    let mut s = ChatState::new();
    s.entries.push(ChatEntry::User("abcdef".into()));
    s.prepare_render(&theme, 4);
    let rows = s.wrapped_lines(&theme, 4).len();
    assert_eq!(rows, 5);
    s.streaming = true;
    s.streaming_buffer.push_str("x");
    let with_tail = s.wrapped_lines(&theme, 4).len();
    assert!(with_tail > rows);
}

#[test]
fn new_state_follows_bottom() {
    let s = ChatState::new();
    assert!(s.is_following_bottom(), "新建状态应跟随底部");
}

#[test]
fn scroll_history_no_op_without_metrics() {
    let mut s = ChatState::new();
    s.scroll_history(-5);
    assert!(s.is_following_bottom(), "max_scroll=0 时滚动到底 = 跟随");
}

#[test]
fn scroll_up_then_follow_breaks() {
    let mut s = ChatState::new();
    s.set_scroll_metrics(20, 10);
    s.scroll_history(-4);
    assert!(!s.is_following_bottom(), "上滚后应脱离跟随");
    assert_eq!(s.resolved_scroll_offset(10), 6);
}

#[test]
fn scroll_down_to_bottom_re_follows() {
    let mut s = ChatState::new();
    s.set_scroll_metrics(20, 10);
    s.scroll_history(-4);
    s.scroll_history(4);
    assert!(s.is_following_bottom());
    assert_eq!(s.resolved_scroll_offset(10), 10);
}

#[test]
fn scroll_clamps_at_top() {
    let mut s = ChatState::new();
    s.set_scroll_metrics(20, 10);
    s.scroll_history(-100);
    assert_eq!(s.resolved_scroll_offset(10), 0, "顶部钳制为 0");
}

#[test]
fn page_scroll_uses_visible_height() {
    let mut s = ChatState::new();
    s.set_scroll_metrics(40, 10);
    s.scroll_history(-10);
    assert_eq!(s.resolved_scroll_offset(30), 20, "max=30, 上滚 10 → 偏移 20");
    assert_eq!(s.last_visible_height_get(), 10);
}

#[test]
fn scroll_to_bottom_resets_follow() {
    let mut s = ChatState::new();
    s.set_scroll_metrics(20, 10);
    s.scroll_history(-4);
    s.scroll_to_bottom();
    assert!(s.is_following_bottom());
}

#[test]
fn submit_resets_scroll_to_follow() {
    let mut s = ChatState::new();
    s.set_scroll_metrics(20, 10);
    s.scroll_history(-4);
    s.input.insert_str("x");
    s.submit();
    assert!(s.is_following_bottom(), "submit 后应恢复跟随新响应");
}

#[test]
fn clear_resets_scroll_to_follow() {
    let mut s = ChatState::new();
    s.set_scroll_metrics(20, 10);
    s.scroll_history(-4);
    s.clear();
    assert!(s.is_following_bottom());
}

#[test]
fn slash_menu_opens_on_slash_input() {
    let mut s = ChatState::new();
    s.input.insert_str("/");
    s.update_slash_menu();
    assert!(s.slash_menu.open, "输入 `/` 应打开菜单");
    assert_eq!(s.slash_menu.filtered.len(), commands().len());
}

#[test]
fn slash_menu_filters_by_prefix() {
    let mut s = ChatState::new();
    s.input.insert_str("/mo");
    s.update_slash_menu();
    assert!(s.slash_menu.open);
    let names: Vec<&str> = s.slash_menu.filtered.iter().map(|c| c.name).collect();
    assert_eq!(names, vec!["/mode", "/model"]);
}

#[test]
fn slash_menu_closes_on_space_for_paramless_command() {
    let mut s = ChatState::new();
    s.input.insert_str("/help ");
    s.update_slash_menu();
    assert!(!s.slash_menu.open, "无参数命令含空格应关闭菜单");
}

#[test]
fn slash_menu_param_mode_opens_for_think() {
    let mut s = ChatState::new();
    s.input.insert_str("/think ");
    s.update_slash_menu();
    assert!(s.slash_menu.open, "/think 应进入参数补全模式");
    assert_eq!(s.slash_menu.mode, SlashMenuMode::Param);
    assert_eq!(s.slash_menu.params.len(), 5);
}

#[test]
fn slash_menu_param_filters_by_prefix() {
    let mut s = ChatState::new();
    s.input.insert_str("/think h");
    s.update_slash_menu();
    assert!(s.slash_menu.open);
    assert_eq!(s.slash_menu.params, vec!["high"]);
}

#[test]
fn slash_menu_param_closes_on_no_match() {
    let mut s = ChatState::new();
    s.input.insert_str("/think xyz");
    s.update_slash_menu();
    assert!(!s.slash_menu.open, "参数无匹配应关闭菜单");
}

#[test]
fn slash_menu_param_closes_on_second_space() {
    let mut s = ChatState::new();
    s.input.insert_str("/think low ");
    s.update_slash_menu();
    assert!(!s.slash_menu.open, "参数含空格（已完成）应关闭菜单");
}

#[test]
fn slash_menu_param_complete_via_tab() {
    let mut s = ChatState::new();
    s.input.insert_str("/think au");
    s.update_slash_menu();
    assert!(s.slash_menu.open);
    assert_eq!(s.slash_menu.params, vec!["auto"]);
    assert!(s.slash_menu_key(KeyEvent::new(KeyCode::Tab, NONE)));
    assert!(!s.slash_menu.open, "补全后应关闭菜单");
    assert_eq!(s.input.lines().join(""), "/think auto");
}

#[test]
fn slash_menu_command_complete_then_enters_param_mode() {
    let mut s = ChatState::new();
    s.input.insert_str("/thin");
    s.update_slash_menu();
    assert!(s.slash_menu.open);
    assert_eq!(s.slash_menu.mode, SlashMenuMode::Command);
    assert!(s.slash_menu_key(KeyEvent::new(KeyCode::Enter, NONE)));
    assert_eq!(s.input.lines().join(""), "/think ");
    assert!(s.slash_menu.open, "有参数建议时应自动进入 Param 模式");
    assert_eq!(s.slash_menu.mode, SlashMenuMode::Param);
}

#[test]
fn slash_menu_closes_on_non_slash() {
    let mut s = ChatState::new();
    s.input.insert_str("/");
    s.update_slash_menu();
    assert!(s.slash_menu.open);
    s.input.clear();
    s.input.insert_str("hello");
    s.update_slash_menu();
    assert!(!s.slash_menu.open);
}

#[test]
fn slash_menu_closes_when_no_match() {
    let mut s = ChatState::new();
    s.input.insert_str("/zzz");
    s.update_slash_menu();
    assert!(!s.slash_menu.open, "无匹配应关闭菜单");
}

#[test]
fn slash_menu_key_navigates_and_completes() {
    let mut s = ChatState::new();
    s.input.insert_str("/mo");
    s.update_slash_menu();
    assert!(s.slash_menu.open);
    assert!(s.slash_menu_key(key(KeyCode::Down)));
    assert_eq!(s.slash_menu.selected, 1);
    assert!(s.slash_menu_key(key(KeyCode::Enter)));
    assert!(!s.slash_menu.open);
    assert_eq!(s.input.lines().join(""), "/model ");
}

#[test]
fn slash_menu_key_up_wraps_to_last() {
    let mut s = ChatState::new();
    s.input.insert_str("/mo");
    s.update_slash_menu();
    assert!(s.slash_menu_key(key(KeyCode::Up)));
    assert_eq!(s.slash_menu.selected, 1);
    assert!(s.slash_menu_key(key(KeyCode::Down)));
    assert_eq!(s.slash_menu.selected, 0);
}

#[test]
fn slash_menu_key_esc_closes_without_complete() {
    let mut s = ChatState::new();
    s.input.insert_str("/he");
    s.update_slash_menu();
    assert!(s.slash_menu.open);
    assert!(s.slash_menu_key(KeyEvent::new(KeyCode::Esc, NONE)));
    assert!(!s.slash_menu.open, "Esc 应关闭菜单");
    assert_eq!(s.input.lines().join(""), "/he", "Esc 不补全，保留原输入");
}

#[test]
fn slash_menu_key_returns_false_when_closed() {
    let mut s = ChatState::new();
    assert!(!s.slash_menu_key(KeyEvent::new(KeyCode::Up, NONE)));
    assert!(!s.slash_menu_key(KeyEvent::new(KeyCode::Enter, NONE)));
}

#[test]
fn slash_menu_key_unconsumed_for_letters() {
    let mut s = ChatState::new();
    s.input.insert_str("/");
    s.update_slash_menu();
    assert!(!s.slash_menu_key(KeyEvent::new(KeyCode::Char('m'), NONE)));
}

#[test]
fn take_input_closes_slash_menu() {
    let mut s = ChatState::new();
    s.input.insert_str("/mo");
    s.update_slash_menu();
    assert!(s.slash_menu.open);
    let _ = s.take_input();
    assert!(!s.slash_menu.open);
}

#[test]
fn paste_inserts_and_refreshes_menu() {
    let mut s = ChatState::new();
    s.paste("/mo");
    assert!(s.slash_menu.open);
    s.paste("\r\nx");
    assert_eq!(s.input.lines().to_vec(), vec!["/mo".to_string(), "x".to_string()]);
    s.streaming = true;
    s.paste("ignored");
    assert_eq!(input_text(&s), "/mo\nx");
}

fn submit_text(s: &mut ChatState, text: &str) {
    s.input.insert_str(text);
    let _ = s.submit();
    s.streaming = false;
}

#[test]
fn submit_records_to_input_history() {
    let mut s = ChatState::new();
    submit_text(&mut s, "你好");
    submit_text(&mut s, "再见");
    assert_eq!(*s.input_history.entries(), vec!["你好", "再见"]);
}

#[test]
fn input_history_record_dedups_adjacent() {
    let mut s = ChatState::new();
    submit_text(&mut s, "same");
    submit_text(&mut s, "same");
    submit_text(&mut s, "other");
    assert_eq!(*s.input_history.entries(), vec!["same", "other"]);
}

#[test]
fn input_history_record_skips_blank() {
    let mut s = ChatState::new();
    s.input.insert_str("   ");
    let _ = s.submit();
    assert!(s.input_history.entries().is_empty());
}

#[test]
fn input_history_records_trimmed_text() {
    let mut s = ChatState::new();
    submit_text(&mut s, "  padded  ");
    assert_eq!(*s.input_history.entries(), vec!["padded"]);
}

#[test]
fn history_prev_recalls_only_when_input_empty() {
    let mut s = ChatState::new();
    submit_text(&mut s, "first");
    submit_text(&mut s, "second");
    s.input.insert_str("typing");
    assert!(!s.history_prev());
    s.input.clear();
    assert!(s.history_prev());
    assert_eq!(input_text(&s), "second");
}

#[test]
fn history_prev_navigates_older() {
    let mut s = ChatState::new();
    submit_text(&mut s, "a");
    submit_text(&mut s, "b");
    submit_text(&mut s, "c");
    s.input.clear();
    assert!(s.history_prev());
    assert_eq!(input_text(&s), "c");
    assert!(s.history_prev());
    assert_eq!(input_text(&s), "b");
    assert!(s.history_prev());
    assert_eq!(input_text(&s), "a");
    assert!(s.history_prev(), "已到最早仍返回 true（保持）");
    assert_eq!(input_text(&s), "a");
}

#[test]
fn history_next_navigates_newer_and_clears_at_end() {
    let mut s = ChatState::new();
    submit_text(&mut s, "a");
    submit_text(&mut s, "b");
    s.input.clear();
    s.history_prev();
    s.history_prev();
    s.history_prev();
    assert_eq!(input_text(&s), "a");
    assert!(s.history_next());
    assert_eq!(input_text(&s), "b");
    assert!(s.history_next());
    assert!(s.input.lines().iter().all(|l| l.is_empty()), "到头应清空输入");
    assert!(!s.history_next());
}

#[test]
fn history_next_not_browsing_returns_false() {
    let mut s = ChatState::new();
    submit_text(&mut s, "a");
    assert!(!s.history_next());
}

#[test]
fn history_prev_empty_history_returns_false() {
    let mut s = ChatState::new();
    s.input.clear();
    assert!(!s.history_prev(), "无历史时 ↑ 返回 false");
}

#[test]
fn seed_input_history_from_user_entries() {
    let mut s = ChatState::new();
    s.entries.push(ChatEntry::User("q1".into()));
    s.entries.push(ChatEntry::Assistant("a1".into()));
    s.entries.push(ChatEntry::User("q2".into()));
    s.seed_input_history();
    assert_eq!(*s.input_history.entries(), vec!["q1", "q2"], "应只取 User 条目");
}

#[test]
fn seed_input_history_dedups_adjacent() {
    let mut s = ChatState::new();
    s.entries.push(ChatEntry::User("dup".into()));
    s.entries.push(ChatEntry::User("dup".into()));
    s.entries.push(ChatEntry::User("uniq".into()));
    s.seed_input_history();
    assert_eq!(*s.input_history.entries(), vec!["dup", "uniq"]);
}

#[test]
fn streaming_tail_shapes() {
    let t = Theme::resolve("cyberpunk");
    let empty = build_streaming_tail("", "", "", &t);
    assert_eq!(empty.len(), 2);
    assert_eq!(empty[0].spans[0].content, "[assistant]");
    assert_eq!(empty[1].spans[0].content, "▌");
    let md = build_streaming_tail("hi", "", "", &t);
    assert_eq!(md.len(), 2);
    assert_eq!(md[1].spans.last().unwrap().content, "▌");
    let tool = build_streaming_tail("", "", "o1\no2", &t);
    assert_eq!(tool.len(), 2);
    assert_eq!(tool[0].spans[0].content, "    → ");
    assert_eq!(tool[1].spans[0].content, "      ");
    assert_eq!(tool[1].spans[2].content, "▌");
    let think = build_streaming_tail("", "a\nb\nc\nd", "", &t);
    assert_eq!(think[0].spans[1].content, "思考过程");
    assert_eq!(think[1].spans[0].content, "  b");
    assert_eq!(think[4].spans[0].content, "  ⋮ +1 行 · Ctrl+O 展开");
    assert_eq!(think[5].spans[0].content, "[assistant]");
}

use cyber_tui::chat::layout::{history_intro, push_streaming_tail, render_hint, ProjectSummary};

fn line_texts(ls: &[Line]) -> Vec<String> {
    ls.iter().map(|l| l.spans.iter().map(|s| s.content.as_str()).collect::<String>()).collect()
}

#[test]
fn page_tail_marks_last_line_with_cursor() {
    let theme = Theme::resolve("cyberpunk");
    let mut ls: Vec<Line> = Vec::new();
    push_streaming_tail(&mut ls, &theme, "hello\nworld");
    assert_eq!(line_texts(&ls), vec!["[assistant] hello", "         world▌"]);
    assert_eq!(ls[1].spans.len(), 3);
    assert_eq!(ls[1].spans[2].style, Style::new().fg(theme.accent));
    assert_eq!(ls[0].spans.len(), 2);
}

#[test]
fn page_tail_empty_buffer_shows_waiting_cursor() {
    let theme = Theme::resolve("cyberpunk");
    let mut ls: Vec<Line> = vec![Line { spans: vec![] }];
    push_streaming_tail(&mut ls, &theme, "");
    assert_eq!(line_texts(&ls), vec!["", "[assistant] ▌"]);
}

#[test]
fn history_intro_with_and_without_project() {
    let theme = Theme::resolve("cyberpunk");
    let none = history_intro(&None, &theme);
    assert_eq!(
        line_texts(&none),
        vec![
            "Chat Mode（对话交互式）",
            "无项目上下文（当前目录未检测到 .cyber.md）",
            "",
            "在下方输入框输入消息，Enter 发送。",
        ]
    );
    let p = ProjectSummary { project: Some("demo".into()), scope: None, rule_count: 3 };
    let some = history_intro(&Some(p), &theme);
    assert_eq!(line_texts(&some)[1], "项目：demo · scope：<未指定> · 护栏 3 条");
}

#[test]
fn chat_hint_depends_on_streaming() {
    assert!(render_hint(true).starts_with(" 生成中"));
    assert!(render_hint(false).starts_with(" Enter 发送"));
}

use cyber_tui::chat::layout::placeholder_lines;

#[test]
fn placeholder_page_lines() {
    let theme = Theme::resolve("cyberpunk");
    let ls = placeholder_lines("Workflow Mode", "P4", &None, &theme);
    assert_eq!(
        line_texts(&ls),
        vec!["Workflow Mode", "状态：P4", "", "项目上下文：无", "", "Tab 切换模式   Esc 返回 Welcome   q 退出"]
    );
    let p = ProjectSummary { project: None, scope: None, rule_count: 0 };
    let ls = placeholder_lines("Dashboard Mode", "P5", &Some(p), &theme);
    assert_eq!(line_texts(&ls)[3], "当前项目：<未指定>");
}

#[test]
fn history_counts_user_and_tool_messages() {
    let mut s = ChatState::new();
    s.entries.push(ChatEntry::User("q".into()));
    s.entries.push(ChatEntry::ToolCall { id: "c1".into(), name: "ls".into(), arguments: "{}".into() });
    s.entries.push(ChatEntry::ToolResult { id: "c1".into(), name: "ls".into(), output: "a".into(), is_error: false });
    s.entries.push(ChatEntry::ToolCall { id: "c2".into(), name: "ls".into(), arguments: "{}".into() });
    s.entries.push(ChatEntry::User("q2".into()));
    let h = s.history();
    assert_eq!(h.iter().filter(|m| m.role == Role::User).count(), 2);
    assert_eq!(h.iter().filter(|m| m.role == Role::Tool).count(), 1);
    // the call without a result is left out; the answered one precedes its result
    let calls: usize = h.iter().map(|m| m.tool_calls.len()).sum();
    assert_eq!(calls, 1);
}

#[test]
fn wrap_lines_rows_fit_width_with_wide_chars() {
    let red = Style::new().fg(Color::Red);
    let l = Line { spans: vec![Span { content: "a你好".to_string(), style: red }] };
    let rows = wrap_lines(&[l], 3);
    let t: Vec<String> = rows.iter().map(|r| r.spans.iter().map(|s| s.content.as_str()).collect()).collect();
    assert_eq!(t, vec!["a你", "好"]);
    assert!(rows.iter().all(|r| r.spans.iter().all(|s| s.style == red)));
}
