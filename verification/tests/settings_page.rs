use cyber_tui::settings::SettingsState;
use cyber_tui::strmap::StringMap;
use cyber_tui::style::{Line, Style, BOLD};
use cyber_tui::theme::Theme;
use cyber_tui::views::mcp_form::{McpServerSpec, McpTransport};
use cyber_tui::views::settings_page::mcp_lines;

fn texts(ls: &[Line]) -> Vec<String> {
    ls.iter().map(|l| l.spans.iter().map(|s| s.content.as_str()).collect::<String>()).collect()
}

fn stdio_server() -> McpServerSpec {
    let mut env = StringMap::new();
    env.insert("TOKEN".into(), "x".into());
    env.insert("HOME".into(), "/h".into());
    McpServerSpec {
        name: "fs".into(),
        transport: McpTransport::Stdio,
        command: Some("npx".into()),
        args: vec!["-y".into(), "server".into()],
        env,
        url: None,
        headers: StringMap::new(),
        timeout_secs: 10,
    }
}

fn http_server() -> McpServerSpec {
    let mut headers = StringMap::new();
    headers.insert("Authorization".into(), "t".into());
    McpServerSpec {
        name: "web".into(),
        transport: McpTransport::Http,
        command: None,
        args: vec![],
        env: StringMap::new(),
        url: None,
        headers,
        timeout_secs: 30,
    }
}

#[test]
fn mcp_lines_empty_list_gives_hint() {
    let theme = Theme::resolve("cyberpunk");
    let ls = mcp_lines(&vec![], &None, &SettingsState::new(), &theme);
    assert_eq!(texts(&ls), vec!["（无 MCP server，按 a 新增）"]);
    assert_eq!(ls[0].spans[0].style, Style::new().fg(theme.muted));
}

#[test]
fn mcp_lines_rows_and_key_lists() {
    let theme = Theme::resolve("cyberpunk");
    let st = SettingsState::new();
    let connected = Some(vec!["fs".to_string()]);
    let ls = mcp_lines(&vec![stdio_server(), http_server()], &connected, &st, &theme);
    assert_eq!(
        texts(&ls),
        vec![
            "▸ fs  [stdio] npx -y server · timeout=10s  · [已连接]",
            "    env: HOME, TOKEN",
            "  web  [http] (未设置 url) · timeout=30s  · [连接失败]",
            "    headers: Authorization",
        ]
    );
    // the selected row lies on the selection background
    assert_eq!(ls[0].spans[0].style.bg, Some(theme.sel_bg));
    assert_eq!(ls[2].spans[0].style.bg, Some(theme.bg));
    assert_eq!(ls[0].spans[4].style.fg, Some(theme.title));
    assert_eq!(ls[2].spans[4].style.fg, Some(theme.accent));
    assert_eq!(ls[0].spans[1].style.add_modifier, BOLD);
}

#[test]
fn mcp_lines_without_client_and_pending_delete() {
    let theme = Theme::resolve("cyberpunk");
    let mut st = SettingsState::new();
    st.mcp_on_save = true;
    st.mcp_pending_delete_idx = Some(0);
    let mut s = stdio_server();
    s.command = None;
    s.args = vec![];
    s.env = StringMap::new();
    let ls = mcp_lines(&vec![s], &None, &st, &theme);
    assert_eq!(texts(&ls), vec!["  fs  [stdio] (未设置) · timeout=10s  · [未启用]  [待删除!]"]);
    assert_eq!(ls[0].spans[1].style.fg, Some(theme.accent));
    assert_eq!(ls[0].spans[4].style.fg, Some(theme.muted));
}

use cyber_tui::views::settings_page::{empty_providers_line, provider_row};

#[test]
fn provider_row_marks_default_selection_and_pending_delete() {
    let theme = Theme::resolve("cyberpunk");
    let mut st = SettingsState::new();
    let r = provider_row("openai", "[openai] https://api.openai.com/v1 · gpt-4o", 0, "openai", &st, &theme);
    let text: String = r.spans.iter().map(|s| s.content.as_str()).collect();
    assert_eq!(text, "▸ openai ★默认  [openai] https://api.openai.com/v1 · gpt-4o");
    assert_eq!(r.spans[0].style.bg, Some(theme.sel_bg));
    assert_eq!(r.spans[1].style.fg, Some(theme.title));
    st.pending_delete_idx = Some(1);
    let r = provider_row("ollama", "[ollama] http://localhost:11434 · llama3", 1, "openai", &st, &theme);
    let text: String = r.spans.iter().map(|s| s.content.as_str()).collect();
    assert_eq!(text, "  ollama  [ollama] http://localhost:11434 · llama3  [待删除!]");
    assert_eq!(r.spans[1].style.fg, Some(theme.accent));
    assert_eq!(r.spans[0].style.bg, Some(theme.bg));
}

#[test]
fn empty_providers_hint() {
    let theme = Theme::resolve("cyberpunk");
    let l = empty_providers_line(&theme);
    assert_eq!(l.spans[0].content, "（无 provider，按 a 新增）");
}

use cyber_tui::config::{AgentConfig, Config, StorageConfig, ToolsConfig, UiConfig, WorkflowConfig};
use cyber_tui::views::settings_page::{
    editable_lines, mcp_hint, page_title, providers_hint, save_row, section_name, sidebar_lines,
};

fn page_config() -> Config {
    Config {
        ui: UiConfig {
            theme: "cyberpunk".into(),
            default_mode: "chat".into(),
            mouse: true,
            animations: true,
            frame_rate: 60,
        },
        agent: AgentConfig { default_provider: "openai".into(), auto_tool_call: false, max_steps: 50 },
        workflow: WorkflowConfig { max_parallel_nodes: 8, default_timeout_secs: 1800, checkpoint: true },
        tools: ToolsConfig { prefer_docker: false, extra_path: vec![] },
        storage: StorageConfig { history_retention_days: 90, log_level: "info".into() },
    }
}

#[test]
fn editable_section_rows_labels_values_effects() {
    let theme = Theme::resolve("cyberpunk");
    let st = SettingsState::new();
    let ls = editable_lines(&page_config(), &st, &theme);
    assert_eq!(
        texts(&ls),
        vec![
            " UI ",
            "",
            "▸ 主题 theme : cyberpunk   [即时]",
            "  默认模式 default_mode : chat   [重启]",
            "  鼠标 mouse : on   [即时]",
            "  动画 animations : true   [P6]",
            "  帧率 frame_rate : 60   [—]",
            "",
            "  保存设置   (Enter 保存)",
            "",
            "Enter 编辑字段  ←→ 调整  Esc 返回",
        ]
    );
    assert_eq!(ls[2].spans[0].style.bg, Some(theme.sel_bg));
    assert_eq!(ls[3].spans[0].style.bg, Some(theme.bg));
}

#[test]
fn editable_section_dirty_save_row_selected() {
    let theme = Theme::resolve("cyberpunk");
    let mut st = SettingsState::new();
    st.section = 1;
    st.selected = 3;
    st.dirty = true;
    let ls = editable_lines(&page_config(), &st, &theme);
    let t = texts(&ls);
    assert_eq!(t[0], " Agent ");
    assert_eq!(t[3], "  自动工具调用 auto_tool_call : off   [P2]");
    assert_eq!(t[6], "▸ 保存设置 *   (Enter 保存)");
    assert_eq!(t[8], "有未保存改动：Enter 保存 / 再按 Esc 丢弃");
    assert_eq!(page_title(&st), " Settings * ");
    assert_eq!(page_title(&SettingsState::new()), " Settings ");
}

#[test]
fn sidebar_marks_current_section() {
    let theme = Theme::resolve("cyberpunk");
    let mut st = SettingsState::new();
    st.section = 5;
    let ls = sidebar_lines(&st, &theme);
    let t = texts(&ls);
    assert_eq!(t.len(), 10);
    assert_eq!(t[0], "  UI");
    assert_eq!(t[5], "▸ Providers");
    assert_eq!(t[9], "Tab 切段  ↑↓ 行");
    assert_eq!(ls[5].spans[0].style.bg, Some(theme.sel_bg));
    assert_eq!(section_name(6), "MCP");
}

#[test]
fn list_hints_name_the_armed_row() {
    let theme = Theme::resolve("cyberpunk");
    let mut st = SettingsState::new();
    let names = vec!["anthropic".to_string(), "openai".to_string()];
    let h = providers_hint(&st, &names, &theme);
    assert_eq!(h.spans[0].content, " a 新增  e 编辑  d 删除  Enter 设默认/保存  ↑↓ 选择");
    st.pending_delete_idx = Some(1);
    let h = providers_hint(&st, &names, &theme);
    assert_eq!(h.spans[0].content, " 再按 d 确认删除 'openai' · 其他键取消");
    assert_eq!(h.spans[0].style.fg, Some(theme.accent));
    st.pending_delete_idx = Some(5);
    assert_eq!(providers_hint(&st, &names, &theme).spans[0].content, " 再按 d 确认删除 '?' · 其他键取消");
    st.mcp_pending_delete_idx = Some(0);
    let h = mcp_hint(&st, &vec![stdio_server()], &theme);
    assert_eq!(h.spans[0].content, " 再按 d 确认删除 'fs' · 其他键取消");
    let r = save_row(false, false, &theme);
    assert_eq!(r.spans[1].content, "保存设置");
}
