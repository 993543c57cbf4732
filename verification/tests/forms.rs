use cyber_tui::event::{KeyCode, KeyEvent, NONE};
use cyber_tui::strmap::StringMap;
use cyber_tui::views::env_form::{
    EnvFormAction, EnvFormState, EnvVar, IDX_CANCEL, IDX_KEY, IDX_SAVE, IDX_SENSITIVE, IDX_VALUE,
};
use cyber_tui::views::mcp_form::{
    McpFormAction, McpFormState, McpServerSpec, McpTransport, IDX_CANCEL as MCP_CANCEL,
    IDX_SAVE as MCP_SAVE, IDX_TRANSPORT,
};

fn key(code: KeyCode) -> KeyEvent {
    KeyEvent::new(code, NONE)
}

// ── environment-variable form ───────────────────────────────────────────────

#[test]
fn for_add_defaults() {
    let s = EnvFormState::for_add();
    assert!(s.key.is_empty());
    assert!(s.value.is_empty());
    assert!(!s.sensitive);
    assert!(s.edit_index.is_none());
}

#[test]
fn for_edit_loads_values() {
    let var = EnvVar { key: "API_KEY".into(), value: "secret123".into(), sensitive: true };
    let s = EnvFormState::for_edit(2, &var);
    assert_eq!(s.key, "API_KEY");
    assert_eq!(s.value, "secret123");
    assert!(s.sensitive);
    assert_eq!(s.edit_index, Some(2));
}

#[test]
fn sensitive_toggles_via_left_right() {
    let mut s = EnvFormState::for_add();
    s.focused = IDX_SENSITIVE;
    assert!(!s.sensitive);
    s.handle_key(key(KeyCode::Right));
    assert!(s.sensitive);
    s.handle_key(key(KeyCode::Left));
    assert!(!s.sensitive);
}

#[test]
fn sensitive_toggles_via_enter() {
    let mut s = EnvFormState::for_add();
    s.focused = IDX_SENSITIVE;
    s.handle_key(key(KeyCode::Enter));
    assert!(s.sensitive);
}

#[test]
fn text_field_enter_starts_editing() {
    let mut s = EnvFormState::for_add();
    s.focused = IDX_KEY;
    s.handle_key(key(KeyCode::Enter));
    assert!(s.editing);
}

#[test]
fn editing_enter_commits_value() {
    let mut s = EnvFormState::for_add();
    s.focused = IDX_KEY;
    s.handle_key(key(KeyCode::Enter));
    // typing goes to the text box widget; its text is handed back in `textarea`
    s.textarea.insert_str("MY_VAR");
    s.handle_key(key(KeyCode::Enter));
    assert!(!s.editing);
    assert_eq!(s.key, "MY_VAR");
}

#[test]
fn editing_esc_cancels() {
    let mut s = EnvFormState::for_add();
    s.focused = IDX_KEY;
    s.handle_key(key(KeyCode::Enter));
    s.textarea.insert_str("dropped");
    s.handle_key(key(KeyCode::Esc));
    assert!(!s.editing);
    assert!(s.key.is_empty());
}

#[test]
fn env_form_save_button_returns_save_action() {
    let mut s = EnvFormState::for_add();
    s.focused = IDX_SAVE;
    assert_eq!(s.handle_key(key(KeyCode::Enter)), EnvFormAction::Save);
}

#[test]
fn cancel_button_returns_cancel_action() {
    let mut s = EnvFormState::for_add();
    s.focused = IDX_CANCEL;
    assert_eq!(s.handle_key(key(KeyCode::Enter)), EnvFormAction::Cancel);
}

#[test]
fn env_form_esc_returns_cancel() {
    let mut s = EnvFormState::for_add();
    assert_eq!(s.handle_key(key(KeyCode::Esc)), EnvFormAction::Cancel);
}

#[test]
fn build_var_trims_key() {
    let mut s = EnvFormState::for_add();
    s.key = "  API_KEY  ".into();
    s.value = "secret".into();
    s.sensitive = true;
    let v = s.build_var();
    assert_eq!(v.key, "API_KEY");
    assert_eq!(v.value, "secret");
    assert!(v.sensitive);
}

#[test]
fn is_valid_requires_non_empty_key() {
    let mut s = EnvFormState::for_add();
    assert!(!s.is_valid());
    s.key = "  ".into();
    assert!(!s.is_valid());
    s.key = "KEY".into();
    assert!(s.is_valid());
}

#[test]
fn up_down_cycles_focus() {
    let mut s = EnvFormState::for_add();
    assert_eq!(s.focused, IDX_KEY);
    s.handle_key(key(KeyCode::Down));
    assert_eq!(s.focused, IDX_VALUE);
    s.handle_key(key(KeyCode::Down));
    assert_eq!(s.focused, IDX_SENSITIVE);
    s.handle_key(key(KeyCode::Up));
    assert_eq!(s.focused, IDX_VALUE);
    s.focused = IDX_KEY;
    s.handle_key(key(KeyCode::Up));
    assert_eq!(s.focused, IDX_CANCEL);
}

#[test]
fn editing_sensitive_value_loads_clear_text() {
    let var = EnvVar { key: "K".into(), value: "secretkey".into(), sensitive: true };
    let mut s = EnvFormState::for_edit(0, &var);
    assert_eq!(s.get_field(IDX_VALUE), "se****key");
    assert_eq!(s.get_field(IDX_SENSITIVE), "true");
    s.focused = IDX_VALUE;
    s.handle_key(key(KeyCode::Enter));
    assert_eq!(s.textarea.lines().join("\n"), "secretkey");
}

// ── MCP server form ─────────────────────────────────────────────────────────

#[test]
fn mcp_form_empty_defaults() {
    let s = McpFormState::empty();
    assert!(!s.is_edit());
    assert_eq!(s.transport(), McpTransport::Stdio);
    assert_eq!(s.timeout_secs, "5");
    assert_eq!(s.focused, 0);
}

#[test]
fn from_spec_loads_fields_and_is_edit() {
    let mut env = StringMap::new();
    env.insert("FOO".into(), "bar".into());
    let spec = McpServerSpec {
        name: "filesystem".into(),
        transport: McpTransport::Stdio,
        command: Some("npx".into()),
        args: vec!["-y".into(), "@modelcontextprotocol/server-filesystem".into()],
        env,
        url: None,
        headers: StringMap::new(),
        timeout_secs: 10,
    };
    let s = McpFormState::from_spec(&spec);
    assert!(s.is_edit());
    assert_eq!(s.original_name.as_deref(), Some("filesystem"));
    assert_eq!(s.name, "filesystem");
    assert_eq!(s.command, "npx");
    assert_eq!(s.args, "-y\n@modelcontextprotocol/server-filesystem");
    assert!(s.env.contains("FOO=bar"));
    assert_eq!(s.timeout_secs, "10");
    assert_eq!(s.focused, 1);
}

#[test]
fn transport_cycle_via_left_right() {
    let mut s = McpFormState::empty();
    s.focused = IDX_TRANSPORT;
    s.handle_key(key(KeyCode::Right));
    assert_eq!(s.transport(), McpTransport::Http);
    s.handle_key(key(KeyCode::Right));
    assert_eq!(s.transport(), McpTransport::Sse);
    s.handle_key(key(KeyCode::Right));
    assert_eq!(s.transport(), McpTransport::Stdio);
    s.handle_key(key(KeyCode::Left));
    assert_eq!(s.transport(), McpTransport::Sse);
}

#[test]
fn into_spec_validates_empty_name() {
    let s = McpFormState::empty();
    let err = s.into_spec(&[]).unwrap_err();
    assert!(err.contains("名称"));
}

#[test]
fn into_spec_validates_empty_command_stdio() {
    let mut s = McpFormState::empty();
    s.name = "foo".into();
    let err = s.into_spec(&[]).unwrap_err();
    assert!(err.contains("command"));
}

#[test]
fn into_spec_validates_empty_url_http() {
    let mut s = McpFormState::empty();
    s.name = "foo".into();
    s.transport_idx = 1;
    let err = s.into_spec(&[]).unwrap_err();
    assert!(err.contains("url"));
}

#[test]
fn into_spec_rejects_duplicate_name_on_add() {
    let mut s = McpFormState::empty();
    s.name = "existing".into();
    s.command = "npx".into();
    let err = s.into_spec(&["existing"]).unwrap_err();
    assert!(err.contains("已存在"));
    assert_eq!(err, "名称 'existing' 已存在");
}

#[test]
fn into_spec_allows_keep_name_on_edit() {
    let mut s = McpFormState::empty();
    s.name = "existing".into();
    s.command = "npx".into();
    s.original_name = Some("existing".into());
    let spec = s.into_spec(&["existing"]).unwrap();
    assert_eq!(spec.name, "existing");
}

#[test]
fn into_spec_rejects_bad_timeout() {
    let mut s = McpFormState::empty();
    s.name = "foo".into();
    s.command = "npx".into();
    s.timeout_secs = "abc".into();
    let err = s.into_spec(&[]).unwrap_err();
    assert!(err.contains("timeout_secs"));
}

#[test]
fn into_spec_reports_env_error_with_prefix() {
    let mut s = McpFormState::empty();
    s.name = "foo".into();
    s.command = "npx".into();
    s.env = "NOEQ".into();
    assert_eq!(s.into_spec(&[]).unwrap_err(), "env 解析失败: 第 1 行缺少 '=': NOEQ");
}

#[test]
fn into_spec_stdio_builds_correctly() {
    let mut s = McpFormState::empty();
    s.name = "fs".into();
    s.command = "npx".into();
    s.args = "-y\n@modelcontextprotocol/server-filesystem\n.".into();
    s.env = "FOO=bar\nBAZ=qux".into();
    s.timeout_secs = "15".into();
    let spec = s.into_spec(&[]).unwrap();
    assert_eq!(spec.transport, McpTransport::Stdio);
    assert_eq!(spec.command.as_deref(), Some("npx"));
    assert_eq!(spec.args, vec!["-y", "@modelcontextprotocol/server-filesystem", "."]);
    assert_eq!(spec.env.get("FOO"), Some(&"bar".to_string()));
    assert_eq!(spec.env.get("BAZ"), Some(&"qux".to_string()));
    assert!(spec.url.is_none());
    assert_eq!(spec.timeout_secs, 15);
}

#[test]
fn into_spec_http_builds_correctly() {
    let mut s = McpFormState::empty();
    s.name = "remote".into();
    s.transport_idx = 1;
    s.url = "https://scanner.internal/mcp".into();
    s.headers = "Authorization=Bearer token".into();
    s.timeout_secs = "10".into();
    let spec = s.into_spec(&[]).unwrap();
    assert_eq!(spec.transport, McpTransport::Http);
    assert_eq!(spec.url.as_deref(), Some("https://scanner.internal/mcp"));
    assert_eq!(spec.headers.get("Authorization"), Some(&"Bearer token".to_string()));
    assert!(spec.command.is_none());
    assert!(spec.args.is_empty());
}

#[test]
fn mcp_form_enter_text_field_starts_editing_enter_commits() {
    let mut s = McpFormState::empty();
    s.focused = 0;
    assert_eq!(s.handle_key(key(KeyCode::Enter)), McpFormAction::Nothing);
    assert!(s.editing);
    s.textarea.insert_str("zz");
    s.handle_key(key(KeyCode::Enter));
    assert!(!s.editing);
    assert_eq!(s.name, "zz");
}

#[test]
fn mcp_form_editing_esc_discards() {
    let mut s = McpFormState::empty();
    s.focused = 2;
    s.command = "old".into();
    s.handle_key(key(KeyCode::Enter));
    assert_eq!(s.textarea.lines().join("\n"), "old");
    s.textarea.insert_str("X");
    s.handle_key(key(KeyCode::Esc));
    assert!(!s.editing);
    assert_eq!(s.command, "old", "Esc 应丢弃编辑");
}

#[test]
fn mcp_form_save_button_returns_save_action() {
    let mut s = McpFormState::empty();
    s.focused = MCP_SAVE;
    assert_eq!(s.handle_key(key(KeyCode::Enter)), McpFormAction::Save);
}

#[test]
fn mcp_form_cancel_button_and_esc_return_cancel() {
    let mut s = McpFormState::empty();
    s.focused = MCP_CANCEL;
    assert_eq!(s.handle_key(key(KeyCode::Enter)), McpFormAction::Cancel);
    s.focused = 0;
    assert_eq!(s.handle_key(key(KeyCode::Esc)), McpFormAction::Cancel);
}

#[test]
fn stdio_fields_hidden_on_http() {
    let mut s = McpFormState::empty();
    s.transport_idx = 1;
    assert!(!s.is_field_visible(2));
    assert!(!s.is_field_visible(3));
    assert!(!s.is_field_visible(4));
    assert!(s.is_field_visible(5));
    assert!(s.is_field_visible(6));
}

#[test]
fn http_fields_hidden_on_stdio() {
    let s = McpFormState::empty();
    assert!(s.is_field_visible(2));
    assert!(s.is_field_visible(3));
    assert!(s.is_field_visible(4));
    assert!(!s.is_field_visible(5));
    assert!(!s.is_field_visible(6));
}

#[test]
fn navigation_skips_hidden_fields() {
    let mut s = McpFormState::empty();
    s.transport_idx = 1;
    s.focused = 1;
    s.handle_key(key(KeyCode::Down));
    assert_eq!(s.focused, 5);
    s.handle_key(key(KeyCode::Up));
    assert_eq!(s.focused, 1);
    s.focused = 0;
    s.handle_key(key(KeyCode::Up));
    assert_eq!(s.focused, MCP_CANCEL);
}

#[test]
fn get_field_shows_transport_name() {
    let mut s = McpFormState::empty();
    assert_eq!(s.get_field(1), "stdio");
    s.transport_idx = 2;
    assert_eq!(s.get_field(1), "sse");
}

use cyber_tui::theme::Theme;
use cyber_tui::views::env_form::mask_value;

fn row_texts(ls: &[cyber_tui::style::Line]) -> Vec<String> {
    ls.iter().map(|l| l.spans.iter().map(|s| s.content.as_str()).collect::<String>()).collect()
}

#[test]
fn env_form_lines_mask_sensitive_value() {
    let theme = Theme::resolve("cyberpunk");
    let var = EnvVar { key: "API_KEY".into(), value: "secret123".into(), sensitive: true };
    let s = EnvFormState::for_edit(0, &var);
    let t = row_texts(&s.form_lines(&theme));
    assert_eq!(t[1], format!("  值 value : {}", mask_value("secret123")));
    assert_eq!(t[2], "  敏感内容 sensitive : 是  ←→");
    assert_eq!(t[3], "");
    assert_eq!(t[4], "  保存      取消");
    assert_eq!(s.title(), " 编辑环境变量 ");
    assert_eq!(s.hint(), " Enter 编辑字段 · ←→ 切换 sensitive · Esc 取消");
}

#[test]
fn env_form_lines_mark_focus_and_buttons() {
    let theme = Theme::resolve("cyberpunk");
    let mut s = EnvFormState::for_add();
    let ls = s.form_lines(&theme);
    let t = row_texts(&ls);
    assert_eq!(t[0], "▸ 名称 key : ");
    assert_eq!(t[2], "  敏感内容 sensitive : 否  ←→");
    assert_eq!(ls[0].spans[0].style.bg, Some(theme.sel_bg));
    s.focused = IDX_SAVE;
    let ls = s.form_lines(&theme);
    assert_eq!(row_texts(&ls)[4], "▸ 保存      取消");
    assert_eq!(ls[4].spans[0].style.bg, Some(theme.sel_bg));
    assert_eq!(ls[4].spans[2].style.bg, None);
    assert_eq!(s.title(), " 新增环境变量 ");
    s.editing = true;
    assert_eq!(s.hint(), " Enter 提交 · Esc 取消编辑");
}

#[test]
fn mcp_form_rows_follow_transport() {
    let mut s = McpFormState::empty();
    s.name = "fs".into();
    s.args = "-y\nserver".into();
    let rows = s.field_rows();
    assert_eq!(
        rows,
        vec![
            "▸ 名称 name : fs",
            "  传输 transport : stdio  ←→",
            "  命令 command (stdio) : ",
            "  参数 args (每行一个, stdio) : -y … (2 行)",
            "  环境变量 env (每行 KEY=VALUE, stdio) : ",
            "  超时 timeout_secs : 5",
        ]
    );
    s.transport_idx = 1;
    s.focused = 5;
    let rows = s.field_rows();
    assert_eq!(rows.len(), 5);
    assert_eq!(rows[1], "  传输 transport : http  ←→");
    assert_eq!(rows[2], "▸ URL url (http/sse) : ");
    assert_eq!(s.button(MCP_SAVE), " [保存] ");
    s.focused = MCP_CANCEL;
    assert_eq!(s.button(MCP_CANCEL), "▸[取消] ");
    assert_eq!(s.title(), " 添加 MCP Server ");
}
