use cyber_tui::app::{App, Effect, Mode, Persist};
use cyber_tui::chat::ChatEntry;
use cyber_tui::config::{AgentConfig, Config, StorageConfig, ToolsConfig, UiConfig, WorkflowConfig};
use cyber_tui::event::{Action, KeyCode, KeyEvent, CONTROL, NONE};
use cyber_tui::headless::AgentEvent;
use cyber_tui::settings::LiveApply;
use cyber_tui::strmap::StringMap;
use cyber_tui::views::providers::FormAction;

fn sample_config() -> Config {
    Config {
        ui: UiConfig {
            theme: "cyberpunk".into(),
            default_mode: "chat".into(),
            mouse: true,
            animations: true,
            frame_rate: 60,
        },
        agent: AgentConfig { default_provider: "openai".into(), auto_tool_call: true, max_steps: 50 },
        workflow: WorkflowConfig { max_parallel_nodes: 8, default_timeout_secs: 1800, checkpoint: true },
        tools: ToolsConfig { prefer_docker: false, extra_path: vec![] },
        storage: StorageConfig { history_retention_days: 90, log_level: "info".into() },
    }
}

fn providers() -> StringMap {
    let mut m = StringMap::new();
    m.insert("openai".into(), "[openai] https://api.openai.com/v1 · gpt-4o".into());
    m.insert("anthropic".into(), "[anthropic] https://api.anthropic.com · sonnet-4".into());
    m.insert("ollama".into(), "[ollama] http://localhost:11434 · llama3".into());
    m
}

fn make_app(initial: Mode) -> App {
    App::new(sample_config(), StringMap::new(), false, initial, false)
}

fn key(code: KeyCode) -> KeyEvent {
    KeyEvent::new(code, NONE)
}

fn no_tools() -> Vec<(String, String)> {
    vec![]
}

fn last_system(app: &App) -> String {
    match app.chat.entries.last() {
        Some(ChatEntry::System(s)) => s.clone(),
        other => panic!("expected a system entry, got {other:?}"),
    }
}

fn type_text(app: &mut App, text: &str) {
    app.chat.input.insert_str(text);
}

#[test]
fn mode_labels() {
    assert_eq!(Mode::Welcome.label(), "Welcome");
    assert_eq!(Mode::ProviderForm.label(), "Provider Form");
}

#[test]
fn open_settings_records_prev_mode() {
    let mut app = make_app(Mode::Chat);
    app.handle_action(Action::OpenSettings);
    assert_eq!(app.mode, Mode::Settings);
    assert_eq!(app.prev_mode, Mode::Chat);
    app.prev_mode = Mode::Workflow;
    app.handle_action(Action::OpenSettings);
    assert_eq!(app.mode, Mode::Settings);
    assert_eq!(app.prev_mode, Mode::Workflow, "重复 OpenSettings 不应改 prev_mode");
}

#[test]
fn theme_edit_live_applies_and_marks_dirty() {
    let mut app = make_app(Mode::Chat);
    app.handle_action(Action::OpenSettings);
    let effects = app.handle_action(Action::Right);
    assert_eq!(app.config.ui.theme, "dracula");
    assert!(matches!(effects.as_slice(), [Effect::Live(LiveApply::Theme)]), "theme 应即时重新解析");
    assert!(app.settings.dirty);
}

#[test]
fn esc_double_press_rolls_back() {
    let mut app = make_app(Mode::Chat);
    app.handle_action(Action::OpenSettings);
    app.handle_action(Action::Right);
    assert!(app.settings.dirty);
    app.handle_action(Action::Esc);
    assert_eq!(app.mode, Mode::Settings, "首次 Esc 不应退出");
    assert!(app.settings.pending_discard);
    let effects = app.handle_action(Action::Esc);
    assert_eq!(app.mode, Mode::Chat, "二次 Esc 应返回 prev_mode");
    assert_eq!(app.config.ui.theme, "cyberpunk", "回退应恢复原值");
    assert!(!app.settings.dirty);
    assert!(effects.iter().any(|e| matches!(e, Effect::Live(LiveApply::Theme))), "theme 应回滚");
}

#[test]
fn esc_not_dirty_exits_immediately() {
    let mut app = make_app(Mode::Chat);
    app.handle_action(Action::OpenSettings);
    app.handle_action(Action::Esc);
    assert_eq!(app.mode, Mode::Chat, "无改动时 Esc 应直接返回");
}

#[test]
fn welcome_item_3_enters_settings() {
    let mut app = make_app(Mode::Welcome);
    for _ in 0..3 {
        app.handle_action(Action::Down);
    }
    assert_eq!(app.selected, 3);
    app.handle_action(Action::Enter);
    assert_eq!(app.mode, Mode::Settings);
    assert_eq!(app.prev_mode, Mode::Welcome);
}

#[test]
fn tab_in_settings_switches_section() {
    let mut app = make_app(Mode::Chat);
    app.handle_action(Action::OpenSettings);
    assert_eq!(app.settings.section, 0);
    app.handle_action(Action::Tab);
    assert_eq!(app.settings.section, 1, "Tab 应切到下一段");
    assert_eq!(app.settings.selected, 0, "切段应重置 selected");
}

#[test]
fn save_row_asks_to_save_and_success_clears_dirty() {
    let mut app = make_app(Mode::Chat);
    app.handle_action(Action::OpenSettings);
    app.handle_action(Action::Right);
    for _ in 0..5 {
        app.handle_action(Action::Down);
    }
    assert!(app.settings.on_save_row());
    let effects = app.handle_action(Action::Enter);
    assert!(matches!(effects.as_slice(), [Effect::SaveSettings { providers: false }]));
    app.settings_saved(Ok(()), Ok(()));
    assert!(!app.settings.dirty, "保存后 dirty 应清");
    assert_eq!(app.toast.as_deref(), Some("配置已保存"));
    // after a save, Esc leaves at once and keeps the saved value
    app.handle_action(Action::Esc);
    assert_eq!(app.mode, Mode::Chat);
    assert_eq!(app.config.ui.theme, "dracula");
}

#[test]
fn failed_save_keeps_dirty_and_reports() {
    let mut app = make_app(Mode::Chat);
    app.handle_action(Action::OpenSettings);
    app.handle_action(Action::Right);
    app.settings_saved(Err("disk full".into()), Ok(()));
    assert!(app.settings.dirty);
    assert_eq!(app.toast.as_deref(), Some("配置保存失败: disk full"));
    app.settings_saved(Ok(()), Err("denied".into()));
    assert_eq!(app.toast.as_deref(), Some("providers 保存失败: denied"));
}

#[test]
fn tab_cycles_work_screens() {
    let mut app = make_app(Mode::Chat);
    app.handle_action(Action::Tab);
    assert_eq!(app.mode, Mode::Workflow);
    app.handle_action(Action::Tab);
    assert_eq!(app.mode, Mode::Dashboard);
    app.handle_action(Action::Tab);
    assert_eq!(app.mode, Mode::Chat);
    let mut w = make_app(Mode::Welcome);
    w.handle_action(Action::Tab);
    assert_eq!(w.mode, Mode::Welcome);
}

#[test]
fn welcome_placeholders_toast() {
    let mut app = make_app(Mode::Welcome);
    app.handle_action(Action::Enter);
    assert_eq!(app.toast.as_deref(), Some("（P1 占位：新建项目向导将在后续阶段实现）"));
    app.handle_action(Action::Up);
    assert_eq!(app.selected, 3);
    assert_eq!(app.toast, None);
}

#[test]
fn providers_section_default_and_double_delete() {
    let mut app = App::new(sample_config(), providers(), false, Mode::Chat, false);
    app.handle_action(Action::OpenSettings);
    for _ in 0..5 {
        app.handle_action(Action::Tab);
    }
    assert!(app.settings.on_providers_section());
    // sorted: anthropic, ollama, openai
    app.handle_action(Action::Enter);
    assert_eq!(app.config.agent.default_provider, "anthropic");
    assert!(app.settings.dirty);
    assert_eq!(app.toast.as_deref(), Some("默认 provider 设为 anthropic"));
    // first d arms, second deletes; the default falls back
    app.handle_action(Action::DeleteProvider);
    assert_eq!(app.settings.pending_delete_idx, Some(0));
    let effects = app.handle_action(Action::DeleteProvider);
    assert!(matches!(effects.as_slice(), [Effect::RemoveProvider(n)] if n == "anthropic"));
    assert_eq!(app.config.agent.default_provider, "ollama");
    assert_eq!(app.toast.as_deref(), Some("已删除 'anthropic'，默认 provider 回退到 'ollama'"));
    assert!(app.settings.dirty_providers);
    assert_eq!(app.providers.len(), 2);
    // any other key disarms
    app.handle_action(Action::DeleteProvider);
    app.handle_action(Action::Down);
    assert_eq!(app.settings.pending_delete_idx, None);
}

#[test]
fn providers_section_opens_forms() {
    let mut app = App::new(sample_config(), providers(), false, Mode::Chat, false);
    app.handle_action(Action::OpenSettings);
    for _ in 0..5 {
        app.handle_action(Action::Tab);
    }
    app.handle_action(Action::Down);
    let effects = app.handle_action(Action::EditProvider);
    assert!(matches!(effects.as_slice(), [Effect::OpenProviderForm(Some(n))] if n == "ollama"));
    assert_eq!(app.mode, Mode::ProviderForm);
    assert_eq!(app.prev_mode, Mode::Settings);
    app.handle_form_action(FormAction::Cancel);
    assert_eq!(app.mode, Mode::Settings);
    let effects = app.handle_action(Action::AddProvider);
    assert!(matches!(effects.as_slice(), [Effect::OpenProviderForm(None)]));
}

#[test]
fn chat_done_event_finalizes_stream() {
    let mut app = make_app(Mode::Chat);
    app.chat.streaming = true;
    app.chat.streaming_buffer.push_str("收到：hi");
    app.handle_agent_event(0, AgentEvent::Token("（续）".into()));
    assert_eq!(app.chat.streaming_buffer, "收到：hi（续）");
    let effects = app.handle_agent_event(0, AgentEvent::Done);
    assert!(!app.chat.streaming, "Done 后应退出 streaming");
    assert_eq!(app.chat.entries.len(), 1);
    assert!(matches!(&app.chat.entries[0], ChatEntry::Assistant(c) if c == "收到：hi（续）"));
    assert!(matches!(effects.as_slice(), [Effect::SaveHistory]));
}

#[test]
fn chat_error_event_finalizes_and_toasts() {
    let mut app = make_app(Mode::Chat);
    app.chat.streaming = true;
    app.chat.streaming_buffer.push_str("部分");
    app.handle_agent_event(0, AgentEvent::Error("boom".into()));
    assert!(!app.chat.streaming);
    assert_eq!(app.chat.entries.len(), 1, "应定稿部分 buffer 为 assistant 条目");
    assert!(app.toast.as_deref().unwrap_or("").contains("boom"));
}

#[test]
fn stale_token_after_cancel_ignored() {
    let mut app = make_app(Mode::Chat);
    app.chat.streaming = true;
    app.generation = 1;
    app.generation = app.generation.wrapping_add(1);
    app.chat.cancel_stream();
    app.handle_agent_event(1, AgentEvent::Token("late".into()));
    assert!(app.chat.streaming_buffer.is_empty(), "stale gen 的 token 应被忽略");
}

#[test]
fn tool_call_and_result_events_render_entries() {
    let mut app = make_app(Mode::Chat);
    app.chat.streaming = true;
    app.generation = 1;
    app.handle_agent_event(1, AgentEvent::Token("让我看看".into()));
    app.handle_agent_event(
        1,
        AgentEvent::ToolCall {
            id: "c1".into(),
            name: "list_dir".into(),
            arguments: "{\"path\":\".\"}".into(),
        },
    );
    app.handle_agent_event(
        1,
        AgentEvent::ToolResult {
            id: "c1".into(),
            name: "list_dir".into(),
            output: "a.txt".into(),
            is_error: false,
        },
    );
    assert!(app.chat.streaming, "工具调用后仍应 streaming");
    assert_eq!(app.chat.entries.len(), 3, "应含 assistant + toolcall + toolresult");
    assert!(matches!(&app.chat.entries[0], ChatEntry::Assistant(c) if c == "让我看看"));
    assert!(matches!(&app.chat.entries[1], ChatEntry::ToolCall { name, .. } if name == "list_dir"));
    assert!(matches!(&app.chat.entries[2], ChatEntry::ToolResult { output, .. } if output == "a.txt"));
}

#[test]
fn chat_ctrl_comma_opens_settings() {
    let mut app = make_app(Mode::Chat);
    let effects = app.handle_chat_key(KeyEvent::new(KeyCode::Char(','), CONTROL), &no_tools());
    assert_eq!(app.mode, Mode::Settings);
    assert_eq!(app.prev_mode, Mode::Chat);
    assert!(matches!(effects.as_slice(), [Effect::SnapshotProviders]));
}

#[test]
fn app_chat_plain_q_is_input_not_quit() {
    let mut app = make_app(Mode::Chat);
    let effects = app.handle_chat_key(key(KeyCode::Char('q')), &no_tools());
    assert!(!app.should_quit, "Chat 内 plain q 不应退出");
    assert!(matches!(effects.as_slice(), [Effect::FeedInput]));
    // the caller feeds the key to the input box
    type_text(&mut app, "q");
    assert_eq!(app.chat.input.lines().join(""), "q");
}

#[test]
fn chat_submit_spawns_agent_and_sets_streaming() {
    let mut app = make_app(Mode::Chat);
    type_text(&mut app, "你好");
    let effects = app.handle_chat_key(key(KeyCode::Enter), &no_tools());
    assert!(app.chat.streaming, "submit 后应 streaming");
    assert_eq!(app.chat.entries.len(), 1);
    assert!(matches!(&app.chat.entries[0], ChatEntry::User(c) if c == "你好"));
    assert!(app.agent_running, "应已 spawn agent 任务");
    assert_eq!(app.generation, 1, "spawn 应 bump generation");
    assert!(matches!(effects.as_slice(), [Effect::SpawnAgent { text, generation: 1, .. }] if text == "你好"));
}

#[test]
fn chat_esc_while_streaming_cancels() {
    let mut app = make_app(Mode::Chat);
    type_text(&mut app, "hi");
    app.handle_chat_key(key(KeyCode::Enter), &no_tools());
    app.chat.streaming_buffer.push_str("部分");
    let effects = app.handle_chat_key(key(KeyCode::Esc), &no_tools());
    assert!(!app.chat.streaming);
    assert!(!app.agent_running);
    assert_eq!(app.generation, 2);
    assert_eq!(app.toast.as_deref(), Some("已取消生成"));
    assert!(matches!(effects.as_slice(), [Effect::AbortAgent, Effect::SaveHistory]));
    // the partial answer is dropped: only the user message stays
    assert_eq!(app.chat.entries.len(), 1);
    assert!(matches!(app.chat.entries.last(), Some(ChatEntry::User(_))));
    assert!(app.chat.streaming_buffer.is_empty());
    // a late token of the stopped task is ignored
    app.handle_agent_event(1, AgentEvent::Token("late".into()));
    assert!(app.chat.streaming_buffer.is_empty());
}

#[test]
fn chat_esc_without_project_returns_to_welcome() {
    let mut app = make_app(Mode::Chat);
    app.handle_chat_key(key(KeyCode::Esc), &no_tools());
    assert_eq!(app.mode, Mode::Welcome);
    let mut p = App::new(sample_config(), StringMap::new(), true, Mode::Chat, false);
    p.handle_chat_key(key(KeyCode::Esc), &no_tools());
    assert_eq!(p.mode, Mode::Chat);
}

#[test]
fn slash_command_from_input_is_not_sent() {
    let mut app = make_app(Mode::Chat);
    type_text(&mut app, "  /mode workflow");
    let effects = app.handle_chat_key(key(KeyCode::Enter), &no_tools());
    assert!(effects.is_empty());
    assert_eq!(app.mode, Mode::Workflow);
    assert!(!app.chat.streaming);
    assert!(matches!(&app.chat.entries[0], ChatEntry::User(c) if c == "/mode workflow"));
    assert_eq!(last_system(&app), "已切换到 Workflow 模式");
    assert!(app.chat.input.text().is_empty());
}

#[test]
fn slash_mode_usage_and_unknown() {
    let mut app = make_app(Mode::Chat);
    app.handle_slash_command("/mode", &no_tools());
    assert_eq!(last_system(&app), "用法：/mode <chat|workflow|dashboard>");
    app.handle_slash_command("/mode foo", &no_tools());
    assert_eq!(last_system(&app), "未知模式：foo（可选：chat / workflow / dashboard）");
    app.chat.streaming = true;
    app.handle_slash_command("/mode chat", &no_tools());
    assert_eq!(last_system(&app), "生成中，无法切换模式");
}

#[test]
fn slash_model_switches_known_provider() {
    let mut app = App::new(sample_config(), providers(), false, Mode::Chat, false);
    app.handle_slash_command("/model", &no_tools());
    assert_eq!(last_system(&app), "当前 provider：openai（用法：/model <provider>）");
    app.handle_slash_command("/model ollama", &no_tools());
    assert_eq!(app.config.agent.default_provider, "ollama");
    assert_eq!(last_system(&app), "已切换 provider 到 ollama");
    app.handle_slash_command("/model nope", &no_tools());
    assert_eq!(last_system(&app), "未知 provider：nope（可用：anthropic, ollama, openai）");
}

#[test]
fn slash_clear_and_cancel() {
    let mut app = make_app(Mode::Chat);
    app.handle_slash_command("/help", &no_tools());
    let effects = app.handle_slash_command("/clear", &no_tools());
    assert_eq!(app.chat.entries.len(), 1);
    assert_eq!(last_system(&app), "已清空对话历史");
    assert!(matches!(effects.as_slice(), [Effect::SaveHistory]));
    app.handle_slash_command("/cancel", &no_tools());
    assert_eq!(last_system(&app), "当前无生成任务");
    app.chat.streaming = true;
    app.handle_slash_command("/clear", &no_tools());
    assert_eq!(last_system(&app), "生成中，无法清空（先 /cancel 取消生成）");
    app.handle_slash_command("/cancel", &no_tools());
    assert!(!app.chat.streaming);
    assert_eq!(last_system(&app), "已取消生成");
}

#[test]
fn slash_tools_quit_and_unknown() {
    let mut app = make_app(Mode::Chat);
    let tools = vec![("shell".to_string(), "run a command".to_string()), ("read".to_string(), "read a file".to_string())];
    app.handle_slash_command("/tools", &tools);
    assert_eq!(last_system(&app), "可用工具：\n  shell — run a command\n  read — read a file");
    app.handle_slash_command("/frobnicate x", &no_tools());
    assert_eq!(last_system(&app), "未知命令：/frobnicate（输入 /help 查看可用命令）");
    let effects = app.handle_slash_command("/QUIT", &no_tools());
    assert!(app.should_quit);
    assert!(matches!(effects.as_slice(), [Effect::SaveHistory]));
}

#[test]
fn slash_provider_list_use_remove() {
    let mut app = App::new(sample_config(), providers(), false, Mode::Chat, false);
    app.handle_slash_command("/provider", &no_tools());
    assert_eq!(
        last_system(&app),
        "Providers：\n  anthropic  [anthropic] https://api.anthropic.com · sonnet-4\n  ollama  [ollama] http://localhost:11434 · llama3\n  openai ★默认  [openai] https://api.openai.com/v1 · gpt-4o"
    );
    let effects = app.handle_slash_command("/provider USE ollama", &no_tools());
    assert_eq!(app.config.agent.default_provider, "ollama");
    assert!(matches!(effects.as_slice(), [Effect::Persist(Persist::UseProvider(n))] if n == "ollama"));
    app.save_done(Persist::UseProvider("ollama".into()), Ok(()));
    assert_eq!(last_system(&app), "已切换 provider 到 ollama");
    app.save_done(Persist::UseProvider("ollama".into()), Err("io".into()));
    assert_eq!(last_system(&app), "切换成功但保存失败: io");
    let effects = app.handle_slash_command("/provider remove ollama", &no_tools());
    assert!(matches!(effects.as_slice(), [Effect::RemoveProvider(_), Effect::Persist(Persist::RemovedProvider(_))]));
    assert_eq!(app.config.agent.default_provider, "anthropic");
    assert_eq!(app.providers.len(), 2);
    app.handle_slash_command("/provider remove ollama", &no_tools());
    assert_eq!(last_system(&app), "未知 provider：ollama");
    app.handle_slash_command("/provider use", &no_tools());
    assert_eq!(last_system(&app), "当前 provider：anthropic（用法：/provider use <name>）");
    app.handle_slash_command("/provider frob", &no_tools());
    assert_eq!(last_system(&app), "未知子命令：frob（可用：list / add / edit / use / remove）");
}

#[test]
fn slash_provider_edit_opens_form_and_rename_is_stored() {
    let mut app = App::new(sample_config(), providers(), false, Mode::Chat, false);
    let effects = app.handle_slash_command("/provider edit openai", &no_tools());
    assert!(matches!(effects.as_slice(), [Effect::OpenProviderForm(Some(n))] if n == "openai"));
    assert_eq!(app.mode, Mode::ProviderForm);
    assert_eq!(app.prev_mode, Mode::Chat);
    let effects = app.handle_form_action(FormAction::Save);
    assert!(matches!(effects.as_slice(), [Effect::ValidateProviderForm]));
    app.provider_form_checked(Err("名称不能为空".into()), Some("openai".into()));
    assert_eq!(app.toast.as_deref(), Some("名称不能为空"));
    assert_eq!(app.mode, Mode::ProviderForm);
    let effects = app.provider_form_checked(
        Ok(("openai2".into(), "[openai] https://x · gpt".into())),
        Some("openai".into()),
    );
    assert!(matches!(
        effects.as_slice(),
        [Effect::RemoveProvider(o), Effect::UpsertProvider(n), Effect::Persist(Persist::FormSaved(_)), Effect::CloseProviderForm]
            if o == "openai" && n == "openai2"
    ));
    assert_eq!(app.config.agent.default_provider, "openai2");
    assert_eq!(app.mode, Mode::Chat);
    app.save_done(Persist::FormSaved("openai2".into()), Ok(()));
    assert_eq!(app.toast.as_deref(), Some("Provider 'openai2' 已保存"));
}

#[test]
fn form_action_toast_and_fetch() {
    let mut app = make_app(Mode::Chat);
    app.handle_form_action(FormAction::Toast("hi".into()));
    assert_eq!(app.toast.as_deref(), Some("hi"));
    let effects = app.handle_form_action(FormAction::Fetch);
    assert!(matches!(effects.as_slice(), [Effect::StartFetch]));
    assert!(!app.accepts_fetch());
}

#[test]
fn title_bar_names_screen_project_provider_theme() {
    let app = make_app(Mode::Chat);
    let t = app.title_text(&None);
    assert_eq!(
        t,
        format!(
            " Chat │ <无项目> │ provider={} │ theme={} ",
            app.config.agent.default_provider, app.config.ui.theme
        )
    );
    let mut first = App::new(sample_config(), StringMap::new(), true, Mode::Welcome, true);
    first.first_run = true;
    let t = first.title_text(&Some("demo".into()));
    assert!(t.starts_with(" Welcome │ demo │ provider="));
    assert!(t.ends_with(" · first-run "));
}

#[test]
fn status_bar_hint_per_screen() {
    let mut app = make_app(Mode::Chat);
    assert_eq!(app.status_text(), " ○ 就绪 · 输入消息 Enter 发送");
    app.chat.streaming = true;
    assert_eq!(app.status_text(), " ● 流式生成中… Esc 取消 · Ctrl+C 退出");
    let w = make_app(Mode::Welcome);
    assert_eq!(w.status_text(), " ↑/↓ 导航   Enter 确认   s 设置   q 退出");
    let d = make_app(Mode::Dashboard);
    assert_eq!(d.status_text(), " Tab 切换模式   s 设置   Esc 返回 Welcome   q 退出");
}

#[test]
fn chat_input_frame_follows_streaming() {
    let theme = cyber_tui::theme::Theme::resolve("cyberpunk");
    assert_eq!(cyber_tui::app_bars::input_frame(true, &theme), (" 生成中… ", theme.muted));
    assert_eq!(cyber_tui::app_bars::input_frame(false, &theme), (" 输入 ", theme.border));
}

#[test]
fn chat_cancel_aborts_and_drops_buffer() {
    let mut app = make_app(Mode::Chat);
    app.chat.streaming = true;
    app.chat.streaming_buffer.push_str("部分");
    app.handle_chat_key(key(KeyCode::Esc), &no_tools());
    assert!(!app.chat.streaming);
    assert!(app.chat.entries.is_empty(), "取消不应追加 assistant 条目");
    assert!(app.chat.streaming_buffer.is_empty());
    assert_eq!(app.generation, 1);
}
