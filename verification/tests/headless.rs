use cyber_tui::chat::ChatEntry;
use cyber_tui::headless::{
    check_provider, err_outcome, resolve_session, session_entries, AgentEvent, HeadlessRun,
};

#[test]
fn err_outcome_has_only_the_message() {
    let o = err_outcome("加载配置失败: x".into());
    assert!(o.session_id.is_empty());
    assert!(o.answer.is_empty());
    assert!(o.tool_calls.is_empty());
    assert_eq!(o.error.as_deref(), Some("加载配置失败: x"));
}

#[test]
fn session_resolution_order() {
    assert_eq!(resolve_session(true, Some("s".into()), "cur".into(), "fresh".into()), "fresh");
    assert_eq!(resolve_session(false, Some("s".into()), "cur".into(), "fresh".into()), "s");
    assert_eq!(resolve_session(false, None, "cur".into(), "fresh".into()), "cur");
}

#[test]
fn run_gathers_answer_and_echoes_in_text_mode() {
    let mut r = HeadlessRun::new();
    let e = r.step(AgentEvent::Token("he".into()), true);
    assert_eq!(e.stdout.as_deref(), Some("he"));
    assert!(!e.stop);
    r.step(AgentEvent::Token("llo".into()), false);
    assert_eq!(r.answer, "hello");
    let e = r.step(AgentEvent::Reasoning("think".into()), true);
    assert_eq!(e.stderr.as_deref(), Some("think"));
    assert!(e.stdout.is_none());
    let e = r.step(AgentEvent::Error("boom".into()), true);
    assert_eq!(e.stderr.as_deref(), Some("\n[error] boom\n"));
    assert_eq!(r.error.as_deref(), Some("boom"));
    assert!(r.step(AgentEvent::Done, true).stop);
    assert!(!r.step(AgentEvent::Other, true).stop);
}

#[test]
fn tool_results_are_matched_by_id() {
    let mut r = HeadlessRun::new();
    r.step(
        AgentEvent::ToolCall { id: "a".into(), name: "ls".into(), arguments: "{}".into() },
        false,
    );
    r.step(
        AgentEvent::ToolCall { id: "b".into(), name: "cat".into(), arguments: "{\"p\":1}".into() },
        false,
    );
    let e = r.step(
        AgentEvent::ToolResult { id: "a".into(), name: "ls".into(), output: "x".into(), is_error: true },
        true,
    );
    assert_eq!(e.stderr.as_deref(), Some("\n"));
    assert_eq!(r.tool_calls.len(), 2);
    assert_eq!(r.tool_calls[0].output, "x");
    assert!(r.tool_calls[0].is_error);
    assert_eq!(r.tool_calls[0].arguments, "{}");
    assert!(r.tool_calls[1].output.is_empty());
    r.step(
        AgentEvent::ToolResult { id: "z".into(), name: "grep".into(), output: "y".into(), is_error: false },
        false,
    );
    assert_eq!(r.tool_calls.len(), 3);
    assert_eq!(r.tool_calls[2].name, "grep");
    assert!(r.tool_calls[2].arguments.is_empty());
}

#[test]
fn session_entries_pair_calls_with_results() {
    let mut r = HeadlessRun::new();
    r.step(AgentEvent::ToolCall { id: "1".into(), name: "ls".into(), arguments: "{}".into() }, false);
    r.step(
        AgentEvent::ToolResult { id: "1".into(), name: "ls".into(), output: "a.txt".into(), is_error: false },
        false,
    );
    let es = session_entries("q".into(), &r.tool_calls, &"done".to_string());
    assert_eq!(es.len(), 4);
    assert!(matches!(&es[0], ChatEntry::User(c) if c == "q"));
    assert!(matches!(&es[1], ChatEntry::ToolCall { id, .. } if id == "1"));
    assert!(matches!(&es[2], ChatEntry::ToolResult { output, .. } if output == "a.txt"));
    assert!(matches!(&es[3], ChatEntry::Assistant(c) if c == "done"));
    let blank = session_entries("q".into(), &Vec::new(), &"  \n".to_string());
    assert_eq!(blank.len(), 1);
}

#[test]
fn unknown_provider_lists_sorted_names() {
    let names = vec!["zeta".to_string(), "alpha".to_string(), "mid".to_string()];
    assert!(check_provider("mid", &names).is_ok());
    assert_eq!(
        check_provider("nope", &names).unwrap_err(),
        "provider 'nope' 不存在（可用：alpha, mid, zeta）"
    );
    assert_eq!(check_provider("x", &Vec::new()).unwrap_err(), "provider 'x' 不存在（可用：）");
}

use cyber_tui::config::{AgentConfig, Config, StorageConfig, ToolsConfig, UiConfig, WorkflowConfig};
use cyber_tui::headless::{apply_overrides, HeadlessArgs};

#[test]
fn run_options_override_config() {
    let mut config = Config {
        ui: UiConfig { theme: "cyberpunk".into(), default_mode: "chat".into(), mouse: true, animations: true, frame_rate: 60 },
        agent: AgentConfig { default_provider: "openai".into(), auto_tool_call: true, max_steps: 50 },
        workflow: WorkflowConfig { max_parallel_nodes: 8, default_timeout_secs: 1800, checkpoint: true },
        tools: ToolsConfig { prefer_docker: false, extra_path: vec![] },
        storage: StorageConfig { history_retention_days: 90, log_level: "info".into() },
    };
    let names = vec!["openai".to_string(), "ollama".to_string()];
    let mut args = HeadlessArgs {
        prompt: "hi".into(),
        format: "text".into(),
        session: None,
        new: false,
        max_steps: Some(7),
        think: None,
        provider: Some("ollama".into()),
        model: None,
    };
    assert_eq!(apply_overrides(&mut config, &args, &names), Ok(()));
    assert_eq!(config.agent.max_steps, 7);
    assert_eq!(config.agent.default_provider, "ollama");
    args.provider = Some("nope".into());
    args.max_steps = Some(9);
    let r = apply_overrides(&mut config, &args, &names);
    assert_eq!(r, Err("provider 'nope' 不存在（可用：ollama, openai）".to_string()));
    assert_eq!(config.agent.max_steps, 7);
}
