use cyber_tui::settings::{
    adjust_number, cycle_enum, field_count, mask_key, toggle_bool, SettingsState,
    PROVIDERS_SECTION_IDX, SECTION_COUNT,
};

#[test]
fn toggle_bool_swaps() {
    assert_eq!(toggle_bool("true"), "false");
    assert_eq!(toggle_bool("false"), "true");
    assert_eq!(toggle_bool("xyz"), "true");
}

#[test]
fn cycle_enum_wraps_both_directions() {
    let opts = ["a", "b", "c"];
    assert_eq!(cycle_enum("a", &opts, true), "b");
    assert_eq!(cycle_enum("c", &opts, true), "a");
    assert_eq!(cycle_enum("a", &opts, false), "c");
    assert_eq!(cycle_enum("b", &opts, false), "a");
}

#[test]
fn cycle_enum_not_found_and_empty() {
    let opts = ["a", "b"];
    assert_eq!(cycle_enum("zzz", &opts, true), "a");
    let empty: [&str; 0] = [];
    assert_eq!(cycle_enum("x", &empty, true), "x");
}

#[test]
fn adjust_number_clamps_and_saturates() {
    assert_eq!(adjust_number("10", 5, true, 0, 100), "15");
    assert_eq!(adjust_number("10", 5, false, 0, 100), "5");
    assert_eq!(adjust_number("98", 10, true, 0, 100), "100");
    assert_eq!(adjust_number("3", 10, false, 0, 100), "0");
    assert_eq!(adjust_number("notanum", 5, true, 1, 100), "6");
}

#[test]
fn settings_state_navigation_wraps_with_save_row() {
    let mut st = SettingsState::new();
    assert_eq!(field_count(0), 5);
    assert!(!st.on_save_row());
    for _ in 0..5 {
        st.next_field();
    }
    assert!(st.on_save_row(), "five steps down reach the save row");
    st.next_field();
    assert!(!st.on_save_row());
    assert_eq!(st.selected, 0);
}

#[test]
fn settings_state_next_section_resets_selected() {
    let mut st = SettingsState::new();
    st.selected = 3;
    st.next_section();
    assert_eq!(st.section, 1);
    assert_eq!(st.selected, 0);
    for _ in 0..SECTION_COUNT {
        st.next_section();
    }
    assert_eq!(st.section, 1);
}

#[test]
fn providers_section_is_not_editable() {
    let st = SettingsState { section: 5, ..SettingsState::default() };
    assert!(!st.is_editable());
    assert!(!st.on_save_row(), "a list section has no save row");
}

#[test]
fn on_providers_section_detects_correctly() {
    let mut st = SettingsState::new();
    assert!(!st.on_providers_section());
    st.section = PROVIDERS_SECTION_IDX;
    assert!(st.on_providers_section());
}

#[test]
fn next_prev_provider_clamp() {
    let mut st = SettingsState::new();
    st.section = PROVIDERS_SECTION_IDX;
    st.next_provider(3);
    assert_eq!(st.provider_selected, 1);
    st.next_provider(3);
    assert_eq!(st.provider_selected, 2);
    st.next_provider(3);
    assert!(st.provider_on_save);
    assert_eq!(st.provider_selected, 2);
    st.next_provider(3);
    assert!(st.provider_on_save);
    st.prev_provider(3);
    assert!(!st.provider_on_save);
    assert_eq!(st.provider_selected, 2);
    st.prev_provider(3);
    assert_eq!(st.provider_selected, 1);
    st.prev_provider(3);
    assert_eq!(st.provider_selected, 0);
    st.prev_provider(3);
    assert_eq!(st.provider_selected, 0);
}

#[test]
fn next_prev_provider_empty_list() {
    let mut st = SettingsState::new();
    st.section = PROVIDERS_SECTION_IDX;
    st.provider_selected = 5;
    st.next_provider(0);
    assert!(st.provider_on_save);
    assert_eq!(st.provider_selected, 0);
    st.prev_provider(0);
    assert!(!st.provider_on_save);
    assert_eq!(st.provider_selected, 0);
}

#[test]
fn mask_key_hides_plaintext() {
    assert_eq!(mask_key(""), "(未设置)");
    assert_eq!(mask_key("${OPENAI_API_KEY}"), "${OPENAI_API_KEY}");
    assert_eq!(mask_key("sk-real-secret-key"), "(已设置)");
}

#[test]
fn mcp_and_skill_cursors_follow_the_same_rules() {
    let mut st = SettingsState::new();
    st.next_mcp(2);
    assert_eq!(st.mcp_selected, 1);
    st.next_mcp(2);
    assert!(st.mcp_on_save);
    st.prev_mcp(2);
    assert!(!st.mcp_on_save);
    assert_eq!(st.mcp_selected, 1);
    st.next_skill(3);
    st.next_skill(3);
    st.next_skill(3);
    assert_eq!(st.skills_selected, 2);
    st.prev_skill(3);
    assert_eq!(st.skills_selected, 1);
    st.next_skill(0);
    assert_eq!(st.skills_selected, 0);
}

#[test]
fn prev_field_wraps_to_save_row() {
    let mut st = SettingsState::new();
    st.prev_field();
    assert!(st.on_save_row());
    assert_eq!(st.selected, 5);
    st.next_field();
    assert_eq!(st.selected, 0);
    let mut ro = SettingsState { section: 6, selected: 0, ..SettingsState::default() };
    ro.next_field();
    assert_eq!(ro.selected, 0);
}

#[test]
fn cycling_forward_then_back_returns_to_start() {
    let opts = ["catppuccin", "cyberpunk", "dracula"];
    for o in opts {
        let f = cycle_enum(o, &opts, true);
        assert_eq!(cycle_enum(&f, &opts, false), o);
    }
}

#[test]
fn toggling_twice_restores_boolean_text() {
    assert_eq!(toggle_bool(&toggle_bool("true")), "true");
    assert_eq!(toggle_bool(&toggle_bool("false")), "false");
}

#[test]
fn adjust_number_saturates_at_u64_bounds() {
    assert_eq!(adjust_number("18446744073709551615", 10, true, 0, u64::MAX), "18446744073709551615");
    assert_eq!(adjust_number("+7", 1, true, 0, 100), "8");
    assert_eq!(adjust_number("-7", 1, true, 3, 100), "4");
}

use cyber_tui::config::{AgentConfig, Config, StorageConfig, ToolsConfig, UiConfig, WorkflowConfig};
use cyber_tui::settings::LiveApply;
use cyber_tui::strmap::StringMap;

fn names(ns: &[&str]) -> StringMap {
    let mut m = StringMap::new();
    for n in ns {
        m.insert(n.to_string(), String::new());
    }
    m
}

fn sample_config() -> Config {
    Config {
        ui: UiConfig {
            theme: "cyberpunk".into(),
            default_mode: "chat".into(),
            mouse: true,
            animations: true,
            frame_rate: 60,
        },
        agent: AgentConfig { default_provider: "openai".into(), auto_tool_call: true, max_steps: 50 },
        workflow: WorkflowConfig { max_parallel_nodes: 8, default_timeout_secs: 1800, checkpoint: true },
        tools: ToolsConfig { prefer_docker: false, extra_path: vec![] },
        storage: StorageConfig { history_retention_days: 90, log_level: "info".into() },
    }
}

#[test]
fn apply_edit_theme_cycles_and_marks_dirty() {
    let mut st = SettingsState::new();
    let mut cfg = sample_config();
    assert_eq!(cfg.ui.theme, "cyberpunk");
    let live = st.apply_edit(&mut cfg, &names(&[]), true);
    assert_eq!(live, LiveApply::Theme);
    assert_eq!(cfg.ui.theme, "dracula");
    assert!(st.dirty);
}

#[test]
fn apply_edit_bool_toggles() {
    let mut st = SettingsState::new();
    st.selected = 2; // mouse
    let mut cfg = sample_config();
    let live = st.apply_edit(&mut cfg, &names(&[]), true);
    assert_eq!(live, LiveApply::Mouse);
    assert!(!cfg.ui.mouse);
}

#[test]
fn apply_edit_readonly_no_change() {
    let mut st = SettingsState::new();
    st.selected = 4; // frame_rate
    let mut cfg = sample_config();
    let before = cfg.ui.frame_rate;
    let live = st.apply_edit(&mut cfg, &names(&[]), true);
    assert_eq!(live, LiveApply::Nothing);
    assert_eq!(cfg.ui.frame_rate, before);
    assert!(!st.dirty);
}

#[test]
fn apply_edit_provider_enum_cycles_sorted() {
    let mut st = SettingsState::new();
    st.section = 1; // Agent
    st.selected = 0; // default_provider
    let mut cfg = sample_config();
    let providers = names(&["openai", "anthropic", "ollama"]);
    // sorted: [anthropic, ollama, openai]; openai forward wraps to anthropic
    let live = st.apply_edit(&mut cfg, &providers, true);
    assert_eq!(live, LiveApply::Nothing);
    assert_eq!(cfg.agent.default_provider, "anthropic");
}

#[test]
fn apply_edit_on_save_row_is_noop() {
    let mut st = SettingsState::new();
    st.selected = 5;
    let mut cfg = sample_config();
    let before = cfg.ui.theme.clone();
    let live = st.apply_edit(&mut cfg, &names(&[]), true);
    assert_eq!(live, LiveApply::Nothing);
    assert_eq!(cfg.ui.theme, before);
    assert!(!st.dirty);
}

#[test]
fn apply_edit_number_steps_and_clamps() {
    let mut st = SettingsState::new();
    st.section = 2;
    st.selected = 1; // default timeout, step 60
    let mut cfg = sample_config();
    st.apply_edit(&mut cfg, &names(&[]), true);
    assert_eq!(cfg.workflow.default_timeout_secs, 1860);
    st.apply_edit(&mut cfg, &names(&[]), false);
    st.apply_edit(&mut cfg, &names(&[]), false);
    assert_eq!(cfg.workflow.default_timeout_secs, 1740);
    // at the lower bound the value stays and the page stays clean
    let mut st2 = SettingsState::new();
    st2.section = 1;
    st2.selected = 2;
    cfg.agent.max_steps = 1;
    st2.apply_edit(&mut cfg, &names(&[]), false);
    assert_eq!(cfg.agent.max_steps, 1);
    assert!(!st2.dirty);
}

#[test]
fn apply_edit_in_list_section_does_nothing() {
    let mut st = SettingsState::new();
    st.section = 5;
    let mut cfg = sample_config();
    assert_eq!(st.apply_edit(&mut cfg, &names(&["a"]), true), LiveApply::Nothing);
    assert_eq!(cfg.agent.default_provider, "openai");
    assert!(!st.dirty);
}

#[test]
fn apply_edit_default_mode_backwards() {
    let mut st = SettingsState::new();
    st.selected = 1;
    let mut cfg = sample_config();
    st.apply_edit(&mut cfg, &names(&[]), false);
    assert_eq!(cfg.ui.default_mode, "dashboard");
}
