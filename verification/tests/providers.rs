use cyber_tui::event::KeyCode;
use cyber_tui::strmap::StringMap;
use cyber_tui::views::providers::{neighbour_model, ModelFetch, PickerOutcome};

fn known(ns: &[&str]) -> StringMap {
    let mut m = StringMap::new();
    for n in ns {
        m.insert(n.to_string(), String::new());
    }
    m
}

fn fresh() -> ModelFetch {
    ModelFetch::new(StringMap::new())
}

#[test]
fn start_fetch_bumps_id_and_sets_fetching() {
    let mut s = fresh();
    let id1 = s.start_fetch();
    assert!(s.fetching);
    let id2 = s.start_fetch();
    assert_ne!(id1, id2);
}

#[test]
fn deliver_fetch_stale_id_ignored() {
    let mut s = fresh();
    let id = s.start_fetch();
    s.deliver_fetch(id.wrapping_sub(1), Ok(vec!["m".into()]));
    assert!(s.fetching, "stale 结果应被忽略");
    assert!(s.fetched_models.is_empty());
}

#[test]
fn deliver_fetch_success_opens_picker() {
    let mut s = fresh();
    let id = s.start_fetch();
    s.deliver_fetch(id, Ok(vec!["gpt-4o".into(), "gpt-4o-mini".into()]));
    assert!(!s.fetching);
    assert_eq!(s.fetched_models.len(), 2);
    assert!(s.picker_open);
    assert_eq!(s.picker_selected, 0);
}

#[test]
fn deliver_fetch_error_stores_message() {
    let mut s = fresh();
    let id = s.start_fetch();
    s.deliver_fetch(id, Err("timeout".into()));
    assert!(!s.fetching);
    assert_eq!(s.fetch_error.as_deref(), Some("timeout"));
    assert!(!s.picker_open);
}

#[test]
fn deliver_fetch_empty_list_is_an_error() {
    let mut s = fresh();
    let id = s.start_fetch();
    s.deliver_fetch(id, Ok(vec![]));
    assert_eq!(s.fetch_error.as_deref(), Some("未返回任何模型"));
    assert!(!s.picker_open);
}

#[test]
fn picker_enter_selects_model() {
    let mut s = fresh();
    let id = s.start_fetch();
    s.deliver_fetch(id, Ok(vec!["a".into(), "b".into()]));
    assert!(s.picker_open);
    assert!(matches!(s.picker_key(KeyCode::Down), PickerOutcome::Stay));
    match s.picker_key(KeyCode::Enter) {
        PickerOutcome::Chosen(m) => assert_eq!(m, "b"),
        PickerOutcome::Stay => panic!("Enter should choose"),
    }
    assert!(!s.picker_open);
}

#[test]
fn picker_wraps_and_esc_closes() {
    let mut s = fresh();
    let id = s.start_fetch();
    s.deliver_fetch(id, Ok(vec!["a".into(), "b".into(), "c".into()]));
    s.picker_key(KeyCode::Up);
    assert_eq!(s.picker_selected, 2);
    s.picker_key(KeyCode::Down);
    assert_eq!(s.picker_selected, 0);
    s.picker_key(KeyCode::Esc);
    assert!(!s.picker_open);
}

#[test]
fn deliver_fetch_adds_to_known_models() {
    let mut s = ModelFetch::new(known(&["m2", "z"]));
    let id = s.start_fetch();
    s.deliver_fetch(id, Ok(vec!["m1".into(), "m2".into()]));
    assert!(s.known_models.contains_key("m1"));
    assert!(s.known_models.contains_key("m2"));
    // sorted, each once
    assert_eq!(s.known_models.len(), 3);
    assert_eq!(s.known_models.entry(0).0, "m1");
    assert_eq!(s.known_models.entry(2).0, "z");
}

#[test]
fn neighbour_model_cycles() {
    let k = known(&["a", "b", "c"]);
    assert_eq!(neighbour_model(&k, "b", true).as_deref(), Some("c"));
    assert_eq!(neighbour_model(&k, "c", true).as_deref(), Some("a"));
    assert_eq!(neighbour_model(&k, "a", false).as_deref(), Some("c"));
    assert_eq!(neighbour_model(&k, "zz", true).as_deref(), Some("a"));
}

#[test]
fn neighbour_model_needs_two_models() {
    assert_eq!(neighbour_model(&known(&["only"]), "only", true), None);
    assert_eq!(neighbour_model(&known(&[]), "x", false), None);
}

use cyber_tui::views::providers::{FormCursor, FormStep, IDX_CANCEL, IDX_CURRENCY, IDX_FETCH, IDX_KIND, IDX_MODEL, IDX_SAVE};

#[test]
fn form_cursor_wraps_focus_and_cycles_kind() {
    let mut c = FormCursor::new(0, 0, 0);
    assert_eq!(c.key(KeyCode::Up, 4, false), FormStep::Nothing);
    assert_eq!(c.focused, IDX_CANCEL);
    assert_eq!(c.key(KeyCode::Down, 4, false), FormStep::Nothing);
    assert_eq!(c.focused, 0);
    c.focused = IDX_KIND;
    c.key(KeyCode::Left, 4, false);
    assert_eq!(c.kind_idx, 3);
    c.key(KeyCode::Right, 4, false);
    assert_eq!(c.kind_idx, 0);
    c.focused = IDX_CURRENCY;
    c.key(KeyCode::Right, 4, false);
    assert_eq!(c.currency_idx, 1);
    c.key(KeyCode::Right, 4, false);
    assert_eq!(c.currency_idx, 0);
    c.focused = IDX_MODEL;
    assert_eq!(c.key(KeyCode::Left, 4, false), FormStep::SwitchModel(false));
}

#[test]
fn form_cursor_buttons_and_editing() {
    let mut c = FormCursor::new(IDX_FETCH, 0, 0);
    assert_eq!(c.key(KeyCode::Enter, 4, false), FormStep::Fetch);
    assert_eq!(c.key(KeyCode::Enter, 4, true), FormStep::Nothing);
    c.focused = IDX_SAVE;
    assert_eq!(c.key(KeyCode::Enter, 4, false), FormStep::Save);
    c.focused = IDX_KIND;
    assert_eq!(c.key(KeyCode::Enter, 4, false), FormStep::Nothing);
    assert!(!c.editing);
    c.focused = 2;
    assert_eq!(c.key(KeyCode::Enter, 4, false), FormStep::StartEditing(2));
    assert!(c.editing);
    assert_eq!(c.key(KeyCode::Char('x'), 4, false), FormStep::TextInput);
    assert_eq!(c.key(KeyCode::Enter, 4, false), FormStep::Commit(2));
    assert!(!c.editing);
    c.key(KeyCode::Enter, 4, false);
    assert_eq!(c.key(KeyCode::Esc, 4, false), FormStep::DropEdit);
    assert_eq!(c.key(KeyCode::Esc, 4, false), FormStep::Cancel);
}

use cyber_tui::views::providers::check_head;

#[test]
fn provider_form_head_checks() {
    let mut names = StringMap::new();
    names.insert("openai".into(), String::new());
    assert_eq!(check_head("  ", &None, &names, "u", "1"), Err("名称不能为空".to_string()));
    assert_eq!(check_head("openai", &None, &names, "u", "1"), Err("名称 'openai' 已存在".to_string()));
    assert_eq!(
        check_head(" openai ", &Some("openai".into()), &names, " http://x ", " 4096 "),
        Ok(("openai".to_string(), "http://x".to_string(), 4096))
    );
    assert_eq!(check_head("new", &None, &names, " ", "1"), Err("base_url 不能为空".to_string()));
    assert_eq!(check_head("new", &None, &names, "u", "4294967296"), Err("max_tokens 必须是数字".to_string()));
    assert_eq!(check_head("new", &None, &names, "u", "x"), Err("max_tokens 必须是数字".to_string()));
}

#[test]
fn commit_typed_trims_and_records_model() {
    let mut f = ModelFetch::new(known(&["a"]));
    assert_eq!(f.commit_typed("  gpt-x \n"), "gpt-x");
    assert!(f.known_models.contains_key("gpt-x"));
    assert_eq!(f.known_models.len(), 2);
    assert_eq!(f.commit_typed("   "), "");
    assert_eq!(f.known_models.len(), 2);
    assert_eq!(f.commit_typed("a"), "a");
    assert_eq!(f.known_models.len(), 2);
}
