use cyber_tui::event::{
    chat_key_to_action, key_to_action, Action, ChatAction, KeyCode, KeyEvent, ALT, CONTROL, NONE,
    SHIFT,
};

fn key(code: KeyCode, mods: u8) -> KeyEvent {
    KeyEvent::new(code, mods)
}

#[test]
fn ctrl_c_maps_to_quit() {
    assert_eq!(key_to_action(key(KeyCode::Char('c'), CONTROL)), Action::Quit);
}

#[test]
fn plain_c_is_other() {
    assert_eq!(key_to_action(key(KeyCode::Char('c'), NONE)), Action::Other);
}

#[test]
fn q_maps_to_quit() {
    assert_eq!(key_to_action(key(KeyCode::Char('q'), NONE)), Action::Quit);
}

#[test]
fn enter_tab_esc_mapped() {
    assert_eq!(key_to_action(key(KeyCode::Enter, NONE)), Action::Enter);
    assert_eq!(key_to_action(key(KeyCode::Tab, NONE)), Action::Tab);
    assert_eq!(key_to_action(key(KeyCode::Esc, NONE)), Action::Esc);
    assert_eq!(key_to_action(key(KeyCode::Up, NONE)), Action::Up);
    assert_eq!(key_to_action(key(KeyCode::Down, NONE)), Action::Down);
}

#[test]
fn s_opens_settings_ctrl_s_does_not() {
    assert_eq!(key_to_action(key(KeyCode::Char('s'), NONE)), Action::OpenSettings);
    assert_eq!(key_to_action(key(KeyCode::Char('S'), SHIFT)), Action::OpenSettings);
    assert_eq!(key_to_action(key(KeyCode::Char('s'), CONTROL)), Action::Other);
}

#[test]
fn a_e_d_map_to_provider_actions() {
    assert_eq!(key_to_action(key(KeyCode::Char('a'), NONE)), Action::AddProvider);
    assert_eq!(key_to_action(key(KeyCode::Char('e'), NONE)), Action::EditProvider);
    assert_eq!(key_to_action(key(KeyCode::Char('d'), NONE)), Action::DeleteProvider);
}

#[test]
fn ctrl_a_e_d_are_other() {
    assert_eq!(key_to_action(key(KeyCode::Char('a'), CONTROL)), Action::Other);
    assert_eq!(key_to_action(key(KeyCode::Char('e'), CONTROL)), Action::Other);
    assert_eq!(key_to_action(key(KeyCode::Char('d'), CONTROL)), Action::Other);
}

#[test]
fn chat_plain_enter_submits() {
    assert_eq!(chat_key_to_action(key(KeyCode::Enter, NONE)), ChatAction::Submit);
}

#[test]
fn chat_shift_enter_newline() {
    assert_eq!(chat_key_to_action(key(KeyCode::Enter, SHIFT)), ChatAction::Newline);
}

#[test]
fn chat_alt_enter_newline() {
    assert_eq!(chat_key_to_action(key(KeyCode::Enter, ALT)), ChatAction::Newline);
}

#[test]
fn chat_ctrl_j_newline_fallback() {
    assert_eq!(chat_key_to_action(key(KeyCode::Char('j'), CONTROL)), ChatAction::Newline);
}

#[test]
fn chat_esc_back() {
    assert_eq!(chat_key_to_action(key(KeyCode::Esc, NONE)), ChatAction::Back);
}

#[test]
fn chat_tab_switch_mode() {
    assert_eq!(chat_key_to_action(key(KeyCode::Tab, NONE)), ChatAction::SwitchMode);
}

#[test]
fn chat_ctrl_comma_open_settings() {
    assert_eq!(chat_key_to_action(key(KeyCode::Char(','), CONTROL)), ChatAction::OpenSettings);
}

#[test]
fn chat_ctrl_c_and_ctrl_q_quit() {
    assert_eq!(chat_key_to_action(key(KeyCode::Char('c'), CONTROL)), ChatAction::Quit);
    assert_eq!(chat_key_to_action(key(KeyCode::Char('q'), CONTROL)), ChatAction::Quit);
}

#[test]
fn event_chat_plain_q_is_input_not_quit() {
    assert_eq!(chat_key_to_action(key(KeyCode::Char('q'), NONE)), ChatAction::Input);
}

#[test]
fn chat_plain_s_is_input_not_settings() {
    assert_eq!(chat_key_to_action(key(KeyCode::Char('s'), NONE)), ChatAction::Input);
}

#[test]
fn chat_letters_are_input() {
    assert_eq!(chat_key_to_action(key(KeyCode::Char('a'), NONE)), ChatAction::Input);
    assert_eq!(chat_key_to_action(key(KeyCode::Char('Z'), SHIFT)), ChatAction::Input);
}

#[test]
fn chat_page_up_down_scroll() {
    assert_eq!(chat_key_to_action(key(KeyCode::PageUp, NONE)), ChatAction::ScrollPageUp);
    assert_eq!(chat_key_to_action(key(KeyCode::PageDown, NONE)), ChatAction::ScrollPageDown);
}

#[test]
fn chat_ctrl_up_down_scroll_line() {
    assert_eq!(chat_key_to_action(key(KeyCode::Up, CONTROL)), ChatAction::ScrollLineUp);
    assert_eq!(chat_key_to_action(key(KeyCode::Down, CONTROL)), ChatAction::ScrollLineDown);
}

#[test]
fn ctrl_l_toggles_logs() {
    assert_eq!(key_to_action(key(KeyCode::Char('l'), CONTROL)), Action::ToggleLogs);
    assert_eq!(chat_key_to_action(key(KeyCode::Char('l'), CONTROL)), ChatAction::ToggleLogs);
}

#[test]
fn chat_plain_up_down_recall_input_history() {
    assert_eq!(chat_key_to_action(key(KeyCode::Up, NONE)), ChatAction::HistoryPrev);
    assert_eq!(chat_key_to_action(key(KeyCode::Down, NONE)), ChatAction::HistoryNext);
}

#[test]
fn ctrl_shift_still_counts_as_control() {
    assert_eq!(key_to_action(key(KeyCode::Char('c'), CONTROL | SHIFT)), Action::Quit);
    assert_eq!(chat_key_to_action(key(KeyCode::Enter, CONTROL | SHIFT)), ChatAction::Newline);
    assert_eq!(chat_key_to_action(key(KeyCode::Enter, CONTROL)), ChatAction::Submit);
}
