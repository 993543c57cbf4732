use cyber_tui::ctf::{session_challenges_path, split_words, CtfCategory, CtfChallenge, CtfStatus};
use cyber_tui::event::{KeyCode, KeyEvent, NONE};
use cyber_tui::views::ctf_edit_form::{
    CtfEditFormAction, CtfEditFormState, IDX_CANCEL, IDX_CATEGORY, IDX_GLOBAL, IDX_SAVE,
    IDX_STATUS,
};

fn key(code: KeyCode) -> KeyEvent {
    KeyEvent::new(code, NONE)
}

fn make_challenge() -> CtfChallenge {
    CtfChallenge {
        id: "c-1".into(),
        name: "test-challenge".into(),
        category: CtfCategory::Web,
        status: CtfStatus::InProgress,
        description: "A test".into(),
        target: Some("nc 1.2.3.4 1234".into()),
        flag: Some("flag{test}".into()),
        tags: vec!["web".into(), "sql".into()],
        key_points: Some("SQL injection".into()),
        is_global: false,
        start_time: "2024-01-01 10:00:00".into(),
        end_time: None,
        writeup: None,
    }
}

#[test]
fn apply_to_roundtrip() {
    let c = make_challenge();
    let state = CtfEditFormState::from_challenge(&c);
    let applied = state.apply_to(c.clone(), "2024-01-02 00:00:00".into());
    assert_eq!(applied.name, c.name);
    assert_eq!(applied.category, c.category);
    assert_eq!(applied.description, c.description);
    assert_eq!(applied.target, c.target);
    assert_eq!(applied.flag, c.flag);
    assert_eq!(applied.tags, c.tags);
    assert_eq!(applied.key_points, c.key_points);
}

#[test]
fn enter_on_text_field_starts_editing() {
    let c = make_challenge();
    let mut s = CtfEditFormState::from_challenge(&c);
    assert_eq!(s.handle_key(key(KeyCode::Enter)), CtfEditFormAction::Nothing);
    assert!(s.editing);
}

#[test]
fn save_button_returns_save() {
    let c = make_challenge();
    let mut s = CtfEditFormState::from_challenge(&c);
    s.focused = IDX_SAVE;
    assert_eq!(s.handle_key(key(KeyCode::Enter)), CtfEditFormAction::Save);
}

#[test]
fn cancel_button_returns_cancel() {
    let c = make_challenge();
    let mut s = CtfEditFormState::from_challenge(&c);
    s.focused = IDX_CANCEL;
    assert_eq!(s.handle_key(key(KeyCode::Enter)), CtfEditFormAction::Cancel);
}

#[test]
fn ctf_edit_form_esc_returns_cancel() {
    let c = make_challenge();
    let mut s = CtfEditFormState::from_challenge(&c);
    assert_eq!(s.handle_key(key(KeyCode::Esc)), CtfEditFormAction::Cancel);
}

#[test]
fn ctf_form_loads_challenge() {
    let c = make_challenge();
    let s = CtfEditFormState::from_challenge(&c);
    assert_eq!(s.name, "test-challenge");
    assert_eq!(s.category(), CtfCategory::Web);
    assert_eq!(s.status(), CtfStatus::InProgress);
    assert_eq!(s.tags, "web sql");
    assert_eq!(s.target, "nc 1.2.3.4 1234");
    assert!(!s.is_global());
    assert_eq!(s.challenge_id, "c-1");
    assert_eq!(s.focused, 0);
}

#[test]
fn ctf_form_edit_name_commits_on_enter() {
    let c = make_challenge();
    let mut s = CtfEditFormState::from_challenge(&c);
    s.handle_key(key(KeyCode::Enter));
    assert_eq!(s.textarea.text(), "test-challenge");
    s.textarea.insert_str("-2");
    assert_eq!(s.handle_key(key(KeyCode::Enter)), CtfEditFormAction::Nothing);
    assert!(!s.editing);
    assert_eq!(s.name, "test-challenge-2");
}

#[test]
fn ctf_form_esc_while_editing_keeps_value() {
    let c = make_challenge();
    let mut s = CtfEditFormState::from_challenge(&c);
    s.handle_key(key(KeyCode::Enter));
    s.textarea.insert_str("zzz");
    assert_eq!(s.handle_key(key(KeyCode::Esc)), CtfEditFormAction::Nothing);
    assert!(!s.editing);
    assert_eq!(s.name, "test-challenge");
}

#[test]
fn ctf_form_up_wraps_to_cancel() {
    let c = make_challenge();
    let mut s = CtfEditFormState::from_challenge(&c);
    s.handle_key(key(KeyCode::Up));
    assert_eq!(s.focused, IDX_CANCEL);
    s.handle_key(key(KeyCode::Down));
    assert_eq!(s.focused, 0);
}

#[test]
fn ctf_form_left_right_cycle_options() {
    let c = make_challenge();
    let mut s = CtfEditFormState::from_challenge(&c);
    s.focused = IDX_CATEGORY;
    s.handle_key(key(KeyCode::Left));
    assert_eq!(s.category(), CtfCategory::Misc);
    s.handle_key(key(KeyCode::Left));
    assert_eq!(s.category(), CtfCategory::Crypto);
    s.handle_key(key(KeyCode::Right));
    assert_eq!(s.category(), CtfCategory::Misc);
    s.focused = IDX_STATUS;
    s.handle_key(key(KeyCode::Right));
    assert_eq!(s.status(), CtfStatus::Solved);
    s.focused = IDX_GLOBAL;
    s.handle_key(key(KeyCode::Left));
    assert!(s.is_global());
    assert_eq!(s.get_field(IDX_GLOBAL), "全局 ★");
}

#[test]
fn ctf_apply_sets_end_time_when_solved() {
    let c = make_challenge();
    let mut s = CtfEditFormState::from_challenge(&c);
    s.focused = IDX_STATUS;
    s.handle_key(key(KeyCode::Right));
    let r = s.apply_to(c.clone(), "2024-01-02 00:00:00".into());
    assert_eq!(r.status, CtfStatus::Solved);
    assert_eq!(r.end_time.as_deref(), Some("2024-01-02 00:00:00"));
    // back to in progress clears it
    let mut s2 = CtfEditFormState::from_challenge(&r);
    s2.focused = IDX_STATUS;
    s2.handle_key(key(KeyCode::Left));
    let r2 = s2.apply_to(r.clone(), "later".into());
    assert_eq!(r2.status, CtfStatus::InProgress);
    assert_eq!(r2.end_time, None);
}

#[test]
fn ctf_apply_empty_text_clears_optionals() {
    let c = make_challenge();
    let mut s = CtfEditFormState::from_challenge(&c);
    s.set_field(4, String::new());
    s.set_field(5, String::new());
    s.set_field(6, "  a  b\tc ".into());
    let r = s.apply_to(c.clone(), "t".into());
    assert_eq!(r.target, None);
    assert_eq!(r.flag, None);
    assert_eq!(r.tags, vec!["a".to_string(), "b".to_string(), "c".to_string()]);
    assert_eq!(r.start_time, c.start_time);
}

#[test]
fn split_words_like_split_whitespace() {
    assert_eq!(split_words("  x  yy\nzzz "), vec!["x", "yy", "zzz"]);
    assert!(split_words("   ").is_empty());
    assert!(split_words("").is_empty());
}

#[test]
fn session_challenges_path_layout() {
    let p = session_challenges_path("/tmp/ctf", "abc");
    assert_eq!(p, "/tmp/ctf/sessions/abc.json");
}

use cyber_tui::views::ctf_panel::{scroll_offset, wrap_text_by_width};

#[test]
fn wrap_text_by_width_basic() {
    assert_eq!(wrap_text_by_width("abcdef", 4), vec!["abcd", "ef"]);
    assert_eq!(wrap_text_by_width("", 4), vec![""]);
    assert_eq!(wrap_text_by_width("abc", 0), vec!["abc"]);
}

#[test]
fn wrap_text_by_width_wide_chars() {
    // each CJK character is two columns
    assert_eq!(wrap_text_by_width("中文题目", 5), vec!["中文", "题目"]);
    // a character wider than the row still gets a row
    assert_eq!(wrap_text_by_width("中a", 1), vec!["中", "a"]);
}

#[test]
fn wrap_text_by_width_newline_is_zero_width() {
    assert_eq!(wrap_text_by_width("ab\ncd", 4), vec!["ab\ncd"]);
}

#[test]
fn scroll_offset_keeps_selection_visible() {
    // five items of three rows, view of six rows
    let h = vec![3usize, 3, 3, 3, 3];
    // everything fits: no scroll
    assert_eq!(scroll_offset(&vec![3, 3], 1, 6, 4), 0);
    // selection below the view: scroll just enough to show its last row
    assert_eq!(scroll_offset(&h, 3, 6, 0), 6);
    // selection above the view: scroll up to its first row
    assert_eq!(scroll_offset(&h, 1, 6, 6), 3);
    // selection inside the view: stay
    assert_eq!(scroll_offset(&h, 2, 6, 4), 4);
    // previous offset past the end is clamped
    assert_eq!(scroll_offset(&h, 4, 6, 100), 9);
}

use cyber_tui::style::{Line, Style, BOLD};
use cyber_tui::theme::Theme;
use cyber_tui::views::ctf_panel::{detail_lines, list_item_heights, list_scroll};

fn texts(ls: &[Line]) -> Vec<String> {
    ls.iter().map(|l| l.spans.iter().map(|s| s.content.as_str()).collect::<String>()).collect()
}

#[test]
fn field_row_shows_marker_label_and_value() {
    let c = make_challenge();
    let s = CtfEditFormState::from_challenge(&c);
    assert_eq!(s.field_row(0, ""), "▸ 名称 name : test-challenge");
    assert_eq!(s.field_row(4, ""), "  靶机 target : nc 1.2.3.4 1234");
    assert_eq!(s.field_row(IDX_CATEGORY, "Web"), "  分类 category : Web  ←→");
    assert_eq!(s.field_row(IDX_GLOBAL, ""), "  范围 scope : 仅本 session  ←→");
}

#[test]
fn row_value_summarises_multiline_fields() {
    let c = make_challenge();
    let mut s = CtfEditFormState::from_challenge(&c);
    s.description = "first line\nsecond\nthird".into();
    assert_eq!(s.row_value(3, ""), "first line … (3 行)");
    s.key_points = "\nafter blank\n".into();
    assert_eq!(s.row_value(7, ""), "(2 行)");
    // a line break in another field is shown as it is
    s.flag = "a\nb".into();
    assert_eq!(s.row_value(5, ""), "a\nb");
    s.global_idx = 1;
    assert_eq!(s.row_value(IDX_GLOBAL, ""), "全局 ★  ←→");
    assert_eq!(s.row_value(IDX_STATUS, "进行中"), "进行中  ←→");
}

#[test]
fn field_row_while_editing_has_no_marker() {
    let c = make_challenge();
    let mut s = CtfEditFormState::from_challenge(&c);
    s.editing = true;
    assert_eq!(s.field_row(0, ""), "  名称 name : test-challenge");
}

#[test]
fn detail_lines_sections_in_order() {
    let theme = Theme::resolve("cyberpunk");
    let mut c = make_challenge();
    c.key_points = Some("one\ntwo".into());
    let ls = detail_lines(&c, "Web", None, 40, &theme);
    let t = texts(&ls);
    assert_eq!(
        t,
        vec![
            "[Web] test-challenge",
            "",
            "题目描述",
            "A test",
            "",
            "靶机",
            "nc 1.2.3.4 1234",
            "",
            "Flag",
            "flag{test}",
            "",
            "Tag",
            "web、sql",
            "",
            "2024-01-01 10:00:00 - --  --",
            "",
            &"─".repeat(40),
            "Writeup",
            "（未撰写）",
            "",
            &"─".repeat(40),
            "关键知识点 / 卡点",
            "one",
            "two",
        ]
    );
    assert_eq!(ls[0].spans[0].style, Style::new().fg(theme.accent).add(BOLD));
    assert_eq!(ls[9].spans[0].style, Style::new().fg(theme.accent));
}

#[test]
fn detail_lines_notes_and_wrapping() {
    let theme = Theme::resolve("cyberpunk");
    let mut c = make_challenge();
    c.target = None;
    c.flag = None;
    c.tags = vec![];
    c.key_points = None;
    c.description = "abcdefgh".into();
    c.end_time = Some("2024-01-01 11:00:00".into());
    c.writeup = Some("".into());
    let ls = detail_lines(&c, "Pwn", Some("1h".into()), 4, &theme);
    let t = texts(&ls);
    assert_eq!(
        t,
        vec![
            "[Pwn] test-challenge",
            "",
            "题目描述",
            "abcd",
            "efgh",
            "",
            "2024-01-01 10:00:00 - 2024-01-01 11:00:00  1h",
            "",
            "────",
            "Writeup",
            "（空）",
            "",
            "────",
            "关键知识点 / 卡点",
            "（无）",
        ]
    );
}

#[test]
fn list_heights_follow_name_rows() {
    let mut a = make_challenge();
    a.name = "abcdefghij".into();
    let b = make_challenge();
    // 24 columns leave 4 for the name: "abcdefghij" takes 3 rows
    let h = list_item_heights(&vec![a.clone(), b.clone()], 24);
    assert_eq!(h, vec![5, 6]);
    // narrower than the fixed columns: the name stays on one row
    assert_eq!(list_item_heights(&vec![a.clone()], 10), vec![3]);
    // rows: item 0 in [0,5), item 1 in [5,11); 6 visible rows
    assert_eq!(list_scroll(&vec![a.clone(), b.clone()], 24, 6, 1, 0), 5);
    assert_eq!(list_scroll(&vec![a.clone(), b.clone()], 24, 6, 0, 5), 0);
    assert_eq!(list_scroll(&vec![a, b], 24, 20, 1, 3), 0);
}

#[test]
fn ctf_form_buttons_and_title() {
    let c = make_challenge();
    let mut s = CtfEditFormState::from_challenge(&c);
    assert_eq!(s.button(IDX_SAVE), "  [保存]");
    s.focused = IDX_SAVE;
    assert_eq!(s.button(IDX_SAVE), "▸ [保存]");
    assert_eq!(s.button(IDX_CANCEL), "  [取消]");
    assert_eq!(s.title(), " 编辑题目: test-challenge ");
}

use cyber_tui::views::ctf_panel::{list_hint_text, list_lines, ListExtras};

#[test]
fn list_lines_rows_per_challenge() {
    let theme = Theme::resolve("cyberpunk");
    let mut a = make_challenge();
    a.name = "abcdefghij".into();
    a.status = CtfStatus::Solved;
    a.is_global = true;
    a.end_time = Some("2024-01-01 11:00:00".into());
    let b = make_challenge();
    let xs = vec![
        ListExtras { category: "Web".into(), duration: Some("1h".into()), has_writeup: true },
        ListExtras { category: "Pwn".into(), duration: None, has_writeup: false },
    ];
    let ls = list_lines(&vec![a.clone(), b.clone()], &xs, 0, 24, &theme);
    let t = texts(&ls);
    assert_eq!(
        t,
        vec![
            "▸ 1. [Web] abcd  已完成★",
            "    efgh",
            "    ij",
            "    2024-01-01 10:00:00  2024-01-01 11:00:00  1h  已写WP",
            "",
            "  2. [Pwn] test  进行中 ",
            "    -cha",
            "    llen",
            "    ge",
            "    2024-01-01 10:00:00  --  --  ",
            "",
        ]
    );
    // as many lines as the scroll counts
    assert_eq!(list_item_heights(&vec![a, b], 24), vec![5, 6]);
    assert_eq!(ls[0].spans[4].style.bg, Some(theme.sel_bg));
    assert_eq!(texts(&list_lines(&vec![], &vec![], 0, 24, &theme)), vec!["（无题目）"]);
    assert_eq!(list_hint_text(true), "Ctrl+T 关闭面板");
}

#[test]
fn writeup_path_layout() {
    let c = make_challenge();
    let p = cyber_tui::ctf::writeup_path("/tmp/ctf", &c);
    assert_eq!(p, "/tmp/ctf/web/test-challenge/writeup.md");
    assert_eq!(cyber_tui::ctf::writeup_dir("/tmp/ctf", &c), "/tmp/ctf/web/test-challenge");
}
