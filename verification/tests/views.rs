use cyber_tui::history::{cwd_hash, history_file};
use cyber_tui::strmap::StringMap;
use cyber_tui::views::env_form::mask_value;
use cyber_tui::views::mcp_form::{parse_lines, parse_map, serialize_map};
use cyber_tui::views::sessions::truncate_id;

#[test]
fn cwd_hash_stable_and_distinct() {
    let a = cwd_hash("/home/user/proj");
    let b = cwd_hash("/home/user/proj");
    let c = cwd_hash("/home/user/other");
    assert_eq!(a, b);
    assert_ne!(a, c);
    assert_eq!(a.len(), 16);
    assert!(a.chars().all(|ch| ch.is_ascii_hexdigit()));
}

#[test]
fn cwd_hash_matches_fnv1a_reference_values() {
    // FNV-1a 64 of the empty input is the offset basis; of "a" is af63dc4c8601ec8c.
    assert_eq!(cwd_hash(""), "cbf29ce484222325");
    assert_eq!(cwd_hash("a"), "af63dc4c8601ec8c");
}

#[test]
fn history_file_uses_cwd_hash_filename() {
    let f = history_file("/tmp/hist", "/some/path");
    let expected = format!("/tmp/hist/{}.json", cwd_hash("/some/path"));
    assert_eq!(f, expected);
}

#[test]
fn mask_value_short_string() {
    assert_eq!(mask_value("abc"), "****");
    assert_eq!(mask_value(""), "****");
}

#[test]
fn mask_value_long_string() {
    assert_eq!(mask_value("sk-abcdef123"), "sk****123");
    assert_eq!(mask_value("secretkey"), "se****key");
}

#[test]
fn mask_value_counts_characters() {
    // two characters are fully masked, whatever their byte length
    assert_eq!(mask_value("你好"), "****");
    assert_eq!(mask_value("五个字符啊"), "****");
    assert_eq!(mask_value("六个字符的值"), "六个****符的值");
}

#[test]
fn truncate_id_short_returns_as_is() {
    assert_eq!(truncate_id("abc", 10), "abc");
}

#[test]
fn truncate_id_long_truncates_with_ellipsis() {
    let out = truncate_id("abcdefghijklmnop", 8);
    assert_eq!(out.chars().count(), 8);
    assert!(out.ends_with('…'));
    assert!(out.starts_with("abcdefg"));
}

#[test]
fn parse_map_rejects_missing_equals() {
    let result = parse_map("FOO=bar\nBADLINE");
    assert!(result.is_err());
    let err = result.unwrap_err();
    assert!(err.contains("缺少"));
    assert_eq!(err, "第 2 行缺少 '=': BADLINE");
}

#[test]
fn parse_map_skips_empty_lines() {
    let result = parse_map("FOO=bar\n\nBAZ=qux\n  ").unwrap();
    assert_eq!(result.len(), 2);
    assert_eq!(result.get("FOO"), Some(&"bar".to_string()));
    assert_eq!(result.get("BAZ"), Some(&"qux".to_string()));
}

#[test]
fn parse_map_rejects_blank_key_and_keeps_last_duplicate() {
    assert_eq!(parse_map("A=1\n =2").unwrap_err(), "第 2 行 KEY 为空");
    let m = parse_map(" A = 1 \nA=2=3").unwrap();
    assert_eq!(m.len(), 1);
    assert_eq!(m.get("A"), Some(&"2=3".to_string()));
}

#[test]
fn serialize_parse_roundtrip() {
    let mut map = StringMap::new();
    map.insert("KEY1".into(), "val1".into());
    map.insert("KEY2".into(), "val2".into());
    let s = serialize_map(&map);
    let parsed = parse_map(&s).unwrap();
    assert_eq!(parsed, map);
}

#[test]
fn serialize_orders_keys() {
    let mut map = StringMap::new();
    map.insert("b".into(), "2".into());
    map.insert("a".into(), "1".into());
    map.insert("b".into(), "3".into());
    assert_eq!(serialize_map(&map), "a=1\nb=3");
}

#[test]
fn parse_lines_trims_and_drops_blank_lines() {
    assert_eq!(parse_lines("-y\n  server \n\n.\r\n"), vec!["-y", "server", "."]);
    assert!(parse_lines("").is_empty());
}

use cyber_tui::theme::Theme;
use cyber_tui::views::welcome::{about_lines, welcome_brand, welcome_hint, welcome_rows};

#[test]
fn welcome_rows_mark_selected_entry() {
    let theme = Theme::resolve("cyberpunk");
    let rows = welcome_rows(2, &theme);
    let t: Vec<String> = rows.iter().map(|l| l.spans.iter().map(|s| s.content.as_str()).collect()).collect();
    assert_eq!(
        t,
        vec![
            "   新建项目  (New Project)",
            "   打开工作流 (Open Workflow)",
            "▸  进入聊天  (Enter Chat)",
            "   设置      (Settings)",
            "   关于      (About)",
        ]
    );
    assert_eq!(rows[2].spans[1].style.bg, Some(theme.sel_bg));
    assert_eq!(rows[0].spans[1].style.bg, None);
    let brand = welcome_brand(&theme);
    assert_eq!(brand[0].spans[0].content, "◈  CYBER MASTER");
    let hint = welcome_hint(&theme);
    let h: String = hint.spans.iter().map(|s| s.content.as_str()).collect();
    assert_eq!(h, "↑↓ navigate   Enter select   s settings   q quit");
}

#[test]
fn about_lines_show_version_and_links() {
    let theme = Theme::resolve("cyberpunk");
    let lines = about_lines("0.1.0", "", "MIT", &theme);
    let t: Vec<String> = lines.iter().map(|l| l.spans.iter().map(|s| s.content.as_str()).collect()).collect();
    assert_eq!(t[0], "Cyber Master  ·  网络安全智能体终端");
    assert_eq!(t[1], "版本 v0.1.0  ·  Edition 2021");
    assert!(t.iter().any(|l| l == "仓库  https://github.com/chuzouX/cyber-master"));
    assert!(t.iter().any(|l| l == "协议  MIT"));
    let custom = about_lines("2.0", "https://example.org/repo", "Apache-2.0", &theme);
    let c: Vec<String> = custom.iter().map(|l| l.spans.iter().map(|s| s.content.as_str()).collect()).collect();
    assert!(c.iter().any(|l| l == "仓库  https://example.org/repo"));
    assert_eq!(c.len(), t.len());
}
