use cyber_tui::slash::{
    classify_command, commands, commands_with_prefix, filter_commands, param_suggestions, parse,
    split_command, SlashCommand, HELP_TEXT,
};

#[test]
fn parse_help() {
    assert_eq!(parse("/help"), SlashCommand::Help);
    assert_eq!(parse("/help  "), SlashCommand::Help);
}

#[test]
fn parse_case_insensitive() {
    assert_eq!(parse("/HELP"), SlashCommand::Help);
    assert_eq!(parse("/Clear"), SlashCommand::Clear);
    assert_eq!(parse("/QUIT"), SlashCommand::Quit);
}

#[test]
fn parse_mode_with_arg() {
    assert_eq!(parse("/mode chat"), SlashCommand::Mode("chat".into()));
    assert_eq!(parse("/mode workflow"), SlashCommand::Mode("workflow".into()));
}

#[test]
fn parse_mode_no_arg() {
    assert_eq!(parse("/mode"), SlashCommand::Mode(String::new()));
    assert_eq!(parse("/mode   "), SlashCommand::Mode(String::new()));
}

#[test]
fn parse_model_with_arg() {
    assert_eq!(parse("/model ollama"), SlashCommand::Model("ollama".into()));
}

#[test]
fn parse_model_no_arg() {
    assert_eq!(parse("/model"), SlashCommand::Model(String::new()));
}

#[test]
fn parse_clear_tools_cancel_quit() {
    assert_eq!(parse("/clear"), SlashCommand::Clear);
    assert_eq!(parse("/tools"), SlashCommand::Tools);
    assert_eq!(parse("/cancel"), SlashCommand::Cancel);
    assert_eq!(parse("/quit"), SlashCommand::Quit);
    assert_eq!(parse("/new"), SlashCommand::New);
}

#[test]
fn parse_max_steps_no_arg() {
    assert_eq!(parse("/max_steps"), SlashCommand::MaxSteps(String::new()));
}

#[test]
fn parse_max_steps_with_number() {
    assert_eq!(parse("/max_steps 100"), SlashCommand::MaxSteps("100".into()));
}

#[test]
fn parse_think_no_arg() {
    assert_eq!(parse("/think"), SlashCommand::Think(String::new()));
}

#[test]
fn parse_think_with_level() {
    assert_eq!(parse("/think high"), SlashCommand::Think("high".into()));
}

#[test]
fn parse_compact_no_arg() {
    assert_eq!(parse("/compact"), SlashCommand::Compact(String::new()));
    assert_eq!(parse("/compact   "), SlashCommand::Compact(String::new()));
}

#[test]
fn parse_compact_with_instructions() {
    assert_eq!(
        parse("/compact 关注安全相关内容"),
        SlashCommand::Compact("关注安全相关内容".into())
    );
    assert_eq!(
        parse("/compact focus on code changes and tests"),
        SlashCommand::Compact("focus on code changes and tests".into())
    );
}

#[test]
fn parse_unknown() {
    match parse("/foobar") {
        SlashCommand::Unknown(name) => assert_eq!(name, "/foobar"),
        other => panic!("expected Unknown, got {other:?}"),
    }
}

#[test]
fn parse_unknown_preserves_original_case() {
    match parse("/FooBar") {
        SlashCommand::Unknown(name) => assert_eq!(name, "/FooBar"),
        other => panic!("expected Unknown, got {other:?}"),
    }
}

#[test]
fn parse_non_slash_is_unknown() {
    match parse("hello") {
        SlashCommand::Unknown(name) => assert_eq!(name, "hello"),
        other => panic!("expected Unknown, got {other:?}"),
    }
}

#[test]
fn help_text_lists_all_commands() {
    for cmd in [
        "/help", "/clear", "/mode", "/model", "/provider", "/tools", "/skill", "/mcp", "/cancel",
        "/compact", "/max_steps", "/think", "/new", "/sessions", "/memory", "/quit",
    ] {
        assert!(HELP_TEXT.contains(cmd), "HELP_TEXT should contain {cmd}");
    }
}

#[test]
fn parse_memory_no_arg() {
    assert_eq!(parse("/memory"), SlashCommand::Memory(String::new()));
}

#[test]
fn parse_memory_with_arg() {
    assert_eq!(parse("/memory add 记住这个"), SlashCommand::Memory("add 记住这个".into()));
    assert_eq!(parse("/memory project 项目约定"), SlashCommand::Memory("project 项目约定".into()));
}

#[test]
fn parse_provider_no_arg() {
    assert_eq!(parse("/provider"), SlashCommand::Provider(String::new()));
    assert_eq!(parse("/provider   "), SlashCommand::Provider(String::new()));
}

#[test]
fn parse_provider_subcommands() {
    assert_eq!(parse("/provider list"), SlashCommand::Provider("list".into()));
    assert_eq!(parse("/provider add"), SlashCommand::Provider("add".into()));
    assert_eq!(parse("/provider use openai"), SlashCommand::Provider("use openai".into()));
    assert_eq!(parse("/provider edit anthropic"), SlashCommand::Provider("edit anthropic".into()));
    assert_eq!(parse("/provider remove ollama"), SlashCommand::Provider("remove ollama".into()));
}

#[test]
fn parse_provider_case_insensitive() {
    assert_eq!(parse("/PROVIDER"), SlashCommand::Provider(String::new()));
    assert_eq!(parse("/Provider List"), SlashCommand::Provider("List".into()));
}

#[test]
fn parse_skill_no_arg_is_list() {
    assert_eq!(parse("/skill"), SlashCommand::Skill(String::new()));
    assert_eq!(parse("/skill   "), SlashCommand::Skill(String::new()));
}

#[test]
fn parse_skill_with_name() {
    assert_eq!(parse("/skill src-recon"), SlashCommand::Skill("src-recon".into()));
    assert_eq!(parse("/skill list"), SlashCommand::Skill("list".into()));
}

#[test]
fn parse_mcp_no_arg() {
    assert_eq!(parse("/mcp"), SlashCommand::Mcp(String::new()));
}

#[test]
fn parse_mcp_with_subcommand() {
    assert_eq!(parse("/mcp list"), SlashCommand::Mcp("list".into()));
    assert_eq!(parse("/mcp status"), SlashCommand::Mcp("status".into()));
}

#[test]
fn filter_empty_prefix_returns_all() {
    let all = filter_commands("/");
    assert_eq!(all.len(), commands().len());
}

#[test]
fn filter_specific_prefix() {
    let m = filter_commands("/mo");
    let names: Vec<&str> = m.iter().map(|c| c.name).collect();
    assert_eq!(names, vec!["/mode", "/model"]);
}

#[test]
fn filter_case_insensitive() {
    let m = filter_commands("/HELP");
    assert_eq!(m.len(), 1);
    assert_eq!(m[0].name, "/help");
}

#[test]
fn filter_no_match_returns_empty() {
    assert!(filter_commands("/zzz").is_empty());
}

#[test]
fn filter_full_name_matches_single() {
    let m = filter_commands("/clear");
    assert_eq!(m.len(), 1);
    assert_eq!(m[0].name, "/clear");
}

#[test]
fn commands_catalog_covers_all_parsed_commands() {
    let all = commands();
    for name in [
        "/help", "/clear", "/mode", "/model", "/provider", "/tools", "/skill", "/mcp", "/cancel",
        "/compact", "/max_steps", "/think", "/new", "/sessions", "/quit",
    ] {
        assert!(all.iter().any(|c| c.name == name), "catalogue should contain {name}");
    }
}

#[test]
fn param_suggestions_for_known_commands() {
    assert_eq!(param_suggestions("/think"), vec!["low", "middle", "high", "max", "auto"]);
    assert_eq!(param_suggestions("/ctf"), vec!["enable", "disable", "add", "list", "writeup"]);
    assert_eq!(param_suggestions("/mode"), vec!["chat", "workflow", "dashboard"]);
    assert_eq!(param_suggestions("/provider"), vec!["list", "add", "edit", "use", "remove"]);
    assert_eq!(param_suggestions("/sessions"), vec!["list", "read", "new"]);
    assert_eq!(param_suggestions("/mcp"), vec!["list", "status"]);
    assert_eq!(param_suggestions("/skill"), vec!["list"]);
}

#[test]
fn param_suggestions_empty_for_paramless_commands() {
    assert!(param_suggestions("/help").is_empty());
    assert!(param_suggestions("/clear").is_empty());
    assert!(param_suggestions("/quit").is_empty());
    assert!(param_suggestions("/model").is_empty());
    assert!(param_suggestions("/max_steps").is_empty());
    assert!(param_suggestions("/compact").is_empty());
    assert!(param_suggestions("/unknown").is_empty());
}

#[test]
fn parse_sessions_no_arg() {
    assert_eq!(parse("/sessions"), SlashCommand::Sessions(String::new()));
}

#[test]
fn parse_sessions_with_subcommand() {
    assert_eq!(parse("/sessions list"), SlashCommand::Sessions("list".into()));
    assert_eq!(parse("/sessions read abc"), SlashCommand::Sessions("read abc".into()));
    assert_eq!(parse("/sessions new"), SlashCommand::Sessions("new".into()));
}

#[test]
fn split_command_separates_word_and_trimmed_args() {
    assert_eq!(split_command("  /Mode   chat  "), ("/Mode".to_string(), "chat".to_string()));
    assert_eq!(split_command("/x\ta b"), ("/x".to_string(), "a b".to_string()));
    assert_eq!(split_command("   "), (String::new(), String::new()));
}

#[test]
fn classify_uses_lowered_word_and_keeps_raw_for_unknown() {
    assert_eq!(classify_command("/think", "/THINK", "max"), SlashCommand::Think("max".into()));
    assert_eq!(classify_command("/nope", "/NoPe", "x"), SlashCommand::Unknown("/NoPe".into()));
}

#[test]
fn prefix_filter_is_case_sensitive_on_lowered_input() {
    assert!(commands_with_prefix("/HE").is_empty());
    assert_eq!(commands_with_prefix("/he").len(), 1);
    assert_eq!(commands_with_prefix("").len(), commands().len());
}

#[test]
fn parse_ignores_surrounding_and_repeated_whitespace() {
    assert_eq!(parse("/compact   "), SlashCommand::Compact(String::new()));
    assert_eq!(parse("  /compact"), SlashCommand::Compact(String::new()));
    assert_eq!(parse("/memory add 记住这个"), SlashCommand::Memory("add 记住这个".into()));
    assert_eq!(parse("/memory \t  add 记住这个  "), SlashCommand::Memory("add 记住这个".into()));
}
