//! Slash commands typed into the chat input.
//!
//! A line that starts with `/` is a command, not a message. The command word
//! is matched case-insensitively (`/HELP` is `/help`); the argument text is
//! kept as typed, trimmed. Unknown words become `Unknown` with the word as
//! typed. The catalogue `commands()` is the single source of the names,
//! usages and descriptions shown in the completion menu and in `/help`.
use vstd::prelude::*;

use crate::chat::input::lemma_trim_ends;
use crate::text::{
    chars_eq_str, chars_range, first_ws, first_ws_index, is_ws, lemma_first_ws_after_word,
    lemma_first_ws_bound, lemma_trim_commute, lemma_trim_end_all_ws, lemma_trim_end_concat,
    lemma_trim_idem, lemma_trim_start_keeps_last, lemma_trim_start_ws_prefix, starts_with,
    starts_with_at, str_chars, string_from_range, trim, trim_bounds, trim_end, trim_start,
};

verus! {

broadcast use vstd::string::group_string_axioms;

/// One entry of the command catalogue.
#[derive(Debug, Clone, Copy, PartialEq, Eq)]
pub struct CommandSpec {
    /// Command name with its `/`, lower case (`/mode`).
    pub name: &'static str,
    /// Usage with argument placeholders (`/mode <name>`).
    pub usage: &'static str,
    /// Short description.
    pub desc: &'static str,
}

/// The catalogue, in menu order.
pub open spec fn spec_commands() -> Seq<CommandSpec> {
    seq![
        CommandSpec { name: "/help", usage: "/help", desc: "显示此帮助" },
        CommandSpec { name: "/clear", usage: "/clear", desc: "清空对话历史" },
        CommandSpec { name: "/mode", usage: "/mode <name>", desc: "切换模式（chat / workflow / dashboard）" },
        CommandSpec {
            name: "/model",
            usage: "/model [provider]",
            desc: "打开面板选择 provider + model（带 provider 参数则直接切换）",
        },
        CommandSpec {
            name: "/provider",
            usage: "/provider <sub>",
            desc: "管理服务商：list | add | edit <name> | use <name> | remove <name>",
        },
        CommandSpec { name: "/tools", usage: "/tools", desc: "列出可用工具" },
        CommandSpec { name: "/skill", usage: "/skill <name|list>", desc: "查看 Skill 详细说明（list 列出全部）" },
        CommandSpec { name: "/mcp", usage: "/mcp <list|status>", desc: "查看 MCP server 连接状态" },
        CommandSpec { name: "/cancel", usage: "/cancel", desc: "取消当前生成" },
        CommandSpec {
            name: "/compact",
            usage: "/compact [instructions]",
            desc: "手动压缩上下文（可选自定义摘要指令）",
        },
        CommandSpec {
            name: "/ctf",
            usage: "/ctf <enable|disable|add|list|writeup>",
            desc: "CTF 模式管理（enable/disable 开关，add 添加题目，list 列出，writeup 生成报告）",
        },
        CommandSpec { name: "/max_steps", usage: "/max_steps <N>", desc: "查看或设置工具调用步数上限（1-1000）" },
        CommandSpec { name: "/think", usage: "/think [low|middle|high|max|auto]", desc: "查看或设置思考强度" },
        CommandSpec { name: "/new", usage: "/new", desc: "新建会话" },
        CommandSpec {
            name: "/sessions",
            usage: "/sessions <list|read <id|关键词>|new>",
            desc: "会话管理：list 面板 / read 跨会话读取 / new 新建",
        },
        CommandSpec {
            name: "/memory",
            usage: "/memory [list|add <text>|project <text>]",
            desc: "用户记忆：list 查看 / add 追加全局 / project 追加项目级",
        },
        CommandSpec { name: "/quit", usage: "/quit", desc: "退出 Cyber Master" },
    ]
}

/// The command catalogue, in menu order.
pub fn commands() -> (r: Vec<CommandSpec>)
    ensures
        r@ == spec_commands(),
{
    let mut v: Vec<CommandSpec> = Vec::new();
    v.push(CommandSpec { name: "/help", usage: "/help", desc: "显示此帮助" });
    v.push(CommandSpec { name: "/clear", usage: "/clear", desc: "清空对话历史" });
    v.push(CommandSpec { name: "/mode", usage: "/mode <name>", desc: "切换模式（chat / workflow / dashboard）" });
    v.push(
        CommandSpec {
            name: "/model",
            usage: "/model [provider]",
            desc: "打开面板选择 provider + model（带 provider 参数则直接切换）",
        },
    );
    v.push(
        CommandSpec {
            name: "/provider",
            usage: "/provider <sub>",
            desc: "管理服务商：list | add | edit <name> | use <name> | remove <name>",
        },
    );
    v.push(CommandSpec { name: "/tools", usage: "/tools", desc: "列出可用工具" });
    v.push(CommandSpec { name: "/skill", usage: "/skill <name|list>", desc: "查看 Skill 详细说明（list 列出全部）" });
    v.push(CommandSpec { name: "/mcp", usage: "/mcp <list|status>", desc: "查看 MCP server 连接状态" });
    v.push(CommandSpec { name: "/cancel", usage: "/cancel", desc: "取消当前生成" });
    v.push(
        CommandSpec {
            name: "/compact",
            usage: "/compact [instructions]",
            desc: "手动压缩上下文（可选自定义摘要指令）",
        },
    );
    v.push(
        CommandSpec {
            name: "/ctf",
            usage: "/ctf <enable|disable|add|list|writeup>",
            desc: "CTF 模式管理（enable/disable 开关，add 添加题目，list 列出，writeup 生成报告）",
        },
    );
    v.push(CommandSpec { name: "/max_steps", usage: "/max_steps <N>", desc: "查看或设置工具调用步数上限（1-1000）" });
    v.push(CommandSpec { name: "/think", usage: "/think [low|middle|high|max|auto]", desc: "查看或设置思考强度" });
    v.push(CommandSpec { name: "/new", usage: "/new", desc: "新建会话" });
    v.push(
        CommandSpec {
            name: "/sessions",
            usage: "/sessions <list|read <id|关键词>|new>",
            desc: "会话管理：list 面板 / read 跨会话读取 / new 新建",
        },
    );
    v.push(
        CommandSpec {
            name: "/memory",
            usage: "/memory [list|add <text>|project <text>]",
            desc: "用户记忆：list 查看 / add 追加全局 / project 追加项目级",
        },
    );
    v.push(CommandSpec { name: "/quit", usage: "/quit", desc: "退出 Cyber Master" });
    assert(v@ =~= spec_commands());
    v
}

/// What `str::to_lowercase` returns for `s` (Unicode lower-case mapping).
pub uninterp spec fn lowercase(s: Seq<char>) -> Seq<char>;

/// A character's ASCII lower case: `A`..`Z` become `a`..`z`, any other
/// character stays.
pub open spec fn ascii_lower(c: char) -> char {
    if 'A' <= c && c <= 'Z' {
        ((c as u32) + 32) as char
    } else {
        c
    }
}

/// Every character of `s` is ASCII.
pub open spec fn all_ascii(s: Seq<char>) -> bool {
    forall|i: int| 0 <= i < s.len() ==> (s[i] as u32) < 128
}

/// Calls `str::to_lowercase`; its result is named `lowercase` of the input.
/// The Unicode lower-case mapping sends the ASCII capitals to the ASCII small
/// letters and leaves every other ASCII character alone, so on ASCII text
/// the result is the text with `ascii_lower` applied to each character.
#[verifier::external_body]
pub(crate) fn to_lowercase(s: &str) -> (r: String)
    ensures
        r@ == lowercase(s@),
        all_ascii(s@) ==> r@ == s@.map_values(|c: char| ascii_lower(c)),
{
    s.to_lowercase()
}

/// The catalogue entries whose name starts with `p`.
pub open spec fn commands_matching(p: Seq<char>) -> Seq<CommandSpec> {
    spec_commands().filter(|c: CommandSpec| starts_with(c.name@, p))
}

/// The catalogue entries whose name starts with `p` (already lower case), in
/// catalogue order.
pub fn commands_with_prefix(p: &str) -> (r: Vec<CommandSpec>)
    ensures
        r@ == commands_matching(p@),
{
    let all = commands();
    let pv = str_chars(p);
    let ghost pred = |c: CommandSpec| starts_with(c.name@, p@);
    let mut out: Vec<CommandSpec> = Vec::new();
    let mut i: usize = 0;
    while i < all.len()
        invariant
            i <= all@.len(),
            all@ == spec_commands(),
            pv@ == p@,
            pred == (|c: CommandSpec| starts_with(c.name@, p@)),
            out@ == all@.take(i as int).filter(pred),
        decreases all@.len() - i,
    {
        let c = all[i];
        let nv = str_chars(c.name);
        let m = starts_with_at(&nv, 0, &pv);
        proof {
            assert(nv@.skip(0) =~= nv@);
            reveal_with_fuel(Seq::<_>::filter, 1);
            assert(all@.take(i + 1).drop_last() =~= all@.take(i as int));
        }
        if m {
            out.push(c);
        }
        i = i + 1;
    }
    assert(all@.take(all@.len() as int) =~= all@);
    out
}

/// Catalogue entries whose name starts with `prefix`, compared case-insensitively
/// (the prefix is lower-cased first).
pub fn filter_commands(prefix: &str) -> (r: Vec<CommandSpec>)
    ensures
        r@ == commands_matching(lowercase(prefix@)),
{
    let p = to_lowercase(prefix);
    commands_with_prefix(p.as_str())
}

/// The fixed argument choices of a command, for second-level completion.
pub open spec fn spec_param_suggestions(cmd: Seq<char>) -> Seq<&'static str> {
    if cmd == "/think"@ {
        seq!["low", "middle", "high", "max", "auto"]
    } else if cmd == "/ctf"@ {
        seq!["enable", "disable", "add", "list", "writeup"]
    } else if cmd == "/mode"@ {
        seq!["chat", "workflow", "dashboard"]
    } else if cmd == "/provider"@ {
        seq!["list", "add", "edit", "use", "remove"]
    } else if cmd == "/sessions"@ {
        seq!["list", "read", "new"]
    } else if cmd == "/memory"@ {
        seq!["list", "add", "project"]
    } else if cmd == "/mcp"@ {
        seq!["list", "status"]
    } else if cmd == "/skill"@ {
        seq!["list"]
    } else {
        seq![]
    }
}

/// The fixed argument choices of `cmd` (empty for commands without a fixed set).
pub fn param_suggestions(cmd: &str) -> (r: Vec<&'static str>)
    ensures
        r@ == spec_param_suggestions(cmd@),
{
    let c = str_chars(cmd);
    let mut v: Vec<&'static str> = Vec::new();
    if chars_eq_str(&c, "/think") {
        v.push("low");
        v.push("middle");
        v.push("high");
        v.push("max");
        v.push("auto");
    } else if chars_eq_str(&c, "/ctf") {
        v.push("enable");
        v.push("disable");
        v.push("add");
        v.push("list");
        v.push("writeup");
    } else if chars_eq_str(&c, "/mode") {
        v.push("chat");
        v.push("workflow");
        v.push("dashboard");
    } else if chars_eq_str(&c, "/provider") {
        v.push("list");
        v.push("add");
        v.push("edit");
        v.push("use");
        v.push("remove");
    } else if chars_eq_str(&c, "/sessions") {
        v.push("list");
        v.push("read");
        v.push("new");
    } else if chars_eq_str(&c, "/memory") {
        v.push("list");
        v.push("add");
        v.push("project");
    } else if chars_eq_str(&c, "/mcp") {
        v.push("list");
        v.push("status");
    } else if chars_eq_str(&c, "/skill") {
        v.push("list");
    }
    assert(v@ =~= spec_param_suggestions(cmd@));
    v
}

/// A parsed slash command.
#[derive(Debug, Clone, PartialEq, Eq)]
pub enum SlashCommand {
    Help,
    Clear,
    Mode(String),
    Model(String),
    Provider(String),
    Tools,
    Skill(String),
    Mcp(String),
    Cancel,
    Compact(String),
    Ctf(String),
    MaxSteps(String),
    Think(String),
    New,
    Sessions(String),
    Memory(String),
    Quit,
    /// Unknown command, with the word as typed.
    Unknown(String),
}

/// The abstract value of a `SlashCommand`: its variant and text.
pub enum CommandView {
    Help,
    Clear,
    Mode(Seq<char>),
    Model(Seq<char>),
    Provider(Seq<char>),
    Tools,
    Skill(Seq<char>),
    Mcp(Seq<char>),
    Cancel,
    Compact(Seq<char>),
    Ctf(Seq<char>),
    MaxSteps(Seq<char>),
    Think(Seq<char>),
    New,
    Sessions(Seq<char>),
    Memory(Seq<char>),
    Quit,
    Unknown(Seq<char>),
}

impl View for SlashCommand {
    type V = CommandView;

    open spec fn view(&self) -> CommandView {
        match self {
            SlashCommand::Help => CommandView::Help,
            SlashCommand::Clear => CommandView::Clear,
            SlashCommand::Mode(a) => CommandView::Mode(a@),
            SlashCommand::Model(a) => CommandView::Model(a@),
            SlashCommand::Provider(a) => CommandView::Provider(a@),
            SlashCommand::Tools => CommandView::Tools,
            SlashCommand::Skill(a) => CommandView::Skill(a@),
            SlashCommand::Mcp(a) => CommandView::Mcp(a@),
            SlashCommand::Cancel => CommandView::Cancel,
            SlashCommand::Compact(a) => CommandView::Compact(a@),
            SlashCommand::Ctf(a) => CommandView::Ctf(a@),
            SlashCommand::MaxSteps(a) => CommandView::MaxSteps(a@),
            SlashCommand::Think(a) => CommandView::Think(a@),
            SlashCommand::New => CommandView::New,
            SlashCommand::Sessions(a) => CommandView::Sessions(a@),
            SlashCommand::Memory(a) => CommandView::Memory(a@),
            SlashCommand::Quit => CommandView::Quit,
            SlashCommand::Unknown(a) => CommandView::Unknown(a@),
        }
    }
}

/// The command named by the lower-cased word `cmd`; `raw` is the word as
/// typed (kept for `Unknown`), `args` the trimmed argument text.
pub open spec fn classify(cmd: Seq<char>, raw: Seq<char>, args: Seq<char>) -> CommandView {
    if cmd == "/help"@ {
        CommandView::Help
    } else if cmd == "/clear"@ {
        CommandView::Clear
    } else if cmd == "/mode"@ {
        CommandView::Mode(args)
    } else if cmd == "/model"@ {
        CommandView::Model(args)
    } else if cmd == "/provider"@ {
        CommandView::Provider(args)
    } else if cmd == "/tools"@ {
        CommandView::Tools
    } else if cmd == "/skill"@ {
        CommandView::Skill(args)
    } else if cmd == "/mcp"@ {
        CommandView::Mcp(args)
    } else if cmd == "/cancel"@ {
        CommandView::Cancel
    } else if cmd == "/compact"@ {
        CommandView::Compact(args)
    } else if cmd == "/ctf"@ {
        CommandView::Ctf(args)
    } else if cmd == "/max_steps"@ {
        CommandView::MaxSteps(args)
    } else if cmd == "/think"@ {
        CommandView::Think(args)
    } else if cmd == "/new"@ {
        CommandView::New
    } else if cmd == "/sessions"@ {
        CommandView::Sessions(args)
    } else if cmd == "/memory"@ {
        CommandView::Memory(args)
    } else if cmd == "/quit"@ {
        CommandView::Quit
    } else {
        CommandView::Unknown(raw)
    }
}

/// The command word of a line: the trimmed line up to its first whitespace.
pub open spec fn command_word(line: Seq<char>) -> Seq<char> {
    let t = trim(line);
    t.take(first_ws(t) as int)
}

/// The argument text of a line: what follows the whitespace after the
/// command word, trimmed; empty when there is none.
pub open spec fn command_args(line: Seq<char>) -> Seq<char> {
    let t = trim(line);
    let k = first_ws(t);
    if k < t.len() {
        trim(t.skip(k as int + 1))
    } else {
        Seq::empty()
    }
}

/// What `parse` returns for `line`.
pub open spec fn spec_parse(line: Seq<char>) -> CommandView {
    classify(lowercase(command_word(line)), command_word(line), command_args(line))
}

/// Splits a line into its command word and its trimmed argument text.
pub fn split_command(line: &str) -> (r: (String, String))
    ensures
        r.0@ == command_word(line@),
        r.1@ == command_args(line@),
{
    let v = str_chars(line);
    let (a, b) = trim_bounds(&v);
    let ghost t = v@.subrange(a as int, b as int);
    let tv = chars_range(&v, a, b);
    let k = first_ws_index(&tv, 0);
    assert(tv@.skip(0) =~= tv@);
    proof {
        lemma_first_ws_bound(t);
    }
    let word = string_from_range(&tv, 0, k);
    assert(tv@.subrange(0, k as int) =~= t.take(k as int));
    if k < tv.len() {
        let rest = chars_range(&tv, k + 1, tv.len());
        assert(rest@ =~= t.skip(k + 1));
        let (c, d) = trim_bounds(&rest);
        let args = string_from_range(&rest, c, d);
        (word, args)
    } else {
        (word, String::new())
    }
}

/// The command for a lower-cased word `cmd`, the word as typed `raw` and
/// the argument text `args`.
pub fn classify_command(cmd: &str, raw: &str, args: &str) -> (r: SlashCommand)
    ensures
        r@ == classify(cmd@, raw@, args@),
{
    let c = str_chars(cmd);
    let a = args.to_owned();
    if chars_eq_str(&c, "/help") {
        SlashCommand::Help
    } else if chars_eq_str(&c, "/clear") {
        SlashCommand::Clear
    } else if chars_eq_str(&c, "/mode") {
        SlashCommand::Mode(a)
    } else if chars_eq_str(&c, "/model") {
        SlashCommand::Model(a)
    } else if chars_eq_str(&c, "/provider") {
        SlashCommand::Provider(a)
    } else if chars_eq_str(&c, "/tools") {
        SlashCommand::Tools
    } else if chars_eq_str(&c, "/skill") {
        SlashCommand::Skill(a)
    } else if chars_eq_str(&c, "/mcp") {
        SlashCommand::Mcp(a)
    } else if chars_eq_str(&c, "/cancel") {
        SlashCommand::Cancel
    } else if chars_eq_str(&c, "/compact") {
        SlashCommand::Compact(a)
    } else if chars_eq_str(&c, "/ctf") {
        SlashCommand::Ctf(a)
    } else if chars_eq_str(&c, "/max_steps") {
        SlashCommand::MaxSteps(a)
    } else if chars_eq_str(&c, "/think") {
        SlashCommand::Think(a)
    } else if chars_eq_str(&c, "/new") {
        SlashCommand::New
    } else if chars_eq_str(&c, "/sessions") {
        SlashCommand::Sessions(a)
    } else if chars_eq_str(&c, "/memory") {
        SlashCommand::Memory(a)
    } else if chars_eq_str(&c, "/quit") {
        SlashCommand::Quit
    } else {
        SlashCommand::Unknown(raw.to_owned())
    }
}

/// Parses one input line as a slash command (the caller has checked that it
/// starts with `/`; other text comes back as `Unknown`). An ASCII command
/// word is matched in ASCII lower case.
pub fn parse(line: &str) -> (r: SlashCommand)
    ensures
        r@ == spec_parse(line@),
        all_ascii(command_word(line@)) ==> r@ == classify(
            command_word(line@).map_values(|c: char| ascii_lower(c)),
            command_word(line@),
            command_args(line@),
        ),
{
    let (word, args) = split_command(line);
    let cmd = to_lowercase(word.as_str());
    classify_command(cmd.as_str(), word.as_str(), args.as_str())
}

/// Lines that differ only in the letter case of a known command word, with
/// the same argument text, parse to the same command.
pub proof fn lemma_parse_ignores_command_case(a: Seq<char>, b: Seq<char>)
    requires
        lowercase(command_word(a)) == lowercase(command_word(b)),
        command_args(a) == command_args(b),
        !(spec_parse(a) is Unknown),
    ensures
        spec_parse(a) == spec_parse(b),
{
}

/// The catalogue name of the command `v` stands for (empty for an unknown
/// command).
pub open spec fn command_name(v: CommandView) -> Seq<char> {
    match v {
        CommandView::Help => "/help"@,
        CommandView::Clear => "/clear"@,
        CommandView::Mode(_) => "/mode"@,
        CommandView::Model(_) => "/model"@,
        CommandView::Provider(_) => "/provider"@,
        CommandView::Tools => "/tools"@,
        CommandView::Skill(_) => "/skill"@,
        CommandView::Mcp(_) => "/mcp"@,
        CommandView::Cancel => "/cancel"@,
        CommandView::Compact(_) => "/compact"@,
        CommandView::Ctf(_) => "/ctf"@,
        CommandView::MaxSteps(_) => "/max_steps"@,
        CommandView::Think(_) => "/think"@,
        CommandView::New => "/new"@,
        CommandView::Sessions(_) => "/sessions"@,
        CommandView::Memory(_) => "/memory"@,
        CommandView::Quit => "/quit"@,
        CommandView::Unknown(_) => Seq::empty(),
    }
}

/// The argument text that command `v` carries, if it is one that takes
/// arguments.
pub open spec fn command_arg(v: CommandView) -> Option<Seq<char>> {
    match v {
        CommandView::Mode(a) => Some(a),
        CommandView::Model(a) => Some(a),
        CommandView::Provider(a) => Some(a),
        CommandView::Skill(a) => Some(a),
        CommandView::Mcp(a) => Some(a),
        CommandView::Compact(a) => Some(a),
        CommandView::Ctf(a) => Some(a),
        CommandView::MaxSteps(a) => Some(a),
        CommandView::Think(a) => Some(a),
        CommandView::Sessions(a) => Some(a),
        CommandView::Memory(a) => Some(a),
        _ => None,
    }
}

/// Every command of the catalogue is recognised by its name: the command
/// word `name` gives the command of that name, never an unknown one, and it
/// carries the argument text exactly when the catalogue's usage shows
/// arguments.
pub proof fn lemma_catalogue_commands_recognised(i: int, raw: Seq<char>, args: Seq<char>)
    requires
        0 <= i < spec_commands().len(),
    ensures
        ({
            let c = spec_commands()[i];
            let v = classify(c.name@, raw, args);
            &&& !(v is Unknown)
            &&& command_name(v) == c.name@
            &&& command_arg(v) == (if c.usage@ == c.name@ {
                None
            } else {
                Some(args)
            })
        }),
{
    reveal_strlit("/help");
    reveal_strlit("/clear");
    reveal_strlit("/mode");
    reveal_strlit("/model");
    reveal_strlit("/provider");
    reveal_strlit("/tools");
    reveal_strlit("/skill");
    reveal_strlit("/mcp");
    reveal_strlit("/cancel");
    reveal_strlit("/compact");
    reveal_strlit("/ctf");
    reveal_strlit("/max_steps");
    reveal_strlit("/think");
    reveal_strlit("/new");
    reveal_strlit("/sessions");
    reveal_strlit("/memory");
    reveal_strlit("/quit");
    reveal_strlit("/mode <name>");
    reveal_strlit("/model [provider]");
    reveal_strlit("/provider <sub>");
    reveal_strlit("/skill <name|list>");
    reveal_strlit("/mcp <list|status>");
    reveal_strlit("/compact [instructions]");
    reveal_strlit("/ctf <enable|disable|add|list|writeup>");
    reveal_strlit("/max_steps <N>");
    reveal_strlit("/think [low|middle|high|max|auto]");
    reveal_strlit("/sessions <list|read <id|关键词>|new>");
    reveal_strlit("/memory [list|add <text>|project <text>]");
    let cs = spec_commands();
    assert(cs.len() == 17);
    if i == 0 {
        assert(cs[0].name@ == "/help"@);
        assert(classify("/help"@, raw, args) == CommandView::Help);
        assert(cs[0].usage@ == "/help"@);
    } else if i == 1 {
        assert(cs[1].name@ == "/clear"@);
        assert("/clear"@.len() != "/help"@.len());
        assert(classify("/clear"@, raw, args) == CommandView::Clear);
        assert(cs[1].usage@ == "/clear"@);
    } else if i == 2 {
        assert(cs[2].name@ == "/mode"@);
        assert("/mode"@[1] != "/help"@[1]);
        assert("/mode"@.len() != "/clear"@.len());
        assert(classify("/mode"@, raw, args) == CommandView::Mode(args));
        assert(cs[2].usage@ == "/mode <name>"@);
        assert("/mode <name>"@.len() != "/mode"@.len());
    } else if i == 3 {
        assert(cs[3].name@ == "/model"@);
        assert("/model"@.len() != "/help"@.len());
        assert("/model"@[1] != "/clear"@[1]);
        assert("/model"@.len() != "/mode"@.len());
        assert(classify("/model"@, raw, args) == CommandView::Model(args));
        assert(cs[3].usage@ == "/model [provider]"@);
        assert("/model [provider]"@.len() != "/model"@.len());
    } else if i == 4 {
        assert(cs[4].name@ == "/provider"@);
        assert("/provider"@.len() != "/help"@.len());
        assert("/provider"@.len() != "/clear"@.len());
        assert("/provider"@.len() != "/mode"@.len());
        assert("/provider"@.len() != "/model"@.len());
        assert(classify("/provider"@, raw, args) == CommandView::Provider(args));
        assert(cs[4].usage@ == "/provider <sub>"@);
        assert("/provider <sub>"@.len() != "/provider"@.len());
    } else if i == 5 {
        assert(cs[5].name@ == "/tools"@);
        assert("/tools"@.len() != "/help"@.len());
        assert("/tools"@[1] != "/clear"@[1]);
        assert("/tools"@.len() != "/mode"@.len());
        assert("/tools"@[1] != "/model"@[1]);
        assert("/tools"@.len() != "/provider"@.len());
        assert(classify("/tools"@, raw, args) == CommandView::Tools);
        assert(cs[5].usage@ == "/tools"@);
    } else if i == 6 {
        assert(cs[6].name@ == "/skill"@);
        assert("/skill"@.len() != "/help"@.len());
        assert("/skill"@[1] != "/clear"@[1]);
        assert("/skill"@.len() != "/mode"@.len());
        assert("/skill"@[1] != "/model"@[1]);
        assert("/skill"@.len() != "/provider"@.len());
        assert("/skill"@[1] != "/tools"@[1]);
        assert(classify("/skill"@, raw, args) == CommandView::Skill(args));
        assert(cs[6].usage@ == "/skill <name|list>"@);
        assert("/skill <name|list>"@.len() != "/skill"@.len());
    } else if i == 7 {
        assert(cs[7].name@ == "/mcp"@);
        assert("/mcp"@.len() != "/help"@.len());
        assert("/mcp"@.len() != "/clear"@.len());
        assert("/mcp"@.len() != "/mode"@.len());
        assert("/mcp"@.len() != "/model"@.len());
        assert("/mcp"@.len() != "/provider"@.len());
        assert("/mcp"@.len() != "/tools"@.len());
        assert("/mcp"@.len() != "/skill"@.len());
        assert(classify("/mcp"@, raw, args) == CommandView::Mcp(args));
        assert(cs[7].usage@ == "/mcp <list|status>"@);
        assert("/mcp <list|status>"@.len() != "/mcp"@.len());
    } else if i == 8 {
        assert(cs[8].name@ == "/cancel"@);
        assert("/cancel"@.len() != "/help"@.len());
        assert("/cancel"@.len() != "/clear"@.len());
        assert("/cancel"@.len() != "/mode"@.len());
        assert("/cancel"@.len() != "/model"@.len());
        assert("/cancel"@.len() != "/provider"@.len());
        assert("/cancel"@.len() != "/tools"@.len());
        assert("/cancel"@.len() != "/skill"@.len());
        assert("/cancel"@.len() != "/mcp"@.len());
        assert(classify("/cancel"@, raw, args) == CommandView::Cancel);
        assert(cs[8].usage@ == "/cancel"@);
    } else if i == 9 {
        assert(cs[9].name@ == "/compact"@);
        assert("/compact"@.len() != "/help"@.len());
        assert("/compact"@.len() != "/clear"@.len());
        assert("/compact"@.len() != "/mode"@.len());
        assert("/compact"@.len() != "/model"@.len());
        assert("/compact"@.len() != "/provider"@.len());
        assert("/compact"@.len() != "/tools"@.len());
        assert("/compact"@.len() != "/skill"@.len());
        assert("/compact"@.len() != "/mcp"@.len());
        assert("/compact"@.len() != "/cancel"@.len());
        assert(classify("/compact"@, raw, args) == CommandView::Compact(args));
        assert(cs[9].usage@ == "/compact [instructions]"@);
        assert("/compact [instructions]"@.len() != "/compact"@.len());
    } else if i == 10 {
        assert(cs[10].name@ == "/ctf"@);
        assert("/ctf"@.len() != "/help"@.len());
        assert("/ctf"@.len() != "/clear"@.len());
        assert("/ctf"@.len() != "/mode"@.len());
        assert("/ctf"@.len() != "/model"@.len());
        assert("/ctf"@.len() != "/provider"@.len());
        assert("/ctf"@.len() != "/tools"@.len());
        assert("/ctf"@.len() != "/skill"@.len());
        assert("/ctf"@[1] != "/mcp"@[1]);
        assert("/ctf"@.len() != "/cancel"@.len());
        assert("/ctf"@.len() != "/compact"@.len());
        assert(classify("/ctf"@, raw, args) == CommandView::Ctf(args));
        assert(cs[10].usage@ == "/ctf <enable|disable|add|list|writeup>"@);
        assert("/ctf <enable|disable|add|list|writeup>"@.len() != "/ctf"@.len());
    } else if i == 11 {
        assert(cs[11].name@ == "/max_steps"@);
        assert("/max_steps"@.len() != "/help"@.len());
        assert("/max_steps"@.len() != "/clear"@.len());
        assert("/max_steps"@.len() != "/mode"@.len());
        assert("/max_steps"@.len() != "/model"@.len());
        assert("/max_steps"@.len() != "/provider"@.len());
        assert("/max_steps"@.len() != "/tools"@.len());
        assert("/max_steps"@.len() != "/skill"@.len());
        assert("/max_steps"@.len() != "/mcp"@.len());
        assert("/max_steps"@.len() != "/cancel"@.len());
        assert("/max_steps"@.len() != "/compact"@.len());
        assert("/max_steps"@.len() != "/ctf"@.len());
        assert(classify("/max_steps"@, raw, args) == CommandView::MaxSteps(args));
        assert(cs[11].usage@ == "/max_steps <N>"@);
        assert("/max_steps <N>"@.len() != "/max_steps"@.len());
    } else if i == 12 {
        assert(cs[12].name@ == "/think"@);
        assert("/think"@.len() != "/help"@.len());
        assert("/think"@[1] != "/clear"@[1]);
        assert("/think"@.len() != "/mode"@.len());
        assert("/think"@[1] != "/model"@[1]);
        assert("/think"@.len() != "/provider"@.len());
        assert("/think"@[2] != "/tools"@[2]);
        assert("/think"@[1] != "/skill"@[1]);
        assert("/think"@.len() != "/mcp"@.len());
        assert("/think"@.len() != "/cancel"@.len());
        assert("/think"@.len() != "/compact"@.len());
        assert("/think"@.len() != "/ctf"@.len());
        assert("/think"@.len() != "/max_steps"@.len());
        assert(classify("/think"@, raw, args) == CommandView::Think(args));
        assert(cs[12].usage@ == "/think [low|middle|high|max|auto]"@);
        assert("/think [low|middle|high|max|auto]"@.len() != "/think"@.len());
    } else if i == 13 {
        assert(cs[13].name@ == "/new"@);
        assert("/new"@.len() != "/help"@.len());
        assert("/new"@.len() != "/clear"@.len());
        assert("/new"@.len() != "/mode"@.len());
        assert("/new"@.len() != "/model"@.len());
        assert("/new"@.len() != "/provider"@.len());
        assert("/new"@.len() != "/tools"@.len());
        assert("/new"@.len() != "/skill"@.len());
        assert("/new"@[1] != "/mcp"@[1]);
        assert("/new"@.len() != "/cancel"@.len());
        assert("/new"@.len() != "/compact"@.len());
        assert("/new"@[1] != "/ctf"@[1]);
        assert("/new"@.len() != "/max_steps"@.len());
        assert("/new"@.len() != "/think"@.len());
        assert(classify("/new"@, raw, args) == CommandView::New);
        assert(cs[13].usage@ == "/new"@);
    } else if i == 14 {
        assert(cs[14].name@ == "/sessions"@);
        assert("/sessions"@.len() != "/help"@.len());
        assert("/sessions"@.len() != "/clear"@.len());
        assert("/sessions"@.len() != "/mode"@.len());
        assert("/sessions"@.len() != "/model"@.len());
        assert("/sessions"@[1] != "/provider"@[1]);
        assert("/sessions"@.len() != "/tools"@.len());
        assert("/sessions"@.len() != "/skill"@.len());
        assert("/sessions"@.len() != "/mcp"@.len());
        assert("/sessions"@.len() != "/cancel"@.len());
        assert("/sessions"@.len() != "/compact"@.len());
        assert("/sessions"@.len() != "/ctf"@.len());
        assert("/sessions"@.len() != "/max_steps"@.len());
        assert("/sessions"@.len() != "/think"@.len());
        assert("/sessions"@.len() != "/new"@.len());
        assert(classify("/sessions"@, raw, args) == CommandView::Sessions(args));
        assert(cs[14].usage@ == "/sessions <list|read <id|关键词>|new>"@);
        assert("/sessions <list|read <id|关键词>|new>"@.len() != "/sessions"@.len());
    } else if i == 15 {
        assert(cs[15].name@ == "/memory"@);
        assert("/memory"@.len() != "/help"@.len());
        assert("/memory"@.len() != "/clear"@.len());
        assert("/memory"@.len() != "/mode"@.len());
        assert("/memory"@.len() != "/model"@.len());
        assert("/memory"@.len() != "/provider"@.len());
        assert("/memory"@.len() != "/tools"@.len());
        assert("/memory"@.len() != "/skill"@.len());
        assert("/memory"@.len() != "/mcp"@.len());
        assert("/memory"@[1] != "/cancel"@[1]);
        assert("/memory"@.len() != "/compact"@.len());
        assert("/memory"@.len() != "/ctf"@.len());
        assert("/memory"@.len() != "/max_steps"@.len());
        assert("/memory"@.len() != "/think"@.len());
        assert("/memory"@.len() != "/new"@.len());
        assert("/memory"@.len() != "/sessions"@.len());
        assert(classify("/memory"@, raw, args) == CommandView::Memory(args));
        assert(cs[15].usage@ == "/memory [list|add <text>|project <text>]"@);
        assert("/memory [list|add <text>|project <text>]"@.len() != "/memory"@.len());
    } else {
        assert(cs[16].name@ == "/quit"@);
        assert("/quit"@[1] != "/help"@[1]);
        assert("/quit"@.len() != "/clear"@.len());
        assert("/quit"@[1] != "/mode"@[1]);
        assert("/quit"@.len() != "/model"@.len());
        assert("/quit"@.len() != "/provider"@.len());
        assert("/quit"@.len() != "/tools"@.len());
        assert("/quit"@.len() != "/skill"@.len());
        assert("/quit"@.len() != "/mcp"@.len());
        assert("/quit"@.len() != "/cancel"@.len());
        assert("/quit"@.len() != "/compact"@.len());
        assert("/quit"@.len() != "/ctf"@.len());
        assert("/quit"@.len() != "/max_steps"@.len());
        assert("/quit"@.len() != "/think"@.len());
        assert("/quit"@.len() != "/new"@.len());
        assert("/quit"@.len() != "/sessions"@.len());
        assert("/quit"@.len() != "/memory"@.len());
        assert(classify("/quit"@, raw, args) == CommandView::Quit);
        assert(cs[16].usage@ == "/quit"@);
    }
}

/// A command word that names no command of the catalogue gives an unknown
/// command carrying the word as typed.
pub proof fn lemma_other_words_unknown(cmd: Seq<char>, raw: Seq<char>, args: Seq<char>)
    requires
        forall|i: int| 0 <= i < spec_commands().len() ==> (#[trigger] spec_commands()[i]).name@ != cmd,
    ensures
        classify(cmd, raw, args) == CommandView::Unknown(raw),
{
    let cs = spec_commands();
    assert(cs[0].name@ != cmd);
    assert(cs[1].name@ != cmd);
    assert(cs[2].name@ != cmd);
    assert(cs[3].name@ != cmd);
    assert(cs[4].name@ != cmd);
    assert(cs[5].name@ != cmd);
    assert(cs[6].name@ != cmd);
    assert(cs[7].name@ != cmd);
    assert(cs[8].name@ != cmd);
    assert(cs[9].name@ != cmd);
    assert(cs[10].name@ != cmd);
    assert(cs[11].name@ != cmd);
    assert(cs[12].name@ != cmd);
    assert(cs[13].name@ != cmd);
    assert(cs[14].name@ != cmd);
    assert(cs[15].name@ != cmd);
    assert(cs[16].name@ != cmd);
}

/// A line whose command word, lower-cased, is the name of a catalogue
/// command parses to that command, with the line's trimmed argument text
/// when the command takes arguments.
pub proof fn lemma_parse_catalogue_command(line: Seq<char>, i: int)
    requires
        0 <= i < spec_commands().len(),
        lowercase(command_word(line)) == spec_commands()[i].name@,
    ensures
        ({
            let c = spec_commands()[i];
            let v = spec_parse(line);
            &&& !(v is Unknown)
            &&& command_name(v) == c.name@
            &&& command_arg(v) == (if c.usage@ == c.name@ {
                None
            } else {
                Some(command_args(line))
            })
        }),
{
    lemma_catalogue_commands_recognised(i, command_word(line), command_args(line));
}

/// Whitespace around a line does not change what it parses to.
pub proof fn lemma_parse_trims(line: Seq<char>)
    ensures
        spec_parse(trim(line)) == spec_parse(line),
{
    lemma_trim_idem(line);
}

/// The whitespace after the command word counts as one space, and the
/// argument text is taken trimmed: a word `c` without whitespace, a run `w`
/// of whitespace and any text `a` parse as `c`, one space and `a` trimmed.
pub proof fn lemma_parse_collapses_gap(c: Seq<char>, w: Seq<char>, a: Seq<char>)
    requires
        c.len() > 0,
        forall|i: int| 0 <= i < c.len() ==> !is_ws(#[trigger] c[i]),
        w.len() > 0,
        forall|i: int| 0 <= i < w.len() ==> is_ws(#[trigger] w[i]),
    ensures
        spec_parse(c + w + a) == spec_parse(c + " "@ + trim(a)),
{
    reveal_strlit(" ");
    let sp = " "@;
    assert(is_ws(sp[0]));
    let l1 = c + w + a;
    let l2 = c + sp + trim(a);
    let te = trim_end(a);
    let tr = trim(a);
    lemma_trim_commute(a);
    lemma_trim_ends(a);
    // the trimmed argument text is there exactly when the end-trimmed one is
    if te.len() > 0 {
        crate::chat::input::lemma_trim_end_last(a);
        lemma_trim_start_keeps_last(te);
    }
    // both lines start with the word
    assert(l1[0] == c[0]);
    assert(l2[0] == c[0]);
    assert(trim_start(l1) == l1);
    assert(trim_start(l2) == l2);
    // where they end
    assert(c + w + a =~= (c + w) + a);
    lemma_trim_end_concat(c + w, a);
    lemma_trim_end_concat(c, w);
    lemma_trim_end_all_ws(w);
    assert(trim_end(c) == c);
    assert(c + sp + tr =~= (c + sp) + tr);
    lemma_trim_end_concat(c + sp, tr);
    lemma_trim_end_concat(c, sp);
    lemma_trim_end_all_ws(sp);
    assert(trim_end(tr) == tr);
    let t1 = trim(l1);
    let t2 = trim(l2);
    if te.len() == 0 {
        assert(t1 == c);
        assert(t2 == c);
    } else {
        assert(t1 =~= c + (w + te));
        assert(t2 =~= c + (sp + tr));
        lemma_first_ws_after_word(c, w + te);
        lemma_first_ws_after_word(c, sp + tr);
        assert((w + te)[0] == w[0]);
        assert((sp + tr)[0] == sp[0]);
        assert(first_ws(t1) == c.len());
        assert(first_ws(t2) == c.len());
        assert(t1.take(c.len() as int) =~= c);
        assert(t2.take(c.len() as int) =~= c);
        let w1 = w.drop_first();
        assert(t1.skip(c.len() as int + 1) =~= w1 + te);
        assert(t2.skip(c.len() as int + 1) =~= tr);
        assert(forall|i: int| 0 <= i < w1.len() ==> w1[i] == w[i + 1]);
        lemma_trim_start_ws_prefix(w1, te);
        lemma_trim_idem(a);
        assert(trim(w1 + te) == tr);
        assert(command_args(l1) == command_args(l2));
        assert(command_word(l1) == command_word(l2));
    }
}

/// The text shown by `/help`.
pub const HELP_TEXT: &'static str = "可用斜杠命令：
  /help              显示此帮助
  /clear             清空对话历史
  /mode <name>       切换模式（chat / workflow / dashboard）
  /model [provider]  打开面板选择 provider + model（带 provider 参数则直接切换）
  /provider <sub>    管理服务商：list | add | edit <name> | use <name> | remove <name>
  /tools             列出可用工具
  /skill <name|list> 查看 Skill 详细说明（list 列出全部）
  /mcp <list|status> 查看 MCP server 连接状态
  /cancel            取消当前生成
  /compact [instr]   手动压缩上下文（可选自定义摘要指令）
  /max_steps <N>     查看或设置工具调用步数上限（1-1000）
  /think [level]     查看或设置思考强度（low / middle / high / max / auto）
  /new               新建会话
  /sessions <sub>    会话管理：list（面板）| read <id|关键词>（跨读）| new
  /memory <sub>      用户记忆：list 查看 | add <text> 全局 | project <text> 项目级
  /quit              退出 Cyber Master";

} // verus!
