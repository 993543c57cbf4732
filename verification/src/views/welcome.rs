//! The welcome screen: the brand, the entries to choose from, and the keys;
//! and the about page.
use vstd::prelude::*;

use crate::style::{append_lines, fg_style, lines_view, plain_style, Line, LineV, Span, SpanV, Style, BOLD};
use crate::text::push_str;
use crate::theme::Theme;

verus! {

broadcast use vstd::string::group_string_axioms;

/// Number of entries the welcome screen lists.
pub const WELCOME_ENTRIES: usize = 5;

/// Entry `i` of the welcome screen.
pub open spec fn welcome_entry(i: int) -> Seq<char> {
    if i == 0 {
        "新建项目  (New Project)"@
    } else if i == 1 {
        "打开工作流 (Open Workflow)"@
    } else if i == 2 {
        "进入聊天  (Enter Chat)"@
    } else if i == 3 {
        "设置      (Settings)"@
    } else {
        "关于      (About)"@
    }
}

/// The style of an entry, highlighted when selected.
pub open spec fn entry_style(selected: bool, theme: Theme) -> Style {
    if selected {
        Style { fg: Some(theme.sel_fg), bg: Some(theme.sel_bg), add_modifier: BOLD }
    } else {
        fg_style(theme.fg)
    }
}

/// The entries of the welcome screen, the selected one marked.
pub open spec fn spec_welcome_rows(selected: usize, theme: Theme) -> Seq<LineV> {
    Seq::new(
        5,
        |i: int|
            seq![
                (if i == selected { "▸  "@ } else { "   "@ }, entry_style(i == selected, theme)),
                (welcome_entry(i), entry_style(i == selected, theme)),
            ],
    )
}

/// The brand lines at the top of the welcome screen.
pub open spec fn spec_welcome_brand(theme: Theme) -> Seq<LineV> {
    seq![
        seq![
            ("◈  CYBER MASTER"@, Style { fg: Some(theme.accent), bg: None, add_modifier: BOLD }),
            ("  SECURITY WORKSPACE"@, fg_style(theme.muted)),
        ],
        seq![("Select a workspace to begin"@, Style { fg: None, bg: None, add_modifier: 0 })],
    ]
}

/// The key hint under the entries.
pub open spec fn spec_welcome_hint(theme: Theme) -> LineV {
    let a = Style { fg: Some(theme.accent), bg: None, add_modifier: BOLD };
    let m = fg_style(theme.muted);
    seq![
        ("↑↓"@, a),
        (" navigate   "@, m),
        ("Enter"@, a),
        (" select   "@, m),
        ("s"@, a),
        (" settings   "@, m),
        ("q"@, a),
        (" quit"@, m),
    ]
}

fn entry_text(i: usize) -> (r: &'static str)
    ensures
        r@ == welcome_entry(i as int),
{
    if i == 0 {
        "新建项目  (New Project)"
    } else if i == 1 {
        "打开工作流 (Open Workflow)"
    } else if i == 2 {
        "进入聊天  (Enter Chat)"
    } else if i == 3 {
        "设置      (Settings)"
    } else {
        "关于      (About)"
    }
}

fn span_of(t: &str, style: Style) -> (s: Span)
    ensures
        s@ == (t@, style),
{
    Span { content: t.to_owned(), style }
}

/// The entries of the welcome screen (see `spec_welcome_rows`).
pub fn welcome_rows(selected: usize, theme: &Theme) -> (r: Vec<Line>)
    ensures
        lines_view(r@) == spec_welcome_rows(selected, *theme),
{
    let ghost want = spec_welcome_rows(selected, *theme);
    let mut out: Vec<Line> = Vec::new();
    let mut i: usize = 0;
    while i < WELCOME_ENTRIES
        invariant
            i <= WELCOME_ENTRIES,
            want == spec_welcome_rows(selected, *theme),
            lines_view(out@) == want.take(i as int),
        decreases WELCOME_ENTRIES - i,
    {
        let on = i == selected;
        let style = if on {
            Style { fg: Some(theme.sel_fg), bg: Some(theme.sel_bg), add_modifier: BOLD }
        } else {
            Style { fg: Some(theme.fg), bg: None, add_modifier: 0 }
        };
        let mut v: Vec<Span> = Vec::new();
        v.push(span_of(if on { "▸  " } else { "   " }, style));
        v.push(span_of(entry_text(i), style));
        let l = Line { spans: v };
        assert(l@ =~= want[i as int]);
        let ghost before = out@;
        out.push(l);
        assert(lines_view(out@) =~= lines_view(before).push(l@));
        assert(want.take(i + 1) =~= want.take(i as int).push(want[i as int]));
        i = i + 1;
    }
    assert(want.take(5) =~= want);
    out
}

/// The brand lines (see `spec_welcome_brand`).
pub fn welcome_brand(theme: &Theme) -> (r: Vec<Line>)
    ensures
        lines_view(r@) == spec_welcome_brand(*theme),
{
    let mut first: Vec<Span> = Vec::new();
    first.push(span_of("◈  CYBER MASTER", Style { fg: Some(theme.accent), bg: None, add_modifier: BOLD }));
    first.push(span_of("  SECURITY WORKSPACE", Style { fg: Some(theme.muted), bg: None, add_modifier: 0 }));
    let mut second: Vec<Span> = Vec::new();
    second.push(span_of("Select a workspace to begin", Style { fg: None, bg: None, add_modifier: 0 }));
    let ghost want = spec_welcome_brand(*theme);
    let l1 = Line { spans: first };
    let l2 = Line { spans: second };
    assert(l1@ =~= want[0]);
    assert(l2@ =~= want[1]);
    let mut out: Vec<Line> = Vec::new();
    out.push(l1);
    out.push(l2);
    assert(lines_view(out@) =~= want);
    out
}

/// The key hint (see `spec_welcome_hint`).
pub fn welcome_hint(theme: &Theme) -> (r: Line)
    ensures
        r@ == spec_welcome_hint(*theme),
{
    let a = Style { fg: Some(theme.accent), bg: None, add_modifier: BOLD };
    let m = Style { fg: Some(theme.muted), bg: None, add_modifier: 0 };
    let mut v: Vec<Span> = Vec::new();
    v.push(span_of("↑↓", a));
    v.push(span_of(" navigate   ", m));
    v.push(span_of("Enter", a));
    v.push(span_of(" select   ", m));
    v.push(span_of("s", a));
    v.push(span_of(" settings   ", m));
    v.push(span_of("q", a));
    v.push(span_of(" quit", m));
    let l = Line { spans: v };
    assert(l@ =~= spec_welcome_hint(*theme));
    l
}

/// A line of two spans.
pub open spec fn pair(a: Seq<char>, sa: Style, b: Seq<char>, sb: Style) -> LineV {
    seq![(a, sa), (b, sb)]
}

/// Accent and bold.
pub open spec fn strong(theme: Theme) -> Style {
    Style { fg: Some(theme.accent), bg: None, add_modifier: BOLD }
}

/// A section title of the about page.
pub open spec fn about_title(t: Seq<char>, theme: Theme) -> LineV {
    seq![(t, Style { fg: Some(theme.title), bg: None, add_modifier: BOLD })]
}

/// The head of the about page: the name, the version `version`, and what
/// the program is.
pub open spec fn about_head(version: Seq<char>, theme: Theme) -> Seq<LineV> {
    seq![
        pair("Cyber Master"@, strong(theme), "  ·  网络安全智能体终端"@, plain_style()),
        seq![("版本 v"@ + version + "  ·  Edition 2021"@, fg_style(theme.muted))],
        Seq::<SpanV>::empty(),
        seq![("对话式安全智能体终端：集成多 LLM 流式对话、工作流 DAG、MCP/Skill 工具体系与 CTF 协作面板。"@, fg_style(theme.fg))],
        Seq::<SpanV>::empty(),
    ]
}

/// The main abilities of the program.
pub open spec fn about_features(theme: Theme) -> Seq<LineV> {
    let m = fg_style(theme.muted);
    seq![
        about_title("核心能力"@, theme),
        pair("▸ 多 Provider 流式对话  "@, strong(theme), "DeepSeek 思考链 · 上下文自动压缩 · 历史持久化"@, m),
        pair("▸ 统一工具表  "@, strong(theme), "内置工具 + MCP（stdio/HTTP/SSE）+ Skill 渐进式披露"@, m),
        pair("▸ 工作流 DAG  "@, strong(theme), "节点编排 · 并行执行 · tokio mpsc 流式资产传递"@, m),
        pair("▸ CTF 协作面板  "@, strong(theme), "题目管理 · writeup 归档 · 会话隔离 · 全局/会话作用域"@, m),
        Seq::<SpanV>::empty(),
    ]
}

/// The common keys, each padded to eight columns.
pub open spec fn about_keys(theme: Theme) -> Seq<LineV> {
    let m = fg_style(theme.muted);
    seq![
        about_title("常用快捷键"@, theme),
        pair("  Ctrl+L  "@, strong(theme), "日志查看器"@, m),
        pair("  Ctrl+T  "@, strong(theme), "CTF 面板"@, m),
        pair("  Ctrl+O  "@, strong(theme), "展开/折叠最近条目"@, m),
        pair("  F9      "@, strong(theme), "切换鼠标捕获 / 选区模式"@, m),
        pair("  s       "@, strong(theme), "进入设置"@, m),
        Seq::<SpanV>::empty(),
    ]
}

/// Where the program lives: the repository `repo` (a default address when
/// empty), the licence `license`, the author and the author's pages, and
/// the keys that leave the page.
pub open spec fn about_links(repo: Seq<char>, license: Seq<char>, theme: Theme) -> Seq<LineV> {
    let m = fg_style(theme.muted);
    let f = fg_style(theme.fg);
    seq![
        if repo.len() == 0 {
            seq![("仓库  https://github.com/chuzouX/cyber-master"@, m)]
        } else {
            pair("仓库  "@, m, repo, f)
        },
        pair("协议  "@, m, license, f),
        Seq::<SpanV>::empty(),
        pair("作者  "@, m, "chuzouX"@, f),
        pair("博客  "@, m, "https://chuzoux.top/"@, f),
        pair("主页  "@, m, "https://space.chuzoux.top/"@, f),
        pair("GitHub  "@, m, "https://github.com/chuzouX"@, f),
        Seq::<SpanV>::empty(),
        seq![("Esc 返回   q 退出"@, m)],
    ]
}

/// The about page, top to bottom.
pub open spec fn spec_about_lines(version: Seq<char>, repo: Seq<char>, license: Seq<char>, theme: Theme) -> Seq<LineV> {
    about_head(version, theme) + about_features(theme) + about_keys(theme) + about_links(repo, license, theme)
}

fn pair_line(a: String, sa: Style, b: String, sb: Style) -> (l: Line)
    ensures
        l@ == pair(a@, sa, b@, sb),
{
    let mut v: Vec<Span> = Vec::new();
    v.push(Span { content: a, style: sa });
    v.push(Span { content: b, style: sb });
    let l = Line { spans: v };
    assert(l@ =~= pair(a@, sa, b@, sb));
    l
}

fn one_line(a: String, sa: Style) -> (l: Line)
    ensures
        l@ == seq![(a@, sa)],
{
    let mut v: Vec<Span> = Vec::new();
    v.push(Span { content: a, style: sa });
    let l = Line { spans: v };
    assert(l@ =~= seq![(a@, sa)]);
    l
}

fn blank() -> (l: Line)
    ensures
        l@ == Seq::<SpanV>::empty(),
{
    let l = Line { spans: Vec::new() };
    assert(l@ =~= Seq::<SpanV>::empty());
    l
}

fn views_of(v: Vec<Line>) -> (r: Vec<Line>)
    ensures
        r@ == v@,
{
    v
}

fn head_lines(version: &str, theme: &Theme) -> (r: Vec<Line>)
    ensures
        lines_view(r@) == about_head(version@, *theme),
{
    let st = Style { fg: Some(theme.accent), bg: None, add_modifier: BOLD };
    let mut ver = String::new();
    push_str(&mut ver, "版本 v");
    push_str(&mut ver, version);
    push_str(&mut ver, "  ·  Edition 2021");
    let mut r: Vec<Line> = Vec::new();
    r.push(pair_line("Cyber Master".to_owned(), st, "  ·  网络安全智能体终端".to_owned(), Style::new()));
    r.push(one_line(ver, Style { fg: Some(theme.muted), bg: None, add_modifier: 0 }));
    r.push(blank());
    r.push(one_line(
        "对话式安全智能体终端：集成多 LLM 流式对话、工作流 DAG、MCP/Skill 工具体系与 CTF 协作面板。".to_owned(),
        Style { fg: Some(theme.fg), bg: None, add_modifier: 0 },
    ));
    r.push(blank());
    assert(lines_view(r@) =~= about_head(version@, *theme));
    views_of(r)
}

fn feature_lines(theme: &Theme) -> (r: Vec<Line>)
    ensures
        lines_view(r@) == about_features(*theme),
{
    let st = Style { fg: Some(theme.accent), bg: None, add_modifier: BOLD };
    let m = Style { fg: Some(theme.muted), bg: None, add_modifier: 0 };
    let mut r: Vec<Line> = Vec::new();
    r.push(one_line("核心能力".to_owned(), Style { fg: Some(theme.title), bg: None, add_modifier: BOLD }));
    r.push(pair_line("▸ 多 Provider 流式对话  ".to_owned(), st, "DeepSeek 思考链 · 上下文自动压缩 · 历史持久化".to_owned(), m));
    r.push(pair_line("▸ 统一工具表  ".to_owned(), st, "内置工具 + MCP（stdio/HTTP/SSE）+ Skill 渐进式披露".to_owned(), m));
    r.push(pair_line("▸ 工作流 DAG  ".to_owned(), st, "节点编排 · 并行执行 · tokio mpsc 流式资产传递".to_owned(), m));
    r.push(pair_line("▸ CTF 协作面板  ".to_owned(), st, "题目管理 · writeup 归档 · 会话隔离 · 全局/会话作用域".to_owned(), m));
    r.push(blank());
    assert(lines_view(r@) =~= about_features(*theme));
    r
}

fn key_lines(theme: &Theme) -> (r: Vec<Line>)
    ensures
        lines_view(r@) == about_keys(*theme),
{
    let st = Style { fg: Some(theme.accent), bg: None, add_modifier: BOLD };
    let m = Style { fg: Some(theme.muted), bg: None, add_modifier: 0 };
    let mut r: Vec<Line> = Vec::new();
    r.push(one_line("常用快捷键".to_owned(), Style { fg: Some(theme.title), bg: None, add_modifier: BOLD }));
    r.push(pair_line("  Ctrl+L  ".to_owned(), st, "日志查看器".to_owned(), m));
    r.push(pair_line("  Ctrl+T  ".to_owned(), st, "CTF 面板".to_owned(), m));
    r.push(pair_line("  Ctrl+O  ".to_owned(), st, "展开/折叠最近条目".to_owned(), m));
    r.push(pair_line("  F9      ".to_owned(), st, "切换鼠标捕获 / 选区模式".to_owned(), m));
    r.push(pair_line("  s       ".to_owned(), st, "进入设置".to_owned(), m));
    r.push(blank());
    assert(lines_view(r@) =~= about_keys(*theme));
    r
}

fn link_lines(repo: &str, license: &str, theme: &Theme) -> (r: Vec<Line>)
    ensures
        lines_view(r@) == about_links(repo@, license@, *theme),
{
    let m = Style { fg: Some(theme.muted), bg: None, add_modifier: 0 };
    let f = Style { fg: Some(theme.fg), bg: None, add_modifier: 0 };
    let mut r: Vec<Line> = Vec::new();
    if repo.is_empty() {
        r.push(one_line("仓库  https://github.com/chuzouX/cyber-master".to_owned(), m));
    } else {
        r.push(pair_line("仓库  ".to_owned(), m, repo.to_owned(), f));
    }
    r.push(pair_line("协议  ".to_owned(), m, license.to_owned(), f));
    r.push(blank());
    r.push(pair_line("作者  ".to_owned(), m, "chuzouX".to_owned(), f));
    r.push(pair_line("博客  ".to_owned(), m, "https://chuzoux.top/".to_owned(), f));
    r.push(pair_line("主页  ".to_owned(), m, "https://space.chuzoux.top/".to_owned(), f));
    r.push(pair_line("GitHub  ".to_owned(), m, "https://github.com/chuzouX".to_owned(), f));
    r.push(blank());
    r.push(one_line("Esc 返回   q 退出".to_owned(), m));
    assert(lines_view(r@) =~= about_links(repo@, license@, *theme));
    r
}

/// The about page (see `spec_about_lines`); `version`, `repo` and `license`
/// are the package's own.
pub fn about_lines(version: &str, repo: &str, license: &str, theme: &Theme) -> (r: Vec<Line>)
    ensures
        lines_view(r@) == spec_about_lines(version@, repo@, license@, *theme),
{
    let mut r = head_lines(version, theme);
    append_lines(&mut r, feature_lines(theme));
    append_lines(&mut r, key_lines(theme));
    append_lines(&mut r, link_lines(repo, license, theme));
    r
}

} // verus!
