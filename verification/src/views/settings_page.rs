//! The lists of the settings page. The MCP servers list has one row per
//! server with its transport, what it runs or where it connects, its timeout
//! and whether it is connected, followed by the names of its environment
//! variables and headers. The providers list opens each provider with a row
//! of its name and summary.
//!
//! A row's style (the selection background) lies under each of its spans: a
//! span keeps its own foreground and modifiers and takes the row's
//! background.
use vstd::prelude::*;

use crate::chat::wrap::copy_string;
use crate::num::{decimal, push_decimal};
use crate::config::{Config, ConfigV};
use crate::settings::{
    display_value, field_count, section_editable, section_field_count, shown_value, SettingsState,
};
use crate::strmap::{assoc_keys, StringMap};
use crate::style::{fg_style, lines_view, spans_view, Color, Line, LineV, Span, SpanV, Style, BOLD};
use crate::text::{join, push_str, str_eq};
use crate::theme::Theme;
use crate::views::ctf_edit_form::opt_view;
use crate::views::mcp_form::{transport_label, McpServerSpec, McpTransport};

verus! {

broadcast use vstd::string::group_string_axioms;

/// What a server runs (stdio: the command and its arguments) or where it
/// connects (http and sse: the url), with a note for what is not set.
pub open spec fn transport_summary(s: McpServerSpec) -> Seq<char> {
    match s.transport {
        McpTransport::Stdio => {
            let cmd = match opt_view(s.command) {
                Some(c) => c,
                None => "(未设置)"@,
            };
            if s.args@.len() == 0 {
                cmd
            } else {
                cmd + " "@ + join(s.args@.map_values(|a: String| a@), " "@)
            }
        },
        _ => match opt_view(s.url) {
            Some(u) => u,
            None => "(未设置 url)"@,
        },
    }
}

/// The connection status of server `name` and its colour: not enabled when
/// no client runs (`connected` is none), connected when the client lists
/// it, failed otherwise.
pub open spec fn connection_status(name: Seq<char>, connected: Option<Seq<Seq<char>>>, theme: Theme) -> (Seq<char>, Color) {
    match connected {
        None => ("未启用"@, theme.muted),
        Some(names) => if names.contains(name) {
            ("已连接"@, theme.title)
        } else {
            ("连接失败"@, theme.accent)
        },
    }
}

/// A style with foreground `fg`, background `bg` and modifiers `m`.
pub open spec fn cell_style(fg: Option<Color>, bg: Color, m: u16) -> Style {
    Style { fg, bg: Some(bg), add_modifier: m }
}

/// The lines of server `s`, the `i`-th of the list.
pub open spec fn server_lines(
    s: McpServerSpec,
    i: int,
    connected: Option<Seq<Seq<char>>>,
    st: SettingsState,
    theme: Theme,
) -> Seq<LineV> {
    let selected = i == st.mcp_selected && !st.mcp_on_save;
    let pending = st.mcp_pending_delete_idx == Some(i as usize);
    let bg = if selected {
        theme.sel_bg
    } else {
        theme.bg
    };
    let name_color = if pending {
        theme.accent
    } else {
        theme.title
    };
    let status = connection_status(s.name@, connected, theme);
    let row: LineV = seq![
        (if selected { "▸ "@ } else { "  "@ }, cell_style(None, bg, 0)),
        (s.name@, cell_style(Some(name_color), bg, BOLD)),
        (
            "  ["@ + transport_label(s.transport) + "] "@ + transport_summary(s) + " · timeout="@
                + decimal(s.timeout_secs as nat) + "s"@,
            cell_style(None, bg, 0),
        ),
        ("  · "@, cell_style(None, bg, 0)),
        ("["@ + status.0 + "]"@, cell_style(Some(status.1), bg, BOLD)),
        (if pending { "  [待删除!]"@ } else { ""@ }, cell_style(None, bg, 0)),
    ];
    let env: Seq<LineV> = if s.env@.len() == 0 {
        Seq::empty()
    } else {
        seq![seq![("    env: "@ + join(assoc_keys(s.env@), ", "@), fg_style(theme.muted))]]
    };
    let headers: Seq<LineV> = if s.headers@.len() == 0 {
        Seq::empty()
    } else {
        seq![seq![("    headers: "@ + join(assoc_keys(s.headers@), ", "@), fg_style(theme.muted))]]
    };
    seq![row] + env + headers
}

/// The lines of the servers `ss`, one after another.
pub open spec fn servers_lines(
    ss: Seq<McpServerSpec>,
    connected: Option<Seq<Seq<char>>>,
    st: SettingsState,
    theme: Theme,
) -> Seq<LineV>
    decreases ss.len(),
{
    if ss.len() == 0 {
        Seq::empty()
    } else {
        servers_lines(ss.drop_last(), connected, st, theme) + server_lines(
            ss.last(),
            ss.len() - 1,
            connected,
            st,
            theme,
        )
    }
}

/// The MCP section of the settings page: a hint when there is no server.
pub open spec fn spec_mcp_lines(
    ss: Seq<McpServerSpec>,
    connected: Option<Seq<Seq<char>>>,
    st: SettingsState,
    theme: Theme,
) -> Seq<LineV> {
    if ss.len() == 0 {
        seq![seq![("（无 MCP server，按 a 新增）"@, fg_style(theme.muted))]]
    } else {
        servers_lines(ss, connected, st, theme)
    }
}

/// The key lists of server `s` are well formed.
pub open spec fn maps_wf(s: McpServerSpec) -> bool {
    s.env.wf() && s.headers.wf()
}

/// The first line of server `s`, the `i`-th of the list.
pub open spec fn server_row(
    s: McpServerSpec,
    i: int,
    connected: Option<Seq<Seq<char>>>,
    st: SettingsState,
    theme: Theme,
) -> LineV {
    server_lines(s, i, connected, st, theme)[0]
}

/// The names a client reports, as text.
pub open spec fn names_view(v: Seq<String>) -> Seq<Seq<char>> {
    v.map_values(|s: String| s@)
}

/// The optional list of connected names, as text.
pub open spec fn connected_view(c: Option<Vec<String>>) -> Option<Seq<Seq<char>>> {
    match c {
        Some(v) => Some(names_view(v@)),
        None => None,
    }
}

fn push_line(out: &mut Vec<Line>, spans: Vec<Span>)
    ensures
        lines_view(final(out)@) == lines_view(old(out)@).push(spans_view(spans@)),
{
    let l = Line { spans };
    let ghost before = out@;
    out.push(l);
    assert(lines_view(before.push(l)) =~= lines_view(before).push(l@));
}

fn summary(s: &McpServerSpec) -> (r: String)
    ensures
        r@ == transport_summary(*s),
{
    match s.transport {
        McpTransport::Stdio => {
            let mut r = match &s.command {
                Some(c) => copy_string(c),
                None => "(未设置)".to_owned(),
            };
            if s.args.len() > 0 {
                push_str(&mut r, " ");
                let ghost start = r@;
                let ghost av = s.args@.map_values(|a: String| a@);
                let mut i: usize = 0;
                while i < s.args.len()
                    invariant
                        i <= s.args@.len(),
                        av == s.args@.map_values(|a: String| a@),
                        r@ == start + join(av.take(i as int), " "@),
                    decreases s.args@.len() - i,
                {
                    let ghost before = r@;
                    if i > 0 {
                        push_str(&mut r, " ");
                    }
                    push_str(&mut r, s.args[i].as_str());
                    proof {
                        let t = av.take(i + 1);
                        assert(t.drop_last() =~= av.take(i as int));
                        if i == 0 {
                            assert(t.len() == 1);
                            assert(join(t, " "@) =~= t[0]);
                        }
                    }
                    assert(r@ =~= start + join(av.take(i + 1), " "@));
                    i = i + 1;
                }
                assert(av.take(s.args@.len() as int) =~= av);
            }
            r
        },
        _ => match &s.url {
            Some(u) => copy_string(u),
            None => "(未设置 url)".to_owned(),
        },
    }
}

fn contains_name(names: &Vec<String>, name: &str) -> (b: bool)
    ensures
        b == names_view(names@).contains(name@),
{
    let mut i: usize = 0;
    while i < names.len()
        invariant
            i <= names@.len(),
            forall|k: int| 0 <= k < i ==> names@[k]@ != name@,
        decreases names@.len() - i,
    {
        if str_eq(names[i].as_str(), name) {
            assert(names_view(names@)[i as int] == name@);
            return true;
        }
        i = i + 1;
    }
    proof {
        if names_view(names@).contains(name@) {
            let k = choose|k: int| 0 <= k < names_view(names@).len() && names_view(names@)[k] == name@;
            assert(names@[k]@ == name@);
        }
    }
    false
}

fn key_list(m: &StringMap) -> (r: String)
    requires
        m.wf(),
    ensures
        r@ == join(assoc_keys(m@), ", "@),
{
    let ghost kv = assoc_keys(m@);
    let mut r = String::new();
    let mut i: usize = 0;
    while i < m.len()
        invariant
            m.wf(),
            i <= m@.len(),
            kv == assoc_keys(m@),
            r@ == join(kv.take(i as int), ", "@),
        decreases m@.len() - i,
    {
        if i > 0 {
            push_str(&mut r, ", ");
        }
        let (k, _) = m.entry(i);
        push_str(&mut r, k.as_str());
        proof {
            let t = kv.take(i + 1);
            assert(t.drop_last() =~= kv.take(i as int));
            if i == 0 {
                assert(t.len() == 1);
                assert(r@ =~= t[0]);
            }
        }
        assert(r@ =~= join(kv.take(i + 1), ", "@));
        i = i + 1;
    }
    assert(kv.take(m@.len() as int) =~= kv);
    r
}

fn row_spans(
    s: &McpServerSpec,
    i: usize,
    connected: &Option<Vec<String>>,
    st: &SettingsState,
    theme: &Theme,
) -> (row: Vec<Span>)
    ensures
        spans_view(row@) == server_row(*s, i as int, connected_view(*connected), *st, *theme),
{
    let selected = i == st.mcp_selected && !st.mcp_on_save;
    let pending = match st.mcp_pending_delete_idx {
        Some(p) => p == i,
        None => false,
    };
    let bg = if selected {
        theme.sel_bg
    } else {
        theme.bg
    };
    let name_color = if pending {
        theme.accent
    } else {
        theme.title
    };
    let (status, color) = match connected {
        None => ("未启用", theme.muted),
        Some(names) => if contains_name(names, s.name.as_str()) {
            ("已连接", theme.title)
        } else {
            ("连接失败", theme.accent)
        },
    };
    let plain = Style { fg: None, bg: Some(bg), add_modifier: 0 };
    let mut row: Vec<Span> = Vec::new();
    row.push(Span { content: (if selected { "▸ " } else { "  " }).to_owned(), style: plain });
    row.push(
        Span {
            content: copy_string(&s.name),
            style: Style { fg: Some(name_color), bg: Some(bg), add_modifier: BOLD },
        },
    );
    let mut text = String::new();
    push_str(&mut text, "  [");
    push_str(&mut text, s.transport.label());
    push_str(&mut text, "] ");
    let sm = summary(s);
    push_str(&mut text, sm.as_str());
    push_str(&mut text, " · timeout=");
    push_decimal(&mut text, s.timeout_secs);
    push_str(&mut text, "s");
    row.push(Span { content: text, style: plain });
    row.push(Span { content: "  · ".to_owned(), style: plain });
    let mut tag = String::new();
    push_str(&mut tag, "[");
    push_str(&mut tag, status);
    push_str(&mut tag, "]");
    row.push(Span { content: tag, style: Style { fg: Some(color), bg: Some(bg), add_modifier: BOLD } });
    row.push(Span { content: (if pending { "  [待删除!]" } else { "" }).to_owned(), style: plain });
    proof {
        let want = server_row(*s, i as int, connected_view(*connected), *st, *theme);
        assert(spans_view(row@) =~= want);
    }
    row
}

fn push_server(
    out: &mut Vec<Line>,
    s: &McpServerSpec,
    i: usize,
    connected: &Option<Vec<String>>,
    st: &SettingsState,
    theme: &Theme,
)
    requires
        s.env.wf(),
        s.headers.wf(),
    ensures
        lines_view(final(out)@) == lines_view(old(out)@) + server_lines(
            *s,
            i as int,
            connected_view(*connected),
            *st,
            *theme,
        ),
{
    let ghost start = lines_view(out@);
    let row = row_spans(s, i, connected, st, theme);
    push_line(out, row);
    let ghost after_row = lines_view(out@);
    let muted = Style { fg: Some(theme.muted), bg: None, add_modifier: 0 };
    if s.env.len() > 0 {
        let mut t = String::new();
        push_str(&mut t, "    env: ");
        let keys = key_list(&s.env);
        push_str(&mut t, keys.as_str());
        let mut v: Vec<Span> = Vec::new();
        v.push(Span { content: t, style: muted });
        assert(spans_view(v@) =~= seq![("    env: "@ + join(assoc_keys(s.env@), ", "@), fg_style(theme.muted))]);
        push_line(out, v);
    }
    let ghost after_env = lines_view(out@);
    if s.headers.len() > 0 {
        let mut t = String::new();
        push_str(&mut t, "    headers: ");
        let keys = key_list(&s.headers);
        push_str(&mut t, keys.as_str());
        let mut v: Vec<Span> = Vec::new();
        v.push(Span { content: t, style: muted });
        assert(spans_view(v@) =~= seq![("    headers: "@ + join(assoc_keys(s.headers@), ", "@), fg_style(theme.muted))]);
        push_line(out, v);
    }
    proof {
        let want = server_lines(*s, i as int, connected_view(*connected), *st, *theme);
        let env: Seq<LineV> = if s.env@.len() == 0 {
            Seq::empty()
        } else {
            seq![seq![("    env: "@ + join(assoc_keys(s.env@), ", "@), fg_style(theme.muted))]]
        };
        let headers: Seq<LineV> = if s.headers@.len() == 0 {
            Seq::empty()
        } else {
            seq![seq![("    headers: "@ + join(assoc_keys(s.headers@), ", "@), fg_style(theme.muted))]]
        };
        assert(after_row =~= start + seq![want[0]]);
        assert(after_env =~= after_row + env);
        assert(lines_view(out@) =~= after_env + headers);
        assert(want =~= seq![want[0]] + env + headers);
        assert(lines_view(out@) =~= start + want);
    }
}

/// The MCP section of the settings page (see `spec_mcp_lines`); `connected`
/// holds the names of the servers the client reached, none when no client
/// runs.
pub fn mcp_lines(
    servers: &Vec<McpServerSpec>,
    connected: &Option<Vec<String>>,
    st: &SettingsState,
    theme: &Theme,
) -> (r: Vec<Line>)
    requires
        forall|i: int| 0 <= i < servers@.len() ==> #[trigger] maps_wf(servers@[i]),
    ensures
        lines_view(r@) == spec_mcp_lines(servers@, connected_view(*connected), *st, *theme),
{
    let mut out: Vec<Line> = Vec::new();
    if servers.len() == 0 {
        let mut v: Vec<Span> = Vec::new();
        v.push(
            Span {
                content: "（无 MCP server，按 a 新增）".to_owned(),
                style: Style { fg: Some(theme.muted), bg: None, add_modifier: 0 },
            },
        );
        assert(spans_view(v@) =~= seq![("（无 MCP server，按 a 新增）"@, fg_style(theme.muted))]);
        push_line(&mut out, v);
        assert(lines_view(out@) =~= spec_mcp_lines(servers@, connected_view(*connected), *st, *theme));
        return out;
    }
    let ghost cv = connected_view(*connected);
    let mut i: usize = 0;
    while i < servers.len()
        invariant
            i <= servers@.len(),
            cv == connected_view(*connected),
            forall|k: int| 0 <= k < servers@.len() ==> #[trigger] maps_wf(servers@[k]),
            lines_view(out@) == servers_lines(servers@.take(i as int), cv, *st, *theme),
        decreases servers@.len() - i,
    {
        assert(maps_wf(servers@[i as int]));
        push_server(&mut out, &servers[i], i, connected, st, theme);
        proof {
            let t = servers@.take(i + 1);
            assert(t.drop_last() =~= servers@.take(i as int));
            assert(t.last() == servers@[i as int]);
        }
        i = i + 1;
    }
    assert(servers@.take(servers@.len() as int) =~= servers@);
    out
}

/// The first line of provider `name` (the `i`-th of the list), whose
/// summary reads `[kind] base_url · model`: the focus marker, the name
/// marked when it is the default provider, the summary, and a tag when the
/// row is armed for deletion.
pub open spec fn spec_provider_row(
    name: Seq<char>,
    summary: Seq<char>,
    i: int,
    default_provider: Seq<char>,
    st: SettingsState,
    theme: Theme,
) -> LineV {
    let selected = i == st.provider_selected && !st.provider_on_save;
    let pending = st.pending_delete_idx == Some(i as usize);
    let bg = if selected {
        theme.sel_bg
    } else {
        theme.bg
    };
    let name_color = if pending {
        theme.accent
    } else {
        theme.title
    };
    seq![
        (if selected { "▸ "@ } else { "  "@ }, cell_style(None, bg, 0)),
        (name + (if name == default_provider { " ★默认"@ } else { ""@ }), cell_style(Some(name_color), bg, BOLD)),
        ("  "@ + summary + (if pending { "  [待删除!]"@ } else { ""@ }), cell_style(None, bg, 0)),
    ]
}

/// The line shown in place of the providers when there are none.
pub open spec fn no_providers(theme: Theme) -> LineV {
    seq![("（无 provider，按 a 新增）"@, fg_style(theme.muted))]
}

/// The first line of a provider row (see `spec_provider_row`).
pub fn provider_row(
    name: &str,
    summary: &str,
    i: usize,
    default_provider: &str,
    st: &SettingsState,
    theme: &Theme,
) -> (r: Line)
    ensures
        r@ == spec_provider_row(name@, summary@, i as int, default_provider@, *st, *theme),
{
    let selected = i == st.provider_selected && !st.provider_on_save;
    let pending = match st.pending_delete_idx {
        Some(p) => p == i,
        None => false,
    };
    let bg = if selected {
        theme.sel_bg
    } else {
        theme.bg
    };
    let name_color = if pending {
        theme.accent
    } else {
        theme.title
    };
    let plain = Style { fg: None, bg: Some(bg), add_modifier: 0 };
    let mut title = String::new();
    push_str(&mut title, name);
    push_str(&mut title, if str_eq(name, default_provider) { " ★默认" } else { "" });
    let mut rest = String::new();
    push_str(&mut rest, "  ");
    push_str(&mut rest, summary);
    push_str(&mut rest, if pending { "  [待删除!]" } else { "" });
    let mut v: Vec<Span> = Vec::new();
    v.push(Span { content: (if selected { "▸ " } else { "  " }).to_owned(), style: plain });
    v.push(Span { content: title, style: Style { fg: Some(name_color), bg: Some(bg), add_modifier: BOLD } });
    v.push(Span { content: rest, style: plain });
    let l = Line { spans: v };
    assert(l@ =~= spec_provider_row(name@, summary@, i as int, default_provider@, *st, *theme));
    l
}

/// The line shown in place of the providers when there are none.
pub fn empty_providers_line(theme: &Theme) -> (r: Line)
    ensures
        r@ == no_providers(*theme),
{
    let mut v: Vec<Span> = Vec::new();
    v.push(
        Span {
            content: "（无 provider，按 a 新增）".to_owned(),
            style: Style { fg: Some(theme.muted), bg: None, add_modifier: 0 },
        },
    );
    let l = Line { spans: v };
    assert(l@ =~= no_providers(*theme));
    l
}

/// The name of settings section `s`.
pub open spec fn section_label(s: int) -> Seq<char> {
    if s == 0 {
        "UI"@
    } else if s == 1 {
        "Agent"@
    } else if s == 2 {
        "Workflow"@
    } else if s == 3 {
        "Tools"@
    } else if s == 4 {
        "Storage"@
    } else if s == 5 {
        "Providers"@
    } else if s == 6 {
        "MCP"@
    } else {
        "Skills"@
    }
}

/// The label of field `i` of editable section `s`.
pub open spec fn field_label(s: int, i: int) -> Seq<char> {
    if s == 0 {
        if i == 0 {
            "主题 theme"@
        } else if i == 1 {
            "默认模式 default_mode"@
        } else if i == 2 {
            "鼠标 mouse"@
        } else if i == 3 {
            "动画 animations"@
        } else {
            "帧率 frame_rate"@
        }
    } else if s == 1 {
        if i == 0 {
            "默认 provider"@
        } else if i == 1 {
            "自动工具调用 auto_tool_call"@
        } else {
            "最大步数 max_steps"@
        }
    } else if s == 2 {
        if i == 0 {
            "最大并行节点"@
        } else if i == 1 {
            "默认超时(秒)"@
        } else {
            "断点续跑 checkpoint"@
        }
    } else if s == 3 {
        if i == 0 {
            "优先 docker"@
        } else {
            "额外 PATH"@
        }
    } else if i == 0 {
        "历史保留天数"@
    } else {
        "日志级别 log_level"@
    }
}

/// When a change of field `i` of editable section `s` takes effect: at once,
/// after a restart, at a later stage of the product, or never (`—`).
pub open spec fn field_effect(s: int, i: int) -> Seq<char> {
    if s == 0 {
        if i == 0 || i == 2 {
            "即时"@
        } else if i == 1 {
            "重启"@
        } else if i == 3 {
            "P6"@
        } else {
            "—"@
        }
    } else if s == 1 {
        if i == 0 {
            "即时"@
        } else {
            "P2"@
        }
    } else if s == 2 {
        "P4"@
    } else if s == 3 {
        if i == 0 {
            "P3"@
        } else {
            "—"@
        }
    } else if i == 0 {
        "P5"@
    } else {
        "—"@
    }
}

/// Some edit of the page is not saved yet.
pub open spec fn any_dirty(st: SettingsState) -> bool {
    st.dirty || st.dirty_providers || st.dirty_mcp
}

/// The section's heading line.
pub open spec fn section_heading(sec: int, theme: Theme) -> LineV {
    seq![(" "@ + section_label(sec) + " "@, Style { fg: Some(theme.accent), bg: None, add_modifier: BOLD })]
}

/// Row `i` of editable section `st.section`: the marker on the selected
/// row, the label, the value as `shown_value` gives it, and when a change
/// takes effect.
pub open spec fn spec_field_row(c: ConfigV, st: SettingsState, i: int, theme: Theme) -> LineV {
    let sec = st.section as int;
    let selected = i == st.selected;
    let bg = if selected {
        theme.sel_bg
    } else {
        theme.bg
    };
    seq![
        (if selected { "▸ "@ } else { "  "@ }, cell_style(None, bg, 0)),
        (field_label(sec, i), cell_style(Some(theme.fg), bg, 0)),
        (" : "@, cell_style(None, bg, 0)),
        (shown_value(c, sec, i), cell_style(Some(theme.title), bg, BOLD)),
        ("   ["@, cell_style(None, bg, 0)),
        (field_effect(sec, i), cell_style(Some(theme.muted), bg, 0)),
        ("]"@, cell_style(None, bg, 0)),
    ]
}

/// The save button row, marked when the cursor is on it and starred while
/// an edit is unsaved.
pub open spec fn spec_save_row(on_save: bool, dirty: bool, theme: Theme) -> LineV {
    let bg = if on_save {
        theme.sel_bg
    } else {
        theme.bg
    };
    seq![
        (if on_save { "▸ "@ } else { "  "@ }, cell_style(None, bg, 0)),
        (if dirty { "保存设置 *"@ } else { "保存设置"@ }, cell_style(Some(theme.accent), bg, BOLD)),
        ("   (Enter 保存)"@, cell_style(None, bg, 0)),
    ]
}

/// The lines of an editable section: its heading, one row per field, the
/// save row, and a hint that says how to save or discard when an edit is
/// unsaved.
pub open spec fn spec_editable_lines(c: ConfigV, st: SettingsState, theme: Theme) -> Seq<LineV> {
    let sec = st.section as int;
    let n = section_field_count(sec);
    let hint = if any_dirty(st) {
        "有未保存改动：Enter 保存 / 再按 Esc 丢弃"@
    } else {
        "Enter 编辑字段  ←→ 调整  Esc 返回"@
    };
    seq![section_heading(sec, theme), Seq::<SpanV>::empty()] + Seq::new(
        n as nat,
        |i: int| spec_field_row(c, st, i, theme),
    ) + seq![
        Seq::<SpanV>::empty(),
        spec_save_row(st.selected >= n, any_dirty(st), theme),
        Seq::<SpanV>::empty(),
        seq![(hint, fg_style(theme.muted))],
    ]
}

/// The name of section `s`.
pub fn section_name(s: usize) -> (r: &'static str)
    ensures
        r@ == section_label(s as int),
{
    if s == 0 {
        "UI"
    } else if s == 1 {
        "Agent"
    } else if s == 2 {
        "Workflow"
    } else if s == 3 {
        "Tools"
    } else if s == 4 {
        "Storage"
    } else if s == 5 {
        "Providers"
    } else if s == 6 {
        "MCP"
    } else {
        "Skills"
    }
}

fn label_of(s: usize, i: usize) -> (r: &'static str)
    ensures
        r@ == field_label(s as int, i as int),
{
    if s == 0 {
        if i == 0 {
            "主题 theme"
        } else if i == 1 {
            "默认模式 default_mode"
        } else if i == 2 {
            "鼠标 mouse"
        } else if i == 3 {
            "动画 animations"
        } else {
            "帧率 frame_rate"
        }
    } else if s == 1 {
        if i == 0 {
            "默认 provider"
        } else if i == 1 {
            "自动工具调用 auto_tool_call"
        } else {
            "最大步数 max_steps"
        }
    } else if s == 2 {
        if i == 0 {
            "最大并行节点"
        } else if i == 1 {
            "默认超时(秒)"
        } else {
            "断点续跑 checkpoint"
        }
    } else if s == 3 {
        if i == 0 {
            "优先 docker"
        } else {
            "额外 PATH"
        }
    } else if i == 0 {
        "历史保留天数"
    } else {
        "日志级别 log_level"
    }
}

fn effect_of(s: usize, i: usize) -> (r: &'static str)
    ensures
        r@ == field_effect(s as int, i as int),
{
    if s == 0 {
        if i == 0 || i == 2 {
            "即时"
        } else if i == 1 {
            "重启"
        } else if i == 3 {
            "P6"
        } else {
            "—"
        }
    } else if s == 1 {
        if i == 0 {
            "即时"
        } else {
            "P2"
        }
    } else if s == 2 {
        "P4"
    } else if s == 3 {
        if i == 0 {
            "P3"
        } else {
            "—"
        }
    } else if i == 0 {
        "P5"
    } else {
        "—"
    }
}

fn field_row(c: &Config, st: &SettingsState, i: usize, theme: &Theme) -> (r: Line)
    ensures
        r@ == spec_field_row(c@, *st, i as int, *theme),
{
    let sec = st.section;
    let selected = i == st.selected;
    let bg = if selected {
        theme.sel_bg
    } else {
        theme.bg
    };
    let plain = Style { fg: None, bg: Some(bg), add_modifier: 0 };
    let mut v: Vec<Span> = Vec::new();
    v.push(Span { content: (if selected { "▸ " } else { "  " }).to_owned(), style: plain });
    v.push(
        Span {
            content: label_of(sec, i).to_owned(),
            style: Style { fg: Some(theme.fg), bg: Some(bg), add_modifier: 0 },
        },
    );
    v.push(Span { content: " : ".to_owned(), style: plain });
    v.push(
        Span {
            content: display_value(c, sec, i),
            style: Style { fg: Some(theme.title), bg: Some(bg), add_modifier: BOLD },
        },
    );
    v.push(Span { content: "   [".to_owned(), style: plain });
    v.push(
        Span {
            content: effect_of(sec, i).to_owned(),
            style: Style { fg: Some(theme.muted), bg: Some(bg), add_modifier: 0 },
        },
    );
    v.push(Span { content: "]".to_owned(), style: plain });
    let l = Line { spans: v };
    assert(l@ =~= spec_field_row(c@, *st, i as int, *theme));
    l
}

/// The save button row (see `spec_save_row`).
pub fn save_row(on_save: bool, dirty: bool, theme: &Theme) -> (r: Line)
    ensures
        r@ == spec_save_row(on_save, dirty, *theme),
{
    let bg = if on_save {
        theme.sel_bg
    } else {
        theme.bg
    };
    let plain = Style { fg: None, bg: Some(bg), add_modifier: 0 };
    let mut v: Vec<Span> = Vec::new();
    v.push(Span { content: (if on_save { "▸ " } else { "  " }).to_owned(), style: plain });
    v.push(
        Span {
            content: (if dirty { "保存设置 *" } else { "保存设置" }).to_owned(),
            style: Style { fg: Some(theme.accent), bg: Some(bg), add_modifier: BOLD },
        },
    );
    v.push(Span { content: "   (Enter 保存)".to_owned(), style: plain });
    let l = Line { spans: v };
    assert(l@ =~= spec_save_row(on_save, dirty, *theme));
    l
}

fn one_span_line(text: String, style: Style) -> (r: Line)
    ensures
        r@ == seq![(text@, style)],
{
    let mut v: Vec<Span> = Vec::new();
    v.push(Span { content: text, style });
    let l = Line { spans: v };
    assert(l@ =~= seq![(text@, style)]);
    l
}

fn blank_line() -> (r: Line)
    ensures
        r@ == Seq::<SpanV>::empty(),
{
    let l = Line { spans: Vec::new() };
    assert(l@ =~= Seq::<SpanV>::empty());
    l
}

/// The lines of an editable section (see `spec_editable_lines`).
pub fn editable_lines(c: &Config, st: &SettingsState, theme: &Theme) -> (r: Vec<Line>)
    requires
        section_editable(st.section as int),
    ensures
        lines_view(r@) == spec_editable_lines(c@, *st, *theme),
{
    let sec = st.section;
    let n = field_count(sec);
    let mut out: Vec<Line> = Vec::new();
    let mut head = String::new();
    push_str(&mut head, " ");
    push_str(&mut head, section_name(sec));
    push_str(&mut head, " ");
    push_line_of(&mut out, one_span_line(head, Style { fg: Some(theme.accent), bg: None, add_modifier: BOLD }));
    push_line_of(&mut out, blank_line());
    let ghost start = lines_view(out@);
    let ghost rows = Seq::new(n as nat, |i: int| spec_field_row(c@, *st, i, *theme));
    let mut i: usize = 0;
    while i < n
        invariant
            i <= n,
            n == section_field_count(sec as int),
            sec == st.section,
            rows == Seq::new(n as nat, |i: int| spec_field_row(c@, *st, i, *theme)),
            lines_view(out@) == start + rows.take(i as int),
        decreases n - i,
    {
        push_line_of(&mut out, field_row(c, st, i, theme));
        assert(rows.take(i + 1) =~= rows.take(i as int).push(rows[i as int]));
        i = i + 1;
    }
    assert(rows.take(n as int) =~= rows);
    let dirty = st.dirty || st.dirty_providers || st.dirty_mcp;
    push_line_of(&mut out, blank_line());
    push_line_of(&mut out, save_row(st.selected >= n, dirty, theme));
    push_line_of(&mut out, blank_line());
    let hint = if dirty {
        "有未保存改动：Enter 保存 / 再按 Esc 丢弃"
    } else {
        "Enter 编辑字段  ←→ 调整  Esc 返回"
    };
    push_line_of(&mut out, one_span_line(hint.to_owned(), Style { fg: Some(theme.muted), bg: None, add_modifier: 0 }));
    assert(lines_view(out@) =~= spec_editable_lines(c@, *st, *theme));
    out
}

fn push_line_of(out: &mut Vec<Line>, l: Line)
    ensures
        lines_view(final(out)@) == lines_view(old(out)@).push(l@),
{
    let ghost before = out@;
    out.push(l);
    assert(lines_view(before.push(l)) =~= lines_view(before).push(l@));
}

/// The sidebar of the settings page: one row per section, the current one
/// marked and highlighted, then a key hint.
pub open spec fn spec_sidebar(st: SettingsState, theme: Theme) -> Seq<LineV> {
    Seq::new(
        8,
        |i: int|
            if i == st.section {
                seq![
                    ("▸ "@ + section_label(i), Style {
                        fg: Some(theme.sel_fg),
                        bg: Some(theme.sel_bg),
                        add_modifier: BOLD,
                    }),
                ]
            } else {
                seq![("  "@ + section_label(i), fg_style(theme.fg))]
            },
    ) + seq![Seq::<SpanV>::empty(), seq![("Tab 切段  ↑↓ 行"@, fg_style(theme.muted))]]
}

/// The title of the settings page, starred while an edit is unsaved.
pub open spec fn spec_page_title(st: SettingsState) -> Seq<char> {
    if any_dirty(st) {
        " Settings *"@ + " "@
    } else {
        " Settings"@ + " "@
    }
}

/// The hint under a list section: while row `pending` is armed for deletion
/// it names the item (`?` past the end of `names`) and asks for a second
/// `d`; otherwise it lists the keys (`idle`).
pub open spec fn spec_list_hint(pending: Option<usize>, names: Seq<Seq<char>>, idle: Seq<char>, theme: Theme) -> LineV {
    match pending {
        Some(idx) => {
            let name = if idx < names.len() {
                names[idx as int]
            } else {
                "?"@
            };
            seq![(" 再按 d 确认删除 '"@ + name + "' · 其他键取消"@, fg_style(theme.accent))]
        },
        None => seq![(idle, fg_style(theme.muted))],
    }
}

/// The keys of the providers section.
pub open spec fn providers_keys() -> Seq<char> {
    " a 新增  e 编辑  d 删除  Enter 设默认/保存  ↑↓ 选择"@
}

/// The keys of the MCP section.
pub open spec fn mcp_keys() -> Seq<char> {
    " a 新增  e 编辑  d 删除  Enter 保存  ↑↓ 选择  (保存后重启生效)"@
}

/// The hint under the skills list.
pub open spec fn skills_hint(theme: Theme) -> LineV {
    seq![(" ↑↓ 选择  Skills 为文件型配置（编辑 SKILL.md 后重启生效）"@, fg_style(theme.muted))]
}

/// The banner shown when a project configuration overrides the global one.
pub open spec fn project_banner(theme: Theme) -> LineV {
    seq![
        (" ⚠ 检测到项目级 .cyber/config.toml：保存仅写全局，被覆盖字段重启后回弹"@, Style {
            fg: Some(theme.accent),
            bg: Some(theme.bg),
            add_modifier: 0,
        }),
    ]
}

/// The sidebar of the settings page (see `spec_sidebar`).
pub fn sidebar_lines(st: &SettingsState, theme: &Theme) -> (r: Vec<Line>)
    ensures
        lines_view(r@) == spec_sidebar(*st, *theme),
{
    let ghost want = spec_sidebar(*st, *theme);
    let mut out: Vec<Line> = Vec::new();
    let mut i: usize = 0;
    while i < 8
        invariant
            i <= 8,
            want == spec_sidebar(*st, *theme),
            lines_view(out@) == want.take(i as int),
        decreases 8 - i,
    {
        let mut t = String::new();
        let style = if i == st.section {
            push_str(&mut t, "▸ ");
            Style { fg: Some(theme.sel_fg), bg: Some(theme.sel_bg), add_modifier: BOLD }
        } else {
            push_str(&mut t, "  ");
            Style { fg: Some(theme.fg), bg: None, add_modifier: 0 }
        };
        push_str(&mut t, section_name(i));
        push_line_of(&mut out, one_span_line(t, style));
        assert(want.take(i + 1) =~= want.take(i as int).push(want[i as int]));
        i = i + 1;
    }
    push_line_of(&mut out, blank_line());
    push_line_of(&mut out, one_span_line("Tab 切段  ↑↓ 行".to_owned(), Style { fg: Some(theme.muted), bg: None, add_modifier: 0 }));
    assert(lines_view(out@) =~= want);
    out
}

/// The title of the settings page (see `spec_page_title`).
pub fn page_title(st: &SettingsState) -> (r: String)
    ensures
        r@ == spec_page_title(*st),
{
    let mut t = String::new();
    if st.dirty || st.dirty_providers || st.dirty_mcp {
        push_str(&mut t, " Settings *");
    } else {
        push_str(&mut t, " Settings");
    }
    push_str(&mut t, " ");
    t
}

fn list_hint(pending: Option<usize>, names: &Vec<String>, idle: &str, theme: &Theme) -> (r: Line)
    ensures
        r@ == spec_list_hint(pending, names_view(names@), idle@, *theme),
{
    match pending {
        Some(idx) => {
            let mut t = String::new();
            push_str(&mut t, " 再按 d 确认删除 '");
            if idx < names.len() {
                push_str(&mut t, names[idx].as_str());
            } else {
                push_str(&mut t, "?");
            }
            push_str(&mut t, "' · 其他键取消");
            one_span_line(t, Style { fg: Some(theme.accent), bg: None, add_modifier: 0 })
        },
        None => one_span_line(idle.to_owned(), Style { fg: Some(theme.muted), bg: None, add_modifier: 0 }),
    }
}

/// The hint under the providers list; `names` are the providers in the
/// order of the list.
pub fn providers_hint(st: &SettingsState, names: &Vec<String>, theme: &Theme) -> (r: Line)
    ensures
        r@ == spec_list_hint(st.pending_delete_idx, names_view(names@), providers_keys(), *theme),
{
    list_hint(st.pending_delete_idx, names, " a 新增  e 编辑  d 删除  Enter 设默认/保存  ↑↓ 选择", theme)
}

/// The hint under the MCP servers list.
pub fn mcp_hint(st: &SettingsState, servers: &Vec<McpServerSpec>, theme: &Theme) -> (r: Line)
    ensures
        r@ == spec_list_hint(
            st.mcp_pending_delete_idx,
            servers@.map_values(|s: McpServerSpec| s.name@),
            mcp_keys(),
            *theme,
        ),
{
    let mut names: Vec<String> = Vec::new();
    let mut i: usize = 0;
    while i < servers.len()
        invariant
            i <= servers@.len(),
            names@.len() == i,
            names_view(names@) =~= servers@.take(i as int).map_values(|s: McpServerSpec| s.name@),
        decreases servers@.len() - i,
    {
        let ghost before = names@;
        names.push(copy_string(&servers[i].name));
        proof {
            assert(names@ == before.push(names@[i as int]));
            assert(servers@.take(i + 1) =~= servers@.take(i as int).push(servers@[i as int]));
            assert(names_view(names@) =~= names_view(before).push(servers@[i as int].name@));
        }
        i = i + 1;
    }
    assert(servers@.take(servers@.len() as int) =~= servers@);
    list_hint(
        st.mcp_pending_delete_idx,
        &names,
        " a 新增  e 编辑  d 删除  Enter 保存  ↑↓ 选择  (保存后重启生效)",
        theme,
    )
}

/// The hint under the skills list (see `skills_hint`).
pub fn skills_hint_line(theme: &Theme) -> (r: Line)
    ensures
        r@ == skills_hint(*theme),
{
    one_span_line(
        " ↑↓ 选择  Skills 为文件型配置（编辑 SKILL.md 后重启生效）".to_owned(),
        Style { fg: Some(theme.muted), bg: None, add_modifier: 0 },
    )
}

/// The banner shown when a project configuration overrides the global one.
pub fn project_banner_line(theme: &Theme) -> (r: Line)
    ensures
        r@ == project_banner(*theme),
{
    one_span_line(
        " ⚠ 检测到项目级 .cyber/config.toml：保存仅写全局，被覆盖字段重启后回弹".to_owned(),
        Style { fg: Some(theme.accent), bg: Some(theme.bg), add_modifier: 0 },
    )
}

} // verus!
