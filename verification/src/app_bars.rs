//! The title bar and the status bar of the application window, and the
//! frame of the chat input box.
use vstd::prelude::*;

use crate::app::{mode_label, App, Mode};
use crate::style::Color;
use crate::text::push_str;
use crate::theme::Theme;

verus! {

broadcast use vstd::string::group_string_axioms;

/// The title bar: the screen, the project (`<无项目>` without one), the
/// default provider and the theme, and a first-run mark.
pub open spec fn title_bar(a: App, project: Option<Seq<char>>) -> Seq<char> {
    let name = match project {
        Some(p) => p,
        None => "<无项目>"@,
    };
    let base = " "@ + mode_label(a.mode) + " │ "@ + name + " │ provider="@
        + a.config.agent.default_provider@ + " │ theme="@ + a.config.ui.theme@;
    if a.first_run {
        base + " · first-run"@ + " "@
    } else {
        base + " "@
    }
}

/// The key hints of the status bar for each screen; the chat screen says
/// whether an answer is streaming.
pub open spec fn status_bar(mode: Mode, streaming: bool) -> Seq<char> {
    match mode {
        Mode::Welcome => " ↑/↓ 导航   Enter 确认   s 设置   q 退出"@,
        Mode::Settings => " ↑↓ 行  Tab 段  Enter 编辑/保存  ←→ 调整  Esc 返回  q 退出"@,
        Mode::Chat => if streaming {
            " ● 流式生成中… Esc 取消 · Ctrl+C 退出"@
        } else {
            " ○ 就绪 · 输入消息 Enter 发送"@
        },
        Mode::ProviderForm => " ↑↓ 选字段  Enter 编辑/确认  ←→ 切 kind  Esc 取消"@,
        _ => " Tab 切换模式   s 设置   Esc 返回 Welcome   q 退出"@,
    }
}

impl App {
    /// The text of the title bar (see `title_bar`); `project` names the
    /// loaded project context.
    pub fn title_text(&self, project: &Option<String>) -> (r: String)
        ensures
            r@ == title_bar(
                *self,
                match project {
                    Some(p) => Some(p@),
                    None => None,
                },
            ),
    {
        let mut t = String::new();
        push_str(&mut t, " ");
        push_str(&mut t, self.mode.label());
        push_str(&mut t, " │ ");
        match project {
            Some(p) => push_str(&mut t, p.as_str()),
            None => push_str(&mut t, "<无项目>"),
        }
        push_str(&mut t, " │ provider=");
        push_str(&mut t, self.config.agent.default_provider.as_str());
        push_str(&mut t, " │ theme=");
        push_str(&mut t, self.config.ui.theme.as_str());
        if self.first_run {
            push_str(&mut t, " · first-run");
        }
        push_str(&mut t, " ");
        t
    }

    /// The text of the status bar (see `status_bar`).
    pub fn status_text(&self) -> (r: &'static str)
        ensures
            r@ == status_bar(self.mode, self.chat.streaming),
    {
        match self.mode {
            Mode::Welcome => " ↑/↓ 导航   Enter 确认   s 设置   q 退出",
            Mode::Settings => " ↑↓ 行  Tab 段  Enter 编辑/保存  ←→ 调整  Esc 返回  q 退出",
            Mode::Chat => if self.chat.streaming {
                " ● 流式生成中… Esc 取消 · Ctrl+C 退出"
            } else {
                " ○ 就绪 · 输入消息 Enter 发送"
            },
            Mode::ProviderForm => " ↑↓ 选字段  Enter 编辑/确认  ←→ 切 kind  Esc 取消",
            _ => " Tab 切换模式   s 设置   Esc 返回 Welcome   q 退出",
        }
    }
}

/// The title of the chat input box: a busy note while an answer streams.
pub open spec fn input_title(streaming: bool) -> Seq<char> {
    if streaming {
        " 生成中… "@
    } else {
        " 输入 "@
    }
}

/// The border colour of the chat input box: dimmed while an answer streams.
pub open spec fn input_border(streaming: bool, theme: Theme) -> Color {
    if streaming {
        theme.muted
    } else {
        theme.border
    }
}

/// The title and border colour of the chat input box (see `input_title`
/// and `input_border`).
pub fn input_frame(streaming: bool, theme: &Theme) -> (r: (&'static str, Color))
    ensures
        r.0@ == input_title(streaming),
        r.1 == input_border(streaming, *theme),
{
    if streaming {
        (" 生成中… ", theme.muted)
    } else {
        (" 输入 ", theme.border)
    }
}

} // verus!
