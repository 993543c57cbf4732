//! The environment-variable form: add or edit one variable.
//!
//! Fields, in focus order: key, value, sensitive (toggled with Left/Right or
//! Enter), then the Save and Cancel buttons. Enter on a text field starts
//! editing it in the text box; Enter there commits the text, Esc drops it.
//! While editing, keys other than Enter and Esc belong to the text box
//! widget: the application applies them to it and stores its lines in
//! `textarea`. The form is drawn as one row per field (a sensitive value
//! masked) and a row of buttons.
use vstd::prelude::*;

use crate::chat::input::{input_text, insert_text, InputBox};
use crate::event::{KeyCode, KeyEvent};
use crate::style::{lines_view, plain_style, Line, LineV, Span, SpanV, Style, BOLD};
use crate::text::{push_chars, push_str, str_chars, trim, trim_str};
use crate::theme::Theme;
use crate::views::settings_page::cell_style;

verus! {

broadcast use vstd::string::group_string_axioms;

/// What `mask_value` shows for a secret: `****` when it has at most five
/// characters, else its first two characters, `****` and its last three
/// characters.
pub open spec fn spec_mask_value(v: Seq<char>) -> Seq<char> {
    if v.len() <= 5 {
        "****"@
    } else {
        v.take(2) + "****"@ + v.skip(v.len() - 3)
    }
}

/// Hides a secret value, keeping two leading and three trailing characters.
pub fn mask_value(val: &str) -> (r: String)
    ensures
        r@ == spec_mask_value(val@),
{
    let v = str_chars(val);
    let n = v.len();
    if n <= 5 {
        return "****".to_owned();
    }
    let mut out = String::new();
    let head = crate::text::chars_range(&v, 0, 2);
    push_chars(&mut out, &head);
    crate::text::push_str(&mut out, "****");
    let tail = crate::text::chars_range(&v, n - 3, n);
    push_chars(&mut out, &tail);
    assert(head@ =~= val@.take(2));
    assert(tail@ =~= val@.skip(n - 3));
    out
}

/// Number of focusable fields.
pub const FIELD_COUNT: usize = 5;
/// Focus index of the key field.
pub const IDX_KEY: usize = 0;
/// Focus index of the value field.
pub const IDX_VALUE: usize = 1;
/// Focus index of the sensitive toggle.
pub const IDX_SENSITIVE: usize = 2;
/// Focus index of the Save button.
pub const IDX_SAVE: usize = 3;
/// Focus index of the Cancel button.
pub const IDX_CANCEL: usize = 4;

/// An environment variable of the configuration.
#[derive(Debug, Clone, PartialEq, Eq)]
pub struct EnvVar {
    pub key: String,
    pub value: String,
    pub sensitive: bool,
}

/// What a key press asks of the application.
#[derive(Debug, Clone, Copy, PartialEq, Eq, Structural)]
pub enum EnvFormAction {
    Nothing,
    Save,
    Cancel,
}

/// The form's state.
#[derive(Debug)]
pub struct EnvFormState {
    pub key: String,
    pub value: String,
    pub sensitive: bool,
    /// The focused field.
    pub focused: usize,
    /// Whether a text field is being edited.
    pub editing: bool,
    /// The index of the edited variable, `None` when adding.
    pub edit_index: Option<usize>,
    /// The text being edited.
    pub textarea: InputBox,
}

/// The text a field shows: the key, the value (masked when sensitive), the
/// sensitive flag as `true`/`false`; nothing for the buttons.
pub open spec fn field_text(s: EnvFormState, idx: usize) -> Seq<char> {
    if idx == IDX_KEY {
        s.key@
    } else if idx == IDX_VALUE {
        if s.sensitive {
            spec_mask_value(s.value@)
        } else {
            s.value@
        }
    } else if idx == IDX_SENSITIVE {
        if s.sensitive {
            "true"@
        } else {
            "false"@
        }
    } else {
        Seq::empty()
    }
}

/// The text loaded into the text box when editing starts: the value in
/// clear for the value field, else what the field shows.
pub open spec fn edit_start_text(s: EnvFormState, idx: usize) -> Seq<char> {
    if idx == IDX_VALUE && s.sensitive {
        s.value@
    } else {
        field_text(s, idx)
    }
}

/// `a` and `b` hold the same field values.
pub open spec fn same_values(a: EnvFormState, b: EnvFormState) -> bool {
    &&& a.key@ == b.key@
    &&& a.value@ == b.value@
    &&& a.sensitive == b.sensitive
    &&& a.edit_index == b.edit_index
}

impl EnvFormState {
    /// An empty form for adding a variable.
    pub fn for_add() -> (s: EnvFormState)
        ensures
            s.key@.len() == 0,
            s.value@.len() == 0,
            !s.sensitive,
            s.focused == 0,
            !s.editing,
            s.edit_index is None,
            s.textarea.wf(),
            s.textarea.lines_view() == seq![Seq::<char>::empty()],
    {
        EnvFormState {
            key: String::new(),
            value: String::new(),
            sensitive: false,
            focused: 0,
            editing: false,
            edit_index: None,
            textarea: InputBox::new(),
        }
    }

    /// A form editing variable `var`, number `idx` of the list.
    pub fn for_edit(idx: usize, var: &EnvVar) -> (s: EnvFormState)
        ensures
            s.key@ == var.key@,
            s.value@ == var.value@,
            s.sensitive == var.sensitive,
            s.focused == 0,
            !s.editing,
            s.edit_index == Some(idx),
            s.textarea.wf(),
    {
        EnvFormState {
            key: crate::chat::wrap::copy_string(&var.key),
            value: crate::chat::wrap::copy_string(&var.value),
            sensitive: var.sensitive,
            focused: 0,
            editing: false,
            edit_index: Some(idx),
            textarea: InputBox::new(),
        }
    }

    /// Whether field `idx` is edited as text.
    pub fn is_text_field(idx: usize) -> (b: bool)
        ensures
            b == (idx == IDX_KEY || idx == IDX_VALUE),
    {
        idx == IDX_KEY || idx == IDX_VALUE
    }

    /// The text field `idx` shows.
    pub fn get_field(&self, idx: usize) -> (r: String)
        ensures
            r@ == field_text(*self, idx),
    {
        if idx == IDX_KEY {
            crate::chat::wrap::copy_string(&self.key)
        } else if idx == IDX_VALUE {
            if self.sensitive {
                mask_value(self.value.as_str())
            } else {
                crate::chat::wrap::copy_string(&self.value)
            }
        } else if idx == IDX_SENSITIVE {
            if self.sensitive {
                "true".to_owned()
            } else {
                "false".to_owned()
            }
        } else {
            String::new()
        }
    }

    fn start_editing(&mut self, idx: usize)
        ensures
            final(self).editing,
            final(self).textarea.wf(),
            final(self).textarea.lines_view() == insert_text(seq![Seq::<char>::empty()], edit_start_text(*old(self), idx)),
            same_values(*final(self), *old(self)),
            final(self).focused == old(self).focused,
    {
        let val = if idx == IDX_VALUE && self.sensitive {
            crate::chat::wrap::copy_string(&self.value)
        } else {
            self.get_field(idx)
        };
        self.textarea = InputBox::new();
        self.textarea.insert_str(val.as_str());
        self.editing = true;
    }

    /// Handles a key (see the module documentation) and says what the
    /// application should do.
    pub fn handle_key(&mut self, k: KeyEvent) -> (a: EnvFormAction)
        requires
            old(self).textarea.wf(),
            !old(self).editing && k.code == KeyCode::Down ==> old(self).focused < usize::MAX,
        ensures
            final(self).textarea.wf(),
            old(self).editing ==> final(self).focused == old(self).focused && final(self).sensitive
                == old(self).sensitive && final(self).edit_index == old(self).edit_index && a
                == EnvFormAction::Nothing && match k.code {
                KeyCode::Esc => !final(self).editing && final(self).key@ == old(self).key@
                    && final(self).value@ == old(self).value@,
                KeyCode::Enter => {
                    let t = input_text(old(self).textarea.lines_view());
                    &&& !final(self).editing
                    &&& final(self).key@ == (if old(self).focused == IDX_KEY { t } else { old(self).key@ })
                    &&& final(self).value@ == (if old(self).focused == IDX_VALUE { t } else { old(self).value@ })
                },
                _ => *final(self) == *old(self),
            },
            !old(self).editing ==> match k.code {
                KeyCode::Esc => a == EnvFormAction::Cancel && *final(self) == *old(self),
                KeyCode::Up => a == EnvFormAction::Nothing && final(self).focused == (if old(self).focused == 0 {
                    (FIELD_COUNT - 1) as usize
                } else {
                    (old(self).focused - 1) as usize
                }) && same_values(*final(self), *old(self)) && !final(self).editing,
                KeyCode::Down => a == EnvFormAction::Nothing && final(self).focused == (old(self).focused + 1)
                    % (FIELD_COUNT as int) && same_values(*final(self), *old(self)) && !final(self).editing,
                KeyCode::Left | KeyCode::Right => a == EnvFormAction::Nothing && if old(self).focused
                    == IDX_SENSITIVE {
                    final(self).sensitive == !old(self).sensitive && final(self).key@ == old(self).key@
                        && final(self).value@ == old(self).value@ && final(self).focused == old(self).focused
                        && !final(self).editing
                } else {
                    *final(self) == *old(self)
                },
                KeyCode::Enter => if old(self).focused == IDX_SAVE {
                    a == EnvFormAction::Save && *final(self) == *old(self)
                } else if old(self).focused == IDX_CANCEL {
                    a == EnvFormAction::Cancel && *final(self) == *old(self)
                } else if old(self).focused == IDX_SENSITIVE {
                    a == EnvFormAction::Nothing && final(self).sensitive == !old(self).sensitive
                        && final(self).key@ == old(self).key@ && final(self).value@ == old(self).value@
                        && final(self).focused == old(self).focused && !final(self).editing
                } else if old(self).focused == IDX_KEY || old(self).focused == IDX_VALUE {
                    a == EnvFormAction::Nothing && final(self).editing && same_values(*final(self), *old(self))
                        && final(self).focused == old(self).focused
                        && final(self).textarea.lines_view() == insert_text(
                        seq![Seq::<char>::empty()],
                        edit_start_text(*old(self), old(self).focused),
                    )
                } else {
                    a == EnvFormAction::Nothing && *final(self) == *old(self)
                },
                _ => a == EnvFormAction::Nothing && *final(self) == *old(self),
            },
    {
        if self.editing {
            return self.handle_editing_key(k);
        }
        match k.code {
            KeyCode::Esc => EnvFormAction::Cancel,
            KeyCode::Up => {
                if self.focused == 0 {
                    self.focused = FIELD_COUNT - 1;
                } else {
                    self.focused = self.focused - 1;
                }
                EnvFormAction::Nothing
            },
            KeyCode::Down => {
                self.focused = (self.focused + 1) % FIELD_COUNT;
                EnvFormAction::Nothing
            },
            KeyCode::Left | KeyCode::Right => {
                if self.focused == IDX_SENSITIVE {
                    self.sensitive = !self.sensitive;
                }
                EnvFormAction::Nothing
            },
            KeyCode::Enter => {
                if self.focused == IDX_SAVE {
                    EnvFormAction::Save
                } else if self.focused == IDX_CANCEL {
                    EnvFormAction::Cancel
                } else if self.focused == IDX_SENSITIVE {
                    self.sensitive = !self.sensitive;
                    EnvFormAction::Nothing
                } else if Self::is_text_field(self.focused) {
                    let f = self.focused;
                    self.start_editing(f);
                    EnvFormAction::Nothing
                } else {
                    EnvFormAction::Nothing
                }
            },
            _ => EnvFormAction::Nothing,
        }
    }

    fn handle_editing_key(&mut self, k: KeyEvent) -> (a: EnvFormAction)
        requires
            old(self).textarea.wf(),
        ensures
            final(self).textarea.wf(),
            final(self).focused == old(self).focused,
            final(self).sensitive == old(self).sensitive,
            final(self).edit_index == old(self).edit_index,
            a == EnvFormAction::Nothing,
            match k.code {
                KeyCode::Esc => !final(self).editing && final(self).key@ == old(self).key@
                    && final(self).value@ == old(self).value@,
                KeyCode::Enter => {
                    let t = input_text(old(self).textarea.lines_view());
                    &&& !final(self).editing
                    &&& final(self).key@ == (if old(self).focused == IDX_KEY { t } else { old(self).key@ })
                    &&& final(self).value@ == (if old(self).focused == IDX_VALUE { t } else { old(self).value@ })
                },
                _ => *final(self) == *old(self),
            },
    {
        match k.code {
            KeyCode::Esc => {
                self.editing = false;
                EnvFormAction::Nothing
            },
            KeyCode::Enter => {
                let val = self.textarea.text();
                if self.focused == IDX_KEY {
                    self.key = val;
                } else if self.focused == IDX_VALUE {
                    self.value = val;
                }
                self.editing = false;
                EnvFormAction::Nothing
            },
            _ => EnvFormAction::Nothing,
        }
    }

    /// The variable to save: the key trimmed, the value and flag as entered.
    pub fn build_var(&self) -> (v: EnvVar)
        ensures
            v.key@ == trim(self.key@),
            v.value@ == self.value@,
            v.sensitive == self.sensitive,
    {
        EnvVar {
            key: trim_str(self.key.as_str()),
            value: crate::chat::wrap::copy_string(&self.value),
            sensitive: self.sensitive,
        }
    }

    /// Whether the form can be saved: the trimmed key is not empty.
    pub fn is_valid(&self) -> (b: bool)
        ensures
            b == (trim(self.key@).len() > 0),
    {
        let t = trim_str(self.key.as_str());
        !t.as_str().is_empty()
    }
}

/// The label of field row `idx`.
pub open spec fn env_field_label(idx: int) -> Seq<char> {
    if idx == 0 {
        "名称 key"@
    } else if idx == 1 {
        "值 value"@
    } else {
        "敏感内容 sensitive"@
    }
}

/// Field row `idx` (key, value or the sensitive flag): the focus marker
/// (on the focused row when no text is being edited), the label, and the
/// value as the field shows it, the flag as 是/否 with the arrows that
/// toggle it.
pub open spec fn env_field_row(s: EnvFormState, idx: int, theme: Theme) -> LineV {
    let selected = idx == s.focused && !s.editing;
    let bg = if selected {
        theme.sel_bg
    } else {
        theme.bg
    };
    let value = if idx == IDX_SENSITIVE {
        if s.sensitive {
            "是  ←→"@
        } else {
            "否  ←→"@
        }
    } else {
        field_text(s, idx as usize)
    };
    seq![
        (if selected { "▸ "@ } else { "  "@ }, cell_style(None, bg, 0)),
        (env_field_label(idx), cell_style(Some(theme.fg), bg, 0)),
        (" : "@, cell_style(None, bg, 0)),
        (value, cell_style(Some(theme.title), bg, BOLD)),
    ]
}

/// The style of a button, highlighted when focused.
pub open spec fn button_style(focused: bool, theme: Theme) -> Style {
    if focused {
        Style { fg: Some(theme.sel_fg), bg: Some(theme.sel_bg), add_modifier: BOLD }
    } else {
        Style { fg: Some(theme.fg), bg: None, add_modifier: BOLD }
    }
}

/// The lines of the form: the three field rows, a blank line, and the Save
/// and Cancel buttons, the focused one marked and highlighted.
pub open spec fn spec_env_form_lines(s: EnvFormState, theme: Theme) -> Seq<LineV> {
    let on_save = s.focused == IDX_SAVE;
    let on_cancel = s.focused == IDX_CANCEL;
    seq![
        env_field_row(s, 0, theme),
        env_field_row(s, 1, theme),
        env_field_row(s, 2, theme),
        Seq::<SpanV>::empty(),
        seq![
            ((if on_save { "▸ "@ } else { "  "@ }) + "保存"@, button_style(on_save, theme)),
            ("    "@, plain_style()),
            ((if on_cancel { "▸ "@ } else { "  "@ }) + "取消"@, button_style(on_cancel, theme)),
        ],
    ]
}

/// The title of the form: editing an existing variable or adding one.
pub open spec fn env_form_title(s: EnvFormState) -> Seq<char> {
    if s.edit_index is Some {
        " 编辑环境变量 "@
    } else {
        " 新增环境变量 "@
    }
}

/// The hint under the form.
pub open spec fn env_form_hint(s: EnvFormState) -> Seq<char> {
    if s.editing {
        " Enter 提交 · Esc 取消编辑"@
    } else {
        " Enter 编辑字段 · ←→ 切换 sensitive · Esc 取消"@
    }
}

impl EnvFormState {
    fn field_row(&self, idx: usize, theme: &Theme) -> (r: Line)
        requires
            idx < 3,
        ensures
            r@ == env_field_row(*self, idx as int, *theme),
    {
        let selected = idx == self.focused && !self.editing;
        let bg = if selected {
            theme.sel_bg
        } else {
            theme.bg
        };
        let plain = Style { fg: None, bg: Some(bg), add_modifier: 0 };
        let value = if idx == IDX_SENSITIVE {
            (if self.sensitive { "是  ←→" } else { "否  ←→" }).to_owned()
        } else {
            self.get_field(idx)
        };
        let label = if idx == 0 {
            "名称 key"
        } else if idx == 1 {
            "值 value"
        } else {
            "敏感内容 sensitive"
        };
        let mut v: Vec<Span> = Vec::new();
        v.push(Span { content: (if selected { "▸ " } else { "  " }).to_owned(), style: plain });
        v.push(Span { content: label.to_owned(), style: Style { fg: Some(theme.fg), bg: Some(bg), add_modifier: 0 } });
        v.push(Span { content: " : ".to_owned(), style: plain });
        v.push(Span { content: value, style: Style { fg: Some(theme.title), bg: Some(bg), add_modifier: BOLD } });
        let l = Line { spans: v };
        assert(l@ =~= env_field_row(*self, idx as int, *theme));
        l
    }

    /// The lines of the form (see `spec_env_form_lines`).
    pub fn form_lines(&self, theme: &Theme) -> (r: Vec<Line>)
        ensures
            lines_view(r@) == spec_env_form_lines(*self, *theme),
    {
        let mut out: Vec<Line> = Vec::new();
        out.push(self.field_row(0, theme));
        out.push(self.field_row(1, theme));
        out.push(self.field_row(2, theme));
        out.push(Line { spans: Vec::new() });
        let on_save = self.focused == IDX_SAVE;
        let on_cancel = self.focused == IDX_CANCEL;
        let style_of = |f: bool| -> (st: Style)
            ensures
                st == button_style(f, *theme),
            {
                if f {
                    Style { fg: Some(theme.sel_fg), bg: Some(theme.sel_bg), add_modifier: BOLD }
                } else {
                    Style { fg: Some(theme.fg), bg: None, add_modifier: BOLD }
                }
            };
        let mut save = String::new();
        push_str(&mut save, if on_save { "▸ " } else { "  " });
        push_str(&mut save, "保存");
        let mut cancel = String::new();
        push_str(&mut cancel, if on_cancel { "▸ " } else { "  " });
        push_str(&mut cancel, "取消");
        let mut b: Vec<Span> = Vec::new();
        b.push(Span { content: save, style: style_of(on_save) });
        b.push(Span { content: "    ".to_owned(), style: Style::new() });
        b.push(Span { content: cancel, style: style_of(on_cancel) });
        out.push(Line { spans: b });
        proof {
            let want = spec_env_form_lines(*self, *theme);
            assert(out@[3]@ =~= Seq::<SpanV>::empty());
            assert(out@[4]@ =~= want[4]);
            assert(lines_view(out@) =~= want);
        }
        out
    }

    /// The title of the form (see `env_form_title`).
    pub fn title(&self) -> (r: &'static str)
        ensures
            r@ == env_form_title(*self),
    {
        if self.edit_index.is_some() {
            " 编辑环境变量 "
        } else {
            " 新增环境变量 "
        }
    }

    /// The hint under the form (see `env_form_hint`).
    pub fn hint(&self) -> (r: &'static str)
        ensures
            r@ == env_form_hint(*self),
    {
        if self.editing {
            " Enter 提交 · Esc 取消编辑"
        } else {
            " Enter 编辑字段 · ←→ 切换 sensitive · Esc 取消"
        }
    }
}

} // verus!
