//! The CTF challenge form: edit the fields of one challenge.
//!
//! Fields, in focus order: name, category, status (cycled with Left/Right),
//! description, target, flag, tags (separated by spaces), key points, scope
//! (cycled), then the Save and Cancel buttons. Text fields are edited in the
//! text box as in the other forms: Enter commits, Esc drops, other keys
//! belong to the text box widget.
use vstd::prelude::*;

use crate::chat::input::{input_text, insert_text, InputBox};
use crate::chat::wrap::copy_string;
use crate::ctf::{lemma_words_of_joined, plain_word, split_words, words, CtfCategory, CtfChallenge, CtfStatus};
use crate::event::{KeyCode, KeyEvent};
use crate::num::{decimal, push_decimal};
use crate::text::{
    contains_char, has_char, join, lemma_break_has_line, lines, lines_of, push_str, str_chars,
};

verus! {

broadcast use vstd::string::group_string_axioms;

/// Number of focusable fields.
pub const FIELD_COUNT: usize = 11;
/// Focus index of the category.
pub const IDX_CATEGORY: usize = 1;
/// Focus index of the status.
pub const IDX_STATUS: usize = 2;
/// Focus index of the scope (this session or all).
pub const IDX_GLOBAL: usize = 8;
/// Focus index of the Save button.
pub const IDX_SAVE: usize = 9;
/// Focus index of the Cancel button.
pub const IDX_CANCEL: usize = 10;

/// The categories in the order Left/Right cycles them.
pub open spec fn category_at(i: int) -> CtfCategory {
    if i == 0 {
        CtfCategory::Misc
    } else if i == 1 {
        CtfCategory::Web
    } else if i == 2 {
        CtfCategory::Reverse
    } else if i == 3 {
        CtfCategory::Pwn
    } else {
        CtfCategory::Crypto
    }
}

/// The statuses in the order Left/Right cycles them.
pub open spec fn status_at(i: int) -> CtfStatus {
    if i == 0 {
        CtfStatus::InProgress
    } else {
        CtfStatus::Solved
    }
}

/// The focus after Up: the previous field, the last one before the first.
pub open spec fn ctf_focus_up(f: int) -> int {
    if f == 0 {
        FIELD_COUNT - 1
    } else {
        f - 1
    }
}

/// The focus after Down: the next field, the first one after the last.
pub open spec fn ctf_focus_down(f: int) -> int {
    (f + 1) % (FIELD_COUNT as int)
}

/// Choice `i` of `n` stepped by `step` (-1 or 1), wrapping around.
pub open spec fn ctf_step(i: int, n: int, step: int) -> int {
    (i + n + step) % n
}

/// Up undoes Down and Down undoes Up, for every field of the form.
pub proof fn lemma_ctf_focus_round_trip(f: int)
    requires
        0 <= f < FIELD_COUNT,
    ensures
        ctf_focus_up(ctf_focus_down(f)) == f,
        ctf_focus_down(ctf_focus_up(f)) == f,
{
}

/// On the category, status and scope rows, Left undoes Right and Right
/// undoes Left.
pub proof fn lemma_ctf_choice_round_trip(i: int, n: int)
    requires
        n == 5 || n == 2,
        0 <= i < n,
    ensures
        ctf_step(ctf_step(i, n, 1), n, -1) == i,
        ctf_step(ctf_step(i, n, -1), n, 1) == i,
        0 <= ctf_step(i, n, 1) < n,
        0 <= ctf_step(i, n, -1) < n,
{
}

/// What a key press asks of the application.
#[derive(Debug, Clone, Copy, PartialEq, Eq, Structural)]
pub enum CtfEditFormAction {
    Nothing,
    Save,
    Cancel,
}

/// The form's state.
#[derive(Debug)]
pub struct CtfEditFormState {
    pub name: String,
    pub category_idx: usize,
    pub status_idx: usize,
    pub description: String,
    pub target: String,
    pub flag: String,
    pub tags: String,
    pub key_points: String,
    /// 0: this session only, 1: all sessions.
    pub global_idx: usize,
    /// The id of the edited challenge.
    pub challenge_id: String,
    pub focused: usize,
    pub editing: bool,
    /// The text being edited.
    pub textarea: InputBox,
}

/// `Some(s)` unless `s` is empty.
pub open spec fn opt_text(s: Seq<char>) -> Option<Seq<char>> {
    if s.len() == 0 {
        None
    } else {
        Some(s)
    }
}

/// The text of an optional field (empty for none).
pub open spec fn text_of(o: Option<String>) -> Seq<char> {
    match o {
        Some(s) => s@,
        None => Seq::empty(),
    }
}

/// The view of an optional text.
pub open spec fn opt_view(o: Option<String>) -> Option<Seq<char>> {
    match o {
        Some(s) => Some(s@),
        None => None,
    }
}

/// The text field `idx` of `s` shows (the scope as its label; the enum
/// fields and buttons show nothing here).
pub open spec fn ctf_field_text(s: CtfEditFormState, idx: usize) -> Seq<char> {
    if idx == 0 {
        s.name@
    } else if idx == 3 {
        s.description@
    } else if idx == 4 {
        s.target@
    } else if idx == 5 {
        s.flag@
    } else if idx == 6 {
        s.tags@
    } else if idx == 7 {
        s.key_points@
    } else if idx == 8 {
        if s.global_idx == 1 {
            "全局 ★"@
        } else {
            "仅本 session"@
        }
    } else {
        Seq::empty()
    }
}

/// `b` is `a` with text field `idx` set to `v` (everything else kept).
pub open spec fn ctf_field_set(a: CtfEditFormState, b: CtfEditFormState, idx: usize, v: Seq<char>) -> bool {
    &&& b.name@ == (if idx == 0 { v } else { a.name@ })
    &&& b.description@ == (if idx == 3 { v } else { a.description@ })
    &&& b.target@ == (if idx == 4 { v } else { a.target@ })
    &&& b.flag@ == (if idx == 5 { v } else { a.flag@ })
    &&& b.tags@ == (if idx == 6 { v } else { a.tags@ })
    &&& b.key_points@ == (if idx == 7 { v } else { a.key_points@ })
    &&& b.category_idx == a.category_idx
    &&& b.status_idx == a.status_idx
    &&& b.global_idx == a.global_idx
    &&& b.challenge_id@ == a.challenge_id@
}

/// How challenge `c` reads after the form `s` is applied at time `now`.
/// `end_time` is set when the challenge becomes solved and cleared when it
/// stops being solved.
pub open spec fn applied(s: CtfEditFormState, c: CtfChallenge, now: Seq<char>, r: CtfChallenge) -> bool {
    let was = c.status == CtfStatus::Solved;
    let is_now = status_at(s.status_idx as int) == CtfStatus::Solved;
    &&& r.id@ == c.id@
    &&& r.name@ == s.name@
    &&& r.category == category_at(s.category_idx as int)
    &&& r.status == status_at(s.status_idx as int)
    &&& r.description@ == s.description@
    &&& opt_view(r.target) == opt_text(s.target@)
    &&& opt_view(r.flag) == opt_text(s.flag@)
    &&& r.tags@.map_values(|w: String| w@) == words(s.tags@)
    &&& opt_view(r.key_points) == opt_text(s.key_points@)
    &&& r.is_global == (s.global_idx == 1)
    &&& r.start_time@ == c.start_time@
    &&& opt_view(r.writeup) == opt_view(c.writeup)
    &&& opt_view(r.end_time) == (if !was && is_now {
        Some(now)
    } else if was && !is_now {
        None
    } else {
        opt_view(c.end_time)
    })
}

/// `s` is the form loaded from challenge `c` (before any key).
pub open spec fn loaded_from(s: CtfEditFormState, c: CtfChallenge) -> bool {
    &&& s.name@ == c.name@
    &&& category_at(s.category_idx as int) == c.category
    &&& status_at(s.status_idx as int) == c.status
    &&& s.description@ == c.description@
    &&& s.target@ == text_of(c.target)
    &&& s.flag@ == text_of(c.flag)
    &&& s.tags@ == join(c.tags@.map_values(|w: String| w@), " "@)
    &&& s.key_points@ == text_of(c.key_points)
    &&& (s.global_idx == 1) == c.is_global
    &&& s.challenge_id@ == c.id@
}

/// An optional text that is absent or non-empty.
pub open spec fn no_empty_text(o: Option<String>) -> bool {
    o matches Some(t) ==> t@.len() > 0
}

/// Applying the form as it was loaded gives the challenge back, field for
/// field, when each optional text is absent or non-empty and each tag is a
/// word without whitespace (the shapes the form can produce).
pub proof fn lemma_apply_loaded_keeps(s: CtfEditFormState, c: CtfChallenge, now: Seq<char>, r: CtfChallenge)
    requires
        loaded_from(s, c),
        applied(s, c, now, r),
        no_empty_text(c.target),
        no_empty_text(c.flag),
        no_empty_text(c.key_points),
        forall|i: int| 0 <= i < c.tags@.len() ==> plain_word(#[trigger] c.tags@[i]@),
    ensures
        r.id@ == c.id@,
        r.name@ == c.name@,
        r.category == c.category,
        r.status == c.status,
        r.description@ == c.description@,
        opt_view(r.target) == opt_view(c.target),
        opt_view(r.flag) == opt_view(c.flag),
        opt_view(r.key_points) == opt_view(c.key_points),
        r.tags@.map_values(|w: String| w@) == c.tags@.map_values(|w: String| w@),
        r.is_global == c.is_global,
        r.start_time@ == c.start_time@,
        opt_view(r.end_time) == opt_view(c.end_time),
        opt_view(r.writeup) == opt_view(c.writeup),
{
    let tv = c.tags@.map_values(|w: String| w@);
    assert forall|i: int| 0 <= i < tv.len() implies plain_word(#[trigger] tv[i]) by {
        assert(plain_word(c.tags@[i]@));
    }
    lemma_words_of_joined(tv);
}

fn opt_string(s: &String) -> (r: Option<String>)
    ensures
        opt_view(r) == opt_text(s@),
{
    if s.as_str().is_empty() {
        None
    } else {
        Some(copy_string(s))
    }
}

fn text_or_empty(o: &Option<String>) -> (r: String)
    ensures
        r@ == text_of(*o),
{
    match o {
        Some(s) => copy_string(s),
        None => String::new(),
    }
}

/// The label of field row `idx`.
pub open spec fn ctf_field_label(idx: usize) -> Seq<char> {
    if idx == 0 {
        "名称 name"@
    } else if idx == 1 {
        "分类 category"@
    } else if idx == 2 {
        "状态 status"@
    } else if idx == 3 {
        "描述 description"@
    } else if idx == 4 {
        "靶机 target"@
    } else if idx == 5 {
        "Flag"@
    } else if idx == 6 {
        "标签 tags (空格分隔)"@
    } else if idx == 7 {
        "关键知识点 key_points"@
    } else if idx == 8 {
        "范围 scope"@
    } else if idx == 9 {
        "保存"@
    } else {
        "取消"@
    }
}

/// How a form row shows a text that may hold line breaks: a text without
/// one as it is, else its first line (nothing when that is empty) and how
/// many lines it has.
pub open spec fn line_summary(v: Seq<char>) -> Seq<char> {
    if has_char(v, '\n') {
        let ls = lines(v);
        if ls[0].len() == 0 {
            "("@ + decimal(ls.len()) + " 行)"@
        } else {
            ls[0] + " … ("@ + decimal(ls.len()) + " 行)"@
        }
    } else {
        v
    }
}

/// The text `v` as a form row shows it (see `line_summary`).
pub fn summarize_lines(v: String) -> (r: String)
    ensures
        r@ == line_summary(v@),
{
    let cs = str_chars(v.as_str());
    if contains_char(&cs, '\n') {
        proof {
            lemma_break_has_line(v@);
        }
        let ls = lines_of(v.as_str());
        let n = ls.len();
        let mut r = String::new();
        if ls[0].as_str().is_empty() {
            push_str(&mut r, "(");
        } else {
            push_str(&mut r, ls[0].as_str());
            push_str(&mut r, " … (");
        }
        push_decimal(&mut r, n as u64);
        push_str(&mut r, " 行)");
        r
    } else {
        v
    }
}

/// What row `idx` shows after its label: the category and status rows the
/// label of their choice (`enum_label`, named by the caller) and the arrows
/// that cycle it, the scope row its choice and the arrows, the description
/// and key points summarised (see `line_summary`), any other field its text.
pub open spec fn spec_row_value(s: CtfEditFormState, idx: usize, enum_label: Seq<char>) -> Seq<char> {
    let v = ctf_field_text(s, idx);
    if idx == IDX_CATEGORY || idx == IDX_STATUS {
        enum_label + "  ←→"@
    } else if idx == IDX_GLOBAL {
        v + "  ←→"@
    } else if idx == 3 || idx == 7 {
        line_summary(v)
    } else {
        v
    }
}

/// The whole text of field row `idx`: the focus marker (on the focused row
/// when no text is being edited), the label, and the value.
pub open spec fn spec_field_row(s: CtfEditFormState, idx: usize, enum_label: Seq<char>) -> Seq<char> {
    let marker = if idx == s.focused && !s.editing {
        "▸ "@
    } else {
        "  "@
    };
    marker + ctf_field_label(idx) + " : "@ + spec_row_value(s, idx, enum_label)
}

/// The text of button `idx` (Save or Cancel): bracketed, marked when it has
/// the focus and no text is being edited.
pub open spec fn ctf_button(s: CtfEditFormState, idx: usize) -> Seq<char> {
    (if s.focused == idx && !s.editing {
        "▸ ["@
    } else {
        "  ["@
    }) + ctf_field_label(idx) + "]"@
}

/// The title of the form: the challenge's name.
pub open spec fn ctf_form_title(s: CtfEditFormState) -> Seq<char> {
    " 编辑题目: "@ + s.name@ + " "@
}

impl CtfEditFormState {
    /// The indices name one option each and the text box has a line.
    pub open spec fn wf(&self) -> bool {
        &&& self.category_idx < 5
        &&& self.status_idx < 2
        &&& self.global_idx < 2
        &&& self.textarea.wf()
    }

    /// A form loaded from challenge `c`, the focus on the name.
    pub fn from_challenge(c: &CtfChallenge) -> (s: CtfEditFormState)
        ensures
            s.wf(),
            s.name@ == c.name@,
            category_at(s.category_idx as int) == c.category,
            status_at(s.status_idx as int) == c.status,
            s.description@ == c.description@,
            s.target@ == text_of(c.target),
            s.flag@ == text_of(c.flag),
            s.tags@ == join(c.tags@.map_values(|w: String| w@), " "@),
            s.key_points@ == text_of(c.key_points),
            (s.global_idx == 1) == c.is_global,
            s.challenge_id@ == c.id@,
            loaded_from(s, *c),
            s.focused == 0,
            !s.editing,
    {
        let category_idx: usize = match c.category {
            CtfCategory::Misc => 0,
            CtfCategory::Web => 1,
            CtfCategory::Reverse => 2,
            CtfCategory::Pwn => 3,
            CtfCategory::Crypto => 4,
        };
        let status_idx: usize = match c.status {
            CtfStatus::InProgress => 0,
            CtfStatus::Solved => 1,
        };
        let global_idx: usize = if c.is_global {
            1
        } else {
            0
        };
        let mut tags = String::new();
        let ghost tv = c.tags@.map_values(|w: String| w@);
        let mut i: usize = 0;
        while i < c.tags.len()
            invariant
                i <= c.tags@.len(),
                tv == c.tags@.map_values(|w: String| w@),
                tags@ == join(tv.take(i as int), " "@),
            decreases c.tags@.len() - i,
        {
            if i > 0 {
                push_str(&mut tags, " ");
            }
            push_str(&mut tags, c.tags[i].as_str());
            proof {
                let t = tv.take(i + 1);
                assert(t.drop_last() =~= tv.take(i as int));
                if i == 0 {
                    assert(t.len() == 1);
                    assert(tags@ =~= t[0]);
                }
            }
            assert(tags@ =~= join(tv.take(i + 1), " "@));
            i = i + 1;
        }
        assert(tv.take(c.tags@.len() as int) =~= tv);
        CtfEditFormState {
            name: copy_string(&c.name),
            category_idx,
            status_idx,
            description: copy_string(&c.description),
            target: text_or_empty(&c.target),
            flag: text_or_empty(&c.flag),
            tags,
            key_points: text_or_empty(&c.key_points),
            global_idx,
            challenge_id: copy_string(&c.id),
            focused: 0,
            editing: false,
            textarea: InputBox::new(),
        }
    }

    /// The selected category.
    pub fn category(&self) -> (c: CtfCategory)
        requires
            self.category_idx < 5,
        ensures
            c == category_at(self.category_idx as int),
    {
        if self.category_idx == 0 {
            CtfCategory::Misc
        } else if self.category_idx == 1 {
            CtfCategory::Web
        } else if self.category_idx == 2 {
            CtfCategory::Reverse
        } else if self.category_idx == 3 {
            CtfCategory::Pwn
        } else {
            CtfCategory::Crypto
        }
    }

    /// The selected status.
    pub fn status(&self) -> (s: CtfStatus)
        requires
            self.status_idx < 2,
        ensures
            s == status_at(self.status_idx as int),
    {
        if self.status_idx == 0 {
            CtfStatus::InProgress
        } else {
            CtfStatus::Solved
        }
    }

    /// Whether the challenge is shared by all sessions.
    pub fn is_global(&self) -> (b: bool)
        requires
            self.global_idx < 2,
        ensures
            b == (self.global_idx == 1),
    {
        self.global_idx == 1
    }

    /// The challenge `c` with the form's values, `now` being the current
    /// time text (see `applied`).
    pub fn apply_to(&self, c: CtfChallenge, now: String) -> (r: CtfChallenge)
        requires
            self.wf(),
        ensures
            applied(*self, c, now@, r),
    {
        let mut c = c;
        let ghost old_c = c;
        let was_solved = c.is_solved();
        let now_solved = self.status() == CtfStatus::Solved;
        c.name = copy_string(&self.name);
        c.category = self.category();
        c.status = self.status();
        c.description = copy_string(&self.description);
        c.target = opt_string(&self.target);
        c.flag = opt_string(&self.flag);
        c.tags = split_words(self.tags.as_str());
        c.key_points = opt_string(&self.key_points);
        c.is_global = self.is_global();
        if !was_solved && now_solved {
            c.end_time = Some(now);
        } else if was_solved && !now_solved {
            c.end_time = None;
        }
        c
    }

    /// Whether field `idx` is edited as text.
    pub fn is_text_field(idx: usize) -> (b: bool)
        ensures
            b == (idx == 0 || (3 <= idx <= 7)),
    {
        idx == 0 || (3 <= idx && idx <= 7)
    }

    /// The text field `idx` shows (see `ctf_field_text`).
    pub fn get_field(&self, idx: usize) -> (r: String)
        ensures
            r@ == ctf_field_text(*self, idx),
    {
        if idx == 0 {
            copy_string(&self.name)
        } else if idx == 3 {
            copy_string(&self.description)
        } else if idx == 4 {
            copy_string(&self.target)
        } else if idx == 5 {
            copy_string(&self.flag)
        } else if idx == 6 {
            copy_string(&self.tags)
        } else if idx == 7 {
            copy_string(&self.key_points)
        } else if idx == 8 {
            if self.global_idx == 1 {
                "全局 ★".to_owned()
            } else {
                "仅本 session".to_owned()
            }
        } else {
            String::new()
        }
    }

    /// Sets text field `idx` (other fields take no text).
    pub fn set_field(&mut self, idx: usize, val: String)
        ensures
            ctf_field_set(*old(self), *final(self), idx, val@),
            final(self).focused == old(self).focused,
            final(self).editing == old(self).editing,
            final(self).textarea == old(self).textarea,
    {
        if idx == 0 {
            self.name = val;
        } else if idx == 3 {
            self.description = val;
        } else if idx == 4 {
            self.target = val;
        } else if idx == 5 {
            self.flag = val;
        } else if idx == 6 {
            self.tags = val;
        } else if idx == 7 {
            self.key_points = val;
        }
    }

    /// The label of field row `idx`.
    pub fn field_label(idx: usize) -> (r: &'static str)
        ensures
            r@ == ctf_field_label(idx),
    {
        if idx == 0 {
            "名称 name"
        } else if idx == 1 {
            "分类 category"
        } else if idx == 2 {
            "状态 status"
        } else if idx == 3 {
            "描述 description"
        } else if idx == 4 {
            "靶机 target"
        } else if idx == 5 {
            "Flag"
        } else if idx == 6 {
            "标签 tags (空格分隔)"
        } else if idx == 7 {
            "关键知识点 key_points"
        } else if idx == 8 {
            "范围 scope"
        } else if idx == 9 {
            "保存"
        } else {
            "取消"
        }
    }

    /// The value row `idx` shows (see `spec_row_value`).
    pub fn row_value(&self, idx: usize, enum_label: &str) -> (r: String)
        ensures
            r@ == spec_row_value(*self, idx, enum_label@),
    {
        if idx == IDX_CATEGORY || idx == IDX_STATUS {
            let mut r = String::new();
            push_str(&mut r, enum_label);
            push_str(&mut r, "  ←→");
            return r;
        }
        let mut v = self.get_field(idx);
        if idx == IDX_GLOBAL {
            push_str(&mut v, "  ←→");
            return v;
        }
        if idx == 3 || idx == 7 {
            return summarize_lines(v);
        }
        v
    }

    /// The text of field row `idx` (see `spec_field_row`).
    pub fn field_row(&self, idx: usize, enum_label: &str) -> (r: String)
        ensures
            r@ == spec_field_row(*self, idx, enum_label@),
    {
        let mut r = String::new();
        if idx == self.focused && !self.editing {
            push_str(&mut r, "▸ ");
        } else {
            push_str(&mut r, "  ");
        }
        push_str(&mut r, Self::field_label(idx));
        push_str(&mut r, " : ");
        let v = self.row_value(idx, enum_label);
        push_str(&mut r, v.as_str());
        r
    }

    /// The text of button `idx` (see `ctf_button`).
    pub fn button(&self, idx: usize) -> (r: String)
        ensures
            r@ == ctf_button(*self, idx),
    {
        let mut r = String::new();
        if self.focused == idx && !self.editing {
            push_str(&mut r, "▸ [");
        } else {
            push_str(&mut r, "  [");
        }
        push_str(&mut r, Self::field_label(idx));
        push_str(&mut r, "]");
        r
    }

    /// The title of the form (see `ctf_form_title`).
    pub fn title(&self) -> (r: String)
        ensures
            r@ == ctf_form_title(*self),
    {
        let mut r = String::new();
        push_str(&mut r, " 编辑题目: ");
        push_str(&mut r, self.name.as_str());
        push_str(&mut r, " ");
        r
    }

    fn start_editing(&mut self, idx: usize)
        requires
            old(self).wf(),
        ensures
            final(self).wf(),
            final(self).editing,
            final(self).focused == old(self).focused,
            ctf_field_set(*old(self), *final(self), 99, Seq::empty()),
            final(self).textarea.lines_view() == insert_text(
                seq![Seq::<char>::empty()],
                ctf_field_text(*old(self), idx),
            ),
    {
        let val = self.get_field(idx);
        self.textarea.clear();
        self.textarea.insert_str(val.as_str());
        self.editing = true;
    }

    /// Handles a key (see the module documentation) and says what the
    /// application should do.
    pub fn handle_key(&mut self, k: KeyEvent) -> (a: CtfEditFormAction)
        requires
            old(self).wf(),
            !old(self).editing && k.code == KeyCode::Down ==> old(self).focused < usize::MAX,
        ensures
            final(self).wf(),
            old(self).editing ==> a == CtfEditFormAction::Nothing && final(self).focused
                == old(self).focused && match k.code {
                KeyCode::Enter => !final(self).editing && ctf_field_set(
                    *old(self),
                    *final(self),
                    old(self).focused,
                    input_text(old(self).textarea.lines_view()),
                ),
                KeyCode::Esc => !final(self).editing && ctf_field_set(*old(self), *final(self), 99, Seq::empty()),
                _ => *final(self) == *old(self),
            },
            !old(self).editing ==> match k.code {
                KeyCode::Up => a == CtfEditFormAction::Nothing && !final(self).editing && ctf_field_set(
                    *old(self),
                    *final(self),
                    99,
                    Seq::empty(),
                ) && final(self).focused == ctf_focus_up(old(self).focused as int),
                KeyCode::Down => a == CtfEditFormAction::Nothing && !final(self).editing && ctf_field_set(
                    *old(self),
                    *final(self),
                    99,
                    Seq::empty(),
                ) && final(self).focused == ctf_focus_down(old(self).focused as int),
                KeyCode::Left | KeyCode::Right => {
                    let step: int = if k.code == KeyCode::Left {
                        -1
                    } else {
                        1
                    };
                    &&& a == CtfEditFormAction::Nothing
                    &&& !final(self).editing
                    &&& final(self).focused == old(self).focused
                    &&& final(self).name@ == old(self).name@
                    &&& final(self).category_idx == (if old(self).focused == IDX_CATEGORY {
                        ctf_step(old(self).category_idx as int, 5, step) as usize
                    } else {
                        old(self).category_idx
                    })
                    &&& final(self).status_idx == (if old(self).focused == IDX_STATUS {
                        ctf_step(old(self).status_idx as int, 2, step) as usize
                    } else {
                        old(self).status_idx
                    })
                    &&& final(self).global_idx == (if old(self).focused == IDX_GLOBAL {
                        ctf_step(old(self).global_idx as int, 2, step) as usize
                    } else {
                        old(self).global_idx
                    })
                },
                KeyCode::Enter => if old(self).focused == IDX_SAVE {
                    a == CtfEditFormAction::Save && *final(self) == *old(self)
                } else if old(self).focused == IDX_CANCEL {
                    a == CtfEditFormAction::Cancel && *final(self) == *old(self)
                } else if old(self).focused == 0 || 3 <= old(self).focused <= 7 {
                    a == CtfEditFormAction::Nothing && final(self).editing && final(self).focused
                        == old(self).focused && ctf_field_set(*old(self), *final(self), 99, Seq::empty())
                        && final(self).textarea.lines_view() == insert_text(
                        seq![Seq::<char>::empty()],
                        ctf_field_text(*old(self), old(self).focused),
                    )
                } else {
                    a == CtfEditFormAction::Nothing && *final(self) == *old(self)
                },
                KeyCode::Esc => a == CtfEditFormAction::Cancel && *final(self) == *old(self),
                _ => a == CtfEditFormAction::Nothing && *final(self) == *old(self),
            },
    {
        if self.editing {
            return self.handle_editing_key(k);
        }
        match k.code {
            KeyCode::Up => {
                if self.focused == 0 {
                    self.focused = FIELD_COUNT - 1;
                } else {
                    self.focused = self.focused - 1;
                }
                CtfEditFormAction::Nothing
            },
            KeyCode::Down => {
                self.focused = (self.focused + 1) % FIELD_COUNT;
                CtfEditFormAction::Nothing
            },
            KeyCode::Left => {
                if self.focused == IDX_CATEGORY {
                    self.category_idx = (self.category_idx + 5 - 1) % 5;
                } else if self.focused == IDX_STATUS {
                    self.status_idx = (self.status_idx + 2 - 1) % 2;
                } else if self.focused == IDX_GLOBAL {
                    self.global_idx = (self.global_idx + 2 - 1) % 2;
                }
                CtfEditFormAction::Nothing
            },
            KeyCode::Right => {
                if self.focused == IDX_CATEGORY {
                    self.category_idx = (self.category_idx + 1) % 5;
                } else if self.focused == IDX_STATUS {
                    self.status_idx = (self.status_idx + 1) % 2;
                } else if self.focused == IDX_GLOBAL {
                    self.global_idx = (self.global_idx + 1) % 2;
                }
                CtfEditFormAction::Nothing
            },
            KeyCode::Enter => {
                if self.focused == IDX_SAVE {
                    CtfEditFormAction::Save
                } else if self.focused == IDX_CANCEL {
                    CtfEditFormAction::Cancel
                } else if Self::is_text_field(self.focused) {
                    let f = self.focused;
                    self.start_editing(f);
                    CtfEditFormAction::Nothing
                } else {
                    CtfEditFormAction::Nothing
                }
            },
            KeyCode::Esc => CtfEditFormAction::Cancel,
            _ => CtfEditFormAction::Nothing,
        }
    }

    fn handle_editing_key(&mut self, k: KeyEvent) -> (a: CtfEditFormAction)
        requires
            old(self).wf(),
        ensures
            final(self).wf(),
            a == CtfEditFormAction::Nothing,
            final(self).focused == old(self).focused,
            match k.code {
                KeyCode::Enter => !final(self).editing && ctf_field_set(
                    *old(self),
                    *final(self),
                    old(self).focused,
                    input_text(old(self).textarea.lines_view()),
                ),
                KeyCode::Esc => !final(self).editing && ctf_field_set(*old(self), *final(self), 99, Seq::empty()),
                _ => *final(self) == *old(self),
            },
    {
        match k.code {
            KeyCode::Enter => {
                let val = self.textarea.text();
                let f = self.focused;
                self.set_field(f, val);
                self.editing = false;
                CtfEditFormAction::Nothing
            },
            KeyCode::Esc => {
                self.editing = false;
                CtfEditFormAction::Nothing
            },
            _ => CtfEditFormAction::Nothing,
        }
    }
}

} // verus!
