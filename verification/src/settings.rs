//! Settings page state: which section and row has the cursor, and the pure
//! value-editing rules (boolean toggle, enum cycling, bounded number steps).
//!
//! The sections are, in order: UI, Agent, Workflow, Tools, Storage (editable,
//! each followed by a "save" row), then Providers, MCP and Skills (lists with
//! their own cursors; Providers and MCP lists end in a save button row).
use vstd::prelude::*;

use crate::chat::wrap::copy_string;
use crate::config::{Config, ConfigV};
use crate::strmap::{assoc_keys, StringMap};
use crate::num::{decimal, lemma_parse_decimal, parse_u64, parse_u64_spec, push_decimal, u64_to_string};
use crate::text::{chars_eq, join, push_str, str_chars, starts_with, starts_with_at};

verus! {

broadcast use vstd::string::group_string_axioms;

/// Number of sections.
pub const SECTION_COUNT: usize = 8;

/// Index of the Providers section.
pub const PROVIDERS_SECTION_IDX: usize = 5;

/// Index of the MCP section.
pub const MCP_SECTION_IDX: usize = 6;

/// Index of the Skills section.
pub const SKILLS_SECTION_IDX: usize = 7;

/// Whether section `s` is edited field by field.
pub open spec fn section_editable(s: int) -> bool {
    0 <= s < 5
}

/// Number of fields of section `s` (0 for the list sections).
pub open spec fn section_field_count(s: int) -> int {
    if s == 0 {
        5
    } else if s == 1 {
        3
    } else if s == 2 {
        3
    } else if s == 3 {
        2
    } else if s == 4 {
        2
    } else {
        0
    }
}

/// Number of fields of section `s`.
pub fn field_count(s: usize) -> (n: usize)
    ensures
        n == section_field_count(s as int),
{
    if s == 0 {
        5
    } else if s == 1 {
        3
    } else if s == 2 {
        3
    } else if s == 3 {
        2
    } else if s == 4 {
        2
    } else {
        0
    }
}

/// Side effect that the application must apply at once after an edit.
#[derive(Debug, Clone, Copy, PartialEq, Eq, Structural)]
pub enum LiveApply {
    /// Nothing to apply.
    Nothing,
    Theme,
    Mouse,
}

/// Cursor state of the settings page; kept across visits.
#[derive(Debug, Clone, Copy, Default)]
pub struct SettingsState {
    pub section: usize,
    pub selected: usize,
    pub dirty: bool,
    /// Set by the first Esc while dirty; a second Esc discards the edits.
    pub pending_discard: bool,
    pub dirty_providers: bool,
    pub provider_selected: usize,
    /// Row armed for deletion by a first `d`.
    pub pending_delete_idx: Option<usize>,
    pub dirty_mcp: bool,
    pub mcp_selected: usize,
    pub mcp_pending_delete_idx: Option<usize>,
    pub skills_selected: usize,
    /// Providers cursor is on the save button row.
    pub provider_on_save: bool,
    /// MCP cursor is on the save button row.
    pub mcp_on_save: bool,
}

/// The themes, in the order the theme field cycles them.
pub open spec fn theme_options() -> Seq<Seq<char>> {
    seq!["catppuccin"@, "cyberpunk"@, "dracula"@, "gruvbox"@, "nord"@, "tokyo-night"@]
}

/// The start modes, in the order the default-mode field cycles them.
pub open spec fn mode_options() -> Seq<Seq<char>> {
    seq!["chat"@, "workflow"@, "dashboard"@]
}

/// How a settings field is edited.
pub enum FieldEdit {
    /// A boolean, flipped.
    Toggle,
    /// One of the options, stepped through.
    Cycle(Seq<Seq<char>>),
    /// A number moved by `step` within `[min, max]`.
    Step { min: u64, max: u64, step: u64 },
    /// Shown only.
    Fixed,
}

/// The field at row `sel` of section `sec`, `names` being the provider
/// names sorted (the options of the default provider); `None` where there
/// is no field (the save row, or a list section).
pub open spec fn field_edit(sec: int, sel: int, names: Seq<Seq<char>>) -> Option<FieldEdit> {
    if sec == 0 && sel == 0 {
        Some(FieldEdit::Cycle(theme_options()))
    } else if sec == 0 && sel == 1 {
        Some(FieldEdit::Cycle(mode_options()))
    } else if sec == 0 && sel == 2 {
        Some(FieldEdit::Toggle)
    } else if sec == 0 && (sel == 3 || sel == 4) {
        Some(FieldEdit::Fixed)
    } else if sec == 1 && sel == 0 {
        Some(FieldEdit::Cycle(names))
    } else if sec == 1 && sel == 1 {
        Some(FieldEdit::Toggle)
    } else if sec == 1 && sel == 2 {
        Some(FieldEdit::Step { min: 1, max: 200, step: 1 })
    } else if sec == 2 && sel == 0 {
        Some(FieldEdit::Step { min: 1, max: 64, step: 1 })
    } else if sec == 2 && sel == 1 {
        Some(FieldEdit::Step { min: 1, max: 86400, step: 60 })
    } else if sec == 2 && sel == 2 {
        Some(FieldEdit::Toggle)
    } else if sec == 3 && sel == 0 {
        Some(FieldEdit::Toggle)
    } else if sec == 3 && sel == 1 {
        Some(FieldEdit::Fixed)
    } else if sec == 4 && sel == 0 {
        Some(FieldEdit::Step { min: 1, max: 3650, step: 1 })
    } else if sec == 4 && sel == 1 {
        Some(FieldEdit::Fixed)
    } else {
        None
    }
}

/// A boolean as text.
pub open spec fn bool_text(b: bool) -> Seq<char> {
    if b {
        "true"@
    } else {
        "false"@
    }
}

/// The extra search paths as shown: joined by ", ", or "(空)" when none.
pub open spec fn paths_text(p: Seq<Seq<char>>) -> Seq<char> {
    if p.len() == 0 {
        "(空)"@
    } else {
        join(p, ", "@)
    }
}

/// The text the field at `(sec, sel)` shows for configuration `c`.
pub open spec fn field_text(c: ConfigV, sec: int, sel: int) -> Seq<char> {
    if sec == 0 && sel == 0 {
        c.theme
    } else if sec == 0 && sel == 1 {
        c.default_mode
    } else if sec == 0 && sel == 2 {
        bool_text(c.mouse)
    } else if sec == 0 && sel == 3 {
        bool_text(c.animations)
    } else if sec == 0 && sel == 4 {
        decimal(c.frame_rate as nat)
    } else if sec == 1 && sel == 0 {
        c.default_provider
    } else if sec == 1 && sel == 1 {
        bool_text(c.auto_tool_call)
    } else if sec == 1 && sel == 2 {
        decimal(c.max_steps as nat)
    } else if sec == 2 && sel == 0 {
        decimal(c.max_parallel_nodes as nat)
    } else if sec == 2 && sel == 1 {
        decimal(c.default_timeout_secs as nat)
    } else if sec == 2 && sel == 2 {
        bool_text(c.checkpoint)
    } else if sec == 3 && sel == 0 {
        bool_text(c.prefer_docker)
    } else if sec == 3 && sel == 1 {
        paths_text(c.extra_path)
    } else if sec == 4 && sel == 0 {
        decimal(c.history_retention_days as nat)
    } else if sec == 4 && sel == 1 {
        c.log_level
    } else {
        Seq::empty()
    }
}

/// The text of a field after one edit.
pub open spec fn edited_text(cur: Seq<char>, e: FieldEdit, forward: bool) -> Seq<char> {
    match e {
        FieldEdit::Toggle => spec_toggle_bool(cur),
        FieldEdit::Cycle(opts) => spec_cycle(cur, opts, forward),
        FieldEdit::Step { min, max, step } => spec_adjust(cur, step, forward, min, max),
        FieldEdit::Fixed => cur,
    }
}

/// The number `v` reads as, or `d` when it is not one.
pub open spec fn number_or(v: Seq<char>, d: u64) -> u64 {
    match parse_u64_spec(v) {
        Some(n) => n,
        None => d,
    }
}

/// `c` with the field at `(sec, sel)` set from the text `v` (a boolean is
/// true for `"true"` only; a number falls back to its default when `v` is
/// not one; shown-only fields ignore `v`).
pub open spec fn with_field(c: ConfigV, sec: int, sel: int, v: Seq<char>) -> ConfigV {
    if sec == 0 && sel == 0 {
        ConfigV { theme: v, ..c }
    } else if sec == 0 && sel == 1 {
        ConfigV { default_mode: v, ..c }
    } else if sec == 0 && sel == 2 {
        ConfigV { mouse: v == "true"@, ..c }
    } else if sec == 1 && sel == 0 {
        ConfigV { default_provider: v, ..c }
    } else if sec == 1 && sel == 1 {
        ConfigV { auto_tool_call: v == "true"@, ..c }
    } else if sec == 1 && sel == 2 {
        ConfigV { max_steps: number_or(v, 50), ..c }
    } else if sec == 2 && sel == 0 {
        ConfigV { max_parallel_nodes: number_or(v, 8), ..c }
    } else if sec == 2 && sel == 1 {
        ConfigV { default_timeout_secs: number_or(v, 1800), ..c }
    } else if sec == 2 && sel == 2 {
        ConfigV { checkpoint: v == "true"@, ..c }
    } else if sec == 3 && sel == 0 {
        ConfigV { prefer_docker: v == "true"@, ..c }
    } else if sec == 4 && sel == 0 {
        ConfigV { history_retention_days: number_or(v, 90), ..c }
    } else {
        c
    }
}

/// What the application applies at once after editing `(sec, sel)`.
pub open spec fn field_live(sec: int, sel: int) -> LiveApply {
    if sec == 0 && sel == 0 {
        LiveApply::Theme
    } else if sec == 0 && sel == 2 {
        LiveApply::Mouse
    } else {
        LiveApply::Nothing
    }
}

/// `v` moved by `step` (saturating at the ends of `u64`) and clamped to
/// `[min, max]`.
pub open spec fn stepped(v: u64, step: u64, forward: bool, min: u64, max: u64) -> u64 {
    let moved: int = if forward {
        if v + step > u64::MAX {
            u64::MAX as int
        } else {
            v + step
        }
    } else {
        if v - step < 0 {
            0
        } else {
            v - step
        }
    };
    (if moved < min {
        min as int
    } else if moved > max {
        max as int
    } else {
        moved
    }) as u64
}

/// Editing a number field stores the stepped, clamped number: the shown
/// text of `v` stepped and read back is `stepped(v, ..)`, whatever the
/// field's fallback `d`.
pub proof fn lemma_step_number_field(v: u64, step: u64, forward: bool, min: u64, max: u64, d: u64)
    requires
        min <= max,
    ensures
        number_or(spec_adjust(decimal(v as nat), step, forward, min, max), d) == stepped(
            v,
            step,
            forward,
            min,
            max,
        ),
{
    lemma_parse_decimal(v);
    let t = stepped(v, step, forward, min, max);
    assert(spec_adjust(decimal(v as nat), step, forward, min, max) == decimal(t as nat));
    lemma_parse_decimal(t);
}

fn bool_string(b: bool) -> (r: String)
    ensures
        r@ == bool_text(b),
{
    if b {
        "true".to_owned()
    } else {
        "false".to_owned()
    }
}

fn paths_string(p: &Vec<String>) -> (r: String)
    ensures
        r@ == paths_text(p@.map_values(|x: String| x@)),
{
    let ghost pv = p@.map_values(|x: String| x@);
    if p.len() == 0 {
        return "(空)".to_owned();
    }
    let mut s = String::new();
    let mut i: usize = 0;
    while i < p.len()
        invariant
            i <= p@.len(),
            pv == p@.map_values(|x: String| x@),
            s@ == join(pv.take(i as int), ", "@),
        decreases p@.len() - i,
    {
        if i > 0 {
            push_str(&mut s, ", ");
        }
        push_str(&mut s, p[i].as_str());
        proof {
            let t = pv.take(i + 1);
            assert(t.drop_last() =~= pv.take(i as int));
            if i == 0 {
                assert(t.len() == 1);
                assert(s@ =~= t[0]);
            }
        }
        assert(s@ =~= join(pv.take(i + 1), ", "@));
        i = i + 1;
    }
    assert(pv.take(p@.len() as int) =~= pv);
    s
}

/// The text the field at `(sec, sel)` shows.
fn field_string(c: &Config, sec: usize, sel: usize) -> (r: String)
    ensures
        r@ == field_text(c@, sec as int, sel as int),
{
    if sec == 0 && sel == 0 {
        copy_string(&c.ui.theme)
    } else if sec == 0 && sel == 1 {
        copy_string(&c.ui.default_mode)
    } else if sec == 0 && sel == 2 {
        bool_string(c.ui.mouse)
    } else if sec == 0 && sel == 3 {
        bool_string(c.ui.animations)
    } else if sec == 0 && sel == 4 {
        u64_to_string(c.ui.frame_rate)
    } else if sec == 1 && sel == 0 {
        copy_string(&c.agent.default_provider)
    } else if sec == 1 && sel == 1 {
        bool_string(c.agent.auto_tool_call)
    } else if sec == 1 && sel == 2 {
        u64_to_string(c.agent.max_steps)
    } else if sec == 2 && sel == 0 {
        u64_to_string(c.workflow.max_parallel_nodes)
    } else if sec == 2 && sel == 1 {
        u64_to_string(c.workflow.default_timeout_secs)
    } else if sec == 2 && sel == 2 {
        bool_string(c.workflow.checkpoint)
    } else if sec == 3 && sel == 0 {
        bool_string(c.tools.prefer_docker)
    } else if sec == 3 && sel == 1 {
        paths_string(&c.tools.extra_path)
    } else if sec == 4 && sel == 0 {
        u64_to_string(c.storage.history_retention_days)
    } else if sec == 4 && sel == 1 {
        copy_string(&c.storage.log_level)
    } else {
        String::new()
    }
}

/// What the settings page shows for the field at `(sec, sel)`: a boolean
/// that can be flipped as "on" or "off", anything else as its text.
pub open spec fn shown_value(c: ConfigV, sec: int, sel: int) -> Seq<char> {
    match field_edit(sec, sel, Seq::empty()) {
        Some(FieldEdit::Toggle) => if field_text(c, sec, sel) == "true"@ {
            "on"@
        } else {
            "off"@
        },
        _ => field_text(c, sec, sel),
    }
}

/// The value shown for the field at `(sec, sel)` (see `shown_value`).
pub fn display_value(c: &Config, sec: usize, sel: usize) -> (r: String)
    ensures
        r@ == shown_value(c@, sec as int, sel as int),
{
    let raw = field_string(c, sec, sel);
    let toggle = (sec == 0 && sel == 2) || (sec == 1 && sel == 1) || (sec == 2 && sel == 2) || (sec == 3
        && sel == 0);
    if toggle {
        if crate::text::chars_eq_str(&str_chars(raw.as_str()), "true") {
            "on".to_owned()
        } else {
            "off".to_owned()
        }
    } else {
        raw
    }
}

fn number_or_default(v: &str, d: u64) -> (r: u64)
    ensures
        r == number_or(v@, d),
{
    match parse_u64(v) {
        Some(n) => n,
        None => d,
    }
}

/// Sets the field at `(sec, sel)` from the text `v` (see `with_field`).
fn set_field(c: &mut Config, sec: usize, sel: usize, v: String)
    ensures
        final(c)@ == with_field(old(c)@, sec as int, sel as int, v@),
{
    proof {
        reveal_strlit("true");
    }
    if sec == 0 && sel == 0 {
        c.ui.theme = v;
    } else if sec == 0 && sel == 1 {
        c.ui.default_mode = v;
    } else if sec == 0 && sel == 2 {
        c.ui.mouse = crate::text::chars_eq_str(&str_chars(v.as_str()), "true");
    } else if sec == 1 && sel == 0 {
        c.agent.default_provider = v;
    } else if sec == 1 && sel == 1 {
        c.agent.auto_tool_call = crate::text::chars_eq_str(&str_chars(v.as_str()), "true");
    } else if sec == 1 && sel == 2 {
        c.agent.max_steps = number_or_default(v.as_str(), 50);
    } else if sec == 2 && sel == 0 {
        c.workflow.max_parallel_nodes = number_or_default(v.as_str(), 8);
    } else if sec == 2 && sel == 1 {
        c.workflow.default_timeout_secs = number_or_default(v.as_str(), 1800);
    } else if sec == 2 && sel == 2 {
        c.workflow.checkpoint = crate::text::chars_eq_str(&str_chars(v.as_str()), "true");
    } else if sec == 3 && sel == 0 {
        c.tools.prefer_docker = crate::text::chars_eq_str(&str_chars(v.as_str()), "true");
    } else if sec == 4 && sel == 0 {
        c.storage.history_retention_days = number_or_default(v.as_str(), 90);
    }
}

/// The fixed options of a cycled field as a list.
fn theme_list() -> (r: Vec<&'static str>)
    ensures
        option_texts(r@) == theme_options(),
{
    let r = vec!["catppuccin", "cyberpunk", "dracula", "gruvbox", "nord", "tokyo-night"];
    assert(option_texts(r@) =~= theme_options());
    r
}

fn mode_list() -> (r: Vec<&'static str>)
    ensures
        option_texts(r@) == mode_options(),
{
    let r = vec!["chat", "workflow", "dashboard"];
    assert(option_texts(r@) =~= mode_options());
    r
}

fn key_list(m: &StringMap) -> (r: Vec<&str>)
    requires
        m.wf(),
    ensures
        option_texts(r@) == assoc_keys(m@),
{
    let mut r: Vec<&str> = Vec::new();
    let mut i: usize = 0;
    let n = m.len();
    while i < n
        invariant
            m.wf(),
            n == m@.len(),
            i <= n,
            option_texts(r@) == assoc_keys(m@).take(i as int),
        decreases n - i,
    {
        let (k, _) = m.entry(i);
        let ghost before = r@;
        r.push(k.as_str());
        assert(option_texts(r@) =~= option_texts(before).push(m@[i as int].0));
        assert(assoc_keys(m@).take(i + 1) =~= assoc_keys(m@).take(i as int).push(m@[i as int].0));
        i = i + 1;
    }
    assert(assoc_keys(m@).take(n as int) =~= assoc_keys(m@));
    r
}

/// The state of a settings page not visited yet.
pub open spec fn initial_settings() -> SettingsState {
    SettingsState {
        section: 0,
        selected: 0,
        dirty: false,
        pending_discard: false,
        dirty_providers: false,
        provider_selected: 0,
        pending_delete_idx: None,
        dirty_mcp: false,
        mcp_selected: 0,
        mcp_pending_delete_idx: None,
        skills_selected: 0,
        provider_on_save: false,
        mcp_on_save: false,
    }
}

impl SettingsState {
    /// The section index names one of the sections.
    pub open spec fn wf(&self) -> bool {
        self.section < SECTION_COUNT
    }

    /// Edits the field under the cursor (`forward`: right or down, else left
    /// or up) in `config`; the names of `providers` are the options of the
    /// default provider.
    /// The field changes, and the page becomes dirty, only where the edit
    /// gives a different text. Says what the application must apply at once.
    /// On a save row or in a list section nothing happens.
    pub fn apply_edit(&mut self, config: &mut Config, providers: &StringMap, forward: bool) -> (r: LiveApply)
        requires
            providers.wf(),
        ensures
            ({
                let sec = old(self).section as int;
                let sel = old(self).selected as int;
                match field_edit(sec, sel, assoc_keys(providers@)) {
                    None => {
                        &&& r == LiveApply::Nothing
                        &&& final(config)@ == old(config)@
                        &&& *final(self) == *old(self)
                    },
                    Some(e) => {
                        let cur = field_text(old(config)@, sec, sel);
                        let new = edited_text(cur, e, forward);
                        &&& r == field_live(sec, sel)
                        &&& final(config)@ == (if new != cur {
                            with_field(old(config)@, sec, sel, new)
                        } else {
                            old(config)@
                        })
                        &&& *final(self) == SettingsState { dirty: old(self).dirty || new != cur, ..*old(self) }
                    },
                }
            }),
    {
        let sec = self.section;
        let sel = self.selected;
        let is_field = (sec == 0 && sel < 5) || (sec == 1 && sel < 3) || (sec == 2 && sel < 3)
            || (sec == 3 && sel < 2) || (sec == 4 && sel < 2);
        if !is_field {
            return LiveApply::Nothing;
        }
        let cur = field_string(config, sec, sel);
        let new: String = if (sec == 0 && sel == 2) || (sec == 1 && sel == 1) || (sec == 2 && sel == 2)
            || (sec == 3 && sel == 0) {
            toggle_bool(cur.as_str())
        } else if sec == 0 && sel == 0 {
            let opts = theme_list();
            cycle_enum(cur.as_str(), opts.as_slice(), forward)
        } else if sec == 0 && sel == 1 {
            let opts = mode_list();
            cycle_enum(cur.as_str(), opts.as_slice(), forward)
        } else if sec == 1 && sel == 0 {
            let opts = key_list(providers);
            cycle_enum(cur.as_str(), opts.as_slice(), forward)
        } else if sec == 1 && sel == 2 {
            adjust_number(cur.as_str(), 1, forward, 1, 200)
        } else if sec == 2 && sel == 0 {
            adjust_number(cur.as_str(), 1, forward, 1, 64)
        } else if sec == 2 && sel == 1 {
            adjust_number(cur.as_str(), 60, forward, 1, 86400)
        } else if sec == 4 && sel == 0 {
            adjust_number(cur.as_str(), 1, forward, 1, 3650)
        } else {
            copy_string(&cur)
        };
        let same = chars_eq(&str_chars(new.as_str()), &str_chars(cur.as_str()));
        if !same {
            set_field(config, sec, sel, new);
            self.dirty = true;
        }
        if sec == 0 && sel == 0 {
            LiveApply::Theme
        } else if sec == 0 && sel == 2 {
            LiveApply::Mouse
        } else {
            LiveApply::Nothing
        }
    }

    /// Cursor at the first row of the first section, nothing dirty or pending.
    pub fn new() -> (s: Self)
        ensures
            s.wf(),
            s == initial_settings(),
    {
        SettingsState {
            section: 0,
            selected: 0,
            dirty: false,
            pending_discard: false,
            dirty_providers: false,
            provider_selected: 0,
            pending_delete_idx: None,
            dirty_mcp: false,
            mcp_selected: 0,
            mcp_pending_delete_idx: None,
            skills_selected: 0,
            provider_on_save: false,
            mcp_on_save: false,
        }
    }

    /// The cursor is on the "save settings" row of an editable section.
    pub fn on_save_row(&self) -> (b: bool)
        requires
            self.wf(),
        ensures
            b == (section_editable(self.section as int) && self.selected >= section_field_count(
                self.section as int,
            )),
    {
        self.section < 5 && self.selected >= field_count(self.section)
    }

    /// The current section is edited field by field.
    pub fn is_editable(&self) -> (b: bool)
        requires
            self.wf(),
        ensures
            b == section_editable(self.section as int),
    {
        self.section < 5
    }

    pub fn on_providers_section(&self) -> (b: bool)
        ensures
            b == (self.section == PROVIDERS_SECTION_IDX),
    {
        self.section == PROVIDERS_SECTION_IDX
    }

    pub fn on_mcp_section(&self) -> (b: bool)
        ensures
            b == (self.section == MCP_SECTION_IDX),
    {
        self.section == MCP_SECTION_IDX
    }

    pub fn on_skills_section(&self) -> (b: bool)
        ensures
            b == (self.section == SKILLS_SECTION_IDX),
    {
        self.section == SKILLS_SECTION_IDX
    }

    pub fn on_provider_save_row(&self) -> (b: bool)
        ensures
            b == (self.section == PROVIDERS_SECTION_IDX && self.provider_on_save),
    {
        self.on_providers_section() && self.provider_on_save
    }

    pub fn on_mcp_save_row(&self) -> (b: bool)
        ensures
            b == (self.section == MCP_SECTION_IDX && self.mcp_on_save),
    {
        self.on_mcp_section() && self.mcp_on_save
    }

    /// Providers cursor down over `len` rows; past the last row it moves to
    /// the save row, where it stays.
    pub fn next_provider(&mut self, len: usize)
        ensures
            old(self).provider_on_save ==> *final(self) == *old(self),
            !old(self).provider_on_save && len == 0 ==> *final(self) == (SettingsState {
                provider_on_save: true,
                provider_selected: 0,
                ..*old(self)
            }),
            !old(self).provider_on_save && len > 0 && old(self).provider_selected + 1 >= len
                ==> *final(self) == (SettingsState { provider_on_save: true, ..*old(self) }),
            !old(self).provider_on_save && len > 0 && old(self).provider_selected + 1 < len
                ==> *final(self) == (SettingsState {
                provider_selected: (old(self).provider_selected + 1) as usize,
                ..*old(self)
            }),
    {
        if self.provider_on_save {
            return;
        }
        if len == 0 {
            self.provider_on_save = true;
            self.provider_selected = 0;
            return;
        }
        if self.provider_selected >= len - 1 {
            self.provider_on_save = true;
        } else {
            self.provider_selected = self.provider_selected + 1;
        }
    }

    /// Providers cursor up; from the save row it returns to the last row.
    pub fn prev_provider(&mut self, len: usize)
        ensures
            old(self).provider_on_save ==> *final(self) == (SettingsState {
                provider_on_save: false,
                provider_selected: if len > 0 {
                    (len - 1) as usize
                } else {
                    0
                },
                ..*old(self)
            }),
            !old(self).provider_on_save ==> *final(self) == (SettingsState {
                provider_selected: if len == 0 || old(self).provider_selected == 0 {
                    0
                } else {
                    (old(self).provider_selected - 1) as usize
                },
                ..*old(self)
            }),
    {
        if self.provider_on_save {
            self.provider_on_save = false;
            if len > 0 {
                self.provider_selected = len - 1;
            } else {
                self.provider_selected = 0;
            }
            return;
        }
        if len == 0 {
            self.provider_selected = 0;
            return;
        }
        if self.provider_selected > 0 {
            self.provider_selected = self.provider_selected - 1;
        }
    }

    /// MCP cursor down; past the last row it moves to the save row.
    pub fn next_mcp(&mut self, len: usize)
        ensures
            old(self).mcp_on_save ==> *final(self) == *old(self),
            !old(self).mcp_on_save && len == 0 ==> *final(self) == (SettingsState {
                mcp_on_save: true,
                mcp_selected: 0,
                ..*old(self)
            }),
            !old(self).mcp_on_save && len > 0 && old(self).mcp_selected + 1 >= len
                ==> *final(self) == (SettingsState { mcp_on_save: true, ..*old(self) }),
            !old(self).mcp_on_save && len > 0 && old(self).mcp_selected + 1 < len
                ==> *final(self) == (SettingsState {
                mcp_selected: (old(self).mcp_selected + 1) as usize,
                ..*old(self)
            }),
    {
        if self.mcp_on_save {
            return;
        }
        if len == 0 {
            self.mcp_on_save = true;
            self.mcp_selected = 0;
            return;
        }
        if self.mcp_selected >= len - 1 {
            self.mcp_on_save = true;
        } else {
            self.mcp_selected = self.mcp_selected + 1;
        }
    }

    /// MCP cursor up; from the save row it returns to the last row.
    pub fn prev_mcp(&mut self, len: usize)
        ensures
            old(self).mcp_on_save ==> *final(self) == (SettingsState {
                mcp_on_save: false,
                mcp_selected: if len > 0 {
                    (len - 1) as usize
                } else {
                    0
                },
                ..*old(self)
            }),
            !old(self).mcp_on_save ==> *final(self) == (SettingsState {
                mcp_selected: if len == 0 || old(self).mcp_selected == 0 {
                    0
                } else {
                    (old(self).mcp_selected - 1) as usize
                },
                ..*old(self)
            }),
    {
        if self.mcp_on_save {
            self.mcp_on_save = false;
            if len > 0 {
                self.mcp_selected = len - 1;
            } else {
                self.mcp_selected = 0;
            }
            return;
        }
        if len == 0 {
            self.mcp_selected = 0;
            return;
        }
        if self.mcp_selected > 0 {
            self.mcp_selected = self.mcp_selected - 1;
        }
    }

    /// Skills cursor down, stopping at the last row.
    pub fn next_skill(&mut self, len: usize)
        ensures
            *final(self) == (SettingsState {
                skills_selected: if len == 0 {
                    0
                } else if old(self).skills_selected + 1 < len {
                    (old(self).skills_selected + 1) as usize
                } else {
                    (len - 1) as usize
                },
                ..*old(self)
            }),
    {
        if len == 0 {
            self.skills_selected = 0;
            return;
        }
        if self.skills_selected < len - 1 {
            self.skills_selected = self.skills_selected + 1;
        } else {
            self.skills_selected = len - 1;
        }
    }

    /// Skills cursor up, stopping at the first row.
    pub fn prev_skill(&mut self, len: usize)
        ensures
            *final(self) == (SettingsState {
                skills_selected: if len == 0 || old(self).skills_selected == 0 {
                    0
                } else {
                    (old(self).skills_selected - 1) as usize
                },
                ..*old(self)
            }),
    {
        if len == 0 {
            self.skills_selected = 0;
            return;
        }
        if self.skills_selected > 0 {
            self.skills_selected = self.skills_selected - 1;
        }
    }

    /// Next row of an editable section, wrapping through the save row.
    pub fn next_field(&mut self)
        requires
            old(self).wf(),
        ensures
            final(self).wf(),
            !section_editable(old(self).section as int) ==> *final(self) == *old(self),
            section_editable(old(self).section as int) ==> *final(self) == (SettingsState {
                selected: ((old(self).selected + 1) % (section_field_count(
                    old(self).section as int,
                ) + 1)) as usize,
                ..*old(self)
            }),
    {
        if self.section >= 5 {
            return;
        }
        let rows = field_count(self.section) + 1;
        self.selected = ((self.selected as u128 + 1) % (rows as u128)) as usize;
    }

    /// Previous row of an editable section, wrapping through the save row.
    pub fn prev_field(&mut self)
        requires
            old(self).wf(),
        ensures
            final(self).wf(),
            !section_editable(old(self).section as int) ==> *final(self) == *old(self),
            section_editable(old(self).section as int) ==> *final(self) == (SettingsState {
                selected: ((old(self).selected + section_field_count(old(self).section as int))
                    % (section_field_count(old(self).section as int) + 1)) as usize,
                ..*old(self)
            }),
    {
        if self.section >= 5 {
            return;
        }
        let rows = field_count(self.section) + 1;
        self.selected = ((self.selected as u128 + rows as u128 - 1) % (rows as u128)) as usize;
    }

    /// Next section (wrapping); the row cursor and the save-button focus reset.
    pub fn next_section(&mut self)
        requires
            old(self).wf(),
        ensures
            final(self).wf(),
            *final(self) == (SettingsState {
                section: ((old(self).section + 1) % SECTION_COUNT as int) as usize,
                selected: 0,
                provider_on_save: false,
                mcp_on_save: false,
                ..*old(self)
            }),
    {
        self.section = (self.section + 1) % SECTION_COUNT;
        self.selected = 0;
        self.provider_on_save = false;
        self.mcp_on_save = false;
    }
}

/// Inside an editable section, one step down then one step up returns the
/// cursor to the row it started on.
pub proof fn lemma_next_then_prev_field(selected: int, section: int)
    requires
        section_editable(section),
        0 <= selected <= section_field_count(section),
    ensures
        ({
            let rows = section_field_count(section) + 1;
            let down = (selected + 1) % rows;
            (down + rows - 1) % rows == selected
        }),
{
    let rows = section_field_count(section) + 1;
    assert((((selected + 1) % rows) + rows - 1) % rows == selected) by (nonlinear_arith)
        requires
            0 <= selected < rows,
    ;
}

/// What `toggle_bool` returns: `"true"` becomes `"false"`, anything else `"true"`.
pub open spec fn spec_toggle_bool(cur: Seq<char>) -> Seq<char> {
    if cur == "true"@ {
        "false"@
    } else {
        "true"@
    }
}

/// Flips a boolean written as text; text other than `"true"` counts as false.
pub fn toggle_bool(cur: &str) -> (r: String)
    ensures
        r@ == spec_toggle_bool(cur@),
{
    let c = str_chars(cur);
    if crate::text::chars_eq_str(&c, "true") {
        "false".to_owned()
    } else {
        "true".to_owned()
    }
}

/// Toggling a boolean value twice gives it back.
pub proof fn lemma_toggle_bool_twice(cur: Seq<char>)
    requires
        cur == "true"@ || cur == "false"@,
    ensures
        spec_toggle_bool(spec_toggle_bool(cur)) == cur,
{
    reveal_strlit("true");
    reveal_strlit("false");
}

/// Index of the first option whose text is `x`, or -1.
pub open spec fn option_index(opts: Seq<Seq<char>>, x: Seq<char>) -> int
    decreases opts.len(),
{
    if opts.len() == 0 {
        -1
    } else {
        let k = option_index(opts.drop_last(), x);
        if k >= 0 {
            k
        } else if opts.last() == x {
            opts.len() - 1
        } else {
            -1
        }
    }
}

/// What `cycle_enum` returns: the option after (or before) `current`,
/// wrapping around; the first option when `current` is not one of them;
/// `current` itself when there are no options.
pub open spec fn spec_cycle(current: Seq<char>, opts: Seq<Seq<char>>, forward: bool) -> Seq<char> {
    let n = opts.len() as int;
    let idx = option_index(opts, current);
    if n == 0 {
        current
    } else if idx < 0 {
        opts[0]
    } else if forward {
        if idx + 1 < n {
            opts[idx + 1]
        } else {
            opts[0]
        }
    } else {
        if idx == 0 {
            opts[n - 1]
        } else {
            opts[idx - 1]
        }
    }
}

/// The texts of a list of options.
pub open spec fn option_texts(opts: Seq<&str>) -> Seq<Seq<char>> {
    opts.map_values(|o: &str| o@)
}

pub proof fn lemma_option_index(opts: Seq<Seq<char>>, x: Seq<char>)
    ensures
        -1 <= option_index(opts, x) < opts.len(),
        option_index(opts, x) >= 0 ==> opts[option_index(opts, x)] == x,
        option_index(opts, x) >= 0 ==> forall|j: int|
            0 <= j < option_index(opts, x) ==> opts[j] != x,
        option_index(opts, x) < 0 ==> forall|j: int| 0 <= j < opts.len() ==> opts[j] != x,
    decreases opts.len(),
{
    if opts.len() > 0 {
        lemma_option_index(opts.drop_last(), x);
        assert forall|j: int| 0 <= j < opts.len() - 1 implies opts[j] == opts.drop_last()[j] by {}
    }
}

/// Steps through a fixed list of options.
pub fn cycle_enum(current: &str, options: &[&str], forward: bool) -> (r: String)
    ensures
        r@ == spec_cycle(current@, option_texts(options@), forward),
{
    let ghost vs = option_texts(options@);
    let n = options.len();
    if n == 0 {
        return current.to_owned();
    }
    let cur = str_chars(current);
    let mut i: usize = 0;
    while i < n
        invariant
            n == options@.len(),
            vs == option_texts(options@),
            i <= n,
            option_index(vs.take(i as int), current@) == -1,
            cur@ == current@,
        decreases n - i,
    {
        let o = str_chars(options[i]);
        assert(vs.take(i + 1).drop_last() =~= vs.take(i as int));
        assert(vs[i as int] == options@[i as int]@);
        if crate::text::chars_eq(&o, &cur) {
            proof {
                assert(option_index(vs.take(i + 1), current@) == i);
                lemma_option_index_prefix(vs, current@, i as int);
            }
            let next = if forward {
                if i + 1 < n {
                    i + 1
                } else {
                    0
                }
            } else {
                if i == 0 {
                    n - 1
                } else {
                    i - 1
                }
            };
            return options[next].to_owned();
        }
        i = i + 1;
    }
    assert(vs.take(n as int) =~= vs);
    options[0].to_owned()
}

/// The first match in a prefix that already contains it is the first match overall.
pub proof fn lemma_option_index_prefix(opts: Seq<Seq<char>>, x: Seq<char>, i: int)
    requires
        0 <= i < opts.len(),
        option_index(opts.take(i + 1), x) == i,
    ensures
        option_index(opts, x) == i,
    decreases opts.len(),
{
    if opts.len() > i + 1 {
        assert(opts.drop_last().take(i + 1) =~= opts.take(i + 1));
        lemma_option_index_prefix(opts.drop_last(), x, i);
    } else {
        assert(opts.take(i + 1) =~= opts);
    }
}

/// With distinct options, stepping forward and then back returns to the start.
pub proof fn lemma_cycle_forward_back(current: Seq<char>, opts: Seq<Seq<char>>)
    requires
        option_index(opts, current) >= 0,
        forall|a: int, b: int| 0 <= a < b < opts.len() ==> opts[a] != opts[b],
    ensures
        spec_cycle(spec_cycle(current, opts, true), opts, false) == current,
{
    lemma_option_index(opts, current);
    let n = opts.len() as int;
    let idx = option_index(opts, current);
    let nxt = if idx + 1 < n {
        idx + 1
    } else {
        0
    };
    let fwd = opts[nxt];
    lemma_option_index(opts, fwd);
    let j = option_index(opts, fwd);
    assert(j == nxt) by {
        if j < 0 {
            assert(opts[nxt] != fwd);
        } else if j < nxt {
            assert(opts[j] == opts[nxt]);
        } else if j > nxt {
            assert(opts[nxt] != fwd);
        }
    }
}

/// What `adjust_number` returns: the value (or `min` when the text is not a
/// number) moved by `step` with saturation, clamped to `[min, max]`, as text.
pub open spec fn spec_adjust(cur: Seq<char>, step: u64, forward: bool, min: u64, max: u64) -> Seq<
    char,
> {
    let val: int = match parse_u64_spec(cur) {
        Some(v) => v as int,
        None => min as int,
    };
    let moved: int = if forward {
        if val + step > u64::MAX {
            u64::MAX as int
        } else {
            val + step
        }
    } else {
        if val - step < 0 {
            0
        } else {
            val - step
        }
    };
    let clamped: int = if moved < min {
        min as int
    } else if moved > max {
        max as int
    } else {
        moved
    };
    decimal(clamped as nat)
}

/// Steps a number written as text by `step`, within `[min, max]`.
pub fn adjust_number(cur: &str, step: u64, forward: bool, min: u64, max: u64) -> (r: String)
    requires
        min <= max,
    ensures
        r@ == spec_adjust(cur@, step, forward, min, max),
{
    let mut val: u64 = match parse_u64(cur) {
        Some(v) => v,
        None => min,
    };
    val = if forward {
        val.saturating_add(step)
    } else {
        val.saturating_sub(step)
    };
    let clamped = if val < min {
        min
    } else if val > max {
        max
    } else {
        val
    };
    crate::num::u64_to_string(clamped)
}

/// What `mask_key` shows for an API key.
pub open spec fn spec_mask_key(k: Seq<char>) -> Seq<char> {
    if k.len() == 0 {
        "(未设置)"@
    } else if starts_with(k, "${"@) {
        k
    } else {
        "(已设置)"@
    }
}

/// Hides an API key: unset, an `${ENV}` reference shown as is, or "set".
pub fn mask_key(k: &str) -> (r: String)
    ensures
        r@ == spec_mask_key(k@),
{
    let v = str_chars(k);
    if v.len() == 0 {
        return "(未设置)".to_owned();
    }
    let p = str_chars("${");
    let m = starts_with_at(&v, 0, &p);
    assert(v@.skip(0) =~= v@);
    if m {
        k.to_owned()
    } else {
        "(已设置)".to_owned()
    }
}

} // verus!
