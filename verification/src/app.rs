//! The application's decisions: which screen is shown and how each key,
//! agent report and slash command changes the state.
//!
//! The terminal loop lives outside the library. It hands every event to a
//! method of `App`, performs the `Effect`s that come back (saving files,
//! starting or stopping the agent task, switching mouse capture, opening the
//! provider form) and reports the outcome of a save back where one is
//! awaited.
//!
//! The provider table is held here by name, each name with the one-line
//! summary the `/provider list` command shows (`[kind] base_url · model`);
//! the full provider records stay with the caller, who mirrors the
//! `SnapshotProviders`, `RestoreProviders` and `RemoveProvider` effects.
use vstd::prelude::*;

use crate::chat::entry::{messages_view, Message, MessageV};
use crate::chat::state::{same_talk, ChatState};
use crate::config::{Config, ConfigV};
use crate::event::Action;
use crate::settings::{
    bool_text, edited_text, field_edit, field_live, field_text, with_field, FieldEdit, LiveApply,
    initial_settings, SettingsState, PROVIDERS_SECTION_IDX, SECTION_COUNT, section_editable,
    section_field_count,
};
use crate::strmap::{assoc_keys, assoc_remove, Assoc, StringMap};
use crate::text::push_str;

verus! {

// no string axioms here

/// The screen shown.
#[derive(Debug, Clone, Copy, PartialEq, Eq, Structural)]
pub enum Mode {
    Welcome,
    Chat,
    Workflow,
    Dashboard,
    Settings,
    ProviderForm,
}

/// The title of a screen.
pub open spec fn mode_label(m: Mode) -> Seq<char> {
    match m {
        Mode::Welcome => "Welcome"@,
        Mode::Chat => "Chat"@,
        Mode::Workflow => "Workflow"@,
        Mode::Dashboard => "Dashboard"@,
        Mode::Settings => "Settings"@,
        Mode::ProviderForm => "Provider Form"@,
    }
}

impl Mode {
    /// The title shown in the title bar.
    pub fn label(self) -> (r: &'static str)
        ensures
            r@ == mode_label(self),
    {
        match self {
            Mode::Welcome => "Welcome",
            Mode::Chat => "Chat",
            Mode::Workflow => "Workflow",
            Mode::Dashboard => "Dashboard",
            Mode::Settings => "Settings",
            Mode::ProviderForm => "Provider Form",
        }
    }
}

/// Where the application keeps its files.
#[derive(Debug, Clone)]
pub struct AppPaths {
    pub config_file: String,
    pub providers_file: String,
    pub history_dir: String,
    pub cwd: String,
}

/// The models a provider offered, or why fetching them failed; `fetch_id`
/// tells a late answer from the current one.
#[derive(Debug)]
pub struct FetchResult {
    pub fetch_id: u64,
    pub result: Result<Vec<String>, String>,
}

/// Number of entries of the welcome screen.
pub const WELCOME_OPTIONS: usize = 4;

/// Work for the caller, in the order given.
#[derive(Debug)]
pub enum Effect {
    /// Take a copy of the provider records (the settings page was entered).
    SnapshotProviders,
    /// Put back the copy taken on entering the settings page.
    RestoreProviders,
    /// Re-resolve the theme or switch mouse capture.
    Live(LiveApply),
    /// Write the configuration, and the providers too when `providers`;
    /// report with `App::settings_saved`.
    SaveSettings { providers: bool },
    /// Open the provider form, empty or for the named provider.
    OpenProviderForm(Option<String>),
    /// Drop the provider record of this name.
    RemoveProvider(String),
    /// Store the record the provider form produced under this name.
    UpsertProvider(String),
    /// Write the conversation to its history file.
    SaveHistory,
    /// Stop the running agent task.
    AbortAgent,
    /// Start an agent task for `text` after the transcript `history`; its
    /// reports carry `generation`.
    SpawnAgent { text: String, history: Vec<Message>, generation: u64 },
    /// Hand the key to the input widget.
    FeedInput,
    /// Close the provider form.
    CloseProviderForm,
    /// Ask the provider form for its record; report with
    /// `App::provider_form_checked`.
    ValidateProviderForm,
    /// Fetch the model list for the provider form.
    StartFetch,
    /// Write a file; report with `App::save_done`.
    Persist(Persist),
}

/// A save whose outcome is reported back.
#[derive(Debug, Clone, PartialEq, Eq)]
pub enum Persist {
    /// The configuration, after `/provider use` chose this provider.
    UseProvider(String),
    /// The providers, after `/provider remove` dropped this one.
    RemovedProvider(String),
    /// The providers, after the provider form stored this one.
    FormSaved(String),
}

/// The abstract value of a `Persist`.
pub enum PersistV {
    UseProvider(Seq<char>),
    RemovedProvider(Seq<char>),
    FormSaved(Seq<char>),
}

impl View for Persist {
    type V = PersistV;

    open spec fn view(&self) -> PersistV {
        match self {
            Persist::UseProvider(n) => PersistV::UseProvider(n@),
            Persist::RemovedProvider(n) => PersistV::RemovedProvider(n@),
            Persist::FormSaved(n) => PersistV::FormSaved(n@),
        }
    }
}

/// The abstract value of an `Effect`.
pub enum EffectV {
    SnapshotProviders,
    RestoreProviders,
    Live(LiveApply),
    SaveSettings { providers: bool },
    OpenProviderForm(Option<Seq<char>>),
    RemoveProvider(Seq<char>),
    UpsertProvider(Seq<char>),
    SaveHistory,
    AbortAgent,
    SpawnAgent { text: Seq<char>, history: Seq<MessageV>, generation: u64 },
    FeedInput,
    CloseProviderForm,
    ValidateProviderForm,
    StartFetch,
    Persist(PersistV),
}

impl View for Effect {
    type V = EffectV;

    open spec fn view(&self) -> EffectV {
        match self {
            Effect::SnapshotProviders => EffectV::SnapshotProviders,
            Effect::RestoreProviders => EffectV::RestoreProviders,
            Effect::Live(l) => EffectV::Live(*l),
            Effect::SaveSettings { providers } => EffectV::SaveSettings { providers: *providers },
            Effect::OpenProviderForm(n) => EffectV::OpenProviderForm(
                match n {
                    Some(s) => Some(s@),
                    None => None,
                },
            ),
            Effect::RemoveProvider(n) => EffectV::RemoveProvider(n@),
            Effect::UpsertProvider(n) => EffectV::UpsertProvider(n@),
            Effect::SaveHistory => EffectV::SaveHistory,
            Effect::AbortAgent => EffectV::AbortAgent,
            Effect::SpawnAgent { text, history, generation } => EffectV::SpawnAgent {
                text: text@,
                history: messages_view(history@),
                generation: *generation,
            },
            Effect::FeedInput => EffectV::FeedInput,
            Effect::CloseProviderForm => EffectV::CloseProviderForm,
            Effect::ValidateProviderForm => EffectV::ValidateProviderForm,
            Effect::StartFetch => EffectV::StartFetch,
            Effect::Persist(p) => EffectV::Persist(p@),
        }
    }
}

/// The effects as abstract values.
pub open spec fn effects_view(v: Seq<Effect>) -> Seq<EffectV> {
    v.map_values(|e: Effect| e@)
}

/// The application state the decisions work on.
#[derive(Debug)]
pub struct App {
    pub config: Config,
    /// Provider name to its one-line summary.
    pub providers: StringMap,
    /// A project context was loaded.
    pub has_project: bool,
    pub mode: Mode,
    /// Entry of the welcome screen under the cursor.
    pub selected: usize,
    /// One-shot message in the status area.
    pub toast: Option<String>,
    pub first_run: bool,
    pub should_quit: bool,
    pub settings: SettingsState,
    /// Where Esc from the settings page or the provider form returns to.
    pub prev_mode: Mode,
    /// The configuration when the settings page was entered.
    pub config_at_entry: Config,
    /// The providers when the settings page was entered.
    pub providers_at_entry: StringMap,
    pub chat: ChatState,
    /// Counts agent starts and cancels; a report of another generation is stale.
    pub generation: u64,
    /// An agent task was started and has not finished.
    pub agent_running: bool,
    /// The provider form is open.
    pub provider_form_open: bool,
}

/// The abstract value of an `App`, without the chat page.
pub struct AppV {
    pub config: ConfigV,
    pub providers: Assoc,
    pub has_project: bool,
    pub mode: Mode,
    pub selected: usize,
    pub toast: Option<Seq<char>>,
    pub first_run: bool,
    pub should_quit: bool,
    pub settings: SettingsState,
    pub prev_mode: Mode,
    pub config_at_entry: ConfigV,
    pub providers_at_entry: Assoc,
    pub generation: u64,
    pub agent_running: bool,
    pub provider_form_open: bool,
}

/// The view of an optional text.
pub open spec fn opt_text(o: Option<String>) -> Option<Seq<char>> {
    match o {
        Some(s) => Some(s@),
        None => None,
    }
}

impl View for App {
    type V = AppV;

    open spec fn view(&self) -> AppV {
        AppV {
            config: self.config@,
            providers: self.providers@,
            has_project: self.has_project,
            mode: self.mode,
            selected: self.selected,
            toast: opt_text(self.toast),
            first_run: self.first_run,
            should_quit: self.should_quit,
            settings: self.settings,
            prev_mode: self.prev_mode,
            config_at_entry: self.config_at_entry@,
            providers_at_entry: self.providers_at_entry@,
            generation: self.generation,
            agent_running: self.agent_running,
            provider_form_open: self.provider_form_open,
        }
    }
}

// ---------------------------------------------------------------------------
// The settings page and the welcome screen
// ---------------------------------------------------------------------------

/// The provider names, sorted.
pub open spec fn provider_names(s: AppV) -> Seq<Seq<char>> {
    assoc_keys(s.providers)
}

/// Before an action is handled: any action but `Other` drops the toast; on
/// the settings page any action but Esc, Quit and Other disarms the pending
/// discard, and on its providers section any action but Delete disarms the
/// pending deletion.
pub open spec fn cleared(s: AppV, a: Action) -> AppV {
    let s1 = if a != Action::Other {
        AppV { toast: None, ..s }
    } else {
        s
    };
    let s2 = if s1.mode == Mode::Settings && a != Action::Esc && a != Action::Quit && a
        != Action::Other {
        AppV { settings: SettingsState { pending_discard: false, ..s1.settings }, ..s1 }
    } else {
        s1
    };
    if s2.mode == Mode::Settings && s2.settings.section == PROVIDERS_SECTION_IDX && a
        != Action::DeleteProvider {
        AppV { settings: SettingsState { pending_delete_idx: None, ..s2.settings }, ..s2 }
    } else {
        s2
    }
}

/// Entering the settings page from another screen: remember the screen and
/// the configuration and providers as they are (for a later discard).
pub open spec fn entered_settings(s: AppV) -> AppV {
    AppV {
        prev_mode: s.mode,
        config_at_entry: s.config,
        providers_at_entry: s.providers,
        settings: SettingsState { pending_discard: false, ..s.settings },
        mode: Mode::Settings,
        ..s
    }
}

/// The settings cursor one step down.
pub open spec fn spec_next_provider(st: SettingsState, len: int) -> SettingsState {
    if st.provider_on_save {
        st
    } else if len == 0 {
        SettingsState { provider_on_save: true, provider_selected: 0, ..st }
    } else if st.provider_selected + 1 >= len {
        SettingsState { provider_on_save: true, ..st }
    } else {
        SettingsState { provider_selected: (st.provider_selected + 1) as usize, ..st }
    }
}

/// The settings cursor one step up.
pub open spec fn spec_prev_provider(st: SettingsState, len: int) -> SettingsState {
    if st.provider_on_save {
        SettingsState {
            provider_on_save: false,
            provider_selected: if len > 0 {
                (len - 1) as usize
            } else {
                0
            },
            ..st
        }
    } else {
        SettingsState {
            provider_selected: if len == 0 || st.provider_selected == 0 {
                0
            } else {
                (st.provider_selected - 1) as usize
            },
            ..st
        }
    }
}

/// The row cursor of an editable section one step down (through the save row).
pub open spec fn spec_next_field(st: SettingsState) -> SettingsState {
    if !section_editable(st.section as int) {
        st
    } else {
        SettingsState {
            selected: ((st.selected + 1) % (section_field_count(st.section as int) + 1)) as usize,
            ..st
        }
    }
}

/// The row cursor of an editable section one step up.
pub open spec fn spec_prev_field(st: SettingsState) -> SettingsState {
    if !section_editable(st.section as int) {
        st
    } else {
        SettingsState {
            selected: ((st.selected + section_field_count(st.section as int)) % (
            section_field_count(st.section as int) + 1)) as usize,
            ..st
        }
    }
}

/// What a step leaves behind: the new state, the effects, and whether the
/// chat page's cached layout must be rebuilt (the theme changed).
pub type Step = (AppV, Seq<EffectV>, bool);

/// A step that changes the state to `t` and asks for nothing.
pub open spec fn quiet(t: AppV) -> Step {
    (t, Seq::empty(), false)
}

/// The effects of an edit that reports `live`.
pub open spec fn live_effects(live: LiveApply) -> Seq<EffectV> {
    if live == LiveApply::Nothing {
        Seq::empty()
    } else {
        seq![EffectV::Live(live)]
    }
}

/// One edit of the field under the settings cursor (see `apply_edit`).
#[verifier::opaque]
pub open spec fn edit_step(s: AppV, forward: bool) -> Step {
    let sec = s.settings.section as int;
    let sel = s.settings.selected as int;
    match field_edit(sec, sel, provider_names(s)) {
        None => quiet(s),
        Some(e) => {
            let cur = field_text(s.config, sec, sel);
            let new = edited_text(cur, e, forward);
            let changed = new != cur;
            let live = field_live(sec, sel);
            (
                AppV {
                    config: if changed {
                        with_field(s.config, sec, sel, new)
                    } else {
                        s.config
                    },
                    settings: SettingsState { dirty: s.settings.dirty || changed, ..s.settings },
                    ..s
                },
                live_effects(live),
                live == LiveApply::Theme,
            )
        },
    }
}

/// Leaving the settings page with Esc: with unsaved changes the first Esc
/// only warns, the second puts back the configuration and providers of the
/// moment of entry; then the previous screen returns.
#[verifier::opaque]
pub open spec fn exit_step(s: AppV) -> Step {
    let dirty = s.settings.dirty || s.settings.dirty_providers;
    if dirty && !s.settings.pending_discard {
        quiet(
            AppV {
                settings: SettingsState { pending_discard: true, ..s.settings },
                toast: Some("再按 Esc 丢弃改动，或选择「保存设置」"@),
                ..s
            },
        )
    } else if dirty {
        (
            AppV {
                config: s.config_at_entry,
                providers: s.providers_at_entry,
                settings: SettingsState {
                    dirty: false,
                    dirty_providers: false,
                    pending_discard: false,
                    ..s.settings
                },
                toast: Some("已丢弃改动"@),
                mode: s.prev_mode,
                ..s
            },
            seq![
                EffectV::RestoreProviders,
                EffectV::Live(LiveApply::Theme),
                EffectV::Live(LiveApply::Mouse),
            ],
            true,
        )
    } else {
        quiet(AppV { mode: s.prev_mode, ..s })
    }
}

/// The default provider after `name` was removed, leaving providers
/// `rest`: unchanged unless it was `name`, else the first remaining name,
/// or empty when none remains.
pub open spec fn fallback_provider(current: Seq<char>, name: Seq<char>, rest: Assoc) -> Seq<char> {
    if current != name {
        current
    } else if rest.len() > 0 {
        rest[0].0
    } else {
        Seq::empty()
    }
}

/// The toast after deleting provider `name` while `current` was the default.
pub open spec fn deleted_toast(current: Seq<char>, name: Seq<char>, new_default: Seq<char>) -> Seq<char> {
    if current == name {
        "已删除 '"@ + name + "'，默认 provider 回退到 '"@ + new_default + "'"@
    } else {
        "已删除 provider："@ + name
    }
}

/// The state after deleting provider number `idx`.
#[verifier::opaque]
pub open spec fn deleted_state(s: AppV, idx: int) -> AppV {
    let name = provider_names(s)[idx];
    let rest = assoc_remove(s.providers, name);
    let new_default = fallback_provider(s.config.default_provider, name, rest);
    let len = rest.len();
    AppV {
        providers: rest,
        config: ConfigV { default_provider: new_default, ..s.config },
        toast: Some(deleted_toast(s.config.default_provider, name, new_default)),
        settings: SettingsState {
            dirty_providers: true,
            pending_delete_idx: None,
            provider_selected: if s.settings.provider_selected >= len && len > 0 {
                (len - 1) as usize
            } else {
                s.settings.provider_selected
            },
            ..s.settings
        },
        ..s
    }
}

/// Deleting the provider armed for deletion.
#[verifier::opaque]
pub open spec fn delete_step(s: AppV) -> Step {
    match s.settings.pending_delete_idx {
        None => quiet(s),
        Some(idx) => if idx >= provider_names(s).len() {
            quiet(AppV { settings: SettingsState { pending_delete_idx: None, ..s.settings }, ..s })
        } else {
            (
                deleted_state(s, idx as int),
                seq![EffectV::RemoveProvider(provider_names(s)[idx as int])],
                false,
            )
        },
    }
}

/// The screen Tab leads to (the three work screens in a cycle; others stay).
pub open spec fn tab_mode(m: Mode) -> Mode {
    match m {
        Mode::Chat => Mode::Workflow,
        Mode::Workflow => Mode::Dashboard,
        Mode::Dashboard => Mode::Chat,
        _ => m,
    }
}

/// The settings page is shown.
pub open spec fn on_settings(s: AppV) -> bool {
    s.mode == Mode::Settings
}

/// The providers section of the settings page is shown.
pub open spec fn on_providers(s: AppV) -> bool {
    s.mode == Mode::Settings && s.settings.section == PROVIDERS_SECTION_IDX
}

/// Open the settings page (nothing when it is shown already).
#[verifier::opaque]
pub open spec fn open_settings_step(s: AppV) -> Step {
    if !on_settings(s) {
        (entered_settings(s), seq![EffectV::SnapshotProviders], false)
    } else {
        quiet(s)
    }
}

/// Tab: the next settings section, or the next work screen.
#[verifier::opaque]
pub open spec fn tab_step(s: AppV) -> Step {
    if on_settings(s) {
        quiet(
            AppV {
                settings: SettingsState {
                    section: ((s.settings.section + 1) % SECTION_COUNT as int) as usize,
                    selected: 0,
                    provider_on_save: false,
                    mcp_on_save: false,
                    ..s.settings
                },
                ..s
            },
        )
    } else {
        quiet(AppV { mode: tab_mode(s.mode), ..s })
    }
}

/// Esc: leave the settings page, or go back to the welcome screen when no
/// project is loaded.
#[verifier::opaque]
pub open spec fn esc_step(s: AppV) -> Step {
    if on_settings(s) {
        exit_step(s)
    } else if !s.has_project && s.mode != Mode::Welcome {
        quiet(AppV { mode: Mode::Welcome, ..s })
    } else {
        quiet(s)
    }
}

/// Up (`forward` false) or Down (`forward` true): move the cursor of the
/// settings page or of the welcome screen.
#[verifier::opaque]
pub open spec fn move_step(s: AppV, forward: bool) -> Step {
    let n = provider_names(s).len() as int;
    if on_providers(s) {
        quiet(
            AppV {
                settings: if forward {
                    spec_next_provider(s.settings, n)
                } else {
                    spec_prev_provider(s.settings, n)
                },
                ..s
            },
        )
    } else if on_settings(s) {
        quiet(
            AppV {
                settings: if forward {
                    spec_next_field(s.settings)
                } else {
                    spec_prev_field(s.settings)
                },
                ..s
            },
        )
    } else if s.mode == Mode::Welcome {
        quiet(
            AppV {
                selected: (if forward {
                    (s.selected + 1) % WELCOME_OPTIONS as int
                } else {
                    (s.selected + WELCOME_OPTIONS - 1) % WELCOME_OPTIONS as int
                }) as usize,
                ..s
            },
        )
    } else {
        quiet(s)
    }
}

/// Left (`forward` false) or Right: edit the field under the cursor.
#[verifier::opaque]
pub open spec fn side_step(s: AppV, forward: bool) -> Step {
    if on_settings(s) && !on_providers(s) {
        edit_step(s, forward)
    } else {
        quiet(s)
    }
}

/// Enter: on the providers section make the selected provider the default;
/// on a save row save; on a field edit it forward; on the welcome screen
/// open the selected entry.
#[verifier::opaque]
pub open spec fn enter_step(s: AppV) -> Step {
    if on_providers(s) {
        let names = provider_names(s);
        let i = s.settings.provider_selected as int;
        if i < names.len() && s.config.default_provider != names[i] {
            quiet(
                AppV {
                    config: ConfigV { default_provider: names[i], ..s.config },
                    settings: SettingsState { dirty: true, ..s.settings },
                    toast: Some("默认 provider 设为 "@ + names[i]),
                    ..s
                },
            )
        } else {
            quiet(s)
        }
    } else if on_settings(s) && section_editable(s.settings.section as int) && s.settings.selected
        >= section_field_count(s.settings.section as int) {
        (s, seq![EffectV::SaveSettings { providers: s.settings.dirty_providers }], false)
    } else if on_settings(s) {
        edit_step(s, true)
    } else if s.mode == Mode::Welcome {
        if s.selected == 2 {
            quiet(AppV { mode: Mode::Chat, ..s })
        } else if s.selected == 3 {
            (entered_settings(s), seq![EffectV::SnapshotProviders], false)
        } else if s.selected == 0 {
            quiet(AppV { toast: Some("（P1 占位：新建项目向导将在后续阶段实现）"@), ..s })
        } else if s.selected == 1 {
            quiet(AppV { toast: Some("（P1 占位：工作流编辑器将在 P4 实现）"@), ..s })
        } else {
            quiet(s)
        }
    } else {
        quiet(s)
    }
}

/// `a` / `e` on the providers section: open the provider form, empty or
/// for the selected provider.
#[verifier::opaque]
pub open spec fn provider_form_step(s: AppV, edit: bool) -> Step {
    let i = s.settings.provider_selected as int;
    if on_providers(s) && (!edit || i < provider_names(s).len()) {
        (
            AppV { prev_mode: Mode::Settings, mode: Mode::ProviderForm, provider_form_open: true, ..s },
            seq![
                EffectV::OpenProviderForm(
                    if edit {
                        Some(provider_names(s)[i])
                    } else {
                        None
                    },
                ),
            ],
            false,
        )
    } else {
        quiet(s)
    }
}

/// `d` on the providers section: the first press arms the selected row, a
/// second press on the same row deletes it.
#[verifier::opaque]
pub open spec fn delete_key_step(s: AppV) -> Step {
    if on_providers(s) {
        if s.settings.pending_delete_idx == Some(s.settings.provider_selected) {
            delete_step(s)
        } else {
            quiet(
                AppV {
                    settings: SettingsState {
                        pending_delete_idx: Some(s.settings.provider_selected),
                        ..s.settings
                    },
                    ..s
                },
            )
        }
    } else {
        quiet(s)
    }
}

/// What an action does after `cleared`.
pub open spec fn action_step(s: AppV, a: Action) -> Step {
    match a {
        Action::Quit => quiet(AppV { should_quit: true, ..s }),
        Action::OpenSettings => open_settings_step(s),
        Action::Tab => tab_step(s),
        Action::Esc => esc_step(s),
        Action::Up => move_step(s, false),
        Action::Down => move_step(s, true),
        Action::Left => side_step(s, false),
        Action::Right => side_step(s, true),
        Action::Enter => enter_step(s),
        Action::AddProvider => provider_form_step(s, false),
        Action::EditProvider => provider_form_step(s, true),
        Action::DeleteProvider => delete_key_step(s),
        _ => quiet(s),
    }
}

/// The chat page after a step: when `rebuild`, only its cached layout is
/// marked stale; otherwise it is unchanged.
pub open spec fn chat_after(old_chat: ChatState, new_chat: ChatState, rebuild: bool) -> bool {
    if rebuild {
        &&& same_talk(new_chat, old_chat)
        &&& new_chat.cache_dirty
        &&& !new_chat.wrapped.valid
        &&& new_chat.wrapped.lines@ == old_chat.wrapped.lines@
        &&& new_chat.wrapped.key == old_chat.wrapped.key
        &&& new_chat.cached_history@ == old_chat.cached_history@
        &&& new_chat.scroll_y == old_chat.scroll_y
    } else {
        new_chat == old_chat
    }
}

/// `final` is `old` after step `st`, with `effects` asked for.
pub open spec fn stepped(old: &App, fin: &App, effects: Seq<Effect>, st: Step) -> bool {
    &&& fin@ == st.0
    &&& effects_view(effects) == st.1
    &&& chat_after(old.chat, fin.chat, st.2)
}

impl App {
    /// The parts hold together: cursors in range, maps sorted, chat page sound.
    pub open spec fn wf(&self) -> bool {
        &&& self.settings.wf()
        &&& self.selected < WELCOME_OPTIONS
        &&& self.providers.wf()
        &&& self.providers_at_entry.wf()
        &&& self.chat.wf()
    }

    /// A fresh application on screen `initial`.
    pub fn new(config: Config, providers: StringMap, has_project: bool, initial: Mode, first_run: bool) -> (a: App)
        requires
            providers.wf(),
        ensures
            a.wf(),
            a@ == (AppV {
                config: config@,
                providers: providers@,
                has_project,
                mode: initial,
                selected: 0,
                toast: None,
                first_run,
                should_quit: false,
                settings: initial_settings(),
                prev_mode: initial,
                config_at_entry: config@,
                providers_at_entry: providers@,
                generation: 0,
                agent_running: false,
                provider_form_open: false,
            }),
            a.chat.entries@.len() == 0,
            !a.chat.streaming,
    {
        let config_at_entry = config.duplicate();
        let providers_at_entry = providers.duplicate();
        App {
            config,
            providers,
            has_project,
            mode: initial,
            selected: 0,
            toast: None,
            first_run,
            should_quit: false,
            settings: SettingsState::new(),
            prev_mode: initial,
            config_at_entry,
            providers_at_entry,
            chat: ChatState::new(),
            generation: 0,
            agent_running: false,
            provider_form_open: false,
        }
    }

    pub(crate) fn nothing() -> (e: Vec<Effect>)
        ensures
            effects_view(e@) == Seq::<EffectV>::empty(),
    {
        let e: Vec<Effect> = Vec::new();
        assert(effects_view(e@) =~= Seq::<EffectV>::empty());
        e
    }

    pub(crate) fn one(x: Effect) -> (e: Vec<Effect>)
        ensures
            effects_view(e@) == seq![x@],
    {
        let mut e: Vec<Effect> = Vec::new();
        e.push(x);
        assert(effects_view(e@) =~= seq![x@]);
        e
    }

    pub(crate) fn enter_settings(&mut self)
        requires
            old(self).wf(),
        ensures
            final(self).wf(),
            final(self)@ == entered_settings(old(self)@),
            final(self).chat == old(self).chat,
    {
        self.prev_mode = self.mode;
        self.config_at_entry = self.config.duplicate();
        self.providers_at_entry = self.providers.duplicate();
        self.settings.pending_discard = false;
        self.mode = Mode::Settings;
    }

    fn clear_for(&mut self, a: Action)
        requires
            old(self).wf(),
        ensures
            final(self).wf(),
            final(self)@ == cleared(old(self)@, a),
            final(self).chat == old(self).chat,
    {
        if a != Action::Other {
            self.toast = None;
        }
        if self.mode == Mode::Settings && a != Action::Esc && a != Action::Quit && a != Action::Other {
            self.settings.pending_discard = false;
        }
        if self.mode == Mode::Settings && self.settings.on_providers_section() && a
            != Action::DeleteProvider {
            self.settings.pending_delete_idx = None;
        }
    }

    /// Handles an action of a screen other than the chat and the provider
    /// form (see `cleared` and `action_step`); says what the caller must do.
    pub fn handle_action(&mut self, a: Action) -> (effects: Vec<Effect>)
        requires
            old(self).wf(),
        ensures
            final(self).wf(),
            stepped(old(self), final(self), effects@, action_step(cleared(old(self)@, a), a)),
    {
        self.clear_for(a);
        match a {
            Action::Quit => {
                self.should_quit = true;
                Self::nothing()
            },
            Action::OpenSettings => self.on_open_settings(),
            Action::Tab => self.on_tab(),
            Action::Esc => self.on_esc(),
            Action::Up => self.on_move(false),
            Action::Down => self.on_move(true),
            Action::Left => self.on_side(false),
            Action::Right => self.on_side(true),
            Action::Enter => self.on_enter(),
            Action::AddProvider => self.on_provider_form(false),
            Action::EditProvider => self.on_provider_form(true),
            Action::DeleteProvider => self.on_delete_key(),
            _ => Self::nothing(),
        }
    }

    fn on_open_settings(&mut self) -> (effects: Vec<Effect>)
        requires
            old(self).wf(),
        ensures
            final(self).wf(),
            stepped(old(self), final(self), effects@, open_settings_step(old(self)@)),
    {
        reveal(open_settings_step);
        if self.mode != Mode::Settings {
            self.enter_settings();
            Self::one(Effect::SnapshotProviders)
        } else {
            Self::nothing()
        }
    }

    fn on_tab(&mut self) -> (effects: Vec<Effect>)
        requires
            old(self).wf(),
        ensures
            final(self).wf(),
            stepped(old(self), final(self), effects@, tab_step(old(self)@)),
    {
        reveal(tab_step);
        if self.mode == Mode::Settings {
            self.settings.next_section();
        } else {
            self.mode = match self.mode {
                Mode::Chat => Mode::Workflow,
                Mode::Workflow => Mode::Dashboard,
                Mode::Dashboard => Mode::Chat,
                m => m,
            };
        }
        Self::nothing()
    }

    fn on_esc(&mut self) -> (effects: Vec<Effect>)
        requires
            old(self).wf(),
        ensures
            final(self).wf(),
            stepped(old(self), final(self), effects@, esc_step(old(self)@)),
    {
        reveal(esc_step);
        if self.mode == Mode::Settings {
            self.exit_settings()
        } else {
            if !self.has_project && self.mode != Mode::Welcome {
                self.mode = Mode::Welcome;
            }
            Self::nothing()
        }
    }

    fn on_move(&mut self, forward: bool) -> (effects: Vec<Effect>)
        requires
            old(self).wf(),
        ensures
            final(self).wf(),
            stepped(old(self), final(self), effects@, move_step(old(self)@, forward)),
    {
        reveal(move_step);
        if self.mode == Mode::Settings && self.settings.on_providers_section() {
            self.move_provider_cursor(forward);
        } else if self.mode == Mode::Settings {
            self.move_field_cursor(forward);
        } else if self.mode == Mode::Welcome {
            self.move_welcome_cursor(forward);
        }
        Self::nothing()
    }

    fn move_provider_cursor(&mut self, forward: bool)
        requires
            old(self).wf(),
        ensures
            final(self).wf(),
            final(self).chat == old(self).chat,
            final(self)@ == (AppV {
                settings: if forward {
                    spec_next_provider(old(self).settings, provider_names(old(self)@).len() as int)
                } else {
                    spec_prev_provider(old(self).settings, provider_names(old(self)@).len() as int)
                },
                ..old(self)@
            }),
    {
        let n = self.providers.len();
        let mut st = self.settings;
        if forward {
            st.next_provider(n);
        } else {
            st.prev_provider(n);
        }
        self.settings = st;
    }

    fn move_field_cursor(&mut self, forward: bool)
        requires
            old(self).wf(),
        ensures
            final(self).wf(),
            final(self).chat == old(self).chat,
            final(self)@ == (AppV {
                settings: if forward {
                    spec_next_field(old(self).settings)
                } else {
                    spec_prev_field(old(self).settings)
                },
                ..old(self)@
            }),
    {
        let mut st = self.settings;
        if forward {
            st.next_field();
        } else {
            st.prev_field();
        }
        self.settings = st;
    }

    fn move_welcome_cursor(&mut self, forward: bool)
        requires
            old(self).wf(),
        ensures
            final(self).wf(),
            final(self).chat == old(self).chat,
            final(self)@ == (AppV {
                selected: (if forward {
                    (old(self).selected + 1) % WELCOME_OPTIONS as int
                } else {
                    (old(self).selected + WELCOME_OPTIONS - 1) % WELCOME_OPTIONS as int
                }) as usize,
                ..old(self)@
            }),
    {
        if forward {
            self.selected = (self.selected + 1) % WELCOME_OPTIONS;
        } else {
            self.selected = (self.selected + WELCOME_OPTIONS - 1) % WELCOME_OPTIONS;
        }
    }

    fn on_side(&mut self, forward: bool) -> (effects: Vec<Effect>)
        requires
            old(self).wf(),
        ensures
            final(self).wf(),
            stepped(old(self), final(self), effects@, side_step(old(self)@, forward)),
    {
        reveal(side_step);
        if self.mode == Mode::Settings && !self.settings.on_providers_section() {
            self.edit_field(forward)
        } else {
            Self::nothing()
        }
    }

    fn on_enter(&mut self) -> (effects: Vec<Effect>)
        requires
            old(self).wf(),
        ensures
            final(self).wf(),
            stepped(old(self), final(self), effects@, enter_step(old(self)@)),
    {
        reveal(enter_step);
        if self.mode == Mode::Settings && self.settings.on_providers_section() {
            self.choose_default_provider();
            Self::nothing()
        } else if self.mode == Mode::Settings && self.settings.on_save_row() {
            Self::one(Effect::SaveSettings { providers: self.settings.dirty_providers })
        } else if self.mode == Mode::Settings {
            self.edit_field(true)
        } else if self.mode == Mode::Welcome {
            if self.selected == 2 {
                self.mode = Mode::Chat;
                Self::nothing()
            } else if self.selected == 3 {
                self.enter_settings();
                Self::one(Effect::SnapshotProviders)
            } else {
                if self.selected == 0 {
                    self.toast = Some("（P1 占位：新建项目向导将在后续阶段实现）".to_owned());
                } else if self.selected == 1 {
                    self.toast = Some("（P1 占位：工作流编辑器将在 P4 实现）".to_owned());
                }
                Self::nothing()
            }
        } else {
            Self::nothing()
        }
    }

    fn on_provider_form(&mut self, edit: bool) -> (effects: Vec<Effect>)
        requires
            old(self).wf(),
        ensures
            final(self).wf(),
            stepped(old(self), final(self), effects@, provider_form_step(old(self)@, edit)),
    {
        reveal(provider_form_step);
        let i = self.settings.provider_selected;
        if self.mode == Mode::Settings && self.settings.on_providers_section() && (!edit || i
            < self.providers.len()) {
            let name = if edit {
                let (k, _) = self.providers.entry(i);
                Some(k.clone())
            } else {
                None
            };
            self.prev_mode = Mode::Settings;
            self.mode = Mode::ProviderForm;
            self.provider_form_open = true;
            Self::one(Effect::OpenProviderForm(name))
        } else {
            Self::nothing()
        }
    }

    fn on_delete_key(&mut self) -> (effects: Vec<Effect>)
        requires
            old(self).wf(),
        ensures
            final(self).wf(),
            stepped(old(self), final(self), effects@, delete_key_step(old(self)@)),
    {
        reveal(delete_key_step);
        if self.mode == Mode::Settings && self.settings.on_providers_section() {
            let cur = self.settings.provider_selected;
            if self.settings.pending_delete_idx == Some(cur) {
                self.delete_selected_provider()
            } else {
                self.settings.pending_delete_idx = Some(cur);
                Self::nothing()
            }
        } else {
            Self::nothing()
        }
    }

    #[verifier::rlimit(50)]
    fn edit_field(&mut self, forward: bool) -> (effects: Vec<Effect>)
        requires
            old(self).wf(),
        ensures
            final(self).wf(),
            stepped(old(self), final(self), effects@, edit_step(old(self)@, forward)),
    {
        reveal(edit_step);
        let live = self.settings.apply_edit(&mut self.config, &self.providers, forward);
        if live == LiveApply::Nothing {
            Self::nothing()
        } else {
            if live == LiveApply::Theme {
                self.chat.invalidate_cache();
            }
            Self::one(Effect::Live(live))
        }
    }

    fn choose_default_provider(&mut self)
        requires
            old(self).wf(),
        ensures
            final(self).wf(),
            final(self).chat == old(self).chat,
            ({
                let s = old(self)@;
                let names = provider_names(s);
                let i = s.settings.provider_selected as int;
                final(self)@ == if i < names.len() && s.config.default_provider != names[i] {
                    AppV {
                        config: ConfigV { default_provider: names[i], ..s.config },
                        settings: SettingsState { dirty: true, ..s.settings },
                        toast: Some("默认 provider 设为 "@ + names[i]),
                        ..s
                    }
                } else {
                    s
                }
            }),
    {
        let i = self.settings.provider_selected;
        if i < self.providers.len() {
            let (name, _) = self.providers.entry(i);
            let name = name.clone();
            if !crate::text::chars_eq(
                &crate::text::str_chars(self.config.agent.default_provider.as_str()),
                &crate::text::str_chars(name.as_str()),
            ) {
                let mut msg = String::new();
                push_str(&mut msg, "默认 provider 设为 ");
                push_str(&mut msg, name.as_str());
                self.config.agent.default_provider = name;
                self.settings.dirty = true;
                self.toast = Some(msg);
            }
        }
    }

    /// Esc on the settings page (see `exit_step`).
    fn exit_settings(&mut self) -> (effects: Vec<Effect>)
        requires
            old(self).wf(),
        ensures
            final(self).wf(),
            stepped(old(self), final(self), effects@, exit_step(old(self)@)),
    {
        reveal(exit_step);
        let dirty = self.settings.dirty || self.settings.dirty_providers;
        if dirty && !self.settings.pending_discard {
            self.settings.pending_discard = true;
            self.toast = Some("再按 Esc 丢弃改动，或选择「保存设置」".to_owned());
            return Self::nothing();
        }
        let mut effects: Vec<Effect> = Vec::new();
        if dirty {
            self.config = self.config_at_entry.duplicate();
            self.providers = self.providers_at_entry.duplicate();
            self.chat.invalidate_cache();
            effects.push(Effect::RestoreProviders);
            effects.push(Effect::Live(LiveApply::Theme));
            effects.push(Effect::Live(LiveApply::Mouse));
            self.settings.dirty = false;
            self.settings.dirty_providers = false;
            self.settings.pending_discard = false;
            self.toast = Some("已丢弃改动".to_owned());
            assert(effects_view(effects@) =~= seq![
                EffectV::RestoreProviders,
                EffectV::Live(LiveApply::Theme),
                EffectV::Live(LiveApply::Mouse),
            ]);
        } else {
            assert(effects_view(effects@) =~= Seq::<EffectV>::empty());
        }
        self.mode = self.prev_mode;
        effects
    }

    fn deleted_message(current: &String, name: &String, new_default: &String) -> (r: String)
        ensures
            r@ == deleted_toast(current@, name@, new_default@),
    {
        let mut msg = String::new();
        if crate::text::chars_eq(
            &crate::text::str_chars(current.as_str()),
            &crate::text::str_chars(name.as_str()),
        ) {
            push_str(&mut msg, "已删除 '");
            push_str(&mut msg, name.as_str());
            push_str(&mut msg, "'，默认 provider 回退到 '");
            push_str(&mut msg, new_default.as_str());
            push_str(&mut msg, "'");
        } else {
            push_str(&mut msg, "已删除 provider：");
            push_str(&mut msg, name.as_str());
        }
        msg
    }

    fn remove_provider_at(&mut self, idx: usize) -> (name: String)
        requires
            old(self).wf(),
            idx < old(self).providers@.len(),
        ensures
            final(self).wf(),
            final(self).chat == old(self).chat,
            name@ == provider_names(old(self)@)[idx as int],
            final(self)@ == (AppV { providers: assoc_remove(old(self).providers@, name@), ..old(self)@ }),
    {
        let (k, _) = self.providers.entry(idx);
        let name = k.clone();
        let mut m = self.providers.duplicate();
        m.remove(name.as_str());
        self.providers = m;
        name
    }

    fn fallback_after_removal(current: &String, name: &String, rest: &StringMap) -> (r: String)
        requires
            rest.wf(),
        ensures
            r@ == fallback_provider(current@, name@, rest@),
    {
        if crate::text::chars_eq(
            &crate::text::str_chars(current.as_str()),
            &crate::text::str_chars(name.as_str()),
        ) {
            if rest.len() > 0 {
                let (f, _) = rest.entry(0);
                f.clone()
            } else {
                String::new()
            }
        } else {
            current.clone()
        }
    }


    /// Deletes the provider armed for deletion (see `delete_step`).
    fn delete_selected_provider(&mut self) -> (effects: Vec<Effect>)
        requires
            old(self).wf(),
        ensures
            final(self).wf(),
            stepped(old(self), final(self), effects@, delete_step(old(self)@)),
    {
        reveal(delete_step);
        let idx = match self.settings.pending_delete_idx {
            Some(i) => i,
            None => {
                return Self::nothing();
            },
        };
        if idx >= self.providers.len() {
            let mut st = self.settings;
            st.pending_delete_idx = None;
            self.settings = st;
            return Self::nothing();
        }
        self.delete_provider_at(idx)
    }

    fn delete_provider_at(&mut self, idx: usize) -> (effects: Vec<Effect>)
        requires
            old(self).wf(),
            idx < old(self).providers@.len(),
        ensures
            final(self).wf(),
            final(self).chat == old(self).chat,
            final(self)@ == deleted_state(old(self)@, idx as int),
            effects_view(effects@) == seq![EffectV::RemoveProvider(provider_names(old(self)@)[idx as int])],
    {
        let ghost s = self@;
        let name = self.remove_provider_at(idx);
        let new_default = Self::fallback_after_removal(&self.config.agent.default_provider, &name, &self.providers);
        let msg = Self::deleted_message(&self.config.agent.default_provider, &name, &new_default);
        let len = self.providers.len();
        let mut st = self.settings;
        st.dirty_providers = true;
        st.pending_delete_idx = None;
        if st.provider_selected >= len && len > 0 {
            st.provider_selected = len - 1;
        }
        self.set_deleted(new_default, msg, st);
        proof {
            reveal(deleted_state);
        }
        Self::one(Effect::RemoveProvider(name))
    }

    fn set_deleted(&mut self, new_default: String, msg: String, st: SettingsState)
        requires
            old(self).wf(),
            st.wf(),
        ensures
            final(self).wf(),
            final(self).chat == old(self).chat,
            final(self)@ == (AppV {
                config: ConfigV { default_provider: new_default@, ..old(self)@.config },
                toast: Some(msg@),
                settings: st,
                ..old(self)@
            }),
    {
        self.config.agent.default_provider = new_default;
        self.toast = Some(msg);
        self.settings = st;
    }

    /// Reports how saving the settings went (`Effect::SaveSettings`); when
    /// the providers were not written their result is `Ok`. On success the
    /// saved values become the state a later discard returns to.
    pub fn settings_saved(&mut self, config_res: Result<(), String>, providers_res: Result<(), String>) -> (effects: Vec<Effect>)
        requires
            old(self).wf(),
        ensures
            final(self).wf(),
            final(self).chat == old(self).chat,
            ({
                let s = old(self)@;
                match (config_res, providers_res) {
                    (Ok(_), Ok(_)) => {
                        &&& final(self)@ == (AppV {
                            settings: SettingsState {
                                dirty: false,
                                dirty_providers: false,
                                pending_discard: false,
                                ..s.settings
                            },
                            config_at_entry: s.config,
                            providers_at_entry: s.providers,
                            toast: Some("配置已保存"@),
                            ..s
                        })
                        &&& effects_view(effects@) == seq![EffectV::SnapshotProviders]
                    },
                    (Err(e), _) => {
                        &&& final(self)@ == (AppV { toast: Some("配置保存失败: "@ + e@), ..s })
                        &&& effects@.len() == 0
                    },
                    (Ok(_), Err(e)) => {
                        &&& final(self)@ == (AppV { toast: Some("providers 保存失败: "@ + e@), ..s })
                        &&& effects@.len() == 0
                    },
                }
            }),
    {
        match (config_res, providers_res) {
            (Ok(_), Ok(_)) => {
                self.settings.dirty = false;
                self.settings.dirty_providers = false;
                self.settings.pending_discard = false;
                self.config_at_entry = self.config.duplicate();
                self.providers_at_entry = self.providers.duplicate();
                self.toast = Some("配置已保存".to_owned());
                Self::one(Effect::SnapshotProviders)
            },
            (Err(e), _) => {
                let mut msg = String::new();
                push_str(&mut msg, "配置保存失败: ");
                push_str(&mut msg, e.as_str());
                self.toast = Some(msg);
                Vec::new()
            },
            (Ok(_), Err(e)) => {
                let mut msg = String::new();
                push_str(&mut msg, "providers 保存失败: ");
                push_str(&mut msg, e.as_str());
                self.toast = Some(msg);
                Vec::new()
            },
        }
    }
}

} // verus!
