//! Properties of the application's decisions that span several steps.
use vstd::prelude::*;

use crate::app::{
    action_step, cleared, edit_step, entered_settings, esc_step, exit_step, open_settings_step,
    tab_mode, AppV, EffectV, Mode, Step,
};
use crate::app_events::{report_effects, report_state};
use crate::event::Action;
use crate::headless::AgentEvent;
use crate::settings::{LiveApply, SettingsState, PROVIDERS_SECTION_IDX};

verus! {

/// The state after action `a` (see `App::handle_action`).
pub open spec fn after(s: AppV, a: Action) -> AppV {
    action_step(cleared(s, a), a).0
}

/// A report from an agent task that was stopped or replaced changes
/// nothing and asks for nothing, whatever it says.
pub proof fn lemma_stale_report_ignored(s: AppV, streaming: bool, gen: u64, ev: AgentEvent)
    requires
        gen != s.generation,
    ensures
        report_state(s, streaming, gen, ev) == s,
        report_effects(s, streaming, gen, ev) == Seq::<EffectV>::empty(),
{
}

/// With unsaved changes on the settings page, the first Esc only arms the
/// discard and stays; the second puts back the configuration and providers
/// of the moment the page was entered, clears the changes and returns to
/// the previous screen.
pub proof fn lemma_double_esc_discards(s: AppV)
    requires
        s.mode == Mode::Settings,
        s.settings.dirty || s.settings.dirty_providers,
        !s.settings.pending_discard,
    ensures
        ({
            let t1 = after(s, Action::Esc);
            let t2 = after(t1, Action::Esc);
            &&& t1.mode == Mode::Settings
            &&& t1.settings.pending_discard
            &&& t1.config == s.config
            &&& t2.mode == s.prev_mode
            &&& t2.config == s.config_at_entry
            &&& t2.providers == s.providers_at_entry
            &&& !t2.settings.dirty
            &&& !t2.settings.dirty_providers
        }),
{
    let c1 = cleared(s, Action::Esc);
    assert(c1.mode == Mode::Settings && c1.settings.dirty == s.settings.dirty
        && c1.settings.dirty_providers == s.settings.dirty_providers
        && !c1.settings.pending_discard && c1.config == s.config);
    assert(action_step(c1, Action::Esc) == esc_step(c1));
    let t1 = esc_step(c1).0;
    assert(t1 == exit_step(c1).0) by {
        reveal(esc_step);
    }
    assert(t1.mode == Mode::Settings && t1.settings.pending_discard && t1.config == s.config
        && t1.config_at_entry == s.config_at_entry && t1.providers_at_entry == s.providers_at_entry
        && t1.prev_mode == s.prev_mode && (t1.settings.dirty || t1.settings.dirty_providers)) by {
        reveal(exit_step);
    }
    assert(after(s, Action::Esc) == t1);
    let c2 = cleared(t1, Action::Esc);
    assert(c2.mode == Mode::Settings && c2.settings.pending_discard && c2.config_at_entry
        == s.config_at_entry && c2.providers_at_entry == s.providers_at_entry && c2.prev_mode
        == s.prev_mode && (c2.settings.dirty || c2.settings.dirty_providers));
    assert(action_step(c2, Action::Esc) == esc_step(c2));
    assert(esc_step(c2) == exit_step(c2)) by {
        reveal(esc_step);
    }
    let t2 = exit_step(c2).0;
    assert(t2.mode == s.prev_mode && t2.config == s.config_at_entry && t2.providers
        == s.providers_at_entry && !t2.settings.dirty && !t2.settings.dirty_providers) by {
        reveal(exit_step);
    }
    assert(after(t1, Action::Esc) == t2);
}

/// Without unsaved changes, Esc leaves the settings page at once and keeps
/// the configuration.
pub proof fn lemma_clean_esc_leaves(s: AppV)
    requires
        s.mode == Mode::Settings,
        !s.settings.dirty,
        !s.settings.dirty_providers,
    ensures
        after(s, Action::Esc).mode == s.prev_mode,
        after(s, Action::Esc).config == s.config,
        after(s, Action::Esc).providers == s.providers,
{
    reveal(esc_step);
    reveal(exit_step);
}

/// Entering the settings page remembers the screen it came from and the
/// configuration and providers at that moment; asking again while on the
/// page changes nothing of that.
pub proof fn lemma_open_settings_remembers(s: AppV)
    requires
        s.mode != Mode::Settings,
    ensures
        ({
            let t = after(s, Action::OpenSettings);
            let u = after(t, Action::OpenSettings);
            &&& t.mode == Mode::Settings
            &&& t.prev_mode == s.mode
            &&& t.config_at_entry == s.config
            &&& t.providers_at_entry == s.providers
            &&& u.mode == Mode::Settings
            &&& u.prev_mode == s.mode
            &&& u.config_at_entry == s.config
        }),
{
    reveal(open_settings_step);
}

/// Editing fields never touches what a discard returns to.
pub proof fn lemma_edit_keeps_snapshot(s: AppV, forward: bool)
    ensures
        edit_step(s, forward).0.config_at_entry == s.config_at_entry,
        edit_step(s, forward).0.providers_at_entry == s.providers_at_entry,
        edit_step(s, forward).0.prev_mode == s.prev_mode,
        edit_step(s, forward).0.mode == s.mode,
{
    reveal(edit_step);
}

/// Tab walks the three work screens in a cycle of three.
pub proof fn lemma_tab_cycle(m: Mode)
    requires
        m == Mode::Chat || m == Mode::Workflow || m == Mode::Dashboard,
    ensures
        tab_mode(tab_mode(tab_mode(m))) == m,
        tab_mode(m) != m,
{
}

} // verus!
