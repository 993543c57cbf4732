//! What the slash commands typed on the chat screen do.
//!
//! The command line itself is first recorded as a user entry, then the
//! command runs; most commands answer with a system entry. While an answer
//! streams, `/clear`, `/mode`, `/model` and `/provider` are refused and
//! `/cancel` stops the answer.
use vstd::prelude::*;

use crate::app::{
    effects_view, fallback_provider, opt_text, provider_names, App, AppV, Effect, EffectV, Mode, Persist,
    PersistV,
};
use crate::app_events::{next_generation, stopped_agent};
use crate::chat::entry::{entries_view, ChatEntry, EntryV};
use crate::chat::state::ChatState;
use crate::config::ConfigV;
use crate::slash::{lowercase, parse, spec_parse, to_lowercase, CommandView, SlashCommand, HELP_TEXT};
use crate::strmap::{assoc_insert, assoc_keys, assoc_remove, Assoc, StringMap};
use crate::views::providers::FormAction;
use crate::settings::SettingsState;
use crate::text::{chars_eq, chars_eq_str, first_ws, first_ws_index, join, push_str, str_chars, string_from_range, trim, trim_str};

verus! {

broadcast use vstd::string::group_string_axioms;

/// The first word of a sub-command line (up to the first whitespace).
pub open spec fn sub_word(a: Seq<char>) -> Seq<char> {
    a.take(first_ws(a) as int)
}

/// What follows the first word and the whitespace after it, trimmed.
pub open spec fn sub_rest(a: Seq<char>) -> Seq<char> {
    let k = first_ws(a);
    if k < a.len() {
        trim(a.skip(k as int + 1))
    } else {
        Seq::empty()
    }
}

/// The provider names joined by ", ".
pub open spec fn names_text(s: AppV) -> Seq<char> {
    join(provider_names(s), ", "@)
}

/// One line per provider: its name, a star on the default one, and its
/// summary.
pub open spec fn listing(es: Assoc, default: Seq<char>) -> Seq<char>
    decreases es.len(),
{
    if es.len() == 0 {
        Seq::empty()
    } else {
        listing(es.drop_last(), default) + "\n  "@ + es.last().0 + (if es.last().0 == default {
            " ★默认"@
        } else {
            Seq::empty()
        }) + "  "@ + es.last().1
    }
}

/// One line per tool: its name and description.
pub open spec fn tool_listing(ts: Seq<(Seq<char>, Seq<char>)>) -> Seq<char>
    decreases ts.len(),
{
    if ts.len() == 0 {
        Seq::empty()
    } else {
        tool_listing(ts.drop_last()) + "\n  "@ + ts.last().0 + " — "@ + ts.last().1
    }
}

/// The tools as plain pairs.
pub open spec fn tools_view(ts: Seq<(String, String)>) -> Seq<(Seq<char>, Seq<char>)> {
    ts.map_values(|t: (String, String)| (t.0@, t.1@))
}

/// What an outcome asks: the new state, the effects and the system answer.
pub type Outcome = (AppV, Seq<EffectV>, Option<Seq<char>>);

/// An outcome that only answers `m`.
pub open spec fn answer(s: AppV, m: Seq<char>) -> Outcome {
    (s, Seq::empty(), Some(m))
}

/// The form opened from the chat screen.
pub open spec fn form_from_chat(s: AppV, name: Option<Seq<char>>) -> Outcome {
    (
        AppV { prev_mode: Mode::Chat, mode: Mode::ProviderForm, provider_form_open: true, ..s },
        seq![EffectV::OpenProviderForm(name)],
        None,
    )
}

/// `/provider list`.
pub open spec fn list_outcome(s: AppV) -> Outcome {
    if provider_names(s).len() == 0 {
        answer(s, "（无 provider，用 /provider add 新增）"@)
    } else {
        answer(s, "Providers："@ + listing(s.providers, s.config.default_provider))
    }
}

/// `/provider edit <rest>`.
pub open spec fn edit_outcome(s: AppV, rest: Seq<char>) -> Outcome {
    if rest.len() == 0 {
        answer(s, "用法：/provider edit <name>"@)
    } else if provider_names(s).contains(rest) {
        form_from_chat(s, Some(rest))
    } else {
        answer(s, "未知 provider："@ + rest)
    }
}

/// `/provider use <rest>`: the configuration is saved afterwards.
pub open spec fn use_outcome(s: AppV, rest: Seq<char>) -> Outcome {
    if rest.len() == 0 {
        answer(s, "当前 provider："@ + s.config.default_provider + "（用法：/provider use <name>）"@)
    } else if provider_names(s).contains(rest) {
        (
            AppV { config: ConfigV { default_provider: rest, ..s.config }, ..s },
            seq![EffectV::Persist(PersistV::UseProvider(rest))],
            None,
        )
    } else {
        answer(s, "未知 provider："@ + rest + "（可用："@ + names_text(s) + "）"@)
    }
}

/// `/provider remove <rest>`: the default provider falls back to the
/// first remaining one if it was removed; the providers are saved
/// afterwards.
pub open spec fn remove_outcome(s: AppV, rest: Seq<char>) -> Outcome {
    if rest.len() == 0 {
        answer(s, "用法：/provider remove <name>"@)
    } else if provider_names(s).contains(rest) {
        let remaining = assoc_remove(s.providers, rest);
        (
            AppV {
                providers: remaining,
                config: ConfigV {
                    default_provider: fallback_provider(s.config.default_provider, rest, remaining),
                    ..s.config
                },
                ..s
            },
            seq![EffectV::RemoveProvider(rest), EffectV::Persist(PersistV::RemovedProvider(rest))],
            None,
        )
    } else {
        answer(s, "未知 provider："@ + rest)
    }
}

/// `/provider <sub>` while no answer streams; the sub-command word is
/// matched without regard to case.
#[verifier::opaque]
pub open spec fn provider_outcome(s: AppV, args: Seq<char>) -> Outcome {
    let sub = lowercase(sub_word(args));
    let rest = sub_rest(args);
    if sub == ""@ || sub == "list"@ {
        list_outcome(s)
    } else if sub == "add"@ {
        form_from_chat(s, None)
    } else if sub == "edit"@ {
        edit_outcome(s, rest)
    } else if sub == "use"@ {
        use_outcome(s, rest)
    } else if sub == "remove"@ {
        remove_outcome(s, rest)
    } else {
        answer(s, "未知子命令："@ + sub + "（可用：list / add / edit / use / remove）"@)
    }
}

/// `/mode <name>` while no answer streams.
pub open spec fn mode_outcome(s: AppV, name: Seq<char>) -> Outcome {
    if name == "chat"@ {
        (AppV { mode: Mode::Chat, ..s }, Seq::empty(), Some("已切换到 Chat 模式"@))
    } else if name == "workflow"@ {
        (AppV { mode: Mode::Workflow, ..s }, Seq::empty(), Some("已切换到 Workflow 模式"@))
    } else if name == "dashboard"@ {
        (AppV { mode: Mode::Dashboard, ..s }, Seq::empty(), Some("已切换到 Dashboard 模式"@))
    } else if name.len() == 0 {
        answer(s, "用法：/mode <chat|workflow|dashboard>"@)
    } else {
        answer(s, "未知模式："@ + name + "（可选：chat / workflow / dashboard）"@)
    }
}

/// `/model <name>` while no answer streams.
pub open spec fn model_outcome(s: AppV, name: Seq<char>) -> Outcome {
    if name.len() == 0 {
        answer(s, "当前 provider："@ + s.config.default_provider + "（用法：/model <provider>）"@)
    } else if provider_names(s).contains(name) {
        (
            AppV { config: ConfigV { default_provider: name, ..s.config }, ..s },
            Seq::empty(),
            Some("已切换 provider 到 "@ + name),
        )
    } else {
        answer(s, "未知 provider："@ + name + "（可用："@ + names_text(s) + "）"@)
    }
}

/// What a command does, for every case but `/clear` and `/cancel` doing
/// their work (see `handle_slash_command`); `streaming` tells whether an
/// answer streams, `tools` lists the tools by name and description.
#[verifier::opaque]
pub open spec fn command_outcome(s: AppV, streaming: bool, cmd: CommandView, tools: Seq<(Seq<char>, Seq<char>)>) -> Outcome {
    match cmd {
        CommandView::Help => answer(s, HELP_TEXT@),
        CommandView::Clear => answer(s, "生成中，无法清空（先 /cancel 取消生成）"@),
        CommandView::Mode(name) => if streaming {
            answer(s, "生成中，无法切换模式"@)
        } else {
            mode_outcome(s, name)
        },
        CommandView::Model(name) => if streaming {
            answer(s, "生成中，无法切换 provider"@)
        } else {
            model_outcome(s, name)
        },
        CommandView::Provider(args) => if streaming {
            answer(s, "生成中，无法管理 provider（先 /cancel）"@)
        } else {
            provider_outcome(s, args)
        },
        CommandView::Tools => answer(s, "可用工具："@ + tool_listing(tools)),
        CommandView::Cancel => answer(s, "当前无生成任务"@),
        CommandView::Quit => (AppV { should_quit: true, ..s }, seq![EffectV::SaveHistory], None),
        CommandView::Unknown(name) => answer(s, "未知命令："@ + name + "（输入 /help 查看可用命令）"@),
        _ => (s, Seq::empty(), None),
    }
}

fn is_clear(c: &SlashCommand) -> (b: bool)
    ensures
        b == (c@ is Clear),
{
    match c {
        SlashCommand::Clear => true,
        _ => false,
    }
}

fn is_cancel(c: &SlashCommand) -> (b: bool)
    ensures
        b == (c@ is Cancel),
{
    match c {
        SlashCommand::Cancel => true,
        _ => false,
    }
}

/// `fin` and the result `r` (effects, answer) are what outcome `o` asks.
pub open spec fn outcome_is(old: AppV, fin: AppV, r: (Vec<Effect>, Option<String>), o: Outcome) -> bool {
    &&& fin == o.0
    &&& effects_view(r.0@) == o.1
    &&& match r.1 {
        Some(m) => o.2 == Some(m@),
        None => o.2 is None,
    }
}

/// The entries of the live answer: reasoning, then answer text, each when
/// non-empty.
pub open spec fn live_entries(c: ChatState) -> Seq<EntryV> {
    (if c.thinking_buffer@.len() > 0 {
        seq![EntryV::Thinking(c.thinking_buffer@)]
    } else {
        Seq::empty()
    }) + (if c.streaming_buffer@.len() > 0 {
        seq![EntryV::Assistant(c.streaming_buffer@)]
    } else {
        Seq::empty()
    })
}

/// An optional system answer as entries.
pub open spec fn note(m: Option<Seq<char>>) -> Seq<EntryV> {
    match m {
        Some(t) => seq![EntryV::System(t)],
        None => Seq::empty(),
    }
}

/// The effects of stopping the answer: stop the task if one runs, then save.
pub open spec fn cancel_effects(s: AppV) -> Seq<EffectV> {
    if s.agent_running {
        seq![EffectV::AbortAgent, EffectV::SaveHistory]
    } else {
        seq![EffectV::SaveHistory]
    }
}

fn split_sub(args: &str) -> (r: (String, String))
    ensures
        r.0@ == sub_word(args@),
        r.1@ == sub_rest(args@),
{
    let v = str_chars(args);
    let k = first_ws_index(&v, 0);
    assert(v@.skip(0) =~= v@);
    let word = string_from_range(&v, 0, k);
    assert(v@.subrange(0, k as int) =~= v@.take(k as int));
    let rest = if k < v.len() {
        let tail = string_from_range(&v, k + 1, v.len());
        assert(v@.subrange(k + 1, v@.len() as int) =~= v@.skip(k + 1));
        trim_str(tail.as_str())
    } else {
        String::new()
    };
    (word, rest)
}

fn listing_string(m: &StringMap, default: &String) -> (r: String)
    requires
        m.wf(),
    ensures
        r@ == listing(m@, default@),
{
    let mut r = String::new();
    let n = m.len();
    let mut i: usize = 0;
    while i < n
        invariant
            m.wf(),
            n == m@.len(),
            i <= n,
            r@ == listing(m@.take(i as int), default@),
        decreases n - i,
    {
        let (k, v) = m.entry(i);
        push_str(&mut r, "\n  ");
        push_str(&mut r, k.as_str());
        if chars_eq(&str_chars(k.as_str()), &str_chars(default.as_str())) {
            push_str(&mut r, " ★默认");
        }
        push_str(&mut r, "  ");
        push_str(&mut r, v.as_str());
        assert(m@.take(i + 1).drop_last() =~= m@.take(i as int));
        assert(m@.take(i + 1).last() == m@[i as int]);
        i = i + 1;
    }
    assert(m@.take(n as int) =~= m@);
    r
}

fn joined_names(m: &StringMap) -> (r: String)
    requires
        m.wf(),
    ensures
        r@ == join(assoc_keys(m@), ", "@),
{
    let mut r = String::new();
    let n = m.len();
    let mut i: usize = 0;
    let ghost ks = assoc_keys(m@);
    while i < n
        invariant
            m.wf(),
            n == m@.len(),
            i <= n,
            ks == assoc_keys(m@),
            r@ == join(ks.take(i as int), ", "@),
        decreases n - i,
    {
        let (k, _) = m.entry(i);
        if i > 0 {
            push_str(&mut r, ", ");
        }
        push_str(&mut r, k.as_str());
        proof {
            let t = ks.take(i + 1);
            assert(t.drop_last() =~= ks.take(i as int));
            assert(t.last() == m@[i as int].0);
            if i == 0 {
                assert(t.len() == 1);
            }
        }
        assert(r@ =~= join(ks.take(i + 1), ", "@));
        i = i + 1;
    }
    assert(ks.take(n as int) =~= ks);
    r
}

fn tool_string(ts: &Vec<(String, String)>) -> (r: String)
    ensures
        r@ == tool_listing(tools_view(ts@)),
{
    let mut r = String::new();
    let mut i: usize = 0;
    let ghost tv = tools_view(ts@);
    while i < ts.len()
        invariant
            i <= ts@.len(),
            tv == tools_view(ts@),
            r@ == tool_listing(tv.take(i as int)),
        decreases ts@.len() - i,
    {
        push_str(&mut r, "\n  ");
        push_str(&mut r, ts[i].0.as_str());
        push_str(&mut r, " — ");
        push_str(&mut r, ts[i].1.as_str());
        assert(tv.take(i + 1).drop_last() =~= tv.take(i as int));
        assert(tv.take(i + 1).last() == (ts@[i as int].0@, ts@[i as int].1@));
        i = i + 1;
    }
    assert(tv.take(ts@.len() as int) =~= tv);
    r
}

fn concat2(a: &str, b: &str) -> (r: String)
    ensures
        r@ == a@ + b@,
{
    let mut r = String::new();
    push_str(&mut r, a);
    push_str(&mut r, b);
    r
}

fn concat3(a: &str, b: &str, c: &str) -> (r: String)
    ensures
        r@ == a@ + b@ + c@,
{
    let mut r = String::new();
    push_str(&mut r, a);
    push_str(&mut r, b);
    push_str(&mut r, c);
    r
}

fn concat5(a: &str, b: &str, c: &str, d: &str, e: &str) -> (r: String)
    ensures
        r@ == a@ + b@ + c@ + d@ + e@,
{
    let mut r = String::new();
    push_str(&mut r, a);
    push_str(&mut r, b);
    push_str(&mut r, c);
    push_str(&mut r, d);
    push_str(&mut r, e);
    r
}

/// What a slash command line `raw` leaves behind, from state `s` with chat
/// page `c` (its transcript, streaming flag and live buffers): the state
/// `fs`, the chat page `fc` (the same parts) and the effects `e`.
pub open spec fn slash_post(
    s: AppV,
    c: ChatState,
    raw: Seq<char>,
    tools: Seq<(Seq<char>, Seq<char>)>,
    fs: AppV,
    fc: ChatState,
    e: Seq<EffectV>,
) -> bool {
    let cmd = spec_parse(raw);
    let user = EntryV::User(trim(raw));
    if cmd is Clear && !c.streaming {
        &&& fs == s
        &&& e == seq![EffectV::SaveHistory]
        &&& entries_view(fc.entries@) == seq![EntryV::System("已清空对话历史"@)]
        &&& !fc.streaming
        &&& fc.streaming_buffer@.len() == 0
        &&& fc.thinking_buffer@.len() == 0
        &&& fc.streaming_tool_output@.len() == 0
    } else if cmd is Cancel && c.streaming {
        &&& fs == stopped_agent(s)
        &&& e == cancel_effects(s)
        &&& entries_view(fc.entries@) == entries_view(c.entries@).push(user) + live_entries(c) + seq![
            EntryV::System("已取消生成"@),
        ]
        &&& !fc.streaming
        &&& fc.streaming_buffer@.len() == 0
        &&& fc.thinking_buffer@.len() == 0
        &&& fc.streaming_tool_output@.len() == 0
    } else {
        let o = command_outcome(s, c.streaming, cmd, tools);
        &&& fs == o.0
        &&& e == o.1
        &&& entries_view(fc.entries@) == entries_view(c.entries@).push(user) + note(o.2)
        &&& fc.streaming == c.streaming
        &&& fc.streaming_buffer@ == c.streaming_buffer@
        &&& fc.thinking_buffer@ == c.thinking_buffer@
        &&& fc.streaming_tool_output@ == c.streaming_tool_output@
    }
}

/// What a provider-form request does.
pub open spec fn form_action_post(s: AppV, a: FormAction, fs: AppV, e: Seq<EffectV>) -> bool {
    match a {
        FormAction::Nothing => fs == s && e.len() == 0,
        FormAction::Cancel => fs == AppV { provider_form_open: false, mode: s.prev_mode, ..s } && e
            == seq![EffectV::CloseProviderForm],
        FormAction::Save => fs == s && e == seq![EffectV::ValidateProviderForm],
        FormAction::Fetch => fs == s && e == seq![EffectV::StartFetch],
        FormAction::Toast(m) => fs == AppV { toast: Some(m@), ..s } && e.len() == 0,
    }
}

/// The form was opened for another name than the one it produced.
pub open spec fn renamed_from(name: Seq<char>, orig: Option<Seq<char>>) -> bool {
    orig is Some && orig->0 != name
}

/// The providers after the form produced `name`: the old entry of a
/// renamed provider goes, `name` is bound to `summary`.
#[verifier::opaque]
pub open spec fn form_providers(s: AppV, name: Seq<char>, summary: Seq<char>, orig: Option<Seq<char>>) -> Assoc {
    assoc_insert(
        if renamed_from(name, orig) {
            assoc_remove(s.providers, orig->0)
        } else {
            s.providers
        },
        name,
        summary,
    )
}

/// The default provider follows a rename of itself.
pub open spec fn default_renamed(s: AppV, name: Seq<char>, orig: Option<Seq<char>>) -> bool {
    renamed_from(name, orig) && s.config.default_provider == orig->0
}

/// The effects of storing the form's provider.
#[verifier::opaque]
pub open spec fn form_effects(s: AppV, name: Seq<char>, orig: Option<Seq<char>>) -> Seq<EffectV> {
    (if renamed_from(name, orig) {
        seq![EffectV::RemoveProvider(orig->0)]
    } else {
        Seq::empty()
    }) + seq![EffectV::UpsertProvider(name)] + (if s.prev_mode == Mode::Settings {
        Seq::empty()
    } else {
        seq![EffectV::Persist(PersistV::FormSaved(name))]
    }) + seq![EffectV::CloseProviderForm]
}

/// The provider form produced provider `name` with summary `summary`,
/// having been opened for `orig` (`None` for a new one): a renamed
/// provider loses its old entry (and the default follows the rename, which
/// makes the settings dirty); from the settings page the change waits for
/// "save settings", from the chat screen the providers are saved at once.
#[verifier::opaque]
pub open spec fn form_saved(s: AppV, name: Seq<char>, summary: Seq<char>, orig: Option<Seq<char>>) -> (AppV, Seq<EffectV>) {
    let dr = default_renamed(s, name, orig);
    let from_settings = s.prev_mode == Mode::Settings;
    (
        AppV {
            providers: form_providers(s, name, summary, orig),
            config: ConfigV {
                default_provider: if dr {
                    name
                } else {
                    s.config.default_provider
                },
                ..s.config
            },
            settings: SettingsState {
                dirty: s.settings.dirty || dr,
                dirty_providers: s.settings.dirty_providers || from_settings,
                ..s.settings
            },
            toast: if from_settings {
                Some("Provider '"@ + name + "' 已暂存（保存设置后写入）"@)
            } else {
                s.toast
            },
            mode: s.prev_mode,
            provider_form_open: false,
            ..s
        },
        form_effects(s, name, orig),
    )
}

/// The answer to a finished save.
pub open spec fn save_note(p: PersistV, res: Result<(), Seq<char>>) -> Seq<char> {
    match (p, res) {
        (PersistV::UseProvider(n), Ok(_)) => "已切换 provider 到 "@ + n,
        (PersistV::UseProvider(_), Err(e)) => "切换成功但保存失败: "@ + e,
        (PersistV::RemovedProvider(n), Ok(_)) => "已删除 provider："@ + n,
        (PersistV::RemovedProvider(_), Err(e)) => "删除成功但保存失败: "@ + e,
        (PersistV::FormSaved(n), Ok(_)) => "Provider '"@ + n + "' 已保存"@,
        (PersistV::FormSaved(_), Err(e)) => "保存失败: "@ + e,
    }
}

/// The view of a save result.
pub open spec fn res_view(r: Result<(), String>) -> Result<(), Seq<char>> {
    match r {
        Ok(_) => Ok(()),
        Err(e) => Err(e@),
    }
}

impl App {
    fn note_system(&mut self, msg: String)
        requires
            old(self).wf(),
        ensures
            final(self).wf(),
            final(self).providers == old(self).providers,
            final(self).providers_at_entry == old(self).providers_at_entry,
            final(self)@ == old(self)@,
            entries_view(final(self).chat.entries@) == entries_view(old(self).chat.entries@).push(
                EntryV::System(msg@),
            ),
            final(self).chat == (ChatState { entries: final(self).chat.entries, ..old(self).chat }),
    {
        let ghost before = self.chat.entries@;
        self.chat.entries.push(ChatEntry::System(msg));
        assert(entries_view(self.chat.entries@) =~= entries_view(before).push(EntryV::System(msg@)));
    }

    fn note_opt(&mut self, msg: Option<String>)
        requires
            old(self).wf(),
        ensures
            final(self).wf(),
            final(self).providers == old(self).providers,
            final(self).providers_at_entry == old(self).providers_at_entry,
            final(self)@ == old(self)@,
            entries_view(final(self).chat.entries@) == entries_view(old(self).chat.entries@) + note(
                match msg {
                    Some(m) => Some(m@),
                    None => None,
                },
            ),
            final(self).chat == (ChatState { entries: final(self).chat.entries, ..old(self).chat }),
    {
        match msg {
            Some(m) => {
                self.note_system(m);
                assert(entries_view(self.chat.entries@) =~= entries_view(old(self).chat.entries@)
                    + seq![EntryV::System(m@)]);
            },
            None => {
                assert(entries_view(self.chat.entries@) =~= entries_view(old(self).chat.entries@)
                    + Seq::<EntryV>::empty());
            },
        }
    }

    fn open_form_from_chat(&mut self, name: Option<String>) -> (effects: Vec<Effect>)
        ensures
            final(self)@ == (AppV {
                prev_mode: Mode::Chat,
                mode: Mode::ProviderForm,
                provider_form_open: true,
                ..old(self)@
            }),
            final(self).chat == old(self).chat,
            final(self).settings == old(self).settings,
            final(self).providers == old(self).providers,
            final(self).providers_at_entry == old(self).providers_at_entry,
            effects_view(effects@) == seq![
                EffectV::OpenProviderForm(
                    match name {
                        Some(n) => Some(n@),
                        None => None,
                    },
                ),
            ],
    {
        self.prev_mode = Mode::Chat;
        self.mode = Mode::ProviderForm;
        self.provider_form_open = true;
        let mut e: Vec<Effect> = Vec::new();
        e.push(Effect::OpenProviderForm(name));
        assert(effects_view(e@) =~= seq![e@[0]@]);
        e
    }

    /// `/provider <sub>` while no answer streams (see `provider_outcome`).
    fn provider_command(&mut self, args: &str) -> (r: (Vec<Effect>, Option<String>))
        requires
            old(self).wf(),
        ensures
            final(self).wf(),
            final(self).chat == old(self).chat,
            outcome_is(old(self)@, final(self)@, r, provider_outcome(old(self)@, args@)),
    {
        reveal(provider_outcome);
        let (word, rest) = split_sub(args);
        let sub = to_lowercase(word.as_str());
        let sv = str_chars(sub.as_str());
        if chars_eq_str(&sv, "") || chars_eq_str(&sv, "list") {
            (App::nothing(), Some(self.list_text()))
        } else if chars_eq_str(&sv, "add") {
            (self.open_form_from_chat(None), None)
        } else if chars_eq_str(&sv, "edit") {
            self.provider_edit(rest)
        } else if chars_eq_str(&sv, "use") {
            self.provider_use(rest)
        } else if chars_eq_str(&sv, "remove") {
            self.provider_remove(rest)
        } else {
            (App::nothing(), Some(concat3("未知子命令：", sub.as_str(), "（可用：list / add / edit / use / remove）")))
        }
    }

    fn list_text(&self) -> (r: String)
        requires
            self.wf(),
        ensures
            list_outcome(self@).2 == Some(r@),
    {
        if self.providers.is_empty() {
            "（无 provider，用 /provider add 新增）".to_owned()
        } else {
            let l = listing_string(&self.providers, &self.config.agent.default_provider);
            concat2("Providers：", l.as_str())
        }
    }

    fn provider_edit(&mut self, rest: String) -> (r: (Vec<Effect>, Option<String>))
        requires
            old(self).wf(),
        ensures
            final(self).wf(),
            final(self).chat == old(self).chat,
            outcome_is(old(self)@, final(self)@, r, edit_outcome(old(self)@, rest@)),
    {
        if str_chars(rest.as_str()).len() == 0 {
            (App::nothing(), Some("用法：/provider edit <name>".to_owned()))
        } else if self.providers.contains_key(rest.as_str()) {
            (self.open_form_from_chat(Some(rest)), None)
        } else {
            (App::nothing(), Some(concat2("未知 provider：", rest.as_str())))
        }
    }

    fn provider_use(&mut self, rest: String) -> (r: (Vec<Effect>, Option<String>))
        requires
            old(self).wf(),
        ensures
            final(self).wf(),
            final(self).chat == old(self).chat,
            outcome_is(old(self)@, final(self)@, r, use_outcome(old(self)@, rest@)),
    {
        if str_chars(rest.as_str()).len() == 0 {
            (
                App::nothing(),
                Some(concat3("当前 provider：", self.config.agent.default_provider.as_str(), "（用法：/provider use <name>）")),
            )
        } else if self.providers.contains_key(rest.as_str()) {
            self.config.agent.default_provider = rest.clone();
            let mut e: Vec<Effect> = Vec::new();
            e.push(Effect::Persist(Persist::UseProvider(rest)));
            assert(effects_view(e@) =~= seq![e@[0]@]);
            (e, None)
        } else {
            let names = joined_names(&self.providers);
            (App::nothing(), Some(concat5("未知 provider：", rest.as_str(), "（可用：", names.as_str(), "）")))
        }
    }

    fn provider_remove(&mut self, rest: String) -> (r: (Vec<Effect>, Option<String>))
        requires
            old(self).wf(),
        ensures
            final(self).wf(),
            final(self).chat == old(self).chat,
            outcome_is(old(self)@, final(self)@, r, remove_outcome(old(self)@, rest@)),
    {
        let rv = str_chars(rest.as_str());
        if rv.len() == 0 {
            (App::nothing(), Some("用法：/provider remove <name>".to_owned()))
        } else if self.providers.contains_key(rest.as_str()) {
            let mut m = self.providers.duplicate();
            m.remove(rest.as_str());
            let new_default = if chars_eq(&str_chars(self.config.agent.default_provider.as_str()), &rv) {
                if m.len() > 0 {
                    let (f, _) = m.entry(0);
                    f.clone()
                } else {
                    String::new()
                }
            } else {
                self.config.agent.default_provider.clone()
            };
            self.set_providers_and_default(m, new_default);
            let mut e: Vec<Effect> = Vec::new();
            e.push(Effect::RemoveProvider(rest.clone()));
            e.push(Effect::Persist(Persist::RemovedProvider(rest)));
            assert(effects_view(e@) =~= seq![e@[0]@, e@[1]@]);
            (e, None)
        } else {
            (App::nothing(), Some(concat2("未知 provider：", rest.as_str())))
        }
    }

    fn set_providers_and_default(&mut self, m: StringMap, d: String)
        requires
            old(self).wf(),
            m.wf(),
        ensures
            final(self).wf(),
            final(self).chat == old(self).chat,
            final(self)@ == (AppV {
                providers: m@,
                config: ConfigV { default_provider: d@, ..old(self)@.config },
                ..old(self)@
            }),
    {
        self.providers = m;
        self.config.agent.default_provider = d;
    }

    fn mode_command(&mut self, name: &String) -> (r: (Vec<Effect>, Option<String>))
        requires
            old(self).wf(),
        ensures
            final(self).wf(),
            final(self).chat == old(self).chat,
            outcome_is(old(self)@, final(self)@, r, mode_outcome(old(self)@, name@)),
    {
        let v = str_chars(name.as_str());
        if chars_eq_str(&v, "chat") {
            self.mode = Mode::Chat;
            (App::nothing(), Some("已切换到 Chat 模式".to_owned()))
        } else if chars_eq_str(&v, "workflow") {
            self.mode = Mode::Workflow;
            (App::nothing(), Some("已切换到 Workflow 模式".to_owned()))
        } else if chars_eq_str(&v, "dashboard") {
            self.mode = Mode::Dashboard;
            (App::nothing(), Some("已切换到 Dashboard 模式".to_owned()))
        } else if v.len() == 0 {
            (App::nothing(), Some("用法：/mode <chat|workflow|dashboard>".to_owned()))
        } else {
            (App::nothing(), Some(concat3("未知模式：", name.as_str(), "（可选：chat / workflow / dashboard）")))
        }
    }

    fn model_command(&mut self, name: &String) -> (r: (Vec<Effect>, Option<String>))
        requires
            old(self).wf(),
        ensures
            final(self).wf(),
            final(self).chat == old(self).chat,
            outcome_is(old(self)@, final(self)@, r, model_outcome(old(self)@, name@)),
    {
        if str_chars(name.as_str()).len() == 0 {
            (
                App::nothing(),
                Some(concat3("当前 provider：", self.config.agent.default_provider.as_str(), "（用法：/model <provider>）")),
            )
        } else if self.providers.contains_key(name.as_str()) {
            self.config.agent.default_provider = name.clone();
            (App::nothing(), Some(concat2("已切换 provider 到 ", name.as_str())))
        } else {
            let names = joined_names(&self.providers);
            (App::nothing(), Some(concat5("未知 provider：", name.as_str(), "（可用：", names.as_str(), "）")))
        }
    }

    /// A command other than `/clear` and `/cancel` doing their work (see
    /// `command_outcome`).
    fn run_command(&mut self, cmd: &SlashCommand, tools: &Vec<(String, String)>) -> (r: (Vec<Effect>, Option<String>))
        requires
            old(self).wf(),
        ensures
            final(self).wf(),
            final(self).chat == old(self).chat,
            outcome_is(
                old(self)@,
                final(self)@,
                r,
                command_outcome(old(self)@, old(self).chat.streaming, cmd@, tools_view(tools@)),
            ),
    {
        reveal(command_outcome);
        let streaming = self.chat.streaming;
        match cmd {
            SlashCommand::Help => (App::nothing(), Some(HELP_TEXT.to_owned())),
            SlashCommand::Clear => (App::nothing(), Some("生成中，无法清空（先 /cancel 取消生成）".to_owned())),
            SlashCommand::Mode(name) => if streaming {
                (App::nothing(), Some("生成中，无法切换模式".to_owned()))
            } else {
                self.mode_command(name)
            },
            SlashCommand::Model(name) => if streaming {
                (App::nothing(), Some("生成中，无法切换 provider".to_owned()))
            } else {
                self.model_command(name)
            },
            SlashCommand::Provider(args) => if streaming {
                (App::nothing(), Some("生成中，无法管理 provider（先 /cancel）".to_owned()))
            } else {
                self.provider_command(args.as_str())
            },
            SlashCommand::Tools => {
                let t = tool_string(tools);
                (App::nothing(), Some(concat2("可用工具：", t.as_str())))
            },
            SlashCommand::Cancel => (App::nothing(), Some("当前无生成任务".to_owned())),
            SlashCommand::Quit => {
                self.should_quit = true;
                (App::one(Effect::SaveHistory), None)
            },
            SlashCommand::Unknown(name) => (
                App::nothing(),
                Some(concat3("未知命令：", name.as_str(), "（输入 /help 查看可用命令）")),
            ),
            _ => (App::nothing(), None),
        }
    }

    /// Stops the streaming answer (`/cancel`): the task is stopped, reports
    /// of it become stale, what arrived joins the transcript.
    pub(crate) fn stop_answer(&mut self) -> (effects: Vec<Effect>)
        requires
            old(self).wf(),
        ensures
            final(self).wf(),
            final(self)@ == stopped_agent(old(self)@),
            effects_view(effects@) == cancel_effects(old(self)@),
            entries_view(final(self).chat.entries@) == entries_view(old(self).chat.entries@) + live_entries(
                old(self).chat,
            ),
            !final(self).chat.streaming,
            final(self).chat.streaming_buffer@.len() == 0,
            final(self).chat.thinking_buffer@.len() == 0,
            final(self).chat.streaming_tool_output@.len() == 0,
            final(self).chat.input == old(self).chat.input,
    {
        let mut e: Vec<Effect> = Vec::new();
        if self.agent_running {
            e.push(Effect::AbortAgent);
        }
        e.push(Effect::SaveHistory);
        proof {
            if old(self).agent_running {
                assert(effects_view(e@) =~= seq![EffectV::AbortAgent, EffectV::SaveHistory]);
            } else {
                assert(effects_view(e@) =~= seq![EffectV::SaveHistory]);
            }
        }
        self.generation = if self.generation == u64::MAX {
            0
        } else {
            self.generation + 1
        };
        self.agent_running = false;
        self.chat.cancel_stream();
        assert(entries_view(self.chat.entries@) =~= entries_view(old(self).chat.entries@) + live_entries(old(self).chat));
        e
    }

    /// Drops the streaming answer (Esc): the task is stopped, reports of it
    /// become stale, and what arrived is discarded; the transcript stays as
    /// it was.
    pub(crate) fn drop_answer(&mut self) -> (effects: Vec<Effect>)
        requires
            old(self).wf(),
        ensures
            final(self).wf(),
            final(self)@ == stopped_agent(old(self)@),
            effects_view(effects@) == cancel_effects(old(self)@),
            final(self).chat.entries@ == old(self).chat.entries@,
            !final(self).chat.streaming,
            final(self).chat.streaming_buffer@.len() == 0,
            final(self).chat.thinking_buffer@.len() == 0,
            final(self).chat.streaming_tool_output@.len() == 0,
            final(self).chat.input == old(self).chat.input,
    {
        let mut e: Vec<Effect> = Vec::new();
        if self.agent_running {
            e.push(Effect::AbortAgent);
        }
        e.push(Effect::SaveHistory);
        proof {
            if old(self).agent_running {
                assert(effects_view(e@) =~= seq![EffectV::AbortAgent, EffectV::SaveHistory]);
            } else {
                assert(effects_view(e@) =~= seq![EffectV::SaveHistory]);
            }
        }
        self.generation = if self.generation == u64::MAX {
            0
        } else {
            self.generation + 1
        };
        self.agent_running = false;
        self.chat.drop_stream();
        e
    }

    /// Runs the slash command line `raw` (see `slash_post`); `tools` lists
    /// the available tools by name and description.
    pub fn handle_slash_command(&mut self, raw: &str, tools: &Vec<(String, String)>) -> (effects: Vec<Effect>)
        requires
            old(self).wf(),
        ensures
            final(self).wf(),
            slash_post(old(self)@, old(self).chat, raw@, tools_view(tools@), final(self)@, final(self).chat, effects_view(effects@)),
            final(self).chat.input == old(self).chat.input,
    {
        let cmd = parse(raw);
        let t = trim_str(raw);
        let ghost c0 = self.chat;
        let ghost s0 = self@;
        self.note_user(t);
        let ghost c1 = self.chat;
        let streaming = self.chat.streaming;
        if !streaming && is_clear(&cmd) {
            self.chat.clear();
            self.note_system("已清空对话历史".to_owned());
            assert(entries_view(self.chat.entries@) =~= seq![EntryV::System("已清空对话历史"@)]);
            let e = App::one(Effect::SaveHistory);
            assert(slash_post(s0, c0, raw@, tools_view(tools@), self@, self.chat, effects_view(e@)));
            e
        } else if streaming && is_cancel(&cmd) {
            let e = self.stop_answer();
            self.note_system("已取消生成".to_owned());
            assert(live_entries(c1) == live_entries(c0));
            assert(entries_view(self.chat.entries@) =~= entries_view(c0.entries@).push(EntryV::User(trim(raw@)))
                + live_entries(c0) + seq![EntryV::System("已取消生成"@)]);
            assert(slash_post(s0, c0, raw@, tools_view(tools@), self@, self.chat, effects_view(e@)));
            e
        } else {
            let (e, m) = self.run_command(&cmd, tools);
            self.note_opt(m);
            assert(slash_post(s0, c0, raw@, tools_view(tools@), self@, self.chat, effects_view(e@)));
            e
        }
    }

    fn note_user(&mut self, text: String)
        requires
            old(self).wf(),
        ensures
            final(self).wf(),
            final(self).providers == old(self).providers,
            final(self).providers_at_entry == old(self).providers_at_entry,
            final(self)@ == old(self)@,
            entries_view(final(self).chat.entries@) == entries_view(old(self).chat.entries@).push(
                EntryV::User(text@),
            ),
            final(self).chat == (ChatState { entries: final(self).chat.entries, ..old(self).chat }),
    {
        let ghost before = self.chat.entries@;
        self.chat.entries.push(ChatEntry::User(text));
        assert(entries_view(self.chat.entries@) =~= entries_view(before).push(EntryV::User(text@)));
    }

    /// Handles a request of the provider form (see `form_action_post`).
    pub fn handle_form_action(&mut self, a: FormAction) -> (effects: Vec<Effect>)
        requires
            old(self).wf(),
        ensures
            final(self).wf(),
            final(self).chat == old(self).chat,
            form_action_post(old(self)@, a, final(self)@, effects_view(effects@)),
    {
        match a {
            FormAction::Nothing => App::nothing(),
            FormAction::Cancel => {
                self.provider_form_open = false;
                self.mode = self.prev_mode;
                App::one(Effect::CloseProviderForm)
            },
            FormAction::Save => App::one(Effect::ValidateProviderForm),
            FormAction::Fetch => App::one(Effect::StartFetch),
            FormAction::Toast(m) => {
                self.toast = Some(m);
                App::nothing()
            },
        }
    }

    /// Whether a fetched model list goes to the provider form.
    pub fn accepts_fetch(&self) -> (b: bool)
        ensures
            b == (self.mode == Mode::ProviderForm && self.provider_form_open),
    {
        self.mode == Mode::ProviderForm && self.provider_form_open
    }

    /// Reports what the provider form produced (`Effect::ValidateProviderForm`):
    /// the provider's name and summary line, or the message why the form is
    /// not complete (the form then stays open); `original_name` is the
    /// provider the form was opened for. See `form_saved`.
    pub fn provider_form_checked(&mut self, result: Result<(String, String), String>, original_name: Option<String>) -> (effects: Vec<Effect>)
        requires
            old(self).wf(),
        ensures
            final(self).wf(),
            final(self).chat == old(self).chat,
            match result {
                Err(m) => final(self)@ == (AppV { toast: Some(m@), ..old(self)@ }) && effects_view(effects@)
                    == Seq::<EffectV>::empty(),
                Ok((name, summary)) => {
                    let o = form_saved(old(self)@, name@, summary@, opt_text(original_name));
                    final(self)@ == o.0 && effects_view(effects@) == o.1
                },
            },
    {
        match result {
            Err(m) => {
                self.toast = Some(m);
                App::nothing()
            },
            Ok((name, summary)) => self.store_provider(name, summary, original_name),
        }
    }

    fn form_map(&self, name: &String, summary: String, orig: &Option<String>) -> (m: StringMap)
        requires
            self.wf(),
        ensures
            m.wf(),
            m@ == form_providers(self@, name@, summary@, opt_text(*orig)),
    {
        reveal(form_providers);
        let mut m = self.providers.duplicate();
        match orig {
            Some(o) => {
                if !chars_eq(&str_chars(o.as_str()), &str_chars(name.as_str())) {
                    m.remove(o.as_str());
                }
            },
            None => {},
        }
        m.insert(name.clone(), summary);
        m
    }

    fn form_effect_list(&self, name: &String, orig: Option<String>) -> (e: Vec<Effect>)
        ensures
            effects_view(e@) == form_effects(self@, name@, opt_text(orig)),
    {
        reveal(form_effects);
        let mut e: Vec<Effect> = Vec::new();
        match orig {
            Some(o) => {
                if !chars_eq(&str_chars(o.as_str()), &str_chars(name.as_str())) {
                    e.push(Effect::RemoveProvider(o));
                }
            },
            None => {},
        }
        e.push(Effect::UpsertProvider(name.clone()));
        if self.prev_mode != Mode::Settings {
            e.push(Effect::Persist(Persist::FormSaved(name.clone())));
        }
        e.push(Effect::CloseProviderForm);
        assert(effects_view(e@) =~= form_effects(self@, name@, opt_text(orig)));
        e
    }

    fn is_default_renamed(&self, name: &String, orig: &Option<String>) -> (b: bool)
        ensures
            b == default_renamed(self@, name@, opt_text(*orig)),
    {
        match orig {
            Some(o) => {
                let ov = str_chars(o.as_str());
                !chars_eq(&ov, &str_chars(name.as_str())) && chars_eq(
                    &str_chars(self.config.agent.default_provider.as_str()),
                    &ov,
                )
            },
            None => false,
        }
    }

    fn store_provider(&mut self, name: String, summary: String, orig: Option<String>) -> (effects: Vec<Effect>)
        requires
            old(self).wf(),
        ensures
            final(self).wf(),
            final(self).chat == old(self).chat,
            ({
                let o = form_saved(old(self)@, name@, summary@, opt_text(orig));
                final(self)@ == o.0 && effects_view(effects@) == o.1
            }),
    {
        reveal(form_saved);
        let m = self.form_map(&name, summary, &orig);
        let dr = self.is_default_renamed(&name, &orig);
        let from_settings = self.prev_mode == Mode::Settings;
        let mut st = self.settings;
        if dr {
            st.dirty = true;
        }
        if from_settings {
            st.dirty_providers = true;
        }
        let toast = if from_settings {
            Some(concat3("Provider '", name.as_str(), "' 已暂存（保存设置后写入）"))
        } else {
            None
        };
        let e = self.form_effect_list(&name, orig);
        let default = if dr {
            name
        } else {
            self.config.agent.default_provider.clone()
        };
        self.apply_stored(m, default, st, toast);
        e
    }

    fn apply_stored(&mut self, m: StringMap, default: String, st: SettingsState, toast: Option<String>)
        requires
            old(self).wf(),
            m.wf(),
            st.wf(),
        ensures
            final(self).wf(),
            final(self).chat == old(self).chat,
            final(self)@ == (AppV {
                providers: m@,
                config: ConfigV { default_provider: default@, ..old(self)@.config },
                settings: st,
                toast: if toast is Some {
                    opt_text(toast)
                } else {
                    old(self)@.toast
                },
                mode: old(self)@.prev_mode,
                provider_form_open: false,
                ..old(self)@
            }),
    {
        self.providers = m;
        self.config.agent.default_provider = default;
        self.settings = st;
        if toast.is_some() {
            self.toast = toast;
        }
        self.mode = self.prev_mode;
        self.provider_form_open = false;
    }

    /// Reports how a save (`Effect::Persist`) went: the chat transcript or
    /// the toast tells (see `save_note`).
    pub fn save_done(&mut self, p: Persist, res: Result<(), String>)
        requires
            old(self).wf(),
        ensures
            final(self).wf(),
            match p {
                Persist::FormSaved(_) => {
                    &&& final(self)@ == (AppV { toast: Some(save_note(p@, res_view(res))), ..old(self)@ })
                    &&& final(self).chat == old(self).chat
                },
                _ => {
                    &&& final(self)@ == old(self)@
                    &&& entries_view(final(self).chat.entries@) == entries_view(old(self).chat.entries@).push(
                        EntryV::System(save_note(p@, res_view(res))),
                    )
                    &&& final(self).chat == (ChatState { entries: final(self).chat.entries, ..old(self).chat })
                },
            },
    {
        let msg = match (&p, &res) {
            (Persist::UseProvider(n), Ok(_)) => concat2("已切换 provider 到 ", n.as_str()),
            (Persist::UseProvider(_), Err(e)) => concat2("切换成功但保存失败: ", e.as_str()),
            (Persist::RemovedProvider(n), Ok(_)) => concat2("已删除 provider：", n.as_str()),
            (Persist::RemovedProvider(_), Err(e)) => concat2("删除成功但保存失败: ", e.as_str()),
            (Persist::FormSaved(n), Ok(_)) => concat3("Provider '", n.as_str(), "' 已保存"),
            (Persist::FormSaved(_), Err(e)) => concat2("保存失败: ", e.as_str()),
        };
        match p {
            Persist::FormSaved(_) => {
                self.toast = Some(msg);
            },
            _ => {
                self.note_system(msg);
            },
        }
    }
}


/// `/mode <name>` with one of the start-mode names, while no answer
/// streams, switches to the screen whose title is that name capitalised,
/// changes nothing else, asks for no work and says which screen is now
/// shown. The three names reach three different screens.
pub proof fn lemma_mode_command_switches(
    s: AppV,
    name: Seq<char>,
    tools: Seq<(Seq<char>, Seq<char>)>,
)
    requires
        crate::settings::mode_options().contains(name),
    ensures
        ({
            let o = command_outcome(s, false, CommandView::Mode(name), tools);
            &&& crate::app::mode_label(o.0.mode).map_values(|c: char| crate::slash::ascii_lower(c))
                == name
            &&& o.0 == AppV { mode: o.0.mode, ..s }
            &&& o.1.len() == 0
            &&& o.2 == Some("已切换到 "@ + crate::app::mode_label(o.0.mode) + " 模式"@)
        }),
        forall|a: Seq<char>, b: Seq<char>|
            #![trigger crate::settings::mode_options().contains(a), crate::settings::mode_options().contains(b)]
            crate::settings::mode_options().contains(a) && crate::settings::mode_options().contains(b)
                && a != b ==> command_outcome(s, false, CommandView::Mode(a), tools).0.mode
                != command_outcome(s, false, CommandView::Mode(b), tools).0.mode,
{
    reveal(command_outcome);
    reveal_strlit("chat");
    reveal_strlit("workflow");
    reveal_strlit("dashboard");
    reveal_strlit("Chat");
    reveal_strlit("Workflow");
    reveal_strlit("Dashboard");
    reveal_strlit("已切换到 ");
    reveal_strlit(" 模式");
    reveal_strlit("已切换到 Chat 模式");
    reveal_strlit("已切换到 Workflow 模式");
    reveal_strlit("已切换到 Dashboard 模式");
    let opts = crate::settings::mode_options();
    assert(opts =~= seq!["chat"@, "workflow"@, "dashboard"@]);
    let low = |c: char| crate::slash::ascii_lower(c);
    assert("Chat"@.map_values(low) =~= "chat"@);
    assert("Workflow"@.map_values(low) =~= "workflow"@);
    assert("Dashboard"@.map_values(low) =~= "dashboard"@);
    assert("已切换到 "@ + "Chat"@ + " 模式"@ =~= "已切换到 Chat 模式"@);
    assert("已切换到 "@ + "Workflow"@ + " 模式"@ =~= "已切换到 Workflow 模式"@);
    assert("已切换到 "@ + "Dashboard"@ + " 模式"@ =~= "已切换到 Dashboard 模式"@);
    assert("workflow"@.len() != "chat"@.len());
    assert("dashboard"@.len() != "chat"@.len());
    assert("dashboard"@.len() != "workflow"@.len());
    let k = choose|k: int| 0 <= k < opts.len() && opts[k] == name;
    if k == 0 {
        assert(name == "chat"@);
    } else if k == 1 {
        assert(name == "workflow"@);
    } else {
        assert(name == "dashboard"@);
    }
    assert forall|a: Seq<char>, b: Seq<char>|
        #![trigger opts.contains(a), opts.contains(b)]
        opts.contains(a) && opts.contains(b) && a != b implies command_outcome(
            s,
            false,
            CommandView::Mode(a),
            tools,
        ).0.mode != command_outcome(s, false, CommandView::Mode(b), tools).0.mode by {
        let ka = choose|k: int| 0 <= k < opts.len() && opts[k] == a;
        let kb = choose|k: int| 0 <= k < opts.len() && opts[k] == b;
        assert(ka != kb);
    }
}


/// `/mode` leaves the application as it is while an answer streams, and
/// for any name that is not one of the start-mode names; either way it
/// only answers with a message.
pub proof fn lemma_mode_command_refusals(
    s: AppV,
    streaming: bool,
    name: Seq<char>,
    tools: Seq<(Seq<char>, Seq<char>)>,
)
    requires
        streaming || !crate::settings::mode_options().contains(name),
    ensures
        ({
            let o = command_outcome(s, streaming, CommandView::Mode(name), tools);
            o.0 == s && o.1.len() == 0 && o.2 is Some
        }),
{
    reveal(command_outcome);
    let opts = crate::settings::mode_options();
    if !streaming {
        assert(opts[0] == "chat"@);
        assert(opts[1] == "workflow"@);
        assert(opts[2] == "dashboard"@);
        assert(name != "chat"@);
        assert(name != "workflow"@);
        assert(name != "dashboard"@);
    }
}

} // verus!
