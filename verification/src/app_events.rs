//! What the chat screen's keys and the agent's reports do to the
//! application state.
use vstd::prelude::*;

use crate::app::{effects_view, opt_text, App, AppV, Effect, EffectV, Mode, entered_settings};
use crate::app_commands::{cancel_effects, live_entries, slash_post, tools_view};
use crate::chat::entry::{entries_view, messages_view, EntryV};
use crate::chat::input::input_text;
use crate::chat::state::{spec_history, ChatState};
use crate::event::{chat_key_to_action, spec_chat_action, ChatAction, KeyEvent};
use crate::headless::AgentEvent;
use crate::text::{push_str, str_chars, trim, trim_start, trim_start_index};

verus! {

/// The transcript once the live answer is folded into it: reasoning first,
/// then the answer text, each only when non-empty.
pub open spec fn flushed(c: ChatState) -> Seq<EntryV> {
    entries_view(c.entries@) + (if c.thinking_buffer@.len() > 0 {
        seq![EntryV::Thinking(c.thinking_buffer@)]
    } else {
        Seq::empty()
    }) + (if c.streaming_buffer@.len() > 0 {
        seq![EntryV::Assistant(c.streaming_buffer@)]
    } else {
        Seq::empty()
    })
}

/// `n` is chat page `o` after its live answer stopped: the gathered text is
/// in the transcript, the buffers are empty, streaming is off.
pub open spec fn chat_stopped(o: ChatState, n: ChatState) -> bool {
    &&& entries_view(n.entries@) == flushed(o)
    &&& n.thinking_buffer@.len() == 0
    &&& n.streaming_buffer@.len() == 0
    &&& n.streaming_tool_output@.len() == 0
    &&& !n.streaming
    &&& n.input == o.input
}

/// The input starts a slash command: after leading whitespace comes `/`.
pub open spec fn is_command(text: Seq<char>) -> bool {
    trim_start(text).len() > 0 && trim_start(text)[0] == '/'
}

/// The generation after `g` (`u64::wrapping_add(g, 1)`).
pub open spec fn next_generation(g: u64) -> u64 {
    if g == u64::MAX {
        0
    } else {
        (g + 1) as u64
    }
}

/// The abstract state after the agent task was stopped: a new generation,
/// no task running.
pub open spec fn stopped_agent(s: AppV) -> AppV {
    AppV { generation: next_generation(s.generation), agent_running: false, ..s }
}

/// What a report of generation `gen` does to the state (the chat page aside).
pub open spec fn report_state(s: AppV, streaming: bool, gen: u64, ev: AgentEvent) -> AppV {
    if gen != s.generation {
        s
    } else {
        match ev {
            AgentEvent::Done => if streaming {
                AppV { agent_running: false, ..s }
            } else {
                s
            },
            AgentEvent::Error(m) => AppV { agent_running: false, toast: Some("生成失败: "@ + m@), ..s },
            _ => s,
        }
    }
}

/// What a report of generation `gen` asks of the caller.
pub open spec fn report_effects(s: AppV, streaming: bool, gen: u64, ev: AgentEvent) -> Seq<EffectV> {
    if gen == s.generation && streaming && (ev is Done || ev is Error) {
        seq![EffectV::SaveHistory]
    } else {
        Seq::empty()
    }
}

/// What a report of generation `gen` does to chat page `o`, giving `n`.
pub open spec fn report_chat(o: ChatState, n: ChatState, current: bool, ev: AgentEvent) -> bool {
    if !current || !o.streaming {
        n == o
    } else {
        match ev {
            AgentEvent::Token(t) => n == (ChatState { streaming_buffer: n.streaming_buffer, ..o })
                && n.streaming_buffer@ == o.streaming_buffer@ + t@,
            AgentEvent::ToolCall { id, name, arguments } => {
                &&& entries_view(n.entries@) == flushed(o) + seq![
                    EntryV::ToolCall { id: id@, name: name@, arguments: arguments@ },
                ]
                &&& n.thinking_buffer@.len() == 0
                &&& n.streaming_buffer@.len() == 0
                &&& n.streaming_tool_output@.len() == 0
                &&& n.streaming
                &&& n.input == o.input
            },
            AgentEvent::ToolResult { id, name, output, is_error } => {
                &&& entries_view(n.entries@) == entries_view(o.entries@).push(
                    EntryV::ToolResult { id: id@, name: name@, output: output@, is_error },
                )
                &&& n.streaming_tool_output@.len() == 0
                &&& n.streaming_buffer@ == o.streaming_buffer@
                &&& n.thinking_buffer@ == o.thinking_buffer@
                &&& n.streaming
                &&& n.input == o.input
            },
            AgentEvent::Done => chat_stopped(o, n),
            AgentEvent::Error(_) => chat_stopped(o, n),
            _ => n == o,
        }
    }
}

/// The effects of starting an answer for `text`: stop the running task if
/// any, then start one with the transcript so far.
pub open spec fn spawn_effects(s: AppV, text: Seq<char>, c: ChatState) -> Seq<EffectV> {
    (if s.agent_running {
        seq![EffectV::AbortAgent]
    } else {
        Seq::empty()
    }) + seq![
        EffectV::SpawnAgent {
            text,
            history: spec_history(entries_view(c.entries@)),
            generation: next_generation(s.generation),
        },
    ]
}

/// What a key on the chat screen leaves behind, from state `s` and chat
/// page `c`: the state `fs`, the chat page `fc` and the effects `e`. Every
/// key drops the toast first.
pub open spec fn chat_key_post(
    s: AppV,
    c: ChatState,
    k: KeyEvent,
    tools: Seq<(Seq<char>, Seq<char>)>,
    fs: AppV,
    fc: ChatState,
    e: Seq<EffectV>,
) -> bool {
    let s0 = AppV { toast: None, ..s };
    let text = input_text(c.input.lines_view());
    match spec_chat_action(k) {
        ChatAction::Submit => if is_command(text) {
            &&& slash_post(s0, c, text, tools, fs, fc, e)
            &&& fc.input.lines_view() == seq![Seq::<char>::empty()]
        } else if c.streaming || trim(text).len() == 0 {
            fs == s0 && e.len() == 0 && fc == c
        } else {
            &&& fs == AppV { generation: next_generation(s.generation), agent_running: true, ..s0 }
            &&& e == spawn_effects(s, text, c)
            &&& entries_view(fc.entries@) == entries_view(c.entries@).push(EntryV::User(text))
            &&& fc.streaming
            &&& fc.streaming_buffer@.len() == 0
            &&& fc.input.lines_view() == seq![Seq::<char>::empty()]
        },
        ChatAction::Newline | ChatAction::Input => {
            &&& fs == s0
            &&& e == (if c.streaming {
                Seq::empty()
            } else {
                seq![EffectV::FeedInput]
            })
            &&& fc == c
        },
        ChatAction::Back => if c.streaming {
            &&& fs == AppV { toast: Some("已取消生成"@), ..stopped_agent(s0) }
            &&& e == cancel_effects(s0)
            &&& fc.entries@ == c.entries@
            &&& !fc.streaming
            &&& fc.streaming_buffer@.len() == 0
            &&& fc.thinking_buffer@.len() == 0
            &&& fc.streaming_tool_output@.len() == 0
            &&& fc.input == c.input
        } else {
            &&& fs == (if !s.has_project {
                AppV { mode: Mode::Welcome, ..s0 }
            } else {
                s0
            })
            &&& e.len() == 0
            &&& fc == c
        },
        ChatAction::SwitchMode => fs == AppV { mode: Mode::Workflow, ..s0 } && e.len() == 0 && fc == c,
        ChatAction::OpenSettings => {
            &&& fs == (if s.mode != Mode::Settings {
                entered_settings(s0)
            } else {
                s0
            })
            &&& e == (if s.mode != Mode::Settings {
                seq![EffectV::SnapshotProviders]
            } else {
                Seq::empty()
            })
            &&& fc == c
        },
        ChatAction::Quit => fs == AppV { should_quit: true, ..s0 } && e == seq![EffectV::SaveHistory]
            && fc == c,
        _ => fs == s0 && e.len() == 0 && fc == c,
    }
}

impl App {
    /// Handles a report of the agent task started as generation `gen`. A
    /// report of another generation (a task that was stopped or replaced) is
    /// ignored. While an answer streams, tokens gather, tool calls and
    /// results join the transcript, and Done or Error end the answer (and the
    /// conversation is saved); an Error is shown as a toast either way.
    pub fn handle_agent_event(&mut self, gen: u64, ev: AgentEvent) -> (effects: Vec<Effect>)
        requires
            old(self).wf(),
        ensures
            final(self).wf(),
            final(self)@ == report_state(old(self)@, old(self).chat.streaming, gen, ev),
            effects_view(effects@) == report_effects(old(self)@, old(self).chat.streaming, gen, ev),
            report_chat(old(self).chat, final(self).chat, gen == old(self).generation, ev),
    {
        let mut effects: Vec<Effect> = Vec::new();
        if gen != self.generation {
            assert(effects_view(effects@) =~= Seq::<EffectV>::empty());
            return effects;
        }
        let streaming = self.chat.streaming;
        let ghost ev0 = ev;
        match ev {
            AgentEvent::Token(t) => {
                if streaming {
                    push_str(&mut self.chat.streaming_buffer, t.as_str());
                }
            },
            AgentEvent::ToolCall { id, name, arguments } => {
                if streaming {
                    self.chat.push_tool_call(id, name, arguments);
                }
            },
            AgentEvent::ToolResult { id, name, output, is_error } => {
                if streaming {
                    self.chat.push_tool_result(id, name, output, is_error);
                }
            },
            AgentEvent::Done => {
                if streaming {
                    self.chat.finalize_stream();
                    self.agent_running = false;
                    effects.push(Effect::SaveHistory);
                }
            },
            AgentEvent::Error(m) => {
                if streaming {
                    self.chat.finalize_stream();
                    effects.push(Effect::SaveHistory);
                }
                self.agent_running = false;
                let mut msg = String::new();
                push_str(&mut msg, "生成失败: ");
                push_str(&mut msg, m.as_str());
                self.toast = Some(msg);
            },
            _ => {},
        }
        assert(effects_view(effects@) =~= report_effects(old(self)@, streaming, gen, ev0));
        effects
    }

    /// Handles a key on the chat screen (see `chat_key_post`); `tools`
    /// lists the available tools for `/tools`.
    pub fn handle_chat_key(&mut self, k: KeyEvent, tools: &Vec<(String, String)>) -> (effects: Vec<Effect>)
        requires
            old(self).wf(),
        ensures
            final(self).wf(),
            chat_key_post(old(self)@, old(self).chat, k, tools_view(tools@), final(self)@, final(self).chat, effects_view(effects@)),
    {
        let a = chat_key_to_action(k);
        self.toast = None;
        match a {
            ChatAction::Submit => self.submit_key(tools),
            ChatAction::Newline | ChatAction::Input => {
                if self.chat.streaming {
                    App::nothing()
                } else {
                    App::one(Effect::FeedInput)
                }
            },
            ChatAction::Back => {
                if self.chat.streaming {
                    let e = self.drop_answer();
                    self.toast = Some("已取消生成".to_owned());
                    e
                } else {
                    if !self.has_project {
                        self.mode = Mode::Welcome;
                    }
                    App::nothing()
                }
            },
            ChatAction::SwitchMode => {
                self.mode = Mode::Workflow;
                App::nothing()
            },
            ChatAction::OpenSettings => {
                if self.mode != Mode::Settings {
                    self.enter_settings();
                    App::one(Effect::SnapshotProviders)
                } else {
                    App::nothing()
                }
            },
            ChatAction::Quit => {
                self.should_quit = true;
                App::one(Effect::SaveHistory)
            },
            _ => App::nothing(),
        }
    }

    fn submit_key(&mut self, tools: &Vec<(String, String)>) -> (effects: Vec<Effect>)
        requires
            old(self).wf(),
        ensures
            final(self).wf(),
            ({
                let s0 = old(self)@;
                let c = old(self).chat;
                let text = input_text(c.input.lines_view());
                if is_command(text) {
                    &&& slash_post(s0, c, text, tools_view(tools@), final(self)@, final(self).chat, effects_view(effects@))
                    &&& final(self).chat.input.lines_view() == seq![Seq::<char>::empty()]
                } else if c.streaming || trim(text).len() == 0 {
                    final(self)@ == s0 && effects@.len() == 0 && final(self).chat == c
                } else {
                    &&& final(self)@ == AppV { generation: next_generation(s0.generation), agent_running: true, ..s0 }
                    &&& effects_view(effects@) == spawn_effects(s0, text, c)
                    &&& entries_view(final(self).chat.entries@) == entries_view(c.entries@).push(EntryV::User(text))
                    &&& final(self).chat.streaming
                    &&& final(self).chat.streaming_buffer@.len() == 0
                    &&& final(self).chat.input.lines_view() == seq![Seq::<char>::empty()]
                }
            }),
    {
        let peek = self.chat.input.text();
        let v = str_chars(peek.as_str());
        let i = trim_start_index(&v);
        proof {
            if i < v@.len() {
                assert(v@.skip(i as int)[0] == v@[i as int]);
            }
        }
        if i < v.len() && v[i] == '/' {
            let text = self.chat.take_input();
            return self.handle_slash_command(text.as_str(), tools);
        }
        let ghost s0 = self@;
        let ghost c = self.chat;
        match self.chat.submit() {
            None => {
                let e = App::nothing();
                assert(e@.len() == effects_view(e@).len());
                e
            },
            Some((text, history)) => {
                let mut e: Vec<Effect> = Vec::new();
                if self.agent_running {
                    e.push(Effect::AbortAgent);
                }
                let g = if self.generation == u64::MAX {
                    0
                } else {
                    self.generation + 1
                };
                self.generation = g;
                self.agent_running = true;
                let ghost tv = text@;
                let ghost hv = messages_view(history@);
                e.push(Effect::SpawnAgent { text, history, generation: g });
                assert(effects_view(e@) =~= spawn_effects(s0, tv, c));
                e
            },
        }
    }
}

} // verus!
