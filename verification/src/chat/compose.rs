//! Composing a message: the slash-command menu, recall of sent messages,
//! pasting, and sending.
use vstd::prelude::*;

use crate::chat::entry::{entries_view, messages_view, ChatEntry, EntryV, Message};
use crate::chat::input::{
    all_empty, input_text, insert_text, menu_closed, recorded, seed_entries, InputBox, SlashMenu,
    SlashMenuMode,
};
use crate::chat::state::{spec_history, ChatState, SCROLL_FOLLOW};
use crate::chat::wrap::copy_string;
use crate::event::{KeyCode, KeyEvent};
use crate::slash::{
    commands_matching, filter_commands, lowercase, param_suggestions, spec_param_suggestions,
    CommandSpec,
};
use crate::text::{
    chars_eq, chars_range, str_eq, contains_char, find_char, first_ws, first_ws_index, has_char, index_of,
    push_char, push_chars, push_str, starts_with, starts_with_at, str_chars, string_from,
    string_from_range, trim, trim_bounds, trim_start, trim_start_index,
};

verus! {

broadcast use vstd::string::group_string_axioms;

/// What the menu should show for the input's first line.
pub enum MenuTarget {
    Close,
    Commands(Seq<CommandSpec>),
    Params(Seq<&'static str>),
}

/// The suggestions that start with `p` (all of them when `p` is empty).
pub open spec fn param_matches(sug: Seq<&'static str>, p: Seq<char>) -> Seq<&'static str> {
    if p.len() == 0 {
        sug
    } else {
        sug.filter(|s: &'static str| starts_with(s@, p))
    }
}

/// The menu for first line `first`: after leading whitespace, a `/` word
/// without spaces lists the commands it starts (compared in lower case); a
/// command word, one whitespace character and an argument without spaces
/// lists the command's fixed arguments that start with it; anything else,
/// or no match, closes the menu.
pub open spec fn menu_target(first: Seq<char>) -> MenuTarget {
    let t = trim_start(first);
    if !(t.len() > 0 && t[0] == '/') {
        MenuTarget::Close
    } else if !has_char(t, ' ') {
        let f = commands_matching(lowercase(t));
        if f.len() == 0 {
            MenuTarget::Close
        } else {
            MenuTarget::Commands(f)
        }
    } else {
        let k = first_ws(t);
        let cmd = t.take(k as int);
        let rest = if k < t.len() {
            t.skip(k as int + 1)
        } else {
            Seq::empty()
        };
        let param = trim_start(rest);
        if has_char(param, ' ') {
            MenuTarget::Close
        } else {
            let sug = spec_param_suggestions(cmd);
            let f = param_matches(sug, param);
            if sug.len() == 0 || f.len() == 0 {
                MenuTarget::Close
            } else {
                MenuTarget::Params(f)
            }
        }
    }
}

/// Whether two command lists show the same names, usages and descriptions.
pub open spec fn same_specs(a: Seq<CommandSpec>, b: Seq<CommandSpec>) -> bool {
    &&& a.len() == b.len()
    &&& forall|i: int|
        0 <= i < a.len() ==> (#[trigger] a[i]).name@ == b[i].name@ && a[i].usage@ == b[i].usage@
            && a[i].desc@ == b[i].desc@
}

/// Whether two lists of words are equal as text.
pub open spec fn same_strs(a: Seq<&'static str>, b: Seq<&'static str>) -> bool {
    &&& a.len() == b.len()
    &&& forall|i: int| 0 <= i < a.len() ==> (#[trigger] a[i])@ == b[i]@
}

/// The highlight kept when the items change: reset to the first item if it
/// would fall off the list.
pub open spec fn kept_selection(sel: usize, n: nat) -> usize {
    if sel >= n {
        0
    } else {
        sel
    }
}

/// How the menu `old` becomes `new` when refreshed for first line `first`.
/// When the items, the mode and the open state are what they were, nothing
/// but the open flag is touched.
pub open spec fn menu_updated(old: SlashMenu, new: SlashMenu, first: Seq<char>) -> bool {
    match menu_target(first) {
        MenuTarget::Close => menu_closed(new),
        MenuTarget::Commands(f) => {
            let reset = !old.open || old.mode != SlashMenuMode::Command || !same_specs(
                old.filtered@,
                f,
            );
            &&& new.open
            &&& if reset {
                &&& new.mode == SlashMenuMode::Command
                &&& new.filtered@ == f
                &&& new.params@.len() == 0
                &&& new.selected == kept_selection(old.selected, f.len())
            } else {
                &&& new.mode == old.mode
                &&& new.filtered@ == old.filtered@
                &&& new.params@ == old.params@
                &&& new.selected == old.selected
            }
        },
        MenuTarget::Params(f) => {
            let reset = !old.open || old.mode != SlashMenuMode::Param || !same_strs(old.params@, f);
            &&& new.open
            &&& if reset {
                &&& new.mode == SlashMenuMode::Param
                &&& new.params@ == f
                &&& new.filtered@.len() == 0
                &&& new.selected == kept_selection(old.selected, f.len())
            } else {
                &&& new.mode == old.mode
                &&& new.filtered@ == old.filtered@
                &&& new.params@ == old.params@
                &&& new.selected == old.selected
            }
        },
    }
}

/// The menu's shape: an open menu shows the items of its mode only, with
/// the highlight on one of them.
pub open spec fn menu_inv(m: SlashMenu) -> bool {
    m.open ==> (m.mode == SlashMenuMode::Command && m.params@.len() == 0 && m.selected
        < m.filtered@.len()) || (m.mode == SlashMenuMode::Param && m.filtered@.len() == 0
        && m.selected < m.params@.len())
}

/// Refreshing the menu keeps its shape. A first line that does not start
/// with `/` (after leading whitespace) closes it; a closed menu holds no
/// items and highlights the first row; an open command list is the
/// commands that the `/` word without spaces starts, as `filter_commands`
/// gives them (same names, usages and descriptions).
pub proof fn lemma_menu_update_keeps_shape(old: SlashMenu, new: SlashMenu, first: Seq<char>)
    requires
        menu_inv(old),
        menu_updated(old, new, first),
    ensures
        menu_inv(new),
        !(trim_start(first).len() > 0 && trim_start(first)[0] == '/') ==> !new.open,
        !new.open ==> menu_closed(new),
        new.open && new.mode == SlashMenuMode::Command ==> !has_char(trim_start(first), ' ')
            && same_specs(new.filtered@, commands_matching(lowercase(trim_start(first)))),
{
    match menu_target(first) {
        MenuTarget::Close => {},
        MenuTarget::Commands(f) => {
            assert(same_specs(new.filtered@, f));
        },
        MenuTarget::Params(f) => {},
    }
}

/// The number of items of the menu's current mode.
pub open spec fn menu_len(m: SlashMenu) -> nat {
    if m.mode == SlashMenuMode::Command {
        m.filtered@.len()
    } else {
        m.params@.len()
    }
}

/// The input holding just `text`.
pub open spec fn input_of(text: Seq<char>) -> Seq<Seq<char>> {
    insert_text(seq![Seq::<char>::empty()], text)
}

/// The input and menu after completing the highlighted item of `m` when
/// the input lines were `lines`.
pub open spec fn completed(m: SlashMenu, lines: Seq<Seq<char>>, new_lines: Seq<Seq<char>>, new_menu: SlashMenu) -> bool {
    if m.mode == SlashMenuMode::Command {
        let l1 = if m.selected < m.filtered@.len() {
            input_of(m.filtered@[m.selected as int].name@ + seq![' '])
        } else {
            lines
        };
        &&& new_lines == l1
        &&& menu_updated(m, new_menu, l1[0])
    } else {
        let t = trim_start(lines[0]);
        let cmd = t.take(index_of(t, ' ') as int);
        &&& new_lines == (if m.selected < m.params@.len() {
            input_of(cmd + seq![' '] + m.params@[m.selected as int]@)
        } else {
            lines
        })
        &&& menu_closed(new_menu)
    }
}

/// `a` and `b` agree on everything but the input box and the menu.
pub open spec fn same_but_input(a: ChatState, b: ChatState) -> bool {
    &&& a.entries@ == b.entries@
    &&& a.streaming == b.streaming
    &&& a.streaming_buffer@ == b.streaming_buffer@
    &&& a.thinking_buffer@ == b.thinking_buffer@
    &&& a.streaming_tool_output@ == b.streaming_tool_output@
    &&& a.expanded_tool_results@ == b.expanded_tool_results@
    &&& a.paste_detector == b.paste_detector
    &&& a.cached_history@ == b.cached_history@
    &&& a.cached_entries_len == b.cached_entries_len
    &&& a.cache_dirty == b.cache_dirty
    &&& a.scroll_y == b.scroll_y
    &&& a.last_total_lines == b.last_total_lines
    &&& a.last_visible_height == b.last_visible_height
    &&& a.wrapped == b.wrapped
    &&& a.last_render_width == b.last_render_width
}

/// The user texts of `es`, in order.
pub open spec fn user_texts(es: Seq<EntryV>) -> Seq<Seq<char>>
    decreases es.len(),
{
    if es.len() == 0 {
        Seq::empty()
    } else {
        let p = user_texts(es.drop_last());
        match es.last() {
            EntryV::User(c) => p.push(c),
            _ => p,
        }
    }
}

fn same_command_list(a: &Vec<CommandSpec>, b: &Vec<CommandSpec>) -> (r: bool)
    ensures
        r == same_specs(a@, b@),
{
    if a.len() != b.len() {
        return false;
    }
    let mut i: usize = 0;
    while i < a.len()
        invariant
            i <= a@.len(),
            a@.len() == b@.len(),
            forall|k: int|
                0 <= k < i ==> (#[trigger] a@[k]).name@ == b@[k].name@ && a@[k].usage@ == b@[k].usage@
                    && a@[k].desc@ == b@[k].desc@,
        decreases a@.len() - i,
    {
        if !(str_eq(a[i].name, b[i].name) && str_eq(a[i].usage, b[i].usage) && str_eq(
            a[i].desc,
            b[i].desc,
        )) {
            return false;
        }
        i = i + 1;
    }
    true
}

fn same_word_list(a: &Vec<&'static str>, b: &Vec<&'static str>) -> (r: bool)
    ensures
        r == same_strs(a@, b@),
{
    if a.len() != b.len() {
        return false;
    }
    let mut i: usize = 0;
    while i < a.len()
        invariant
            i <= a@.len(),
            a@.len() == b@.len(),
            forall|k: int| 0 <= k < i ==> (#[trigger] a@[k])@ == b@[k]@,
        decreases a@.len() - i,
    {
        if !str_eq(a[i], b[i]) {
            return false;
        }
        i = i + 1;
    }
    true
}

/// The words of `sug` that start with `p`, in order.
fn filter_params(sug: &Vec<&'static str>, p: &Vec<char>) -> (r: Vec<&'static str>)
    ensures
        r@ == sug@.filter(|s: &'static str| starts_with(s@, p@)),
{
    let ghost pred = |s: &'static str| starts_with(s@, p@);
    let mut out: Vec<&'static str> = Vec::new();
    let mut i: usize = 0;
    assert(sug@.take(0) =~= Seq::<&'static str>::empty());
    while i < sug.len()
        invariant
            i <= sug@.len(),
            pred == (|s: &'static str| starts_with(s@, p@)),
            out@ == sug@.take(i as int).filter(pred),
        decreases sug@.len() - i,
    {
        let w = sug[i];
        let wv = str_chars(w);
        let m = starts_with_at(&wv, 0, p);
        proof {
            assert(wv@.skip(0) =~= wv@);
            reveal_with_fuel(Seq::<_>::filter, 1);
            assert(sug@.take(i + 1).drop_last() =~= sug@.take(i as int));
        }
        if m {
            out.push(w);
        }
        i = i + 1;
    }
    assert(sug@.take(sug@.len() as int) =~= sug@);
    out
}

impl ChatState {
    /// Refreshes the completion menu from the input's first line (see
    /// `menu_target` and `menu_updated`).
    pub fn update_slash_menu(&mut self)
        requires
            old(self).wf(),
        ensures
            final(self).wf(),
            same_but_input(*final(self), *old(self)),
            final(self).input == old(self).input,
            final(self).input_history == old(self).input_history,
            menu_updated(old(self).slash_menu, final(self).slash_menu, old(self).input.lines_view()[0]),
    {
        let first = str_chars(self.input.first_line().as_str());
        let a = trim_start_index(&first);
        let t = chars_range(&first, a, first.len());
        assert(t@ =~= trim_start(first@));
        let slash = t.len() > 0 && t[0] == '/';
        if slash && !contains_char(&t, ' ') {
            let ts = string_from(&t);
            let filtered = filter_commands(ts.as_str());
            if filtered.len() == 0 {
                self.slash_menu.close();
            } else {
                if !self.slash_menu.open || self.slash_menu.mode != SlashMenuMode::Command
                    || !same_command_list(&self.slash_menu.filtered, &filtered) {
                    if self.slash_menu.selected >= filtered.len() {
                        self.slash_menu.selected = 0;
                    }
                    self.slash_menu.filtered = filtered;
                    self.slash_menu.params = Vec::new();
                    self.slash_menu.mode = SlashMenuMode::Command;
                }
                self.slash_menu.open = true;
            }
        } else if slash {
            let k = first_ws_index(&t, 0);
            assert(t@.skip(0) =~= t@);
            let cmd = string_from_range(&t, 0, k);
            assert(t@.subrange(0, k as int) =~= t@.take(k as int));
            let rest = if k < t.len() {
                chars_range(&t, k + 1, t.len())
            } else {
                Vec::new()
            };
            assert(rest@ =~= (if k < t@.len() {
                t@.skip(k + 1)
            } else {
                Seq::<char>::empty()
            }));
            let b = trim_start_index(&rest);
            let param = chars_range(&rest, b, rest.len());
            assert(param@ =~= trim_start(rest@));
            if contains_char(&param, ' ') {
                self.slash_menu.close();
                return;
            }
            let sug = param_suggestions(cmd.as_str());
            if sug.len() == 0 {
                self.slash_menu.close();
                return;
            }
            let filtered = if param.len() == 0 {
                sug
            } else {
                filter_params(&sug, &param)
            };
            if filtered.len() == 0 {
                self.slash_menu.close();
            } else {
                if !self.slash_menu.open || self.slash_menu.mode != SlashMenuMode::Param
                    || !same_word_list(&self.slash_menu.params, &filtered) {
                    if self.slash_menu.selected >= filtered.len() {
                        self.slash_menu.selected = 0;
                    }
                    self.slash_menu.params = filtered;
                    self.slash_menu.filtered = Vec::new();
                    self.slash_menu.mode = SlashMenuMode::Param;
                }
                self.slash_menu.open = true;
            }
        } else {
            self.slash_menu.close();
        }
    }

    fn slash_menu_up(&mut self)
        requires
            old(self).slash_menu.selected + menu_len(old(self).slash_menu) <= usize::MAX,
        ensures
            *final(self) == (ChatState {
                slash_menu: SlashMenu {
                    selected: if menu_len(old(self).slash_menu) > 0 {
                        ((old(self).slash_menu.selected + menu_len(old(self).slash_menu) - 1)
                            % menu_len(old(self).slash_menu) as int) as usize
                    } else {
                        old(self).slash_menu.selected
                    },
                    ..old(self).slash_menu
                },
                ..*old(self)
            }),
    {
        let n = match self.slash_menu.mode {
            SlashMenuMode::Command => self.slash_menu.filtered.len(),
            SlashMenuMode::Param => self.slash_menu.params.len(),
        };
        if n > 0 {
            self.slash_menu.selected = (self.slash_menu.selected + n - 1) % n;
        }
    }

    fn slash_menu_down(&mut self)
        requires
            old(self).slash_menu.selected + menu_len(old(self).slash_menu) <= usize::MAX,
        ensures
            *final(self) == (ChatState {
                slash_menu: SlashMenu {
                    selected: if menu_len(old(self).slash_menu) > 0 {
                        ((old(self).slash_menu.selected + 1) % menu_len(old(self).slash_menu) as int) as usize
                    } else {
                        old(self).slash_menu.selected
                    },
                    ..old(self).slash_menu
                },
                ..*old(self)
            }),
    {
        let n = match self.slash_menu.mode {
            SlashMenuMode::Command => self.slash_menu.filtered.len(),
            SlashMenuMode::Param => self.slash_menu.params.len(),
        };
        if n > 0 {
            self.slash_menu.selected = (self.slash_menu.selected + 1) % n;
        }
    }

    /// Puts exactly `text` into the input.
    fn set_input(&mut self, text: &str)
        requires
            old(self).wf(),
        ensures
            final(self).wf(),
            final(self).input.lines_view() == input_of(text@),
            same_but_input(*final(self), *old(self)),
            final(self).slash_menu == old(self).slash_menu,
            final(self).input_history == old(self).input_history,
    {
        self.input.clear();
        self.input.insert_str(text);
    }

    fn slash_menu_complete(&mut self)
        requires
            old(self).wf(),
        ensures
            final(self).wf(),
            same_but_input(*final(self), *old(self)),
            final(self).input_history == old(self).input_history,
            completed(
                old(self).slash_menu,
                old(self).input.lines_view(),
                final(self).input.lines_view(),
                final(self).slash_menu,
            ),
    {
        match self.slash_menu.mode {
            SlashMenuMode::Command => {
                if self.slash_menu.selected < self.slash_menu.filtered.len() {
                    let spec = self.slash_menu.filtered[self.slash_menu.selected];
                    let mut text = String::new();
                    push_str(&mut text, spec.name);
                    push_char(&mut text, ' ');
                    assert(text@ =~= spec.name@ + seq![' ']);
                    self.set_input(text.as_str());
                }
                self.update_slash_menu();
            },
            SlashMenuMode::Param => {
                if self.slash_menu.selected < self.slash_menu.params.len() {
                    let param = self.slash_menu.params[self.slash_menu.selected];
                    let first = str_chars(self.input.first_line().as_str());
                    let a = trim_start_index(&first);
                    let t = chars_range(&first, a, first.len());
                    assert(t@ =~= trim_start(first@));
                    let cmd_end = find_char(&t, ' ');
                    proof {
                        crate::text::lemma_index_of_bound(t@, ' ');
                    }
                    let cmd = chars_range(&t, 0, cmd_end);
                    assert(cmd@ =~= t@.take(cmd_end as int));
                    let mut text = String::new();
                    push_chars(&mut text, &cmd);
                    push_char(&mut text, ' ');
                    push_str(&mut text, param);
                    assert(text@ =~= cmd@ + seq![' '] + param@);
                    self.set_input(text.as_str());
                }
                self.slash_menu.close();
            },
        }
    }

    /// A key while the menu is open: Up and Down move the highlight (wrapping
    /// around), Enter and Tab complete, Esc closes; they return `true`. Any
    /// other key, or any key while the menu is closed, returns `false` and
    /// changes nothing.
    pub fn slash_menu_key(&mut self, k: KeyEvent) -> (b: bool)
        requires
            old(self).wf(),
            old(self).slash_menu.selected + menu_len(old(self).slash_menu) <= usize::MAX,
        ensures
            final(self).wf(),
            same_but_input(*final(self), *old(self)),
            final(self).input_history == old(self).input_history,
            !old(self).slash_menu.open ==> !b && *final(self) == *old(self),
            old(self).slash_menu.open ==> match k.code {
                KeyCode::Up => b && final(self).input == old(self).input && final(self).slash_menu == (
                SlashMenu {
                    selected: if menu_len(old(self).slash_menu) > 0 {
                        ((old(self).slash_menu.selected + menu_len(old(self).slash_menu) - 1)
                            % menu_len(old(self).slash_menu) as int) as usize
                    } else {
                        old(self).slash_menu.selected
                    },
                    ..old(self).slash_menu
                }),
                KeyCode::Down => b && final(self).input == old(self).input && final(self).slash_menu == (
                SlashMenu {
                    selected: if menu_len(old(self).slash_menu) > 0 {
                        ((old(self).slash_menu.selected + 1) % menu_len(old(self).slash_menu) as int) as usize
                    } else {
                        old(self).slash_menu.selected
                    },
                    ..old(self).slash_menu
                }),
                KeyCode::Enter | KeyCode::Tab => b && completed(
                    old(self).slash_menu,
                    old(self).input.lines_view(),
                    final(self).input.lines_view(),
                    final(self).slash_menu,
                ),
                KeyCode::Esc => b && final(self).input == old(self).input && menu_closed(
                    final(self).slash_menu,
                ),
                _ => !b && *final(self) == *old(self),
            },
    {
        if !self.slash_menu.open {
            return false;
        }
        match k.code {
            KeyCode::Up => {
                self.slash_menu_up();
                true
            },
            KeyCode::Down => {
                self.slash_menu_down();
                true
            },
            KeyCode::Enter | KeyCode::Tab => {
                self.slash_menu_complete();
                true
            },
            KeyCode::Esc => {
                self.slash_menu.close();
                true
            },
            _ => false,
        }
    }

    /// Puts recalled entry `i` into the input.
    fn load_history_entry(&mut self, i: usize)
        requires
            old(self).wf(),
            i < old(self).input_history.entries_view().len(),
        ensures
            final(self).wf(),
            final(self).input.lines_view() == input_of(old(self).input_history.entries_view()[i as int]),
            same_but_input(*final(self), *old(self)),
            final(self).slash_menu == old(self).slash_menu,
            final(self).input_history == old(self).input_history,
    {
        let text = copy_string(self.input_history.entry(i));
        self.set_input(text.as_str());
    }

    /// Up: on an empty input (or while browsing) recalls the previous sent
    /// message and returns `true`; staying on the oldest one still returns
    /// `true`. With no history, or typed text while not browsing, returns
    /// `false` and changes nothing (the key then moves the cursor).
    pub fn history_prev(&mut self) -> (b: bool)
        requires
            old(self).wf(),
        ensures
            final(self).wf(),
            same_but_input(*final(self), *old(self)),
            final(self).slash_menu == old(self).slash_menu,
            final(self).input_history.entries_view() == old(self).input_history.entries_view(),
            ({
                let es = old(self).input_history.entries_view();
                let n = es.len();
                if n == 0 {
                    !b && *final(self) == *old(self)
                } else {
                    match old(self).input_history.browse_view() {
                        None => if !all_empty(old(self).input.lines_view()) {
                            !b && *final(self) == *old(self)
                        } else {
                            b && final(self).input_history.browse_view() == Some((n - 1) as usize)
                                && final(self).input.lines_view() == input_of(es[n - 1])
                        },
                        Some(i) => b && if i == 0 {
                            *final(self) == *old(self)
                        } else {
                            final(self).input_history.browse_view() == Some((i - 1) as usize)
                                && final(self).input.lines_view() == input_of(es[i - 1])
                        },
                    }
                }
            }),
    {
        let n = self.input_history.len();
        if n == 0 {
            return false;
        }
        match self.input_history.browse() {
            None => {
                if !self.input.is_blank() {
                    return false;
                }
                let i = n - 1;
                self.input_history.set_browse(Some(i));
                self.load_history_entry(i);
                true
            },
            Some(i) => {
                if i == 0 {
                    return true;
                }
                let ni = i - 1;
                self.input_history.set_browse(Some(ni));
                self.load_history_entry(ni);
                true
            },
        }
    }

    /// Down while browsing: recalls the next newer message; past the newest,
    /// empties the input and stops browsing. Returns `false` (changing
    /// nothing) when not browsing.
    pub fn history_next(&mut self) -> (b: bool)
        requires
            old(self).wf(),
        ensures
            final(self).wf(),
            same_but_input(*final(self), *old(self)),
            final(self).slash_menu == old(self).slash_menu,
            final(self).input_history.entries_view() == old(self).input_history.entries_view(),
            ({
                let es = old(self).input_history.entries_view();
                match old(self).input_history.browse_view() {
                    None => !b && *final(self) == *old(self),
                    Some(i) => b && if i + 1 >= es.len() {
                        final(self).input_history.browse_view() is None
                            && final(self).input.lines_view() == seq![Seq::<char>::empty()]
                    } else {
                        final(self).input_history.browse_view() == Some((i + 1) as usize)
                            && final(self).input.lines_view() == input_of(es[i + 1])
                    },
                }
            }),
    {
        match self.input_history.browse() {
            None => false,
            Some(i) => {
                let n = self.input_history.len();
                assert(i < n);
                if i + 1 >= n {
                    self.input_history.set_browse(None);
                    self.input.clear();
                } else {
                    let ni = i + 1;
                    self.input_history.set_browse(Some(ni));
                    self.load_history_entry(ni);
                }
                true
            },
        }
    }

    /// Whether the input is empty (every line empty).
    pub fn input_empty(&self) -> (b: bool)
        ensures
            b == all_empty(self.input.lines_view()),
    {
        self.input.is_blank()
    }

    /// Fills the recall history from the user entries of the transcript.
    pub fn seed_input_history(&mut self)
        requires
            old(self).wf(),
        ensures
            final(self).wf(),
            same_but_input(*final(self), *old(self)),
            final(self).input == old(self).input,
            final(self).slash_menu == old(self).slash_menu,
            final(self).input_history.entries_view() == seed_entries(
                user_texts(entries_view(old(self).entries@)),
            ),
            final(self).input_history.browse_view() is None,
    {
        let ghost es = entries_view(self.entries@);
        let mut texts: Vec<String> = Vec::new();
        let mut i: usize = 0;
        assert(es.take(0) =~= Seq::<EntryV>::empty());
        assert(texts@.map_values(|s: String| s@) =~= Seq::<Seq<char>>::empty());
        while i < self.entries.len()
            invariant
                i <= self.entries@.len(),
                es == entries_view(self.entries@),
                texts@.map_values(|s: String| s@) == user_texts(es.take(i as int)),
            decreases self.entries@.len() - i,
        {
            assert(es.take(i + 1).drop_last() =~= es.take(i as int));
            assert(es.take(i + 1).last() == self.entries@[i as int]@);
            if let ChatEntry::User(c) = &self.entries[i] {
                let ghost before = texts@;
                texts.push(copy_string(c));
                assert(texts@.map_values(|s: String| s@) =~= before.map_values(|s: String| s@).push(
                    c@,
                ));
            }
            i = i + 1;
        }
        assert(es.take(self.entries@.len() as int) =~= es);
        self.input_history.seed(texts);
    }

    /// Sends the input. While streaming, or when the input is blank, returns
    /// `None` and changes nothing. Otherwise returns the text (lines joined
    /// by line feeds) and the history before it, records the text for
    /// recall, empties the input, appends the user entry, starts streaming
    /// with empty answer buffers, follows the bottom and closes the menu.
    pub fn submit(&mut self) -> (r: Option<(String, Vec<Message>)>)
        requires
            old(self).wf(),
        ensures
            final(self).wf(),
            old(self).streaming ==> r is None && *final(self) == *old(self),
            ({
                let text = input_text(old(self).input.lines_view());
                !old(self).streaming && trim(text).len() == 0 ==> r is None && *final(self) == *old(self)
            }),
            ({
                let text = input_text(old(self).input.lines_view());
                !old(self).streaming && trim(text).len() > 0 ==> {
                    &&& match r {
                        Some(p) => p.0@ == text && messages_view(p.1@) == spec_history(
                            entries_view(old(self).entries@),
                        ),
                        None => false,
                    }
                    &&& entries_view(final(self).entries@) == entries_view(old(self).entries@).push(
                        EntryV::User(text),
                    )
                    &&& final(self).streaming
                    &&& final(self).streaming_buffer@.len() == 0
                    &&& final(self).thinking_buffer@.len() == 0
                    &&& final(self).streaming_tool_output@ == old(self).streaming_tool_output@
                    &&& final(self).scroll_y == SCROLL_FOLLOW
                    &&& menu_closed(final(self).slash_menu)
                    &&& final(self).input.lines_view() == seq![Seq::<char>::empty()]
                    &&& final(self).input_history.entries_view() == recorded(
                        old(self).input_history.entries_view(),
                        text,
                    )
                    &&& final(self).input_history.browse_view() is None
                    &&& final(self).expanded_tool_results@ == old(self).expanded_tool_results@
                }
            }),
    {
        if self.streaming {
            return None;
        }
        let text = self.input.text();
        let tv = str_chars(text.as_str());
        let (a, z) = trim_bounds(&tv);
        if a == z {
            return None;
        }
        self.input_history.record(text.as_str());
        self.input.clear();
        let history = self.history();
        let ghost before = self.entries@;
        self.entries.push(ChatEntry::User(copy_string(&text)));
        assert(entries_view(self.entries@) =~= entries_view(before).push(EntryV::User(text@)));
        self.streaming = true;
        self.streaming_buffer = String::new();
        self.thinking_buffer = String::new();
        self.scroll_to_bottom();
        self.slash_menu.close();
        Some((text, history))
    }

    /// Inserts pasted text into the input (ignored while streaming) and
    /// refreshes the menu.
    pub fn paste(&mut self, text: &str)
        requires
            old(self).wf(),
        ensures
            final(self).wf(),
            old(self).streaming ==> *final(self) == *old(self),
            !old(self).streaming ==> {
                &&& final(self).input.lines_view() == insert_text(old(self).input.lines_view(), text@)
                &&& menu_updated(old(self).slash_menu, final(self).slash_menu, final(self).input.lines_view()[0])
                &&& same_but_input(*final(self), *old(self))
                &&& final(self).input_history == old(self).input_history
            },
    {
        if self.streaming {
            return;
        }
        self.input.insert_str(text);
        self.update_slash_menu();
    }

    /// Takes the input text for a slash command: returns the lines joined by
    /// line feeds, empties the input and closes the menu.
    pub fn take_input(&mut self) -> (r: String)
        requires
            old(self).wf(),
        ensures
            final(self).wf(),
            r@ == input_text(old(self).input.lines_view()),
            final(self).input.lines_view() == seq![Seq::<char>::empty()],
            menu_closed(final(self).slash_menu),
            same_but_input(*final(self), *old(self)),
            final(self).input_history == old(self).input_history,
    {
        let text = self.input.text();
        self.input.clear();
        self.slash_menu.close();
        text
    }
}

} // verus!
