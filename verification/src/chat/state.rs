//! The state of the chat page.
//!
//! `submit` turns the input into a user entry and starts streaming. Tokens
//! of the answer gather in `streaming_buffer` (reasoning in
//! `thinking_buffer`, live tool output in `streaming_tool_output`); a tool
//! call first turns the gathered text into an assistant entry; finishing or
//! cancelling the stream does the same and leaves the streaming state.
//! `history` gives the transcript as messages for the next request.
use vstd::prelude::*;

use std::collections::HashSet;

use crate::chat::entry::{
    assistant_msg, entries_view, messages_view, tool_msg, user_msg, ChatEntry, EntryV, Message,
    MessageV, Role, ToolCall, ToolCallV,
};
use crate::chat::input::{
    input_text, insert_text, menu_closed, recorded, InputBox, InputHistory, PasteDetector,
    SlashMenu,
};
use crate::chat::layout::{build_streaming_tail, entries_lines, render_entries, streaming_tail};
use crate::chat::wrap::{copy_line, copy_string, spec_wrap_lines, wrap_lines};
use crate::style::{lines_view, Line, LineV};
use crate::text::{chars_eq, push_str, str_chars, trim};
use crate::theme::Theme;

verus! {

broadcast use vstd::string::group_string_axioms, vstd::std_specs::hash::group_hash_axioms;

/// `scroll_y` value meaning "follow the bottom": new content scrolls into view.
pub const SCROLL_FOLLOW: usize = usize::MAX;

/// The rows of the transcript broken to the area width, kept between frames;
/// `key` is what they were made from (entry count, character counts of the
/// three live buffers, width).
#[derive(Debug)]
pub struct WrappedCache {
    pub lines: Vec<Line>,
    pub key: (usize, usize, usize, usize, u16),
    pub valid: bool,
}

/// The chat page.
#[derive(Debug)]
pub struct ChatState {
    /// Finished transcript entries, oldest first.
    pub entries: Vec<ChatEntry>,
    /// The text being typed.
    pub input: InputBox,
    /// Whether an answer is streaming (sending is disabled meanwhile).
    pub streaming: bool,
    /// Answer text received so far.
    pub streaming_buffer: String,
    /// Reasoning text received so far.
    pub thinking_buffer: String,
    /// Output of the running tool received so far.
    pub streaming_tool_output: String,
    /// Lines of the finished entries, rebuilt by `prepare_render` when the
    /// entry count or the width changed or after `invalidate_cache`.
    pub cached_history: Vec<Line>,
    /// Entry count that `cached_history` was made from.
    pub cached_entries_len: usize,
    /// Forces the next `prepare_render` to rebuild.
    pub cache_dirty: bool,
    /// Top row of the transcript view, or `SCROLL_FOLLOW`.
    pub scroll_y: usize,
    /// Rows of the transcript at the last frame.
    pub last_total_lines: usize,
    /// Visible rows of the transcript at the last frame.
    pub last_visible_height: usize,
    /// The wrapped rows of the whole transcript.
    pub wrapped: WrappedCache,
    /// The slash-command completion menu.
    pub slash_menu: SlashMenu,
    /// Sent messages, for recall.
    pub input_history: InputHistory,
    /// Indices of tool results and reasoning entries shown unfolded.
    pub expanded_tool_results: HashSet<usize>,
    /// Width of the last `prepare_render`.
    pub last_render_width: u16,
    /// Tells pasted text from typing.
    pub paste_detector: PasteDetector,
}

/// Index of the last tool result or reasoning entry of `es`.
pub open spec fn last_foldable(es: Seq<EntryV>) -> Option<int>
    decreases es.len(),
{
    if es.len() == 0 {
        None
    } else if es.last() is ToolResult || es.last() is Thinking {
        Some(es.len() - 1)
    } else {
        last_foldable(es.drop_last())
    }
}

/// `s` with `i` added, or removed if present.
pub open spec fn toggled(s: Set<usize>, i: usize) -> Set<usize> {
    if s.contains(i) {
        s.remove(i)
    } else {
        s.insert(i)
    }
}

/// Toggling an index twice gives the set back.
pub proof fn lemma_toggle_twice(s: Set<usize>, i: usize)
    ensures
        toggled(toggled(s, i), i) == s,
{
    assert(toggled(toggled(s, i), i) =~= s);
}

// ---------------------------------------------------------------------------
// The history sent to the model
// ---------------------------------------------------------------------------

/// The call id of a tool result entry.
pub open spec fn result_id(e: EntryV) -> Option<Seq<char>> {
    match e {
        EntryV::ToolResult { id, .. } => Some(id),
        _ => None,
    }
}

/// Whether `es` holds a tool result for call `id`.
pub open spec fn has_result(es: Seq<EntryV>, id: Seq<char>) -> bool {
    exists|k: int| 0 <= k < es.len() && result_id(#[trigger] es[k]) == Some(id)
}

/// Messages so far and the assistant message still open for tool calls.
pub struct HistState {
    pub out: Seq<MessageV>,
    pub pending: Option<MessageV>,
}

/// `out` with the open assistant message closed.
pub open spec fn flushed(st: HistState) -> Seq<MessageV> {
    match st.pending {
        Some(m) => st.out.push(m),
        None => st.out,
    }
}

/// One entry's effect. User text and tool results close the open assistant
/// message; assistant text opens a new one; a tool call with a result in
/// `all` joins the open assistant message (opening an empty one if needed);
/// a call without a result, reasoning and system entries add nothing.
pub open spec fn hist_step(st: HistState, e: EntryV, all: Seq<EntryV>) -> HistState {
    match e {
        EntryV::User(c) => HistState { out: flushed(st).push(user_msg(c)), pending: None },
        EntryV::Assistant(c) => HistState { out: flushed(st), pending: Some(assistant_msg(c)) },
        EntryV::ToolCall { id, name, arguments } => if has_result(all, id) {
            let m = match st.pending {
                Some(m) => m,
                None => assistant_msg(Seq::empty()),
            };
            HistState {
                out: st.out,
                pending: Some(MessageV { tool_calls: m.tool_calls.push((id, name, arguments)), ..m }),
            }
        } else {
            st
        },
        EntryV::ToolResult { id, name, output, is_error } => HistState {
            out: flushed(st).push(tool_msg(id, output)),
            pending: None,
        },
        _ => st,
    }
}

pub open spec fn hist_fold(es: Seq<EntryV>, all: Seq<EntryV>) -> HistState
    decreases es.len(),
{
    if es.len() == 0 {
        HistState { out: Seq::empty(), pending: None }
    } else {
        hist_step(hist_fold(es.drop_last(), all), es.last(), all)
    }
}

/// The messages for the next request: the transcript with complete tool
/// chains, without reasoning and system entries.
pub open spec fn spec_history(es: Seq<EntryV>) -> Seq<MessageV> {
    flushed(hist_fold(es, es))
}

/// Whether every tool call among `ms` has a result in `es`.
pub open spec fn calls_answered(ms: Seq<MessageV>, es: Seq<EntryV>) -> bool {
    forall|i: int, j: int|
        0 <= i < ms.len() && 0 <= j < ms[i].tool_calls.len() ==> has_result(
            es,
            #[trigger] ms[i].tool_calls[j].0,
        )
}

proof fn lemma_fold_answered(es: Seq<EntryV>, all: Seq<EntryV>)
    ensures
        calls_answered(flushed(hist_fold(es, all)), all),
        calls_answered(hist_fold(es, all).out, all),
    decreases es.len(),
{
    if es.len() > 0 {
        lemma_fold_answered(es.drop_last(), all);
        let st = hist_fold(es.drop_last(), all);
        let e = es.last();
        let f = flushed(st);
        let nw = hist_fold(es, all);
        assert(nw == hist_step(st, e, all));
        match e {
            EntryV::ToolCall { id, name, arguments } => {
                if has_result(all, id) {
                    let m = match st.pending {
                        Some(m) => m,
                        None => assistant_msg(Seq::empty()),
                    };
                    let m2 = MessageV { tool_calls: m.tool_calls.push((id, name, arguments)), ..m };
                    assert(nw.out == st.out);
                    assert(flushed(nw) == st.out.push(m2));
                    assert forall|j: int| 0 <= j < m.tool_calls.len() implies has_result(
                        all,
                        #[trigger] m.tool_calls[j].0,
                    ) by {
                        if st.pending is Some {
                            assert(f[st.out.len() as int] == m);
                        }
                    }
                    assert forall|i: int, j: int|
                        0 <= i < flushed(nw).len() && 0 <= j < flushed(nw)[i].tool_calls.len()
                            implies has_result(all, #[trigger] flushed(nw)[i].tool_calls[j].0) by {
                        if i < st.out.len() {
                            assert(flushed(nw)[i] == st.out[i]);
                        } else {
                            assert(flushed(nw)[i] == m2);
                            if j < m.tool_calls.len() {
                                assert(m2.tool_calls[j] == m.tool_calls[j]);
                            }
                        }
                    }
                }
            },
            EntryV::Assistant(c) => {
                assert(nw.out == f);
                assert forall|i: int, j: int|
                    0 <= i < flushed(nw).len() && 0 <= j < flushed(nw)[i].tool_calls.len()
                        implies has_result(all, #[trigger] flushed(nw)[i].tool_calls[j].0) by {
                    if i < f.len() {
                        assert(flushed(nw)[i] == f[i]);
                    }
                }
            },
            EntryV::User(c) => {
                assert forall|i: int, j: int|
                    0 <= i < flushed(nw).len() && 0 <= j < flushed(nw)[i].tool_calls.len()
                        implies has_result(all, #[trigger] flushed(nw)[i].tool_calls[j].0) by {
                    if i < f.len() {
                        assert(flushed(nw)[i] == f[i]);
                    }
                }
            },
            EntryV::ToolResult { id, name, output, is_error } => {
                assert forall|i: int, j: int|
                    0 <= i < flushed(nw).len() && 0 <= j < flushed(nw)[i].tool_calls.len()
                        implies has_result(all, #[trigger] flushed(nw)[i].tool_calls[j].0) by {
                    if i < f.len() {
                        assert(flushed(nw)[i] == f[i]);
                    }
                }
            },
            _ => {},
        }
    }
}

/// The history never holds a tool call without its result: every call in it
/// has a tool result entry with its id in the transcript.
pub proof fn lemma_history_calls_answered(es: Seq<EntryV>)
    ensures
        calls_answered(spec_history(es), es),
{
    lemma_fold_answered(es, es);
}

/// The call id of a tool call entry.
pub open spec fn call_id(e: EntryV) -> Option<Seq<char>> {
    match e {
        EntryV::ToolCall { id, .. } => Some(id),
        _ => None,
    }
}

/// Whether `es` holds a tool result for call `id` at position `from` or later.
pub open spec fn result_from(es: Seq<EntryV>, from: int, id: Seq<char>) -> bool {
    exists|q: int| from <= q < es.len() && result_id(#[trigger] es[q]) == Some(id)
}

/// Whether every tool call of `es` that has a result has one after it.
pub open spec fn results_after_calls(es: Seq<EntryV>) -> bool {
    forall|p: int|
        0 <= p < es.len() && (#[trigger] call_id(es[p])) is Some && has_result(
            es,
            call_id(es[p])->0,
        ) ==> result_from(es, p + 1, call_id(es[p])->0)
}

/// Whether `m` is the tool message answering call `id`.
pub open spec fn answers(m: MessageV, id: Seq<char>) -> bool {
    m.role == Role::Tool && m.tool_call_id == Some(id)
}

/// Whether a message after position `i` of `ms` answers call `id`.
pub open spec fn answered_after(ms: Seq<MessageV>, i: int, id: Seq<char>) -> bool {
    exists|k: int| i < k < ms.len() && answers(#[trigger] ms[k], id)
}

/// Every call among `ms` is answered by a later message, or its result is
/// still to come at entry position `n` or later.
spec fn followed_or_due(ms: Seq<MessageV>, all: Seq<EntryV>, n: int) -> bool {
    forall|i: int, j: int|
        0 <= i < ms.len() && 0 <= j < ms[i].tool_calls.len() ==> answered_after(
            ms,
            i,
            #[trigger] ms[i].tool_calls[j].0,
        ) || result_from(all, n, ms[i].tool_calls[j].0)
}

/// A step that only appends messages without calls keeps every call
/// followed or due; a tool result entry answers its calls by the message it
/// appends.
proof fn lemma_followed_extend(
    f: Seq<MessageV>,
    g: Seq<MessageV>,
    all: Seq<EntryV>,
    n: int,
)
    requires
        0 <= n < all.len(),
        followed_or_due(f, all, n),
        f.len() <= g.len(),
        forall|k: int| 0 <= k < f.len() ==> g[k] == f[k],
        forall|k: int| f.len() <= k < g.len() ==> (#[trigger] g[k]).tool_calls.len() == 0,
        result_id(all[n]) is Some ==> f.len() < g.len() && answers(
            g[f.len() as int],
            result_id(all[n])->0,
        ),
    ensures
        followed_or_due(g, all, n + 1),
{
    assert forall|i: int, j: int|
        0 <= i < g.len() && 0 <= j < g[i].tool_calls.len() implies answered_after(
            g,
            i,
            #[trigger] g[i].tool_calls[j].0,
        ) || result_from(all, n + 1, g[i].tool_calls[j].0) by {
        let x = g[i].tool_calls[j].0;
        if i >= f.len() {
            assert(g[i].tool_calls.len() == 0);
        }
        assert(g[i] == f[i]);
        assert(f[i].tool_calls[j].0 == x);
        if answered_after(f, i, x) {
            let k = choose|k: int| i < k < f.len() && answers(#[trigger] f[k], x);
            assert(g[k] == f[k]);
            assert(answers(g[k], x));
        } else {
            let q = choose|q: int| n <= q < all.len() && result_id(#[trigger] all[q]) == Some(x);
            if q == n {
                assert(answers(g[f.len() as int], x));
            } else {
                assert(result_id(all[q]) == Some(x));
            }
        }
    }
}

proof fn lemma_fold_followed(es: Seq<EntryV>, all: Seq<EntryV>)
    requires
        es.len() <= all.len(),
        es == all.take(es.len() as int),
        results_after_calls(all),
    ensures
        followed_or_due(flushed(hist_fold(es, all)), all, es.len() as int),
    decreases es.len(),
{
    if es.len() > 0 {
        let n = es.len() - 1;
        let pre = es.drop_last();
        assert(pre == all.take(n));
        lemma_fold_followed(pre, all);
        let st = hist_fold(pre, all);
        let f = flushed(st);
        let e = es.last();
        assert(e == all[n]);
        let nw = hist_fold(es, all);
        assert(nw == hist_step(st, e, all));
        let g = flushed(nw);
        match e {
            EntryV::ToolCall { id, name, arguments } => {
                if has_result(all, id) {
                    let m = match st.pending {
                        Some(m) => m,
                        None => assistant_msg(Seq::empty()),
                    };
                    let m2 = MessageV { tool_calls: m.tool_calls.push((id, name, arguments)), ..m };
                    assert(g == st.out.push(m2));
                    assert(call_id(all[n]) == Some(id));
                    assert(result_from(all, n + 1, id));
                    assert forall|i: int, j: int|
                        0 <= i < g.len() && 0 <= j < g[i].tool_calls.len() implies answered_after(
                            g,
                            i,
                            #[trigger] g[i].tool_calls[j].0,
                        ) || result_from(all, n + 1, g[i].tool_calls[j].0) by {
                        let x = g[i].tool_calls[j].0;
                        if i < st.out.len() {
                            assert(g[i] == f[i]);
                            assert(f[i].tool_calls[j].0 == x);
                            if answered_after(f, i, x) {
                                let k = choose|k: int| i < k < f.len() && answers(#[trigger] f[k], x);
                                if k < st.out.len() {
                                    assert(g[k] == f[k]);
                                } else {
                                    assert(f[k] == m);
                                    assert(g[k] == m2);
                                }
                                assert(answers(g[k], x));
                            } else {
                                let q = choose|q: int|
                                    n <= q < all.len() && result_id(#[trigger] all[q]) == Some(x);
                                assert(q != n);
                                assert(result_id(all[q]) == Some(x));
                            }
                        } else if j < m.tool_calls.len() {
                            assert(st.pending is Some);
                            assert(f[i] == m);
                            assert(m2.tool_calls[j] == m.tool_calls[j]);
                            assert(f[i].tool_calls[j].0 == x);
                            if answered_after(f, i, x) {
                                let k = choose|k: int| i < k < f.len() && answers(#[trigger] f[k], x);
                                assert(false);
                            } else {
                                let q = choose|q: int|
                                    n <= q < all.len() && result_id(#[trigger] all[q]) == Some(x);
                                assert(q != n);
                                assert(result_id(all[q]) == Some(x));
                            }
                        } else {
                            assert(x == id);
                        }
                    }
                } else {
                    assert(g == f);
                    lemma_followed_extend(f, g, all, n);
                }
            },
            EntryV::ToolResult { id, name, output, is_error } => {
                assert(g == f.push(tool_msg(id, output)));
                lemma_followed_extend(f, g, all, n);
            },
            EntryV::User(c) => {
                assert(g == f.push(user_msg(c)));
                lemma_followed_extend(f, g, all, n);
            },
            EntryV::Assistant(c) => {
                assert(g == f.push(assistant_msg(c)));
                lemma_followed_extend(f, g, all, n);
            },
            _ => {
                assert(g == f);
                lemma_followed_extend(f, g, all, n);
            },
        }
    }
}

/// When every tool result comes after its call in the transcript, each tool
/// call in the history is answered by a later tool message with its id.
pub proof fn lemma_history_calls_followed(es: Seq<EntryV>)
    requires
        results_after_calls(es),
    ensures
        forall|i: int, j: int|
            0 <= i < spec_history(es).len() && 0 <= j < spec_history(es)[i].tool_calls.len()
                ==> answered_after(spec_history(es), i, #[trigger] spec_history(es)[i].tool_calls[j].0),
{
    assert(es == es.take(es.len() as int));
    lemma_fold_followed(es, es);
}

/// How many of `ms` have role `r`.
pub open spec fn role_count(ms: Seq<MessageV>, r: Role) -> nat
    decreases ms.len(),
{
    if ms.len() == 0 {
        0
    } else {
        role_count(ms.drop_last(), r) + if ms.last().role == r {
            1nat
        } else {
            0nat
        }
    }
}

/// How many user entries `es` holds.
pub open spec fn user_entry_count(es: Seq<EntryV>) -> nat
    decreases es.len(),
{
    if es.len() == 0 {
        0
    } else {
        user_entry_count(es.drop_last()) + if es.last() is User {
            1nat
        } else {
            0nat
        }
    }
}

/// How many tool result entries `es` holds.
pub open spec fn result_entry_count(es: Seq<EntryV>) -> nat
    decreases es.len(),
{
    if es.len() == 0 {
        0
    } else {
        result_entry_count(es.drop_last()) + if es.last() is ToolResult {
            1nat
        } else {
            0nat
        }
    }
}

proof fn lemma_role_count_push(ms: Seq<MessageV>, m: MessageV, r: Role)
    ensures
        role_count(ms.push(m), r) == role_count(ms, r) + if m.role == r {
            1nat
        } else {
            0nat
        },
{
    assert(ms.push(m).drop_last() =~= ms);
}

proof fn lemma_fold_counts(es: Seq<EntryV>, all: Seq<EntryV>)
    ensures
        hist_fold(es, all).pending matches Some(m) ==> m.role == Role::Assistant,
        role_count(flushed(hist_fold(es, all)), Role::User) == user_entry_count(es),
        role_count(flushed(hist_fold(es, all)), Role::Tool) == result_entry_count(es),
    decreases es.len(),
{
    if es.len() > 0 {
        lemma_fold_counts(es.drop_last(), all);
        let st = hist_fold(es.drop_last(), all);
        let f = flushed(st);
        let nw = hist_fold(es, all);
        assert(nw == hist_step(st, es.last(), all));
        if let Some(m) = st.pending {
            lemma_role_count_push(st.out, m, Role::User);
            lemma_role_count_push(st.out, m, Role::Tool);
        }
        match es.last() {
            EntryV::User(c) => {
                lemma_role_count_push(f, user_msg(c), Role::User);
                lemma_role_count_push(f, user_msg(c), Role::Tool);
            },
            EntryV::Assistant(c) => {
                lemma_role_count_push(f, assistant_msg(c), Role::User);
                lemma_role_count_push(f, assistant_msg(c), Role::Tool);
            },
            EntryV::ToolCall { id, name, arguments } => {
                if has_result(all, id) {
                    let m = match st.pending {
                        Some(m) => m,
                        None => assistant_msg(Seq::empty()),
                    };
                    let m2 = MessageV { tool_calls: m.tool_calls.push((id, name, arguments)), ..m };
                    lemma_role_count_push(st.out, m2, Role::User);
                    lemma_role_count_push(st.out, m2, Role::Tool);
                }
            },
            EntryV::ToolResult { id, name, output, is_error } => {
                lemma_role_count_push(f, tool_msg(id, output), Role::User);
                lemma_role_count_push(f, tool_msg(id, output), Role::Tool);
            },
            _ => {},
        }
    }
}

/// The history holds one user message per user entry and one tool message
/// per tool result entry of the transcript.
pub proof fn lemma_history_counts(es: Seq<EntryV>)
    ensures
        role_count(spec_history(es), Role::User) == user_entry_count(es),
        role_count(spec_history(es), Role::Tool) == result_entry_count(es),
{
    lemma_fold_counts(es, es);
}

fn has_tool_result(entries: &Vec<ChatEntry>, id: &String) -> (b: bool)
    ensures
        b == has_result(entries_view(entries@), id@),
{
    let idv = str_chars(id.as_str());
    let ghost es = entries_view(entries@);
    let mut k: usize = 0;
    while k < entries.len()
        invariant
            k <= entries@.len(),
            es == entries_view(entries@),
            idv@ == id@,
            forall|j: int| 0 <= j < k ==> result_id(#[trigger] es[j]) != Some(id@),
        decreases entries@.len() - k,
    {
        if let ChatEntry::ToolResult { id: rid, .. } = &entries[k] {
            let rv = str_chars(rid.as_str());
            if chars_eq(&rv, &idv) {
                assert(result_id(es[k as int]) == Some(id@));
                return true;
            }
        }
        k = k + 1;
    }
    false
}

/// Whether every character of `s` is still in the view of `t` (a copy).
fn copy_call(id: &String, name: &String, arguments: &String) -> (t: ToolCall)
    ensures
        t@ == (id@, name@, arguments@),
{
    ToolCall { id: copy_string(id), name: copy_string(name), arguments: copy_string(arguments) }
}

fn push_flushed(out: &mut Vec<Message>, pending: Option<Message>)
    ensures
        messages_view(final(out)@) == (match pending {
            Some(m) => messages_view(old(out)@).push(m@),
            None => messages_view(old(out)@),
        }),
{
    if let Some(m) = pending {
        let ghost before = out@;
        out.push(m);
        assert(messages_view(out@) =~= messages_view(before).push(out@.last()@));
    }
}

pub open spec fn pending_view(p: Option<Message>) -> Option<MessageV> {
    match p {
        Some(m) => Some(m@),
        None => None,
    }
}

// ---------------------------------------------------------------------------
// The state
// ---------------------------------------------------------------------------

/// The rows to scroll over: all rows but one page.
pub open spec fn max_scroll(s: ChatState) -> int {
    if s.last_total_lines >= s.last_visible_height {
        s.last_total_lines - s.last_visible_height
    } else {
        0
    }
}

/// The top row in use: the bottom when following, else `scroll_y` clamped.
pub open spec fn scroll_top(s: ChatState) -> int {
    if s.scroll_y == SCROLL_FOLLOW {
        max_scroll(s)
    } else if s.scroll_y <= max_scroll(s) {
        s.scroll_y as int
    } else {
        max_scroll(s)
    }
}

/// The lines before wrapping: the cached transcript (laid out afresh when
/// the cache is empty but entries exist) and the live tail while streaming.
pub open spec fn render_lines(s: ChatState, t: Theme, width: u16) -> Seq<LineV> {
    let cached = lines_view(s.cached_history@);
    let base = if cached.len() == 0 && s.entries@.len() > 0 {
        entries_lines(entries_view(s.entries@), t, s.expanded_tool_results@, width)
    } else {
        cached
    };
    if s.streaming {
        base + streaming_tail(s.streaming_buffer@, s.thinking_buffer@, s.streaming_tool_output@, t)
    } else {
        base
    }
}

/// The key of the wrapped rows for the state `s` at `width`.
pub open spec fn wrap_key(s: ChatState, width: u16) -> (usize, usize, usize, usize, u16) {
    (
        s.entries@.len() as usize,
        s.streaming_buffer@.len() as usize,
        s.thinking_buffer@.len() as usize,
        s.streaming_tool_output@.len() as usize,
        width,
    )
}

/// `a` and `b` agree on everything but the caches and the scroll position.
pub open spec fn same_talk(a: ChatState, b: ChatState) -> bool {
    &&& a.entries@ == b.entries@
    &&& a.input == b.input
    &&& a.streaming == b.streaming
    &&& a.streaming_buffer@ == b.streaming_buffer@
    &&& a.thinking_buffer@ == b.thinking_buffer@
    &&& a.streaming_tool_output@ == b.streaming_tool_output@
    &&& a.slash_menu == b.slash_menu
    &&& a.input_history == b.input_history
    &&& a.expanded_tool_results@ == b.expanded_tool_results@
    &&& a.paste_detector == b.paste_detector
}

/// `a` and `b` agree on the caches and the scroll state.
pub open spec fn same_view(a: ChatState, b: ChatState) -> bool {
    &&& a.cached_history@ == b.cached_history@
    &&& a.cached_entries_len == b.cached_entries_len
    &&& a.cache_dirty == b.cache_dirty
    &&& a.scroll_y == b.scroll_y
    &&& a.last_total_lines == b.last_total_lines
    &&& a.last_visible_height == b.last_visible_height
    &&& a.wrapped == b.wrapped
    &&& a.last_render_width == b.last_render_width
}

/// The number of characters of `s`.
fn char_count(s: &str) -> (n: usize)
    ensures
        n == s@.len(),
{
    let v = str_chars(s);
    v.len()
}

impl ChatState {
    /// The input box and the sent-message history are well formed.
    pub open spec fn wf(&self) -> bool {
        self.input.wf() && self.input_history.wf()
    }

    /// An empty chat page that follows the bottom.
    pub fn new() -> (s: ChatState)
        ensures
            s.wf(),
            s.entries@.len() == 0,
            s.input.lines_view() == seq![Seq::<char>::empty()],
            !s.streaming,
            s.streaming_buffer@.len() == 0,
            s.thinking_buffer@.len() == 0,
            s.streaming_tool_output@.len() == 0,
            s.cached_history@.len() == 0,
            s.cached_entries_len == 0,
            s.cache_dirty,
            s.scroll_y == SCROLL_FOLLOW,
            s.last_total_lines == 0,
            s.last_visible_height == 0,
            !s.wrapped.valid,
            menu_closed(s.slash_menu),
            s.input_history.entries_view().len() == 0,
            s.input_history.browse_view() is None,
            s.expanded_tool_results@ == Set::<usize>::empty(),
            s.last_render_width == 0,
            s.paste_detector.buffer_view().len() == 0,
            s.paste_detector.last_key() is None,
    {
        ChatState {
            entries: Vec::new(),
            input: InputBox::new(),
            streaming: false,
            streaming_buffer: String::new(),
            thinking_buffer: String::new(),
            streaming_tool_output: String::new(),
            cached_history: Vec::new(),
            cached_entries_len: 0,
            cache_dirty: true,
            scroll_y: SCROLL_FOLLOW,
            last_total_lines: 0,
            last_visible_height: 0,
            wrapped: WrappedCache { lines: Vec::new(), key: (0, 0, 0, 0, 0), valid: false },
            slash_menu: SlashMenu::new(),
            input_history: InputHistory::new(),
            expanded_tool_results: HashSet::new(),
            last_render_width: 0,
            paste_detector: PasteDetector::new(),
        }
    }

    /// Rebuilds the cached lines of the finished entries when the entry
    /// count or the width changed, or the cache was invalidated.
    pub fn prepare_render(&mut self, theme: &Theme, width: u16)
        ensures
            same_talk(*final(self), *old(self)),
            final(self).scroll_y == old(self).scroll_y,
            final(self).last_total_lines == old(self).last_total_lines,
            final(self).last_visible_height == old(self).last_visible_height,
            final(self).wrapped == old(self).wrapped,
            (old(self).cache_dirty || old(self).cached_entries_len != old(self).entries@.len()
                || old(self).last_render_width != width) ==> {
                &&& lines_view(final(self).cached_history@) == entries_lines(
                    entries_view(old(self).entries@),
                    *theme,
                    old(self).expanded_tool_results@,
                    width,
                )
                &&& final(self).cached_entries_len == old(self).entries@.len()
                &&& final(self).last_render_width == width
                &&& !final(self).cache_dirty
            },
            !(old(self).cache_dirty || old(self).cached_entries_len != old(self).entries@.len()
                || old(self).last_render_width != width) ==> same_view(*final(self), *old(self)),
    {
        if self.cache_dirty || self.cached_entries_len != self.entries.len()
            || self.last_render_width != width {
            self.cached_history = render_entries(
                self.entries.as_slice(),
                theme,
                &self.expanded_tool_results,
                width,
            );
            self.cached_entries_len = self.entries.len();
            self.last_render_width = width;
            self.cache_dirty = false;
        }
    }

    /// Marks both caches stale (for a change of style that keeps the entry
    /// count, such as a new theme).
    pub fn invalidate_cache(&mut self)
        ensures
            same_talk(*final(self), *old(self)),
            final(self).cache_dirty,
            !final(self).wrapped.valid,
            final(self).wrapped.lines@ == old(self).wrapped.lines@,
            final(self).wrapped.key == old(self).wrapped.key,
            final(self).cached_history@ == old(self).cached_history@,
            final(self).cached_entries_len == old(self).cached_entries_len,
            final(self).scroll_y == old(self).scroll_y,
            final(self).last_total_lines == old(self).last_total_lines,
            final(self).last_visible_height == old(self).last_visible_height,
            final(self).last_render_width == old(self).last_render_width,
    {
        self.cache_dirty = true;
        self.wrapped.valid = false;
    }

    // -- scrolling ---------------------------------------------------------

    /// Scrolls the transcript by `delta` rows (positive: down). Reaching the
    /// bottom turns following back on. The page size comes from the last
    /// frame's metrics; before any frame every scroll is a no-op.
    pub fn scroll_history(&mut self, delta: i32)
        requires
            max_scroll(*old(self)) <= i32::MAX,
            scroll_top(*old(self)) + delta <= i32::MAX,
        ensures
            same_talk(*final(self), *old(self)),
            ({
                let m = max_scroll(*old(self));
                let v = scroll_top(*old(self)) + delta;
                let n = if v < 0 {
                    0
                } else if v > m {
                    m
                } else {
                    v
                };
                final(self).scroll_y == (if n >= m {
                    SCROLL_FOLLOW as int
                } else {
                    n
                })
            }),
            final(self).cached_history@ == old(self).cached_history@,
            final(self).last_total_lines == old(self).last_total_lines,
            final(self).last_visible_height == old(self).last_visible_height,
    {
        let total = self.last_total_lines;
        let visible = self.last_visible_height;
        let max: usize = if total >= visible {
            total - visible
        } else {
            0
        };
        let cur: usize = if self.scroll_y == SCROLL_FOLLOW {
            max
        } else if self.scroll_y <= max {
            self.scroll_y
        } else {
            max
        };
        let v: i64 = cur as i64 + delta as i64;
        let n: usize = if v < 0 {
            0
        } else if v > max as i64 {
            max
        } else {
            v as usize
        };
        self.scroll_y = if n >= max {
            SCROLL_FOLLOW
        } else {
            n
        };
    }

    /// Jumps to the bottom and follows new content.
    pub fn scroll_to_bottom(&mut self)
        ensures
            same_talk(*final(self), *old(self)),
            final(self).scroll_y == SCROLL_FOLLOW,
            final(self).cached_history@ == old(self).cached_history@,
            final(self).cached_entries_len == old(self).cached_entries_len,
            final(self).cache_dirty == old(self).cache_dirty,
            final(self).wrapped == old(self).wrapped,
            final(self).last_render_width == old(self).last_render_width,
            final(self).last_total_lines == old(self).last_total_lines,
            final(self).last_visible_height == old(self).last_visible_height,
    {
        self.scroll_y = SCROLL_FOLLOW;
    }

    /// Whether the view follows the bottom.
    pub fn is_following_bottom(&self) -> (b: bool)
        ensures
            b == (self.scroll_y == SCROLL_FOLLOW),
    {
        self.scroll_y == SCROLL_FOLLOW
    }

    /// Records the row count and visible height of the frame just drawn.
    pub fn set_scroll_metrics(&mut self, total: usize, visible: usize)
        ensures
            same_talk(*final(self), *old(self)),
            final(self).last_total_lines == total,
            final(self).last_visible_height == visible,
            final(self).scroll_y == old(self).scroll_y,
            final(self).cached_history@ == old(self).cached_history@,
    {
        self.last_total_lines = total;
        self.last_visible_height = visible;
    }

    /// The visible height of the last frame.
    pub fn last_visible_height_get(&self) -> (h: usize)
        ensures
            h == self.last_visible_height,
    {
        self.last_visible_height
    }

    /// The top row to draw: the bottom (`max_scroll`) when following, else
    /// `scroll_y` clamped to `max_scroll`.
    pub fn resolved_scroll_offset(&self, max_scroll: usize) -> (r: usize)
        ensures
            r <= max_scroll,
            self.scroll_y == SCROLL_FOLLOW ==> r == max_scroll,
            self.scroll_y != SCROLL_FOLLOW ==> r == (if self.scroll_y <= max_scroll {
                self.scroll_y
            } else {
                max_scroll
            }),
    {
        if self.scroll_y == SCROLL_FOLLOW {
            max_scroll
        } else if self.scroll_y <= max_scroll {
            self.scroll_y
        } else {
            max_scroll
        }
    }

    // -- rendering ---------------------------------------------------------

    /// The lines of the cached transcript (see `prepare_render`).
    pub fn cached_history(&self) -> (r: &Vec<Line>)
        ensures
            r@ == self.cached_history@,
    {
        &self.cached_history
    }

    /// All transcript lines before wrapping: the cached entries (laid out
    /// afresh if the cache is empty but entries exist) and, while streaming,
    /// the live tail.
    pub fn build_render_lines(&self, theme: &Theme, width: u16) -> (r: Vec<Line>)
        ensures
            lines_view(r@) == render_lines(*self, *theme, width),
    {
        let mut lines: Vec<Line> = Vec::new();
        if self.cached_history.len() == 0 && self.entries.len() > 0 {
            lines = render_entries(self.entries.as_slice(), theme, &self.expanded_tool_results, width);
        } else {
            let mut i: usize = 0;
            while i < self.cached_history.len()
                invariant
                    i <= self.cached_history@.len(),
                    lines_view(lines@) == lines_view(self.cached_history@).take(i as int),
                decreases self.cached_history@.len() - i,
            {
                let ghost before = lines@;
                lines.push(copy_line(&self.cached_history[i]));
                assert(lines_view(lines@) =~= lines_view(before).push(self.cached_history@[i as int]@));
                assert(lines_view(self.cached_history@).take(i + 1) =~= lines_view(
                    self.cached_history@,
                ).take(i as int).push(self.cached_history@[i as int]@));
                i = i + 1;
            }
            assert(lines_view(self.cached_history@).take(self.cached_history@.len() as int)
                =~= lines_view(self.cached_history@));
        }
        if self.streaming {
            let tail = build_streaming_tail(
                self.streaming_buffer.as_str(),
                self.thinking_buffer.as_str(),
                self.streaming_tool_output.as_str(),
                theme,
            );
            crate::style::append_lines(&mut lines, tail);
        }
        lines
    }

    /// The transcript broken into rows of `width` columns. The rows are kept
    /// and reused while the entry count, the lengths of the live buffers and
    /// the width stay the same and the cache was not invalidated.
    pub fn wrapped_lines(&mut self, theme: &Theme, width: u16) -> (r: &Vec<Line>)
        ensures
            same_talk(*final(self), *old(self)),
            final(self).cached_history@ == old(self).cached_history@,
            final(self).scroll_y == old(self).scroll_y,
            r@ == final(self).wrapped.lines@,
            final(self).wrapped.valid,
            final(self).wrapped.key == wrap_key(*old(self), width),
            !old(self).wrapped.valid || old(self).wrapped.key != wrap_key(*old(self), width)
                ==> lines_view(r@) == spec_wrap_lines(
                render_lines(*old(self), *theme, width),
                width as nat,
            ),
            old(self).wrapped.valid && old(self).wrapped.key == wrap_key(*old(self), width)
                ==> r@ == old(self).wrapped.lines@,
    {
        let key = (
            self.entries.len(),
            char_count(self.streaming_buffer.as_str()),
            char_count(self.thinking_buffer.as_str()),
            char_count(self.streaming_tool_output.as_str()),
            width,
        );
        let k0 = self.wrapped.key;
        let same = k0.0 == key.0 && k0.1 == key.1 && k0.2 == key.2 && k0.3 == key.3 && k0.4 == key.4;
        if !self.wrapped.valid || !same {
            let unwrapped = self.build_render_lines(theme, width);
            self.wrapped.lines = wrap_lines(unwrapped.as_slice(), width as usize);
            self.wrapped.key = key;
            self.wrapped.valid = true;
        }
        &self.wrapped.lines
    }

    // -- the live answer ---------------------------------------------------

    /// Turns the gathered reasoning and answer text into entries (reasoning
    /// first), leaving the streaming state as it is.
    pub fn flush_streaming_to_assistant(&mut self)
        ensures
            final(self).entries@.len() >= old(self).entries@.len(),
            entries_view(final(self).entries@) == entries_view(old(self).entries@) + (if old(
                self,
            ).thinking_buffer@.len() > 0 {
                seq![EntryV::Thinking(old(self).thinking_buffer@)]
            } else {
                Seq::empty()
            }) + (if old(self).streaming_buffer@.len() > 0 {
                seq![EntryV::Assistant(old(self).streaming_buffer@)]
            } else {
                Seq::empty()
            }),
            final(self).thinking_buffer@.len() == 0,
            final(self).streaming_buffer@.len() == 0,
            final(self).streaming == old(self).streaming,
            final(self).streaming_tool_output@ == old(self).streaming_tool_output@,
            final(self).input == old(self).input,
            final(self).slash_menu == old(self).slash_menu,
            final(self).input_history == old(self).input_history,
            final(self).expanded_tool_results@ == old(self).expanded_tool_results@,
            final(self).paste_detector == old(self).paste_detector,
            same_view(*final(self), *old(self)),
    {
        let ghost start = entries_view(self.entries@);
        let ghost th = self.thinking_buffer@;
        let ghost sb = self.streaming_buffer@;
        if !self.thinking_buffer.as_str().is_empty() {
            let mut content = String::new();
            core::mem::swap(&mut content, &mut self.thinking_buffer);
            let ghost before = self.entries@;
            self.entries.push(ChatEntry::Thinking(content));
            assert(entries_view(self.entries@) =~= entries_view(before).push(EntryV::Thinking(th)));
        }
        let ghost mid = entries_view(self.entries@);
        if !self.streaming_buffer.as_str().is_empty() {
            let mut content = String::new();
            core::mem::swap(&mut content, &mut self.streaming_buffer);
            let ghost before = self.entries@;
            self.entries.push(ChatEntry::Assistant(content));
            assert(entries_view(self.entries@) =~= entries_view(before).push(EntryV::Assistant(sb)));
        }
        assert(entries_view(self.entries@) =~= start + (if th.len() > 0 {
            seq![EntryV::Thinking(th)]
        } else {
            Seq::empty()
        }) + (if sb.len() > 0 {
            seq![EntryV::Assistant(sb)]
        } else {
            Seq::empty()
        }));
    }

    /// A tool call arrived: the gathered text becomes entries first, the
    /// live tool output is dropped, then the call is appended.
    pub fn push_tool_call(&mut self, id: String, name: String, arguments: String)
        ensures
            entries_view(final(self).entries@) == entries_view(old(self).entries@) + (if old(
                self,
            ).thinking_buffer@.len() > 0 {
                seq![EntryV::Thinking(old(self).thinking_buffer@)]
            } else {
                Seq::empty()
            }) + (if old(self).streaming_buffer@.len() > 0 {
                seq![EntryV::Assistant(old(self).streaming_buffer@)]
            } else {
                Seq::empty()
            }) + seq![EntryV::ToolCall { id: id@, name: name@, arguments: arguments@ }],
            final(self).thinking_buffer@.len() == 0,
            final(self).streaming_buffer@.len() == 0,
            final(self).streaming_tool_output@.len() == 0,
            final(self).streaming == old(self).streaming,
            final(self).input == old(self).input,
            final(self).slash_menu == old(self).slash_menu,
            final(self).input_history == old(self).input_history,
            final(self).expanded_tool_results@ == old(self).expanded_tool_results@,
            same_view(*final(self), *old(self)),
    {
        self.flush_streaming_to_assistant();
        self.streaming_tool_output = String::new();
        let ghost before = self.entries@;
        let ghost e = EntryV::ToolCall { id: id@, name: name@, arguments: arguments@ };
        self.entries.push(ChatEntry::ToolCall { id, name, arguments });
        assert(entries_view(self.entries@) =~= entries_view(before).push(e));
    }

    /// Live output of the running tool.
    pub fn push_tool_progress(&mut self, chunk: &str)
        ensures
            final(self).streaming_tool_output@ == old(self).streaming_tool_output@ + chunk@,
            final(self).entries@ == old(self).entries@,
            final(self).streaming_buffer@ == old(self).streaming_buffer@,
            final(self).thinking_buffer@ == old(self).thinking_buffer@,
            final(self).streaming == old(self).streaming,
            final(self).input == old(self).input,
            same_view(*final(self), *old(self)),
    {
        push_str(&mut self.streaming_tool_output, chunk);
    }

    /// A tool result arrived: it is appended and the live tool output dropped.
    pub fn push_tool_result(&mut self, id: String, name: String, output: String, is_error: bool)
        ensures
            entries_view(final(self).entries@) == entries_view(old(self).entries@).push(
                EntryV::ToolResult { id: id@, name: name@, output: output@, is_error },
            ),
            final(self).streaming_tool_output@.len() == 0,
            final(self).streaming_buffer@ == old(self).streaming_buffer@,
            final(self).thinking_buffer@ == old(self).thinking_buffer@,
            final(self).streaming == old(self).streaming,
            final(self).input == old(self).input,
            final(self).input_history == old(self).input_history,
            final(self).slash_menu == old(self).slash_menu,
            same_view(*final(self), *old(self)),
    {
        self.streaming_tool_output = String::new();
        let ghost before = self.entries@;
        let ghost e = EntryV::ToolResult { id: id@, name: name@, output: output@, is_error };
        self.entries.push(ChatEntry::ToolResult { id, name, output, is_error });
        assert(entries_view(self.entries@) =~= entries_view(before).push(e));
    }

    /// Folds or unfolds the last tool result or reasoning entry (Ctrl+O);
    /// without one, nothing changes.
    pub fn toggle_last_tool_result_expansion(&mut self)
        ensures
            final(self).entries@ == old(self).entries@,
            final(self).input == old(self).input,
            final(self).streaming == old(self).streaming,
            match last_foldable(entries_view(old(self).entries@)) {
                Some(i) => final(self).expanded_tool_results@ == toggled(
                    old(self).expanded_tool_results@,
                    i as usize,
                ) && final(self).cache_dirty && !final(self).wrapped.valid,
                None => final(self).expanded_tool_results@ == old(self).expanded_tool_results@
                    && same_view(*final(self), *old(self)),
            },
    {
        let ghost es = entries_view(self.entries@);
        let mut k: usize = self.entries.len();
        let mut found = false;
        assert(es.take(k as int) =~= es);
        while k > 0
            invariant_except_break
                k <= self.entries@.len(),
                !found,
                es == entries_view(self.entries@),
                last_foldable(es) == last_foldable(es.take(k as int)),
            ensures
                k <= self.entries@.len(),
                found ==> k > 0 && last_foldable(es) == Some(k - 1),
                !found ==> last_foldable(es) is None,
            decreases k,
        {
            assert(es.take(k as int).last() == es[k - 1]);
            assert(es.take(k as int).drop_last() =~= es.take(k - 1));
            let hit = match &self.entries[k - 1] {
                ChatEntry::ToolResult { .. } => true,
                ChatEntry::Thinking(_) => true,
                _ => false,
            };
            if hit {
                assert(es[k - 1] == self.entries@[k - 1]@);
                assert(es.take(k as int).last() is ToolResult || es.take(k as int).last() is Thinking);
                found = true;
                break;
            }
            assert(es[k - 1] == self.entries@[k - 1]@);
            k = k - 1;
        }
        if found {
            let idx = k - 1;
            if self.expanded_tool_results.contains(&idx) {
                self.expanded_tool_results.remove(&idx);
            } else {
                self.expanded_tool_results.insert(idx);
            }
            self.invalidate_cache();
        }
    }

    /// Ends the stream: the gathered text becomes entries, the live tool
    /// output is dropped, streaming stops.
    pub fn finalize_stream(&mut self)
        ensures
            entries_view(final(self).entries@) == entries_view(old(self).entries@) + (if old(
                self,
            ).thinking_buffer@.len() > 0 {
                seq![EntryV::Thinking(old(self).thinking_buffer@)]
            } else {
                Seq::empty()
            }) + (if old(self).streaming_buffer@.len() > 0 {
                seq![EntryV::Assistant(old(self).streaming_buffer@)]
            } else {
                Seq::empty()
            }),
            final(self).thinking_buffer@.len() == 0,
            final(self).streaming_buffer@.len() == 0,
            final(self).streaming_tool_output@.len() == 0,
            !final(self).streaming,
            final(self).input == old(self).input,
            final(self).slash_menu == old(self).slash_menu,
            final(self).input_history == old(self).input_history,
            same_view(*final(self), *old(self)),
    {
        self.flush_streaming_to_assistant();
        self.streaming_tool_output = String::new();
        self.streaming = false;
    }

    /// Drops the live answer: the text, reasoning and tool output gathered
    /// so far are discarded, the transcript stays as it was, streaming stops.
    pub fn drop_stream(&mut self)
        ensures
            final(self).entries@ == old(self).entries@,
            final(self).thinking_buffer@.len() == 0,
            final(self).streaming_buffer@.len() == 0,
            final(self).streaming_tool_output@.len() == 0,
            !final(self).streaming,
            final(self).input == old(self).input,
            final(self).slash_menu == old(self).slash_menu,
            final(self).input_history == old(self).input_history,
            same_view(*final(self), *old(self)),
    {
        self.streaming_buffer = String::new();
        self.thinking_buffer = String::new();
        self.streaming_tool_output = String::new();
        self.streaming = false;
    }

    /// Stops the stream (`/cancel`), keeping what arrived as entries: the next
    /// request sees how far the answer got.
    pub fn cancel_stream(&mut self)
        ensures
            entries_view(final(self).entries@) == entries_view(old(self).entries@) + (if old(
                self,
            ).thinking_buffer@.len() > 0 {
                seq![EntryV::Thinking(old(self).thinking_buffer@)]
            } else {
                Seq::empty()
            }) + (if old(self).streaming_buffer@.len() > 0 {
                seq![EntryV::Assistant(old(self).streaming_buffer@)]
            } else {
                Seq::empty()
            }),
            final(self).thinking_buffer@.len() == 0,
            final(self).streaming_buffer@.len() == 0,
            final(self).streaming_tool_output@.len() == 0,
            !final(self).streaming,
            final(self).input == old(self).input,
            final(self).slash_menu == old(self).slash_menu,
            final(self).input_history == old(self).input_history,
            same_view(*final(self), *old(self)),
    {
        self.flush_streaming_to_assistant();
        self.streaming_tool_output = String::new();
        self.streaming = false;
    }

    /// Empties the transcript (`/clear`), keeping the streaming flag.
    pub fn clear(&mut self)
        ensures
            final(self).entries@.len() == 0,
            final(self).streaming_buffer@.len() == 0,
            final(self).thinking_buffer@.len() == 0,
            final(self).streaming_tool_output@.len() == 0,
            final(self).scroll_y == SCROLL_FOLLOW,
            menu_closed(final(self).slash_menu),
            final(self).expanded_tool_results@ == Set::<usize>::empty(),
            final(self).streaming == old(self).streaming,
            final(self).input == old(self).input,
            final(self).input_history == old(self).input_history,
            final(self).cached_history@ == old(self).cached_history@,
            final(self).cached_entries_len == old(self).cached_entries_len,
    {
        self.entries = Vec::new();
        self.streaming_buffer = String::new();
        self.thinking_buffer = String::new();
        self.streaming_tool_output = String::new();
        self.scroll_to_bottom();
        self.slash_menu.close();
        self.expanded_tool_results.clear();
    }

    /// The transcript as messages for the next request (see `spec_history`).
    pub fn history(&self) -> (r: Vec<Message>)
        ensures
            messages_view(r@) == spec_history(entries_view(self.entries@)),
    {
        entries_to_messages(&self.entries)
    }
}

/// The transcript `entries` as messages for a request (see `spec_history`):
/// tool calls join the assistant message before them and are followed by
/// their results; calls without a result are left out; reasoning and system
/// entries are not sent.
pub fn entries_to_messages(entries: &Vec<ChatEntry>) -> (r: Vec<Message>)
    ensures
        messages_view(r@) == spec_history(entries_view(entries@)),
{
    let ghost all = entries_view(entries@);
    let mut out: Vec<Message> = Vec::new();
    let mut pending: Option<Message> = None;
    let mut i: usize = 0;
    assert(all.take(0) =~= Seq::<EntryV>::empty());
    assert(messages_view(out@) =~= Seq::<MessageV>::empty());
    while i < entries.len()
        invariant
            i <= entries@.len(),
            all == entries_view(entries@),
            hist_fold(all.take(i as int), all) == (HistState {
                out: messages_view(out@),
                pending: pending_view(pending),
            }),
        decreases entries@.len() - i,
    {
        assert(all.take(i + 1).drop_last() =~= all.take(i as int));
        assert(all.take(i + 1).last() == entries@[i as int]@);
        let ghost st = HistState { out: messages_view(out@), pending: pending_view(pending) };
        match &entries[i] {
            ChatEntry::User(c) => {
                push_flushed(&mut out, pending);
                pending = None;
                let ghost before = out@;
                out.push(Message::user(copy_string(c)));
                assert(messages_view(out@) =~= messages_view(before).push(user_msg(c@)));
            },
            ChatEntry::Assistant(c) => {
                push_flushed(&mut out, pending);
                pending = Some(Message::assistant(copy_string(c)));
            },
            ChatEntry::ToolCall { id, name, arguments } => {
                if has_tool_result(entries, id) {
                    let mut m = match pending {
                        Some(m) => m,
                        None => Message::assistant(String::new()),
                    };
                    let ghost mv = m@;
                    let ghost calls = m.tool_calls@;
                    m.tool_calls.push(copy_call(id, name, arguments));
                    assert(m.tool_calls@.map_values(|t: ToolCall| t@) =~= calls.map_values(
                        |t: ToolCall| t@,
                    ).push((id@, name@, arguments@)));
                    pending = Some(m);
                }
            },
            ChatEntry::ToolResult { id, output, .. } => {
                push_flushed(&mut out, pending);
                pending = None;
                let ghost before = out@;
                out.push(Message::tool(copy_string(id), copy_string(output)));
                assert(messages_view(out@) =~= messages_view(before).push(tool_msg(id@, output@)));
            },
            _ => {},
        }
        i = i + 1;
    }
    assert(all.take(entries@.len() as int) =~= all);
    push_flushed(&mut out, pending);
    out
}

} // verus!
