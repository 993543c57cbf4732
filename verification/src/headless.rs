//! Headless runs (`cyber run`): one agent task without the terminal UI.
//!
//! The application drives the agent and hands each event to `HeadlessRun::step`,
//! which gathers the answer and the tool calls and says what to echo: in text
//! mode answer tokens go to standard output as they come, reasoning and
//! tool/error notes to standard error. Afterwards `session_entries` gives the
//! transcript entries to append to the session.
use vstd::prelude::*;

use crate::chat::entry::{entries_view, ChatEntry, EntryV};
use crate::chat::wrap::copy_string;
use crate::config::{Config, ConfigV};
use crate::strmap::{assoc_insert, Assoc, StringMap};
use crate::text::{chars_eq, join, push_str, str_chars, trim, trim_bounds};

verus! {

broadcast use vstd::string::group_string_axioms;

/// The arguments of a headless run (`cyber run`).
#[derive(Debug, Clone)]
pub struct HeadlessArgs {
    /// The task (the user prompt).
    pub prompt: String,
    /// Output format: `text` or `json`.
    pub format: String,
    /// The session to continue (ignored with `new`).
    pub session: Option<String>,
    /// Start a new session.
    pub new: bool,
    /// Limit of tool-call steps (overrides the configuration).
    pub max_steps: Option<u32>,
    /// Thinking intensity (overrides the configuration).
    pub think: Option<String>,
    /// Provider name (overrides the default provider).
    pub provider: Option<String>,
    /// Model id (overrides the provider's model).
    pub model: Option<String>,
}

/// One tool call of a run, with its result once it arrived.
#[derive(Debug)]
pub struct ToolCallRecord {
    pub name: String,
    pub arguments: String,
    pub output: String,
    pub is_error: bool,
    /// The call id, by which the result is matched.
    pub id: String,
}

/// Abstract record: id, name, arguments, output, error flag.
pub type RecordV = (Seq<char>, Seq<char>, Seq<char>, Seq<char>, bool);

impl View for ToolCallRecord {
    type V = RecordV;

    open spec fn view(&self) -> RecordV {
        (self.id@, self.name@, self.arguments@, self.output@, self.is_error)
    }
}

/// The abstract value of a list of records.
pub open spec fn records_view(v: Seq<ToolCallRecord>) -> Seq<RecordV> {
    v.map_values(|r: ToolCallRecord| r@)
}

/// The result of a headless run.
#[derive(Debug)]
pub struct HeadlessOutcome {
    /// The session used (resumed or new).
    pub session_id: String,
    /// The final answer (markdown).
    pub answer: String,
    /// The tool calls, in order.
    pub tool_calls: Vec<ToolCallRecord>,
    /// Why the run failed (`None` on success).
    pub error: Option<String>,
}

/// The outcome of a run that failed before it started: no session, no
/// answer, no tool call, and the message.
pub fn err_outcome(msg: String) -> (o: HeadlessOutcome)
    ensures
        o.session_id@.len() == 0,
        o.answer@.len() == 0,
        o.tool_calls@.len() == 0,
        o.error matches Some(e) && e@ == msg@,
{
    HeadlessOutcome { session_id: String::new(), answer: String::new(), tool_calls: Vec::new(), error: Some(msg) }
}

/// The session a run uses: a fresh one with `new`, else the named one, else
/// the current one.
pub fn resolve_session(new: bool, session: Option<String>, current: String, fresh_id: String) -> (id: String)
    ensures
        new ==> id@ == fresh_id@,
        !new && session is Some ==> id@ == session->0@,
        !new && session is None ==> id@ == current@,
{
    if new {
        fresh_id
    } else if let Some(sid) = session {
        sid
    } else {
        current
    }
}

/// What the agent reports during a run.
#[derive(Debug)]
pub enum AgentEvent {
    Token(String),
    Reasoning(String),
    ToolCall { id: String, name: String, arguments: String },
    ToolResult { id: String, name: String, output: String, is_error: bool },
    Error(String),
    Done,
    /// Any other report; it is ignored.
    Other,
}

/// What to do after an event: stop reading, and text to echo.
#[derive(Debug)]
pub struct Echo {
    pub stop: bool,
    pub stdout: Option<String>,
    pub stderr: Option<String>,
}

/// Index of the first record with call id `id`.
pub open spec fn first_with_id(rs: Seq<RecordV>, id: Seq<char>) -> Option<int>
    decreases rs.len(),
{
    if rs.len() == 0 {
        None
    } else {
        match first_with_id(rs.drop_last(), id) {
            Some(k) => Some(k),
            None => if rs.last().0 == id {
                Some(rs.len() - 1)
            } else {
                None
            },
        }
    }
}

/// The records after the result `(id, name, output, is_error)`: it fills the
/// first call with that id, or is added as a call without arguments.
pub open spec fn with_result(rs: Seq<RecordV>, id: Seq<char>, name: Seq<char>, output: Seq<char>, is_error: bool) -> Seq<RecordV> {
    match first_with_id(rs, id) {
        Some(k) => rs.update(k, (rs[k].0, rs[k].1, rs[k].2, output, is_error)),
        None => rs.push((id, name, Seq::empty(), output, is_error)),
    }
}

/// The text echoed to standard error for an agent error `m`.
pub open spec fn error_note(m: Seq<char>) -> Seq<char> {
    seq!['\n'] + "[error] "@ + m + seq!['\n']
}

/// What a run gathers while the agent works.
#[derive(Debug)]
pub struct HeadlessRun {
    pub answer: String,
    pub tool_calls: Vec<ToolCallRecord>,
    pub error: Option<String>,
}

fn first_record_with_id(rs: &Vec<ToolCallRecord>, id: &String) -> (r: Option<usize>)
    ensures
        r is None <==> first_with_id(records_view(rs@), id@) is None,
        r matches Some(k) ==> first_with_id(records_view(rs@), id@) == Some(k as int) && k < rs@.len(),
{
    let idv = str_chars(id.as_str());
    let ghost v = records_view(rs@);
    let mut k: usize = 0;
    assert(v.take(0) =~= Seq::<RecordV>::empty());
    while k < rs.len()
        invariant
            k <= rs@.len(),
            v == records_view(rs@),
            idv@ == id@,
            first_with_id(v.take(k as int), id@) is None,
        decreases rs@.len() - k,
    {
        let rv = str_chars(rs[k].id.as_str());
        assert(v.take(k + 1).drop_last() =~= v.take(k as int));
        assert(v.take(k + 1).last() == rs@[k as int]@);
        if chars_eq(&rv, &idv) {
            proof {
                lemma_first_with_id_prefix(v, id@, k as int + 1);
            }
            return Some(k);
        }
        k = k + 1;
    }
    assert(v.take(rs@.len() as int) =~= v);
    None
}

proof fn lemma_first_with_id_prefix(v: Seq<RecordV>, id: Seq<char>, n: int)
    requires
        0 < n <= v.len(),
        first_with_id(v.take(n), id) == Some(n - 1),
    ensures
        first_with_id(v, id) == Some(n - 1),
    decreases v.len(),
{
    if v.len() == n {
        assert(v.take(n) =~= v);
    } else {
        assert(v.drop_last().take(n) =~= v.take(n));
        lemma_first_with_id_prefix(v.drop_last(), id, n);
    }
}

proof fn lemma_first_with_id_in_range(v: Seq<RecordV>, id: Seq<char>)
    ensures
        first_with_id(v, id) matches Some(k) ==> 0 <= k < v.len() && v[k].0 == id,
    decreases v.len(),
{
    if v.len() > 0 {
        lemma_first_with_id_in_range(v.drop_last(), id);
    }
}

impl HeadlessRun {
    /// Nothing gathered yet.
    pub fn new() -> (r: HeadlessRun)
        ensures
            r.answer@.len() == 0,
            r.tool_calls@.len() == 0,
            r.error is None,
    {
        HeadlessRun { answer: String::new(), tool_calls: Vec::new(), error: None }
    }

    /// Takes one event. Tokens extend the answer; a tool call adds a record;
    /// a result fills the record of its call (or adds one); an error is kept;
    /// `Done` stops the run. In text mode tokens are echoed to standard
    /// output, reasoning to standard error, a line break after each tool
    /// result and the error message to standard error.
    pub fn step(&mut self, ev: AgentEvent, text_mode: bool) -> (e: Echo)
        ensures
            match ev {
                AgentEvent::Token(t) => {
                    &&& final(self).answer@ == old(self).answer@ + t@
                    &&& final(self).tool_calls@ == old(self).tool_calls@
                    &&& final(self).error == old(self).error
                    &&& !e.stop && e.stderr is None
                    &&& (if text_mode { e.stdout matches Some(o) && o@ == t@ } else { e.stdout is None })
                },
                AgentEvent::Reasoning(t) => {
                    &&& final(self).answer@ == old(self).answer@
                    &&& final(self).tool_calls@ == old(self).tool_calls@
                    &&& final(self).error == old(self).error
                    &&& !e.stop && e.stdout is None
                    &&& (if text_mode { e.stderr matches Some(o) && o@ == t@ } else { e.stderr is None })
                },
                AgentEvent::ToolCall { id, name, arguments } => {
                    &&& final(self).answer@ == old(self).answer@
                    &&& records_view(final(self).tool_calls@) == records_view(old(self).tool_calls@).push(
                        (id@, name@, arguments@, Seq::empty(), false),
                    )
                    &&& final(self).error == old(self).error
                    &&& !e.stop && e.stdout is None && e.stderr is None
                },
                AgentEvent::ToolResult { id, name, output, is_error } => {
                    &&& final(self).answer@ == old(self).answer@
                    &&& records_view(final(self).tool_calls@) == with_result(
                        records_view(old(self).tool_calls@),
                        id@,
                        name@,
                        output@,
                        is_error,
                    )
                    &&& final(self).error == old(self).error
                    &&& !e.stop && e.stdout is None
                    &&& (if text_mode { e.stderr matches Some(o) && o@ == seq!['\n'] } else { e.stderr is None })
                },
                AgentEvent::Error(m) => {
                    &&& final(self).answer@ == old(self).answer@
                    &&& final(self).tool_calls@ == old(self).tool_calls@
                    &&& final(self).error matches Some(x) && x@ == m@
                    &&& !e.stop && e.stdout is None
                    &&& (if text_mode { e.stderr matches Some(o) && o@ == error_note(m@) } else { e.stderr is None })
                },
                AgentEvent::Done => {
                    &&& final(self).answer@ == old(self).answer@
                    &&& final(self).tool_calls@ == old(self).tool_calls@
                    &&& final(self).error == old(self).error
                    &&& e.stop && e.stdout is None && e.stderr is None
                },
                AgentEvent::Other => {
                    &&& final(self).answer@ == old(self).answer@
                    &&& final(self).tool_calls@ == old(self).tool_calls@
                    &&& final(self).error == old(self).error
                    &&& !e.stop && e.stdout is None && e.stderr is None
                },
            },
    {
        match ev {
            AgentEvent::Token(t) => {
                push_str(&mut self.answer, t.as_str());
                let out = if text_mode {
                    Some(t)
                } else {
                    None
                };
                Echo { stop: false, stdout: out, stderr: None }
            },
            AgentEvent::Reasoning(t) => {
                let err = if text_mode {
                    Some(t)
                } else {
                    None
                };
                Echo { stop: false, stdout: None, stderr: err }
            },
            AgentEvent::ToolCall { id, name, arguments } => {
                let ghost before = self.tool_calls@;
                let ghost rec = (id@, name@, arguments@, Seq::<char>::empty(), false);
                self.tool_calls.push(
                    ToolCallRecord { id, name, arguments, output: String::new(), is_error: false },
                );
                assert(records_view(self.tool_calls@) =~= records_view(before).push(rec));
                Echo { stop: false, stdout: None, stderr: None }
            },
            AgentEvent::ToolResult { id, name, output, is_error } => {
                let ghost before = records_view(self.tool_calls@);
                let ghost want = with_result(before, id@, name@, output@, is_error);
                match first_record_with_id(&self.tool_calls, &id) {
                    Some(k) => {
                        proof {
                            lemma_first_with_id_in_range(before, id@);
                        }
                        let ghost ov = output@;
                        assert(before[k as int] == self.tool_calls@[k as int]@);
                        let rec = ToolCallRecord {
                            id: copy_string(&self.tool_calls[k].id),
                            name: copy_string(&self.tool_calls[k].name),
                            arguments: copy_string(&self.tool_calls[k].arguments),
                            output,
                            is_error,
                        };
                        assert(rec@ == (before[k as int].0, before[k as int].1, before[k as int].2, ov, is_error));
                        self.tool_calls.set(k, rec);
                        assert(records_view(self.tool_calls@) =~= before.update(
                            k as int,
                            (before[k as int].0, before[k as int].1, before[k as int].2, ov, is_error),
                        ));
                        assert(records_view(self.tool_calls@) =~= want);
                    },
                    None => {
                        let ghost rec = (id@, name@, Seq::<char>::empty(), output@, is_error);
                        self.tool_calls.push(
                            ToolCallRecord { id, name, arguments: String::new(), output, is_error },
                        );
                        assert(records_view(self.tool_calls@) =~= want);
                    },
                }
                let err = if text_mode {
                    let mut s = String::new();
                    crate::text::push_char(&mut s, '\n');
                    Some(s)
                } else {
                    None
                };
                Echo { stop: false, stdout: None, stderr: err }
            },
            AgentEvent::Error(m) => {
                let err = if text_mode {
                    let mut s = String::new();
                    crate::text::push_char(&mut s, '\n');
                    push_str(&mut s, "[error] ");
                    push_str(&mut s, m.as_str());
                    crate::text::push_char(&mut s, '\n');
                    assert(s@ =~= error_note(m@));
                    Some(s)
                } else {
                    None
                };
                self.error = Some(m);
                Echo { stop: false, stdout: None, stderr: err }
            },
            AgentEvent::Done => Echo { stop: true, stdout: None, stderr: None },
            AgentEvent::Other => Echo { stop: false, stdout: None, stderr: None },
        }
    }
}

/// Each record as its call entry followed by its result entry.
pub open spec fn call_pairs(rs: Seq<RecordV>) -> Seq<EntryV>
    decreases rs.len(),
{
    if rs.len() == 0 {
        Seq::empty()
    } else {
        let r = rs.last();
        call_pairs(rs.drop_last()) + seq![
            EntryV::ToolCall { id: r.0, name: r.1, arguments: r.2 },
            EntryV::ToolResult { id: r.0, name: r.1, output: r.3, is_error: r.4 },
        ]
    }
}

/// The transcript entries of one run: the prompt, each tool call followed by
/// its result, and the answer unless it is blank.
pub open spec fn spec_session_entries(prompt: Seq<char>, rs: Seq<RecordV>, answer: Seq<char>) -> Seq<EntryV> {
    let tail = if trim(answer).len() > 0 {
        seq![EntryV::Assistant(answer)]
    } else {
        Seq::empty()
    };
    seq![EntryV::User(prompt)] + call_pairs(rs) + tail
}

proof fn lemma_call_pairs_at(rs: Seq<RecordV>)
    ensures
        call_pairs(rs).len() == 2 * rs.len(),
        forall|j: int|
            0 <= j < rs.len() ==> call_pairs(rs)[2 * j] == (EntryV::ToolCall {
                id: rs[j].0,
                name: rs[j].1,
                arguments: rs[j].2,
            }) && call_pairs(rs)[2 * j + 1] == (EntryV::ToolResult {
                id: rs[j].0,
                name: rs[j].1,
                output: rs[j].3,
                is_error: rs[j].4,
            }),
    decreases rs.len(),
{
    if rs.len() > 0 {
        lemma_call_pairs_at(rs.drop_last());
        let pre = call_pairs(rs.drop_last());
        assert forall|j: int| 0 <= j < rs.len() implies call_pairs(rs)[2 * j] == (EntryV::ToolCall {
            id: rs[j].0,
            name: rs[j].1,
            arguments: rs[j].2,
        }) && call_pairs(rs)[2 * j + 1] == (EntryV::ToolResult {
            id: rs[j].0,
            name: rs[j].1,
            output: rs[j].3,
            is_error: rs[j].4,
        }) by {
            if j < rs.len() - 1 {
                assert(rs.drop_last()[j] == rs[j]);
                assert(call_pairs(rs)[2 * j] == pre[2 * j]);
                assert(call_pairs(rs)[2 * j + 1] == pre[2 * j + 1]);
            }
        }
    }
}

/// The session of a run starts with the prompt as a user entry; then, for
/// each tool-call record in order, a call entry with the record's id, name
/// and arguments and a result entry with its id, name, output and error
/// flag unchanged; then the answer, when it is not blank, and nothing else.
pub proof fn lemma_session_entries_keep_records(prompt: Seq<char>, rs: Seq<RecordV>, answer: Seq<char>)
    ensures
        ({
            let es = spec_session_entries(prompt, rs, answer);
            &&& es.len() == 1 + 2 * rs.len() + (if trim(answer).len() > 0 { 1int } else { 0int })
            &&& es[0] == EntryV::User(prompt)
            &&& forall|j: int|
                0 <= j < rs.len() ==> es[1 + 2 * j] == (EntryV::ToolCall {
                    id: rs[j].0,
                    name: rs[j].1,
                    arguments: rs[j].2,
                }) && es[2 + 2 * j] == (EntryV::ToolResult {
                    id: rs[j].0,
                    name: rs[j].1,
                    output: rs[j].3,
                    is_error: rs[j].4,
                })
            &&& trim(answer).len() > 0 ==> es.last() == EntryV::Assistant(answer)
        }),
{
    lemma_call_pairs_at(rs);
    let es = spec_session_entries(prompt, rs, answer);
    let cp = call_pairs(rs);
    assert forall|j: int| 0 <= j < rs.len() implies es[1 + 2 * j] == (EntryV::ToolCall {
        id: rs[j].0,
        name: rs[j].1,
        arguments: rs[j].2,
    }) && es[2 + 2 * j] == (EntryV::ToolResult {
        id: rs[j].0,
        name: rs[j].1,
        output: rs[j].3,
        is_error: rs[j].4,
    }) by {
        assert(es[1 + 2 * j] == cp[2 * j]);
        assert(es[2 + 2 * j] == cp[2 * j + 1]);
    }
}

/// The entries a run appends to its session (see `spec_session_entries`).
pub fn session_entries(prompt: String, tool_calls: &Vec<ToolCallRecord>, answer: &String) -> (r: Vec<ChatEntry>)
    ensures
        entries_view(r@) == spec_session_entries(prompt@, records_view(tool_calls@), answer@),
{
    let ghost rs = records_view(tool_calls@);
    let ghost p = prompt@;
    let mut out: Vec<ChatEntry> = Vec::new();
    out.push(ChatEntry::User(prompt));
    let mut i: usize = 0;
    assert(rs.take(0) =~= Seq::<RecordV>::empty());
    assert(entries_view(out@) =~= seq![EntryV::User(p)] + call_pairs(rs.take(0)));
    while i < tool_calls.len()
        invariant
            i <= tool_calls@.len(),
            rs == records_view(tool_calls@),
            entries_view(out@) == seq![EntryV::User(p)] + call_pairs(rs.take(i as int)),
        decreases tool_calls@.len() - i,
    {
        let tc = &tool_calls[i];
        let ghost before = entries_view(out@);
        let ghost e1 = EntryV::ToolCall { id: tc.id@, name: tc.name@, arguments: tc.arguments@ };
        let ghost e2 = EntryV::ToolResult { id: tc.id@, name: tc.name@, output: tc.output@, is_error: tc.is_error };
        out.push(ChatEntry::ToolCall {
            id: copy_string(&tc.id),
            name: copy_string(&tc.name),
            arguments: copy_string(&tc.arguments),
        });
        out.push(ChatEntry::ToolResult {
            id: copy_string(&tc.id),
            name: copy_string(&tc.name),
            output: copy_string(&tc.output),
            is_error: tc.is_error,
        });
        assert(entries_view(out@) =~= before.push(e1).push(e2));
        assert(rs.take(i + 1).drop_last() =~= rs.take(i as int));
        assert(rs.take(i + 1).last() == tc@);
        assert(entries_view(out@) =~= seq![EntryV::User(p)] + call_pairs(rs.take(i + 1)));
        i = i + 1;
    }
    assert(rs.take(tool_calls@.len() as int) =~= rs);
    let av = str_chars(answer.as_str());
    let (a, b) = trim_bounds(&av);
    if a < b {
        let ghost before = entries_view(out@);
        out.push(ChatEntry::Assistant(copy_string(answer)));
        assert(entries_view(out@) =~= before.push(EntryV::Assistant(answer@)));
    }
    assert(entries_view(out@) =~= spec_session_entries(p, rs, answer@));
    out
}

/// The provider names sorted, each once.
pub open spec fn sorted_names(ns: Seq<Seq<char>>) -> Seq<Seq<char>> {
    names_map(ns).map_values(|e: (Seq<char>, Seq<char>)| e.0)
}

/// The names entered one by one into a sorted map.
pub open spec fn names_map(ns: Seq<Seq<char>>) -> Assoc
    decreases ns.len(),
{
    if ns.len() == 0 {
        Seq::empty()
    } else {
        assoc_insert(names_map(ns.drop_last()), ns.last(), Seq::empty())
    }
}

/// The message for an unknown provider `p`, listing the known ones sorted.
pub open spec fn unknown_provider_message(p: Seq<char>, ns: Seq<Seq<char>>) -> Seq<char> {
    "provider '"@ + p + "' 不存在（可用："@ + join(sorted_names(ns), ", "@) + "）"@
}

/// The names sorted, each once.
pub fn sorted_name_list(names: &Vec<String>) -> (r: Vec<String>)
    ensures
        r@.map_values(|s: String| s@) == sorted_names(names@.map_values(|s: String| s@)),
{
    let ghost ns = names@.map_values(|s: String| s@);
    let mut m = StringMap::new();
    let mut j: usize = 0;
    assert(ns.take(0) =~= Seq::<Seq<char>>::empty());
    while j < names.len()
        invariant
            j <= names@.len(),
            ns == names@.map_values(|s: String| s@),
            m.wf(),
            m@ == names_map(ns.take(j as int)),
        decreases names@.len() - j,
    {
        m.insert(copy_string(&names[j]), String::new());
        assert(ns.take(j + 1).drop_last() =~= ns.take(j as int));
        j = j + 1;
    }
    assert(ns.take(names@.len() as int) =~= ns);
    let ghost keys = sorted_names(ns);
    let mut out: Vec<String> = Vec::new();
    let mut k: usize = 0;
    let n = m.len();
    while k < n
        invariant
            k <= n,
            n == m@.len(),
            m.wf(),
            m@ == names_map(ns),
            keys == sorted_names(ns),
            keys.len() == n,
            out@.map_values(|s: String| s@) == keys.take(k as int),
        decreases n - k,
    {
        let (key, _) = m.entry(k);
        assert(keys[k as int] == m@[k as int].0);
        let ghost before = out@;
        out.push(copy_string(key));
        assert(out@.map_values(|s: String| s@) =~= before.map_values(|s: String| s@).push(keys[k as int]));
        assert(keys.take(k + 1) =~= keys.take(k as int).push(keys[k as int]));
        k = k + 1;
    }
    assert(keys.take(n as int) =~= keys);
    out
}

/// Checks that provider `p` is one of `names` (the configured providers,
/// each named once). If not, the error lists the names in sorted order.
pub fn check_provider(p: &str, names: &Vec<String>) -> (r: Result<(), String>)
    requires
        forall|i: int, j: int| 0 <= i < j < names@.len() ==> names@[i]@ != names@[j]@,
    ensures
        names@.map_values(|s: String| s@).contains(p@) ==> r is Ok,
        !names@.map_values(|s: String| s@).contains(p@) ==> (r matches Err(m) && m@
            == unknown_provider_message(p@, names@.map_values(|s: String| s@))),
{
    let ghost ns = names@.map_values(|s: String| s@);
    let pv = str_chars(p);
    let mut i: usize = 0;
    while i < names.len()
        invariant
            i <= names@.len(),
            ns == names@.map_values(|s: String| s@),
            pv@ == p@,
            forall|k: int| 0 <= k < i ==> ns[k] != p@,
        decreases names@.len() - i,
    {
        let nv = str_chars(names[i].as_str());
        if chars_eq(&nv, &pv) {
            assert(ns[i as int] == p@);
            return Ok(());
        }
        i = i + 1;
    }
    assert(!ns.contains(p@));
    let sorted = sorted_name_list(names);
    let ghost keys = sorted_names(ns);
    let mut s = String::new();
    push_str(&mut s, "provider '");
    push_str(&mut s, p);
    push_str(&mut s, "' 不存在（可用：");
    let ghost head = s@;
    let mut k: usize = 0;
    let n = sorted.len();
    while k < n
        invariant
            k <= n,
            n == sorted@.len(),
            sorted@.map_values(|s: String| s@) == keys,
            keys == sorted_names(ns),
            s@ == head + join(keys.take(k as int), ", "@),
        decreases n - k,
    {
        assert(keys[k as int] == sorted@[k as int]@);
        if k > 0 {
            push_str(&mut s, ", ");
        }
        push_str(&mut s, sorted[k].as_str());
        proof {
            let t = keys.take(k + 1);
            assert(t.drop_last() =~= keys.take(k as int));
            if k == 0 {
                assert(t =~= seq![keys[0]]);
                assert(join(keys.take(0), ", "@) =~= Seq::<char>::empty());
            }
        }
        assert(s@ =~= head + join(keys.take(k + 1), ", "@));
        k = k + 1;
    }
    assert(keys.take(n as int) =~= keys);
    push_str(&mut s, "）");
    assert(s@ =~= unknown_provider_message(p@, ns));
    Err(s)
}

/// The configuration of a run after the options: `--max-steps` replaces
/// the step limit and `--provider` the default provider.
pub open spec fn overridden(c: ConfigV, max_steps: Option<u32>, provider: Option<Seq<char>>) -> ConfigV {
    let c1 = match max_steps {
        Some(m) => ConfigV { max_steps: m as u64, ..c },
        None => c,
    };
    match provider {
        Some(p) => ConfigV { default_provider: p, ..c1 },
        None => c1,
    }
}

/// Applies the run's options to `config` (see `overridden`); `names` are
/// the configured providers. A `--provider` that names none of them fails
/// with the message `check_provider` gives and leaves `config` as it was.
pub fn apply_overrides(config: &mut Config, args: &HeadlessArgs, names: &Vec<String>) -> (r: Result<(), String>)
    requires
        forall|i: int, j: int| 0 <= i < j < names@.len() ==> names@[i]@ != names@[j]@,
    ensures
        match args.provider {
            Some(p) => if names@.map_values(|s: String| s@).contains(p@) {
                r is Ok && final(config)@ == overridden(old(config)@, args.max_steps, Some(p@))
            } else {
                r matches Err(m) && m@ == unknown_provider_message(p@, names@.map_values(|s: String| s@))
                    && final(config)@ == old(config)@
            },
            None => r is Ok && final(config)@ == overridden(old(config)@, args.max_steps, None),
        },
{
    if let Some(p) = &args.provider {
        if let Err(m) = check_provider(p.as_str(), names) {
            return Err(m);
        }
    }
    if let Some(ms) = args.max_steps {
        config.agent.max_steps = ms as u64;
    }
    if let Some(p) = &args.provider {
        config.agent.default_provider = copy_string(p);
    }
    Ok(())
}

} // verus!
