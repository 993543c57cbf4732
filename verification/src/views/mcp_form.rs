//! MCP server form: add or edit one MCP server, and the text formats of its
//! multi-line fields.
//!
//! Fields, in focus order: name, transport (cycled with Left/Right), command,
//! args, env (stdio only), url, headers (http/sse only), timeout, then the
//! Save and Cancel buttons. Up and Down skip the fields hidden by the
//! transport. Text fields are edited in the text box as in the other forms:
//! Enter commits, Esc drops, other keys belong to the text box widget.
//!
//! `args` holds one argument per line; `env` and `headers` hold one
//! `KEY=VALUE` pair per line. Blank lines are ignored, keys and values are
//! trimmed, the first `=` separates key from value, and a later line with the
//! same key wins.
use vstd::prelude::*;

use crate::chat::input::{input_text, insert_text, InputBox};
use crate::chat::wrap::copy_string;
use crate::event::{KeyCode, KeyEvent};
use crate::views::ctf_edit_form::{line_summary, summarize_lines};
use crate::num::{decimal, parse_u64, parse_u64_spec, push_decimal, u64_to_string};
use crate::chat::input::lemma_trim_ends;
use crate::order::lex_lt;
use crate::strmap::{assoc_insert, count_less, lemma_count_less_split, sorted_keys, Assoc, StringMap};
use crate::text::{
    chars_range, find_char, has_char, index_of, is_ws, join, lemma_index_of_after,
    lemma_index_of_bound, lemma_lines_of_joined, lemma_trim_commute, lemma_trim_end_concat, lemma_trim_idem, lines, push_chars, push_str, str_chars, str_lines,
    string_from, string_from_range, strip_cr, trim, trim_bounds, trim_end, trim_start, trim_str,
};

verus! {

broadcast use vstd::string::group_string_axioms;

/// How one line of a `KEY=VALUE` field reads.
pub enum MapLine {
    /// Blank line.
    Skip,
    /// A pair, key and value trimmed.
    Entry(Seq<char>, Seq<char>),
    /// A non-blank line without `=` (its trimmed text).
    MissingEq(Seq<char>),
    /// The key before `=` is blank.
    EmptyKey,
}

pub open spec fn classify_map_line(l: Seq<char>) -> MapLine {
    let t = trim(l);
    let e = index_of(t, '=');
    if t.len() == 0 {
        MapLine::Skip
    } else if e == t.len() {
        MapLine::MissingEq(t)
    } else if trim(t.take(e as int)).len() == 0 {
        MapLine::EmptyKey
    } else {
        MapLine::Entry(trim(t.take(e as int)), trim(t.skip(e as int + 1)))
    }
}

/// Error text for line number `n` (from 1) that lacks `=`.
pub open spec fn missing_eq_message(n: nat, t: Seq<char>) -> Seq<char> {
    "第 "@ + decimal(n) + " 行缺少 '=': "@ + t
}

/// Error text for line number `n` (from 1) whose key is blank.
pub open spec fn empty_key_message(n: nat) -> Seq<char> {
    "第 "@ + decimal(n) + " 行 KEY 为空"@
}

/// Reads the lines in order into a sorted association list; the first bad
/// line stops with its error text.
pub open spec fn parse_map_lines(ls: Seq<Seq<char>>) -> Result<Assoc, Seq<char>>
    decreases ls.len(),
{
    if ls.len() == 0 {
        Ok(Seq::empty())
    } else {
        match parse_map_lines(ls.drop_last()) {
            Err(e) => Err(e),
            Ok(m) => match classify_map_line(ls.last()) {
                MapLine::Skip => Ok(m),
                MapLine::Entry(k, v) => Ok(assoc_insert(m, k, v)),
                MapLine::MissingEq(t) => Err(missing_eq_message(ls.len(), t)),
                MapLine::EmptyKey => Err(empty_key_message(ls.len())),
            },
        }
    }
}

/// What `parse_map` returns for the field text `s`.
pub open spec fn spec_parse_map(s: Seq<char>) -> Result<Assoc, Seq<char>> {
    parse_map_lines(lines(s))
}

/// Once a prefix of the lines fails, all the lines fail with the same error.
pub proof fn lemma_parse_map_error_sticks(ls: Seq<Seq<char>>, i: int)
    requires
        0 <= i <= ls.len(),
        parse_map_lines(ls.take(i)) is Err,
    ensures
        parse_map_lines(ls) == parse_map_lines(ls.take(i)),
    decreases ls.len() - i,
{
    if i < ls.len() {
        assert(ls.take(i + 1).drop_last() =~= ls.take(i));
        lemma_parse_map_error_sticks(ls, i + 1);
    } else {
        assert(ls.take(i) =~= ls);
    }
}

/// A key that survives writing and reading back: non-empty, trimmed,
/// without `=` or a line break.
pub open spec fn clean_key(k: Seq<char>) -> bool {
    k.len() > 0 && trim(k) == k && !has_char(k, '=') && !has_char(k, '\n')
}

/// A value that survives writing and reading back: trimmed, without a line
/// break.
pub open spec fn clean_value(v: Seq<char>) -> bool {
    trim(v) == v && !has_char(v, '\n')
}

proof fn lemma_entry_line_reads_back(k: Seq<char>, v: Seq<char>)
    requires
        clean_key(k),
        clean_value(v),
    ensures
        classify_map_line(entry_line((k, v))) == MapLine::Entry(k, v),
        !has_char(entry_line((k, v)), '\n'),
        strip_cr(entry_line((k, v))) == entry_line((k, v)),
        entry_line((k, v)).len() > 0,
{
    reveal_strlit("=");
    let l = entry_line((k, v));
    let eq = "="@;
    assert(l =~= k + (eq + v));
    lemma_trim_ends(k);
    lemma_trim_ends(v);
    assert(!is_ws('='));
    assert(l[0] == k[0]);
    assert(l.last() == (if v.len() > 0 { v.last() } else { '=' }));
    assert(trim_start(l) == l);
    assert(trim_end(l) == l);
    assert(trim(l) == l);
    lemma_index_of_after(k, eq + v, '=');
    assert((eq + v)[0] == '=');
    assert(index_of(l, '=') == k.len());
    assert(l.take(k.len() as int) =~= k);
    assert(l.skip(k.len() as int + 1) =~= v);
    assert(!has_char(l, '\n')) by {
        if has_char(l, '\n') {
            let i = choose|i: int| 0 <= i < l.len() && l[i] == '\n';
            if i < k.len() {
                assert(k[i] == '\n');
            } else if i > k.len() {
                assert(v[i - k.len() - 1] == '\n');
            }
        }
    }
}

proof fn lemma_parse_entry_lines(m: Assoc)
    requires
        sorted_keys(m),
        forall|i: int| 0 <= i < m.len() ==> clean_key(#[trigger] m[i].0) && clean_value(m[i].1),
    ensures
        parse_map_lines(m.map_values(|p: (Seq<char>, Seq<char>)| entry_line(p))) == Ok::<Assoc, Seq<char>>(m),
    decreases m.len(),
{
    let ls = m.map_values(|p: (Seq<char>, Seq<char>)| entry_line(p));
    if m.len() == 0 {
        assert(ls.len() == 0);
        assert(Seq::<(Seq<char>, Seq<char>)>::empty() =~= m);
        return;
    }
    let init = m.drop_last();
    assert(sorted_keys(init));
    assert(forall|i: int| 0 <= i < init.len() ==> #[trigger] init[i] == m[i]);
    lemma_parse_entry_lines(init);
    assert(ls.drop_last() =~= init.map_values(|p: (Seq<char>, Seq<char>)| entry_line(p)));
    let (k, v) = m.last();
    assert(clean_key(m[m.len() - 1].0) && clean_value(m[m.len() - 1].1));
    lemma_entry_line_reads_back(k, v);
    assert(ls.last() == entry_line((k, v)));
    assert forall|j: int| 0 <= j < init.len() implies lex_lt(#[trigger] init[j].0, k) by {
        assert(lex_lt(m[j].0, m[m.len() - 1].0));
    }
    lemma_count_less_split(init, k, init.len() as int);
    assert(assoc_insert(init, k, v) =~= m);
}

/// Writing a map as `KEY=VALUE` lines and reading them back gives the map,
/// when its keys and values are clean.
pub proof fn lemma_parse_serialized(m: Assoc)
    requires
        sorted_keys(m),
        forall|i: int| 0 <= i < m.len() ==> clean_key(#[trigger] m[i].0) && clean_value(m[i].1),
    ensures
        spec_parse_map(spec_serialize_map(m)) == Ok::<Assoc, Seq<char>>(m),
{
    reveal_strlit("\n");
    let ls = m.map_values(|p: (Seq<char>, Seq<char>)| entry_line(p));
    lemma_parse_entry_lines(m);
    assert("\n"@ =~= seq!['\n']);
    if m.len() > 0 {
        assert forall|i: int| 0 <= i < ls.len() implies !has_char(#[trigger] ls[i], '\n') && strip_cr(ls[i]) == ls[i]
            && ls[i].len() > 0 by {
            assert(clean_key(m[i].0) && clean_value(m[i].1));
            lemma_entry_line_reads_back(m[i].0, m[i].1);
        }
        assert(ls.last() == ls[ls.len() - 1]);
        lemma_lines_of_joined(ls);
    } else {
        assert(ls =~= Seq::<Seq<char>>::empty());
        assert(join(ls, "\n"@) =~= Seq::<char>::empty());
        assert(crate::text::split_on(Seq::<char>::empty(), '\n') =~= seq![Seq::<char>::empty()]);
        assert(lines(Seq::<char>::empty()) =~= Seq::<Seq<char>>::empty());
    }
}

/// Parses a `KEY=VALUE` per line field into a map.
pub fn parse_map(s: &str) -> (r: Result<StringMap, String>)
    ensures
        match r {
            Ok(m) => m.wf() && spec_parse_map(s@) == Result::<Assoc, Seq<char>>::Ok(m@),
            Err(e) => spec_parse_map(s@) == Result::<Assoc, Seq<char>>::Err(e@),
        },
{
    let ls = str_lines(s);
    let ghost gl = lines(s@);
    let mut m = StringMap::new();
    let mut i: usize = 0;
    while i < ls.len()
        invariant
            i <= ls@.len(),
            gl == lines(s@),
            ls@.len() == gl.len(),
            forall|k: int| 0 <= k < ls@.len() ==> #[trigger] ls@[k]@ == gl[k],
            m.wf(),
            parse_map_lines(gl.take(i as int)) == Result::<Assoc, Seq<char>>::Ok(m@),
        decreases ls@.len() - i,
    {
        let line = &ls[i];
        assert(line@ == gl[i as int]);
        assert(gl.take(i + 1).drop_last() =~= gl.take(i as int));
        assert(gl.take(i + 1).last() == gl[i as int]);
        let (a, b) = trim_bounds(line);
        let t = chars_range(line, a, b);
        if t.len() == 0 {
            i = i + 1;
            continue;
        }
        let e = find_char(&t, '=');
        proof {
            lemma_index_of_bound(t@, '=');
        }
        if e == t.len() {
            let mut msg = String::new();
            push_str(&mut msg, "第 ");
            push_decimal(&mut msg, (i + 1) as u64);
            push_str(&mut msg, " 行缺少 '=': ");
            push_chars(&mut msg, &t);
            proof {
                lemma_parse_map_error_sticks(gl, i + 1);
            }
            return Err(msg);
        }
        let kraw = chars_range(&t, 0, e);
        let (ka, kb) = trim_bounds(&kraw);
        assert(kraw@ =~= t@.take(e as int));
        if ka == kb {
            let mut msg = String::new();
            push_str(&mut msg, "第 ");
            push_decimal(&mut msg, (i + 1) as u64);
            push_str(&mut msg, " 行 KEY 为空");
            proof {
                assert(kraw@.subrange(ka as int, kb as int).len() == 0);
                lemma_parse_map_error_sticks(gl, i + 1);
            }
            return Err(msg);
        }
        let vraw = chars_range(&t, e + 1, t.len());
        assert(vraw@ =~= t@.skip(e + 1));
        let (va, vb) = trim_bounds(&vraw);
        let key = string_from_range(&kraw, ka, kb);
        let val = string_from_range(&vraw, va, vb);
        m.insert(key, val);
        i = i + 1;
    }
    assert(gl.take(ls@.len() as int) =~= gl);
    Ok(m)
}

/// What `parse_lines` returns: the trimmed non-blank lines.
pub open spec fn spec_parse_lines(s: Seq<char>) -> Seq<Seq<char>> {
    lines(s).map_values(|l: Seq<char>| trim(l)).filter(|t: Seq<char>| t.len() > 0)
}

/// Splits a one-item-per-line field into its trimmed non-blank lines.
pub fn parse_lines(s: &str) -> (r: Vec<String>)
    ensures
        r@.map_values(|x: String| x@) == spec_parse_lines(s@),
{
    let ls = str_lines(s);
    let ghost gl = lines(s@);
    let ghost tl = gl.map_values(|l: Seq<char>| trim(l));
    let ghost pred = |t: Seq<char>| t.len() > 0;
    let mut out: Vec<String> = Vec::new();
    let mut i: usize = 0;
    while i < ls.len()
        invariant
            i <= ls@.len(),
            gl == lines(s@),
            tl == gl.map_values(|l: Seq<char>| trim(l)),
            pred == (|t: Seq<char>| t.len() > 0),
            ls@.len() == gl.len(),
            forall|k: int| 0 <= k < ls@.len() ==> #[trigger] ls@[k]@ == gl[k],
            out@.map_values(|x: String| x@) == tl.take(i as int).filter(pred),
        decreases ls@.len() - i,
    {
        let (a, b) = trim_bounds(&ls[i]);
        proof {
            reveal_with_fuel(Seq::<_>::filter, 1);
            assert(tl.take(i + 1).drop_last() =~= tl.take(i as int));
            assert(tl.take(i + 1).last() == trim(gl[i as int]));
        }
        if a < b {
            let t = string_from_range(&ls[i], a, b);
            let ghost before = out@;
            out.push(t);
            assert(out@.map_values(|x: String| x@) =~= before.map_values(|x: String| x@).push(
                t@,
            ));
        }
        i = i + 1;
    }
    assert(tl.take(ls@.len() as int) =~= tl);
    out
}

/// The text line of one entry: `KEY=VALUE`.
pub open spec fn entry_line(p: (Seq<char>, Seq<char>)) -> Seq<char> {
    p.0 + "="@ + p.1
}

/// What `serialize_map` returns: the entries as `KEY=VALUE` lines in key order.
pub open spec fn spec_serialize_map(m: Assoc) -> Seq<char> {
    join(m.map_values(|p: (Seq<char>, Seq<char>)| entry_line(p)), "\n"@)
}

/// Writes a map as `KEY=VALUE` lines, keys ascending.
pub fn serialize_map(map: &StringMap) -> (r: String)
    requires
        map.wf(),
    ensures
        r@ == spec_serialize_map(map@),
{
    let n = map.len();
    let ghost parts = map@.map_values(|p: (Seq<char>, Seq<char>)| entry_line(p));
    let mut out = String::new();
    let mut i: usize = 0;
    while i < n
        invariant
            n == map@.len(),
            map.wf(),
            i <= n,
            parts == map@.map_values(|p: (Seq<char>, Seq<char>)| entry_line(p)),
            out@ == join(parts.take(i as int), "\n"@),
        decreases n - i,
    {
        let (k, v) = map.entry(i);
        if i > 0 {
            push_str(&mut out, "\n");
        }
        push_str(&mut out, k.as_str());
        push_str(&mut out, "=");
        push_str(&mut out, v.as_str());
        proof {
            let t = parts.take(i + 1);
            assert(t.drop_last() =~= parts.take(i as int));
            assert(t.last() == entry_line(map@[i as int]));
            if i == 0 {
                assert(t.len() == 1);
                assert(out@ =~= t[0]);
            } else {
                assert(out@ =~= join(parts.take(i as int), "\n"@) + "\n"@ + t.last());
            }
        }
        i = i + 1;
    }
    assert(parts.take(n as int) =~= parts);
    out
}

// ---------------------------------------------------------------------------
// The form
// ---------------------------------------------------------------------------

/// How the client talks to an MCP server.
#[derive(Debug, Clone, Copy, PartialEq, Eq, Structural)]
pub enum McpTransport {
    Stdio,
    Http,
    Sse,
}

/// The transports in the order Left/Right cycles them.
pub open spec fn transport_at(i: int) -> McpTransport {
    if i == 0 {
        McpTransport::Stdio
    } else if i == 1 {
        McpTransport::Http
    } else {
        McpTransport::Sse
    }
}

/// The name shown for a transport.
pub open spec fn transport_label(t: McpTransport) -> Seq<char> {
    match t {
        McpTransport::Stdio => "stdio"@,
        McpTransport::Http => "http"@,
        McpTransport::Sse => "sse"@,
    }
}

impl McpTransport {
    /// The name shown for this transport.
    pub fn label(&self) -> (r: &'static str)
        ensures
            r@ == transport_label(*self),
    {
        match self {
            McpTransport::Stdio => "stdio",
            McpTransport::Http => "http",
            McpTransport::Sse => "sse",
        }
    }
}

/// The configuration of one MCP server.
#[derive(Debug)]
pub struct McpServerSpec {
    pub name: String,
    pub transport: McpTransport,
    /// Program to start (stdio).
    pub command: Option<String>,
    /// Its arguments (stdio).
    pub args: Vec<String>,
    /// Its environment (stdio).
    pub env: StringMap,
    /// Endpoint (http/sse).
    pub url: Option<String>,
    /// Request headers (http/sse).
    pub headers: StringMap,
    pub timeout_secs: u64,
}

/// Number of focusable fields.
pub const FIELD_COUNT: usize = 10;
/// Focus index of the transport field.
pub const IDX_TRANSPORT: usize = 1;
/// Focus index of the Save button.
pub const IDX_SAVE: usize = 8;
/// Focus index of the Cancel button.
pub const IDX_CANCEL: usize = 9;

/// What a key press asks of the application.
#[derive(Debug, Clone, Copy, PartialEq, Eq, Structural)]
pub enum McpFormAction {
    Nothing,
    Save,
    Cancel,
}

/// The form's state.
#[derive(Debug)]
pub struct McpFormState {
    pub name: String,
    /// Index of the transport (stdio, http, sse).
    pub transport_idx: usize,
    pub command: String,
    /// One argument per line.
    pub args: String,
    /// One `KEY=VALUE` per line.
    pub env: String,
    pub url: String,
    /// One `KEY=VALUE` per line.
    pub headers: String,
    pub timeout_secs: String,
    /// The edited server's name, `None` when adding.
    pub original_name: Option<String>,
    pub focused: usize,
    pub editing: bool,
    /// The text being edited.
    pub textarea: InputBox,
}

/// Whether field `idx` is shown for a stdio (or another) transport.
pub open spec fn field_visible(idx: int, stdio: bool) -> bool {
    if 2 <= idx <= 4 {
        stdio
    } else if idx == 5 || idx == 6 {
        !stdio
    } else {
        true
    }
}

/// The first visible field after `f` going down (wrapping), trying steps
/// `i..=FIELD_COUNT`; `f` itself if none.
pub open spec fn scan_next(f: int, i: int, stdio: bool) -> int
    decreases FIELD_COUNT + 1 - i,
{
    if i > FIELD_COUNT || i < 1 {
        f
    } else if field_visible((f + i) % (FIELD_COUNT as int), stdio) {
        (f + i) % (FIELD_COUNT as int)
    } else {
        scan_next(f, i + 1, stdio)
    }
}

/// The first visible field before `f` going up (wrapping), trying steps
/// `i..=FIELD_COUNT`; `f` itself if none.
pub open spec fn scan_prev(f: int, i: int, stdio: bool) -> int
    decreases FIELD_COUNT + 1 - i,
{
    if i > FIELD_COUNT || i < 1 {
        f
    } else if field_visible((f + FIELD_COUNT - i) % (FIELD_COUNT as int), stdio) {
        (f + FIELD_COUNT - i) % (FIELD_COUNT as int)
    } else {
        scan_prev(f, i + 1, stdio)
    }
}

/// The text field `idx` of `s` shows.
pub open spec fn mcp_field_text(s: McpFormState, idx: usize) -> Seq<char> {
    if idx == 0 {
        s.name@
    } else if idx == 1 {
        transport_label(transport_at(s.transport_idx as int))
    } else if idx == 2 {
        s.command@
    } else if idx == 3 {
        s.args@
    } else if idx == 4 {
        s.env@
    } else if idx == 5 {
        s.url@
    } else if idx == 6 {
        s.headers@
    } else if idx == 7 {
        s.timeout_secs@
    } else {
        Seq::empty()
    }
}

/// `b` is `a` with text field `idx` set to `v` (other fields unchanged).
pub open spec fn field_set(a: McpFormState, b: McpFormState, idx: usize, v: Seq<char>) -> bool {
    &&& b.name@ == (if idx == 0 { v } else { a.name@ })
    &&& b.command@ == (if idx == 2 { v } else { a.command@ })
    &&& b.args@ == (if idx == 3 { v } else { a.args@ })
    &&& b.env@ == (if idx == 4 { v } else { a.env@ })
    &&& b.url@ == (if idx == 5 { v } else { a.url@ })
    &&& b.headers@ == (if idx == 6 { v } else { a.headers@ })
    &&& b.timeout_secs@ == (if idx == 7 { v } else { a.timeout_secs@ })
    &&& b.transport_idx == a.transport_idx
    &&& b.original_name == a.original_name
}

/// The name a form edits (empty when adding).
pub open spec fn original_of(s: McpFormState) -> Seq<char> {
    match s.original_name {
        Some(n) => n@,
        None => Seq::empty(),
    }
}

/// Whether `names` holds `n`.
pub open spec fn names_hold(names: Seq<&str>, n: Seq<char>) -> bool {
    exists|i: int| 0 <= i < names.len() && (#[trigger] names[i])@ == n
}

/// The abstract server: name, transport, command, args, env, url, headers, timeout.
pub type SpecV = (Seq<char>, McpTransport, Option<Seq<char>>, Seq<Seq<char>>, Assoc, Option<Seq<char>>, Assoc, u64);

/// The abstract value of a server configuration.
pub open spec fn spec_view(x: McpServerSpec) -> SpecV {
    (
        x.name@,
        x.transport,
        match x.command {
            Some(c) => Some(c@),
            None => None,
        },
        x.args@.map_values(|a: String| a@),
        x.env@,
        match x.url {
            Some(u) => Some(u@),
            None => None,
        },
        x.headers@,
        x.timeout_secs,
    )
}

/// What `into_spec` returns: the server built from the form, or the first
/// complaint. The checks, in order: the trimmed name is not empty and not
/// taken by another server; for stdio the command is not blank and env
/// parses; for http/sse the url is not blank and headers parse; the timeout
/// is a number.
pub open spec fn spec_into(s: McpFormState, existing: Seq<&str>) -> Result<SpecV, Seq<char>> {
    let name = trim(s.name@);
    let t = transport_at(s.transport_idx as int);
    let timeout = parse_u64_spec(trim(s.timeout_secs@));
    if name.len() == 0 {
        Err("名称不能为空"@)
    } else if name != original_of(s) && names_hold(existing, name) {
        Err("名称 '"@ + name + "' 已存在"@)
    } else if t == McpTransport::Stdio {
        let cmd = trim(s.command@);
        if cmd.len() == 0 {
            Err("stdio 模式 command 不能为空"@)
        } else {
            match spec_parse_map(s.env@) {
                Err(e) => Err("env 解析失败: "@ + e),
                Ok(env) => match timeout {
                    None => Err("timeout_secs 必须是数字"@),
                    Some(n) => Ok((name, t, Some(cmd), spec_parse_lines(s.args@), env, None, Seq::empty(), n)),
                },
            }
        }
    } else {
        let url = trim(s.url@);
        if url.len() == 0 {
            Err("http/sse 模式 url 不能为空"@)
        } else {
            match spec_parse_map(s.headers@) {
                Err(e) => Err("headers 解析失败: "@ + e),
                Ok(h) => match timeout {
                    None => Err("timeout_secs 必须是数字"@),
                    Some(n) => Ok((name, t, None, Seq::empty(), Seq::empty(), Some(url), h, n)),
                },
            }
        }
    }
}

impl McpFormState {
    /// The transport index is one of the three and the text box has a line.
    pub open spec fn wf(&self) -> bool {
        self.transport_idx < 3 && self.textarea.wf()
    }

    /// An empty form for adding a server: stdio, timeout 5.
    pub fn empty() -> (s: McpFormState)
        ensures
            s.wf(),
            s.name@.len() == 0,
            s.transport_idx == 0,
            s.command@.len() == 0,
            s.args@.len() == 0,
            s.env@.len() == 0,
            s.url@.len() == 0,
            s.headers@.len() == 0,
            s.timeout_secs@ == "5"@,
            s.original_name is None,
            s.focused == 0,
            !s.editing,
    {
        McpFormState {
            name: String::new(),
            transport_idx: 0,
            command: String::new(),
            args: String::new(),
            env: String::new(),
            url: String::new(),
            headers: String::new(),
            timeout_secs: "5".to_owned(),
            original_name: None,
            focused: 0,
            editing: false,
            textarea: InputBox::new(),
        }
    }

    /// A form editing server `spec`, the focus on the transport.
    pub fn from_spec(spec: &McpServerSpec) -> (s: McpFormState)
        requires
            spec.env.wf(),
            spec.headers.wf(),
        ensures
            s.wf(),
            s.name@ == spec.name@,
            transport_at(s.transport_idx as int) == spec.transport,
            s.command@ == (match spec.command {
                Some(c) => c@,
                None => Seq::<char>::empty(),
            }),
            s.args@ == join(spec.args@.map_values(|a: String| a@), "\n"@),
            s.env@ == spec_serialize_map(spec.env@),
            s.url@ == (match spec.url {
                Some(u) => u@,
                None => Seq::<char>::empty(),
            }),
            s.headers@ == spec_serialize_map(spec.headers@),
            s.timeout_secs@ == decimal(spec.timeout_secs as nat),
            s.original_name matches Some(n) && n@ == spec.name@,
            s.focused == 1,
            !s.editing,
    {
        let transport_idx: usize = match spec.transport {
            McpTransport::Stdio => 0,
            McpTransport::Http => 1,
            McpTransport::Sse => 2,
        };
        let command = match &spec.command {
            Some(c) => copy_string(c),
            None => String::new(),
        };
        let url = match &spec.url {
            Some(u) => copy_string(u),
            None => String::new(),
        };
        let mut args = String::new();
        let ghost av = spec.args@.map_values(|a: String| a@);
        let mut i: usize = 0;
        while i < spec.args.len()
            invariant
                i <= spec.args@.len(),
                av == spec.args@.map_values(|a: String| a@),
                args@ == join(av.take(i as int), "\n"@),
            decreases spec.args@.len() - i,
        {
            if i > 0 {
                push_str(&mut args, "\n");
            }
            push_str(&mut args, spec.args[i].as_str());
            proof {
                let t = av.take(i + 1);
                assert(t.drop_last() =~= av.take(i as int));
                if i == 0 {
                    assert(t.len() == 1);
                    assert(args@ =~= t[0]);
                }
            }
            assert(args@ =~= join(av.take(i + 1), "\n"@));
            i = i + 1;
        }
        assert(av.take(spec.args@.len() as int) =~= av);
        McpFormState {
            name: copy_string(&spec.name),
            transport_idx,
            command,
            args,
            env: serialize_map(&spec.env),
            url,
            headers: serialize_map(&spec.headers),
            timeout_secs: u64_to_string(spec.timeout_secs),
            original_name: Some(copy_string(&spec.name)),
            focused: 1,
            editing: false,
            textarea: InputBox::new(),
        }
    }

    /// Whether the form edits an existing server.
    pub fn is_edit(&self) -> (b: bool)
        ensures
            b == self.original_name is Some,
    {
        self.original_name.is_some()
    }

    /// The selected transport.
    pub fn transport(&self) -> (t: McpTransport)
        requires
            self.transport_idx < 3,
        ensures
            t == transport_at(self.transport_idx as int),
    {
        if self.transport_idx == 0 {
            McpTransport::Stdio
        } else if self.transport_idx == 1 {
            McpTransport::Http
        } else {
            McpTransport::Sse
        }
    }

    /// Whether field `idx` is shown for the selected transport.
    pub fn is_field_visible(&self, idx: usize) -> (b: bool)
        requires
            self.transport_idx < 3,
        ensures
            b == field_visible(idx as int, self.transport_idx == 0),
    {
        let is_stdio = self.transport_idx == 0;
        if 2 <= idx && idx <= 4 {
            is_stdio
        } else if idx == 5 || idx == 6 {
            !is_stdio
        } else {
            true
        }
    }

    /// The next visible field going down (wrapping).
    pub fn next_visible(&self) -> (r: usize)
        requires
            self.transport_idx < 3,
            self.focused + FIELD_COUNT <= usize::MAX,
        ensures
            r == scan_next(self.focused as int, 1, self.transport_idx == 0),
    {
        let n = FIELD_COUNT;
        let mut i: usize = 1;
        while i <= n
            invariant
                1 <= i <= n + 1,
                n == FIELD_COUNT,
                self.transport_idx < 3,
                self.focused + FIELD_COUNT <= usize::MAX,
                scan_next(self.focused as int, 1, self.transport_idx == 0) == scan_next(
                    self.focused as int,
                    i as int,
                    self.transport_idx == 0,
                ),
            decreases n + 1 - i,
        {
            let idx = (self.focused + i) % n;
            if self.is_field_visible(idx) {
                return idx;
            }
            i = i + 1;
        }
        self.focused
    }

    /// The next visible field going up (wrapping).
    pub fn prev_visible(&self) -> (r: usize)
        requires
            self.transport_idx < 3,
            self.focused + FIELD_COUNT <= usize::MAX,
        ensures
            r == scan_prev(self.focused as int, 1, self.transport_idx == 0),
    {
        let n = FIELD_COUNT;
        let mut i: usize = 1;
        while i <= n
            invariant
                1 <= i <= n + 1,
                n == FIELD_COUNT,
                self.transport_idx < 3,
                self.focused + FIELD_COUNT <= usize::MAX,
                scan_prev(self.focused as int, 1, self.transport_idx == 0) == scan_prev(
                    self.focused as int,
                    i as int,
                    self.transport_idx == 0,
                ),
            decreases n + 1 - i,
        {
            let idx = (self.focused + n - i) % n;
            if self.is_field_visible(idx) {
                return idx;
            }
            i = i + 1;
        }
        self.focused
    }

    /// Checks the form and builds the server (see `spec_into`); `existing_names`
    /// are the configured servers, the edited one's old name excepted.
    pub fn into_spec(&self, existing_names: &[&str]) -> (r: Result<McpServerSpec, String>)
        requires
            self.transport_idx < 3,
        ensures
            match r {
                Ok(x) => x.env.wf() && x.headers.wf() && spec_into(*self, existing_names@)
                    == Result::<SpecV, Seq<char>>::Ok(spec_view(x)),
                Err(e) => spec_into(*self, existing_names@) == Result::<SpecV, Seq<char>>::Err(e@),
            },
    {
        let name = trim_str(self.name.as_str());
        if name.as_str().is_empty() {
            return Err("名称不能为空".to_owned());
        }
        let nv = str_chars(name.as_str());
        let original: String = match &self.original_name {
            Some(o) => copy_string(o),
            None => String::new(),
        };
        let ov = str_chars(original.as_str());
        assert(ov@ == original_of(*self));
        if !crate::text::chars_eq(&nv, &ov) {
            let mut i: usize = 0;
            while i < existing_names.len()
                invariant
                    i <= existing_names@.len(),
                    nv@ == trim(self.name@),
                    name@ == trim(self.name@),
                    trim(self.name@).len() > 0,
                    nv@ != original_of(*self),
                    forall|k: int| 0 <= k < i ==> (#[trigger] existing_names@[k])@ != nv@,
                decreases existing_names@.len() - i,
            {
                let ev = str_chars(existing_names[i]);
                if crate::text::chars_eq(&ev, &nv) {
                    let mut msg = String::new();
                    push_str(&mut msg, "名称 '");
                    push_str(&mut msg, name.as_str());
                    push_str(&mut msg, "' 已存在");
                    assert(names_hold(existing_names@, nv@));
                    assert(msg@ =~= "名称 '"@ + trim(self.name@) + "' 已存在"@);
                    return Err(msg);
                }
                i = i + 1;
            }
        }
        let transport = self.transport();
        let mut command: Option<String> = None;
        let mut args: Vec<String> = Vec::new();
        let mut env = StringMap::new();
        let mut url: Option<String> = None;
        let mut headers = StringMap::new();
        if self.transport_idx == 0 {
            let cmd = trim_str(self.command.as_str());
            if cmd.as_str().is_empty() {
                return Err("stdio 模式 command 不能为空".to_owned());
            }
            args = parse_lines(self.args.as_str());
            match parse_map(self.env.as_str()) {
                Ok(m) => {
                    env = m;
                },
                Err(e) => {
                    let mut msg = String::new();
                    push_str(&mut msg, "env 解析失败: ");
                    push_str(&mut msg, e.as_str());
                    return Err(msg);
                },
            }
            command = Some(cmd);
        } else {
            let u = trim_str(self.url.as_str());
            if u.as_str().is_empty() {
                return Err("http/sse 模式 url 不能为空".to_owned());
            }
            match parse_map(self.headers.as_str()) {
                Ok(m) => {
                    headers = m;
                },
                Err(e) => {
                    let mut msg = String::new();
                    push_str(&mut msg, "headers 解析失败: ");
                    push_str(&mut msg, e.as_str());
                    return Err(msg);
                },
            }
            url = Some(u);
        }
        let ts = trim_str(self.timeout_secs.as_str());
        let timeout_secs = match parse_u64(ts.as_str()) {
            Some(n) => n,
            None => {
                return Err("timeout_secs 必须是数字".to_owned());
            },
        };
        let x = McpServerSpec { name, transport, command, args, env, url, headers, timeout_secs };
        proof {
            if self.transport_idx == 0 {
                assert(spec_view(x) == (trim(self.name@), transport_at(0), Some(trim(self.command@)), spec_parse_lines(self.args@), x.env@, Option::<Seq<char>>::None, Seq::<(Seq<char>, Seq<char>)>::empty(), timeout_secs));
            } else {
                assert(x.args@.map_values(|a: String| a@) =~= Seq::<Seq<char>>::empty());
                assert(spec_view(x) == (trim(self.name@), transport_at(self.transport_idx as int), Option::<Seq<char>>::None, Seq::<Seq<char>>::empty(), Seq::<(Seq<char>, Seq<char>)>::empty(), Some(trim(self.url@)), x.headers@, timeout_secs));
            }
        }
        Ok(x)
    }

    /// The text field `idx` shows (the transport's name for the transport).
    pub fn get_field(&self, idx: usize) -> (r: String)
        requires
            self.transport_idx < 3,
        ensures
            r@ == mcp_field_text(*self, idx),
    {
        if idx == 0 {
            copy_string(&self.name)
        } else if idx == 1 {
            self.transport().label().to_owned()
        } else if idx == 2 {
            copy_string(&self.command)
        } else if idx == 3 {
            copy_string(&self.args)
        } else if idx == 4 {
            copy_string(&self.env)
        } else if idx == 5 {
            copy_string(&self.url)
        } else if idx == 6 {
            copy_string(&self.headers)
        } else if idx == 7 {
            copy_string(&self.timeout_secs)
        } else {
            String::new()
        }
    }

    /// Sets text field `idx` (the transport and buttons take no text).
    pub fn set_field(&mut self, idx: usize, val: String)
        ensures
            field_set(*old(self), *final(self), idx, val@),
            final(self).focused == old(self).focused,
            final(self).editing == old(self).editing,
            final(self).textarea == old(self).textarea,
    {
        if idx == 0 {
            self.name = val;
        } else if idx == 2 {
            self.command = val;
        } else if idx == 3 {
            self.args = val;
        } else if idx == 4 {
            self.env = val;
        } else if idx == 5 {
            self.url = val;
        } else if idx == 6 {
            self.headers = val;
        } else if idx == 7 {
            self.timeout_secs = val;
        }
    }

    /// Whether field `idx` is edited as text.
    pub fn is_text_field(idx: usize) -> (b: bool)
        ensures
            b == (idx == 0 || (2 <= idx <= 7)),
    {
        idx == 0 || (2 <= idx && idx <= 7)
    }

    fn start_editing(&mut self, idx: usize)
        requires
            old(self).wf(),
        ensures
            final(self).wf(),
            final(self).editing,
            final(self).textarea.lines_view() == insert_text(
                seq![Seq::<char>::empty()],
                mcp_field_text(*old(self), idx),
            ),
            field_set(*old(self), *final(self), 99, Seq::empty()),
            final(self).focused == old(self).focused,
    {
        let val = self.get_field(idx);
        self.textarea.clear();
        self.textarea.insert_str(val.as_str());
        self.editing = true;
    }

    /// Handles a key (see the module documentation) and says what the
    /// application should do.
    pub fn handle_key(&mut self, k: KeyEvent) -> (a: McpFormAction)
        requires
            old(self).wf(),
            old(self).focused + FIELD_COUNT <= usize::MAX,
        ensures
            final(self).wf(),
            old(self).editing ==> a == McpFormAction::Nothing && final(self).focused == old(self).focused
                && match k.code {
                KeyCode::Enter => !final(self).editing && field_set(
                    *old(self),
                    *final(self),
                    old(self).focused,
                    input_text(old(self).textarea.lines_view()),
                ),
                KeyCode::Esc => !final(self).editing && field_set(*old(self), *final(self), 99, Seq::empty()),
                _ => *final(self) == *old(self),
            },
            !old(self).editing ==> ({
                let stdio = old(self).transport_idx == 0;
                match k.code {
                    KeyCode::Up => a == McpFormAction::Nothing && final(self).focused == scan_prev(
                        old(self).focused as int,
                        1,
                        stdio,
                    ) && !final(self).editing && field_set(*old(self), *final(self), 99, Seq::empty()),
                    KeyCode::Down => a == McpFormAction::Nothing && final(self).focused == scan_next(
                        old(self).focused as int,
                        1,
                        stdio,
                    ) && !final(self).editing && field_set(*old(self), *final(self), 99, Seq::empty()),
                    KeyCode::Left | KeyCode::Right => a == McpFormAction::Nothing && if old(self).focused
                        == IDX_TRANSPORT {
                        let t = if k.code == KeyCode::Left {
                            (old(self).transport_idx + 2) % 3
                        } else {
                            (old(self).transport_idx + 1) % 3
                        };
                        &&& final(self).transport_idx == t
                        &&& final(self).focused == IDX_TRANSPORT
                        &&& !final(self).editing
                        &&& final(self).name@ == old(self).name@
                    } else {
                        *final(self) == *old(self)
                    },
                    KeyCode::Enter => if old(self).focused == IDX_SAVE {
                        a == McpFormAction::Save && *final(self) == *old(self)
                    } else if old(self).focused == IDX_CANCEL {
                        a == McpFormAction::Cancel && *final(self) == *old(self)
                    } else if (old(self).focused == 0 || 2 <= old(self).focused <= 7) && field_visible(
                        old(self).focused as int,
                        stdio,
                    ) {
                        a == McpFormAction::Nothing && final(self).editing && final(self).focused
                            == old(self).focused && field_set(*old(self), *final(self), 99, Seq::empty())
                            && final(self).textarea.lines_view() == insert_text(
                            seq![Seq::<char>::empty()],
                            mcp_field_text(*old(self), old(self).focused),
                        )
                    } else {
                        a == McpFormAction::Nothing && *final(self) == *old(self)
                    },
                    KeyCode::Esc => a == McpFormAction::Cancel && *final(self) == *old(self),
                    _ => a == McpFormAction::Nothing && *final(self) == *old(self),
                }
            }),
    {
        if self.editing {
            return self.handle_editing_key(k);
        }
        match k.code {
            KeyCode::Up => {
                self.focused = self.prev_visible();
                McpFormAction::Nothing
            },
            KeyCode::Down => {
                self.focused = self.next_visible();
                McpFormAction::Nothing
            },
            KeyCode::Left => {
                if self.focused == IDX_TRANSPORT {
                    self.transport_idx = (self.transport_idx + 3 - 1) % 3;
                    if !self.is_field_visible(self.focused) {
                        self.focused = self.next_visible();
                    }
                }
                McpFormAction::Nothing
            },
            KeyCode::Right => {
                if self.focused == IDX_TRANSPORT {
                    self.transport_idx = (self.transport_idx + 1) % 3;
                    if !self.is_field_visible(self.focused) {
                        self.focused = self.next_visible();
                    }
                }
                McpFormAction::Nothing
            },
            KeyCode::Enter => {
                if self.focused == IDX_SAVE {
                    McpFormAction::Save
                } else if self.focused == IDX_CANCEL {
                    McpFormAction::Cancel
                } else if self.focused == IDX_TRANSPORT {
                    McpFormAction::Nothing
                } else if Self::is_text_field(self.focused) && self.is_field_visible(self.focused) {
                    let f = self.focused;
                    self.start_editing(f);
                    McpFormAction::Nothing
                } else {
                    McpFormAction::Nothing
                }
            },
            KeyCode::Esc => McpFormAction::Cancel,
            _ => McpFormAction::Nothing,
        }
    }

    fn handle_editing_key(&mut self, k: KeyEvent) -> (a: McpFormAction)
        requires
            old(self).wf(),
        ensures
            final(self).wf(),
            a == McpFormAction::Nothing,
            final(self).focused == old(self).focused,
            match k.code {
                KeyCode::Enter => !final(self).editing && field_set(
                    *old(self),
                    *final(self),
                    old(self).focused,
                    input_text(old(self).textarea.lines_view()),
                ),
                KeyCode::Esc => !final(self).editing && field_set(*old(self), *final(self), 99, Seq::empty()),
                _ => *final(self) == *old(self),
            },
    {
        match k.code {
            KeyCode::Enter => {
                let val = self.textarea.text();
                let f = self.focused;
                self.set_field(f, val);
                self.editing = false;
                McpFormAction::Nothing
            },
            KeyCode::Esc => {
                self.editing = false;
                McpFormAction::Nothing
            },
            _ => McpFormAction::Nothing,
        }
    }
}

/// The label of field row `idx`.
pub open spec fn mcp_field_label(idx: int) -> Seq<char> {
    if idx == 0 {
        "名称 name"@
    } else if idx == 1 {
        "传输 transport"@
    } else if idx == 2 {
        "命令 command (stdio)"@
    } else if idx == 3 {
        "参数 args (每行一个, stdio)"@
    } else if idx == 4 {
        "环境变量 env (每行 KEY=VALUE, stdio)"@
    } else if idx == 5 {
        "URL url (http/sse)"@
    } else if idx == 6 {
        "请求头 headers (每行 KEY=VALUE, http/sse)"@
    } else if idx == 7 {
        "超时 timeout_secs"@
    } else if idx == 8 {
        "保存"@
    } else {
        "取消"@
    }
}

/// The row of field `idx`: the focus marker (on the focused row when no
/// text is being edited), the label, and the value: the transport with the
/// arrows that cycle it, args, env and headers summarised (see
/// `line_summary`), any other field its text.
pub open spec fn spec_mcp_row(s: McpFormState, idx: int) -> Seq<char> {
    let v = mcp_field_text(s, idx as usize);
    let value = if idx == IDX_TRANSPORT {
        v + "  ←→"@
    } else if idx == 3 || idx == 4 || idx == 6 {
        line_summary(v)
    } else {
        v
    };
    (if idx == s.focused && !s.editing {
        "▸ "@
    } else {
        "  "@
    }) + mcp_field_label(idx) + " : "@ + value
}

/// The rows of the first `n` fields that the transport shows, in focus
/// order.
pub open spec fn visible_rows(s: McpFormState, n: int) -> Seq<Seq<char>>
    decreases n,
{
    if n <= 0 {
        Seq::empty()
    } else if field_visible(n - 1, s.transport_idx == 0) {
        visible_rows(s, n - 1).push(spec_mcp_row(s, n - 1))
    } else {
        visible_rows(s, n - 1)
    }
}

/// The rows of the fields the transport shows, in focus order.
pub open spec fn spec_mcp_rows(s: McpFormState) -> Seq<Seq<char>> {
    visible_rows(s, 8)
}

/// The text of button `idx` (Save or Cancel): bracketed, marked when it
/// has the focus and no text is being edited.
pub open spec fn mcp_button(s: McpFormState, idx: int) -> Seq<char> {
    (if s.focused == idx && !s.editing {
        "▸["@
    } else {
        " ["@
    }) + mcp_field_label(idx) + "] "@
}

/// The title of the form: the edited server's name, or adding one.
pub open spec fn mcp_form_title(s: McpFormState) -> Seq<char> {
    match s.original_name {
        Some(n) => " 编辑 MCP Server: "@ + n@ + " "@,
        None => " 添加 MCP Server "@,
    }
}

impl McpFormState {
    fn field_label(idx: usize) -> (r: &'static str)
        ensures
            r@ == mcp_field_label(idx as int),
    {
        if idx == 0 {
            "名称 name"
        } else if idx == 1 {
            "传输 transport"
        } else if idx == 2 {
            "命令 command (stdio)"
        } else if idx == 3 {
            "参数 args (每行一个, stdio)"
        } else if idx == 4 {
            "环境变量 env (每行 KEY=VALUE, stdio)"
        } else if idx == 5 {
            "URL url (http/sse)"
        } else if idx == 6 {
            "请求头 headers (每行 KEY=VALUE, http/sse)"
        } else if idx == 7 {
            "超时 timeout_secs"
        } else if idx == 8 {
            "保存"
        } else {
            "取消"
        }
    }

    /// The row of field `idx` (see `spec_mcp_row`).
    pub fn field_row(&self, idx: usize) -> (r: String)
        requires
            self.transport_idx < 3,
        ensures
            r@ == spec_mcp_row(*self, idx as int),
    {
        let mut v = self.get_field(idx);
        if idx == IDX_TRANSPORT {
            push_str(&mut v, "  ←→");
        } else if idx == 3 || idx == 4 || idx == 6 {
            v = summarize_lines(v);
        }
        let mut r = String::new();
        if idx == self.focused && !self.editing {
            push_str(&mut r, "▸ ");
        } else {
            push_str(&mut r, "  ");
        }
        push_str(&mut r, Self::field_label(idx));
        push_str(&mut r, " : ");
        push_str(&mut r, v.as_str());
        r
    }

    /// The rows of the fields the transport shows (see `spec_mcp_rows`).
    pub fn field_rows(&self) -> (r: Vec<String>)
        requires
            self.transport_idx < 3,
        ensures
            r@.map_values(|t: String| t@) == spec_mcp_rows(*self),
    {
        let mut r: Vec<String> = Vec::new();
        let mut i: usize = 0;
        while i < 8
            invariant
                i <= 8,
                self.transport_idx < 3,
                r@.map_values(|t: String| t@) == visible_rows(*self, i as int),
            decreases 8 - i,
        {
            if self.is_field_visible(i) {
                let ghost before = r@;
                r.push(self.field_row(i));
                assert(r@.map_values(|t: String| t@) =~= before.map_values(|t: String| t@).push(
                    spec_mcp_row(*self, i as int),
                ));
            }
            i = i + 1;
        }
        r
    }

    /// The text of button `idx` (see `mcp_button`).
    pub fn button(&self, idx: usize) -> (r: String)
        ensures
            r@ == mcp_button(*self, idx as int),
    {
        let mut r = String::new();
        if self.focused == idx && !self.editing {
            push_str(&mut r, "▸[");
        } else {
            push_str(&mut r, " [");
        }
        push_str(&mut r, Self::field_label(idx));
        push_str(&mut r, "] ");
        r
    }

    /// The title of the form (see `mcp_form_title`).
    pub fn title(&self) -> (r: String)
        ensures
            r@ == mcp_form_title(*self),
    {
        match &self.original_name {
            Some(n) => {
                let mut r = String::new();
                push_str(&mut r, " 编辑 MCP Server: ");
                push_str(&mut r, n.as_str());
                push_str(&mut r, " ");
                r
            },
            None => " 添加 MCP Server ".to_owned(),
        }
    }
}


/// Every key of `m` is non-empty and trimmed, and every value is trimmed.
pub open spec fn entries_trimmed(m: Assoc) -> bool {
    forall|i: int|
        0 <= i < m.len() ==> (#[trigger] m[i]).0.len() > 0 && trim(m[i].0) == m[i].0 && trim(m[i].1)
            == m[i].1
}

proof fn lemma_parse_map_lines_trimmed(ls: Seq<Seq<char>>)
    ensures
        parse_map_lines(ls) matches Ok(m) ==> entries_trimmed(m),
    decreases ls.len(),
{
    if ls.len() > 0 {
        lemma_parse_map_lines_trimmed(ls.drop_last());
        if let Ok(m) = parse_map_lines(ls.drop_last()) {
            let l = ls.last();
            let t = trim(l);
            let e = index_of(t, '=');
            if let MapLine::Entry(k, v) = classify_map_line(l) {
                lemma_trim_idem(t.take(e as int));
                lemma_trim_idem(t.skip(e as int + 1));
                let r = assoc_insert(m, k, v);
                let p = count_less(m, k) as int;
                assert forall|i: int| 0 <= i < r.len() implies (#[trigger] r[i]).0.len() > 0 && trim(
                    r[i].0,
                ) == r[i].0 && trim(r[i].1) == r[i].1 by {
                    if p < m.len() && m[p].0 == k {
                        if i != p {
                            assert(r[i] == m[i]);
                        }
                    } else {
                        crate::strmap::lemma_count_less_bound(m, k);
                        if i < p {
                            assert(r[i] == m[i]);
                        } else if i > p {
                            assert(r[i] == m[i - 1]);
                        }
                    }
                }
            }
        }
    }
}

/// Whatever the field text, a map that `parse_map` accepts has non-empty,
/// trimmed keys and trimmed values: whitespace around a key or a value is
/// never kept.
pub proof fn lemma_parse_map_trims(s: Seq<char>)
    ensures
        spec_parse_map(s) matches Ok(m) ==> entries_trimmed(m),
{
    lemma_parse_map_lines_trimmed(lines(s));
}

proof fn lemma_trim_start_concat(k: Seq<char>, r: Seq<char>)
    requires
        trim_start(k).len() > 0,
    ensures
        trim_start(k + r) == trim_start(k) + r,
    decreases k.len(),
{
    if k.len() > 0 && is_ws(k[0]) {
        assert((k + r).drop_first() =~= k.drop_first() + r);
        lemma_trim_start_concat(k.drop_first(), r);
    }
}

proof fn lemma_trim_start_twice(k: Seq<char>)
    ensures
        trim_start(trim_start(k)) == trim_start(k),
{
    crate::chat::input::lemma_trim_start_first(k);
}

proof fn lemma_trim_end_twice(k: Seq<char>)
    ensures
        trim_end(trim_end(k)) == trim_end(k),
{
    crate::chat::input::lemma_trim_end_last(k);
}

/// A line `k=v` whose key part `k` holds no `=` and is not blank reads as
/// the pair of `k` trimmed and `v` trimmed, whatever whitespace stands
/// around the `=` or the line.
pub proof fn lemma_entry_line_trims_both_sides(k: Seq<char>, v: Seq<char>)
    requires
        !has_char(k, '='),
        trim(k).len() > 0,
    ensures
        classify_map_line(k + seq!['='] + v) == MapLine::Entry(trim(k), trim(v)),
{
    let eq = seq!['='];
    let l = k + eq + v;
    let a = trim_start(k);
    assert(a.len() > 0);
    // the leading whitespace of the line is that of the key
    assert(l =~= k + (eq + v));
    lemma_trim_start_concat(k, eq + v);
    // the trailing whitespace of the line is that of the value
    lemma_trim_end_concat(eq, v);
    assert(!is_ws('='));
    assert(trim_end(eq) == eq);
    assert(trim_end(eq + v) =~= eq + trim_end(v));
    lemma_trim_end_concat(a, eq + v);
    let t = trim(l);
    assert(t == a + (eq + trim_end(v)));
    // the first `=` of the line is the one after the key
    crate::chat::input::lemma_trim_start_first(k);
    assert(!has_char(a, '=')) by {
        if has_char(a, '=') {
            let i = choose|i: int| 0 <= i < a.len() && a[i] == '=';
            assert(k[i + (k.len() - a.len())] == '=');
        }
    }
    lemma_index_of_after(a, eq + trim_end(v), '=');
    let e = index_of(t, '=');
    assert(e == a.len());
    assert(t.take(e as int) =~= a);
    assert(t.skip(e as int + 1) =~= trim_end(v));
    lemma_trim_start_twice(k);
    // the value: trimming the end-trimmed value trims it
    lemma_trim_commute(v);
    lemma_trim_end_twice(trim_start(v));
    assert(trim(trim_end(v)) == trim(v));
}

/// A one-line field `k=v` (no line break, key part without `=` and not
/// blank) gives the map holding only `k` trimmed, mapped to `v` trimmed.
pub proof fn lemma_parse_map_single_entry(k: Seq<char>, v: Seq<char>)
    requires
        !has_char(k, '='),
        trim(k).len() > 0,
        !has_char(k, '\n'),
        !has_char(v, '\n'),
    ensures
        spec_parse_map(k + seq!['='] + v) == Ok::<Assoc, Seq<char>>(seq![(trim(k), trim(v))]),
{
    let l = k + seq!['='] + v;
    assert(!has_char(l, '\n')) by {
        if has_char(l, '\n') {
            let i = choose|i: int| 0 <= i < l.len() && l[i] == '\n';
            if i < k.len() {
                assert(k[i] == '\n');
            } else if i > k.len() {
                assert(v[i - k.len() - 1] == '\n');
            }
        }
    }
    lemma_lines_of_joined(seq![l]);
    assert(join(seq![l], seq!['\n']) == l);
    assert(lines(l) == seq![l]);
    lemma_entry_line_trims_both_sides(k, v);
    let ls = seq![l];
    assert(ls.drop_last() =~= Seq::<Seq<char>>::empty());
    assert(ls.last() == l);
    let m0: Assoc = Seq::empty();
    assert(count_less(m0, trim(k)) == 0);
    assert(assoc_insert(m0, trim(k), trim(v)) =~= seq![(trim(k), trim(v))]);
    assert(parse_map_lines(ls.drop_last()) == Ok::<Assoc, Seq<char>>(m0));
    assert(classify_map_line(ls.last()) == MapLine::Entry(trim(k), trim(v)));
    assert(parse_map_lines(ls) == Ok::<Assoc, Seq<char>>(assoc_insert(m0, trim(k), trim(v))));
}


/// A field with a non-blank line that holds no `=`, or whose key before the
/// first `=` is blank, is refused as a whole.
pub proof fn lemma_parse_map_refuses_bad_line(s: Seq<char>, i: int)
    requires
        0 <= i < lines(s).len(),
        trim(lines(s)[i]).len() > 0,
        index_of(trim(lines(s)[i]), '=') == trim(lines(s)[i]).len() || trim(
            trim(lines(s)[i]).take(index_of(trim(lines(s)[i]), '=') as int),
        ).len() == 0,
    ensures
        spec_parse_map(s) is Err,
{
    let ls = lines(s);
    let pre = ls.take(i + 1);
    assert(pre.drop_last() =~= ls.take(i));
    assert(pre.last() == ls[i]);
    assert(parse_map_lines(pre) is Err);
    lemma_parse_map_error_sticks(ls, i + 1);
}

} // verus!
