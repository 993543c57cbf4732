//! Layout of transcript entries as styled lines.
//!
//! User and system messages put their label on the first line and indent
//! the following ones; an assistant message has its label on a line of its
//! own, followed by its markdown. Tool results and reasoning longer than
//! `TOOL_RESULT_FOLD_THRESHOLD` rows are folded to their last rows unless the
//! entry is expanded. Each entry is followed by an empty separator line.
use vstd::prelude::*;

use std::collections::HashSet;

use crate::chat::entry::{entries_view, ChatEntry, EntryV};
use crate::chat::wrap::{strings_view, visual_lines, wrap_string_to_visual_lines};
use crate::markdown::{md_colors, render, spec_render};
use crate::num::{decimal, push_decimal};
use crate::style::{
    fg_style, line, lines_view, plain_style, span, span_str, spans_view, with_mod, Color, Line,
    LineV, Span, SpanV, Style, BOLD, DIM,
};
use crate::text::{chars_eq_str, lines, push_chars, push_str, str_chars, str_lines, string_from};
use crate::theme::Theme;

verus! {

broadcast use vstd::string::group_string_axioms, vstd::std_specs::hash::group_hash_axioms;

/// Tool output and reasoning longer than this many rows are folded.
pub const TOOL_RESULT_FOLD_THRESHOLD: usize = 3;

/// Foreground `c`, bold.
pub open spec fn bold_fg(c: Color) -> Style {
    with_mod(fg_style(c), BOLD)
}

/// Foreground `c`, dim.
pub open spec fn dim_fg(c: Color) -> Style {
    with_mod(fg_style(c), DIM)
}

/// Lines of a user or system message: the label and a space before the
/// first line, eight spaces and a space before the others; an empty message
/// is its label alone.
pub open spec fn role_lines(label: Seq<char>, label_fg: Color, content: Seq<char>, t: Theme) -> Seq<
    LineV,
> {
    let ls = lines(content);
    let body = Seq::new(
        ls.len(),
        |i: int|
            seq![
                ((if i == 0 {
                    label
                } else {
                    "        "@
                }) + seq![' '], bold_fg(label_fg)),
                (ls[i], fg_style(t.fg)),
            ],
    );
    if content.len() == 0 {
        body.push(seq![(label + seq![' '], bold_fg(label_fg))])
    } else {
        body
    }
}

/// The label line of an assistant message.
pub open spec fn assistant_label(t: Theme) -> LineV {
    seq![("[assistant]"@, bold_fg(t.title))]
}

/// Lines of an assistant message: its label line, then its markdown.
pub open spec fn assistant_lines(content: Seq<char>, t: Theme) -> Seq<LineV> {
    seq![assistant_label(t)] + spec_render(content, md_colors(t))
}

/// The arguments of a tool call as shown: `()` for none or `{}`.
pub open spec fn args_display(args: Seq<char>) -> Seq<char> {
    if args.len() == 0 || args == "{}"@ {
        "()"@
    } else {
        seq!['('] + args + seq![')']
    }
}

/// The line of a tool call: `  ▶ [tool] name(arguments)`.
pub open spec fn tool_call_line(name: Seq<char>, args: Seq<char>, t: Theme) -> LineV {
    seq![
        ("  ▶ "@, bold_fg(t.accent)),
        ("[tool] "@ + name, bold_fg(t.accent)),
        (args_display(args), fg_style(t.muted)),
    ]
}

/// One indented line of reasoning text.
pub open spec fn thought_line(l: Seq<char>, t: Theme) -> LineV {
    seq![("  "@ + l, fg_style(t.muted))]
}

/// The header line of a reasoning entry.
pub open spec fn thinking_header(t: Theme) -> LineV {
    seq![("💭 "@, plain_style()), ("思考过程"@, with_mod(fg_style(t.muted), BOLD | DIM))]
}

/// The hint line of a folded block hiding `hidden` rows, after `pad`.
pub open spec fn fold_hint(pad: Seq<char>, hidden: nat, t: Theme) -> LineV {
    seq![(pad, fg_style(t.muted)), ("+"@ + decimal(hidden) + " 行已折叠 · Ctrl+O 展开"@, dim_fg(t.muted))]
}

/// The hint line under an expanded block of `total` rows, after `pad`.
pub open spec fn unfold_hint(pad: Seq<char>, total: nat, t: Theme) -> LineV {
    seq![(pad, fg_style(t.muted)), ("共 "@ + decimal(total) + " 行 · Ctrl+O 折叠"@, dim_fg(t.muted))]
}

/// Lines of a reasoning entry: the header, then the text lines; more than
/// three lines are folded to the last three unless expanded.
pub open spec fn thinking_lines(content: Seq<char>, expanded: bool, t: Theme) -> Seq<LineV> {
    let ls = lines(content);
    let n = ls.len();
    let folded = n > 3 && !expanded;
    let shown = if folded {
        ls.skip(n - 3)
    } else {
        ls
    };
    let body = shown.map_values(|l: Seq<char>| thought_line(l, t));
    let tail = if folded {
        seq![fold_hint("  ⋮ "@, (n - 3) as nat, t)]
    } else if n > 3 {
        seq![unfold_hint("  ⋮ "@, n, t)]
    } else {
        Seq::empty()
    };
    seq![thinking_header(t)] + body + tail
}

/// Marker, marker colour and text colour of a tool result.
pub open spec fn result_marks(is_error: bool, t: Theme) -> (Seq<char>, Color, Color) {
    if is_error {
        ("✗"@, Color::Red, Color::Red)
    } else {
        ("→"@, t.muted, t.fg)
    }
}

/// Rows of tool output: the marker before the first, six spaces before the
/// others.
pub open spec fn result_rows(rows: Seq<Seq<char>>, marker: Seq<char>, mc: Color, cc: Color) -> Seq<
    LineV,
> {
    Seq::new(
        rows.len(),
        |i: int|
            if i == 0 {
                seq![("    "@ + marker + seq![' '], bold_fg(mc)), (rows[i], fg_style(cc))]
            } else {
                seq![("      "@, plain_style()), (rows[i], fg_style(cc))]
            },
    )
}

/// The width left for tool output after its six-column prefix.
pub open spec fn content_width(width: u16) -> nat {
    if width >= 6 {
        (width - 6) as nat
    } else {
        0
    }
}

/// Lines of a tool result. The output is counted in rows at the available
/// width; more than three rows are folded to the last three (hint above)
/// unless expanded (hint below).
pub open spec fn tool_result_lines(output: Seq<char>, is_error: bool, expanded: bool, width: u16, t: Theme) -> Seq<LineV> {
    let (marker, mc, cc) = result_marks(is_error, t);
    let vl = visual_lines(output, content_width(width));
    let n = vl.len();
    if n == 0 {
        seq![seq![("    "@ + marker + seq![' '], bold_fg(mc))]]
    } else if n > 3 && !expanded {
        seq![fold_hint("    ⋮ "@, (n - 3) as nat, t)] + result_rows(vl.skip(n - 3), marker, mc, cc)
    } else if n > 3 {
        result_rows(vl, marker, mc, cc).push(unfold_hint("    ⋮ "@, n, t))
    } else {
        result_rows(vl, marker, mc, cc)
    }
}

/// Lines of entry number `i`.
pub open spec fn entry_lines(e: EntryV, i: int, t: Theme, expanded: Set<usize>, width: u16) -> Seq<LineV> {
    match e {
        EntryV::User(c) => role_lines("[user]"@, t.accent, c, t),
        EntryV::Assistant(c) => assistant_lines(c, t),
        EntryV::Thinking(c) => thinking_lines(c, expanded.contains(i as usize), t),
        EntryV::System(c) => role_lines("[system]"@, t.muted, c, t),
        EntryV::ToolCall { id, name, arguments } => seq![tool_call_line(name, arguments, t)],
        EntryV::ToolResult { id, name, output, is_error } => tool_result_lines(
            output,
            is_error,
            expanded.contains(i as usize),
            width,
            t,
        ),
    }
}

/// Lines of a transcript: each entry's lines and an empty separator line.
pub open spec fn entries_lines(es: Seq<EntryV>, t: Theme, expanded: Set<usize>, width: u16) -> Seq<LineV>
    decreases es.len(),
{
    if es.len() == 0 {
        Seq::empty()
    } else {
        entries_lines(es.drop_last(), t, expanded, width) + entry_lines(
            es.last(),
            es.len() - 1,
            t,
            expanded,
            width,
        ) + seq![Seq::<SpanV>::empty()]
    }
}

// ---------------------------------------------------------------------------
// Implementation
// ---------------------------------------------------------------------------

/// `a` followed by the characters of `b`.
fn str_plus(a: &str, b: &[char]) -> (r: String)
    ensures
        r@ == a@ + b@,
{
    let mut s = String::new();
    push_str(&mut s, a);
    push_chars(&mut s, b);
    assert(s@ =~= a@ + b@);
    s
}

/// `a` followed by a space.
fn with_space(a: &str) -> (r: String)
    ensures
        r@ == a@ + seq![' '],
{
    let mut s = String::new();
    push_str(&mut s, a);
    crate::text::push_char(&mut s, ' ');
    assert(s@ =~= a@ + seq![' ']);
    s
}

/// The prefix of the first row of tool output: four spaces, the marker, a space.
fn marker_prefix(marker: &str) -> (r: String)
    ensures
        r@ == "    "@ + marker@ + seq![' '],
{
    let mut s = String::new();
    push_str(&mut s, "    ");
    push_str(&mut s, marker);
    crate::text::push_char(&mut s, ' ');
    assert(s@ =~= "    "@ + marker@ + seq![' ']);
    s
}

/// Appends the line made of `v`.
fn push_line(out: &mut Vec<Line>, v: Vec<Span>)
    ensures
        lines_view(final(out)@) == lines_view(old(out)@).push(spans_view(v@)),
{
    let ghost before = out@;
    out.push(line(v));
    assert(lines_view(out@) =~= lines_view(before).push(spans_view(v@)));
}

/// A line of two spans.
fn two(a: Span, b: Span) -> (v: Vec<Span>)
    ensures
        spans_view(v@) == seq![a@, b@],
{
    let mut v: Vec<Span> = Vec::new();
    v.push(a);
    v.push(b);
    assert(spans_view(v@) =~= seq![a@, b@]);
    v
}

/// A line of one span.
fn one(a: Span) -> (v: Vec<Span>)
    ensures
        spans_view(v@) == seq![a@],
{
    let mut v: Vec<Span> = Vec::new();
    v.push(a);
    assert(spans_view(v@) =~= seq![a@]);
    v
}

fn muted(t: &Theme) -> (s: Style)
    ensures
        s == fg_style(t.muted),
{
    Style::new().fg(t.muted)
}

fn push_role_lines(out: &mut Vec<Line>, label: &str, label_fg: Color, content: &str, t: &Theme)
    ensures
        lines_view(final(out)@) == lines_view(old(out)@) + role_lines(label@, label_fg, content@, *t),
{
    let ghost start = lines_view(out@);
    let ghost want = role_lines(label@, label_fg, content@, *t);
    let ls = str_lines(content);
    let ghost gl = lines(content@);
    let mut i: usize = 0;
    while i < ls.len()
        invariant
            i <= ls@.len(),
            gl == lines(content@),
            ls@.len() == gl.len(),
            forall|k: int| 0 <= k < ls@.len() ==> #[trigger] ls@[k]@ == gl[k],
            want == role_lines(label@, label_fg, content@, *t),
            lines_view(out@) == start + want.take(i as int),
        decreases ls@.len() - i,
    {
        let prefix = if i == 0 {
            with_space(label)
        } else {
            with_space("        ")
        };
        let v = two(
            span(prefix, Style::new().fg(label_fg).add(BOLD)),
            span(string_from(&ls[i]), Style::new().fg(t.fg)),
        );
        let ghost before = lines_view(out@);
        push_line(out, v);
        assert(want[i as int] == spans_view(v@));
        assert(want.take(i + 1) =~= want.take(i as int).push(want[i as int]));
        i = i + 1;
    }
    if content.is_empty() {
        assert(gl.len() == 0) by {
            assert(crate::text::split_on(content@, '\n') =~= seq![Seq::<char>::empty()]);
        }
        let v = one(span(with_space(label), Style::new().fg(label_fg).add(BOLD)));
        push_line(out, v);
        assert(lines_view(out@) =~= start + want);
    } else {
        assert(want.take(ls@.len() as int) =~= want);
    }
}

fn push_assistant_lines(out: &mut Vec<Line>, t: &Theme, content: &str)
    ensures
        lines_view(final(out)@) == lines_view(old(out)@) + assistant_lines(content@, *t),
{
    let ghost start = lines_view(out@);
    push_line(out, one(span_str("[assistant]", Style::new().fg(t.title).add(BOLD))));
    let md = render(content, t);
    crate::style::append_lines(out, md);
    assert(lines_view(out@) =~= start + assistant_lines(content@, *t));
}

fn push_tool_call(out: &mut Vec<Line>, t: &Theme, name: &str, arguments: &str)
    ensures
        lines_view(final(out)@) == lines_view(old(out)@).push(tool_call_line(name@, arguments@, *t)),
{
    let accent = Style::new().fg(t.accent).add(BOLD);
    let nv = str_chars(name);
    let av = str_chars(arguments);
    let shown = if av.len() == 0 || chars_eq_str(&av, "{}") {
        let mut s = String::new();
        push_str(&mut s, "()");
        s
    } else {
        let mut s = String::new();
        push_char_to(&mut s, '(');
        push_chars(&mut s, &av);
        push_char_to(&mut s, ')');
        assert(s@ =~= seq!['('] + av@ + seq![')']);
        s
    };
    let mut v: Vec<Span> = Vec::new();
    v.push(span_str("  ▶ ", accent));
    v.push(span(str_plus("[tool] ", &nv), accent));
    v.push(span(shown, Style::new().fg(t.muted)));
    assert(spans_view(v@) =~= tool_call_line(name@, arguments@, *t));
    push_line(out, v);
}

fn push_char_to(s: &mut String, c: char)
    ensures
        final(s)@ == old(s)@.push(c),
{
    crate::text::push_char(s, c);
}

/// Appends the fold hint `fold_hint(pad, hidden)`.
fn push_fold_hint(out: &mut Vec<Line>, pad: &str, hidden: usize, t: &Theme)
    ensures
        lines_view(final(out)@) == lines_view(old(out)@).push(fold_hint(pad@, hidden as nat, *t)),
{
    let mut s = String::new();
    push_str(&mut s, "+");
    push_decimal(&mut s, hidden as u64);
    push_str(&mut s, " 行已折叠 · Ctrl+O 展开");
    let v = two(span_str(pad, muted(t)), span(s, Style::new().fg(t.muted).add(DIM)));
    push_line(out, v);
}

/// Appends the hint `unfold_hint(pad, total)`.
fn push_unfold_hint(out: &mut Vec<Line>, pad: &str, total: usize, t: &Theme)
    ensures
        lines_view(final(out)@) == lines_view(old(out)@).push(unfold_hint(pad@, total as nat, *t)),
{
    let mut s = String::new();
    push_str(&mut s, "共 ");
    push_decimal(&mut s, total as u64);
    push_str(&mut s, " 行 · Ctrl+O 折叠");
    let v = two(span_str(pad, muted(t)), span(s, Style::new().fg(t.muted).add(DIM)));
    push_line(out, v);
}

fn push_thinking_lines(out: &mut Vec<Line>, t: &Theme, content: &str, expanded: bool)
    ensures
        lines_view(final(out)@) == lines_view(old(out)@) + thinking_lines(content@, expanded, *t),
{
    let ghost start = lines_view(out@);
    let ls = str_lines(content);
    let ghost gl = lines(content@);
    let count = ls.len();
    push_line(
        out,
        two(span_str("💭 ", Style::new()), span_str("思考过程", Style::new().fg(t.muted).add(BOLD | DIM))),
    );
    let folded = count > TOOL_RESULT_FOLD_THRESHOLD && !expanded;
    let from: usize = if folded {
        count - TOOL_RESULT_FOLD_THRESHOLD
    } else {
        0
    };
    let ghost shown = if folded {
        gl.skip(count - 3)
    } else {
        gl
    };
    let ghost body = shown.map_values(|l: Seq<char>| thought_line(l, *t));
    let ghost head = start.push(thinking_header(*t));
    assert(gl.skip(0) =~= gl);
    let mut i: usize = from;
    while i < count
        invariant
            from <= i <= count,
            count == ls@.len(),
            gl == lines(content@),
            ls@.len() == gl.len(),
            forall|k: int| 0 <= k < ls@.len() ==> #[trigger] ls@[k]@ == gl[k],
            shown == gl.skip(from as int),
            body == shown.map_values(|l: Seq<char>| thought_line(l, *t)),
            lines_view(out@) == head + body.take(i - from),
        decreases count - i,
    {
        let v = one(span(str_plus("  ", &ls[i]), muted(t)));
        push_line(out, v);
        assert(body[i - from] == spans_view(v@));
        assert(body.take(i - from + 1) =~= body.take(i - from).push(body[i - from]));
        i = i + 1;
    }
    assert(body.take(count - from) =~= body);
    if folded {
        push_fold_hint(out, "  ⋮ ", count - TOOL_RESULT_FOLD_THRESHOLD, t);
    } else if count > TOOL_RESULT_FOLD_THRESHOLD {
        push_unfold_hint(out, "  ⋮ ", count, t);
    }
    assert(lines_view(out@) =~= start + thinking_lines(content@, expanded, *t));
}

fn push_result_lines(out: &mut Vec<Line>, rows: &Vec<String>, from: usize, marker: &str, mc: Color, cc: Color)
    requires
        from <= rows@.len(),
    ensures
        lines_view(final(out)@) == lines_view(old(out)@) + result_rows(
            strings_view(rows@).skip(from as int),
            marker@,
            mc,
            cc,
        ),
{
    let ghost start = lines_view(out@);
    let ghost rs = strings_view(rows@).skip(from as int);
    let ghost want = result_rows(rs, marker@, mc, cc);
    let mut i: usize = from;
    while i < rows.len()
        invariant
            from <= i <= rows@.len(),
            rs == strings_view(rows@).skip(from as int),
            want == result_rows(rs, marker@, mc, cc),
            lines_view(out@) == start + want.take(i - from),
        decreases rows@.len() - i,
    {
        let body = span(crate::chat::wrap::copy_string(&rows[i]), Style::new().fg(cc));
        let v = if i == from {
            two(span(marker_prefix(marker), Style::new().fg(mc).add(BOLD)), body)
        } else {
            two(span_str("      ", Style::new()), body)
        };
        assert(rs[i - from] == rows@[i as int]@);
        push_line(out, v);
        assert(want.take(i - from + 1) =~= want.take(i - from).push(want[i - from]));
        i = i + 1;
    }
    assert(want.take(rows@.len() - from) =~= want);
}

fn push_tool_result(out: &mut Vec<Line>, t: &Theme, output: &str, is_error: bool, expanded: bool, width: u16)
    ensures
        lines_view(final(out)@) == lines_view(old(out)@) + tool_result_lines(
            output@,
            is_error,
            expanded,
            width,
            *t,
        ),
{
    let ghost start = lines_view(out@);
    let (marker, mc, cc): (&str, Color, Color) = if is_error {
        ("✗", Color::Red, Color::Red)
    } else {
        ("→", t.muted, t.fg)
    };
    let cw: usize = if width >= 6 {
        (width - 6) as usize
    } else {
        0
    };
    let vl = wrap_string_to_visual_lines(output, cw);
    let n = vl.len();
    let folded = n > TOOL_RESULT_FOLD_THRESHOLD && !expanded;
    if n == 0 {
        let v = one(span(marker_prefix(marker), Style::new().fg(mc).add(BOLD)));
        push_line(out, v);
        assert(lines_view(out@) =~= start + tool_result_lines(output@, is_error, expanded, width, *t));
        return;
    }
    assert(strings_view(vl@).skip(0) =~= strings_view(vl@));
    if folded {
        push_fold_hint(out, "    ⋮ ", n - TOOL_RESULT_FOLD_THRESHOLD, t);
        push_result_lines(out, &vl, n - TOOL_RESULT_FOLD_THRESHOLD, marker, mc, cc);
    } else {
        push_result_lines(out, &vl, 0, marker, mc, cc);
        if n > TOOL_RESULT_FOLD_THRESHOLD && expanded {
            push_unfold_hint(out, "    ⋮ ", n, t);
        }
    }
    assert(lines_view(out@) =~= start + tool_result_lines(output@, is_error, expanded, width, *t));
}

/// Lays out a transcript: each entry's lines followed by an empty line.
/// `expanded` holds the indices of the tool results and reasoning entries
/// shown in full; `width` is the width of the transcript area, by which tool
/// output is counted in rows for folding.
pub fn render_entries(entries: &[ChatEntry], theme: &Theme, expanded: &HashSet<usize>, width: u16) -> (r: Vec<Line>)
    ensures
        lines_view(r@) == entries_lines(entries_view(entries@), *theme, expanded@, width),
{
    let mut out: Vec<Line> = Vec::new();
    let ghost es = entries_view(entries@);
    let mut i: usize = 0;
    assert(es.take(0) =~= Seq::<EntryV>::empty());
    assert(lines_view(out@) =~= Seq::<LineV>::empty());
    while i < entries.len()
        invariant
            i <= entries@.len(),
            es == entries_view(entries@),
            lines_view(out@) == entries_lines(es.take(i as int), *theme, expanded@, width),
        decreases entries@.len() - i,
    {
        let ghost before = lines_view(out@);
        match &entries[i] {
            ChatEntry::User(c) => push_role_lines(&mut out, "[user]", theme.accent, c.as_str(), theme),
            ChatEntry::Assistant(c) => push_assistant_lines(&mut out, theme, c.as_str()),
            ChatEntry::Thinking(c) => {
                let e = expanded.contains(&i);
                push_thinking_lines(&mut out, theme, c.as_str(), e);
            },
            ChatEntry::System(c) => push_role_lines(&mut out, "[system]", theme.muted, c.as_str(), theme),
            ChatEntry::ToolCall { id: _, name, arguments } => {
                push_tool_call(&mut out, theme, name.as_str(), arguments.as_str());
            },
            ChatEntry::ToolResult { id: _, name: _, output, is_error } => {
                let e = expanded.contains(&i);
                push_tool_result(&mut out, theme, output.as_str(), *is_error, e, width);
            },
        }
        let ghost mid = lines_view(out@);
        out.push(Line { spans: Vec::new() });
        proof {
            assert(out@.last()@ =~= Seq::<SpanV>::empty());
            assert(lines_view(out@) =~= mid.push(Seq::<SpanV>::empty()));
            assert(es.take(i + 1).drop_last() =~= es.take(i as int));
            assert(es.take(i + 1).last() == entries@[i as int]@);
            assert(mid == before + entry_lines(entries@[i as int]@, i as int, *theme, expanded@, width));
        }
        i = i + 1;
    }
    assert(es.take(entries@.len() as int) =~= es);
    out
}


// ---------------------------------------------------------------------------
// The live tail of a running answer
// ---------------------------------------------------------------------------

/// The cursor drawn after live text.
pub open spec fn cursor_span(t: Theme) -> SpanV {
    ("▌"@, fg_style(t.accent))
}

/// Live reasoning: a header, the last three lines, and a count of the rest.
pub open spec fn stream_thinking_lines(text: Seq<char>, t: Theme) -> Seq<LineV> {
    let ls = lines(text);
    let n = ls.len();
    let show: nat = if n < 3 {
        n
    } else {
        3
    };
    let header = seq![("💭 "@, plain_style()), ("思考过程"@, dim_fg(t.muted))];
    let body = ls.skip(n - show).map_values(|l: Seq<char>| thought_line(l, t));
    let more = if n > 3 {
        seq![seq![("  ⋮ +"@ + decimal((n - 3) as nat) + " 行 · Ctrl+O 展开"@, dim_fg(t.muted))]]
    } else {
        Seq::empty()
    };
    seq![header] + body + more
}

/// Live output of a running tool: `    → ` before the first line, six spaces
/// before the others, the cursor after the last.
pub open spec fn tool_progress_lines(out: Seq<char>, t: Theme) -> Seq<LineV> {
    let ls = lines(out);
    Seq::new(
        ls.len(),
        |i: int|
            seq![
                (if i == 0 {
                    "    → "@
                } else {
                    "      "@
                }, fg_style(t.muted)),
                (ls[i], fg_style(t.fg)),
            ] + if i == ls.len() - 1 {
                seq![cursor_span(t)]
            } else {
                Seq::empty()
            },
    )
}

/// The lines shown after the transcript while an answer streams: live
/// reasoning if any; then either the running tool's output, or the assistant
/// label with the markdown received so far and the cursor after its last line.
pub open spec fn streaming_tail(buffer: Seq<char>, thinking: Seq<char>, tool_out: Seq<char>, t: Theme) -> Seq<LineV> {
    let th = if thinking.len() > 0 {
        stream_thinking_lines(thinking, t)
    } else {
        Seq::empty()
    };
    if tool_out.len() > 0 {
        th + tool_progress_lines(tool_out, t)
    } else if buffer.len() == 0 {
        th + seq![assistant_label(t), seq![cursor_span(t)]]
    } else {
        let md = spec_render(buffer, md_colors(t));
        let md1 = if md.len() == 0 {
            seq![Seq::<SpanV>::empty()]
        } else {
            md
        };
        th + seq![assistant_label(t)] + md1.drop_last() + seq![md1.last().push(cursor_span(t))]
    }
}

fn push_thinking_lines_streaming(out: &mut Vec<Line>, t: &Theme, text: &str)
    ensures
        lines_view(final(out)@) == lines_view(old(out)@) + stream_thinking_lines(text@, *t),
{
    let ghost start = lines_view(out@);
    let ls = str_lines(text);
    let ghost gl = lines(text@);
    let n = ls.len();
    push_line(out, two(span_str("💭 ", Style::new()), span_str("思考过程", Style::new().fg(t.muted).add(DIM))));
    let show: usize = if n < 3 {
        n
    } else {
        3
    };
    let from = n - show;
    let ghost body = gl.skip(from as int).map_values(|l: Seq<char>| thought_line(l, *t));
    let ghost head = lines_view(out@);
    let mut i: usize = from;
    while i < n
        invariant
            from <= i <= n,
            n == ls@.len(),
            gl == lines(text@),
            ls@.len() == gl.len(),
            forall|k: int| 0 <= k < ls@.len() ==> #[trigger] ls@[k]@ == gl[k],
            body == gl.skip(from as int).map_values(|l: Seq<char>| thought_line(l, *t)),
            lines_view(out@) == head + body.take(i - from),
        decreases n - i,
    {
        let v = one(span(str_plus("  ", &ls[i]), muted(t)));
        push_line(out, v);
        assert(body[i - from] == spans_view(v@));
        assert(body.take(i - from + 1) =~= body.take(i - from).push(body[i - from]));
        i = i + 1;
    }
    assert(body.take(n - from) =~= body);
    if n > 3 {
        let mut s = String::new();
        push_str(&mut s, "  ⋮ +");
        push_decimal(&mut s, (n - 3) as u64);
        push_str(&mut s, " 行 · Ctrl+O 展开");
        push_line(out, one(span(s, Style::new().fg(t.muted).add(DIM))));
    }
    assert(lines_view(out@) =~= start + stream_thinking_lines(text@, *t));
}

fn push_tool_progress_lines(out: &mut Vec<Line>, t: &Theme, tool_out: &str)
    ensures
        lines_view(final(out)@) == lines_view(old(out)@) + tool_progress_lines(tool_out@, *t),
{
    let ghost start = lines_view(out@);
    let ghost want = tool_progress_lines(tool_out@, *t);
    let ls = str_lines(tool_out);
    let ghost gl = lines(tool_out@);
    let mut i: usize = 0;
    while i < ls.len()
        invariant
            i <= ls@.len(),
            gl == lines(tool_out@),
            ls@.len() == gl.len(),
            forall|k: int| 0 <= k < ls@.len() ==> #[trigger] ls@[k]@ == gl[k],
            want == tool_progress_lines(tool_out@, *t),
            lines_view(out@) == start + want.take(i as int),
        decreases ls@.len() - i,
    {
        let prefix = if i == 0 {
            "    → "
        } else {
            "      "
        };
        let mut v = two(span_str(prefix, muted(t)), span(string_from(&ls[i]), Style::new().fg(t.fg)));
        if i + 1 == ls.len() {
            let ghost before = spans_view(v@);
            v.push(span_str("▌", Style::new().fg(t.accent)));
            assert(spans_view(v@) =~= before.push(cursor_span(*t)));
        }
        assert(want[i as int] =~= spans_view(v@));
        push_line(out, v);
        assert(want.take(i + 1) =~= want.take(i as int).push(want[i as int]));
        i = i + 1;
    }
    assert(want.take(ls@.len() as int) =~= want);
}

/// The lines shown after the transcript while an answer streams (see
/// `streaming_tail`).
pub fn build_streaming_tail(buffer: &str, thinking: &str, tool_out: &str, theme: &Theme) -> (r: Vec<Line>)
    ensures
        lines_view(r@) == streaming_tail(buffer@, thinking@, tool_out@, *theme),
{
    let mut lines: Vec<Line> = Vec::new();
    assert(lines_view(lines@) =~= Seq::<LineV>::empty());
    if !thinking.is_empty() {
        push_thinking_lines_streaming(&mut lines, theme, thinking);
    }
    let ghost th = lines_view(lines@);
    if !tool_out.is_empty() {
        push_tool_progress_lines(&mut lines, theme, tool_out);
        return lines;
    }
    push_line(&mut lines, one(span_str("[assistant]", Style::new().fg(theme.title).add(BOLD))));
    if buffer.is_empty() {
        push_line(&mut lines, one(span_str("▌", Style::new().fg(theme.accent))));
        assert(lines_view(lines@) =~= streaming_tail(buffer@, thinking@, tool_out@, *theme));
        return lines;
    }
    let mut md_lines = render(buffer, theme);
    if md_lines.len() == 0 {
        let el = Line { spans: Vec::new() };
        assert(el@ =~= Seq::<SpanV>::empty());
        md_lines.push(el);
        assert(lines_view(md_lines@) =~= seq![Seq::<SpanV>::empty()]);
    }
    let ghost md1 = lines_view(md_lines@);
    let mut last = md_lines.pop().unwrap();
    let ghost last_before = last@;
    assert(last_before == md1.last());
    assert(lines_view(md_lines@) =~= md1.drop_last());
    last.spans.push(span_str("▌", Style::new().fg(theme.accent)));
    assert(last@ =~= last_before.push(cursor_span(*theme)));
    crate::style::append_lines(&mut lines, md_lines);
    let ghost before = lines_view(lines@);
    lines.push(last);
    assert(lines_view(lines@) =~= before.push(last@));
    assert(lines_view(lines@) =~= streaming_tail(buffer@, thinking@, tool_out@, *theme));
    lines
}

/// The streaming answer as the chat page shows it below the transcript: each
/// line of `buffer` after the `[assistant]` label (eight spaces on the later
/// lines), the last one followed by the `▌` cursor; an empty buffer shows the
/// label and the cursor alone.
pub open spec fn page_tail(buffer: Seq<char>, t: Theme) -> Seq<LineV> {
    let ls = lines(buffer);
    if ls.len() == 0 {
        seq![seq![("[assistant] "@, bold_fg(t.title)), ("▌"@, fg_style(t.accent))]]
    } else {
        Seq::new(
            ls.len(),
            |i: int|
                {
                    let head: LineV = seq![
                        ((if i == 0 {
                            "[assistant]"@
                        } else {
                            "        "@
                        }) + seq![' '], bold_fg(t.title)),
                        (ls[i], fg_style(t.fg)),
                    ];
                    if i == ls.len() - 1 {
                        head.push(("▌"@, fg_style(t.accent)))
                    } else {
                        head
                    }
                },
        )
    }
}

/// Appends the streaming answer `buffer` (see `page_tail`).
pub fn push_streaming_tail(out: &mut Vec<Line>, theme: &Theme, buffer: &str)
    ensures
        lines_view(final(out)@) == lines_view(old(out)@) + page_tail(buffer@, *theme),
{
    let ghost start = lines_view(out@);
    let ghost want = page_tail(buffer@, *theme);
    let ls = str_lines(buffer);
    let ghost gl = lines(buffer@);
    if ls.len() == 0 {
        let v = two(
            span_str("[assistant] ", Style::new().fg(theme.title).add(BOLD)),
            span_str("▌", Style::new().fg(theme.accent)),
        );
        push_line(out, v);
        assert(lines_view(out@) =~= start + want);
        return;
    }
    let n = ls.len();
    let mut i: usize = 0;
    while i < n
        invariant
            n == ls@.len(),
            n > 0,
            i <= n,
            gl == lines(buffer@),
            ls@.len() == gl.len(),
            forall|k: int| 0 <= k < ls@.len() ==> #[trigger] ls@[k]@ == gl[k],
            want == page_tail(buffer@, *theme),
            lines_view(out@) == start + want.take(i as int),
        decreases n - i,
    {
        let prefix = if i == 0 {
            with_space("[assistant]")
        } else {
            with_space("        ")
        };
        let mut v = two(
            span(prefix, Style::new().fg(theme.title).add(BOLD)),
            span(string_from(&ls[i]), Style::new().fg(theme.fg)),
        );
        if i == n - 1 {
            let ghost before = spans_view(v@);
            v.push(span_str("▌", Style::new().fg(theme.accent)));
            assert(spans_view(v@) =~= before.push(("▌"@, fg_style(theme.accent))));
        }
        push_line(out, v);
        assert(want[i as int] == spans_view(v@));
        assert(want.take(i + 1) =~= want.take(i as int).push(want[i as int]));
        i = i + 1;
    }
    assert(want.take(n as int) =~= want);
}

/// What the chat page shows of the project context: its name, its scope
/// and how many guard rules it holds.
pub struct ProjectSummary {
    pub project: Option<String>,
    pub scope: Option<String>,
    pub rule_count: usize,
}

/// A name of the project context, or a placeholder when it is not given.
pub open spec fn or_unset(o: Option<String>) -> Seq<char> {
    match o {
        Some(s) => s@,
        None => "<未指定>"@,
    }
}

/// The lines of an empty chat page: a title, the project context (or a note
/// that there is none) and how to start.
pub open spec fn intro_lines(project: Option<ProjectSummary>, t: Theme) -> Seq<LineV> {
    let info = match project {
        Some(p) => "项目："@ + or_unset(p.project) + " · scope："@ + or_unset(p.scope) + " · 护栏 "@
            + decimal(p.rule_count as nat) + " 条"@,
        None => "无项目上下文（当前目录未检测到 .cyber.md）"@,
    };
    seq![
        seq![("Chat Mode（对话交互式）"@, bold_fg(t.accent))],
        seq![(info, fg_style(t.muted))],
        seq![(""@, plain_style())],
        seq![("在下方输入框输入消息，Enter 发送。"@, fg_style(t.muted))],
    ]
}

fn push_or_unset(s: &mut String, o: &Option<String>)
    ensures
        final(s)@ == old(s)@ + or_unset(*o),
{
    match o {
        Some(v) => push_str(s, v.as_str()),
        None => push_str(s, "<未指定>"),
    }
}

/// The lines of an empty chat page (see `intro_lines`).
pub fn history_intro(project: &Option<ProjectSummary>, theme: &Theme) -> (r: Vec<Line>)
    ensures
        lines_view(r@) == intro_lines(*project, *theme),
{
    let mut out: Vec<Line> = Vec::new();
    push_line(&mut out, one(span_str("Chat Mode（对话交互式）", Style::new().fg(theme.accent).add(BOLD))));
    let info = match project {
        Some(p) => {
            let mut t = String::new();
            push_str(&mut t, "项目：");
            push_or_unset(&mut t, &p.project);
            push_str(&mut t, " · scope：");
            push_or_unset(&mut t, &p.scope);
            push_str(&mut t, " · 护栏 ");
            push_decimal(&mut t, p.rule_count as u64);
            push_str(&mut t, " 条");
            t
        },
        None => "无项目上下文（当前目录未检测到 .cyber.md）".to_owned(),
    };
    push_line(&mut out, one(span(info, Style::new().fg(theme.muted))));
    push_line(&mut out, one(span_str("", Style::new())));
    push_line(&mut out, one(span_str("在下方输入框输入消息，Enter 发送。", Style::new().fg(theme.muted))));
    assert(lines_view(out@) =~= intro_lines(*project, *theme));
    out
}

/// The hint under the chat input.
pub open spec fn chat_hint(streaming: bool) -> Seq<char> {
    if streaming {
        " 生成中… Esc 取消 · Tab 切换模式 · Ctrl+, 设置 · Ctrl+C 退出"@
    } else {
        " Enter 发送 · Shift+Enter 换行 · Tab 切换模式 · Ctrl+, 设置 · Esc 返回 · Ctrl+C 退出"@
    }
}

/// The hint under the chat input (see `chat_hint`).
pub fn render_hint(streaming: bool) -> (r: &'static str)
    ensures
        r@ == chat_hint(streaming),
{
    if streaming {
        " 生成中… Esc 取消 · Tab 切换模式 · Ctrl+, 设置 · Ctrl+C 退出"
    } else {
        " Enter 发送 · Shift+Enter 换行 · Tab 切换模式 · Ctrl+, 设置 · Esc 返回 · Ctrl+C 退出"
    }
}

/// The page of a mode that is not built yet: its title, its stage, the
/// project (or a note that there is none) and the keys.
pub open spec fn spec_placeholder(title: Seq<char>, stage: Seq<char>, project: Option<ProjectSummary>, t: Theme) -> Seq<LineV> {
    let proj = match project {
        Some(p) => seq![("当前项目："@ + or_unset(p.project), fg_style(t.fg))],
        None => seq![("项目上下文：无"@, fg_style(t.muted))],
    };
    seq![
        seq![(title, bold_fg(t.accent))],
        seq![("状态："@ + stage, fg_style(t.muted))],
        seq![(""@, plain_style())],
        proj,
        seq![(""@, plain_style())],
        seq![("Tab 切换模式   Esc 返回 Welcome   q 退出"@, fg_style(t.muted))],
    ]
}

/// The page of a mode that is not built yet (see `spec_placeholder`).
pub fn placeholder_lines(title: &str, stage: &str, project: &Option<ProjectSummary>, theme: &Theme) -> (r: Vec<Line>)
    ensures
        lines_view(r@) == spec_placeholder(title@, stage@, *project, *theme),
{
    let mut out: Vec<Line> = Vec::new();
    push_line(&mut out, one(span_str(title, Style::new().fg(theme.accent).add(BOLD))));
    let mut st = String::new();
    push_str(&mut st, "状态：");
    push_str(&mut st, stage);
    push_line(&mut out, one(span(st, Style::new().fg(theme.muted))));
    push_line(&mut out, one(span_str("", Style::new())));
    match project {
        Some(p) => {
            let mut t = String::new();
            push_str(&mut t, "当前项目：");
            push_or_unset(&mut t, &p.project);
            push_line(&mut out, one(span(t, Style::new().fg(theme.fg))));
        },
        None => push_line(&mut out, one(span_str("项目上下文：无", Style::new().fg(theme.muted)))),
    }
    push_line(&mut out, one(span_str("", Style::new())));
    push_line(&mut out, one(span_str("Tab 切换模式   Esc 返回 Welcome   q 退出", Style::new().fg(theme.muted))));
    assert(lines_view(out@) =~= spec_placeholder(title@, stage@, *project, *theme));
    out
}

} // verus!
