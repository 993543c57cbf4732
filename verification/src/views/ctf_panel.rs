//! The CTF challenge panel: breaking text to the panel's width, keeping the
//! selected challenge in view while the list scrolls, and the detail view of
//! one challenge.
use vstd::prelude::*;

use crate::chat::wrap::{char_width, fill, fill_ranges, fill_rows, ranges_view, strings_view, unicode_width};
use crate::chat::wrap::copy_string;
use crate::ctf::{CtfChallenge, CtfStatus};
use crate::num::{decimal, push_decimal};
use crate::markdown::{md_colors, render, repeat, repeat_char, spec_render};
use crate::style::{
    append_lines, fg_style, line, lines_view, plain_style, span, span_str, spans_view, with_mod, Line,
    LineV, Span, SpanV, Style, BOLD,
};
use crate::text::{join, lines, lines_of, push_str, str_chars, string_from_range};
use crate::theme::Theme;
use crate::views::ctf_edit_form::opt_view;

verus! {

broadcast use vstd::string::group_string_axioms;

/// Default panel width in columns.
pub const CTF_PANEL_WIDTH: u16 = 52;

/// Columns a character takes in the panel (control characters, the tab
/// among them, take none).
pub open spec fn text_width(c: char) -> nat {
    match unicode_width(c) {
        Some(w) => w as nat,
        None => 0,
    }
}

/// The rows `s` takes at `width` columns: characters are laid out greedily
/// and a character that would overflow a non-empty row starts the next one;
/// line breaks are not special; width 0 leaves `s` whole. There is always at
/// least one row (`""` gives one empty row).
pub open spec fn width_rows(s: Seq<char>, width: nat) -> Seq<Seq<char>> {
    if width == 0 {
        seq![s]
    } else {
        fill_rows(s.len() as int, |k: int| text_width(s[k]), width).map_values(
            |r: (int, int)| s.subrange(r.0, r.1),
        )
    }
}

fn text_width_of(c: char) -> (w: usize)
    ensures
        w == text_width(c),
        w <= 3,
{
    match char_width(c) {
        Some(w) => w,
        None => 0,
    }
}

/// Breaks `s` into rows of at most `max_width` display columns (see
/// `width_rows`).
pub fn wrap_text_by_width(s: &str, max_width: usize) -> (r: Vec<String>)
    ensures
        strings_view(r@) == width_rows(s@, max_width as nat),
{
    if max_width == 0 {
        let mut out: Vec<String> = Vec::new();
        out.push(s.to_owned());
        assert(strings_view(out@) =~= seq![s@]);
        return out;
    }
    let l = str_chars(s);
    let mut ws: Vec<usize> = Vec::new();
    let ghost w = |k: int| text_width(l@[k]);
    let mut k: usize = 0;
    while k < l.len()
        invariant
            k <= l@.len(),
            ws@.len() == k,
            w == (|k: int| text_width(l@[k])),
            forall|j: int| 0 <= j < k ==> #[trigger] ws@[j] == w(j) && ws@[j] <= 3,
        decreases l@.len() - k,
    {
        ws.push(text_width_of(l[k]));
        k = k + 1;
    }
    let rs = fill_ranges(&ws, max_width, Ghost(w));
    let ghost want = width_rows(s@, max_width as nat);
    assert(want == ranges_view(rs@).map_values(|r: (int, int)| l@.subrange(r.0, r.1)));
    let mut out: Vec<String> = Vec::new();
    let mut j: usize = 0;
    while j < rs.len()
        invariant
            j <= rs@.len(),
            want == ranges_view(rs@).map_values(|r: (int, int)| l@.subrange(r.0, r.1)),
            forall|m: int| 0 <= m < rs@.len() ==> #[trigger] rs@[m].0 <= rs@[m].1 <= l@.len(),
            strings_view(out@) == want.take(j as int),
        decreases rs@.len() - j,
    {
        let (a, b) = rs[j];
        let ghost before = out@;
        out.push(string_from_range(&l, a, b));
        assert(want[j as int] == l@.subrange(a as int, b as int));
        assert(strings_view(out@) =~= strings_view(before).push(want[j as int]));
        assert(want.take(j + 1) =~= want.take(j as int).push(want[j as int]));
        j = j + 1;
    }
    assert(want.take(rs@.len() as int) =~= want);
    out
}

/// The first row `scroll` of a list of `total` rows shown `visible` at a
/// time, when the selected item takes rows `[sel_start, sel_end)` and the
/// list was scrolled to `prev`: the list moves only as far as it must to
/// show the item, and not past its end.
pub open spec fn sticky_scroll(total: int, visible: int, prev: int, sel_start: int, sel_end: int) -> int {
    let max_scroll = if total > visible {
        total - visible
    } else {
        0
    };
    let p = if prev < max_scroll {
        prev
    } else {
        max_scroll
    };
    if total <= visible {
        0
    } else if sel_start < p {
        sel_start
    } else if sel_end > p + visible {
        let down = if sel_end > visible {
            sel_end - visible
        } else {
            0
        };
        if down < max_scroll {
            down
        } else {
            max_scroll
        }
    } else {
        p
    }
}

/// Where item `i` of items `heights` rows tall starts.
pub open spec fn item_start(heights: Seq<usize>, i: int) -> int
    decreases i,
{
    if i <= 0 {
        0
    } else {
        item_start(heights, i - 1) + heights[i - 1]
    }
}

/// The row after the last of items `heights`.
pub open spec fn total_rows(heights: Seq<usize>) -> int {
    item_start(heights, heights.len() as int)
}

proof fn lemma_item_start_mono(heights: Seq<usize>, i: int, j: int)
    requires
        0 <= i <= j,
    ensures
        item_start(heights, i) <= item_start(heights, j),
    decreases j - i,
{
    if i < j {
        lemma_item_start_mono(heights, i, j - 1);
    }
}

/// The scroll offset of the list view (see `sticky_scroll`), where item `i`
/// is `heights[i]` rows tall and `selected` is the selected item; an index
/// past the end selects nothing in particular (its start reads 0 and its
/// end the list's end).
pub fn scroll_offset(heights: &Vec<usize>, selected: usize, visible: usize, prev: usize) -> (r: usize)
    requires
        total_rows(heights@) <= usize::MAX,
    ensures
        r == sticky_scroll(
            total_rows(heights@),
            visible as int,
            prev as int,
            if selected < heights@.len() { item_start(heights@, selected as int) } else { 0 },
            if selected < heights@.len() { item_start(heights@, selected + 1) } else { total_rows(heights@) },
        ),
{
    let n = heights.len();
    let mut starts: Vec<usize> = Vec::new();
    let mut acc: usize = 0;
    let mut i: usize = 0;
    while i < n
        invariant
            n == heights@.len(),
            i <= n,
            acc == item_start(heights@, i as int),
            starts@.len() == i,
            forall|k: int| 0 <= k < i ==> #[trigger] starts@[k] == item_start(heights@, k),
            total_rows(heights@) <= usize::MAX,
        decreases n - i,
    {
        proof {
            lemma_item_start_mono(heights@, i + 1, n as int);
        }
        starts.push(acc);
        acc = acc + heights[i];
        i = i + 1;
    }
    let total = acc;
    let sel_start: usize = if selected < n {
        starts[selected]
    } else {
        0
    };
    let sel_end: usize = if selected < n {
        if selected + 1 < n {
            starts[selected + 1]
        } else {
            total
        }
    } else {
        total
    };
    proof {
        if selected < n {
            lemma_item_start_mono(heights@, selected as int, selected + 1);
            lemma_item_start_mono(heights@, selected + 1, n as int);
        }
    }
    let max_scroll: usize = if total > visible {
        total - visible
    } else {
        0
    };
    let p: usize = if prev < max_scroll {
        prev
    } else {
        max_scroll
    };
    if total <= visible {
        0
    } else if sel_start < p {
        sel_start
    } else if sel_end - p > visible {
        let down: usize = if sel_end > visible {
            sel_end - visible
        } else {
            0
        };
        if down < max_scroll {
            down
        } else {
            max_scroll
        }
    } else {
        p
    }
}

/// An item that fits the view is shown whole after scrolling: its rows
/// lie within `[scroll, scroll + visible)`, and the scroll stays within
/// the list.
pub proof fn lemma_sticky_scroll_shows_item(total: int, visible: int, prev: int, sel_start: int, sel_end: int)
    requires
        0 <= visible,
        0 <= prev,
        0 <= sel_start <= sel_end <= total,
        sel_end - sel_start <= visible,
    ensures
        ({
            let s = sticky_scroll(total, visible, prev, sel_start, sel_end);
            &&& 0 <= s
            &&& s <= sel_start
            &&& sel_end <= s + visible
            &&& (total > visible ==> s + visible <= total)
        }),
{
}

/// Scrolling again with the same selection leaves the view where it is.
pub proof fn lemma_sticky_scroll_stable(total: int, visible: int, prev: int, sel_start: int, sel_end: int)
    requires
        0 <= visible,
        0 <= prev,
        0 <= sel_start <= sel_end <= total,
        sel_end - sel_start <= visible,
    ensures
        sticky_scroll(total, visible, sticky_scroll(total, visible, prev, sel_start, sel_end), sel_start, sel_end)
            == sticky_scroll(total, visible, prev, sel_start, sel_end),
{
}

/// One display line per row, each a single span in `st`.
pub open spec fn row_lines(rows: Seq<Seq<char>>, st: Style) -> Seq<LineV> {
    rows.map_values(|r: Seq<char>| seq![(r, st)])
}

/// A section heading of the detail view.
pub open spec fn heading(t: Seq<char>, theme: Theme) -> LineV {
    seq![(t, with_mod(fg_style(theme.muted), BOLD))]
}

/// A dimmed note line of the detail view.
pub open spec fn note(t: Seq<char>, theme: Theme) -> LineV {
    seq![(t, fg_style(theme.muted))]
}

/// The rows of each line of `ls` at `width`, one line after another.
pub open spec fn rows_of_each(ls: Seq<Seq<char>>, width: nat) -> Seq<Seq<char>>
    decreases ls.len(),
{
    if ls.len() == 0 {
        Seq::empty()
    } else {
        rows_of_each(ls.drop_last(), width) + width_rows(ls.last(), width)
    }
}

/// A heading, the text `t` broken at `width` in style `st`, and a blank line.
pub open spec fn section(title: Seq<char>, t: Seq<char>, width: nat, st: Style, theme: Theme) -> Seq<LineV> {
    seq![heading(title, theme)] + row_lines(width_rows(t, width), st) + seq![Seq::<SpanV>::empty()]
}

/// A section for an optional text: nothing when there is none.
pub open spec fn opt_section(title: Seq<char>, o: Option<String>, width: nat, st: Style, theme: Theme) -> Seq<LineV> {
    match o {
        Some(t) => section(title, t@, width, st, theme),
        None => Seq::empty(),
    }
}

/// The title line of the detail view: the category label in brackets and
/// the name.
pub open spec fn detail_title(c: CtfChallenge, category: Seq<char>, theme: Theme) -> LineV {
    seq![
        ("["@ + category + "]"@, with_mod(fg_style(theme.accent), BOLD)),
        (" "@, plain_style()),
        (c.name@, with_mod(fg_style(theme.fg), BOLD)),
    ]
}

/// The tags section: nothing without tags, else the tags joined by `、`.
pub open spec fn detail_tags(c: CtfChallenge, width: nat, theme: Theme) -> Seq<LineV> {
    if c.tags@.len() == 0 {
        Seq::empty()
    } else {
        section("Tag"@, join(c.tags@.map_values(|t: String| t@), "、"@), width, fg_style(theme.fg), theme)
    }
}

/// The times line: start, end and time taken (`--` where unknown).
pub open spec fn detail_time(c: CtfChallenge, duration: Option<Seq<char>>, theme: Theme) -> LineV {
    let end = match opt_view(c.end_time) {
        Some(e) => e,
        None => "--"@,
    };
    let dur = match duration {
        Some(d) => d,
        None => "--"@,
    };
    seq![(c.start_time@ + " - "@ + end + "  "@ + dur, fg_style(theme.muted))]
}

/// A rule across the view.
pub open spec fn detail_rule(width: nat, theme: Theme) -> LineV {
    seq![(repeat('─', width), fg_style(theme.border))]
}

/// The writeup rendered as markdown, or a note when it is missing or
/// renders to nothing.
pub open spec fn detail_writeup(c: CtfChallenge, theme: Theme) -> Seq<LineV> {
    match c.writeup {
        Some(w) => if spec_render(w@, md_colors(theme)).len() == 0 {
            seq![note("（空）"@, theme)]
        } else {
            spec_render(w@, md_colors(theme))
        },
        None => seq![note("（未撰写）"@, theme)],
    }
}

/// The key points, each of their lines broken at the width, or a note when
/// there are none.
pub open spec fn detail_key_points(c: CtfChallenge, width: nat, theme: Theme) -> Seq<LineV> {
    match c.key_points {
        Some(k) => row_lines(rows_of_each(lines(k@), width), fg_style(theme.fg)),
        None => seq![note("（无）"@, theme)],
    }
}

/// The detail view of challenge `c`, `width` columns wide: the title, the
/// description, the target, flag and tags where there are any, the times,
/// a rule, the writeup, another rule and the key points.
pub open spec fn spec_detail_lines(
    c: CtfChallenge,
    category: Seq<char>,
    duration: Option<Seq<char>>,
    width: nat,
    theme: Theme,
) -> Seq<LineV> {
    let fg = fg_style(theme.fg);
    seq![detail_title(c, category, theme), Seq::<SpanV>::empty()]
        + section("题目描述"@, c.description@, width, fg, theme)
        + opt_section("靶机"@, c.target, width, fg, theme)
        + opt_section("Flag"@, c.flag, width, fg_style(theme.accent), theme)
        + detail_tags(c, width, theme)
        + seq![detail_time(c, duration, theme), Seq::<SpanV>::empty(), detail_rule(width, theme), heading("Writeup"@, theme)]
        + detail_writeup(c, theme)
        + seq![Seq::<SpanV>::empty(), detail_rule(width, theme), heading("关键知识点 / 卡点"@, theme)]
        + detail_key_points(c, width, theme)
}

fn push_line(out: &mut Vec<Line>, spans: Vec<Span>)
    ensures
        lines_view(final(out)@) == lines_view(old(out)@).push(spans_view(spans@)),
{
    let l = line(spans);
    let ghost before = out@;
    out.push(l);
    assert(lines_view(before.push(l)) =~= lines_view(before).push(l@));
}

fn push_text_line(out: &mut Vec<Line>, t: String, st: Style)
    ensures
        lines_view(final(out)@) == lines_view(old(out)@).push(seq![(t@, st)]),
{
    let mut v: Vec<Span> = Vec::new();
    v.push(span(t, st));
    assert(spans_view(v@) =~= seq![(t@, st)]);
    push_line(out, v);
}

fn push_blank(out: &mut Vec<Line>)
    ensures
        lines_view(final(out)@) == lines_view(old(out)@).push(Seq::<SpanV>::empty()),
{
    let v: Vec<Span> = Vec::new();
    assert(spans_view(v@) =~= Seq::<SpanV>::empty());
    push_line(out, v);
}

fn push_rows(out: &mut Vec<Line>, s: &str, width: usize, st: Style)
    ensures
        lines_view(final(out)@) == lines_view(old(out)@) + row_lines(width_rows(s@, width as nat), st),
{
    let rows = wrap_text_by_width(s, width);
    let ghost want = width_rows(s@, width as nat);
    let ghost start = lines_view(out@);
    let mut i: usize = 0;
    while i < rows.len()
        invariant
            i <= rows@.len(),
            strings_view(rows@) == want,
            lines_view(out@) == start + row_lines(want.take(i as int), st),
        decreases rows@.len() - i,
    {
        push_text_line(out, copy_string(&rows[i]), st);
        assert(want.take(i + 1) =~= want.take(i as int).push(want[i as int]));
        assert(row_lines(want.take(i + 1), st) =~= row_lines(want.take(i as int), st).push(
            seq![(want[i as int], st)],
        ));
        i = i + 1;
    }
    assert(want.take(rows@.len() as int) =~= want);
}

fn push_section(out: &mut Vec<Line>, title: &str, t: &str, width: usize, st: Style, theme: &Theme)
    ensures
        lines_view(final(out)@) == lines_view(old(out)@) + section(title@, t@, width as nat, st, *theme),
{
    let ghost start = lines_view(out@);
    push_text_line(out, title.to_owned(), Style::new().fg(theme.muted).add(BOLD));
    push_rows(out, t, width, st);
    push_blank(out);
    assert(lines_view(out@) =~= start + section(title@, t@, width as nat, st, *theme));
}

fn push_opt_section(
    out: &mut Vec<Line>,
    title: &str,
    o: &Option<String>,
    width: usize,
    st: Style,
    theme: &Theme,
)
    ensures
        lines_view(final(out)@) == lines_view(old(out)@) + opt_section(title@, *o, width as nat, st, *theme),
{
    match o {
        Some(t) => push_section(out, title, t.as_str(), width, st, theme),
        None => {
            assert(lines_view(out@) =~= lines_view(out@) + Seq::<LineV>::empty());
        },
    }
}

fn join_tags(tags: &Vec<String>) -> (r: String)
    ensures
        r@ == join(tags@.map_values(|t: String| t@), "、"@),
{
    let ghost tv = tags@.map_values(|t: String| t@);
    let mut r = String::new();
    let mut i: usize = 0;
    while i < tags.len()
        invariant
            i <= tags@.len(),
            tv == tags@.map_values(|t: String| t@),
            r@ == join(tv.take(i as int), "、"@),
        decreases tags@.len() - i,
    {
        if i > 0 {
            push_str(&mut r, "、");
        }
        push_str(&mut r, tags[i].as_str());
        proof {
            let t = tv.take(i + 1);
            assert(t.drop_last() =~= tv.take(i as int));
            if i == 0 {
                assert(t.len() == 1);
                assert(r@ =~= t[0]);
            }
        }
        assert(r@ =~= join(tv.take(i + 1), "、"@));
        i = i + 1;
    }
    assert(tv.take(tags@.len() as int) =~= tv);
    r
}

fn title_line(c: &CtfChallenge, category: &str, theme: &Theme) -> (l: Vec<Span>)
    ensures
        spans_view(l@) == detail_title(*c, category@, *theme),
{
    let mut t = String::new();
    push_str(&mut t, "[");
    push_str(&mut t, category);
    push_str(&mut t, "]");
    let mut v: Vec<Span> = Vec::new();
    v.push(span(t, Style::new().fg(theme.accent).add(BOLD)));
    v.push(span_str(" ", Style::new()));
    v.push(span(copy_string(&c.name), Style::new().fg(theme.fg).add(BOLD)));
    assert(spans_view(v@) =~= detail_title(*c, category@, *theme));
    v
}

fn push_tags(out: &mut Vec<Line>, c: &CtfChallenge, width: usize, theme: &Theme)
    ensures
        lines_view(final(out)@) == lines_view(old(out)@) + detail_tags(*c, width as nat, *theme),
{
    if c.tags.len() > 0 {
        let joined = join_tags(&c.tags);
        push_section(out, "Tag", joined.as_str(), width, Style::new().fg(theme.fg), theme);
    } else {
        assert(lines_view(out@) =~= lines_view(out@) + Seq::<LineV>::empty());
    }
}

fn time_text(c: &CtfChallenge, duration: &Option<String>, theme: &Theme) -> (r: String)
    ensures
        detail_time(*c, opt_view(*duration), *theme) == seq![(r@, fg_style(theme.muted))],
{
    let mut time = copy_string(&c.start_time);
    push_str(&mut time, " - ");
    match &c.end_time {
        Some(e) => push_str(&mut time, e.as_str()),
        None => push_str(&mut time, "--"),
    }
    push_str(&mut time, "  ");
    match duration {
        Some(d) => push_str(&mut time, d.as_str()),
        None => push_str(&mut time, "--"),
    }
    time
}

fn push_writeup(out: &mut Vec<Line>, c: &CtfChallenge, theme: &Theme)
    ensures
        lines_view(final(out)@) == lines_view(old(out)@) + detail_writeup(*c, *theme),
{
    let ghost start = lines_view(out@);
    match &c.writeup {
        Some(w) => {
            let wl = render(w.as_str(), theme);
            if wl.len() == 0 {
                push_text_line(out, "（空）".to_owned(), Style::new().fg(theme.muted));
            } else {
                append_lines(out, wl);
            }
        },
        None => {
            push_text_line(out, "（未撰写）".to_owned(), Style::new().fg(theme.muted));
        },
    }
    assert(lines_view(out@) =~= start + detail_writeup(*c, *theme));
}

fn push_key_points(out: &mut Vec<Line>, c: &CtfChallenge, width: usize, theme: &Theme)
    ensures
        lines_view(final(out)@) == lines_view(old(out)@) + detail_key_points(*c, width as nat, *theme),
{
    let fg = Style::new().fg(theme.fg);
    let ghost start = lines_view(out@);
    match &c.key_points {
        Some(k) => {
            let ls = lines_of(k.as_str());
            let ghost gl = lines(k@);
            let mut i: usize = 0;
            while i < ls.len()
                invariant
                    i <= ls@.len(),
                    ls@.len() == gl.len(),
                    forall|m: int| 0 <= m < ls@.len() ==> #[trigger] ls@[m]@ == gl[m],
                    fg == fg_style(theme.fg),
                    lines_view(out@) == start + row_lines(rows_of_each(gl.take(i as int), width as nat), fg),
                decreases ls@.len() - i,
            {
                push_rows(out, ls[i].as_str(), width, fg);
                proof {
                    let t = gl.take(i + 1);
                    assert(t.drop_last() =~= gl.take(i as int));
                    assert(row_lines(rows_of_each(t, width as nat), fg) =~= row_lines(
                        rows_of_each(gl.take(i as int), width as nat),
                        fg,
                    ) + row_lines(width_rows(gl[i as int], width as nat), fg));
                }
                i = i + 1;
            }
            assert(gl.take(ls@.len() as int) =~= gl);
        },
        None => {
            push_text_line(out, "（无）".to_owned(), Style::new().fg(theme.muted));
        },
    }
    assert(lines_view(out@) =~= start + detail_key_points(*c, width as nat, *theme));
}

/// The detail view of challenge `c` (see `spec_detail_lines`); the label of
/// its category and the time it took are named by the caller.
pub fn detail_lines(
    c: &CtfChallenge,
    category: &str,
    duration: Option<String>,
    width: usize,
    theme: &Theme,
) -> (r: Vec<Line>)
    ensures
        lines_view(r@) == spec_detail_lines(*c, category@, opt_view(duration), width as nat, *theme),
{
    let mut out: Vec<Line> = Vec::new();
    let fg = Style::new().fg(theme.fg);
    push_line(&mut out, title_line(c, category, theme));
    push_blank(&mut out);
    let ghost l0 = lines_view(out@);
    push_section(&mut out, "题目描述", c.description.as_str(), width, fg, theme);
    let ghost l1 = lines_view(out@);
    push_opt_section(&mut out, "靶机", &c.target, width, fg, theme);
    let ghost l2 = lines_view(out@);
    push_opt_section(&mut out, "Flag", &c.flag, width, Style::new().fg(theme.accent), theme);
    let ghost l3 = lines_view(out@);
    push_tags(&mut out, c, width, theme);
    let ghost l4 = lines_view(out@);
    push_text_line(&mut out, time_text(c, &duration, theme), Style::new().fg(theme.muted));
    push_blank(&mut out);
    let rule_style = Style::new().fg(theme.border);
    push_text_line(&mut out, repeat_char('─', width), rule_style);
    push_text_line(&mut out, "Writeup".to_owned(), Style::new().fg(theme.muted).add(BOLD));
    let ghost l5 = lines_view(out@);
    push_writeup(&mut out, c, theme);
    let ghost l6 = lines_view(out@);
    push_blank(&mut out);
    push_text_line(&mut out, repeat_char('─', width), rule_style);
    push_text_line(&mut out, "关键知识点 / 卡点".to_owned(), Style::new().fg(theme.muted).add(BOLD));
    let ghost l7 = lines_view(out@);
    push_key_points(&mut out, c, width, theme);
    proof {
        let w = width as nat;
        let t = *theme;
        assert(l0 =~= seq![detail_title(*c, category@, t), Seq::<SpanV>::empty()]);
        assert(l5 =~= l4 + seq![detail_time(*c, opt_view(duration), t), Seq::<SpanV>::empty(), detail_rule(w, t), heading("Writeup"@, t)]);
        assert(l7 =~= l6 + seq![Seq::<SpanV>::empty(), detail_rule(w, t), heading("关键知识点 / 卡点"@, t)]);
        assert(lines_view(out@) =~= spec_detail_lines(*c, category@, opt_view(duration), w, t));
    }
    out
}

/// Columns left for a challenge's name on its first list row (the marker,
/// number, category, status and scope mark take 20).
pub open spec fn name_width(width: nat) -> nat {
    if width > 20 {
        (width - 20) as nat
    } else {
        0
    }
}

/// Rows challenge `c` takes in a list `width` columns wide: its name's rows,
/// the times row and a blank row.
pub open spec fn item_height(c: CtfChallenge, width: nat) -> int {
    width_rows(c.name@, name_width(width)).len() + 2int
}

/// The heights of the challenges `cs` in the list.
pub open spec fn list_heights(cs: Seq<CtfChallenge>, width: nat) -> Seq<usize> {
    Seq::new(cs.len(), |i: int| item_height(cs[i], width) as usize)
}

/// Every height and the whole list fit the machine's counters.
pub open spec fn list_fits(cs: Seq<CtfChallenge>, width: nat) -> bool {
    &&& forall|i: int| 0 <= i < cs.len() ==> #[trigger] item_height(cs[i], width) <= usize::MAX
    &&& total_rows(list_heights(cs, width)) <= usize::MAX
}

/// The rows each challenge takes in a list `width` columns wide.
pub fn list_item_heights(cs: &Vec<CtfChallenge>, width: usize) -> (r: Vec<usize>)
    requires
        forall|i: int| 0 <= i < cs@.len() ==> #[trigger] item_height(cs@[i], width as nat) <= usize::MAX,
    ensures
        r@ == list_heights(cs@, width as nat),
{
    let nw: usize = if width > 20 {
        width - 20
    } else {
        0
    };
    let mut r: Vec<usize> = Vec::new();
    let mut i: usize = 0;
    while i < cs.len()
        invariant
            i <= cs@.len(),
            nw == name_width(width as nat),
            forall|k: int| 0 <= k < cs@.len() ==> #[trigger] item_height(cs@[k], width as nat) <= usize::MAX,
            r@ =~= list_heights(cs@, width as nat).take(i as int),
        decreases cs@.len() - i,
    {
        let parts = wrap_text_by_width(cs[i].name.as_str(), nw);
        proof {
            assert(strings_view(parts@).len() == parts@.len());
            assert(item_height(cs@[i as int], width as nat) <= usize::MAX);
        }
        r.push(parts.len() + 2);
        i = i + 1;
    }
    r
}

/// The scroll offset of the challenge list (see `scroll_offset`), each
/// challenge as tall as `item_height` says.
pub fn list_scroll(cs: &Vec<CtfChallenge>, width: usize, visible: usize, selected: usize, prev: usize) -> (r: usize)
    requires
        list_fits(cs@, width as nat),
    ensures
        ({
            let h = list_heights(cs@, width as nat);
            r == sticky_scroll(
                total_rows(h),
                visible as int,
                prev as int,
                if selected < h.len() { item_start(h, selected as int) } else { 0 },
                if selected < h.len() { item_start(h, selected + 1) } else { total_rows(h) },
            )
        }),
{
    let h = list_item_heights(cs, width);
    scroll_offset(&h, selected, visible, prev)
}

proof fn lemma_fill_len(n: int, w: spec_fn(int) -> nat, width: nat, start: int, i: int, row_w: nat)
    ensures
        fill(n, w, width, start, i, row_w).len() >= 1,
    decreases n - i,
{
    if i < n {
        if i > start && row_w + w(i) > width {
            lemma_fill_len(n, w, width, i, i + 1, w(i));
        } else {
            lemma_fill_len(n, w, width, start, i + 1, row_w + w(i));
        }
    }
}

/// A text always takes at least one row.
pub proof fn lemma_width_rows_nonempty(s: Seq<char>, width: nat)
    ensures
        width_rows(s, width).len() >= 1,
{
    if width > 0 {
        lemma_fill_len(s.len() as int, |k: int| text_width(s[k]), width, 0, 0, 0);
    }
}

/// What the list shows of a challenge besides its record: the label of its
/// category, the time it took (if known) and whether it has a writeup.
pub struct ListExtras {
    pub category: String,
    pub duration: Option<String>,
    pub has_writeup: bool,
}

/// The style of a list entry's name: bold, highlighted when selected.
pub open spec fn name_style(selected: bool, theme: Theme) -> Style {
    if selected {
        Style { fg: Some(theme.sel_fg), bg: Some(theme.sel_bg), add_modifier: BOLD }
    } else {
        Style { fg: Some(theme.fg), bg: None, add_modifier: BOLD }
    }
}

/// The lines of challenge `c`, entry `i` of the list (`x` what the caller
/// knows of it), `width` columns wide: the marker, the number, the category
/// in brackets, the first row of the name, the status and a star when it is
/// shared by all sessions; the name's further rows, indented; the start and
/// end times, the time taken and a writeup mark; a blank line.
pub open spec fn spec_item_lines(c: CtfChallenge, i: int, x: ListExtras, selected: bool, width: nat, theme: Theme) -> Seq<LineV> {
    let parts = width_rows(c.name@, name_width(width));
    let solved = c.status == CtfStatus::Solved;
    let first: LineV = seq![
        (if selected { "▸ "@ } else { "  "@ }, plain_style()),
        (decimal((i + 1) as nat) + ". "@, fg_style(theme.muted)),
        ("["@ + x.category@ + "]"@, Style { fg: Some(theme.accent), bg: None, add_modifier: BOLD }),
        (" "@, plain_style()),
        (parts[0], name_style(selected, theme)),
        ("  "@, plain_style()),
        (if solved { "已完成"@ } else { "进行中"@ }, fg_style(if solved { theme.accent } else { theme.muted })),
        (if c.is_global { "★"@ } else { " "@ }, fg_style(theme.accent)),
    ];
    let more = parts.skip(1).map_values(|p: Seq<char>| seq![("    "@, plain_style()), (p, name_style(selected, theme))]);
    let times: LineV = seq![
        ("    "@, plain_style()),
        (c.start_time@, fg_style(theme.muted)),
        ("  "@, plain_style()),
        (match opt_view(c.end_time) { Some(e) => e, None => "--"@ }, fg_style(theme.muted)),
        ("  "@, plain_style()),
        (match opt_view(x.duration) { Some(d) => d, None => "--"@ }, fg_style(theme.muted)),
        ("  "@, plain_style()),
        (if x.has_writeup { "已写WP"@ } else { ""@ }, fg_style(theme.accent)),
    ];
    seq![first] + more + seq![times, Seq::<SpanV>::empty()]
}

/// A challenge takes as many lines in the list as `item_height` counts, so
/// the scroll that `list_scroll` computes matches the lines drawn.
pub proof fn lemma_item_lines_height(c: CtfChallenge, i: int, x: ListExtras, selected: bool, width: nat, theme: Theme)
    ensures
        spec_item_lines(c, i, x, selected, width, theme).len() == item_height(c, width),
{
    lemma_width_rows_nonempty(c.name@, name_width(width));
}

/// The lines of the first `n` challenges of `cs`.
pub open spec fn items_lines(cs: Seq<CtfChallenge>, xs: Seq<ListExtras>, n: int, selected: usize, width: nat, theme: Theme) -> Seq<LineV>
    decreases n,
{
    if n <= 0 {
        Seq::empty()
    } else {
        items_lines(cs, xs, n - 1, selected, width, theme) + spec_item_lines(
            cs[n - 1],
            n - 1,
            xs[n - 1],
            n - 1 == selected,
            width,
            theme,
        )
    }
}

/// The list view: a note when there is no challenge, else each challenge's
/// lines (see `spec_item_lines`), selection on entry `selected`.
pub open spec fn spec_list_lines(cs: Seq<CtfChallenge>, xs: Seq<ListExtras>, selected: usize, width: nat, theme: Theme) -> Seq<LineV> {
    if cs.len() == 0 {
        seq![seq![("（无题目）"@, fg_style(theme.muted))]]
    } else {
        items_lines(cs, xs, cs.len() as int, selected, width, theme)
    }
}

/// The key hint under the list.
pub open spec fn list_hint(empty: bool) -> Seq<char> {
    if empty {
        "Ctrl+T 关闭面板"@
    } else {
        "↑↓/PgUpPgDn选择 Enter查看 d删除 s状态 g全局 G全部全局 e编辑 Esc关闭"@
    }
}

fn styled(t: String, st: Style) -> (s: Span)
    ensures
        s@ == (t@, st),
{
    Span { content: t, style: st }
}

fn push_item(out: &mut Vec<Line>, c: &CtfChallenge, i: usize, x: &ListExtras, selected: bool, width: usize, theme: &Theme)
    requires
        i < u64::MAX,
    ensures
        lines_view(final(out)@) == lines_view(old(out)@) + spec_item_lines(*c, i as int, *x, selected, width as nat, *theme),
{
    let ghost start = lines_view(out@);
    let nw: usize = if width > 20 {
        width - 20
    } else {
        0
    };
    let parts = wrap_text_by_width(c.name.as_str(), nw);
    let ghost pv = strings_view(parts@);
    assert(pv == width_rows(c.name@, name_width(width as nat)));
    proof {
        lemma_width_rows_nonempty(c.name@, name_width(width as nat));
    }
    let plain = Style::new();
    let muted = Style { fg: Some(theme.muted), bg: None, add_modifier: 0 };
    let accent = Style { fg: Some(theme.accent), bg: None, add_modifier: 0 };
    let nst = if selected {
        Style { fg: Some(theme.sel_fg), bg: Some(theme.sel_bg), add_modifier: BOLD }
    } else {
        Style { fg: Some(theme.fg), bg: None, add_modifier: BOLD }
    };
    let solved = c.is_solved();
    let mut num = String::new();
    push_decimal(&mut num, (i as u64) + 1);
    push_str(&mut num, ". ");
    let mut cat = String::new();
    push_str(&mut cat, "[");
    push_str(&mut cat, x.category.as_str());
    push_str(&mut cat, "]");
    let mut first: Vec<Span> = Vec::new();
    first.push(styled((if selected { "▸ " } else { "  " }).to_owned(), plain));
    first.push(styled(num, muted));
    first.push(styled(cat, Style { fg: Some(theme.accent), bg: None, add_modifier: BOLD }));
    first.push(styled(" ".to_owned(), plain));
    first.push(styled(copy_string(&parts[0]), nst));
    first.push(styled("  ".to_owned(), plain));
    first.push(styled((if solved { "已完成" } else { "进行中" }).to_owned(), if solved { accent } else { muted }));
    first.push(styled((if c.is_global { "★" } else { " " }).to_owned(), accent));
    let ghost want = spec_item_lines(*c, i as int, *x, selected, width as nat, *theme);
    assert(spans_view(first@) =~= want[0]);
    push_line(out, first);
    let ghost more = pv.skip(1).map_values(|p: Seq<char>| seq![("    "@, plain_style()), (p, name_style(selected, *theme))]);
    let mut k: usize = 1;
    while k < parts.len()
        invariant
            1 <= k <= parts@.len(),
            pv == strings_view(parts@),
            more == pv.skip(1).map_values(|p: Seq<char>| seq![("    "@, plain_style()), (p, name_style(selected, *theme))]),
            nst == name_style(selected, *theme),
            plain == plain_style(),
            lines_view(out@) == start + seq![want[0]] + more.take(k - 1),
        decreases parts@.len() - k,
    {
        let mut v: Vec<Span> = Vec::new();
        v.push(styled("    ".to_owned(), plain));
        v.push(styled(copy_string(&parts[k]), nst));
        assert(spans_view(v@) =~= more[k - 1]);
        push_line(out, v);
        assert(more.take(k as int) =~= more.take(k - 1).push(more[k - 1]));
        k = k + 1;
    }
    assert(more.take(k - 1) =~= more);
    let mut times: Vec<Span> = Vec::new();
    times.push(styled("    ".to_owned(), plain));
    times.push(styled(copy_string(&c.start_time), muted));
    times.push(styled("  ".to_owned(), plain));
    times.push(styled(match &c.end_time { Some(e) => copy_string(e), None => "--".to_owned() }, muted));
    times.push(styled("  ".to_owned(), plain));
    times.push(styled(match &x.duration { Some(d) => copy_string(d), None => "--".to_owned() }, muted));
    times.push(styled("  ".to_owned(), plain));
    times.push(styled((if x.has_writeup { "已写WP" } else { "" }).to_owned(), accent));
    let ghost tv = spans_view(times@);
    let ghost tspec: LineV = seq![
        ("    "@, plain_style()),
        (c.start_time@, fg_style(theme.muted)),
        ("  "@, plain_style()),
        (match opt_view(c.end_time) { Some(e) => e, None => "--"@ }, fg_style(theme.muted)),
        ("  "@, plain_style()),
        (match opt_view(x.duration) { Some(d) => d, None => "--"@ }, fg_style(theme.muted)),
        ("  "@, plain_style()),
        (if x.has_writeup { "已写WP"@ } else { ""@ }, fg_style(theme.accent)),
    ];
    assert(tv =~= tspec);
    assert(want =~= seq![want[0]] + more + seq![tspec, Seq::<SpanV>::empty()]);
    let ghost mid = lines_view(out@);
    push_line(out, times);
    push_blank(out);
    assert(lines_view(out@) =~= mid + seq![tspec, Seq::<SpanV>::empty()]);
    assert(lines_view(out@) =~= start + want);
}

/// The list view (see `spec_list_lines`); `extras` holds what the caller
/// knows of each challenge.
pub fn list_lines(cs: &Vec<CtfChallenge>, extras: &Vec<ListExtras>, selected: usize, width: usize, theme: &Theme) -> (r: Vec<Line>)
    requires
        extras@.len() == cs@.len(),
    ensures
        lines_view(r@) == spec_list_lines(cs@, extras@, selected, width as nat, *theme),
{
    let mut out: Vec<Line> = Vec::new();
    if cs.len() == 0 {
        push_text_line(&mut out, "（无题目）".to_owned(), Style { fg: Some(theme.muted), bg: None, add_modifier: 0 });
        assert(lines_view(out@) =~= spec_list_lines(cs@, extras@, selected, width as nat, *theme));
        return out;
    }
    let mut i: usize = 0;
    while i < cs.len()
        invariant
            i <= cs@.len(),
            extras@.len() == cs@.len(),
            lines_view(out@) == items_lines(cs@, extras@, i as int, selected, width as nat, *theme),
        decreases cs@.len() - i,
    {
        assert(lines_view(out@) =~= items_lines(cs@, extras@, i as int, selected, width as nat, *theme));
        push_item(&mut out, &cs[i], i, &extras[i], i == selected, width, theme);
        i = i + 1;
    }
    out
}

/// The key hint under the list (see `list_hint`).
pub fn list_hint_text(empty: bool) -> (r: &'static str)
    ensures
        r@ == list_hint(empty),
{
    if empty {
        "Ctrl+T 关闭面板"
    } else {
        "↑↓/PgUpPgDn选择 Enter查看 d删除 s状态 g全局 G全部全局 e编辑 Esc关闭"
    }
}

} // verus!
