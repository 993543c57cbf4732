//! A small Markdown renderer for assistant messages.
//!
//! Covers the subset that model output uses: headers (`#`), fenced code
//! blocks (three backticks or tildes), inline code, bold (`**`), bold italic
//! (`***`), italic (`*`), underline (`<u>`, `<ins>`), strike-through (`~~`),
//! links (`[text](url)`), list items (`-`, `*`, `+`, `1.`), quotes (`>`),
//! rules (`---`) and math (inline `$..$`, single-line `$$..$$` and `$$`
//! blocks). Streaming text may end inside a construct: an unclosed inline
//! marker stays plain text (no character is dropped) and an unclosed block
//! still shows the lines gathered so far.
use vstd::prelude::*;

use crate::style::{
    append_spans, fg_style, line, lines_view, plain_style, span, span_str, spans_view, with_mod,
    Color, Line, LineV, Span, SpanV, Style, BOLD, CROSSED_OUT, DIM, ITALIC, UNDERLINED,
};
use crate::text::{
    chars_range, is_ws, lines, push_char, starts_with, starts_with_at, str_chars, str_lines,
    string_from_range, trim, trim_bounds, trim_start, trim_start_index,
};
use crate::theme::Theme;

verus! {

broadcast use vstd::string::group_string_axioms;

/// The colours the renderer uses, taken from the theme.
#[derive(Debug, Clone, Copy, PartialEq, Eq, Structural)]
pub struct MdColors {
    pub fg: Color,
    pub code_fg: Color,
    pub header: Color,
    pub link: Color,
    pub quote: Color,
    pub list: Color,
    pub hr: Color,
    pub math: Color,
}

pub open spec fn md_colors(t: Theme) -> MdColors {
    MdColors {
        fg: t.fg,
        code_fg: t.title,
        header: t.accent,
        link: t.accent,
        quote: t.muted,
        list: t.accent,
        hr: t.muted,
        math: t.accent,
    }
}

impl MdColors {
    pub fn from_theme(t: &Theme) -> (m: MdColors)
        ensures
            m == md_colors(*t),
    {
        MdColors {
            fg: t.fg,
            code_fg: t.title,
            header: t.accent,
            link: t.accent,
            quote: t.muted,
            list: t.accent,
            hr: t.muted,
            math: t.accent,
        }
    }
}

// ---------------------------------------------------------------------------
// Inline specification
// ---------------------------------------------------------------------------

/// Index of the first occurrence of `p` in `s`, or -1.
pub open spec fn find_seq(s: Seq<char>, p: Seq<char>) -> int
    decreases s.len(),
{
    if p.len() > s.len() {
        -1
    } else if s.subrange(0, p.len() as int) == p {
        0
    } else if s.len() == 0 {
        -1
    } else {
        let r = find_seq(s.drop_first(), p);
        if r < 0 {
            -1
        } else {
            r + 1
        }
    }
}

/// Position of the `*` that closes an italic run opened at 0, scanning from
/// `j` and stepping over `**` pairs; -1 when there is none.
pub open spec fn italic_close(s: Seq<char>, j: int) -> int
    decreases s.len() - j,
{
    if j < 0 || j >= s.len() {
        -1
    } else if s[j] == '*' {
        if j + 1 < s.len() && s[j + 1] == '*' {
            italic_close(s, j + 2)
        } else {
            j
        }
    } else {
        italic_close(s, j + 1)
    }
}

pub proof fn lemma_italic_close_range(s: Seq<char>, j: int)
    ensures
        italic_close(s, j) >= 0 ==> j <= italic_close(s, j) < s.len() && s[italic_close(s, j)]
            == '*',
    decreases s.len() - j,
{
    if 0 <= j < s.len() {
        if s[j] == '*' {
            if j + 1 < s.len() && s[j + 1] == '*' {
                lemma_italic_close_range(s, j + 2);
            }
        } else {
            lemma_italic_close_range(s, j + 1);
        }
    }
}

/// `s[a..b]` when that range lies inside `s`, else empty.
pub open spec fn part(s: Seq<char>, a: int, b: int) -> Seq<char> {
    if 0 <= a <= b <= s.len() {
        s.subrange(a, b)
    } else {
        Seq::empty()
    }
}

/// `spans` with the modifier bits `m` added to each style.
pub open spec fn add_mods(spans: Seq<SpanV>, m: u16) -> Seq<SpanV> {
    spans.map_values(|sp: SpanV| (sp.0, with_mod(sp.1, m)))
}

/// `spans` restyled as link text.
pub open spec fn as_link(spans: Seq<SpanV>, md: MdColors) -> Seq<SpanV> {
    spans.map_values(|sp: SpanV| (sp.0, with_mod(fg_style(md.link), UNDERLINED)))
}

pub open spec fn code_style(md: MdColors) -> Style {
    with_mod(fg_style(md.code_fg), DIM)
}

pub open spec fn math_style(md: MdColors) -> Style {
    with_mod(fg_style(md.math), ITALIC)
}

/// A span of ordinary text, if any.
pub open spec fn flush_plain(plain: Seq<char>, md: MdColors) -> Seq<SpanV> {
    if plain.len() > 0 {
        seq![(plain, fg_style(md.fg))]
    } else {
        Seq::empty()
    }
}

/// Inline code: a backtick, text, a backtick. The text is shown as is.
pub open spec fn m_code(s: Seq<char>, md: MdColors) -> Option<(int, Seq<SpanV>)> {
    let r1 = s.skip(1);
    if s.len() >= 1 && s[0] == '`' && find_seq(r1, seq!['`']) >= 0 {
        let e = find_seq(r1, seq!['`']);
        Some((e + 2, seq![(r1.take(e), code_style(md))]))
    } else {
        None
    }
}

/// A run between `open` and the first `close` after it, rendered inline and
/// given the modifier bits `m`.
pub open spec fn m_wrap(s: Seq<char>, open: Seq<char>, close: Seq<char>, m: u16, md: MdColors) -> Option<
    (int, Seq<SpanV>),
>
    decreases s.len(), 0int,
{
    let r = s.skip(open.len() as int);
    if open.len() >= 1 && starts_with(s, open) && find_seq(r, close) >= 0 {
        let e = find_seq(r, close);
        Some(
            (
                e + open.len() + close.len(),
                add_mods(rich_acc(Seq::empty(), part(s, open.len() as int, open.len() + e), md), m),
            ),
        )
    } else {
        None
    }
}

/// Italic: a `*` not followed by another `*`, then text up to the next `*`
/// that is not part of a `**`. A `**` that no bold rule closes is therefore
/// no italic run either: it stays plain text.
pub open spec fn m_italic(s: Seq<char>, md: MdColors) -> Option<(int, Seq<SpanV>)>
    decreases s.len(), 0int,
{
    if s.len() >= 2 && s[0] == '*' && s[1] != '*' && italic_close(s, 1) >= 0 {
        let j = italic_close(s, 1);
        Some((j + 1, add_mods(rich_acc(Seq::empty(), part(s, 1, j), md), ITALIC)))
    } else {
        None
    }
}

/// Single-line display math: `$$`, non-empty text, `$$`; shown as is.
pub open spec fn m_dmath(s: Seq<char>, md: MdColors) -> Option<(int, Seq<SpanV>)> {
    let r2 = s.skip(2);
    if starts_with(s, seq!['$', '$']) && find_seq(r2, seq!['$', '$']) > 0 {
        let e = find_seq(r2, seq!['$', '$']);
        Some((e + 4, seq![(r2.take(e), math_style(md))]))
    } else {
        None
    }
}

/// Inline math: `$`, text that neither starts nor ends with a space, `$`;
/// shown as is (so a lone `$5` stays text).
pub open spec fn m_imath(s: Seq<char>, md: MdColors) -> Option<(int, Seq<SpanV>)> {
    let r1 = s.skip(1);
    if s.len() >= 2 && s[0] == '$' && s[1] != ' ' && find_seq(r1, seq!['$']) > 0 && r1[find_seq(
        r1,
        seq!['$'],
    ) - 1] != ' ' {
        let e = find_seq(r1, seq!['$']);
        Some((e + 2, seq![(r1.take(e), math_style(md))]))
    } else {
        None
    }
}

/// Link: `[text](url)`; the text is rendered inline in the link style.
pub open spec fn m_link(s: Seq<char>, md: MdColors) -> Option<(int, Seq<SpanV>)>
    decreases s.len(), 0int,
{
    let t = find_seq(s, seq![']']);
    if s.len() >= 1 && s[0] == '[' && t >= 0 && starts_with(s.skip(t), seq![']', '('])
        && find_seq(s.skip(t + 2), seq![')']) >= 0 {
        let u = find_seq(s.skip(t + 2), seq![')']);
        Some((t + 2 + u + 1, as_link(rich_acc(Seq::empty(), part(s, 1, t), md), md)))
    } else {
        None
    }
}

/// The inline construct that starts at the beginning of `s`, if any: how many
/// characters it takes and the spans it renders to. Markers are tried in the
/// order code, bold italic, bold, italic, underline, strike-through, display
/// math, inline math, link.
pub open spec fn try_match(s: Seq<char>, md: MdColors) -> Option<(int, Seq<SpanV>)>
    decreases s.len(), 1int,
{
    if m_code(s, md) is Some {
        m_code(s, md)
    } else if m_wrap(s, seq!['*', '*', '*'], seq!['*', '*', '*'], BOLD | ITALIC, md) is Some {
        m_wrap(s, seq!['*', '*', '*'], seq!['*', '*', '*'], BOLD | ITALIC, md)
    } else if m_wrap(s, seq!['*', '*'], seq!['*', '*'], BOLD, md) is Some {
        m_wrap(s, seq!['*', '*'], seq!['*', '*'], BOLD, md)
    } else if m_italic(s, md) is Some {
        m_italic(s, md)
    } else if m_wrap(s, seq!['<', 'u', '>'], seq!['<', '/', 'u', '>'], UNDERLINED, md) is Some {
        m_wrap(s, seq!['<', 'u', '>'], seq!['<', '/', 'u', '>'], UNDERLINED, md)
    } else if m_wrap(
        s,
        seq!['<', 'i', 'n', 's', '>'],
        seq!['<', '/', 'i', 'n', 's', '>'],
        UNDERLINED,
        md,
    ) is Some {
        m_wrap(s, seq!['<', 'i', 'n', 's', '>'], seq!['<', '/', 'i', 'n', 's', '>'], UNDERLINED, md)
    } else if m_wrap(s, seq!['~', '~'], seq!['~', '~'], CROSSED_OUT, md) is Some {
        m_wrap(s, seq!['~', '~'], seq!['~', '~'], CROSSED_OUT, md)
    } else if m_dmath(s, md) is Some {
        m_dmath(s, md)
    } else if m_imath(s, md) is Some {
        m_imath(s, md)
    } else {
        m_link(s, md)
    }
}

/// The spans of `rest`, given the ordinary text `plain` gathered before it.
pub open spec fn rich_acc(plain: Seq<char>, rest: Seq<char>, md: MdColors) -> Seq<SpanV>
    decreases rest.len(), 2int,
{
    if rest.len() == 0 {
        flush_plain(plain, md)
    } else {
        match try_match(rest, md) {
            Some(m) => {
                let n = if 1 <= m.0 <= rest.len() {
                    m.0
                } else {
                    1
                };
                flush_plain(plain, md) + m.1 + rich_acc(Seq::empty(), rest.skip(n), md)
            },
            None => rich_acc(plain.push(rest[0]), rest.drop_first(), md),
        }
    }
}

/// The spans of a run of inline text.
pub open spec fn rich(s: Seq<char>, md: MdColors) -> Seq<SpanV> {
    rich_acc(Seq::empty(), s, md)
}

// ---------------------------------------------------------------------------
// Inline implementation
// ---------------------------------------------------------------------------

pub proof fn lemma_find_seq_facts(s: Seq<char>, p: Seq<char>)
    requires
        p.len() > 0,
    ensures
        -1 <= find_seq(s, p),
        find_seq(s, p) >= 0 ==> find_seq(s, p) <= s.len() - p.len(),
        find_seq(s, p) >= 0 ==> s.subrange(find_seq(s, p), find_seq(s, p) + p.len()) == p,
    decreases s.len(),
{
    if p.len() <= s.len() && s.subrange(0, p.len() as int) != p && s.len() > 0 {
        lemma_find_seq_facts(s.drop_first(), p);
        let r = find_seq(s.drop_first(), p);
        if r >= 0 {
            assert(s.subrange(r + 1, r + 1 + p.len()) =~= s.drop_first().subrange(r, r + p.len()));
        }
    }
}

/// Index (absolute) of the first `p` in `s[from..to]`.
fn find_in(s: &[char], from: usize, to: usize, p: &[char]) -> (r: Option<usize>)
    requires
        from <= to <= s@.len(),
        p@.len() > 0,
    ensures
        match r {
            None => find_seq(s@.subrange(from as int, to as int), p@) < 0,
            Some(k) => k == from + find_seq(s@.subrange(from as int, to as int), p@) && find_seq(
                s@.subrange(from as int, to as int),
                p@,
            ) >= 0 && from <= k && k + p@.len() <= to,
        },
{
    proof {
        lemma_find_seq_facts(s@.subrange(from as int, to as int), p@);
    }
    let mut i: usize = from;
    let n = p.len();
    while i < to
        invariant
            from <= i <= to <= s@.len(),
            n == p@.len(),
            n > 0,
            find_seq(s@.subrange(from as int, to as int), p@) < 0 ==> find_seq(
                s@.subrange(i as int, to as int),
                p@,
            ) < 0,
            find_seq(s@.subrange(from as int, to as int), p@) >= 0 ==> find_seq(
                s@.subrange(from as int, to as int),
                p@,
            ) == (i - from) + find_seq(s@.subrange(i as int, to as int), p@) && find_seq(
                s@.subrange(i as int, to as int),
                p@,
            ) >= 0,
        decreases to - i,
    {
        let ghost t = s@.subrange(i as int, to as int);
        if n > to - i {
            assert(find_seq(t, p@) == -1);
            return None;
        }
        let mut k: usize = 0;
        let mut same = true;
        while k < n
            invariant
                i + n <= to <= s@.len(),
                n == p@.len(),
                k <= n,
                same == (forall|m: int| 0 <= m < k ==> s@[i + m] == p@[m]),
            decreases n - k,
        {
            if s[i + k] != p[k] {
                same = false;
            }
            k = k + 1;
        }
        if same {
            assert(t.subrange(0, n as int) =~= p@);
            return Some(i);
        }
        assert(t.subrange(0, n as int) != p@) by {
            let m = choose|m: int| 0 <= m < n && s@[i + m] != p@[m];
            assert(t.subrange(0, n as int)[m] == s@[i + m]);
        }
        assert(t.drop_first() =~= s@.subrange(i + 1, to as int));
        i = i + 1;
    }
    assert(find_seq(s@.subrange(i as int, to as int), p@) == -1);
    None
}

/// `spans` with modifier bits `m` added to each style.
fn add_mods_exec(spans: Vec<Span>, m: u16) -> (r: Vec<Span>)
    ensures
        spans_view(r@) == add_mods(spans_view(spans@), m),
{
    let mut out: Vec<Span> = Vec::new();
    let ghost sv = spans_view(spans@);
    let n = spans.len();
    let mut i: usize = 0;
    while i < n
        invariant
            n == spans@.len(),
            i <= n,
            sv == spans_view(spans@),
            spans_view(out@) == add_mods(sv.take(i as int), m),
        decreases n - i,
    {
        let st = spans[i].style.add(m);
        let text = spans[i].content.clone();
        let ghost before = out@;
        out.push(span(text, st));
        assert(sv[i as int] == spans@[i as int]@);
        assert(spans_view(out@) =~= spans_view(before).push((sv[i as int].0, with_mod(
            sv[i as int].1,
            m,
        ))));
        assert(add_mods(sv.take(i + 1), m) =~= add_mods(sv.take(i as int), m).push(
            (sv[i as int].0, with_mod(sv[i as int].1, m)),
        ));
        i = i + 1;
    }
    assert(sv.take(n as int) =~= sv);
    out
}

/// `spans` restyled as link text.
fn as_link_exec(spans: Vec<Span>, md: MdColors) -> (r: Vec<Span>)
    ensures
        spans_view(r@) == as_link(spans_view(spans@), md),
{
    let mut out: Vec<Span> = Vec::new();
    let ghost sv = spans_view(spans@);
    let n = spans.len();
    let st = Style::new().fg(md.link).add(UNDERLINED);
    let mut i: usize = 0;
    while i < n
        invariant
            n == spans@.len(),
            i <= n,
            sv == spans_view(spans@),
            st == with_mod(fg_style(md.link), UNDERLINED),
            spans_view(out@) == as_link(sv.take(i as int), md),
        decreases n - i,
    {
        let text = spans[i].content.clone();
        let ghost before = out@;
        out.push(span(text, st));
        assert(sv[i as int] == spans@[i as int]@);
        assert(spans_view(out@) =~= spans_view(before).push((sv[i as int].0, st)));
        assert(as_link(sv.take(i + 1), md) =~= as_link(sv.take(i as int), md).push(
            (sv[i as int].0, st),
        ));
        i = i + 1;
    }
    assert(sv.take(n as int) =~= sv);
    out
}

fn lit(c: char) -> (v: Vec<char>)
    ensures
        v@ == seq![c],
{
    let mut v = Vec::new();
    v.push(c);
    v
}

fn lit2(a: char, b: char) -> (v: Vec<char>)
    ensures
        v@ == seq![a, b],
{
    let mut v = Vec::new();
    v.push(a);
    v.push(b);
    assert(v@ =~= seq![a, b]);
    v
}

fn lit3(a: char, b: char, c: char) -> (v: Vec<char>)
    ensures
        v@ == seq![a, b, c],
{
    let mut v = Vec::new();
    v.push(a);
    v.push(b);
    v.push(c);
    assert(v@ =~= seq![a, b, c]);
    v
}

/// Position of the closing italic `*` in `s[from..to]` (absolute), scanning
/// from `from + 1`.
fn italic_close_in(s: &[char], from: usize, to: usize) -> (r: Option<usize>)
    requires
        from < to <= s@.len(),
    ensures
        match r {
            None => italic_close(s@.subrange(from as int, to as int), 1) < 0,
            Some(j) => j == from + italic_close(s@.subrange(from as int, to as int), 1)
                && italic_close(s@.subrange(from as int, to as int), 1) >= 0 && from + 1 <= j < to,
        },
{
    proof {
        lemma_italic_close_range(s@.subrange(from as int, to as int), 1);
    }
    let ghost t = s@.subrange(from as int, to as int);
    let mut j: usize = from + 1;
    while j < to
        invariant
            from < j,
            j <= to + 1,
            to <= s@.len(),
            t == s@.subrange(from as int, to as int),
            italic_close(t, 1) == italic_close(t, j - from),
        decreases to + 1 - j,
    {
        if s[j] == '*' {
            if j + 1 < to && s[j + 1] == '*' {
                j = j + 2;
            } else {
                return Some(j);
            }
        } else {
            j = j + 1;
        }
    }
    None
}

/// Relates the window `s[from..to]` to its own suffixes.
proof fn lemma_window_skip(s: Seq<char>, from: int, to: int, k: int)
    requires
        0 <= from <= to <= s.len(),
        0 <= k <= to - from,
    ensures
        s.subrange(from, to).skip(k) == s.subrange(from + k, to),
{
    assert(s.subrange(from, to).skip(k) =~= s.subrange(from + k, to));
}

/// Whether the window `s[from..to]` starts with `p`.
fn window_starts_with(s: &[char], from: usize, to: usize, p: &[char]) -> (b: bool)
    requires
        from <= to <= s@.len(),
    ensures
        b == starts_with(s@.subrange(from as int, to as int), p@),
{
    let ghost t = s@.subrange(from as int, to as int);
    if p.len() > to - from {
        return false;
    }
    let r = starts_with_at(s, from, p);
    assert(s@.skip(from as int).subrange(0, p@.len() as int) =~= t.subrange(0, p@.len() as int));
    r
}

/// Inline code in the window `s[from..to]`.
fn code_in(s: &[char], from: usize, to: usize, md: MdColors) -> (r: Option<(usize, Vec<Span>)>)
    requires
        from <= to <= s@.len(),
    ensures
        match r {
            None => m_code(s@.subrange(from as int, to as int), md) is None,
            Some(m) => 1 <= m.0 <= to - from && m_code(s@.subrange(from as int, to as int), md)
                == Some((m.0 as int, spans_view(m.1@))),
        },
{
    let ghost t = s@.subrange(from as int, to as int);
    if from == to || s[from] != '`' {
        return None;
    }
    proof {
        lemma_window_skip(s@, from as int, to as int, 1);
    }
    let tick = lit('`');
    match find_in(s, from + 1, to, &tick) {
        None => None,
        Some(e) => {
            let code = string_from_range(s, from + 1, e);
            assert(s@.subrange(from + 1, e as int) =~= t.skip(1).take(e - from - 1));
            let mut v: Vec<Span> = Vec::new();
            v.push(span(code, Style::new().fg(md.code_fg).add(DIM)));
            assert(spans_view(v@) =~= seq![(t.skip(1).take(e - from - 1), code_style(md))]);
            Some((e - from + 1, v))
        },
    }
}

/// A marked run (`open` .. `close`) in the window `s[from..to]`.
fn wrap_in(
    s: &[char],
    from: usize,
    to: usize,
    open: &[char],
    close: &[char],
    m: u16,
    md: MdColors,
) -> (r: Option<(usize, Vec<Span>)>)
    requires
        from <= to <= s@.len(),
        open@.len() >= 1,
        close@.len() >= 1,
    ensures
        match r {
            None => m_wrap(s@.subrange(from as int, to as int), open@, close@, m, md) is None,
            Some(x) => 1 <= x.0 <= to - from && m_wrap(
                s@.subrange(from as int, to as int),
                open@,
                close@,
                m,
                md,
            ) == Some((x.0 as int, spans_view(x.1@))),
        },
    decreases to - from, 0int,
{
    let ghost t = s@.subrange(from as int, to as int);
    if !window_starts_with(s, from, to, open) {
        return None;
    }
    let k = open.len();
    proof {
        lemma_window_skip(s@, from as int, to as int, k as int);
    }
    match find_in(s, from + k, to, close) {
        None => None,
        Some(e) => {
            let inner = parse_rich_in(s, from + k, e, md);
            assert(s@.subrange(from + k, e as int) =~= part(t, k as int, e - from));
            Some((e - from + close.len(), add_mods_exec(inner, m)))
        },
    }
}

/// Italic run in the window `s[from..to]`.
fn italic_in(s: &[char], from: usize, to: usize, md: MdColors) -> (r: Option<(usize, Vec<Span>)>)
    requires
        from <= to <= s@.len(),
    ensures
        match r {
            None => m_italic(s@.subrange(from as int, to as int), md) is None,
            Some(x) => 1 <= x.0 <= to - from && m_italic(s@.subrange(from as int, to as int), md)
                == Some((x.0 as int, spans_view(x.1@))),
        },
    decreases to - from, 0int,
{
    let ghost t = s@.subrange(from as int, to as int);
    if to - from < 2 || s[from] != '*' || s[from + 1] == '*' {
        return None;
    }
    match italic_close_in(s, from, to) {
        None => None,
        Some(j) => {
            let inner = parse_rich_in(s, from + 1, j, md);
            assert(s@.subrange(from + 1, j as int) =~= part(t, 1, j - from));
            Some((j - from + 1, add_mods_exec(inner, ITALIC)))
        },
    }
}

/// Single-line display math in the window `s[from..to]`.
fn dmath_in(s: &[char], from: usize, to: usize, md: MdColors) -> (r: Option<(usize, Vec<Span>)>)
    requires
        from <= to <= s@.len(),
    ensures
        match r {
            None => m_dmath(s@.subrange(from as int, to as int), md) is None,
            Some(x) => 1 <= x.0 <= to - from && m_dmath(s@.subrange(from as int, to as int), md)
                == Some((x.0 as int, spans_view(x.1@))),
        },
{
    let ghost t = s@.subrange(from as int, to as int);
    let dollar2 = lit2('$', '$');
    if !window_starts_with(s, from, to, &dollar2) {
        return None;
    }
    proof {
        lemma_window_skip(s@, from as int, to as int, 2);
    }
    match find_in(s, from + 2, to, &dollar2) {
        None => None,
        Some(e) => {
            if e == from + 2 {
                return None;
            }
            let body = string_from_range(s, from + 2, e);
            assert(s@.subrange(from + 2, e as int) =~= t.skip(2).take(e - from - 2));
            let mut v: Vec<Span> = Vec::new();
            v.push(span(body, Style::new().fg(md.math).add(ITALIC)));
            assert(spans_view(v@) =~= seq![(t.skip(2).take(e - from - 2), math_style(md))]);
            Some((e - from + 2, v))
        },
    }
}

/// Inline math in the window `s[from..to]`.
fn imath_in(s: &[char], from: usize, to: usize, md: MdColors) -> (r: Option<(usize, Vec<Span>)>)
    requires
        from <= to <= s@.len(),
    ensures
        match r {
            None => m_imath(s@.subrange(from as int, to as int), md) is None,
            Some(x) => 1 <= x.0 <= to - from && m_imath(s@.subrange(from as int, to as int), md)
                == Some((x.0 as int, spans_view(x.1@))),
        },
{
    let ghost t = s@.subrange(from as int, to as int);
    if to - from < 2 || s[from] != '$' || s[from + 1] == ' ' {
        return None;
    }
    proof {
        lemma_window_skip(s@, from as int, to as int, 1);
    }
    let dollar = lit('$');
    match find_in(s, from + 1, to, &dollar) {
        None => None,
        Some(e) => {
            if e == from + 1 {
                return None;
            }
            assert(t.skip(1)[e - from - 2] == s@[e - 1]);
            if s[e - 1] == ' ' {
                return None;
            }
            let body = string_from_range(s, from + 1, e);
            assert(s@.subrange(from + 1, e as int) =~= t.skip(1).take(e - from - 1));
            let mut v: Vec<Span> = Vec::new();
            v.push(span(body, Style::new().fg(md.math).add(ITALIC)));
            assert(spans_view(v@) =~= seq![(t.skip(1).take(e - from - 1), math_style(md))]);
            Some((e - from + 1, v))
        },
    }
}

/// Link in the window `s[from..to]`.
fn link_in(s: &[char], from: usize, to: usize, md: MdColors) -> (r: Option<(usize, Vec<Span>)>)
    requires
        from <= to <= s@.len(),
    ensures
        match r {
            None => m_link(s@.subrange(from as int, to as int), md) is None,
            Some(x) => 1 <= x.0 <= to - from && m_link(s@.subrange(from as int, to as int), md)
                == Some((x.0 as int, spans_view(x.1@))),
        },
    decreases to - from, 0int,
{
    let ghost t = s@.subrange(from as int, to as int);
    if from == to || s[from] != '[' {
        return None;
    }
    let close = lit(']');
    let te = match find_in(s, from, to, &close) {
        None => {
            return None;
        },
        Some(te) => te,
    };
    let ghost tt = te - from;
    proof {
        lemma_window_skip(s@, from as int, to as int, tt);
    }
    let opener = lit2(']', '(');
    if !window_starts_with(s, te, to, &opener) {
        return None;
    }
    proof {
        lemma_window_skip(s@, from as int, to as int, tt + 2);
    }
    let paren = lit(')');
    match find_in(s, te + 2, to, &paren) {
        None => None,
        Some(ue) => {
            let inner = parse_rich_in(s, from + 1, te, md);
            assert(s@.subrange(from + 1, te as int) =~= part(t, 1, tt));
            Some((ue - from + 1, as_link_exec(inner, md)))
        },
    }
}

/// The inline construct at the start of `s[from..to]`, if any.
pub fn try_match_in(s: &[char], from: usize, to: usize, md: MdColors) -> (r: Option<
    (usize, Vec<Span>),
>)
    requires
        from <= to <= s@.len(),
    ensures
        match r {
            None => try_match(s@.subrange(from as int, to as int), md) is None,
            Some(m) => 1 <= m.0 <= to - from && try_match(s@.subrange(from as int, to as int), md)
                == Some((m.0 as int, spans_view(m.1@))),
        },
    decreases to - from, 1int,
{
    let r = code_in(s, from, to, md);
    if r.is_some() {
        return r;
    }
    let star3 = lit3('*', '*', '*');
    let r = wrap_in(s, from, to, &star3, &star3, BOLD | ITALIC, md);
    if r.is_some() {
        return r;
    }
    let star2 = lit2('*', '*');
    let r = wrap_in(s, from, to, &star2, &star2, BOLD, md);
    if r.is_some() {
        return r;
    }
    let r = italic_in(s, from, to, md);
    if r.is_some() {
        return r;
    }
    let open_u = lit3('<', 'u', '>');
    let mut close_u = lit2('<', '/');
    close_u.push('u');
    close_u.push('>');
    assert(close_u@ =~= seq!['<', '/', 'u', '>']);
    let r = wrap_in(s, from, to, &open_u, &close_u, UNDERLINED, md);
    if r.is_some() {
        return r;
    }
    let mut open_ins = lit3('<', 'i', 'n');
    open_ins.push('s');
    open_ins.push('>');
    assert(open_ins@ =~= seq!['<', 'i', 'n', 's', '>']);
    let mut close_ins = lit3('<', '/', 'i');
    close_ins.push('n');
    close_ins.push('s');
    close_ins.push('>');
    assert(close_ins@ =~= seq!['<', '/', 'i', 'n', 's', '>']);
    let r = wrap_in(s, from, to, &open_ins, &close_ins, UNDERLINED, md);
    if r.is_some() {
        return r;
    }
    let tilde2 = lit2('~', '~');
    let r = wrap_in(s, from, to, &tilde2, &tilde2, CROSSED_OUT, md);
    if r.is_some() {
        return r;
    }
    let r = dmath_in(s, from, to, md);
    if r.is_some() {
        return r;
    }
    let r = imath_in(s, from, to, md);
    if r.is_some() {
        return r;
    }
    link_in(s, from, to, md)
}

/// The spans of the inline text `s[from..to]`.
pub fn parse_rich_in(s: &[char], from: usize, to: usize, md: MdColors) -> (r: Vec<Span>)
    requires
        from <= to <= s@.len(),
    ensures
        spans_view(r@) == rich(s@.subrange(from as int, to as int), md),
    decreases to - from, 2int,
{
    let mut out: Vec<Span> = Vec::new();
    let mut pos: usize = from;
    let mut text_start: usize = from;
    assert(s@.subrange(text_start as int, pos as int) =~= Seq::<char>::empty());
    while pos < to
        invariant
            from <= text_start <= pos <= to <= s@.len(),
            spans_view(out@) + rich_acc(
                s@.subrange(text_start as int, pos as int),
                s@.subrange(pos as int, to as int),
                md,
            ) == rich(s@.subrange(from as int, to as int), md),
        decreases to - pos,
    {
        let ghost plain = s@.subrange(text_start as int, pos as int);
        let ghost rest = s@.subrange(pos as int, to as int);
        match try_match_in(s, pos, to, md) {
            Some((n, inline)) => {
                let ghost iv = spans_view(inline@);
                let ghost before = spans_view(out@);
                if pos > text_start {
                    let txt = string_from_range(s, text_start, pos);
                    out.push(span(txt, Style::new().fg(md.fg)));
                }
                assert(spans_view(out@) =~= before + flush_plain(plain, md));
                append_spans(&mut out, inline);
                assert(rest.skip(n as int) =~= s@.subrange(pos + n, to as int));
                pos = pos + n;
                text_start = pos;
                assert(s@.subrange(text_start as int, pos as int) =~= Seq::<char>::empty());
                assert(spans_view(out@) + rich_acc(
                    s@.subrange(text_start as int, pos as int),
                    s@.subrange(pos as int, to as int),
                    md,
                ) =~= before + rich_acc(plain, rest, md));
            },
            None => {
                assert(plain.push(rest[0]) =~= s@.subrange(text_start as int, pos + 1));
                assert(rest.drop_first() =~= s@.subrange(pos + 1, to as int));
                pos = pos + 1;
            },
        }
    }
    let ghost plain = s@.subrange(text_start as int, pos as int);
    let ghost before = spans_view(out@);
    if text_start < to {
        let txt = string_from_range(s, text_start, to);
        out.push(span(txt, Style::new().fg(md.fg)));
    }
    assert(spans_view(out@) =~= before + flush_plain(plain, md));
    out
}

/// The spans of a run of inline text.
pub fn parse_rich(text: &str, md: MdColors) -> (r: Vec<Span>)
    ensures
        spans_view(r@) == rich(text@, md),
{
    let v = str_chars(text);
    assert(v@.subrange(0, v@.len() as int) =~= v@);
    parse_rich_in(&v, 0, v.len(), md)
}

// ---------------------------------------------------------------------------
// Block specification
// ---------------------------------------------------------------------------

/// Bytes of the UTF-8 encoding of `c`.
pub open spec fn utf8_len(c: char) -> nat {
    let u = c as u32;
    if u < 0x80 {
        1
    } else if u < 0x800 {
        2
    } else if u < 0x10000 {
        3
    } else {
        4
    }
}

/// Bytes of the UTF-8 encoding of `s`.
pub open spec fn utf8_total(s: Seq<char>) -> nat
    decreases s.len(),
{
    if s.len() == 0 {
        0
    } else {
        utf8_total(s.drop_last()) + utf8_len(s.last())
    }
}

/// `n` copies of `c`.
pub open spec fn repeat(c: char, n: nat) -> Seq<char> {
    Seq::new(n, |i: int| c)
}

/// Number of leading characters of `s` equal to `c`.
pub open spec fn leading(s: Seq<char>, c: char) -> nat
    decreases s.len(),
{
    if s.len() > 0 && s[0] == c {
        1 + leading(s.drop_first(), c)
    } else {
        0
    }
}

/// Number of leading ASCII digits of `s`.
pub open spec fn leading_digits(s: Seq<char>) -> nat
    decreases s.len(),
{
    if s.len() > 0 && '0' <= s[0] && s[0] <= '9' {
        1 + leading_digits(s.drop_first())
    } else {
        0
    }
}

/// A rule line: at least three characters, all `-`, all `*` or all `_`.
pub open spec fn is_rule(s: Seq<char>) -> bool {
    let t = trim(s);
    &&& t.len() >= 3
    &&& (t[0] == '-' || t[0] == '*' || t[0] == '_')
    &&& forall|i: int| 0 <= i < t.len() ==> #[trigger] t[i] == t[0]
}

/// A header: one to six `#`, a space, then the title (trimmed).
pub open spec fn header_of(s: Seq<char>) -> Option<(nat, Seq<char>)> {
    let n = leading(s, '#');
    if 1 <= n <= 6 && n < s.len() && s[n as int] == ' ' {
        Some((n, trim(s.skip(n as int + 1))))
    } else {
        None
    }
}

/// A list item: `-`, `*` or `+` and a space, or digits, `.` and a space;
/// gives the marker and the text after it.
pub open spec fn list_item_of(s: Seq<char>) -> Option<(Seq<char>, Seq<char>)> {
    let d = leading_digits(s);
    if s.len() >= 2 && (s[0] == '-' || s[0] == '*' || s[0] == '+') && s[1] == ' ' {
        Some((s.take(1), s.skip(2)))
    } else if d > 0 && d + 1 < s.len() && s[d as int] == '.' && s[d as int + 1] == ' ' {
        Some((s.take(d as int + 1), s.skip(d as int + 2)))
    } else {
        None
    }
}

/// A fence line opens or closes a code block.
pub open spec fn is_fence(s: Seq<char>) -> bool {
    let t = trim_start(s);
    starts_with(t, seq!['`', '`', '`']) || starts_with(t, seq!['~', '~', '~'])
}

/// `s` without one leading `c`.
pub open spec fn strip1(s: Seq<char>, c: char) -> Seq<char> {
    if s.len() > 0 && s[0] == c {
        s.drop_first()
    } else {
        s
    }
}

/// The rendering of one line outside code and math blocks.
pub open spec fn block_line(raw: Seq<char>, md: MdColors) -> LineV {
    let tr = trim_start(raw);
    let indent = repeat(' ', utf8_total(raw.take(raw.len() - tr.len())));
    if is_rule(tr) {
        seq![(repeat('─', 30), fg_style(md.hr))]
    } else if header_of(tr) is Some {
        let h = header_of(tr).unwrap();
        seq![(repeat('#', h.0) + seq![' '] + h.1, with_mod(fg_style(md.header), BOLD))]
    } else if tr.len() > 0 && tr[0] == '>' {
        seq![(seq!['│', ' '], fg_style(md.quote))] + rich(strip1(tr.drop_first(), ' '), md)
    } else if list_item_of(tr) is Some {
        let li = list_item_of(tr).unwrap();
        seq![(indent, plain_style()), (li.0, fg_style(md.list)), (seq![' '], plain_style())] + rich(
            strip1(li.1, ' '),
            md,
        )
    } else if tr.len() == 0 {
        Seq::empty()
    } else {
        seq![(indent, plain_style())] + rich(tr, md)
    }
}

/// One line of a code block.
pub open spec fn code_line(cl: Seq<char>, md: MdColors) -> LineV {
    seq![(seq!['│', ' '], with_mod(fg_style(md.code_fg), DIM)), (cl, fg_style(md.code_fg))]
}

/// One line of a math block.
pub open spec fn math_line(ml: Seq<char>, md: MdColors) -> LineV {
    seq![(seq![' ', ' '], plain_style()), (ml, with_mod(fg_style(md.math), ITALIC))]
}

pub open spec fn code_block(code: Seq<Seq<char>>, md: MdColors) -> Seq<LineV> {
    code.map_values(|cl: Seq<char>| code_line(cl, md))
}

pub open spec fn math_block(math: Seq<Seq<char>>, md: MdColors) -> Seq<LineV> {
    math.map_values(|ml: Seq<char>| math_line(ml, md))
}

/// Renderer state between lines.
pub struct MdState {
    pub out: Seq<LineV>,
    pub in_code: bool,
    pub code: Seq<Seq<char>>,
    pub in_math: bool,
    pub math: Seq<Seq<char>>,
}

pub open spec fn md_start() -> MdState {
    MdState {
        out: Seq::empty(),
        in_code: false,
        code: Seq::empty(),
        in_math: false,
        math: Seq::empty(),
    }
}

/// The state after one more source line.
pub open spec fn md_step(st: MdState, raw: Seq<char>, md: MdColors) -> MdState {
    if st.in_code {
        if is_fence(raw) {
            MdState { out: st.out + code_block(st.code, md), in_code: false, code: Seq::empty(), ..st }
        } else {
            MdState { code: st.code.push(raw), ..st }
        }
    } else if st.in_math {
        if trim(raw) == seq!['$', '$'] {
            MdState { out: st.out + math_block(st.math, md), in_math: false, math: Seq::empty(), ..st }
        } else {
            MdState { math: st.math.push(raw), ..st }
        }
    } else if trim(raw) == seq!['$', '$'] {
        MdState { in_math: true, math: Seq::empty(), ..st }
    } else if is_fence(raw) {
        MdState { in_code: true, code: Seq::empty(), ..st }
    } else {
        MdState { out: st.out.push(block_line(raw, md)), ..st }
    }
}

pub open spec fn md_fold(ls: Seq<Seq<char>>, md: MdColors) -> MdState
    decreases ls.len(),
{
    if ls.len() == 0 {
        md_start()
    } else {
        md_step(md_fold(ls.drop_last(), md), ls.last(), md)
    }
}

/// Output at the end of the text: unclosed blocks show what they gathered.
pub open spec fn md_finish(st: MdState, md: MdColors) -> Seq<LineV> {
    let a = if st.in_code {
        st.out + code_block(st.code, md)
    } else {
        st.out
    };
    if st.in_math {
        a + math_block(st.math, md)
    } else {
        a
    }
}

/// What `render` returns for `text`.
pub open spec fn spec_render(text: Seq<char>, md: MdColors) -> Seq<LineV> {
    md_finish(md_fold(lines(text), md), md)
}

// ---------------------------------------------------------------------------
// Block implementation
// ---------------------------------------------------------------------------

pub fn utf8_width(c: char) -> (n: usize)
    ensures
        n == utf8_len(c),
{
    let u = c as u32;
    if u < 0x80 {
        1
    } else if u < 0x800 {
        2
    } else if u < 0x10000 {
        3
    } else {
        4
    }
}

/// `n` copies of `c`.
pub(crate) fn repeat_char(c: char, n: usize) -> (r: String)
    ensures
        r@ == repeat(c, n as nat),
{
    let mut r = String::new();
    let mut i: usize = 0;
    while i < n
        invariant
            i <= n,
            r@ == repeat(c, i as nat),
        decreases n - i,
    {
        push_char(&mut r, c);
        assert(r@ =~= repeat(c, (i + 1) as nat));
        i = i + 1;
    }
    r
}

/// Whether the line is a rule.
pub fn is_hr(s: &[char]) -> (b: bool)
    ensures
        b == is_rule(s@),
{
    let (a, z) = trim_bounds(s);
    let ghost t = s@.subrange(a as int, z as int);
    if z - a < 3 {
        return false;
    }
    let first = s[a];
    if first != '-' && first != '*' && first != '_' {
        return false;
    }
    let mut i: usize = a;
    while i < z
        invariant
            a <= i <= z <= s@.len(),
            z - a >= 3,
            first == s@[a as int],
            t == s@.subrange(a as int, z as int),
            t == trim(s@),
            forall|k: int| 0 <= k < i - a ==> t[k] == first,
        decreases z - i,
    {
        if s[i] != first {
            assert(t[i - a] == s@[i as int]);
            assert(t[i - a] != t[0]);
            return false;
        }
        i = i + 1;
    }
    true
}

/// Header level and title of a header line.
pub fn parse_header(s: &[char]) -> (r: Option<(usize, String)>)
    ensures
        match r {
            None => header_of(s@) is None,
            Some(h) => header_of(s@) == Some((h.0 as nat, h.1@)),
        },
{
    let mut n: usize = 0;
    assert(s@.skip(0) =~= s@);
    while n < s.len() && s[n] == '#'
        invariant
            n <= s@.len(),
            leading(s@, '#') == n + leading(s@.skip(n as int), '#'),
        decreases s@.len() - n,
    {
        assert(s@.skip(n as int).drop_first() =~= s@.skip(n + 1));
        n = n + 1;
    }
    assert(leading(s@.skip(n as int), '#') == 0);
    if 1 <= n && n <= 6 && n < s.len() && s[n] == ' ' {
        let rest = chars_range(s, n + 1, s.len());
        assert(rest@ =~= s@.skip(n + 1));
        let (a, b) = trim_bounds(&rest);
        Some((n, string_from_range(&rest, a, b)))
    } else {
        None
    }
}

/// Marker and text of a list item line.
pub fn parse_list(s: &[char]) -> (r: Option<(String, Vec<char>)>)
    ensures
        match r {
            None => list_item_of(s@) is None,
            Some(x) => list_item_of(s@) == Some((x.0@, x.1@)),
        },
{
    let n = s.len();
    if n >= 2 && (s[0] == '-' || s[0] == '*' || s[0] == '+') && s[1] == ' ' {
        let marker = string_from_range(s, 0, 1);
        let rest = chars_range(s, 2, n);
        assert(s@.subrange(0, 1) =~= s@.take(1));
        assert(rest@ =~= s@.skip(2));
        return Some((marker, rest));
    }
    let mut i: usize = 0;
    assert(s@.skip(0) =~= s@);
    while i < n && '0' <= s[i] && s[i] <= '9'
        invariant
            n == s@.len(),
            i <= n,
            leading_digits(s@) == i + leading_digits(s@.skip(i as int)),
        decreases n - i,
    {
        assert(s@.skip(i as int).drop_first() =~= s@.skip(i + 1));
        i = i + 1;
    }
    assert(leading_digits(s@.skip(i as int)) == 0);
    if i > 0 && i < n && n - i > 1 && s[i] == '.' && s[i + 1] == ' ' {
        let marker = string_from_range(s, 0, i + 1);
        let rest = chars_range(s, i + 2, n);
        assert(s@.subrange(0, i + 1) =~= s@.take(i + 1));
        assert(rest@ =~= s@.skip(i + 2));
        Some((marker, rest))
    } else {
        None
    }
}

/// Whether the line opens or closes a code block.
pub fn is_fence_line(s: &[char]) -> (b: bool)
    ensures
        b == is_fence(s@),
{
    let a = trim_start_index(s);
    let tick3 = lit3('`', '`', '`');
    let tilde3 = lit3('~', '~', '~');
    starts_with_at(s, a, &tick3) || starts_with_at(s, a, &tilde3)
}

/// Whether the trimmed line is exactly `$$`.
fn is_math_delim(s: &[char]) -> (b: bool)
    ensures
        b == (trim(s@) == seq!['$', '$']),
{
    let (a, z) = trim_bounds(s);
    let r = z - a == 2 && s[a] == '$' && s[a + 1] == '$';
    proof {
        let t = trim(s@);
        if r {
            assert(t =~= seq!['$', '$']);
        } else if z - a == 2 {
            assert(t[0] == s@[a as int] && t[1] == s@[a + 1]);
            assert(t[0] != '$' || t[1] != '$');
            assert(seq!['$', '$'][0] == '$' && seq!['$', '$'][1] == '$');
        } else {
            assert(t.len() != seq!['$', '$'].len());
        }
    }
    r
}

/// `s` followed by `n` spaces.
fn push_spaces(s: &mut String, n: usize)
    ensures
        final(s)@ == old(s)@ + repeat(' ', n as nat),
{
    let mut i: usize = 0;
    while i < n
        invariant
            i <= n,
            s@ == old(s)@ + repeat(' ', i as nat),
        decreases n - i,
    {
        push_char(s, ' ');
        assert(s@ =~= old(s)@ + repeat(' ', (i + 1) as nat));
        i = i + 1;
    }
}

/// As many spaces as `v[..k]` has bytes in UTF-8.
fn indent_for(v: &[char], k: usize) -> (r: String)
    requires
        k <= v@.len(),
    ensures
        r@ == repeat(' ', utf8_total(v@.take(k as int))),
{
    let mut r = String::new();
    let mut j: usize = 0;
    assert(r@ =~= repeat(' ', utf8_total(v@.take(0))));
    while j < k
        invariant
            j <= k <= v@.len(),
            r@ == repeat(' ', utf8_total(v@.take(j as int))),
        decreases k - j,
    {
        assert(v@.take(j + 1).drop_last() =~= v@.take(j as int));
        let w = utf8_width(v[j]);
        let ghost before = r@;
        push_spaces(&mut r, w);
        assert(r@ =~= repeat(' ', utf8_total(v@.take(j + 1))));
        j = j + 1;
    }
    r
}

/// Renders one line outside code and math blocks.
pub fn render_block_line(raw: &[char], md: MdColors) -> (l: Line)
    ensures
        l@ == block_line(raw@, md),
{
    let a = trim_start_index(raw);
    let tr = chars_range(raw, a, raw.len());
    assert(tr@ =~= trim_start(raw@));
    assert(raw@.len() - tr@.len() == a);
    let indent = indent_for(raw, a);
    if is_hr(&tr) {
        let mut v: Vec<Span> = Vec::new();
        v.push(span(repeat_char('─', 30), Style::new().fg(md.hr)));
        return line(v);
    }
    if let Some((level, content)) = parse_header(&tr) {
        let mut text = repeat_char('#', level);
        push_char(&mut text, ' ');
        let cv = str_chars(content.as_str());
        crate::text::push_chars(&mut text, &cv);
        assert(text@ =~= repeat('#', level as nat) + seq![' '] + content@);
        let st = Style::new().fg(md.header).add(BOLD);
        let sp = span(text, st);
        let mut v: Vec<Span> = Vec::new();
        v.push(sp);
        let l = line(v);
        assert(l@ =~= seq![sp@]);
        return l;
    }
    let n = tr.len();
    if n > 0 && tr[0] == '>' {
        let start: usize = if n > 1 && tr[1] == ' ' {
            2
        } else {
            1
        };
        assert(strip1(tr@.drop_first(), ' ') =~= tr@.subrange(start as int, n as int));
        let mut v: Vec<Span> = Vec::new();
        v.push(span_str("│ ", Style::new().fg(md.quote)));
        let ghost first = spans_view(v@);
        proof {
            reveal_strlit("│ ");
            assert("│ "@ =~= seq!['│', ' ']);
            assert(first =~= seq![(seq!['│', ' '], fg_style(md.quote))]);
        }
        let rest = parse_rich_in(&tr, start, n, md);
        append_spans(&mut v, rest);
        return line(v);
    }
    if let Some((marker, rest)) = parse_list(&tr) {
        let m = rest.len();
        let start: usize = if m > 0 && rest[0] == ' ' {
            1
        } else {
            0
        };
        assert(strip1(rest@, ' ') =~= rest@.subrange(start as int, m as int));
        let mut v: Vec<Span> = Vec::new();
        v.push(span(indent, Style::new()));
        v.push(span(marker, Style::new().fg(md.list)));
        v.push(span_str(" ", Style::new()));
        let ghost head = spans_view(v@);
        proof {
            reveal_strlit(" ");
            assert(" "@ =~= seq![' ']);
            assert(v@.len() == 3);
            assert(head[0] == v@[0]@ && head[1] == v@[1]@ && head[2] == v@[2]@);
            assert(head =~= seq![
                (repeat(' ', utf8_total(raw@.take(a as int))), plain_style()),
                (list_item_of(tr@).unwrap().0, fg_style(md.list)),
                (seq![' '], plain_style()),
            ]);
        }
        let tail = parse_rich_in(&rest, start, m, md);
        append_spans(&mut v, tail);
        return line(v);
    }
    if n == 0 {
        return crate::style::empty_line();
    }
    let mut v: Vec<Span> = Vec::new();
    v.push(span(indent, Style::new()));
    let ghost head = spans_view(v@);
    assert(head =~= seq![(repeat(' ', utf8_total(raw@.take(a as int))), plain_style())]);
    assert(tr@.subrange(0, n as int) =~= tr@);
    let body = parse_rich_in(&tr, 0, n, md);
    append_spans(&mut v, body);
    line(v)
}

fn code_line_exec(cl: &[char], md: MdColors) -> (l: Line)
    ensures
        l@ == code_line(cl@, md),
{
    let mut v: Vec<Span> = Vec::new();
    v.push(span_str("│ ", Style::new().fg(md.code_fg).add(DIM)));
    v.push(span(crate::text::string_from(cl), Style::new().fg(md.code_fg)));
    proof {
        reveal_strlit("│ ");
        assert("│ "@ =~= seq!['│', ' ']);
    }
    line(v)
}

fn math_line_exec(ml: &[char], md: MdColors) -> (l: Line)
    ensures
        l@ == math_line(ml@, md),
{
    let mut v: Vec<Span> = Vec::new();
    v.push(span_str("  ", Style::new()));
    v.push(span(crate::text::string_from(ml), Style::new().fg(md.math).add(ITALIC)));
    proof {
        reveal_strlit("  ");
        assert("  "@ =~= seq![' ', ' ']);
    }
    line(v)
}

/// Appends the rendered code (or math) block lines to `out`.
fn flush_block(out: &mut Vec<Line>, block: &Vec<Vec<char>>, math: bool, md: MdColors)
    ensures
        lines_view(final(out)@) == lines_view(old(out)@) + if math {
            math_block(block@.map_values(|v: Vec<char>| v@), md)
        } else {
            code_block(block@.map_values(|v: Vec<char>| v@), md)
        },
{
    let ghost bv = block@.map_values(|v: Vec<char>| v@);
    let ghost want = if math {
        math_block(bv, md)
    } else {
        code_block(bv, md)
    };
    let ghost start = lines_view(out@);
    let mut i: usize = 0;
    while i < block.len()
        invariant
            i <= block@.len(),
            bv == block@.map_values(|v: Vec<char>| v@),
            want == (if math {
                math_block(bv, md)
            } else {
                code_block(bv, md)
            }),
            lines_view(out@) == start + want.take(i as int),
        decreases block@.len() - i,
    {
        let l = if math {
            math_line_exec(&block[i], md)
        } else {
            code_line_exec(&block[i], md)
        };
        let ghost before = out@;
        out.push(l);
        assert(lines_view(out@) =~= lines_view(before).push(want[i as int]));
        assert(want.take(i + 1) =~= want.take(i as int).push(want[i as int]));
        i = i + 1;
    }
    assert(want.take(block@.len() as int) =~= want);
}

/// Renders markdown text to display lines.
pub fn render(text: &str, theme: &Theme) -> (r: Vec<Line>)
    ensures
        lines_view(r@) == spec_render(text@, md_colors(*theme)),
{
    let md = MdColors::from_theme(theme);
    let ls = str_lines(text);
    let ghost gl = lines(text@);
    let mut out: Vec<Line> = Vec::new();
    let mut in_code = false;
    let mut code: Vec<Vec<char>> = Vec::new();
    let mut in_math = false;
    let mut math: Vec<Vec<char>> = Vec::new();
    let mut i: usize = 0;
    proof {
        assert(gl.take(0) =~= Seq::<Seq<char>>::empty());
        assert(lines_view(out@) =~= Seq::<LineV>::empty());
        assert(code@.map_values(|v: Vec<char>| v@) =~= Seq::<Seq<char>>::empty());
        assert(math@.map_values(|v: Vec<char>| v@) =~= Seq::<Seq<char>>::empty());
    }
    while i < ls.len()
        invariant
            i <= ls@.len(),
            gl == lines(text@),
            ls@.len() == gl.len(),
            forall|k: int| 0 <= k < ls@.len() ==> #[trigger] ls@[k]@ == gl[k],
            md == md_colors(*theme),
            md_fold(gl.take(i as int), md) == (MdState {
                out: lines_view(out@),
                in_code,
                code: code@.map_values(|v: Vec<char>| v@),
                in_math,
                math: math@.map_values(|v: Vec<char>| v@),
            }),
        decreases ls@.len() - i,
    {
        let raw = &ls[i];
        assert(gl.take(i + 1).drop_last() =~= gl.take(i as int));
        assert(gl.take(i + 1).last() == raw@);
        if in_code {
            if is_fence_line(raw) {
                flush_block(&mut out, &code, false, md);
                in_code = false;
                code = Vec::new();
                assert(code@.map_values(|v: Vec<char>| v@) =~= Seq::<Seq<char>>::empty());
            } else {
                let ghost before = code@;
                code.push(raw.clone());
                assert(code@.map_values(|v: Vec<char>| v@) =~= before.map_values(
                    |v: Vec<char>| v@,
                ).push(raw@));
            }
        } else if in_math {
            if is_math_delim(raw) {
                flush_block(&mut out, &math, true, md);
                in_math = false;
                math = Vec::new();
                assert(math@.map_values(|v: Vec<char>| v@) =~= Seq::<Seq<char>>::empty());
            } else {
                let ghost before = math@;
                math.push(raw.clone());
                assert(math@.map_values(|v: Vec<char>| v@) =~= before.map_values(
                    |v: Vec<char>| v@,
                ).push(raw@));
            }
        } else if is_math_delim(raw) {
            in_math = true;
            math = Vec::new();
            assert(math@.map_values(|v: Vec<char>| v@) =~= Seq::<Seq<char>>::empty());
        } else if is_fence_line(raw) {
            in_code = true;
            code = Vec::new();
            assert(code@.map_values(|v: Vec<char>| v@) =~= Seq::<Seq<char>>::empty());
        } else {
            let l = render_block_line(raw, md);
            let ghost before = out@;
            out.push(l);
            assert(lines_view(out@) =~= lines_view(before).push(block_line(raw@, md)));
        }
        i = i + 1;
    }
    assert(gl.take(ls@.len() as int) =~= gl);
    if in_code {
        flush_block(&mut out, &code, false, md);
    }
    if in_math {
        flush_block(&mut out, &math, true, md);
    }
    out
}

// ---------------------------------------------------------------------------
// Laws of the inline layer
// ---------------------------------------------------------------------------

/// No construct starts anywhere in `s`.
pub open spec fn no_markup(s: Seq<char>, md: MdColors) -> bool {
    forall|i: int| 0 <= i < s.len() ==> try_match(#[trigger] s.skip(i), md) is None
}

/// Text in which no construct opens (unclosed markers included) comes out as
/// one span of ordinary text holding every character.
pub proof fn lemma_plain_text_kept(s: Seq<char>, md: MdColors)
    requires
        no_markup(s, md),
        s.len() > 0,
    ensures
        rich(s, md) == seq![(s, fg_style(md.fg))],
{
    lemma_rich_acc_plain(Seq::empty(), s, md);
    assert(Seq::<char>::empty() + s =~= s);
}

proof fn lemma_rich_acc_plain(plain: Seq<char>, rest: Seq<char>, md: MdColors)
    requires
        no_markup(rest, md),
    ensures
        rich_acc(plain, rest, md) == flush_plain(plain + rest, md),
    decreases rest.len(),
{
    if rest.len() > 0 {
        assert(rest.skip(0) =~= rest);
        assert(try_match(rest.skip(0), md) is None);
        assert forall|i: int| 0 <= i < rest.drop_first().len() implies try_match(
            #[trigger] rest.drop_first().skip(i),
            md,
        ) is None by {
            assert(rest.drop_first().skip(i) =~= rest.skip(i + 1));
        }
        lemma_rich_acc_plain(plain.push(rest[0]), rest.drop_first(), md);
        assert(plain.push(rest[0]) + rest.drop_first() =~= plain + rest);
    } else {
        assert(plain + rest =~= plain);
    }
}


proof fn lemma_find_closing_tildes(s: Seq<char>)
    requires
        find_seq(s, seq!['~', '~']) < 0,
        s.len() > 0 ==> s.last() != '~',
    ensures
        find_seq(s + seq!['~', '~'], seq!['~', '~']) == s.len(),
    decreases s.len(),
{
    let p = seq!['~', '~'];
    let t = s + p;
    if s.len() == 0 {
        assert(t =~= p);
        assert(t.subrange(0, 2) =~= p);
    } else {
        if s.len() >= 2 {
            assert(t.subrange(0, 2) =~= s.subrange(0, 2));
            assert(s.subrange(0, 2) != p);
        } else {
            assert(t.subrange(0, 2)[0] == s.last());
        }
        assert(t.subrange(0, 2) != p);
        let d = s.drop_first();
        if s.len() >= 2 {
            assert(d.last() == s.last());
        }
        assert(find_seq(d, p) < 0);
        lemma_find_closing_tildes(d);
        assert(t.drop_first() =~= d + p);
    }
}

/// Strike-through: text `s` in which no `~~` occurs and which does not end
/// with `~`, put between `~~` markers, is taken whole as one construct and
/// renders as `s` renders on its own, with the crossed-out modifier added to
/// every span (and no other modifier bit changed).
pub proof fn lemma_strike_through_crosses_out(s: Seq<char>, md: MdColors)
    requires
        find_seq(s, seq!['~', '~']) < 0,
        s.len() > 0 ==> s.last() != '~',
    ensures
        ({
            let t = seq!['~', '~'] + s + seq!['~', '~'];
            let inner = rich(s, md);
            try_match(t, md) matches Some(r) && r.0 == t.len() && r.1.len() == inner.len() && (
            forall|k: int|
                0 <= k < inner.len() ==> {
                    &&& (#[trigger] r.1[k]).0 == inner[k].0
                    &&& r.1[k].1 == Style {
                        add_modifier: inner[k].1.add_modifier | CROSSED_OUT,
                        ..inner[k].1
                    }
                    &&& r.1[k].1.add_modifier & CROSSED_OUT == CROSSED_OUT
                })
        }),
{
    let p = seq!['~', '~'];
    let t = p + s + p;
    let inner = rich(s, md);
    assert(t[0] == '~');
    assert(!starts_with(t, seq!['*', '*', '*']));
    assert(!starts_with(t, seq!['*', '*']));
    assert(!starts_with(t, seq!['<', 'u', '>']));
    assert(!starts_with(t, seq!['<', 'i', 'n', 's', '>']));
    assert(m_code(t, md) is None);
    assert(m_italic(t, md) is None);
    assert(starts_with(t, p)) by {
        assert(t.subrange(0, 2) =~= p);
    }
    lemma_find_closing_tildes(s);
    assert(t.skip(2) =~= s + p);
    assert(part(t, 2, 2 + s.len() as int) =~= s);
    let r = m_wrap(t, p, p, CROSSED_OUT, md);
    assert(r == Some(((s.len() + 4) as int, add_mods(inner, CROSSED_OUT))));
    assert(try_match(t, md) == r);
    assert forall|k: int| 0 <= k < inner.len() implies (#[trigger] add_mods(inner, CROSSED_OUT)[k]).1.add_modifier
        & CROSSED_OUT == CROSSED_OUT by {
        let a = inner[k].1.add_modifier;
        assert((a | 0b0001_0000_0000u16) & 0b0001_0000_0000u16 == 0b0001_0000_0000u16) by (bit_vector);
    }
}


proof fn lemma_wrap_takes_run(s: Seq<char>, open: Seq<char>, close: Seq<char>, m: u16, md: MdColors)
    requires
        open.len() >= 1,
        find_seq(s + close, close) == s.len(),
    ensures
        m_wrap(open + s + close, open, close, m, md) == Some(
            ((open.len() + s.len() + close.len()) as int, add_mods(rich(s, md), m)),
        ),
{
    let t = open + s + close;
    assert(t.subrange(0, open.len() as int) =~= open);
    assert(t.skip(open.len() as int) =~= s + close);
    assert(part(t, open.len() as int, (open.len() + s.len()) as int) =~= s);
}

/// Each span of `add_mods(spans, m)` keeps its text and gains the bits `m`.
proof fn lemma_add_mods_bits(spans: Seq<SpanV>, m: u16)
    ensures
        add_mods(spans, m).len() == spans.len(),
        forall|k: int|
            0 <= k < spans.len() ==> (#[trigger] add_mods(spans, m)[k]).0 == spans[k].0
                && add_mods(spans, m)[k].1 == (Style { add_modifier: spans[k].1.add_modifier | m, ..spans[k].1 })
                && add_mods(spans, m)[k].1.add_modifier & m == m,
{
    assert forall|k: int| 0 <= k < spans.len() implies (#[trigger] add_mods(spans, m)[k]).1.add_modifier
        & m == m by {
        let a = spans[k].1.add_modifier;
        assert((a | m) & m == m) by (bit_vector);
    }
}

/// Bold: text `s` between `**` markers, in which the first `**` after the
/// opening one is the closing one and which does not start with `*`, is
/// taken whole and renders as `s` renders on its own with the bold bit
/// added to every span.
pub proof fn lemma_bold_marks_bold(s: Seq<char>, md: MdColors)
    requires
        find_seq(s + seq!['*', '*'], seq!['*', '*']) == s.len(),
        s.len() > 0 ==> s[0] != '*',
    ensures
        ({
            let t = seq!['*', '*'] + s + seq!['*', '*'];
            let inner = rich(s, md);
            try_match(t, md) matches Some(r) && r.0 == t.len() && r.1.len() == inner.len() && (
            forall|k: int|
                0 <= k < inner.len() ==> {
                    &&& (#[trigger] r.1[k]).0 == inner[k].0
                    &&& r.1[k].1 == (Style { add_modifier: inner[k].1.add_modifier | BOLD, ..inner[k].1 })
                    &&& r.1[k].1.add_modifier & BOLD == BOLD
                })
        }),
{
    let p = seq!['*', '*'];
    let t = p + s + p;
    assert(m_code(t, md) is None);
    assert(m_wrap(t, seq!['*', '*', '*'], seq!['*', '*', '*'], BOLD | ITALIC, md) is None) by {
        if s.len() > 0 {
            assert(t[2] == s[0]);
            assert(!starts_with(t, seq!['*', '*', '*']));
        } else {
            assert(t.skip(3) =~= seq!['*']);
        }
    }
    lemma_wrap_takes_run(s, p, p, BOLD, md);
    lemma_add_mods_bits(rich(s, md), BOLD);
}

/// Underline: text `s` between `<u>` and `</u>` (or `<ins>` and `</ins>`),
/// in which the first closing tag after the opening one is the last one, is
/// taken whole and renders as `s` renders on its own with the underline bit
/// added to every span.
pub proof fn lemma_underline_marks_underlined(s: Seq<char>, ins: bool, md: MdColors)
    requires
        ins ==> find_seq(s + seq!['<', '/', 'i', 'n', 's', '>'], seq!['<', '/', 'i', 'n', 's', '>'])
            == s.len(),
        !ins ==> find_seq(s + seq!['<', '/', 'u', '>'], seq!['<', '/', 'u', '>']) == s.len(),
    ensures
        ({
            let t = if ins {
                seq!['<', 'i', 'n', 's', '>'] + s + seq!['<', '/', 'i', 'n', 's', '>']
            } else {
                seq!['<', 'u', '>'] + s + seq!['<', '/', 'u', '>']
            };
            let inner = rich(s, md);
            try_match(t, md) matches Some(r) && r.0 == t.len() && r.1.len() == inner.len() && (
            forall|k: int|
                0 <= k < inner.len() ==> {
                    &&& (#[trigger] r.1[k]).0 == inner[k].0
                    &&& r.1[k].1 == (Style {
                        add_modifier: inner[k].1.add_modifier | UNDERLINED,
                        ..inner[k].1
                    })
                    &&& r.1[k].1.add_modifier & UNDERLINED == UNDERLINED
                })
        }),
{
    let uo = seq!['<', 'u', '>'];
    let uc = seq!['<', '/', 'u', '>'];
    let io = seq!['<', 'i', 'n', 's', '>'];
    let ic = seq!['<', '/', 'i', 'n', 's', '>'];
    let t = if ins { io + s + ic } else { uo + s + uc };
    assert(t[0] == '<');
    assert(m_code(t, md) is None);
    assert(!starts_with(t, seq!['*', '*', '*']));
    assert(!starts_with(t, seq!['*', '*']));
    assert(m_italic(t, md) is None);
    if ins {
        assert(t[1] == 'i');
        assert(!starts_with(t, uo));
        lemma_wrap_takes_run(s, io, ic, UNDERLINED, md);
    } else {
        lemma_wrap_takes_run(s, uo, uc, UNDERLINED, md);
    }
    lemma_add_mods_bits(rich(s, md), UNDERLINED);
}

/// Inline code: text `s` without a backtick between two backticks is taken
/// whole and shown as it is, in one span in the code colour, dimmed.
pub proof fn lemma_code_shown_as_is(s: Seq<char>, md: MdColors)
    requires
        find_seq(s + seq!['`'], seq!['`']) == s.len(),
    ensures
        ({
            let t = seq!['`'] + s + seq!['`'];
            try_match(t, md) matches Some(r) && r.0 == t.len() && r.1.len() == 1 && r.1[0].0 == s
                && r.1[0].1.fg == Some(md.code_fg) && r.1[0].1.add_modifier & DIM == DIM
        }),
{
    let b = seq!['`'];
    let t = b + s + b;
    assert(t.skip(1) =~= s + b);
    assert((s + b).take(s.len() as int) =~= s);
    assert(0u16 | 0b0000_0000_0010u16 == 0b0000_0000_0010u16) by (bit_vector);
    assert((0b0000_0000_0010u16) & 0b0000_0000_0010u16 == 0b0000_0000_0010u16) by (bit_vector);
}


proof fn lemma_italic_close_no_star(t: Seq<char>, j: int)
    requires
        1 <= j <= t.len() - 1,
        t.last() == '*',
        forall|i: int| j <= i < t.len() - 1 ==> #[trigger] t[i] != '*',
    ensures
        italic_close(t, j) == t.len() - 1,
    decreases t.len() - j,
{
    if j < t.len() - 1 {
        lemma_italic_close_no_star(t, j + 1);
    }
}

/// Italic: non-empty text `s` without `*` between single `*` markers is
/// taken whole and renders as `s` renders on its own with the italic bit
/// added to every span.
pub proof fn lemma_italic_marks_italic(s: Seq<char>, md: MdColors)
    requires
        s.len() > 0,
        forall|i: int| 0 <= i < s.len() ==> #[trigger] s[i] != '*',
    ensures
        ({
            let t = seq!['*'] + s + seq!['*'];
            let inner = rich(s, md);
            try_match(t, md) matches Some(r) && r.0 == t.len() && r.1.len() == inner.len() && (
            forall|k: int|
                0 <= k < inner.len() ==> {
                    &&& (#[trigger] r.1[k]).0 == inner[k].0
                    &&& r.1[k].1 == (Style { add_modifier: inner[k].1.add_modifier | ITALIC, ..inner[k].1 })
                    &&& r.1[k].1.add_modifier & ITALIC == ITALIC
                })
        }),
{
    let st = seq!['*'];
    let t = st + s + st;
    assert(t[1] == s[0]);
    assert(m_code(t, md) is None);
    assert(!starts_with(t, seq!['*', '*', '*']));
    assert(!starts_with(t, seq!['*', '*']));
    assert forall|i: int| 1 <= i < t.len() - 1 implies #[trigger] t[i] != '*' by {
        assert(t[i] == s[i - 1]);
    }
    lemma_italic_close_no_star(t, 1);
    assert(part(t, 1, t.len() - 1) =~= s);
    lemma_add_mods_bits(rich(s, md), ITALIC);
}

} // verus!
