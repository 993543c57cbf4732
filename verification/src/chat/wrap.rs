//! Breaking text into rows of a given display width.
//!
//! Characters are laid out greedily: a row takes characters while they fit;
//! the character that would overflow a non-empty row starts the next one. A
//! character wider than the whole row still gets a row of its own. A tab
//! counts one column, control characters none, East Asian wide characters
//! two. A width of 0 means "do not wrap".
use vstd::prelude::*;

use crate::style::{span, Line, LineV, Span, SpanV, Style, lines_view, spans_view, plain_style};
use crate::text::{lines, push_char, str_lines, string_from, string_from_range};

verus! {

broadcast use vstd::string::group_string_axioms;

/// The display width that the terminal width tables give `c` (`None` for a
/// control character).
pub uninterp spec fn unicode_width(c: char) -> Option<usize>;

/// `UnicodeWidthChar::width`: the columns `c` takes. Below U+0020 and from
/// U+007F up to U+00A0 the crate answers `None` (control characters); printable
/// ASCII is one column; from U+00A0 on the answer comes from its tables and
/// is at most 3. The table values themselves are not stated here; they go by
/// the name `unicode_width`.
#[verifier::external_body]
pub(crate) fn char_width(c: char) -> (r: Option<usize>)
    ensures
        r == unicode_width(c),
        (c as u32) < 0x20 ==> r is None,
        0x20 <= (c as u32) < 0x7F ==> r == Some(1usize),
        0x7F <= (c as u32) < 0xA0 ==> r is None,
        0xA0 <= (c as u32) ==> r is Some && r->0 <= 3,
{
    unicode_width::UnicodeWidthChar::width(c)
}

/// Columns that `c` takes in a row: a tab one, a control character none.
pub open spec fn cell_width(c: char) -> nat {
    if c == '\t' {
        1
    } else {
        match unicode_width(c) {
            Some(w) => w as nat,
            None => 0,
        }
    }
}

/// Columns that `c` takes in a row.
pub fn cell_width_of(c: char) -> (w: usize)
    ensures
        w == cell_width(c),
        w <= 3,
{
    if c == '\t' {
        1
    } else {
        match char_width(c) {
            Some(w) => w,
            None => 0,
        }
    }
}

/// Greedy rows over items `i..n` whose widths are `w`, the current row being
/// `[start, i)` of width `row_w`: the index ranges of the rows.
pub open spec fn fill(n: int, w: spec_fn(int) -> nat, width: nat, start: int, i: int, row_w: nat) -> Seq<
    (int, int),
>
    decreases n - i,
{
    if i >= n {
        seq![(start, i)]
    } else if i > start && row_w + w(i) > width {
        seq![(start, i)] + fill(n, w, width, i, i + 1, w(i))
    } else {
        fill(n, w, width, start, i + 1, row_w + w(i))
    }
}

/// The rows of `n` items of widths `w` filled greedily into `width` columns.
pub open spec fn fill_rows(n: int, w: spec_fn(int) -> nat, width: nat) -> Seq<(int, int)> {
    fill(n, w, width, 0, 0, 0)
}

/// The pairs of `v` as integers.
pub open spec fn ranges_view(v: Seq<(usize, usize)>) -> Seq<(int, int)> {
    v.map_values(|p: (usize, usize)| (p.0 as int, p.1 as int))
}

/// Greedy row ranges for the item widths `ws`.
pub(crate) fn fill_ranges(ws: &Vec<usize>, width: usize, Ghost(w): Ghost<spec_fn(int) -> nat>) -> (r: Vec<
    (usize, usize),
>)
    requires
        forall|k: int| 0 <= k < ws@.len() ==> #[trigger] ws@[k] == w(k) && ws@[k] <= 3,
    ensures
        ranges_view(r@) == fill_rows(ws@.len() as int, w, width as nat),
        forall|k: int| 0 <= k < r@.len() ==> #[trigger] r@[k].0 <= r@[k].1 <= ws@.len(),
{
    let n = ws.len();
    let mut out: Vec<(usize, usize)> = Vec::new();
    let mut start: usize = 0;
    let mut row_w: usize = 0;
    let mut i: usize = 0;
    while i < n
        invariant
            n == ws@.len(),
            forall|k: int| 0 <= k < ws@.len() ==> #[trigger] ws@[k] == w(k) && ws@[k] <= 3,
            start <= i <= n,
            i == start ==> row_w == 0,
            i > start ==> row_w <= width || i == start + 1,
            row_w <= width + 3,
            ranges_view(out@) + fill(n as int, w, width as nat, start as int, i as int, row_w as nat)
                == fill_rows(n as int, w, width as nat),
            forall|k: int| 0 <= k < out@.len() ==> #[trigger] out@[k].0 <= out@[k].1 <= start,
        decreases n - i,
    {
        let c = ws[i];
        let ghost before = out@;
        if i > start && (row_w > width || c > width - row_w) {
            out.push((start, i));
            proof {
                assert(ranges_view(out@) =~= ranges_view(before).push((start as int, i as int)));
                assert(ranges_view(out@) + fill(n as int, w, width as nat, i as int, i + 1, c as nat)
                    =~= ranges_view(before) + fill(n as int, w, width as nat, start as int, i as int, row_w as nat));
            }
            start = i;
            row_w = c;
        } else {
            row_w = row_w + c;
        }
        i = i + 1;
    }
    let ghost before = out@;
    out.push((start, n));
    assert(ranges_view(out@) =~= ranges_view(before).push((start as int, n as int)));
    assert forall|k: int| 0 <= k < out@.len() implies #[trigger] out@[k].0 <= out@[k].1 <= ws@.len() by {
        if k < before.len() {
            assert(out@[k] == before[k]);
        }
    }
    out
}

// ---------------------------------------------------------------------------
// Plain strings
// ---------------------------------------------------------------------------

/// The visual rows of one source line.
pub open spec fn source_rows(l: Seq<char>, width: nat) -> Seq<Seq<char>> {
    if l.len() == 0 {
        seq![Seq::empty()]
    } else if width == 0 {
        seq![l]
    } else {
        fill_rows(l.len() as int, |k: int| cell_width(l[k]), width).map_values(
            |r: (int, int)| l.subrange(r.0, r.1),
        )
    }
}

/// The visual rows of source lines `ls`, in order.
pub open spec fn rows_of_lines(ls: Seq<Seq<char>>, width: nat) -> Seq<Seq<char>>
    decreases ls.len(),
{
    if ls.len() == 0 {
        Seq::empty()
    } else {
        rows_of_lines(ls.drop_last(), width) + source_rows(ls.last(), width)
    }
}

/// The visual rows of `s`: each of its lines (`str::lines`) wrapped to `width`.
pub open spec fn visual_lines(s: Seq<char>, width: nat) -> Seq<Seq<char>> {
    rows_of_lines(lines(s), width)
}

/// The view of a list of strings.
pub open spec fn strings_view(v: Seq<String>) -> Seq<Seq<char>> {
    v.map_values(|s: String| s@)
}

fn push_source_rows(out: &mut Vec<String>, l: &Vec<char>, width: usize)
    ensures
        strings_view(final(out)@) == strings_view(old(out)@) + source_rows(l@, width as nat),
{
    let ghost start = strings_view(out@);
    if l.len() == 0 {
        out.push(String::new());
        assert(strings_view(out@) =~= start + source_rows(l@, width as nat));
        return;
    }
    if width == 0 {
        out.push(string_from(l));
        assert(strings_view(out@) =~= start + source_rows(l@, width as nat));
        return;
    }
    let mut ws: Vec<usize> = Vec::new();
    let ghost w = |k: int| cell_width(l@[k]);
    let mut k: usize = 0;
    while k < l.len()
        invariant
            k <= l@.len(),
            ws@.len() == k,
            w == (|k: int| cell_width(l@[k])),
            forall|j: int| 0 <= j < k ==> #[trigger] ws@[j] == w(j) && ws@[j] <= 3,
        decreases l@.len() - k,
    {
        ws.push(cell_width_of(l[k]));
        k = k + 1;
    }
    let rs = fill_ranges(&ws, width, Ghost(w));
    let ghost want = source_rows(l@, width as nat);
    assert(want == ranges_view(rs@).map_values(|r: (int, int)| l@.subrange(r.0, r.1)));
    let mut j: usize = 0;
    while j < rs.len()
        invariant
            j <= rs@.len(),
            l@.len() > 0,
            width > 0,
            want == ranges_view(rs@).map_values(|r: (int, int)| l@.subrange(r.0, r.1)),
            forall|m: int| 0 <= m < rs@.len() ==> #[trigger] rs@[m].0 <= rs@[m].1 <= l@.len(),
            strings_view(out@) == start + want.take(j as int),
        decreases rs@.len() - j,
    {
        let (a, b) = rs[j];
        let ghost before = out@;
        out.push(string_from_range(l, a, b));
        assert(want[j as int] == l@.subrange(a as int, b as int));
        assert(strings_view(out@) =~= strings_view(before).push(want[j as int]));
        assert(want.take(j + 1) =~= want.take(j as int).push(want[j as int]));
        j = j + 1;
    }
    assert(want.take(rs@.len() as int) =~= want);
}

/// Breaks `s` into the rows it takes at `width` columns (tab one column,
/// East Asian wide characters two). Each line of `s` (`str::lines`) starts a
/// new row; an empty line is one empty row; `""` gives no rows; width 0
/// leaves every line whole.
pub fn wrap_string_to_visual_lines(s: &str, width: usize) -> (r: Vec<String>)
    ensures
        strings_view(r@) == visual_lines(s@, width as nat),
{
    let ls = str_lines(s);
    let ghost gl = lines(s@);
    let mut out: Vec<String> = Vec::new();
    let mut i: usize = 0;
    assert(gl.take(0) =~= Seq::<Seq<char>>::empty());
    assert(strings_view(out@) =~= Seq::<Seq<char>>::empty());
    while i < ls.len()
        invariant
            i <= ls@.len(),
            gl == lines(s@),
            ls@.len() == gl.len(),
            forall|k: int| 0 <= k < ls@.len() ==> #[trigger] ls@[k]@ == gl[k],
            strings_view(out@) == rows_of_lines(gl.take(i as int), width as nat),
        decreases ls@.len() - i,
    {
        push_source_rows(&mut out, &ls[i], width);
        assert(gl.take(i + 1).drop_last() =~= gl.take(i as int));
        i = i + 1;
    }
    assert(gl.take(ls@.len() as int) =~= gl);
    out
}

// ---------------------------------------------------------------------------
// Styled lines
// ---------------------------------------------------------------------------

/// The characters of a line, each with the style of its span.
pub open spec fn cells_of(l: LineV) -> Seq<(char, Style)>
    decreases l.len(),
{
    if l.len() == 0 {
        Seq::empty()
    } else {
        cells_of(l.drop_last()) + l.last().0.map_values(|c: char| (c, l.last().1))
    }
}

/// Spans of `rest` after a run of `text` in style `st`: characters of equal
/// style stay in one span.
pub open spec fn runs_from(text: Seq<char>, st: Style, rest: Seq<(char, Style)>) -> Seq<SpanV>
    decreases rest.len(),
{
    if rest.len() == 0 {
        seq![(text, st)]
    } else if rest[0].1 == st {
        runs_from(text.push(rest[0].0), st, rest.drop_first())
    } else {
        seq![(text, st)] + runs_from(seq![rest[0].0], rest[0].1, rest.drop_first())
    }
}

/// The spans of a row: maximal runs of characters of one style.
pub open spec fn runs(row: Seq<(char, Style)>) -> Seq<SpanV> {
    if row.len() == 0 {
        Seq::empty()
    } else {
        runs_from(seq![row[0].0], row[0].1, row.drop_first())
    }
}

/// The rows that line `l` takes at `width` (> 0) columns.
pub open spec fn wrap_line(l: LineV, width: nat) -> Seq<LineV> {
    let cells = cells_of(l);
    if cells.len() == 0 {
        seq![Seq::empty()]
    } else {
        fill_rows(cells.len() as int, |k: int| cell_width(cells[k].0), width).map_values(
            |r: (int, int)| runs(cells.subrange(r.0, r.1)),
        )
    }
}

/// The rows of lines `ls`, in order.
pub open spec fn wrap_all(ls: Seq<LineV>, width: nat) -> Seq<LineV>
    decreases ls.len(),
{
    if ls.len() == 0 {
        Seq::empty()
    } else {
        wrap_all(ls.drop_last(), width) + wrap_line(ls.last(), width)
    }
}

/// What `wrap_lines` returns.
pub open spec fn spec_wrap_lines(ls: Seq<LineV>, width: nat) -> Seq<LineV> {
    if width == 0 {
        ls
    } else {
        wrap_all(ls, width)
    }
}

/// A copy of `s` (`String::clone`).
pub fn copy_string(s: &String) -> (r: String)
    ensures
        r@ == s@,
{
    s.clone()
}

/// A copy of a line.
pub fn copy_line(l: &Line) -> (r: Line)
    ensures
        r@ == l@,
{
    let mut v: Vec<Span> = Vec::new();
    let mut i: usize = 0;
    while i < l.spans.len()
        invariant
            i <= l.spans@.len(),
            spans_view(v@) == spans_view(l.spans@).take(i as int),
        decreases l.spans@.len() - i,
    {
        let s = &l.spans[i];
        let ghost before = v@;
        v.push(span(copy_string(&s.content), s.style));
        assert(spans_view(v@) =~= spans_view(before).push(s@));
        assert(spans_view(l.spans@).take(i + 1) =~= spans_view(l.spans@).take(i as int).push(s@));
        i = i + 1;
    }
    assert(spans_view(l.spans@).take(l.spans@.len() as int) =~= spans_view(l.spans@));
    Line { spans: v }
}

/// The cells of `l`.
fn line_cells(l: &Line) -> (r: (Vec<char>, Vec<Style>))
    ensures
        r.0@.len() == r.1@.len(),
        r.0@.len() == cells_of(l@).len(),
        forall|k: int| 0 <= k < r.0@.len() ==> #[trigger] cells_of(l@)[k] == (r.0@[k], r.1@[k]),
{
    let mut cs: Vec<char> = Vec::new();
    let mut ss: Vec<Style> = Vec::new();
    let mut i: usize = 0;
    while i < l.spans.len()
        invariant
            i <= l.spans@.len(),
            cs@.len() == ss@.len(),
            cs@.len() == cells_of(l@.take(i as int)).len(),
            forall|k: int| 0 <= k < cs@.len() ==> #[trigger] cells_of(l@.take(i as int))[k] == (cs@[k], ss@[k]),
        decreases l.spans@.len() - i,
    {
        let sp = &l.spans[i];
        let chars = crate::text::str_chars(sp.content.as_str());
        let ghost pre = cells_of(l@.take(i as int));
        let ghost add = chars@.map_values(|c: char| (c, sp.style));
        assert(l@.take(i + 1).drop_last() =~= l@.take(i as int));
        assert(l@.take(i + 1).last() == sp@);
        assert(cells_of(l@.take(i + 1)) == pre + add);
        let mut j: usize = 0;
        let ghost base = cs@.len();
        while j < chars.len()
            invariant
                j <= chars@.len(),
                base == pre.len(),
                cs@.len() == ss@.len(),
                cs@.len() == base + j,
                add == chars@.map_values(|c: char| (c, sp.style)),
                forall|k: int| 0 <= k < base ==> #[trigger] pre[k] == (cs@[k], ss@[k]),
                forall|k: int| base <= k < cs@.len() ==> #[trigger] add[k - base] == (cs@[k], ss@[k]),
            decreases chars@.len() - j,
        {
            cs.push(chars[j]);
            ss.push(sp.style);
            j = j + 1;
        }
        assert forall|k: int| 0 <= k < cs@.len() implies #[trigger] cells_of(l@.take(i + 1))[k] == (cs@[k], ss@[k]) by {
            if k < base {
                assert((pre + add)[k] == pre[k]);
            } else {
                assert((pre + add)[k] == add[k - base]);
            }
        }
        i = i + 1;
    }
    assert(l@.take(l.spans@.len() as int) =~= l@);
    (cs, ss)
}

/// The spans of the row `cs[a..b]` / `ss[a..b]`.
fn row_spans(cs: &Vec<char>, ss: &Vec<Style>, a: usize, b: usize, Ghost(cells): Ghost<Seq<(char, Style)>>) -> (r: Line)
    requires
        a < b <= cs@.len(),
        cs@.len() == ss@.len(),
        cells.len() == cs@.len(),
        forall|k: int| 0 <= k < cs@.len() ==> #[trigger] cells[k] == (cs@[k], ss@[k]),
    ensures
        r@ == runs(cells.subrange(a as int, b as int)),
{
    let ghost row = cells.subrange(a as int, b as int);
    let mut v: Vec<Span> = Vec::new();
    let mut text = String::new();
    push_char(&mut text, cs[a]);
    let mut st = ss[a];
    let mut k: usize = a + 1;
    assert(text@ =~= seq![row[0].0]);
    assert(row.drop_first() =~= row.skip(1));
    while k < b
        invariant
            a < k <= b <= cs@.len(),
            cs@.len() == ss@.len(),
            cells.len() == cs@.len(),
            forall|m: int| 0 <= m < cs@.len() ==> #[trigger] cells[m] == (cs@[m], ss@[m]),
            row == cells.subrange(a as int, b as int),
            spans_view(v@) + runs_from(text@, st, row.skip(k - a)) == runs(row),
        decreases b - k,
    {
        let c = cs[k];
        let s = ss[k];
        let ghost rest = row.skip(k - a);
        assert(rest[0] == cells[k as int]);
        assert(rest.drop_first() =~= row.skip(k + 1 - a));
        if s == st {
            push_char(&mut text, c);
        } else {
            let ghost before = v@;
            let ghost old_st = st;
            let t = text;
            v.push(span(t, st));
            text = String::new();
            push_char(&mut text, c);
            st = s;
            assert(spans_view(v@) =~= spans_view(before).push((t@, old_st)));
            assert(text@ =~= seq![c]);
            assert(spans_view(v@) + runs_from(text@, st, row.skip(k + 1 - a)) =~= spans_view(before)
                + runs_from(t@, old_st, rest));
        }
        k = k + 1;
    }
    let ghost before = v@;
    v.push(span(text, st));
    assert(row.skip(b - a) =~= Seq::<(char, Style)>::empty());
    assert(spans_view(v@) =~= spans_view(before).push((text@, st)));
    Line { spans: v }
}

/// Breaks styled lines into rows of at most `width` columns (a single
/// character wider than `width` gets a row of its own). Characters keep their
/// style; within a row, neighbours of one style share a span. A line with no
/// characters stays one empty row. Width 0 returns the lines unchanged.
pub fn wrap_lines(lines: &[Line], width: usize) -> (r: Vec<Line>)
    ensures
        lines_view(r@) == spec_wrap_lines(lines_view(lines@), width as nat),
{
    let mut out: Vec<Line> = Vec::new();
    let ghost ls = lines_view(lines@);
    let mut i: usize = 0;
    assert(ls.take(0) =~= Seq::<LineV>::empty());
    assert(lines_view(out@) =~= Seq::<LineV>::empty());
    while i < lines.len()
        invariant
            i <= lines@.len(),
            ls == lines_view(lines@),
            lines_view(out@) == (if width == 0 {
                ls.take(i as int)
            } else {
                wrap_all(ls.take(i as int), width as nat)
            }),
        decreases lines@.len() - i,
    {
        let l = &lines[i];
        assert(ls.take(i + 1).drop_last() =~= ls.take(i as int));
        assert(ls.take(i + 1).last() == l@);
        let ghost start = lines_view(out@);
        if width == 0 {
            out.push(copy_line(l));
            assert(lines_view(out@) =~= start.push(l@));
            assert(ls.take(i + 1) =~= ls.take(i as int).push(l@));
        } else {
            let (cs, ss) = line_cells(l);
            let ghost cells = cells_of(l@);
            if cs.len() == 0 {
                let el = Line { spans: Vec::new() };
                assert(el@ =~= Seq::<SpanV>::empty());
                out.push(el);
                assert(lines_view(out@) =~= start + wrap_line(l@, width as nat));
            } else {
                let mut ws: Vec<usize> = Vec::new();
                let ghost w = |k: int| cell_width(cells[k].0);
                let mut k: usize = 0;
                while k < cs.len()
                    invariant
                        k <= cs@.len(),
                        cs@.len() == cells.len(),
                        forall|m: int| 0 <= m < cs@.len() ==> #[trigger] cells[m] == (cs@[m], ss@[m]),
                        ws@.len() == k,
                        w == (|k: int| cell_width(cells[k].0)),
                        forall|j: int| 0 <= j < k ==> #[trigger] ws@[j] == w(j) && ws@[j] <= 3,
                    decreases cs@.len() - k,
                {
                    ws.push(cell_width_of(cs[k]));
                    k = k + 1;
                }
                let rs = fill_ranges(&ws, width, Ghost(w));
                let ghost want = wrap_line(l@, width as nat);
                assert(want == ranges_view(rs@).map_values(
                    |r: (int, int)| runs(cells.subrange(r.0, r.1)),
                ));
                let mut j: usize = 0;
                while j < rs.len()
                    invariant
                        j <= rs@.len(),
                        cs@.len() == ss@.len(),
                        cells.len() == cs@.len(),
                        cs@.len() > 0,
                        forall|m: int| 0 <= m < cs@.len() ==> #[trigger] cells[m] == (cs@[m], ss@[m]),
                        want == ranges_view(rs@).map_values(
                            |r: (int, int)| runs(cells.subrange(r.0, r.1)),
                        ),
                        forall|m: int| 0 <= m < rs@.len() ==> #[trigger] rs@[m].0 <= rs@[m].1 <= cs@.len(),
                        fill_rows(cs@.len() as int, w, width as nat) == ranges_view(rs@),
                        lines_view(out@) == start + want.take(j as int),
                    decreases rs@.len() - j,
                {
                    let (a, b) = rs[j];
                    let ghost before = out@;
                    proof {
                        lemma_fill_rows_nonempty(cs@.len() as int, w, width as nat, j as int);
                    }
                    out.push(row_spans(&cs, &ss, a, b, Ghost(cells)));
                    assert(lines_view(out@) =~= lines_view(before).push(want[j as int]));
                    assert(want.take(j + 1) =~= want.take(j as int).push(want[j as int]));
                    j = j + 1;
                }
                assert(want.take(rs@.len() as int) =~= want);
            }
        }
        i = i + 1;
    }
    assert(ls.take(lines@.len() as int) =~= ls);
    out
}

/// Rows of a non-empty sequence of items are non-empty index ranges.
pub proof fn lemma_fill_rows_nonempty(n: int, w: spec_fn(int) -> nat, width: nat, j: int)
    requires
        n > 0,
        0 <= j < fill_rows(n, w, width).len(),
    ensures
        fill_rows(n, w, width)[j].0 < fill_rows(n, w, width)[j].1,
{
    lemma_fill_nonempty(n, w, width, 0, 0, 0, j);
}

proof fn lemma_fill_nonempty(n: int, w: spec_fn(int) -> nat, width: nat, start: int, i: int, row_w: nat, j: int)
    requires
        0 <= start <= i <= n,
        n > 0,
        start < n,
        0 <= j < fill(n, w, width, start, i, row_w).len(),
        i == start ==> i < n,
    ensures
        fill(n, w, width, start, i, row_w)[j].0 < fill(n, w, width, start, i, row_w)[j].1,
    decreases n - i,
{
    if i >= n {
    } else if i > start && row_w + w(i) > width {
        if j > 0 {
            lemma_fill_nonempty(n, w, width, i, i + 1, w(i), j - 1);
        }
    } else {
        lemma_fill_nonempty(n, w, width, start, i + 1, row_w + w(i), j);
    }
}


// ---------------------------------------------------------------------------
// Laws of wrapping
// ---------------------------------------------------------------------------

/// The pieces of `s` cut at the ranges `rs`.
pub open spec fn slices(s: Seq<char>, rs: Seq<(int, int)>) -> Seq<Seq<char>> {
    rs.map_values(|r: (int, int)| s.subrange(r.0, r.1))
}

/// Columns taken by the items `a..b` of widths `w`.
pub open spec fn span_width(w: spec_fn(int) -> nat, a: int, b: int) -> nat
    decreases b - a,
{
    if b <= a {
        0
    } else {
        span_width(w, a, b - 1) + w(b - 1)
    }
}

/// Columns taken by the characters of `s`.
pub open spec fn text_width(s: Seq<char>) -> nat {
    span_width(|k: int| cell_width(s[k]), 0, s.len() as int)
}

proof fn lemma_fill_covers(s: Seq<char>, width: nat, start: int, i: int, row_w: nat)
    requires
        0 <= start <= i <= s.len(),
    ensures
        slices(s, fill(s.len() as int, |k: int| cell_width(s[k]), width, start, i, row_w)).flatten()
            == s.subrange(start, s.len() as int),
    decreases s.len() - i,
{
    let n = s.len() as int;
    let w = |k: int| cell_width(s[k]);
    if i >= n {
        let one = slices(s, seq![(start, i)]);
        assert(one =~= seq![s.subrange(start, i)]);
        one.lemma_flatten_singleton();
    } else if i > start && row_w + w(i) > width {
        lemma_fill_covers(s, width, i, i + 1, w(i));
        let rest = fill(n, w, width, i, i + 1, w(i));
        assert(slices(s, seq![(start, i)] + rest) =~= seq![s.subrange(start, i)] + slices(s, rest));
        vstd::seq_lib::lemma_flatten_concat(seq![s.subrange(start, i)], slices(s, rest));
        seq![s.subrange(start, i)].lemma_flatten_singleton();
        assert(s.subrange(start, i) + s.subrange(i, n) =~= s.subrange(start, n));
    } else {
        lemma_fill_covers(s, width, start, i + 1, row_w + w(i));
    }
}

/// Wrapping loses nothing: the rows of a source line, joined, give back the line.
pub proof fn lemma_source_rows_keep_text(l: Seq<char>, width: nat)
    ensures
        source_rows(l, width).flatten() == l,
{
    if l.len() == 0 {
        seq![Seq::<char>::empty()].lemma_flatten_singleton();
    } else if width == 0 {
        seq![l].lemma_flatten_singleton();
    } else {
        lemma_fill_covers(l, width, 0, 0, 0);
        assert(source_rows(l, width) =~= slices(l, fill_rows(l.len() as int, |k: int| cell_width(l[k]), width)));
        assert(l.subrange(0, l.len() as int) =~= l);
    }
}

proof fn lemma_span_width_shift(s: Seq<char>, a: int, b: int)
    requires
        0 <= a <= b <= s.len(),
    ensures
        span_width(|k: int| cell_width(s[k]), a, b) == text_width(s.subrange(a, b)),
    decreases b - a,
{
    let w = |k: int| cell_width(s[k]);
    let t = s.subrange(a, b);
    let wt = |k: int| cell_width(t[k]);
    assert forall|m: int| 0 <= m <= b - a implies #[trigger] span_width(wt, 0, m) == span_width(w, a, a + m) by {
        lemma_span_width_offset(s, a, b, m);
    }
}

proof fn lemma_span_width_offset(s: Seq<char>, a: int, b: int, m: int)
    requires
        0 <= a <= b <= s.len(),
        0 <= m <= b - a,
    ensures
        span_width(|k: int| cell_width(s.subrange(a, b)[k]), 0, m) == span_width(|k: int| cell_width(s[k]), a, a + m),
    decreases m,
{
    if m > 0 {
        lemma_span_width_offset(s, a, b, m - 1);
        assert(s.subrange(a, b)[m - 1] == s[a + m - 1]);
    }
}

proof fn lemma_fill_fits(s: Seq<char>, width: nat, start: int, i: int, row_w: nat, j: int)
    requires
        0 <= start <= i <= s.len(),
        row_w == span_width(|k: int| cell_width(s[k]), start, i),
        i <= start + 1 || row_w <= width,
        0 <= j < fill(s.len() as int, |k: int| cell_width(s[k]), width, start, i, row_w).len(),
    ensures
        ({
            let r = fill(s.len() as int, |k: int| cell_width(s[k]), width, start, i, row_w)[j];
            &&& start <= r.0 <= r.1 <= s.len()
            &&& (r.1 <= r.0 + 1 || span_width(|k: int| cell_width(s[k]), r.0, r.1) <= width)
        }),
    decreases s.len() - i,
{
    let n = s.len() as int;
    let w = |k: int| cell_width(s[k]);
    if i >= n {
    } else if i > start && row_w + w(i) > width {
        if j > 0 {
            assert(span_width(w, i, i + 1) == w(i)) by {
                assert(span_width(w, i, i) == 0);
            }
            lemma_fill_fits(s, width, i, i + 1, w(i), j - 1);
        }
    } else {
        lemma_fill_fits(s, width, start, i + 1, row_w + w(i), j);
    }
}

/// Every row of a wrapped source line fits in `width` columns, except a row
/// that holds a single character wider than `width`.
pub proof fn lemma_source_rows_fit(l: Seq<char>, width: nat, j: int)
    requires
        width > 0,
        0 <= j < source_rows(l, width).len(),
    ensures
        text_width(source_rows(l, width)[j]) <= width || source_rows(l, width)[j].len() == 1,
{
    if l.len() > 0 {
        let w = |k: int| cell_width(l[k]);
        lemma_fill_fits(l, width, 0, 0, 0, j);
        let r = fill(l.len() as int, w, width, 0, 0, 0)[j];
        lemma_span_width_shift(l, r.0, r.1);
        lemma_fill_rows_nonempty(l.len() as int, w, width, j);
    }
}


/// The characters of a line, without their styles.
pub open spec fn line_text(l: LineV) -> Seq<char> {
    cells_of(l).map_values(|p: (char, Style)| p.0)
}

proof fn lemma_cells_of_concat(a: LineV, b: LineV)
    ensures
        cells_of(a + b) == cells_of(a) + cells_of(b),
    decreases b.len(),
{
    if b.len() == 0 {
        assert(a + b =~= a);
        assert(cells_of(a) + cells_of(b) =~= cells_of(a));
    } else {
        lemma_cells_of_concat(a, b.drop_last());
        assert((a + b).drop_last() =~= a + b.drop_last());
        assert((a + b).last() == b.last());
        let t = b.last().0.map_values(|c: char| (c, b.last().1));
        assert(cells_of(a) + cells_of(b.drop_last()) + t =~= cells_of(a) + (cells_of(b.drop_last()) + t));
    }
}

proof fn lemma_cells_of_single(x: SpanV)
    ensures
        cells_of(seq![x]) == x.0.map_values(|c: char| (c, x.1)),
{
    let l = seq![x];
    assert(l.drop_last() =~= Seq::<SpanV>::empty());
    assert(cells_of(l.drop_last()) == Seq::<(char, Style)>::empty());
    assert(l.last() == x);
    let t = l.last().0.map_values(|c: char| (c, l.last().1));
    assert(cells_of(l) == cells_of(l.drop_last()) + t);
    assert(Seq::<(char, Style)>::empty() + t =~= x.0.map_values(|c: char| (c, x.1)));
}

proof fn lemma_fill_same_widths(
    n: int,
    w1: spec_fn(int) -> nat,
    w2: spec_fn(int) -> nat,
    width: nat,
    start: int,
    i: int,
    row_w: nat,
)
    requires
        0 <= i,
        forall|k: int| 0 <= k < n ==> #[trigger] w1(k) == w2(k),
    ensures
        fill(n, w1, width, start, i, row_w) == fill(n, w2, width, start, i, row_w),
    decreases n - i,
{
    if i < n {
        assert(w1(i) == w2(i));
        lemma_fill_same_widths(n, w1, w2, width, i, i + 1, w1(i));
        lemma_fill_same_widths(n, w1, w2, width, start, i + 1, row_w + w1(i));
    }
}

proof fn lemma_runs_from_cells(text: Seq<char>, st: Style, rest: Seq<(char, Style)>)
    ensures
        cells_of(runs_from(text, st, rest)) == text.map_values(|c: char| (c, st)) + rest,
    decreases rest.len(),
{
    if rest.len() == 0 {
        lemma_cells_of_single((text, st));
        assert(text.map_values(|c: char| (c, st)) + rest =~= text.map_values(|c: char| (c, st)));
    } else if rest[0].1 == st {
        lemma_runs_from_cells(text.push(rest[0].0), st, rest.drop_first());
        assert(text.push(rest[0].0).map_values(|c: char| (c, st)) + rest.drop_first()
            =~= text.map_values(|c: char| (c, st)) + rest);
    } else {
        lemma_runs_from_cells(seq![rest[0].0], rest[0].1, rest.drop_first());
        lemma_cells_of_single((text, st));
        lemma_cells_of_concat(seq![(text, st)], runs_from(seq![rest[0].0], rest[0].1, rest.drop_first()));
        assert(seq![rest[0].0].map_values(|c: char| (c, rest[0].1)) + rest.drop_first() =~= rest);
    }
}

/// Merging a row into runs keeps each character with its style.
pub proof fn lemma_runs_keep_cells(row: Seq<(char, Style)>)
    ensures
        cells_of(runs(row)) == row,
{
    if row.len() == 0 {
        assert(cells_of(Seq::<SpanV>::empty()) =~= row);
    } else {
        lemma_runs_from_cells(seq![row[0].0], row[0].1, row.drop_first());
        assert(seq![row[0].0].map_values(|c: char| (c, row[0].1)) + row.drop_first() =~= row);
    }
}

/// Every row of a wrapped styled line fits in `width` columns, except a row
/// that holds a single character wider than `width`.
pub proof fn lemma_wrap_line_fits(l: LineV, width: nat, j: int)
    requires
        width > 0,
        0 <= j < wrap_line(l, width).len(),
    ensures
        text_width(line_text(wrap_line(l, width)[j])) <= width || line_text(
            wrap_line(l, width)[j],
        ).len() == 1,
{
    let cells = cells_of(l);
    if cells.len() == 0 {
        assert(wrap_line(l, width)[j] == Seq::<SpanV>::empty());
        assert(line_text(Seq::<SpanV>::empty()) =~= Seq::<char>::empty());
    } else {
        let chars = cells.map_values(|p: (char, Style)| p.0);
        let wc = |k: int| cell_width(cells[k].0);
        let wt = |k: int| cell_width(chars[k]);
        assert forall|k: int| 0 <= k < cells.len() implies #[trigger] wc(k) == wt(k) by {
            assert(chars[k] == cells[k].0);
        }
        lemma_fill_same_widths(cells.len() as int, wc, wt, width, 0, 0, 0);
        let rs = fill_rows(cells.len() as int, wc, width);
        assert(rs == fill(chars.len() as int, wt, width, 0, 0, 0));
        lemma_fill_fits(chars, width, 0, 0, 0, j);
        let r = rs[j];
        lemma_span_width_shift(chars, r.0, r.1);
        lemma_fill_rows_nonempty(chars.len() as int, wt, width, j);
        let row = cells.subrange(r.0, r.1);
        assert(wrap_line(l, width)[j] == runs(row));
        lemma_runs_keep_cells(row);
        assert(line_text(runs(row)) =~= chars.subrange(r.0, r.1));
    }
}

} // verus!
