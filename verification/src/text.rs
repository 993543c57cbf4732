//! Character-level text helpers shared by the parsers of this crate.
//!
//! Strings are handled as sequences of `char` (the view of `str` and
//! `String`); the functions here convert between the two and implement the
//! few `str` operations that the rest of the library needs (`trim`, `lines`,
//! prefix tests, splitting at the first whitespace) with exact contracts.
use vstd::prelude::*;

verus! {

broadcast use vstd::string::group_string_axioms;

// ---------------------------------------------------------------------------
// Specifications
// ---------------------------------------------------------------------------

/// Unicode `White_Space`, the set that `char::is_whitespace` tests.
pub open spec fn is_ws(c: char) -> bool {
    let u = c as u32;
    ||| (0x9 <= u && u <= 0xd)
    ||| u == 0x20
    ||| u == 0x85
    ||| u == 0xa0
    ||| u == 0x1680
    ||| (0x2000 <= u && u <= 0x200a)
    ||| u == 0x2028
    ||| u == 0x2029
    ||| u == 0x202f
    ||| u == 0x205f
    ||| u == 0x3000
}

/// `s` with its leading whitespace removed (`str::trim_start`).
pub open spec fn trim_start(s: Seq<char>) -> Seq<char>
    decreases s.len(),
{
    if s.len() > 0 && is_ws(s[0]) {
        trim_start(s.drop_first())
    } else {
        s
    }
}

/// `s` with its trailing whitespace removed (`str::trim_end`).
pub open spec fn trim_end(s: Seq<char>) -> Seq<char>
    decreases s.len(),
{
    if s.len() > 0 && is_ws(s.last()) {
        trim_end(s.drop_last())
    } else {
        s
    }
}

/// `s` with leading and trailing whitespace removed (`str::trim`).
pub open spec fn trim(s: Seq<char>) -> Seq<char> {
    trim_end(trim_start(s))
}

/// Whether `p` is a prefix of `s` (`str::starts_with`).
pub open spec fn starts_with(s: Seq<char>, p: Seq<char>) -> bool {
    p.len() <= s.len() && s.subrange(0, p.len() as int) == p
}

/// Whether `c` occurs in `s` (`str::contains` with a `char`).
pub open spec fn has_char(s: Seq<char>, c: char) -> bool {
    exists|i: int| 0 <= i < s.len() && s[i] == c
}

/// The pieces of `s` between occurrences of `sep`; always at least one piece.
pub open spec fn split_on(s: Seq<char>, sep: char) -> Seq<Seq<char>>
    decreases s.len(),
{
    if s.len() == 0 {
        seq![Seq::<char>::empty()]
    } else {
        let p = split_on(s.drop_last(), sep);
        if s.last() == sep {
            p.push(Seq::<char>::empty())
        } else {
            p.update(p.len() - 1, p.last().push(s.last()))
        }
    }
}

/// A line that was ended by `\n` loses a `\r` before it.
pub open spec fn strip_cr(l: Seq<char>) -> Seq<char> {
    if l.len() > 0 && l.last() == '\r' {
        l.drop_last()
    } else {
        l
    }
}

/// The lines of `s`, as `str::lines` yields them: split at `\n`, a `\r` before
/// the `\n` removed, and no final empty line after a trailing `\n`.
pub open spec fn lines(s: Seq<char>) -> Seq<Seq<char>> {
    let p = split_on(s, '\n');
    let body = p.drop_last().map_values(|l: Seq<char>| strip_cr(l));
    if p.last().len() == 0 {
        body
    } else {
        body.push(p.last())
    }
}

/// Index of the first whitespace character of `s`, or its length.
pub open spec fn first_ws(s: Seq<char>) -> nat
    decreases s.len(),
{
    if s.len() == 0 {
        0
    } else if is_ws(s[0]) {
        0
    } else {
        1 + first_ws(s.drop_first())
    }
}

/// Index of the first `c` in `s`, or its length.
pub open spec fn index_of(s: Seq<char>, c: char) -> nat
    decreases s.len(),
{
    if s.len() == 0 {
        0
    } else if s[0] == c {
        0
    } else {
        1 + index_of(s.drop_first(), c)
    }
}

/// Joins `parts` with `sep` between consecutive parts.
pub open spec fn join(parts: Seq<Seq<char>>, sep: Seq<char>) -> Seq<char>
    decreases parts.len(),
{
    if parts.len() == 0 {
        Seq::empty()
    } else if parts.len() == 1 {
        parts[0]
    } else {
        join(parts.drop_last(), sep) + sep + parts.last()
    }
}

// ---------------------------------------------------------------------------
// Lemmas
// ---------------------------------------------------------------------------

pub proof fn lemma_split_on_nonempty(s: Seq<char>, sep: char)
    ensures
        split_on(s, sep).len() >= 1,
    decreases s.len(),
{
    if s.len() > 0 {
        lemma_split_on_nonempty(s.drop_last(), sep);
    }
}

/// A text holding a line break has at least one line.
pub proof fn lemma_break_has_line(s: Seq<char>)
    requires
        has_char(s, '\n'),
    ensures
        lines(s).len() >= 1,
{
    lemma_split_on_many(s, '\n');
}

proof fn lemma_split_on_many(s: Seq<char>, sep: char)
    requires
        has_char(s, sep),
    ensures
        split_on(s, sep).len() >= 2,
    decreases s.len(),
{
    let i = choose|i: int| 0 <= i < s.len() && s[i] == sep;
    if s.last() == sep {
        lemma_split_on_nonempty(s.drop_last(), sep);
    } else {
        assert(s.drop_last()[i] == sep);
        lemma_split_on_many(s.drop_last(), sep);
    }
}

pub proof fn lemma_first_ws_bound(s: Seq<char>)
    ensures
        first_ws(s) <= s.len(),
        forall|i: int| 0 <= i < first_ws(s) ==> !is_ws(#[trigger] s[i]),
        first_ws(s) < s.len() ==> is_ws(s[first_ws(s) as int]),
    decreases s.len(),
{
    if s.len() > 0 && !is_ws(s[0]) {
        lemma_first_ws_bound(s.drop_first());
        assert forall|i: int| 0 <= i < first_ws(s) implies !is_ws(#[trigger] s[i]) by {
            if i > 0 {
                assert(s[i] == s.drop_first()[i - 1]);
            }
        }
    }
}

pub proof fn lemma_index_of_bound(s: Seq<char>, c: char)
    ensures
        index_of(s, c) <= s.len(),
        forall|i: int| 0 <= i < index_of(s, c) ==> #[trigger] s[i] != c,
        index_of(s, c) < s.len() ==> s[index_of(s, c) as int] == c,
    decreases s.len(),
{
    if s.len() > 0 && s[0] != c {
        lemma_index_of_bound(s.drop_first(), c);
        assert forall|i: int| 0 <= i < index_of(s, c) implies #[trigger] s[i] != c by {
            if i > 0 {
                assert(s[i] == s.drop_first()[i - 1]);
            }
        }
    }
}

/// A word without whitespace is skipped whole by `first_ws`.
pub proof fn lemma_first_ws_after_word(a: Seq<char>, rest: Seq<char>)
    requires
        forall|i: int| 0 <= i < a.len() ==> !is_ws(#[trigger] a[i]),
    ensures
        first_ws(a + rest) == a.len() + first_ws(rest),
    decreases a.len(),
{
    if a.len() > 0 {
        assert((a + rest).drop_first() =~= a.drop_first() + rest);
        assert(forall|i: int| 0 <= i < a.drop_first().len() ==> a.drop_first()[i] == a[i + 1]);
        lemma_first_ws_after_word(a.drop_first(), rest);
    } else {
        assert(a + rest =~= rest);
    }
}

/// A text ending in a non-whitespace character keeps it after `trim_start`.
pub proof fn lemma_trim_start_keeps_last(s: Seq<char>)
    requires
        s.len() > 0,
        !is_ws(s.last()),
    ensures
        trim_start(s).len() > 0,
    decreases s.len(),
{
    if is_ws(s[0]) {
        assert(s.len() > 1);
        assert(s.drop_first().last() == s.last());
        lemma_trim_start_keeps_last(s.drop_first());
    }
}

/// A run of whitespace trims to nothing at the end.
pub proof fn lemma_trim_end_all_ws(w: Seq<char>)
    requires
        forall|i: int| 0 <= i < w.len() ==> is_ws(#[trigger] w[i]),
    ensures
        trim_end(w).len() == 0,
{
    crate::chat::input::lemma_trim_end_last(w);
    let t = trim_end(w);
    if t.len() > 0 {
        assert(t.last() == w[t.len() - 1]);
    }
}

/// Text without `sep` added to `x` extends the last piece of `x`.
pub proof fn lemma_split_on_extend(x: Seq<char>, y: Seq<char>, sep: char)
    requires
        !has_char(y, sep),
    ensures
        split_on(x + y, sep) == split_on(x, sep).update(
            split_on(x, sep).len() - 1,
            split_on(x, sep).last() + y,
        ),
    decreases y.len(),
{
    lemma_split_on_nonempty(x, sep);
    if y.len() == 0 {
        assert(x + y =~= x);
        assert(split_on(x, sep).last() + y =~= split_on(x, sep).last());
        assert(split_on(x, sep).update(split_on(x, sep).len() - 1, split_on(x, sep).last())
            =~= split_on(x, sep));
    } else {
        let y0 = y.drop_last();
        assert(!has_char(y0, sep)) by {
            if has_char(y0, sep) {
                let i = choose|i: int| 0 <= i < y0.len() && y0[i] == sep;
                assert(y[i] == sep);
            }
        }
        assert(y.last() != sep) by {
            assert(y[y.len() - 1] == y.last());
        }
        lemma_split_on_extend(x, y0, sep);
        assert((x + y).drop_last() =~= x + y0);
        assert((x + y).last() == y.last());
        let p = split_on(x, sep);
        let q = split_on(x + y0, sep);
        assert(q.len() == p.len());
        assert(split_on(x + y, sep) =~= q.update(q.len() - 1, q.last().push(y.last())));
        assert(q == p.update(p.len() - 1, p.last() + y0));
        assert(q.last() == q[q.len() - 1]);
        assert(q.last() == p.last() + y0);
        assert(q.last().push(y.last()) =~= p.last() + y);
        assert(q.update(q.len() - 1, p.last() + y) =~= p.update(p.len() - 1, p.last() + y));
        assert(split_on(x + y, sep) =~= p.update(p.len() - 1, p.last() + y));
    }
}

/// Splitting lines joined by `sep` gives the lines back, when none holds
/// `sep`.
pub proof fn lemma_split_on_join(ls: Seq<Seq<char>>, sep: char)
    requires
        ls.len() >= 1,
        forall|i: int| 0 <= i < ls.len() ==> !has_char(#[trigger] ls[i], sep),
    ensures
        split_on(join(ls, seq![sep]), sep) == ls,
    decreases ls.len(),
{
    let e = Seq::<char>::empty();
    assert(split_on(e, sep) == seq![e]);
    if ls.len() == 1 {
        assert(!has_char(ls[0], sep));
        lemma_split_on_extend(e, ls[0], sep);
        assert(e + ls[0] =~= ls[0]);
        assert(seq![e].update(0, e + ls[0]) =~= ls);
    } else {
        let init = ls.drop_last();
        assert(forall|i: int| 0 <= i < init.len() ==> #[trigger] init[i] == ls[i]);
        lemma_split_on_join(init, sep);
        let j = join(init, seq![sep]);
        let js = j + seq![sep];
        assert(js.drop_last() =~= j);
        assert(split_on(js, sep) == init.push(e));
        assert(!has_char(ls.last(), sep)) by {
            assert(ls.last() == ls[ls.len() - 1]);
        }
        lemma_split_on_extend(js, ls.last(), sep);
        assert(join(ls, seq![sep]) =~= js + ls.last());
        assert(e + ls.last() =~= ls.last());
        assert(init.push(e).update(init.len() as int, ls.last()) =~= ls);
    }
}

/// The lines of text joined by line feeds are those texts, when none holds
/// a line feed, none but the last ends in `\r`, and the last is not empty.
pub proof fn lemma_lines_of_joined(ls: Seq<Seq<char>>)
    requires
        ls.len() >= 1,
        forall|i: int| 0 <= i < ls.len() ==> !has_char(#[trigger] ls[i], '\n'),
        forall|i: int| 0 <= i < ls.len() - 1 ==> strip_cr(#[trigger] ls[i]) == ls[i],
        ls.last().len() > 0,
    ensures
        lines(join(ls, seq!['\n'])) == ls,
{
    lemma_split_on_join(ls, '\n');
    let p = split_on(join(ls, seq!['\n']), '\n');
    assert(p.drop_last().map_values(|l: Seq<char>| strip_cr(l)) =~= ls.drop_last());
    assert(ls.drop_last().push(ls.last()) =~= ls);
}

/// A prefix without `c` is skipped whole by `index_of`.
pub proof fn lemma_index_of_after(k: Seq<char>, r: Seq<char>, c: char)
    requires
        !has_char(k, c),
    ensures
        index_of(k + r, c) == k.len() + index_of(r, c),
    decreases k.len(),
{
    if k.len() == 0 {
        assert(k + r =~= r);
    } else {
        assert(k[0] != c);
        assert((k + r).drop_first() =~= k.drop_first() + r);
        assert(!has_char(k.drop_first(), c)) by {
            if has_char(k.drop_first(), c) {
                let i = choose|i: int| 0 <= i < k.drop_first().len() && k.drop_first()[i] == c;
                assert(k[i + 1] == c);
            }
        }
        lemma_index_of_after(k.drop_first(), r, c);
    }
}

/// Leading whitespace `w` is dropped by `trim_start`.
pub proof fn lemma_trim_start_ws_prefix(w: Seq<char>, x: Seq<char>)
    requires
        forall|i: int| 0 <= i < w.len() ==> is_ws(#[trigger] w[i]),
    ensures
        trim_start(w + x) == trim_start(x),
    decreases w.len(),
{
    if w.len() > 0 {
        assert((w + x).drop_first() =~= w.drop_first() + x);
        assert(forall|i: int| 0 <= i < w.drop_first().len() ==> w.drop_first()[i] == w[i + 1]);
        lemma_trim_start_ws_prefix(w.drop_first(), x);
    } else {
        assert(w + x =~= x);
    }
}

/// `trim_end` of `y + x`: `y` and the trimmed `x` when `x` holds a
/// non-whitespace character, else the trimmed `y`.
pub proof fn lemma_trim_end_concat(y: Seq<char>, x: Seq<char>)
    ensures
        trim_end(y + x) == (if trim_end(x).len() > 0 {
            y + trim_end(x)
        } else {
            trim_end(y)
        }),
    decreases x.len(),
{
    if x.len() == 0 {
        assert(y + x =~= y);
    } else {
        assert((y + x).drop_last() =~= y + x.drop_last());
        assert((y + x).last() == x.last());
        lemma_trim_end_concat(y, x.drop_last());
    }
}

/// Trimming the start and trimming the end commute.
pub proof fn lemma_trim_commute(s: Seq<char>)
    ensures
        trim_start(trim_end(s)) == trim_end(trim_start(s)),
    decreases s.len(),
{
    if s.len() == 0 {
        return;
    }
    let x = s.drop_first();
    assert(s =~= seq![s[0]] + x);
    lemma_trim_end_concat(seq![s[0]], x);
    lemma_trim_commute(x);
    if is_ws(s[0]) {
        let u = seq![s[0]];
        assert(u.last() == s[0]);
        assert(u.drop_last() =~= Seq::<char>::empty());
        assert(trim_end(Seq::<char>::empty()) == Seq::<char>::empty());
        assert(trim_end(u) == trim_end(u.drop_last()));
        if trim_end(x).len() > 0 {
            assert((seq![s[0]] + trim_end(x)).drop_first() =~= trim_end(x));
        }
    } else {
        assert(trim_end(seq![s[0]]) == seq![s[0]]);
        let t = trim_end(s);
        assert(t.len() > 0 && t[0] == s[0]);
    }
}

/// Trimming twice is trimming once.
pub proof fn lemma_trim_idem(s: Seq<char>)
    ensures
        trim(trim(s)) == trim(s),
{
    crate::chat::input::lemma_trim_ends(s);
    let t = trim(s);
    if t.len() > 0 {
        assert(trim_start(t) == t);
        assert(trim_end(t) == t);
    }
}

pub proof fn lemma_trim_start_skip(s: Seq<char>, i: int)
    requires
        0 <= i < s.len(),
        is_ws(s[i]),
    ensures
        trim_start(s.skip(i)) == trim_start(s.skip(i + 1)),
{
    assert(s.skip(i).drop_first() =~= s.skip(i + 1));
}

pub proof fn lemma_trim_end_take(s: Seq<char>, j: int)
    requires
        0 < j <= s.len(),
        is_ws(s[j - 1]),
    ensures
        trim_end(s.take(j)) == trim_end(s.take(j - 1)),
{
    assert(s.take(j).drop_last() =~= s.take(j - 1));
}

// ---------------------------------------------------------------------------
// Executable helpers
// ---------------------------------------------------------------------------

/// The characters of `s`.
pub fn str_chars(s: &str) -> (v: Vec<char>)
    ensures
        v@ == s@,
{
    let mut v: Vec<char> = Vec::new();
    for c in it: s.chars()
        invariant
            v@ == it.seq().take(it.index() as int),
            it.seq() == s@,
    {
        v.push(c);
    }
    v
}

/// Appends one character (`String::push`).
#[verifier::external_body]
pub(crate) fn push_char(s: &mut String, c: char)
    ensures
        final(s)@ == old(s)@.push(c),
{
    s.push(c);
}

/// A `String` holding exactly the characters of `v`.
pub fn string_from(v: &[char]) -> (r: String)
    ensures
        r@ == v@,
{
    let mut r = String::new();
    let mut i: usize = 0;
    while i < v.len()
        invariant
            i <= v@.len(),
            r@ == v@.take(i as int),
        decreases v@.len() - i,
    {
        push_char(&mut r, v[i]);
        assert(v@.take(i as int).push(v@[i as int]) =~= v@.take(i + 1));
        i = i + 1;
    }
    assert(v@.take(v@.len() as int) =~= v@);
    r
}

/// A `String` holding the characters of `v[from..to]`.
pub fn string_from_range(v: &[char], from: usize, to: usize) -> (r: String)
    requires
        from <= to <= v@.len(),
    ensures
        r@ == v@.subrange(from as int, to as int),
{
    let mut r = String::new();
    let mut i: usize = from;
    while i < to
        invariant
            from <= i <= to <= v@.len(),
            r@ == v@.subrange(from as int, i as int),
        decreases to - i,
    {
        push_char(&mut r, v[i]);
        assert(v@.subrange(from as int, i as int).push(v@[i as int]) =~= v@.subrange(
            from as int,
            i + 1,
        ));
        i = i + 1;
    }
    r
}

/// A copy of `v[from..to]`.
pub fn chars_range(v: &[char], from: usize, to: usize) -> (r: Vec<char>)
    requires
        from <= to <= v@.len(),
    ensures
        r@ == v@.subrange(from as int, to as int),
{
    let mut r: Vec<char> = Vec::new();
    let mut i: usize = from;
    while i < to
        invariant
            from <= i <= to <= v@.len(),
            r@ == v@.subrange(from as int, i as int),
        decreases to - i,
    {
        r.push(v[i]);
        assert(v@.subrange(from as int, i as int).push(v@[i as int]) =~= v@.subrange(
            from as int,
            i + 1,
        ));
        i = i + 1;
    }
    r
}

/// Appends all characters of `v` to `s`.
pub fn push_chars(s: &mut String, v: &[char])
    ensures
        final(s)@ == old(s)@ + v@,
{
    let mut i: usize = 0;
    while i < v.len()
        invariant
            i <= v@.len(),
            s@ == old(s)@ + v@.take(i as int),
        decreases v@.len() - i,
    {
        push_char(s, v[i]);
        assert(old(s)@ + v@.take(i as int) + seq![v@[i as int]] =~= old(s)@ + v@.take(i + 1));
        i = i + 1;
    }
    assert(v@.take(v@.len() as int) =~= v@);
}

/// Whether `a` and `b` hold the same text.
pub fn str_eq(a: &str, b: &str) -> (r: bool)
    ensures
        r == (a@ == b@),
{
    let av = str_chars(a);
    let bv = str_chars(b);
    chars_eq(&av, &bv)
}

/// Appends all characters of `t` to `s`.
pub fn push_str(s: &mut String, t: &str)
    ensures
        final(s)@ == old(s)@ + t@,
{
    let v = str_chars(t);
    push_chars(s, &v);
}

/// `char::is_whitespace`.
pub fn is_whitespace(c: char) -> (b: bool)
    ensures
        b == is_ws(c),
{
    let u = c as u32;
    (0x9 <= u && u <= 0xd) || u == 0x20 || u == 0x85 || u == 0xa0 || u == 0x1680 || (0x2000 <= u
        && u <= 0x200a) || u == 0x2028 || u == 0x2029 || u == 0x202f || u == 0x205f || u == 0x3000
}

/// Whether two character sequences are equal.
pub fn chars_eq(a: &[char], b: &[char]) -> (r: bool)
    ensures
        r == (a@ == b@),
{
    if a.len() != b.len() {
        return false;
    }
    let mut i: usize = 0;
    while i < a.len()
        invariant
            a@.len() == b@.len(),
            i <= a@.len(),
            forall|k: int| 0 <= k < i ==> a@[k] == b@[k],
        decreases a@.len() - i,
    {
        if a[i] != b[i] {
            return false;
        }
        i = i + 1;
    }
    assert(a@ =~= b@);
    true
}

/// Whether the characters of `a` equal those of the text `b`.
pub fn chars_eq_str(a: &[char], b: &str) -> (r: bool)
    ensures
        r == (a@ == b@),
{
    let bv = str_chars(b);
    chars_eq(a, &bv)
}

/// Whether `v[from..]` starts with `p`.
pub fn starts_with_at(v: &[char], from: usize, p: &[char]) -> (r: bool)
    requires
        from <= v@.len(),
    ensures
        r == starts_with(v@.skip(from as int), p@),
{
    let n = v.len();
    if p.len() > n - from {
        return false;
    }
    let mut i: usize = 0;
    while i < p.len()
        invariant
            n == v@.len(),
            from + p@.len() <= v@.len(),
            i <= p@.len(),
            forall|k: int| 0 <= k < i ==> v@[from + k] == p@[k],
        decreases p@.len() - i,
    {
        assert(from + i < v@.len());
        if v[from + i] != p[i] {
            assert(v@.skip(from as int).subrange(0, p@.len() as int)[i as int] != p@[i as int]);
            return false;
        }
        i = i + 1;
    }
    assert(v@.skip(from as int).subrange(0, p@.len() as int) =~= p@);
    true
}

/// Whether `c` occurs in `v`.
pub fn contains_char(v: &[char], c: char) -> (r: bool)
    ensures
        r == has_char(v@, c),
{
    let mut i: usize = 0;
    while i < v.len()
        invariant
            i <= v@.len(),
            forall|k: int| 0 <= k < i ==> v@[k] != c,
        decreases v@.len() - i,
    {
        if v[i] == c {
            return true;
        }
        i = i + 1;
    }
    false
}

/// Bounds `(a, b)` such that `v[a..b]` is `trim_start(v)` (here `b` is the length).
pub fn trim_start_index(v: &[char]) -> (a: usize)
    ensures
        a <= v@.len(),
        v@.skip(a as int) == trim_start(v@),
{
    let mut i: usize = 0;
    assert(v@.skip(0) =~= v@);
    while i < v.len() && is_whitespace(v[i])
        invariant
            i <= v@.len(),
            trim_start(v@) == trim_start(v@.skip(i as int)),
        decreases v@.len() - i,
    {
        proof {
            lemma_trim_start_skip(v@, i as int);
        }
        i = i + 1;
    }
    proof {
        assert(v@.skip(0) =~= v@);
        if i == v@.len() {
            assert(v@.skip(i as int) =~= Seq::<char>::empty());
        }
    }
    i
}

/// Bounds `(a, b)` such that `v[a..b]` is `trim(v)`.
pub fn trim_bounds(v: &[char]) -> (r: (usize, usize))
    ensures
        r.0 <= r.1 <= v@.len(),
        v@.subrange(r.0 as int, r.1 as int) == trim(v@),
{
    let a = trim_start_index(v);
    let ghost t = v@.skip(a as int);
    let mut j: usize = v.len();
    assert(t.take(j - a) =~= t);
    while j > a && is_whitespace(v[j - 1])
        invariant
            a <= j <= v@.len(),
            t == v@.skip(a as int),
            trim_end(t) == trim_end(t.take(j - a)),
        decreases j,
    {
        proof {
            lemma_trim_end_take(t, j - a);
        }
        j = j - 1;
    }
    proof {
        assert(t.take(j - a) =~= v@.subrange(a as int, j as int));
        if j == a {
            assert(t.take(0) =~= Seq::<char>::empty());
        }
        assert(t.take(v@.len() - a) =~= t);
    }
    (a, j)
}

/// `str::trim` as an owned `String`.
pub fn trim_str(s: &str) -> (r: String)
    ensures
        r@ == trim(s@),
{
    let v = str_chars(s);
    let (a, b) = trim_bounds(&v);
    string_from_range(&v, a, b)
}

/// Index of the first whitespace character of `v[from..]`, relative to `from`.
pub fn first_ws_index(v: &[char], from: usize) -> (k: usize)
    requires
        from <= v@.len(),
    ensures
        k == first_ws(v@.skip(from as int)),
        from + k <= v@.len(),
{
    let mut i: usize = from;
    while i < v.len() && !is_whitespace(v[i])
        invariant
            from <= i <= v@.len(),
            first_ws(v@.skip(from as int)) == (i - from) + first_ws(v@.skip(i as int)),
        decreases v@.len() - i,
    {
        assert(v@.skip(i as int).drop_first() =~= v@.skip(i + 1));
        i = i + 1;
    }
    if i == v.len() {
        assert(v@.skip(i as int).len() == 0);
    }
    i - from
}

/// Index of the first `c` in `v`, or its length.
pub fn find_char(v: &[char], c: char) -> (k: usize)
    ensures
        k == index_of(v@, c),
{
    let mut i: usize = 0;
    assert(v@.skip(0) =~= v@);
    while i < v.len() && v[i] != c
        invariant
            i <= v@.len(),
            index_of(v@, c) == i + index_of(v@.skip(i as int), c),
        decreases v@.len() - i,
    {
        assert(v@.skip(i as int).drop_first() =~= v@.skip(i + 1));
        i = i + 1;
    }
    if i == v.len() {
        assert(v@.skip(i as int).len() == 0);
    }
    i
}

/// The lines of `s` (`str::lines`), each as its characters.
pub fn str_lines(s: &str) -> (r: Vec<Vec<char>>)
    ensures
        r@.len() == lines(s@).len(),
        forall|i: int| 0 <= i < r@.len() ==> #[trigger] r@[i]@ == lines(s@)[i],
{
    let v = str_chars(s);
    let mut done: Vec<Vec<char>> = Vec::new();
    let mut cur: Vec<char> = Vec::new();
    let ghost mut pieces: Seq<Seq<char>> = Seq::empty();
    let mut i: usize = 0;
    while i < v.len()
        invariant
            i <= v@.len(),
            v@ == s@,
            done@.len() == pieces.len(),
            forall|k: int| 0 <= k < done@.len() ==> #[trigger] done@[k]@ == pieces[k],
            split_on(v@.take(i as int), '\n') == pieces.push(cur@),
        decreases v@.len() - i,
    {
        let c = v[i];
        proof {
            assert(v@.take(i + 1).drop_last() =~= v@.take(i as int));
        }
        if c == '\n' {
            let piece = cur;
            cur = Vec::new();
            proof {
                pieces = pieces.push(piece@);
            }
            done.push(piece);
            assert(split_on(v@.take(i + 1), '\n') =~= pieces.push(cur@));
        } else {
            let ghost before = cur@;
            cur.push(c);
            assert(split_on(v@.take(i + 1), '\n') =~= pieces.push(cur@));
        }
        i = i + 1;
    }
    assert(v@.take(v@.len() as int) =~= v@);
    // strip the `\r` of each ended line, then keep the last piece if non-empty
    let mut out: Vec<Vec<char>> = Vec::new();
    let mut k: usize = 0;
    while k < done.len()
        invariant
            k <= done@.len(),
            done@.len() == pieces.len(),
            forall|m: int| 0 <= m < done@.len() ==> #[trigger] done@[m]@ == pieces[m],
            out@.len() == k,
            forall|m: int| 0 <= m < k ==> #[trigger] out@[m]@ == strip_cr(pieces[m]),
        decreases done@.len() - k,
    {
        let line = &done[k];
        let n = line.len();
        let stripped = if n > 0 && line[n - 1] == '\r' {
            let mut t: Vec<char> = Vec::new();
            let mut m: usize = 0;
            while m < n - 1
                invariant
                    n == line@.len(),
                    n > 0,
                    m <= n - 1,
                    t@ == line@.take(m as int),
                decreases n - 1 - m,
            {
                t.push(line[m]);
                assert(line@.take(m as int).push(line@[m as int]) =~= line@.take(m + 1));
                m = m + 1;
            }
            assert(line@.take((n - 1) as int) =~= line@.drop_last());
            t
        } else {
            line.clone()
        };
        out.push(stripped);
        k = k + 1;
    }
    let ghost p = pieces.push(cur@);
    assert(p.drop_last() =~= pieces);
    if cur.len() > 0 {
        out.push(cur);
    }
    assert(lines(s@).len() == out@.len());
    out
}

/// The lines of `s` (`str::lines`), as owned strings.
pub fn lines_of(s: &str) -> (r: Vec<String>)
    ensures
        r@.len() == lines(s@).len(),
        forall|i: int| 0 <= i < r@.len() ==> #[trigger] r@[i]@ == lines(s@)[i],
{
    let ls = str_lines(s);
    let mut out: Vec<String> = Vec::new();
    let mut i: usize = 0;
    while i < ls.len()
        invariant
            i <= ls@.len(),
            ls@.len() == lines(s@).len(),
            forall|k: int| 0 <= k < ls@.len() ==> #[trigger] ls@[k]@ == lines(s@)[k],
            out@.len() == i,
            forall|k: int| 0 <= k < i ==> #[trigger] out@[k]@ == lines(s@)[k],
        decreases ls@.len() - i,
    {
        out.push(string_from(&ls[i]));
        i = i + 1;
    }
    out
}

} // verus!
