//! The chat input: its text, the paste detector in front of it, the
//! slash-command menu and the history of sent messages.
use vstd::prelude::*;

use core::time::Duration;
use std::time::Instant;

use crate::event::{KeyCode, KeyEvent, NONE};
use crate::slash::CommandSpec;
use crate::text::{
    is_ws, join, push_char, push_chars, split_on, str_chars, string_from, strip_cr, trim, trim_bounds,
    trim_end, trim_start,
};

verus! {

broadcast use vstd::string::group_string_axioms;

// ---------------------------------------------------------------------------
// The input box
// ---------------------------------------------------------------------------

/// The pieces that inserting `t` adds: `t` split at line feeds, each piece
/// without a final carriage return.
pub open spec fn input_pieces(t: Seq<char>) -> Seq<Seq<char>> {
    split_on(t, '\n').map_values(|p: Seq<char>| strip_cr(p))
}

/// The lines after inserting `t` at the end of `lines`: the first piece
/// extends the last line, each further piece is a new line.
pub open spec fn insert_text(lines: Seq<Seq<char>>, t: Seq<char>) -> Seq<Seq<char>> {
    let p = input_pieces(t);
    lines.drop_last().push(lines.last() + p[0]) + p.skip(1)
}

/// The text of the input box: its lines joined by line feeds.
pub open spec fn input_text(lines: Seq<Seq<char>>) -> Seq<char> {
    join(lines, seq!['\n'])
}

/// Whether every line is empty.
pub open spec fn all_empty(lines: Seq<Seq<char>>) -> bool {
    forall|k: int| 0 <= k < lines.len() ==> #[trigger] lines[k].len() == 0
}

/// The text of the chat input as lines, with the cursor after the last
/// character (where the library's own edits leave it). There is always at
/// least one line.
#[derive(Debug)]
pub struct InputBox {
    lines: Vec<String>,
}

impl InputBox {
    /// The lines.
    pub closed spec fn lines_view(&self) -> Seq<Seq<char>> {
        self.lines@.map_values(|s: String| s@)
    }

    /// There is at least one line.
    pub closed spec fn wf(&self) -> bool {
        self.lines@.len() >= 1
    }

    /// An empty input: one empty line.
    pub fn new() -> (b: InputBox)
        ensures
            b.wf(),
            b.lines_view() == seq![Seq::<char>::empty()],
    {
        let mut lines: Vec<String> = Vec::new();
        lines.push(String::new());
        let b = InputBox { lines };
        assert(b.lines_view() =~= seq![Seq::<char>::empty()]);
        b
    }

    /// An input holding `lines` (one empty line if `lines` is empty).
    pub fn from_lines(lines: Vec<String>) -> (b: InputBox)
        ensures
            b.wf(),
            lines@.len() > 0 ==> b.lines_view() == lines@.map_values(|s: String| s@),
            lines@.len() == 0 ==> b.lines_view() == seq![Seq::<char>::empty()],
    {
        if lines.len() == 0 {
            InputBox::new()
        } else {
            InputBox { lines }
        }
    }

    /// The lines.
    pub fn lines(&self) -> (r: &Vec<String>)
        ensures
            r@.map_values(|s: String| s@) == self.lines_view(),
    {
        &self.lines
    }

    /// Empties the input (one empty line).
    pub fn clear(&mut self)
        ensures
            final(self).wf(),
            final(self).lines_view() == seq![Seq::<char>::empty()],
    {
        *self = InputBox::new();
    }

    /// Starts a new line after the last.
    pub fn insert_newline(&mut self)
        requires
            old(self).wf(),
        ensures
            final(self).wf(),
            final(self).lines_view() == old(self).lines_view().push(Seq::empty()),
    {
        let ghost before = self.lines@;
        self.lines.push(String::new());
        assert(self.lines_view() =~= before.map_values(|s: String| s@).push(Seq::empty()));
    }

    /// Inserts `t` at the end: a line feed in `t` starts a new line, and a
    /// carriage return before a line feed (or at the end) is dropped.
    pub fn insert_str(&mut self, t: &str)
        requires
            old(self).wf(),
        ensures
            final(self).wf(),
            final(self).lines_view() == insert_text(old(self).lines_view(), t@),
    {
        let ghost old_lines = self.lines_view();
        let v = str_chars(t);
        let pieces = split_pieces(&v);
        let ghost p = input_pieces(t@);
        let mut last = self.lines.pop().unwrap();
        let ghost rest = self.lines@;
        assert(rest.map_values(|s: String| s@) =~= old_lines.drop_last());
        assert(last@ == old_lines.last());
        push_chars(&mut last, &pieces[0]);
        self.lines.push(last);
        assert(self.lines_view() =~= old_lines.drop_last().push(old_lines.last() + p[0]));
        let ghost head = self.lines_view();
        assert(p.skip(1).take(0) =~= Seq::<Seq<char>>::empty());
        let mut k: usize = 1;
        while k < pieces.len()
            invariant
                1 <= k <= pieces@.len(),
                pieces@.len() == p.len(),
                forall|j: int| 0 <= j < pieces@.len() ==> #[trigger] pieces@[j]@ == p[j],
                self.lines@.len() >= 1,
                self.lines_view() == head + p.skip(1).take(k - 1),
            decreases pieces@.len() - k,
        {
            let ghost before = self.lines@;
            self.lines.push(string_from(&pieces[k]));
            assert(self.lines_view() =~= before.map_values(|s: String| s@).push(p[k as int]));
            assert(p.skip(1).take(k as int) =~= p.skip(1).take(k - 1).push(p[k as int]));
            k = k + 1;
        }
        assert(p.skip(1).take(pieces@.len() - 1) =~= p.skip(1));
    }

    /// The text: the lines joined by line feeds.
    pub fn text(&self) -> (r: String)
        requires
            self.wf(),
        ensures
            r@ == input_text(self.lines_view()),
    {
        let mut s = String::new();
        let mut i: usize = 0;
        let ghost ls = self.lines_view();
        while i < self.lines.len()
            invariant
                i <= self.lines@.len(),
                ls == self.lines_view(),
                i > 0 ==> s@ == join(ls.take(i as int), seq!['\n']),
                i == 0 ==> s@.len() == 0,
            decreases self.lines@.len() - i,
        {
            let piece = str_chars(self.lines[i].as_str());
            if i > 0 {
                push_char(&mut s, '\n');
            }
            push_chars(&mut s, &piece);
            assert(ls.take(i + 1).drop_last() =~= ls.take(i as int));
            assert(ls[i as int] == self.lines@[i as int]@);
            if i == 0 {
                assert(ls.take(1) =~= seq![ls[0]]);
                assert(s@ =~= piece@);
            }
            i = i + 1;
        }
        assert(ls.take(self.lines@.len() as int) =~= ls);
        s
    }

    /// Whether every line is empty.
    pub fn is_blank(&self) -> (b: bool)
        ensures
            b == all_empty(self.lines_view()),
    {
        let mut i: usize = 0;
        while i < self.lines.len()
            invariant
                i <= self.lines@.len(),
                forall|k: int| 0 <= k < i ==> #[trigger] self.lines_view()[k].len() == 0,
            decreases self.lines@.len() - i,
        {
            if !self.lines[i].as_str().is_empty() {
                assert(self.lines_view()[i as int] == self.lines@[i as int]@);
                return false;
            }
            i = i + 1;
        }
        true
    }

    /// The first line.
    pub fn first_line(&self) -> (r: &String)
        requires
            self.wf(),
        ensures
            r@ == self.lines_view()[0],
    {
        &self.lines[0]
    }
}

/// The pieces of `v` split at line feeds, each without a final carriage return.
fn split_pieces(v: &Vec<char>) -> (r: Vec<Vec<char>>)
    ensures
        r@.len() == input_pieces(v@).len(),
        r@.len() >= 1,
        forall|k: int| 0 <= k < r@.len() ==> #[trigger] r@[k]@ == input_pieces(v@)[k],
{
    let mut done: Vec<Vec<char>> = Vec::new();
    let mut cur: Vec<char> = Vec::new();
    let ghost mut pieces: Seq<Seq<char>> = Seq::empty();
    let mut i: usize = 0;
    while i < v.len()
        invariant
            i <= v@.len(),
            done@.len() == pieces.len(),
            forall|k: int| 0 <= k < done@.len() ==> #[trigger] done@[k]@ == strip_cr(pieces[k]),
            split_on(v@.take(i as int), '\n') == pieces.push(cur@),
        decreases v@.len() - i,
    {
        let c = v[i];
        assert(v@.take(i + 1).drop_last() =~= v@.take(i as int));
        if c == '\n' {
            let piece = strip_last_cr(&cur);
            proof {
                pieces = pieces.push(cur@);
            }
            done.push(piece);
            cur = Vec::new();
            assert(split_on(v@.take(i + 1), '\n') =~= pieces.push(cur@));
        } else {
            cur.push(c);
            assert(split_on(v@.take(i + 1), '\n') =~= pieces.push(cur@));
        }
        i = i + 1;
    }
    assert(v@.take(v@.len() as int) =~= v@);
    let last = strip_last_cr(&cur);
    done.push(last);
    proof {
        let all = pieces.push(cur@);
        assert(input_pieces(v@) =~= all.map_values(|p: Seq<char>| strip_cr(p)));
    }
    done
}

/// `v` without a final carriage return.
fn strip_last_cr(v: &Vec<char>) -> (r: Vec<char>)
    ensures
        r@ == strip_cr(v@),
{
    let n = v.len();
    let mut t: Vec<char> = Vec::new();
    let keep = if n > 0 && v[n - 1] == '\r' {
        n - 1
    } else {
        n
    };
    let mut m: usize = 0;
    while m < keep
        invariant
            keep <= n == v@.len(),
            m <= keep,
            t@ == v@.take(m as int),
        decreases keep - m,
    {
        t.push(v[m]);
        assert(v@.take(m as int).push(v@[m as int]) =~= v@.take(m + 1));
        m = m + 1;
    }
    assert(v@.take(keep as int) =~= strip_cr(v@));
    t
}

// ---------------------------------------------------------------------------
// Sent-message history
// ---------------------------------------------------------------------------

/// Entries fit for the input history: none blank, none with whitespace at
/// either end, no two neighbours equal.
pub open spec fn clean_entries(es: Seq<Seq<char>>) -> bool {
    &&& forall|k: int| 0 <= k < es.len() ==> (#[trigger] es[k]).len() > 0 && !is_ws(es[k][0]) && !is_ws(es[k].last())
    &&& forall|k: int| 0 < k < es.len() ==> #[trigger] es[k - 1] != es[k]
}

/// The history after recording `text`: its trimmed form is appended unless
/// it is blank or equal to the newest entry.
pub open spec fn recorded(es: Seq<Seq<char>>, text: Seq<char>) -> Seq<Seq<char>> {
    let t = trim(text);
    if t.len() == 0 || (es.len() > 0 && es.last() == t) {
        es
    } else {
        es.push(t)
    }
}

/// Messages sent from the chat input, oldest first, recalled with Up and
/// Down on an empty input. `browse` is the entry on show while browsing.
#[derive(Debug)]
pub struct InputHistory {
    entries: Vec<String>,
    browse: Option<usize>,
}

impl InputHistory {
    /// The recorded messages, oldest first.
    pub closed spec fn entries_view(&self) -> Seq<Seq<char>> {
        self.entries@.map_values(|s: String| s@)
    }

    /// The entry on show while browsing (`None` when not browsing).
    pub closed spec fn browse_view(&self) -> Option<usize> {
        self.browse
    }

    /// The entries are clean and the browsed index is one of them.
    pub closed spec fn wf(&self) -> bool {
        &&& clean_entries(self.entries_view())
        &&& (self.browse matches Some(i) ==> i < self.entries@.len())
    }

    /// An empty history.
    pub fn new() -> (h: InputHistory)
        ensures
            h.wf(),
            h.entries_view() == Seq::<Seq<char>>::empty(),
            h.browse_view() is None,
    {
        let h = InputHistory { entries: Vec::new(), browse: None };
        assert(h.entries_view() =~= Seq::<Seq<char>>::empty());
        h
    }

    /// The recorded messages, oldest first.
    pub fn entries(&self) -> (r: &Vec<String>)
        ensures
            r@.map_values(|s: String| s@) == self.entries_view(),
    {
        &self.entries
    }

    /// The entry on show while browsing.
    pub fn browse(&self) -> (r: Option<usize>)
        requires
            self.wf(),
        ensures
            r == self.browse_view(),
            r matches Some(i) ==> i < self.entries_view().len(),
    {
        self.browse
    }

    /// Sets the entry on show while browsing.
    pub fn set_browse(&mut self, b: Option<usize>)
        requires
            old(self).wf(),
            b matches Some(i) ==> i < old(self).entries_view().len(),
        ensures
            final(self).wf(),
            final(self).entries_view() == old(self).entries_view(),
            final(self).browse_view() == b,
    {
        self.browse = b;
    }

    /// The entry at `i`.
    pub fn entry(&self, i: usize) -> (r: &String)
        requires
            i < self.entries_view().len(),
        ensures
            r@ == self.entries_view()[i as int],
    {
        &self.entries[i]
    }

    /// The number of entries.
    pub fn len(&self) -> (n: usize)
        ensures
            n == self.entries_view().len(),
    {
        self.entries.len()
    }

    /// Records a sent message: trimmed; skipped when blank or equal to the
    /// newest entry. Leaves browsing, unless the message was blank.
    pub fn record(&mut self, text: &str)
        requires
            old(self).wf(),
        ensures
            final(self).wf(),
            final(self).entries_view() == recorded(old(self).entries_view(), text@),
            final(self).browse_view() == (if trim(text@).len() == 0 {
                old(self).browse_view()
            } else {
                None
            }),
    {
        let v = str_chars(text);
        let (a, b) = trim_bounds(&v);
        if a == b {
            return;
        }
        let t = crate::text::string_from_range(&v, a, b);
        proof {
            lemma_trim_ends(text@);
        }
        let n = self.entries.len();
        if n > 0 {
            let lv = str_chars(self.entries[n - 1].as_str());
            let tv = str_chars(t.as_str());
            if crate::text::chars_eq(&lv, &tv) {
                self.browse = None;
                assert(self.entries_view().last() == self.entries@[n - 1]@);
                return;
            }
        }
        self.browse = None;
        let ghost before = self.entries@;
        self.entries.push(t);
        assert(self.entries_view() =~= before.map_values(|s: String| s@).push(trim(text@)));
    }

    /// Replaces the history by the messages `texts` (oldest first), each
    /// recorded as by `record`.
    pub fn seed(&mut self, texts: Vec<String>)
        ensures
            final(self).wf(),
            final(self).entries_view() == seed_entries(texts@.map_values(|s: String| s@)),
            final(self).browse_view() is None,
    {
        *self = InputHistory::new();
        let ghost ts = texts@.map_values(|s: String| s@);
        let mut i: usize = 0;
        assert(ts.take(0) =~= Seq::<Seq<char>>::empty());
        while i < texts.len()
            invariant
                i <= texts@.len(),
                ts == texts@.map_values(|s: String| s@),
                self.wf(),
                self.browse_view() is None,
                self.entries_view() == seed_entries(ts.take(i as int)),
            decreases texts@.len() - i,
        {
            self.record(texts[i].as_str());
            assert(ts.take(i + 1).drop_last() =~= ts.take(i as int));
            i = i + 1;
        }
        assert(ts.take(texts@.len() as int) =~= ts);
    }
}

/// The history recorded from `ts`, oldest first.
pub open spec fn seed_entries(ts: Seq<Seq<char>>) -> Seq<Seq<char>>
    decreases ts.len(),
{
    if ts.len() == 0 {
        Seq::empty()
    } else {
        recorded(seed_entries(ts.drop_last()), ts.last())
    }
}

pub proof fn lemma_trim_start_first(s: Seq<char>)
    ensures
        trim_start(s).len() > 0 ==> !is_ws(trim_start(s)[0]),
        trim_start(s).len() <= s.len(),
        trim_start(s) =~= s.skip(s.len() - trim_start(s).len()),
    decreases s.len(),
{
    if s.len() > 0 && is_ws(s[0]) {
        lemma_trim_start_first(s.drop_first());
        let m = s.drop_first().len() - trim_start(s.drop_first()).len();
        assert(s.drop_first().skip(m) =~= s.skip(m + 1));
    } else {
        assert(s.skip(0) =~= s);
    }
}

pub proof fn lemma_trim_end_last(s: Seq<char>)
    ensures
        trim_end(s).len() > 0 ==> !is_ws(trim_end(s).last()),
        trim_end(s).len() <= s.len(),
        trim_end(s) =~= s.take(trim_end(s).len() as int),
    decreases s.len(),
{
    if s.len() > 0 && is_ws(s.last()) {
        lemma_trim_end_last(s.drop_last());
        let m = trim_end(s.drop_last()).len() as int;
        assert(s.drop_last().take(m) =~= s.take(m));
    } else {
        assert(s.take(s.len() as int) =~= s);
    }
}

/// A non-empty trimmed text starts and ends with a non-whitespace character.
pub proof fn lemma_trim_ends(s: Seq<char>)
    ensures
        trim(s).len() > 0 ==> !is_ws(trim(s)[0]) && !is_ws(trim(s).last()),
{
    lemma_trim_start_first(s);
    let u = trim_start(s);
    lemma_trim_end_last(u);
    let t = trim_end(u);
    if t.len() > 0 {
        assert(t[0] == u[0]);
    }
}

/// The history never holds a blank message, a message with whitespace at
/// either end, or the same message twice in a row.
pub proof fn lemma_history_entries_clean(h: &InputHistory)
    requires
        h.wf(),
    ensures
        clean_entries(h.entries_view()),
{
}

// ---------------------------------------------------------------------------
// Paste detection
// ---------------------------------------------------------------------------

/// Keys arriving less than this many milliseconds apart count as a paste.
pub const RAPID_THRESHOLD_MS: u128 = 30;

/// Buffered text is flushed once this many milliseconds passed since the
/// last key.
pub const FLUSH_TIMEOUT_MS: u128 = 50;

#[verifier::external_type_specification]
#[verifier::external_body]
pub struct ExInstant(Instant);

/// `Instant::now`: the current time. Nothing is stated of it.
#[verifier::external_body]
fn instant_now() -> Instant {
    Instant::now()
}

/// `Instant::duration_since`: the time from `earlier` to `later` (zero if
/// `later` is before). Nothing is stated of it: instants are opaque here.
#[verifier::external_body]
fn duration_since(later: &Instant, earlier: &Instant) -> Duration {
    later.duration_since(*earlier)
}

/// `Duration::as_millis`: whole milliseconds of `d`. Nothing is stated of
/// it: durations are opaque here.
#[verifier::external_body]
fn as_millis(d: &Duration) -> u128 {
    d.as_millis()
}

/// What to do with a key that the paste detector has seen.
#[derive(Debug, Clone, Copy, PartialEq, Eq, Structural)]
pub enum KeyDisposition {
    /// Handle the key normally.
    Process,
    /// The key went into the paste buffer; do not handle it.
    Buffer,
    /// Insert the paste buffer first, then handle the key.
    FlushThenProcess,
}

/// Whether a key may be part of a paste: a character or Enter, no modifier.
pub open spec fn bufferable(k: KeyEvent) -> bool {
    k.modifiers == NONE && (k.code is Char || k.code is Enter)
}

/// The character that a buffered key adds: itself, or a line feed for Enter.
pub open spec fn buffered_char(k: KeyEvent) -> char {
    match k.code {
        KeyCode::Char(c) => c,
        _ => '\n',
    }
}

/// Whether a key that came `elapsed_ms` milliseconds after the previous one
/// (`None`: there was none) came faster than a person types.
pub open spec fn is_rapid(elapsed_ms: Option<u128>) -> bool {
    match elapsed_ms {
        Some(e) => e < RAPID_THRESHOLD_MS,
        None => false,
    }
}

/// Whether `elapsed_ms` milliseconds since the last key (`None`: there was
/// none) are enough to flush the paste buffer.
pub open spec fn is_stale(elapsed_ms: Option<u128>) -> bool {
    match elapsed_ms {
        Some(e) => e >= FLUSH_TIMEOUT_MS,
        None => false,
    }
}

/// Tells typing from pasting by the time between keys. Keys that come
/// faster than a person types are buffered, and the buffer is inserted as a
/// whole, so a pasted line feed does not send the message.
#[derive(Debug)]
pub struct PasteDetector {
    buffer: String,
    /// When the last key arrived.
    pub last_key_time: Option<Instant>,
}

impl PasteDetector {
    /// The buffered text.
    pub closed spec fn buffer_view(&self) -> Seq<char> {
        self.buffer@
    }

    /// When the last key arrived.
    pub closed spec fn last_key(&self) -> Option<Instant> {
        self.last_key_time
    }

    /// A detector that has seen no key.
    pub fn new() -> (p: PasteDetector)
        ensures
            p.buffer_view() == Seq::<char>::empty(),
            p.last_key() is None,
    {
        PasteDetector { buffer: String::new(), last_key_time: None }
    }

    /// Files key `k` that arrived at `now`, `elapsed_ms` milliseconds after
    /// the previous key (`None` for the first key). The key is rapid when it
    /// came less than `RAPID_THRESHOLD_MS` milliseconds after the previous
    /// one: a rapid character or Enter without modifiers is buffered (Enter as
    /// a line feed); any other key is processed, after the buffer is flushed
    /// if it holds text.
    pub fn observe_at(&mut self, k: KeyEvent, now: Instant, elapsed_ms: Option<u128>) -> (d:
        KeyDisposition)
        ensures
            final(self).last_key() == Some(now),
            bufferable(k) && is_rapid(elapsed_ms) ==> d == KeyDisposition::Buffer
                && final(self).buffer_view() == old(self).buffer_view().push(buffered_char(k)),
            !(bufferable(k) && is_rapid(elapsed_ms)) ==> final(self).buffer_view()
                == old(self).buffer_view() && d == (if old(self).buffer_view().len() > 0 {
                KeyDisposition::FlushThenProcess
            } else {
                KeyDisposition::Process
            }),
    {
        let rapid = match elapsed_ms {
            Some(e) => e < RAPID_THRESHOLD_MS,
            None => false,
        };
        let can_buffer = k.modifiers == NONE && match k.code {
            KeyCode::Char(_) => true,
            KeyCode::Enter => true,
            _ => false,
        };
        let d = if can_buffer && rapid {
            let c = match k.code {
                KeyCode::Char(c) => c,
                _ => '\n',
            };
            push_char(&mut self.buffer, c);
            KeyDisposition::Buffer
        } else if !self.buffer.as_str().is_empty() {
            KeyDisposition::FlushThenProcess
        } else {
            KeyDisposition::Process
        };
        self.last_key_time = Some(now);
        d
    }

    /// Files key `k` at the current time, with the milliseconds since the
    /// previous key as the clock gives them (none for the first key).
    pub fn observe(&mut self, k: KeyEvent) -> (d: KeyDisposition)
        ensures
            final(self).last_key() is Some,
            old(self).last_key() is None ==> final(self).buffer_view() == old(self).buffer_view()
                && d == (if old(self).buffer_view().len() > 0 {
                KeyDisposition::FlushThenProcess
            } else {
                KeyDisposition::Process
            }),
            d == KeyDisposition::Buffer ==> bufferable(k) && final(self).buffer_view()
                == old(self).buffer_view().push(buffered_char(k)),
            d != KeyDisposition::Buffer ==> final(self).buffer_view() == old(self).buffer_view() && d
                == (if old(self).buffer_view().len() > 0 {
                KeyDisposition::FlushThenProcess
            } else {
                KeyDisposition::Process
            }),
    {
        let now = instant_now();
        let elapsed = match &self.last_key_time {
            Some(t) => Some(as_millis(&duration_since(&now, t))),
            None => None,
        };
        self.observe_at(k, now, elapsed)
    }

    /// Takes the buffered text, if there is any.
    pub fn flush(&mut self) -> (r: Option<String>)
        ensures
            final(self).buffer_view() == Seq::<char>::empty(),
            final(self).last_key() == old(self).last_key(),
            match r {
                Some(s) => s@ == old(self).buffer_view() && s@.len() > 0,
                None => old(self).buffer_view().len() == 0,
            },
    {
        if self.buffer.as_str().is_empty() {
            None
        } else {
            let mut s = String::new();
            core::mem::swap(&mut s, &mut self.buffer);
            Some(s)
        }
    }

    /// Takes the buffered text when there is any and `elapsed_ms`, the
    /// milliseconds since the last key (`None` when there was none), reached
    /// `FLUSH_TIMEOUT_MS`; otherwise leaves it.
    pub fn take_if_stale(&mut self, elapsed_ms: Option<u128>) -> (r: Option<String>)
        ensures
            final(self).last_key() == old(self).last_key(),
            r is Some <==> old(self).buffer_view().len() > 0 && is_stale(elapsed_ms),
            r is Some ==> r->0@ == old(self).buffer_view() && final(self).buffer_view()
                == Seq::<char>::empty(),
            r is None ==> final(self).buffer_view() == old(self).buffer_view(),
    {
        let stale = match elapsed_ms {
            Some(e) => e >= FLUSH_TIMEOUT_MS,
            None => false,
        };
        if self.buffer.as_str().is_empty() || !stale {
            return None;
        }
        let mut s = String::new();
        core::mem::swap(&mut s, &mut self.buffer);
        Some(s)
    }

    /// Called on each tick: takes the buffered text once
    /// `FLUSH_TIMEOUT_MS` milliseconds passed since the last key, as the
    /// clock gives them.
    pub fn flush_if_stale(&mut self) -> (r: Option<String>)
        ensures
            final(self).last_key() == old(self).last_key(),
            old(self).buffer_view().len() == 0 ==> r is None && final(self).buffer_view()
                == old(self).buffer_view(),
            old(self).last_key() is None ==> r is None && final(self).buffer_view()
                == old(self).buffer_view(),
            match r {
                Some(s) => s@ == old(self).buffer_view() && final(self).buffer_view()
                    == Seq::<char>::empty(),
                None => final(self).buffer_view() == old(self).buffer_view(),
            },
    {
        let elapsed = match &self.last_key_time {
            Some(t) => {
                let now = instant_now();
                Some(as_millis(&duration_since(&now, t)))
            },
            None => None,
        };
        self.take_if_stale(elapsed)
    }
}

impl Default for PasteDetector {
    fn default() -> (p: Self)
        ensures
            p.buffer_view() == Seq::<char>::empty(),
            p.last_key() is None,
    {
        PasteDetector::new()
    }
}

// ---------------------------------------------------------------------------
// Slash-command menu
// ---------------------------------------------------------------------------

/// What the menu completes.
#[derive(Debug, Clone, Copy, PartialEq, Eq, Structural)]
pub enum SlashMenuMode {
    /// Command names (`/think`).
    Command,
    /// Arguments of the typed command (`/think hi` → `high`).
    Param,
}

/// The completion menu under the chat input. It is open while the input is
/// a `/` word (commands) or a command with a fixed argument set followed by
/// a partial argument (arguments).
#[derive(Debug)]
pub struct SlashMenu {
    pub open: bool,
    /// Index of the highlighted item.
    pub selected: usize,
    /// Matching commands (command mode).
    pub filtered: Vec<CommandSpec>,
    pub mode: SlashMenuMode,
    /// Matching arguments (argument mode).
    pub params: Vec<&'static str>,
}

/// A closed menu.
pub open spec fn menu_closed(m: SlashMenu) -> bool {
    &&& !m.open
    &&& m.filtered@.len() == 0
    &&& m.params@.len() == 0
    &&& m.selected == 0
    &&& m.mode == SlashMenuMode::Command
}

impl SlashMenu {
    /// A closed menu.
    pub fn new() -> (m: SlashMenu)
        ensures
            menu_closed(m),
    {
        SlashMenu {
            open: false,
            selected: 0,
            filtered: Vec::new(),
            mode: SlashMenuMode::Command,
            params: Vec::new(),
        }
    }

    /// Closes the menu and forgets its items.
    pub fn close(&mut self)
        ensures
            menu_closed(*final(self)),
    {
        self.open = false;
        self.filtered.clear();
        self.params.clear();
        self.selected = 0;
        self.mode = SlashMenuMode::Command;
    }
}

impl Default for SlashMenu {
    fn default() -> (m: Self)
        ensures
            menu_closed(m),
    {
        SlashMenu::new()
    }
}

} // verus!
