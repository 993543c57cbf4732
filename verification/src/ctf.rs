//! CTF challenges: their record, the split of tag text into words, and the
//! file layout of their store.
use vstd::prelude::*;

use crate::chat::input::lemma_trim_start_first;
use crate::history::{joined_path, path_join};
use crate::text::{
    chars_range, first_ws, first_ws_index, is_ws, join, lemma_first_ws_after_word, lemma_first_ws_bound, push_str, str_chars,
    string_from_range, trim_start, trim_start_index,
};

verus! {

broadcast use vstd::string::group_string_axioms;

/// The kind of a challenge.
#[derive(Debug, Clone, Copy, PartialEq, Eq, Structural)]
pub enum CtfCategory {
    Misc,
    Web,
    Reverse,
    Pwn,
    Crypto,
}

/// Whether a challenge is solved.
#[derive(Debug, Clone, Copy, PartialEq, Eq, Structural)]
pub enum CtfStatus {
    InProgress,
    Solved,
}

/// A CTF challenge as the panels show and edit it.
#[derive(Debug, Clone)]
pub struct CtfChallenge {
    pub id: String,
    pub name: String,
    pub category: CtfCategory,
    pub status: CtfStatus,
    pub description: String,
    pub target: Option<String>,
    pub flag: Option<String>,
    pub tags: Vec<String>,
    pub key_points: Option<String>,
    /// Shared by all sessions rather than this one.
    pub is_global: bool,
    pub start_time: String,
    pub end_time: Option<String>,
    pub writeup: Option<String>,
}

impl CtfChallenge {
    /// Whether the challenge is solved.
    pub fn is_solved(&self) -> (b: bool)
        ensures
            b == (self.status == CtfStatus::Solved),
    {
        self.status == CtfStatus::Solved
    }
}

/// The words of `s`: its maximal runs of non-whitespace characters
/// (`str::split_whitespace`).
pub open spec fn words(s: Seq<char>) -> Seq<Seq<char>>
    decreases s.len(),
{
    let t = trim_start(s);
    let k = first_ws(t);
    if t.len() == 0 || k == 0 || k > t.len() || t.len() > s.len() {
        Seq::empty()
    } else {
        seq![t.take(k as int)] + words(t.skip(k as int))
    }
}

/// The words of `s` (`str::split_whitespace`).
pub fn split_words(s: &str) -> (r: Vec<String>)
    ensures
        r@.map_values(|w: String| w@) == words(s@),
{
    let mut rest = str_chars(s);
    let mut out: Vec<String> = Vec::new();
    assert(out@.map_values(|w: String| w@) =~= Seq::<Seq<char>>::empty());
    loop
        invariant
            words(s@) == out@.map_values(|w: String| w@) + words(rest@),
        ensures
            words(s@) == out@.map_values(|w: String| w@),
        decreases rest@.len(),
    {
        let a = trim_start_index(&rest);
        if a == rest.len() {
            assert(words(rest@) =~= Seq::<Seq<char>>::empty());
            assert(out@.map_values(|w: String| w@) + words(rest@) =~= out@.map_values(|w: String| w@));
            break;
        }
        let t = chars_range(&rest, a, rest.len());
        assert(t@ =~= trim_start(rest@));
        let k = first_ws_index(&t, 0);
        assert(t@.skip(0) =~= t@);
        proof {
            lemma_trim_start_first(rest@);
            lemma_first_ws_bound(t@);
            assert(!is_ws(t@[0]));
        }
        let w = string_from_range(&t, 0, k);
        assert(t@.subrange(0, k as int) =~= t@.take(k as int));
        let ghost before = out@;
        out.push(w);
        assert(out@.map_values(|w: String| w@) =~= before.map_values(|w: String| w@).push(t@.take(k as int)));
        let next = chars_range(&t, k, t.len());
        assert(next@ =~= t@.skip(k as int));
        assert(words(rest@) == seq![t@.take(k as int)] + words(next@));
        assert(out@.map_values(|w: String| w@) + words(next@) =~= before.map_values(|w: String| w@) + (seq![t@.take(k as int)] + words(next@)));
        rest = next;
    }
    out
}

/// The file of the challenges of session `session_id`:
/// `{ctf_dir}/sessions/{session_id}.json`.
pub fn session_challenges_path(ctf_dir: &str, session_id: &str) -> (r: String)
    ensures
        r@ == joined_path(joined_path(ctf_dir@, "sessions"@), session_id@ + ".json"@),
{
    let dir = path_join(ctf_dir, "sessions");
    let mut name = String::new();
    push_str(&mut name, session_id);
    push_str(&mut name, ".json");
    path_join(dir.as_str(), name.as_str())
}

/// The directory name of a category in the writeup store.
pub open spec fn spec_category_dir(c: CtfCategory) -> Seq<char> {
    match c {
        CtfCategory::Misc => "misc"@,
        CtfCategory::Web => "web"@,
        CtfCategory::Reverse => "reverse"@,
        CtfCategory::Pwn => "pwn"@,
        CtfCategory::Crypto => "crypto"@,
    }
}

/// The directory name of a category (see `spec_category_dir`).
pub fn category_dir(c: CtfCategory) -> (r: &'static str)
    ensures
        r@ == spec_category_dir(c),
{
    match c {
        CtfCategory::Misc => "misc",
        CtfCategory::Web => "web",
        CtfCategory::Reverse => "reverse",
        CtfCategory::Pwn => "pwn",
        CtfCategory::Crypto => "crypto",
    }
}

/// The directory of the writeup of challenge `c`:
/// `{ctf_dir}/{category}/{name}`.
pub fn writeup_dir(ctf_dir: &str, c: &CtfChallenge) -> (r: String)
    ensures
        r@ == joined_path(joined_path(ctf_dir@, spec_category_dir(c.category)), c.name@),
{
    let d = path_join(ctf_dir, category_dir(c.category));
    path_join(d.as_str(), c.name.as_str())
}

/// The writeup file of challenge `c`: `{ctf_dir}/{category}/{name}/writeup.md`.
pub fn writeup_path(ctf_dir: &str, c: &CtfChallenge) -> (r: String)
    ensures
        r@ == joined_path(
            joined_path(joined_path(ctf_dir@, spec_category_dir(c.category)), c.name@),
            "writeup.md"@,
        ),
{
    let d = writeup_dir(ctf_dir, c);
    path_join(d.as_str(), "writeup.md")
}

/// A tag as `split_words` gives it back: non-empty, without whitespace.
pub open spec fn plain_word(w: Seq<char>) -> bool {
    w.len() > 0 && forall|i: int| 0 <= i < w.len() ==> !is_ws(#[trigger] w[i])
}

proof fn lemma_join_front(a: Seq<char>, rest: Seq<Seq<char>>, sep: Seq<char>)
    requires
        rest.len() >= 1,
    ensures
        join(seq![a] + rest, sep) == a + sep + join(rest, sep),
    decreases rest.len(),
{
    let all = seq![a] + rest;
    if rest.len() == 1 {
        assert(all.drop_last() =~= seq![a]);
        assert(all.last() == rest[0]);
        assert(all.len() == 2);
        assert(join(seq![a], sep) == a);
        assert(join(rest, sep) == rest[0]);
        assert(join(all, sep) == join(all.drop_last(), sep) + sep + all.last());
        assert(join(all, sep) =~= a + sep + join(rest, sep));
    } else {
        assert(all.drop_last() =~= seq![a] + rest.drop_last());
        lemma_join_front(a, rest.drop_last(), sep);
        assert(all.last() == rest.last());
        assert(join(rest, sep) == join(rest.drop_last(), sep) + sep + rest.last());
        assert(join(all, sep) =~= a + sep + join(rest, sep));
    }
}

proof fn lemma_join_starts_plain(ts: Seq<Seq<char>>, sep: Seq<char>)
    requires
        ts.len() >= 1,
        forall|i: int| 0 <= i < ts.len() ==> plain_word(#[trigger] ts[i]),
    ensures
        join(ts, sep).len() > 0,
        !is_ws(join(ts, sep)[0]),
    decreases ts.len(),
{
    assert(plain_word(ts[0]));
    if ts.len() > 1 {
        lemma_join_starts_plain(ts.drop_last(), sep);
        assert(plain_word(ts.drop_last()[0]));
    }
}

/// Joining words by single spaces and splitting the text at whitespace
/// gives the words back.
pub proof fn lemma_words_of_joined(ts: Seq<Seq<char>>)
    requires
        forall|i: int| 0 <= i < ts.len() ==> plain_word(#[trigger] ts[i]),
    ensures
        words(join(ts, " "@)) == ts,
    decreases ts.len(),
{
    reveal_strlit(" ");
    if ts.len() == 0 {
        assert(trim_start(Seq::<char>::empty()) == Seq::<char>::empty());
        return;
    }
    let a = ts[0];
    assert(plain_word(a));
    let rest = ts.drop_first();
    assert(forall|i: int| 0 <= i < rest.len() ==> #[trigger] rest[i] == ts[i + 1]);
    assert(forall|i: int| 0 <= i < rest.len() ==> plain_word(#[trigger] rest[i])) by {
        assert forall|i: int| 0 <= i < rest.len() implies plain_word(#[trigger] rest[i]) by {
            assert(plain_word(ts[i + 1]));
        }
    }
    assert(ts =~= seq![a] + rest);
    let s = join(ts, " "@);
    if rest.len() == 0 {
        assert(s == a);
        assert(trim_start(a) == a);
        lemma_first_ws_after_word(a, Seq::empty());
        assert(a + Seq::<char>::empty() =~= a);
        assert(a.take(a.len() as int) =~= a);
        assert(a.skip(a.len() as int) =~= Seq::<char>::empty());
        assert(trim_start(Seq::<char>::empty()) == Seq::<char>::empty());
        assert(words(Seq::<char>::empty()) =~= Seq::<Seq<char>>::empty());
        assert(first_ws(a) == a.len());
        assert(words(a) =~= seq![a.take(a.len() as int)] + words(a.skip(a.len() as int)));
        assert(words(s) =~= seq![a]);
    } else {
        lemma_join_front(a, rest, " "@);
        let j = join(rest, " "@);
        lemma_join_starts_plain(rest, " "@);
        lemma_words_of_joined(rest);
        assert(s == a + " "@ + j);
        let tail = " "@ + j;
        assert(s =~= a + tail);
        assert(trim_start(s) == s);
        lemma_first_ws_after_word(a, tail);
        assert(first_ws(tail) == 0);
        assert(s.take(a.len() as int) =~= a);
        assert(s.skip(a.len() as int) =~= tail);
        assert(tail.drop_first() =~= j);
        assert(trim_start(tail) == trim_start(j));
        assert(trim_start(j) == j);
        assert(words(tail) == words(j));
        assert(words(s) =~= seq![a] + rest);
    }
}

} // verus!
