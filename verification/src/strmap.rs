//! A map from text keys to text values, kept sorted by key.
//!
//! Its abstract value is the association list of its entries in ascending
//! key order, each key once. Iterating it therefore gives the keys in the
//! order in which the settings forms display them.
use vstd::prelude::*;

use crate::order::{lemma_lex_asymmetric, lemma_lex_irreflexive, lemma_lex_total,
    lemma_lex_transitive, lex_less, lex_lt};

verus! {

/// Association list: entries `(key, value)`.
pub type Assoc = Seq<(Seq<char>, Seq<char>)>;

/// Keys strictly ascending (so each key occurs once).
pub open spec fn sorted_keys(s: Assoc) -> bool {
    forall|i: int, j: int| 0 <= i < j < s.len() ==> lex_lt(#[trigger] s[i].0, #[trigger] s[j].0)
}

/// Number of entries whose key sorts before `k`.
pub open spec fn count_less(s: Assoc, k: Seq<char>) -> nat
    decreases s.len(),
{
    if s.len() == 0 {
        0
    } else {
        count_less(s.drop_last(), k) + if lex_lt(s.last().0, k) {
            1nat
        } else {
            0nat
        }
    }
}

/// `s` with `k` bound to `v`: the entry for `k` replaced, or a new entry at
/// its place in key order.
pub open spec fn assoc_insert(s: Assoc, k: Seq<char>, v: Seq<char>) -> Assoc {
    let p = count_less(s, k) as int;
    if p < s.len() && s[p].0 == k {
        s.update(p, (k, v))
    } else {
        s.insert(p, (k, v))
    }
}

/// The value bound to `k`, if any.
pub open spec fn assoc_get(s: Assoc, k: Seq<char>) -> Option<Seq<char>> {
    if exists|i: int| 0 <= i < s.len() && s[i].0 == k {
        Some(s[choose|i: int| 0 <= i < s.len() && s[i].0 == k].1)
    } else {
        None
    }
}

pub proof fn lemma_count_less_bound(s: Assoc, k: Seq<char>)
    ensures
        count_less(s, k) <= s.len(),
    decreases s.len(),
{
    if s.len() > 0 {
        lemma_count_less_bound(s.drop_last(), k);
    }
}

/// In a sorted list, the entries before `k` are exactly the first `i` when
/// the first `i` sort before `k` and entry `i` (if any) does not.
pub proof fn lemma_count_less_split(s: Assoc, k: Seq<char>, i: int)
    requires
        sorted_keys(s),
        0 <= i <= s.len(),
        forall|j: int| 0 <= j < i ==> lex_lt(#[trigger] s[j].0, k),
        i < s.len() ==> !lex_lt(s[i].0, k),
    ensures
        count_less(s, k) == i,
    decreases s.len(),
{
    if s.len() > 0 {
        let t = s.drop_last();
        if i == s.len() {
            lemma_count_less_split(t, k, i - 1);
            assert(lex_lt(s[i - 1].0, k));
        } else {
            lemma_count_less_split(t, k, i);
            let l = s.len() - 1;
            if l > i {
                if lex_lt(s[l].0, k) {
                    lemma_lex_transitive(s[i].0, s[l].0, k);
                }
            }
        }
    }
}

pub proof fn lemma_insert_sorted(s: Assoc, k: Seq<char>, v: Seq<char>)
    requires
        sorted_keys(s),
    ensures
        sorted_keys(assoc_insert(s, k, v)),
        exists|i: int| 0 <= i < assoc_insert(s, k, v).len() && assoc_insert(s, k, v)[i] == (k, v),
{
    let p = count_less(s, k) as int;
    lemma_count_less_bound(s, k);
    lemma_count_less_facts(s, k);
    let r = assoc_insert(s, k, v);
    if p < s.len() && s[p].0 == k {
        assert(r[p] == (k, v));
        assert forall|i: int, j: int| 0 <= i < j < r.len() implies lex_lt(
            #[trigger] r[i].0,
            #[trigger] r[j].0,
        ) by {
            assert(s[i].0 == r[i].0 || i == p);
            assert(s[j].0 == r[j].0 || j == p);
        }
    } else {
        assert(r[p] == (k, v));
        assert forall|i: int, j: int| 0 <= i < j < r.len() implies lex_lt(
            #[trigger] r[i].0,
            #[trigger] r[j].0,
        ) by {
            if j == p {
                assert(lex_lt(s[i].0, k));
            } else if i == p {
                // s[j - 1] does not sort before k and is not k
                let q = j - 1;
                assert(!lex_lt(s[q].0, k));
                if q == p {
                    lemma_lex_total(s[q].0, k);
                } else {
                    lemma_lex_total(s[p].0, k);
                    if s[p].0 != k {
                        lemma_lex_transitive(k, s[p].0, s[q].0);
                    } else {
                        assert(false);
                    }
                }
            } else if i < p && j > p {
                assert(lex_lt(s[i].0, k));
                let q = j - 1;
                assert(!lex_lt(s[q].0, k));
                lemma_lex_total(s[q].0, k);
                if s[q].0 == k {
                    lemma_lex_total(s[p].0, k);
                    if p < q {
                        assert(lex_lt(s[p].0, s[q].0));
                        assert(false);
                    }
                }
                lemma_lex_transitive(s[i].0, k, s[q].0);
            } else if i > p {
                assert(lex_lt(s[i - 1].0, s[j - 1].0));
            } else {
                assert(lex_lt(s[i].0, s[j].0));
            }
        }
    }
}

/// For a sorted list: entries before position `count_less` sort before `k`,
/// the others do not.
pub proof fn lemma_count_less_facts(s: Assoc, k: Seq<char>)
    requires
        sorted_keys(s),
    ensures
        forall|j: int| 0 <= j < count_less(s, k) ==> lex_lt(#[trigger] s[j].0, k),
        forall|j: int| count_less(s, k) <= j < s.len() ==> !lex_lt(#[trigger] s[j].0, k),
    decreases s.len(),
{
    lemma_count_less_bound(s, k);
    if s.len() > 0 {
        let t = s.drop_last();
        let l = s.len() - 1;
        assert forall|i: int, j: int| 0 <= i < j < t.len() implies lex_lt(
            #[trigger] t[i].0,
            #[trigger] t[j].0,
        ) by {
            assert(t[i] == s[i] && t[j] == s[j]);
        }
        lemma_count_less_facts(t, k);
        lemma_count_less_bound(t, k);
        let c = count_less(t, k) as int;
        assert forall|j: int| 0 <= j < t.len() implies #[trigger] t[j] == s[j] by {}
        if lex_lt(s[l].0, k) {
            if c < l {
                assert(!lex_lt(t[c].0, k));
                assert(lex_lt(s[c].0, s[l].0));
                lemma_lex_transitive(s[c].0, s[l].0, k);
            }
            assert(c == l);
        }
        assert forall|j: int| 0 <= j < count_less(s, k) implies lex_lt(#[trigger] s[j].0, k) by {
            if j < c {
                assert(lex_lt(t[j].0, k));
            }
        }
        assert forall|j: int| count_less(s, k) <= j < s.len() implies !lex_lt(
            #[trigger] s[j].0,
            k,
        ) by {
            if j < l {
                assert(!lex_lt(t[j].0, k));
            }
        }
    }
}

/// `s` without the entry for `k` (unchanged when there is none).
#[verifier::opaque]
pub open spec fn assoc_remove(s: Assoc, k: Seq<char>) -> Assoc {
    if exists|i: int| 0 <= i < s.len() && s[i].0 == k {
        s.remove(choose|i: int| 0 <= i < s.len() && s[i].0 == k)
    } else {
        s
    }
}

/// The keys of `s`, in order.
pub open spec fn assoc_keys(s: Assoc) -> Seq<Seq<char>> {
    s.map_values(|e: (Seq<char>, Seq<char>)| e.0)
}

/// A text-to-text map kept sorted by key.
#[derive(Debug, Clone, PartialEq, Eq, Default)]
pub struct StringMap {
    keys: Vec<String>,
    vals: Vec<String>,
}

impl View for StringMap {
    type V = Assoc;

    closed spec fn view(&self) -> Assoc {
        Seq::new(self.keys@.len(), |i: int| (self.keys@[i]@, self.vals@[i]@))
    }
}

impl StringMap {
    /// Keys and values pair up and the keys are strictly ascending.
    pub closed spec fn wf(&self) -> bool {
        &&& self.keys@.len() == self.vals@.len()
        &&& sorted_keys(self@)
    }

    /// A well-formed map lists its keys in strictly ascending order.
    pub proof fn lemma_wf_sorted(&self)
        requires
            self.wf(),
        ensures
            sorted_keys(self@),
    {
    }

    /// The empty map.
    pub fn new() -> (m: Self)
        ensures
            m.wf(),
            m@ == Seq::<(Seq<char>, Seq<char>)>::empty(),
    {
        let m = StringMap { keys: Vec::new(), vals: Vec::new() };
        assert(m@ =~= Seq::<(Seq<char>, Seq<char>)>::empty());
        m
    }

    /// Number of entries.
    pub fn len(&self) -> (n: usize)
        requires
            self.wf(),
        ensures
            n == self@.len(),
    {
        self.keys.len()
    }

    /// Whether the map has no entry.
    pub fn is_empty(&self) -> (b: bool)
        requires
            self.wf(),
        ensures
            b == (self@.len() == 0),
    {
        self.len() == 0
    }

    /// Key and value of entry `i`.
    pub fn entry(&self, i: usize) -> (r: (&String, &String))
        requires
            self.wf(),
            i < self@.len(),
        ensures
            r.0@ == self@[i as int].0,
            r.1@ == self@[i as int].1,
    {
        (&self.keys[i], &self.vals[i])
    }

    /// Binds `k` to `v`, replacing an earlier value of `k`.
    pub fn insert(&mut self, k: String, v: String)
        requires
            old(self).wf(),
        ensures
            final(self).wf(),
            final(self)@ == assoc_insert(old(self)@, k@, v@),
    {
        proof {
            lemma_count_less_facts(self@, k@);
            lemma_count_less_bound(self@, k@);
        }
        let ghost s = self@;
        let n = self.keys.len();
        let kc = crate::text::str_chars(k.as_str());
        let mut i: usize = 0;
        let mut stop: bool = false;
        while i < n && !stop
            invariant
                stop ==> i < n && !lex_lt(s[i as int].0, k@),
                forall|j: int| 0 <= j < i ==> lex_lt(#[trigger] s[j].0, k@),
                n == self.keys@.len(),
                n == self.vals@.len(),
                s == self@,
                sorted_keys(s),
                kc@ == k@,
                i <= n,
            decreases n - i + if stop {
                0int
            } else {
                1int
            },
        {
            let ic = crate::text::str_chars(self.keys[i].as_str());
            assert(ic@ == s[i as int].0);
            if !lex_less(&ic, &kc) {
                stop = true;
            } else {
                i = i + 1;
            }
        }
        proof {
            if !stop {
                assert(i == n);
            }
            lemma_count_less_split(s, k@, i as int);
        }
        if i < n && crate::text::chars_eq(&crate::text::str_chars(self.keys[i].as_str()), &kc) {
            self.vals.set(i, v);
            proof {
                assert(self@ =~= s.update(i as int, (k@, v@)));
                lemma_insert_sorted(s, k@, v@);
            }
        } else {
            self.keys.insert(i, k);
            self.vals.insert(i, v);
            proof {
                assert(self@ =~= s.insert(i as int, (k@, v@)));
                lemma_insert_sorted(s, k@, v@);
            }
        }
    }

    /// The value bound to `k`.
    pub fn get(&self, k: &str) -> (r: Option<&String>)
        requires
            self.wf(),
        ensures
            match r {
                Some(v) => assoc_get(self@, k@) == Some(v@),
                None => assoc_get(self@, k@) is None,
            },
    {
        let kc = crate::text::str_chars(k);
        let mut i: usize = 0;
        while i < self.keys.len()
            invariant
                self.keys@.len() == self.vals@.len(),
                sorted_keys(self@),
                kc@ == k@,
                i <= self.keys@.len(),
                forall|j: int| 0 <= j < i ==> #[trigger] self@[j].0 != k@,
            decreases self.keys@.len() - i,
        {
            let ic = crate::text::str_chars(self.keys[i].as_str());
            if crate::text::chars_eq(&ic, &kc) {
                proof {
                    assert(self@[i as int].0 == k@);
                    let w = choose|j: int| 0 <= j < self@.len() && self@[j].0 == k@;
                    lemma_lex_irreflexive(k@);
                    if w < i {
                        assert(lex_lt(self@[w].0, self@[i as int].0));
                    } else if w > i {
                        assert(lex_lt(self@[i as int].0, self@[w].0));
                    }
                    assert(w == i);
                }
                return Some(&self.vals[i]);
            }
            i = i + 1;
        }
        None
    }
    /// Whether `k` has an entry.
    pub fn contains_key(&self, k: &str) -> (b: bool)
        requires
            self.wf(),
        ensures
            b == assoc_keys(self@).contains(k@),
    {
        let r = self.get(k);
        proof {
            if r is Some {
                let i = choose|i: int| 0 <= i < self@.len() && self@[i].0 == k@;
                assert(assoc_keys(self@)[i] == k@);
            }
            if assoc_keys(self@).contains(k@) {
                let i = choose|i: int| 0 <= i < assoc_keys(self@).len() && assoc_keys(self@)[i] == k@;
                assert(self@[i].0 == k@);
            }
        }
        r.is_some()
    }

    /// A copy with the same entries.
    pub fn duplicate(&self) -> (r: Self)
        requires
            self.wf(),
        ensures
            r.wf(),
            r@ == self@,
    {
        let mut keys: Vec<String> = Vec::new();
        let mut vals: Vec<String> = Vec::new();
        let mut i: usize = 0;
        while i < self.keys.len()
            invariant
                self.keys@.len() == self.vals@.len(),
                i <= self.keys@.len(),
                keys@.len() == i,
                vals@.len() == i,
                forall|j: int| 0 <= j < i ==> #[trigger] keys@[j]@ == self.keys@[j]@ && vals@[j]@
                    == self.vals@[j]@,
            decreases self.keys@.len() - i,
        {
            keys.push(self.keys[i].clone());
            vals.push(self.vals[i].clone());
            i = i + 1;
        }
        let r = StringMap { keys, vals };
        assert(r@ =~= self@);
        r
    }

    /// Removes the entry for `k`; says whether there was one.
    pub fn remove(&mut self, k: &str) -> (found: bool)
        requires
            old(self).wf(),
        ensures
            final(self).wf(),
            found == assoc_keys(old(self)@).contains(k@),
            final(self)@ == assoc_remove(old(self)@, k@),
    {
        let ghost s = self@;
        let kc = crate::text::str_chars(k);
        let mut i: usize = 0;
        while i < self.keys.len()
            invariant
                self.keys@.len() == self.vals@.len(),
                s == self@,
                s == old(self)@,
                sorted_keys(s),
                kc@ == k@,
                i <= self.keys@.len(),
                forall|j: int| 0 <= j < i ==> #[trigger] s[j].0 != k@,
            decreases self.keys@.len() - i,
        {
            let ic = crate::text::str_chars(self.keys[i].as_str());
            assert(ic@ == s[i as int].0);
            if crate::text::chars_eq(&ic, &kc) {
                proof {
                    assert(s[i as int].0 == k@);
                    let w = choose|j: int| 0 <= j < s.len() && s[j].0 == k@;
                    lemma_lex_irreflexive(k@);
                    if w < i {
                        assert(lex_lt(s[w].0, s[i as int].0));
                    } else if w > i {
                        assert(lex_lt(s[i as int].0, s[w].0));
                    }
                    assert(w == i);
                    assert(assoc_keys(s)[i as int] == k@);
                }
                reveal(assoc_remove);
                self.keys.remove(i);
                self.vals.remove(i);
                assert(self@ =~= s.remove(i as int));
                assert(sorted_keys(self@)) by {
                    assert forall|a: int, b: int| 0 <= a < b < self@.len() implies lex_lt(
                        #[trigger] self@[a].0,
                        #[trigger] self@[b].0,
                    ) by {
                        let a2 = if a < i { a } else { a + 1 };
                        let b2 = if b < i { b } else { b + 1 };
                        assert(self@[a] == s[a2]);
                        assert(self@[b] == s[b2]);
                    }
                }
                return true;
            }
            i = i + 1;
        }
        proof {
            reveal(assoc_remove);
            assert(!(exists|j: int| 0 <= j < s.len() && s[j].0 == k@));
            if assoc_keys(s).contains(k@) {
                let j = choose|j: int| 0 <= j < assoc_keys(s).len() && assoc_keys(s)[j] == k@;
                assert(s[j].0 == k@);
            }
        }
        false
    }
}

} // verus!
