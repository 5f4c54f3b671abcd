//! A map keyed by text, kept in increasing key order.
//!
//! It stands where the compiler keeps keyword tables, alias tables, function
//! arguments and imported sources: looking a key up, inserting (a new value replaces
//! the old one) and walking the entries in increasing key order, as an ordered map does.
//!
//! It is its own type, not std's `HashMap` or `BTreeMap`: with `String` keys, vstd's
//! specifications of those maps let Verus prove next to nothing about lookups and
//! insertions (not even the length after one insertion), and a `HashMap` is walked in an
//! order that depends on its hasher's seed.
use vstd::prelude::*;
use crate::text::{chars_of, str_eq};

verus! {

/// Lexicographic order on texts, comparing characters by code point.
pub open spec fn text_less(a: Seq<char>, b: Seq<char>) -> bool
    decreases a.len(),
{
    if a.len() == 0 {
        b.len() > 0
    } else if b.len() == 0 {
        false
    } else if a[0] != b[0] {
        a[0] < b[0]
    } else {
        text_less(a.drop_first(), b.drop_first())
    }
}

/// Of two different texts, one is less than the other.
pub proof fn lemma_text_less_total(a: Seq<char>, b: Seq<char>)
    requires
        a != b,
    ensures
        text_less(a, b) || text_less(b, a),
    decreases a.len(),
{
    if a.len() == 0 && b.len() == 0 {
        assert(a =~= b);
    } else if a.len() > 0 && b.len() > 0 && a[0] == b[0] {
        if a.drop_first() =~= b.drop_first() {
            assert(a =~= seq![a[0]] + a.drop_first());
            assert(b =~= seq![b[0]] + b.drop_first());
            assert(a =~= b);
        } else {
            lemma_text_less_total(a.drop_first(), b.drop_first());
        }
    } else if a.len() > 0 && b.len() > 0 {
        assert(a[0] != b[0]);
    }
}

/// No text is less than itself.
pub proof fn lemma_text_less_irreflexive(a: Seq<char>)
    ensures
        !text_less(a, a),
    decreases a.len(),
{
    if a.len() > 0 {
        lemma_text_less_irreflexive(a.drop_first());
    }
}

/// `text_less(a, b)`, computed.
pub fn is_text_less(a: &str, b: &str) -> (r: bool)
    ensures
        r == text_less(a@, b@),
{
    let va = chars_of(a);
    let vb = chars_of(b);
    let mut i: usize = 0;
    assert(a@.skip(0) =~= a@);
    assert(b@.skip(0) =~= b@);
    while i < va.len() && i < vb.len() && va[i] == vb[i]
        invariant
            i <= va.len(),
            i <= vb.len(),
            va@ == a@,
            vb@ == b@,
            text_less(a@, b@) == text_less(a@.skip(i as int), b@.skip(i as int)),
        decreases va.len() - i,
    {
        assert(a@.skip(i as int).drop_first() =~= a@.skip(i + 1));
        assert(b@.skip(i as int).drop_first() =~= b@.skip(i + 1));
        i = i + 1;
    }
    if i == va.len() {
        i < vb.len()
    } else if i == vb.len() {
        false
    } else {
        va[i] < vb[i]
    }
}

/// Entries `(key, value)` with their keys in strictly increasing order.
pub struct StrMap<V> {
    pub entries: Vec<(String, V)>,
}

impl<V> StrMap<V> {
    /// The keys, in the order of the entries.
    pub open spec fn keys(&self) -> Seq<Seq<char>> {
        self.entries@.map_values(|e: (String, V)| e.0@)
    }

    /// The entries as pairs of plain values, in increasing key order.
    pub open spec fn pairs(&self) -> Seq<(Seq<char>, V)> {
        self.entries@.map_values(|e: (String, V)| (e.0@, e.1))
    }

    /// Keys strictly increase along the entries (so each key occurs once).
    pub open spec fn wf(&self) -> bool {
        forall|i: int, j: int|
            0 <= i < j < self.entries@.len() ==> text_less(
                #[trigger] self.entries@[i].0@,
                #[trigger] self.entries@[j].0@,
            )
    }

    /// The map that the entries stand for.
    pub open spec fn view(&self) -> Map<Seq<char>, V> {
        Map::new(
            |k: Seq<char>| self.keys().contains(k),
            |k: Seq<char>| self.entries@[self.keys().index_of(k)].1,
        )
    }

    /// The position of `k` among the keys, if any.
    pub open spec fn position(&self, k: Seq<char>) -> int {
        self.keys().index_of(k)
    }

    /// The entry at position `i` is the value of its key.
    pub proof fn lemma_entry_value(&self, i: int)
        requires
            self.wf(),
            0 <= i < self.entries@.len(),
        ensures
            self@.contains_key(self.entries@[i].0@),
            self@[self.entries@[i].0@] == self.entries@[i].1,
    {
        let k = self.entries@[i].0@;
        assert(self.keys()[i] == k);
        assert(self.keys().contains(k));
        let p = self.keys().index_of(k);
        if p != i {
            assert(self.keys()[p] == k);
            if p < i {
                assert(text_less(self.entries@[p].0@, self.entries@[i].0@));
            } else {
                assert(text_less(self.entries@[i].0@, self.entries@[p].0@));
            }
            lemma_text_less_irreflexive(k);
        }
    }

    /// An empty map.
    pub fn new() -> (m: Self)
        ensures
            m.wf(),
            m.entries@.len() == 0,
            m@ == Map::<Seq<char>, V>::empty(),
    {
        let m = StrMap { entries: Vec::new() };
        assert(m@ =~= Map::<Seq<char>, V>::empty());
        m
    }

    /// Number of entries.
    pub fn len(&self) -> (n: usize)
        ensures
            n == self.entries@.len(),
    {
        self.entries.len()
    }

    /// Index of the entry with key `k`, or of the first entry whose key is greater than `k`
    /// (`entries.len()` if there is none), and whether `k` is there.
    pub fn find(&self, k: &str) -> (res: (usize, bool))
        requires
            self.wf(),
        ensures
            res.0 <= self.entries@.len(),
            forall|i: int| 0 <= i < res.0 ==> text_less(#[trigger] self.entries@[i].0@, k@),
            res.1 ==> res.0 < self.entries@.len() && self.entries@[res.0 as int].0@ == k@,
            !res.1 ==> res.0 < self.entries@.len() ==> text_less(k@, self.entries@[res.0 as int].0@),
            res.1 == self@.contains_key(k@),
    {
        let mut i: usize = 0;
        while i < self.entries.len()
            invariant
                i <= self.entries@.len(),
                self.wf(),
                forall|j: int| 0 <= j < i ==> text_less(#[trigger] self.entries@[j].0@, k@),
            decreases self.entries@.len() - i,
        {
            let key = self.entries[i].0.as_str();
            if str_eq(key, k) {
                proof {
                    assert(self.keys()[i as int] == k@);
                }
                return (i, true);
            }
            if !is_text_less(key, k) {
                proof {
                    lemma_text_less_total(key@, k@);
                    assert forall|j: int| 0 <= j < self.entries@.len() implies self.entries@[j].0@
                        != k@ by {
                        if j < i {
                            assert(text_less(self.entries@[j].0@, k@));
                            lemma_text_less_irreflexive(k@);
                        } else if j > i {
                            assert(text_less(self.entries@[i as int].0@, self.entries@[j].0@));
                            if self.entries@[j].0@ == k@ {
                                lemma_text_less_asym(k@, self.entries@[i as int].0@);
                            }
                        }
                    }
                    self.lemma_absent(k@);
                }
                return (i, false);
            }
            i = i + 1;
        }
        proof {
            assert forall|j: int| 0 <= j < self.entries@.len() implies self.entries@[j].0@
                != k@ by {
                assert(text_less(self.entries@[j].0@, k@));
                lemma_text_less_irreflexive(k@);
            }
            self.lemma_absent(k@);
        }
        (i, false)
    }

    proof fn lemma_absent(&self, k: Seq<char>)
        requires
            self.wf(),
            forall|j: int| 0 <= j < self.entries@.len() ==> #[trigger] self.entries@[j].0@ != k,
        ensures
            !self.keys().contains(k),
    {
        if self.keys().contains(k) {
            let j = self.keys().index_of(k);
            assert(self.keys()[j] == k);
            assert(self.entries@[j].0@ == k);
        }
    }

    /// The value of key `k`, if any (`BTreeMap::get` / `HashMap::get`).
    pub fn get(&self, k: &str) -> (res: Option<&V>)
        requires
            self.wf(),
        ensures
            match res {
                Some(v) => self@.contains_key(k@) && *v == self@[k@],
                None => !self@.contains_key(k@),
            },
    {
        let (i, found) = self.find(k);
        if found {
            proof {
                self.lemma_entry_value(i as int);
            }
            Some(&self.entries[i].1)
        } else {
            None
        }
    }

    /// Sets the value of key `k` to `v`, replacing any earlier value (`insert`).
    pub fn insert(&mut self, k: String, v: V)
        requires
            old(self).wf(),
        ensures
            final(self).wf(),
            final(self)@ == old(self)@.insert(k@, v),
            final(self).pairs() == insert_pair(old(self).pairs(), k@, v),
    {
        let (i, found) = self.find(k.as_str());
        proof {
            lemma_insert_pair(old(self).pairs(), k@, v, i as int, found);
        }
        let ghost old_entries = self.entries@;
        let ghost kv = k@;
        let ghost vv = v;
        if found {
            self.entries.set(i, (k, v));
            assert(self.pairs() =~= old(self).pairs().update(i as int, (kv, vv)));
            assert(self.entries@ == old_entries.update(i as int, (self.entries@[i as int].0, v)));
            proof {
                assert forall|a: int, b: int|
                    0 <= a < b < self.entries@.len() implies text_less(
                    #[trigger] self.entries@[a].0@,
                    #[trigger] self.entries@[b].0@,
                ) by {
                    assert(old_entries[a].0@ == self.entries@[a].0@);
                    assert(old_entries[b].0@ == self.entries@[b].0@);
                }
            }
        } else {
            self.entries.insert(i, (k, v));
            assert(self.pairs() =~= old(self).pairs().insert(i as int, (kv, vv)));
            proof {
                assert forall|a: int, b: int|
                    0 <= a < b < self.entries@.len() implies text_less(
                    #[trigger] self.entries@[a].0@,
                    #[trigger] self.entries@[b].0@,
                ) by {
                    if a < i && b < i {
                        assert(text_less(old_entries[a].0@, old_entries[b].0@));
                    } else if a < i && b == i {
                    } else if a < i {
                        assert(self.entries@[b] == old_entries[b - 1]);
                        assert(text_less(old_entries[a].0@, kv));
                        if b - 1 > i {
                            assert(text_less(old_entries[i as int].0@, old_entries[b - 1].0@));
                            lemma_text_less_trans(kv, old_entries[i as int].0@, old_entries[b - 1].0@);
                        }
                        lemma_text_less_trans(old_entries[a].0@, kv, old_entries[b - 1].0@);
                    } else if a == i {
                        assert(self.entries@[b] == old_entries[b - 1]);
                        if b - 1 > i {
                            assert(text_less(old_entries[i as int].0@, old_entries[b - 1].0@));
                            lemma_text_less_trans(kv, old_entries[i as int].0@, old_entries[b - 1].0@);
                        }
                    } else {
                        assert(self.entries@[a] == old_entries[a - 1]);
                        assert(self.entries@[b] == old_entries[b - 1]);
                        assert(text_less(old_entries[a - 1].0@, old_entries[b - 1].0@));
                    }
                }
            }
        }
        proof {
            let ghost old_map = Map::new(
                |key: Seq<char>| old_entries.map_values(|e: (String, V)| e.0@).contains(key),
                |key: Seq<char>| old_entries[old_entries.map_values(|e: (String, V)| e.0@).index_of(key)].1,
            );
            assert forall|key: Seq<char>| #[trigger] self@.contains_key(key) == old(self)@.insert(kv, v).contains_key(key) by {
                if self.keys().contains(key) {
                    let p = self.keys().index_of(key);
                    assert(self.keys()[p] == key);
                    if key != kv {
                        if found {
                            assert(old(self).keys()[p] == key);
                        } else if p < i {
                            assert(old(self).keys()[p] == key);
                        } else {
                            assert(old(self).keys()[p - 1] == key);
                        }
                    }
                }
                if key == kv {
                    if found {
                        assert(self.keys()[i as int] == key);
                    } else {
                        assert(self.keys()[i as int] == key);
                    }
                } else if old(self).keys().contains(key) {
                    let p = old(self).keys().index_of(key);
                    assert(old(self).keys()[p] == key);
                    if found || p < i {
                        assert(self.keys()[p] == key);
                    } else {
                        assert(self.keys()[p + 1] == key);
                    }
                }
            }
            assert forall|key: Seq<char>| #[trigger] self@.contains_key(key) implies self@[key]
                == old(self)@.insert(kv, v)[key] by {
                let p = self.keys().index_of(key);
                assert(self.keys()[p] == key);
                self.lemma_entry_value(p);
                if key == kv {
                    if p != i {
                        self.lemma_entry_value(i as int);
                    }
                } else {
                    if found || p < i {
                        assert(old_entries[p].0@ == key);
                        old(self).lemma_entry_value(p);
                    } else {
                        assert(p > i);
                        assert(old_entries[p - 1].0@ == key);
                        old(self).lemma_entry_value(p - 1);
                    }
                }
            }
            assert(self@ =~= old(self)@.insert(kv, v));
        }
    }
}

/// `text_less` is transitive.
/// `ps` (in increasing key order) with the value of `k` set to `v`: in its place when
/// `k` is there, else inserted before the first greater key.
pub open spec fn insert_pair<V>(ps: Seq<(Seq<char>, V)>, k: Seq<char>, v: V) -> Seq<(Seq<char>, V)>
    decreases ps.len(),
{
    if ps.len() == 0 {
        seq![(k, v)]
    } else if ps[0].0 == k {
        seq![(k, v)] + ps.drop_first()
    } else if text_less(k, ps[0].0) {
        seq![(k, v)] + ps
    } else {
        seq![ps[0]] + insert_pair(ps.drop_first(), k, v)
    }
}

/// `insert_pair` at the place that a search for `k` finds.
proof fn lemma_insert_pair<V>(ps: Seq<(Seq<char>, V)>, k: Seq<char>, v: V, i: int, found: bool)
    requires
        0 <= i <= ps.len(),
        forall|j: int| 0 <= j < i ==> text_less(#[trigger] ps[j].0, k),
        found ==> i < ps.len() && ps[i].0 == k,
        !found ==> i < ps.len() ==> text_less(k, ps[i].0),
    ensures
        insert_pair(ps, k, v) == if found {
            ps.update(i, (k, v))
        } else {
            ps.insert(i, (k, v))
        },
    decreases ps.len(),
{
    if ps.len() == 0 {
        assert(ps.insert(i, (k, v)) =~= seq![(k, v)]);
    } else if i == 0 {
        if found {
            assert(ps.update(0, (k, v)) =~= seq![(k, v)] + ps.drop_first());
        } else {
            lemma_text_less_irreflexive(k);
            assert(ps[0].0 != k);
            assert(ps.insert(0, (k, v)) =~= seq![(k, v)] + ps);
        }
    } else {
        assert(text_less(ps[0].0, k));
        lemma_text_less_irreflexive(k);
        if text_less(k, ps[0].0) {
            lemma_text_less_asym(ps[0].0, k);
        }
        let rest = ps.drop_first();
        assert forall|j: int| 0 <= j < i - 1 implies text_less(#[trigger] rest[j].0, k) by {
            assert(rest[j] == ps[j + 1]);
        }
        lemma_insert_pair(rest, k, v, i - 1, found);
        if found {
            assert(ps.update(i, (k, v)) =~= seq![ps[0]] + rest.update(i - 1, (k, v)));
        } else {
            assert(ps.insert(i, (k, v)) =~= seq![ps[0]] + rest.insert(i - 1, (k, v)));
        }
    }
}

pub proof fn lemma_text_less_trans(a: Seq<char>, b: Seq<char>, c: Seq<char>)
    requires
        text_less(a, b),
        text_less(b, c),
    ensures
        text_less(a, c),
    decreases a.len(),
{
    if a.len() > 0 && b.len() > 0 && c.len() > 0 {
        if a[0] == b[0] && b[0] == c[0] {
            lemma_text_less_trans(a.drop_first(), b.drop_first(), c.drop_first());
        }
    }
}

/// `text_less` is asymmetric.
pub proof fn lemma_text_less_asym(a: Seq<char>, b: Seq<char>)
    requires
        text_less(a, b),
    ensures
        !text_less(b, a),
{
    if text_less(b, a) {
        lemma_text_less_trans(a, b, a);
        lemma_text_less_irreflexive(a);
    }
}

} // verus!
