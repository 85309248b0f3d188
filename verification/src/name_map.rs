use vstd::prelude::*;

use crate::text::collect_chars;

verus! {

/// Lexicographic order on character sequences, characters compared by code point
/// (the order of `String`'s `Ord`).
pub open spec fn lex_lt(a: Seq<char>, b: Seq<char>) -> bool
    decreases a.len(),
{
    if a.len() == 0 {
        b.len() > 0
    } else if b.len() == 0 {
        false
    } else if a[0] < b[0] {
        true
    } else if a[0] == b[0] {
        lex_lt(a.drop_first(), b.drop_first())
    } else {
        false
    }
}

pub proof fn lemma_lex_irreflexive(a: Seq<char>)
    ensures
        !lex_lt(a, a),
    decreases a.len(),
{
    if a.len() > 0 {
        lemma_lex_irreflexive(a.drop_first());
    }
}

pub proof fn lemma_lex_transitive(a: Seq<char>, b: Seq<char>, c: Seq<char>)
    requires
        lex_lt(a, b),
        lex_lt(b, c),
    ensures
        lex_lt(a, c),
    decreases a.len(),
{
    if a.len() > 0 && b.len() > 0 && c.len() > 0 {
        if a[0] == b[0] && b[0] == c[0] {
            lemma_lex_transitive(a.drop_first(), b.drop_first(), c.drop_first());
        }
    }
}

pub proof fn lemma_lex_total(a: Seq<char>, b: Seq<char>)
    ensures
        a != b ==> lex_lt(a, b) || lex_lt(b, a),
    decreases a.len(),
{
    if a.len() > 0 && b.len() > 0 && a[0] == b[0] {
        lemma_lex_total(a.drop_first(), b.drop_first());
        if a.drop_first() == b.drop_first() {
            assert(a =~= seq![a[0]] + a.drop_first());
            assert(b =~= seq![b[0]] + b.drop_first());
        }
    } else if a.len() == 0 && b.len() == 0 {
        assert(a =~= b);
    }
}

pub proof fn lemma_lex_asymmetric(a: Seq<char>, b: Seq<char>)
    requires
        lex_lt(a, b),
    ensures
        !lex_lt(b, a),
{
    if lex_lt(b, a) {
        lemma_lex_transitive(a, b, a);
        lemma_lex_irreflexive(a);
    }
}

/// Compares two character sequences: -1 when `a` comes first, 0 when equal, 1 when `b` comes first.
pub fn compare_chars(a: &[char], b: &[char]) -> (r: i8)
    ensures
        r == -1 <==> lex_lt(a@, b@),
        r == 0 <==> a@ == b@,
        r == 1 <==> lex_lt(b@, a@),
        r == -1 || r == 0 || r == 1,
{
    let mut i: usize = 0;
    while i < a.len() && i < b.len()
        invariant
            0 <= i <= a.len(),
            i <= b.len(),
            a@.take(i as int) == b@.take(i as int),
        decreases a.len() - i,
    {
        if a[i] < b[i] {
            proof { lemma_prefix_decides(a@, b@, i as int); }
            return -1;
        } else if a[i] > b[i] {
            proof { lemma_prefix_decides(b@, a@, i as int); }
            return 1;
        }
        assert(a@.take(i + 1) =~= a@.take(i as int).push(a@[i as int]));
        assert(b@.take(i + 1) =~= b@.take(i as int).push(b@[i as int]));
        i = i + 1;
    }
    proof {
        lemma_prefix_end(a@, b@, i as int);
        lemma_lex_irreflexive(a@);
    }
    if a.len() < b.len() {
        -1
    } else if a.len() > b.len() {
        1
    } else {
        0
    }
}

proof fn lemma_prefix_decides(a: Seq<char>, b: Seq<char>, i: int)
    requires
        0 <= i < a.len(),
        i < b.len(),
        a.take(i) == b.take(i),
        a[i] < b[i],
    ensures
        lex_lt(a, b),
        !lex_lt(b, a),
        a != b,
    decreases i,
{
    if i > 0 {
        assert(a.take(i)[0] == a[0]);
        assert(b.take(i)[0] == b[0]);
        assert(a[0] == b[0]);
        let a1 = a.drop_first();
        let b1 = b.drop_first();
        assert(a1.take(i - 1) =~= a.take(i).drop_first());
        assert(b1.take(i - 1) =~= b.take(i).drop_first());
        assert(a1[i - 1] == a[i]);
        assert(b1[i - 1] == b[i]);
        lemma_prefix_decides(a1, b1, i - 1);
        assert(lex_lt(a, b) == lex_lt(a1, b1));
        assert(lex_lt(b, a) == lex_lt(b1, a1));
    } else {
        assert(lex_lt(a, b));
        assert(!lex_lt(b, a));
    }
    if a == b {
        assert(a[i] == b[i]);
    }
}

proof fn lemma_prefix_end(a: Seq<char>, b: Seq<char>, i: int)
    requires
        0 <= i <= a.len(),
        i <= b.len(),
        i == a.len() || i == b.len(),
        a.take(i) == b.take(i),
    ensures
        a.len() < b.len() ==> lex_lt(a, b) && !lex_lt(b, a) && a != b,
        a.len() > b.len() ==> lex_lt(b, a) && !lex_lt(a, b) && a != b,
        a.len() == b.len() ==> a == b,
    decreases i,
{
    if i > 0 {
        assert(a.take(i)[0] == a[0]);
        assert(b.take(i)[0] == b[0]);
        assert(a[0] == b[0]);
        let a1 = a.drop_first();
        let b1 = b.drop_first();
        assert(a1.take(i - 1) =~= a.take(i).drop_first());
        assert(b1.take(i - 1) =~= b.take(i).drop_first());
        lemma_prefix_end(a1, b1, i - 1);
        assert(lex_lt(a, b) == lex_lt(a1, b1));
        assert(lex_lt(b, a) == lex_lt(b1, a1));
        if a.len() == b.len() {
            assert(a =~= seq![a[0]] + a1);
            assert(b =~= seq![b[0]] + b1);
        }
    } else {
        if a.len() == b.len() {
            assert(a =~= b);
        }
    }
}

/// Compares two strings in the order of `String`'s `Ord`.
pub fn compare_strings(a: &str, b: &str) -> (r: i8)
    ensures
        r == -1 <==> lex_lt(a@, b@),
        r == 0 <==> a@ == b@,
        r == 1 <==> lex_lt(b@, a@),
        r == -1 || r == 0 || r == 1,
{
    let va = collect_chars(a);
    let vb = collect_chars(b);
    compare_chars(va.as_slice(), vb.as_slice())
}

/// A map from names to values, kept in the order of the names, as a `BTreeMap<String, V>` is.
#[derive(Debug, PartialEq, Eq)]
pub struct NameMap<V> {
    entries: Vec<(String, V)>,
}

/// The names of a list of entries, as character sequences.
pub open spec fn entry_names<V>(e: Seq<(String, V)>) -> Seq<Seq<char>> {
    e.map_values(|p: (String, V)| p.0@)
}

/// The names of a list of entries are in strictly increasing order.
pub open spec fn sorted_names(ks: Seq<Seq<char>>) -> bool {
    forall|i: int, j: int| 0 <= i < j < ks.len() ==> lex_lt(#[trigger] ks[i], #[trigger] ks[j])
}

/// The map that a list of entries denotes.
pub open spec fn entries_map<V>(e: Seq<(String, V)>) -> Map<Seq<char>, V>
    decreases e.len(),
{
    if e.len() == 0 {
        Map::empty()
    } else {
        entries_map(e.drop_last()).insert(e.last().0@, e.last().1)
    }
}

proof fn lemma_entries_map_index<V>(e: Seq<(String, V)>, i: int)
    requires
        0 <= i < e.len(),
        sorted_names(entry_names(e)),
    ensures
        entries_map(e).contains_key(e[i].0@),
        entries_map(e)[e[i].0@] == e[i].1,
    decreases e.len(),
{
    let ks = entry_names(e);
    if i < e.len() - 1 {
        assert(entry_names(e.drop_last()) =~= ks.drop_last());
        lemma_entries_map_index(e.drop_last(), i);
        assert(ks[i] == e[i].0@ && ks[e.len() - 1] == e.last().0@);
        lemma_lex_irreflexive(e[i].0@);
    }
}

proof fn lemma_entries_map_domain<V>(e: Seq<(String, V)>, k: Seq<char>)
    ensures
        entries_map(e).contains_key(k) <==> exists|i: int| 0 <= i < e.len() && #[trigger] e[i].0@ == k,
    decreases e.len(),
{
    if e.len() > 0 {
        lemma_entries_map_domain(e.drop_last(), k);
        if entries_map(e).contains_key(k) && k != e.last().0@ {
            let i = choose|i: int| 0 <= i < e.drop_last().len() && #[trigger] e.drop_last()[i].0@ == k;
            assert(e[i].0@ == k);
        }
        if exists|i: int| 0 <= i < e.len() && #[trigger] e[i].0@ == k {
            let i = choose|i: int| 0 <= i < e.len() && #[trigger] e[i].0@ == k;
            if i < e.len() - 1 {
                assert(e.drop_last()[i].0@ == k);
            }
        }
    }
}

proof fn lemma_entries_map_update<V>(e: Seq<(String, V)>, i: int, p: (String, V))
    requires
        0 <= i < e.len(),
        sorted_names(entry_names(e)),
        p.0@ == e[i].0@,
    ensures
        entries_map(e.update(i, p)) == entries_map(e).insert(e[i].0@, p.1),
    decreases e.len(),
{
    let e2 = e.update(i, p);
    if i == e.len() - 1 {
        assert(e2.drop_last() =~= e.drop_last());
        assert(entries_map(e2) =~= entries_map(e).insert(e[i].0@, p.1));
    } else {
        let d = e.drop_last();
        assert(e2.drop_last() =~= d.update(i, p));
        assert(entry_names(d) =~= entry_names(e).drop_last());
        lemma_entries_map_update(d, i, p);
        assert(entry_names(e)[i] == e[i].0@ && entry_names(e)[e.len() - 1] == e.last().0@);
        lemma_lex_irreflexive(e[i].0@);
        assert(e[i].0@ != e.last().0@);
        assert(entries_map(e2) =~= entries_map(e).insert(e[i].0@, p.1));
    }
}

impl<V> View for NameMap<V> {
    type V = Map<Seq<char>, V>;

    closed spec fn view(&self) -> Map<Seq<char>, V> {
        entries_map(self.entries@)
    }
}

impl<V> NameMap<V> {
    /// The entries are kept in strictly increasing order of names.
    pub closed spec fn wf(&self) -> bool {
        sorted_names(entry_names(self.entries@))
    }

    /// The names, in increasing order.
    pub closed spec fn names(&self) -> Seq<Seq<char>> {
        entry_names(self.entries@)
    }

    /// The values, in the order of their names.
    pub closed spec fn values(&self) -> Seq<V> {
        self.entries@.map_values(|p: (String, V)| p.1)
    }

    /// There are as many values as names.
    pub proof fn lemma_values_len(&self)
        ensures
            self.values().len() == self.names().len(),
    {
    }

    /// Puts `v` as the value of the `i`-th name; gives back the value that stood there.
    pub fn replace_at(&mut self, i: usize, v: V) -> (old_v: V)
        requires
            old(self).wf(),
            i < old(self).names().len(),
        ensures
            final(self).wf(),
            final(self).names() == old(self).names(),
            final(self).values() == old(self).values().update(i as int, v),
            final(self)@ == old(self)@.insert(old(self).names()[i as int], v),
            old_v == old(self).values()[i as int],
    {
        let ghost e0 = self.entries@;
        let (name, old_v) = self.entries.remove(i);
        self.entries.insert(i, (name, v));
        proof {
            assert(self.entries@ =~= e0.update(i as int, (name, v)));
            assert(entry_names(self.entries@) =~= entry_names(e0));
            lemma_entries_map_update(e0, i as int, (name, v));
            assert(self.values() =~= e0.map_values(|p: (String, V)| p.1).update(i as int, v));
        }
        old_v
    }

    /// No name stands twice.
    pub proof fn lemma_names_distinct(&self, i: int)
        requires
            self.wf(),
            0 <= i < self.names().len(),
        ensures
            forall|j: int| 0 <= j < self.names().len() && j != i ==> #[trigger] self.names()[j] != self.names()[i],
    {
        assert forall|j: int| 0 <= j < self.names().len() && j != i implies #[trigger] self.names()[j] != self.names()[i] by {
            lemma_lex_irreflexive(self.names()[i]);
        }
    }

    /// The names are exactly the keys, and each value stands under its name.
    pub proof fn lemma_names_cover(&self)
        requires
            self.wf(),
        ensures
            forall|k: Seq<char>| #[trigger] self@.contains_key(k) <==> exists|j: int| 0 <= j < self.names().len()
                && self.names()[j] == k,
            forall|j: int| 0 <= j < self.names().len() ==> #[trigger] self@.contains_key(self.names()[j]) && self@[self.names()[j]]
                == self.values()[j],
    {
        assert forall|k: Seq<char>| #[trigger] self@.contains_key(k) <==> exists|j: int| 0 <= j < self.names().len()
            && self.names()[j] == k by {
            lemma_entries_map_domain(self.entries@, k);
            if self@.contains_key(k) {
                let i = choose|i: int| 0 <= i < self.entries@.len() && #[trigger] self.entries@[i].0@ == k;
                assert(self.names()[i] == k);
            }
            if exists|j: int| 0 <= j < self.names().len() && self.names()[j] == k {
                let j = choose|j: int| 0 <= j < self.names().len() && self.names()[j] == k;
                assert(self.entries@[j].0@ == k);
            }
        }
        assert forall|j: int| 0 <= j < self.names().len() implies #[trigger] self@.contains_key(self.names()[j]) && self@[self.names()[j]]
            == self.values()[j] by {
            lemma_entries_map_index(self.entries@, j);
        }
    }

    pub fn new() -> (m: Self)
        ensures
            m.wf(),
            m@ == Map::<Seq<char>, V>::empty(),
            m.names().len() == 0,
    {
        NameMap { entries: Vec::new() }
    }

    pub fn len(&self) -> (n: usize)
        ensures
            n == self.names().len(),
    {
        self.entries.len()
    }

    /// Where `name` stands, or where it would be inserted.
    fn find(&self, name: &str) -> (r: (usize, bool))
        requires
            self.wf(),
        ensures
            r.0 <= self.names().len(),
            r.1 ==> r.0 < self.names().len() && self.names()[r.0 as int] == name@,
            !r.1 ==> forall|i: int| 0 <= i < self.names().len() ==> self.names()[i] != name@,
            forall|i: int| 0 <= i < r.0 ==> lex_lt(#[trigger] self.names()[i], name@),
            forall|i: int| r.0 < i < self.names().len() ==> lex_lt(name@, #[trigger] self.names()[i]),
            !r.1 ==> forall|i: int| r.0 <= i < self.names().len() ==> lex_lt(name@, #[trigger] self.names()[i]),
    {
        let ghost ks = self.names();
        let mut i: usize = 0;
        while i < self.entries.len()
            invariant
                0 <= i <= self.entries.len(),
                ks == self.names(),
                self.wf(),
                forall|j: int| 0 <= j < i ==> lex_lt(#[trigger] ks[j], name@),
            decreases self.entries.len() - i,
        {
            let c = compare_strings(self.entries[i].0.as_str(), name);
            assert(ks[i as int] == self.entries@[i as int].0@);
            if c == 0 {
                assert forall|j: int| i < j < ks.len() implies lex_lt(name@, #[trigger] ks[j]) by {
                    assert(lex_lt(ks[i as int], ks[j]));
                }
                return (i, true);
            } else if c == 1 {
                assert forall|j: int| i <= j < ks.len() implies lex_lt(name@, #[trigger] ks[j]) by {
                    if j > i {
                        assert(lex_lt(ks[i as int], ks[j]));
                        lemma_lex_transitive(name@, ks[i as int], ks[j]);
                    }
                }
                assert forall|j: int| 0 <= j < ks.len() implies ks[j] != name@ by {
                    if j < i {
                        lemma_lex_asymmetric(ks[j], name@);
                    } else {
                        lemma_lex_irreflexive(name@);
                    }
                }
                return (i, false);
            }
            i = i + 1;
        }
        assert forall|j: int| 0 <= j < ks.len() implies ks[j] != name@ by {
            lemma_lex_irreflexive(name@);
        }
        (i, false)
    }

    pub fn contains_key(&self, name: &str) -> (b: bool)
        requires
            self.wf(),
        ensures
            b == self@.contains_key(name@),
    {
        let (i, found) = self.find(name);
        proof {
            lemma_entries_map_domain(self.entries@, name@);
            if found {
                assert(self.entries@[i as int].0@ == name@);
            } else {
                assert forall|j: int| 0 <= j < self.entries@.len() implies #[trigger] self.entries@[j].0@ != name@ by {
                    assert(self.names()[j] == self.entries@[j].0@);
                }
            }
        }
        found
    }

    pub fn get(&self, name: &str) -> (r: Option<&V>)
        requires
            self.wf(),
        ensures
            match r {
                Some(v) => self@.contains_key(name@) && self@[name@] == *v,
                None => !self@.contains_key(name@),
            },
    {
        let (i, found) = self.find(name);
        proof {
            lemma_entries_map_domain(self.entries@, name@);
            if found {
                assert(self.entries@[i as int].0@ == name@);
                lemma_entries_map_index(self.entries@, i as int);
            } else {
                assert forall|j: int| 0 <= j < self.entries@.len() implies #[trigger] self.entries@[j].0@ != name@ by {
                    assert(self.names()[j] == self.entries@[j].0@);
                }
            }
        }
        if found {
            Some(&self.entries[i].1)
        } else {
            None
        }
    }

    /// The entry at a position in name order.
    pub fn entry_at(&self, i: usize) -> (r: (&String, &V))
        requires
            self.wf(),
            i < self.names().len(),
        ensures
            r.0@ == self.names()[i as int],
            *r.1 == self.values()[i as int],
            self@.contains_key(r.0@),
            self@[r.0@] == *r.1,
    {
        proof { lemma_entries_map_index(self.entries@, i as int); }
        let e = &self.entries[i];
        (&e.0, &e.1)
    }

    /// Puts `value` under `name`; gives back the value that stood there before.
    pub fn insert(&mut self, name: String, value: V) -> (old_value: Option<V>)
        requires
            old(self).wf(),
        ensures
            final(self).wf(),
            final(self)@ == old(self)@.insert(name@, value),
            match old_value {
                Some(v) => old(self)@.contains_key(name@) && old(self)@[name@] == v,
                None => !old(self)@.contains_key(name@),
            },
    {
        let (i, found) = self.find(name.as_str());
        let ghost old_e = self.entries@;
        proof { lemma_entries_map_domain(old_e, name@); }
        if found {
            proof {
                assert(old_e[i as int].0@ == name@);
                lemma_entries_map_index(old_e, i as int);
            }
            let mut e = (name, value);
            std::mem::swap(&mut self.entries[i], &mut e);
            proof {
                assert(entry_names(self.entries@) =~= entry_names(old_e));
                lemma_replace_map(old_e, self.entries@, i as int);
            }
            Some(e.1)
        } else {
            proof {
                assert forall|j: int| 0 <= j < old_e.len() implies #[trigger] old_e[j].0@ != name@ by {
                    assert(self.names()[j] == old_e[j].0@);
                }
            }
            self.entries.insert(i, (name, value));
            proof {
                let ne = self.entries@;
                let ks = entry_names(ne);
                assert(ne =~= old_e.insert(i as int, ne[i as int]));
                assert forall|a: int, b: int| 0 <= a < b < ks.len() implies lex_lt(#[trigger] ks[a], #[trigger] ks[b]) by {
                    let oks = entry_names(old_e);
                    if b < i {
                        assert(ks[a] == oks[a] && ks[b] == oks[b]);
                    } else if b == i {
                        assert(ks[a] == oks[a]);
                    } else if a == i {
                        assert(ks[b] == oks[b - 1]);
                    } else if a < i {
                        assert(ks[a] == oks[a] && ks[b] == oks[b - 1]);
                        lemma_lex_transitive(oks[a], name@, oks[b - 1]);
                    } else {
                        assert(ks[a] == oks[a - 1] && ks[b] == oks[b - 1]);
                    }
                }
                lemma_insert_map(old_e, ne, i as int);
            }
            None
        }
    }

    /// Takes the value under `name` out of the map.
    pub fn remove(&mut self, name: &str) -> (r: Option<V>)
        requires
            old(self).wf(),
        ensures
            final(self).wf(),
            final(self)@ == old(self)@.remove(name@),
            match r {
                Some(v) => old(self)@.contains_key(name@) && old(self)@[name@] == v,
                None => !old(self)@.contains_key(name@),
            },
    {
        let (i, found) = self.find(name);
        let ghost old_e = self.entries@;
        proof { lemma_entries_map_domain(old_e, name@); }
        if found {
            proof {
                assert(old_e[i as int].0@ == name@);
                lemma_entries_map_index(old_e, i as int);
            }
            let e = self.entries.remove(i);
            proof {
                let ne = self.entries@;
                assert(ne =~= old_e.remove(i as int));
                assert(old_e =~= ne.insert(i as int, old_e[i as int]));
                let oks = entry_names(old_e);
                let ks = entry_names(ne);
                assert forall|j: int| 0 <= j < ne.len() implies #[trigger] ne[j].0@ != name@ by {
                    if j < i {
                        assert(ne[j] == old_e[j]);
                        assert(lex_lt(oks[j], oks[i as int]));
                        lemma_lex_irreflexive(name@);
                    } else {
                        assert(ne[j] == old_e[j + 1]);
                        assert(lex_lt(oks[i as int], oks[j + 1]));
                        lemma_lex_irreflexive(name@);
                    }
                }
                assert forall|a: int, b: int| 0 <= a < b < ks.len() implies lex_lt(#[trigger] ks[a], #[trigger] ks[b]) by {
                    if b < i {
                        assert(ks[a] == oks[a] && ks[b] == oks[b]);
                    } else if a < i {
                        assert(ks[a] == oks[a] && ks[b] == oks[b + 1]);
                    } else {
                        assert(ks[a] == oks[a + 1] && ks[b] == oks[b + 1]);
                    }
                }
                lemma_insert_map(ne, old_e, i as int);
                lemma_entries_map_domain(ne, name@);
                assert(entries_map(ne) =~= entries_map(old_e).remove(name@));
            }
            Some(e.1)
        } else {
            proof {
                assert forall|j: int| 0 <= j < old_e.len() implies #[trigger] old_e[j].0@ != name@ by {
                    assert(self.names()[j] == old_e[j].0@);
                }
                assert(entries_map(old_e) =~= entries_map(old_e).remove(name@));
            }
            None
        }
    }

    /// Moves every entry of `other` into the map; an entry of `other` replaces one of the same name.
    pub fn append(&mut self, other: NameMap<V>)
        requires
            old(self).wf(),
            other.wf(),
        ensures
            final(self).wf(),
            final(self)@ == old(self)@.union_prefer_right(other@),
    {
        let mut rest = other.entries;
        let ghost target = old(self)@.union_prefer_right(other@);
        while rest.len() > 0
            invariant
                self.wf(),
                sorted_names(entry_names(rest@)),
                self@.union_prefer_right(entries_map(rest@)) == target,
            decreases rest.len(),
        {
            let ghost before = rest@;
            let e = rest.pop().unwrap();
            proof {
                assert(rest@ =~= before.drop_last());
                assert(entry_names(rest@) =~= entry_names(before).drop_last());
                let ks = entry_names(before);
                assert forall|j: int| 0 <= j < rest@.len() implies #[trigger] rest@[j].0@ != e.0@ by {
                    assert(ks[j] == rest@[j].0@);
                    assert(ks[before.len() - 1] == e.0@);
                    lemma_lex_irreflexive(e.0@);
                }
                lemma_entries_map_domain(rest@, e.0@);
            }
            let ghost self_before = self@;
            self.insert(e.0, e.1);
            proof {
                assert(self@.union_prefer_right(entries_map(rest@)) =~= self_before.union_prefer_right(entries_map(before)));
            }
        }
        proof {
            assert(entries_map(rest@) =~= Map::<Seq<char>, V>::empty());
            assert(self@.union_prefer_right(entries_map(rest@)) =~= self@);
        }
    }
}

proof fn lemma_replace_map<V>(old_e: Seq<(String, V)>, new_e: Seq<(String, V)>, i: int)
    requires
        0 <= i < old_e.len(),
        new_e.len() == old_e.len(),
        forall|j: int| 0 <= j < old_e.len() && j != i ==> new_e[j] == old_e[j],
        new_e[i].0@ == old_e[i].0@,
        sorted_names(entry_names(old_e)),
    ensures
        entries_map(new_e) == entries_map(old_e).insert(old_e[i].0@, new_e[i].1),
    decreases old_e.len(),
{
    if i == old_e.len() - 1 {
        assert(new_e.drop_last() =~= old_e.drop_last());
        let m = entries_map(old_e.drop_last());
        assert(entries_map(old_e).insert(old_e[i].0@, new_e[i].1) =~= m.insert(old_e[i].0@, new_e[i].1));
    } else {
        assert(entry_names(old_e.drop_last()) =~= entry_names(old_e).drop_last());
        lemma_replace_map(old_e.drop_last(), new_e.drop_last(), i);
        let ks = entry_names(old_e);
        assert(ks[i] == old_e[i].0@ && ks[old_e.len() - 1] == old_e.last().0@);
        lemma_lex_irreflexive(old_e[i].0@);
        assert(entries_map(new_e) =~= entries_map(old_e).insert(old_e[i].0@, new_e[i].1));
    }
}

proof fn lemma_insert_map<V>(old_e: Seq<(String, V)>, new_e: Seq<(String, V)>, i: int)
    requires
        0 <= i <= old_e.len(),
        new_e =~= old_e.insert(i, new_e[i]),
        forall|j: int| 0 <= j < old_e.len() ==> #[trigger] old_e[j].0@ != new_e[i].0@,
    ensures
        entries_map(new_e) == entries_map(old_e).insert(new_e[i].0@, new_e[i].1),
    decreases old_e.len(),
{
    let k = new_e[i].0@;
    if i == old_e.len() {
        assert(new_e.drop_last() =~= old_e);
    } else {
        assert(new_e.drop_last() =~= old_e.drop_last().insert(i, new_e[i]));
        assert(new_e.drop_last()[i] == new_e[i]);
        lemma_insert_map(old_e.drop_last(), new_e.drop_last(), i);
        assert(old_e.last().0@ != k);
        assert(new_e.last() == old_e.last());
        assert(entries_map(new_e) =~= entries_map(old_e).insert(k, new_e[i].1));
    }
}

} // verus!
