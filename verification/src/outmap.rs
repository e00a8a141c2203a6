//! Maps from output file paths to what produces them
use vstd::prelude::*;

use crate::text::str_eq;

verus! {

/// A value that can be copied with its content intact
pub trait Duplicate: View + Sized {
    /// An equal copy
    fn duplicate(&self) -> (r: Self)
        ensures
            r@ == self@,
    ;
}

/// No two pairs of `s` have the same key.
pub open spec fn keys_distinct<V>(s: Seq<(String, V)>) -> bool {
    forall|i: int, j: int| 0 <= i < s.len() && 0 <= j < s.len() && i != j ==> #[trigger] s[i].0@ != #[trigger] s[j].0@
}

/// Some pair of `s` has the key `k`.
pub open spec fn has_key<V>(s: Seq<(String, V)>, k: Seq<char>) -> bool {
    exists|i: int| 0 <= i < s.len() && #[trigger] s[i].0@ == k
}

/// The position of the pair with key `k` in `s`.
pub open spec fn key_index<V>(s: Seq<(String, V)>, k: Seq<char>) -> int {
    choose|i: int| 0 <= i < s.len() && #[trigger] s[i].0@ == k
}

/// The map from keys to entry contents that the pairs of `s` describe.
pub open spec fn pairs_map<V: View>(s: Seq<(String, V)>) -> Map<Seq<char>, V::V> {
    Map::new(|k: Seq<char>| has_key(s, k), |k: Seq<char>| s[key_index(s, k)].1@)
}

/// The pairs of `s` as plain values, in order.
pub open spec fn pairs_view<V: View>(s: Seq<(String, V)>) -> Seq<(Seq<char>, V::V)> {
    s.map_values(|p: (String, V)| (p.0@, p.1@))
}

/// A map from output file path to the command or entry that produces it, kept
/// in the order the outputs were first inserted
#[derive(Debug)]
pub struct OutputMap<V> {
    entries: Vec<(String, V)>,
}

impl<V: View> View for OutputMap<V> {
    type V = Map<Seq<char>, V::V>;

    closed spec fn view(&self) -> Map<Seq<char>, V::V> {
        pairs_map(self.entries@)
    }
}

impl<V: Duplicate> OutputMap<V> {
    /// No two entries have the same output file.
    pub closed spec fn wf(&self) -> bool {
        keys_distinct(self.entries@)
    }

    /// The entries in the order they are written out.
    pub closed spec fn ordered(&self) -> Seq<(Seq<char>, V::V)> {
        pairs_view(self.entries@)
    }

    /// The written order lists each entry of the map once.
    pub proof fn lemma_ordered(&self)
        requires
            self.wf(),
        ensures
            self.ordered().len() == self@.dom().len(),
            self@.dom().finite(),
            forall|i: int| 0 <= i < self.ordered().len() ==> self@.contains_key(#[trigger] self.ordered()[i].0)
                && self@[self.ordered()[i].0] == self.ordered()[i].1,
            forall|i: int, j: int| 0 <= i < self.ordered().len() && 0 <= j < self.ordered().len() && i != j
                ==> #[trigger] self.ordered()[i].0 != #[trigger] self.ordered()[j].0,
            forall|k: Seq<char>| self@.contains_key(k) ==> exists|i: int| 0 <= i < self.ordered().len() && #[trigger] self.ordered()[i].0 == k,
    {
        let s = self.entries@;
        let o = self.ordered();
        assert forall|i: int| 0 <= i < o.len() implies self@.contains_key(#[trigger] o[i].0) && self@[o[i].0] == o[i].1 by {
            assert(s[i].0@ == o[i].0);
            assert(has_key(s, o[i].0));
            let j = key_index(s, o[i].0);
            assert(s[j].0@ == s[i].0@);
        }
        assert forall|k: Seq<char>| self@.contains_key(k) implies exists|i: int| 0 <= i < o.len() && #[trigger] o[i].0 == k by {
            let i = key_index(s, k);
            assert(o[i].0 == k);
        }
        let keys = o.map_values(|p: (Seq<char>, V::V)| p.0);
        assert(keys.no_duplicates()) by {
            assert forall|i: int, j: int| 0 <= i < keys.len() && 0 <= j < keys.len() && i != j implies keys[i] != keys[j] by {
                assert(s[i].0@ != s[j].0@);
            }
        }
        assert(keys.to_set() =~= self@.dom()) by {
            assert forall|k: Seq<char>| keys.to_set().contains(k) implies self@.dom().contains(k) by {
                let i = choose|i: int| 0 <= i < keys.len() && keys[i] == k;
                assert(o[i].0 == k);
            }
            assert forall|k: Seq<char>| self@.dom().contains(k) implies keys.to_set().contains(k) by {
                let i = key_index(s, k);
                assert(keys[i] == k);
            }
        }
        keys.unique_seq_to_set();
    }

    /// An empty map
    pub fn new() -> (r: Self)
        ensures
            r.wf(),
            r@ == Map::<Seq<char>, V::V>::empty(),
            r.ordered().len() == 0,
    {
        let r = OutputMap { entries: Vec::new() };
        assert(r@ =~= Map::<Seq<char>, V::V>::empty());
        r
    }

    /// Number of entries
    pub fn len(&self) -> (r: usize)
        requires
            self.wf(),
        ensures
            r == self@.dom().len(),
    {
        proof {
            self.lemma_ordered();
        }
        self.entries.len()
    }

    fn position(&self, output: &str) -> (r: Option<usize>)
        ensures
            match r {
                Some(i) => i < self.entries@.len() && self.entries@[i as int].0@ == output@,
                None => !has_key(self.entries@, output@),
            },
    {
        let mut i: usize = 0;
        while i < self.entries.len()
            invariant
                i <= self.entries@.len(),
                forall|j: int| 0 <= j < i ==> self.entries@[j].0@ != output@,
            decreases self.entries@.len() - i,
        {
            if str_eq(self.entries[i].0.as_str(), output) {
                return Some(i);
            }
            i += 1;
        }
        None
    }

    /// The entry for the output file `output`
    pub fn get(&self, output: &str) -> (r: Option<&V>)
        requires
            self.wf(),
        ensures
            match r {
                Some(e) => self@.contains_key(output@) && self@[output@] == e@,
                None => !self@.contains_key(output@),
            },
    {
        match self.position(output) {
            Some(i) => {
                proof {
                    let j = key_index(self.entries@, output@);
                    assert(self.entries@[j].0@ == output@);
                }
                Some(&self.entries[i].1)
            },
            None => None,
        }
    }

    /// Set the entry for the output file `output`
    pub fn insert(&mut self, output: String, entry: V)
        requires
            old(self).wf(),
        ensures
            final(self).wf(),
            final(self)@ == old(self)@.insert(output@, entry@),
    {
        let ghost old_s = self.entries@;
        let ghost k = output@;
        let ghost v = entry@;
        match self.position(output.as_str()) {
            Some(i) => {
                self.entries.set(i, (output, entry));
                let ghost s = self.entries@;
                assert(keys_distinct(s)) by {
                    assert forall|a: int, b: int| 0 <= a < s.len() && 0 <= b < s.len() && a != b implies #[trigger] s[a].0@ != #[trigger] s[b].0@ by {
                        if a == i {
                            assert(old_s[b].0@ != old_s[i as int].0@);
                        } else if b == i {
                            assert(old_s[a].0@ != old_s[i as int].0@);
                        } else {
                            assert(old_s[a] == s[a] && old_s[b] == s[b]);
                        }
                    }
                }
                assert(pairs_map(s) =~= pairs_map(old_s).insert(k, v)) by {
                    assert forall|q: Seq<char>| #[trigger] has_key(s, q) == (has_key(old_s, q) || q == k) by {
                        if has_key(old_s, q) {
                            let a = choose|a: int| 0 <= a < old_s.len() && #[trigger] old_s[a].0@ == q;
                            if a != i {
                                assert(s[a] == old_s[a]);
                            } else {
                                assert(s[a].0@ == k);
                            }
                        }
                        if has_key(s, q) {
                            let a = choose|a: int| 0 <= a < s.len() && #[trigger] s[a].0@ == q;
                            if a != i {
                                assert(old_s[a] == s[a]);
                            }
                        }
                        if q == k {
                            assert(s[i as int].0@ == q);
                        }
                    }
                    assert forall|q: Seq<char>| has_key(s, q) implies pairs_map(s)[q] == pairs_map(old_s).insert(k, v)[q] by {
                        let a = key_index(s, q);
                        if q == k {
                            assert(s[i as int].0@ == q);
                        } else {
                            let b = key_index(old_s, q);
                            assert(b != i);
                            assert(s[b] == old_s[b]);
                        }
                    }
                }
            },
            None => {
                self.entries.push((output, entry));
                let ghost s = self.entries@;
                assert(keys_distinct(s)) by {
                    assert forall|a: int, b: int| 0 <= a < s.len() && 0 <= b < s.len() && a != b implies #[trigger] s[a].0@ != #[trigger] s[b].0@ by {
                        if a < old_s.len() && b < old_s.len() {
                            assert(old_s[a] == s[a] && old_s[b] == s[b]);
                        } else if a < old_s.len() {
                            assert(old_s[a] == s[a]);
                        } else {
                            assert(old_s[b] == s[b]);
                        }
                    }
                }
                assert(pairs_map(s) =~= pairs_map(old_s).insert(k, v)) by {
                    assert forall|q: Seq<char>| #[trigger] has_key(s, q) == (has_key(old_s, q) || q == k) by {
                        if has_key(old_s, q) {
                            let a = choose|a: int| 0 <= a < old_s.len() && #[trigger] old_s[a].0@ == q;
                            assert(s[a] == old_s[a]);
                        }
                        if has_key(s, q) {
                            let a = choose|a: int| 0 <= a < s.len() && #[trigger] s[a].0@ == q;
                            if a < old_s.len() {
                                assert(old_s[a] == s[a]);
                            }
                        }
                        if q == k {
                            assert(s[old_s.len() as int].0@ == q);
                        }
                    }
                    assert forall|q: Seq<char>| has_key(s, q) implies pairs_map(s)[q] == pairs_map(old_s).insert(k, v)[q] by {
                        let a = key_index(s, q);
                        if q == k {
                            if a < old_s.len() {
                                assert(old_s[a] == s[a]);
                            }
                        } else {
                            let b = key_index(old_s, q);
                            assert(s[b] == old_s[b]);
                            if a != b {
                                assert(s[a].0@ != s[b].0@);
                            }
                        }
                    }
                }
            },
        }
    }
}

/// The map built by inserting the pairs of `s` in order (a later pair replaces
/// an earlier one with the same key).
pub open spec fn inserted_pairs<W>(s: Seq<(Seq<char>, W)>) -> Map<Seq<char>, W>
    decreases s.len(),
{
    if s.len() == 0 {
        Map::empty()
    } else {
        inserted_pairs(s.drop_last()).insert(s.last().0, s.last().1)
    }
}

/// Inserting the next pair of a list with distinct keys extends the map of its prefix.
proof fn lemma_pairs_map_take<V: View>(s: Seq<(String, V)>, i: int)
    requires
        keys_distinct(s),
        0 <= i < s.len(),
    ensures
        pairs_map(s.take(i + 1)) == pairs_map(s.take(i)).insert(s[i].0@, s[i].1@),
{
    let a = s.take(i + 1);
    let b = s.take(i);
    assert forall|q: Seq<char>| #[trigger] has_key(a, q) == (has_key(b, q) || q == s[i].0@) by {
        if has_key(b, q) {
            let j = choose|j: int| 0 <= j < b.len() && #[trigger] b[j].0@ == q;
            assert(a[j] == b[j]);
        }
        if has_key(a, q) {
            let j = choose|j: int| 0 <= j < a.len() && #[trigger] a[j].0@ == q;
            if j < i {
                assert(b[j] == a[j]);
            }
        }
        if q == s[i].0@ {
            assert(a[i].0@ == q);
        }
    }
    assert forall|q: Seq<char>| has_key(a, q) implies pairs_map(a)[q] == pairs_map(b).insert(s[i].0@, s[i].1@)[q] by {
        let x = key_index(a, q);
        if q == s[i].0@ {
            if x != i {
                assert(s[x].0@ != s[i].0@);
            }
        } else {
            let y = key_index(b, q);
            assert(a[y] == b[y]);
            if x != y {
                assert(s[x].0@ != s[y].0@);
            }
        }
    }
    assert(pairs_map(a) =~= pairs_map(b).insert(s[i].0@, s[i].1@));
}

impl<V: Duplicate> OutputMap<V> {
    /// The pairs of output file and entry, in the written order
    pub fn pairs(&self) -> (r: &Vec<(String, V)>)
        ensures
            pairs_view(r@) == self.ordered(),
    {
        &self.entries
    }

    /// A map from pairs of output file and entry; a later pair replaces an
    /// earlier one with the same output file
    pub fn from_pairs(pairs: Vec<(String, V)>) -> (r: Self)
        ensures
            r.wf(),
            r@ == inserted_pairs(pairs_view(pairs@)),
    {
        let mut db = OutputMap::new();
        let mut i: usize = 0;
        let ghost pv = pairs_view(pairs@);
        while i < pairs.len()
            invariant
                i <= pairs@.len(),
                pv == pairs_view(pairs@),
                db.wf(),
                db@ == inserted_pairs(pv.take(i as int)),
            decreases pairs@.len() - i,
        {
            let k = pairs[i].0.clone();
            let e = pairs[i].1.duplicate();
            db.insert(k, e);
            assert(pv.take(i + 1).drop_last() =~= pv.take(i as int));
            i += 1;
        }
        assert(pv.take(pairs@.len() as int) =~= pv);
        db
    }

    /// Merge with an old map. Where both have an entry for an output file,
    /// keep the new one (the one currently in self)
    pub fn merge_old(&mut self, old_db: OutputMap<V>)
        requires
            old(self).wf(),
            old_db.wf(),
        ensures
            final(self).wf(),
            final(self)@ == old_db@.union_prefer_right(old(self)@),
    {
        let ghost new_s = self.entries@;
        let mut merged = old_db;
        let mut i: usize = 0;
        assert(pairs_map(new_s.take(0)) =~= Map::<Seq<char>, V::V>::empty());
        assert(merged@ =~= old_db@.union_prefer_right(pairs_map(new_s.take(0))));
        while i < self.entries.len()
            invariant
                i <= self.entries@.len(),
                self.entries@ == new_s,
                keys_distinct(new_s),
                merged.wf(),
                merged@ == old_db@.union_prefer_right(pairs_map(new_s.take(i as int))),
            decreases self.entries@.len() - i,
        {
            let k = self.entries[i].0.clone();
            let e = self.entries[i].1.duplicate();
            merged.insert(k, e);
            proof {
                lemma_pairs_map_take(new_s, i as int);
            }
            assert(merged@ =~= old_db@.union_prefer_right(pairs_map(new_s.take(i + 1))));
            i += 1;
        }
        assert(new_s.take(new_s.len() as int) =~= new_s);
        *self = merged;
    }

}

impl<V: Duplicate> OutputMap<V> {
    /// Take out the entry for the output file `output`
    pub fn remove(&mut self, output: &str) -> (r: Option<V>)
        requires
            old(self).wf(),
        ensures
            final(self).wf(),
            final(self)@ == old(self)@.remove(output@),
            match r {
                Some(v) => old(self)@.contains_key(output@) && old(self)@[output@] == v@,
                None => !old(self)@.contains_key(output@),
            },
    {
        let ghost old_s = self.entries@;
        let ghost k = output@;
        match self.position(output) {
            None => {
                assert(pairs_map(old_s).remove(k) =~= pairs_map(old_s));
                None
            },
            Some(i) => {
                let (_, v) = self.entries.remove(i);
                let ghost s = self.entries@;
                proof {
                    let j = key_index(old_s, k);
                    if j != i {
                        assert(old_s[j].0@ != old_s[i as int].0@);
                    }
                    assert forall|a: int| 0 <= a < s.len() implies #[trigger] s[a] == (if a < i { old_s[a] } else { old_s[a + 1] }) by {}
                    assert(keys_distinct(s)) by {
                        assert forall|a: int, b: int| 0 <= a < s.len() && 0 <= b < s.len() && a != b implies #[trigger] s[a].0@ != #[trigger] s[b].0@ by {
                            let a2 = if a < i { a } else { a + 1 };
                            let b2 = if b < i { b } else { b + 1 };
                            assert(s[a] == old_s[a2] && s[b] == old_s[b2]);
                        }
                    }
                    assert forall|q: Seq<char>| #[trigger] has_key(s, q) == (has_key(old_s, q) && q != k) by {
                        if has_key(s, q) {
                            let a = choose|a: int| 0 <= a < s.len() && #[trigger] s[a].0@ == q;
                            let a2 = if a < i { a } else { a + 1 };
                            assert(s[a] == old_s[a2]);
                            assert(a2 != i);
                            assert(old_s[a2].0@ != old_s[i as int].0@);
                        }
                        if has_key(old_s, q) && q != k {
                            let a = choose|a: int| 0 <= a < old_s.len() && #[trigger] old_s[a].0@ == q;
                            assert(a != i);
                            let a2 = if a < i { a } else { a - 1 };
                            assert(s[a2] == old_s[a]);
                        }
                    }
                    assert forall|q: Seq<char>| has_key(s, q) implies pairs_map(s)[q] == pairs_map(old_s).remove(k)[q] by {
                        let a = key_index(s, q);
                        let a2 = if a < i { a } else { a + 1 };
                        assert(s[a] == old_s[a2]);
                        let b = key_index(old_s, q);
                        if a2 != b {
                            assert(old_s[a2].0@ != old_s[b].0@);
                        }
                    }
                    assert(pairs_map(s) =~= pairs_map(old_s).remove(k));
                }
                Some(v)
            },
        }
    }
}


/// What is recorded under an output is what a later lookup of that output
/// finds, and other outputs keep what they had.
pub proof fn lemma_insert_then_get<V>(m: Map<Seq<char>, V>, k: Seq<char>, v: V, other: Seq<char>)
    ensures
        m.insert(k, v).contains_key(k),
        m.insert(k, v)[k] == v,
        other != k ==> (m.insert(k, v).contains_key(other) == m.contains_key(other)),
        other != k && m.contains_key(other) ==> m.insert(k, v)[other] == m[other],
{
}

/// Merging an older database keeps every entry of the newer one, and adds the
/// entries of outputs only the older one has.
pub proof fn lemma_merge_keeps_new<V>(older: Map<Seq<char>, V>, newer: Map<Seq<char>, V>, k: Seq<char>)
    ensures
        newer.contains_key(k) ==> older.union_prefer_right(newer).contains_key(k)
            && older.union_prefer_right(newer)[k] == newer[k],
        !newer.contains_key(k) && older.contains_key(k) ==> older.union_prefer_right(newer).contains_key(k)
            && older.union_prefer_right(newer)[k] == older[k],
        !newer.contains_key(k) && !older.contains_key(k) ==> !older.union_prefer_right(newer).contains_key(k),
{
}

/// An output that was removed is no longer found.
pub proof fn lemma_remove_then_get<V>(m: Map<Seq<char>, V>, k: Seq<char>)
    ensures
        !m.remove(k).contains_key(k),
{
}

} // verus!
