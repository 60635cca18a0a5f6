//! A small map from keys to values, kept as a list of entries in
//! which no key occurs twice.

use vstd::prelude::*;

verus! {

/// What a [`Table`] asks of its keys: that two of them can be told apart.
pub trait Key: View + Sized {
    /// Whether the two keys are the same key.
    fn same(&self, other: &Self) -> (r: bool)
        ensures
            r == (self@ == other@),
    ;
}

/// The map that a list of entries stands for. Where a key occurs more
/// than once, the entry nearest to the end counts.
pub open spec fn to_map<K: View, V: View>(s: Seq<(K, V)>) -> Map<K::V, V::V>
    decreases s.len(),
{
    if s.len() == 0 {
        Map::empty()
    } else {
        to_map(s.drop_last()).insert(s.last().0@, s.last().1@)
    }
}

/// No key occurs in two entries.
pub open spec fn distinct_keys<K: View, V: View>(s: Seq<(K, V)>) -> bool {
    forall|i: int, j: int| 0 <= i < j < s.len() ==> (#[trigger] s[i]).0@ != (#[trigger] s[j]).0@
}

/// A key that no entry has is not in the map.
pub proof fn lemma_absent<K: View, V: View>(s: Seq<(K, V)>, k: K::V)
    requires
        forall|j: int| 0 <= j < s.len() ==> (#[trigger] s[j]).0@ != k,
    ensures
        !to_map(s).contains_key(k),
    decreases s.len(),
{
    if s.len() > 0 {
        lemma_absent(s.drop_last(), k);
    }
}

/// The map holds, under the key of an entry, the value of that entry.
pub proof fn lemma_present<K: View, V: View>(s: Seq<(K, V)>, i: int)
    requires
        distinct_keys(s),
        0 <= i < s.len(),
    ensures
        to_map(s).contains_key(s[i].0@),
        to_map(s)[s[i].0@] == s[i].1@,
    decreases s.len(),
{
    if i < s.len() - 1 {
        assert(s.drop_last()[i] == s[i]);
        lemma_present(s.drop_last(), i);
    }
}

/// Writing a new value into the entry of a key is the map's `insert`.
pub proof fn lemma_replace<K: View, V: View>(s: Seq<(K, V)>, i: int, e: (K, V))
    requires
        distinct_keys(s),
        0 <= i < s.len(),
        e.0@ == s[i].0@,
    ensures
        distinct_keys(s.update(i, e)),
        to_map(s.update(i, e)) == to_map(s).insert(e.0@, e.1@),
    decreases s.len(),
{
    let t = s.update(i, e);
    assert forall|a: int, b: int| 0 <= a < b < t.len() implies (#[trigger] t[a]).0@ != (
    #[trigger] t[b]).0@ by {
        assert(t[a].0@ == s[a].0@);
        assert(t[b].0@ == s[b].0@);
    }
    if i == s.len() - 1 {
        assert(t.drop_last() == s.drop_last());
        assert(to_map(t) == to_map(s).insert(e.0@, e.1@));
    } else {
        assert(t.drop_last() == s.drop_last().update(i, e));
        assert(s.drop_last()[i] == s[i]);
        lemma_replace(s.drop_last(), i, e);
        assert(s.last().0@ != e.0@);
        assert(t.last() == s.last());
        assert(to_map(t) == to_map(s).insert(e.0@, e.1@));
    }
}

/// Without a key in two entries, the map has as many keys as there
/// are entries.
pub proof fn lemma_count<K: View, V: View>(s: Seq<(K, V)>)
    requires
        distinct_keys(s),
    ensures
        to_map(s).dom().finite(),
        to_map(s).dom().len() == s.len(),
    decreases s.len(),
{
    if s.len() > 0 {
        let front = s.drop_last();
        assert forall|i: int, j: int| 0 <= i < j < front.len() implies (#[trigger] front[i]).0@
            != (#[trigger] front[j]).0@ by {
            assert(front[i] == s[i]);
            assert(front[j] == s[j]);
        }
        lemma_count(front);
        assert forall|j: int| 0 <= j < front.len() implies (#[trigger] front[j]).0@
            != s.last().0@ by {
            assert(front[j] == s[j]);
        }
        lemma_absent(front, s.last().0@);
        assert(to_map(s).dom() =~= to_map(front).dom().insert(s.last().0@));
    } else {
        assert(to_map(s).dom() =~= Set::<K::V>::empty());
    }
}

/// A map from keys to values.
///
/// Nothing is ever taken out of it. Putting a value under a key that
/// is there already replaces the value.
#[derive(Debug)]
pub struct Table<K: Key, V: View> {
    entries: Vec<(K, V)>,
}

impl<K: Key, V: View> View for Table<K, V> {
    type V = Map<K::V, V::V>;

    closed spec fn view(&self) -> Map<K::V, V::V> {
        to_map(self.entries@)
    }
}

impl<K: Key, V: View> Table<K, V> {
    #[verifier::type_invariant]
    spec fn inv(&self) -> bool {
        distinct_keys(self.entries@)
    }

    /// The table without entries.
    pub fn new() -> (r: Self)
        ensures
            r@ == Map::<K::V, V::V>::empty(),
            r.entries() == Seq::<(K, V)>::empty(),
    {
        Table { entries: Vec::new() }
    }

    /// Where the entry of `key` is, if there is one.
    fn position(&self, key: &K) -> (r: Option<usize>)
        ensures
            match r {
                Some(i) => i < self.entries.len() && self.entries[i as int].0@ == key@,
                None => forall|j: int|
                    0 <= j < self.entries.len() ==> (#[trigger] self.entries[j]).0@ != key@,
            },
    {
        let mut i: usize = 0;
        while i < self.entries.len()
            invariant
                i <= self.entries.len(),
                forall|j: int| 0 <= j < i ==> (#[trigger] self.entries[j]).0@ != key@,
            decreases self.entries.len() - i,
        {
            if self.entries[i].0.same(key) {
                return Some(i);
            }
            i = i + 1;
        }
        None
    }

    /// The value under `key`, if there is one.
    pub fn get(&self, key: &K) -> (r: Option<&V>)
        ensures
            match r {
                Some(v) => self@.contains_key(key@) && self@[key@] == v@,
                None => !self@.contains_key(key@),
            },
    {
        proof {
            use_type_invariant(self);
        }
        match self.position(key) {
            Some(i) => {
                proof {
                    lemma_present(self.entries@, i as int);
                }
                Some(&self.entries[i].1)
            },
            None => {
                proof {
                    lemma_absent(self.entries@, key@);
                }
                None
            },
        }
    }

    /// Puts `value` under `key`, in place of what was there. A key
    /// that was there keeps its place among the entries; a new one
    /// comes last.
    pub fn insert(&mut self, key: K, value: V)
        ensures
            final(self)@ == old(self)@.insert(key@, value@),
            !old(self)@.contains_key(key@) ==> final(self).entries() == old(self).entries().push(
                (key, value),
            ),
            old(self)@.contains_key(key@) ==> exists|i: int|
                0 <= i < old(self).entries().len() && (#[trigger] old(self).entries()[i]).0@
                    == key@ && final(self).entries() == old(self).entries().update(
                    i,
                    (key, value),
                ),
    {
        proof {
            use_type_invariant(&*self);
        }
        let found = self.position(&key);
        proof {
            match found {
                Some(i) => lemma_present(self.entries@, i as int),
                None => lemma_absent(self.entries@, key@),
            }
        }
        let mut taken = Table { entries: Vec::new() };
        std::mem::swap(self, &mut taken);
        let mut entries = taken.entries;
        match found {
            Some(i) => {
                proof {
                    lemma_replace(entries@, i as int, (key, value));
                }
                entries.set(i, (key, value));
                assert(old(self).entries()[i as int].0@ == key@);
                assert(entries@ == old(self).entries().update(i as int, (key, value)));
            },
            None => {
                assert(entries@.push((key, value)).drop_last() == entries@);
                entries.push((key, value));
            },
        }
        self.entries = entries;
    }

    /// How many keys have a value.
    pub fn len(&self) -> (r: usize)
        ensures
            r == self.entries().len(),
            r == self@.dom().len(),
            self@.dom().finite(),
    {
        proof {
            use_type_invariant(self);
            lemma_count(self.entries@);
        }
        self.entries.len()
    }

    /// The entries, in the order in which their keys first came.
    pub closed spec fn entries(&self) -> Seq<(K, V)> {
        self.entries@
    }

    /// The entry at `index`: one of the keys, with its value. Each
    /// index below [`Table::len`] has another key.
    pub fn entry(&self, index: usize) -> (r: &(K, V))
        requires
            index < self.entries().len(),
        ensures
            *r == self.entries()[index as int],
            self@.contains_key(r.0@),
            self@[r.0@] == r.1@,
            distinct_keys(self.entries()),
    {
        proof {
            use_type_invariant(self);
            lemma_present(self.entries@, index as int);
        }
        &self.entries[index]
    }
}

} // verus!
