//! A verified map from keys to values, backed by a vector of entries with
//! pairwise distinct keys. Its mathematical view is a `Map` from key views to
//! the stored values. The registry's tables — windows, command handlers,
//! resource mounts, the import map and the active extension set — are all
//! instances of it.

use vstd::prelude::*;

verus! {

/// An executable key whose equality test agrees with equality of its view.
pub trait AssocKey: View + Sized {
    fn key_eq(&self, other: &Self) -> (r: bool)
        ensures
            r == (self@ == other@),
    ;
}

impl AssocKey for String {
    fn key_eq(&self, other: &Self) -> (r: bool)
        ensures
            r == (self@ == other@),
    {
        self.eq(other)
    }
}

impl AssocKey for u32 {
    fn key_eq(&self, other: &Self) -> (r: bool)
        ensures
            r == (self@ == other@),
    {
        *self == *other
    }
}

/// No two entries share a key view.
pub open spec fn entry_keys_distinct<K: View, V>(s: Seq<(K, V)>) -> bool {
    forall|i: int, j: int|
        0 <= i < j < s.len() ==> (#[trigger] s[i]).0@ != (#[trigger] s[j]).0@
}

/// The map that a sequence of entries spells, later entries winning.
pub open spec fn map_of<K: View, V>(s: Seq<(K, V)>) -> Map<<K as View>::V, V>
    decreases s.len(),
{
    if s.len() == 0 {
        Map::empty()
    } else {
        map_of(s.drop_last()).insert(s.last().0@, s.last().1)
    }
}

proof fn lemma_map_of_entry<K: View, V>(s: Seq<(K, V)>, i: int)
    requires
        entry_keys_distinct(s),
        0 <= i < s.len(),
    ensures
        map_of(s).dom().contains(s[i].0@),
        map_of(s)[s[i].0@] == s[i].1,
    decreases s.len(),
{
    if i < s.len() - 1 {
        lemma_map_of_entry(s.drop_last(), i);
        assert(s.drop_last()[i] == s[i]);
        assert(s[i].0@ != s.last().0@);
    }
}

proof fn lemma_map_of_dom<K: View, V>(s: Seq<(K, V)>, k: <K as View>::V)
    ensures
        map_of(s).dom().contains(k) <==> exists|i: int| 0 <= i < s.len() && (#[trigger] s[i]).0@ == k,
    decreases s.len(),
{
    if s.len() > 0 {
        lemma_map_of_dom(s.drop_last(), k);
        if s.last().0@ == k {
            assert(s[s.len() - 1].0@ == k);
        } else {
            if exists|i: int| 0 <= i < s.drop_last().len() && (#[trigger] s.drop_last()[i]).0@ == k {
                let i = choose|i: int|
                    0 <= i < s.drop_last().len() && (#[trigger] s.drop_last()[i]).0@ == k;
                assert(s[i].0@ == k);
            }
            if exists|i: int| 0 <= i < s.len() && (#[trigger] s[i]).0@ == k {
                let i = choose|i: int| 0 <= i < s.len() && (#[trigger] s[i]).0@ == k;
                assert(i != s.len() - 1);
                assert(s.drop_last()[i].0@ == k);
            }
        }
    }
}

proof fn lemma_map_of_remove_at<K: View, V>(s: Seq<(K, V)>, i: int)
    requires
        entry_keys_distinct(s),
        0 <= i < s.len(),
    ensures
        entry_keys_distinct(s.remove(i)),
        map_of(s.remove(i)) == map_of(s).remove(s[i].0@),
    decreases s.len(),
{
    let k = s[i].0@;
    assert forall|a: int, b: int| 0 <= a < b < s.remove(i).len() implies (#[trigger] s.remove(
        i,
    )[a]).0@ != (#[trigger] s.remove(i)[b]).0@ by {
        assert(s.remove(i)[a] == if a < i {
            s[a]
        } else {
            s[a + 1]
        });
        assert(s.remove(i)[b] == if b < i {
            s[b]
        } else {
            s[b + 1]
        });
    }
    if i == s.len() - 1 {
        assert(s.remove(i) =~= s.drop_last());
        lemma_map_of_dom(s.drop_last(), k);
        assert(!map_of(s.drop_last()).dom().contains(k));
        assert(map_of(s.drop_last()) =~= map_of(s).remove(k));
    } else {
        lemma_map_of_remove_at(s.drop_last(), i);
        assert(s.remove(i).drop_last() =~= s.drop_last().remove(i));
        assert(s.remove(i).last() == s.last());
        assert(map_of(s.remove(i)) == map_of(s.drop_last().remove(i)).insert(
            s.last().0@,
            s.last().1,
        ));
        assert(s[i].0@ != s.last().0@);
        assert(map_of(s.drop_last()).remove(k).insert(s.last().0@, s.last().1) =~= map_of(
            s.drop_last(),
        ).insert(s.last().0@, s.last().1).remove(k));
    }
}

/// A map from `K` to `V`, with one entry per key.
pub struct AssocMap<K: View, V> {
    entries: Vec<(K, V)>,
}

impl<K: AssocKey, V> View for AssocMap<K, V> {
    type V = Map<<K as View>::V, V>;

    closed spec fn view(&self) -> Self::V {
        map_of(self.entries@)
    }
}

impl<K: AssocKey, V> AssocMap<K, V> {
    /// The map's internal well-formedness: entry keys are pairwise distinct.
    /// Constructors establish it and every operation preserves it.
    pub closed spec fn inv(&self) -> bool {
        entry_keys_distinct(self.entries@)
    }

    /// The entries in storage order: insertion order, a re-inserted key moving
    /// to the end.
    pub closed spec fn kv(&self) -> Seq<(K, V)> {
        self.entries@
    }

    /// An empty map.
    pub fn new() -> (r: Self)
        ensures
            r.inv(),
            r@ == Map::<<K as View>::V, V>::empty(),
            r.kv() == Seq::<(K, V)>::empty(),
    {
        let r = AssocMap { entries: Vec::new() };
        r
    }

    /// The value stored under `k`, if any.
    pub fn get(&self, k: &K) -> (r: Option<&V>)
        requires
            self.inv(),
        ensures
            match r {
                Some(v) => self@.dom().contains(k@) && *v == self@[k@],
                None => !self@.dom().contains(k@),
            },
    {
        let n = self.entries.len();
        let mut i: usize = 0;
        while i < n
            invariant
                i <= n,
                n == self.entries@.len(),
                entry_keys_distinct(self.entries@),
                self@ == map_of(self.entries@),
                forall|j: int| 0 <= j < i ==> (#[trigger] self.entries@[j]).0@ != k@,
            decreases n - i,
        {
            if self.entries[i].0.key_eq(k) {
                proof {
                    lemma_map_of_entry(self.entries@, i as int);
                }
                return Some(&self.entries[i].1);
            }
            i = i + 1;
        }
        proof {
            lemma_map_of_dom(self.entries@, k@);
        }
        None
    }

    /// Whether `k` is present.
    pub fn contains_key(&self, k: &K) -> (r: bool)
        requires
            self.inv(),
        ensures
            r == self@.dom().contains(k@),
    {
        self.get(k).is_some()
    }

    /// Removes the entry stored under `k`, if any.
    pub fn remove(&mut self, k: &K)
        requires
            old(self).inv(),
        ensures
            final(self).inv(),
            final(self)@ == old(self)@.remove(k@),
            final(self)@.dom() == old(self)@.dom().remove(k@),
    {
        let n = self.entries.len();
        let mut i: usize = 0;
        while i < n
            invariant
                i <= n,
                n == self.entries@.len(),
                entry_keys_distinct(self.entries@),
                self == old(self),
                forall|j: int| 0 <= j < i ==> (#[trigger] self.entries@[j]).0@ != k@,
            decreases n - i,
        {
            if self.entries[i].0.key_eq(k) {
                proof {
                    lemma_map_of_remove_at(self.entries@, i as int);
                }
                self.entries.remove(i);
                assert(final(self)@.dom() =~= old(self)@.dom().remove(k@));
                return;
            }
            i = i + 1;
        }
        proof {
            lemma_map_of_dom(self.entries@, k@);
            assert(old(self)@.remove(k@) =~= old(self)@);
            assert(final(self)@.dom() =~= old(self)@.dom().remove(k@));
        }
    }

    /// Stores `v` under `k`, replacing any earlier value.
    pub fn insert(&mut self, k: K, v: V)
        requires
            old(self).inv(),
        ensures
            final(self).inv(),
            final(self)@ == old(self)@.insert(k@, v),
            final(self)@.dom() == old(self)@.dom().insert(k@),
    {
        self.remove(&k);
        proof {
            lemma_map_of_dom(self.entries@, k@);
        }
        let ghost before = self.entries@;
        self.entries.push((k, v));
        proof {
            assert(self.entries@.drop_last() =~= before);
            assert(final(self)@ =~= old(self)@.insert(k@, v));
            assert(final(self)@.dom() =~= old(self)@.dom().insert(k@));
        }
    }

    /// Removes every entry.
    pub fn clear(&mut self)
        ensures
            final(self).inv(),
            final(self)@ == Map::<<K as View>::V, V>::empty(),
            final(self).kv() == Seq::<(K, V)>::empty(),
    {
        self.entries.clear();
    }

    /// How many entries the map holds; their keys are pairwise distinct, each
    /// stands in the map's domain with its stored value, and every domain
    /// element is some entry's key.
    pub fn num_entries(&self) -> (r: usize)
        requires
            self.inv(),
        ensures
            r == self.kv().len(),
            entry_keys_distinct(self.kv()),
            forall|i: int|
                0 <= i < self.kv().len() ==> self@.dom().contains((#[trigger] self.kv()[i]).0@)
                    && self@[self.kv()[i].0@] == self.kv()[i].1,
            forall|k: <K as View>::V| #[trigger]
                self@.dom().contains(k) ==> exists|i: int|
                    0 <= i < self.kv().len() && (#[trigger] self.kv()[i]).0@ == k,
    {
        proof {
            assert forall|i: int| 0 <= i < self.kv().len() implies self@.dom().contains(
                (#[trigger] self.kv()[i]).0@,
            ) && self@[self.kv()[i].0@] == self.kv()[i].1 by {
                lemma_map_of_entry(self.entries@, i);
            }
            assert forall|k: <K as View>::V| #[trigger] self@.dom().contains(k) implies exists|
                i: int,
            |
                0 <= i < self.kv().len() && (#[trigger] self.kv()[i]).0@ == k by {
                lemma_map_of_dom(self.entries@, k);
                let i = choose|i: int|
                    0 <= i < self.entries@.len() && (#[trigger] self.entries@[i]).0@ == k;
                assert(0 <= i < self.kv().len() && self.kv()[i].0@ == k);
            }
        }
        self.entries.len()
    }


    /// Removes the entry stored under `k` and hands its value back.
    pub fn take(&mut self, k: &K) -> (r: Option<V>)
        requires
            old(self).inv(),
        ensures
            final(self).inv(),
            final(self)@ == old(self)@.remove(k@),
            match r {
                Some(v) => old(self)@.dom().contains(k@) && v == old(self)@[k@],
                None => !old(self)@.dom().contains(k@),
            },
    {
        let n = self.entries.len();
        let mut i: usize = 0;
        while i < n
            invariant
                i <= n,
                n == self.entries@.len(),
                entry_keys_distinct(self.entries@),
                self == old(self),
                forall|j: int| 0 <= j < i ==> (#[trigger] self.entries@[j]).0@ != k@,
            decreases n - i,
        {
            if self.entries[i].0.key_eq(k) {
                proof {
                    lemma_map_of_entry(self.entries@, i as int);
                    lemma_map_of_remove_at(self.entries@, i as int);
                }
                let entry = self.entries.remove(i);
                return Some(entry.1);
            }
            i = i + 1;
        }
        proof {
            lemma_map_of_dom(self.entries@, k@);
            assert(old(self)@.remove(k@) =~= old(self)@);
        }
        None
    }

    /// Whether the map holds no entry.
    pub fn is_empty(&self) -> (r: bool)
        requires
            self.inv(),
        ensures
            r == (self@.dom() =~= Set::<<K as View>::V>::empty()),
            r == (self.kv().len() == 0),
    {
        proof {
            if self.entries@.len() > 0 {
                lemma_map_of_entry(self.entries@, 0);
            }
        }
        self.entries.is_empty()
    }

    /// The map is what its entries spell.
    pub proof fn lemma_view_of_kv(&self)
        ensures
            self@ == map_of(self.kv()),
    {
    }

    /// The entry at position `i` of the storage order.
    pub fn entry_at(&self, i: usize) -> (r: &(K, V))
        requires
            self.inv(),
            i < self.kv().len(),
        ensures
            *r == self.kv()[i as int],
            self@.dom().contains(r.0@),
            self@[r.0@] == r.1,
    {
        proof {
            lemma_map_of_entry(self.entries@, i as int);
        }
        &self.entries[i]
    }
}

impl<K: AssocKey + Copy, V> AssocMap<K, V> {
    /// The keys in storage order: exactly the map's domain, without repeats.
    pub fn keys(&self) -> (r: Vec<K>)
        requires
            self.inv(),
        ensures
            r@.len() == self.kv().len(),
            forall|i: int| 0 <= i < r@.len() ==> r@[i] == (#[trigger] self.kv()[i]).0,
            forall|i: int| 0 <= i < r@.len() ==> self@.dom().contains((#[trigger] r@[i])@),
            forall|k: <K as View>::V| #[trigger]
                self@.dom().contains(k) ==> exists|i: int|
                    0 <= i < r@.len() && (#[trigger] r@[i])@ == k,
            forall|i: int, j: int| 0 <= i < j < r@.len() ==> (#[trigger] r@[i])@ != (#[trigger] r@[j])@,
    {
        let n = self.entries.len();
        let mut out: Vec<K> = Vec::new();
        let mut i: usize = 0;
        while i < n
            invariant
                i <= n,
                n == self.entries@.len(),
                self.kv() == self.entries@,
                out@.len() == i,
                forall|j: int| 0 <= j < i ==> out@[j] == (#[trigger] self.entries@[j]).0,
            decreases n - i,
        {
            out.push(self.entries[i].0);
            i = i + 1;
        }
        proof {
            assert forall|j: int| 0 <= j < out@.len() implies self@.dom().contains(
                (#[trigger] out@[j])@,
            ) by {
                assert(out@[j] == self.entries@[j].0);
                lemma_map_of_entry(self.entries@, j);
            }
            assert forall|k: <K as View>::V| #[trigger] self@.dom().contains(k) implies exists|
                j: int,
            | 0 <= j < out@.len() && (#[trigger] out@[j])@ == k by {
                lemma_map_of_dom(self.entries@, k);
                let j = choose|j: int|
                    0 <= j < self.entries@.len() && (#[trigger] self.entries@[j]).0@ == k;
                assert(out@[j] == self.entries@[j].0);
                assert(0 <= j < out@.len() && (out@[j])@ == k);
            }
            assert forall|a: int, b: int| 0 <= a < b < out@.len() implies (#[trigger] out@[a])@ != (
            #[trigger] out@[b])@ by {
                assert(out@[a] == self.entries@[a].0);
                assert(out@[b] == self.entries@[b].0);
            }
        }
        out
    }
}

} // verus!
