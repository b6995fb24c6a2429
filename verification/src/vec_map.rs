use crate::types::Key;
use vstd::prelude::*;

verus! {

/// The map that a sequence of entries stands for: later entries win.
pub open spec fn map_of<K: View, V>(s: Seq<(K, V)>) -> Map<K::V, V>
    decreases s.len(),
{
    if s.len() == 0 {
        Map::empty()
    } else {
        map_of(s.drop_last()).insert(s.last().0@, s.last().1)
    }
}

/// No key occurs twice among the entries.
pub open spec fn distinct_keys<K: View, V>(s: Seq<(K, V)>) -> bool {
    forall|i: int, j: int| 0 <= i < j < s.len() ==> s[i].0@ != s[j].0@
}

pub proof fn lemma_map_of_dom<K: View, V>(s: Seq<(K, V)>, k: K::V)
    ensures
        map_of(s).dom().finite(),
        map_of(s).dom().contains(k) <==> exists|i: int| 0 <= i < s.len() && s[i].0@ == k,
    decreases s.len(),
{
    if s.len() > 0 {
        let t = s.drop_last();
        lemma_map_of_dom(t, k);
        if map_of(s).dom().contains(k) {
            if s.last().0@ == k {
                assert(s[s.len() - 1].0@ == k);
            } else {
                let i = choose|i: int| 0 <= i < t.len() && t[i].0@ == k;
                assert(s[i].0@ == k);
            }
        }
        if exists|i: int| 0 <= i < s.len() && s[i].0@ == k {
            let i = choose|i: int| 0 <= i < s.len() && s[i].0@ == k;
            if i < s.len() - 1 {
                assert(t[i].0@ == k);
            }
        }
    }
}

pub proof fn lemma_map_of_index<K: View, V>(s: Seq<(K, V)>, i: int)
    requires
        distinct_keys(s),
        0 <= i < s.len(),
    ensures
        map_of(s).dom().contains(s[i].0@),
        map_of(s)[s[i].0@] == s[i].1,
    decreases s.len(),
{
    let t = s.drop_last();
    if i < s.len() - 1 {
        lemma_map_of_index(t, i);
        assert(t[i] == s[i]);
        assert(s[i].0@ != s[s.len() - 1].0@);
    }
}

pub proof fn lemma_map_of_update<K: View, V>(s: Seq<(K, V)>, i: int, k: K, v: V)
    requires
        distinct_keys(s),
        0 <= i < s.len(),
        k@ == s[i].0@,
    ensures
        map_of(s.update(i, (k, v))) == map_of(s).insert(k@, v),
        distinct_keys(s.update(i, (k, v))),
    decreases s.len(),
{
    let u = s.update(i, (k, v));
    let t = s.drop_last();
    if i == s.len() - 1 {
        assert(u.drop_last() == t);
        assert(map_of(u) == map_of(s).insert(k@, v));
    } else {
        lemma_map_of_update(t, i, k, v);
        assert(u.drop_last() == t.update(i, (k, v)));
        assert(s[i].0@ != s[s.len() - 1].0@);
        assert(u.last() == s.last());
        assert(map_of(u) == map_of(s).insert(k@, v));
    }
}

pub proof fn lemma_map_of_remove<K: View, V>(s: Seq<(K, V)>, i: int)
    requires
        distinct_keys(s),
        0 <= i < s.len(),
    ensures
        map_of(s.remove(i)) == map_of(s).remove(s[i].0@),
        distinct_keys(s.remove(i)),
    decreases s.len(),
{
    let k = s[i].0@;
    let u = s.remove(i);
    let t = s.drop_last();
    if i == s.len() - 1 {
        assert(u == t);
        lemma_map_of_dom(t, k);
        assert(!map_of(t).dom().contains(k)) by {
            if exists|j: int| 0 <= j < t.len() && t[j].0@ == k {
                let j = choose|j: int| 0 <= j < t.len() && t[j].0@ == k;
                assert(s[j].0@ == s[i].0@);
            }
        }
        assert(map_of(u) == map_of(s).remove(k));
    } else {
        lemma_map_of_remove(t, i);
        assert(u.drop_last() == t.remove(i));
        assert(u.last() == s.last());
        assert(s[i].0@ != s[s.len() - 1].0@);
        assert(map_of(u) == map_of(s).remove(k));
    }
}

pub proof fn lemma_map_of_len<K: View, V>(s: Seq<(K, V)>)
    requires
        distinct_keys(s),
    ensures
        map_of(s).dom().len() == s.len(),
    decreases s.len(),
{
    if s.len() > 0 {
        let t = s.drop_last();
        lemma_map_of_len(t);
        lemma_map_of_dom(t, s.last().0@);
        assert(!map_of(t).dom().contains(s.last().0@)) by {
            if exists|j: int| 0 <= j < t.len() && t[j].0@ == s.last().0@ {
                let j = choose|j: int| 0 <= j < t.len() && t[j].0@ == s.last().0@;
                assert(s[j].0@ == s[s.len() - 1].0@);
            }
        }
    }
}

/// A finite map from plain keys to values, kept as a list of entries
/// in which no key occurs twice.
#[derive(Debug)]
pub struct VecMap<K: Key, V> {
    entries: Vec<(K, V)>,
}

impl<K: Key, V> View for VecMap<K, V> {
    type V = Map<K::V, V>;

    closed spec fn view(&self) -> Map<K::V, V> {
        map_of(self.entries@)
    }
}

impl<K: Key, V> VecMap<K, V> {
    #[verifier::type_invariant]
    spec fn inv(self) -> bool {
        distinct_keys(self.entries@)
    }

    /// The view of a map is a finite map.
    pub proof fn lemma_finite(self)
        ensures
            self@.dom().finite(),
    {
        if self.entries@.len() == 0 {
            lemma_map_of_dom(self.entries@, arbitrary());
        } else {
            lemma_map_of_dom(self.entries@, self.entries@[0].0@);
        }
    }

    pub fn new() -> (r: Self)
        ensures
            r@ == Map::<K::V, V>::empty(),
    {
        VecMap { entries: Vec::new() }
    }

    fn position(&self, k: &K) -> (r: Option<usize>)
        ensures
            match r {
                Some(i) => i < self.entries@.len() && self.entries@[i as int].0@ == k@,
                None => !self@.dom().contains(k@),
            },
    {
        let mut i: usize = 0;
        while i < self.entries.len()
            invariant
                i <= self.entries@.len(),
                forall|j: int| 0 <= j < i ==> self.entries@[j].0@ != k@,
            decreases self.entries@.len() - i,
        {
            if self.entries[i].0.same(k) {
                return Some(i);
            }
            i += 1;
        }
        proof {
            lemma_map_of_dom(self.entries@, k@);
        }
        None
    }

    pub fn is_empty(&self) -> (r: bool)
        ensures
            r == (self@ == Map::<K::V, V>::empty()),
    {
        proof {
            if self.entries@.len() > 0 {
                lemma_map_of_dom(self.entries@, self.entries@[0].0@);
                assert(self@.dom().contains(self.entries@[0].0@));
            }
        }
        self.entries.len() == 0
    }

    pub fn contains_key(&self, k: &K) -> (r: bool)
        ensures
            r == self@.dom().contains(k@),
    {
        proof {
            lemma_map_of_dom(self.entries@, k@);
        }
        self.position(k).is_some()
    }

    pub fn get(&self, k: &K) -> (r: Option<&V>)
        ensures
            match r {
                Some(v) => self@.dom().contains(k@) && *v == self@[k@],
                None => !self@.dom().contains(k@),
            },
    {
        proof {
            use_type_invariant(self);
        }
        match self.position(k) {
            Some(i) => {
                proof {
                    lemma_map_of_index(self.entries@, i as int);
                }
                Some(&self.entries[i].1)
            },
            None => None,
        }
    }

    pub fn insert(&mut self, k: K, v: V)
        ensures
            final(self)@ == old(self)@.insert(k@, v),
    {
        proof {
            use_type_invariant(&*self);
        }
        let found = self.position(&k);
        let mut entries: Vec<(K, V)> = Vec::new();
        std::mem::swap(&mut entries, &mut self.entries);
        match found {
            Some(i) => {
                proof {
                    lemma_map_of_update(entries@, i as int, k, v);
                }
                entries.set(i, (k, v));
            },
            None => {
                proof {
                    lemma_map_of_dom(entries@, k@);
                    assert(entries@.push((k, v)).drop_last() == entries@);
                }
                entries.push((k, v));
            },
        }
        self.entries = entries;
    }

    pub fn remove(&mut self, k: &K) -> (r: Option<V>)
        ensures
            final(self)@ == old(self)@.remove(k@),
            r == (if old(self)@.dom().contains(k@) {
                Some(old(self)@[k@])
            } else {
                None
            }),
    {
        proof {
            use_type_invariant(&*self);
        }
        match self.position(k) {
            Some(i) => {
                let mut entries: Vec<(K, V)> = Vec::new();
                std::mem::swap(&mut entries, &mut self.entries);
                proof {
                    lemma_map_of_index(entries@, i as int);
                    lemma_map_of_remove(entries@, i as int);
                }
                let e = entries.remove(i);
                self.entries = entries;
                Some(e.1)
            },
            None => {
                assert(self@.remove(k@) == self@);
                None
            },
        }
    }

    /// The entries in the order in which the map keeps them.
    pub closed spec fn items(&self) -> Seq<(K, V)> {
        self.entries@
    }

    /// The number of entries. No key occurs twice among them, and the
    /// map is the one they stand for.
    pub fn len(&self) -> (r: usize)
        ensures
            r == self.items().len(),
            r == self@.dom().len(),
            distinct_keys(self.items()),
            self@ == map_of(self.items()),
    {
        proof {
            use_type_invariant(self);
            lemma_map_of_len(self.entries@);
        }
        self.entries.len()
    }

    /// The entry at a position.
    pub fn entry(&self, i: usize) -> (r: (&K, &V))
        requires
            i < self.items().len(),
        ensures
            *r.0 == self.items()[i as int].0,
            *r.1 == self.items()[i as int].1,
    {
        (&self.entries[i].0, &self.entries[i].1)
    }

    /// Adds the entries of another map; where both have a key, the
    /// other map's value stays.
    pub fn extend_from(&mut self, other: &VecMap<K, V>) where K: Copy, V: Copy
        ensures
            final(self)@ == old(self)@.union_prefer_right(other@),
    {
        let n = other.len();
        let ghost items = other.items();
        let mut i: usize = 0;
        assert(self@ =~= old(self)@.union_prefer_right(map_of(items.take(0))));
        while i < n
            invariant
                i <= n,
                n == items.len(),
                items == other.items(),
                self@ == old(self)@.union_prefer_right(map_of(items.take(i as int))),
            decreases n - i,
        {
            let e = other.entry(i);
            proof {
                assert(items.take(i + 1).drop_last() == items.take(i as int));
            }
            self.insert(*e.0, *e.1);
            i += 1;
            assert(self@ =~= old(self)@.union_prefer_right(map_of(items.take(i as int))));
        }
        assert(items.take(n as int) == items);
    }

    /// A copy of the map.
    pub fn duplicate(&self) -> (r: Self) where K: Copy, V: Copy
        ensures
            r@ == self@,
    {
        let mut r: VecMap<K, V> = VecMap::new();
        r.extend_from(self);
        assert(r@ =~= self@);
        r
    }

    /// Takes some entry out of the map, if it has one.
    pub fn pop(&mut self) -> (r: Option<(K, V)>)
        ensures
            match r {
                Some(e) => old(self)@.dom().contains(e.0@) && old(self)@[e.0@] == e.1
                    && final(self)@ == old(self)@.remove(e.0@),
                None => old(self)@ == Map::<K::V, V>::empty() && final(self)@ == old(self)@,
            },
    {
        proof {
            use_type_invariant(&*self);
        }
        let mut entries: Vec<(K, V)> = Vec::new();
        std::mem::swap(&mut entries, &mut self.entries);
        proof {
            if entries@.len() > 0 {
                lemma_map_of_index(entries@, entries@.len() - 1);
                lemma_map_of_remove(entries@, entries@.len() - 1);
                assert(entries@.remove(entries@.len() - 1) == entries@.drop_last());
            }
        }
        let r = entries.pop();
        self.entries = entries;
        r
    }
}

} // verus!
