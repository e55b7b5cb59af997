//! A map from texts to values, kept in the order in which the keys came.

use crate::text::str_eq;
use vstd::prelude::*;
use vstd::string::*;

verus! {

/// A map from texts to values.
#[derive(Debug)]
pub struct TextMap<V> {
    entries: Vec<(String, V)>,
}

/// Position of the entry with the key; the length where there is none.
pub open spec fn position_of(keys: Seq<Seq<char>>, key: Seq<char>) -> int
    decreases keys.len(),
{
    if keys.len() == 0 || keys[0] == key {
        0
    } else {
        1 + position_of(keys.skip(1), key)
    }
}

pub proof fn lemma_position_of(keys: Seq<Seq<char>>, key: Seq<char>)
    ensures
        0 <= position_of(keys, key) <= keys.len(),
        position_of(keys, key) < keys.len() ==> keys[position_of(keys, key)] == key,
        position_of(keys, key) < keys.len() <==> keys.contains(key),
        forall|i: int| 0 <= i < position_of(keys, key) ==> #[trigger] keys[i] != key,
    decreases keys.len(),
{
    if keys.len() > 0 && keys[0] != key {
        let t = keys.skip(1);
        lemma_position_of(t, key);
        assert forall|i: int| 0 <= i < position_of(keys, key) implies #[trigger] keys[i]
            != key by {
            if i > 0 {
                assert(t[i - 1] == keys[i]);
            }
        }
        if keys.contains(key) {
            let i = choose|i: int| 0 <= i < keys.len() && keys[i] == key;
            assert(t[i - 1] == key);
        }
    }
}

pub proof fn lemma_position_is(keys: Seq<Seq<char>>, key: Seq<char>, n: int)
    requires
        0 <= n <= keys.len(),
        n < keys.len() ==> keys[n] == key,
        forall|i: int| 0 <= i < n ==> #[trigger] keys[i] != key,
    ensures
        position_of(keys, key) == n,
{
    lemma_position_of(keys, key);
    let k = position_of(keys, key);
    if k < n {
        assert(keys[k] != key);
    } else if n < k {
        assert(keys[n] != key);
    }
}

impl<V: View> TextMap<V> {
    /// The keys in their order.
    pub closed spec fn keys(&self) -> Seq<Seq<char>> {
        self.entries@.map_values(|e: (String, V)| e.0@)
    }

    closed spec fn values(&self) -> Seq<V::V> {
        self.entries@.map_values(|e: (String, V)| e.1@)
    }

    /// No key occurs twice.
    pub closed spec fn well_formed(&self) -> bool {
        self.keys().no_duplicates()
    }
}

impl<V: View> View for TextMap<V> {
    type V = Map<Seq<char>, V::V>;

    closed spec fn view(&self) -> Map<Seq<char>, V::V> {
        Map::new(
            |k: Seq<char>| self.keys().contains(k),
            |k: Seq<char>| self.values()[position_of(self.keys(), k)],
        )
    }
}

impl<V: View> TextMap<V> {
    /// The empty map.
    pub fn new() -> (r: Self)
        ensures
            r.well_formed(),
            r@ == Map::<Seq<char>, V::V>::empty(),
            r.keys() == Seq::<Seq<char>>::empty(),
    {
        let r = TextMap { entries: Vec::new() };
        assert(r.keys() == Seq::<Seq<char>>::empty());
        assert(r@ =~= Map::<Seq<char>, V::V>::empty());
        r
    }

    /// Number of entries.
    pub fn len(&self) -> (r: usize)
        requires
            self.well_formed(),
        ensures
            r == self.keys().len(),
    {
        self.entries.len()
    }

    /// What the keys and the map have to do with each other.
    pub proof fn lemma_keys(&self)
        requires
            self.well_formed(),
        ensures
            self.keys().no_duplicates(),
            forall|k: Seq<char>| #[trigger] self@.dom().contains(k) <==> self.keys().contains(k),
    {
    }

    fn find(&self, key: &str) -> (r: usize)
        ensures
            r == position_of(self.keys(), key@),
            r <= self.entries@.len(),
            r < self.entries@.len() <==> self.keys().contains(key@),
            r < self.entries@.len() ==> self.keys()[r as int] == key@,
    {
        let ghost ks = self.keys();
        let mut i: usize = 0;
        while i < self.entries.len() && !str_eq(self.entries[i].0.as_str(), key)
            invariant
                ks == self.keys(),
                i <= self.entries@.len(),
                ks.len() == self.entries@.len(),
                forall|x: int| 0 <= x < i ==> #[trigger] ks[x] != key@,
            decreases self.entries@.len() - i,
        {
            assert(ks[i as int] == self.entries@[i as int].0@);
            i = i + 1;
        }
        proof {
            if i < self.entries@.len() {
                assert(ks[i as int] == self.entries@[i as int].0@);
            }
            lemma_position_is(ks, key@, i as int);
            lemma_position_of(ks, key@);
        }
        i
    }

    /// The value at the key.
    pub fn get(&self, key: &str) -> (r: Option<&V>)
        requires
            self.well_formed(),
        ensures
            r is Some <==> self@.dom().contains(key@),
            r matches Some(v) ==> v@ == self@[key@],
    {
        let i = self.find(key);
        if i < self.entries.len() {
            assert(self.values()[i as int] == self.entries@[i as int].1@);
            Some(&self.entries[i].1)
        } else {
            None
        }
    }

    /// The key at a position.
    pub fn key_at(&self, i: usize) -> (r: &String)
        requires
            i < self.keys().len(),
        ensures
            r@ == self.keys()[i as int],
    {
        &self.entries[i].0
    }

    /// The value at a position.
    pub fn value_at(&self, i: usize) -> (r: &V)
        requires
            self.well_formed(),
            i < self.keys().len(),
        ensures
            self@.dom().contains(self.keys()[i as int]),
            r@ == self@[self.keys()[i as int]],
    {
        proof {
            let k = self.keys()[i as int];
            assert(self.keys().contains(k));
            lemma_position_of(self.keys(), k);
            assert(position_of(self.keys(), k) == i);
            assert(self.values()[i as int] == self.entries@[i as int].1@);
        }
        &self.entries[i].1
    }

    /// Sets the value at the key.
    pub fn insert(&mut self, key: String, value: V)
        requires
            old(self).well_formed(),
        ensures
            final(self).well_formed(),
            final(self)@ == old(self)@.insert(key@, value@),
    {
        let i = self.find(key.as_str());
        let ghost k = key@;
        let ghost v = value@;
        let ghost before = *self;
        if i < self.entries.len() {
            self.entries.set(i, (key, value));
            proof {
                assert(self.keys() =~= before.keys());
                assert(self.values() =~= before.values().update(i as int, v));
                lemma_position_of(self.keys(), k);
                assert forall|q: Seq<char>| #[trigger] self@.dom().contains(q) && q != k implies
                    self@[q] == before@[q] by {
                    lemma_position_of(self.keys(), q);
                }
                assert(self@ =~= before@.insert(k, v));
            }
        } else {
            self.entries.push((key, value));
            proof {
                assert(self.keys() =~= before.keys().push(k));
                assert(self.values() =~= before.values().push(v));
                assert forall|a: int, b: int|
                    0 <= a < self.keys().len() && 0 <= b < self.keys().len() && a != b implies
                    self.keys()[a] != self.keys()[b] by {
                    if a == before.keys().len() {
                        assert(before.keys().contains(before.keys()[b]));
                    } else if b == before.keys().len() {
                        assert(before.keys().contains(before.keys()[a]));
                    }
                }
                assert forall|q: Seq<char>| self.keys().contains(q) <==> (before.keys().contains(q)
                    || q == k) by {
                    if self.keys().contains(q) {
                        let a = choose|a: int| 0 <= a < self.keys().len() && self.keys()[a] == q;
                        if a < before.keys().len() {
                            assert(before.keys()[a] == q);
                        }
                    }
                    if before.keys().contains(q) {
                        let a = choose|a: int|
                            0 <= a < before.keys().len() && before.keys()[a] == q;
                        assert(self.keys()[a] == q);
                    }
                    if q == k {
                        assert(self.keys()[before.keys().len() as int] == q);
                    }
                }
                assert forall|q: Seq<char>| #[trigger] self@.dom().contains(q) implies self@[q]
                    == before@.insert(k, v)[q] by {
                    lemma_position_of(self.keys(), q);
                    lemma_position_of(before.keys(), q);
                    if q != k {
                        let p = position_of(before.keys(), q);
                        assert forall|x: int| 0 <= x < p implies #[trigger] self.keys()[x]
                            != q by {
                            assert(before.keys()[x] != q);
                        }
                        assert(self.keys()[p] == before.keys()[p]);
                        lemma_position_is(self.keys(), q, p);
                    } else {
                        assert(self.keys()[position_of(self.keys(), q)] == k);
                        assert(position_of(self.keys(), q) == before.keys().len()) by {
                            if position_of(self.keys(), q) < before.keys().len() {
                                assert(before.keys()[position_of(self.keys(), q)] == k);
                            }
                        }
                    }
                }
                assert(self@ =~= before@.insert(k, v));
            }
        }
    }

    /// Takes the key out.
    pub fn remove(&mut self, key: &str)
        requires
            old(self).well_formed(),
        ensures
            final(self).well_formed(),
            final(self)@ == old(self)@.remove(key@),
    {
        let i = self.find(key);
        let ghost before = *self;
        let ghost k = key@;
        if i < self.entries.len() {
            self.entries.remove(i);
            proof {
                let n = before.keys().len() as int;
                assert(self.keys() =~= before.keys().remove(i as int));
                assert(self.values() =~= before.values().remove(i as int));
                assert forall|a: int, b: int|
                    0 <= a < self.keys().len() && 0 <= b < self.keys().len() && a != b implies
                    self.keys()[a] != self.keys()[b] by {
                    let x = if a < i {
                        a
                    } else {
                        a + 1
                    };
                    let y = if b < i {
                        b
                    } else {
                        b + 1
                    };
                    assert(self.keys()[a] == before.keys()[x]);
                    assert(self.keys()[b] == before.keys()[y]);
                }
                assert forall|q: Seq<char>| self.keys().contains(q) <==> (before.keys().contains(q)
                    && q != k) by {
                    if self.keys().contains(q) {
                        let a = choose|a: int| 0 <= a < self.keys().len() && self.keys()[a] == q;
                        let x = if a < i {
                            a
                        } else {
                            a + 1
                        };
                        assert(before.keys()[x] == q);
                    }
                    if before.keys().contains(q) && q != k {
                        let x = choose|x: int| 0 <= x < n && before.keys()[x] == q;
                        let a = if x < i {
                            x
                        } else {
                            x - 1
                        };
                        assert(self.keys()[a] == q);
                    }
                }
                assert forall|q: Seq<char>| #[trigger] self@.dom().contains(q) implies self@[q]
                    == before@[q] by {
                    lemma_position_of(before.keys(), q);
                    let x = position_of(before.keys(), q);
                    let a = if x < i {
                        x
                    } else {
                        x - 1
                    };
                    assert(self.keys()[a] == q);
                    lemma_position_of(self.keys(), q);
                    assert(position_of(self.keys(), q) == a);
                    assert(self.values()[a] == before.values()[x]);
                }
                assert(self@ =~= before@.remove(k));
            }
        } else {
            assert(self@ =~= before@.remove(k));
        }
    }

    /// Takes every key out.
    pub fn clear(&mut self)
        ensures
            final(self).well_formed(),
            final(self)@ == Map::<Seq<char>, V::V>::empty(),
    {
        self.entries.clear();
        assert(self.keys() =~= Seq::<Seq<char>>::empty());
        assert(self@ =~= Map::<Seq<char>, V::V>::empty());
    }
}

} // verus!
