//! A small map keyed by strings, kept as a list of distinct keys.
//!
//! Its view is a `Map` from the key's characters to the value's view; the
//! order in which it was filled is visible only through [`StrMap::keys`].

use vstd::prelude::*;
use crate::text::str_eq;

verus! {

struct Slot<V> {
    key: String,
    val: V,
}

/// A map from strings to values in which no key occurs twice.
pub struct StrMap<V> {
    slots: Vec<Slot<V>>,
}

spec fn slot_keys<V>(slots: Seq<Slot<V>>) -> Seq<Seq<char>> {
    Seq::new(slots.len(), |i: int| slots[i].key@)
}

proof fn lemma_index_of_key<V>(slots: Seq<Slot<V>>, i: int)
    requires
        slot_keys(slots).no_duplicates(),
        0 <= i < slots.len(),
    ensures
        slot_keys(slots).index_of(slots[i].key@) == i,
{
    let keys = slot_keys(slots);
    assert(keys[i] == slots[i].key@);
    let j = keys.index_of(slots[i].key@);
    assert(0 <= j < keys.len() && keys[j] == slots[i].key@);
}

impl<V: View> View for StrMap<V> {
    type V = Map<Seq<char>, V::V>;

    closed spec fn view(&self) -> Map<Seq<char>, V::V> {
        Map::new(
            |k: Seq<char>| slot_keys(self.slots@).contains(k),
            |k: Seq<char>| self.slots@[slot_keys(self.slots@).index_of(k)].val@,
        )
    }
}

impl<V> StrMap<V> {
    #[verifier::type_invariant]
    spec fn distinct_keys(self) -> bool {
        slot_keys(self.slots@).no_duplicates()
    }
}

impl<V: View> StrMap<V> {
    /// The keys in the order in which the map hands them out.
    pub closed spec fn keys(&self) -> Seq<Seq<char>> {
        slot_keys(self.slots@)
    }

    /// An empty map.
    pub fn new() -> (map: Self)
        ensures
            map@ == Map::<Seq<char>, V::V>::empty(),
            map.keys() == Seq::<Seq<char>>::empty(),
    {
        let map = StrMap { slots: Vec::new() };
        assert(map@ =~= Map::<Seq<char>, V::V>::empty());
        assert(map.keys() =~= Seq::<Seq<char>>::empty());
        map
    }

    /// The number of entries.  Every key is handed out once, and the keys
    /// handed out are those of the view.
    pub fn len(&self) -> (n: usize)
        ensures
            n == self.keys().len(),
            self.keys().no_duplicates(),
            forall|k: Seq<char>| self.keys().contains(k) <==> self@.contains_key(k),
            self@.dom().finite(),
            self@.dom().len() == n,
    {
        proof {
            use_type_invariant(self);
            let keys = self.keys();
            assert(self@.dom() =~= keys.to_set());
            keys.unique_seq_to_set();
            vstd::seq_lib::seq_to_set_is_finite(keys);
        }
        self.slots.len()
    }

    /// Where `key` stands among the slots, or their number if it is absent.
    fn position(&self, key: &str) -> (i: usize)
        ensures
            i <= self.slots@.len(),
            i < self.slots@.len() ==> self.slots@[i as int].key@ == key@,
            i == self.slots@.len() ==> !slot_keys(self.slots@).contains(key@),
    {
        let mut i: usize = 0;
        while i < self.slots.len()
            invariant
                i <= self.slots@.len(),
                forall|k: int| 0 <= k < i ==> self.slots@[k].key@ != key@,
            decreases self.slots@.len() - i,
        {
            if str_eq(self.slots[i].key.as_str(), key) {
                return i;
            }
            i += 1;
        }
        assert(!slot_keys(self.slots@).contains(key@)) by {
            let keys = slot_keys(self.slots@);
            if keys.contains(key@) {
                let k = choose|k: int| 0 <= k < keys.len() && keys[k] == key@;
                assert(self.slots@[k].key@ == key@);
            }
        }
        i
    }

    /// Whether the map holds `key`.
    pub fn contains_key(&self, key: &str) -> (found: bool)
        ensures
            found == self@.contains_key(key@),
    {
        let i = self.position(key);
        proof {
            if i < self.slots@.len() {
                assert(slot_keys(self.slots@)[i as int] == key@);
            }
        }
        i < self.slots.len()
    }

    /// The value stored under `key`, if there is one.
    pub fn get(&self, key: &str) -> (value: Option<&V>)
        ensures
            value.is_some() == self@.contains_key(key@),
            value.is_some() ==> value.unwrap()@ == self@[key@],
    {
        let i = self.position(key);
        if i < self.slots.len() {
            proof {
                use_type_invariant(self);
                assert(slot_keys(self.slots@)[i as int] == key@);
                lemma_index_of_key(self.slots@, i as int);
            }
            Some(&self.slots[i].val)
        } else {
            None
        }
    }

    /// The `i`-th key.
    pub fn key_at(&self, i: usize) -> (key: &String)
        requires
            i < self.keys().len(),
        ensures
            key@ == self.keys()[i as int],
            self@.contains_key(key@),
    {
        assert(slot_keys(self.slots@)[i as int] == self.slots@[i as int].key@);
        &self.slots[i].key
    }

    /// The value stored under the `i`-th key.
    pub fn value_at(&self, i: usize) -> (value: &V)
        requires
            i < self.keys().len(),
        ensures
            self@.contains_key(self.keys()[i as int]),
            value@ == self@[self.keys()[i as int]],
    {
        proof {
            use_type_invariant(self);
            assert(slot_keys(self.slots@)[i as int] == self.slots@[i as int].key@);
            lemma_index_of_key(self.slots@, i as int);
        }
        &self.slots[i].val
    }

    /// Stores `val` under `key`, in place of what was stored there before.
    /// A new key is handed out last; a key already held keeps its place.
    pub fn insert(&mut self, key: String, val: V)
        ensures
            final(self)@ == old(self)@.insert(key@, val@),
            old(self)@.contains_key(key@) ==> final(self).keys() == old(self).keys(),
            !old(self)@.contains_key(key@) ==> final(self).keys() == old(self).keys().push(key@),
    {
        proof {
            use_type_invariant(&*self);
        }
        let i = self.position(key.as_str());
        let ghost before = self.slots@;
        let ghost old_view = self@;
        let ghost old_keys = slot_keys(before);
        let ghost k = key@;
        let ghost v = val@;
        let mut slots: Vec<Slot<V>> = Vec::new();
        core::mem::swap(&mut slots, &mut self.slots);
        if i < slots.len() {
            slots.set(i, Slot { key, val });
            proof {
                let after = slots@;
                assert(slot_keys(after) =~= old_keys);
                assert(old_keys[i as int] == k);
                assert forall|q: Seq<char>| slot_keys(after).contains(q) implies #[trigger] after[slot_keys(
                    after,
                ).index_of(q)].val@ == (if q == k {
                    v
                } else {
                    before[old_keys.index_of(q)].val@
                }) by {
                    let j = old_keys.index_of(q);
                    assert(0 <= j < old_keys.len() && old_keys[j] == q);
                    if q == k {
                        lemma_index_of_key(before, i as int);
                    }
                }
            }
        } else {
            slots.push(Slot { key, val });
            proof {
                let after = slots@;
                assert(slot_keys(after) =~= old_keys.push(k));
                assert(slot_keys(after).no_duplicates());
                assert forall|q: Seq<char>| slot_keys(after).contains(q) implies #[trigger] after[slot_keys(
                    after,
                ).index_of(q)].val@ == (if q == k {
                    v
                } else {
                    before[old_keys.index_of(q)].val@
                }) by {
                    let j = slot_keys(after).index_of(q);
                    assert(0 <= j < after.len() && slot_keys(after)[j] == q);
                    if q != k {
                        assert(j < before.len());
                        assert(old_keys[j] == q);
                        lemma_index_of_key(before, j);
                    } else {
                        lemma_index_of_key(after, before.len() as int);
                    }
                }
                assert forall|q: Seq<char>| slot_keys(after).contains(q) <==> (q == k
                    || old_keys.contains(q)) by {
                    if old_keys.contains(q) {
                        let j = old_keys.index_of(q);
                        assert(0 <= j < old_keys.len() && old_keys[j] == q);
                        assert(slot_keys(after)[j] == q);
                    }
                    if q == k {
                        assert(slot_keys(after)[before.len() as int] == q);
                    }
                }
            }
        }
        self.slots = slots;
        assert(self@ =~= old_view.insert(k, v));
    }

    /// Takes `key` and its value out of the map, if it holds them.  The
    /// other keys keep their order.
    pub fn remove(&mut self, key: &str) -> (removed: bool)
        ensures
            removed == old(self)@.contains_key(key@),
            final(self)@ == old(self)@.remove(key@),
            final(self).keys() == spec_without(old(self).keys(), key@),
    {
        proof {
            use_type_invariant(&*self);
        }
        let i = self.position(key);
        let ghost before = self.slots@;
        let ghost old_view = self@;
        let ghost old_keys = slot_keys(before);
        let ghost k = key@;
        if i < self.slots.len() {
            let mut slots: Vec<Slot<V>> = Vec::new();
            core::mem::swap(&mut slots, &mut self.slots);
            let _ = slots.remove(i);
            proof {
                let after = slots@;
                assert(old_keys[i as int] == k);
                assert(slot_keys(after) =~= old_keys.remove(i as int));
                assert(slot_keys(after).no_duplicates()) by {
                    assert forall|a: int, b: int|
                        0 <= a < after.len() && 0 <= b < after.len() && a != b implies slot_keys(
                        after,
                    )[a] != slot_keys(after)[b] by {
                        let a0 = if a < i { a } else { a + 1 };
                        let b0 = if b < i { b } else { b + 1 };
                        assert(slot_keys(after)[a] == old_keys[a0]);
                        assert(slot_keys(after)[b] == old_keys[b0]);
                    }
                }
                assert forall|q: Seq<char>| slot_keys(after).contains(q) <==> (q != k
                    && old_keys.contains(q)) by {
                    if slot_keys(after).contains(q) {
                        let j = slot_keys(after).index_of(q);
                        assert(0 <= j < after.len() && slot_keys(after)[j] == q);
                        let j0 = if j < i { j } else { j + 1 };
                        assert(old_keys[j0] == q);
                    }
                    if q != k && old_keys.contains(q) {
                        let j = old_keys.index_of(q);
                        assert(0 <= j < old_keys.len() && old_keys[j] == q);
                        let j1 = if j < i { j } else { j - 1 };
                        assert(slot_keys(after)[j1] == q);
                    }
                }
                assert forall|q: Seq<char>| slot_keys(after).contains(q) implies #[trigger] after[slot_keys(
                    after,
                ).index_of(q)].val@ == before[old_keys.index_of(q)].val@ by {
                    let j = slot_keys(after).index_of(q);
                    assert(0 <= j < after.len() && slot_keys(after)[j] == q);
                    let j0 = if j < i { j } else { j + 1 };
                    assert(old_keys[j0] == q);
                    lemma_index_of_key(before, j0);
                }
                lemma_filter_out_unique(old_keys, i as int);
            }
            self.slots = slots;
            assert(self@ =~= old_view.remove(k));
            true
        } else {
            proof {
                assert(self@ =~= old_view.remove(k));
                lemma_filter_out_absent(old_keys, k);
            }
            false
        }
    }
}

/// The keys other than `k`, in their order.
pub open spec fn spec_without(keys: Seq<Seq<char>>, k: Seq<char>) -> Seq<Seq<char>>
    decreases keys.len(),
{
    if keys.len() == 0 {
        keys
    } else if keys.last() == k {
        spec_without(keys.drop_last(), k)
    } else {
        spec_without(keys.drop_last(), k).push(keys.last())
    }
}

/// Leaving out a key that does not occur changes nothing.
proof fn lemma_filter_out_absent(keys: Seq<Seq<char>>, k: Seq<char>)
    requires
        !keys.contains(k),
    ensures
        spec_without(keys, k) == keys,
    decreases keys.len(),
{
    if keys.len() > 0 {
        assert(keys.last() == keys[keys.len() - 1]);
        assert forall|q: Seq<char>| keys.drop_last().contains(q) implies keys.contains(q) by {
            let j = choose|j: int| 0 <= j < keys.drop_last().len() && keys.drop_last()[j] == q;
            assert(keys[j] == q);
        }
        lemma_filter_out_absent(keys.drop_last(), k);
        assert(keys.drop_last().push(keys.last()) =~= keys);
    }
}

/// Leaving out a key that occurs once, at `i`, removes position `i`.
proof fn lemma_filter_out_unique(keys: Seq<Seq<char>>, i: int)
    requires
        keys.no_duplicates(),
        0 <= i < keys.len(),
    ensures
        spec_without(keys, keys[i]) == keys.remove(i),
    decreases keys.len(),
{
    let k = keys[i];
    let front = keys.drop_last();
    if i == keys.len() - 1 {
        assert(!front.contains(k)) by {
            if front.contains(k) {
                let j = choose|j: int| 0 <= j < front.len() && front[j] == k;
                assert(keys[j] == k);
            }
        }
        lemma_filter_out_absent(front, k);
        assert(keys.remove(i) =~= front);
    } else {
        assert(front[i] == k);
        lemma_filter_out_unique(front, i);
        assert(keys.last() != k);
        assert(keys.remove(i) =~= front.remove(i).push(keys.last()));
    }
}

} // verus!
