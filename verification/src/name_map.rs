//! A map keyed by text.
//!
//! Entries keep the order in which their keys were first inserted. The view is
//! a mathematical map from the characters of a key to its value.
use crate::strs::{copy_text, same_text};
use vstd::prelude::*;

verus! {

/// A map from text to values.
pub struct NameMap<V> {
    entries: Vec<(String, V)>,
}

/// The place of `key` in `entries`, or the length where it is missing.
pub open spec fn place_of<V>(entries: Seq<(String, V)>, key: Seq<char>) -> int
    decreases entries.len(),
{
    if entries.len() == 0 || entries[0].0@ == key {
        0
    } else {
        1 + place_of(entries.skip(1), key)
    }
}

proof fn lemma_place<V>(entries: Seq<(String, V)>, key: Seq<char>)
    ensures
        0 <= place_of(entries, key) <= entries.len(),
        place_of(entries, key) < entries.len() ==> entries[place_of(entries, key)].0@ == key,
        forall|j: int| 0 <= j < place_of(entries, key) ==> (#[trigger] entries[j]).0@ != key,
    decreases entries.len(),
{
    if entries.len() > 0 && entries[0].0@ != key {
        lemma_place(entries.skip(1), key);
        assert forall|j: int| 0 <= j < place_of(entries, key) implies (
        #[trigger] entries[j]).0@ != key by {
            if j > 0 {
                assert(entries.skip(1)[j - 1] == entries[j]);
            }
        }
    }
}

proof fn lemma_place_is<V>(entries: Seq<(String, V)>, key: Seq<char>, at: int)
    requires
        0 <= at <= entries.len(),
        at < entries.len() ==> entries[at].0@ == key,
        forall|j: int| 0 <= j < at ==> (#[trigger] entries[j]).0@ != key,
    ensures
        place_of(entries, key) == at,
{
    lemma_place(entries, key);
    if place_of(entries, key) < at {
        assert(entries[place_of(entries, key)].0@ != key);
    }
}

impl<V> NameMap<V> {
    /// The entries in the order of their first insertion.
    pub closed spec fn items(self) -> Seq<(String, V)> {
        self.entries@
    }

    /// No key occurs twice.
    pub open spec fn wf(self) -> bool {
        forall|i: int, j: int|
            0 <= i < j < self.items().len() ==> (#[trigger] self.items()[i]).0@ != (
            #[trigger] self.items()[j]).0@
    }

    /// The map from keys to values.
    pub open spec fn view(self) -> Map<Seq<char>, V> {
        Map::new(
            |k: Seq<char>| place_of(self.items(), k) < self.items().len(),
            |k: Seq<char>| self.items()[place_of(self.items(), k)].1,
        )
    }

    /// An empty map.
    pub fn new() -> (out: Self)
        ensures
            out.wf(),
            out.items() == Seq::<(String, V)>::empty(),
            out@ == Map::<Seq<char>, V>::empty(),
    {
        let out = NameMap { entries: Vec::new() };
        assert(out@ =~= Map::<Seq<char>, V>::empty());
        out
    }

    pub fn len(&self) -> (out: usize)
        ensures
            out == self.items().len(),
    {
        self.entries.len()
    }

    /// The key of entry `i`.
    pub fn key_at(&self, i: usize) -> (out: &str)
        requires
            i < self.items().len(),
        ensures
            out@ == self.items()[i as int].0@,
    {
        self.entries[i].0.as_str()
    }

    /// The value of entry `i`.
    pub fn value_at(&self, i: usize) -> (out: &V)
        requires
            i < self.items().len(),
        ensures
            *out == self.items()[i as int].1,
    {
        &self.entries[i].1
    }

    /// The value of entry `i`, to be changed in place.
    pub fn value_at_mut(&mut self, i: usize) -> (out: &mut V)
        requires
            i < old(self).items().len(),
        ensures
            *out == old(self).items()[i as int].1,
            final(self).items() == old(self).items().update(
                i as int,
                (old(self).items()[i as int].0, *final(out)),
            ),
    {
        &mut self.entries[i].1
    }

    /// The place of the entry under `key`.
    pub fn place(&self, key: &str) -> (out: Option<usize>)
        ensures
            out is Some <==> self@.contains_key(key@),
            out matches Some(at) ==> at < self.items().len() && self.items()[at as int].0@ == key@
                && self.items()[at as int].1 == self@[key@],
    {
        let at: usize = self.find(key);
        if at < self.entries.len() {
            Some(at)
        } else {
            None
        }
    }

    /// The place of `key` among the entries, or their number.
    fn find(&self, key: &str) -> (at: usize)
        ensures
            at == place_of(self.items(), key@),
            at <= self.items().len(),
            at < self.items().len() ==> self.items()[at as int].0@ == key@,
            forall|j: int| 0 <= j < at ==> (#[trigger] self.items()[j]).0@ != key@,
    {
        let mut at: usize = 0;
        while at < self.entries.len() && !same_text(self.entries[at].0.as_str(), key)
            invariant
                at <= self.entries.len(),
                forall|j: int| 0 <= j < at ==> (#[trigger] self.entries@[j]).0@ != key@,
            decreases self.entries.len() - at,
        {
            at += 1;
        }
        proof {
            lemma_place_is(self.items(), key@, at as int);
        }
        at
    }

    /// The value under `key`.
    pub fn get(&self, key: &str) -> (out: Option<&V>)
        ensures
            out == (if self@.contains_key(key@) {
                Some(&self@[key@])
            } else {
                None
            }),
    {
        let at = self.find(key);
        if at < self.entries.len() {
            Some(&self.entries[at].1)
        } else {
            None
        }
    }

    pub fn contains_key(&self, key: &str) -> (out: bool)
        ensures
            out == self@.contains_key(key@),
    {
        self.find(key) < self.entries.len()
    }

    /// Puts `value` under `key`, in place of an earlier one.
    pub fn insert(&mut self, key: &str, value: V)
        requires
            old(self).wf(),
        ensures
            final(self).wf(),
            final(self)@ == old(self)@.insert(key@, value),
    {
        let at = self.find(key);
        let ghost before = self.items();
        if at < self.entries.len() {
            let owned = copy_text(key);
            self.entries.set(at, (owned, value));
            proof {
                let after = self.items();
                assert(after == before.update(at as int, (owned, value)));
                assert(self.wf());
                assert forall|k: Seq<char>| true implies #[trigger] place_of(after, k) == place_of(
                    before,
                    k,
                ) by {
                    lemma_place(before, k);
                    lemma_place_is(after, k, place_of(before, k));
                }
                assert forall|k: Seq<char>| true implies #[trigger] self@.contains_key(k) == old(
                    self,
                )@.insert(key@, value).contains_key(k) by {
                    lemma_place(before, k);
                    lemma_place(after, k);
                    assert(place_of(after, k) == place_of(after, k));
                }
                assert forall|k: Seq<char>| #[trigger] self@.contains_key(k) implies self@[k]
                    == old(self)@.insert(key@, value)[k] by {
                    lemma_place(before, k);
                    lemma_place(after, k);
                    assert(place_of(after, k) == place_of(after, k));
                    if k != key@ && place_of(after, k) < before.len() {
                        assert(after[place_of(after, k)] == before[place_of(after, k)]);
                    }
                }
                assert(self@ =~= old(self)@.insert(key@, value));
            }
        } else {
            let owned = copy_text(key);
            self.entries.push((owned, value));
            proof {
                let after = self.items();
                assert(after == before.push((owned, value)));
                assert(self.wf());
                assert forall|k: Seq<char>| true implies #[trigger] place_of(after, k) == (if k
                    == key@ {
                    before.len() as int
                } else if place_of(before, k) == before.len() {
                    after.len() as int
                } else {
                    place_of(before, k)
                }) by {
                    lemma_place(before, k);
                    if k == key@ {
                        lemma_place_is(after, k, before.len() as int);
                    } else if place_of(before, k) == before.len() {
                        lemma_place_is(after, k, after.len() as int);
                    } else {
                        lemma_place_is(after, k, place_of(before, k));
                    }
                }
                assert forall|k: Seq<char>| true implies #[trigger] self@.contains_key(k) == old(
                    self,
                )@.insert(key@, value).contains_key(k) by {
                    lemma_place(before, k);
                    lemma_place(after, k);
                    assert(place_of(after, k) == place_of(after, k));
                }
                assert forall|k: Seq<char>| #[trigger] self@.contains_key(k) implies self@[k]
                    == old(self)@.insert(key@, value)[k] by {
                    lemma_place(before, k);
                    lemma_place(after, k);
                    assert(place_of(after, k) == place_of(after, k));
                    if k != key@ && place_of(after, k) < before.len() {
                        assert(after[place_of(after, k)] == before[place_of(after, k)]);
                    }
                }
                assert(self@ =~= old(self)@.insert(key@, value));
            }
        }
    }

    /// Removes the entry under `key`.
    pub fn remove(&mut self, key: &str) -> (out: Option<V>)
        requires
            old(self).wf(),
        ensures
            final(self).wf(),
            final(self)@ == old(self)@.remove(key@),
            out == (if old(self)@.contains_key(key@) {
                Some(old(self)@[key@])
            } else {
                None
            }),
    {
        let at = self.find(key);
        let ghost before = self.items();
        if at < self.entries.len() {
            let taken = self.entries.remove(at);
            proof {
                let after = self.items();
                assert(after =~= before.remove(at as int));
                assert forall|i: int, j: int| 0 <= i < j < after.len() implies (
                #[trigger] after[i]).0@ != (#[trigger] after[j]).0@ by {
                    let i2 = if i < at {
                        i
                    } else {
                        i + 1
                    };
                    let j2 = if j < at {
                        j
                    } else {
                        j + 1
                    };
                    assert(before[i2].0@ != before[j2].0@);
                }
                assert forall|k: Seq<char>| k != key@ implies #[trigger] place_of(after, k) == (
                if place_of(before, k) > at {
                    place_of(before, k) - 1
                } else {
                    place_of(before, k)
                }) by {
                    lemma_place(before, k);
                    let p = place_of(before, k);
                    let q = if p > at {
                        p - 1
                    } else {
                        p
                    };
                    assert forall|j: int| 0 <= j < q implies (#[trigger] after[j]).0@ != k by {
                        let j2 = if j < at {
                            j
                        } else {
                            j + 1
                        };
                        assert(before[j2].0@ != k);
                    }
                    lemma_place_is(after, k, q);
                }
                assert forall|j: int| 0 <= j < after.len() implies (#[trigger] after[j]).0@
                    != key@ by {
                    let j2 = if j < at {
                        j
                    } else {
                        j + 1
                    };
                    if j2 < at {
                        assert(before[j2].0@ != before[at as int].0@);
                    } else {
                        assert(before[at as int].0@ != before[j2].0@);
                    }
                }
                lemma_place_is(after, key@, after.len() as int);
                assert forall|k: Seq<char>| true implies #[trigger] self@.contains_key(k) == old(
                    self,
                )@.remove(key@).contains_key(k) by {
                    lemma_place(before, k);
                    lemma_place(after, k);
                    assert(place_of(after, k) == place_of(after, k));
                }
                assert forall|k: Seq<char>| #[trigger] self@.contains_key(k) implies self@[k]
                    == old(self)@.remove(key@)[k] by {
                    lemma_place(before, k);
                    lemma_place(after, k);
                    assert(place_of(after, k) == place_of(after, k));
                }
                assert(self@ =~= old(self)@.remove(key@));
            }
            Some(taken.1)
        } else {
            proof {
                assert(self@ =~= old(self)@.remove(key@));
            }
            None
        }
    }

    /// Removes every entry.
    pub fn clear(&mut self)
        ensures
            final(self).wf(),
            final(self)@ == Map::<Seq<char>, V>::empty(),
    {
        self.entries.clear();
        assert(self@ =~= Map::<Seq<char>, V>::empty());
    }
}

/// Every entry is the one that its key leads to.
pub proof fn lemma_item_is_mapped<V>(map: NameMap<V>, i: int)
    requires
        map.wf(),
        0 <= i < map.items().len(),
    ensures
        map@.contains_key(map.items()[i].0@),
        map@[map.items()[i].0@] == map.items()[i].1,
{
    let items = map.items();
    let k = items[i].0@;
    assert forall|j: int| 0 <= j < i implies (#[trigger] items[j]).0@ != k by {
        assert(items[j].0@ != items[i].0@);
    }
    lemma_place_is(items, k, i);
}

/// Every key of the map belongs to an entry.
pub proof fn lemma_key_has_item<V>(map: NameMap<V>, key: Seq<char>)
    requires
        map@.contains_key(key),
    ensures
        exists|i: int|
            0 <= i < map.items().len() && (#[trigger] map.items()[i]).0@ == key && map.items()[i].1
                == map@[key],
{
    lemma_place(map.items(), key);
    let i = place_of(map.items(), key);
    assert(map.items()[i].0@ == key);
}

/// Changing the value of an entry changes the map at its key alone.
pub proof fn lemma_value_changed<V>(before: NameMap<V>, after: NameMap<V>, i: int, value: V)
    requires
        before.wf(),
        0 <= i < before.items().len(),
        after.items() == before.items().update(i, (before.items()[i].0, value)),
    ensures
        after.wf(),
        after@ == before@.insert(before.items()[i].0@, value),
        before@.contains_key(before.items()[i].0@),
        before@[before.items()[i].0@] == before.items()[i].1,
{
    let key = before.items()[i].0@;
    assert forall|j: int| 0 <= j < i implies (#[trigger] before.items()[j]).0@ != key by {
        assert(before.items()[i].0@ == key);
    }
    lemma_place_is(before.items(), key, i);
    lemma_place_is(after.items(), key, i);
    assert forall|k: Seq<char>| k != key implies #[trigger] place_of(after.items(), k)
        == place_of(before.items(), k) by {
        lemma_place(before.items(), k);
        let at = place_of(before.items(), k);
        lemma_place_is(after.items(), k, at);
    }
    assert forall|k: Seq<char>| #[trigger]
        after@.contains_key(k) == before@.insert(key, value).contains_key(k) by {
        lemma_place(before.items(), k);
    }
    assert forall|k: Seq<char>| #[trigger] after@.contains_key(k) implies after@[k]
        == before@.insert(key, value)[k] by {
        lemma_place(before.items(), k);
        if k != key {
            assert(place_of(after.items(), k) == place_of(before.items(), k));
            assert(place_of(before.items(), k) != i);
        }
    }
    assert(after@ =~= before@.insert(key, value));
}

/// The view of a map from text to text.
pub open spec fn text_map(map: NameMap<String>) -> Map<Seq<char>, Seq<char>> {
    map@.map_values(|value: String| value@)
}

/// An independent copy of a map from text to text.
pub fn copy_text_map(map: &NameMap<String>) -> (out: NameMap<String>)
    requires
        map.wf(),
    ensures
        out.wf(),
        text_map(out) == text_map(*map),
{
    let mut entries: Vec<(String, String)> = Vec::new();
    let mut i: usize = 0;
    while i < map.entries.len()
        invariant
            i <= map.entries.len(),
            entries@.len() == i,
            forall|j: int|
                0 <= j < i ==> (#[trigger] entries@[j]).0@ == map.entries@[j].0@ && entries@[j].1@
                    == map.entries@[j].1@,
        decreases map.entries.len() - i,
    {
        let key = copy_text(map.entries[i].0.as_str());
        let value = copy_text(map.entries[i].1.as_str());
        entries.push((key, value));
        i += 1;
    }
    let out = NameMap { entries };
    proof {
        let a = out.items();
        let b = map.items();
        assert forall|x: int, y: int| 0 <= x < y < a.len() implies (#[trigger] a[x]).0@ != (
        #[trigger] a[y]).0@ by {
            assert(b[x].0@ != b[y].0@);
        }
        assert forall|k: Seq<char>| #[trigger] place_of(a, k) == place_of(b, k) by {
            lemma_place(b, k);
            lemma_place_is(a, k, place_of(b, k));
        }
        assert forall|k: Seq<char>| #[trigger] text_map(out).contains_key(k) == text_map(
            *map,
        ).contains_key(k) by {
            assert(place_of(a, k) == place_of(b, k));
        }
        assert forall|k: Seq<char>| #[trigger] text_map(out).contains_key(k) implies text_map(
            out,
        )[k] == text_map(*map)[k] by {
            lemma_place(b, k);
            assert(place_of(a, k) == place_of(b, k));
        }
        assert(text_map(out) =~= text_map(*map));
    }
    out
}

/// A name is found at its first entry, and nowhere where no entry has it.
pub proof fn law_names_are_found_at_their_entry<V>(
    entries: Seq<(String, V)>,
    key: Seq<char>,
    i: int,
)
    ensures
        0 <= i < entries.len() && entries[i].0@ == key && (forall|j: int|
            0 <= j < i ==> (#[trigger] entries[j]).0@ != key) ==> place_of(entries, key) == i,
        (forall|j: int| 0 <= j < entries.len() ==> (#[trigger] entries[j]).0@ != key) ==> place_of(
            entries,
            key,
        ) == entries.len(),
    decreases entries.len(),
{
    if entries.len() > 0 && entries[0].0@ != key {
        let rest = entries.skip(1);
        assert forall|j: int| 0 <= j < rest.len() implies #[trigger] rest[j] == entries[j + 1] by {}
        law_names_are_found_at_their_entry(rest, key, i - 1);
    }
}

/// A map holds what its entries say.
pub proof fn law_maps_hold_their_entries<V>(map: NameMap<V>, i: int)
    requires
        map.wf(),
        0 <= i < map.items().len(),
    ensures
        map@.contains_key(map.items()[i].0@),
        map@[map.items()[i].0@] == map.items()[i].1,
{
    law_names_are_found_at_their_entry(map.items(), map.items()[i].0@, i);
}

} // verus!
