//! A set of key numbers.
use vstd::prelude::*;

verus! {

/// Key numbers, kept in ascending order.
pub struct KeySet {
    keys: Vec<u32>,
}

impl KeySet {
    pub closed spec fn items(self) -> Seq<u32> {
        self.keys@
    }

    /// The keys ascend, so none is there twice.
    pub open spec fn wf(self) -> bool {
        forall|i: int, j: int| 0 <= i < j < self.items().len() ==> self.items()[i] < self.items()[j]
    }

    /// The keys as a set.
    pub open spec fn view(self) -> Set<u32> {
        Set::new(|k: u32| self.items().contains(k))
    }

    pub fn new() -> (out: Self)
        ensures
            out.wf(),
            out@ == Set::<u32>::empty(),
    {
        let out = KeySet { keys: Vec::new() };
        assert(out@ =~= Set::<u32>::empty());
        out
    }

    pub fn contains(&self, key: u32) -> (out: bool)
        ensures
            out == self@.contains(key),
    {
        let mut i: usize = 0;
        while i < self.keys.len()
            invariant
                i <= self.keys.len(),
                forall|j: int| 0 <= j < i ==> self.keys@[j] != key,
            decreases self.keys.len() - i,
        {
            if self.keys[i] == key {
                return true;
            }
            i += 1;
        }
        false
    }

    /// Adds a key; returns whether it was new.
    pub fn insert(&mut self, key: u32) -> (out: bool)
        requires
            old(self).wf(),
        ensures
            final(self).wf(),
            out == !old(self)@.contains(key),
            final(self)@ == old(self)@.insert(key),
    {
        let mut at: usize = 0;
        while at < self.keys.len() && self.keys[at] < key
            invariant
                at <= self.keys.len(),
                forall|j: int| 0 <= j < at ==> self.keys@[j] < key,
            decreases self.keys.len() - at,
        {
            at += 1;
        }
        if at < self.keys.len() && self.keys[at] == key {
            assert(self@ =~= old(self)@.insert(key));
            return false;
        }
        let ghost before = self.keys@;
        self.keys.insert(at, key);
        proof {
            let after = self.keys@;
            assert forall|k: u32| #[trigger] self@.contains(k) == old(self)@.insert(key).contains(
                k,
            ) by {
                if before.contains(k) {
                    let i = choose|i: int| 0 <= i < before.len() && before[i] == k;
                    assert(after[if i < at {
                        i
                    } else {
                        i + 1
                    }] == k);
                }
                if k == key {
                    assert(after[at as int] == k);
                }
                if after.contains(k) && k != key {
                    let i = choose|i: int| 0 <= i < after.len() && after[i] == k;
                    assert(before[if i < at {
                        i
                    } else {
                        i - 1
                    }] == k);
                }
            }
            assert(self@ =~= old(self)@.insert(key));
        }
        true
    }

    /// Removes a key; returns whether it was there.
    pub fn remove(&mut self, key: u32) -> (out: bool)
        requires
            old(self).wf(),
        ensures
            final(self).wf(),
            out == old(self)@.contains(key),
            final(self)@ == old(self)@.remove(key),
    {
        let mut at: usize = 0;
        while at < self.keys.len() && self.keys[at] != key
            invariant
                at <= self.keys.len(),
                forall|j: int| 0 <= j < at ==> self.keys@[j] != key,
            decreases self.keys.len() - at,
        {
            at += 1;
        }
        if at == self.keys.len() {
            assert(self@ =~= old(self)@.remove(key));
            return false;
        }
        let ghost before = self.keys@;
        let _ = self.keys.remove(at);
        proof {
            let after = self.keys@;
            assert(after =~= before.remove(at as int));
            assert forall|k: u32| #[trigger] self@.contains(k) == old(self)@.remove(key).contains(
                k,
            ) by {
                if before.contains(k) && k != key {
                    let i = choose|i: int| 0 <= i < before.len() && before[i] == k;
                    assert(after[if i < at {
                        i
                    } else {
                        i - 1
                    }] == k);
                }
                if after.contains(k) {
                    let i = choose|i: int| 0 <= i < after.len() && after[i] == k;
                    let i2 = if i < at {
                        i
                    } else {
                        i + 1
                    };
                    assert(before[i2] == k);
                    if k == key {
                        assert(before[at as int] == key);
                    }
                }
            }
            assert(self@ =~= old(self)@.remove(key));
        }
        true
    }

    /// Removes every key.
    pub fn clear(&mut self)
        ensures
            final(self).wf(),
            final(self)@ == Set::<u32>::empty(),
    {
        self.keys.clear();
        assert(self@ =~= Set::<u32>::empty());
    }

    /// The keys in ascending order.
    pub fn to_list(&self) -> (out: Vec<u32>)
        ensures
            out@ == self.items(),
    {
        let mut out: Vec<u32> = Vec::new();
        let mut i: usize = 0;
        while i < self.keys.len()
            invariant
                i <= self.keys.len(),
                out@ == self.keys@.take(i as int),
            decreases self.keys.len() - i,
        {
            out.push(self.keys[i]);
            i += 1;
            assert(out@ =~= self.keys@.take(i as int));
        }
        assert(out@ =~= self.keys@);
        out
    }
}

} // verus!
