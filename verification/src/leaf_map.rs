//! A map from block hashes to values.

use vstd::prelude::*;

use crate::primitives::BlockHash;

verus! {

/// A map keyed by block hash. Every hash occurs at most once.
///
/// The overseer tracks a handful of leaves at a time, so the entries stand in a plain vector.
pub struct LeafMap<V> {
    entries: Vec<(BlockHash, V)>,
}

/// Whether some entry has the key `hash`.
spec fn has_key<V>(entries: Seq<(BlockHash, V)>, hash: BlockHash) -> bool {
    exists|i: int| 0 <= i < entries.len() && (#[trigger] entries[i]).0 == hash
}

/// The position of an entry with the key `hash`.
spec fn slot<V>(entries: Seq<(BlockHash, V)>, hash: BlockHash) -> int {
    choose|i: int| 0 <= i < entries.len() && (#[trigger] entries[i]).0 == hash
}

/// No two entries have the same key.
spec fn unique_keys<V>(entries: Seq<(BlockHash, V)>) -> bool {
    forall|i: int, j: int|
        0 <= i < j < entries.len() ==> (#[trigger] entries[i]).0 != (#[trigger] entries[j]).0
}

/// The map that a list of entries stands for.
spec fn as_map<V>(entries: Seq<(BlockHash, V)>) -> Map<BlockHash, V> {
    Map::new(|h: BlockHash| has_key(entries, h), |h: BlockHash| entries[slot(entries, h)].1)
}

proof fn lemma_entry<V>(entries: Seq<(BlockHash, V)>, i: int)
    requires
        unique_keys(entries),
        0 <= i < entries.len(),
    ensures
        as_map(entries).contains_key(entries[i].0),
        as_map(entries)[entries[i].0] == entries[i].1,
{
    let k = slot(entries, entries[i].0);
    assert(0 <= k < entries.len() && entries[k].0 == entries[i].0);
    assert(k == i) by {
        if k < i {
            assert(entries[k].0 != entries[i].0);
        } else if i < k {
            assert(entries[i].0 != entries[k].0);
        }
    }
}

proof fn lemma_push<V>(entries: Seq<(BlockHash, V)>, hash: BlockHash, value: V)
    requires
        unique_keys(entries),
        !has_key(entries, hash),
    ensures
        unique_keys(entries.push((hash, value))),
        as_map(entries.push((hash, value))) == as_map(entries).insert(hash, value),
{
    let next = entries.push((hash, value));
    assert(unique_keys(next)) by {
        assert forall|i: int, j: int| 0 <= i < j < next.len() implies (#[trigger] next[i]).0 != (
        #[trigger] next[j]).0 by {
            assert(next[i] == entries[i]);
        }
    }
    assert forall|h: BlockHash| has_key(next, h) <==> has_key(entries, h) || h == hash by {
        if has_key(entries, h) {
            assert(next[slot(entries, h)].0 == h);
        }
        if h == hash {
            assert(next[entries.len() as int].0 == h);
        }
        if has_key(next, h) && h != hash {
            assert(entries[slot(next, h)].0 == h);
        }
    }
    assert forall|h: BlockHash| has_key(next, h) implies as_map(next)[h] == as_map(entries).insert(
        hash,
        value,
    )[h] by {
        lemma_entry(next, slot(next, h));
        if h == hash {
            lemma_entry(next, entries.len() as int);
        } else {
            lemma_entry(entries, slot(next, h));
            assert(next[slot(next, h)] == entries[slot(next, h)]);
        }
    }
    assert(as_map(next) =~= as_map(entries).insert(hash, value));
}

proof fn lemma_remove<V>(entries: Seq<(BlockHash, V)>, at: int)
    requires
        unique_keys(entries),
        0 <= at < entries.len(),
    ensures
        unique_keys(entries.remove(at)),
        as_map(entries.remove(at)) == as_map(entries).remove(entries[at].0),
{
    let next = entries.remove(at);
    let hash = entries[at].0;
    assert forall|i: int, j: int| 0 <= i < j < next.len() implies (#[trigger] next[i]).0 != (
    #[trigger] next[j]).0 by {
        let a = if i < at { i } else { i + 1 };
        let b = if j < at { j } else { j + 1 };
        assert(next[i] == entries[a] && next[j] == entries[b]);
    }
    assert forall|h: BlockHash| has_key(next, h) <==> has_key(entries, h) && h != hash by {
        if has_key(next, h) {
            let i = slot(next, h);
            let a = if i < at { i } else { i + 1 };
            assert(next[i] == entries[a]);
            if a < at {
                assert(entries[a].0 != entries[at].0);
            } else {
                assert(entries[at].0 != entries[a].0);
            }
        }
        if has_key(entries, h) && h != hash {
            let a = slot(entries, h);
            let i = if a < at { a } else { a - 1 };
            assert(next[i] == entries[a]);
        }
    }
    assert forall|h: BlockHash| has_key(next, h) implies as_map(next)[h] == as_map(entries)[h] by {
        let i = slot(next, h);
        let a = if i < at { i } else { i + 1 };
        assert(next[i] == entries[a]);
        lemma_entry(next, i);
        lemma_entry(entries, a);
    }
    assert(as_map(next) =~= as_map(entries).remove(hash));
}

impl<V> View for LeafMap<V> {
    type V = Map<BlockHash, V>;

    closed spec fn view(&self) -> Map<BlockHash, V> {
        as_map(self.entries@)
    }
}

impl<V> LeafMap<V> {
    #[verifier::type_invariant]
    spec fn well_formed(self) -> bool {
        unique_keys(self.entries@)
    }

    /// The keys in the order in which the entries are held.
    pub closed spec fn keys(self) -> Seq<BlockHash> {
        self.entries@.map_values(|e: (BlockHash, V)| e.0)
    }

    /// An empty map.
    pub fn new() -> (map: Self)
        ensures
            map@ == Map::<BlockHash, V>::empty(),
    {
        let map = LeafMap { entries: Vec::new() };
        assert(map@ =~= Map::<BlockHash, V>::empty());
        map
    }

    /// The position of `hash`, if it is a key.
    fn position(&self, hash: &BlockHash) -> (at: Option<usize>)
        ensures
            at matches Some(i) ==> i < self.entries@.len() && self.entries@[i as int].0 == *hash,
            at is None ==> !has_key(self.entries@, *hash),
    {
        let mut i: usize = 0;
        while i < self.entries.len()
            invariant
                i <= self.entries@.len(),
                forall|j: int| 0 <= j < i ==> (#[trigger] self.entries@[j]).0 != *hash,
            decreases self.entries@.len() - i,
        {
            if self.entries[i].0 == *hash {
                return Some(i);
            }
            i += 1;
        }
        None
    }

    /// The value of `hash`, if it is a key.
    pub fn get(&self, hash: &BlockHash) -> (value: Option<&V>)
        ensures
            match value {
                Some(v) => self@.contains_key(*hash) && *v == self@[*hash],
                None => !self@.contains_key(*hash),
            },
    {
        proof {
            use_type_invariant(self);
        }
        match self.position(hash) {
            Some(i) => {
                proof {
                    lemma_entry(self.entries@, i as int);
                }
                Some(&self.entries[i].1)
            },
            None => None,
        }
    }

    /// Whether `hash` is a key.
    pub fn contains_key(&self, hash: &BlockHash) -> (found: bool)
        ensures
            found == self@.contains_key(*hash),
    {
        self.get(hash).is_some()
    }

    /// Sets the value of `hash` and returns the one it had.
    pub fn insert(&mut self, hash: BlockHash, value: V) -> (previous: Option<V>)
        ensures
            final(self)@ == old(self)@.insert(hash, value),
            previous == old(self)@.get(hash),
    {
        let previous = self.remove(&hash);
        proof {
            use_type_invariant(&*self);
            assert(!self@.contains_key(hash));
            lemma_push(self.entries@, hash, value);
            assert(self@.insert(hash, value) =~= old(self)@.insert(hash, value));
        }
        let mut entries: Vec<(BlockHash, V)> = Vec::new();
        std::mem::swap(&mut entries, &mut self.entries);
        entries.push((hash, value));
        self.entries = entries;
        previous
    }

    /// Takes `hash` out of the map and returns the value it had.
    pub fn remove(&mut self, hash: &BlockHash) -> (previous: Option<V>)
        ensures
            final(self)@ == old(self)@.remove(*hash),
            previous == old(self)@.get(*hash),
    {
        proof {
            use_type_invariant(&*self);
        }
        match self.position(hash) {
            Some(i) => {
                proof {
                    lemma_entry(self.entries@, i as int);
                    lemma_remove(self.entries@, i as int);
                }
                let mut entries: Vec<(BlockHash, V)> = Vec::new();
                std::mem::swap(&mut entries, &mut self.entries);
                let (_, value) = entries.remove(i);
                self.entries = entries;
                Some(value)
            },
            None => {
                assert(self@.remove(*hash) =~= self@);
                None
            },
        }
    }

    /// The number of keys.
    pub fn len(&self) -> (n: usize)
        ensures
            n == self.keys().len(),
            self.keys().no_duplicates(),
            forall|h: BlockHash| #[trigger] self.keys().contains(h) <==> self@.contains_key(h),
    {
        proof {
            use_type_invariant(self);
            lemma_keys(*self);
        }
        self.entries.len()
    }

    /// The entry at position `i`.
    pub fn entry(&self, i: usize) -> (entry: (&BlockHash, &V))
        requires
            i < self.keys().len(),
        ensures
            *entry.0 == self.keys()[i as int],
            self@.contains_key(*entry.0),
            *entry.1 == self@[*entry.0],
    {
        proof {
            use_type_invariant(self);
            lemma_entry(self.entries@, i as int);
        }
        let e = &self.entries[i];
        (&e.0, &e.1)
    }

    /// Takes the entry that is held last out of the map.
    pub fn pop(&mut self) -> (entry: Option<(BlockHash, V)>)
        ensures
            match entry {
                Some((h, v)) => {
                    &&& old(self).keys().len() > 0
                    &&& h == old(self).keys().last()
                    &&& old(self)@.contains_key(h)
                    &&& v == old(self)@[h]
                    &&& final(self)@ == old(self)@.remove(h)
                    &&& final(self).keys() == old(self).keys().drop_last()
                },
                None => {
                    &&& old(self).keys().len() == 0
                    &&& old(self)@ == Map::<BlockHash, V>::empty()
                    &&& final(self)@ == old(self)@
                    &&& final(self).keys() == old(self).keys()
                },
            },
    {
        proof {
            use_type_invariant(&*self);
        }
        let mut entries: Vec<(BlockHash, V)> = Vec::new();
        std::mem::swap(&mut entries, &mut self.entries);
        let ghost before = entries@;
        proof {
            if before.len() > 0 {
                lemma_entry(before, before.len() - 1);
                lemma_remove(before, before.len() - 1);
                assert(before.remove(before.len() - 1) =~= before.subrange(0, before.len() - 1));
            } else {
                assert(as_map(before) =~= Map::<BlockHash, V>::empty());
            }
        }
        let entry = entries.pop();
        self.entries = entries;
        assert(entry is Some ==> self.keys() =~= old(self).keys().drop_last());
        entry
    }
}

proof fn lemma_keys<V>(map: LeafMap<V>)
    requires
        unique_keys(map.entries@),
    ensures
        map.keys().no_duplicates(),
        forall|h: BlockHash| #[trigger] map.keys().contains(h) <==> map@.contains_key(h),
{
    assert forall|h: BlockHash| #[trigger] map.keys().contains(h) <==> map@.contains_key(h) by {
        if map.keys().contains(h) {
            let i = choose|i: int| 0 <= i < map.keys().len() && map.keys()[i] == h;
            assert(map.entries@[i].0 == h);
        }
        if map@.contains_key(h) {
            assert(map.keys()[slot(map.entries@, h)] == h);
        }
    }
}

} // verus!
