//! The record store: an arena keyed by packed derivation seeds.
//!
//! The ledger's design is an explicit mapping from derivation seeds to
//! records. The store is a growable vector of key/value entries with
//! pairwise distinct keys, specified as the finite map it represents.

use vstd::prelude::*;
use crate::ids::Identity;

verus! {

/// Packs a pair of identities into one store key. Injective: the two 64-bit
/// keys occupy disjoint halves of the 128-bit result.
pub open spec fn spec_pair_key(a: Identity, b: Identity) -> u128 {
    ((a.key as u128) << 64) | (b.key as u128)
}

/// Executable form of `spec_pair_key`.
pub fn pair_key(a: Identity, b: Identity) -> (r: u128)
    ensures
        r == spec_pair_key(a, b),
{
    ((a.key as u128) << 64) | (b.key as u128)
}

/// A pair key determines the pair.
pub proof fn lemma_pair_key_injective(a1: Identity, b1: Identity, a2: Identity, b2: Identity)
    requires
        spec_pair_key(a1, b1) == spec_pair_key(a2, b2),
    ensures
        a1 == a2 && b1 == b2,
{
    let x1 = a1.key;
    let y1 = b1.key;
    let x2 = a2.key;
    let y2 = b2.key;
    assert(
        (((x1 as u128) << 64) | (y1 as u128)) == (((x2 as u128) << 64) | (y2 as u128))
            ==> x1 == x2 && y1 == y2
    ) by (bit_vector);
}

/// Packs a single identity into a store key.
pub open spec fn spec_solo_key(a: Identity) -> u128 {
    a.key as u128
}

/// Executable form of `spec_solo_key`.
pub fn solo_key(a: Identity) -> (r: u128)
    ensures
        r == spec_solo_key(a),
{
    a.key as u128
}

/// The map an entry sequence represents: entries inserted left to right,
/// later entries shadowing earlier ones. Well-formed stores never shadow.
pub open spec fn map_of<V>(s: Seq<(u128, V)>) -> Map<u128, V>
    decreases s.len(),
{
    if s.len() == 0 {
        Map::empty()
    } else {
        map_of(s.drop_last()).insert(s.last().0, s.last().1)
    }
}

/// No two entries of the sequence share a key.
pub open spec fn keys_distinct<V>(s: Seq<(u128, V)>) -> bool {
    forall|i: int, j: int| 0 <= i < j < s.len() ==> (#[trigger] s[i]).0 != (#[trigger] s[j]).0
}

/// A key is in the represented map exactly when some entry carries it.
proof fn lemma_map_of_contains<V>(s: Seq<(u128, V)>, k: u128)
    ensures
        map_of(s).contains_key(k) <==> exists|i: int| 0 <= i < s.len() && (#[trigger] s[i]).0 == k,
    decreases s.len(),
{
    if s.len() > 0 {
        lemma_map_of_contains(s.drop_last(), k);
        if s.last().0 == k {
            assert((s[s.len() - 1]).0 == k);
        } else {
            if map_of(s).contains_key(k) {
                let i = choose|i: int|
                    0 <= i < s.drop_last().len() && (#[trigger] s.drop_last()[i]).0 == k;
                assert((s[i]).0 == k);
            }
            if exists|i: int| 0 <= i < s.len() && (#[trigger] s[i]).0 == k {
                let i = choose|i: int| 0 <= i < s.len() && (#[trigger] s[i]).0 == k;
                assert(i < s.len() - 1);
                assert((s.drop_last()[i]).0 == k);
            }
        }
    }
}

/// In a store with distinct keys, the map agrees with every entry.
proof fn lemma_map_of_index<V>(s: Seq<(u128, V)>, i: int)
    requires
        0 <= i < s.len(),
        keys_distinct(s),
    ensures
        map_of(s).contains_key((s[i]).0),
        map_of(s)[(s[i]).0] == (s[i]).1,
    decreases s.len(),
{
    if i < s.len() - 1 {
        assert(keys_distinct(s.drop_last()));
        lemma_map_of_index(s.drop_last(), i);
        assert((s.drop_last()[i]) == s[i]);
        assert((s[i]).0 != s.last().0);
    }
}

/// Overwriting the entry that carries a key updates the map at that key.
proof fn lemma_map_of_update<V>(s: Seq<(u128, V)>, i: int, v: V)
    requires
        0 <= i < s.len(),
        keys_distinct(s),
    ensures
        map_of(s.update(i, ((s[i]).0, v))) == map_of(s).insert((s[i]).0, v),
    decreases s.len(),
{
    let k = (s[i]).0;
    let t = s.update(i, (k, v));
    if i == s.len() - 1 {
        assert(t.drop_last() =~= s.drop_last());
        assert(map_of(t) == map_of(s.drop_last()).insert(k, v));
        assert(map_of(s.drop_last()).insert(k, v) =~= map_of(s).insert(k, v));
    } else {
        assert(t.drop_last() =~= s.drop_last().update(i, (k, v)));
        assert(keys_distinct(s.drop_last()));
        lemma_map_of_update(s.drop_last(), i, v);
        assert(t.last() == s.last());
        assert(k != s.last().0);
        assert(map_of(t) == map_of(s.drop_last()).insert(k, v).insert(s.last().0, s.last().1));
        assert(map_of(s.drop_last()).insert(k, v).insert(s.last().0, s.last().1)
            =~= map_of(s).insert(k, v));
    }
}

/// A record store: key/value entries with pairwise distinct keys, viewed as
/// the finite map from keys to the stored records.
pub struct AssocVec<V> {
    entries: Vec<(u128, V)>,
}

impl<V: Copy> AssocVec<V> {
    /// The map this store represents.
    pub closed spec fn m(self) -> Map<u128, V> {
        map_of(self.entries@)
    }

    /// Well-formed: no two entries share a key.
    pub closed spec fn wf(self) -> bool {
        keys_distinct(self.entries@)
    }

    /// An empty store.
    pub fn new() -> (r: Self)
        ensures
            r.wf(),
            r.m() == Map::<u128, V>::empty(),
    {
        AssocVec { entries: Vec::new() }
    }

    /// The index of the entry carrying `k`, if any.
    fn find(&self, k: u128) -> (r: Option<usize>)
        ensures
            match r {
                Some(i) => i < self.entries@.len() && (self.entries@[i as int]).0 == k,
                None => forall|i: int|
                    0 <= i < self.entries@.len() ==> (#[trigger] self.entries@[i]).0 != k,
            },
    {
        let mut i: usize = 0;
        while i < self.entries.len()
            invariant
                i <= self.entries@.len(),
                forall|j: int| 0 <= j < i ==> (#[trigger] self.entries@[j]).0 != k,
            decreases self.entries@.len() - i,
        {
            if self.entries[i].0 == k {
                return Some(i);
            }
            i = i + 1;
        }
        None
    }

    /// The record stored under `k`, if any.
    pub fn get(&self, k: u128) -> (r: Option<V>)
        requires
            self.wf(),
        ensures
            self.m().contains_key(k) ==> r == Some(self.m()[k]),
            !self.m().contains_key(k) ==> r is None,
    {
        proof {
            lemma_map_of_contains(self.entries@, k);
        }
        match self.find(k) {
            Some(i) => {
                proof {
                    lemma_map_of_index(self.entries@, i as int);
                }
                Some(self.entries[i].1)
            },
            None => None,
        }
    }

    /// Stores `v` under `k`, overwriting any previous record.
    pub fn insert(&mut self, k: u128, v: V)
        requires
            old(self).wf(),
        ensures
            final(self).wf(),
            final(self).m() == old(self).m().insert(k, v),
    {
        match self.find(k) {
            Some(i) => {
                proof {
                    lemma_map_of_update(self.entries@, i as int, v);
                }
                self.entries.set(i, (k, v));
                proof {
                    assert(keys_distinct(self.entries@));
                }
            },
            None => {
                self.entries.push((k, v));
                proof {
                    assert(self.entries@.drop_last() =~= old(self).entries@);
                    assert(self.m() == old(self).m().insert(k, v));
                    assert forall|i: int, j: int|
                        0 <= i < j < self.entries@.len() implies
                        (#[trigger] self.entries@[i]).0 != (#[trigger] self.entries@[j]).0
                    by {
                        if j < self.entries@.len() - 1 {
                            assert((old(self).entries@[i]).0 != (old(self).entries@[j]).0);
                        } else {
                            assert((old(self).entries@[i]).0 != k);
                        }
                    }
                }
            },
        }
    }
}

} // verus!
