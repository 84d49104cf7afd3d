//! In-memory key-value storage with check-then-act semantics per key: an
//! association map whose abstract value is a `Map` from key views to
//! values, and a set of identifiers used for replay accounting.
//!
//! The stores required by the protocol (task registry, report stores,
//! helper state, batch accounting) are all instances of these.

use vstd::prelude::*;

verus! {

/// A key usable in an association map: it has an abstract view and a
/// by-value comparison that decides view equality.
pub trait MapKey: View + Copy {
    /// Decides whether two keys have the same abstract value.
    fn eq_key(&self, other: &Self) -> (r: bool)
        ensures
            r <==> self@ == other@,
    ;
}

/// True when no two entries of `s` share a key view.
pub open spec fn keys_distinct<K: View + Copy, V>(s: Seq<(K, V)>) -> bool {
    forall|i: int, j: int| 0 <= i < j < s.len() ==> s[i].0@ != s[j].0@
}

/// The map described by an association sequence; later entries win.
pub open spec fn assoc_view<K: View + Copy, V>(s: Seq<(K, V)>) -> Map<<K as View>::V, V>
    decreases s.len(),
{
    if s.len() == 0 {
        Map::empty()
    } else {
        assoc_view(s.drop_last()).insert(s.last().0@, s.last().1)
    }
}

/// A key of `s` is a key of its map, bound to the entry's value, when the
/// keys of `s` are distinct.
pub proof fn lemma_assoc_view_index<K: View + Copy, V>(s: Seq<(K, V)>, i: int)
    requires
        keys_distinct(s),
        0 <= i < s.len(),
    ensures
        assoc_view(s).contains_key(s[i].0@),
        assoc_view(s)[s[i].0@] == s[i].1,
    decreases s.len(),
{
    if i == s.len() - 1 {
    } else {
        assert(keys_distinct(s.drop_last()));
        lemma_assoc_view_index(s.drop_last(), i);
        assert(s.drop_last()[i] == s[i]);
        assert(s.last().0@ != s[i].0@);
    }
}

/// A view absent from every entry of `s` is absent from its map.
pub proof fn lemma_assoc_view_absent<K: View + Copy, V>(s: Seq<(K, V)>, k: <K as View>::V)
    requires
        forall|j: int| 0 <= j < s.len() ==> s[j].0@ != k,
    ensures
        !assoc_view(s).contains_key(k),
    decreases s.len(),
{
    if s.len() > 0 {
        lemma_assoc_view_absent(s.drop_last(), k);
    }
}

/// Updating the value of entry `i` updates the map at that entry's key.
pub proof fn lemma_assoc_view_update<K: View + Copy, V>(s: Seq<(K, V)>, i: int, p: (K, V))
    requires
        keys_distinct(s),
        0 <= i < s.len(),
        p.0@ == s[i].0@,
    ensures
        assoc_view(s.update(i, p)) == assoc_view(s).insert(p.0@, p.1),
    decreases s.len(),
{
    let t = s.update(i, p);
    if i == s.len() - 1 {
        assert(t.drop_last() =~= s.drop_last());
        assert(assoc_view(t) == assoc_view(s.drop_last()).insert(p.0@, p.1));
        assert(assoc_view(s).insert(p.0@, p.1) == assoc_view(s.drop_last()).insert(
            s.last().0@,
            s.last().1,
        ).insert(p.0@, p.1));
        assert(assoc_view(s.drop_last()).insert(p.0@, p.1) =~= assoc_view(s.drop_last()).insert(
            s.last().0@,
            s.last().1,
        ).insert(p.0@, p.1));
    } else {
        assert(keys_distinct(s.drop_last()));
        assert(t.drop_last() =~= s.drop_last().update(i, p));
        lemma_assoc_view_update(s.drop_last(), i, p);
        assert(t.last() == s.last());
        assert(assoc_view(t) == assoc_view(s.drop_last()).insert(p.0@, p.1).insert(
            s.last().0@,
            s.last().1,
        ));
        // The two inserted keys differ, so the inserts commute.
        assert(s.last().0@ != p.0@);
        assert(assoc_view(s.drop_last()).insert(p.0@, p.1).insert(s.last().0@, s.last().1)
            =~= assoc_view(s.drop_last()).insert(s.last().0@, s.last().1).insert(p.0@, p.1));
    }
}

/// Removing entry `i` removes that entry's key from the map.
pub proof fn lemma_assoc_view_remove<K: View + Copy, V>(s: Seq<(K, V)>, i: int)
    requires
        keys_distinct(s),
        0 <= i < s.len(),
    ensures
        assoc_view(s.remove(i)) == assoc_view(s).remove(s[i].0@),
    decreases s.len(),
{
    let t = s.remove(i);
    if i == s.len() - 1 {
        assert(t =~= s.drop_last());
        lemma_assoc_view_absent_of_distinct(s.drop_last(), s[i].0@, s);
        assert(assoc_view(s).remove(s[i].0@) =~= assoc_view(s.drop_last()));
    } else {
        assert(keys_distinct(s.drop_last()));
        assert(t.drop_last() =~= s.drop_last().remove(i));
        lemma_assoc_view_remove(s.drop_last(), i);
        assert(t.last() == s.last());
        assert(assoc_view(t) == assoc_view(s.drop_last()).remove(s[i].0@).insert(
            s.last().0@,
            s.last().1,
        ));
        assert(s.last().0@ != s[i].0@);
        assert(assoc_view(s.drop_last()).remove(s[i].0@).insert(s.last().0@, s.last().1)
            =~= assoc_view(s.drop_last()).insert(s.last().0@, s.last().1).remove(s[i].0@));
    }
}

/// Helper: with distinct keys, a key taken from position `s.len() - 1` of
/// `s` is absent from the map of the remaining prefix.
proof fn lemma_assoc_view_absent_of_distinct<K: View + Copy, V>(
    prefix: Seq<(K, V)>,
    k: <K as View>::V,
    s: Seq<(K, V)>,
)
    requires
        keys_distinct(s),
        s.len() > 0,
        prefix == s.drop_last(),
        k == s[s.len() - 1].0@,
    ensures
        !assoc_view(prefix).contains_key(k),
{
    assert(forall|j: int| 0 <= j < prefix.len() ==> prefix[j].0@ != k);
    lemma_assoc_view_absent(prefix, k);
}

/// An association map from keys to values, the shape of every store the
/// protocol needs: lookups, check-then-act insertion and removal are all
/// by key value.
pub struct AssocMap<K: MapKey, V> {
    pairs: Vec<(K, V)>,
}

impl<K: MapKey, V> View for AssocMap<K, V> {
    type V = Map<<K as View>::V, V>;

    closed spec fn view(&self) -> Map<<K as View>::V, V> {
        assoc_view(self.pairs@)
    }
}

impl<K: MapKey, V> AssocMap<K, V> {
    /// No two stored entries share a key.
    pub closed spec fn wf(&self) -> bool {
        keys_distinct(self.pairs@)
    }

    /// The empty map.
    pub fn new() -> (r: Self)
        ensures
            r.wf(),
            r@ == Map::<<K as View>::V, V>::empty(),
    {
        AssocMap { pairs: Vec::new() }
    }

    /// The index of the entry holding `k`, if any.
    fn find(&self, k: &K) -> (r: Option<usize>)
        requires
            self.wf(),
        ensures
            match r {
                Some(i) => i < self.pairs@.len() && self.pairs@[i as int].0@ == k@
                    && self@.contains_key(k@) && self@[k@] == self.pairs@[i as int].1,
                None => !self@.contains_key(k@),
            },
    {
        let mut i: usize = 0;
        while i < self.pairs.len()
            invariant
                self.wf(),
                i <= self.pairs@.len(),
                forall|j: int| 0 <= j < i ==> self.pairs@[j].0@ != k@,
            decreases self.pairs@.len() - i,
        {
            if self.pairs[i].0.eq_key(k) {
                proof {
                    lemma_assoc_view_index(self.pairs@, i as int);
                }
                return Some(i);
            }
            i += 1;
        }
        proof {
            lemma_assoc_view_absent(self.pairs@, k@);
        }
        None
    }

    /// Whether the map holds a value for `k`.
    pub fn contains_key(&self, k: &K) -> (r: bool)
        requires
            self.wf(),
        ensures
            r <==> self@.contains_key(k@),
    {
        self.find(k).is_some()
    }

    /// The value bound to `k`, if any.
    pub fn get(&self, k: &K) -> (r: Option<&V>)
        requires
            self.wf(),
        ensures
            match r {
                Some(v) => self@.contains_key(k@) && *v == self@[k@],
                None => !self@.contains_key(k@),
            },
    {
        match self.find(k) {
            Some(i) => Some(&self.pairs[i].1),
            None => None,
        }
    }

    /// Binds `k` to `v`, replacing any earlier binding.
    pub fn set(&mut self, k: &K, v: V)
        requires
            old(self).wf(),
        ensures
            final(self).wf(),
            final(self)@ == old(self)@.insert(k@, v),
    {
        match self.find(k) {
            Some(i) => {
                let ghost s = self.pairs@;
                let old_pair = self.pairs.remove(i);
                self.pairs.insert(i, (old_pair.0, v));
                proof {
                    assert(self.pairs@ =~= s.update(i as int, (old_pair.0, v)));
                    lemma_assoc_view_update(s, i as int, (old_pair.0, v));
                    assert(keys_distinct(self.pairs@));
                    assert(old_pair.0@ == k@);
                    assert(self@ =~= old(self)@.insert(k@, v));
                }
            },
            None => {
                let ghost s = self.pairs@;
                self.pairs.push((*k, v));
                proof {
                    assert(self.pairs@.drop_last() =~= s);
                    assert(self@ == assoc_view(s).insert(k@, v));
                    assert(keys_distinct(self.pairs@)) by {
                        assert(forall|j: int| 0 <= j < s.len() ==> s[j].0@ != k@) by {
                            if exists|j: int| 0 <= j < s.len() && s[j].0@ == k@ {
                                let j = choose|j: int| 0 <= j < s.len() && s[j].0@ == k@;
                                lemma_assoc_view_index(s, j);
                            }
                        }
                    }
                }
            },
        }
    }

    /// Removes and returns the value bound to `k`, if any.
    pub fn remove(&mut self, k: &K) -> (r: Option<V>)
        requires
            old(self).wf(),
        ensures
            final(self).wf(),
            match r {
                Some(v) => old(self)@.contains_key(k@) && v == old(self)@[k@] && final(self)@
                    == old(self)@.remove(k@),
                None => !old(self)@.contains_key(k@) && final(self)@ == old(self)@,
            },
    {
        match self.find(k) {
            Some(i) => {
                let ghost s = self.pairs@;
                let pair = self.pairs.remove(i);
                proof {
                    assert(self.pairs@ =~= s.remove(i as int));
                    lemma_assoc_view_remove(s, i as int);
                    assert(keys_distinct(self.pairs@)) by {
                        assert(forall|a: int, b: int|
                            0 <= a < b < self.pairs@.len() ==> self.pairs@[a].0@
                                != self.pairs@[b].0@) by {
                            assert(forall|a: int|
                                0 <= a < self.pairs@.len() ==> exists|a0: int|
                                    0 <= a0 < s.len() && s[a0] == #[trigger] self.pairs@[a]);
                        }
                    }
                }
                Some(pair.1)
            },
            None => None,
        }
    }
}

/// A set of 32-byte identifiers: the shape of the per-task replay set.
pub struct IdSet {
    items: Vec<[u8; 32]>,
}

impl View for IdSet {
    type V = Set<Seq<u8>>;

    closed spec fn view(&self) -> Set<Seq<u8>> {
        Set::new(|k: Seq<u8>| exists|i: int| 0 <= i < self.items@.len() && self.items@[i]@ == k)
    }
}

impl IdSet {
    /// The empty set.
    pub fn new() -> (r: Self)
        ensures
            r@ == Set::<Seq<u8>>::empty(),
    {
        let r = IdSet { items: Vec::new() };
        proof {
            assert(r@ =~= Set::<Seq<u8>>::empty());
        }
        r
    }

    /// Whether `id` is a member.
    pub fn contains(&self, id: &[u8; 32]) -> (r: bool)
        ensures
            r <==> self@.contains(id@),
    {
        let mut i: usize = 0;
        while i < self.items.len()
            invariant
                i <= self.items@.len(),
                forall|j: int| 0 <= j < i ==> self.items@[j]@ != id@,
            decreases self.items@.len() - i,
        {
            if crate::bytesutil::bytes32_eq(&self.items[i], id) {
                return true;
            }
            i += 1;
        }
        false
    }

    /// Adds `id` to the set.
    pub fn insert(&mut self, id: [u8; 32])
        ensures
            final(self)@ == old(self)@.insert(id@),
    {
        self.items.push(id);
        proof {
            assert(self@ =~= old(self)@.insert(id@)) by {
                assert(forall|k: Seq<u8>| old(self)@.contains(k) ==> self@.contains(k)) by {
                    assert(forall|j: int|
                        0 <= j < old(self).items@.len() ==> self.items@[j] == #[trigger] old(
                            self,
                        ).items@[j]);
                }
                assert(self.items@[self.items@.len() - 1]@ == id@);
                assert(forall|k: Seq<u8>|
                    self@.contains(k) ==> old(self)@.insert(id@).contains(k)) by {
                    assert(forall|j: int|
                        0 <= j < old(self).items@.len() ==> #[trigger] self.items@[j] == old(
                            self,
                        ).items@[j]);
                }
            }
        }
    }
}

} // verus!
