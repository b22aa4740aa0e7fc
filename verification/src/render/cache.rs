use std::collections::{HashMap, HashSet};
use std::hash::Hash;
use vstd::prelude::*;
use vstd::std_specs::hash::obeys_key_model;

verus! {

broadcast use vstd::std_specs::hash::group_hash_axioms;

/// Abstract state of a [`Cache`]: the cached entries and the keys marked as
/// used since the last call of `clear_unused`.
#[verifier::reject_recursive_types(K)]
pub ghost struct CacheModel<K, W> {
    pub entries: Map<K, W>,
    pub used: Set<K>,
}

/// State after `add(key, vec)`.
pub open spec fn model_add<K, W>(s: CacheModel<K, W>, key: K, entry: W) -> CacheModel<K, W> {
    CacheModel { entries: s.entries.insert(key, entry), used: s.used.insert(key) }
}

/// State after marking `key` as used.
pub open spec fn model_set_used<K, W>(s: CacheModel<K, W>, key: K) -> CacheModel<K, W> {
    CacheModel { entries: s.entries, used: s.used.insert(key) }
}

/// The keys that `clear_unused` drops: cached, and not used since the last clear.
pub open spec fn model_unused_keys<K, W>(s: CacheModel<K, W>) -> Set<K> {
    s.entries.dom().difference(s.used)
}

/// State after `clear_unused`: only the used entries stay, and nothing is marked used.
pub open spec fn model_clear_unused<K, W>(s: CacheModel<K, W>) -> CacheModel<K, W> {
    CacheModel { entries: s.entries.restrict(s.used), used: Set::empty() }
}

/// After `add(key, entry)`, the cache holds `entry` under `key`, and `key` is used.
pub proof fn law_add_then_get<K, W>(s: CacheModel<K, W>, key: K, entry: W)
    ensures
        model_add(s, key, entry).entries.contains_key(key),
        model_add(s, key, entry).entries[key] == entry,
        model_add(s, key, entry).used.contains(key),
{
}

/// `clear_unused` keeps exactly the entries whose key was used since the
/// previous clear, unchanged, and marks nothing as used.
pub proof fn law_clear_keeps_exactly_used<K, W>(s: CacheModel<K, W>, key: K)
    ensures
        model_clear_unused(s).entries.contains_key(key) <==> (s.entries.contains_key(key)
            && s.used.contains(key)),
        model_clear_unused(s).entries.contains_key(key) ==> model_clear_unused(s).entries[key]
            == s.entries[key],
        model_clear_unused(s).used.is_empty(),
{
}

/// An entry added since the previous clear survives the next clear.
pub proof fn law_added_survives_clear<K, W>(s: CacheModel<K, W>, key: K, entry: W)
    ensures
        model_clear_unused(model_add(s, key, entry)).entries.contains_key(key),
        model_clear_unused(model_add(s, key, entry)).entries[key] == entry,
{
}

/// Two clears with nothing used in between leave the cache empty; the second
/// drops every entry that the first kept.
pub proof fn law_clear_twice_empties<K, W>(s: CacheModel<K, W>)
    requires
        s.entries.dom().finite(),
    ensures
        model_clear_unused(model_clear_unused(s)).entries.is_empty(),
        model_unused_keys(model_clear_unused(s)).len() == model_clear_unused(s).entries.len(),
{
    let s1 = model_clear_unused(s);
    assert(model_unused_keys(s1) =~= s1.entries.dom());
    assert(model_clear_unused(s1).entries =~= Map::<K, W>::empty());
}

/// The entries that a clear drops and the ones it keeps add up to the entries
/// before it.
pub proof fn law_clear_count<K, W>(s: CacheModel<K, W>)
    requires
        s.entries.dom().finite(),
    ensures
        model_unused_keys(s).len() + model_clear_unused(s).entries.len() == s.entries.len(),
{
    let kept = model_clear_unused(s).entries.dom();
    let dropped = model_unused_keys(s);
    assert(kept =~= s.entries.dom().intersect(s.used));
    assert(kept.disjoint(dropped));
    assert(kept + dropped =~= s.entries.dom());
    vstd::set_lib::lemma_set_disjoint_lens(kept, dropped);
}

/// Marking a key as used twice: the second mark reports it was already used.
pub proof fn law_set_used_idempotent<K, W>(s: CacheModel<K, W>, key: K)
    ensures
        model_set_used(s, key).used.contains(key),
        model_set_used(model_set_used(s, key), key) == model_set_used(s, key),
{
    assert(model_set_used(s, key).used.insert(key) =~= model_set_used(s, key).used);
}

/// Keyed cache of vectors that forgets the entries that were not used since the
/// previous `clear_unused`.
pub struct Cache<K, V> where K: Eq + Hash + Copy {
    cached: HashMap<K, Vec<V>>,
    used: HashSet<K>,
}

impl<K, V> Cache<K, V> where K: Eq + Hash + Copy {
    pub closed spec fn model(&self) -> CacheModel<K, Seq<V>> {
        CacheModel {
            entries: self.cached@.map_values(|v: Vec<V>| v@),
            used: self.used@,
        }
    }

    pub fn new() -> (c: Self)
        ensures
            c.model().entries == Map::<K, Seq<V>>::empty(),
            c.model().used == Set::<K>::empty(),
    {
        let c = Cache { cached: HashMap::new(), used: HashSet::new() };
        assert(c.model().entries =~= Map::<K, Seq<V>>::empty());
        c
    }

    /// Stores `vec` under `key` and marks `key` as used; returns whether an
    /// entry under `key` was replaced.
    pub fn add(&mut self, key: K, vec: Vec<V>) -> (replaced: bool)
        requires
            obeys_key_model::<K>(),
        ensures
            final(self).model() == model_add(old(self).model(), key, vec@),
            replaced == old(self).model().entries.contains_key(key),
    {
        let ghost v = vec@;
        let prev = self.cached.insert(key, vec);
        self.set_used(key);
        proof {
            assert(self.model().entries =~= old(self).model().entries.insert(key, v));
        }
        prev.is_some()
    }

    /// Marks `key` as used; returns whether it was already marked.
    pub fn set_used(&mut self, key: K) -> (already: bool)
        requires
            obeys_key_model::<K>(),
        ensures
            final(self).model() == model_set_used(old(self).model(), key),
            already == old(self).model().used.contains(key),
    {
        !self.used.insert(key)
    }

    /// Marks `key` as used and returns the vector cached under it.
    pub fn get(&mut self, key: &K) -> (r: Option<&Vec<V>>)
        requires
            obeys_key_model::<K>(),
        ensures
            final(self).model() == model_set_used(old(self).model(), *key),
            r is Some <==> old(self).model().entries.contains_key(*key),
            r matches Some(v) ==> v@ == old(self).model().entries[*key],
    {
        self.set_used(*key);
        self.cached.get(key)
    }

    /// Drops every entry not used since the previous call, clears the used
    /// marks, and returns how many entries were dropped.
    pub fn clear_unused(&mut self) -> (removed: usize)
        requires
            obeys_key_model::<K>(),
        ensures
            final(self).model() == model_clear_unused(old(self).model()),
            removed == model_unused_keys(old(self).model()).len(),
    {
        let unused = collect_unused(&self.cached, &self.used);
        let ghost used = self.used@;
        remove_all(&mut self.cached, &unused);
        self.used.clear();
        proof {
            assert(self.model().entries =~= old(self).model().entries.restrict(used));
            assert(old(self).model().entries.dom() =~= old(self).cached@.dom());
        }
        unused.len()
    }
}

/// The keys of `cached` that are not in `used`, each once.
pub(crate) fn collect_unused<K: Eq + Hash + Copy, W>(cached: &HashMap<K, W>, used: &HashSet<K>) -> (unused: Vec<K>)
    requires
        obeys_key_model::<K>(),
    ensures
        unused@.no_duplicates(),
        unused@.to_set() == cached@.dom().difference(used@),
        unused@.len() == cached@.dom().difference(used@).len(),
{
    let mut unused: Vec<K> = Vec::new();
    let ghost used_set = used@;
    let ghost dom = cached@.dom();
    let ghost mut pos: Seq<int> = Seq::empty();
    for k in it: cached.keys()
        invariant
            obeys_key_model::<K>(),
            used@ == used_set,
            cached@.dom() == dom,
            it.seq().unref().to_set() == dom,
            it.seq().no_duplicates(),
            pos.len() == unused.len(),
            unused@.no_duplicates(),
            forall|i: int|
                0 <= i < unused.len() ==> #[trigger] dom.contains(unused@[i]) && !used_set.contains(
                    unused@[i],
                ),
            forall|i: int|
                0 <= i < unused.len() ==> 0 <= #[trigger] pos[i] < it.index() && *it.seq()[pos[i]]
                    == unused@[i] && !used_set.contains(unused@[i]),
            forall|i: int, i2: int| 0 <= i < i2 < unused.len() ==> pos[i] < pos[i2],
            forall|j: int|
                0 <= j < it.index() && !used_set.contains(*it.seq()[j]) ==> unused@.contains(
                    *it.seq()[j],
                ),
            it.index() == it.seq().len() ==> (forall|x: K|
                dom.contains(x) && !used_set.contains(x) ==> unused@.contains(x)),
    {
        assert(*k == *it.seq()[it.index()]);
        if !used.contains(k) {
            proof {
                assert(it.seq().unref()[it.index()] == *k);
                assert(it.seq().unref().contains(*k));
                assert(it.seq().unref().to_set().contains(*k));
            }
            let ghost old_unused = unused@;
            unused.push(*k);
            proof {
                assert forall|i: int| 0 <= i < old_unused.len() implies old_unused[i] != *k by {
                    assert(*it.seq()[pos[i]] == old_unused[i]);
                }
                pos = pos.push(it.index());
                assert forall|j: int|
                    0 <= j < it.index() + 1 && !used_set.contains(*it.seq()[j]) implies unused@.contains(
                    *it.seq()[j]) by {
                    if j < it.index() {
                        let w = choose|w: int| 0 <= w < old_unused.len() && old_unused[w] == *it.seq()[j];
                        assert(unused@[w] == old_unused[w]);
                    } else {
                        assert(unused@[unused.len() - 1] == *k);
                    }
                }
            }
        }
        assert forall|x: K|
            it.index() + 1 == it.seq().len() && dom.contains(x) && !used_set.contains(x) implies unused@.contains(x) by {
            assert(it.seq().unref().to_set().contains(x));
            assert(it.seq().unref().contains(x));
            let j = choose|j: int| 0 <= j < it.seq().len() && it.seq().unref()[j] == x;
            assert(*it.seq()[j] == x);
        }
    }
    proof {
        assert(forall|x: K| dom.contains(x) && !used_set.contains(x) ==> unused@.contains(x));
        assert(unused@.to_set() =~= dom.difference(used_set));
        unused@.unique_seq_to_set();
    }
    unused
}

/// Removes every key of `keys` from `cached`.
pub(crate) fn remove_all<K: Eq + Hash + Copy, W>(cached: &mut HashMap<K, W>, keys: &Vec<K>)
    requires
        obeys_key_model::<K>(),
    ensures
        final(cached)@ == old(cached)@.remove_keys(keys@.to_set()),
{
    let ghost old_cached = cached@;
    let mut i: usize = 0;
    while i < keys.len()
        invariant
            obeys_key_model::<K>(),
            i <= keys.len(),
            cached@ == old_cached.remove_keys(keys@.take(i as int).to_set()),
        decreases keys.len() - i,
    {
        cached.remove(&keys[i]);
        proof {
            assert(keys@.take(i + 1) =~= keys@.take(i as int).push(keys@[i as int]));
            keys@.take(i as int).lemma_push_to_set_commute(keys@[i as int]);
            assert(cached@ =~= old_cached.remove_keys(keys@.take(i + 1).to_set()));
        }
        i = i + 1;
    }
    proof {
        assert(keys@.take(keys.len() as int) =~= keys@);
    }
}

} // verus!
