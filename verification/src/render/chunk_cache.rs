use std::collections::{HashMap, HashSet};
use vstd::prelude::*;
use crate::render::cache::{
    collect_unused, remove_all, model_add, model_clear_unused, model_set_used, model_unused_keys,
    CacheModel,
};
use crate::types::safecloner::SafeCloner;

verus! {

broadcast use vstd::std_specs::hash::group_hash_axioms;

/// Identifier of a chunk.
pub type ChunkId = u64;

/// `entry` is what `prepare` stores under `key`: the first blueprint with
/// that id, and render chunks that `build` returned for it.
pub open spec fn built_from_first<C, B: Clone, F: Fn(&B) -> Vec<C>>(
    chunk_bps: Seq<(ChunkId, SafeCloner<B>)>,
    key: ChunkId,
    entry: (Seq<C>, B),
    build: F,
) -> bool {
    exists|i: int|
        0 <= i < chunk_bps.len() && chunk_bps[i].0 == key && (forall|j: int|
            0 <= j < i ==> chunk_bps[j].0 != key) && entry.1 == chunk_bps[i].1.value() && (exists|
            v: Vec<C>,
        |
            build.ensures((&chunk_bps[i].1.value(),), v) && v@ == entry.0)
}

/// Cache of the render chunks built from chunk blueprints, keyed by chunk id.
/// Each entry keeps the blueprint it was built from, so that a change of the
/// blueprint is noticed.
pub struct ChunkCache<C, B> where B: Clone {
    cached: HashMap<ChunkId, (Vec<C>, SafeCloner<B>)>,
    used: HashSet<ChunkId>,
}

impl<C, B> ChunkCache<C, B> where B: Clone {
    /// Entries (render chunks and blueprint value) and the keys used since the
    /// last `clear_unused`.
    pub closed spec fn model(&self) -> CacheModel<ChunkId, (Seq<C>, B)> {
        CacheModel {
            entries: self.cached@.map_values(|e: (Vec<C>, SafeCloner<B>)| (e.0@, e.1.value())),
            used: self.used@,
        }
    }

    pub fn new() -> (c: Self)
        ensures
            c.model().entries == Map::<ChunkId, (Seq<C>, B)>::empty(),
            c.model().used == Set::<ChunkId>::empty(),
    {
        let c = ChunkCache { cached: HashMap::new(), used: HashSet::new() };
        assert(c.model().entries =~= Map::<ChunkId, (Seq<C>, B)>::empty());
        c
    }

    /// Stores the chunks built from `chunk_bp` under `key` and marks `key` as
    /// used; returns whether an entry under `key` was replaced.
    pub fn add(&mut self, key: ChunkId, chunk_bp: SafeCloner<B>, chunks: Vec<C>) -> (replaced: bool)
        ensures
            final(self).model() == model_add(old(self).model(), key, (chunks@, chunk_bp.value())),
            replaced == old(self).model().entries.contains_key(key),
    {
        let ghost e = (chunks@, chunk_bp.value());
        let prev = self.cached.insert(key, (chunks, chunk_bp));
        self.set_used(key);
        proof {
            assert(self.model().entries =~= old(self).model().entries.insert(key, e));
        }
        prev.is_some()
    }

    /// Marks `key` as used; returns whether it was already marked.
    pub fn set_used(&mut self, key: ChunkId) -> (already: bool)
        ensures
            final(self).model() == model_set_used(old(self).model(), key),
            already == old(self).model().used.contains(key),
    {
        !self.used.insert(key)
    }

    /// The render chunks cached under `key` (does not mark it used).
    pub fn get(&self, key: &ChunkId) -> (r: Option<&Vec<C>>)
        ensures
            r is Some <==> self.model().entries.contains_key(*key),
            r matches Some(v) ==> v@ == self.model().entries[*key].0,
    {
        match self.cached.get(key) {
            Some(entry) => Some(&entry.0),
            None => None,
        }
    }

    /// Makes the cache ready to draw the chunk blueprints `chunk_bps` (each with
    /// its chunk id), in order: a blueprint whose id has no entry gets one,
    /// with the render chunks that `build` makes from it and a reader of the
    /// blueprint; every id is marked used. Returns the ids, in order.
    pub fn prepare<F>(&mut self, chunk_bps: &[(ChunkId, SafeCloner<B>)], build: F) -> (ids: Vec<ChunkId>)
        where F: Fn(&B) -> Vec<C>
        requires
            forall|b: &B| #[trigger] build.requires((b,)),
        ensures
            ids@ == chunk_bps@.map_values(|e: (ChunkId, SafeCloner<B>)| e.0),
            final(self).model().used == old(self).model().used + ids@.to_set(),
            forall|k: ChunkId|
                #[trigger] final(self).model().entries.contains_key(k) <==> (old(self).model().entries.contains_key(k)
                    || ids@.contains(k)),
            forall|k: ChunkId|
                #[trigger] old(self).model().entries.contains_key(k) ==> final(self).model().entries[k]
                    == old(self).model().entries[k],
            forall|k: ChunkId|
                !old(self).model().entries.contains_key(k) && #[trigger] final(self).model().entries.contains_key(k)
                    ==> built_from_first(chunk_bps@, k, final(self).model().entries[k], build),
    {
        let mut ids: Vec<ChunkId> = Vec::new();
        let mut i: usize = 0;
        while i < chunk_bps.len()
            invariant
                i <= chunk_bps@.len(),
                forall|b: &B| #[trigger] build.requires((b,)),
                ids@ == chunk_bps@.take(i as int).map_values(|e: (ChunkId, SafeCloner<B>)| e.0),
                self.model().used == old(self).model().used + ids@.to_set(),
                forall|k: ChunkId|
                    #[trigger] self.model().entries.contains_key(k) <==> (old(self).model().entries.contains_key(k)
                        || ids@.contains(k)),
                forall|k: ChunkId|
                    #[trigger] old(self).model().entries.contains_key(k) ==> self.model().entries[k]
                        == old(self).model().entries[k],
                forall|k: ChunkId|
                    !old(self).model().entries.contains_key(k) && #[trigger] self.model().entries.contains_key(k)
                        ==> built_from_first(chunk_bps@, k, self.model().entries[k], build),
            decreases chunk_bps@.len() - i,
        {
            let id = chunk_bps[i].0;
            let ghost before = self.model();
            let ghost old_ids = ids@;
            assert(forall|k: ChunkId| #[trigger] before.entries.contains_key(k) <==> (old(self).model().entries.contains_key(k)
                || old_ids.contains(k)));
            if self.get(&id).is_none() {
                let chunks = build(chunk_bps[i].1.get());
                let cloned_chunk_bp = chunk_bps[i].1.clone_read();
                self.add(id, cloned_chunk_bp, chunks);
                proof {
                    assert forall|j: int| 0 <= j < i implies chunk_bps@[j].0 != id by {
                        assert(old_ids[j] == chunk_bps@[j].0);
                        assert(old_ids.contains(chunk_bps@[j].0));
                    }
                    assert(built_from_first(chunk_bps@, id, self.model().entries[id], build));
                }
            }
            assert(self.model().entries.dom() =~= before.entries.dom().insert(id));
            self.set_used(id);
            ids.push(id);
            proof {
                assert(ids@[old_ids.len() as int] == id);
                assert(ids@.contains(id));
                assert(chunk_bps@.take(i + 1).map_values(|e: (ChunkId, SafeCloner<B>)| e.0)
                    =~= old_ids.push(id));
                old_ids.lemma_push_to_set_commute(id);
                assert(self.model().used =~= old(self).model().used + ids@.to_set());
                assert forall|k: ChunkId| #[trigger] self.model().entries.contains_key(k) <==> (
                    old(self).model().entries.contains_key(k) || ids@.contains(k)) by {
                    assert(before.entries.contains_key(k) <==> (old(self).model().entries.contains_key(k)
                        || old_ids.contains(k)));
                    assert(self.model().entries.contains_key(k) <==> (before.entries.contains_key(k) || k == id));
                    if ids@.contains(k) && k != id {
                        let w = choose|w: int| 0 <= w < ids@.len() && ids@[w] == k;
                        assert(old_ids[w] == k);
                    }
                    if old_ids.contains(k) {
                        let w = choose|w: int| 0 <= w < old_ids.len() && old_ids[w] == k;
                        assert(ids@[w] == k);
                    }
                }
            }
            i = i + 1;
        }
        proof {
            assert(chunk_bps@.take(chunk_bps@.len() as int) =~= chunk_bps@);
        }
        ids
    }

    /// Drops every entry not used since the previous call, clears the used
    /// marks, and returns how many entries were dropped.
    pub fn clear_unused(&mut self) -> (removed: usize)
        ensures
            final(self).model() == model_clear_unused(old(self).model()),
            removed == model_unused_keys(old(self).model()).len(),
    {
        let unused = collect_unused(&self.cached, &self.used);
        let ghost used = self.used@;
        remove_all(&mut self.cached, &unused);
        self.used.clear();
        proof {
            assert(self.model().entries =~= old(self).model().entries.restrict(used));
            assert(old(self).model().entries.dom() =~= old(self).cached@.dom());
        }
        unused.len()
    }
}

} // verus!
