use std::collections::HashMap;
use std::sync::atomic::AtomicU32;
use std::sync::Arc;
use vstd::prelude::*;

verus! {

/// A loaded asset, known by its id.
pub trait Asset {
    fn id(&self) -> AssetId;
}

#[derive(Clone, Copy, Debug, Eq, Hash, PartialEq, Structural)]
pub struct AssetId(pub u32);

impl AssetId {
    pub fn new(id: u32) -> (r: Self)
        ensures
            r == AssetId(id),
    {
        AssetId(id)
    }
}

/// Hands out asset ids from a counter that all its clones share.
#[derive(Clone, Debug)]
pub struct AssetIdGenerator {
    next_id: Arc<AtomicU32>,
}

impl AssetIdGenerator {
    /// A generator whose counter starts at 0.
    pub fn new() -> (r: Self) {
        AssetIdGenerator { next_id: Arc::new(AtomicU32::new(0)) }
    }

    /// The next id: the counter's value, which is then incremented (wrapping). The counter is
    /// shared with the generator's clones, so nothing is stated of the value it held.
    pub fn next(&self) -> (r: AssetId) {
        let id = self.next_id.fetch_add(1, std::sync::atomic::Ordering::SeqCst);
        AssetId::new(id)
    }
}

/// The loaded assets of one kind, by id.
pub struct Assets<T: Asset> {
    pub assets: HashMap<AssetId, Arc<T>>,
}

impl<T: Asset> Assets<T> {
    pub fn new() -> (r: Self)
        ensures
            r.assets@ == Map::<AssetId, Arc<T>>::empty(),
    {
        Assets { assets: HashMap::new() }
    }
}

/// The ids given to the things a scene names by index (its materials, its images): each
/// index keeps the id it got first.
pub struct AssetIds {
    ids: HashMap<u64, AssetId>,
}

impl AssetIds {
    /// The id of each index that got one.
    pub closed spec fn view(&self) -> Map<u64, AssetId> {
        self.ids@
    }

    pub fn new() -> (r: Self)
        ensures
            r.view() == Map::<u64, AssetId>::empty(),
    {
        AssetIds { ids: HashMap::new() }
    }

    /// The id of `key`: the one it got before, or else the generator's next id, which it keeps.
    pub fn to_asset_id(&mut self, key: u64, generator: &AssetIdGenerator) -> (r: AssetId)
        ensures
            old(self).view().contains_key(key) ==> r == old(self).view()[key] && final(self).view() == old(self).view(),
            !old(self).view().contains_key(key) ==> final(self).view() == old(self).view().insert(key, r),
    {
        broadcast use vstd::std_specs::hash::group_hash_axioms;

        match self.ids.get(&key) {
            Some(id) => *id,
            None => {
                let id = generator.next();
                self.ids.insert(key, id);
                id
            },
        }
    }
}

/// An index keeps its first id: asking again for an index that has an id gives that id and
/// changes nothing.
pub proof fn lemma_ids_stable(before: Map<u64, AssetId>, key: u64, first: AssetId, after: Map<u64, AssetId>)
    requires
        !before.contains_key(key) ==> after == before.insert(key, first),
        before.contains_key(key) ==> first == before[key] && after == before,
    ensures
        after.contains_key(key),
        after[key] == first,
        forall|k: u64| k != key && before.contains_key(k) ==> #[trigger] after.contains_key(k) && after[k] == before[k],
{
}

impl<T: Asset> Default for Assets<T> {
    fn default() -> (r: Self)
        ensures
            r.assets@ == Map::<AssetId, Arc<T>>::empty(),
    {
        Self::new()
    }
}

} // verus!
