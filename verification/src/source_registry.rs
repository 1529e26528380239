//! Data sources by the keys of the domain.
//!
//! Each type of key has a map of its own, so that keys of different types never meet. The
//! maps form a list, like the resources of a world.
use crate::reactor_model::DataSource;
use crate::world::{Apart, Resource, With};
use rustc_hash::{FxBuildHasher, FxHashMap};
use std::hash::Hash;
use vstd::prelude::*;
use vstd::std_specs::hash::obeys_key_model;

verus! {

/// `rustc_hash::FxBuildHasher`, the hasher of an `FxHashMap`.
#[verifier::external_type_specification]
#[verifier::external_body]
pub struct ExFxBuildHasher(FxBuildHasher);

/// `FxHashMap::default`: a map without entries.
#[verifier::external_body]
fn fx_map_default<K>() -> (fresh: FxHashMap<K, DataSource>)
    ensures
        fresh@.dom() == Set::<K>::empty(),
{
    FxHashMap::default()
}

/// `HashMap::insert` on an `FxHashMap`: the key is mapped to the source, whatever it was mapped
/// to before. Claimed of keys whose `Hash` and `Eq` agree with equality.
#[verifier::external_body]
fn fx_map_insert<K: Hash + Eq>(map: &mut FxHashMap<K, DataSource>, key: K, source: DataSource)
    ensures
        obeys_key_model::<K>() ==> final(map)@ == old(map)@.insert(key, source),
{
    map.insert(key, source);
}

/// `HashMap::get` on an `FxHashMap`: what the key is mapped to. Claimed of keys whose `Hash` and
/// `Eq` agree with equality.
#[verifier::external_body]
fn fx_map_get<K: Hash + Eq>(map: &FxHashMap<K, DataSource>, key: &K) -> (source: Option<DataSource>)
    ensures
        obeys_key_model::<K>() ==> source == lookup(map@, *key),
{
    map.get(key).copied()
}

/// `HashMap::remove` on an `FxHashMap`: the key is not mapped any more; returns what it was
/// mapped to. Claimed of keys whose `Hash` and `Eq` agree with equality.
#[verifier::external_body]
fn fx_map_remove<K: Hash + Eq>(
    map: &mut FxHashMap<K, DataSource>,
    key: &K,
) -> (source: Option<DataSource>)
    ensures
        obeys_key_model::<K>()
            ==> source == lookup(old(map)@, *key) && final(map)@ == old(map)@.remove(*key),
{
    map.remove(key)
}

/// `HashMap::contains_key` on an `FxHashMap`: whether the key is mapped. Claimed of keys whose
/// `Hash` and `Eq` agree with equality.
#[verifier::external_body]
fn fx_map_contains_key<K: Hash + Eq>(map: &FxHashMap<K, DataSource>, key: &K) -> (found: bool)
    ensures
        obeys_key_model::<K>() ==> found == map@.dom().contains(*key),
{
    map.contains_key(key)
}

/// What a key is mapped to.
pub open spec fn lookup<K>(map: Map<K, DataSource>, key: K) -> Option<DataSource> {
    if map.dom().contains(key) {
        Some(map[key])
    } else {
        None
    }
}

/// The sources of one type of key.
pub struct SourceMap<K> {
    map: FxHashMap<K, DataSource>,
}

impl<K> View for SourceMap<K> {
    type V = Map<K, DataSource>;

    closed spec fn view(&self) -> Map<K, DataSource> {
        self.map@
    }
}

impl<K> SourceMap<K> {
    pub fn new() -> (map: Self)
        ensures
            map@ == Map::<K, DataSource>::empty(),
    {
        let map = SourceMap { map: fx_map_default() };
        assert(map@ =~= Map::<K, DataSource>::empty());
        map
    }
}

/// Data sources by key, for several types of key. Lives in the world as a resource.
pub struct SourceRegistry<M> {
    pub maps: M,
}

impl SourceRegistry<()> {
    /// For no type of key yet.
    pub fn new() -> (registry: Self)
        ensures
            registry.maps == (),
    {
        SourceRegistry { maps: () }
    }
}

impl Default for SourceRegistry<()> {
    fn default() -> (registry: Self)
        ensures
            registry.maps == (),
    {
        SourceRegistry { maps: () }
    }
}

impl<M> SourceRegistry<M> {
    /// Adds a type of key.
    pub fn with_keys<K>(self) -> (registry: SourceRegistry<With<SourceMap<K>, M>>)
        ensures
            registry.maps.value@ == Map::<K, DataSource>::empty(),
            registry.maps.rest == self.maps,
    {
        SourceRegistry { maps: With { value: SourceMap::new(), rest: self.maps } }
    }

    /// The sources of the keys of type `K`.
    pub open spec fn sources<K, I>(&self) -> Map<K, DataSource> where M: Resource<SourceMap<K>, I> {
        self.maps.held()@
    }

    /// Maps a key to a source, whatever it was mapped to before.
    pub fn insert<K: Hash + Eq, I>(
        &mut self,
        key: K,
        source: DataSource,
    ) where M: Resource<SourceMap<K>, I>
        ensures
            exists|map: SourceMap<K>| final(self).maps == #[trigger] old(self).maps.holding(map),
            obeys_key_model::<K>()
                ==> final(self).sources::<K, I>()
                    == old(self).sources::<K, I>().insert(key, source),
    {
        let map: &mut SourceMap<K> = self.maps.get_mut();
        fx_map_insert(&mut map.map, key, source);
        proof {
            old(self).maps.lemma_resource(*map, *map);
        }
    }

    /// The source that a key is mapped to.
    pub fn get<K: Hash + Eq, I>(
        &self,
        key: &K,
    ) -> (source: Option<DataSource>) where M: Resource<SourceMap<K>, I>
        ensures
            obeys_key_model::<K>() ==> source == lookup(self.sources::<K, I>(), *key),
    {
        fx_map_get(&self.maps.get().map, key)
    }

    /// Unmaps a key. Returns the source that it was mapped to.
    pub fn remove<K: Hash + Eq, I>(
        &mut self,
        key: &K,
    ) -> (source: Option<DataSource>) where M: Resource<SourceMap<K>, I>
        ensures
            exists|map: SourceMap<K>| final(self).maps == #[trigger] old(self).maps.holding(map),
            obeys_key_model::<K>() ==> source == lookup(old(self).sources::<K, I>(), *key),
            obeys_key_model::<K>()
                ==> final(self).sources::<K, I>() == old(self).sources::<K, I>().remove(*key),
    {
        let map: &mut SourceMap<K> = self.maps.get_mut();
        let source = fx_map_remove(&mut map.map, key);
        proof {
            old(self).maps.lemma_resource(*map, *map);
        }
        source
    }

    /// Whether a key is mapped.
    pub fn contains<K: Hash + Eq, I>(
        &self,
        key: &K,
    ) -> (found: bool) where M: Resource<SourceMap<K>, I>
        ensures
            obeys_key_model::<K>() ==> found == self.sources::<K, I>().dom().contains(*key),
    {
        fx_map_contains_key(&self.maps.get().map, key)
    }
}

/// A lookup gives what was last mapped to the key, and nothing once the key is unmapped. Other
/// keys are not concerned.
pub proof fn lemma_lookup<K>(map: Map<K, DataSource>, key: K, source: DataSource, other: K)
    ensures
        lookup(map.insert(key, source), key) == Some(source),
        lookup(map.remove(key), key) is None,
        other != key ==> lookup(map.insert(key, source), other) == lookup(map, other),
        other != key ==> lookup(map.remove(key), other) == lookup(map, other),
{
}

/// Changing the map of one type of key leaves the keys of another type as they are.
pub proof fn lemma_key_types_apart<M, K, I, L, J>(
    registry: SourceRegistry<M>,
    map: SourceMap<K>,
) where
    M: Apart<SourceMap<K>, I, SourceMap<L>, J>,
    ensures
        (SourceRegistry { maps: <M as Resource<SourceMap<K>, I>>::holding(&registry.maps, map) }).sources::<L, J>()
            == registry.sources::<L, J>(),
{
    registry.maps.lemma_apart(map, <M as Resource<SourceMap<L>, J>>::held(&registry.maps));
}

} // verus!
