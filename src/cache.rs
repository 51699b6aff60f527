//! The bounded cache of recently served chunks, kept in an `lru::LruCache`.
use vstd::prelude::*;

use lru::LruCache;
use std::collections::hash_map::RandomState;

verus! {

#[verifier::external_type_specification]
#[verifier::external_body]
#[verifier::reject_recursive_types(K)]
#[verifier::reject_recursive_types(V)]
#[verifier::reject_recursive_types(S)]
pub struct ExLruCache<K, V, S>(LruCache<K, V, S>);

/// The cache as the library uses it: `(file id, chunk index)` to chunk bytes.
pub type ChunkLru = LruCache<(String, u32), Vec<u8>, RandomState>;

/// A cache key as a value: file id and chunk index.
pub type CacheKey = (Seq<char>, u32);

/// What the cache holds: each `(file id, chunk index)` it has, with its bytes.
pub uninterp spec fn lru_contents(c: ChunkLru) -> Map<CacheKey, Seq<u8>>;

/// The capacity the cache was made with.
pub uninterp spec fn lru_capacity(c: ChunkLru) -> nat;

/// Relies on `LruCache::with_hasher`: a cache that holds nothing and at most
/// `cap` entries.
#[verifier::external_body]
pub(crate) fn lru_new(cap: usize) -> (r: ChunkLru)
    requires
        cap > 0,
    ensures
        lru_contents(r).is_empty(),
        lru_capacity(r) == cap,
{
    LruCache::with_hasher(std::num::NonZeroUsize::new(cap).unwrap(), RandomState::new())
}

/// Relies on `LruCache::put`: the key now maps to the value; every other key
/// keeps its value or is gone, and keys go only when the cache was full and
/// the key new (then the least recently used one is evicted).
#[verifier::external_body]
pub(crate) fn lru_put(c: &mut ChunkLru, file_id: String, chunk_index: u32, data: Vec<u8>)
    ensures
        lru_capacity(*final(c)) == lru_capacity(*old(c)),
        lru_contents(*final(c)).contains_key((file_id@, chunk_index)),
        lru_contents(*final(c))[(file_id@, chunk_index)] == data@,
        forall|k: CacheKey|
            #[trigger] lru_contents(*final(c)).contains_key(k) && k != (file_id@, chunk_index)
                ==> lru_contents(*old(c)).contains_key(k) && lru_contents(*final(c))[k] == lru_contents(
                *old(c),
            )[k],
        lru_contents(*old(c)).dom().len() < lru_capacity(*old(c)) || lru_contents(
            *old(c),
        ).contains_key((file_id@, chunk_index)) ==> forall|k: CacheKey|
            #[trigger] lru_contents(*old(c)).contains_key(k) ==> lru_contents(
                *final(c),
            ).contains_key(k),
{
    c.put((file_id, chunk_index), data);
}

/// Relies on `LruCache::get`: the bytes under the key, if the cache has it;
/// what the cache holds is unchanged (only its recency order moves).
#[verifier::external_body]
pub(crate) fn lru_get(c: &mut ChunkLru, file_id: &String, chunk_index: u32) -> (r: Option<Vec<u8>>)
    ensures
        lru_contents(*final(c)) == lru_contents(*old(c)),
        lru_capacity(*final(c)) == lru_capacity(*old(c)),
        match r {
            Some(v) => lru_contents(*old(c)).contains_key((file_id@, chunk_index)) && v@
                == lru_contents(*old(c))[(file_id@, chunk_index)],
            None => !lru_contents(*old(c)).contains_key((file_id@, chunk_index)),
        },
{
    c.get(&(file_id.clone(), chunk_index)).cloned()
}

} // verus!
