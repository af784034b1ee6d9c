//! A model of the cache root as a filesystem that keeps what was written,
//! and what the repository promises on such a root.

use crate::repository::{
    hit_or_miss, load_result, location_of, CacheKey, IoFailure, LocationView, ReadOutcome,
};
use vstd::prelude::*;

verus! {

/// The files below a cache root, by their place.
pub type Store = Map<LocationView, Seq<u8>>;

/// The root after a write request has been carried out: the file is created
/// or replaced, every other file stays.
pub open spec fn after_write(store: Store, location: LocationView, contents: Seq<u8>) -> Store {
    store.insert(location, contents)
}

/// `outcome` is what reading `location` gives on `store` when nothing fails.
pub open spec fn reads_as(store: Store, location: LocationView, outcome: ReadOutcome) -> bool {
    match outcome {
        ReadOutcome::Found(binary) => store.contains_key(location) && store[location] == binary@,
        ReadOutcome::NotFound => !store.contains_key(location),
        ReadOutcome::Failed(_) => false,
    }
}

/// A save followed by a load with the same five fields returns exactly the
/// bytes that were saved, whatever the root held before.
pub proof fn lemma_load_after_save(
    store: Store,
    key: CacheKey,
    binary: Seq<u8>,
    outcome: ReadOutcome,
)
    requires
        reads_as(after_write(store, location_of(key), binary), location_of(key), outcome),
    ensures
        load_result(outcome) matches Ok(Some(loaded)) && loaded@ == binary,
{
}

/// The same through a specialised cache: the load is a hit with exactly the
/// bytes that were saved.
pub proof fn lemma_hit_after_save(
    store: Store,
    key: CacheKey,
    binary: Seq<u8>,
    outcome: ReadOutcome,
)
    requires
        reads_as(after_write(store, location_of(key), binary), location_of(key), outcome),
    ensures
        hit_or_miss(outcome) matches Some(loaded) && loaded@ == binary,
{
}

/// A save under one key leaves what a load under a key at another place
/// returns as it was.
pub proof fn lemma_save_elsewhere_is_invisible(
    store: Store,
    saved: CacheKey,
    binary: Seq<u8>,
    loaded: CacheKey,
    outcome: ReadOutcome,
)
    requires
        location_of(saved) != location_of(loaded),
    ensures
        reads_as(after_write(store, location_of(saved), binary), location_of(loaded), outcome)
            <==> reads_as(store, location_of(loaded), outcome),
{
}

/// On an empty root every load is a miss, and a miss is not an error.
pub proof fn lemma_empty_root_misses(key: CacheKey, outcome: ReadOutcome)
    requires
        reads_as(Map::empty(), location_of(key), outcome),
    ensures
        load_result(outcome) == Ok::<Option<Vec<u8>>, IoFailure>(None),
{
}

/// A read that fails for any reason but a missing file is handed on as that
/// failure: it is never turned into a miss.
pub proof fn lemma_failure_is_not_a_miss(failure: IoFailure)
    ensures
        load_result(ReadOutcome::Failed(failure)) == Err::<Option<Vec<u8>>, IoFailure>(failure),
{
}

} // verus!
