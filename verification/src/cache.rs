//! The optional metadata cache a caller may supply to the read path: a
//! `get`/`put` store keyed by location. The read path assumes nothing of it
//! beyond the contract here — a hit returns a previously stored value
//! verbatim — and is correct with a cache that is always empty.

use vstd::prelude::*;

use crate::error::EngineError;
use crate::meta::{StorageEntry, StorageEntryView};
use crate::storage::{entries_map, StorageAccessor};

verus! {

/// A metadata cache: locations mapped to the records last put under them.
pub struct MetaCache {
    entries: Vec<(String, StorageEntry)>,
}

impl MetaCache {
    /// The records currently cached, by location.
    pub closed spec fn contents(&self) -> Map<Seq<char>, StorageEntryView> {
        entries_map(self.entries@)
    }

    /// An empty cache.
    pub fn new() -> (r: Self)
        ensures
            r.contents() == Map::<Seq<char>, StorageEntryView>::empty(),
    {
        MetaCache { entries: Vec::new() }
    }

    /// The record cached under a location, verbatim as it was put.
    pub fn get(&self, location: &str) -> (r: Option<StorageEntry>)
        ensures
            match r {
                Some(e) => self.contents().contains_key(location@) && e@ == self.contents()[
                    location@
                ],
                None => !self.contents().contains_key(location@),
            },
    {
        let loc = location.to_string();
        let n = self.entries.len();
        let mut i: usize = n;
        proof {
            assert(self.entries@.take(n as int) =~= self.entries@);
        }
        while i > 0
            invariant
                i <= n,
                n == self.entries@.len(),
                loc@ == location@,
                entries_map(self.entries@.take(i as int)).contains_key(location@)
                    == entries_map(self.entries@).contains_key(location@),
                entries_map(self.entries@.take(i as int)).contains_key(location@)
                    ==> entries_map(self.entries@.take(i as int))[location@] == entries_map(
                    self.entries@,
                )[location@],
            decreases i,
        {
            proof {
                assert(self.entries@.take(i as int).drop_last() =~= self.entries@.take(i - 1));
                assert(self.entries@.take(i as int).last() == self.entries@[i - 1]);
            }
            if self.entries[i - 1].0 == loc {
                return Some(self.entries[i - 1].1.duplicate());
            }
            i = i - 1;
        }
        proof {
            assert(self.entries@.take(0) =~= Seq::<(String, StorageEntry)>::empty());
        }
        None
    }

    /// Stores a record under a location, replacing what was there.
    pub fn put(&mut self, location: &str, entry: StorageEntry)
        ensures
            final(self).contents() == old(self).contents().insert(location@, entry@),
    {
        self.entries.push((location.to_string(), entry));
        proof {
            assert(self.entries@.drop_last() =~= old(self).entries@);
        }
    }
}

/// Reads the record at a location, satisfied from the cache when possible.
/// The cache must be coherent: everything it holds was previously read from
/// this storage. A hit costs no storage read; a miss reads from storage and
/// populates the cache, keeping it coherent. The cache is only ever
/// populated, never invalidated: everything cached before is cached after.
pub fn read_entry_cached<S: StorageAccessor>(
    data_accessor: &mut S,
    cache: &mut MetaCache,
    location: &str,
) -> (r: Result<StorageEntry, EngineError>)
    requires
        old(cache).contents().submap_of(old(data_accessor).contents()),
    ensures
        final(data_accessor).contents() == old(data_accessor).contents(),
        final(cache).contents().submap_of(old(data_accessor).contents()),
        old(cache).contents().submap_of(final(cache).contents()),
        r matches Ok(e) ==> old(data_accessor).contents().contains_key(location@) && e@ == old(
            data_accessor,
        ).contents()[location@],
        old(cache).contents().contains_key(location@) ==> r is Ok && final(data_accessor).reads()
            == old(data_accessor).reads() && final(cache).contents() == old(cache).contents(),
        !old(cache).contents().contains_key(location@) ==> final(data_accessor).reads() == old(
            data_accessor,
        ).reads().push(location@),
        !old(data_accessor).contents().contains_key(location@) ==> r is Err,
        r matches Err(e) ==> e is StorageIo,
        r is Err ==> final(cache).contents() == old(cache).contents(),
{
    match cache.get(location) {
        Some(entry) => Ok(entry),
        None => {
            match data_accessor.read_entry(location) {
                Ok(entry) => {
                    cache.put(location, entry.duplicate());
                    Ok(entry)
                },
                Err(e) => Err(e),
            }
        },
    }
}

} // verus!
