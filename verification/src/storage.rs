//! The storage accessor: the consumed interface through which metadata and
//! block files are persisted and read back, and a verified in-memory
//! implementation of it. Reads are logged so that callers can state — and
//! tests can observe — exactly which locations a pass over the metadata
//! touched.

use vstd::prelude::*;

use crate::error::EngineError;
use crate::meta::{StorageEntry, StorageEntryView};

verus! {

/// A storage namespace: opaque string locations mapped to records. Writing
/// extends or replaces; reading never changes the contents but is logged.
/// Implementations may fail any operation with a storage I/O error.
pub trait StorageAccessor: Sized {
    /// The records currently held, by location.
    spec fn contents(&self) -> Map<Seq<char>, StorageEntryView>;

    /// The locations read so far, in order.
    spec fn reads(&self) -> Seq<Seq<char>>;

    /// The physical byte size this backend writes for a record: a function
    /// of the record alone, fixed by the backend's encoding policy.
    spec fn write_size(entry: StorageEntryView) -> u64;

    /// Persists a record at a location, returning the physical byte size
    /// written. On failure the namespace is unchanged.
    fn write_entry(&mut self, location: &str, entry: StorageEntry) -> (r: Result<u64, EngineError>)
        ensures
            final(self).reads() == old(self).reads(),
            r is Ok ==> final(self).contents() == old(self).contents().insert(location@, entry@),
            r matches Ok(s) ==> s == Self::write_size(entry@),
            r is Err ==> final(self).contents() == old(self).contents(),
            r matches Err(e) ==> e is StorageIo,
    ;

    /// Reads the record at a location. A missing location is a failure, and
    /// every attempt — successful or not — is appended to the read log.
    fn read_entry(&mut self, location: &str) -> (r: Result<StorageEntry, EngineError>)
        ensures
            final(self).contents() == old(self).contents(),
            final(self).reads() == old(self).reads().push(location@),
            r matches Ok(e) ==> old(self).contents().contains_key(location@) && e@ == old(
                self,
            ).contents()[location@],
            !old(self).contents().contains_key(location@) ==> r is Err,
            r matches Err(e) ==> e is StorageIo,
    ;
}

/// The map described by a list of written pairs, later writes winning.
pub open spec fn entries_map(s: Seq<(String, StorageEntry)>) -> Map<Seq<char>, StorageEntryView>
    decreases s.len(),
{
    if s.len() == 0 {
        Map::empty()
    } else {
        entries_map(s.drop_last()).insert(s.last().0@, s.last().1@)
    }
}

/// An in-memory storage accessor: every write is appended to a list, and a
/// read scans the list backwards so that the latest write to a location
/// wins. All operations succeed.
pub struct InMemoryStorage {
    entries: Vec<(String, StorageEntry)>,
    read_log: Vec<String>,
}

impl InMemoryStorage {
    /// An empty namespace with an empty read log.
    pub fn new() -> (r: Self)
        ensures
            r.contents() == Map::<Seq<char>, StorageEntryView>::empty(),
            r.reads() == Seq::<Seq<char>>::empty(),
    {
        let r = InMemoryStorage { entries: Vec::new(), read_log: Vec::new() };
        proof {
            assert(r.reads() =~= Seq::<Seq<char>>::empty());
        }
        r
    }

    /// The locations read so far, oldest first: the instrumentation hook by
    /// which a caller can check how many storage reads a pass performed.
    pub fn read_log(&self) -> (r: &Vec<String>)
        ensures
            r@.map_values(|s: String| s@) == self.reads(),
    {
        &self.read_log
    }
}

impl StorageAccessor for InMemoryStorage {
    closed spec fn contents(&self) -> Map<Seq<char>, StorageEntryView> {
        entries_map(self.entries@)
    }

    closed spec fn reads(&self) -> Seq<Seq<char>> {
        self.read_log@.map_values(|s: String| s@)
    }

    open spec fn write_size(entry: StorageEntryView) -> u64 {
        match entry {
            StorageEntryView::Block(b) => if 16 * b.rows > u64::MAX {
                u64::MAX
            } else {
                (16 * b.rows) as u64
            },
            StorageEntryView::Segment(_) => 0,
            StorageEntryView::Snapshot(_) => 0,
        }
    }

    /// This backend never fails a write: the record is always appended.
    fn write_entry(&mut self, location: &str, entry: StorageEntry) -> (r: Result<u64, EngineError>)
        ensures
            r is Ok,
    {
        let size = match &entry {
            StorageEntry::Block(b) => {
                match (b.num_rows() as u64).checked_mul(16) {
                    Some(x) => x,
                    None => u64::MAX,
                }
            },
            StorageEntry::Segment(_) => 0,
            StorageEntry::Snapshot(_) => 0,
        };
        self.entries.push((location.to_string(), entry));
        proof {
            assert(self.entries@.drop_last() =~= old(self).entries@);
        }
        Ok(size)
    }

    /// This backend fails a read exactly when the location holds nothing.
    fn read_entry(&mut self, location: &str) -> (r: Result<StorageEntry, EngineError>)
        ensures
            r is Ok <==> old(self).contents().contains_key(location@),
    {
        let loc = location.to_string();
        self.read_log.push(loc.clone());
        proof {
            assert(self.read_log@.map_values(|s: String| s@) =~= old(
                self,
            ).read_log@.map_values(|s: String| s@).push(location@));
        }
        let n = self.entries.len();
        let mut i: usize = n;
        proof {
            assert(self.entries@.take(n as int) =~= self.entries@);
        }
        while i > 0
            invariant
                i <= n,
                n == self.entries@.len(),
                loc@ == location@,
                self.entries@ == old(self).entries@,
                self.reads() == old(self).reads().push(location@),
                entries_map(self.entries@.take(i as int)).contains_key(location@)
                    == entries_map(self.entries@).contains_key(location@),
                entries_map(self.entries@.take(i as int)).contains_key(location@)
                    ==> entries_map(self.entries@.take(i as int))[location@] == entries_map(
                    self.entries@,
                )[location@],
            decreases i,
        {
            proof {
                assert(self.entries@.take(i as int).drop_last() =~= self.entries@.take(i - 1));
                assert(self.entries@.take(i as int).last() == self.entries@[i - 1]);
            }
            if self.entries[i - 1].0 == loc {
                return Ok(self.entries[i - 1].1.duplicate());
            }
            i = i - 1;
        }
        proof {
            assert(self.entries@.take(0) =~= Seq::<(String, StorageEntry)>::empty());
        }
        Err(EngineError::StorageIo(loc))
    }
}

} // verus!
