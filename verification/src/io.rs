//! Readers for the metadata hierarchy: resolving a snapshot location and
//! loading snapshot and segment records through a storage accessor.

use vstd::prelude::*;

use crate::error::EngineError;
use crate::meta::{SegmentInfo, StorageEntry, TableSnapshot};
use crate::storage::StorageAccessor;

verus! {

/// The storage location under which a snapshot with the given identifier is
/// kept.
pub open spec fn snapshot_location_spec(snapshot_id: Seq<char>) -> Seq<char> {
    "_ss/"@ + snapshot_id
}

/// Derives the storage location of a snapshot from its identifier.
pub fn snapshot_location(snapshot_id: &str) -> (r: String)
    ensures
        r@ == snapshot_location_spec(snapshot_id@),
{
    let mut s = "_ss/".to_string();
    s.append(snapshot_id);
    s
}

/// Reads snapshot records.
pub struct SnapshotReader;

impl SnapshotReader {
    /// Loads the snapshot record at a location. A missing location or an
    /// I/O failure surfaces as a storage error; a record of another kind is
    /// a malformed snapshot and surfaces as a serialization error.
    pub fn read<S: StorageAccessor>(data_accessor: &mut S, location: &str) -> (r: Result<
        TableSnapshot,
        EngineError,
    >)
        ensures
            final(data_accessor).contents() == old(data_accessor).contents(),
            final(data_accessor).reads() == old(data_accessor).reads().push(location@),
            r matches Ok(s) ==> old(data_accessor).contents().contains_key(location@) && (old(
                data_accessor,
            ).contents()[location@] matches crate::meta::StorageEntryView::Snapshot(v) && v == s@),
            !old(data_accessor).contents().contains_key(location@) ==> r is Err,
            r matches Err(e) ==> e is StorageIo || e is Serialization,
            r matches Err(e) && e is Serialization ==> old(data_accessor).contents().contains_key(
                location@,
            ) && !(old(data_accessor).contents()[location@] is Snapshot),
    {
        match data_accessor.read_entry(location) {
            Ok(StorageEntry::Snapshot(s)) => Ok(s),
            Ok(_) => Err(EngineError::Serialization(location.to_string())),
            Err(e) => Err(e),
        }
    }
}

/// Reads segment records.
pub struct SegmentReader;

impl SegmentReader {
    /// Loads the segment record at a location, with the same failure surface
    /// as the snapshot reader.
    pub fn read<S: StorageAccessor>(data_accessor: &mut S, location: &str) -> (r: Result<
        SegmentInfo,
        EngineError,
    >)
        ensures
            final(data_accessor).contents() == old(data_accessor).contents(),
            final(data_accessor).reads() == old(data_accessor).reads().push(location@),
            r matches Ok(s) ==> old(data_accessor).contents().contains_key(location@) && (old(
                data_accessor,
            ).contents()[location@] matches crate::meta::StorageEntryView::Segment(v) && v == s@),
            !old(data_accessor).contents().contains_key(location@) ==> r is Err,
            r matches Err(e) ==> e is StorageIo || e is Serialization,
            r matches Err(e) && e is Serialization ==> old(data_accessor).contents().contains_key(
                location@,
            ) && !(old(data_accessor).contents()[location@] is Segment),
    {
        match data_accessor.read_entry(location) {
            Ok(StorageEntry::Segment(s)) => Ok(s),
            Ok(_) => Err(EngineError::Serialization(location.to_string())),
            Err(e) => Err(e),
        }
    }
}

} // verus!
