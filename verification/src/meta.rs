//! The hierarchical metadata model: blocks, segments and table snapshots.
//! All three are immutable once written; a new snapshot is published by an
//! external writer that appends segment locations to a copy of the previous
//! snapshot's list.

use vstd::prelude::*;

use crate::block::{DataBlock, DataBlockView};
use crate::stats::ColumnStatistics;

verus! {

/// Where a block file lives: an opaque path within the storage namespace,
/// plus the size of its auxiliary metadata.
#[derive(Clone, Debug)]
pub struct BlockLocation {
    pub location: String,
    pub meta_size: u64,
}

/// The mathematical model of a block location.
pub struct BlockLocationView {
    pub location: Seq<char>,
    pub meta_size: u64,
}

impl View for BlockLocation {
    type V = BlockLocationView;

    open spec fn view(&self) -> BlockLocationView {
        BlockLocationView { location: self.location@, meta_size: self.meta_size }
    }
}

/// One physical block file: its location, row count, in-memory size estimate
/// and per-column statistics (positional by column identifier). Created only
/// by the block writer and never mutated.
#[derive(Clone, Debug)]
pub struct BlockMeta {
    pub location: BlockLocation,
    pub row_count: u64,
    pub block_size: u64,
    pub col_stats: Vec<ColumnStatistics>,
}

/// The mathematical model of a block's metadata entry.
pub struct BlockMetaView {
    pub location: BlockLocationView,
    pub row_count: u64,
    pub block_size: u64,
    pub col_stats: Seq<ColumnStatistics>,
}

impl View for BlockMeta {
    type V = BlockMetaView;

    open spec fn view(&self) -> BlockMetaView {
        BlockMetaView {
            location: self.location@,
            row_count: self.row_count,
            block_size: self.block_size,
            col_stats: self.col_stats@,
        }
    }
}

impl BlockMeta {
    /// An equal metadata entry, field for field.
    pub fn duplicate(&self) -> (r: BlockMeta)
        ensures
            r@ == self@,
    {
        let mut col_stats: Vec<ColumnStatistics> = Vec::new();
        let mut i: usize = 0;
        while i < self.col_stats.len()
            invariant
                i <= self.col_stats@.len(),
                col_stats@ == self.col_stats@.take(i as int),
            decreases self.col_stats@.len() - i,
        {
            col_stats.push(self.col_stats[i]);
            i = i + 1;
        }
        proof {
            assert(self.col_stats@.take(self.col_stats@.len() as int) =~= self.col_stats@);
        }
        BlockMeta {
            location: BlockLocation {
                location: self.location.location.clone(),
                meta_size: self.location.meta_size,
            },
            row_count: self.row_count,
            block_size: self.block_size,
            col_stats,
        }
    }
}

/// Aggregate statistics over all blocks of a segment.
#[derive(Clone, Debug)]
pub struct Stats {
    pub row_count: u64,
    pub block_count: u64,
    pub uncompressed_byte_size: u64,
    pub compressed_byte_size: u64,
    pub col_stats: Vec<ColumnStatistics>,
}

/// The mathematical model of a segment summary.
pub struct StatsView {
    pub row_count: u64,
    pub block_count: u64,
    pub uncompressed_byte_size: u64,
    pub compressed_byte_size: u64,
    pub col_stats: Seq<ColumnStatistics>,
}

impl View for Stats {
    type V = StatsView;

    open spec fn view(&self) -> StatsView {
        StatsView {
            row_count: self.row_count,
            block_count: self.block_count,
            uncompressed_byte_size: self.uncompressed_byte_size,
            compressed_byte_size: self.compressed_byte_size,
            col_stats: self.col_stats@,
        }
    }
}

impl Stats {
    /// An equal summary, field for field.
    pub fn duplicate(&self) -> (r: Stats)
        ensures
            r@ == self@,
    {
        let mut col_stats: Vec<ColumnStatistics> = Vec::new();
        let mut i: usize = 0;
        while i < self.col_stats.len()
            invariant
                i <= self.col_stats@.len(),
                col_stats@ == self.col_stats@.take(i as int),
            decreases self.col_stats@.len() - i,
        {
            col_stats.push(self.col_stats[i]);
            i = i + 1;
        }
        proof {
            assert(self.col_stats@.take(self.col_stats@.len() as int) =~= self.col_stats@);
        }
        Stats {
            row_count: self.row_count,
            block_count: self.block_count,
            uncompressed_byte_size: self.uncompressed_byte_size,
            compressed_byte_size: self.compressed_byte_size,
            col_stats,
        }
    }
}

/// An ordered collection of blocks plus their aggregate summary. Immutable
/// once written; its on-disk identity is its storage location.
#[derive(Clone, Debug)]
pub struct SegmentInfo {
    pub blocks: Vec<BlockMeta>,
    pub summary: Stats,
}

/// The mathematical model of a segment record.
pub struct SegmentInfoView {
    pub blocks: Seq<BlockMetaView>,
    pub summary: StatsView,
}

impl View for SegmentInfo {
    type V = SegmentInfoView;

    open spec fn view(&self) -> SegmentInfoView {
        SegmentInfoView {
            blocks: self.blocks@.map_values(|b: BlockMeta| b@),
            summary: self.summary@,
        }
    }
}

impl SegmentInfo {
    /// An equal segment record.
    pub fn duplicate(&self) -> (r: SegmentInfo)
        ensures
            r@ == self@,
    {
        let mut blocks: Vec<BlockMeta> = Vec::new();
        let mut i: usize = 0;
        while i < self.blocks.len()
            invariant
                i <= self.blocks@.len(),
                blocks@.len() == i,
                forall|j: int| 0 <= j < i ==> (#[trigger] blocks@[j])@ == self.blocks@[j]@,
            decreases self.blocks@.len() - i,
        {
            blocks.push(self.blocks[i].duplicate());
            i = i + 1;
        }
        let r = SegmentInfo { blocks, summary: self.summary.duplicate() };
        proof {
            assert(r@.blocks =~= self@.blocks);
        }
        r
    }
}

/// The versioned root of the hierarchy: a snapshot identifier and the ordered
/// locations of its segments. Immutable once published.
#[derive(Clone, Debug)]
pub struct TableSnapshot {
    pub snapshot_id: String,
    pub segments: Vec<String>,
}

/// The mathematical model of a snapshot record.
pub struct TableSnapshotView {
    pub snapshot_id: Seq<char>,
    pub segments: Seq<Seq<char>>,
}

impl View for TableSnapshot {
    type V = TableSnapshotView;

    open spec fn view(&self) -> TableSnapshotView {
        TableSnapshotView {
            snapshot_id: self.snapshot_id@,
            segments: self.segments@.map_values(|s: String| s@),
        }
    }
}

impl TableSnapshot {
    /// An equal snapshot record.
    pub fn duplicate(&self) -> (r: TableSnapshot)
        ensures
            r@ == self@,
    {
        let mut segments: Vec<String> = Vec::new();
        let mut i: usize = 0;
        while i < self.segments.len()
            invariant
                i <= self.segments@.len(),
                segments@.len() == i,
                forall|j: int| 0 <= j < i ==> (#[trigger] segments@[j])@ == self.segments@[j]@,
            decreases self.segments@.len() - i,
        {
            segments.push(self.segments[i].clone());
            i = i + 1;
        }
        let r = TableSnapshot { snapshot_id: self.snapshot_id.clone(), segments };
        proof {
            assert(r@.segments =~= self@.segments);
        }
        r
    }
}

/// The total row count over a sequence of block entries.
pub open spec fn blocks_row_sum(blocks: Seq<BlockMetaView>) -> int
    decreases blocks.len(),
{
    if blocks.len() == 0 {
        0
    } else {
        blocks_row_sum(blocks.drop_last()) + blocks.last().row_count
    }
}

/// The total in-memory size over a sequence of block entries, saturated at
/// `u64::MAX` as the writer's running counter is.
pub open spec fn blocks_size_sum(blocks: Seq<BlockMetaView>) -> int
    decreases blocks.len(),
{
    if blocks.len() == 0 {
        0
    } else {
        let rest = blocks_size_sum(blocks.drop_last());
        if rest + blocks.last().block_size > u64::MAX {
            u64::MAX as int
        } else {
            rest + blocks.last().block_size
        }
    }
}

/// What a consistent segment promises: the summary's block count is the
/// number of blocks, its row count is the sum of theirs, and its
/// uncompressed total is the sum of their in-memory sizes.
pub open spec fn segment_counts_consistent(seg: SegmentInfoView) -> bool {
    &&& seg.summary.block_count == seg.blocks.len()
    &&& seg.summary.row_count == blocks_row_sum(seg.blocks)
    &&& seg.summary.uncompressed_byte_size == blocks_size_sum(seg.blocks)
}

/// One record held by the storage accessor: a persisted block file, a
/// segment record, or a snapshot record. Block files embed their statistics
/// and are self-describing by schema; the exact byte encoding is a pluggable
/// policy of the accessor, which must round-trip every field unchanged.
#[derive(Clone, Debug)]
pub enum StorageEntry {
    Block(DataBlock),
    Segment(SegmentInfo),
    Snapshot(TableSnapshot),
}

/// The mathematical model of a stored record.
pub enum StorageEntryView {
    Block(DataBlockView),
    Segment(SegmentInfoView),
    Snapshot(TableSnapshotView),
}

impl View for StorageEntry {
    type V = StorageEntryView;

    open spec fn view(&self) -> StorageEntryView {
        match self {
            StorageEntry::Block(b) => StorageEntryView::Block(b@),
            StorageEntry::Segment(s) => StorageEntryView::Segment(s@),
            StorageEntry::Snapshot(s) => StorageEntryView::Snapshot(s@),
        }
    }
}

impl StorageEntry {
    /// An equal record.
    pub fn duplicate(&self) -> (r: StorageEntry)
        ensures
            r@ == self@,
    {
        match self {
            StorageEntry::Block(b) => StorageEntry::Block(b.duplicate()),
            StorageEntry::Segment(s) => StorageEntry::Segment(s.duplicate()),
            StorageEntry::Snapshot(s) => StorageEntry::Snapshot(s.duplicate()),
        }
    }
}

} // verus!
