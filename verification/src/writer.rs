//! The block writer: consumes a finite stream of columnar batches, persists
//! each one as a block file at a fresh location, accumulates per-block
//! statistics, and emits one segment whose summary aggregates them.

use vstd::prelude::*;

use crate::block::DataBlock;
use crate::error::EngineError;
use crate::locations::LocationGenerator;
use crate::meta::{
    blocks_row_sum, blocks_size_sum, segment_counts_consistent, BlockLocation, BlockMeta,
    BlockMetaView, SegmentInfo, Stats, StorageEntry, StorageEntryView,
};
use crate::stats::{
    block_stats, block_stats_spec, column_stats_reduce, reduced_column, stats_matrix,
    stream_rows, stream_stats, stream_types_supported, uniform, BlockColumnStats,
    ColumnStatistics,
};
use crate::storage::StorageAccessor;

verus! {

/// The view of an accumulated list of block entries.
pub open spec fn metas_view(metas: Seq<BlockMeta>) -> Seq<BlockMetaView> {
    metas.map_values(|b: BlockMeta| b@)
}

/// Whether one of the block entries lives at the given location: the keys a
/// finished append has written.
pub open spec fn written_at(blocks: Seq<BlockMetaView>, l: Seq<char>) -> bool {
    exists|i: int| 0 <= i < blocks.len() && (#[trigger] blocks[i]).location.location == l
}

/// The total of the physical byte sizes the backend reports for the
/// stream's block files — fixed by its encoding policy — saturated at
/// `u64::MAX` as the writer's running counter is.
pub open spec fn stream_compressed_sum<S: StorageAccessor>(stream: Seq<DataBlock>) -> int
    decreases stream.len(),
{
    if stream.len() == 0 {
        0
    } else {
        let rest = stream_compressed_sum::<S>(stream.drop_last());
        let size = S::write_size(StorageEntryView::Block(stream.last()@));
        if rest + size > u64::MAX {
            u64::MAX as int
        } else {
            rest + size
        }
    }
}

/// Writes columnar batches out as blocks and groups them into one segment.
pub struct BlockAppender;

impl BlockAppender {
    /// Appends every batch of the stream, in arrival order: derives its
    /// per-column statistics, persists it at a fresh location, and extends
    /// the running block list and aggregate counters. After the last batch
    /// the per-block statistics are reduced into the segment summary.
    ///
    /// On success the returned segment accounts for every batch exactly:
    /// one block entry per batch with its row count, size and statistics,
    /// pairwise-distinct locations all persisted, the summary counting
    /// blocks and rows exactly, and the summary statistics the reduction of
    /// the per-block statistics. A failure aborts the append: an
    /// unsupported column type, batches that disagree on their column set,
    /// or a storage refusal propagate, and no partial segment is returned —
    /// though already-persisted blocks may remain as unreferenced orphans.
    pub fn append_blocks<S: StorageAccessor, G: LocationGenerator>(
        data_accessor: &mut S,
        locations: &mut G,
        stream: Vec<DataBlock>,
    ) -> (r: Result<SegmentInfo, EngineError>)
        requires
            forall|i: int| 0 <= i < stream@.len() ==> (#[trigger] stream@[i]).wf(),
            old(locations).supply() >= stream@.len(),
            stream_rows(stream@) <= u64::MAX,
        ensures
            final(data_accessor).reads() == old(data_accessor).reads(),
            r matches Ok(seg) ==> {
                &&& seg@.blocks.len() == stream@.len()
                &&& seg@.summary.row_count == stream_rows(stream@)
                &&& seg@.summary.compressed_byte_size == stream_compressed_sum::<S>(stream@)
                &&& segment_counts_consistent(seg@)
                &&& forall|i: int|
                    0 <= i < stream@.len() ==> {
                        let b = #[trigger] seg@.blocks[i];
                        &&& b.row_count == stream@[i].rows
                        &&& b.block_size == stream@[i].memory_size_spec()
                        &&& b.col_stats == block_stats_spec(stream@[i]).map_values(
                            |p: BlockColumnStats| p.1,
                        )
                        &&& b.location.meta_size == 0
                    }
                &&& forall|i: int, k: int|
                    0 <= i < k < seg@.blocks.len() ==> seg@.blocks[i].location.location
                        != seg@.blocks[k].location.location
                &&& forall|i: int|
                    0 <= i < seg@.blocks.len() ==> final(locations).generated().contains(
                        (#[trigger] seg@.blocks[i]).location.location,
                    ) && !old(locations).generated().contains(seg@.blocks[i].location.location)
                &&& forall|i: int|
                    0 <= i < seg@.blocks.len() ==> final(data_accessor).contents().contains_key(
                        (#[trigger] seg@.blocks[i]).location.location,
                    ) && (final(data_accessor).contents()[seg@.blocks[i].location.location]
                        matches StorageEntryView::Block(bv) && bv == stream@[i]@)
                &&& forall|l: Seq<char>|
                    #[trigger] final(data_accessor).contents().contains_key(l) && !written_at(
                        seg@.blocks,
                        l,
                    ) ==> old(data_accessor).contents().contains_key(l)
                        && final(data_accessor).contents()[l] == old(data_accessor).contents()[l]
                &&& forall|l: Seq<char>|
                    #[trigger] old(data_accessor).contents().contains_key(l)
                        ==> final(data_accessor).contents().contains_key(l)
                &&& uniform(stream_stats(stream@))
                &&& seg@.summary.col_stats.len() == (if stream@.len() == 0 {
                    0int
                } else {
                    stream_stats(stream@)[0].len() as int
                })
                &&& forall|j: int|
                    0 <= j < seg@.summary.col_stats.len() ==> seg@.summary.col_stats[j]
                        == reduced_column(stream_stats(stream@), j)
            },
            stream@.len() == 0 ==> r is Ok,
            !stream_types_supported(stream@) ==> r is Err,
            r matches Err(e) ==> e is UnsupportedType || e is Serialization || e is StorageIo,
            r matches Err(e) && e is UnsupportedType ==> !stream_types_supported(stream@),
            r matches Err(e) && e is Serialization ==> !uniform(stream_stats(stream@)),
            stream_types_supported(stream@) && uniform(stream_stats(stream@)) ==> r is Ok || (
            r matches Err(e) && e is StorageIo),
    {
        let ghost whole = stream_stats(stream@);
        let mut block_metas: Vec<BlockMeta> = Vec::new();
        let mut blocks_stats: Vec<Vec<BlockColumnStats>> = Vec::new();
        let mut summary_row_count: u64 = 0;
        let mut summary_block_count: u64 = 0;
        let mut summary_uncompressed_byte_size: u64 = 0;
        let mut summary_compressed_byte_size: u64 = 0;

        let mut idx: usize = 0;
        while idx < stream.len()
            invariant
                idx <= stream@.len(),
                forall|i: int| 0 <= i < stream@.len() ==> (#[trigger] stream@[i]).wf(),
                stream_rows(stream@) <= u64::MAX,
                whole == stream_stats(stream@),
                block_metas@.len() == idx,
                blocks_stats@.len() == idx,
                stats_matrix(blocks_stats) == whole.take(idx as int),
                summary_block_count == idx,
                summary_row_count == stream_rows(stream@.take(idx as int)),
                summary_row_count == blocks_row_sum(metas_view(block_metas@)),
                summary_uncompressed_byte_size == blocks_size_sum(metas_view(block_metas@)),
                locations.supply() >= stream@.len() - idx,
                summary_compressed_byte_size == stream_compressed_sum::<S>(
                    stream@.take(idx as int),
                ),
                forall|i: int, j: int|
                    0 <= i < idx && 0 <= j < stream@[i].columns@.len()
                        ==> crate::value::type_comparable(
                        (#[trigger] stream@[i].schema.fields@[j]).data_type,
                    ),
                old(locations).generated().subset_of(locations.generated()),
                forall|i: int|
                    0 <= i < idx ==> locations.generated().contains(
                        (#[trigger] block_metas@[i])@.location.location,
                    ) && !old(locations).generated().contains(
                        block_metas@[i]@.location.location,
                    ),
                forall|i: int, k: int|
                    0 <= i < k < idx ==> block_metas@[i]@.location.location
                        != block_metas@[k]@.location.location,
                forall|i: int|
                    0 <= i < idx ==> {
                        let b = (#[trigger] block_metas@[i])@;
                        &&& b.row_count == stream@[i].rows
                        &&& b.block_size == stream@[i].memory_size_spec()
                        &&& b.col_stats == block_stats_spec(stream@[i]).map_values(
                            |p: BlockColumnStats| p.1,
                        )
                        &&& b.location.meta_size == 0
                    },
                forall|i: int|
                    0 <= i < idx ==> data_accessor.contents().contains_key(
                        (#[trigger] block_metas@[i])@.location.location,
                    ) && (data_accessor.contents()[block_metas@[i]@.location.location]
                        matches StorageEntryView::Block(bv) && bv == stream@[i]@),
                forall|l: Seq<char>|
                    #[trigger] data_accessor.contents().contains_key(l) && !written_at(
                        metas_view(block_metas@),
                        l,
                    ) ==> old(data_accessor).contents().contains_key(l) && data_accessor.contents()[
                        l
                    ] == old(data_accessor).contents()[l],
                forall|l: Seq<char>|
                    #[trigger] old(data_accessor).contents().contains_key(l)
                        ==> data_accessor.contents().contains_key(l),
                data_accessor.reads() == old(data_accessor).reads(),
            decreases stream@.len() - idx,
        {
            let block = &stream[idx];
            let blk_stats = match block_stats(block) {
                Ok(s) => s,
                Err(e) => {
                    proof {
                        let j = choose|j: int|
                            0 <= j < stream@[idx as int].columns@.len()
                                && !crate::value::type_comparable(
                                stream@[idx as int].schema.fields@[j].data_type,
                            );
                        assert(!crate::value::type_comparable(
                            stream@[idx as int].schema.fields@[j].data_type,
                        ));
                        assert(!stream_types_supported(stream@));
                    }
                    return Err(e);
                },
            };
            let row_count_usize = block.num_rows();
            let row_count = row_count_usize as u64;
            let block_in_memory_size = block.memory_size();
            let ghost pre_generated = locations.generated();
            let location = locations.generate_location();
            let ghost locv = location@;
            let ghost pre_contents = data_accessor.contents();
            let ghost prev_metas = metas_view(block_metas@);
            proof {
                assert(!old(locations).generated().contains(locv));
                assert(old(locations).generated().subset_of(locations.generated()));
            }

            let file_size = match data_accessor.write_entry(
                location.as_str(),
                StorageEntry::Block(block.duplicate()),
            ) {
                Ok(s) => s,
                Err(e) => {
                    return Err(e);
                },
            };

            let mut col_stats: Vec<ColumnStatistics> = Vec::new();
            let mut j: usize = 0;
            while j < blk_stats.len()
                invariant
                    j <= blk_stats@.len(),
                    col_stats@.len() == j,
                    forall|l: int| 0 <= l < j ==> #[trigger] col_stats@[l] == blk_stats@[l].1,
                decreases blk_stats@.len() - j,
            {
                col_stats.push(blk_stats[j].1);
                j = j + 1;
            }
            proof {
                assert(col_stats@ =~= blk_stats@.map_values(|p: BlockColumnStats| p.1));
            }

            let block_info = BlockMeta {
                location: BlockLocation { location, meta_size: 0 },
                row_count,
                block_size: block_in_memory_size,
                col_stats,
            };

            proof {
                lemma_stream_rows_step(stream@, idx as int);
                crate::stats::lemma_stream_rows_prefix(stream@, idx + 1);
                assert(stream@.take(idx + 1).drop_last() =~= stream@.take(idx as int));
                assert(stream@.take(idx + 1).last() == stream@[idx as int]);
                assert(metas_view(block_metas@.push(block_info)).drop_last() =~= metas_view(
                    block_metas@,
                ));
                assert(whole.take(idx + 1).drop_last() =~= whole.take(idx as int));
                assert(stats_matrix(blocks_stats).push(blk_stats@) =~= whole.take(idx + 1));
            }

            block_metas.push(block_info);
            blocks_stats.push(blk_stats);
            proof {
                let nm = metas_view(block_metas@);
                assert(nm.drop_last() =~= prev_metas);
                assert(nm[nm.len() - 1].location.location == locv);
                assert(written_at(nm, locv));
                assert forall|l: Seq<char>|
                    #[trigger] data_accessor.contents().contains_key(l) && !written_at(
                        nm,
                        l,
                    ) implies old(data_accessor).contents().contains_key(l)
                    && data_accessor.contents()[l] == old(data_accessor).contents()[l] by {
                    assert(l != locv);
                    assert(data_accessor.contents() == pre_contents.insert(
                        locv,
                        StorageEntryView::Block(stream@[idx as int]@),
                    ));
                    assert(pre_contents.contains_key(l));
                    if written_at(prev_metas, l) {
                        let w = choose|w: int|
                            0 <= w < prev_metas.len() && (#[trigger] prev_metas[w]).location.location
                                == l;
                        assert(nm[w] == prev_metas[w]);
                        assert(written_at(nm, l));
                    }
                }
            }

            summary_block_count = summary_block_count + 1;
            summary_row_count = summary_row_count + row_count;
            summary_compressed_byte_size = summary_compressed_byte_size.saturating_add(file_size);
            summary_uncompressed_byte_size = summary_uncompressed_byte_size.saturating_add(
                block_in_memory_size,
            );
            idx = idx + 1;
            proof {
                assert(stats_matrix(blocks_stats) =~= whole.take(idx as int));
            }
        }
        proof {
            assert(stream@.take(idx as int) =~= stream@);
            assert(whole.take(idx as int) =~= whole);
            assert forall|j: int|
                uniform(whole) && 0 <= j < whole[0].len() implies crate::stats::sum_nulls(
                whole,
                j,
            ) <= u64::MAX && crate::stats::sum_rows(whole, j) <= u64::MAX by {
                assert forall|i: int| 0 <= i < stream@.len() implies 0 <= j < (
                #[trigger] stream@[i]).columns@.len() by {
                    assert(whole[i] == block_stats_spec(stream@[i]));
                    assert(whole[i].len() == whole[0].len());
                }
                crate::stats::lemma_stream_matrix_sums(stream@, j);
            }
        }

        proof {
            assert(stream_types_supported(stream@));
        }
        let summary = match column_stats_reduce(&blocks_stats) {
            Ok(s) => s,
            Err(e) => {
                proof {
                    if stream@.len() == 0 {
                        assert(whole =~= Seq::<Seq<BlockColumnStats>>::empty());
                        assert(uniform(whole));
                    }
                }
                return Err(e);
            },
        };
        let segment_info = SegmentInfo {
            blocks: block_metas,
            summary: Stats {
                row_count: summary_row_count,
                block_count: summary_block_count,
                uncompressed_byte_size: summary_uncompressed_byte_size,
                compressed_byte_size: summary_compressed_byte_size,
                col_stats: summary,
            },
        };
        proof {
            assert(segment_info@.blocks =~= metas_view(block_metas@));
        }
        Ok(segment_info)
    }
}

/// One more batch extends the running row total by its row count.
proof fn lemma_stream_rows_step(stream: Seq<DataBlock>, i: int)
    requires
        0 <= i < stream.len(),
    ensures
        stream_rows(stream.take(i + 1)) == stream_rows(stream.take(i)) + stream[i].rows,
{
    assert(stream.take(i + 1).drop_last() =~= stream.take(i));
    assert(stream.take(i + 1).last() == stream[i]);
}

} // verus!
