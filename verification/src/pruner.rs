//! The block pruner: resolves a snapshot, loads its segments, and uses the
//! compiled range predicate to discard whole segments by their summary and
//! then individual blocks by their own statistics. It only ever reads
//! snapshot and segment records — never block data — and it never returns a
//! partial result.

use vstd::prelude::*;

use crate::cache::{read_entry_cached, MetaCache};
use crate::error::EngineError;
use crate::filter::{eval_spec, pred_cols_within, RangeFilter, StatsPredicate};
use crate::io::{snapshot_location, snapshot_location_spec, SegmentReader, SnapshotReader};
use crate::meta::{BlockMeta, BlockMetaView, SegmentInfo, SegmentInfoView, StorageEntry, StorageEntryView, TableSnapshot};
use crate::plan::Extras;
use crate::storage::StorageAccessor;
use crate::value::{DataFieldView, DataSchema};
use crate::writer::metas_view;

verus! {

/// The blocks a segment contributes: none if its summary already refutes
/// the predicate, otherwise exactly the blocks whose own statistics pass.
pub open spec fn segment_kept_blocks(seg: SegmentInfoView, p: StatsPredicate) -> Seq<
    BlockMetaView,
> {
    if eval_spec(p, seg.summary.col_stats) {
        seg.blocks.filter(|b: BlockMetaView| eval_spec(p, b.col_stats))
    } else {
        Seq::empty()
    }
}

/// Every named location holds a segment record.
pub open spec fn segments_resolvable(
    contents: Map<Seq<char>, StorageEntryView>,
    segs: Seq<Seq<char>>,
) -> bool {
    forall|i: int|
        0 <= i < segs.len() ==> contents.contains_key(#[trigger] segs[i]) && contents[segs[i]]
            is Segment
}

/// The blocks surviving pruning, over the segments in snapshot order.
pub open spec fn gathered_blocks(
    contents: Map<Seq<char>, StorageEntryView>,
    segs: Seq<Seq<char>>,
    p: StatsPredicate,
) -> Seq<BlockMetaView>
    decreases segs.len(),
{
    if segs.len() == 0 {
        Seq::empty()
    } else {
        gathered_blocks(contents, segs.drop_last(), p) + segment_kept_blocks(
            contents[segs.last()]->Segment_0,
            p,
        )
    }
}

/// All blocks of all segments, in snapshot order: what a scan without any
/// filter must visit.
pub open spec fn all_blocks(
    contents: Map<Seq<char>, StorageEntryView>,
    segs: Seq<Seq<char>>,
) -> Seq<BlockMetaView>
    decreases segs.len(),
{
    if segs.len() == 0 {
        Seq::empty()
    } else {
        all_blocks(contents, segs.drop_last()) + (contents[segs.last()]->Segment_0).blocks
    }
}

/// The predicate the pruner runs with: compiled from the first pushed-down
/// filter, or the constant `true` when there is none.
pub open spec fn used_predicate(
    push_down: Option<Extras>,
    schema: Seq<DataFieldView>,
    p: StatsPredicate,
) -> bool {
    match push_down {
        Option::Some(ex) => if ex.filters@.len() > 0 {
            crate::filter::compiles(ex.filters@[0], schema, p)
        } else {
            p is True
        },
        Option::None => p is True,
    }
}

/// When filtering a segment can run to completion: the predicate's columns
/// exist in the summary statistics, and — when the summary passes — in
/// every block's statistics too.
pub open spec fn filter_applicable(seg: SegmentInfoView, p: StatsPredicate) -> bool {
    &&& pred_cols_within(p, seg.summary.col_stats.len() as int)
    &&& eval_spec(p, seg.summary.col_stats) ==> forall|i: int|
        0 <= i < seg.blocks.len() ==> pred_cols_within(
            p,
            (#[trigger] seg.blocks[i]).col_stats.len() as int,
        )
}

/// Whether the filter the pruner would compile references a column name the
/// schema does not contain: the one cause of a compilation error.
pub open spec fn pushed_filter_unknown(
    push_down: Option<Extras>,
    schema: Seq<DataFieldView>,
) -> bool {
    match push_down {
        Option::Some(ex) => ex.filters@.len() > 0 && crate::filter::references_unknown_column(
            ex.filters@[0],
            schema,
        ),
        Option::None => false,
    }
}

/// Whether the pushed-down extras carry no filter at all.
pub open spec fn no_filter(push_down: Option<Extras>) -> bool {
    match push_down {
        Option::Some(ex) => ex.filters@.len() == 0,
        Option::None => true,
    }
}

/// Under the constant-true predicate nothing is pruned: the gathered blocks
/// are all blocks of all segments, unchanged.
pub proof fn lemma_no_filter_keeps_all(
    contents: Map<Seq<char>, StorageEntryView>,
    segs: Seq<Seq<char>>,
)
    ensures
        gathered_blocks(contents, segs, StatsPredicate::True) == all_blocks(contents, segs),
    decreases segs.len(),
{
    if segs.len() > 0 {
        lemma_no_filter_keeps_all(contents, segs.drop_last());
        let seg = contents[segs.last()]->Segment_0;
        lemma_filter_true(seg.blocks);
    }
}

/// Filtering with the constant-true predicate keeps a sequence unchanged.
proof fn lemma_filter_true(blocks: Seq<BlockMetaView>)
    ensures
        blocks.filter(
            |b: BlockMetaView| eval_spec(StatsPredicate::True, b.col_stats),
        ) == blocks,
    decreases blocks.len(),
{
    reveal(Seq::filter);
    if blocks.len() > 0 {
        lemma_filter_true(blocks.drop_last());
        assert(blocks.drop_last().push(blocks.last()) =~= blocks);
    }
}

/// Prunes the blocks of one resolved snapshot.
pub struct BlockPruner {
    table_snapshot_location: String,
}

impl BlockPruner {
    /// Remembers where the snapshot lives; everything else is read on
    /// demand when the pruner is applied.
    pub fn new(table_snapshot: &TableSnapshot) -> (r: Self)
        ensures
            r.location_spec() == snapshot_location_spec(table_snapshot@.snapshot_id),
    {
        BlockPruner {
            table_snapshot_location: snapshot_location(table_snapshot.snapshot_id.as_str()),
        }
    }

    /// The location this pruner reads its snapshot from.
    pub closed spec fn location_spec(self) -> Seq<char> {
        self.table_snapshot_location@
    }

    /// Keeps the blocks of one segment that the predicate cannot rule out:
    /// none when the summary already fails, a statistics-filtered subset
    /// otherwise. Fails with a format error when statistics are missing a
    /// column the predicate needs.
    fn filter_segment(segment_info: SegmentInfo, pred: &RangeFilter) -> (r: Result<
        Vec<BlockMeta>,
        EngineError,
    >)
        ensures
            r is Ok <==> filter_applicable(segment_info@, pred.pred),
            r matches Ok(out) ==> metas_view(out@) == segment_kept_blocks(
                segment_info@,
                pred.pred,
            ),
            r matches Err(e) ==> e is Serialization,
    {
        let passes = match pred.eval(&segment_info.summary.col_stats) {
            Ok(b) => b,
            Err(e) => {
                return Err(e);
            },
        };
        if !passes {
            let out: Vec<BlockMeta> = Vec::new();
            proof {
                assert(metas_view(out@) =~= segment_kept_blocks(segment_info@, pred.pred));
            }
            return Ok(out);
        }
        let mut out: Vec<BlockMeta> = Vec::new();
        let mut i: usize = 0;
        proof {
            reveal(Seq::filter);
            assert(metas_view(out@) =~= segment_kept_blocks(
                (SegmentInfoView {
                    blocks: segment_info@.blocks.take(0),
                    summary: segment_info@.summary,
                }),
                pred.pred,
            ));
        }
        while i < segment_info.blocks.len()
            invariant
                i <= segment_info.blocks@.len(),
                eval_spec(pred.pred, segment_info@.summary.col_stats),
                pred_cols_within(pred.pred, segment_info@.summary.col_stats.len() as int),
                forall|k: int|
                    0 <= k < i ==> pred_cols_within(
                        pred.pred,
                        (#[trigger] segment_info@.blocks[k]).col_stats.len() as int,
                    ),
                metas_view(out@) == segment_kept_blocks(
                    (SegmentInfoView {
                        blocks: segment_info@.blocks.take(i as int),
                        summary: segment_info@.summary,
                    }),
                    pred.pred,
                ),
            decreases segment_info.blocks@.len() - i,
        {
            let keep = match pred.eval(&segment_info.blocks[i].col_stats) {
                Ok(b) => b,
                Err(e) => {
                    proof {
                        assert(!pred_cols_within(
                            pred.pred,
                            segment_info@.blocks[i as int].col_stats.len() as int,
                        ));
                        assert(!filter_applicable(segment_info@, pred.pred));
                    }
                    return Err(e);
                },
            };
            let ghost prev = metas_view(out@);
            proof {
                reveal(Seq::filter);
                assert(segment_info@.blocks.take(i + 1).drop_last() =~= segment_info@.blocks.take(
                    i as int,
                ));
                assert(segment_info@.blocks.take(i + 1).last() == segment_info@.blocks[i as int]);
                assert(segment_kept_blocks(
                    (SegmentInfoView {
                        blocks: segment_info@.blocks.take(i + 1),
                        summary: segment_info@.summary,
                    }),
                    pred.pred,
                ) == if eval_spec(pred.pred, segment_info@.blocks[i as int].col_stats) {
                    prev.push(segment_info@.blocks[i as int])
                } else {
                    prev
                });
            }
            if keep {
                out.push(segment_info.blocks[i].duplicate());
                proof {
                    assert(metas_view(out@) =~= prev.push(segment_info@.blocks[i as int]));
                }
            }
            i = i + 1;
        }
        proof {
            assert(segment_info@.blocks.take(segment_info.blocks@.len() as int)
                =~= segment_info@.blocks);
        }
        Ok(out)
    }

    /// Applies pruning: resolves the snapshot, answers immediately for an
    /// empty one, otherwise loads each segment once, discards segments by
    /// their summary and blocks by their statistics, and flattens the
    /// survivors. Exactly the snapshot and the segment records are read —
    /// block data never is — and a compilation failure happens before any
    /// read. Any failure aborts the whole call with no partial result.
    pub fn apply<S: StorageAccessor>(
        &self,
        schema: &DataSchema,
        push_down: &Option<Extras>,
        data_accessor: &mut S,
    ) -> (r: Result<Vec<BlockMeta>, EngineError>)
        ensures
            final(data_accessor).contents() == old(data_accessor).contents(),
            r matches Ok(out) ==> {
                let contents = old(data_accessor).contents();
                &&& contents.contains_key(self.location_spec())
                &&& contents[self.location_spec()] matches StorageEntryView::Snapshot(snap) && {
                    &&& segments_resolvable(contents, snap.segments)
                    &&& exists|p: StatsPredicate|
                        #[trigger] used_predicate(*push_down, schema@, p) && metas_view(out@)
                            == gathered_blocks(contents, snap.segments, p)
                    &&& no_filter(*push_down) ==> metas_view(out@) == all_blocks(
                        contents,
                        snap.segments,
                    )
                    &&& final(data_accessor).reads() == old(data_accessor).reads().push(
                        self.location_spec(),
                    ) + snap.segments
                    &&& snap.segments.len() == 0 ==> out@.len() == 0
                        && final(data_accessor).reads() == old(data_accessor).reads().push(
                        self.location_spec(),
                    )
                }
            },
            r matches Err(e) ==> e is StorageIo || e is Serialization || e
                is PredicateCompilation,
            (r matches Err(e) && e is PredicateCompilation) <==> pushed_filter_unknown(
                *push_down,
                schema@,
            ),
            r matches Err(e) && e is PredicateCompilation ==> final(data_accessor).reads()
                == old(data_accessor).reads(),
    {
        let block_pred: RangeFilter = match push_down {
            Some(extras) => {
                if extras.filters.len() > 0 {
                    match RangeFilter::try_create(&extras.filters[0], schema) {
                        Ok(f) => f,
                        Err(e) => {
                            return Err(e);
                        },
                    }
                } else {
                    RangeFilter { pred: StatsPredicate::True }
                }
            },
            None => RangeFilter { pred: StatsPredicate::True },
        };
        proof {
            assert(!pushed_filter_unknown(*push_down, schema@));
        }

        let snapshot = match SnapshotReader::read(data_accessor, self.table_snapshot_location.as_str()) {
            Ok(s) => s,
            Err(e) => {
                return Err(e);
            },
        };
        let ghost contents = old(data_accessor).contents();
        let ghost snapv = snapshot@;
        let ghost locv = self.location_spec();

        if snapshot.segments.len() == 0 {
            let out: Vec<BlockMeta> = Vec::new();
            proof {
                assert(used_predicate(*push_down, schema@, block_pred.pred) && metas_view(out@)
                    =~= gathered_blocks(contents, snapv.segments, block_pred.pred));
                if no_filter(*push_down) {
                    lemma_no_filter_keeps_all(contents, snapv.segments);
                }
                assert(final(data_accessor).reads() =~= old(data_accessor).reads().push(locv)
                    + snapv.segments);
            }
            return Ok(out);
        }

        let mut res: Vec<BlockMeta> = Vec::new();
        let mut i: usize = 0;
        while i < snapshot.segments.len()
            invariant
                i <= snapshot.segments@.len(),
                snapv == snapshot@,
                snapv.segments.len() == snapshot.segments@.len(),
                locv == self.location_spec(),
                !pushed_filter_unknown(*push_down, schema@),
                contents == old(data_accessor).contents(),
                data_accessor.contents() == contents,
                data_accessor.reads() == old(data_accessor).reads().push(locv)
                    + snapv.segments.take(i as int),
                forall|k: int|
                    0 <= k < i ==> contents.contains_key(#[trigger] snapv.segments[k])
                        && contents[snapv.segments[k]] is Segment,
                metas_view(res@) == gathered_blocks(
                    contents,
                    snapv.segments.take(i as int),
                    block_pred.pred,
                ),
            decreases snapshot.segments@.len() - i,
        {
            proof {
                assert(snapv.segments[i as int] == snapshot.segments@[i as int]@);
            }
            let seg = match SegmentReader::read(data_accessor, snapshot.segments[i].as_str()) {
                Ok(s) => s,
                Err(e) => {
                    return Err(e);
                },
            };
            let mut part = match Self::filter_segment(seg, &block_pred) {
                Ok(v) => v,
                Err(e) => {
                    return Err(e);
                },
            };
            proof {
                assert(snapv.segments.take(i + 1).drop_last() =~= snapv.segments.take(i as int));
                assert(snapv.segments.take(i + 1).last() == snapv.segments[i as int]);
                assert(data_accessor.reads() =~= old(data_accessor).reads().push(locv)
                    + snapv.segments.take(i + 1));
            }
            res.append(&mut part);
            proof {
                assert(metas_view(res@) =~= gathered_blocks(
                    contents,
                    snapv.segments.take(i + 1),
                    block_pred.pred,
                ));
            }
            i = i + 1;
        }
        proof {
            assert(snapv.segments.take(snapv.segments.len() as int) =~= snapv.segments);
            assert(used_predicate(*push_down, schema@, block_pred.pred));
            if no_filter(*push_down) {
                lemma_no_filter_keeps_all(contents, snapv.segments);
            }
        }
        Ok(res)
    }

    /// Applies pruning with a caller-supplied metadata cache: snapshot and
    /// segment records already cached are not read from storage again, and
    /// records read on a miss are cached for the next pass. The cache must
    /// be coherent — everything it holds was previously read from this
    /// storage — and the surviving blocks are exactly those of `apply`,
    /// whether every lookup hits or the cache is always empty.
    pub fn apply_with_cache<S: StorageAccessor>(
        &self,
        schema: &DataSchema,
        push_down: &Option<Extras>,
        data_accessor: &mut S,
        cache: &mut MetaCache,
    ) -> (r: Result<Vec<BlockMeta>, EngineError>)
        requires
            old(cache).contents().submap_of(old(data_accessor).contents()),
        ensures
            final(data_accessor).contents() == old(data_accessor).contents(),
            final(cache).contents().submap_of(old(data_accessor).contents()),
            old(cache).contents().submap_of(final(cache).contents()),
            r matches Ok(out) ==> {
                let contents = old(data_accessor).contents();
                &&& contents.contains_key(self.location_spec())
                &&& contents[self.location_spec()] matches StorageEntryView::Snapshot(snap) && {
                    &&& segments_resolvable(contents, snap.segments)
                    &&& exists|p: StatsPredicate|
                        #[trigger] used_predicate(*push_down, schema@, p) && metas_view(out@)
                            == gathered_blocks(contents, snap.segments, p)
                    &&& no_filter(*push_down) ==> metas_view(out@) == all_blocks(
                        contents,
                        snap.segments,
                    )
                }
            },
            r matches Err(e) ==> e is StorageIo || e is Serialization || e
                is PredicateCompilation,
            (r matches Err(e) && e is PredicateCompilation) <==> pushed_filter_unknown(
                *push_down,
                schema@,
            ),
            r matches Err(e) && e is PredicateCompilation ==> final(data_accessor).reads()
                == old(data_accessor).reads() && final(cache).contents() == old(cache).contents(),
    {
        let block_pred: RangeFilter = match push_down {
            Some(extras) => {
                if extras.filters.len() > 0 {
                    match RangeFilter::try_create(&extras.filters[0], schema) {
                        Ok(f) => f,
                        Err(e) => {
                            return Err(e);
                        },
                    }
                } else {
                    RangeFilter { pred: StatsPredicate::True }
                }
            },
            None => RangeFilter { pred: StatsPredicate::True },
        };
        proof {
            assert(!pushed_filter_unknown(*push_down, schema@));
        }

        let ghost contents = old(data_accessor).contents();
        let snapshot = match read_entry_cached(
            data_accessor,
            cache,
            self.table_snapshot_location.as_str(),
        ) {
            Ok(StorageEntry::Snapshot(s)) => s,
            Ok(_) => {
                return Err(EngineError::Serialization(self.table_snapshot_location.clone()));
            },
            Err(e) => {
                return Err(e);
            },
        };
        let ghost snapv = snapshot@;

        let mut res: Vec<BlockMeta> = Vec::new();
        if snapshot.segments.len() == 0 {
            proof {
                assert(used_predicate(*push_down, schema@, block_pred.pred) && metas_view(res@)
                    =~= gathered_blocks(contents, snapv.segments, block_pred.pred));
                if no_filter(*push_down) {
                    lemma_no_filter_keeps_all(contents, snapv.segments);
                }
            }
            return Ok(res);
        }

        let mut i: usize = 0;
        while i < snapshot.segments.len()
            invariant
                i <= snapshot.segments@.len(),
                snapv == snapshot@,
                snapv.segments.len() == snapshot.segments@.len(),
                !pushed_filter_unknown(*push_down, schema@),
                contents == old(data_accessor).contents(),
                data_accessor.contents() == contents,
                cache.contents().submap_of(contents),
                old(cache).contents().submap_of(cache.contents()),
                forall|k: int|
                    0 <= k < i ==> contents.contains_key(#[trigger] snapv.segments[k])
                        && contents[snapv.segments[k]] is Segment,
                metas_view(res@) == gathered_blocks(
                    contents,
                    snapv.segments.take(i as int),
                    block_pred.pred,
                ),
            decreases snapshot.segments@.len() - i,
        {
            proof {
                assert(snapv.segments[i as int] == snapshot.segments@[i as int]@);
            }
            let ghost cache_before = cache.contents();
            let seg = match read_entry_cached(
                data_accessor,
                cache,
                snapshot.segments[i].as_str(),
            ) {
                Ok(StorageEntry::Segment(s)) => s,
                Ok(_) => {
                    proof {
                        vstd::map_lib::lemma_submap_of_trans(
                            old(cache).contents(),
                            cache_before,
                            cache.contents(),
                        );
                    }
                    return Err(EngineError::Serialization(snapshot.segments[i].clone()));
                },
                Err(e) => {
                    proof {
                        vstd::map_lib::lemma_submap_of_trans(
                            old(cache).contents(),
                            cache_before,
                            cache.contents(),
                        );
                    }
                    return Err(e);
                },
            };
            proof {
                vstd::map_lib::lemma_submap_of_trans(
                    old(cache).contents(),
                    cache_before,
                    cache.contents(),
                );
            }
            let mut part = match Self::filter_segment(seg, &block_pred) {
                Ok(v) => v,
                Err(e) => {
                    return Err(e);
                },
            };
            proof {
                assert(snapv.segments.take(i + 1).drop_last() =~= snapv.segments.take(i as int));
                assert(snapv.segments.take(i + 1).last() == snapv.segments[i as int]);
            }
            res.append(&mut part);
            proof {
                assert(metas_view(res@) =~= gathered_blocks(
                    contents,
                    snapv.segments.take(i + 1),
                    block_pred.pred,
                ));
            }
            i = i + 1;
        }
        proof {
            assert(snapv.segments.take(snapv.segments.len() as int) =~= snapv.segments);
            assert(used_predicate(*push_down, schema@, block_pred.pred));
            if no_filter(*push_down) {
                lemma_no_filter_keeps_all(contents, snapv.segments);
            }
        }
        Ok(res)
    }
}

} // verus!
