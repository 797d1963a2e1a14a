use fuse_engine::cache::MetaCache;
use fuse_engine::error::EngineError;
use fuse_engine::filter::{CompareOp, Expression};
use fuse_engine::meta::{
    BlockLocation, BlockMeta, SegmentInfo, Stats, StorageEntry, TableSnapshot,
};
use fuse_engine::plan::Extras;
use fuse_engine::pruner::BlockPruner;
use fuse_engine::stats::ColumnStatistics;
use fuse_engine::storage::{InMemoryStorage, StorageAccessor};
use fuse_engine::value::{ColumnType, ColumnValue, DataField, DataSchema};

fn schema_x() -> DataSchema {
    DataSchema {
        fields: vec![DataField { name: "x".to_string(), data_type: ColumnType::Int64 }],
    }
}

fn int_stats(min: i64, max: i64, rows: u64) -> ColumnStatistics {
    ColumnStatistics {
        min: ColumnValue::Int(min),
        max: ColumnValue::Int(max),
        null_count: 0,
        row_count: rows,
    }
}

fn block(name: &str, min: i64, max: i64, rows: u64) -> BlockMeta {
    BlockMeta {
        location: BlockLocation { location: name.to_string(), meta_size: 0 },
        row_count: rows,
        block_size: 16 * rows,
        col_stats: vec![int_stats(min, max, rows)],
    }
}

fn segment(blocks: Vec<BlockMeta>) -> SegmentInfo {
    let row_count: u64 = blocks.iter().map(|b| b.row_count).sum();
    let uncompressed: u64 = blocks.iter().map(|b| b.block_size).sum();
    let min = blocks.iter().map(|b| match b.col_stats[0].min {
        ColumnValue::Int(v) => v,
        _ => unreachable!(),
    }).min().unwrap();
    let max = blocks.iter().map(|b| match b.col_stats[0].max {
        ColumnValue::Int(v) => v,
        _ => unreachable!(),
    }).max().unwrap();
    SegmentInfo {
        summary: Stats {
            row_count,
            block_count: blocks.len() as u64,
            uncompressed_byte_size: uncompressed,
            compressed_byte_size: uncompressed,
            col_stats: vec![int_stats(min, max, row_count)],
        },
        blocks,
    }
}

fn filter_gt(name: &str, lit: i64) -> Option<Extras> {
    Some(Extras {
        filters: vec![Expression::Compare(
            CompareOp::Gt,
            Box::new(Expression::Column(name.to_string())),
            Box::new(Expression::Literal(ColumnValue::Int(lit))),
        )],
    })
}

/// A snapshot with two segments: segment A holds blocks with "x" ranges
/// [0,10] and [20,30]; segment B one block with range [40,50].
fn two_segment_setup() -> (InMemoryStorage, TableSnapshot) {
    let mut storage = InMemoryStorage::new();
    let seg_a = segment(vec![block("blk_a1", 0, 10, 5), block("blk_a2", 20, 30, 5)]);
    let seg_b = segment(vec![block("blk_b1", 40, 50, 5)]);
    storage.write_entry("seg_a", StorageEntry::Segment(seg_a)).unwrap();
    storage.write_entry("seg_b", StorageEntry::Segment(seg_b)).unwrap();
    let snapshot = TableSnapshot {
        snapshot_id: "s1".to_string(),
        segments: vec!["seg_a".to_string(), "seg_b".to_string()],
    };
    storage
        .write_entry("_ss/s1", StorageEntry::Snapshot(TableSnapshot {
            snapshot_id: snapshot.snapshot_id.clone(),
            segments: snapshot.segments.clone(),
        }))
        .unwrap();
    (storage, snapshot)
}

fn kept_names(blocks: &Vec<BlockMeta>) -> Vec<String> {
    blocks.iter().map(|b| b.location.location.clone()).collect()
}

#[test]
fn boundary_and_disjoint_filters_prune_exactly() {
    // x > 25 keeps [20,30] of segment A and all of segment B, drops [0,10]
    let (mut storage, snapshot) = two_segment_setup();
    let pruner = BlockPruner::new(&snapshot);
    let out = pruner.apply(&schema_x(), &filter_gt("x", 25), &mut storage).unwrap();
    assert_eq!(kept_names(&out), vec!["blk_a2", "blk_b1"]);

    // a boundary-equal filter: x > 50 keeps nothing
    let out = pruner.apply(&schema_x(), &filter_gt("x", 50), &mut storage).unwrap();
    assert_eq!(out.len(), 0);

    // boundary-exceeding on segment B only
    let out = pruner.apply(&schema_x(), &filter_gt("x", 35), &mut storage).unwrap();
    assert_eq!(kept_names(&out), vec!["blk_b1"]);
}

#[test]
fn pruning_reads_each_segment_once_and_no_block_data() {
    let (mut storage, snapshot) = two_segment_setup();
    let before = storage.read_log().len();
    let pruner = BlockPruner::new(&snapshot);
    let out = pruner.apply(&schema_x(), &filter_gt("x", 25), &mut storage).unwrap();
    assert_eq!(kept_names(&out), vec!["blk_a2", "blk_b1"]);
    let log = storage.read_log();
    assert_eq!(log.len() - before, 3);
    assert_eq!(log[before], "_ss/s1");
    assert_eq!(log[before + 1], "seg_a");
    assert_eq!(log[before + 2], "seg_b");
    // block files are never touched
    assert!(log.iter().all(|l| !l.starts_with("blk_")));
}

#[test]
fn no_filter_returns_every_block_unchanged() {
    let (mut storage, snapshot) = two_segment_setup();
    let pruner = BlockPruner::new(&snapshot);
    let out = pruner.apply(&schema_x(), &None, &mut storage).unwrap();
    assert_eq!(kept_names(&out), vec!["blk_a1", "blk_a2", "blk_b1"]);
    let out = pruner
        .apply(&schema_x(), &Some(Extras { filters: vec![] }), &mut storage)
        .unwrap();
    assert_eq!(kept_names(&out), vec!["blk_a1", "blk_a2", "blk_b1"]);
}

#[test]
fn empty_snapshot_answers_without_further_reads() {
    let mut storage = InMemoryStorage::new();
    let snapshot = TableSnapshot { snapshot_id: "s0".to_string(), segments: vec![] };
    storage
        .write_entry("_ss/s0", StorageEntry::Snapshot(TableSnapshot {
            snapshot_id: "s0".to_string(),
            segments: vec![],
        }))
        .unwrap();
    let pruner = BlockPruner::new(&snapshot);
    let out = pruner.apply(&schema_x(), &None, &mut storage).unwrap();
    assert_eq!(out.len(), 0);
    let log = storage.read_log();
    assert_eq!(log.len(), 1);
    assert_eq!(log[0], "_ss/s0");
}

#[test]
fn compilation_failure_happens_before_any_read() {
    let (mut storage, snapshot) = two_segment_setup();
    let before = storage.read_log().len();
    let pruner = BlockPruner::new(&snapshot);
    match pruner.apply(&schema_x(), &filter_gt("unknown", 1), &mut storage) {
        Err(EngineError::PredicateCompilation(name)) => assert_eq!(name, "unknown"),
        other => panic!("expected a compilation error, got {:?}", other),
    }
    assert_eq!(storage.read_log().len(), before);
}

#[test]
fn a_warm_cache_satisfies_pruning_without_storage_reads() {
    let (mut storage, snapshot) = two_segment_setup();
    let pruner = BlockPruner::new(&snapshot);
    let mut cache = MetaCache::new();

    let cold = pruner
        .apply_with_cache(&schema_x(), &filter_gt("x", 25), &mut storage, &mut cache)
        .unwrap();
    assert_eq!(kept_names(&cold), vec!["blk_a2", "blk_b1"]);
    let after_cold = storage.read_log().len();
    assert_eq!(after_cold, 3);

    // every record is now cached: the second pass reads nothing
    let warm = pruner
        .apply_with_cache(&schema_x(), &filter_gt("x", 25), &mut storage, &mut cache)
        .unwrap();
    assert_eq!(kept_names(&warm), kept_names(&cold));
    assert_eq!(storage.read_log().len(), after_cold);

    // and the cached pass agrees with the uncached one
    let direct = pruner.apply(&schema_x(), &filter_gt("x", 25), &mut storage).unwrap();
    assert_eq!(kept_names(&direct), kept_names(&warm));
}

#[test]
fn missing_snapshot_is_a_storage_error() {
    let mut storage = InMemoryStorage::new();
    let snapshot = TableSnapshot { snapshot_id: "gone".to_string(), segments: vec![] };
    let pruner = BlockPruner::new(&snapshot);
    assert!(matches!(
        pruner.apply(&schema_x(), &None, &mut storage),
        Err(EngineError::StorageIo(_))
    ));
}

#[test]
fn a_record_of_the_wrong_kind_is_a_serialization_error() {
    let mut storage = InMemoryStorage::new();
    let seg = segment(vec![block("blk", 0, 1, 1)]);
    storage.write_entry("_ss/s2", StorageEntry::Segment(seg)).unwrap();
    let snapshot = TableSnapshot { snapshot_id: "s2".to_string(), segments: vec![] };
    let pruner = BlockPruner::new(&snapshot);
    assert!(matches!(
        pruner.apply(&schema_x(), &None, &mut storage),
        Err(EngineError::Serialization(_))
    ));
}

#[test]
fn a_failing_segment_read_aborts_the_whole_call() {
    let mut storage = InMemoryStorage::new();
    let seg_a = segment(vec![block("blk_a1", 0, 10, 5)]);
    storage.write_entry("seg_a", StorageEntry::Segment(seg_a)).unwrap();
    // "seg_missing" is referenced but never written
    storage
        .write_entry("_ss/s3", StorageEntry::Snapshot(TableSnapshot {
            snapshot_id: "s3".to_string(),
            segments: vec!["seg_a".to_string(), "seg_missing".to_string()],
        }))
        .unwrap();
    let snapshot = TableSnapshot {
        snapshot_id: "s3".to_string(),
        segments: vec!["seg_a".to_string(), "seg_missing".to_string()],
    };
    let pruner = BlockPruner::new(&snapshot);
    assert!(matches!(
        pruner.apply(&schema_x(), &None, &mut storage),
        Err(EngineError::StorageIo(_))
    ));
}
