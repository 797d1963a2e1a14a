use fuse_engine::block::{DataBlock, DataColumn};
use fuse_engine::error::EngineError;
use fuse_engine::locations::PresetLocations;
use fuse_engine::meta::StorageEntry;
use fuse_engine::storage::{InMemoryStorage, StorageAccessor};
use fuse_engine::value::{ColumnType, ColumnValue, DataField, DataSchema};
use fuse_engine::writer::BlockAppender;

fn schema_xy() -> DataSchema {
    DataSchema {
        fields: vec![
            DataField { name: "x".to_string(), data_type: ColumnType::Int64 },
            DataField { name: "y".to_string(), data_type: ColumnType::UInt64 },
        ],
    }
}

fn block_xy(xs: &[i64], ys: &[u64]) -> DataBlock {
    assert_eq!(xs.len(), ys.len());
    DataBlock {
        schema: schema_xy(),
        columns: vec![
            DataColumn::Array(xs.iter().map(|v| ColumnValue::Int(*v)).collect()),
            DataColumn::Array(ys.iter().map(|v| ColumnValue::UInt(*v)).collect()),
        ],
        rows: xs.len(),
    }
}

fn preset(names: &[&str]) -> PresetLocations {
    PresetLocations::from_list(names.iter().map(|n| n.to_string()).collect()).unwrap()
}

#[test]
fn append_accounts_for_every_batch() {
    let mut storage = InMemoryStorage::new();
    let mut gen = preset(&["b2", "b1"]);
    let stream = vec![block_xy(&[1, 5, 3], &[10, 20, 30]), block_xy(&[-4, 2], &[7, 70])];
    let seg = BlockAppender::append_blocks(&mut storage, &mut gen, stream).unwrap();

    assert_eq!(seg.blocks.len(), 2);
    assert_eq!(seg.summary.block_count, 2);
    assert_eq!(seg.summary.row_count, 5);
    assert_eq!(seg.blocks[0].row_count, 3);
    assert_eq!(seg.blocks[1].row_count, 2);
    let row_sum: u64 = seg.blocks.iter().map(|b| b.row_count).sum();
    assert_eq!(row_sum, seg.summary.row_count);
    let size_sum: u64 = seg.blocks.iter().map(|b| b.block_size).sum();
    assert_eq!(size_sum, seg.summary.uncompressed_byte_size);
    // the in-memory backend charges a block file 16 bytes per row
    assert_eq!(seg.summary.compressed_byte_size, 16 * 5);

    // the summary statistics reduce the per-block statistics
    assert_eq!(seg.summary.col_stats.len(), 2);
    assert_eq!(seg.summary.col_stats[0].min, ColumnValue::Int(-4));
    assert_eq!(seg.summary.col_stats[0].max, ColumnValue::Int(5));
    assert_eq!(seg.summary.col_stats[0].null_count, 0);
    assert_eq!(seg.summary.col_stats[0].row_count, 5);
    assert_eq!(seg.summary.col_stats[1].min, ColumnValue::UInt(7));
    assert_eq!(seg.summary.col_stats[1].max, ColumnValue::UInt(70));

    // per-column minima of the per-block statistics agree with the summary
    for j in 0..2 {
        let mins: Vec<ColumnValue> = seg.blocks.iter().map(|b| b.col_stats[j].min).collect();
        assert!(mins.contains(&seg.summary.col_stats[j].min));
        let nulls: u64 = seg.blocks.iter().map(|b| b.col_stats[j].null_count).sum();
        assert_eq!(nulls, seg.summary.col_stats[j].null_count);
    }

    // fresh, pairwise distinct locations
    assert_eq!(seg.blocks[0].location.location, "b1");
    assert_eq!(seg.blocks[1].location.location, "b2");

    // each batch persisted at its block's location
    for (i, rows) in [3usize, 2].iter().enumerate() {
        match storage.read_entry(&seg.blocks[i].location.location).unwrap() {
            StorageEntry::Block(b) => assert_eq!(b.rows, *rows),
            other => panic!("expected a block file, got {:?}", other),
        }
    }
}

#[test]
fn append_of_no_batches_yields_an_empty_segment() {
    let mut storage = InMemoryStorage::new();
    let mut gen = preset(&[]);
    let seg = BlockAppender::append_blocks(&mut storage, &mut gen, vec![]).unwrap();
    assert_eq!(seg.blocks.len(), 0);
    assert_eq!(seg.summary.block_count, 0);
    assert_eq!(seg.summary.row_count, 0);
    assert_eq!(seg.summary.col_stats.len(), 0);
}

#[test]
fn append_rejects_an_unsupported_column_type() {
    let mut storage = InMemoryStorage::new();
    let mut gen = preset(&["b1"]);
    let block = DataBlock {
        schema: DataSchema {
            fields: vec![DataField { name: "s".to_string(), data_type: ColumnType::Utf8 }],
        },
        columns: vec![DataColumn::Constant(ColumnValue::Null, 1)],
        rows: 1,
    };
    match BlockAppender::append_blocks(&mut storage, &mut gen, vec![block]) {
        Err(EngineError::UnsupportedType(name)) => assert_eq!(name, "s"),
        other => panic!("expected a type error, got {:?}", other),
    }
}

#[test]
fn append_rejects_batches_that_disagree_on_columns() {
    let mut storage = InMemoryStorage::new();
    let mut gen = preset(&["b2", "b1"]);
    let narrow = DataBlock {
        schema: DataSchema {
            fields: vec![DataField { name: "x".to_string(), data_type: ColumnType::Int64 }],
        },
        columns: vec![DataColumn::Array(vec![ColumnValue::Int(1)])],
        rows: 1,
    };
    let wide = block_xy(&[1], &[2]);
    match BlockAppender::append_blocks(&mut storage, &mut gen, vec![narrow, wide]) {
        Err(EngineError::Serialization(_)) => {},
        other => panic!("expected a format error, got {:?}", other),
    }
}

#[test]
fn constant_columns_take_the_shortcut() {
    let mut storage = InMemoryStorage::new();
    let mut gen = preset(&["b1"]);
    let block = DataBlock {
        schema: DataSchema {
            fields: vec![DataField { name: "x".to_string(), data_type: ColumnType::Int64 }],
        },
        columns: vec![DataColumn::Constant(ColumnValue::Int(42), 1000)],
        rows: 1000,
    };
    let seg = BlockAppender::append_blocks(&mut storage, &mut gen, vec![block]).unwrap();
    assert_eq!(seg.summary.col_stats[0].min, ColumnValue::Int(42));
    assert_eq!(seg.summary.col_stats[0].max, ColumnValue::Int(42));
    assert_eq!(seg.summary.col_stats[0].null_count, 0);
    assert_eq!(seg.summary.row_count, 1000);
}
