use fuse_engine::block::{DataBlock, DataColumn};
use fuse_engine::error::EngineError;
use fuse_engine::stats::{block_stats, column_stats_reduce, ColumnStatistics};
use fuse_engine::value::{ColumnType, ColumnValue, DataField, DataSchema};

fn int_schema(names: &[&str]) -> DataSchema {
    DataSchema {
        fields: names
            .iter()
            .map(|n| DataField { name: n.to_string(), data_type: ColumnType::Int64 })
            .collect(),
    }
}

fn int_array_block(values: &[i64]) -> DataBlock {
    DataBlock {
        schema: int_schema(&["x"]),
        columns: vec![DataColumn::Array(
            values.iter().map(|v| ColumnValue::Int(*v)).collect(),
        )],
        rows: values.len(),
    }
}

#[test]
fn array_stats_min_max_nulls() {
    let block = DataBlock {
        schema: int_schema(&["x"]),
        columns: vec![DataColumn::Array(vec![
            ColumnValue::Int(3),
            ColumnValue::Null,
            ColumnValue::Int(-2),
            ColumnValue::Int(7),
        ])],
        rows: 4,
    };
    let stats = block_stats(&block).unwrap();
    assert_eq!(stats.len(), 1);
    assert_eq!(stats[0].0, ColumnType::Int64);
    let s = stats[0].1;
    assert_eq!(s.min, ColumnValue::Int(-2));
    assert_eq!(s.max, ColumnValue::Int(7));
    assert_eq!(s.null_count, 1);
    assert_eq!(s.row_count, 4);
}

#[test]
fn constant_column_is_constant_time_case() {
    let block = DataBlock {
        schema: int_schema(&["x"]),
        columns: vec![DataColumn::Constant(ColumnValue::Int(9), 5)],
        rows: 5,
    };
    let stats = block_stats(&block).unwrap();
    let s = stats[0].1;
    assert_eq!(s.min, ColumnValue::Int(9));
    assert_eq!(s.max, ColumnValue::Int(9));
    assert_eq!(s.null_count, 0);
    assert_eq!(s.row_count, 5);
}

#[test]
fn constant_null_column_counts_every_row_as_null() {
    let block = DataBlock {
        schema: int_schema(&["x"]),
        columns: vec![DataColumn::Constant(ColumnValue::Null, 4)],
        rows: 4,
    };
    let stats = block_stats(&block).unwrap();
    let s = stats[0].1;
    assert_eq!(s.min, ColumnValue::Null);
    assert_eq!(s.max, ColumnValue::Null);
    assert_eq!(s.null_count, 4);
    assert_eq!(s.row_count, 4);
}

#[test]
fn unsupported_declared_type_is_a_type_error() {
    let block = DataBlock {
        schema: DataSchema {
            fields: vec![DataField { name: "f".to_string(), data_type: ColumnType::Float64 }],
        },
        columns: vec![DataColumn::Constant(ColumnValue::Null, 2)],
        rows: 2,
    };
    match block_stats(&block) {
        Err(EngineError::UnsupportedType(name)) => assert_eq!(name, "f"),
        other => panic!("expected a type error, got {:?}", other),
    }
}

#[test]
fn memory_size_charges_arrays_per_value_and_constants_once() {
    let block = DataBlock {
        schema: int_schema(&["a", "b"]),
        columns: vec![
            DataColumn::Array(vec![
                ColumnValue::Int(1),
                ColumnValue::Int(2),
                ColumnValue::Int(3),
            ]),
            DataColumn::Constant(ColumnValue::Int(0), 3),
        ],
        rows: 3,
    };
    assert_eq!(block.memory_size(), 16 * 3 + 16);
}

fn stats_row(ty: ColumnType, min: ColumnValue, max: ColumnValue, nulls: u64, rows: u64) -> (
    ColumnType,
    ColumnStatistics,
) {
    (ty, ColumnStatistics { min, max, null_count: nulls, row_count: rows })
}

#[test]
fn reduction_aggregates_min_max_and_sums() {
    let blocks = vec![
        vec![stats_row(ColumnType::Int64, ColumnValue::Int(0), ColumnValue::Int(10), 1, 4)],
        vec![stats_row(ColumnType::Int64, ColumnValue::Int(-5), ColumnValue::Int(3), 0, 2)],
    ];
    let out = column_stats_reduce(&blocks).unwrap();
    assert_eq!(out.len(), 1);
    assert_eq!(out[0].min, ColumnValue::Int(-5));
    assert_eq!(out[0].max, ColumnValue::Int(10));
    assert_eq!(out[0].null_count, 1);
    assert_eq!(out[0].row_count, 6);
}

#[test]
fn reduction_twice_yields_the_same_summary() {
    let blocks = vec![
        vec![stats_row(ColumnType::Int64, ColumnValue::Int(2), ColumnValue::Int(8), 0, 3)],
        vec![stats_row(ColumnType::Int64, ColumnValue::Int(1), ColumnValue::Int(9), 2, 5)],
    ];
    let once = column_stats_reduce(&blocks).unwrap();
    let again = column_stats_reduce(&blocks).unwrap();
    assert_eq!(once, again);
    let reduced_as_block = vec![vec![(ColumnType::Int64, once[0])]];
    let twice = column_stats_reduce(&reduced_as_block).unwrap();
    assert_eq!(once, twice);
}

#[test]
fn reduction_is_order_independent() {
    let a = vec![stats_row(ColumnType::Int64, ColumnValue::Int(0), ColumnValue::Int(10), 1, 4)];
    let b = vec![stats_row(ColumnType::Int64, ColumnValue::Int(-5), ColumnValue::Int(3), 0, 2)];
    let forward = column_stats_reduce(&vec![a.clone(), b.clone()]).unwrap();
    let backward = column_stats_reduce(&vec![b, a]).unwrap();
    assert_eq!(forward, backward);
}

#[test]
fn reduction_rejects_a_missing_column() {
    let blocks = vec![
        vec![
            stats_row(ColumnType::Int64, ColumnValue::Int(0), ColumnValue::Int(1), 0, 1),
            stats_row(ColumnType::Int64, ColumnValue::Int(0), ColumnValue::Int(1), 0, 1),
        ],
        vec![stats_row(ColumnType::Int64, ColumnValue::Int(0), ColumnValue::Int(1), 0, 1)],
    ];
    assert!(matches!(
        column_stats_reduce(&blocks),
        Err(EngineError::Serialization(_))
    ));
}

#[test]
fn reduction_rejects_a_changed_declared_type() {
    let blocks = vec![
        vec![stats_row(ColumnType::Int64, ColumnValue::Int(0), ColumnValue::Int(1), 0, 1)],
        vec![stats_row(ColumnType::UInt64, ColumnValue::UInt(0), ColumnValue::UInt(1), 0, 1)],
    ];
    assert!(matches!(
        column_stats_reduce(&blocks),
        Err(EngineError::Serialization(_))
    ));
}

#[test]
fn empty_array_column_has_null_bounds() {
    let block = int_array_block(&[]);
    let stats = block_stats(&block).unwrap();
    let s = stats[0].1;
    assert_eq!(s.min, ColumnValue::Null);
    assert_eq!(s.max, ColumnValue::Null);
    assert_eq!(s.null_count, 0);
    assert_eq!(s.row_count, 0);
}
