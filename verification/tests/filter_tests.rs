use fuse_engine::error::EngineError;
use fuse_engine::filter::{CompareOp, Expression, RangeFilter, StatsPredicate};
use fuse_engine::stats::ColumnStatistics;
use fuse_engine::value::{ColumnType, ColumnValue, DataField, DataSchema};

fn schema_x() -> DataSchema {
    DataSchema {
        fields: vec![DataField { name: "x".to_string(), data_type: ColumnType::Int64 }],
    }
}

fn col_op_lit(name: &str, op: CompareOp, lit: i64) -> Expression {
    Expression::Compare(
        op,
        Box::new(Expression::Column(name.to_string())),
        Box::new(Expression::Literal(ColumnValue::Int(lit))),
    )
}

fn int_stats(min: i64, max: i64) -> Vec<ColumnStatistics> {
    vec![ColumnStatistics {
        min: ColumnValue::Int(min),
        max: ColumnValue::Int(max),
        null_count: 0,
        row_count: 10,
    }]
}

fn eval(expr: &Expression, stats: &Vec<ColumnStatistics>) -> bool {
    let f = RangeFilter::try_create(expr, &schema_x()).unwrap();
    f.eval(stats).unwrap()
}

#[test]
fn equality_is_membership_in_the_range() {
    assert!(eval(&col_op_lit("x", CompareOp::Eq, 5), &int_stats(0, 10)));
    assert!(eval(&col_op_lit("x", CompareOp::Eq, 0), &int_stats(0, 10)));
    assert!(eval(&col_op_lit("x", CompareOp::Eq, 10), &int_stats(0, 10)));
    assert!(!eval(&col_op_lit("x", CompareOp::Eq, 11), &int_stats(0, 10)));
    assert!(!eval(&col_op_lit("x", CompareOp::Eq, -1), &int_stats(0, 10)));
}

#[test]
fn comparisons_intersect_the_range() {
    // boundary-equal, boundary-exceeding and disjoint filters
    assert!(!eval(&col_op_lit("x", CompareOp::Gt, 10), &int_stats(0, 10)));
    assert!(eval(&col_op_lit("x", CompareOp::GtEq, 10), &int_stats(0, 10)));
    assert!(eval(&col_op_lit("x", CompareOp::Gt, 9), &int_stats(0, 10)));
    assert!(!eval(&col_op_lit("x", CompareOp::Lt, 0), &int_stats(0, 10)));
    assert!(eval(&col_op_lit("x", CompareOp::LtEq, 0), &int_stats(0, 10)));
    assert!(!eval(&col_op_lit("x", CompareOp::Gt, 50), &int_stats(20, 30)));
    assert!(eval(&col_op_lit("x", CompareOp::Gt, 25), &int_stats(20, 30)));
}

#[test]
fn literal_on_the_left_mirrors_the_operator() {
    // 25 < x is x > 25
    let e = Expression::Compare(
        CompareOp::Lt,
        Box::new(Expression::Literal(ColumnValue::Int(25))),
        Box::new(Expression::Column("x".to_string())),
    );
    assert!(eval(&e, &int_stats(20, 30)));
    assert!(!eval(&e, &int_stats(0, 10)));
}

#[test]
fn conjunctions_need_every_clause() {
    let e = Expression::And(
        Box::new(col_op_lit("x", CompareOp::Gt, 5)),
        Box::new(col_op_lit("x", CompareOp::Lt, 8)),
    );
    assert!(eval(&e, &int_stats(0, 10)));
    assert!(!eval(&e, &int_stats(0, 3)));
}

#[test]
fn unknown_column_fails_compilation() {
    match RangeFilter::try_create(&col_op_lit("y", CompareOp::Eq, 1), &schema_x()) {
        Err(EngineError::PredicateCompilation(name)) => assert_eq!(name, "y"),
        other => panic!("expected a compilation error, got {:?}", other),
    }
}

#[test]
fn unrecognized_clauses_are_skipped_conservatively() {
    let f = RangeFilter::try_create(&Expression::Other, &schema_x()).unwrap();
    assert!(f.eval(&int_stats(0, 0)).unwrap());
    let col_vs_col = Expression::Compare(
        CompareOp::Lt,
        Box::new(Expression::Column("x".to_string())),
        Box::new(Expression::Column("x".to_string())),
    );
    let g = RangeFilter::try_create(&col_vs_col, &schema_x()).unwrap();
    assert!(g.eval(&int_stats(0, 0)).unwrap());
}

#[test]
fn null_bounds_are_conservative() {
    let stats = vec![ColumnStatistics {
        min: ColumnValue::Null,
        max: ColumnValue::Null,
        null_count: 10,
        row_count: 10,
    }];
    assert!(eval(&col_op_lit("x", CompareOp::Eq, 5), &stats));
}

#[test]
fn missing_statistics_column_is_a_format_error() {
    let f = RangeFilter::try_create(&col_op_lit("x", CompareOp::Eq, 5), &schema_x()).unwrap();
    let empty: Vec<ColumnStatistics> = vec![];
    assert!(matches!(f.eval(&empty), Err(EngineError::Serialization(_))));
}

#[test]
fn constant_true_predicate_accepts_everything() {
    let f = RangeFilter { pred: StatsPredicate::True };
    assert!(f.eval(&int_stats(0, 0)).unwrap());
    let empty: Vec<ColumnStatistics> = vec![];
    assert!(f.eval(&empty).unwrap());
}
