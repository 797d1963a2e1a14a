//! The range predicate compiler: turns a filter expression and a scan schema
//! into a predicate over column statistics alone. The compiled predicate is
//! conservative: it answers `true` whenever the underlying block might
//! contain a matching row, so pruning can never lose a result.

use vstd::prelude::*;

use crate::error::EngineError;
use crate::stats::ColumnStatistics;
use crate::value::{
    same_kind, value_le, value_le_spec, DataFieldView, DataSchema,
};
use crate::value::ColumnValue;

verus! {

/// Comparison operators with a known statistics-based relaxation.
#[derive(Clone, Copy, PartialEq, Eq, Structural, Debug)]
pub enum CompareOp {
    Eq,
    Lt,
    LtEq,
    Gt,
    GtEq,
}

/// A filter expression as the external planner hands it over: an opaque tree
/// exposing column references, literals, comparisons and conjunctions. Any
/// other clause appears as `Other` and is skipped for pruning purposes.
#[derive(Debug)]
pub enum Expression {
    Column(String),
    Literal(ColumnValue),
    Compare(CompareOp, Box<Expression>, Box<Expression>),
    And(Box<Expression>, Box<Expression>),
    Other,
}

/// A compiled predicate over block statistics: the constant `true`, a
/// comparison of one column's range against a literal, or a conjunction.
#[derive(Debug)]
pub enum StatsPredicate {
    True,
    Cmp(usize, CompareOp, ColumnValue),
    And(Box<StatsPredicate>, Box<StatsPredicate>),
}

/// Strict order on values of one kind.
pub open spec fn value_lt_spec(a: ColumnValue, b: ColumnValue) -> bool {
    value_le_spec(a, b) && a != b
}

/// What `a op b` means on rows: both sides non-null and of one kind, and the
/// comparison holding under the native ordering.
pub open spec fn cmp_holds(op: CompareOp, a: ColumnValue, b: ColumnValue) -> bool {
    &&& !(a is Null)
    &&& !(b is Null)
    &&& same_kind(a, b)
    &&& match op {
        CompareOp::Eq => a == b,
        CompareOp::Lt => value_lt_spec(a, b),
        CompareOp::LtEq => value_le_spec(a, b),
        CompareOp::Gt => value_lt_spec(b, a),
        CompareOp::GtEq => value_le_spec(b, a),
    }
}

/// The mirrored operator: `a op b` iff `b (flip op) a`.
pub open spec fn flip_op(op: CompareOp) -> CompareOp {
    match op {
        CompareOp::Eq => CompareOp::Eq,
        CompareOp::Lt => CompareOp::Gt,
        CompareOp::LtEq => CompareOp::GtEq,
        CompareOp::Gt => CompareOp::Lt,
        CompareOp::GtEq => CompareOp::LtEq,
    }
}

/// The relaxation of `column op literal` to the column's `[min, max]` range:
/// `true` iff some value inside the range could satisfy the comparison.
/// Empty ranges (no non-null value observed) and ranges whose kind does not
/// match the literal answer `true`, the conservative default.
pub open spec fn range_overlap(s: ColumnStatistics, op: CompareOp, lit: ColumnValue) -> bool {
    if s.min is Null || s.max is Null {
        true
    } else if !same_kind(s.min, lit) || !same_kind(s.max, lit) {
        true
    } else {
        match op {
            CompareOp::Eq => value_le_spec(s.min, lit) && value_le_spec(lit, s.max),
            CompareOp::Lt => value_lt_spec(s.min, lit),
            CompareOp::LtEq => value_le_spec(s.min, lit),
            CompareOp::Gt => value_lt_spec(lit, s.max),
            CompareOp::GtEq => value_le_spec(lit, s.max),
        }
    }
}

/// What a compiled predicate answers on a statistics row.
pub open spec fn eval_spec(p: StatsPredicate, stats: Seq<ColumnStatistics>) -> bool
    decreases p,
{
    match p {
        StatsPredicate::True => true,
        StatsPredicate::Cmp(col, op, lit) => range_overlap(stats[col as int], op, lit),
        StatsPredicate::And(a, b) => eval_spec(*a, stats) && eval_spec(*b, stats),
    }
}

/// Every column a predicate touches exists in a statistics row of width `n`.
pub open spec fn pred_cols_within(p: StatsPredicate, n: int) -> bool
    decreases p,
{
    match p {
        StatsPredicate::True => true,
        StatsPredicate::Cmp(col, op, lit) => col < n,
        StatsPredicate::And(a, b) => pred_cols_within(*a, n) && pred_cols_within(*b, n),
    }
}

/// The compilation relation: which predicates are a faithful relaxation of
/// which expressions under a schema. Conjunctions compile pointwise; a
/// recognized comparison of a column against a literal compiles to a range
/// check on a column of that name; everything else compiles to the constant
/// `true` (pruning skips it).
pub open spec fn compiles(e: Expression, schema: Seq<DataFieldView>, p: StatsPredicate) -> bool
    decreases e,
{
    match e {
        Expression::And(a, b) => p matches StatsPredicate::And(pa, pb) && compiles(
            *a,
            schema,
            *pa,
        ) && compiles(*b, schema, *pb),
        Expression::Compare(op, l, r) => match (*l, *r) {
            (Expression::Column(n), Expression::Literal(v)) => (p matches StatsPredicate::Cmp(
                col,
                pop,
                lit,
            ) && pop == op && lit == v && 0 <= col < schema.len() && schema[col as int].name
                == n@),
            (Expression::Literal(v), Expression::Column(n)) => (p matches StatsPredicate::Cmp(
                col,
                pop,
                lit,
            ) && pop == flip_op(op) && lit == v && 0 <= col < schema.len() && schema[
                col as int
            ].name == n@),
            _ => p is True,
        },
        _ => p is True,
    }
}

/// Whether an expression refers, in a recognized comparison, to a column
/// name that the schema does not contain: the one compilation error.
pub open spec fn references_unknown_column(e: Expression, schema: Seq<DataFieldView>) -> bool
    decreases e,
{
    match e {
        Expression::And(a, b) => references_unknown_column(*a, schema)
            || references_unknown_column(*b, schema),
        Expression::Compare(op, l, r) => match (*l, *r) {
            (Expression::Column(n), Expression::Literal(v)) => !(exists|c: int|
                0 <= c < schema.len() && (#[trigger] schema[c]).name == n@),
            (Expression::Literal(v), Expression::Column(n)) => !(exists|c: int|
                0 <= c < schema.len() && (#[trigger] schema[c]).name == n@),
            _ => false,
        },
        _ => false,
    }
}

/// What a row means to an expression, for the recognized shapes; clauses the
/// compiler does not recognize are unconstrained here and count as possibly
/// matching.
pub open spec fn expr_matches_row(
    e: Expression,
    schema: Seq<DataFieldView>,
    row: Seq<ColumnValue>,
) -> bool
    decreases e,
{
    match e {
        Expression::And(a, b) => expr_matches_row(*a, schema, row) && expr_matches_row(
            *b,
            schema,
            row,
        ),
        Expression::Compare(op, l, r) => match (*l, *r) {
            (Expression::Column(n), Expression::Literal(v)) => exists|c: int|
                0 <= c < schema.len() && (#[trigger] schema[c]).name == n@ && cmp_holds(
                    op,
                    row[c],
                    v,
                ),
            (Expression::Literal(v), Expression::Column(n)) => exists|c: int|
                0 <= c < schema.len() && (#[trigger] schema[c]).name == n@ && cmp_holds(
                    op,
                    v,
                    row[c],
                ),
            _ => true,
        },
        _ => true,
    }
}

/// A compiled range predicate over block statistics.
#[derive(Debug)]
pub struct RangeFilter {
    pub pred: StatsPredicate,
}

impl RangeFilter {
    /// Compiles one filter expression against the scan schema. Fails exactly
    /// when a recognized comparison references a column name absent from the
    /// schema; any clause shape without a statistics relaxation compiles to
    /// the constant `true` and is thereby skipped for pruning.
    pub fn try_create(expr: &Expression, schema: &DataSchema) -> (r: Result<
        RangeFilter,
        EngineError,
    >)
        ensures
            r matches Ok(f) ==> compiles(*expr, schema@, f.pred) && pred_cols_within(
                f.pred,
                schema@.len() as int,
            ),
            r is Err <==> references_unknown_column(*expr, schema@),
            r matches Err(e) ==> e is PredicateCompilation,
    {
        match compile_expr(expr, schema) {
            Ok(p) => Ok(RangeFilter { pred: p }),
            Err(e) => Err(e),
        }
    }

    /// Answers whether a block (or segment) with the given statistics might
    /// contain a matching row. Fails with a format error when the statistics
    /// row is missing a column the predicate needs.
    pub fn eval(&self, stats: &Vec<ColumnStatistics>) -> (r: Result<bool, EngineError>)
        ensures
            r is Ok <==> pred_cols_within(self.pred, stats@.len() as int),
            r matches Ok(b) ==> b == eval_spec(self.pred, stats@),
            r matches Err(e) ==> e is Serialization,
    {
        eval_pred(&self.pred, stats)
    }
}

/// Recursively compiles an expression; see `RangeFilter::try_create`.
fn compile_expr(expr: &Expression, schema: &DataSchema) -> (r: Result<
    StatsPredicate,
    EngineError,
>)
    ensures
        r matches Ok(p) ==> compiles(*expr, schema@, p) && pred_cols_within(
            p,
            schema@.len() as int,
        ),
        r is Err <==> references_unknown_column(*expr, schema@),
        r matches Err(e) ==> e is PredicateCompilation,
    decreases *expr,
{
    match expr {
        Expression::And(a, b) => {
            let pa = match compile_expr(a, schema) {
                Ok(p) => p,
                Err(e) => {
                    return Err(e);
                },
            };
            let pb = match compile_expr(b, schema) {
                Ok(p) => p,
                Err(e) => {
                    return Err(e);
                },
            };
            Ok(StatsPredicate::And(Box::new(pa), Box::new(pb)))
        },
        Expression::Compare(op, l, r) => {
            match (&**l, &**r) {
                (Expression::Column(n), Expression::Literal(v)) => {
                    match schema.index_of(n.as_str()) {
                        Some(col) => {
                            proof {
                                assert(schema@[col as int].name == n@);
                            }
                            Ok(StatsPredicate::Cmp(col, *op, *v))
                        },
                        None => {
                            proof {
                                assert forall|c: int| 0 <= c < schema@.len() implies (
                                #[trigger] schema@[c]).name != n@ by {
                                    assert(schema@[c].name == schema.fields@[c].name@);
                                }
                            }
                            Err(EngineError::PredicateCompilation(n.clone()))
                        },
                    }
                },
                (Expression::Literal(v), Expression::Column(n)) => {
                    match schema.index_of(n.as_str()) {
                        Some(col) => {
                            let flipped = match op {
                                CompareOp::Eq => CompareOp::Eq,
                                CompareOp::Lt => CompareOp::Gt,
                                CompareOp::LtEq => CompareOp::GtEq,
                                CompareOp::Gt => CompareOp::Lt,
                                CompareOp::GtEq => CompareOp::LtEq,
                            };
                            proof {
                                assert(schema@[col as int].name == n@);
                            }
                            Ok(StatsPredicate::Cmp(col, flipped, *v))
                        },
                        None => {
                            proof {
                                assert forall|c: int| 0 <= c < schema@.len() implies (
                                #[trigger] schema@[c]).name != n@ by {
                                    assert(schema@[c].name == schema.fields@[c].name@);
                                }
                            }
                            Err(EngineError::PredicateCompilation(n.clone()))
                        },
                    }
                },
                _ => Ok(StatsPredicate::True),
            }
        },
        _ => Ok(StatsPredicate::True),
    }
}

/// Recursively evaluates a compiled predicate; see `RangeFilter::eval`.
fn eval_pred(p: &StatsPredicate, stats: &Vec<ColumnStatistics>) -> (r: Result<bool, EngineError>)
    ensures
        r is Ok <==> pred_cols_within(*p, stats@.len() as int),
        r matches Ok(b) ==> b == eval_spec(*p, stats@),
        r matches Err(e) ==> e is Serialization,
    decreases *p,
{
    match p {
        StatsPredicate::True => Ok(true),
        StatsPredicate::Cmp(col, op, lit) => {
            if *col >= stats.len() {
                return Err(EngineError::Serialization(
                    "statistics are missing a column the predicate needs".to_string(),
                ));
            }
            let s = stats[*col];
            if matches!(s.min, ColumnValue::Null) || matches!(s.max, ColumnValue::Null) {
                return Ok(true);
            }
            if !same_kind_exec(&s.min, lit) || !same_kind_exec(&s.max, lit) {
                return Ok(true);
            }
            let b = match op {
                CompareOp::Eq => value_le(&s.min, lit) && value_le(lit, &s.max),
                CompareOp::Lt => value_lt(&s.min, lit),
                CompareOp::LtEq => value_le(&s.min, lit),
                CompareOp::Gt => value_lt(lit, &s.max),
                CompareOp::GtEq => value_le(lit, &s.max),
            };
            Ok(b)
        },
        StatsPredicate::And(a, b) => {
            let ra = match eval_pred(a, stats) {
                Ok(v) => v,
                Err(e) => {
                    return Err(e);
                },
            };
            let rb = match eval_pred(b, stats) {
                Ok(v) => v,
                Err(e) => {
                    return Err(e);
                },
            };
            Ok(ra && rb)
        },
    }
}

/// Statistics that bracket a row are enough for soundness: whatever
/// recognized clause the row satisfies, the compiled predicate answers
/// `true` on those statistics. Schema names must not repeat, so that a
/// column reference denotes one column.
proof fn lemma_sound_for_bounded_stats(
    e: Expression,
    schema: Seq<DataFieldView>,
    p: StatsPredicate,
    stats: Seq<ColumnStatistics>,
    row: Seq<ColumnValue>,
)
    requires
        compiles(e, schema, p),
        forall|i: int, j: int|
            0 <= i < j < schema.len() ==> (#[trigger] schema[i]).name != (
            #[trigger] schema[j]).name,
        stats.len() == schema.len(),
        row.len() == schema.len(),
        forall|c: int|
            0 <= c < row.len() && !((#[trigger] row[c]) is Null) ==> (stats[c].min is Null
                || stats[c].max is Null) || (value_le_spec(stats[c].min, row[c])
                && value_le_spec(row[c], stats[c].max)),
        expr_matches_row(e, schema, row),
    ensures
        eval_spec(p, stats),
    decreases e,
{
    match e {
        Expression::And(a, b) => {
            lemma_sound_for_bounded_stats(*a, schema, *p->And_0, stats, row);
            lemma_sound_for_bounded_stats(*b, schema, *p->And_1, stats, row);
        },
        Expression::Compare(op, l, r) => {
            match (*l, *r) {
                (Expression::Column(n), Expression::Literal(v)) => {
                    let c = choose|c: int|
                        0 <= c < schema.len() && (#[trigger] schema[c]).name == n@ && cmp_holds(
                            op,
                            row[c],
                            v,
                        );
                    let col = p->Cmp_0 as int;
                    assert(schema[c].name == n@ && schema[col].name == n@);
                    assert(c == col);
                    let w = row[c];
                    crate::value::lemma_value_order_total(stats[c].min, w, v);
                    crate::value::lemma_value_order_total(v, w, stats[c].max);
                    crate::value::lemma_value_order_total(w, v, stats[c].max);
                    crate::value::lemma_value_order_total(stats[c].min, v, w);
                    crate::value::lemma_value_order_total(w, stats[c].min, v);
                    crate::value::lemma_value_order_total(v, stats[c].max, w);
                },
                (Expression::Literal(v), Expression::Column(n)) => {
                    let c = choose|c: int|
                        0 <= c < schema.len() && (#[trigger] schema[c]).name == n@ && cmp_holds(
                            op,
                            v,
                            row[c],
                        );
                    let col = p->Cmp_0 as int;
                    assert(schema[c].name == n@ && schema[col].name == n@);
                    assert(c == col);
                    let w = row[c];
                    crate::value::lemma_value_order_total(stats[c].min, w, v);
                    crate::value::lemma_value_order_total(v, w, stats[c].max);
                    crate::value::lemma_value_order_total(w, v, stats[c].max);
                    crate::value::lemma_value_order_total(stats[c].min, v, w);
                    crate::value::lemma_value_order_total(w, stats[c].min, v);
                    crate::value::lemma_value_order_total(v, stats[c].max, w);
                },
                _ => {},
            }
        },
        _ => {},
    }
}

/// Pruning soundness at block granularity: if some row of a well-formed
/// batch satisfies the filter, the compiled predicate answers `true` on that
/// batch's own statistics — a block containing a match is never pruned.
pub proof fn lemma_block_pruning_sound(
    e: Expression,
    schema: Seq<DataFieldView>,
    p: StatsPredicate,
    block: crate::block::DataBlock,
    k: int,
)
    requires
        compiles(e, schema, p),
        forall|i: int, j: int|
            0 <= i < j < schema.len() ==> (#[trigger] schema[i]).name != (
            #[trigger] schema[j]).name,
        block.wf(),
        block@.schema == schema,
        0 <= k < block.rows,
        expr_matches_row(e, schema, crate::stats::row_of(block, k)),
    ensures
        eval_spec(p, crate::stats::block_column_stats(block)),
{
    let stats = crate::stats::block_column_stats(block);
    let row = crate::stats::row_of(block, k);
    assert(block.schema@.len() == schema.len());
    assert(stats.len() == schema.len());
    assert forall|c: int| 0 <= c < row.len() && !((#[trigger] row[c]) is Null) implies (
    stats[c].min is Null || stats[c].max is Null) || (value_le_spec(stats[c].min, row[c])
        && value_le_spec(row[c], stats[c].max)) by {
        let t = schema[c].data_type;
        let values = block.columns@[c].values();
        assert(block.schema@[c] == schema[c]);
        assert(row[c] == values[k]);
        assert(crate::value::value_of_type(values[k], t));
        assert(crate::value::type_comparable(t));
        assert(stats[c] == crate::stats::column_stats_of(values, block.rows as nat));
        crate::stats::lemma_column_stats_wf(values, block.rows as nat, t);
    }
    lemma_sound_for_bounded_stats(e, schema, p, stats, row);
}

/// Pruning soundness at segment granularity: over batches that share one
/// schema, if some row of one batch satisfies the filter, the compiled
/// predicate answers `true` on the reduced segment summary as well — a
/// segment containing a match is never discarded by its summary check.
pub proof fn lemma_segment_pruning_sound(
    e: Expression,
    schema: Seq<DataFieldView>,
    p: StatsPredicate,
    stream: Seq<crate::block::DataBlock>,
    i: int,
    k: int,
)
    requires
        compiles(e, schema, p),
        forall|a: int, b: int|
            0 <= a < b < schema.len() ==> (#[trigger] schema[a]).name != (
            #[trigger] schema[b]).name,
        forall|b: int|
            0 <= b < stream.len() ==> (#[trigger] stream[b]).wf() && stream[b]@.schema == schema,
        0 <= i < stream.len(),
        0 <= k < stream[i].rows,
        expr_matches_row(e, schema, crate::stats::row_of(stream[i], k)),
    ensures
        crate::stats::uniform(crate::stats::stream_stats(stream)),
        eval_spec(
            p,
            crate::stats::summary_columns(crate::stats::stream_stats(stream)),
        ),
{
    let m = crate::stats::stream_stats(stream);
    let row = crate::stats::row_of(stream[i], k);
    assert forall|b: int| 0 <= b < stream.len() implies (#[trigger] m[b])
        == crate::stats::block_stats_spec(stream[b]) && m[b].len() == schema.len() by {
        assert(stream[b].schema@.len() == schema.len());
    }
    assert forall|b: int, j: int| 0 <= b < m.len() && 0 <= j < m[b].len() implies (
    #[trigger] m[b][j]).0 == m[0][j].0 by {
        assert(m[b][j].0 == stream[b].schema@[j].data_type);
        assert(m[0][j].0 == stream[0].schema@[j].data_type);
    }
    assert(crate::stats::uniform(m));
    let stats = crate::stats::summary_columns(m);
    assert forall|c: int| 0 <= c < row.len() && !((#[trigger] row[c]) is Null) implies (
    stats[c].min is Null || stats[c].max is Null) || (value_le_spec(stats[c].min, row[c])
        && value_le_spec(row[c], stats[c].max)) by {
        let t = schema[c].data_type;
        let w = row[c];
        let values_i = stream[i].columns@[c].values();
        assert(w == values_i[k]);
        assert(crate::value::value_of_type(w, t));
        assert(crate::value::type_comparable(t));
        crate::stats::lemma_column_stats_wf(values_i, stream[i].rows as nat, t);
        crate::stats::lemma_seq_bounds(values_i);
        let mins = crate::stats::col_mins(m, c);
        let maxes = crate::stats::col_maxes(m, c);
        let bmin = mins[i];
        let bmax = maxes[i];
        assert(bmin == crate::stats::column_stats_of(values_i, stream[i].rows as nat).min);
        assert(!(bmin is Null) && !(bmax is Null));
        assert(value_le_spec(bmin, w) && value_le_spec(w, bmax));
        assert forall|b: int| 0 <= b < mins.len() implies crate::value::value_of_type(
            #[trigger] mins[b],
            t,
        ) by {
            let values_b = stream[b].columns@[c].values();
            assert(mins[b] == crate::stats::seq_min(values_b));
            assert forall|x: int| 0 <= x < values_b.len() implies crate::value::value_of_type(
                #[trigger] values_b[x],
                t,
            ) by {
                assert(stream[b].schema@[c] == schema[c]);
            }
            crate::stats::lemma_seq_bounds_typed(values_b, t);
        }
        assert forall|b: int| 0 <= b < maxes.len() implies crate::value::value_of_type(
            #[trigger] maxes[b],
            t,
        ) by {
            let values_b = stream[b].columns@[c].values();
            assert(maxes[b] == crate::stats::seq_max(values_b));
            assert forall|x: int| 0 <= x < values_b.len() implies crate::value::value_of_type(
                #[trigger] values_b[x],
                t,
            ) by {
                assert(stream[b].schema@[c] == schema[c]);
            }
            crate::stats::lemma_seq_bounds_typed(values_b, t);
        }
        crate::stats::lemma_seq_bounds_typed(mins, t);
        crate::stats::lemma_seq_bounds_typed(maxes, t);
        crate::stats::lemma_seq_bounds(mins);
        crate::stats::lemma_seq_bounds(maxes);
        let smin = crate::stats::seq_min(mins);
        let smax = crate::stats::seq_max(maxes);
        assert(stats[c] == crate::stats::reduced_column(m, c));
        if !(smin is Null) && !(smax is Null) {
            assert(value_le_spec(smin, bmin));
            assert(value_le_spec(bmax, smax));
            crate::value::lemma_value_order_total(smin, bmin, w);
            crate::value::lemma_value_order_total(w, bmax, smax);
        }
    }
    lemma_sound_for_bounded_stats(e, schema, p, stats, row);
}

/// Pruning soundness end to end: in a segment whose block entries carry the
/// statistics of their batches and whose summary reduces them, a block one
/// of whose rows satisfies the filter survives both the segment-level
/// summary check and the block-level check — it is among the kept blocks.
pub proof fn lemma_pruner_retains_matching_block(
    e: Expression,
    schema: Seq<DataFieldView>,
    p: StatsPredicate,
    stream: Seq<crate::block::DataBlock>,
    seg: crate::meta::SegmentInfoView,
    i: int,
    k: int,
)
    requires
        compiles(e, schema, p),
        forall|a: int, b: int|
            0 <= a < b < schema.len() ==> (#[trigger] schema[a]).name != (
            #[trigger] schema[b]).name,
        forall|b: int|
            0 <= b < stream.len() ==> (#[trigger] stream[b]).wf() && stream[b]@.schema == schema,
        seg.blocks.len() == stream.len(),
        forall|b: int|
            0 <= b < stream.len() ==> (#[trigger] seg.blocks[b]).col_stats
                == crate::stats::block_column_stats(stream[b]),
        seg.summary.col_stats == crate::stats::summary_columns(
            crate::stats::stream_stats(stream),
        ),
        0 <= i < stream.len(),
        0 <= k < stream[i].rows,
        expr_matches_row(e, schema, crate::stats::row_of(stream[i], k)),
    ensures
        crate::pruner::segment_kept_blocks(seg, p).contains(seg.blocks[i]),
{
    lemma_segment_pruning_sound(e, schema, p, stream, i, k);
    lemma_block_pruning_sound(e, schema, p, stream[i], k);
    assert(eval_spec(p, seg.summary.col_stats));
    assert(eval_spec(p, seg.blocks[i].col_stats));
    seg.blocks.lemma_filter_contains(|b: crate::meta::BlockMetaView| eval_spec(p, b.col_stats), i);
}

/// Decides the strict native order on comparable values.
fn value_lt(a: &ColumnValue, b: &ColumnValue) -> (r: bool)
    ensures
        r == value_lt_spec(*a, *b),
{
    value_le(a, b) && !(*a == *b)
}

/// Decides whether two values carry the same kind tag.
fn same_kind_exec(a: &ColumnValue, b: &ColumnValue) -> (r: bool)
    ensures
        r == same_kind(*a, *b),
{
    match (a, b) {
        (ColumnValue::Bool(_), ColumnValue::Bool(_)) => true,
        (ColumnValue::Int(_), ColumnValue::Int(_)) => true,
        (ColumnValue::UInt(_), ColumnValue::UInt(_)) => true,
        _ => false,
    }
}

} // verus!
