//! Per-column statistics: how they are derived from a batch and how the
//! per-block statistics of a segment are reduced into one aggregate summary.

use vstd::prelude::*;

use crate::block::{DataBlock, DataColumn};
use crate::error::EngineError;
use crate::value::{
    same_kind, type_comparable, value_le, value_le_spec, value_of_type, ColumnType, ColumnValue,
};

verus! {

/// Statistics of one column at some granularity (a block or a whole segment):
/// the lowest and highest observed value, the number of nulls and the number
/// of rows considered. `Null` bounds mean that no non-null value was observed.
#[derive(Clone, Copy, PartialEq, Eq, Structural, Debug)]
pub struct ColumnStatistics {
    pub min: ColumnValue,
    pub max: ColumnValue,
    pub null_count: u64,
    pub row_count: u64,
}

impl ColumnStatistics {
    /// Well-formedness with respect to a declared type: the bounds belong to
    /// the type, they are `Null` together or ordered, and the null count never
    /// exceeds the row count.
    pub open spec fn wf(self, t: ColumnType) -> bool {
        &&& self.null_count <= self.row_count
        &&& value_of_type(self.min, t)
        &&& value_of_type(self.max, t)
        &&& (self.min is Null <==> self.max is Null)
        &&& !(self.min is Null) ==> value_le_spec(self.min, self.max)
    }
}

/// The smaller of two observed bounds; `Null` stands for "nothing observed"
/// and never wins against a value.
pub open spec fn merge_min(a: ColumnValue, b: ColumnValue) -> ColumnValue {
    if a is Null {
        b
    } else if b is Null {
        a
    } else if value_le_spec(a, b) {
        a
    } else {
        b
    }
}

/// The larger of two observed bounds, with the same reading of `Null`.
pub open spec fn merge_max(a: ColumnValue, b: ColumnValue) -> ColumnValue {
    if a is Null {
        b
    } else if b is Null {
        a
    } else if value_le_spec(a, b) {
        b
    } else {
        a
    }
}

/// The least non-null value of a sequence, or `Null` if there is none.
pub open spec fn seq_min(s: Seq<ColumnValue>) -> ColumnValue
    decreases s.len(),
{
    if s.len() == 0 {
        ColumnValue::Null
    } else {
        merge_min(seq_min(s.drop_last()), s.last())
    }
}

/// The greatest non-null value of a sequence, or `Null` if there is none.
pub open spec fn seq_max(s: Seq<ColumnValue>) -> ColumnValue
    decreases s.len(),
{
    if s.len() == 0 {
        ColumnValue::Null
    } else {
        merge_max(seq_max(s.drop_last()), s.last())
    }
}

/// How many values of a sequence are null.
pub open spec fn null_count_of(s: Seq<ColumnValue>) -> int
    decreases s.len(),
{
    if s.len() == 0 {
        0
    } else {
        null_count_of(s.drop_last()) + if s.last() is Null {
            1int
        } else {
            0int
        }
    }
}

/// The statistics that a column with the given values and row count carries.
pub open spec fn column_stats_of(values: Seq<ColumnValue>, rows: nat) -> ColumnStatistics {
    ColumnStatistics {
        min: seq_min(values),
        max: seq_max(values),
        null_count: null_count_of(values) as u64,
        row_count: rows as u64,
    }
}

/// A minimum or maximum is `Null` exactly when every value is, and is itself
/// one of the observed values otherwise. Null counts stay within the length.
pub proof fn lemma_seq_bounds(s: Seq<ColumnValue>)
    ensures
        0 <= null_count_of(s) <= s.len(),
        null_count_of(s) == s.len() <==> (forall|i: int| 0 <= i < s.len() ==> s[i] is Null),
        seq_min(s) is Null <==> null_count_of(s) == s.len(),
        seq_max(s) is Null <==> null_count_of(s) == s.len(),
        !(seq_min(s) is Null) ==> exists|i: int| 0 <= i < s.len() && s[i] == seq_min(s),
        !(seq_max(s) is Null) ==> exists|i: int| 0 <= i < s.len() && s[i] == seq_max(s),
    decreases s.len(),
{
    if s.len() > 0 {
        lemma_seq_bounds(s.drop_last());
        assert(forall|i: int| 0 <= i < s.len() - 1 ==> s[i] == s.drop_last()[i]);
        if !(seq_min(s) is Null) {
            if !(s.last() is Null) && seq_min(s) == s.last() {
                assert(s[s.len() - 1] == seq_min(s));
            } else {
                let j = choose|i: int|
                    0 <= i < s.drop_last().len() && s.drop_last()[i] == seq_min(s.drop_last());
                assert(s[j] == seq_min(s));
            }
        }
        if !(seq_max(s) is Null) {
            if !(s.last() is Null) && seq_max(s) == s.last() {
                assert(s[s.len() - 1] == seq_max(s));
            } else {
                let j = choose|i: int|
                    0 <= i < s.drop_last().len() && s.drop_last()[i] == seq_max(s.drop_last());
                assert(s[j] == seq_max(s));
            }
        }
    }
}

/// Over values that all belong to one comparable declared type, the minimum
/// bounds every non-null value from below and the maximum from above.
pub proof fn lemma_seq_bounds_typed(s: Seq<ColumnValue>, t: ColumnType)
    requires
        type_comparable(t),
        forall|i: int| 0 <= i < s.len() ==> value_of_type(#[trigger] s[i], t),
    ensures
        value_of_type(seq_min(s), t),
        value_of_type(seq_max(s), t),
        forall|i: int|
            0 <= i < s.len() && !(s[i] is Null) ==> value_le_spec(seq_min(s), #[trigger] s[i])
                && value_le_spec(s[i], seq_max(s)),
    decreases s.len(),
{
    lemma_seq_bounds(s);
    if s.len() > 0 {
        assert(forall|i: int| 0 <= i < s.len() - 1 ==> s[i] == s.drop_last()[i]);
        lemma_seq_bounds(s.drop_last());
        lemma_seq_bounds_typed(s.drop_last(), t);
        assert forall|i: int| 0 <= i < s.len() && !(s[i] is Null) implies value_le_spec(
            seq_min(s),
            #[trigger] s[i],
        ) && value_le_spec(s[i], seq_max(s)) by {
            crate::value::lemma_value_order_total(seq_min(s.drop_last()), s.last(), s[i]);
            crate::value::lemma_value_order_total(s.last(), seq_min(s.drop_last()), s[i]);
            crate::value::lemma_value_order_total(s[i], s.last(), seq_max(s.drop_last()));
            crate::value::lemma_value_order_total(s[i], seq_max(s.drop_last()), s.last());
        }
    }
}

/// Over values that all belong to one comparable declared type, the derived
/// statistics are well formed and genuinely bound every non-null value.
pub proof fn lemma_column_stats_wf(values: Seq<ColumnValue>, rows: nat, t: ColumnType)
    requires
        type_comparable(t),
        values.len() == rows,
        forall|i: int| 0 <= i < values.len() ==> value_of_type(#[trigger] values[i], t),
        rows <= u64::MAX,
    ensures
        column_stats_of(values, rows).wf(t),
        forall|i: int|
            0 <= i < values.len() && !(values[i] is Null) ==> value_le_spec(
                column_stats_of(values, rows).min,
                #[trigger] values[i],
            ) && value_le_spec(values[i], column_stats_of(values, rows).max),
{
    lemma_seq_bounds(values);
    lemma_seq_bounds_typed(values, t);
    let mn = seq_min(values);
    let mx = seq_max(values);
    if !(mn is Null) {
        let i = choose|i: int| 0 <= i < values.len() && values[i] == mn;
        assert(value_le_spec(mn, values[i]) && value_le_spec(values[i], mx));
        crate::value::lemma_value_order_total(mn, values[i], mx);
    }
}

/// The merged bounds of two columns' values.
fn merge_min_exec(a: ColumnValue, b: ColumnValue) -> (r: ColumnValue)
    ensures
        r == merge_min(a, b),
{
    if matches!(a, ColumnValue::Null) {
        b
    } else if matches!(b, ColumnValue::Null) {
        a
    } else if value_le(&a, &b) {
        a
    } else {
        b
    }
}

/// The merged upper bounds of two columns' values.
fn merge_max_exec(a: ColumnValue, b: ColumnValue) -> (r: ColumnValue)
    ensures
        r == merge_max(a, b),
{
    if matches!(a, ColumnValue::Null) {
        b
    } else if matches!(b, ColumnValue::Null) {
        a
    } else if value_le(&a, &b) {
        b
    } else {
        a
    }
}

/// Derives min, max and null count over one materialised array of values.
fn array_stats(values: &Vec<ColumnValue>, rows: usize) -> (r: ColumnStatistics)
    requires
        values@.len() == rows,
    ensures
        r == column_stats_of(values@, rows as nat),
{
    let mut mn = ColumnValue::Null;
    let mut mx = ColumnValue::Null;
    let mut nulls: u64 = 0;
    let mut i: usize = 0;
    while i < values.len()
        invariant
            i <= values@.len(),
            values@.len() == rows,
            mn == seq_min(values@.take(i as int)),
            mx == seq_max(values@.take(i as int)),
            nulls == null_count_of(values@.take(i as int)),
            nulls <= i,
        decreases values@.len() - i,
    {
        proof {
            assert(values@.take(i + 1).drop_last() =~= values@.take(i as int));
        }
        let v = values[i];
        if matches!(v, ColumnValue::Null) {
            nulls = nulls + 1;
        }
        mn = merge_min_exec(mn, v);
        mx = merge_max_exec(mx, v);
        i = i + 1;
    }
    proof {
        assert(values@.take(values@.len() as int) =~= values@);
    }
    ColumnStatistics { min: mn, max: mx, null_count: nulls, row_count: rows as u64 }
}

/// The statistics of a constant column are an O(1) special case: the constant
/// itself is both min and max, and the null count is all rows or none.
proof fn lemma_constant_stats(c: ColumnValue, n: nat)
    ensures
        seq_min(Seq::new(n, |i: int| c)) == if n == 0 {
            ColumnValue::Null
        } else {
            c
        },
        seq_max(Seq::new(n, |i: int| c)) == if n == 0 {
            ColumnValue::Null
        } else {
            c
        },
        null_count_of(Seq::new(n, |i: int| c)) == if c is Null {
            n as int
        } else {
            0
        },
    decreases n,
{
    let s = Seq::new(n, |i: int| c);
    if n > 0 {
        lemma_constant_stats(c, (n - 1) as nat);
        assert(s.drop_last() =~= Seq::new((n - 1) as nat, |i: int| c));
        if c is Null {
        } else {
            assert(value_le_spec(c, c) || !same_kind(c, c) || true);
        }
    }
}

/// Derives the per-column statistics of one batch, positionally: entry `i`
/// holds the declared type and statistics of column `i`. Fails with an
/// unsupported-type error when a declared type has no total native ordering.
pub fn block_stats(data_block: &DataBlock) -> (r: Result<
    Vec<(ColumnType, ColumnStatistics)>,
    EngineError,
>)
    requires
        data_block.wf(),
    ensures
        r matches Ok(stats) ==> stats@ == block_stats_spec(*data_block),
        r is Ok <==> forall|i: int|
            0 <= i < data_block.columns@.len() ==> type_comparable(
                #[trigger] data_block.schema.fields@[i].data_type,
            ),
        r matches Err(e) ==> e is UnsupportedType,
{
    let row_count = data_block.num_rows();
    let mut res: Vec<(ColumnType, ColumnStatistics)> = Vec::new();
    let mut idx: usize = 0;
    while idx < data_block.columns.len()
        invariant
            data_block.wf(),
            idx <= data_block.columns@.len(),
            row_count == data_block.rows,
            res@.len() == idx,
            forall|i: int| 0 <= i < idx ==> #[trigger] res@[i] == block_stats_spec(*data_block)[i],
            forall|i: int|
                0 <= i < idx ==> type_comparable(#[trigger] data_block.schema.fields@[i].data_type),
        decreases data_block.columns@.len() - idx,
    {
        let data_type = data_block.schema.fields[idx].data_type;
        if !matches!(
            data_type,
            ColumnType::Boolean | ColumnType::Int64 | ColumnType::UInt64
        ) {
            return Err(
                EngineError::UnsupportedType(data_block.schema.fields[idx].name.clone()),
            );
        }
        let col = &data_block.columns[idx];
        let col_stats = match col {
            DataColumn::Array(values) => array_stats(values, row_count),
            DataColumn::Constant(v, n) => {
                proof {
                    assert(data_block.columns@[idx as int].values().len() == data_block.rows);
                    assert(Seq::new(*n as nat, |i: int| *v) =~= Seq::new(
                        data_block.rows as nat,
                        |i: int| *v,
                    ));
                    lemma_constant_stats(*v, data_block.rows as nat);
                }
                if row_count == 0 {
                    ColumnStatistics {
                        min: ColumnValue::Null,
                        max: ColumnValue::Null,
                        null_count: 0,
                        row_count: 0,
                    }
                } else {
                    ColumnStatistics {
                        min: *v,
                        max: *v,
                        null_count: if matches!(v, ColumnValue::Null) {
                            row_count as u64
                        } else {
                            0
                        },
                        row_count: row_count as u64,
                    }
                }
            },
        };
        res.push((data_type, col_stats));
        idx = idx + 1;
    }
    proof {
        assert(res@ =~= block_stats_spec(*data_block));
    }
    Ok(res)
}

/// The statistics of every column of a batch, positionally: entry `j` pairs
/// the declared type of column `j` with the statistics of its values.
pub open spec fn block_stats_spec(b: DataBlock) -> Seq<BlockColumnStats> {
    Seq::new(
        b.columns@.len(),
        |j: int|
            (
                b.schema.fields@[j].data_type,
                column_stats_of(b.columns@[j].values(), b.rows as nat),
            ),
    )
}

/// The statistics of every column of a batch, without the declared types:
/// what a block's metadata entry carries.
pub open spec fn block_column_stats(b: DataBlock) -> Seq<ColumnStatistics> {
    block_stats_spec(b).map_values(|p: BlockColumnStats| p.1)
}

/// Row `k` of a batch: the value each column holds at that row.
pub open spec fn row_of(b: DataBlock, k: int) -> Seq<ColumnValue> {
    Seq::new(b.columns@.len(), |j: int| b.columns@[j].values()[k])
}

/// The aggregate statistics of every column: what a segment summary carries.
pub open spec fn summary_columns(m: Seq<Seq<BlockColumnStats>>) -> Seq<ColumnStatistics> {
    Seq::new(
        if m.len() == 0 {
            0
        } else {
            m[0].len()
        },
        |j: int| reduced_column(m, j),
    )
}

/// The per-block statistics of a whole stream of batches, in arrival order.
pub open spec fn stream_stats(stream: Seq<DataBlock>) -> Seq<Seq<BlockColumnStats>> {
    stream.map_values(|b: DataBlock| block_stats_spec(b))
}

/// Every column of every batch of the stream has a comparable declared type.
pub open spec fn stream_types_supported(stream: Seq<DataBlock>) -> bool {
    forall|i: int, j: int|
        0 <= i < stream.len() && 0 <= j < stream[i].columns@.len() ==> type_comparable(
            (#[trigger] stream[i].schema.fields@[j]).data_type,
        )
}

/// The total row count of a stream of batches.
pub open spec fn stream_rows(stream: Seq<DataBlock>) -> int
    decreases stream.len(),
{
    if stream.len() == 0 {
        0
    } else {
        stream_rows(stream.drop_last()) + stream.last().rows
    }
}

/// Partial row totals never exceed the total of the whole stream.
pub proof fn lemma_stream_rows_prefix(stream: Seq<DataBlock>, i: int)
    requires
        0 <= i <= stream.len(),
    ensures
        0 <= stream_rows(stream.take(i)) <= stream_rows(stream),
    decreases stream.len(),
{
    if stream.len() > 0 {
        lemma_stream_rows_prefix(stream.drop_last(), if i < stream.len() {
            i
        } else {
            i - 1
        });
        if i < stream.len() {
            assert(stream.take(i) =~= stream.drop_last().take(i));
        } else {
            assert(stream.take(i) =~= stream);
        }
    }
}

/// Over well-formed batches with one common column set, the per-column row
/// totals of the statistics matrix are the stream's row total, and null
/// totals never exceed them.
pub proof fn lemma_stream_matrix_sums(stream: Seq<DataBlock>, j: int)
    requires
        forall|i: int| 0 <= i < stream.len() ==> (#[trigger] stream[i]).wf(),
        uniform(stream_stats(stream)),
        forall|i: int| 0 <= i < stream.len() ==> 0 <= j < (#[trigger] stream[i]).columns@.len(),
    ensures
        sum_rows(stream_stats(stream), j) == stream_rows(stream),
        0 <= sum_nulls(stream_stats(stream), j) <= sum_rows(stream_stats(stream), j),
    decreases stream.len(),
{
    let m = stream_stats(stream);
    if stream.len() == 0 {
        assert(m =~= Seq::<Seq<BlockColumnStats>>::empty());
    } else {
        let prev = stream.drop_last();
        assert(forall|i: int| 0 <= i < prev.len() ==> prev[i] == stream[i]);
        assert(stream_stats(prev) =~= m.drop_last());
        assert(uniform(stream_stats(prev))) by {
            assert(forall|i: int|
                0 <= i < prev.len() ==> stream_stats(prev)[i] == m[i]);
        }
        lemma_stream_matrix_sums(prev, j);
        let b = stream.last();
        assert(m.last() == block_stats_spec(b));
        lemma_seq_bounds(b.columns@[j].values());
    }
}

/// One entry of per-block statistics: the declared type and statistics of one
/// column of one block.
pub type BlockColumnStats = (ColumnType, ColumnStatistics);

/// The per-block statistics of a segment as a mathematical matrix: one row
/// per block, one entry per column.
pub open spec fn stats_matrix(v: Vec<Vec<BlockColumnStats>>) -> Seq<Seq<BlockColumnStats>> {
    v@.map_values(|b: Vec<BlockColumnStats>| b@)
}

/// All blocks carry the same column set: equal lengths and, position by
/// position, equal declared types. A violation is a format error, since the
/// schema is immutable for the life of a segment.
pub open spec fn uniform(s: Seq<Seq<BlockColumnStats>>) -> bool {
    &&& forall|i: int| 0 <= i < s.len() ==> (#[trigger] s[i]).len() == s[0].len()
    &&& forall|i: int, j: int|
        0 <= i < s.len() && 0 <= j < s[i].len() ==> (#[trigger] s[i][j]).0 == s[0][j].0
}

/// The per-block minima of column `j`, in block order.
pub open spec fn col_mins(s: Seq<Seq<BlockColumnStats>>, j: int) -> Seq<ColumnValue> {
    Seq::new(s.len(), |i: int| s[i][j].1.min)
}

/// The per-block maxima of column `j`, in block order.
pub open spec fn col_maxes(s: Seq<Seq<BlockColumnStats>>, j: int) -> Seq<ColumnValue> {
    Seq::new(s.len(), |i: int| s[i][j].1.max)
}

/// The total null count of column `j` over all blocks.
pub open spec fn sum_nulls(s: Seq<Seq<BlockColumnStats>>, j: int) -> int
    decreases s.len(),
{
    if s.len() == 0 {
        0
    } else {
        sum_nulls(s.drop_last(), j) + s.last()[j].1.null_count
    }
}

/// The total row count of column `j` over all blocks.
pub open spec fn sum_rows(s: Seq<Seq<BlockColumnStats>>, j: int) -> int
    decreases s.len(),
{
    if s.len() == 0 {
        0
    } else {
        sum_rows(s.drop_last(), j) + s.last()[j].1.row_count
    }
}

/// The aggregate statistics of column `j`: minimum of the per-block minima,
/// maximum of the maxima, and sums of the null and row counts.
pub open spec fn reduced_column(s: Seq<Seq<BlockColumnStats>>, j: int) -> ColumnStatistics {
    ColumnStatistics {
        min: seq_min(col_mins(s, j)),
        max: seq_max(col_maxes(s, j)),
        null_count: sum_nulls(s, j) as u64,
        row_count: sum_rows(s, j) as u64,
    }
}

/// Partial sums never exceed the total: every term is non-negative.
proof fn lemma_sum_prefix(s: Seq<Seq<BlockColumnStats>>, j: int, i: int)
    requires
        0 <= i <= s.len(),
    ensures
        sum_nulls(s.take(i), j) <= sum_nulls(s, j),
        sum_rows(s.take(i), j) <= sum_rows(s, j),
        sum_nulls(s, j) >= 0,
        sum_rows(s, j) >= 0,
    decreases s.len(),
{
    if s.len() > 0 {
        lemma_sum_prefix(s.drop_last(), j, if i < s.len() { i } else { i - 1 });
        if i < s.len() {
            assert(s.take(i) =~= s.drop_last().take(i));
        } else {
            assert(s.take(i) =~= s);
        }
    }
}

/// Reduces per-block column statistics into one aggregate entry per column.
/// Fails with a format error when the blocks disagree on the column set.
pub fn column_stats_reduce(blocks_stats: &Vec<Vec<BlockColumnStats>>) -> (r: Result<
    Vec<ColumnStatistics>,
    EngineError,
>)
    requires
        uniform(stats_matrix(*blocks_stats)) ==> forall|j: int|
            0 <= j < stats_matrix(*blocks_stats)[0].len() ==> sum_nulls(
                stats_matrix(*blocks_stats),
                j,
            ) <= u64::MAX && sum_rows(stats_matrix(*blocks_stats), j) <= u64::MAX,
    ensures
        r is Ok <==> uniform(stats_matrix(*blocks_stats)),
        r matches Ok(out) ==> {
            let m = stats_matrix(*blocks_stats);
            &&& out@.len() == (if m.len() == 0 {
                0int
            } else {
                m[0].len() as int
            })
            &&& forall|j: int| 0 <= j < out@.len() ==> out@[j] == reduced_column(m, j)
        },
        r matches Err(e) ==> e is Serialization,
{
    let ghost m = stats_matrix(*blocks_stats);
    if blocks_stats.len() == 0 {
        return Ok(Vec::new());
    }
    let ncols = blocks_stats[0].len();

    // The schema is fixed per segment: every block must carry the same
    // column set, position by position.
    let mut i: usize = 1;
    while i < blocks_stats.len()
        invariant
            1 <= i <= blocks_stats@.len(),
            m == stats_matrix(*blocks_stats),
            m.len() == blocks_stats@.len(),
            forall|k: int| 0 <= k < m.len() ==> m[k] == blocks_stats@[k]@,
            ncols == m[0].len(),
            forall|k: int| 0 <= k < i ==> (#[trigger] m[k]).len() == ncols,
            forall|k: int, j: int|
                0 <= k < i && 0 <= j < ncols ==> (#[trigger] m[k][j]).0 == m[0][j].0,
        decreases blocks_stats@.len() - i,
    {
        if blocks_stats[i].len() != ncols {
            proof {
                assert(m[i as int].len() != m[0].len());
            }
            return Err(EngineError::Serialization(
                "segment blocks disagree on their column set".to_string(),
            ));
        }
        let mut j: usize = 0;
        while j < ncols
            invariant
                m == stats_matrix(*blocks_stats),
                forall|k: int| 0 <= k < m.len() ==> m[k] == blocks_stats@[k]@,
                i < m.len(),
                ncols == m[0].len(),
                m[i as int].len() == ncols,
                j <= ncols,
                forall|l: int| 0 <= l < j ==> (#[trigger] m[i as int][l]).0 == m[0][l].0,
            decreases ncols - j,
        {
            if blocks_stats[i][j].0 != blocks_stats[0][j].0 {
                proof {
                    assert(m[i as int][j as int].0 != m[0][j as int].0);
                }
                return Err(EngineError::Serialization(
                    "segment blocks disagree on a column's declared type".to_string(),
                ));
            }
            j = j + 1;
        }
        i = i + 1;
    }
    assert(uniform(m));

    let mut out: Vec<ColumnStatistics> = Vec::new();
    let mut j: usize = 0;
    while j < ncols
        invariant
            m == stats_matrix(*blocks_stats),
            m.len() == blocks_stats@.len(),
            forall|k: int| 0 <= k < m.len() ==> m[k] == blocks_stats@[k]@,
            m.len() > 0,
            ncols == m[0].len(),
            uniform(m),
            j <= ncols,
            out@.len() == j,
            forall|l: int| 0 <= l < j ==> out@[l] == reduced_column(m, l),
            forall|l: int|
                0 <= l < ncols ==> sum_nulls(m, l) <= u64::MAX && sum_rows(m, l) <= u64::MAX,
        decreases ncols - j,
    {
        let mut mn = ColumnValue::Null;
        let mut mx = ColumnValue::Null;
        let mut nulls: u64 = 0;
        let mut rows: u64 = 0;
        let mut i: usize = 0;
        while i < blocks_stats.len()
            invariant
                m == stats_matrix(*blocks_stats),
                m.len() == blocks_stats@.len(),
                forall|k: int| 0 <= k < m.len() ==> m[k] == blocks_stats@[k]@,
                uniform(m),
                m.len() > 0,
                ncols == m[0].len(),
                j < ncols,
                i <= m.len(),
                mn == seq_min(col_mins(m.take(i as int), j as int)),
                mx == seq_max(col_maxes(m.take(i as int), j as int)),
                nulls == sum_nulls(m.take(i as int), j as int),
                rows == sum_rows(m.take(i as int), j as int),
                sum_nulls(m, j as int) <= u64::MAX,
                sum_rows(m, j as int) <= u64::MAX,
            decreases m.len() - i,
        {
            proof {
                assert(m.take(i + 1).drop_last() =~= m.take(i as int));
                assert(col_mins(m.take(i + 1), j as int).drop_last() =~= col_mins(
                    m.take(i as int),
                    j as int,
                ));
                assert(col_maxes(m.take(i + 1), j as int).drop_last() =~= col_maxes(
                    m.take(i as int),
                    j as int,
                ));
                lemma_sum_prefix(m, j as int, i + 1);
            }
            let entry = &blocks_stats[i][j].1;
            mn = merge_min_exec(mn, entry.min);
            mx = merge_max_exec(mx, entry.max);
            nulls = nulls + entry.null_count;
            rows = rows + entry.row_count;
            i = i + 1;
        }
        proof {
            assert(m.take(m.len() as int) =~= m);
        }
        out.push(ColumnStatistics { min: mn, max: mx, null_count: nulls, row_count: rows });
        j = j + 1;
    }
    Ok(out)
}

/// Reduction is idempotent: an aggregate summary, treated as the statistics
/// of a single block, reduces to itself. Reducing a segment's statistics
/// twice therefore yields the same summary as reducing them once.
pub proof fn lemma_reduction_idempotent(b: Seq<BlockColumnStats>, j: int)
    requires
        0 <= j < b.len(),
    ensures
        reduced_column(seq![b], j) == b[j].1,
{
    let s = seq![b];
    assert(seq_min(Seq::<ColumnValue>::empty()) == ColumnValue::Null);
    assert(seq_max(Seq::<ColumnValue>::empty()) == ColumnValue::Null);
    assert(sum_nulls(Seq::<Seq<BlockColumnStats>>::empty(), j) == 0);
    assert(sum_rows(Seq::<Seq<BlockColumnStats>>::empty(), j) == 0);
    assert(col_mins(s, j).drop_last() =~= Seq::<ColumnValue>::empty());
    assert(col_maxes(s, j).drop_last() =~= Seq::<ColumnValue>::empty());
    assert(col_mins(s, j).last() == b[j].1.min);
    assert(col_maxes(s, j).last() == b[j].1.max);
    assert(s.drop_last() =~= Seq::<Seq<BlockColumnStats>>::empty());
    assert(seq_min(col_mins(s, j)) == merge_min(ColumnValue::Null, b[j].1.min));
    assert(seq_max(col_maxes(s, j)) == merge_max(ColumnValue::Null, b[j].1.max));
    assert(sum_nulls(s, j) == b[j].1.null_count);
    assert(sum_rows(s, j) == b[j].1.row_count);
}

/// Merging bounds is commutative and associative over values of one
/// comparable type, with `Null` as the neutral element.
proof fn lemma_merge_algebra(a: ColumnValue, b: ColumnValue, c: ColumnValue, t: ColumnType)
    requires
        type_comparable(t),
        value_of_type(a, t),
        value_of_type(b, t),
        value_of_type(c, t),
    ensures
        merge_min(a, b) == merge_min(b, a),
        merge_max(a, b) == merge_max(b, a),
        merge_min(merge_min(a, b), c) == merge_min(a, merge_min(b, c)),
        merge_max(merge_max(a, b), c) == merge_max(a, merge_max(b, c)),
        value_of_type(merge_min(a, b), t),
        value_of_type(merge_max(a, b), t),
{
    crate::value::lemma_value_order_total(a, b, c);
    crate::value::lemma_value_order_total(b, a, c);
    crate::value::lemma_value_order_total(a, c, b);
    crate::value::lemma_value_order_total(c, a, b);
    crate::value::lemma_value_order_total(b, c, a);
    crate::value::lemma_value_order_total(c, b, a);
}

/// The bounds of a concatenation are the merged bounds of the two parts.
proof fn lemma_seq_bounds_concat(x: Seq<ColumnValue>, y: Seq<ColumnValue>, t: ColumnType)
    requires
        type_comparable(t),
        forall|i: int| 0 <= i < x.len() ==> value_of_type(#[trigger] x[i], t),
        forall|i: int| 0 <= i < y.len() ==> value_of_type(#[trigger] y[i], t),
    ensures
        seq_min(x + y) == merge_min(seq_min(x), seq_min(y)),
        seq_max(x + y) == merge_max(seq_max(x), seq_max(y)),
    decreases y.len(),
{
    lemma_seq_bounds_typed(x, t);
    if y.len() == 0 {
        assert(x + y =~= x);
    } else {
        assert(forall|i: int| 0 <= i < y.len() - 1 ==> y[i] == y.drop_last()[i]);
        lemma_seq_bounds_concat(x, y.drop_last(), t);
        lemma_seq_bounds_typed(y.drop_last(), t);
        assert((x + y).drop_last() =~= x + y.drop_last());
        assert((x + y).last() == y.last());
        lemma_merge_algebra(seq_min(x), seq_min(y.drop_last()), y.last(), t);
        lemma_merge_algebra(seq_max(x), seq_max(y.drop_last()), y.last(), t);
    }
}

/// Sums over a concatenation split into the sums over the parts.
proof fn lemma_sum_concat(a: Seq<Seq<BlockColumnStats>>, b: Seq<Seq<BlockColumnStats>>, j: int)
    ensures
        sum_nulls(a + b, j) == sum_nulls(a, j) + sum_nulls(b, j),
        sum_rows(a + b, j) == sum_rows(a, j) + sum_rows(b, j),
    decreases b.len(),
{
    if b.len() == 0 {
        assert(a + b =~= a);
    } else {
        lemma_sum_concat(a, b.drop_last(), j);
        assert((a + b).drop_last() =~= a + b.drop_last());
        assert((a + b).last() == b.last());
    }
}

/// Reduction is order-independent: exchanging two groups of blocks leaves
/// the aggregate of every column unchanged, because min and max are
/// commutative merges and the counts are sums.
pub proof fn lemma_reduction_order_independent(
    a: Seq<Seq<BlockColumnStats>>,
    b: Seq<Seq<BlockColumnStats>>,
    j: int,
    t: ColumnType,
)
    requires
        type_comparable(t),
        forall|i: int|
            0 <= i < a.len() ==> value_of_type((#[trigger] a[i][j]).1.min, t) && value_of_type(
                a[i][j].1.max,
                t,
            ),
        forall|i: int|
            0 <= i < b.len() ==> value_of_type((#[trigger] b[i][j]).1.min, t) && value_of_type(
                b[i][j].1.max,
                t,
            ),
    ensures
        reduced_column(a + b, j) == reduced_column(b + a, j),
{
    assert(col_mins(a + b, j) =~= col_mins(a, j) + col_mins(b, j));
    assert(col_mins(b + a, j) =~= col_mins(b, j) + col_mins(a, j));
    assert(col_maxes(a + b, j) =~= col_maxes(a, j) + col_maxes(b, j));
    assert(col_maxes(b + a, j) =~= col_maxes(b, j) + col_maxes(a, j));
    assert(forall|i: int|
        0 <= i < col_mins(a, j).len() ==> value_of_type(#[trigger] col_mins(a, j)[i], t));
    assert(forall|i: int|
        0 <= i < col_mins(b, j).len() ==> value_of_type(#[trigger] col_mins(b, j)[i], t));
    assert(forall|i: int|
        0 <= i < col_maxes(a, j).len() ==> value_of_type(#[trigger] col_maxes(a, j)[i], t));
    assert(forall|i: int|
        0 <= i < col_maxes(b, j).len() ==> value_of_type(#[trigger] col_maxes(b, j)[i], t));
    lemma_seq_bounds_concat(col_mins(a, j), col_mins(b, j), t);
    lemma_seq_bounds_concat(col_mins(b, j), col_mins(a, j), t);
    lemma_seq_bounds_concat(col_maxes(a, j), col_maxes(b, j), t);
    lemma_seq_bounds_concat(col_maxes(b, j), col_maxes(a, j), t);
    lemma_seq_bounds_typed(col_mins(a, j), t);
    lemma_seq_bounds_typed(col_mins(b, j), t);
    lemma_seq_bounds_typed(col_maxes(a, j), t);
    lemma_seq_bounds_typed(col_maxes(b, j), t);
    lemma_merge_algebra(
        seq_min(col_mins(a, j)),
        seq_min(col_mins(b, j)),
        ColumnValue::Null,
        t,
    );
    lemma_merge_algebra(
        seq_max(col_maxes(a, j)),
        seq_max(col_maxes(b, j)),
        ColumnValue::Null,
        t,
    );
    lemma_sum_concat(a, b, j);
    lemma_sum_concat(b, a, j);
}

} // verus!
