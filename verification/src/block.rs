//! In-memory columnar batches: the input of the write path.

use vstd::prelude::*;

use crate::value::{ColumnValue, DataFieldView, DataSchema, value_of_type};

verus! {

/// One column of a batch: either a materialised array of values, or a single
/// constant repeated for every row of the batch.
#[derive(Clone, Debug)]
pub enum DataColumn {
    Array(Vec<ColumnValue>),
    Constant(ColumnValue, usize),
}

impl View for DataColumn {
    type V = Seq<ColumnValue>;

    open spec fn view(&self) -> Seq<ColumnValue> {
        self.values()
    }
}

impl DataColumn {
    /// The values of the column, one per row.
    pub open spec fn values(self) -> Seq<ColumnValue> {
        match self {
            DataColumn::Array(v) => v@,
            DataColumn::Constant(c, n) => Seq::new(n as nat, |i: int| c),
        }
    }

    /// A column with the same values, row for row.
    pub fn duplicate(&self) -> (r: DataColumn)
        ensures
            r@ == self@,
    {
        match self {
            DataColumn::Array(v) => {
                let mut out: Vec<ColumnValue> = Vec::new();
                let mut i: usize = 0;
                while i < v.len()
                    invariant
                        i <= v@.len(),
                        out@ == v@.take(i as int),
                    decreases v@.len() - i,
                {
                    out.push(v[i]);
                    i = i + 1;
                }
                proof {
                    assert(v@.take(v@.len() as int) =~= v@);
                }
                DataColumn::Array(out)
            },
            DataColumn::Constant(c, n) => DataColumn::Constant(*c, *n),
        }
    }

    /// The in-memory size estimate of the column, saturated at `u64::MAX`:
    /// a materialised array is charged per value, a constant only once.
    pub open spec fn size_spec(self) -> u64 {
        match self {
            DataColumn::Array(v) => if 16 * v@.len() > u64::MAX {
                u64::MAX
            } else {
                (16 * v@.len()) as u64
            },
            DataColumn::Constant(c, n) => 16u64,
        }
    }

    /// Computes the in-memory size estimate of the column.
    pub fn size(&self) -> (r: u64)
        ensures
            r == self.size_spec(),
    {
        match self {
            DataColumn::Array(v) => {
                match (v.len() as u64).checked_mul(16) {
                    Some(x) => x,
                    None => u64::MAX,
                }
            },
            DataColumn::Constant(_, _) => 16,
        }
    }
}

/// A batch of rows in columnar form, together with the schema its columns
/// follow. Column identifiers are positional: column `i` is described by
/// field `i` of the schema.
#[derive(Clone, Debug)]
pub struct DataBlock {
    pub schema: DataSchema,
    pub columns: Vec<DataColumn>,
    pub rows: usize,
}

/// The mathematical model of a batch: the schema model, the values of each
/// column, and the row count.
pub struct DataBlockView {
    pub schema: Seq<DataFieldView>,
    pub columns: Seq<Seq<ColumnValue>>,
    pub rows: nat,
}

impl View for DataBlock {
    type V = DataBlockView;

    open spec fn view(&self) -> DataBlockView {
        DataBlockView {
            schema: self.schema@,
            columns: self.columns@.map_values(|c: DataColumn| c@),
            rows: self.rows as nat,
        }
    }
}

impl DataBlock {
    /// A batch with the same schema, values and row count.
    pub fn duplicate(&self) -> (r: DataBlock)
        ensures
            r@ == self@,
    {
        let mut columns: Vec<DataColumn> = Vec::new();
        let mut i: usize = 0;
        while i < self.columns.len()
            invariant
                i <= self.columns@.len(),
                columns@.len() == i,
                forall|j: int| 0 <= j < i ==> (#[trigger] columns@[j])@ == self.columns@[j]@,
            decreases self.columns@.len() - i,
        {
            columns.push(self.columns[i].duplicate());
            i = i + 1;
        }
        let r = DataBlock { schema: self.schema.duplicate(), columns, rows: self.rows };
        proof {
            assert(r@.columns =~= self@.columns);
        }
        r
    }

    /// Well-formedness: one column per schema field, every column as long as
    /// the batch, and every value of a column belonging to its declared type.
    pub open spec fn wf(self) -> bool {
        &&& self.columns@.len() == self.schema.fields@.len()
        &&& forall|i: int|
            0 <= i < self.columns@.len() ==> (#[trigger] self.columns@[i]).values().len()
                == self.rows
        &&& forall|i: int, k: int|
            0 <= i < self.columns@.len() && 0 <= k < self.rows ==> value_of_type(
                #[trigger] self.columns@[i].values()[k],
                self.schema.fields@[i].data_type,
            )
    }

    /// The number of rows in the batch.
    pub fn num_rows(&self) -> (r: usize)
        ensures
            r == self.rows,
    {
        self.rows
    }

    /// The number of columns in the batch.
    pub fn num_columns(&self) -> (r: usize)
        ensures
            r == self.columns@.len(),
    {
        self.columns.len()
    }

    /// The in-memory size estimate of the batch: the sum of its columns'
    /// estimates, saturated at `u64::MAX`.
    pub open spec fn memory_size_spec(self) -> u64 {
        Self::size_sum(self.columns@)
    }

    /// The saturated size sum of a sequence of columns.
    pub open spec fn size_sum(cols: Seq<DataColumn>) -> u64
        decreases cols.len(),
    {
        if cols.len() == 0 {
            0u64
        } else {
            let rest = Self::size_sum(cols.drop_last());
            if rest + cols.last().size_spec() > u64::MAX {
                u64::MAX
            } else {
                (rest + cols.last().size_spec()) as u64
            }
        }
    }

    /// Computes the in-memory size estimate of the batch.
    pub fn memory_size(&self) -> (r: u64)
        ensures
            r == self.memory_size_spec(),
    {
        let mut total: u64 = 0;
        let mut i: usize = 0;
        while i < self.columns.len()
            invariant
                i <= self.columns@.len(),
                total == Self::size_sum(self.columns@.take(i as int)),
            decreases self.columns@.len() - i,
        {
            proof {
                assert(self.columns@.take(i + 1).drop_last() =~= self.columns@.take(i as int));
            }
            total = total.saturating_add(self.columns[i].size());
            i = i + 1;
        }
        proof {
            assert(self.columns@.take(self.columns@.len() as int) =~= self.columns@);
        }
        total
    }
}

} // verus!
