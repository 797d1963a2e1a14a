//! Scalar values, declared column types, and the native ordering that the
//! statistics model relies on.

use vstd::prelude::*;

verus! {

/// Declared type of a column: a closed set of tags. Statistics are computed
/// only for types whose native ordering is total; for the others the write
/// path fails with an unsupported-type error instead of misbehaving silently.
#[derive(Clone, Copy, PartialEq, Eq, Structural, Debug)]
pub enum ColumnType {
    Boolean,
    Int64,
    UInt64,
    /// Declared floating-point column; its ordering is not total, so
    /// statistics are not computed for it.
    Float64,
    /// Declared string column; statistics are not computed for it here.
    Utf8,
}

/// A single scalar as observed in a column, at statistics granularity.
#[derive(Clone, Copy, PartialEq, Eq, Structural, Debug)]
pub enum ColumnValue {
    Null,
    Bool(bool),
    Int(i64),
    UInt(u64),
}

/// Whether statistics can be computed and compared for a declared type.
pub open spec fn type_comparable(t: ColumnType) -> bool {
    match t {
        ColumnType::Boolean => true,
        ColumnType::Int64 => true,
        ColumnType::UInt64 => true,
        ColumnType::Float64 => false,
        ColumnType::Utf8 => false,
    }
}

/// A value belongs to a declared type when it is null or carries that type's
/// representation.
pub open spec fn value_of_type(v: ColumnValue, t: ColumnType) -> bool {
    match v {
        ColumnValue::Null => true,
        ColumnValue::Bool(_) => t is Boolean,
        ColumnValue::Int(_) => t is Int64,
        ColumnValue::UInt(_) => t is UInt64,
    }
}

/// Two non-null values are comparable exactly when they carry the same tag.
pub open spec fn same_kind(a: ColumnValue, b: ColumnValue) -> bool {
    match (a, b) {
        (ColumnValue::Bool(_), ColumnValue::Bool(_)) => true,
        (ColumnValue::Int(_), ColumnValue::Int(_)) => true,
        (ColumnValue::UInt(_), ColumnValue::UInt(_)) => true,
        _ => false,
    }
}

/// The native ordering: `a <= b`. False for nulls and for mismatched tags.
pub open spec fn value_le_spec(a: ColumnValue, b: ColumnValue) -> bool {
    match (a, b) {
        (ColumnValue::Bool(x), ColumnValue::Bool(y)) => !x || y,
        (ColumnValue::Int(x), ColumnValue::Int(y)) => x <= y,
        (ColumnValue::UInt(x), ColumnValue::UInt(y)) => x <= y,
        _ => false,
    }
}

/// Decides the native ordering `a <= b` on comparable values.
pub fn value_le(a: &ColumnValue, b: &ColumnValue) -> (r: bool)
    ensures
        r == value_le_spec(*a, *b),
{
    match (a, b) {
        (ColumnValue::Bool(x), ColumnValue::Bool(y)) => !*x || *y,
        (ColumnValue::Int(x), ColumnValue::Int(y)) => *x <= *y,
        (ColumnValue::UInt(x), ColumnValue::UInt(y)) => *x <= *y,
        _ => false,
    }
}

/// On values of one kind the native ordering is total: reflexive,
/// antisymmetric, transitive, and any two values are comparable.
pub proof fn lemma_value_order_total(a: ColumnValue, b: ColumnValue, c: ColumnValue)
    ensures
        same_kind(a, a) ==> value_le_spec(a, a),
        same_kind(a, b) ==> value_le_spec(a, b) || value_le_spec(b, a),
        value_le_spec(a, b) && value_le_spec(b, a) ==> a == b,
        value_le_spec(a, b) && value_le_spec(b, c) ==> value_le_spec(a, c),
{
}

/// One column of one field of a schema.
#[derive(Clone, Debug)]
pub struct DataField {
    pub name: String,
    pub data_type: ColumnType,
}

/// The mathematical model of a field: its name and declared type.
pub struct DataFieldView {
    pub name: Seq<char>,
    pub data_type: ColumnType,
}

impl View for DataField {
    type V = DataFieldView;

    open spec fn view(&self) -> DataFieldView {
        DataFieldView { name: self.name@, data_type: self.data_type }
    }
}

impl DataField {
    /// An equal field: same name, same declared type.
    pub fn duplicate(&self) -> (r: DataField)
        ensures
            r@ == self@,
    {
        DataField { name: self.name.clone(), data_type: self.data_type }
    }
}

/// The scan schema: fields in positional order; a column's identifier is its
/// position in this list, stable only while the table schema does not change.
#[derive(Clone, Debug)]
pub struct DataSchema {
    pub fields: Vec<DataField>,
}

impl View for DataSchema {
    type V = Seq<DataFieldView>;

    open spec fn view(&self) -> Seq<DataFieldView> {
        self.fields@.map_values(|f: DataField| f@)
    }
}

impl DataSchema {
    /// An equal schema: the same fields in the same order.
    pub fn duplicate(&self) -> (r: DataSchema)
        ensures
            r@ == self@,
    {
        let mut fields: Vec<DataField> = Vec::new();
        let mut i: usize = 0;
        while i < self.fields.len()
            invariant
                i <= self.fields@.len(),
                fields@.len() == i,
                forall|j: int| 0 <= j < i ==> (#[trigger] fields@[j])@ == self.fields@[j]@,
            decreases self.fields@.len() - i,
        {
            fields.push(self.fields[i].duplicate());
            i = i + 1;
        }
        let r = DataSchema { fields };
        proof {
            assert(r@ =~= self@);
        }
        r
    }
    /// Looks a field up by name, returning its positional column identifier.
    pub fn index_of(&self, name: &str) -> (r: Option<usize>)
        ensures
            match r {
                Some(i) => i < self.fields@.len() && self.fields@[i as int].name@ == name@,
                None => forall|i: int|
                    0 <= i < self.fields@.len() ==> self.fields@[i].name@ != name@,
            },
    {
        let n = name.to_string();
        let mut i: usize = 0;
        while i < self.fields.len()
            invariant
                i <= self.fields@.len(),
                n@ == name@,
                forall|j: int| 0 <= j < i ==> self.fields@[j].name@ != name@,
            decreases self.fields@.len() - i,
        {
            if self.fields[i].name == n {
                return Some(i);
            }
            i = i + 1;
        }
        None
    }
}

} // verus!
