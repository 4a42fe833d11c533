//! Cells and column types.

use vstd::prelude::*;

verus! {

/// Declared type of a column.
///
/// A tag without payload: it is used to check values and is never stored in
/// a column.
#[derive(Clone, Copy, Debug, PartialEq, Eq, Structural)]
pub enum ColumnType {
    Text,
    Integer,
    UnsignedInteger,
    Float,
    Bool,
}

/// Mathematical content of one cell.
pub enum Value {
    Text(Seq<char>),
    Integer(i32),
    UnsignedInteger(u64),
    /// A single-precision number, given by its IEEE 754 bit pattern.
    Float(u32),
    Bool(bool),
}

impl Value {
    /// The column type whose variant this value carries.
    pub open spec fn column_type(self) -> ColumnType {
        match self {
            Value::Text(_) => ColumnType::Text,
            Value::Integer(_) => ColumnType::Integer,
            Value::UnsignedInteger(_) => ColumnType::UnsignedInteger,
            Value::Float(_) => ColumnType::Float,
            Value::Bool(_) => ColumnType::Bool,
        }
    }

    /// A value fits a column exactly when its variant is the column's type.
    /// Nothing is coerced: an `Integer` does not fit an `UnsignedInteger`
    /// column, nor a `Float` an `Integer` column.
    pub open spec fn matches(self, ty: ColumnType) -> bool {
        self.column_type() == ty
    }

    /// The zero or empty value of a column type.
    pub open spec fn default_of(ty: ColumnType) -> Value {
        match ty {
            ColumnType::Text => Value::Text(Seq::empty()),
            ColumnType::Integer => Value::Integer(0),
            ColumnType::UnsignedInteger => Value::UnsignedInteger(0),
            ColumnType::Float => Value::Float(0),
            ColumnType::Bool => Value::Bool(false),
        }
    }
}

/// One cell of a table.
///
/// `Float` holds the IEEE 754 bit pattern of a single-precision number, as
/// `f32::to_bits` gives it; the table never looks inside it.
#[derive(Debug)]
pub enum DataType {
    Text(String),
    Integer(i32),
    UnsignedInteger(u64),
    Float(u32),
    Bool(bool),
}

impl View for DataType {
    type V = Value;

    open spec fn view(&self) -> Value {
        match *self {
            DataType::Text(s) => Value::Text(s@),
            DataType::Integer(i) => Value::Integer(i),
            DataType::UnsignedInteger(u) => Value::UnsignedInteger(u),
            DataType::Float(bits) => Value::Float(bits),
            DataType::Bool(b) => Value::Bool(b),
        }
    }
}

impl DeepView for DataType {
    type V = Value;

    open spec fn deep_view(&self) -> Value {
        self@
    }
}

impl Clone for DataType {
    fn clone(&self) -> (res: Self)
        ensures
            res == *self,
    {
        match self {
            DataType::Text(s) => DataType::Text(s.clone()),
            DataType::Integer(i) => DataType::Integer(*i),
            DataType::UnsignedInteger(u) => DataType::UnsignedInteger(*u),
            DataType::Float(bits) => DataType::Float(*bits),
            DataType::Bool(b) => DataType::Bool(*b),
        }
    }
}

impl PartialEq for DataType {
    /// Two cells are equal when they carry the same variant and the same
    /// content; cells of different variants are never equal. Two `Float`
    /// cells are equal when their bit patterns are.
    fn eq(&self, other: &DataType) -> (equal: bool) {
        match (self, other) {
            (DataType::Text(a), DataType::Text(b)) => *a == *b,
            (DataType::Integer(a), DataType::Integer(b)) => *a == *b,
            (DataType::UnsignedInteger(a), DataType::UnsignedInteger(b)) => *a == *b,
            (DataType::Float(a), DataType::Float(b)) => *a == *b,
            (DataType::Bool(a), DataType::Bool(b)) => *a == *b,
            _ => false,
        }
    }
}

impl vstd::std_specs::cmp::PartialEqSpecImpl for DataType {
    open spec fn obeys_eq_spec() -> bool {
        true
    }

    open spec fn eq_spec(&self, other: &DataType) -> bool {
        self@ == other@
    }
}

impl Eq for DataType {}

impl DataType {
    /// The column type whose variant this cell carries.
    pub fn column_type(&self) -> (ty: ColumnType)
        ensures
            ty == self@.column_type(),
    {
        match self {
            DataType::Text(_) => ColumnType::Text,
            DataType::Integer(_) => ColumnType::Integer,
            DataType::UnsignedInteger(_) => ColumnType::UnsignedInteger,
            DataType::Float(_) => ColumnType::Float,
            DataType::Bool(_) => ColumnType::Bool,
        }
    }

    /// Whether the cell may be stored in a column declared as `ty`.
    pub fn matches(&self, ty: &ColumnType) -> (ok: bool)
        ensures
            ok == self@.matches(*ty),
    {
        self.column_type() == *ty
    }
}

/// The zero or empty cell of a column type: the empty text, `0`, the bit
/// pattern of `0.0`, or `false`.
pub fn default_value_column_type(col_type: &ColumnType) -> (cell: DataType)
    ensures
        cell@ == Value::default_of(*col_type),
{
    match col_type {
        ColumnType::Bool => DataType::Bool(false),
        ColumnType::Float => DataType::Float(0),
        ColumnType::Integer => DataType::Integer(0),
        ColumnType::Text => DataType::Text(String::new()),
        ColumnType::UnsignedInteger => DataType::UnsignedInteger(0),
    }
}

} // verus!
