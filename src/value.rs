use vstd::prelude::*;

verus! {

/// The declared type of a column.
#[derive(Clone, Copy, Debug, PartialEq, Eq, Structural)]
pub enum DataType {
    String,
    UInt64,
    Float64,
}

/// A dynamically typed cell, as staged before a column's type is fixed.
///
/// Floating-point numbers are carried as their IEEE-754 binary64 bit pattern,
/// so that a value is copied bit for bit and compared exactly.
#[derive(Clone, Debug, PartialEq)]
pub enum AnyValue {
    Null,
    String(String),
    UInt64(u64),
    Float64(u64),
}

/// The mathematical content of a cell.
pub enum Cell {
    Null,
    Str(Seq<char>),
    UInt(u64),
    Float(u64),
}

impl View for AnyValue {
    type V = Cell;

    open spec fn view(&self) -> Cell {
        match self {
            AnyValue::Null => Cell::Null,
            AnyValue::String(s) => Cell::Str(s@),
            AnyValue::UInt64(n) => Cell::UInt(*n),
            AnyValue::Float64(b) => Cell::Float(*b),
        }
    }
}

/// Whether a cell can be stored in a column of type `t` without any
/// conversion: the absent marker fits every type, every other cell only
/// its own. There is no implicit numeric coercion.
pub open spec fn conforms(c: Cell, t: DataType) -> bool {
    match c {
        Cell::Null => true,
        Cell::Str(_) => t == DataType::String,
        Cell::UInt(_) => t == DataType::UInt64,
        Cell::Float(_) => t == DataType::Float64,
    }
}

pub open spec fn str_cell(o: Option<String>) -> Cell {
    match o {
        Some(s) => Cell::Str(s@),
        None => Cell::Null,
    }
}

pub open spec fn uint_cell(o: Option<u64>) -> Cell {
    match o {
        Some(n) => Cell::UInt(n),
        None => Cell::Null,
    }
}

pub open spec fn float_cell(o: Option<u64>) -> Cell {
    match o {
        Some(b) => Cell::Float(b),
        None => Cell::Null,
    }
}

impl AnyValue {
    /// Whether this value may be stored in a column of type `t`.
    pub fn conforms_to(&self, t: DataType) -> (r: bool)
        ensures
            r == conforms(self@, t),
    {
        match self {
            AnyValue::Null => true,
            AnyValue::String(_) => t == DataType::String,
            AnyValue::UInt64(_) => t == DataType::UInt64,
            AnyValue::Float64(_) => t == DataType::Float64,
        }
    }

    /// A copy of the value with the same content.
    pub fn duplicate(&self) -> (r: AnyValue)
        ensures
            r@ == self@,
    {
        match self {
            AnyValue::Null => AnyValue::Null,
            AnyValue::String(s) => AnyValue::String(s.clone()),
            AnyValue::UInt64(n) => AnyValue::UInt64(*n),
            AnyValue::Float64(b) => AnyValue::Float64(*b),
        }
    }
}

} // verus!
