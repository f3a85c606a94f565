use vstd::prelude::*;

use crate::value::{float_cell, str_cell, uint_cell, AnyValue, Cell, DataType};

verus! {

/// Why a table could not be built.
#[derive(Clone, Copy, Debug, PartialEq, Eq, Structural)]
pub enum TableError {
    /// A staged value does not fit the declared type of its column.
    TypeMismatch,
    /// A value of a decoded document does not fit the declared type of its column.
    SchemaViolation,
    /// The columns handed over do not all have the same length.
    ColumnLengthMismatch,
}

/// A (name, declared type) pair of a schema.
#[derive(Clone, Debug, PartialEq)]
pub struct Field {
    pub name: String,
    pub dtype: DataType,
}

/// The mathematical content of a schema field.
pub struct FieldView {
    pub name: Seq<char>,
    pub dtype: DataType,
}

impl View for Field {
    type V = FieldView;

    open spec fn view(&self) -> FieldView {
        FieldView { name: self.name@, dtype: self.dtype }
    }
}

pub open spec fn fields_view(fs: Seq<Field>) -> Seq<FieldView> {
    fs.map_values(|f: Field| f@)
}

/// The cells of one column, stored natively for its type. Absent cells are `None`;
/// binary64 numbers are held as their bit patterns.
#[derive(Clone, Debug, PartialEq)]
pub enum ColumnValues {
    String(Vec<Option<String>>),
    UInt64(Vec<Option<u64>>),
    Float64(Vec<Option<u64>>),
}

pub open spec fn str_cells(v: Seq<Option<String>>) -> Seq<Cell> {
    v.map_values(|o: Option<String>| str_cell(o))
}

pub open spec fn uint_cells(v: Seq<Option<u64>>) -> Seq<Cell> {
    v.map_values(|o: Option<u64>| uint_cell(o))
}

pub open spec fn float_cells(v: Seq<Option<u64>>) -> Seq<Cell> {
    v.map_values(|o: Option<u64>| float_cell(o))
}

impl ColumnValues {
    pub open spec fn dtype(&self) -> DataType {
        match self {
            ColumnValues::String(_) => DataType::String,
            ColumnValues::UInt64(_) => DataType::UInt64,
            ColumnValues::Float64(_) => DataType::Float64,
        }
    }

    pub open spec fn cells(&self) -> Seq<Cell> {
        match self {
            ColumnValues::String(v) => str_cells(v@),
            ColumnValues::UInt64(v) => uint_cells(v@),
            ColumnValues::Float64(v) => float_cells(v@),
        }
    }
}

/// A named, homogeneously typed column.
#[derive(Clone, Debug, PartialEq)]
pub struct Column {
    pub name: String,
    pub values: ColumnValues,
}

/// The mathematical content of a column: its name, its type and its cells in row order.
pub struct ColumnView {
    pub name: Seq<char>,
    pub dtype: DataType,
    pub cells: Seq<Cell>,
}

impl View for Column {
    type V = ColumnView;

    open spec fn view(&self) -> ColumnView {
        ColumnView { name: self.name@, dtype: self.values.dtype(), cells: self.values.cells() }
    }
}

pub open spec fn columns_view(cs: Seq<Column>) -> Seq<ColumnView> {
    cs.map_values(|c: Column| c@)
}

/// All columns have the same number of cells.
pub open spec fn same_height(cols: Seq<ColumnView>) -> bool {
    forall|i: int| 0 <= i < cols.len() ==> (#[trigger] cols[i]).cells.len() == cols[0].cells.len()
}

/// The number of rows of a table: that of its first column, or zero without columns.
pub open spec fn height_of(cols: Seq<ColumnView>) -> nat {
    if cols.len() == 0 {
        0
    } else {
        cols[0].cells.len()
    }
}

impl Column {
    /// Number of cells.
    pub fn len(&self) -> (r: usize)
        ensures
            r == self@.cells.len(),
    {
        match &self.values {
            ColumnValues::String(v) => v.len(),
            ColumnValues::UInt64(v) => v.len(),
            ColumnValues::Float64(v) => v.len(),
        }
    }

    /// The declared type.
    pub fn data_type(&self) -> (r: DataType)
        ensures
            r == self@.dtype,
    {
        match &self.values {
            ColumnValues::String(_) => DataType::String,
            ColumnValues::UInt64(_) => DataType::UInt64,
            ColumnValues::Float64(_) => DataType::Float64,
        }
    }

    /// The cell at `row`, as a dynamically typed value.
    pub fn get(&self, row: usize) -> (r: AnyValue)
        requires
            row < self@.cells.len(),
        ensures
            r@ == self@.cells[row as int],
    {
        match &self.values {
            ColumnValues::String(v) => match &v[row] {
                Some(s) => AnyValue::String(s.clone()),
                None => AnyValue::Null,
            },
            ColumnValues::UInt64(v) => match v[row] {
                Some(n) => AnyValue::UInt64(n),
                None => AnyValue::Null,
            },
            ColumnValues::Float64(v) => match v[row] {
                Some(b) => AnyValue::Float64(b),
                None => AnyValue::Null,
            },
        }
    }
}

/// A table of equally long, named, typed columns. Once built it is not changed.
#[derive(Clone, Debug, PartialEq)]
pub struct Table {
    columns: Vec<Column>,
}

impl View for Table {
    type V = Seq<ColumnView>;

    closed spec fn view(&self) -> Seq<ColumnView> {
        columns_view(self.columns@)
    }
}

impl Table {
    /// Every table has columns of one length.
    pub open spec fn wf(&self) -> bool {
        same_height(self@)
    }

    /// Builds a table from columns, which must all have the same length.
    pub fn new(columns: Vec<Column>) -> (r: Result<Table, TableError>)
        ensures
            match r {
                Ok(t) => t@ == columns_view(columns@) && t.wf(),
                Err(e) => e == TableError::ColumnLengthMismatch && !same_height(
                    columns_view(columns@),
                ),
            },
    {
        if columns.len() > 0 {
            let h = columns[0].len();
            let mut i: usize = 1;
            while i < columns.len()
                invariant
                    1 <= i <= columns.len(),
                    h == columns@[0]@.cells.len(),
                    forall|k: int| 0 <= k < i ==> (#[trigger] columns@[k])@.cells.len() == h,
                decreases columns.len() - i,
            {
                if columns[i].len() != h {
                    assert(columns_view(columns@)[i as int].cells.len() != columns_view(
                        columns@,
                    )[0].cells.len());
                    return Err(TableError::ColumnLengthMismatch);
                }
                i = i + 1;
            }
        }
        Ok(Table { columns })
    }

    /// The columns in schema order.
    pub fn columns(&self) -> (r: &Vec<Column>)
        ensures
            columns_view(r@) == self@,
    {
        &self.columns
    }

    /// Number of columns.
    pub fn width(&self) -> (r: usize)
        ensures
            r == self@.len(),
    {
        self.columns.len()
    }

    /// Number of rows.
    pub fn height(&self) -> (r: usize)
        ensures
            r == height_of(self@),
    {
        if self.columns.len() == 0 {
            0
        } else {
            self.columns[0].len()
        }
    }
}

} // verus!

verus! {

/// The table whose column `j` is named and typed by `schema[j]` and holds, in
/// row order, cell `j` of each row.
pub open spec fn rows_table(rows: Seq<Seq<Cell>>, schema: Seq<FieldView>) -> Seq<ColumnView> {
    Seq::new(
        schema.len(),
        |j: int|
            ColumnView {
                name: schema[j].name,
                dtype: schema[j].dtype,
                cells: Seq::new(rows.len(), |i: int| rows[i][j]),
            },
    )
}

} // verus!
