use vstd::prelude::*;

use crate::table::{
    columns_view, fields_view, float_cells, rows_table, same_height, str_cells, uint_cells, Column,
    ColumnValues, ColumnView, Field, FieldView, Table, TableError,
};
use crate::value::{conforms, float_cell, str_cell, uint_cell, AnyValue, Cell, DataType};

verus! {

/// The cells held by a sequence of dynamically typed values.
pub open spec fn any_cells(v: Seq<AnyValue>) -> Seq<Cell> {
    v.map_values(|a: AnyValue| a@)
}

/// Every cell fits type `t`.
pub open spec fn all_conform(cells: Seq<Cell>, t: DataType) -> bool {
    forall|k: int| 0 <= k < cells.len() ==> conforms(#[trigger] cells[k], t)
}

/// The cells of rows of dynamically typed values.
pub open spec fn rows_view(rows: Seq<Vec<AnyValue>>) -> Seq<Seq<Cell>> {
    rows.map_values(|r: Vec<AnyValue>| any_cells(r@))
}

/// Every row has exactly `width` cells.
pub open spec fn rows_fit(rows: Seq<Seq<Cell>>, width: nat) -> bool {
    forall|i: int| 0 <= i < rows.len() ==> (#[trigger] rows[i]).len() == width
}

/// Cell `j` of every row fits the type of field `j` of the schema.
pub open spec fn rows_conform(rows: Seq<Seq<Cell>>, schema: Seq<FieldView>) -> bool {
    forall|i: int, j: int|
        0 <= i < rows.len() && 0 <= j < schema.len() ==> conforms(
            #[trigger] rows[i][j],
            schema[j].dtype,
        )
}

/// Converts dynamically typed values into a column of type `dtype`. Absent
/// values become absent cells; any other value must already be of type
/// `dtype`, or the whole conversion fails with `TypeMismatch`.
pub fn column_from_any_values(name: &String, values: &Vec<AnyValue>, dtype: DataType) -> (r:
    Result<Column, TableError>)
    ensures
        all_conform(any_cells(values@), dtype) ==> (r matches Ok(c) && c@ == (ColumnView {
            name: name@,
            dtype,
            cells: any_cells(values@),
        })),
        !all_conform(any_cells(values@), dtype) ==> r == Err::<Column, TableError>(
            TableError::TypeMismatch,
        ),
{
    let n = values.len();
    match dtype {
        DataType::String => {
            let mut out: Vec<Option<String>> = Vec::with_capacity(n);
            let mut k: usize = 0;
            while k < n
                invariant
                    k <= n == values@.len(),
                    dtype == DataType::String,
                    out@.len() == k,
                    forall|m: int| 0 <= m < k ==> str_cell(#[trigger] out@[m]) == values@[m]@,
                decreases n - k,
            {
                match &values[k] {
                    AnyValue::Null => out.push(None),
                    AnyValue::String(s) => out.push(Some(s.clone())),
                    _ => {
                        assert(!conforms(any_cells(values@)[k as int], dtype));
                        return Err(TableError::TypeMismatch);
                    },
                }
                k = k + 1;
            }
            assert(str_cells(out@) =~= any_cells(values@));
            Ok(Column { name: name.clone(), values: ColumnValues::String(out) })
        },
        DataType::UInt64 => {
            let mut out: Vec<Option<u64>> = Vec::with_capacity(n);
            let mut k: usize = 0;
            while k < n
                invariant
                    k <= n == values@.len(),
                    dtype == DataType::UInt64,
                    out@.len() == k,
                    forall|m: int| 0 <= m < k ==> uint_cell(#[trigger] out@[m]) == values@[m]@,
                decreases n - k,
            {
                match &values[k] {
                    AnyValue::Null => out.push(None),
                    AnyValue::UInt64(x) => out.push(Some(*x)),
                    _ => {
                        assert(!conforms(any_cells(values@)[k as int], dtype));
                        return Err(TableError::TypeMismatch);
                    },
                }
                k = k + 1;
            }
            assert(uint_cells(out@) =~= any_cells(values@));
            Ok(Column { name: name.clone(), values: ColumnValues::UInt64(out) })
        },
        DataType::Float64 => {
            let mut out: Vec<Option<u64>> = Vec::with_capacity(n);
            let mut k: usize = 0;
            while k < n
                invariant
                    k <= n == values@.len(),
                    dtype == DataType::Float64,
                    out@.len() == k,
                    forall|m: int|
                        0 <= m < k ==> float_cell(#[trigger] out@[m]) == values@[m]@,
                decreases n - k,
            {
                match &values[k] {
                    AnyValue::Null => out.push(None),
                    AnyValue::Float64(b) => out.push(Some(*b)),
                    _ => {
                        assert(!conforms(any_cells(values@)[k as int], dtype));
                        return Err(TableError::TypeMismatch);
                    },
                }
                k = k + 1;
            }
            assert(float_cells(out@) =~= any_cells(values@));
            Ok(Column { name: name.clone(), values: ColumnValues::Float64(out) })
        },
    }
}

/// Transposes rows of dynamically typed values into a table with the columns of
/// `schema`. Every row must have one value per field (else
/// `ColumnLengthMismatch`), and value `j` of every row must fit the type of
/// field `j` (else `TypeMismatch`).
pub fn table_from_rows_and_schema(rows: &Vec<Vec<AnyValue>>, schema: &Vec<Field>) -> (r: Result<
    Table,
    TableError,
>)
    ensures
        !rows_fit(rows_view(rows@), schema@.len()) ==> r == Err::<Table, TableError>(
            TableError::ColumnLengthMismatch,
        ),
        rows_fit(rows_view(rows@), schema@.len()) && !rows_conform(
            rows_view(rows@),
            fields_view(schema@),
        ) ==> r == Err::<Table, TableError>(TableError::TypeMismatch),
        rows_fit(rows_view(rows@), schema@.len()) && rows_conform(
            rows_view(rows@),
            fields_view(schema@),
        ) ==> (r matches Ok(t) && t@ == rows_table(rows_view(rows@), fields_view(schema@))
            && t.wf()),
{
    let ghost rv = rows_view(rows@);
    let ghost sv = fields_view(schema@);
    let n = rows.len();
    let w = schema.len();
    let mut i: usize = 0;
    while i < n
        invariant
            i <= n == rows@.len(),
            w == schema@.len(),
            rv == rows_view(rows@),
            forall|k: int| 0 <= k < i ==> (#[trigger] rv[k]).len() == w,
        decreases n - i,
    {
        if rows[i].len() != w {
            assert(rv[i as int].len() != w);
            return Err(TableError::ColumnLengthMismatch);
        }
        i = i + 1;
    }
    assert(rows_fit(rv, w as nat));
    let mut columns: Vec<Column> = Vec::with_capacity(w);
    let mut j: usize = 0;
    while j < w
        invariant
            j <= w == schema@.len(),
            n == rows@.len(),
            rv == rows_view(rows@),
            sv == fields_view(schema@),
            rows_fit(rv, w as nat),
            columns@.len() == j,
            forall|m: int|
                0 <= m < j ==> (#[trigger] columns_view(columns@)[m]) == rows_table(rv, sv)[m],
            forall|k: int, m: int|
                0 <= k < n && 0 <= m < j ==> conforms(#[trigger] rv[k][m], sv[m].dtype),
        decreases w - j,
    {
        let mut values: Vec<AnyValue> = Vec::with_capacity(n);
        let mut i: usize = 0;
        while i < n
            invariant
                i <= n == rows@.len(),
                j < w == schema@.len(),
                rv == rows_view(rows@),
                rows_fit(rv, w as nat),
                values@.len() == i,
                forall|k: int| 0 <= k < i ==> (#[trigger] values@[k])@ == rv[k][j as int],
            decreases n - i,
        {
            assert(rv[i as int].len() == w);
            values.push(rows[i][j].duplicate());
            i = i + 1;
        }
        assert(any_cells(values@) =~= Seq::new(n as nat, |k: int| rv[k][j as int]));
        match column_from_any_values(&schema[j].name, &values, schema[j].dtype) {
            Ok(c) => {
                let ghost cv = c@;
                let ghost old_cols = columns@;
                columns.push(c);
                proof {
                    assert(all_conform(any_cells(values@), schema@[j as int].dtype));
                    assert forall|k: int| 0 <= k < n implies conforms(
                        #[trigger] rv[k][j as int],
                        sv[j as int].dtype,
                    ) by {
                        assert(any_cells(values@)[k] == rv[k][j as int]);
                    }
                    assert(cv.cells == rows_table(rv, sv)[j as int].cells);
                    assert(cv == rows_table(rv, sv)[j as int]);
                    assert(columns_view(columns@)[j as int] == cv);
                    assert forall|m: int| 0 <= m < j + 1 implies (#[trigger] columns_view(
                        columns@,
                    )[m]) == rows_table(rv, sv)[m] by {
                        if m < j {
                            assert(columns@[m] == old_cols[m]);
                            assert(columns_view(old_cols)[m] == rows_table(rv, sv)[m]);
                        }
                    }
                }
            },
            Err(e) => {
                proof {
                    if rows_conform(rv, sv) {
                        assert forall|k: int| 0 <= k < n implies conforms(
                            #[trigger] any_cells(values@)[k],
                            schema@[j as int].dtype,
                        ) by {
                            assert(conforms(rv[k][j as int], sv[j as int].dtype));
                        }
                    }
                }
                return Err(e);
            },
        }
        j = j + 1;
    }
    proof {
        assert(columns_view(columns@) =~= rows_table(rv, sv));
        assert(same_height(columns_view(columns@)));
    }
    Table::new(columns)
}

} // verus!
