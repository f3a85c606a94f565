use vstd::prelude::*;

use crate::coerce::{any_cells, column_from_any_values};
use crate::table::{
    columns_view, fields_view, same_height, Column, ColumnView, Field, FieldView, Table, TableError,
};
use crate::infer::{infer_schema, inferred_schema, overwrite_schema, overwritten_schema};
use crate::schema::{quote_schema, quote_schema_spec};
use crate::value::{conforms, AnyValue, Cell, DataType};

verus! {

/// A JSON number: the bit pattern of the nearest binary64 value, and the exact
/// value when the number is a non-negative integer that fits in 64 bits.
#[derive(Clone, Copy, Debug, PartialEq, Eq)]
pub struct JsonNumber {
    pub unsigned: Option<u64>,
    pub bits: u64,
}

/// A member value of a flat JSON row object.
#[derive(Clone, Debug, PartialEq)]
pub enum JsonScalar {
    Null,
    Bool(bool),
    String(String),
    Number(JsonNumber),
    /// An array or an object, which no column type accepts.
    Compound,
}

/// The members of one row object, in document order.
pub type JsonRow = Vec<(String, JsonScalar)>;

/// Whether member `k` of `row` is the first one named `name`.
pub open spec fn first_named(row: Seq<(String, JsonScalar)>, name: Seq<char>, k: int) -> bool {
    &&& 0 <= k < row.len()
    &&& row[k].0@ == name
    &&& forall|m: int| 0 <= m < k ==> (#[trigger] row[m]).0@ != name
}

/// The value of member `name` of a row: that of the first member so named, or
/// null when the row has none.
pub open spec fn member(row: Seq<(String, JsonScalar)>, name: Seq<char>) -> JsonScalar {
    if exists|k: int| first_named(row, name, k) {
        row[choose|k: int| first_named(row, name, k)].1
    } else {
        JsonScalar::Null
    }
}

/// The cell that a JSON value becomes in a column of declared type `t`, or
/// `None` when the value does not fit that type. Null is the absent cell of
/// every type; a number fits `Float64` as its binary64 value, and `UInt64`
/// only when it is a non-negative integer.
pub open spec fn json_cell(v: JsonScalar, t: DataType) -> Option<Cell> {
    match v {
        JsonScalar::Null => Some(Cell::Null),
        JsonScalar::String(s) => if t == DataType::String {
            Some(Cell::Str(s@))
        } else {
            None
        },
        JsonScalar::Number(n) => match t {
            DataType::UInt64 => match n.unsigned {
                Some(u) => Some(Cell::UInt(u)),
                None => None,
            },
            DataType::Float64 => Some(Cell::Float(n.bits)),
            DataType::String => None,
        },
        _ => None,
    }
}

/// The members of each row, in document order.
pub open spec fn json_rows_view(rows: Seq<JsonRow>) -> Seq<Seq<(String, JsonScalar)>> {
    rows.map_values(|r: JsonRow| r@)
}

/// Every member value that a field of `schema` reads fits the field's declared type.
pub open spec fn decodable(rows: Seq<Seq<(String, JsonScalar)>>, schema: Seq<FieldView>) -> bool {
    forall|i: int, j: int|
        0 <= i < rows.len() && 0 <= j < schema.len() ==> (#[trigger] json_cell(
            member(rows[i], schema[j].name),
            schema[j].dtype,
        )).is_some()
}

/// The table decoded from `rows`: one column per field of `schema`, with the
/// declared name and type, holding the cell of each row's member of that name.
pub open spec fn json_table(rows: Seq<Seq<(String, JsonScalar)>>, schema: Seq<FieldView>) -> Seq<
    ColumnView,
> {
    Seq::new(
        schema.len(),
        |j: int|
            ColumnView {
                name: schema[j].name,
                dtype: schema[j].dtype,
                cells: Seq::new(
                    rows.len(),
                    |i: int| json_cell(member(rows[i], schema[j].name), schema[j].dtype).unwrap(),
                ),
            },
    )
}

/// The value of the first member of `row` named `name`, or null.
fn member_of(row: &JsonRow, name: &String) -> (r: JsonScalar)
    ensures
        json_cell(r, DataType::String) == json_cell(member(row@, name@), DataType::String),
        json_cell(r, DataType::UInt64) == json_cell(member(row@, name@), DataType::UInt64),
        json_cell(r, DataType::Float64) == json_cell(member(row@, name@), DataType::Float64),
{
    let mut k: usize = 0;
    while k < row.len()
        invariant
            k <= row@.len(),
            forall|m: int| 0 <= m < k ==> (#[trigger] row@[m]).0@ != name@,
        decreases row@.len() - k,
    {
        if row[k].0 == *name {
            assert(first_named(row@, name@, k as int));
            proof {
                let c = choose|c: int| first_named(row@, name@, c);
                if c < k {
                    assert(row@[c].0@ != name@);
                } else if c > k {
                    assert(row@[k as int].0@ != name@);
                }
            }
            return match &row[k].1 {
                JsonScalar::Null => JsonScalar::Null,
                JsonScalar::Bool(b) => JsonScalar::Bool(*b),
                JsonScalar::String(s) => JsonScalar::String(s.clone()),
                JsonScalar::Number(n) => JsonScalar::Number(*n),
                JsonScalar::Compound => JsonScalar::Compound,
            };
        }
        k = k + 1;
    }
    JsonScalar::Null
}

/// The staged value of a JSON value in a column of type `t`, or `None` when it does not fit.
fn json_value(v: JsonScalar, t: DataType) -> (r: Option<AnyValue>)
    ensures
        match r {
            Some(a) => json_cell(v, t) == Some(a@),
            None => json_cell(v, t).is_none(),
        },
{
    match v {
        JsonScalar::Null => Some(AnyValue::Null),
        JsonScalar::String(s) => if t == DataType::String {
            Some(AnyValue::String(s))
        } else {
            None
        },
        JsonScalar::Number(n) => match t {
            DataType::UInt64 => match n.unsigned {
                Some(u) => Some(AnyValue::UInt64(u)),
                None => None,
            },
            DataType::Float64 => Some(AnyValue::Float64(n.bits)),
            DataType::String => None,
        },
        _ => None,
    }
}

/// Decodes rows of a JSON document against a declared schema, without
/// building a record per row. The declared type of every field decides the
/// type of its column, whatever the document's values look like; a value that
/// cannot be read as its declared type fails the whole decoding with
/// `SchemaViolation`. A member absent from a row gives an absent cell.
pub fn decode_json_rows(rows: &Vec<JsonRow>, schema: &Vec<Field>) -> (r: Result<Table, TableError>)
    ensures
        decodable(json_rows_view(rows@), fields_view(schema@)) ==> (r matches Ok(t) && t@
            == json_table(json_rows_view(rows@), fields_view(schema@)) && t.wf()),
        !decodable(json_rows_view(rows@), fields_view(schema@)) ==> r == Err::<Table, TableError>(
            TableError::SchemaViolation,
        ),
{
    let ghost rv = json_rows_view(rows@);
    let ghost sv = fields_view(schema@);
    let n = rows.len();
    let w = schema.len();
    let mut columns: Vec<Column> = Vec::with_capacity(w);
    let mut j: usize = 0;
    while j < w
        invariant
            j <= w == schema@.len(),
            n == rows@.len(),
            rv == json_rows_view(rows@),
            sv == fields_view(schema@),
            columns@.len() == j,
            forall|m: int|
                0 <= m < j ==> (#[trigger] columns_view(columns@)[m]) == json_table(rv, sv)[m],
            forall|k: int, m: int|
                0 <= k < n && 0 <= m < j ==> (#[trigger] json_cell(
                    member(rv[k], sv[m].name),
                    sv[m].dtype,
                )).is_some(),
        decreases w - j,
    {
        let dtype = schema[j].dtype;
        let mut values: Vec<AnyValue> = Vec::with_capacity(n);
        let mut i: usize = 0;
        while i < n
            invariant
                i <= n == rows@.len(),
                j < w == schema@.len(),
                rv == json_rows_view(rows@),
                sv == fields_view(schema@),
                dtype == sv[j as int].dtype,
                values@.len() == i,
                forall|k: int|
                    0 <= k < i ==> json_cell(member(rv[k], sv[j as int].name), dtype) == Some(
                        (#[trigger] values@[k])@,
                    ),
            decreases n - i,
        {
            let v = member_of(&rows[i], &schema[j].name);
            match json_value(v, dtype) {
                Some(a) => values.push(a),
                None => {
                    assert(json_cell(member(rv[i as int], sv[j as int].name), dtype).is_none());
                    return Err(TableError::SchemaViolation);
                },
            }
            i = i + 1;
        }
        proof {
            assert forall|k: int| 0 <= k < n implies conforms(
                #[trigger] any_cells(values@)[k],
                dtype,
            ) by {
                lemma_json_cell_conforms(member(rv[k], sv[j as int].name), dtype);
            }
            assert(any_cells(values@) =~= json_table(rv, sv)[j as int].cells);
            assert forall|k: int| 0 <= k < n implies (#[trigger] json_cell(
                member(rv[k], sv[j as int].name),
                sv[j as int].dtype,
            )).is_some() by {
                assert(json_cell(member(rv[k], sv[j as int].name), dtype) == Some(values@[k]@));
            }
        }
        match column_from_any_values(&schema[j].name, &values, dtype) {
            Ok(c) => {
                let ghost old_cols = columns@;
                columns.push(c);
                proof {
                    assert forall|m: int| 0 <= m < j + 1 implies (#[trigger] columns_view(
                        columns@,
                    )[m]) == json_table(rv, sv)[m] by {
                        if m < j {
                            assert(columns@[m] == old_cols[m]);
                            assert(columns_view(old_cols)[m] == json_table(rv, sv)[m]);
                        }
                    }
                }
            },
            Err(e) => {
                return Err(e);
            },
        }
        j = j + 1;
    }
    proof {
        assert(columns_view(columns@) =~= json_table(rv, sv));
        assert(same_height(columns_view(columns@)));
    }
    Table::new(columns)
}

/// A JSON value read as type `t` gives a cell of that type.
proof fn lemma_json_cell_conforms(v: JsonScalar, t: DataType)
    ensures
        json_cell(v, t) matches Some(c) ==> conforms(c, t),
{
}

/// Number of leading rows from which a document's schema is inferred.
pub const INFER_SCHEMA_LEN: usize = 100;

/// The schema a document is decoded with: the one inferred from its leading
/// rows, overwritten by the declared one.
pub open spec fn effective_schema(
    rows: Seq<Seq<(String, JsonScalar)>>,
    declared: Seq<FieldView>,
) -> Seq<FieldView> {
    overwritten_schema(inferred_schema(rows, INFER_SCHEMA_LEN as nat), declared)
}

/// Decodes the rows of a JSON document with a declared schema. A schema is
/// first inferred from the leading rows; the declared schema then overwrites
/// it, so every declared field becomes a column of its declared type, in
/// declared order, and members seen in the leading rows but not declared
/// follow with their inferred types.
pub fn decode_json(rows: &Vec<JsonRow>, declared: &Vec<Field>) -> (r: Result<Table, TableError>)
    ensures
        decodable(
            json_rows_view(rows@),
            effective_schema(json_rows_view(rows@), fields_view(declared@)),
        ) ==> (r matches Ok(t) && t@ == json_table(
            json_rows_view(rows@),
            effective_schema(json_rows_view(rows@), fields_view(declared@)),
        ) && t.wf()),
        !decodable(
            json_rows_view(rows@),
            effective_schema(json_rows_view(rows@), fields_view(declared@)),
        ) ==> r == Err::<Table, TableError>(TableError::SchemaViolation),
{
    let inferred = infer_schema(rows, INFER_SCHEMA_LEN);
    let schema = overwrite_schema(&inferred, declared);
    decode_json_rows(rows, &schema)
}

/// Decodes the rows of a quotes document with the quote schema.
pub fn decode_quote_json(rows: &Vec<JsonRow>) -> (r: Result<Table, TableError>)
    ensures
        decodable(
            json_rows_view(rows@),
            effective_schema(json_rows_view(rows@), quote_schema_spec()),
        ) ==> (r matches Ok(t) && t@ == json_table(
            json_rows_view(rows@),
            effective_schema(json_rows_view(rows@), quote_schema_spec()),
        ) && t.wf()),
        !decodable(
            json_rows_view(rows@),
            effective_schema(json_rows_view(rows@), quote_schema_spec()),
        ) ==> r == Err::<Table, TableError>(TableError::SchemaViolation),
{
    let schema = quote_schema();
    decode_json(rows, &schema)
}

/// The declared schema decides the declared columns of a decoded document,
/// whatever types its leading rows suggest: column `j` has the name and type
/// of declared field `j`, each of its cells fits that type, and a number read
/// into a `Float64` column is its binary64 value even when the document writes
/// it as an integer.
pub proof fn lemma_schema_precedence(
    rows: Seq<Seq<(String, JsonScalar)>>,
    declared: Seq<FieldView>,
    i: int,
    j: int,
)
    requires
        decodable(rows, effective_schema(rows, declared)),
        0 <= i < rows.len(),
        0 <= j < declared.len(),
    ensures
        json_table(rows, effective_schema(rows, declared))[j].name == declared[j].name,
        json_table(rows, effective_schema(rows, declared))[j].dtype == declared[j].dtype,
        conforms(json_table(rows, effective_schema(rows, declared))[j].cells[i], declared[j].dtype),
        declared[j].dtype == DataType::Float64 ==> match member(rows[i], declared[j].name) {
            JsonScalar::Number(n) => json_table(rows, effective_schema(rows, declared))[j].cells[i]
                == Cell::Float(n.bits),
            _ => true,
        },
{
    let eff = effective_schema(rows, declared);
    assert(eff[j] == declared[j]);
    assert(json_cell(member(rows[i], eff[j].name), eff[j].dtype).is_some());
    lemma_json_cell_conforms(member(rows[i], eff[j].name), eff[j].dtype);
}

} // verus!
