use vstd::prelude::*;

use crate::json::{json_rows_view, JsonRow, JsonScalar};
use crate::table::{fields_view, Field, FieldView};
use crate::value::DataType;

verus! {

/// The column type that a JSON value suggests: text for a string, `UInt64` for a
/// non-negative integer, `Float64` for any other number, and none for anything else.
pub open spec fn scalar_type(v: JsonScalar) -> Option<DataType> {
    match v {
        JsonScalar::String(_) => Some(DataType::String),
        JsonScalar::Number(n) => if n.unsigned.is_some() {
            Some(DataType::UInt64)
        } else {
            Some(DataType::Float64)
        },
        _ => None,
    }
}

/// Some field of `fs` is named `name`.
pub open spec fn has_name(fs: Seq<FieldView>, name: Seq<char>) -> bool {
    exists|k: int| 0 <= k < fs.len() && (#[trigger] fs[k]).name == name
}

/// The member names and values of a row.
pub open spec fn row_members(row: Seq<(String, JsonScalar)>) -> Seq<(Seq<char>, JsonScalar)> {
    row.map_values(|p: (String, JsonScalar)| (p.0@, p.1))
}

/// The members of `rows`, row after row, each in document order.
pub open spec fn members_of(rows: Seq<Seq<(String, JsonScalar)>>) -> Seq<(Seq<char>, JsonScalar)>
    decreases rows.len(),
{
    if rows.len() == 0 {
        Seq::empty()
    } else {
        members_of(rows.drop_last()) + row_members(rows.last())
    }
}

/// The schema inferred from members: each name once, where it first has a
/// value that suggests a type, with that type.
pub open spec fn infer_members(ms: Seq<(Seq<char>, JsonScalar)>) -> Seq<FieldView>
    decreases ms.len(),
{
    if ms.len() == 0 {
        Seq::empty()
    } else {
        let prev = infer_members(ms.drop_last());
        let m = ms.last();
        match scalar_type(m.1) {
            Some(t) => if has_name(prev, m.0) {
                prev
            } else {
                prev.push(FieldView { name: m.0, dtype: t })
            },
            None => prev,
        }
    }
}

/// The schema inferred from the first `limit` rows.
pub open spec fn inferred_schema(rows: Seq<Seq<(String, JsonScalar)>>, limit: nat) -> Seq<
    FieldView,
> {
    infer_members(members_of(rows.take(if limit < rows.len() { limit as int } else { rows.len() as int })))
}

/// Whether `fs` has a field named `name`.
pub fn has_field(fs: &Vec<Field>, name: &String) -> (r: bool)
    ensures
        r == has_name(fields_view(fs@), name@),
{
    let mut k: usize = 0;
    while k < fs.len()
        invariant
            k <= fs@.len(),
            forall|m: int| 0 <= m < k ==> (#[trigger] fields_view(fs@)[m]).name != name@,
        decreases fs@.len() - k,
    {
        if fs[k].name == *name {
            assert(fields_view(fs@)[k as int].name == name@);
            return true;
        }
        k = k + 1;
    }
    false
}

proof fn lemma_members_step(
    done: Seq<(Seq<char>, JsonScalar)>,
    row: Seq<(String, JsonScalar)>,
    k: int,
)
    requires
        0 <= k < row.len(),
    ensures
        (done + row_members(row).take(k + 1)).drop_last() == done + row_members(row).take(k),
        (done + row_members(row).take(k + 1)).last() == (row[k].0@, row[k].1),
        (done + row_members(row).take(k + 1)).len() > 0,
{
    assert((done + row_members(row).take(k + 1)).drop_last() =~= done + row_members(row).take(k));
}

/// Infers a schema from the first `limit` rows: every member name seen there
/// once, in order of first appearance with a typed value, with the type that
/// value suggests. Null, boolean and compound values suggest no type.
pub fn infer_schema(rows: &Vec<JsonRow>, limit: usize) -> (r: Vec<Field>)
    ensures
        fields_view(r@) == inferred_schema(json_rows_view(rows@), limit as nat),
{
    let ghost rv = json_rows_view(rows@);
    let n = if limit < rows.len() {
        limit
    } else {
        rows.len()
    };
    let mut fields: Vec<Field> = Vec::new();
    let mut i: usize = 0;
    while i < n
        invariant
            i <= n <= rows@.len(),
            n == (if limit < rows@.len() { limit as int } else { rows@.len() as int }),
            rv == json_rows_view(rows@),
            fields_view(fields@) == infer_members(members_of(rv.take(i as int))),
        decreases n - i,
    {
        let row = &rows[i];
        let ghost done = members_of(rv.take(i as int));
        let mut k: usize = 0;
        assert(done + row_members(row@).take(0) =~= done);
        while k < row.len()
            invariant
                i < n <= rows@.len(),
                rv == json_rows_view(rows@),
                *row == rows@[i as int],
                k <= row@.len(),
                done == members_of(rv.take(i as int)),
                fields_view(fields@) == infer_members(done + row_members(row@).take(k as int)),
            decreases row@.len() - k,
        {
            proof {
                lemma_members_step(done, row@, k as int);
            }
            let name = &row[k].0;
            let t: Option<DataType> = match &row[k].1 {
                JsonScalar::String(_) => Some(DataType::String),
                JsonScalar::Number(n) => if n.unsigned.is_some() {
                    Some(DataType::UInt64)
                } else {
                    Some(DataType::Float64)
                },
                _ => None,
            };
            match t {
                Some(t) => {
                    if !has_field(&fields, name) {
                        let ghost before = fields@;
                        fields.push(Field { name: name.clone(), dtype: t });
                        assert(fields_view(fields@) =~= fields_view(before).push(
                            FieldView { name: name@, dtype: t },
                        ));
                    }
                },
                None => {},
            }
            k = k + 1;
        }
        proof {
            assert(row_members(row@).take(row@.len() as int) =~= row_members(row@));
            assert(rv.take(i + 1).drop_last() =~= rv.take(i as int));
            assert(rv.take(i + 1).last() == row@);
        }
        i = i + 1;
    }
    assert(rv.take(n as int) == rv.take(
        if limit < rv.len() { limit as int } else { rv.len() as int },
    ));
    fields
}

/// The fields of `inferred` whose names `declared` lacks, in order.
pub open spec fn undeclared(inferred: Seq<FieldView>, declared: Seq<FieldView>) -> Seq<FieldView>
    decreases inferred.len(),
{
    if inferred.len() == 0 {
        Seq::empty()
    } else {
        let prev = undeclared(inferred.drop_last(), declared);
        if has_name(declared, inferred.last().name) {
            prev
        } else {
            prev.push(inferred.last())
        }
    }
}

/// An inferred schema overwritten by a declared one: the declared fields
/// first, in declared order and with declared types, then the inferred fields
/// that the declaration does not name.
pub open spec fn overwritten_schema(inferred: Seq<FieldView>, declared: Seq<FieldView>) -> Seq<
    FieldView,
> {
    declared + undeclared(inferred, declared)
}

fn copy_field(f: &Field) -> (r: Field)
    ensures
        r@ == f@,
{
    Field { name: f.name.clone(), dtype: f.dtype }
}

/// Overwrites an inferred schema with a declared one: a declared type always
/// wins over an inferred one, and inferred fields that are not declared are kept.
pub fn overwrite_schema(inferred: &Vec<Field>, declared: &Vec<Field>) -> (r: Vec<Field>)
    ensures
        fields_view(r@) == overwritten_schema(fields_view(inferred@), fields_view(declared@)),
{
    let ghost iv = fields_view(inferred@);
    let ghost dv = fields_view(declared@);
    let mut r: Vec<Field> = Vec::with_capacity(declared.len());
    let mut k: usize = 0;
    while k < declared.len()
        invariant
            k <= declared@.len(),
            dv == fields_view(declared@),
            fields_view(r@) == dv.take(k as int),
        decreases declared@.len() - k,
    {
        let ghost before = r@;
        r.push(copy_field(&declared[k]));
        assert(fields_view(r@) =~= dv.take(k + 1)) by {
            assert(fields_view(r@) =~= fields_view(before).push(dv[k as int]));
        }
        k = k + 1;
    }
    assert(dv.take(declared@.len() as int) =~= dv);
    assert(iv.take(0) =~= Seq::<FieldView>::empty());
    assert(dv + undeclared(iv.take(0), dv) =~= dv);
    let mut k: usize = 0;
    while k < inferred.len()
        invariant
            k <= inferred@.len(),
            iv == fields_view(inferred@),
            dv == fields_view(declared@),
            fields_view(r@) == dv + undeclared(iv.take(k as int), dv),
        decreases inferred@.len() - k,
    {
        proof {
            assert(iv.take(k + 1).drop_last() =~= iv.take(k as int));
            assert(iv.take(k + 1).last() == iv[k as int]);
        }
        if !has_field(declared, &inferred[k].name) {
            let ghost before = r@;
            r.push(copy_field(&inferred[k]));
            assert(fields_view(r@) =~= fields_view(before).push(iv[k as int]));
            assert(fields_view(r@) =~= dv + undeclared(iv.take(k + 1), dv));
        } else {
            assert(fields_view(r@) =~= dv + undeclared(iv.take(k + 1), dv));
        }
        k = k + 1;
    }
    assert(iv.take(inferred@.len() as int) =~= iv);
    r
}

} // verus!
