use vstd::prelude::*;

use crate::coerce::{
    any_cells, column_from_any_values, rows_conform, rows_fit, rows_view,
    table_from_rows_and_schema,
};
use crate::quote::{record_cell, record_row, Quotes, QuotesData};
use crate::schema::{quote_field, quote_schema, quote_schema_spec};
use crate::scratch::Scratch;
use crate::table::{
    columns_view, fields_view, height_of, rows_table, same_height, Column, ColumnValues,
    ColumnView, Table, TableError,
};
use crate::value::{conforms, AnyValue, Cell};

verus! {

/// The table that every strategy builds from `quote`: one row per entry, in
/// the order of the entries, with the columns of the quote schema.
pub open spec fn quotes_table(quote: Quotes) -> Seq<ColumnView> {
    rows_table(quote.rows(), quote_schema_spec())
}

/// Scratch columns that hold every row of `quote` make up its table.
proof fn lemma_scratch_table(s: Scratch, quote: Quotes)
    requires
        s.all_len(quote.len() as int),
        s.holds(quote, quote.len() as int),
    ensures
        Seq::new(
            20,
            |j: int|
                ColumnView { name: quote_field(j).name, dtype: quote_field(j).dtype, cells: s.col(j) },
        ) == quotes_table(quote),
{
    let n = quote.len() as int;
    assert forall|j: int| 0 <= j < 20 implies s.col(j) =~= Seq::new(
        n as nat,
        |i: int| quote.rows()[i][j],
    ) by {
        assert forall|i: int| 0 <= i < n implies s.col(j)[i] == quote.rows()[i][j] by {
            assert(s.col(j)[i] == crate::quote::record_cell(
                quote.symbol(i),
                quote.instruments@[i].1,
                j,
            ));
        }
    }
    assert(Seq::new(
        20,
        |j: int|
            ColumnView { name: quote_field(j).name, dtype: quote_field(j).dtype, cells: s.col(j) },
    ) =~= quotes_table(quote));
}

/// Builds the table from scratch columns that hold every row of `quote`.
fn finish(s: Scratch, quote: &Quotes) -> (r: Result<Table, TableError>)
    requires
        s.all_len(quote.len() as int),
        s.holds(*quote, quote.len() as int),
    ensures
        r matches Ok(t) && t@ == quotes_table(*quote) && t.wf(),
{
    let ghost g = s;
    let cols = s.into_columns();
    proof {
        lemma_scratch_table(g, *quote);
        assert(same_height(columns_view(cols@)));
    }
    Table::new(cols)
}

/// Moves `cols` over the placeholder columns of `series_buf`, position by position.
fn overwrite_columns(series_buf: &mut Vec<Column>, cols: Vec<Column>)
    requires
        old(series_buf)@.len() == cols@.len(),
    ensures
        final(series_buf)@ == cols@,
{
    let ghost orig = cols@;
    let mut cols = cols;
    let mut j: usize = cols.len();
    while j > 0
        invariant
            j == cols@.len() <= orig.len(),
            cols@ == orig.subrange(0, j as int),
            series_buf@.len() == orig.len(),
            forall|k: int| j <= k < orig.len() ==> series_buf@[k] == orig[k],
        decreases j,
    {
        j = j - 1;
        let c = cols.pop().unwrap();
        assert(cols@ =~= orig.subrange(0, j as int));
        series_buf[j] = c;
    }
    assert(series_buf@ =~= orig);
}

/// A column of `n` zeros that stands in until the real column is built.
fn placeholder_column(n: usize) -> (r: Column) {
    let mut zeros: Vec<Option<u64>> = Vec::with_capacity(n);
    let mut i: usize = 0;
    while i < n
        invariant
            i <= n,
        decreases n - i,
    {
        zeros.push(Some(0));
        i = i + 1;
    }
    Column { name: "symbol".to_string(), values: ColumnValues::UInt64(zeros) }
}

/// Twenty placeholder columns of `n` rows each.
fn placeholder_columns(n: usize) -> (r: Vec<Column>)
    ensures
        r@.len() == 20,
{
    let mut series_buf: Vec<Column> = Vec::with_capacity(20);
    let mut j: usize = 0;
    while j < 20
        invariant
            j <= 20,
            series_buf@.len() == j,
        decreases 20 - j,
    {
        series_buf.push(placeholder_column(n));
        j = j + 1;
    }
    series_buf
}

/// Direct append: one typed vector per column, sized up front; the entries are
/// walked once and each field is appended to its column.
pub fn quote_to_polars_df_from_series_raghu(quote: Quotes) -> (r: Result<Table, TableError>)
    ensures
        r matches Ok(t) && t@ == quotes_table(quote) && t.wf(),
{
    let len = quote.instruments.len();
    let mut s = Scratch::with_capacity(len);
    let mut i: usize = 0;
    while i < len
        invariant
            i <= len == quote.instruments@.len(),
            s.all_len(i as int),
            s.holds(quote, i as int),
        decreases len - i,
    {
        let entry = &quote.instruments[i];
        s.push_row(&entry.0, &entry.1);
        i = i + 1;
    }
    finish(s, &quote)
}

/// Placeholder then overwrite: twenty placeholder columns of the final length
/// are allocated first; the fields are appended to typed vectors, and each
/// placeholder column is then overwritten by its typed column.
pub fn quote_to_polars_df_from_series_v0(quote: Quotes) -> (r: Result<Table, TableError>)
    ensures
        r matches Ok(t) && t@ == quotes_table(quote) && t.wf(),
{
    let len = quote.instruments.len();
    let mut s = Scratch::with_capacity(len);
    let mut series_buf = placeholder_columns(len);
    let mut i: usize = 0;
    while i < len
        invariant
            i <= len == quote.instruments@.len(),
            s.all_len(i as int),
            s.holds(quote, i as int),
        decreases len - i,
    {
        let entry = &quote.instruments[i];
        s.push_row(&entry.0, &entry.1);
        i = i + 1;
    }
    let ghost g = s;
    let cols = s.into_columns();
    overwrite_columns(&mut series_buf, cols);
    proof {
        lemma_scratch_table(g, quote);
        assert(same_height(columns_view(series_buf@)));
    }
    Table::new(series_buf)
}

/// Indexed write: every typed vector is sized to the row count first, and the
/// fields of entry `i` are written at index `i` in one enumerated pass.
pub fn quote_to_polars_df_from_series_v1(quote: Quotes) -> (r: Result<Table, TableError>)
    ensures
        r matches Ok(t) && t@ == quotes_table(quote) && t.wf(),
{
    let len = quote.instruments.len();
    let mut s = Scratch::filled(len);
    let mut i: usize = 0;
    while i < len
        invariant
            i <= len == quote.instruments@.len(),
            s.all_len(len as int),
            s.holds(quote, i as int),
        decreases len - i,
    {
        let entry = &quote.instruments[i];
        s.set_row(i, &entry.0, &entry.1);
        i = i + 1;
    }
    finish(s, &quote)
}

/// Placeholder columns, placeholder cells, then indexed write: the typed
/// vectors are first filled with placeholder cells one by one, then written by
/// row index, and finally moved over twenty placeholder columns.
pub fn quote_to_polars_df_from_series_v3(quote: Quotes) -> (r: Result<Table, TableError>)
    ensures
        r matches Ok(t) && t@ == quotes_table(quote) && t.wf(),
{
    let len = quote.instruments.len();
    let mut s = Scratch::with_capacity(len);
    let mut series_buf = placeholder_columns(len);
    let mut i: usize = 0;
    while i < len
        invariant
            i <= len,
            s.all_len(i as int),
        decreases len - i,
    {
        s.push_placeholder();
        i = i + 1;
    }
    let mut i: usize = 0;
    while i < len
        invariant
            i <= len == quote.instruments@.len(),
            s.all_len(len as int),
            s.holds(quote, i as int),
        decreases len - i,
    {
        let entry = &quote.instruments[i];
        s.set_row(i, &entry.0, &entry.1);
        i = i + 1;
    }
    let ghost g = s;
    let cols = s.into_columns();
    overwrite_columns(&mut series_buf, cols);
    proof {
        lemma_scratch_table(g, quote);
        assert(same_height(columns_view(series_buf@)));
    }
    Table::new(series_buf)
}

/// Cell `j` of a record's row fits the type of column `j` of the quote schema.
proof fn lemma_record_conforms(symbol: Seq<char>, q: QuotesData, j: int)
    requires
        0 <= j < 20,
    ensures
        conforms(record_cell(symbol, q, j), quote_field(j).dtype),
{
}

/// The fields of one record as dynamically typed values, in schema order.
fn any_row(symbol: &String, q: &QuotesData) -> (r: Vec<AnyValue>)
    ensures
        r@.len() == 20,
        any_cells(r@) == record_row(symbol@, *q),
{
    let r = vec![
        AnyValue::String(symbol.clone()),
        AnyValue::UInt64(q.instrument_token),
        AnyValue::String(q.timestamp.clone()),
        AnyValue::String(q.last_trade_time.clone()),
        AnyValue::Float64(q.last_price),
        AnyValue::UInt64(q.last_quantity),
        AnyValue::UInt64(q.buy_quantity),
        AnyValue::UInt64(q.sell_quantity),
        AnyValue::UInt64(q.volume),
        AnyValue::Float64(q.average_price),
        AnyValue::UInt64(q.oi),
        AnyValue::UInt64(q.oi_day_high),
        AnyValue::UInt64(q.oi_day_low),
        AnyValue::Float64(q.net_change),
        AnyValue::Float64(q.lower_circuit_limit),
        AnyValue::Float64(q.upper_circuit_limit),
        AnyValue::Float64(q.ohlc.open),
        AnyValue::Float64(q.ohlc.high),
        AnyValue::Float64(q.ohlc.low),
        AnyValue::Float64(q.ohlc.close),
    ];
    assert(any_cells(r@) =~= record_row(symbol@, *q));
    r
}

/// `n` absent values.
fn null_values(n: usize) -> (r: Vec<AnyValue>)
    ensures
        r@.len() == n,
{
    let mut r: Vec<AnyValue> = Vec::with_capacity(n);
    let mut i: usize = 0;
    while i < n
        invariant
            i <= n,
            r@.len() == i,
        decreases n - i,
    {
        r.push(AnyValue::Null);
        i = i + 1;
    }
    r
}

/// Generic-value staging: every field is staged as a dynamically typed value in
/// a buffer of twenty columns of absent values, written by row index in one
/// pass; each staged column is then converted to the type that the quote
/// schema declares for it.
pub fn quote_to_polars_df_from_series_v2(quote: Quotes) -> (r: Result<Table, TableError>)
    ensures
        r matches Ok(t) && t@ == quotes_table(quote) && t.wf(),
{
    let len = quote.instruments.len();
    let schema = quote_schema();
    let mut buf: Vec<Vec<AnyValue>> = Vec::with_capacity(20);
    let mut j: usize = 0;
    while j < 20
        invariant
            j <= 20,
            buf@.len() == j,
            forall|m: int| 0 <= m < j ==> (#[trigger] buf@[m])@.len() == len,
        decreases 20 - j,
    {
        buf.push(null_values(len));
        j = j + 1;
    }
    let mut i: usize = 0;
    while i < len
        invariant
            i <= len == quote.instruments@.len(),
            buf@.len() == 20,
            forall|m: int| 0 <= m < 20 ==> (#[trigger] buf@[m])@.len() == len,
            forall|m: int, k: int|
                0 <= m < 20 && 0 <= k < i ==> (#[trigger] buf@[m]@[k])@ == record_cell(
                    quote.symbol(k),
                    quote.instruments@[k].1,
                    m,
                ),
        decreases len - i,
    {
        let entry = &quote.instruments[i];
        let mut row = any_row(&entry.0, &entry.1);
        let ghost full = row@;
        let ghost before = buf@;
        let mut j: usize = 20;
        while j > 0
            invariant
                i < len,
                j <= 20,
                row@ == full.subrange(0, j as int),
                any_cells(full) == record_row(quote.symbol(i as int), quote.instruments@[i as int].1),
                full.len() == 20,
                buf@.len() == 20,
                forall|m: int| 0 <= m < 20 ==> (#[trigger] buf@[m])@.len() == len,
                forall|m: int, k: int|
                    0 <= m < 20 && 0 <= k < len && k != i ==> (#[trigger] buf@[m]@[k])
                        == before[m]@[k],
                forall|m: int|
                    j <= m < 20 ==> (#[trigger] buf@[m]@[i as int])@ == record_cell(
                        quote.symbol(i as int),
                        quote.instruments@[i as int].1,
                        m,
                    ),
            decreases j,
        {
            j = j - 1;
            let v = row.pop().unwrap();
            assert(row@ =~= full.subrange(0, j as int));
            assert(v@ == any_cells(full)[j as int]);
            buf[j][i] = v;
        }
        i = i + 1;
    }
    let mut series_buf: Vec<Column> = Vec::with_capacity(20);
    let mut j: usize = 0;
    while j < 20
        invariant
            j <= 20,
            len == quote.instruments@.len(),
            fields_view(schema@) == quote_schema_spec(),
            buf@.len() == 20,
            forall|m: int| 0 <= m < 20 ==> (#[trigger] buf@[m])@.len() == len,
            forall|m: int, k: int|
                0 <= m < 20 && 0 <= k < len ==> (#[trigger] buf@[m]@[k])@ == record_cell(
                    quote.symbol(k),
                    quote.instruments@[k].1,
                    m,
                ),
            series_buf@.len() == j,
            forall|m: int|
                0 <= m < j ==> (#[trigger] columns_view(series_buf@)[m]) == quotes_table(quote)[m],
        decreases 20 - j,
    {
        proof {
            assert(schema@[j as int]@ == quote_field(j as int));
            assert forall|k: int| 0 <= k < len implies conforms(
                #[trigger] any_cells(buf@[j as int]@)[k],
                schema@[j as int].dtype,
            ) by {
                lemma_record_conforms(quote.symbol(k), quote.instruments@[k].1, j as int);
            }
            assert(any_cells(buf@[j as int]@) =~= quotes_table(quote)[j as int].cells);
        }
        match column_from_any_values(&schema[j].name, &buf[j], schema[j].dtype) {
            Ok(c) => {
                let ghost old_cols = series_buf@;
                series_buf.push(c);
                proof {
                    assert forall|m: int| 0 <= m < j + 1 implies (#[trigger] columns_view(
                        series_buf@,
                    )[m]) == quotes_table(quote)[m] by {
                        if m < j {
                            assert(series_buf@[m] == old_cols[m]);
                            assert(columns_view(old_cols)[m] == quotes_table(quote)[m]);
                        }
                    }
                }
            },
            Err(e) => {
                return Err(e);
            },
        }
        j = j + 1;
    }
    proof {
        assert(columns_view(series_buf@) =~= quotes_table(quote));
        assert(same_height(columns_view(series_buf@)));
    }
    Table::new(series_buf)
}

/// Row then transpose: one row of dynamically typed values per entry, in
/// schema order; the table is then built from the rows and the quote schema in
/// one transposition.
pub fn quote_to_polars_df_from_rows_cols(quote: Quotes) -> (r: Result<Table, TableError>)
    ensures
        r matches Ok(t) && t@ == quotes_table(quote) && t.wf(),
{
    let len = quote.instruments.len();
    let mut dfbuf: Vec<Vec<AnyValue>> = Vec::with_capacity(len);
    let schema = quote_schema();
    let mut i: usize = 0;
    while i < len
        invariant
            i <= len == quote.instruments@.len(),
            dfbuf@.len() == i,
            forall|k: int| 0 <= k < i ==> any_cells((#[trigger] dfbuf@[k])@) == quote.rows()[k],
        decreases len - i,
    {
        let entry = &quote.instruments[i];
        dfbuf.push(any_row(&entry.0, &entry.1));
        i = i + 1;
    }
    proof {
        assert(rows_view(dfbuf@) =~= quote.rows());
        assert forall|k: int, j: int|
            0 <= k < len && 0 <= j < 20 implies conforms(
            #[trigger] quote.rows()[k][j],
            quote_schema_spec()[j].dtype,
        ) by {
            lemma_record_conforms(quote.symbol(k), quote.instruments@[k].1, j);
        }
        assert(fields_view(schema@).len() == 20);
        assert forall|k: int| 0 <= k < len implies (#[trigger] quote.rows()[k]).len() == 20 by {}
        assert(rows_fit(rows_view(dfbuf@), schema@.len()));
        assert(rows_conform(rows_view(dfbuf@), fields_view(schema@)));
    }
    table_from_rows_and_schema(&dfbuf, &schema)
}

/// The rows of a table: row `i` holds cell `i` of every column, in column order.
pub open spec fn table_rows(t: Seq<ColumnView>) -> Seq<Seq<Cell>> {
    Seq::new(height_of(t), |i: int| Seq::new(t.len(), |j: int| t[j].cells[i]))
}

/// Reading the table of `quote` back row by row gives the rows of its entries.
pub proof fn lemma_table_rows(quote: Quotes)
    ensures
        table_rows(quotes_table(quote)) == quote.rows(),
{
    let t = quotes_table(quote);
    assert forall|i: int| 0 <= i < quote.len() implies (#[trigger] table_rows(t)[i]) == quote.rows()[i] by {
        assert(table_rows(t)[i] =~= quote.rows()[i]);
    }
    assert(table_rows(t) =~= quote.rows());
}

/// The table of `quote` has the twenty columns of the quote schema, all as long
/// as the mapping has entries; with no entries it has twenty empty columns.
pub proof fn lemma_row_count(quote: Quotes)
    ensures
        quotes_table(quote).len() == 20,
        forall|j: int| 0 <= j < 20 ==> (#[trigger] quotes_table(quote)[j]).name == quote_field(j).name
            && quotes_table(quote)[j].dtype == quote_field(j).dtype,
        same_height(quotes_table(quote)),
        height_of(quotes_table(quote)) == quote.len(),
{
}

/// Row `i` of the table of `quote` is made of entry `i` alone: its symbol
/// cell is the entry's key, and the other nineteen cells are the fields of the
/// record stored under that key.
pub proof fn lemma_column_alignment(quote: Quotes, i: int)
    requires
        0 <= i < quote.len(),
    ensures
        quotes_table(quote)[0].name == "symbol"@,
        quotes_table(quote)[0].cells[i] == Cell::Str(quote.symbol(i)),
        table_rows(quotes_table(quote))[i] == record_row(quote.symbol(i), quote.instruments@[i].1),
        forall|j: int|
            0 <= j < 20 ==> (#[trigger] quotes_table(quote)[j].cells[i]) == record_cell(
                quote.symbol(i),
                quote.instruments@[i].1,
                j,
            ),
{
    lemma_table_rows(quote);
}

/// Any two tables that strategies built from the same quotes agree in column
/// names and types, in row count, and in their rows counted with multiplicity;
/// those rows are the rows of the entries.
pub proof fn lemma_strategies_agree(quote: Quotes, a: Table, b: Table)
    requires
        a@ == quotes_table(quote),
        b@ == quotes_table(quote),
    ensures
        a@.len() == b@.len(),
        forall|j: int|
            0 <= j < a@.len() ==> (#[trigger] a@[j]).name == b@[j].name && a@[j].dtype
                == b@[j].dtype,
        height_of(a@) == height_of(b@),
        table_rows(a@).to_multiset() == table_rows(b@).to_multiset(),
        table_rows(a@).to_multiset() == quote.rows().to_multiset(),
{
    lemma_table_rows(quote);
}

} // verus!
