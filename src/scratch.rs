use vstd::prelude::*;

use crate::quote::{record_cell, Quotes, QuotesData};
use crate::schema::quote_field;
use crate::table::{
    columns_view, float_cells, str_cells, uint_cells, Column, ColumnValues, ColumnView,
};
use crate::value::{float_cell, str_cell, uint_cell, Cell};

verus! {

fn column(name: &str, values: ColumnValues) -> (r: Column)
    ensures
        r.name@ == name@,
        r.values == values,
{
    Column { name: name.to_string(), values }
}

pub proof fn lemma_str_cells_push(v: Seq<Option<String>>, x: Option<String>)
    ensures
        str_cells(v.push(x)) == str_cells(v).push(str_cell(x)),
{
    assert(str_cells(v.push(x)) =~= str_cells(v).push(str_cell(x)));
}

pub proof fn lemma_uint_cells_push(v: Seq<Option<u64>>, x: Option<u64>)
    ensures
        uint_cells(v.push(x)) == uint_cells(v).push(uint_cell(x)),
        float_cells(v.push(x)) == float_cells(v).push(float_cell(x)),
{
    assert(uint_cells(v.push(x)) =~= uint_cells(v).push(uint_cell(x)));
    assert(float_cells(v.push(x)) =~= float_cells(v).push(float_cell(x)));
}

pub proof fn lemma_str_cells_update(v: Seq<Option<String>>, i: int, x: Option<String>)
    requires
        0 <= i < v.len(),
    ensures
        str_cells(v.update(i, x)) == str_cells(v).update(i, str_cell(x)),
{
    assert(str_cells(v.update(i, x)) =~= str_cells(v).update(i, str_cell(x)));
}

pub proof fn lemma_uint_cells_update(v: Seq<Option<u64>>, i: int, x: Option<u64>)
    requires
        0 <= i < v.len(),
    ensures
        uint_cells(v.update(i, x)) == uint_cells(v).update(i, uint_cell(x)),
        float_cells(v.update(i, x)) == float_cells(v).update(i, float_cell(x)),
{
    assert(uint_cells(v.update(i, x)) =~= uint_cells(v).update(i, uint_cell(x)));
    assert(float_cells(v.update(i, x)) =~= float_cells(v).update(i, float_cell(x)));
}

/// Natively typed scratch storage: one vector per column of the quote schema.
pub struct Scratch {
    symbols: Vec<Option<String>>,
    instrument_tokens: Vec<Option<u64>>,
    timestamps: Vec<Option<String>>,
    last_trade_times: Vec<Option<String>>,
    last_prices: Vec<Option<u64>>,
    last_quantities: Vec<Option<u64>>,
    buy_quantities: Vec<Option<u64>>,
    sell_quantities: Vec<Option<u64>>,
    volumes: Vec<Option<u64>>,
    average_prices: Vec<Option<u64>>,
    ois: Vec<Option<u64>>,
    oi_day_highs: Vec<Option<u64>>,
    oi_day_lows: Vec<Option<u64>>,
    net_changes: Vec<Option<u64>>,
    lower_circuit_limits: Vec<Option<u64>>,
    upper_circuit_limits: Vec<Option<u64>>,
    opens: Vec<Option<u64>>,
    highs: Vec<Option<u64>>,
    lows: Vec<Option<u64>>,
    closes: Vec<Option<u64>>,
}

impl Scratch {
    /// The cells of column `j` written so far.
    pub closed spec fn col(&self, j: int) -> Seq<Cell> {
        if j == 0 {
            str_cells(self.symbols@)
        } else if j == 1 {
            uint_cells(self.instrument_tokens@)
        } else if j == 2 {
            str_cells(self.timestamps@)
        } else if j == 3 {
            str_cells(self.last_trade_times@)
        } else if j == 4 {
            float_cells(self.last_prices@)
        } else if j == 5 {
            uint_cells(self.last_quantities@)
        } else if j == 6 {
            uint_cells(self.buy_quantities@)
        } else if j == 7 {
            uint_cells(self.sell_quantities@)
        } else if j == 8 {
            uint_cells(self.volumes@)
        } else if j == 9 {
            float_cells(self.average_prices@)
        } else if j == 10 {
            uint_cells(self.ois@)
        } else if j == 11 {
            uint_cells(self.oi_day_highs@)
        } else if j == 12 {
            uint_cells(self.oi_day_lows@)
        } else if j == 13 {
            float_cells(self.net_changes@)
        } else if j == 14 {
            float_cells(self.lower_circuit_limits@)
        } else if j == 15 {
            float_cells(self.upper_circuit_limits@)
        } else if j == 16 {
            float_cells(self.opens@)
        } else if j == 17 {
            float_cells(self.highs@)
        } else if j == 18 {
            float_cells(self.lows@)
        } else {
            float_cells(self.closes@)
        }
    }

    /// Row `k` of every column, for each `k < n`, holds the cells of entry `k` of `quote`.
    pub open spec fn holds(&self, quote: Quotes, n: int) -> bool {
        forall|j: int, k: int|
            0 <= j < 20 && 0 <= k < n ==> #[trigger] self.col(j)[k] == record_cell(
                quote.symbol(k),
                quote.instruments@[k].1,
                j,
            )
    }

    /// Every column holds `n` cells.
    pub open spec fn all_len(&self, n: int) -> bool {
        forall|j: int| 0 <= j < 20 ==> (#[trigger] self.col(j)).len() == n
    }

    /// Empty columns, each with room for `n` cells.
    pub fn with_capacity(n: usize) -> (r: Scratch)
        ensures
            r.all_len(0),
    {
        let r = Scratch {
            symbols: Vec::with_capacity(n),
            instrument_tokens: Vec::with_capacity(n),
            timestamps: Vec::with_capacity(n),
            last_trade_times: Vec::with_capacity(n),
            last_prices: Vec::with_capacity(n),
            last_quantities: Vec::with_capacity(n),
            buy_quantities: Vec::with_capacity(n),
            sell_quantities: Vec::with_capacity(n),
            volumes: Vec::with_capacity(n),
            average_prices: Vec::with_capacity(n),
            ois: Vec::with_capacity(n),
            oi_day_highs: Vec::with_capacity(n),
            oi_day_lows: Vec::with_capacity(n),
            net_changes: Vec::with_capacity(n),
            lower_circuit_limits: Vec::with_capacity(n),
            upper_circuit_limits: Vec::with_capacity(n),
            opens: Vec::with_capacity(n),
            highs: Vec::with_capacity(n),
            lows: Vec::with_capacity(n),
            closes: Vec::with_capacity(n),
        };
        r
    }

    /// Appends one placeholder cell (empty text or zero) to every column.
    pub fn push_placeholder(&mut self)
        requires
            old(self).col(0).len() < usize::MAX,
        ensures
            forall|j: int|
                0 <= j < 20 ==> (#[trigger] final(self).col(j)).len() == old(self).col(j).len()
                    + 1,
    {
        self.symbols.push(Some(String::new()));
        self.instrument_tokens.push(Some(0));
        self.timestamps.push(Some(String::new()));
        self.last_trade_times.push(Some(String::new()));
        self.last_prices.push(Some(0));
        self.last_quantities.push(Some(0));
        self.buy_quantities.push(Some(0));
        self.sell_quantities.push(Some(0));
        self.volumes.push(Some(0));
        self.average_prices.push(Some(0));
        self.ois.push(Some(0));
        self.oi_day_highs.push(Some(0));
        self.oi_day_lows.push(Some(0));
        self.net_changes.push(Some(0));
        self.lower_circuit_limits.push(Some(0));
        self.upper_circuit_limits.push(Some(0));
        self.opens.push(Some(0));
        self.highs.push(Some(0));
        self.lows.push(Some(0));
        self.closes.push(Some(0));
    }
    /// Appends the cells of one record to the columns.
    pub fn push_row(&mut self, symbol: &String, q: &QuotesData)
        requires
            old(self).col(0).len() < usize::MAX,
        ensures
            forall|j: int|
                0 <= j < 20 ==> (#[trigger] final(self).col(j)) == old(self).col(j).push(
                    record_cell(symbol@, *q, j),
                ),
    {
        self.symbols.push(Some(symbol.clone()));
        self.instrument_tokens.push(Some(q.instrument_token));
        self.timestamps.push(Some(q.timestamp.clone()));
        self.last_trade_times.push(Some(q.last_trade_time.clone()));
        self.last_prices.push(Some(q.last_price));
        self.last_quantities.push(Some(q.last_quantity));
        self.buy_quantities.push(Some(q.buy_quantity));
        self.sell_quantities.push(Some(q.sell_quantity));
        self.volumes.push(Some(q.volume));
        self.average_prices.push(Some(q.average_price));
        self.ois.push(Some(q.oi));
        self.oi_day_highs.push(Some(q.oi_day_high));
        self.oi_day_lows.push(Some(q.oi_day_low));
        self.net_changes.push(Some(q.net_change));
        self.lower_circuit_limits.push(Some(q.lower_circuit_limit));
        self.upper_circuit_limits.push(Some(q.upper_circuit_limit));
        self.opens.push(Some(q.ohlc.open));
        self.highs.push(Some(q.ohlc.high));
        self.lows.push(Some(q.ohlc.low));
        self.closes.push(Some(q.ohlc.close));
        proof {
            lemma_str_cells_push(old(self).symbols@, self.symbols@.last());
            lemma_uint_cells_push(old(self).instrument_tokens@, self.instrument_tokens@.last());
            lemma_str_cells_push(old(self).timestamps@, self.timestamps@.last());
            lemma_str_cells_push(old(self).last_trade_times@, self.last_trade_times@.last());
            lemma_uint_cells_push(old(self).last_prices@, self.last_prices@.last());
            lemma_uint_cells_push(old(self).last_quantities@, self.last_quantities@.last());
            lemma_uint_cells_push(old(self).buy_quantities@, self.buy_quantities@.last());
            lemma_uint_cells_push(old(self).sell_quantities@, self.sell_quantities@.last());
            lemma_uint_cells_push(old(self).volumes@, self.volumes@.last());
            lemma_uint_cells_push(old(self).average_prices@, self.average_prices@.last());
            lemma_uint_cells_push(old(self).ois@, self.ois@.last());
            lemma_uint_cells_push(old(self).oi_day_highs@, self.oi_day_highs@.last());
            lemma_uint_cells_push(old(self).oi_day_lows@, self.oi_day_lows@.last());
            lemma_uint_cells_push(old(self).net_changes@, self.net_changes@.last());
            lemma_uint_cells_push(old(self).lower_circuit_limits@, self.lower_circuit_limits@.last());
            lemma_uint_cells_push(old(self).upper_circuit_limits@, self.upper_circuit_limits@.last());
            lemma_uint_cells_push(old(self).opens@, self.opens@.last());
            lemma_uint_cells_push(old(self).highs@, self.highs@.last());
            lemma_uint_cells_push(old(self).lows@, self.lows@.last());
            lemma_uint_cells_push(old(self).closes@, self.closes@.last());
        }
    }

    /// Overwrites row `i` of every column with the cells of one record.
    pub fn set_row(&mut self, i: usize, symbol: &String, q: &QuotesData)
        requires
            old(self).all_len(old(self).col(0).len() as int),
            i < old(self).col(0).len(),
        ensures
            forall|j: int|
                0 <= j < 20 ==> (#[trigger] final(self).col(j)) == old(self).col(j).update(
                    i as int,
                    record_cell(symbol@, *q, j),
                ),
    {
        proof {
            assert(old(self).col(1).len() == old(self).col(0).len());
            assert(old(self).col(2).len() == old(self).col(0).len());
            assert(old(self).col(3).len() == old(self).col(0).len());
            assert(old(self).col(4).len() == old(self).col(0).len());
            assert(old(self).col(5).len() == old(self).col(0).len());
            assert(old(self).col(6).len() == old(self).col(0).len());
            assert(old(self).col(7).len() == old(self).col(0).len());
            assert(old(self).col(8).len() == old(self).col(0).len());
            assert(old(self).col(9).len() == old(self).col(0).len());
            assert(old(self).col(10).len() == old(self).col(0).len());
            assert(old(self).col(11).len() == old(self).col(0).len());
            assert(old(self).col(12).len() == old(self).col(0).len());
            assert(old(self).col(13).len() == old(self).col(0).len());
            assert(old(self).col(14).len() == old(self).col(0).len());
            assert(old(self).col(15).len() == old(self).col(0).len());
            assert(old(self).col(16).len() == old(self).col(0).len());
            assert(old(self).col(17).len() == old(self).col(0).len());
            assert(old(self).col(18).len() == old(self).col(0).len());
            assert(old(self).col(19).len() == old(self).col(0).len());
        }
        self.symbols[i] = Some(symbol.clone());
        self.instrument_tokens[i] = Some(q.instrument_token);
        self.timestamps[i] = Some(q.timestamp.clone());
        self.last_trade_times[i] = Some(q.last_trade_time.clone());
        self.last_prices[i] = Some(q.last_price);
        self.last_quantities[i] = Some(q.last_quantity);
        self.buy_quantities[i] = Some(q.buy_quantity);
        self.sell_quantities[i] = Some(q.sell_quantity);
        self.volumes[i] = Some(q.volume);
        self.average_prices[i] = Some(q.average_price);
        self.ois[i] = Some(q.oi);
        self.oi_day_highs[i] = Some(q.oi_day_high);
        self.oi_day_lows[i] = Some(q.oi_day_low);
        self.net_changes[i] = Some(q.net_change);
        self.lower_circuit_limits[i] = Some(q.lower_circuit_limit);
        self.upper_circuit_limits[i] = Some(q.upper_circuit_limit);
        self.opens[i] = Some(q.ohlc.open);
        self.highs[i] = Some(q.ohlc.high);
        self.lows[i] = Some(q.ohlc.low);
        self.closes[i] = Some(q.ohlc.close);
        proof {
            lemma_str_cells_update(old(self).symbols@, i as int, self.symbols@[i as int]);
            lemma_uint_cells_update(old(self).instrument_tokens@, i as int, self.instrument_tokens@[i as int]);
            lemma_str_cells_update(old(self).timestamps@, i as int, self.timestamps@[i as int]);
            lemma_str_cells_update(old(self).last_trade_times@, i as int, self.last_trade_times@[i as int]);
            lemma_uint_cells_update(old(self).last_prices@, i as int, self.last_prices@[i as int]);
            lemma_uint_cells_update(old(self).last_quantities@, i as int, self.last_quantities@[i as int]);
            lemma_uint_cells_update(old(self).buy_quantities@, i as int, self.buy_quantities@[i as int]);
            lemma_uint_cells_update(old(self).sell_quantities@, i as int, self.sell_quantities@[i as int]);
            lemma_uint_cells_update(old(self).volumes@, i as int, self.volumes@[i as int]);
            lemma_uint_cells_update(old(self).average_prices@, i as int, self.average_prices@[i as int]);
            lemma_uint_cells_update(old(self).ois@, i as int, self.ois@[i as int]);
            lemma_uint_cells_update(old(self).oi_day_highs@, i as int, self.oi_day_highs@[i as int]);
            lemma_uint_cells_update(old(self).oi_day_lows@, i as int, self.oi_day_lows@[i as int]);
            lemma_uint_cells_update(old(self).net_changes@, i as int, self.net_changes@[i as int]);
            lemma_uint_cells_update(old(self).lower_circuit_limits@, i as int, self.lower_circuit_limits@[i as int]);
            lemma_uint_cells_update(old(self).upper_circuit_limits@, i as int, self.upper_circuit_limits@[i as int]);
            lemma_uint_cells_update(old(self).opens@, i as int, self.opens@[i as int]);
            lemma_uint_cells_update(old(self).highs@, i as int, self.highs@[i as int]);
            lemma_uint_cells_update(old(self).lows@, i as int, self.lows@[i as int]);
            lemma_uint_cells_update(old(self).closes@, i as int, self.closes@[i as int]);
        }
    }

    /// Turns the scratch vectors into the typed columns of the quote schema, in schema order.
    pub fn into_columns(self) -> (r: Vec<Column>)
        ensures
            r@.len() == 20,
            columns_view(r@) == Seq::new(
                20,
                |j: int|
                    ColumnView {
                        name: quote_field(j).name,
                        dtype: quote_field(j).dtype,
                        cells: self.col(j),
                    },
            ),
    {
        let ghost s = self;
        let r = vec![
            column("symbol", ColumnValues::String(self.symbols)),
            column("instrument_token", ColumnValues::UInt64(self.instrument_tokens)),
            column("timestamp", ColumnValues::String(self.timestamps)),
            column("last_trade_time", ColumnValues::String(self.last_trade_times)),
            column("last_price", ColumnValues::Float64(self.last_prices)),
            column("last_quantity", ColumnValues::UInt64(self.last_quantities)),
            column("buy_quantity", ColumnValues::UInt64(self.buy_quantities)),
            column("sell_quantity", ColumnValues::UInt64(self.sell_quantities)),
            column("volume", ColumnValues::UInt64(self.volumes)),
            column("average_price", ColumnValues::Float64(self.average_prices)),
            column("oi", ColumnValues::UInt64(self.ois)),
            column("oi_day_high", ColumnValues::UInt64(self.oi_day_highs)),
            column("oi_day_low", ColumnValues::UInt64(self.oi_day_lows)),
            column("net_change", ColumnValues::Float64(self.net_changes)),
            column("lower_circuit_limit", ColumnValues::Float64(self.lower_circuit_limits)),
            column("upper_circuit_limit", ColumnValues::Float64(self.upper_circuit_limits)),
            column("open", ColumnValues::Float64(self.opens)),
            column("high", ColumnValues::Float64(self.highs)),
            column("low", ColumnValues::Float64(self.lows)),
            column("close", ColumnValues::Float64(self.closes)),
        ];
        assert(columns_view(r@) =~= Seq::new(
            20,
            |j: int|
                ColumnView { name: quote_field(j).name, dtype: quote_field(j).dtype, cells: s.col(j) },
        ));
        r
    }

    /// Columns of `n` placeholder cells each, ready to be written by row index.
    pub fn filled(n: usize) -> (r: Scratch)
        ensures
            r.all_len(n as int),
    {
        let mut r = Scratch::with_capacity(n);
        let mut i: usize = 0;
        while i < n
            invariant
                i <= n,
                r.all_len(i as int),
            decreases n - i,
        {
            r.push_placeholder();
            i = i + 1;
        }
        r
    }
}

} // verus!
