use vstd::prelude::*;

use crate::table::{fields_view, Field, FieldView};
use crate::value::DataType;

verus! {

/// Number of columns of a quote table.
pub const QUOTE_COLUMNS: usize = 20;

/// Field `j` of the quote schema.
pub open spec fn quote_field(j: int) -> FieldView {
    if j == 0 {
        FieldView { name: "symbol"@, dtype: DataType::String }
    } else if j == 1 {
        FieldView { name: "instrument_token"@, dtype: DataType::UInt64 }
    } else if j == 2 {
        FieldView { name: "timestamp"@, dtype: DataType::String }
    } else if j == 3 {
        FieldView { name: "last_trade_time"@, dtype: DataType::String }
    } else if j == 4 {
        FieldView { name: "last_price"@, dtype: DataType::Float64 }
    } else if j == 5 {
        FieldView { name: "last_quantity"@, dtype: DataType::UInt64 }
    } else if j == 6 {
        FieldView { name: "buy_quantity"@, dtype: DataType::UInt64 }
    } else if j == 7 {
        FieldView { name: "sell_quantity"@, dtype: DataType::UInt64 }
    } else if j == 8 {
        FieldView { name: "volume"@, dtype: DataType::UInt64 }
    } else if j == 9 {
        FieldView { name: "average_price"@, dtype: DataType::Float64 }
    } else if j == 10 {
        FieldView { name: "oi"@, dtype: DataType::UInt64 }
    } else if j == 11 {
        FieldView { name: "oi_day_high"@, dtype: DataType::UInt64 }
    } else if j == 12 {
        FieldView { name: "oi_day_low"@, dtype: DataType::UInt64 }
    } else if j == 13 {
        FieldView { name: "net_change"@, dtype: DataType::Float64 }
    } else if j == 14 {
        FieldView { name: "lower_circuit_limit"@, dtype: DataType::Float64 }
    } else if j == 15 {
        FieldView { name: "upper_circuit_limit"@, dtype: DataType::Float64 }
    } else if j == 16 {
        FieldView { name: "open"@, dtype: DataType::Float64 }
    } else if j == 17 {
        FieldView { name: "high"@, dtype: DataType::Float64 }
    } else if j == 18 {
        FieldView { name: "low"@, dtype: DataType::Float64 }
    } else {
        FieldView { name: "close"@, dtype: DataType::Float64 }
    }
}

/// The ordered schema of a quote table.
pub open spec fn quote_schema_spec() -> Seq<FieldView> {
    Seq::new(QUOTE_COLUMNS as nat, |j: int| quote_field(j))
}

fn field(name: &str, dtype: DataType) -> (r: Field)
    ensures
        r@ == (FieldView { name: name@, dtype }),
{
    Field { name: name.to_string(), dtype }
}

/// The schema of a quote table: symbol, token, the two times, then the prices,
/// quantities and open interest, then open, high, low and close.
pub fn quote_schema() -> (r: Vec<Field>)
    ensures
        fields_view(r@) == quote_schema_spec(),
{
    let r = vec![
        field("symbol", DataType::String),
        field("instrument_token", DataType::UInt64),
        field("timestamp", DataType::String),
        field("last_trade_time", DataType::String),
        field("last_price", DataType::Float64),
        field("last_quantity", DataType::UInt64),
        field("buy_quantity", DataType::UInt64),
        field("sell_quantity", DataType::UInt64),
        field("volume", DataType::UInt64),
        field("average_price", DataType::Float64),
        field("oi", DataType::UInt64),
        field("oi_day_high", DataType::UInt64),
        field("oi_day_low", DataType::UInt64),
        field("net_change", DataType::Float64),
        field("lower_circuit_limit", DataType::Float64),
        field("upper_circuit_limit", DataType::Float64),
        field("open", DataType::Float64),
        field("high", DataType::Float64),
        field("low", DataType::Float64),
        field("close", DataType::Float64),
    ];
    assert(fields_view(r@) =~= quote_schema_spec());
    r
}

} // verus!
