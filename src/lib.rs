//! Column-oriented tables of market quotes.
//!
//! Quotes keyed by trading symbol are turned into a table of twenty typed
//! columns by several interchangeable strategies, each proved to build the
//! same table; rows of a JSON document are decoded against a declared schema.
pub mod coerce;
pub mod infer;
pub mod json;
pub mod materialize;
pub mod quote;
pub mod schema;
mod scratch;
pub mod table;
pub mod value;

pub use coerce::{column_from_any_values, table_from_rows_and_schema};
pub use infer::{infer_schema, overwrite_schema};
pub use json::{
    decode_json, decode_json_rows, decode_quote_json, JsonNumber, JsonRow, JsonScalar,
    INFER_SCHEMA_LEN,
};
pub use materialize::{
    quote_to_polars_df_from_rows_cols, quote_to_polars_df_from_series_raghu,
    quote_to_polars_df_from_series_v0, quote_to_polars_df_from_series_v1,
    quote_to_polars_df_from_series_v2, quote_to_polars_df_from_series_v3,
};
pub use quote::{
    DateTime, Depth, Exception, OhlcInner, OrderDepth, Quote, QuoteData, Quotes, QuotesData, Status,
};
pub use schema::{quote_schema, QUOTE_COLUMNS};
pub use table::{Column, ColumnValues, Field, Table, TableError};
pub use value::{AnyValue, DataType};
