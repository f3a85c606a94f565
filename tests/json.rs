use quote_table::{
    decode_json, decode_json_rows, decode_quote_json, infer_schema, overwrite_schema, quote_schema,
    AnyValue, DataType, Field, JsonNumber, JsonRow, JsonScalar, TableError, INFER_SCHEMA_LEN,
};

fn uint(n: u64) -> JsonScalar {
    JsonScalar::Number(JsonNumber { unsigned: Some(n), bits: (n as f64).to_bits() })
}

fn float(x: f64) -> JsonScalar {
    JsonScalar::Number(JsonNumber { unsigned: None, bits: x.to_bits() })
}

fn text(s: &str) -> JsonScalar {
    JsonScalar::String(s.to_string())
}

fn quote_row(symbol: &str, open: JsonScalar) -> JsonRow {
    let mut row: JsonRow = Vec::new();
    for f in quote_schema() {
        let v = match f.name.as_str() {
            "symbol" => text(symbol),
            "instrument_token" => uint(408065),
            "timestamp" => text("2021-06-08 15:45:56"),
            "last_trade_time" => text("2021-06-08 15:45:52"),
            "open" => open.clone(),
            _ => match f.dtype {
                DataType::UInt64 => uint(5),
                _ => float(1412.95),
            },
        };
        row.push((f.name.clone(), v));
    }
    row
}

#[test]
fn declared_float_wins_over_integer_value() {
    let rows = vec![quote_row("NSE:INFY", uint(1396)), quote_row("NSE:TCS", float(3210.5))];
    let t = decode_quote_json(&rows).unwrap();
    assert_eq!(t.width(), 20);
    assert_eq!(t.height(), 2);
    let open = &t.columns()[16];
    assert_eq!(open.name, "open");
    assert_eq!(open.data_type(), DataType::Float64);
    assert_eq!(open.get(0), AnyValue::Float64(1396.0f64.to_bits()));
    assert_eq!(open.get(1), AnyValue::Float64(3210.5f64.to_bits()));
    assert_eq!(t.columns()[0].get(1), AnyValue::String("NSE:TCS".to_string()));
    assert_eq!(t.columns()[1].get(0), AnyValue::UInt64(408065));
}

#[test]
fn string_in_float_column_is_a_schema_violation() {
    let rows = vec![quote_row("NSE:INFY", text("1396.0"))];
    assert_eq!(decode_quote_json(&rows), Err(TableError::SchemaViolation));
}

#[test]
fn fractional_number_in_integer_column_is_a_schema_violation() {
    let schema = vec![Field { name: "volume".to_string(), dtype: DataType::UInt64 }];
    let rows = vec![vec![("volume".to_string(), float(2.5))]];
    assert_eq!(decode_json_rows(&rows, &schema), Err(TableError::SchemaViolation));
    let rows = vec![vec![("volume".to_string(), JsonScalar::Bool(true))]];
    assert_eq!(decode_json_rows(&rows, &schema), Err(TableError::SchemaViolation));
}

#[test]
fn missing_member_gives_absent_cell() {
    let schema = vec![
        Field { name: "symbol".to_string(), dtype: DataType::String },
        Field { name: "timestamp".to_string(), dtype: DataType::String },
    ];
    let rows = vec![
        vec![("symbol".to_string(), text("NSE:INFY"))],
        vec![("timestamp".to_string(), JsonScalar::Null), ("symbol".to_string(), text("NSE:TCS"))],
    ];
    let t = decode_json_rows(&rows, &schema).unwrap();
    assert_eq!(t.height(), 2);
    assert_eq!(t.columns()[0].get(1), AnyValue::String("NSE:TCS".to_string()));
    assert_eq!(t.columns()[1].get(0), AnyValue::Null);
    assert_eq!(t.columns()[1].get(1), AnyValue::Null);
}

#[test]
fn first_member_of_a_name_is_read() {
    let schema = vec![Field { name: "oi".to_string(), dtype: DataType::UInt64 }];
    let rows = vec![vec![("oi".to_string(), uint(3)), ("oi".to_string(), uint(4))]];
    let t = decode_json_rows(&rows, &schema).unwrap();
    assert_eq!(t.columns()[0].get(0), AnyValue::UInt64(3));
}

#[test]
fn empty_document_gives_empty_columns() {
    let t = decode_quote_json(&vec![]).unwrap();
    assert_eq!(t.width(), 20);
    assert_eq!(t.height(), 0);
}

fn field(name: &str, dtype: DataType) -> Field {
    Field { name: name.to_string(), dtype }
}

fn mixed_rows() -> Vec<JsonRow> {
    vec![
        vec![
            ("a".to_string(), text("x")),
            ("b".to_string(), JsonScalar::Null),
            ("c".to_string(), uint(3)),
        ],
        vec![
            ("b".to_string(), float(2.5)),
            ("d".to_string(), JsonScalar::Bool(true)),
            ("a".to_string(), uint(1)),
        ],
    ]
}

#[test]
fn inferred_schema_takes_first_typed_value() {
    let s = infer_schema(&mixed_rows(), 100);
    assert_eq!(
        s,
        vec![field("a", DataType::String), field("c", DataType::UInt64), field("b", DataType::Float64)]
    );
}

#[test]
fn inferred_schema_reads_only_leading_rows() {
    let s = infer_schema(&mixed_rows(), 1);
    assert_eq!(s, vec![field("a", DataType::String), field("c", DataType::UInt64)]);
    assert_eq!(infer_schema(&mixed_rows(), 0), vec![]);
}

#[test]
fn declared_schema_overwrites_inferred() {
    let inferred = vec![field("a", DataType::UInt64), field("z", DataType::Float64)];
    let declared = vec![field("a", DataType::Float64), field("b", DataType::String)];
    assert_eq!(
        overwrite_schema(&inferred, &declared),
        vec![field("a", DataType::Float64), field("b", DataType::String), field("z", DataType::Float64)]
    );
}

#[test]
fn undeclared_members_keep_inferred_type() {
    let mut row = quote_row("NSE:INFY", uint(1396));
    row.push(("exchange".to_string(), text("NSE")));
    let t = decode_quote_json(&vec![row]).unwrap();
    assert_eq!(t.width(), 21);
    let extra = &t.columns()[20];
    assert_eq!(extra.name, "exchange");
    assert_eq!(extra.data_type(), DataType::String);
    assert_eq!(extra.get(0), AnyValue::String("NSE".to_string()));
    assert_eq!(t.columns()[16].data_type(), DataType::Float64);
}

#[test]
fn members_after_the_sample_are_not_columns() {
    let declared = vec![field("volume", DataType::UInt64)];
    let mut rows: Vec<JsonRow> = Vec::new();
    for i in 0..INFER_SCHEMA_LEN as u64 {
        rows.push(vec![("volume".to_string(), uint(i))]);
    }
    rows.push(vec![("volume".to_string(), uint(7)), ("late".to_string(), text("x"))]);
    let t = decode_json(&rows, &declared).unwrap();
    assert_eq!(t.width(), 1);
    assert_eq!(t.height(), INFER_SCHEMA_LEN + 1);
    assert_eq!(t.columns()[0].get(INFER_SCHEMA_LEN), AnyValue::UInt64(7));
}

#[test]
fn integer_member_declared_float_decodes_as_float() {
    let declared = vec![field("close", DataType::Float64)];
    let rows = vec![vec![("close".to_string(), uint(1389))]];
    assert_eq!(infer_schema(&rows, 100), vec![field("close", DataType::UInt64)]);
    let t = decode_json(&rows, &declared).unwrap();
    assert_eq!(t.columns()[0].data_type(), DataType::Float64);
    assert_eq!(t.columns()[0].get(0), AnyValue::Float64(1389.0f64.to_bits()));
}
