use quote_table::{
    column_from_any_values, quote_schema, quote_to_polars_df_from_rows_cols,
    quote_to_polars_df_from_series_raghu, quote_to_polars_df_from_series_v0,
    quote_to_polars_df_from_series_v1, quote_to_polars_df_from_series_v2,
    quote_to_polars_df_from_series_v3, table_from_rows_and_schema, AnyValue, Column, ColumnValues,
    DataType, Depth, OhlcInner, OrderDepth, Quotes, QuotesData, Table, TableError,
};

fn infy() -> QuotesData {
    QuotesData {
        instrument_token: 408065,
        timestamp: "2021-06-08 15:45:56".to_string(),
        last_trade_time: "2021-06-08 15:45:52".to_string(),
        last_price: 1412.95f64.to_bits(),
        last_quantity: 5,
        buy_quantity: 0,
        sell_quantity: 5191,
        volume: 7360198,
        average_price: 1412.47f64.to_bits(),
        oi: 0,
        oi_day_high: 0,
        oi_day_low: 0,
        net_change: 0.0f64.to_bits(),
        lower_circuit_limit: 1250.7f64.to_bits(),
        upper_circuit_limit: 1528.6f64.to_bits(),
        ohlc: OhlcInner {
            open: 1396.0f64.to_bits(),
            high: 1421.75f64.to_bits(),
            low: 1395.55f64.to_bits(),
            close: 1389.65f64.to_bits(),
        },
        depth: Depth {
            buy: vec![OrderDepth { price: 0.0f64.to_bits(), quantity: 0, orders: 0 }; 5],
            sell: vec![
                OrderDepth { price: 1412.95f64.to_bits(), quantity: 5191, orders: 13 },
                OrderDepth { price: 0.0f64.to_bits(), quantity: 0, orders: 0 },
            ],
        },
    }
}

fn other(token: u64, price: f64) -> QuotesData {
    QuotesData {
        instrument_token: token,
        timestamp: "2021-06-08 15:45:56".to_string(),
        last_trade_time: "2021-06-08 15:45:50".to_string(),
        last_price: price.to_bits(),
        last_quantity: token % 7,
        buy_quantity: token + 1,
        sell_quantity: token + 2,
        volume: token * 3,
        average_price: (price - 1.5).to_bits(),
        oi: 11,
        oi_day_high: 12,
        oi_day_low: 10,
        net_change: (-0.25f64).to_bits(),
        lower_circuit_limit: (price * 0.9).to_bits(),
        upper_circuit_limit: (price * 1.1).to_bits(),
        ohlc: OhlcInner {
            open: (price + 1.0).to_bits(),
            high: (price + 2.0).to_bits(),
            low: (price - 2.0).to_bits(),
            close: (price - 1.0).to_bits(),
        },
        depth: Depth::default(),
    }
}

fn all_strategies(q: &Quotes) -> Vec<Table> {
    vec![
        quote_to_polars_df_from_series_raghu(q.clone()).unwrap(),
        quote_to_polars_df_from_series_v0(q.clone()).unwrap(),
        quote_to_polars_df_from_series_v1(q.clone()).unwrap(),
        quote_to_polars_df_from_series_v2(q.clone()).unwrap(),
        quote_to_polars_df_from_series_v3(q.clone()).unwrap(),
        quote_to_polars_df_from_rows_cols(q.clone()).unwrap(),
    ]
}

fn column<'a>(t: &'a Table, name: &str) -> &'a Column {
    t.columns().iter().find(|c| c.name == name).unwrap()
}

fn three() -> Quotes {
    Quotes {
        instruments: vec![
            ("NSE:INFY".to_string(), infy()),
            ("NSE:TCS".to_string(), other(2953217, 3210.5)),
            ("BSE:SBIN".to_string(), other(779521, 420.05)),
        ],
    }
}

#[test]
fn infy_scenario_every_strategy() {
    let q = Quotes { instruments: vec![("NSE:INFY".to_string(), infy())] };
    for t in all_strategies(&q) {
        assert_eq!(t.width(), 20);
        assert_eq!(t.height(), 1);
        assert_eq!(column(&t, "symbol").get(0), AnyValue::String("NSE:INFY".to_string()));
        assert_eq!(column(&t, "instrument_token").get(0), AnyValue::UInt64(408065));
        match column(&t, "open").get(0) {
            AnyValue::Float64(b) => assert_eq!(f64::from_bits(b), 1396.0),
            v => panic!("unexpected open cell {:?}", v),
        }
        match column(&t, "last_price").get(0) {
            AnyValue::Float64(b) => assert_eq!(f64::from_bits(b), 1412.95),
            v => panic!("unexpected last_price cell {:?}", v),
        }
        assert_eq!(column(&t, "volume").get(0), AnyValue::UInt64(7360198));
        assert_eq!(
            column(&t, "timestamp").get(0),
            AnyValue::String("2021-06-08 15:45:56".to_string())
        );
    }
}

#[test]
fn strategies_build_equal_tables() {
    let q = three();
    let tables = all_strategies(&q);
    for t in &tables[1..] {
        assert_eq!(t, &tables[0]);
    }
}

#[test]
fn strategies_agree_on_sorted_rows() {
    let mut q = three();
    let a = quote_to_polars_df_from_series_v2(q.clone()).unwrap();
    q.instruments.reverse();
    let b = quote_to_polars_df_from_rows_cols(q.clone()).unwrap();
    let rows = |t: &Table| {
        let mut rows: Vec<Vec<AnyValue>> = (0..t.height())
            .map(|i| t.columns().iter().map(|c| c.get(i)).collect())
            .collect();
        rows.sort_by_key(|r| format!("{:?}", r[0]));
        rows
    };
    assert_eq!(rows(&a), rows(&b));
}

#[test]
fn schema_columns_in_order() {
    let names: Vec<String> = quote_schema().into_iter().map(|f| f.name).collect();
    assert_eq!(names.len(), 20);
    assert_eq!(names[0], "symbol");
    assert_eq!(names[1], "instrument_token");
    assert_eq!(names[5], "last_quantity");
    assert_eq!(names[16], "open");
    assert_eq!(names[19], "close");
    let t = quote_to_polars_df_from_series_raghu(three()).unwrap();
    for (c, f) in t.columns().iter().zip(quote_schema()) {
        assert_eq!(c.name, f.name);
        assert_eq!(c.data_type(), f.dtype);
    }
}

#[test]
fn rows_stay_aligned_with_their_symbol() {
    let q = three();
    for t in all_strategies(&q) {
        for i in 0..t.height() {
            let symbol = match column(&t, "symbol").get(i) {
                AnyValue::String(s) => s,
                v => panic!("unexpected symbol cell {:?}", v),
            };
            let data = &q.instruments.iter().find(|e| e.0 == symbol).unwrap().1;
            assert_eq!(column(&t, "instrument_token").get(i), AnyValue::UInt64(data.instrument_token));
            assert_eq!(column(&t, "buy_quantity").get(i), AnyValue::UInt64(data.buy_quantity));
            assert_eq!(column(&t, "close").get(i), AnyValue::Float64(data.ohlc.close));
            assert_eq!(column(&t, "net_change").get(i), AnyValue::Float64(data.net_change));
        }
    }
}

#[test]
fn row_count_matches_mapping_size() {
    for t in all_strategies(&three()) {
        assert_eq!(t.height(), 3);
        assert!(t.columns().iter().all(|c| c.len() == 3));
    }
}

#[test]
fn empty_mapping_gives_empty_table() {
    let q = Quotes { instruments: vec![] };
    for t in all_strategies(&q) {
        assert_eq!(t.width(), 20);
        assert_eq!(t.height(), 0);
        assert!(t.columns().iter().all(|c| c.len() == 0));
    }
}

#[test]
fn staging_rejects_mismatched_cell() {
    let values = vec![AnyValue::UInt64(1), AnyValue::String("x".to_string()), AnyValue::Null];
    let r = column_from_any_values(&"volume".to_string(), &values, DataType::UInt64);
    assert_eq!(r, Err(TableError::TypeMismatch));
    let floats = vec![AnyValue::Float64(2.5f64.to_bits()), AnyValue::UInt64(3)];
    let r = column_from_any_values(&"open".to_string(), &floats, DataType::Float64);
    assert_eq!(r, Err(TableError::TypeMismatch));
}

#[test]
fn staging_keeps_nulls_and_values() {
    let values = vec![AnyValue::UInt64(1), AnyValue::Null, AnyValue::UInt64(7)];
    let c = column_from_any_values(&"oi".to_string(), &values, DataType::UInt64).unwrap();
    assert_eq!(c.name, "oi");
    assert_eq!(c.values, ColumnValues::UInt64(vec![Some(1), None, Some(7)]));
}

#[test]
fn rows_with_wrong_type_give_type_mismatch() {
    let schema = quote_schema();
    let mut row: Vec<AnyValue> = Vec::new();
    for f in &schema {
        row.push(match f.dtype {
            DataType::String => AnyValue::String("a".to_string()),
            DataType::UInt64 => AnyValue::UInt64(1),
            DataType::Float64 => AnyValue::Float64(1.0f64.to_bits()),
        });
    }
    let good = table_from_rows_and_schema(&vec![row.clone(), row.clone()], &schema).unwrap();
    assert_eq!(good.height(), 2);
    let mut bad = row.clone();
    bad[1] = AnyValue::String("408065".to_string());
    assert_eq!(
        table_from_rows_and_schema(&vec![row.clone(), bad], &schema),
        Err(TableError::TypeMismatch)
    );
    let mut short = row.clone();
    short.pop();
    assert_eq!(
        table_from_rows_and_schema(&vec![row, short], &schema),
        Err(TableError::ColumnLengthMismatch)
    );
}

#[test]
fn columns_of_unequal_length_are_refused() {
    let a = Column { name: "a".to_string(), values: ColumnValues::UInt64(vec![Some(1), Some(2)]) };
    let b = Column { name: "b".to_string(), values: ColumnValues::String(vec![None]) };
    assert_eq!(Table::new(vec![a.clone(), b]), Err(TableError::ColumnLengthMismatch));
    let t = Table::new(vec![a]).unwrap();
    assert_eq!(t.height(), 2);
    assert_eq!(t.width(), 1);
}

#[test]
fn insert_replaces_data_under_same_symbol() {
    let mut q = Quotes::new();
    q.insert("NSE:INFY".to_string(), other(1, 10.0));
    q.insert("NSE:TCS".to_string(), other(2, 20.0));
    q.insert("NSE:INFY".to_string(), infy());
    assert_eq!(q.instruments.len(), 2);
    assert_eq!(q.instruments[0].0, "NSE:INFY");
    assert_eq!(q.instruments[0].1, infy());
    assert_eq!(q.instruments[1].1.instrument_token, 2);
    let t = quote_to_polars_df_from_series_v1(q).unwrap();
    assert_eq!(t.height(), 2);
    assert_eq!(column(&t, "instrument_token").get(0), AnyValue::UInt64(408065));
}
