use market_data::calendar::TradeDate;
use market_data::nse;
use market_data::nse::{DecodeError, StockRecord};

fn price(text: &str) -> f64 {
    text.parse::<f64>().unwrap_or(0.0)
}

fn row(fields: &[&str]) -> Vec<String> {
    fields.iter().map(|f| f.to_string()).collect()
}

#[test]
fn test_stock_record_parsing() {
    let date = TradeDate::from_ymd_opt(2025, 1, 15).unwrap();
    let csv_data = "SYMBOL,SERIES,OPEN,HIGH,LOW,CLOSE,LAST,PREVCLOSE,TOTTRDQTY,TOTTRDVAL,TIMESTAMP,TOTALTRADES,ISIN
RELIANCE,EQ,2500.00,2550.00,2480.00,2520.00,2520.00,2500.00,1000000,2520000000.00,15-JAN-2025,50000,INE002A01018";

    let records = nse::parse_csv_data(csv_data, date).unwrap();
    assert_eq!(records.len(), 1);

    let record = &records[0];
    assert_eq!(record.symbol, "RELIANCE");
    assert_eq!(record.series, "EQ");
    assert_eq!(price(&record.open), 2500.00);
    assert_eq!(price(&record.high), 2550.00);
    assert_eq!(price(&record.low), 2480.00);
    assert_eq!(price(&record.close), 2520.00);
    assert_eq!(record.isin, "INE002A01018");
}

#[test]
fn test_empty_csv_handling() {
    let date = TradeDate::from_ymd_opt(2025, 1, 15).unwrap();
    let empty_csv = "";

    let records = nse::parse_csv_data(empty_csv, date).unwrap();
    assert_eq!(records.len(), 0);
}

#[test]
fn test_invalid_csv_record_handling() {
    let date = TradeDate::from_ymd_opt(2025, 1, 15).unwrap();
    let bad_csv = "SYMBOL,SERIES
RELIANCE,EQ";

    let records = nse::parse_csv_data(bad_csv, date).unwrap();
    assert_eq!(records.len(), 0);
}

#[test]
fn legacy_row_maps_every_column() {
    let date = TradeDate::from_ymd_opt(2025, 1, 15).unwrap();
    let record = StockRecord::from_csv_record(
        &row(&[
            "RELIANCE", "EQ", "2500.00", "2550.00", "2480.00", "2520.00", "2519.50", "2495.00",
            "1000000", "2520000000.00", "15-JAN-2025", "50000", "INE002A01018",
        ]),
        date,
    )
    .unwrap();
    assert_eq!(record.symbol, "RELIANCE");
    assert_eq!(record.series, "EQ");
    assert_eq!(record.open, "2500.00");
    assert_eq!(record.high, "2550.00");
    assert_eq!(record.low, "2480.00");
    assert_eq!(record.close, "2520.00");
    assert_eq!(record.last, "2519.50");
    assert_eq!(record.prevclose, "2495.00");
    assert_eq!(record.tottrdqty, 1_000_000);
    assert_eq!(record.tottrdval, "2520000000.00");
    assert_eq!(record.tottrdval_unit, 1);
    assert_eq!(record.timestamp, date);
    assert_eq!(record.totaltrades, 50_000);
    assert_eq!(record.isin, "INE002A01018");
}

#[test]
fn modern_row_maps_every_column_and_trims() {
    let date = TradeDate::from_ymd_opt(2025, 1, 15).unwrap();
    let record = StockRecord::from_csv_record(
        &row(&[
            " RELIANCE", " EQ", " 15-Jan-2025", " 2495.00", " 2500.00", " 2550.00", " 2480.00",
            " 2519.50", " 2520.00", " 2510.10", " 1000000", " 25200.00", " 50000", " 400000",
            " 40.00",
        ]),
        date,
    )
    .unwrap();
    assert_eq!(record.symbol, "RELIANCE");
    assert_eq!(record.series, "EQ");
    assert_eq!(record.prevclose, "2495.00");
    assert_eq!(record.open, "2500.00");
    assert_eq!(record.high, "2550.00");
    assert_eq!(record.low, "2480.00");
    assert_eq!(record.last, "2519.50");
    assert_eq!(record.close, "2520.00");
    assert_eq!(record.tottrdqty, 1_000_000);
    assert_eq!(record.tottrdval, "25200.00");
    assert_eq!(record.tottrdval_unit, 100_000);
    assert_eq!(record.totaltrades, 50_000);
    assert_eq!(record.isin, "");
    assert_eq!(record.timestamp, date);
}

#[test]
fn legacy_and_modern_rows_agree() {
    let date = TradeDate::from_ymd_opt(2025, 1, 15).unwrap();
    let legacy = StockRecord::from_csv_record(
        &row(&[
            "TCS", "EQ", "4100.00", "4150.50", "4080.25", "4120.00", "4119.00", "4095.00",
            "250000", "1030000000.00", "15-JAN-2025", "12000", "INE467B01029",
        ]),
        date,
    )
    .unwrap();
    let modern = StockRecord::from_csv_record(
        &row(&[
            "TCS", " EQ", " 15-Jan-2025", " 4095.00", " 4100.00", " 4150.50", " 4080.25",
            " 4119.00", " 4120.00", " 4115.00", " 250000", " 10300.00", " 12000", " 100000",
            " 40.00",
        ]),
        date,
    )
    .unwrap();
    assert_eq!(legacy.symbol, modern.symbol);
    assert_eq!(legacy.series, modern.series);
    let tolerance = 1e-9;
    assert!((price(&legacy.open) - price(&modern.open)).abs() < tolerance);
    assert!((price(&legacy.high) - price(&modern.high)).abs() < tolerance);
    assert!((price(&legacy.low) - price(&modern.low)).abs() < tolerance);
    assert!((price(&legacy.close) - price(&modern.close)).abs() < tolerance);
    let legacy_turnover = price(&legacy.tottrdval) * legacy.tottrdval_unit as f64;
    let modern_turnover = price(&modern.tottrdval) * modern.tottrdval_unit as f64;
    assert_eq!(legacy_turnover, 1_030_000_000.0);
    assert_eq!(modern_turnover, 1_030_000_000.0);
}

#[test]
fn short_row_is_rejected_with_its_column_count() {
    let date = TradeDate::from_ymd_opt(2025, 1, 15).unwrap();
    let twelve = row(&["A", "EQ", "1", "1", "1", "1", "1", "1", "1", "1", "d", "1"]);
    assert_eq!(
        StockRecord::from_csv_record(&twelve, date).unwrap_err(),
        DecodeError::InsufficientColumns { found: 12 }
    );
    assert_eq!(
        StockRecord::from_csv_record(&row(&[]), date).unwrap_err(),
        DecodeError::InsufficientColumns { found: 0 }
    );
}

#[test]
fn fourteen_columns_are_read_as_legacy() {
    let date = TradeDate::from_ymd_opt(2025, 1, 15).unwrap();
    let record = StockRecord::from_csv_record(
        &row(&["A", "EQ", "1.5", "2", "1", "2", "2", "1", "7", "9", "d", "3", "ISIN", "extra"]),
        date,
    )
    .unwrap();
    assert_eq!(record.open, "1.5");
    assert_eq!(record.tottrdval_unit, 1);
    assert_eq!(record.isin, "ISIN");
}

#[test]
fn placeholder_and_empty_names_are_rejected() {
    let date = TradeDate::from_ymd_opt(2025, 1, 15).unwrap();
    for symbol in ["", "-"] {
        let legacy =
            row(&[symbol, "EQ", "1", "1", "1", "1", "1", "1", "1", "1", "d", "1", "ISIN"]);
        assert_eq!(
            StockRecord::from_csv_record(&legacy, date).unwrap_err(),
            DecodeError::InvalidSymbolOrSeries
        );
    }
    for symbol in ["", "-", " - ", "  "] {
        let modern = row(&[
            symbol, "EQ", "d", "1", "1", "1", "1", "1", "1", "1", "1", "1", "1", "1", "1",
        ]);
        assert_eq!(
            StockRecord::from_csv_record(&modern, date).unwrap_err(),
            DecodeError::InvalidSymbolOrSeries
        );
    }
    let no_series = row(&["A", "", "1", "1", "1", "1", "1", "1", "1", "1", "d", "1", "ISIN"]);
    assert_eq!(
        StockRecord::from_csv_record(&no_series, date).unwrap_err(),
        DecodeError::InvalidSymbolOrSeries
    );
    let blank_series =
        row(&["A", " ", "d", "1", "1", "1", "1", "1", "1", "1", "1", "1", "1", "1", "1"]);
    assert_eq!(
        StockRecord::from_csv_record(&blank_series, date).unwrap_err(),
        DecodeError::InvalidSymbolOrSeries
    );
}

#[test]
fn malformed_integers_fall_back_to_zero() {
    let date = TradeDate::from_ymd_opt(2025, 1, 15).unwrap();
    let record = StockRecord::from_csv_record(
        &row(&["A", "EQ", "1", "1", "1", "1", "1", "1", "12x", "1", "d", "", "ISIN"]),
        date,
    )
    .unwrap();
    assert_eq!(record.tottrdqty, 0);
    assert_eq!(record.totaltrades, 0);

    let wide = StockRecord::from_csv_record(
        &row(&[
            "A", "EQ", "1", "1", "1", "1", "1", "1", "9223372036854775808", "1", "d",
            "2147483648", "ISIN",
        ]),
        date,
    )
    .unwrap();
    assert_eq!(wide.tottrdqty, 0);
    assert_eq!(wide.totaltrades, 0);

    let signed = StockRecord::from_csv_record(
        &row(&[
            "A", "EQ", "1", "1", "1", "1", "1", "1", "-9223372036854775808", "1", "d", "+42",
            "ISIN",
        ]),
        date,
    )
    .unwrap();
    assert_eq!(signed.tottrdqty, i64::MIN);
    assert_eq!(signed.totaltrades, 42);

    let spaced = StockRecord::from_csv_record(
        &row(&["A", "EQ", "1", "1", "1", "1", "1", "1", " 5", "1", "d", "7 ", "ISIN"]),
        date,
    )
    .unwrap();
    assert_eq!(spaced.tottrdqty, 0);
    assert_eq!(spaced.totaltrades, 0);
}

#[test]
fn batch_skips_bad_rows_and_keeps_order() {
    let date = TradeDate::from_ymd_opt(2025, 1, 15).unwrap();
    let csv = "SYMBOL,SERIES,OPEN,HIGH,LOW,CLOSE,LAST,PREVCLOSE,TOTTRDQTY,TOTTRDVAL,TIMESTAMP,TOTALTRADES,ISIN
AAA,EQ,1,1,1,1,1,1,10,100,15-JAN-2025,1,ISIN1
-,EQ,1,1,1,1,1,1,10,100,15-JAN-2025,1,ISIN2
,EQ,1,1,1,1,1,1,10,100,15-JAN-2025,1,ISIN3
BBB,EQ,2,2,2,2,2,2,20,200,15-JAN-2025,2,ISIN4
SHORT,EQ
CCC,BE,3,3,3,3,3,3,30,300,15-JAN-2025,3,ISIN5
";
    let records = nse::parse_csv_data(csv, date).unwrap();
    let symbols: Vec<&str> = records.iter().map(|r| r.symbol.as_str()).collect();
    assert_eq!(symbols, vec!["AAA", "BBB", "CCC"]);
    assert!(records.iter().all(|r| r.timestamp == date));
    assert_eq!(records[2].series, "BE");
    assert_eq!(records[2].tottrdqty, 30);
}

#[test]
fn batch_counts_rows_and_rejections() {
    let date = TradeDate::from_ymd_opt(2025, 1, 15).unwrap();
    let good = row(&["A", "EQ", "1", "1", "1", "1", "1", "1", "1", "1", "d", "1", "ISIN"]);
    let bad = row(&["-", "EQ", "1", "1", "1", "1", "1", "1", "1", "1", "d", "1", "ISIN"]);
    let short = row(&["A", "EQ"]);
    let rows = vec![Some(good.clone()), None, Some(bad), Some(short), Some(good)];
    let report = nse::record::decode_rows_with_counts(&rows, date);
    assert_eq!(report.records.len(), 2);
    assert_eq!(report.total_processed, 5);
    assert_eq!(report.skipped_count, 2);

    let none = nse::record::decode_rows_with_counts(&Vec::new(), date);
    assert_eq!(none.records.len(), 0);
    assert_eq!(none.total_processed, 0);
    assert_eq!(none.skipped_count, 0);
}

#[test]
fn quoted_fields_are_unquoted_by_the_reader() {
    let date = TradeDate::from_ymd_opt(2025, 1, 15).unwrap();
    let csv = "SYMBOL,SERIES,OPEN,HIGH,LOW,CLOSE,LAST,PREVCLOSE,TOTTRDQTY,TOTTRDVAL,TIMESTAMP,TOTALTRADES,ISIN
\"M&M\",EQ,\"1,5\",1,1,1,1,1,10,100,15-JAN-2025,1,ISIN1
";
    let records = nse::parse_csv_data(csv, date).unwrap();
    assert_eq!(records.len(), 1);
    assert_eq!(records[0].symbol, "M&M");
    assert_eq!(records[0].open, "1,5");
}

#[test]
fn trimming_follows_unicode_white_space() {
    let date = TradeDate::from_ymd_opt(2025, 1, 15).unwrap();
    for code in 0..=0x10FFFFu32 {
        let Some(c) = char::from_u32(code) else { continue };
        let listed = matches!(
            code,
            0x09..=0x0D | 0x20 | 0x85 | 0xA0 | 0x1680 | 0x2000..=0x200A | 0x2028 | 0x2029
                | 0x202F | 0x205F | 0x3000
        );
        assert_eq!(c.is_whitespace(), listed, "U+{:04X}", code);
    }
    let padded = format!("\u{2003}\tAAA\u{00A0}\n");
    let record = StockRecord::from_csv_record(
        &row(&[&padded, "EQ", "d", "1", "1", "1", "1", "1", "1", "1", "1", "1", "1", "1", "1"]),
        date,
    )
    .unwrap();
    assert_eq!(record.symbol, "AAA");
}
