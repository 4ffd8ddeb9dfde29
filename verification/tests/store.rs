use market_data::calendar::TradeDate;
use market_data::database::memory::{CompanyRow, MemoryStore, PriceRow};
use market_data::database::storage::{begin_store, StoreReply, StoreStep};
use market_data::nse::{self, StockRecord};

fn date(year: i32, month: u32, day: u32) -> TradeDate {
    TradeDate::from_ymd_opt(year, month, day).unwrap()
}

fn record(symbol: &str, series: &str, close: &str, day: TradeDate) -> StockRecord {
    StockRecord {
        symbol: symbol.to_string(),
        series: series.to_string(),
        open: "10.50".to_string(),
        high: "11.00".to_string(),
        low: "10.00".to_string(),
        close: close.to_string(),
        last: close.to_string(),
        prevclose: "10.25".to_string(),
        tottrdqty: 1200,
        tottrdval: "129000.00".to_string(),
        tottrdval_unit: 1,
        timestamp: day,
        totaltrades: 34,
        isin: format!("ISIN-{symbol}"),
    }
}

fn company(id: i64, symbol: &str, isin: &str, series: &str) -> CompanyRow {
    CompanyRow {
        id,
        symbol: symbol.to_string(),
        isin: isin.to_string(),
        series: series.to_string(),
    }
}

#[test]
fn new_store_is_empty() {
    let store = MemoryStore::new();
    assert!(store.companies().is_empty());
    assert!(store.prices().is_empty());
    assert_eq!(store.find_company("AAA"), None);
    assert_eq!(store.latest_trade_date(), None);
    assert_eq!(store.latest_prices(None), vec![]);
}

#[test]
fn upsert_company_twice_keeps_one_row_with_the_latest_series() {
    let mut store = MemoryStore::new();
    let other = store.upsert_company("OTHER", "I0", "EQ");
    let first = store.upsert_company("TCS", "INE467B01029", "EQ");
    let second = store.upsert_company("TCS", "INE467B01029", "BE");
    assert_eq!(other, 1);
    assert_eq!(first, 2);
    assert_eq!(second, first);
    assert_eq!(
        *store.companies(),
        vec![company(1, "OTHER", "I0", "EQ"), company(2, "TCS", "INE467B01029", "BE")]
    );
    assert_eq!(store.companies().iter().filter(|c| c.symbol == "TCS").count(), 1);
    assert_eq!(store.find_company("TCS"), Some(2));
    assert_eq!(store.find_company("tcs"), None);

    let third = store.upsert_company("TCS", "NEW-ISIN", "BZ");
    assert_eq!(third, 2);
    assert_eq!(store.companies()[1], company(2, "TCS", "NEW-ISIN", "BZ"));
    assert_eq!(store.companies().len(), 2);
}

#[test]
fn reingestion_leaves_one_price_row_with_the_second_values() {
    let day = date(2025, 1, 15);
    let mut store = MemoryStore::new();
    assert_eq!(store.store_stock_records(vec![record("TCS", "EQ", "4120.00", day)]), 1);
    assert_eq!(store.store_stock_records(vec![record("TCS", "EQ", "4133.35", day)]), 1);

    assert_eq!(store.companies().len(), 1);
    assert_eq!(
        *store.prices(),
        vec![PriceRow { company_id: 1, record: record("TCS", "EQ", "4133.35", day) }]
    );

    assert_eq!(
        store.store_stock_records(vec![
            record("TCS", "EQ", "1.00", day),
            record("TCS", "BE", "2.00", day),
            record("TCS", "BE", "3.00", date(2025, 1, 16)),
        ]),
        3
    );
    assert_eq!(store.companies().len(), 1);
    assert_eq!(store.companies()[0].series, "BE");
    assert_eq!(
        *store.prices(),
        vec![
            PriceRow { company_id: 1, record: record("TCS", "BE", "2.00", day) },
            PriceRow { company_id: 1, record: record("TCS", "BE", "3.00", date(2025, 1, 16)) },
        ]
    );
}

#[test]
fn price_rows_are_keyed_by_company_and_day() {
    let mut store = MemoryStore::new();
    let day = date(2025, 1, 15);
    let next = date(2025, 1, 16);
    store.upsert_daily_price(1, record("A", "EQ", "1.00", day));
    store.upsert_daily_price(2, record("B", "EQ", "2.00", day));
    store.upsert_daily_price(1, record("A", "EQ", "3.00", next));
    store.upsert_daily_price(2, record("B", "EQ", "4.00", day));
    assert_eq!(
        *store.prices(),
        vec![
            PriceRow { company_id: 1, record: record("A", "EQ", "1.00", day) },
            PriceRow { company_id: 2, record: record("B", "EQ", "4.00", day) },
            PriceRow { company_id: 1, record: record("A", "EQ", "3.00", next) },
        ]
    );
}

#[test]
fn batch_stores_every_record() {
    let day = date(2025, 1, 15);
    let mut store = MemoryStore::new();
    let stored = store.store_stock_records(vec![
        record("AAA", "EQ", "1.00", day),
        record("BBB", "EQ", "2.00", day),
        record("AAA", "EQ", "3.00", date(2025, 1, 14)),
    ]);
    assert_eq!(stored, 3);
    assert_eq!(store.store_stock_records(Vec::new()), 0);
    assert_eq!(
        *store.companies(),
        vec![company(1, "AAA", "ISIN-AAA", "EQ"), company(2, "BBB", "ISIN-BBB", "EQ")]
    );
    assert_eq!(store.prices().len(), 3);
    assert_eq!(store.prices()[2].company_id, 1);
}

#[test]
fn store_answers_the_statements_of_a_batch() {
    let day = date(2025, 1, 15);
    let mut store = MemoryStore::new();
    store.upsert_company("AAA", "OLD", "BE");

    let mut step = begin_store(vec![record("AAA", "EQ", "1.00", day), record("BBB", "EQ", "2.00", day)]);
    let mut replies = Vec::new();
    let stored = loop {
        match step {
            StoreStep::Execute(batch) => {
                let reply = store.answer(&batch);
                replies.push(format!("{:?}", reply));
                step = batch.on_reply(reply);
            }
            StoreStep::Finished { stored } => break stored,
            StoreStep::Aborted { error, .. } => panic!("{error}"),
        }
    };
    assert_eq!(stored, 2);
    assert_eq!(
        replies,
        vec![
            format!("{:?}", StoreReply::Company(Some(1))),
            format!("{:?}", StoreReply::Written { last_insert_rowid: 0 }),
            format!("{:?}", StoreReply::Written { last_insert_rowid: 0 }),
            format!("{:?}", StoreReply::Company(None)),
            format!("{:?}", StoreReply::Written { last_insert_rowid: 2 }),
            format!("{:?}", StoreReply::Written { last_insert_rowid: 0 }),
        ]
    );
    assert_eq!(
        *store.companies(),
        vec![company(1, "AAA", "ISIN-AAA", "EQ"), company(2, "BBB", "ISIN-BBB", "EQ")]
    );
}

#[test]
fn insert_of_a_held_symbol_fails() {
    let day = date(2025, 1, 15);
    let mut store = MemoryStore::new();
    let batch = match begin_store(vec![record("AAA", "EQ", "1.00", day)]) {
        StoreStep::Execute(batch) => batch,
        other => panic!("{:?}", other),
    };
    let batch = match batch.on_reply(StoreReply::Company(None)) {
        StoreStep::Execute(batch) => batch,
        other => panic!("{:?}", other),
    };
    store.upsert_company("AAA", "I", "EQ");
    assert_eq!(
        store.answer(&batch),
        StoreReply::Failed("UNIQUE constraint failed: companies.symbol".to_string())
    );
    assert_eq!(store.companies().len(), 1);
}

#[test]
fn latest_prices_without_a_date_are_the_rows_of_the_latest_day() {
    let mut store = MemoryStore::new();
    store.store_stock_records(vec![
        record("AAA", "EQ", "1.00", date(2025, 1, 13)),
        record("BBB", "EQ", "2.00", date(2025, 1, 13)),
        record("CCC", "EQ", "3.00", date(2025, 1, 14)),
        record("AAA", "EQ", "4.00", date(2025, 1, 15)),
        record("DDD", "EQ", "5.00", date(2024, 12, 31)),
        record("CCC", "EQ", "6.00", date(2025, 1, 15)),
        record("BBB", "EQ", "7.00", date(2025, 1, 14)),
    ]);
    assert_eq!(store.latest_trade_date(), Some(date(2025, 1, 15)));
    let rows = store.latest_prices(None);
    assert_eq!(
        rows,
        vec![
            PriceRow { company_id: 1, record: record("AAA", "EQ", "4.00", date(2025, 1, 15)) },
            PriceRow { company_id: 3, record: record("CCC", "EQ", "6.00", date(2025, 1, 15)) },
        ]
    );
    assert!(rows.iter().all(|row| row.record.timestamp == date(2025, 1, 15)));

    let earlier = store.latest_prices(Some(date(2025, 1, 13)));
    assert_eq!(earlier.len(), 2);
    assert!(earlier.iter().all(|row| row.record.timestamp == date(2025, 1, 13)));
    assert_eq!(store.latest_prices(Some(date(2025, 1, 12))), vec![]);
}

#[test]
fn decoded_export_is_stored_once_however_often_it_is_ingested() {
    let day = date(2025, 1, 15);
    let csv = "SYMBOL,SERIES,OPEN,HIGH,LOW,CLOSE,LAST,PREVCLOSE,TOTTRDQTY,TOTTRDVAL,TIMESTAMP,TOTALTRADES,ISIN
RELIANCE,EQ,2500.00,2550.00,2480.00,2520.00,2520.00,2500.00,1000000,2520000000.00,15-JAN-2025,50000,INE002A01018
TCS,EQ,4100.00,4150.50,4080.25,4120.00,4119.00,4095.00,250000,1030000000.00,15-JAN-2025,12000,INE467B01029
";
    let mut store = MemoryStore::new();
    for _ in 0..3 {
        let records = nse::parse_csv_data(csv, day).unwrap();
        assert_eq!(store.store_stock_records(records), 2);
    }
    assert_eq!(store.companies().len(), 2);
    assert_eq!(store.prices().len(), 2);
    assert_eq!(store.prices()[1].record.close, "4120.00");
    assert_eq!(store.find_company("TCS"), Some(2));
}
