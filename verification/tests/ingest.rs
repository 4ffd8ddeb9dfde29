use market_data::api::models::{ApiResponse, HealthResponse};
use market_data::calendar::{trading_dates_in_range, TradeDate};
use market_data::database::storage::{IngestionLogInsert, IngestionStatus};
use market_data::error::{IngestFailure, ValidationError};
use market_data::ingest::{dates_to_process, ingestion_log_entry, require_records, resolve_date};
use market_data::nse::{FetchError, StockRecord};

fn date(year: i32, month: u32, day: u32) -> TradeDate {
    TradeDate::from_ymd_opt(year, month, day).unwrap()
}

#[test]
fn date_texts() {
    let saturday = date(2025, 1, 11);
    assert_eq!(resolve_date("2025-01-15", saturday), Ok(date(2025, 1, 15)));
    assert_eq!(resolve_date("today", saturday), Ok(date(2025, 1, 10)));
    assert_eq!(resolve_date("today", date(2025, 1, 15)), Ok(date(2025, 1, 15)));
    assert_eq!(resolve_date("2025-01-11", saturday), Ok(date(2025, 1, 11)));
    for bad in ["", "Today", "TODAY", "tomorrow", "2025-02-30", "15/01/2025", "2025-01", "x"] {
        assert_eq!(resolve_date(bad, saturday), Err(ValidationError::InvalidDate), "{bad}");
    }
    assert_eq!(
        ValidationError::InvalidDate.message(),
        "Invalid date: expected YYYY-MM-DD or today"
    );
}

#[test]
fn a_single_date_is_processed_as_given() {
    let today = date(2025, 1, 12);
    assert_eq!(
        dates_to_process("nse", Some("2025-01-15"), None, None, today),
        Ok(vec![date(2025, 1, 15)])
    );
    assert_eq!(
        dates_to_process("nse", Some("2025-01-11"), Some("2025-01-01"), Some("2025-01-31"), today),
        Ok(vec![date(2025, 1, 11)])
    );
    assert_eq!(
        dates_to_process("nse", Some("today"), None, None, today),
        Ok(vec![date(2025, 1, 10)])
    );
}

#[test]
fn a_range_is_processed_trading_day_by_trading_day() {
    let today = date(2025, 1, 12);
    assert_eq!(
        dates_to_process("nse", None, Some("2025-01-10"), Some("2025-01-14"), today),
        Ok(vec![date(2025, 1, 10), date(2025, 1, 13), date(2025, 1, 14)])
    );
    assert_eq!(
        dates_to_process("nse", None, Some("2025-01-06"), Some("today"), today),
        Ok(trading_dates_in_range(date(2025, 1, 6), date(2025, 1, 10)))
    );
    assert_eq!(
        dates_to_process("nse", None, Some("2025-01-14"), Some("2025-01-10"), today),
        Ok(vec![])
    );
}

#[test]
fn without_dates_the_latest_trading_day_is_processed() {
    assert_eq!(
        dates_to_process("nse", None, None, None, date(2025, 1, 12)),
        Ok(vec![date(2025, 1, 10)])
    );
    assert_eq!(
        dates_to_process("nse", None, Some("2025-01-10"), None, date(2025, 1, 15)),
        Ok(vec![date(2025, 1, 15)])
    );
    assert_eq!(
        dates_to_process("nse", None, None, Some("garbage"), date(2025, 1, 15)),
        Ok(vec![date(2025, 1, 15)])
    );
}

#[test]
fn malformed_requests_are_refused() {
    let today = date(2025, 1, 12);
    assert_eq!(
        dates_to_process("bse", Some("2025-01-15"), None, None, today),
        Err(ValidationError::UnsupportedSource)
    );
    assert_eq!(
        dates_to_process("NSE", None, None, None, today),
        Err(ValidationError::UnsupportedSource)
    );
    assert_eq!(
        dates_to_process("bse", Some("garbage"), None, None, today),
        Err(ValidationError::UnsupportedSource)
    );
    assert_eq!(
        dates_to_process("nse", Some("garbage"), None, None, today),
        Err(ValidationError::InvalidDate)
    );
    assert_eq!(
        dates_to_process("nse", None, Some("garbage"), Some("2025-01-14"), today),
        Err(ValidationError::InvalidDate)
    );
    assert_eq!(
        dates_to_process("nse", None, Some("2025-01-10"), Some("2025-13-14"), today),
        Err(ValidationError::InvalidDate)
    );
    assert_eq!(
        ValidationError::UnsupportedSource.message(),
        "Currently only 'nse' source is supported"
    );
}

#[test]
fn an_export_without_records_is_a_failure() {
    assert_eq!(require_records(&Vec::new()), Err(IngestFailure::NoValidRecords));
    let record = StockRecord {
        symbol: "A".to_string(),
        series: "EQ".to_string(),
        open: "1".to_string(),
        high: "1".to_string(),
        low: "1".to_string(),
        close: "1".to_string(),
        last: "1".to_string(),
        prevclose: "1".to_string(),
        tottrdqty: 1,
        tottrdval: "1".to_string(),
        tottrdval_unit: 1,
        timestamp: date(2025, 1, 15),
        totaltrades: 1,
        isin: String::new(),
    };
    assert_eq!(require_records(&vec![record]), Ok(()));
    assert_eq!(IngestFailure::NoValidRecords.message(), "No valid records found in CSV data");
}

#[test]
fn audit_record_of_a_successful_run() {
    let entry = ingestion_log_entry(
        date(2025, 1, 15),
        "2025-01-15 18:00:00".to_string(),
        "2025-01-15 18:00:09".to_string(),
        &Ok(1834),
    );
    assert_eq!(
        entry,
        IngestionLogInsert {
            source: "nse".to_string(),
            file_name: None,
            trade_date: Some(date(2025, 1, 15)),
            records_processed: Some(1834),
            status: IngestionStatus::Success,
            error_message: None,
            started_at: Some("2025-01-15 18:00:00".to_string()),
            completed_at: "2025-01-15 18:00:09".to_string(),
        }
    );
    let huge = ingestion_log_entry(date(2025, 1, 15), String::new(), String::new(), &Ok(usize::MAX));
    assert_eq!(huge.records_processed, Some((usize::MAX as u64).min(i64::MAX as u64) as i64));
}

#[test]
fn audit_record_of_a_failed_run() {
    let failures = [
        (
            IngestFailure::Fetch(FetchError::AllStrategiesFailed { attempted: 5 }),
            "Failed to download bhavcopy from any available source. All 5 URL strategies failed.",
        ),
        (IngestFailure::NoValidRecords, "No valid records found in CSV data"),
        (IngestFailure::Storage("database is locked".to_string()), "database is locked"),
    ];
    for (failure, message) in failures {
        assert_eq!(failure.message(), message);
        let entry = ingestion_log_entry(
            date(2025, 1, 15),
            "start".to_string(),
            "end".to_string(),
            &Err(failure),
        );
        assert_eq!(
            entry,
            IngestionLogInsert {
                source: "nse".to_string(),
                file_name: None,
                trade_date: Some(date(2025, 1, 15)),
                records_processed: Some(0),
                status: IngestionStatus::Failed,
                error_message: Some(message.to_string()),
                started_at: Some("start".to_string()),
                completed_at: "end".to_string(),
            }
        );
    }
}

#[test]
fn envelopes() {
    let ok = ApiResponse::success_at(7, "2025-01-15T18:00:00+00:00".to_string());
    assert_eq!(
        ok,
        ApiResponse {
            success: true,
            data: Some(7),
            error: None,
            timestamp: "2025-01-15T18:00:00+00:00".to_string()
        }
    );
    let failed = ApiResponse::<i32>::error_at("boom".to_string(), "t".to_string());
    assert_eq!(
        failed,
        ApiResponse {
            success: false,
            data: None,
            error: Some("boom".to_string()),
            timestamp: "t".to_string()
        }
    );

    let now = ApiResponse::success("payload");
    assert!(now.success);
    assert_eq!(now.data, Some("payload"));
    assert_eq!(now.error, None);
    assert!(chrono::DateTime::parse_from_rfc3339(&now.timestamp).is_ok());

    let failed_now = ApiResponse::<()>::error("Database error: x".to_string());
    assert!(!failed_now.success);
    assert_eq!(failed_now.data, None);
    assert_eq!(failed_now.error.as_deref(), Some("Database error: x"));
    assert!(chrono::DateTime::parse_from_rfc3339(&failed_now.timestamp).is_ok());

    assert_eq!(
        HealthResponse::report(true, "t".to_string(), "0.1.0".to_string()),
        HealthResponse {
            status: "healthy".to_string(),
            timestamp: "t".to_string(),
            database_status: "connected".to_string(),
            version: "0.1.0".to_string(),
        }
    );
    assert_eq!(
        HealthResponse::report(false, "t".to_string(), "0.1.0".to_string()).database_status,
        "disconnected"
    );
}
