//! The ingestion run, without its effects: which trading days a request
//! names, when a decoded export counts as a failure, and the audit record
//! of a run.

use vstd::prelude::*;
use vstd::string::StringExecFns;

use crate::calendar::{
    civil_dates, date_of_parts, is_valid_date, latest_trading_date_from, latest_trading_day,
    parsed_iso_date, trading_dates_in_range, trading_days, CivilDate, TradeDate,
};
use crate::database::storage::{IngestionLogInsert, IngestionLogInsertView, IngestionStatus};
use crate::error::{failure_message, IngestFailure, IngestFailureModel, ValidationError};
use crate::nse::record::StockRecord;
use crate::text::str_eq;

verus! {

/// The date that a text names: the latest trading day as of `today` for the
/// word `today`, and else the date that the text writes as `YYYY-MM-DD`.
pub open spec fn named_date(text: Seq<char>, today: CivilDate) -> Option<CivilDate> {
    if text == "today"@ {
        Some(latest_trading_day(today))
    } else {
        date_of_parts(parsed_iso_date(text))
    }
}

/// The trading days that a request names. A single date stands for
/// itself; without one, a first and a last date stand for the trading days
/// between them; and with neither, the request means the latest trading
/// day. `None` where a text names no date.
pub open spec fn requested_days(
    date: Option<Seq<char>>,
    from: Option<Seq<char>>,
    to: Option<Seq<char>>,
    today: CivilDate,
) -> Option<Seq<CivilDate>> {
    match date {
        Some(text) => match named_date(text, today) {
            Some(day) => Some(seq![day]),
            None => None,
        },
        None => if from is Some && to is Some {
            match (named_date(from->0, today), named_date(to->0, today)) {
                (Some(first), Some(last)) => Some(trading_days(first, last)),
                _ => None,
            }
        } else {
            Some(seq![latest_trading_day(today)])
        },
    }
}

/// The date that `text` names: the latest trading day as of `today` for
/// the word `today`, and else the date written as `YYYY-MM-DD`.
pub fn resolve_date(text: &str, today: TradeDate) -> (date: Result<TradeDate, ValidationError>)
    ensures
        match date {
            Ok(d) => named_date(text@, today@) == Some(d@) && is_valid_date(d@),
            Err(e) => named_date(text@, today@) is None && e == ValidationError::InvalidDate,
        },
{
    if str_eq(text, "today") {
        Ok(latest_trading_date_from(today))
    } else {
        match TradeDate::parse_iso(text) {
            Some(date) => Ok(date),
            None => Err(ValidationError::InvalidDate),
        }
    }
}

/// The trading days that a request names, in ascending order. The only
/// source is `nse`.
pub fn dates_to_process(
    source: &str,
    date: Option<&str>,
    from: Option<&str>,
    to: Option<&str>,
    today: TradeDate,
) -> (dates: Result<Vec<TradeDate>, ValidationError>)
    ensures
        match dates {
            Ok(days) => source@ == "nse"@ && requested_days(
                date.deep_view(),
                from.deep_view(),
                to.deep_view(),
                today@,
            ) == Some(civil_dates(days@)),
            Err(e) => if source@ != "nse"@ {
                e == ValidationError::UnsupportedSource
            } else {
                e == ValidationError::InvalidDate && requested_days(
                    date.deep_view(),
                    from.deep_view(),
                    to.deep_view(),
                    today@,
                ) is None
            },
        },
{
    if !str_eq(source, "nse") {
        return Err(ValidationError::UnsupportedSource);
    }
    match date {
        Some(text) => {
            match resolve_date(text, today) {
                Ok(day) => {
                    let mut days: Vec<TradeDate> = Vec::new();
                    days.push(day);
                    assert(civil_dates(days@) =~= seq![day@]);
                    Ok(days)
                },
                Err(e) => Err(e),
            }
        },
        None => {
            match (from, to) {
                (Some(first_text), Some(last_text)) => {
                    let first = match resolve_date(first_text, today) {
                        Ok(day) => day,
                        Err(e) => {
                            return Err(e);
                        },
                    };
                    let last = match resolve_date(last_text, today) {
                        Ok(day) => day,
                        Err(e) => {
                            return Err(e);
                        },
                    };
                    Ok(trading_dates_in_range(first, last))
                },
                _ => {
                    let day = latest_trading_date_from(today);
                    let mut days: Vec<TradeDate> = Vec::new();
                    days.push(day);
                    assert(civil_dates(days@) =~= seq![day@]);
                    Ok(days)
                },
            }
        },
    }
}

/// An export without a valid row counts as a failed ingestion.
pub fn require_records(records: &Vec<StockRecord>) -> (checked: Result<(), IngestFailure>)
    ensures
        match checked {
            Ok(_) => records.len() > 0,
            Err(e) => records.len() == 0 && e@ == IngestFailureModel::NoValidRecords,
        },
{
    if records.len() == 0 {
        Err(IngestFailure::NoValidRecords)
    } else {
        Ok(())
    }
}

/// The outcome of a run as the audit record counts it.
pub open spec fn counted(stored: usize) -> int {
    if stored > i64::MAX {
        i64::MAX as int
    } else {
        stored as int
    }
}

/// The audit record of the ingestion of one trading day from `nse`: with
/// the number of records stored and the status `success` after a run that
/// stored its records, and with no record counted, the status `failed`
/// and the failure's message after any other.
pub open spec fn ingestion_log(
    date: CivilDate,
    started_at: Seq<char>,
    completed_at: Seq<char>,
    outcome: Result<usize, IngestFailureModel>,
) -> IngestionLogInsertView {
    IngestionLogInsertView {
        source: "nse"@,
        file_name: None,
        trade_date: Some(date),
        records_processed: match outcome {
            Ok(stored) => Some(counted(stored)),
            Err(_) => Some(0),
        },
        status: match outcome {
            Ok(_) => IngestionStatus::Success,
            Err(_) => IngestionStatus::Failed,
        },
        error_message: match outcome {
            Ok(_) => None,
            Err(failure) => Some(failure_message(failure)),
        },
        started_at: Some(started_at),
        completed_at,
    }
}

/// The audit record of the ingestion of one trading day.
pub fn ingestion_log_entry(
    date: TradeDate,
    started_at: String,
    completed_at: String,
    outcome: &Result<usize, IngestFailure>,
) -> (entry: IngestionLogInsert)
    ensures
        entry@ == ingestion_log(
            date@,
            started_at@,
            completed_at@,
            match outcome {
                Ok(stored) => Ok(*stored),
                Err(failure) => Err(failure@),
            },
        ),
{
    let entry = match outcome {
        Ok(stored) => {
            let count: i64 = if *stored as u64 > i64::MAX as u64 {
                i64::MAX
            } else {
                *stored as i64
            };
            IngestionLogInsert {
                source: String::from_str("nse"),
                file_name: None,
                trade_date: Some(date),
                records_processed: Some(count),
                status: IngestionStatus::Success,
                error_message: None,
                started_at: Some(started_at),
                completed_at,
            }
        },
        Err(failure) => IngestionLogInsert {
            source: String::from_str("nse"),
            file_name: None,
            trade_date: Some(date),
            records_processed: Some(0),
            status: IngestionStatus::Failed,
            error_message: Some(failure.message()),
            started_at: Some(started_at),
            completed_at,
        },
    };
    entry
}

} // verus!
