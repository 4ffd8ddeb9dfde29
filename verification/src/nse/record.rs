//! The bhavcopy decoder: from the rows of a CSV export to normalized stock
//! records. Two column layouts are known and told apart by column count.
//!
//! Prices and turnover stay decimal text, as the export wrote them; the
//! record says in which unit the turnover counts.

use vstd::prelude::*;
use vstd::string::StringExecFns;

use crate::calendar::{CivilDate, TradeDate};
use crate::text::{parse_i32, parse_i64, parse_integer, str_eq, trim, trimmed};

verus! {

/// Column count from which a row is read in the modern layout.
pub const MODERN_COLUMNS: usize = 15;

/// Column count from which a row is read in the legacy layout.
pub const LEGACY_COLUMNS: usize = 13;

/// Currency units in one lakh, the unit of the modern layout's turnover.
pub const LAKH: u32 = 100000;

/// One security's trading summary for one day.
#[derive(Debug, PartialEq, Eq)]
pub struct StockRecord {
    pub symbol: String,
    pub series: String,
    /// Opening price, as decimal text.
    pub open: String,
    /// Highest price, as decimal text.
    pub high: String,
    /// Lowest price, as decimal text.
    pub low: String,
    /// Closing price, as decimal text.
    pub close: String,
    /// Last traded price, as decimal text.
    pub last: String,
    /// Previous day's closing price, as decimal text.
    pub prevclose: String,
    /// Traded quantity.
    pub tottrdqty: i64,
    /// Turnover as decimal text, counted in units of `tottrdval_unit`.
    pub tottrdval: String,
    /// Currency units that one unit of `tottrdval` stands for.
    pub tottrdval_unit: u32,
    /// The trading day the caller supplied.
    pub timestamp: TradeDate,
    /// Number of trades.
    pub totaltrades: i32,
    /// Security identifier; empty where the layout has none.
    pub isin: String,
}

/// A stock record as mathematics sees it.
pub struct StockRecordView {
    pub symbol: Seq<char>,
    pub series: Seq<char>,
    pub open: Seq<char>,
    pub high: Seq<char>,
    pub low: Seq<char>,
    pub close: Seq<char>,
    pub last: Seq<char>,
    pub prevclose: Seq<char>,
    pub tottrdqty: int,
    pub tottrdval: Seq<char>,
    pub tottrdval_unit: int,
    pub timestamp: CivilDate,
    pub totaltrades: int,
    pub isin: Seq<char>,
}

impl View for StockRecord {
    type V = StockRecordView;

    open spec fn view(&self) -> StockRecordView {
        StockRecordView {
            symbol: self.symbol@,
            series: self.series@,
            open: self.open@,
            high: self.high@,
            low: self.low@,
            close: self.close@,
            last: self.last@,
            prevclose: self.prevclose@,
            tottrdqty: self.tottrdqty as int,
            tottrdval: self.tottrdval@,
            tottrdval_unit: self.tottrdval_unit as int,
            timestamp: self.timestamp@,
            totaltrades: self.totaltrades as int,
            isin: self.isin@,
        }
    }
}

impl Clone for StockRecord {
    fn clone(&self) -> (copy: Self)
        ensures
            copy@ == self@,
    {
        StockRecord {
            symbol: self.symbol.clone(),
            series: self.series.clone(),
            open: self.open.clone(),
            high: self.high.clone(),
            low: self.low.clone(),
            close: self.close.clone(),
            last: self.last.clone(),
            prevclose: self.prevclose.clone(),
            tottrdqty: self.tottrdqty,
            tottrdval: self.tottrdval.clone(),
            tottrdval_unit: self.tottrdval_unit,
            timestamp: self.timestamp,
            totaltrades: self.totaltrades,
            isin: self.isin.clone(),
        }
    }
}

impl DeepView for StockRecord {
    type V = StockRecordView;

    open spec fn deep_view(&self) -> StockRecordView {
        self@
    }
}

/// Why a row gives no record.
#[derive(Debug, Clone, Copy, PartialEq, Eq, Structural)]
pub enum DecodeError {
    /// The row has fewer columns than the shorter layout.
    InsufficientColumns { found: usize },
    /// The symbol is empty or the placeholder `-`, or the series is empty.
    InvalidSymbolOrSeries,
}

/// The integer that `text` writes within `min ..= max`, and zero for any
/// other text.
pub open spec fn integer_or_zero(text: Seq<char>, min: int, max: int) -> int {
    match parse_integer(text, min, max) {
        Some(v) => v,
        None => 0,
    }
}

/// Whether a symbol and a series may stand in a record: both non-empty, and
/// the symbol not the placeholder `-`.
pub open spec fn names_accepted(symbol: Seq<char>, series: Seq<char>) -> bool {
    symbol.len() > 0 && symbol != seq!['-'] && series.len() > 0
}

/// The record of a row in the modern layout: symbol, series, date,
/// previous close, open, high, low, last, close, average, quantity,
/// turnover in lakhs, trade count, delivery figures. Every field is trimmed;
/// the layout has no security identifier.
pub open spec fn decode_modern(fields: Seq<Seq<char>>, date: CivilDate) -> Result<
    StockRecordView,
    DecodeError,
> {
    let symbol = trimmed(fields[0]);
    let series = trimmed(fields[1]);
    if names_accepted(symbol, series) {
        Ok(
            StockRecordView {
                symbol,
                series,
                open: trimmed(fields[4]),
                high: trimmed(fields[5]),
                low: trimmed(fields[6]),
                close: trimmed(fields[8]),
                last: trimmed(fields[7]),
                prevclose: trimmed(fields[3]),
                tottrdqty: integer_or_zero(trimmed(fields[10]), i64::MIN as int, i64::MAX as int),
                tottrdval: trimmed(fields[11]),
                tottrdval_unit: LAKH as int,
                timestamp: date,
                totaltrades: integer_or_zero(
                    trimmed(fields[12]),
                    i32::MIN as int,
                    i32::MAX as int,
                ),
                isin: Seq::empty(),
            },
        )
    } else {
        Err(DecodeError::InvalidSymbolOrSeries)
    }
}

/// The record of a row in the legacy layout: symbol, series, open, high,
/// low, close, last, previous close, quantity, turnover, date, trade count,
/// security identifier. Fields are taken as they stand.
pub open spec fn decode_legacy(fields: Seq<Seq<char>>, date: CivilDate) -> Result<
    StockRecordView,
    DecodeError,
> {
    if names_accepted(fields[0], fields[1]) {
        Ok(
            StockRecordView {
                symbol: fields[0],
                series: fields[1],
                open: fields[2],
                high: fields[3],
                low: fields[4],
                close: fields[5],
                last: fields[6],
                prevclose: fields[7],
                tottrdqty: integer_or_zero(fields[8], i64::MIN as int, i64::MAX as int),
                tottrdval: fields[9],
                tottrdval_unit: 1,
                timestamp: date,
                totaltrades: integer_or_zero(fields[11], i32::MIN as int, i32::MAX as int),
                isin: fields[12],
            },
        )
    } else {
        Err(DecodeError::InvalidSymbolOrSeries)
    }
}

/// The record of one row: the modern layout from [`MODERN_COLUMNS`] columns
/// on, the legacy layout from [`LEGACY_COLUMNS`] on, and no record below.
pub open spec fn decode_row(fields: Seq<Seq<char>>, date: CivilDate) -> Result<
    StockRecordView,
    DecodeError,
> {
    if fields.len() >= MODERN_COLUMNS {
        decode_modern(fields, date)
    } else if fields.len() >= LEGACY_COLUMNS {
        decode_legacy(fields, date)
    } else {
        Err(DecodeError::InsufficientColumns { found: fields.len() as usize })
    }
}

/// The records of a sequence of rows, in row order. A row that could not
/// be tokenized (`None`) and a row that [`decode_row`] rejects give none.
pub open spec fn decode_rows(rows: Seq<Option<Seq<Seq<char>>>>, date: CivilDate) -> Seq<
    StockRecordView,
>
    decreases rows.len(),
{
    if rows.len() == 0 {
        Seq::empty()
    } else {
        let before = decode_rows(rows.drop_last(), date);
        match rows.last() {
            Some(fields) => match decode_row(fields, date) {
                Ok(record) => before.push(record),
                Err(_) => before,
            },
            None => before,
        }
    }
}

/// Number of tokenized rows that [`decode_row`] rejects.
pub open spec fn rejected_rows(rows: Seq<Option<Seq<Seq<char>>>>, date: CivilDate) -> nat
    decreases rows.len(),
{
    if rows.len() == 0 {
        0
    } else {
        let before = rejected_rows(rows.drop_last(), date);
        match rows.last() {
            Some(fields) => match decode_row(fields, date) {
                Ok(_) => before,
                Err(_) => before + 1,
            },
            None => before,
        }
    }
}

/// The data rows that the csv reader finds in a text whose first row is a
/// header: for each row its fields, or `None` where the reader reports the
/// row as an error.
pub uninterp spec fn csv_rows(content: Seq<char>) -> Seq<Option<Seq<Seq<char>>>>;

/// Trusted: `csv::Reader::from_reader` and `Reader::records` of the csv
/// crate, with the reader's defaults. The contract names the outcome, and
/// says of it only that an empty text has no row.
#[verifier::external_body]
fn read_csv_rows(content: &str) -> (rows: Vec<Option<Vec<String>>>)
    ensures
        rows.deep_view() == csv_rows(content@),
        content@.len() == 0 ==> rows.len() == 0,
{
    let mut reader = csv::Reader::from_reader(std::io::Cursor::new(content));
    reader.records().map(|row| row.ok().map(|r| r.iter().map(String::from).collect())).collect()
}

/// The trimmed copy of a field.
fn trimmed_field(field: &String) -> (text: String)
    ensures
        text@ == trimmed(field@),
{
    String::from_str(trim(field.as_str()))
}

/// The integer a field writes, or zero.
fn quantity_or_zero(field: &str) -> (value: i64)
    ensures
        value == integer_or_zero(field@, i64::MIN as int, i64::MAX as int),
{
    match parse_i64(field) {
        Some(v) => v,
        None => 0,
    }
}

/// The integer a field writes, or zero.
fn count_or_zero(field: &str) -> (value: i32)
    ensures
        value == integer_or_zero(field@, i32::MIN as int, i32::MAX as int),
{
    match parse_i32(field) {
        Some(v) => v,
        None => 0,
    }
}

/// Whether a symbol and a series may stand in a record.
fn check_names(symbol: &str, series: &str) -> (accepted: bool)
    ensures
        accepted == names_accepted(symbol@, series@),
{
    proof {
        reveal_strlit("-");
        assert("-"@ =~= seq!['-']);
    }
    !symbol.is_empty() && !str_eq(symbol, "-") && !series.is_empty()
}

impl StockRecord {
    /// Decodes one row for the trading day `date`. The layout follows from
    /// the number of columns; the date columns of the row are not read.
    pub fn from_csv_record(record: &Vec<String>, date: TradeDate) -> (decoded: Result<
        StockRecord,
        DecodeError,
    >)
        ensures
            match decoded {
                Ok(r) => decode_row(record.deep_view(), date@) == Ok::<
                    StockRecordView,
                    DecodeError,
                >(r@),
                Err(e) => decode_row(record.deep_view(), date@) == Err::<
                    StockRecordView,
                    DecodeError,
                >(e),
            },
    {
        if record.len() >= MODERN_COLUMNS {
            Self::from_new_csv_format(record, date)
        } else if record.len() >= LEGACY_COLUMNS {
            Self::from_old_csv_format(record, date)
        } else {
            Err(DecodeError::InsufficientColumns { found: record.len() })
        }
    }

    /// Decodes a row of the modern layout.
    fn from_new_csv_format(record: &Vec<String>, date: TradeDate) -> (decoded: Result<
        StockRecord,
        DecodeError,
    >)
        requires
            record.len() >= LEGACY_COLUMNS,
        ensures
            match decoded {
                Ok(r) => decode_modern(record.deep_view(), date@) == Ok::<
                    StockRecordView,
                    DecodeError,
                >(r@),
                Err(e) => decode_modern(record.deep_view(), date@) == Err::<
                    StockRecordView,
                    DecodeError,
                >(e),
            },
    {
        let symbol = trimmed_field(&record[0]);
        let series = trimmed_field(&record[1]);
        if !check_names(symbol.as_str(), series.as_str()) {
            return Err(DecodeError::InvalidSymbolOrSeries);
        }
        let quantity = trimmed_field(&record[10]);
        let trades = trimmed_field(&record[12]);
        let decoded = StockRecord {
            symbol,
            series,
            open: trimmed_field(&record[4]),
            high: trimmed_field(&record[5]),
            low: trimmed_field(&record[6]),
            close: trimmed_field(&record[8]),
            last: trimmed_field(&record[7]),
            prevclose: trimmed_field(&record[3]),
            tottrdqty: quantity_or_zero(quantity.as_str()),
            tottrdval: trimmed_field(&record[11]),
            tottrdval_unit: LAKH,
            timestamp: date,
            totaltrades: count_or_zero(trades.as_str()),
            isin: String::new(),
        };
        assert(decoded@.isin =~= Seq::<char>::empty());
        Ok(decoded)
    }

    /// Decodes a row of the legacy layout.
    fn from_old_csv_format(record: &Vec<String>, date: TradeDate) -> (decoded: Result<
        StockRecord,
        DecodeError,
    >)
        requires
            record.len() >= LEGACY_COLUMNS,
        ensures
            match decoded {
                Ok(r) => decode_legacy(record.deep_view(), date@) == Ok::<
                    StockRecordView,
                    DecodeError,
                >(r@),
                Err(e) => decode_legacy(record.deep_view(), date@) == Err::<
                    StockRecordView,
                    DecodeError,
                >(e),
            },
    {
        if !check_names(record[0].as_str(), record[1].as_str()) {
            return Err(DecodeError::InvalidSymbolOrSeries);
        }
        Ok(
            StockRecord {
                symbol: record[0].clone(),
                series: record[1].clone(),
                open: record[2].clone(),
                high: record[3].clone(),
                low: record[4].clone(),
                close: record[5].clone(),
                last: record[6].clone(),
                prevclose: record[7].clone(),
                tottrdqty: quantity_or_zero(record[8].as_str()),
                tottrdval: record[9].clone(),
                tottrdval_unit: 1,
                timestamp: date,
                totaltrades: count_or_zero(record[11].as_str()),
                isin: record[12].clone(),
            },
        )
    }
}

/// What decoding a batch of rows gave: the records, and how many rows were
/// read and how many of them rejected.
#[derive(Debug)]
pub struct DecodeReport {
    pub records: Vec<StockRecord>,
    pub total_processed: usize,
    pub skipped_count: usize,
}

/// Decodes the rows of an export for the trading day `date`. No row makes the
/// batch fail: a row that gives no record is counted and left out.
pub fn decode_rows_with_counts(rows: &Vec<Option<Vec<String>>>, date: TradeDate) -> (report:
    DecodeReport)
    ensures
        report.records.deep_view() == decode_rows(rows.deep_view(), date@),
        report.total_processed == rows.len(),
        report.skipped_count == rejected_rows(rows.deep_view(), date@),
{
    let mut records: Vec<StockRecord> = Vec::new();
    let mut skipped: usize = 0;
    let mut i: usize = 0;
    let ghost all = rows.deep_view();
    assert(all.take(0) =~= Seq::<Option<Seq<Seq<char>>>>::empty());
    assert(records.deep_view() =~= Seq::<StockRecordView>::empty());
    while i < rows.len()
        invariant
            i <= rows.len(),
            all == rows.deep_view(),
            records.deep_view() == decode_rows(all.take(i as int), date@),
            skipped == rejected_rows(all.take(i as int), date@),
            skipped <= i,
        decreases rows.len() - i,
    {
        let ghost before = records.deep_view();
        proof {
            assert(all.take(i + 1).drop_last() =~= all.take(i as int));
            assert(all.take(i + 1).last() == all[i as int]);
            assert(all[i as int] == rows[i as int].deep_view());
        }
        match &rows[i] {
            Some(fields) => match StockRecord::from_csv_record(fields, date) {
                Ok(record) => {
                    let ghost view = record@;
                    records.push(record);
                    assert(records.deep_view() =~= before.push(view));
                },
                Err(_) => {
                    skipped = skipped + 1;
                },
            },
            None => {},
        }
        i = i + 1;
    }
    assert(all.take(rows.len() as int) =~= all);
    DecodeReport { records, total_processed: rows.len(), skipped_count: skipped }
}

/// Decodes a CSV export for the trading day `date`. The first row is the
/// header; every later row gives one record or none. An export without
/// valid rows gives an empty result, not an error.
pub fn parse_csv_data(csv_content: &str, date: TradeDate) -> (decoded: Result<
    Vec<StockRecord>,
    DecodeError,
>)
    ensures
        decoded is Ok,
        decoded matches Ok(records) && records.deep_view() == decode_rows(
            csv_rows(csv_content@),
            date@,
        ),
        decoded matches Ok(records) && (csv_content@.len() == 0 ==> records.len() == 0),
{
    let rows = read_csv_rows(csv_content);
    let report = decode_rows_with_counts(&rows, date);
    proof {
        lemma_decoded_records_come_from_rows(rows.deep_view(), date@);
    }
    Ok(report.records)
}

/// A row with fewer columns than the shorter layout gives no record, and
/// neither does a row whose symbol is empty or the placeholder `-`, or whose
/// series is empty.
pub proof fn lemma_invalid_row_is_rejected(fields: Seq<Seq<char>>, date: CivilDate)
    ensures
        fields.len() < LEGACY_COLUMNS ==> decode_row(fields, date) is Err,
        decode_row(fields, date) matches Ok(record) ==> {
            &&& fields.len() >= LEGACY_COLUMNS
            &&& record.symbol.len() > 0
            &&& record.symbol != seq!['-']
            &&& record.series.len() > 0
            &&& record.timestamp == date
        },
        LEGACY_COLUMNS <= fields.len() < MODERN_COLUMNS && (fields[0].len() == 0 || fields[0]
            == seq!['-'] || fields[1].len() == 0) ==> decode_row(fields, date) is Err,
        fields.len() >= MODERN_COLUMNS && (trimmed(fields[0]).len() == 0 || trimmed(fields[0])
            == seq!['-'] || trimmed(fields[1]).len() == 0) ==> decode_row(fields, date) is Err,
{
}

/// Every record that comes out of a batch is the record of one of its rows,
/// carries the trading day that was supplied, and has an accepted symbol and
/// series; so no rejected row appears in the output. The records and the
/// rejected rows together are never more than the rows that were read, and
/// an empty batch gives no record.
pub proof fn lemma_decoded_records_come_from_rows(
    rows: Seq<Option<Seq<Seq<char>>>>,
    date: CivilDate,
)
    ensures
        forall|k: int|
            0 <= k < decode_rows(rows, date).len() ==> {
                let record = #[trigger] decode_rows(rows, date)[k];
                &&& exists|i: int|
                    0 <= i < rows.len() && #[trigger] rows[i] is Some && decode_row(
                        rows[i]->0,
                        date,
                    ) == Ok::<StockRecordView, DecodeError>(record)
                &&& names_accepted(record.symbol, record.series)
                &&& record.timestamp == date
            },
        decode_rows(rows, date).len() + rejected_rows(rows, date) <= rows.len(),
        rows.len() == 0 ==> decode_rows(rows, date).len() == 0,
    decreases rows.len(),
{
    if rows.len() > 0 {
        let front = rows.drop_last();
        lemma_decoded_records_come_from_rows(front, date);
        let out = decode_rows(rows, date);
        assert forall|k: int| 0 <= k < out.len() implies {
            let record = #[trigger] out[k];
            &&& exists|i: int|
                0 <= i < rows.len() && #[trigger] rows[i] is Some && decode_row(rows[i]->0, date)
                    == Ok::<StockRecordView, DecodeError>(record)
            &&& names_accepted(record.symbol, record.series)
            &&& record.timestamp == date
        } by {
            let record = out[k];
            if k < decode_rows(front, date).len() {
                assert(record == decode_rows(front, date)[k]);
                let i = choose|i: int|
                    0 <= i < front.len() && #[trigger] front[i] is Some && decode_row(
                        front[i]->0,
                        date,
                    ) == Ok::<StockRecordView, DecodeError>(record);
                assert(rows[i] == front[i]);
            } else {
                let last = rows.len() - 1;
                assert(rows[last] is Some);
                lemma_invalid_row_is_rejected(rows[last]->0, date);
            }
        }
    }
}

/// The two layouts agree. Take a legacy row and a modern row that report the
/// same trading: each modern field, trimmed, is the text that the legacy row
/// holds in the column of the same meaning. Then both rows decode, or
/// neither does, and the two records have the same symbol, series, open,
/// high, low, close, last and previous close, the same quantity and trade
/// count. The turnover text of each is the text of its row, counted in
/// currency units by the legacy record and in lakhs by the modern one: so
/// under any reading `amount` of decimal text as a number, a modern
/// turnover that is the legacy turnover in lakhs gives the same turnover
/// in currency units.
pub proof fn lemma_layouts_agree(
    legacy: Seq<Seq<char>>,
    modern: Seq<Seq<char>>,
    date: CivilDate,
    amount: spec_fn(Seq<char>) -> int,
)
    requires
        LEGACY_COLUMNS <= legacy.len() < MODERN_COLUMNS,
        modern.len() >= MODERN_COLUMNS,
        trimmed(modern[0]) == legacy[0],
        trimmed(modern[1]) == legacy[1],
        trimmed(modern[4]) == legacy[2],
        trimmed(modern[5]) == legacy[3],
        trimmed(modern[6]) == legacy[4],
        trimmed(modern[8]) == legacy[5],
        trimmed(modern[7]) == legacy[6],
        trimmed(modern[3]) == legacy[7],
        trimmed(modern[10]) == legacy[8],
        trimmed(modern[12]) == legacy[11],
    ensures
        decode_row(legacy, date) is Ok <==> decode_row(modern, date) is Ok,
        decode_row(legacy, date) is Ok ==> {
            let old = decode_row(legacy, date)->Ok_0;
            let new = decode_row(modern, date)->Ok_0;
            &&& new.symbol == old.symbol
            &&& new.series == old.series
            &&& new.open == old.open
            &&& new.high == old.high
            &&& new.low == old.low
            &&& new.close == old.close
            &&& new.last == old.last
            &&& new.prevclose == old.prevclose
            &&& new.tottrdqty == old.tottrdqty
            &&& new.totaltrades == old.totaltrades
            &&& new.timestamp == old.timestamp
            &&& old.tottrdval == legacy[9] && old.tottrdval_unit == 1
            &&& new.tottrdval == trimmed(modern[11]) && new.tottrdval_unit == LAKH
            &&& amount(legacy[9]) == amount(trimmed(modern[11])) * LAKH ==> amount(old.tottrdval)
                * old.tottrdval_unit == amount(new.tottrdval) * new.tottrdval_unit
        },
{
}

} // verus!
