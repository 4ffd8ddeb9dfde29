//! The write side of the store: one company row per symbol, one price row
//! per company and trading day, one log row per ingestion run. The store
//! itself is reached by whoever runs the statements; here stand the
//! statements, and the decisions between them.

use vstd::prelude::*;
use vstd::string::StringExecFns;

use super::statement::{bind_optional_text, SqlValue, SqlValueView, Statement, StatementView, text_or_null};
use crate::calendar::{CivilDate, TradeDate};
use crate::nse::record::{StockRecord, StockRecordView};
use crate::text::str_eq;

verus! {

/// How an ingestion run ended.
#[derive(Debug, Clone, Copy, PartialEq, Eq, Structural)]
pub enum IngestionStatus {
    Success,
    Partial,
    Failed,
}

/// The word that the log stores for a status.
pub open spec fn status_word(status: IngestionStatus) -> Seq<char> {
    match status {
        IngestionStatus::Success => "success"@,
        IngestionStatus::Partial => "partial"@,
        IngestionStatus::Failed => "failed"@,
    }
}

/// The status that a word of the log stands for.
pub open spec fn status_of_word(word: Seq<char>) -> Option<IngestionStatus> {
    if word == "success"@ {
        Some(IngestionStatus::Success)
    } else if word == "partial"@ {
        Some(IngestionStatus::Partial)
    } else if word == "failed"@ {
        Some(IngestionStatus::Failed)
    } else {
        None
    }
}

impl IngestionStatus {
    /// The status that a word of the log stands for, where it stands for one.
    pub fn parse(word: &str) -> (status: Option<IngestionStatus>)
        ensures
            status == status_of_word(word@),
    {
        if str_eq(word, "success") {
            Some(IngestionStatus::Success)
        } else if str_eq(word, "partial") {
            Some(IngestionStatus::Partial)
        } else if str_eq(word, "failed") {
            Some(IngestionStatus::Failed)
        } else {
            None
        }
    }

    /// The word that the log stores for this status.
    pub fn as_str(self) -> (word: &'static str)
        ensures
            word@ == status_word(self),
    {
        match self {
            IngestionStatus::Success => "success",
            IngestionStatus::Partial => "partial",
            IngestionStatus::Failed => "failed",
        }
    }
}

/// The audit record of one ingestion run, as it is written.
#[derive(Debug, PartialEq, Eq)]
pub struct IngestionLogInsert {
    pub source: String,
    pub file_name: Option<String>,
    pub trade_date: Option<TradeDate>,
    pub records_processed: Option<i64>,
    pub status: IngestionStatus,
    pub error_message: Option<String>,
    pub started_at: Option<String>,
    pub completed_at: String,
}

/// The audit record of one ingestion run, as it is read back.
#[derive(Debug, PartialEq, Eq)]
pub struct IngestionLog {
    pub id: i64,
    pub source: String,
    pub file_name: Option<String>,
    pub trade_date: Option<TradeDate>,
    pub records_processed: Option<i64>,
    pub status: String,
    pub error_message: Option<String>,
    pub started_at: Option<String>,
    pub completed_at: String,
}

/// A company as the store holds it.
#[derive(Debug, PartialEq, Eq)]
pub struct Company {
    pub id: i64,
    pub symbol: String,
    pub isin: String,
    pub series: String,
    pub name: Option<String>,
    pub created_at: String,
    pub updated_at: String,
}

/// An audit record as mathematics sees it.
pub struct IngestionLogInsertView {
    pub source: Seq<char>,
    pub file_name: Option<Seq<char>>,
    pub trade_date: Option<CivilDate>,
    pub records_processed: Option<int>,
    pub status: IngestionStatus,
    pub error_message: Option<Seq<char>>,
    pub started_at: Option<Seq<char>>,
    pub completed_at: Seq<char>,
}

impl View for IngestionLogInsert {
    type V = IngestionLogInsertView;

    open spec fn view(&self) -> IngestionLogInsertView {
        IngestionLogInsertView {
            source: self.source@,
            file_name: self.file_name.deep_view(),
            trade_date: self.trade_date.deep_view(),
            records_processed: match self.records_processed {
                Some(n) => Some(n as int),
                None => None,
            },
            status: self.status,
            error_message: self.error_message.deep_view(),
            started_at: self.started_at.deep_view(),
            completed_at: self.completed_at@,
        }
    }
}

/// The text that appends an audit record.
pub open spec fn log_insert_sql() -> Seq<char> {
    "INSERT INTO ingestion_log (source, file_name, trade_date, records_processed, status, error_message, started_at, completed_at) VALUES (?, ?, ?, ?, ?, ?, ?, ?)"@
}

/// The statement that appends one audit record: its eight fields in
/// column order, each absent field as null.
pub open spec fn log_insert_statement(log: IngestionLogInsertView) -> StatementView {
    StatementView {
        sql: log_insert_sql(),
        params: seq![
            SqlValueView::Text(log.source),
            text_or_null(log.file_name),
            match log.trade_date {
                Some(d) => SqlValueView::Date(d),
                None => SqlValueView::Null,
            },
            match log.records_processed {
                Some(n) => SqlValueView::Integer(n),
                None => SqlValueView::Null,
            },
            SqlValueView::Text(status_word(log.status)),
            text_or_null(log.error_message),
            text_or_null(log.started_at),
            SqlValueView::Text(log.completed_at),
        ],
    }
}

/// The statement that appends one audit record.
pub fn log_ingestion(log: &IngestionLogInsert) -> (statement: Statement)
    ensures
        statement@ == log_insert_statement(log@),
{
    let mut params: Vec<SqlValue> = Vec::new();
    params.push(SqlValue::Text(log.source.clone()));
    params.push(bind_optional_text(&log.file_name));
    params.push(
        match log.trade_date {
            Some(d) => SqlValue::Date(d),
            None => SqlValue::Null,
        },
    );
    params.push(
        match log.records_processed {
            Some(n) => SqlValue::Integer(n),
            None => SqlValue::Null,
        },
    );
    params.push(SqlValue::Text(String::from_str(log.status.as_str())));
    params.push(bind_optional_text(&log.error_message));
    params.push(bind_optional_text(&log.started_at));
    params.push(SqlValue::Text(log.completed_at.clone()));
    let statement = Statement {
        sql: String::from_str(
            "INSERT INTO ingestion_log (source, file_name, trade_date, records_processed, status, error_message, started_at, completed_at) VALUES (?, ?, ?, ?, ?, ?, ?, ?)",
        ),
        params,
    };
    assert(statement@.params =~= log_insert_statement(log@).params);
    statement
}

/// What to write for a company, once the store has said whether it holds
/// the symbol.
#[derive(Debug, Clone, Copy, PartialEq, Eq, Structural)]
pub enum CompanyWrite {
    /// The symbol is held under `id`: refresh identifier and series there.
    Update { id: i64 },
    /// The symbol is not held: add a row.
    Insert,
}

/// The write that keeps one row per symbol: update where the symbol is
/// held, insert where it is not.
pub open spec fn company_write_for(existing: Option<i64>) -> CompanyWrite {
    match existing {
        Some(id) => CompanyWrite::Update { id },
        None => CompanyWrite::Insert,
    }
}

/// The id a company has after its write: the id it was found under, or the
/// id the store gave the new row.
pub open spec fn company_id_from(write: CompanyWrite, last_insert_rowid: i64) -> i64 {
    match write {
        CompanyWrite::Update { id } => id,
        CompanyWrite::Insert => last_insert_rowid,
    }
}

/// The text that looks a symbol up.
pub open spec fn find_company_sql() -> Seq<char> {
    "SELECT id FROM companies WHERE symbol = ?"@
}

/// The text that refreshes identifier and series of the company with an id.
pub open spec fn update_company_sql() -> Seq<char> {
    "UPDATE companies SET isin = ?, series = ?, updated_at = CURRENT_TIMESTAMP WHERE id = ?"@
}

/// The text that adds a company.
pub open spec fn insert_company_sql() -> Seq<char> {
    "INSERT INTO companies (symbol, isin, series) VALUES (?, ?, ?)"@
}

/// The statement that looks a symbol up.
pub open spec fn find_company_statement(symbol: Seq<char>) -> StatementView {
    StatementView { sql: find_company_sql(), params: seq![SqlValueView::Text(symbol)] }
}

/// The statement of a company write.
pub open spec fn company_write_statement(
    write: CompanyWrite,
    symbol: Seq<char>,
    isin: Seq<char>,
    series: Seq<char>,
) -> StatementView {
    match write {
        CompanyWrite::Update { id } => StatementView {
            sql: update_company_sql(),
            params: seq![
                SqlValueView::Text(isin),
                SqlValueView::Text(series),
                SqlValueView::Integer(id as int),
            ],
        },
        CompanyWrite::Insert => StatementView {
            sql: insert_company_sql(),
            params: seq![
                SqlValueView::Text(symbol),
                SqlValueView::Text(isin),
                SqlValueView::Text(series),
            ],
        },
    }
}

/// The text that writes a price row in place of the row of the same company and day.
pub open spec fn upsert_price_sql() -> Seq<char> {
    "INSERT OR REPLACE INTO daily_prices (company_id, trade_date, open_price, high_price, low_price, close_price, last_price, prev_close, total_traded_qty, total_traded_value, total_trades) VALUES (?, ?, ?, ?, ?, ?, ?, ?, ?, ?, ?)"@
}

/// A price as a bound value.
pub open spec fn price_value(text: Seq<char>) -> SqlValueView {
    SqlValueView::Decimal { text, unit: 1 }
}

/// The statement that writes the price row of a company and a trading day,
/// in place of any row the store holds for the two.
pub open spec fn upsert_price_statement(company_id: i64, record: StockRecordView)
    -> StatementView {
    StatementView {
        sql: upsert_price_sql(),
        params: seq![
            SqlValueView::Integer(company_id as int),
            SqlValueView::Date(record.timestamp),
            price_value(record.open),
            price_value(record.high),
            price_value(record.low),
            price_value(record.close),
            price_value(record.last),
            price_value(record.prevclose),
            SqlValueView::Integer(record.tottrdqty),
            SqlValueView::Decimal { text: record.tottrdval, unit: record.tottrdval_unit },
            SqlValueView::Integer(record.totaltrades),
        ],
    }
}

/// The statement that looks a symbol up.
pub fn find_company(symbol: &str) -> (statement: Statement)
    ensures
        statement@ == find_company_statement(symbol@),
{
    let mut params: Vec<SqlValue> = Vec::new();
    params.push(SqlValue::Text(String::from_str(symbol)));
    let statement = Statement {
        sql: String::from_str("SELECT id FROM companies WHERE symbol = ?"),
        params,
    };
    assert(statement@.params =~= find_company_statement(symbol@).params);
    statement
}

/// The write that keeps one row per symbol: update where the symbol is
/// held, insert where it is not.
pub fn plan_company_upsert(existing: Option<i64>) -> (write: CompanyWrite)
    ensures
        write == company_write_for(existing),
{
    match existing {
        Some(id) => CompanyWrite::Update { id },
        None => CompanyWrite::Insert,
    }
}

/// The statement of a company write.
pub fn upsert_company(write: CompanyWrite, symbol: &str, isin: &str, series: &str) -> (statement:
    Statement)
    ensures
        statement@ == company_write_statement(write, symbol@, isin@, series@),
{
    let mut params: Vec<SqlValue> = Vec::new();
    match write {
        CompanyWrite::Update { id } => {
            params.push(SqlValue::Text(String::from_str(isin)));
            params.push(SqlValue::Text(String::from_str(series)));
            params.push(SqlValue::Integer(id));
            let statement = Statement {
                sql: String::from_str(
                    "UPDATE companies SET isin = ?, series = ?, updated_at = CURRENT_TIMESTAMP WHERE id = ?",
                ),
                params,
            };
            assert(statement@.params =~= company_write_statement(
                write,
                symbol@,
                isin@,
                series@,
            ).params);
            statement
        },
        CompanyWrite::Insert => {
            params.push(SqlValue::Text(String::from_str(symbol)));
            params.push(SqlValue::Text(String::from_str(isin)));
            params.push(SqlValue::Text(String::from_str(series)));
            let statement = Statement {
                sql: String::from_str(
                    "INSERT INTO companies (symbol, isin, series) VALUES (?, ?, ?)",
                ),
                params,
            };
            assert(statement@.params =~= company_write_statement(
                write,
                symbol@,
                isin@,
                series@,
            ).params);
            statement
        },
    }
}

/// The id a company has after its write.
pub fn company_id_after(write: CompanyWrite, last_insert_rowid: i64) -> (id: i64)
    ensures
        id == company_id_from(write, last_insert_rowid),
{
    match write {
        CompanyWrite::Update { id } => id,
        CompanyWrite::Insert => last_insert_rowid,
    }
}

/// A price as a bound value.
fn bind_price(text: &String) -> (value: SqlValue)
    ensures
        value@ == price_value(text@),
{
    SqlValue::Decimal { text: text.clone(), unit: 1 }
}

/// The statement that writes the price row of a company and a trading day,
/// in place of any row the store holds for the two.
pub fn upsert_daily_price(company_id: i64, price_data: &StockRecord) -> (statement: Statement)
    ensures
        statement@ == upsert_price_statement(company_id, price_data@),
{
    let mut params: Vec<SqlValue> = Vec::new();
    params.push(SqlValue::Integer(company_id));
    params.push(SqlValue::Date(price_data.timestamp));
    params.push(bind_price(&price_data.open));
    params.push(bind_price(&price_data.high));
    params.push(bind_price(&price_data.low));
    params.push(bind_price(&price_data.close));
    params.push(bind_price(&price_data.last));
    params.push(bind_price(&price_data.prevclose));
    params.push(SqlValue::Integer(price_data.tottrdqty));
    params.push(
        SqlValue::Decimal {
            text: price_data.tottrdval.clone(),
            unit: price_data.tottrdval_unit,
        },
    );
    params.push(SqlValue::Integer(price_data.totaltrades as i64));
    let statement = Statement {
        sql: String::from_str(
            "INSERT OR REPLACE INTO daily_prices (company_id, trade_date, open_price, high_price, low_price, close_price, last_price, prev_close, total_traded_qty, total_traded_value, total_trades) VALUES (?, ?, ?, ?, ?, ?, ?, ?, ?, ?, ?)",
        ),
        params,
    };
    assert(statement@.params =~= upsert_price_statement(company_id, price_data@).params);
    statement
}

/// What a batch waits for.
#[derive(Debug, Clone, Copy, PartialEq, Eq, Structural)]
pub enum StorePhase {
    /// The answer to the lookup of the record's symbol.
    FindCompany,
    /// The completion of the record's company write.
    WriteCompany(CompanyWrite),
    /// The completion of the record's price write.
    WritePrice { company_id: i64 },
}

/// How far a batch has come: `index` records are stored, and the record at
/// `index` is in phase `phase`.
#[derive(Debug, Clone, Copy, PartialEq, Eq, Structural)]
pub struct StoreProgress {
    pub index: usize,
    pub phase: StorePhase,
}

/// What the store answered to a statement.
#[derive(Debug, PartialEq, Eq)]
pub enum StoreReply {
    /// The answer to a lookup: the id the symbol is held under, if any.
    Company(Option<i64>),
    /// A write went through; `last_insert_rowid` is the id of the row it
    /// added, where it added one.
    Written { last_insert_rowid: i64 },
    /// The statement failed.
    Failed(String),
}

/// An answer of the store as mathematics sees it.
pub enum StoreReplyView {
    Company(Option<i64>),
    Written { last_insert_rowid: i64 },
    Failed(Seq<char>),
}

impl View for StoreReply {
    type V = StoreReplyView;

    open spec fn view(&self) -> StoreReplyView {
        match self {
            StoreReply::Company(existing) => StoreReplyView::Company(*existing),
            StoreReply::Written { last_insert_rowid } => StoreReplyView::Written {
                last_insert_rowid: *last_insert_rowid,
            },
            StoreReply::Failed(error) => StoreReplyView::Failed(error@),
        }
    }
}

/// A batch of records that waits for the store's answer to a statement.
#[derive(Debug)]
pub struct StoreBatch {
    records: Vec<StockRecord>,
    progress: StoreProgress,
}

/// Where a batch stands.
#[derive(Debug)]
pub enum StoreStep {
    /// Run the batch's statement and come back with the store's answer.
    Execute(StoreBatch),
    /// Every record is stored.
    Finished { stored: usize },
    /// A statement failed: the batch ends, and the records stored before
    /// stay stored.
    Aborted { stored: usize, error: String },
}

/// A step of a batch as mathematics sees it.
pub enum StoreStepView {
    Execute { records: Seq<StockRecordView>, progress: StoreProgress },
    Finished { stored: int },
    Aborted { stored: int, error: Seq<char> },
}

impl View for StoreStep {
    type V = StoreStepView;

    open spec fn view(&self) -> StoreStepView {
        match self {
            StoreStep::Execute(batch) => StoreStepView::Execute {
                records: batch.records(),
                progress: batch.progress(),
            },
            StoreStep::Finished { stored } => StoreStepView::Finished { stored: *stored as int },
            StoreStep::Aborted { stored, error } => StoreStepView::Aborted {
                stored: *stored as int,
                error: error@,
            },
        }
    }
}

/// The error of a batch that got an answer of the wrong kind.
pub open spec fn unexpected_reply() -> Seq<char> {
    "unexpected reply from the store"@
}

/// The statement that a batch runs in a given state.
pub open spec fn statement_at(records: Seq<StockRecordView>, progress: StoreProgress)
    -> StatementView {
    let record = records[progress.index as int];
    match progress.phase {
        StorePhase::FindCompany => find_company_statement(record.symbol),
        StorePhase::WriteCompany(write) => company_write_statement(
            write,
            record.symbol,
            record.isin,
            record.series,
        ),
        StorePhase::WritePrice { company_id } => upsert_price_statement(company_id, record),
    }
}

/// The step that begins at record `index`: its lookup, or the end of the
/// batch after the last record.
pub open spec fn step_at_record(records: Seq<StockRecordView>, index: int) -> StoreStepView {
    if index < records.len() {
        StoreStepView::Execute {
            records,
            progress: StoreProgress { index: index as usize, phase: StorePhase::FindCompany },
        }
    } else {
        StoreStepView::Finished { stored: records.len() as int }
    }
}

/// The step after the store's answer. For each record in turn: look the
/// symbol up, write the company (update where held, insert where not),
/// write the price under the company's id, go on to the next record. A
/// failure ends the batch at once.
pub open spec fn step_after(
    records: Seq<StockRecordView>,
    progress: StoreProgress,
    reply: StoreReplyView,
) -> StoreStepView {
    match reply {
        StoreReplyView::Failed(error) => StoreStepView::Aborted {
            stored: progress.index as int,
            error,
        },
        StoreReplyView::Company(existing) => match progress.phase {
            StorePhase::FindCompany => StoreStepView::Execute {
                records,
                progress: StoreProgress {
                    index: progress.index,
                    phase: StorePhase::WriteCompany(company_write_for(existing)),
                },
            },
            _ => StoreStepView::Aborted {
                stored: progress.index as int,
                error: unexpected_reply(),
            },
        },
        StoreReplyView::Written { last_insert_rowid } => match progress.phase {
            StorePhase::FindCompany => StoreStepView::Aborted {
                stored: progress.index as int,
                error: unexpected_reply(),
            },
            StorePhase::WriteCompany(write) => StoreStepView::Execute {
                records,
                progress: StoreProgress {
                    index: progress.index,
                    phase: StorePhase::WritePrice {
                        company_id: company_id_from(write, last_insert_rowid),
                    },
                },
            },
            StorePhase::WritePrice { company_id } => step_at_record(records, progress.index + 1),
        },
    }
}

/// Where a batch stands after a run of answers, one for each statement it
/// ran. Answers after the batch has ended change nothing.
pub open spec fn batch_run(start: StoreStepView, replies: Seq<StoreReplyView>) -> StoreStepView
    decreases replies.len(),
{
    if replies.len() == 0 {
        start
    } else {
        match batch_run(start, replies.drop_last()) {
            StoreStepView::Execute { records, progress } => step_after(
                records,
                progress,
                replies.last(),
            ),
            ended => ended,
        }
    }
}

/// Whether the answers are those of a store that runs every statement of a
/// batch without failure: for each record the answer to the lookup, then
/// the completion of the company write, then that of the price write.
pub open spec fn answers_in_turn(replies: Seq<StoreReplyView>) -> bool {
    forall|i: int|
        0 <= i < replies.len() ==> if i % 3 == 0 {
            #[trigger] replies[i] is Company
        } else {
            replies[i] is Written
        }
}

/// Where a batch stands after `count` answers in turn, while statements
/// are left to run: at the record and in the phase that the count says,
/// with the write and the id that the earlier answers gave.
pub open spec fn progress_after(replies: Seq<StoreReplyView>, count: int) -> StoreProgress {
    let index = (count / 3) as usize;
    if count % 3 == 0 {
        StoreProgress { index, phase: StorePhase::FindCompany }
    } else if count % 3 == 1 {
        StoreProgress {
            index,
            phase: StorePhase::WriteCompany(company_write_for(replies[count - 1]->Company_0)),
        }
    } else {
        StoreProgress {
            index,
            phase: StorePhase::WritePrice {
                company_id: company_id_from(
                    company_write_for(replies[count - 2]->Company_0),
                    replies[count - 1]->last_insert_rowid,
                ),
            },
        }
    }
}

/// A batch runs three statements a record: after `count` answers in turn it
/// has ended with every record stored, if these were all its statements,
/// and else waits at record `count / 3`.
pub proof fn lemma_batch_in_turn(
    records: Seq<StockRecordView>,
    replies: Seq<StoreReplyView>,
    count: int,
)
    requires
        records.len() <= usize::MAX,
        answers_in_turn(replies),
        0 <= count <= replies.len(),
        count <= 3 * records.len(),
    ensures
        count == 3 * records.len() ==> batch_run(
            step_at_record(records, 0),
            replies.take(count),
        ) == (StoreStepView::Finished { stored: records.len() as int }),
        count < 3 * records.len() ==> batch_run(step_at_record(records, 0), replies.take(count))
            == (StoreStepView::Execute { records, progress: progress_after(replies, count) }),
    decreases count,
{
    if count > 0 {
        lemma_batch_in_turn(records, replies, count - 1);
        assert(replies.take(count).drop_last() =~= replies.take(count - 1));
        assert(replies.take(count).last() == replies[count - 1]);
        assert(replies[count - 1] is Company || replies[count - 1] is Written);
        if count >= 2 {
            assert(replies[count - 2] is Company || replies[count - 2] is Written);
        }
    } else {
        assert(replies.take(0) =~= Seq::<StoreReplyView>::empty());
    }
}

/// Storing a batch applies the company upsert and then the price upsert to
/// each record in turn. Where every statement goes through, the batch ends
/// with all its records counted as stored. Where a statement fails after
/// `count` that went through, the batch ends there with the store's error
/// and `count / 3` records counted, and no later answer changes that.
pub proof fn lemma_batch_outcome(
    records: Seq<StockRecordView>,
    replies: Seq<StoreReplyView>,
    count: int,
)
    requires
        records.len() <= usize::MAX,
        0 <= count <= replies.len(),
        answers_in_turn(replies.take(count)),
        count <= 3 * records.len(),
    ensures
        count == 3 * records.len() ==> batch_run(step_at_record(records, 0), replies) == (
        StoreStepView::Finished { stored: records.len() as int }),
        (count < 3 * records.len() && count < replies.len() && replies[count] is Failed)
            ==> batch_run(step_at_record(records, 0), replies) == (StoreStepView::Aborted {
            stored: count / 3,
            error: replies[count]->Failed_0,
        }),
{
    let start = step_at_record(records, 0);
    lemma_batch_in_turn(records, replies.take(count), count);
    assert(replies.take(count).take(count) =~= replies.take(count));
    if count == 3 * records.len() {
        lemma_batch_ended(start, replies, count);
    } else if count < replies.len() && replies[count] is Failed {
        assert(replies.take(count + 1).drop_last() =~= replies.take(count));
        assert(replies.take(count + 1).last() == replies[count]);
        lemma_batch_ended(start, replies, count + 1);
    }
}

/// A batch that has ended stays as it is, whatever answers follow.
proof fn lemma_batch_ended(start: StoreStepView, replies: Seq<StoreReplyView>, count: int)
    requires
        0 <= count <= replies.len(),
        !(batch_run(start, replies.take(count)) is Execute),
    ensures
        batch_run(start, replies) == batch_run(start, replies.take(count)),
    decreases replies.len() - count,
{
    if count < replies.len() {
        assert(replies.take(count + 1).drop_last() =~= replies.take(count));
        lemma_batch_ended(start, replies, count + 1);
    } else {
        assert(replies.take(count) =~= replies);
    }
}

/// The step that begins at record `index`.
fn store_record(records: Vec<StockRecord>, index: usize) -> (step: StoreStep)
    requires
        index <= records.len(),
    ensures
        step@ == step_at_record(records.deep_view(), index as int),
{
    if index < records.len() {
        StoreStep::Execute(
            StoreBatch {
                records,
                progress: StoreProgress { index, phase: StorePhase::FindCompany },
            },
        )
    } else {
        StoreStep::Finished { stored: records.len() }
    }
}

/// Begins to store a batch of records: the first statement to run, or the
/// end at once for an empty batch.
pub fn begin_store(records: Vec<StockRecord>) -> (step: StoreStep)
    ensures
        step@ == step_at_record(records.deep_view(), 0),
{
    store_record(records, 0)
}

impl StoreBatch {
    #[verifier::type_invariant]
    spec fn valid(self) -> bool {
        self.progress.index < self.records.len()
    }

    /// The records of the batch.
    pub closed spec fn records(self) -> Seq<StockRecordView> {
        self.records.deep_view()
    }

    /// How far the batch has come.
    pub closed spec fn progress(self) -> StoreProgress {
        self.progress
    }

    /// How far the batch has come.
    pub fn position(&self) -> (progress: StoreProgress)
        ensures
            progress == self.progress(),
            progress.index < self.records().len(),
    {
        proof {
            use_type_invariant(self);
        }
        self.progress
    }

    /// The record that the batch is storing now.
    pub fn current(&self) -> (record: &StockRecord)
        ensures
            self.progress().index < self.records().len(),
            record@ == self.records()[self.progress().index as int],
    {
        proof {
            use_type_invariant(self);
        }
        &self.records[self.progress.index]
    }

    /// The statement to run now.
    pub fn statement(&self) -> (statement: Statement)
        ensures
            statement@ == statement_at(self.records(), self.progress()),
    {
        proof {
            use_type_invariant(self);
        }
        let record = &self.records[self.progress.index];
        match self.progress.phase {
            StorePhase::FindCompany => find_company(record.symbol.as_str()),
            StorePhase::WriteCompany(write) => upsert_company(
                write,
                record.symbol.as_str(),
                record.isin.as_str(),
                record.series.as_str(),
            ),
            StorePhase::WritePrice { company_id } => upsert_daily_price(company_id, record),
        }
    }

    /// Takes the store's answer to the statement that was run and says
    /// where the batch stands.
    pub fn on_reply(self, reply: StoreReply) -> (step: StoreStep)
        ensures
            step@ == step_after(self.records(), self.progress(), reply@),
    {
        proof {
            use_type_invariant(&self);
        }
        let index: usize = self.progress.index;
        match reply {
            StoreReply::Failed(error) => StoreStep::Aborted { stored: index, error },
            StoreReply::Company(existing) => match self.progress.phase {
                StorePhase::FindCompany => StoreStep::Execute(
                    StoreBatch {
                        records: self.records,
                        progress: StoreProgress {
                            index,
                            phase: StorePhase::WriteCompany(plan_company_upsert(existing)),
                        },
                    },
                ),
                _ => StoreStep::Aborted {
                    stored: index,
                    error: String::from_str("unexpected reply from the store"),
                },
            },
            StoreReply::Written { last_insert_rowid } => match self.progress.phase {
                StorePhase::FindCompany => StoreStep::Aborted {
                    stored: index,
                    error: String::from_str("unexpected reply from the store"),
                },
                StorePhase::WriteCompany(write) => StoreStep::Execute(
                    StoreBatch {
                        records: self.records,
                        progress: StoreProgress {
                            index,
                            phase: StorePhase::WritePrice {
                                company_id: company_id_after(write, last_insert_rowid),
                            },
                        },
                    },
                ),
                StorePhase::WritePrice { company_id } => store_record(self.records, index + 1),
            },
        }
    }
}

} // verus!
