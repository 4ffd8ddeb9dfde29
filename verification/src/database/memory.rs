//! A store kept in memory that answers the statements of the write side as
//! a relational store with the two uniqueness rules does: at most one
//! company row per symbol, at most one price row per company and trading
//! day. It is the reference that the write protocol is proved against, and
//! a stand-in for the store where none is at hand.

use vstd::prelude::*;
use vstd::string::StringExecFns;

use super::storage::{
    begin_store, company_write_for, plan_company_upsert, CompanyWrite, StoreBatch, StorePhase,
    StoreProgress, StoreReply, StoreReplyView, StoreStep, StoreStepView,
};
use crate::calendar::{on_or_before, CivilDate, TradeDate};
use crate::nse::record::{StockRecord, StockRecordView};

verus! {

/// A company row.
#[derive(Debug, PartialEq, Eq)]
pub struct CompanyRow {
    pub id: i64,
    pub symbol: String,
    pub isin: String,
    pub series: String,
}

/// A company row as mathematics sees it.
pub struct CompanyRowView {
    pub id: int,
    pub symbol: Seq<char>,
    pub isin: Seq<char>,
    pub series: Seq<char>,
}

impl View for CompanyRow {
    type V = CompanyRowView;

    open spec fn view(&self) -> CompanyRowView {
        CompanyRowView {
            id: self.id as int,
            symbol: self.symbol@,
            isin: self.isin@,
            series: self.series@,
        }
    }
}

impl DeepView for CompanyRow {
    type V = CompanyRowView;

    open spec fn deep_view(&self) -> CompanyRowView {
        self@
    }
}

/// A price row: the record of one trading day under a company's id.
#[derive(Debug, PartialEq, Eq)]
pub struct PriceRow {
    pub company_id: i64,
    pub record: StockRecord,
}

/// A price row as mathematics sees it.
pub struct PriceRowView {
    pub company_id: int,
    pub record: StockRecordView,
}

impl View for PriceRow {
    type V = PriceRowView;

    open spec fn view(&self) -> PriceRowView {
        PriceRowView { company_id: self.company_id as int, record: self.record@ }
    }
}

impl DeepView for PriceRow {
    type V = PriceRowView;

    open spec fn deep_view(&self) -> PriceRowView {
        self@
    }
}

/// The rows of a store.
pub struct StoreRows {
    pub companies: Seq<CompanyRowView>,
    pub prices: Seq<PriceRowView>,
}

/// The place of the first company row with the given symbol.
pub open spec fn symbol_index(companies: Seq<CompanyRowView>, symbol: Seq<char>) -> Option<int>
    decreases companies.len(),
{
    if companies.len() == 0 {
        None
    } else {
        match symbol_index(companies.drop_last(), symbol) {
            Some(i) => Some(i),
            None => if companies.last().symbol == symbol {
                Some(companies.len() - 1)
            } else {
                None
            },
        }
    }
}

/// The id that a symbol is held under, if it is held.
pub open spec fn held_id(companies: Seq<CompanyRowView>, symbol: Seq<char>) -> Option<int> {
    match symbol_index(companies, symbol) {
        Some(i) => Some(companies[i].id),
        None => None,
    }
}

/// The place of the first price row of a company and a trading day.
pub open spec fn price_index(prices: Seq<PriceRowView>, company_id: int, day: CivilDate) -> Option<
    int,
>
    decreases prices.len(),
{
    if prices.len() == 0 {
        None
    } else {
        match price_index(prices.drop_last(), company_id, day) {
            Some(i) => Some(i),
            None => if prices.last().company_id == company_id && prices.last().record.timestamp
                == day {
                Some(prices.len() - 1)
            } else {
                None
            },
        }
    }
}

/// Number of company rows with the given symbol.
pub open spec fn rows_with_symbol(companies: Seq<CompanyRowView>, symbol: Seq<char>) -> nat
    decreases companies.len(),
{
    if companies.len() == 0 {
        0
    } else {
        rows_with_symbol(companies.drop_last(), symbol) + if companies.last().symbol == symbol {
            1nat
        } else {
            0nat
        }
    }
}

/// Number of price rows of a company and a trading day.
pub open spec fn rows_with_key(prices: Seq<PriceRowView>, company_id: int, day: CivilDate) -> nat
    decreases prices.len(),
{
    if prices.len() == 0 {
        0
    } else {
        rows_with_key(prices.drop_last(), company_id, day) + if prices.last().company_id
            == company_id && prices.last().record.timestamp == day {
            1nat
        } else {
            0nat
        }
    }
}

/// The rules of the company rows: the company at place `i` has id `i + 1`,
/// and no two companies share a symbol.
pub open spec fn company_rules(companies: Seq<CompanyRowView>) -> bool {
    &&& forall|i: int| 0 <= i < companies.len() ==> (#[trigger] companies[i]).id == i + 1
    &&& forall|i: int, j: int|
        0 <= i < j < companies.len() ==> (#[trigger] companies[i]).symbol != (
        #[trigger] companies[j]).symbol
}

/// The rule of the price rows: no two share company and trading day.
pub open spec fn price_rules(prices: Seq<PriceRowView>) -> bool {
    forall|i: int, j: int|
        0 <= i < j < prices.len() ==> !((#[trigger] prices[i]).company_id == (
        #[trigger] prices[j]).company_id && prices[i].record.timestamp
            == prices[j].record.timestamp)
}

/// The rules of the store.
pub open spec fn store_rules(store: StoreRows) -> bool {
    company_rules(store.companies) && price_rules(store.prices)
}

/// The id that the next company row gets.
pub open spec fn next_id(companies: Seq<CompanyRowView>) -> int {
    companies.len() as int + 1
}

/// The company row with new identifier and series.
pub open spec fn refreshed(row: CompanyRowView, isin: Seq<char>, series: Seq<char>)
    -> CompanyRowView {
    CompanyRowView { id: row.id, symbol: row.symbol, isin, series }
}

/// The company rows after a write. An update refreshes identifier and
/// series of the row with the id, and changes nothing where no row has it.
/// An insert adds a row under the next id.
pub open spec fn companies_after(
    companies: Seq<CompanyRowView>,
    write: CompanyWrite,
    symbol: Seq<char>,
    isin: Seq<char>,
    series: Seq<char>,
) -> Seq<CompanyRowView> {
    match write {
        CompanyWrite::Update { id } => if 1 <= id <= companies.len() {
            companies.update(id - 1, refreshed(companies[id - 1], isin, series))
        } else {
            companies
        },
        CompanyWrite::Insert => companies.push(
            CompanyRowView { id: next_id(companies), symbol, isin, series },
        ),
    }
}

/// The price rows after the write of a record under a company's id: the
/// record takes the place of the row of the same company and day, or is
/// added where there is none.
pub open spec fn prices_after(prices: Seq<PriceRowView>, company_id: int, record: StockRecordView)
    -> Seq<PriceRowView> {
    let row = PriceRowView { company_id, record };
    match price_index(prices, company_id, record.timestamp) {
        Some(i) => prices.update(i, row),
        None => prices.push(row),
    }
}

/// The id of a symbol after its upsert: the id it was held under, or the
/// id of the row that was added.
pub open spec fn upserted_id(companies: Seq<CompanyRowView>, symbol: Seq<char>) -> int {
    match held_id(companies, symbol) {
        Some(id) => id,
        None => next_id(companies),
    }
}

/// The company rows after the upsert of a symbol: look the symbol up, then
/// update where it is held and insert where it is not.
pub open spec fn companies_after_upsert(
    companies: Seq<CompanyRowView>,
    symbol: Seq<char>,
    isin: Seq<char>,
    series: Seq<char>,
) -> Seq<CompanyRowView> {
    match symbol_index(companies, symbol) {
        Some(i) => companies.update(i, refreshed(companies[i], isin, series)),
        None => companies.push(CompanyRowView { id: next_id(companies), symbol, isin, series }),
    }
}

/// The store after one record is stored: its company upserted, and its
/// price written under the company's id.
pub open spec fn store_after_record(store: StoreRows, record: StockRecordView) -> StoreRows {
    StoreRows {
        companies: companies_after_upsert(
            store.companies,
            record.symbol,
            record.isin,
            record.series,
        ),
        prices: prices_after(
            store.prices,
            upserted_id(store.companies, record.symbol),
            record,
        ),
    }
}

/// The store after a batch of records is stored, one after the other.
pub open spec fn store_after_records(store: StoreRows, records: Seq<StockRecordView>) -> StoreRows
    decreases records.len(),
{
    if records.len() == 0 {
        store
    } else {
        store_after_record(store_after_records(store, records.drop_last()), records.last())
    }
}

/// Where the symbol is found, it stands there and nowhere before; where it
/// is not found, no row has it.
pub proof fn lemma_symbol_index(companies: Seq<CompanyRowView>, symbol: Seq<char>)
    ensures
        match symbol_index(companies, symbol) {
            Some(i) => 0 <= i < companies.len() && companies[i].symbol == symbol && forall|j: int|
                0 <= j < i ==> (#[trigger] companies[j]).symbol != symbol,
            None => forall|j: int|
                0 <= j < companies.len() ==> (#[trigger] companies[j]).symbol != symbol,
        },
    decreases companies.len(),
{
    if companies.len() > 0 {
        lemma_symbol_index(companies.drop_last(), symbol);
        assert forall|j: int| 0 <= j < companies.len() - 1 implies companies.drop_last()[j]
            == companies[j] by {}
    }
}

/// Where the key is found, it stands there and nowhere before; where it is
/// not found, no row has it.
pub proof fn lemma_price_index(prices: Seq<PriceRowView>, company_id: int, day: CivilDate)
    ensures
        match price_index(prices, company_id, day) {
            Some(i) => 0 <= i < prices.len() && prices[i].company_id == company_id
                && prices[i].record.timestamp == day && forall|j: int|
                0 <= j < i ==> !((#[trigger] prices[j]).company_id == company_id
                    && prices[j].record.timestamp == day),
            None => forall|j: int|
                0 <= j < prices.len() ==> !((#[trigger] prices[j]).company_id == company_id
                    && prices[j].record.timestamp == day),
        },
    decreases prices.len(),
{
    if prices.len() > 0 {
        lemma_price_index(prices.drop_last(), company_id, day);
        assert forall|j: int| 0 <= j < prices.len() - 1 implies prices.drop_last()[j]
            == prices[j] by {}
    }
}

/// A place that holds the symbol, with no earlier place holding it, is the
/// place where the symbol is found.
pub proof fn lemma_symbol_found_at(companies: Seq<CompanyRowView>, symbol: Seq<char>, at: int)
    requires
        0 <= at < companies.len(),
        companies[at].symbol == symbol,
        forall|j: int| 0 <= j < at ==> (#[trigger] companies[j]).symbol != symbol,
    ensures
        symbol_index(companies, symbol) == Some(at),
{
    lemma_symbol_index(companies, symbol);
    match symbol_index(companies, symbol) {
        Some(i) => {
            assert(companies[i].symbol == symbol);
            assert(companies[at].symbol == symbol);
        },
        None => {
            assert(companies[at].symbol == symbol);
        },
    }
}

/// A place that holds the key, with no earlier place holding it, is the
/// place where the key is found.
pub proof fn lemma_price_found_at(
    prices: Seq<PriceRowView>,
    company_id: int,
    day: CivilDate,
    at: int,
)
    requires
        0 <= at < prices.len(),
        prices[at].company_id == company_id,
        prices[at].record.timestamp == day,
        forall|j: int|
            0 <= j < at ==> !((#[trigger] prices[j]).company_id == company_id
                && prices[j].record.timestamp == day),
    ensures
        price_index(prices, company_id, day) == Some(at),
{
    lemma_price_index(prices, company_id, day);
    match price_index(prices, company_id, day) {
        Some(i) => {
            assert(prices[i].company_id == company_id);
            assert(prices[at].company_id == company_id);
        },
        None => {
            assert(prices[at].company_id == company_id);
        },
    }
}

/// The number of rows with a symbol, where no two rows share a symbol: one
/// where the symbol is found, none where it is not.
pub proof fn lemma_rows_with_symbol(companies: Seq<CompanyRowView>, symbol: Seq<char>)
    requires
        company_rules(companies),
    ensures
        rows_with_symbol(companies, symbol) == if symbol_index(companies, symbol) is Some {
            1nat
        } else {
            0nat
        },
    decreases companies.len(),
{
    if companies.len() > 0 {
        let front = companies.drop_last();
        let last = companies.len() - 1;
        assert forall|j: int| 0 <= j < front.len() implies front[j] == companies[j] by {}
        lemma_rows_with_symbol(front, symbol);
        lemma_symbol_index(front, symbol);
        if let Some(i) = symbol_index(front, symbol) {
            assert(front[i] == companies[i]);
            assert(companies[i].symbol != companies[last].symbol);
        }
    }
}

/// The number of rows with a key, where no two rows share a key: one where
/// the key is found, none where it is not.
pub proof fn lemma_rows_with_key(prices: Seq<PriceRowView>, company_id: int, day: CivilDate)
    requires
        price_rules(prices),
    ensures
        rows_with_key(prices, company_id, day) == if price_index(prices, company_id, day)
            is Some {
            1nat
        } else {
            0nat
        },
    decreases prices.len(),
{
    if prices.len() > 0 {
        let front = prices.drop_last();
        let last = prices.len() - 1;
        assert forall|j: int| 0 <= j < front.len() implies front[j] == prices[j] by {}
        lemma_rows_with_key(front, company_id, day);
        lemma_price_index(front, company_id, day);
        if let Some(i) = price_index(front, company_id, day) {
            assert(front[i] == prices[i]);
            assert(!(prices[i].company_id == prices[last].company_id
                && prices[i].record.timestamp == prices[last].record.timestamp));
        }
    }
}

/// The upsert of a symbol keeps the rules of the company rows. Afterwards
/// the symbol is held, under the id it was held under before or under the
/// next id, with the identifier and series given; every other symbol is
/// held as before.
pub proof fn lemma_upsert_company(
    companies: Seq<CompanyRowView>,
    symbol: Seq<char>,
    isin: Seq<char>,
    series: Seq<char>,
)
    requires
        company_rules(companies),
    ensures
        ({
            let after = companies_after_upsert(companies, symbol, isin, series);
            let id = upserted_id(companies, symbol);
            &&& company_rules(after)
            &&& 1 <= id <= after.len()
            &&& symbol_index(after, symbol) == Some(id - 1)
            &&& after[id - 1] == (CompanyRowView { id, symbol, isin, series })
            &&& held_id(after, symbol) == Some(id)
            &&& rows_with_symbol(after, symbol) == 1
            &&& after.len() == companies.len() + if symbol_index(companies, symbol) is Some {
                0int
            } else {
                1int
            }
            &&& forall|i: int|
                0 <= i < companies.len() && i != id - 1 ==> #[trigger] after[i] == companies[i]
            &&& forall|other: Seq<char>|
                other != symbol ==> #[trigger] symbol_index(after, other) == symbol_index(
                    companies,
                    other,
                )
        }),
{
    let after = companies_after_upsert(companies, symbol, isin, series);
    let id = upserted_id(companies, symbol);
    lemma_symbol_index(companies, symbol);
    assert(company_rules(after)) by {
        assert forall|i: int, j: int| 0 <= i < j < after.len() implies (#[trigger] after[i]).symbol
            != (#[trigger] after[j]).symbol by {
            if i < companies.len() {
                assert(after[i].symbol == companies[i].symbol);
            }
            if j < companies.len() {
                assert(after[j].symbol == companies[j].symbol);
            }
        }
    }
    assert forall|j: int| 0 <= j < id - 1 implies (#[trigger] after[j]).symbol != symbol by {
        assert(after[j] == companies[j]);
    }
    lemma_symbol_found_at(after, symbol, id - 1);
    lemma_rows_with_symbol(after, symbol);
    assert forall|other: Seq<char>| other != symbol implies #[trigger] symbol_index(after, other)
        == symbol_index(companies, other) by {
        lemma_symbol_index(companies, other);
        match symbol_index(companies, other) {
            Some(k) => {
                assert(after[k].symbol == companies[k].symbol);
                assert forall|j: int| 0 <= j < k implies (#[trigger] after[j]).symbol != other by {
                    assert(after[j].symbol == companies[j].symbol);
                }
                lemma_symbol_found_at(after, other, k);
            },
            None => {
                lemma_symbol_index(after, other);
                if let Some(k) = symbol_index(after, other) {
                    if k < companies.len() {
                        assert(after[k].symbol == companies[k].symbol);
                    }
                }
            },
        }
    }
}

/// The write of a price keeps the rule of the price rows. Afterwards
/// exactly one row has the record's company and day, and it holds the
/// record; every other row is as before.
pub proof fn lemma_write_price(prices: Seq<PriceRowView>, company_id: int, record: StockRecordView)
    requires
        price_rules(prices),
    ensures
        ({
            let after = prices_after(prices, company_id, record);
            &&& price_rules(after)
            &&& price_index(after, company_id, record.timestamp) matches Some(i) && after[i] == (
            PriceRowView { company_id, record })
            &&& rows_with_key(after, company_id, record.timestamp) == 1
            &&& after.len() == prices.len() + if price_index(
                prices,
                company_id,
                record.timestamp,
            ) is Some {
                0int
            } else {
                1int
            }
        }),
{
    let after = prices_after(prices, company_id, record);
    let day = record.timestamp;
    lemma_price_index(prices, company_id, day);
    let at = match price_index(prices, company_id, day) {
        Some(i) => i,
        None => prices.len() as int,
    };
    assert(price_rules(after)) by {
        assert forall|i: int, j: int| 0 <= i < j < after.len() implies !((
        #[trigger] after[i]).company_id == (#[trigger] after[j]).company_id
            && after[i].record.timestamp == after[j].record.timestamp) by {
            if i < prices.len() && i != at {
                assert(after[i] == prices[i]);
            }
            if j < prices.len() && j != at {
                assert(after[j] == prices[j]);
            }
            if i == at && j < prices.len() {
                assert(prices[i].company_id == company_id);
            }
            if j == at && j < prices.len() {
                assert(prices[j].company_id == company_id);
            }
        }
    }
    assert forall|j: int| 0 <= j < at implies !((#[trigger] after[j]).company_id == company_id
        && after[j].record.timestamp == day) by {
        assert(after[j] == prices[j]);
    }
    lemma_price_found_at(after, company_id, day, at);
    lemma_rows_with_key(after, company_id, day);
}

/// Storing a record keeps the rules of the store, leaves the record's
/// symbol with exactly one company row and the record's company and day
/// with exactly one price row, and that price row holds the record.
pub proof fn lemma_store_record(store: StoreRows, record: StockRecordView)
    requires
        store_rules(store),
    ensures
        ({
            let after = store_after_record(store, record);
            let id = upserted_id(store.companies, record.symbol);
            &&& store_rules(after)
            &&& held_id(after.companies, record.symbol) == Some(id)
            &&& rows_with_symbol(after.companies, record.symbol) == 1
            &&& rows_with_key(after.prices, id, record.timestamp) == 1
            &&& price_index(after.prices, id, record.timestamp) matches Some(i)
                && after.prices[i].record == record
        }),
{
    lemma_upsert_company(store.companies, record.symbol, record.isin, record.series);
    lemma_write_price(store.prices, upserted_id(store.companies, record.symbol), record);
}

/// Upserting a symbol twice, with any identifiers and series, gives the
/// same id both times and leaves exactly one company row with the symbol;
/// the row holds the identifier and series of the second upsert.
pub proof fn lemma_upsert_company_twice(
    companies: Seq<CompanyRowView>,
    symbol: Seq<char>,
    first_isin: Seq<char>,
    first_series: Seq<char>,
    second_isin: Seq<char>,
    second_series: Seq<char>,
)
    requires
        company_rules(companies),
    ensures
        ({
            let once = companies_after_upsert(companies, symbol, first_isin, first_series);
            let twice = companies_after_upsert(once, symbol, second_isin, second_series);
            let id = upserted_id(companies, symbol);
            &&& upserted_id(once, symbol) == id
            &&& company_rules(twice)
            &&& rows_with_symbol(twice, symbol) == 1
            &&& twice.len() == once.len()
            &&& held_id(twice, symbol) == Some(id)
            &&& twice[id - 1] == (CompanyRowView {
                id,
                symbol,
                isin: second_isin,
                series: second_series,
            })
        }),
{
    let once = companies_after_upsert(companies, symbol, first_isin, first_series);
    lemma_upsert_company(companies, symbol, first_isin, first_series);
    lemma_upsert_company(once, symbol, second_isin, second_series);
}

/// Re-ingestion replaces. Storing two records of the same symbol and the
/// same trading day, one after the other, leaves exactly one company row
/// for the symbol and exactly one price row for the company and the day,
/// and the price row holds the second record.
pub proof fn lemma_reingestion_replaces(
    store: StoreRows,
    first: StockRecordView,
    second: StockRecordView,
)
    requires
        store_rules(store),
        first.symbol == second.symbol,
        first.timestamp == second.timestamp,
    ensures
        ({
            let once = store_after_record(store, first);
            let twice = store_after_record(once, second);
            let id = upserted_id(store.companies, first.symbol);
            &&& store_rules(twice)
            &&& upserted_id(once.companies, second.symbol) == id
            &&& rows_with_symbol(twice.companies, second.symbol) == 1
            &&& rows_with_key(twice.prices, id, second.timestamp) == 1
            &&& price_index(twice.prices, id, second.timestamp) matches Some(i)
                && twice.prices[i].record == second
            &&& twice.prices.len() == once.prices.len()
            &&& twice.companies.len() == once.companies.len()
        }),
{
    let once = store_after_record(store, first);
    let id = upserted_id(store.companies, first.symbol);
    lemma_store_record(store, first);
    lemma_upsert_company(store.companies, first.symbol, first.isin, first.series);
    lemma_write_price(store.prices, id, first);
    lemma_store_record(once, second);
    lemma_upsert_company(once.companies, second.symbol, second.isin, second.series);
    lemma_write_price(once.prices, id, second);
}

/// The write of a price leaves the rows of every other company and day as
/// they are, each at its place.
pub proof fn lemma_write_price_keeps_others(
    prices: Seq<PriceRowView>,
    company_id: int,
    record: StockRecordView,
    other_id: int,
    other_day: CivilDate,
)
    requires
        price_rules(prices),
        !(other_id == company_id && other_day == record.timestamp),
    ensures
        price_index(prices_after(prices, company_id, record), other_id, other_day) == price_index(
            prices,
            other_id,
            other_day,
        ),
        price_index(prices, other_id, other_day) matches Some(i) ==> prices_after(
            prices,
            company_id,
            record,
        )[i] == prices[i],
{
    let after = prices_after(prices, company_id, record);
    lemma_price_index(prices, company_id, record.timestamp);
    lemma_price_index(prices, other_id, other_day);
    lemma_price_index(after, other_id, other_day);
    match price_index(prices, other_id, other_day) {
        Some(i) => {
            assert(after[i] == prices[i]);
            assert forall|j: int| 0 <= j < i implies !((#[trigger] after[j]).company_id == other_id
                && after[j].record.timestamp == other_day) by {
                if after[j] != prices[j] {
                    assert(after[j].company_id == company_id);
                } else {
                    assert(!(prices[j].company_id == other_id && prices[j].record.timestamp
                        == other_day));
                }
            }
            lemma_price_found_at(after, other_id, other_day, i);
        },
        None => {
            if let Some(k) = price_index(after, other_id, other_day) {
                if k < prices.len() && after[k] == prices[k] {
                    assert(prices[k].company_id == other_id);
                } else {
                    assert(after[k].company_id == company_id);
                }
            }
        },
    }
}

/// The last write wins. After a batch is stored, take any record of it
/// that no later record of the batch shares symbol and trading day with.
/// Then the store holds exactly one company row for the record's symbol and
/// exactly one price row for that company and the record's day, and the
/// price row holds the record: nothing is left of earlier records of the
/// same symbol and day, whether of this batch or of batches before.
pub proof fn lemma_last_write_wins(store: StoreRows, records: Seq<StockRecordView>, k: int)
    requires
        store_rules(store),
        0 <= k < records.len(),
        forall|j: int|
            k < j < records.len() ==> !((#[trigger] records[j]).symbol == records[k].symbol
                && records[j].timestamp == records[k].timestamp),
    ensures
        ({
            let after = store_after_records(store, records);
            let id = held_id(after.companies, records[k].symbol);
            &&& store_rules(after)
            &&& id is Some
            &&& rows_with_symbol(after.companies, records[k].symbol) == 1
            &&& rows_with_key(after.prices, id->0, records[k].timestamp) == 1
            &&& price_index(after.prices, id->0, records[k].timestamp) matches Some(i)
                && after.prices[i].record == records[k]
        }),
    decreases records.len(),
{
    let front = records.drop_last();
    let last = records.last();
    let mid = store_after_records(store, front);
    let after = store_after_records(store, records);
    let record = records[k];
    lemma_store_records(store, front);
    lemma_store_record(mid, last);
    lemma_upsert_company(mid.companies, last.symbol, last.isin, last.series);
    if k < records.len() - 1 {
        assert forall|j: int| k < j < front.len() implies !((#[trigger] front[j]).symbol
            == front[k].symbol && front[j].timestamp == front[k].timestamp) by {
            assert(front[j] == records[j]);
        }
        assert(front[k] == record);
        lemma_last_write_wins(store, front, k);
        let id = held_id(mid.companies, record.symbol)->0;
        let last_id = upserted_id(mid.companies, last.symbol);
        lemma_symbol_index(mid.companies, record.symbol);
        lemma_symbol_index(mid.companies, last.symbol);
        lemma_symbol_index(after.companies, record.symbol);
        assert(held_id(after.companies, record.symbol) == Some(id)) by {
            if last.symbol != record.symbol {
                assert(symbol_index(after.companies, record.symbol) == symbol_index(
                    mid.companies,
                    record.symbol,
                ));
            }
        }
        assert(!(id == last_id && record.timestamp == last.timestamp)) by {
            if last.symbol != record.symbol && id == last_id {
                assert(mid.companies[id - 1].symbol == record.symbol);
            }
        }
        lemma_write_price_keeps_others(mid.prices, last_id, last, id, record.timestamp);
        lemma_rows_with_symbol(after.companies, record.symbol);
        lemma_rows_with_key(after.prices, id, record.timestamp);
    }
}

/// The price rows of one trading day, in the order the store holds them.
pub open spec fn rows_of_day(prices: Seq<PriceRowView>, day: CivilDate) -> Seq<PriceRowView>
    decreases prices.len(),
{
    if prices.len() == 0 {
        Seq::empty()
    } else {
        let before = rows_of_day(prices.drop_last(), day);
        if prices.last().record.timestamp == day {
            before.push(prices.last())
        } else {
            before
        }
    }
}

/// The latest trading day that a price row has, if there is a price row.
pub open spec fn latest_day(prices: Seq<PriceRowView>) -> Option<CivilDate>
    decreases prices.len(),
{
    if prices.len() == 0 {
        None
    } else {
        match latest_day(prices.drop_last()) {
            Some(day) => if on_or_before(prices.last().record.timestamp, day) {
                Some(day)
            } else {
                Some(prices.last().record.timestamp)
            },
            None => Some(prices.last().record.timestamp),
        }
    }
}

/// The rows of a snapshot: the rows of the day asked for, or without one
/// the rows of the latest day, or every row while the store holds none.
pub open spec fn snapshot_rows(prices: Seq<PriceRowView>, day: Option<CivilDate>) -> Seq<
    PriceRowView,
> {
    match day {
        Some(d) => rows_of_day(prices, d),
        None => match latest_day(prices) {
            Some(d) => rows_of_day(prices, d),
            None => prices,
        },
    }
}

/// The latest day is the day of some row, and no row has a later day.
pub proof fn lemma_latest_day(prices: Seq<PriceRowView>)
    ensures
        latest_day(prices) is None <==> prices.len() == 0,
        latest_day(prices) matches Some(day) ==> {
            &&& exists|i: int| 0 <= i < prices.len() && (#[trigger] prices[i]).record.timestamp == day
            &&& forall|i: int|
                0 <= i < prices.len() ==> on_or_before((#[trigger] prices[i]).record.timestamp, day)
        },
    decreases prices.len(),
{
    if prices.len() > 0 {
        let front = prices.drop_last();
        let last = prices.len() - 1;
        lemma_latest_day(front);
        assert forall|j: int| 0 <= j < front.len() implies front[j] == prices[j] by {}
        let day = latest_day(prices)->0;
        if latest_day(front) is Some && on_or_before(prices[last].record.timestamp, latest_day(front)->0) {
            let i = choose|i: int| 0 <= i < front.len() && (#[trigger] front[i]).record.timestamp == day;
            assert(prices[i].record.timestamp == day);
        } else {
            assert(prices[last].record.timestamp == day);
        }
        assert forall|i: int| 0 <= i < prices.len() implies on_or_before(
            (#[trigger] prices[i]).record.timestamp,
            day,
        ) by {
            if i < last {
                assert(on_or_before(front[i].record.timestamp, latest_day(front)->0));
            }
        }
    }
}

/// The rows of a day are rows of the store with that day, and every row of
/// the store with that day is among them.
pub proof fn lemma_rows_of_day(prices: Seq<PriceRowView>, day: CivilDate)
    ensures
        forall|k: int|
            0 <= k < rows_of_day(prices, day).len() ==> (#[trigger] rows_of_day(
                prices,
                day,
            )[k]).record.timestamp == day && prices.contains(rows_of_day(prices, day)[k]),
        forall|i: int|
            0 <= i < prices.len() && (#[trigger] prices[i]).record.timestamp == day
                ==> rows_of_day(prices, day).contains(prices[i]),
    decreases prices.len(),
{
    if prices.len() > 0 {
        let front = prices.drop_last();
        let last = prices.len() - 1;
        let rows = rows_of_day(prices, day);
        let before = rows_of_day(front, day);
        lemma_rows_of_day(front, day);
        assert forall|j: int| 0 <= j < front.len() implies front[j] == prices[j] by {}
        assert forall|k: int| 0 <= k < rows.len() implies (#[trigger] rows[k]).record.timestamp
            == day && prices.contains(rows[k]) by {
            if k < before.len() {
                assert(rows[k] == before[k]);
                let j = choose|j: int| 0 <= j < front.len() && front[j] == before[k];
                assert(prices[j] == rows[k]);
            } else {
                assert(rows[k] == prices[last]);
            }
        }
        assert forall|i: int|
            0 <= i < prices.len() && (#[trigger] prices[i]).record.timestamp == day implies rows.contains(
            prices[i],
        ) by {
            if i < last {
                assert(before.contains(front[i]));
                let k = choose|k: int| 0 <= k < before.len() && before[k] == front[i];
                assert(rows[k] == prices[i]);
            } else {
                assert(rows[rows.len() - 1] == prices[i]);
            }
        }
    }
}

/// The error of an insert of a symbol that is held already.
pub open spec fn symbol_taken() -> Seq<char> {
    "UNIQUE constraint failed: companies.symbol"@
}

/// The error of an insert into a store that cannot number another company.
pub open spec fn store_full() -> Seq<char> {
    "database or disk is full"@
}

/// The most companies a store can number.
pub const MAX_COMPANIES: usize = 0x7fff_ffff;

/// What the store answers to the statement of a batch, and the rows it
/// holds afterwards. A lookup changes nothing and tells the id the symbol is
/// held under. An update refreshes the row with the id. An insert adds a
/// row under the next id, and fails where the symbol is held already or
/// the store is full. A price write replaces or adds the row of the company
/// and the day.
pub open spec fn store_answer(
    store: StoreRows,
    records: Seq<StockRecordView>,
    progress: StoreProgress,
) -> (StoreRows, StoreReplyView) {
    let record = records[progress.index as int];
    match progress.phase {
        StorePhase::FindCompany => (
            store,
            StoreReplyView::Company(
                match held_id(store.companies, record.symbol) {
                    Some(id) => Some(id as i64),
                    None => None,
                },
            ),
        ),
        StorePhase::WriteCompany(CompanyWrite::Insert) => if held_id(
            store.companies,
            record.symbol,
        ) is Some {
            (store, StoreReplyView::Failed(symbol_taken()))
        } else if store.companies.len() >= MAX_COMPANIES {
            (store, StoreReplyView::Failed(store_full()))
        } else {
            (
                StoreRows {
                    companies: companies_after(
                        store.companies,
                        CompanyWrite::Insert,
                        record.symbol,
                        record.isin,
                        record.series,
                    ),
                    prices: store.prices,
                },
                StoreReplyView::Written { last_insert_rowid: next_id(store.companies) as i64 },
            )
        },
        StorePhase::WriteCompany(write) => (
            StoreRows {
                companies: companies_after(
                    store.companies,
                    write,
                    record.symbol,
                    record.isin,
                    record.series,
                ),
                prices: store.prices,
            },
            StoreReplyView::Written { last_insert_rowid: 0 },
        ),
        StorePhase::WritePrice { company_id } => (
            StoreRows {
                companies: store.companies,
                prices: prices_after(store.prices, company_id as int, record),
            },
            StoreReplyView::Written { last_insert_rowid: 0 },
        ),
    }
}

/// The write that the lookup of a symbol leads to does to the company rows
/// what the upsert of the symbol does.
pub proof fn lemma_planned_write_is_upsert(
    companies: Seq<CompanyRowView>,
    symbol: Seq<char>,
    isin: Seq<char>,
    series: Seq<char>,
)
    requires
        company_rules(companies),
        companies.len() <= MAX_COMPANIES,
    ensures
        ({
            let existing: Option<i64> = match held_id(companies, symbol) {
                Some(id) => Some(id as i64),
                None => None,
            };
            companies_after(companies, company_write_for(existing), symbol, isin, series)
                == companies_after_upsert(companies, symbol, isin, series)
        }),
{
    lemma_symbol_index(companies, symbol);
}

/// The store after a batch, record by record: the store after the first
/// `count + 1` records is the store after the first `count`, with one
/// more record stored.
pub proof fn lemma_store_next_record(store: StoreRows, records: Seq<StockRecordView>, count: int)
    requires
        0 <= count < records.len(),
    ensures
        store_after_records(store, records.take(count + 1)) == store_after_record(
            store_after_records(store, records.take(count)),
            records[count],
        ),
{
    assert(records.take(count + 1).drop_last() =~= records.take(count));
}

/// A batch keeps the rules of the store and adds at most one company a record.
pub proof fn lemma_store_records(store: StoreRows, records: Seq<StockRecordView>)
    requires
        store_rules(store),
    ensures
        store_rules(store_after_records(store, records)),
        store.companies.len() <= store_after_records(store, records).companies.len()
            <= store.companies.len() + records.len(),
    decreases records.len(),
{
    if records.len() > 0 {
        let front = store_after_records(store, records.drop_last());
        lemma_store_records(store, records.drop_last());
        lemma_store_record(front, records.last());
        lemma_upsert_company(
            front.companies,
            records.last().symbol,
            records.last().isin,
            records.last().series,
        );
    }
}

/// A snapshot without a day shows only rows of the latest day: every row of
/// it has the latest day the store holds, no row of the store has a later
/// day, and every row of the store with the latest day is in it.
pub proof fn lemma_snapshot_is_latest_day(prices: Seq<PriceRowView>)
    requires
        prices.len() > 0,
    ensures
        latest_day(prices) matches Some(day) && {
            &&& forall|k: int|
                0 <= k < snapshot_rows(prices, None).len() ==> (#[trigger] snapshot_rows(
                    prices,
                    None,
                )[k]).record.timestamp == day
            &&& forall|i: int|
                0 <= i < prices.len() ==> on_or_before((#[trigger] prices[i]).record.timestamp, day)
            &&& forall|i: int|
                0 <= i < prices.len() && (#[trigger] prices[i]).record.timestamp == day
                    ==> snapshot_rows(prices, None).contains(prices[i])
        },
{
    lemma_latest_day(prices);
    lemma_rows_of_day(prices, latest_day(prices)->0);
}

/// The store in memory.
#[derive(Debug)]
pub struct MemoryStore {
    companies: Vec<CompanyRow>,
    prices: Vec<PriceRow>,
}

impl View for MemoryStore {
    type V = StoreRows;

    closed spec fn view(&self) -> StoreRows {
        StoreRows { companies: self.companies.deep_view(), prices: self.prices.deep_view() }
    }
}

impl MemoryStore {
    /// The store keeps its rules and numbers no more companies than it can.
    /// Every store that [`MemoryStore::new`] made and the methods below
    /// changed is well formed.
    pub open spec fn wf(self) -> bool {
        store_rules(self@) && self@.companies.len() <= MAX_COMPANIES
    }

    /// An empty store.
    pub fn new() -> (store: Self)
        ensures
            store@.companies.len() == 0,
            store@.prices.len() == 0,
            store.wf(),
    {
        MemoryStore { companies: Vec::new(), prices: Vec::new() }
    }

    /// The company rows, in id order.
    pub fn companies(&self) -> (rows: &Vec<CompanyRow>)
        ensures
            rows.deep_view() == self@.companies,
    {
        &self.companies
    }

    /// The price rows, in the order they were first written.
    pub fn prices(&self) -> (rows: &Vec<PriceRow>)
        ensures
            rows.deep_view() == self@.prices,
    {
        &self.prices
    }

    /// The id that `symbol` is held under, if it is held.
    pub fn find_company(&self, symbol: &str) -> (id: Option<i64>)
        ensures
            match id {
                Some(i) => held_id(self@.companies, symbol@) == Some(i as int),
                None => held_id(self@.companies, symbol@) is None,
            },
    {
        let ghost rows = self@.companies;
        let mut i: usize = 0;
        while i < self.companies.len()
            invariant
                i <= self.companies.len(),
                rows == self.companies.deep_view(),
                forall|j: int| 0 <= j < i ==> (#[trigger] rows[j]).symbol != symbol@,
            decreases self.companies.len() - i,
        {
            if crate::text::str_eq(self.companies[i].symbol.as_str(), symbol) {
                proof {
                    assert(rows[i as int] == self.companies[i as int]@);
                    lemma_symbol_found_at(rows, symbol@, i as int);
                }
                return Some(self.companies[i].id);
            }
            assert(rows[i as int] == self.companies[i as int]@);
            i = i + 1;
        }
        proof {
            lemma_symbol_index(rows, symbol@);
            if let Some(k) = symbol_index(rows, symbol@) {
                assert(rows[k].symbol == symbol@);
            }
        }
        None
    }

    /// Looks `symbol` up, then refreshes identifier and series where it is
    /// held and adds a row where it is not. Returns the company's id.
    pub fn upsert_company(&mut self, symbol: &str, isin: &str, series: &str) -> (id: i64)
        requires
            old(self).wf(),
            old(self)@.companies.len() < MAX_COMPANIES,
        ensures
            final(self)@.companies == companies_after_upsert(
                old(self)@.companies,
                symbol@,
                isin@,
                series@,
            ),
            final(self)@.prices == old(self)@.prices,
            id == upserted_id(old(self)@.companies, symbol@),
            final(self).wf(),
    {
        proof {
            lemma_symbol_index(self@.companies, symbol@);
            lemma_upsert_company(self@.companies, symbol@, isin@, series@);
        }
        let ghost before = self@.companies;
        match plan_company_upsert(self.find_company(symbol)) {
            CompanyWrite::Update { id } => {
                let at: usize = (id - 1) as usize;
                assert(before[at as int] == self.companies[at as int]@);
                let row = CompanyRow {
                    id,
                    symbol: String::from_str(symbol),
                    isin: String::from_str(isin),
                    series: String::from_str(series),
                };
                self.companies.set(at, row);
                assert(self.companies.deep_view() =~= companies_after_upsert(
                    before,
                    symbol@,
                    isin@,
                    series@,
                ));
                id
            },
            CompanyWrite::Insert => {
                let id: i64 = (self.companies.len() + 1) as i64;
                self.companies.push(
                    CompanyRow {
                        id,
                        symbol: String::from_str(symbol),
                        isin: String::from_str(isin),
                        series: String::from_str(series),
                    },
                );
                assert(self.companies.deep_view() =~= companies_after_upsert(
                    before,
                    symbol@,
                    isin@,
                    series@,
                ));
                id
            },
        }
    }

    /// The place of the price row of a company and a trading day.
    fn price_position(&self, company_id: i64, day: TradeDate) -> (place: Option<usize>)
        ensures
            match place {
                Some(i) => price_index(self@.prices, company_id as int, day@) == Some(i as int),
                None => price_index(self@.prices, company_id as int, day@) is None,
            },
    {
        let ghost rows = self@.prices;
        let mut i: usize = 0;
        while i < self.prices.len()
            invariant
                i <= self.prices.len(),
                rows == self.prices.deep_view(),
                forall|j: int|
                    0 <= j < i ==> !((#[trigger] rows[j]).company_id == company_id
                        && rows[j].record.timestamp == day@),
            decreases self.prices.len() - i,
        {
            assert(rows[i as int] == self.prices[i as int]@);
            if self.prices[i].company_id == company_id && self.prices[i].record.timestamp.is_same_day(
                &day,
            ) {
                proof {
                    lemma_price_found_at(rows, company_id as int, day@, i as int);
                }
                return Some(i);
            }
            i = i + 1;
        }
        proof {
            lemma_price_index(rows, company_id as int, day@);
            if let Some(k) = price_index(rows, company_id as int, day@) {
                assert(rows[k].company_id == company_id);
            }
        }
        None
    }

    /// Writes the price row of a company and the record's trading day, in
    /// place of the row the store holds for the two, if it holds one.
    pub fn upsert_daily_price(&mut self, company_id: i64, price_data: StockRecord)
        requires
            old(self).wf(),
        ensures
            final(self)@.prices == prices_after(
                old(self)@.prices,
                company_id as int,
                price_data@,
            ),
            final(self)@.companies == old(self)@.companies,
            final(self).wf(),
    {
        proof {
            lemma_write_price(self@.prices, company_id as int, price_data@);
        }
        let ghost rows = self@.prices;
        let ghost row = PriceRowView { company_id: company_id as int, record: price_data@ };
        proof {
            lemma_price_index(rows, company_id as int, price_data@.timestamp);
        }
        match self.price_position(company_id, price_data.timestamp) {
            Some(i) => {
                self.prices.set(i, PriceRow { company_id, record: price_data });
                assert(self.prices.deep_view() =~= rows.update(i as int, row));
            },
            None => {
                self.prices.push(PriceRow { company_id, record: price_data });
                assert(self.prices.deep_view() =~= rows.push(row));
            },
        }
    }

    /// The latest trading day that the store holds a price of.
    pub fn latest_trade_date(&self) -> (day: Option<TradeDate>)
        ensures
            day.deep_view() == latest_day(self@.prices),
    {
        let ghost rows = self@.prices;
        let mut latest: Option<TradeDate> = None;
        let mut i: usize = 0;
        assert(rows.take(0) =~= Seq::<PriceRowView>::empty());
        while i < self.prices.len()
            invariant
                i <= self.prices.len(),
                rows == self.prices.deep_view(),
                latest.deep_view() == latest_day(rows.take(i as int)),
            decreases self.prices.len() - i,
        {
            proof {
                assert(rows.take(i + 1).drop_last() =~= rows.take(i as int));
                assert(rows.take(i + 1).last() == self.prices[i as int]@);
            }
            let here: TradeDate = self.prices[i].record.timestamp;
            latest =
            match latest {
                Some(day) => if here.is_on_or_before(&day) {
                    Some(day)
                } else {
                    Some(here)
                },
                None => Some(here),
            };
            i = i + 1;
        }
        assert(rows.take(self.prices.len() as int) =~= rows);
        latest
    }

    /// The rows of a snapshot: the rows of the day asked for, or without one
    /// the rows of the latest day the store holds.
    pub fn latest_prices(&self, day: Option<TradeDate>) -> (rows: Vec<PriceRow>)
        ensures
            rows.deep_view() == snapshot_rows(self@.prices, day.deep_view()),
    {
        let resolved: Option<TradeDate> = match day {
            Some(d) => Some(d),
            None => self.latest_trade_date(),
        };
        let ghost all = self@.prices;
        let mut rows: Vec<PriceRow> = Vec::new();
        let mut i: usize = 0;
        assert(all.take(0) =~= Seq::<PriceRowView>::empty());
        assert(rows.deep_view() =~= Seq::<PriceRowView>::empty());
        while i < self.prices.len()
            invariant
                i <= self.prices.len(),
                all == self.prices.deep_view(),
                match resolved {
                    Some(d) => rows.deep_view() == rows_of_day(all.take(i as int), d@),
                    None => rows.deep_view() == all.take(i as int),
                },
            decreases self.prices.len() - i,
        {
            let ghost before = rows.deep_view();
            proof {
                assert(all.take(i + 1).drop_last() =~= all.take(i as int));
                assert(all.take(i + 1).last() == self.prices[i as int]@);
            }
            let keep: bool = match resolved {
                Some(d) => self.prices[i].record.timestamp.is_same_day(&d),
                None => true,
            };
            if keep {
                let row = PriceRow {
                    company_id: self.prices[i].company_id,
                    record: self.prices[i].record.clone(),
                };
                rows.push(row);
                assert(rows.deep_view() =~= before.push(self.prices[i as int]@));
                assert(all.take(i + 1) =~= all.take(i as int).push(self.prices[i as int]@));
            }
            i = i + 1;
        }
        assert(all.take(self.prices.len() as int) =~= all);
        proof {
            lemma_latest_day(all);
        }
        rows
    }

    /// Answers the statement of a batch as the store's rules say.
    pub fn answer(&mut self, batch: &StoreBatch) -> (reply: StoreReply)
        requires
            old(self).wf(),
        ensures
            final(self).wf(),
            (final(self)@, reply@) == store_answer(old(self)@, batch.records(), batch.progress()),
    {
        let progress = batch.position();
        let record = batch.current();
        let ghost before = self@;
        proof {
            lemma_symbol_index(before.companies, record@.symbol);
        }
        match progress.phase {
            StorePhase::FindCompany => StoreReply::Company(
                self.find_company(record.symbol.as_str()),
            ),
            StorePhase::WriteCompany(CompanyWrite::Insert) => {
                if self.find_company(record.symbol.as_str()).is_some() {
                    StoreReply::Failed(
                        String::from_str("UNIQUE constraint failed: companies.symbol"),
                    )
                } else if self.companies.len() >= MAX_COMPANIES {
                    StoreReply::Failed(String::from_str("database or disk is full"))
                } else {
                    proof {
                        lemma_upsert_company(
                            before.companies,
                            record@.symbol,
                            record@.isin,
                            record@.series,
                        );
                    }
                    let id: i64 = (self.companies.len() + 1) as i64;
                    self.companies.push(
                        CompanyRow {
                            id,
                            symbol: record.symbol.clone(),
                            isin: record.isin.clone(),
                            series: record.series.clone(),
                        },
                    );
                    assert(self.companies.deep_view() =~= companies_after(
                        before.companies,
                        CompanyWrite::Insert,
                        record@.symbol,
                        record@.isin,
                        record@.series,
                    ));
                    StoreReply::Written { last_insert_rowid: id }
                }
            },
            StorePhase::WriteCompany(CompanyWrite::Update { id }) => {
                if 1 <= id && id as u64 <= self.companies.len() as u64 {
                    let at: usize = (id - 1) as usize;
                    assert(before.companies[at as int] == self.companies[at as int]@);
                    let row = CompanyRow {
                        id: self.companies[at].id,
                        symbol: self.companies[at].symbol.clone(),
                        isin: record.isin.clone(),
                        series: record.series.clone(),
                    };
                    self.companies.set(at, row);
                    assert(self.companies.deep_view() =~= companies_after(
                        before.companies,
                        CompanyWrite::Update { id },
                        record@.symbol,
                        record@.isin,
                        record@.series,
                    ));
                    assert(company_rules(self@.companies)) by {
                        assert forall|i: int, j: int|
                            0 <= i < j < self@.companies.len() implies (
                        #[trigger] self@.companies[i]).symbol != (
                        #[trigger] self@.companies[j]).symbol by {
                            assert(self@.companies[i].symbol == before.companies[i].symbol);
                            assert(self@.companies[j].symbol == before.companies[j].symbol);
                        }
                    }
                }
                StoreReply::Written { last_insert_rowid: 0 }
            },
            StorePhase::WritePrice { company_id } => {
                self.upsert_daily_price(company_id, record.clone());
                StoreReply::Written { last_insert_rowid: 0 }
            },
        }
    }

    /// Stores a batch of records: for each in turn, upserts the company and
    /// writes the price row under the company's id. Returns the number of
    /// records stored, which is all of them.
    pub fn store_stock_records(&mut self, records: Vec<StockRecord>) -> (stored: usize)
        requires
            old(self).wf(),
            old(self)@.companies.len() + records.len() <= MAX_COMPANIES,
        ensures
            final(self).wf(),
            stored == records.len(),
            final(self)@ == store_after_records(old(self)@, records.deep_view()),
    {
        let ghost start = self@;
        let ghost all = records.deep_view();
        let mut step = begin_store(records);
        assert(all.take(0) =~= Seq::<StockRecordView>::empty());
        loop
            invariant
                self.wf(),
                start == old(self)@,
                all == records.deep_view(),
                store_rules(start),
                start.companies.len() + all.len() <= MAX_COMPANIES,
                match step@ {
                    StoreStepView::Execute { records, progress } => {
                        let done = store_after_records(start, all.take(progress.index as int));
                        let record = all[progress.index as int];
                        &&& records == all
                        &&& progress.index < all.len()
                        &&& match progress.phase {
                            StorePhase::FindCompany => self@ == done,
                            StorePhase::WriteCompany(write) => self@ == done && write
                                == company_write_for(
                                match held_id(done.companies, record.symbol) {
                                    Some(id) => Some(id as i64),
                                    None => None,
                                },
                            ),
                            StorePhase::WritePrice { company_id } => {
                                &&& self@.companies == store_after_record(done, record).companies
                                &&& self@.prices == done.prices
                                &&& company_id == upserted_id(done.companies, record.symbol)
                            },
                        }
                    },
                    StoreStepView::Finished { stored } => stored == all.len() && self@
                        == store_after_records(start, all),
                    StoreStepView::Aborted { .. } => false,
                },
            decreases
                match step@ {
                    StoreStepView::Execute { records, progress } => 3 * (all.len()
                        - progress.index) - match progress.phase {
                        StorePhase::FindCompany => 0int,
                        StorePhase::WriteCompany(_) => 1int,
                        StorePhase::WritePrice { .. } => 2int,
                    },
                    _ => 0int,
                },
        {
            match step {
                StoreStep::Execute(batch) => {
                    let ghost progress = batch.progress();
                    let ghost done = store_after_records(start, all.take(progress.index as int));
                    let ghost record = all[progress.index as int];
                    proof {
                        lemma_store_records(start, all.take(progress.index as int));
                        lemma_store_next_record(start, all, progress.index as int);
                        lemma_symbol_index(done.companies, record.symbol);
                        lemma_upsert_company(
                            done.companies,
                            record.symbol,
                            record.isin,
                            record.series,
                        );
                        lemma_planned_write_is_upsert(
                            done.companies,
                            record.symbol,
                            record.isin,
                            record.series,
                        );
                        if progress.index + 1 == all.len() {
                            assert(all.take(all.len() as int) =~= all);
                        }
                    }
                    let reply = self.answer(&batch);
                    step = batch.on_reply(reply);
                },
                StoreStep::Finished { stored } => {
                    return stored;
                },
                StoreStep::Aborted { stored, error } => {
                    return stored;
                },
            }
        }
    }
}

} // verus!
