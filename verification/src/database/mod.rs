pub mod memory;
pub mod queries;
pub mod schema;
pub mod statement;
pub mod storage;

pub use queries::{
    get_companies, get_company_prices, get_ingestion_logs, get_latest_prices,
    get_market_overview, get_top_performers, latest_trade_date, resolve_snapshot_day,
    search_companies, snapshot_needs_latest_day, top_performers, MarketOverviewQuery, Metric,
    PagedQuery,
};
pub use schema::{initialize, schema, schema_statements};
pub use statement::{SqlValue, Statement};
pub use storage::{
    begin_store, company_id_after, find_company, log_ingestion, plan_company_upsert,
    upsert_company, upsert_daily_price, Company, CompanyWrite, IngestionLog, IngestionLogInsert,
    IngestionStatus, StoreBatch, StorePhase, StoreProgress, StoreReply, StoreStep,
};
