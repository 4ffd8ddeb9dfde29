pub mod client;
pub mod record;

pub use client::{Download, FetchError, NseClient, PendingDownload, StrategyReply};
pub use record::{parse_csv_data, DecodeError, DecodeReport, StockRecord};
