//! The core of an end-of-day market data service for the exchange's
//! bhavcopy exports: the trading calendar, the fetcher's source list and
//! acceptance test, the decoder of the two export layouts, the statements
//! of the relational store with the write protocol between them, and the
//! page arithmetic of the query layer.
//!
//! Nothing here touches the network or the store. Whoever does hands in
//! what came back, and gets the next thing to do.

pub mod api;
pub mod calendar;
pub mod database;
pub mod error;
pub mod ingest;
pub mod nse;
pub mod text;
