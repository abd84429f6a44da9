//! Core logic of a small market-data service: candle bars and precomputed
//! indicator series are read from an in-memory tabular snapshot, filtered by
//! contract and by an inclusive `YYYY-MM-DD` date window, sorted by timestamp,
//! and mapped into chart-ready structures.

pub mod dates;
pub mod laws;
pub mod models;
pub mod query;
pub mod series;
pub mod table;
