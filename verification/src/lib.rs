//! Donation records of the Australian Electoral Commission's detailed
//! receipts: the rows the database holds, and the computations that turn
//! query results into per-year totals, per-party collections and lookups.

pub mod entities;
pub mod error;
pub mod helpers;
pub mod keyed_map;
pub mod models;
pub mod queries;
pub mod statistics;
