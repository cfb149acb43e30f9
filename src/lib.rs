//! Windowed VWAP aggregation of exchange trade streams.
//!
//! Prices and sizes are fixed-point quantities counted in units of
//! `10^-8` (see [`types::UNITS_PER_WHOLE`]); timestamps are milliseconds since
//! the Unix epoch.

pub mod types;
pub mod text;
pub mod aggregate;
pub mod worker;
pub mod decimal;
pub mod record;
pub mod adapters;
