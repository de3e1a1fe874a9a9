//! Verified core of a streaming market-data ingester.
//!
//! The library normalizes raw exchange wire messages into canonical trade and
//! candle records, models the persistent store's contract, folds raw trades
//! into OHLC candles per time window, and drives the connection supervisor
//! and keepalive schedules as pure state machines. Prices and volumes are
//! fixed-point integers (eight decimal places); the unverified shell around
//! the library performs the network and database calls.

pub mod aggregate;
pub mod ascii;
pub mod backfill;
pub mod fixed;
pub mod frames;
pub mod jsonio;
pub mod keepalive;
pub mod normalize;
pub mod records;
pub mod store;
pub mod supervisor;
pub mod window;
