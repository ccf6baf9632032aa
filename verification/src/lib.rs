//! Candlestick charting core: a fixed-point price-bar model, the rules a
//! feed client follows while it streams snapshots, and the geometry that
//! turns a series into drawable primitives.

pub mod chart;
pub mod config;
pub mod data_format;
pub mod dev_mock;
pub mod network;
